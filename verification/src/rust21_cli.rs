//! A `wc`-like tool: counting lines, words and characters, and rendering
//! the counts as text or JSON. Its command line is declared with clap.
use vstd::prelude::*;
use vstd::string::*;
use crate::command_line::{
    as_flag, new_arg, new_command, with_about, with_arg, with_choices, with_default, with_help, with_long,
    with_required, with_short, with_subcommand, with_version, ArgDesc, CommandDesc, DescribedCommand,
    SubcommandDesc,
};
use crate::strings::{chars_of, count_lines, count_words, decimal, lines, push_decimal, str_equals, words};

verus! {

/// The three counts.
#[derive(Debug, Clone, Copy, PartialEq, Eq, Structural)]
pub struct Counts {
    pub lines: usize,
    pub words: usize,
    pub chars: usize,
}

/// Counts lines (as `str::lines` yields them), whitespace-separated words
/// and characters.
pub fn count(text: &str) -> (c: Counts)
    ensures
        c.lines == lines(text@).len(),
        c.words == words(text@).len(),
        c.chars == text@.len(),
{
    let v = chars_of(text);
    Counts { lines: count_lines(&v), words: count_words(&v), chars: v.len() }
}

/// `{"lines":L,"words":W,"chars":C}`.
pub open spec fn json_counts(c: Counts) -> Seq<char> {
    "{\"lines\":"@ + decimal(c.lines as nat) + ",\"words\":"@ + decimal(c.words as nat) + ",\"chars\":"@
        + decimal(c.chars as nat) + "}"@
}

/// `L 行，W 个词，C 个字符`.
pub open spec fn plain_counts(c: Counts) -> Seq<char> {
    decimal(c.lines as nat) + " 行，"@ + decimal(c.words as nat) + " 个词，"@ + decimal(c.chars as nat) + " 个字符"@
}

/// Renders counts as JSON when `format` is `json`, as text otherwise.
pub fn render(counts: &Counts, format: &str) -> (s: String)
    ensures
        s@ == (if format@ == "json"@ { json_counts(*counts) } else { plain_counts(*counts) }),
{
    if str_equals(format, "json") {
        let mut s = String::from_str("{\"lines\":");
        push_decimal(&mut s, counts.lines as u64);
        s.append(",\"words\":");
        push_decimal(&mut s, counts.words as u64);
        s.append(",\"chars\":");
        push_decimal(&mut s, counts.chars as u64);
        s.append("}");
        s
    } else {
        let mut s = String::new();
        push_decimal(&mut s, counts.lines as u64);
        s.append(" 行，");
        push_decimal(&mut s, counts.words as u64);
        s.append(" 个词，");
        push_decimal(&mut s, counts.chars as u64);
        s.append(" 个字符");
        s
    }
}

/// The `wc-lite` command line: version `1.0.0`; an optional `file`;
/// `-l/--lines` and `-v/--verbose` as on/off flags; `--format` taking
/// `plain` or `json`, `plain` by default; and an `info` subcommand.
pub open spec fn wc_cli() -> CommandDesc {
    CommandDesc {
        name: "wc-lite"@,
        version: Some("1.0.0"@),
        about: Some("统计文本的行数 / 词数 / 字符数"@),
        args: seq![
            ArgDesc {
                id: "file"@,
                short: None,
                long: None,
                help: Some("要统计的文件；省略时从标准输入读"@),
                required: false,
                flag: false,
                choices: None,
                default: None,
            },
            ArgDesc {
                id: "lines"@,
                short: Some('l'),
                long: Some("lines"@),
                help: Some("只统计行数"@),
                required: false,
                flag: true,
                choices: None,
                default: None,
            },
            ArgDesc {
                id: "format"@,
                short: None,
                long: Some("format"@),
                help: Some("输出格式"@),
                required: false,
                flag: false,
                choices: Some(seq!["plain"@, "json"@]),
                default: Some("plain"@),
            },
            ArgDesc {
                id: "verbose"@,
                short: Some('v'),
                long: Some("verbose"@),
                help: Some("打开详细日志"@),
                required: false,
                flag: true,
                choices: None,
                default: None,
            },
        ],
        subcommands: seq![SubcommandDesc { name: "info"@, about: Some("显示构建信息"@) }],
    }
}

/// Builds the `wc-lite` command line.
pub fn build_cli() -> (c: DescribedCommand)
    ensures
        c.desc() == wc_cli(),
{
    let file = with_required(with_help(new_arg("file"), "要统计的文件；省略时从标准输入读"), false);
    let lines = with_help(as_flag(with_long(with_short(new_arg("lines"), 'l'), "lines")), "只统计行数");
    let format = with_help(
        with_default(with_choices(with_long(new_arg("format"), "format"), "plain", "json"), "plain"),
        "输出格式",
    );
    let verbose = with_help(as_flag(with_long(with_short(new_arg("verbose"), 'v'), "verbose")), "打开详细日志");
    let info = with_about(new_command("info"), "显示构建信息");
    let c = with_version(new_command("wc-lite"), "1.0.0");
    let c = with_about(c, "统计文本的行数 / 词数 / 字符数");
    let c = with_arg(c, file);
    let c = with_arg(c, lines);
    let c = with_arg(c, format);
    let c = with_arg(c, verbose);
    let c = with_subcommand(c, info);
    assert(c.desc().args =~= wc_cli().args);
    assert(c.desc().subcommands =~= wc_cli().subcommands);
    c
}

} // verus!
