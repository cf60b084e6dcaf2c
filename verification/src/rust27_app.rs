//! The task manager application: configuration overrides, command-line
//! parsing into a typed command, a service over the task store, plain-text
//! rendering and exit codes.
//!
//! Parsing the command line is `clap`'s work. Since the command line is
//! fixed, what clap accepts and the values it hands back are named as
//! functions of the words; what is proved is how those values become a
//! [`Cli`], which errors are usage errors and with which text, which
//! requests each command hands to the task store, and every text the
//! application prints.
use vstd::prelude::*;
use vstd::string::*;
use clap::{Arg, ArgAction, ArgMatches, Command};
use clap::builder::RangedI64ValueParser;
use rusqlite::Connection;
use crate::rust26_database::{
    add_task, all_tasks_sql, complete_sql, complete_task, contains_pattern, delete_sql, delete_task, init,
    insert_call, list_open_tasks, refusal, sqlite_failure, changed_answer, rows_answer, version_answer, SqlAnswer, list_tasks, migration_calls, open_tasks_sql, search_sql, search_tasks, stats,
    stats_sql, version_query, SqlCall, SqlValue, Stats, Task, TaskDb, TaskError, MIGRATION_COUNT,
};
use crate::rust24_cargo::{holds_no, lemma_decimal_has_no, lemma_seg_len_prefix};
use crate::strings::{
    ascii_lower_all, chars_of, decimal, is_ws, join, lemma_join_cons, lemma_seg_len, lemma_trim_end_at, lemma_trim_start_at, lemma_trim_idempotent, lemma_trim_keeps_out,
    lemma_trim_start_is_suffix, lines, next_line, push_range, push_signed_decimal, seg_len, signed_decimal,
    str_equals, strip_cr, trim, trim_bounds, to_ascii_lower,
};

verus! {

// ---------------------------------------------------------------------------
// Output format, configuration, errors
// ---------------------------------------------------------------------------

/// How output is rendered.
#[derive(Debug, Clone, Copy, PartialEq, Eq, Structural)]
pub enum Format {
    /// Text for people.
    Plain,
    /// JSON for programs.
    Json,
}

impl Default for Format {
    fn default() -> (f: Self)
        ensures
            f == Format::Plain,
    {
        Format::Plain
    }
}

/// Application configuration: a file provides it, the environment
/// overrides it.
#[derive(Debug, Clone, PartialEq, Eq)]
pub struct AppConfig {
    /// Database file path; `None` means an in-memory database.
    pub database: Option<String>,
    /// Default output format.
    pub format: Format,
}

impl Default for AppConfig {
    fn default() -> (c: Self)
        ensures
            c.database is None,
            c.format == Format::Plain,
    {
        AppConfig { database: None, format: Format::Plain }
    }
}

/// Application errors, kept apart so that each maps to its own exit code.
#[derive(Debug)]
pub enum AppError {
    /// The command line was wrong (missing argument, unknown subcommand, ...).
    Usage(String),
    /// The business rules or the database refused.
    Task(TaskError),
    /// Something that should not happen but must be handled.
    Internal(String),
}

impl From<TaskError> for AppError {
    fn from(error: TaskError) -> (e: Self) {
        AppError::Task(error)
    }
}

impl vstd::std_specs::convert::FromSpecImpl<TaskError> for AppError {
    open spec fn obeys_from_spec() -> bool {
        true
    }

    open spec fn from_spec(v: TaskError) -> AppError {
        AppError::Task(v)
    }
}

impl AppError {
    /// The message shown to a user.
    pub fn message(&self) -> (s: String)
        ensures
            self matches AppError::Usage(m) ==> s@ == "用法错误："@ + m@,
            self matches AppError::Internal(m) ==> s@ == "内部错误："@ + m@,
            self matches AppError::Task(TaskError::EmptyTitle) ==> s@ == "任务标题不能为空"@,
            self matches AppError::Task(TaskError::InvalidPriority(v)) ==> s@ == "优先级 "@
                + crate::strings::signed_decimal(v as int) + " 不在 1..=3 之间"@,
            self matches AppError::Task(TaskError::Sqlite { text, .. }) ==> s@ == "数据库错误："@ + text@,
    {
        match self {
            AppError::Usage(message) => {
                let mut s = String::from_str("用法错误：");
                s.append(message.as_str());
                s
            },
            AppError::Task(error) => error.message(),
            AppError::Internal(message) => {
                let mut s = String::from_str("内部错误：");
                s.append(message.as_str());
                s
            },
        }
    }
}

/// Exit codes: 2 for a usage error, 1 for a refused task, 70 for an
/// internal error (0 is success).
pub fn exit_code(error: &AppError) -> (code: i32)
    ensures
        code == match error {
            AppError::Usage(_) => 2i32,
            AppError::Task(_) => 1i32,
            AppError::Internal(_) => 70i32,
        },
{
    match error {
        AppError::Usage(_) => 2,
        AppError::Task(_) => 1,
        AppError::Internal(_) => 70,
    }
}

// ---------------------------------------------------------------------------
// The command line
// ---------------------------------------------------------------------------

/// A parsed subcommand.
#[derive(Debug, Clone, PartialEq, Eq)]
pub enum Action {
    Add { title: String },
    List { all: bool },
    Done { id: i64 },
    Delete { id: i64 },
    Search { keyword: String },
}

/// Global options.
#[derive(Debug, Clone, PartialEq, Eq)]
pub struct Options {
    pub format: Format,
    pub database: Option<String>,
}

/// One complete command line.
#[derive(Debug, Clone, PartialEq, Eq)]
pub struct Cli {
    pub options: Options,
    pub action: Action,
}

#[verifier::external_type_specification]
#[verifier::external_body]
pub struct ExCommand(Command);

#[verifier::external_type_specification]
#[verifier::external_body]
pub struct ExArg(Arg);

#[verifier::external_type_specification]
#[verifier::external_body]
pub struct ExArgAction(ArgAction);

#[verifier::external_type_specification]
#[verifier::external_body]
pub struct ExArgMatches(ArgMatches);

#[verifier::external_type_specification]
#[verifier::external_body]
#[verifier::reject_recursive_types(T)]
pub struct ExRangedI64ValueParser<T: TryFrom<i64> + Clone + Send + Sync = i64>(RangedI64ValueParser<T>);

/// `Command::new`: a command with a name.
pub assume_specification[ Command::new ](name: impl Into<clap::builder::Str>) -> Command;

/// `Command::about`: sets the description shown in help.
pub assume_specification[ Command::about ](
    command: Command,
    about: impl clap::builder::IntoResettable<clap::builder::StyledStr>,
) -> Command;

/// `Command::arg`: adds an argument.
pub assume_specification[ Command::arg ](command: Command, a: impl Into<Arg>) -> Command;

/// `Command::subcommand`: adds a subcommand.
pub assume_specification[ Command::subcommand ](command: Command, subcmd: impl Into<Command>) -> Command;

/// `Arg::new`: an argument with an id.
pub assume_specification[ Arg::new ](id: impl Into<clap::Id>) -> Arg;

/// `Arg::long`: the argument's long flag.
pub assume_specification[ Arg::long ](arg: Arg, l: impl clap::builder::IntoResettable<clap::builder::Str>) -> Arg;

/// `Arg::help`: the argument's help text.
pub assume_specification[ Arg::help ](
    arg: Arg,
    h: impl clap::builder::IntoResettable<clap::builder::StyledStr>,
) -> Arg;

/// `Arg::required`: whether the argument must be given.
pub assume_specification[ Arg::required ](arg: Arg, yes: bool) -> Arg;

/// `Arg::global`: whether subcommands accept the argument too.
pub assume_specification[ Arg::global ](arg: Arg, yes: bool) -> Arg;

/// `Arg::action`: what giving the argument does.
pub assume_specification[ Arg::action ](
    arg: Arg,
    action: impl clap::builder::IntoResettable<ArgAction>,
) -> Arg;

/// `Arg::value_parser`: which values are accepted, and as what type.
pub assume_specification[ Arg::value_parser ](
    arg: Arg,
    parser: impl clap::builder::IntoResettable<clap::builder::ValueParser>,
) -> Arg;

/// `Arg::default_value`: the value used when the argument is absent.
pub assume_specification[ Arg::default_value ](
    arg: Arg,
    val: impl clap::builder::IntoResettable<clap::builder::OsStr>,
) -> Arg;

/// `ArgAction::SetTrue`: a flag that stores `true` when present.
#[verifier::external_body]
pub(crate) fn set_true() -> ArgAction {
    ArgAction::SetTrue
}

/// The parser of `i64` values over their whole range (what
/// `clap::value_parser!(i64)` gives).
#[verifier::external_body]
fn i64_values() -> RangedI64ValueParser<i64> {
    RangedI64ValueParser::new()
}

/// The `tasks` command line as clap holds it. Only [`build_cli`] makes one,
/// so every value of this type is that one command line.
pub struct TasksCommand {
    command: Command,
}

/// What clap matched on the `tasks` command line, with the words it parsed.
pub struct TasksMatches {
    matches: ArgMatches,
    words: Ghost<Seq<Seq<char>>>,
}

impl TasksMatches {
    /// The words that were parsed.
    pub closed spec fn words(&self) -> Seq<Seq<char>> {
        self.words@
    }
}

/// A value clap stores for an argument.
pub enum ArgValue {
    Text(Seq<char>),
    Flag(bool),
    Integer(i64),
}

/// The words of a command line, as character sequences.
pub open spec fn words_of(args: Seq<&str>) -> Seq<Seq<char>> {
    args.map_values(|a: &str| a@)
}

/// clap's refusal of `words` on the `tasks` command line: `None` when it
/// accepts them, otherwise the text of its error.
pub uninterp spec fn tasks_refusal(words: Seq<Seq<char>>) -> Option<Seq<char>>;

/// The subcommand that clap found in accepted `words`, if any.
pub uninterp spec fn tasks_subcommand(words: Seq<Seq<char>>) -> Option<Seq<char>>;

/// The value clap stores for argument `id` after accepting `words`: of the
/// command itself, or (with `in_sub`) of the subcommand given; `None` when
/// there is none.
pub uninterp spec fn tasks_value(words: Seq<Seq<char>>, in_sub: bool, id: Seq<char>) -> Option<ArgValue>;

/// `Command::try_get_matches_from` on the `tasks` command line and the
/// given words (the first is the program name); a refusal is returned as
/// clap's error text. The command line is always the one `build_cli`
/// builds, so the outcome is a function of the words.
#[verifier::external_body]
fn try_matches(cli: TasksCommand, args: &[&str]) -> (r: Result<TasksMatches, String>)
    ensures
        match r {
            Ok(m) => m.words() == words_of(args@) && tasks_refusal(words_of(args@)) is None,
            Err(t) => tasks_refusal(words_of(args@)) == Some(t@),
        },
{
    match cli.command.try_get_matches_from(args.iter().copied()) {
        Ok(matches) => Ok(TasksMatches { matches, words: Ghost(words_of(args@)) }),
        Err(error) => Err(error.to_string()),
    }
}

/// The subcommands the `tasks` command line declares.
pub open spec fn is_tasks_subcommand(name: Seq<char>) -> bool {
    name == "add"@ || name == "list"@ || name == "done"@ || name == "delete"@ || name == "search"@
}

/// `ArgMatches::subcommand`: the name of the subcommand given, which is one
/// that `build_cli` declares (the command takes no external subcommands).
#[verifier::external_body]
fn subcommand_name(m: &TasksMatches) -> (r: Option<String>)
    ensures
        match r {
            Some(n) => tasks_subcommand(m.words()) == Some(n@) && is_tasks_subcommand(n@),
            None => tasks_subcommand(m.words()) is None,
        },
{
    m.matches.subcommand_name().map(String::from)
}

/// The text stored for the argument of the subcommand (`in_sub`) or
/// of the command itself.
pub open spec fn text_of(v: Option<ArgValue>) -> Option<Seq<char>> {
    match v {
        Some(ArgValue::Text(t)) => Some(t),
        _ => None,
    }
}

/// The flag stored for an argument; `false` when there is none.
pub open spec fn flag_of(v: Option<ArgValue>) -> bool {
    match v {
        Some(ArgValue::Flag(b)) => b,
        _ => false,
    }
}

/// The integer stored for an argument.
pub open spec fn integer_of(v: Option<ArgValue>) -> Option<i64> {
    match v {
        Some(ArgValue::Integer(i)) => Some(i),
        _ => None,
    }
}

/// `ArgMatches::try_get_one::<String>` on the command: the text stored for
/// `id`, or `None` (also when `id` holds no text).
#[verifier::external_body]
fn top_text(m: &TasksMatches, id: &str) -> (r: Option<String>)
    ensures
        match r {
            Some(t) => tasks_value(m.words(), false, id@) == Some(ArgValue::Text(t@)),
            None => text_of(tasks_value(m.words(), false, id@)) is None,
        },
{
    m.matches.try_get_one::<String>(id).ok().flatten().cloned()
}

/// `ArgMatches::try_get_one::<String>` on the subcommand given.
#[verifier::external_body]
fn sub_text(m: &TasksMatches, id: &str) -> (r: Option<String>)
    ensures
        match r {
            Some(t) => tasks_value(m.words(), true, id@) == Some(ArgValue::Text(t@)),
            None => text_of(tasks_value(m.words(), true, id@)) is None,
        },
{
    m.matches.subcommand().and_then(|(_, sub)| sub.try_get_one::<String>(id).ok().flatten().cloned())
}

/// `ArgMatches::try_get_one::<bool>` on the subcommand given.
#[verifier::external_body]
fn sub_flag(m: &TasksMatches, id: &str) -> (r: Option<bool>)
    ensures
        match r {
            Some(b) => tasks_value(m.words(), true, id@) == Some(ArgValue::Flag(b)),
            None => !(tasks_value(m.words(), true, id@) matches Some(ArgValue::Flag(_))),
        },
{
    m.matches.subcommand().and_then(|(_, sub)| sub.try_get_one::<bool>(id).ok().flatten().copied())
}

/// `ArgMatches::try_get_one::<i64>` on the subcommand given.
#[verifier::external_body]
fn sub_integer(m: &TasksMatches, id: &str) -> (r: Option<i64>)
    ensures
        r == integer_of(tasks_value(m.words(), true, id@)),
{
    m.matches.subcommand().and_then(|(_, sub)| sub.try_get_one::<i64>(id).ok().flatten().copied())
}

/// The command line: a `--format plain|json` and a `--db PATH` option on
/// every subcommand, and the subcommands `add TITLE`, `list [--all]`,
/// `done ID`, `delete ID` and `search KEYWORD`.
fn build_cli() -> TasksCommand {
    let format = Arg::new("format")
        .long("format")
        .value_parser(["plain", "json"])
        .default_value("plain")
        .global(true)
        .help("输出格式");
    let db = Arg::new("db").long("db").global(true).help("SQLite 文件路径；省略时用内存库");
    let add = Command::new("add").about("添加任务").arg(
        Arg::new("title").required(true).help("任务标题"),
    );
    let list = Command::new("list").about("列出任务").arg(
        Arg::new("all").long("all").action(set_true()).help("连已完成的任务一起列出"),
    );
    let done = Command::new("done").about("标记完成").arg(
        Arg::new("id").required(true).value_parser(i64_values()).help("任务 id"),
    );
    let delete = Command::new("delete").about("删除任务").arg(
        Arg::new("id").required(true).value_parser(i64_values()).help("任务 id"),
    );
    let search = Command::new("search").about("按关键字搜索").arg(
        Arg::new("keyword").required(true).help("关键字"),
    );
    let command = Command::new("tasks")
        .about("任务管理（第 27 章综合实战）")
        .arg(format)
        .arg(db)
        .subcommand(add)
        .subcommand(list)
        .subcommand(done)
        .subcommand(delete)
        .subcommand(search);
    TasksCommand { command }
}

/// What clap extracted from an accepted command line.
#[derive(Debug, Clone)]
pub struct ParsedArgs {
    /// The value of `--format`.
    pub format: Option<String>,
    /// The value of `--db`.
    pub database: Option<String>,
    /// The subcommand's name.
    pub subcommand: Option<String>,
    /// The subcommand's `title`.
    pub title: Option<String>,
    /// The subcommand's `--all` flag.
    pub all: bool,
    /// The subcommand's `id`.
    pub id: Option<i64>,
    /// The subcommand's `keyword`.
    pub keyword: Option<String>,
}

/// The values of [`ParsedArgs`], as character sequences.
pub struct ParsedView {
    pub format: Option<Seq<char>>,
    pub database: Option<Seq<char>>,
    pub subcommand: Option<Seq<char>>,
    pub title: Option<Seq<char>>,
    pub all: bool,
    pub id: Option<i64>,
    pub keyword: Option<Seq<char>>,
}

impl View for ParsedArgs {
    type V = ParsedView;

    open spec fn view(&self) -> ParsedView {
        ParsedView {
            format: text_view(self.format),
            database: text_view(self.database),
            subcommand: text_view(self.subcommand),
            title: text_view(self.title),
            all: self.all,
            id: self.id,
            keyword: text_view(self.keyword),
        }
    }
}

/// An optional text, as a character sequence.
pub open spec fn text_view(t: Option<String>) -> Option<Seq<char>> {
    match t {
        Some(s) => Some(s@),
        None => None,
    }
}

/// What clap extracts from accepted `words`: `--format` and `--db` of the
/// command, the subcommand's name, and its `title`, `all`, `id` and
/// `keyword`.
pub open spec fn tasks_parsed(words: Seq<Seq<char>>) -> ParsedView {
    ParsedView {
        format: text_of(tasks_value(words, false, "format"@)),
        database: text_of(tasks_value(words, false, "db"@)),
        subcommand: tasks_subcommand(words),
        title: text_of(tasks_value(words, true, "title"@)),
        all: flag_of(tasks_value(words, true, "all"@)),
        id: integer_of(tasks_value(words, true, "id"@)),
        keyword: text_of(tasks_value(words, true, "keyword"@)),
    }
}

/// `"json"` selects JSON; any other value, or none, plain text.
pub open spec fn format_of(value: Option<String>) -> Format {
    match value {
        Some(v) => if v@ == "json"@ { Format::Json } else { Format::Plain },
        None => Format::Plain,
    }
}

/// The message for a missing subcommand.
pub open spec fn missing_subcommand_text() -> Seq<char> {
    "缺少子命令，可用：add / list / done / delete / search"@
}

/// The message for a missing argument.
pub open spec fn missing_text(field: Seq<char>) -> Seq<char> {
    "缺少参数 "@ + field
}

/// The message for an unknown subcommand.
pub open spec fn unknown_text(name: Seq<char>) -> Seq<char> {
    "未知子命令："@ + name
}

/// The action a subcommand names, or the text of the usage error.
pub open spec fn action_of(p: ParsedArgs) -> Result<Action, Seq<char>> {
    match p.subcommand {
        None => Err(missing_subcommand_text()),
        Some(name) => {
            if name@ == "add"@ {
                match p.title {
                    Some(t) => Ok(Action::Add { title: t }),
                    None => Err(missing_text("title"@)),
                }
            } else if name@ == "list"@ {
                Ok(Action::List { all: p.all })
            } else if name@ == "done"@ {
                match p.id {
                    Some(id) => Ok(Action::Done { id }),
                    None => Err(missing_text("id"@)),
                }
            } else if name@ == "delete"@ {
                match p.id {
                    Some(id) => Ok(Action::Delete { id }),
                    None => Err(missing_text("id"@)),
                }
            } else if name@ == "search"@ {
                match p.keyword {
                    Some(k) => Ok(Action::Search { keyword: k }),
                    None => Err(missing_text("keyword"@)),
                }
            } else {
                Err(unknown_text(name@))
            }
        },
    }
}

/// `cli` is the command line that the extracted values `p` describe.
pub open spec fn builds(p: ParsedArgs, cli: Cli) -> bool {
    &&& action_of(p) == Ok::<Action, Seq<char>>(cli.action)
    &&& cli.options.format == format_of(p.format)
    &&& cli.options.database == p.database
}

/// `text` as a `String`, for an error message made of a literal prefix and
/// a tail.
fn text_with(prefix: &str, tail: &str) -> (s: String)
    ensures
        s@ == prefix@ + tail@,
{
    let mut s = String::from_str(prefix);
    s.append(tail);
    s
}

/// Turns what clap extracted into a command line: the subcommand's name
/// selects the action, a missing value or an unknown subcommand is a usage
/// error, `--format json` selects JSON.
pub fn cli_from_parsed(p: ParsedArgs) -> (r: Result<Cli, AppError>)
    ensures
        match action_of(p) {
            Ok(action) => r matches Ok(cli) && builds(p, cli),
            Err(text) => r matches Err(AppError::Usage(m)) && m@ == text,
        },
{
    let ghost p0 = p;
    let format = match &p.format {
        Some(v) => if str_equals(v.as_str(), "json") { Format::Json } else { Format::Plain },
        None => Format::Plain,
    };
    let options = Options { format, database: p.database };
    let name = match p.subcommand {
        Some(n) => n,
        None => {
            return Err(AppError::Usage(String::from_str("缺少子命令，可用：add / list / done / delete / search")));
        },
    };
    let action = if str_equals(name.as_str(), "add") {
        match p.title {
            Some(t) => Action::Add { title: t },
            None => {
                return Err(AppError::Usage(text_with("缺少参数 ", "title")));
            },
        }
    } else if str_equals(name.as_str(), "list") {
        Action::List { all: p.all }
    } else if str_equals(name.as_str(), "done") {
        match p.id {
            Some(id) => Action::Done { id },
            None => {
                return Err(AppError::Usage(text_with("缺少参数 ", "id")));
            },
        }
    } else if str_equals(name.as_str(), "delete") {
        match p.id {
            Some(id) => Action::Delete { id },
            None => {
                return Err(AppError::Usage(text_with("缺少参数 ", "id")));
            },
        }
    } else if str_equals(name.as_str(), "search") {
        match p.keyword {
            Some(k) => Action::Search { keyword: k },
            None => {
                return Err(AppError::Usage(text_with("缺少参数 ", "keyword")));
            },
        }
    } else {
        return Err(AppError::Usage(text_with("未知子命令：", name.as_str())));
    };
    Ok(Cli { options, action })
}

/// The first line of a text, trimmed; for a text without lines, the whole
/// text trimmed.
pub open spec fn first_line_of(text: Seq<char>) -> Seq<char> {
    let ls = lines(text);
    if ls.len() > 0 {
        trim(ls[0])
    } else {
        trim(text)
    }
}

/// A text that starts and ends with a non-whitespace character and holds
/// no line break is one trimmed line.
proof fn lemma_one_trimmed_line(t: Seq<char>)
    requires
        t.len() > 0,
        !is_ws(t[0]),
        !is_ws(t.last()),
        forall|k: int| 0 <= k < t.len() ==> #[trigger] t[k] != '\n',
    ensures
        !t.contains('\n'),
        trim(t) == t,
{
    lemma_trim_start_at(t, 0);
    assert(t.skip(0) =~= t);
    lemma_trim_end_at(t, t.len() as int);
    assert(t.take(t.len() as int) =~= t);
}

/// Every usage message that the extracted values can give is one trimmed
/// line.
proof fn lemma_action_errors_are_one_line(p: ParsedArgs)
    requires
        p.subcommand matches Some(n) ==> is_tasks_subcommand(n@),
    ensures
        action_of(p) matches Err(text) ==> !text.contains('\n') && trim(text) == text,
{
    reveal_strlit("缺少子命令，可用：add / list / done / delete / search");
    reveal_strlit("缺少参数 ");
    reveal_strlit("title");
    reveal_strlit("id");
    reveal_strlit("keyword");
    reveal_strlit("add");
    reveal_strlit("list");
    reveal_strlit("done");
    reveal_strlit("delete");
    reveal_strlit("search");
    let a = missing_subcommand_text();
    lemma_one_trimmed_line(a);
    let t = missing_text("title"@);
    lemma_one_trimmed_line(t);
    let i = missing_text("id"@);
    lemma_one_trimmed_line(i);
    let k = missing_text("keyword"@);
    lemma_one_trimmed_line(k);
}

/// The first line of a text is one trimmed line: it holds no line break,
/// and trimming it again changes nothing.
pub proof fn lemma_first_line_is_one_line(text: Seq<char>)
    ensures
        !first_line_of(text).contains('\n'),
        trim(first_line_of(text)) == first_line_of(text),
{
    let ls = lines(text);
    if ls.len() > 0 {
        let n = seg_len(text, '\n');
        lemma_seg_len(text, '\n');
        let line = ls[0];
        if n >= text.len() {
            assert(line == text);
            assert forall|k: int| 0 <= k < line.len() implies line[k] != '\n' by {}
        } else {
            let piece = text.take(n as int);
            assert(line == strip_cr(piece));
            assert forall|k: int| 0 <= k < line.len() implies line[k] != '\n' by {
                assert(line[k] == piece[k]);
                assert(piece[k] == text[k]);
            }
        }
        assert(!line.contains('\n'));
        lemma_trim_keeps_out(line, '\n');
        lemma_trim_idempotent(line);
    } else {
        assert(text.len() == 0);
        assert(trim(text).len() == 0) by {
            lemma_trim_start_is_suffix(text);
        }
        lemma_trim_idempotent(text);
    }
}

/// Keeps only the first line of a message, so that clap's usage hints do
/// not end up in a log field.
pub fn first_line(text: &str) -> (s: String)
    ensures
        s@ == first_line_of(text@),
{
    let v = chars_of(text);
    assert(v@.skip(0) =~= v@);
    let (a, b) = match next_line(&v, 0) {
        Some((a, b, _)) => (a, b),
        None => (0, 0),
    };
    let mut line: Vec<char> = Vec::new();
    let mut i = a;
    while i < b
        invariant
            a <= i <= b <= v@.len(),
            line@ == v@.subrange(a as int, i as int),
        decreases b - i,
    {
        line.push(v[i]);
        assert(v@.subrange(a as int, i + 1) =~= v@.subrange(a as int, i as int).push(v@[i as int]));
        i = i + 1;
    }
    let (s0, e0) = trim_bounds(&line);
    let mut s = String::new();
    push_range(&mut s, &line, s0, e0);
    proof {
        if lines(text@).len() == 0 {
            assert(line@ =~= text@);
        }
    }
    s
}

/// Parses a command line (the first word is the program name) into a
/// [`Cli`]. Whatever clap refuses is a usage error carrying the first line
/// of clap's message; what clap accepts becomes a command as
/// [`cli_from_parsed`] says.
pub fn parse_args(args: &[&str]) -> (r: Result<Cli, AppError>)
    ensures
        r is Err ==> r->Err_0 is Usage,
        r matches Err(AppError::Usage(m)) ==> !m@.contains('\n') && trim(m@) == m@,
        match tasks_refusal(words_of(args@)) {
            Some(t) => r matches Err(AppError::Usage(m)) && m@ == first_line_of(t),
            None => exists|p: ParsedArgs| #[trigger] p@ == tasks_parsed(words_of(args@)) && match action_of(p) {
                Ok(action) => r matches Ok(cli) && builds(p, cli),
                Err(text) => r matches Err(AppError::Usage(m)) && m@ == text,
            },
        },
{
    let matches = match try_matches(build_cli(), args) {
        Ok(m) => m,
        Err(text) => {
            proof {
                lemma_first_line_is_one_line(text@);
            }
            return Err(AppError::Usage(first_line(text.as_str())));
        },
    };
    let parsed = ParsedArgs {
        format: top_text(&matches, "format"),
        database: top_text(&matches, "db"),
        subcommand: subcommand_name(&matches),
        title: sub_text(&matches, "title"),
        all: match sub_flag(&matches, "all") {
            Some(b) => b,
            None => false,
        },
        id: sub_integer(&matches, "id"),
        keyword: sub_text(&matches, "keyword"),
    };
    let ghost p = parsed;
    proof {
        lemma_action_errors_are_one_line(parsed);
        reveal_strlit("format");
        reveal_strlit("db");
        reveal_strlit("title");
        reveal_strlit("all");
        reveal_strlit("keyword");
        reveal_strlit("id");
        assert(p@ == tasks_parsed(words_of(args@)));
    }
    cli_from_parsed(parsed)
}

// ---------------------------------------------------------------------------
// Configuration overrides from the environment
// ---------------------------------------------------------------------------

/// The format an environment value names: trimmed and in ASCII lower case
/// it must be `plain` or `json`.
pub open spec fn format_named(value: Seq<char>) -> Option<Format> {
    let v = ascii_lower_all(trim(value));
    if v == "plain"@ {
        Some(Format::Plain)
    } else if v == "json"@ {
        Some(Format::Json)
    } else {
        None
    }
}

/// The environment may name exactly two formats: `plain` and `json`, in any
/// ASCII case and with any surrounding whitespace.
pub proof fn law_format_names_are_plain_and_json(value: Seq<char>)
    ensures
        ascii_lower_all(trim(value)) == "plain"@ <==> format_named(value) == Some(Format::Plain),
        ascii_lower_all(trim(value)) == "json"@ <==> format_named(value) == Some(Format::Json),
        format_named(value) is None <==> (ascii_lower_all(trim(value)) != "plain"@ && ascii_lower_all(trim(value))
            != "json"@),
{
    reveal_strlit("plain");
    reveal_strlit("json");
    assert("plain"@.len() == 5 && "json"@.len() == 4);
}

/// The message for a format the environment may not name.
pub open spec fn bad_format_text(value: Seq<char>) -> Seq<char> {
    "TASKS_FORMAT 只支持 plain / json，收到 "@ + ascii_lower_all(trim(value))
}

/// The environment names a format that does not exist.
pub open spec fn format_refused(env_format: Option<&str>) -> bool {
    match env_format {
        Some(v) => format_named(v@) is None,
        None => false,
    }
}

/// `c` is `config` with the environment's database path and format put in
/// place of the configured ones, where given.
pub open spec fn overridden(config: AppConfig, env_database: Option<&str>, env_format: Option<&str>, c: AppConfig) -> bool {
    &&& match env_database {
        Some(d) => c.database matches Some(x) && x@ == d@,
        None => c.database == config.database,
    }
    &&& match env_format {
        Some(v) => Some(c.format) == format_named(v@),
        None => c.format == config.format,
    }
}

/// The environment overrides the configuration file: a database path
/// replaces the configured one, a format name replaces the configured
/// format, and a format name that is neither `plain` nor `json` (in any
/// case, with any surrounding whitespace) is a usage error.
pub fn apply_env_overrides(config: AppConfig, env_database: Option<&str>, env_format: Option<&str>) -> (r: Result<AppConfig, AppError>)
    ensures
        env_format matches Some(v) && ascii_lower_all(trim(v@)) == "plain"@ ==> (r matches Ok(c) && c.format == Format::Plain),
        env_format matches Some(v) && ascii_lower_all(trim(v@)) == "json"@ ==> (r matches Ok(c) && c.format == Format::Json),
        env_format matches Some(v) && ascii_lower_all(trim(v@)) != "plain"@ && ascii_lower_all(trim(v@)) != "json"@
            ==> r is Err,
        env_format is None ==> (r matches Ok(c) && c.format == config.format),
        r matches Ok(c) ==> match env_database {
            Some(d) => c.database matches Some(x) && x@ == d@,
            None => c.database == config.database,
        },
        format_refused(env_format) ==> (r matches Err(AppError::Usage(m)) && m@ == bad_format_text(env_format->0@)),
        !format_refused(env_format) ==> (r matches Ok(c) && overridden(config, env_database, env_format, c)),
{
    proof {
        reveal_strlit("plain");
        reveal_strlit("json");
        assert("plain"@.len() == 5 && "json"@.len() == 4);
        assert("json"@ != "plain"@);
    }
    let mut config = config;
    if let Some(value) = env_database {
        config.database = Some(String::from_str(value));
    }
    if let Some(value) = env_format {
        let trimmed = crate::strings::trimmed_chars(value);
        let lowered = crate::strings::ascii_case_mapped(&trimmed, false);
        if str_equals(lowered.as_str(), "plain") {
            config.format = Format::Plain;
        } else if str_equals(lowered.as_str(), "json") {
            config.format = Format::Json;
        } else {
            return Err(AppError::Usage(text_with("TASKS_FORMAT 只支持 plain / json，收到 ", lowered.as_str())));
        }
    }
    Ok(config)
}

// ---------------------------------------------------------------------------
// The service over the task store
// ---------------------------------------------------------------------------

/// `Connection::open`: opens (or creates) a database file; it may fail.
pub assume_specification<P: AsRef<std::path::Path>>[ Connection::open::<P> ](path: P) -> rusqlite::Result<Connection>;

/// The service: the one place that knows where tasks are stored. The
/// command line only reaches it through its methods.
pub struct TaskService {
    db: TaskDb,
    database: Option<String>,
}

impl TaskService {
    /// Where the service stores its tasks: a file path, or `None` in memory.
    pub closed spec fn location(&self) -> Option<Seq<char>> {
        match self.database {
            Some(p) => Some(p@),
            None => None,
        }
    }

    /// The requests the service has handed to SQLite, oldest first.
    pub closed spec fn log(&self) -> Seq<SqlCall> {
        self.db.log()
    }

    /// SQLite's answers to the service's updates, inserts and task
    /// queries, oldest first.
    pub closed spec fn answers(&self) -> Seq<SqlAnswer> {
        self.db.answers()
    }

    /// A service on a fresh in-memory database, migrated: its requests are
    /// those of one `migrate`.
    pub fn open_in_memory() -> (r: Result<Self, TaskError>)
        ensures
            r matches Ok(s) ==> version_answer(Seq::<SqlAnswer>::empty(), s.answers()),
            r matches Ok(s) ==> s.location() is None && migrated_log(s.log()),
            r is Err ==> r->Err_0 is Sqlite,
    {
        let conn = match Connection::open_in_memory() {
            Ok(c) => c,
            Err(e) => return Err(sqlite_failure(e)),
        };
        let mut db = TaskDb::new(conn);
        init(&mut db)?;
        Ok(TaskService { db, database: None })
    }

    /// A service on a database file, migrated to the latest schema on
    /// opening.
    pub fn open_file(path: &str) -> (r: Result<Self, TaskError>)
        ensures
            r matches Ok(s) ==> version_answer(Seq::<SqlAnswer>::empty(), s.answers()),
            r matches Ok(s) ==> s.location() == Some(path@) && migrated_log(s.log()),
            r is Err ==> r->Err_0 is Sqlite,
    {
        let conn = match Connection::open(path) {
            Ok(c) => c,
            Err(e) => return Err(sqlite_failure(e)),
        };
        let mut db = TaskDb::new(conn);
        init(&mut db)?;
        Ok(TaskService { db, database: Some(String::from_str(path)) })
    }

    /// A file database when the configuration names a path, otherwise an
    /// in-memory one.
    pub fn from_config(config: &AppConfig) -> (r: Result<Self, TaskError>)
        ensures
            r matches Ok(s) ==> version_answer(Seq::<SqlAnswer>::empty(), s.answers()),
            r matches Ok(s) ==> s.location() == match config.database {
                Some(p) => Some(p@),
                None => None,
            } && migrated_log(s.log()),
            r is Err ==> r->Err_0 is Sqlite,
    {
        match &config.database {
            Some(path) => Self::open_file(path.as_str()),
            None => Self::open_in_memory(),
        }
    }

    /// The database path, for a start-up log line.
    pub fn database(&self) -> (r: Option<&str>)
        ensures
            self.location() is None ==> r is None,
            self.location() matches Some(p) ==> r matches Some(q) && q@ == p,
    {
        match &self.database {
            Some(p) => Some(p.as_str()),
            None => None,
        }
    }

    /// Adds a task (default priority 2); returns its id. A blank title
    /// reaches no SQL.
    pub fn add(&mut self, title: &str) -> (r: Result<i64, TaskError>)
        ensures
            match r {
                Ok(id) => final(self).answers() == old(self).answers().push(SqlAnswer::RowId(id)),
                Err(_) => final(self).answers() == old(self).answers(),
            },
            final(self).location() == old(self).location(),
            trim(title@).len() == 0 ==> r is Err && r->Err_0 is EmptyTitle && final(self).log() == old(self).log(),
            trim(title@).len() > 0 ==> final(self).log() == old(self).log().push(insert_call(title@, 2)) + refusal(r),
            trim(title@).len() > 0 && r is Err ==> r->Err_0 is Sqlite,
    {
        add_task(&mut self.db, title)
    }

    /// Marks a task done; `true` only when it was open.
    pub fn complete(&mut self, id: i64) -> (r: Result<bool, TaskError>)
        ensures
            changed_answer(old(self).answers(), final(self).answers(), r),
            final(self).location() == old(self).location(),
            final(self).log() == old(self).log().push(
                SqlCall::Execute { sql: complete_sql(), args: seq![SqlValue::Integer(id)] },
            ) + refusal(r),
            r is Err ==> r->Err_0 is Sqlite,
    {
        complete_task(&mut self.db, id)
    }

    /// Deletes a task; `false` for an unknown id.
    pub fn delete(&mut self, id: i64) -> (r: Result<bool, TaskError>)
        ensures
            changed_answer(old(self).answers(), final(self).answers(), r),
            final(self).location() == old(self).location(),
            final(self).log() == old(self).log().push(
                SqlCall::Execute { sql: delete_sql(), args: seq![SqlValue::Integer(id)] },
            ) + refusal(r),
            r is Err ==> r->Err_0 is Sqlite,
    {
        delete_task(&mut self.db, id)
    }

    /// Every task with `all`, otherwise only the open ones.
    pub fn list(&mut self, all: bool) -> (r: Result<Vec<Task>, TaskError>)
        ensures
            rows_answer(old(self).answers(), final(self).answers(), r),
            final(self).location() == old(self).location(),
            final(self).log() == old(self).log().push(
                SqlCall::Query { sql: if all { all_tasks_sql() } else { open_tasks_sql() }, args: Seq::empty() },
            ),
            r is Err ==> r->Err_0 is Sqlite,
    {
        if all {
            list_tasks(&mut self.db)
        } else {
            list_open_tasks(&mut self.db)
        }
    }

    /// Tasks whose title contains `keyword`.
    pub fn search(&mut self, keyword: &str) -> (r: Result<Vec<Task>, TaskError>)
        ensures
            rows_answer(old(self).answers(), final(self).answers(), r),
            final(self).location() == old(self).location(),
            final(self).log() == old(self).log().push(
                SqlCall::Query { sql: search_sql(), args: seq![SqlValue::Text(contains_pattern(keyword@))] },
            ),
            r is Err ==> r->Err_0 is Sqlite,
    {
        search_tasks(&mut self.db, keyword)
    }

    /// Task totals.
    pub fn stats(&mut self) -> (r: Result<Stats, TaskError>)
        ensures
            match r {
                Ok(s) => final(self).answers() == old(self).answers().push(SqlAnswer::Totals(s.total, s.done)),
                Err(_) => final(self).answers() == old(self).answers(),
            },
            final(self).location() == old(self).location(),
            final(self).log() == old(self).log().push(SqlCall::Query { sql: stats_sql(), args: Seq::empty() }),
            r matches Ok(s) ==> (i64::MIN <= s.total - s.done <= i64::MAX ==> s.open == s.total - s.done),
            r is Err ==> r->Err_0 is Sqlite,
    {
        stats(&mut self.db)
    }
}

/// A log that holds exactly the requests of one `migrate` on a fresh
/// connection.
pub open spec fn migrated_log(log: Seq<SqlCall>) -> bool {
    exists|n: nat| n <= MIGRATION_COUNT && log == seq![version_query()]
        + #[trigger] migration_calls((MIGRATION_COUNT - n) as nat, MIGRATION_COUNT as nat)
}

// ---------------------------------------------------------------------------
// Rendering
// ---------------------------------------------------------------------------

/// One task as a line: `[x] 1: title` when done, `[ ] 1: title` when open.
pub open spec fn task_line(t: Task) -> Seq<char> {
    "["@ + seq![if t.done { 'x' } else { ' ' }] + "] "@ + signed_decimal(t.id as int) + ": "@ + t.title@
}

/// The text shown when there is no task.
pub open spec fn no_tasks_text() -> Seq<char> {
    "（没有任务）"@
}

/// A task list as text: one line per task, or a note that there is none.
pub open spec fn plain_text(tasks: Seq<Task>) -> Seq<char> {
    if tasks.len() == 0 {
        no_tasks_text()
    } else {
        join(tasks.map_values(|t: Task| task_line(t)), seq!['\n'])
    }
}

/// A title that stays on one line: no line break, and no carriage return
/// at its end.
pub open spec fn one_line_title(title: Seq<char>) -> bool {
    &&& forall|k: int| 0 <= k < title.len() ==> #[trigger] title[k] != '\n'
    &&& !(title.len() > 0 && title.last() == '\r')
}

/// A text that `str::lines` reads as exactly one line: not empty, no line
/// break, no carriage return at its end.
pub open spec fn single_line(t: Seq<char>) -> bool {
    &&& t.len() > 0
    &&& holds_no(t, '\n')
    &&& t.last() != '\r'
}

/// The line of a task whose title stays on one line is a single line.
proof fn lemma_task_line_is_single(t: Task)
    requires
        one_line_title(t.title@),
    ensures
        single_line(task_line(t)),
{
    reveal_strlit("[");
    reveal_strlit("] ");
    reveal_strlit(": ");
    let c = if t.done { 'x' } else { ' ' };
    let d = signed_decimal(t.id as int);
    assert(holds_no(d, '\n')) by {
        if t.id < 0 {
            lemma_decimal_has_no((-t.id) as nat, '\n');
            assert forall|k: int| 0 <= k < d.len() implies #[trigger] d[k] != '\n' by {
                if k > 0 {
                    assert(d[k] == decimal((-t.id) as nat)[k - 1]);
                }
            }
        } else {
            lemma_decimal_has_no(t.id as nat, '\n');
        }
    }
    let head = "["@ + seq![c] + "] "@ + d + ": "@;
    let line = task_line(t);
    assert(line =~= head + t.title@);
    assert forall|k: int| 0 <= k < line.len() implies #[trigger] line[k] != '\n' by {
        if k < head.len() {
            let h1 = "["@ + seq![c] + "] "@;
            if k >= h1.len() && k < h1.len() + d.len() {
                assert(head[k] == d[k - h1.len()]);
            }
        } else {
            assert(line[k] == t.title@[k - head.len()]);
        }
    }
    if t.title@.len() == 0 {
        assert(line.last() == ' ');
    } else {
        assert(line.last() == t.title@.last());
    }
}

/// Lines each read as one line, joined by line breaks, read back as the
/// same lines.
proof fn lemma_lines_of_join(parts: Seq<Seq<char>>)
    requires
        parts.len() > 0,
        forall|i: int| 0 <= i < parts.len() ==> single_line(#[trigger] parts[i]),
    ensures
        lines(join(parts, seq!['\n'])) == parts,
    decreases parts.len(),
{
    let w = parts[0];
    assert(single_line(parts[0]));
    if parts.len() == 1 {
        assert(join(parts, seq!['\n']) == w);
        lemma_seg_len_prefix(w, Seq::<char>::empty(), '\n');
        assert(w + Seq::<char>::empty() =~= w);
        assert(lines(w) == seq![w]);
        assert(parts =~= seq![w]);
    } else {
        let ps = parts.drop_first();
        assert(parts =~= seq![w] + ps);
        assert forall|i: int| 0 <= i < ps.len() implies single_line(#[trigger] ps[i]) by {
            assert(ps[i] == parts[i + 1]);
        }
        lemma_join_cons(w, ps, seq!['\n']);
        let rest = join(ps, seq!['\n']);
        let x = w + seq!['\n'] + rest;
        assert(x =~= w + (seq!['\n'] + rest));
        lemma_seg_len_prefix(w, seq!['\n'] + rest, '\n');
        assert(seg_len(seq!['\n'] + rest, '\n') == 0);
        assert(seg_len(x, '\n') == w.len());
        assert(x.take(w.len() as int) =~= w);
        assert(x.skip(w.len() as int + 1) =~= rest);
        assert(strip_cr(w) == w);
        lemma_lines_of_join(ps);
        assert(lines(x) == seq![w] + lines(rest));
    }
}

/// Rendering a non-empty task list gives one line per task, in order:
/// read back line by line, the text is the tasks' lines.
pub proof fn law_plain_text_has_one_line_per_task(tasks: Seq<Task>)
    requires
        tasks.len() > 0,
        forall|i: int| 0 <= i < tasks.len() ==> one_line_title(#[trigger] tasks[i].title@),
    ensures
        lines(plain_text(tasks)) == tasks.map_values(|t: Task| task_line(t)),
        lines(plain_text(tasks)).len() == tasks.len(),
{
    let parts = tasks.map_values(|t: Task| task_line(t));
    assert forall|i: int| 0 <= i < parts.len() implies single_line(#[trigger] parts[i]) by {
        lemma_task_line_is_single(tasks[i]);
    }
    lemma_lines_of_join(parts);
}

/// Renders tasks as plain text, one line per task, in order.
pub fn render_plain(tasks: &[Task]) -> (s: String)
    ensures
        s@ == plain_text(tasks@),
        tasks@.len() > 0 && (forall|i: int| 0 <= i < tasks@.len() ==> one_line_title(#[trigger] tasks@[i].title@))
            ==> lines(s@) == tasks@.map_values(|t: Task| task_line(t)),
{
    if tasks.len() == 0 {
        return String::from_str("（没有任务）");
    }
    let mut s = String::new();
    let mut i: usize = 0;
    while i < tasks.len()
        invariant
            i <= tasks@.len(),
            s@ == join(tasks@.take(i as int).map_values(|t: Task| task_line(t)), seq!['\n']),
        decreases tasks@.len() - i,
    {
        let ghost before = tasks@.take(i as int).map_values(|t: Task| task_line(t));
        proof {
            crate::strings::lemma_join_push(before, seq!['\n'], task_line(tasks@[i as int]));
            assert(tasks@.take(i + 1).map_values(|t: Task| task_line(t)) =~= before.push(task_line(tasks@[i as int])));
        }
        if i > 0 {
            crate::strings::push_char(&mut s, '\n');
        }
        let task = &tasks[i];
        s.append("[");
        crate::strings::push_char(&mut s, if task.done { 'x' } else { ' ' });
        s.append("] ");
        push_signed_decimal(&mut s, task.id);
        s.append(": ");
        s.append(task.title.as_str());
        proof {
            assert(s@ =~= join(before, seq!['\n']) + (if i > 0 { seq!['\n'] } else { seq![] }) + task_line(tasks@[i as int]));
        }
        i = i + 1;
    }
    assert(tasks@.take(tasks@.len() as int) =~= tasks@);
    proof {
        if forall|i: int| 0 <= i < tasks@.len() ==> one_line_title(#[trigger] tasks@[i].title@) {
            law_plain_text_has_one_line_per_task(tasks@);
        }
    }
    s
}

/// Every line of a text, indented by four spaces.
pub open spec fn indented(text: Seq<char>) -> Seq<char> {
    join(lines(text).map_values(|l: Seq<char>| "    "@ + l), seq!['\n'])
}

/// Indents each line of a multi-line output by four spaces.
pub fn indent(text: &str) -> (s: String)
    ensures
        s@ == indented(text@),
{
    let v = chars_of(text);
    let mut s = String::new();
    let mut i: usize = 0;
    let ghost mut done: Seq<Seq<char>> = seq![];
    let mut first = true;
    assert(v@.skip(0) =~= v@);
    loop
        invariant
            i <= v@.len(),
            v@ == text@,
            first <==> done.len() == 0,
            lines(v@) == done + lines(v@.skip(i as int)),
            s@ == join(done.map_values(|l: Seq<char>| "    "@ + l), seq!['\n']),
        decreases v@.len() - i,
    {
        match next_line(&v, i) {
            None => {
                assert(done + Seq::<Seq<char>>::empty() =~= done);
                return s;
            },
            Some((a, b, next)) => {
                let ghost line = v@.subrange(a as int, b as int);
                proof {
                    crate::strings::lemma_join_push(done.map_values(|l: Seq<char>| "    "@ + l), seq!['\n'], "    "@ + line);
                    assert(done.push(line).map_values(|l: Seq<char>| "    "@ + l) =~= done.map_values(|l: Seq<char>| "    "@ + l).push("    "@ + line));
                }
                if !first {
                    crate::strings::push_char(&mut s, '\n');
                }
                first = false;
                s.append("    ");
                push_range(&mut s, &v, a, b);
                proof {
                    assert(s@ =~= join(done.map_values(|l: Seq<char>| "    "@ + l), seq!['\n']) + (if done.len() > 0 { seq!['\n'] } else { seq![] }) + ("    "@ + line));
                    done = done.push(line);
                    assert(lines(v@) =~= done + lines(v@.skip(next as int)));
                }
                i = next;
            },
        }
    }
}

// ---------------------------------------------------------------------------
// Executing a command
// ---------------------------------------------------------------------------

/// `已添加 #<id>：<title>`.
pub open spec fn added_text(id: i64, title: Seq<char>) -> Seq<char> {
    "已添加 #"@ + signed_decimal(id as int) + "："@ + title
}

/// `已完成 #<id>` when the task changed, otherwise that it does not exist or
/// is done already.
pub open spec fn done_text(id: i64, changed: bool) -> Seq<char> {
    if changed {
        "已完成 #"@ + signed_decimal(id as int)
    } else {
        "#"@ + signed_decimal(id as int) + " 不存在或已经是完成状态"@
    }
}

/// `已删除 #<id>` when the task was deleted, otherwise that it does not exist.
pub open spec fn deleted_text(id: i64, changed: bool) -> Seq<char> {
    if changed {
        "已删除 #"@ + signed_decimal(id as int)
    } else {
        "#"@ + signed_decimal(id as int) + " 不存在"@
    }
}

/// The reply to a delete tells which happened: the text for a removed
/// task and the text for a missing one always differ, and the first
/// starts `已删除 #`.
pub proof fn law_delete_replies_differ(id: i64)
    ensures
        deleted_text(id, true) != deleted_text(id, false),
        "已删除 #"@.is_prefix_of(deleted_text(id, true)),
{
    reveal_strlit("已删除 #");
    reveal_strlit("#");
    assert(deleted_text(id, true)[0] == '已');
    assert(deleted_text(id, false)[0] == '#');
}

/// The reply to a completion tells which happened.
pub proof fn law_done_replies_differ(id: i64)
    ensures
        done_text(id, true) != done_text(id, false),
        "已完成 #"@.is_prefix_of(done_text(id, true)),
{
    reveal_strlit("已完成 #");
    reveal_strlit("#");
    assert(done_text(id, true)[0] == '已');
    assert(done_text(id, false)[0] == '#');
}

/// That no task matches `keyword`.
pub open spec fn no_match_text(keyword: Seq<char>) -> Seq<char> {
    "没有匹配 \""@ + keyword + "\" 的任务"@
}

/// The message after adding a task.
pub fn added_message(id: i64, title: &str) -> (s: String)
    ensures
        s@ == added_text(id, title@),
{
    let mut s = String::from_str("已添加 #");
    push_signed_decimal(&mut s, id);
    s.append("：");
    s.append(title);
    s
}

/// The message after marking a task done.
pub fn done_message(id: i64, changed: bool) -> (s: String)
    ensures
        s@ == done_text(id, changed),
{
    if changed {
        let mut s = String::from_str("已完成 #");
        push_signed_decimal(&mut s, id);
        s
    } else {
        let mut s = String::from_str("#");
        push_signed_decimal(&mut s, id);
        s.append(" 不存在或已经是完成状态");
        s
    }
}

/// The message after deleting a task.
pub fn deleted_message(id: i64, changed: bool) -> (s: String)
    ensures
        s@ == deleted_text(id, changed),
{
    if changed {
        let mut s = String::from_str("已删除 #");
        push_signed_decimal(&mut s, id);
        s
    } else {
        let mut s = String::from_str("#");
        push_signed_decimal(&mut s, id);
        s.append(" 不存在");
        s
    }
}

/// The message for a search without result.
pub fn no_match_message(keyword: &str) -> (s: String)
    ensures
        s@ == no_match_text(keyword@),
{
    let mut s = String::from_str("没有匹配 \"");
    s.append(keyword);
    s.append("\" 的任务");
    s
}

/// What a command produced: a message, or tasks still to be rendered in
/// the requested format.
#[derive(Debug)]
pub enum Reply {
    Text(String),
    Tasks(Vec<Task>),
}

/// Performs one command on the service. Adding, completing and deleting
/// answer with a message; listing answers with the tasks; a search answers
/// with the tasks, or with a message when none matches. Refusals of the
/// task store are task errors.
pub fn perform(service: &mut TaskService, cli: &Cli) -> (r: Result<Reply, AppError>)
    ensures
        match cli.action {
            Action::Add { title } => r matches Ok(reply) ==> (final(service).answers().last() matches SqlAnswer::RowId(id)
                && reply matches Reply::Text(s) && s@ == added_text(id, title@)),
            Action::List { all } => r matches Ok(reply) ==> (reply matches Reply::Tasks(ts)
                && final(service).answers() == old(service).answers().push(SqlAnswer::Rows(ts@))),
            Action::Done { id } => r matches Ok(reply) ==> (final(service).answers().last() matches SqlAnswer::Changed(n)
                && reply matches Reply::Text(s) && s@ == done_text(id, n == 1)),
            Action::Delete { id } => r matches Ok(reply) ==> (final(service).answers().last() matches SqlAnswer::Changed(n)
                && reply matches Reply::Text(s) && s@ == deleted_text(id, n == 1)),
            Action::Search { keyword } => r matches Ok(reply) ==> match reply {
                Reply::Text(s) => s@ == no_match_text(keyword@) && final(service).answers() == old(service).answers().push(
                    SqlAnswer::Rows(Seq::empty()),
                ),
                Reply::Tasks(ts) => ts@.len() > 0 && final(service).answers() == old(service).answers().push(
                    SqlAnswer::Rows(ts@),
                ),
            },
        },
        final(service).location() == old(service).location(),
        r is Err ==> r->Err_0 is Task,
        match cli.action {
            Action::Add { title } => {
                &&& trim(title@).len() == 0 ==> r is Err && r->Err_0->Task_0 is EmptyTitle
                    && final(service).log() == old(service).log()
                &&& trim(title@).len() > 0 ==> final(service).log() == old(service).log().push(insert_call(title@, 2)) + refusal(r)
                &&& trim(title@).len() > 0 && r is Err ==> r->Err_0->Task_0 is Sqlite
                &&& r matches Ok(reply) ==> (reply matches Reply::Text(s) && exists|id: i64| s@ == #[trigger] added_text(id, title@))
            },
            Action::List { all } => {
                &&& final(service).log() == old(service).log().push(
                    SqlCall::Query { sql: if all { all_tasks_sql() } else { open_tasks_sql() }, args: Seq::empty() },
                )
                &&& r is Err ==> r->Err_0->Task_0 is Sqlite
                &&& r matches Ok(reply) ==> reply is Tasks
            },
            Action::Done { id } => {
                &&& final(service).log() == old(service).log().push(
                    SqlCall::Execute { sql: complete_sql(), args: seq![SqlValue::Integer(id)] },
                ) + refusal(r)
                &&& r is Err ==> r->Err_0->Task_0 is Sqlite
                &&& r matches Ok(reply) ==> (reply matches Reply::Text(s) && exists|b: bool| s@ == #[trigger] done_text(id, b))
            },
            Action::Delete { id } => {
                &&& final(service).log() == old(service).log().push(
                    SqlCall::Execute { sql: delete_sql(), args: seq![SqlValue::Integer(id)] },
                ) + refusal(r)
                &&& r is Err ==> r->Err_0->Task_0 is Sqlite
                &&& r matches Ok(reply) ==> (reply matches Reply::Text(s) && exists|b: bool| s@ == #[trigger] deleted_text(id, b))
            },
            Action::Search { keyword } => {
                &&& final(service).log() == old(service).log().push(
                    SqlCall::Query { sql: search_sql(), args: seq![SqlValue::Text(contains_pattern(keyword@))] },
                )
                &&& r is Err ==> r->Err_0->Task_0 is Sqlite
                &&& r matches Ok(reply) ==> match reply {
                    Reply::Text(s) => s@ == no_match_text(keyword@),
                    Reply::Tasks(ts) => ts@.len() > 0,
                }
            },
        },
{
    match &cli.action {
        Action::Add { title } => {
            match service.add(title.as_str()) {
                Ok(id) => {
                    let text = added_message(id, title.as_str());
                    assert(service.answers().last() == SqlAnswer::RowId(id));
                    assert(text@ == added_text(id, title@));
                    Ok(Reply::Text(text))
                },
                Err(e) => Err(AppError::Task(e)),
            }
        },
        Action::List { all } => {
            match service.list(*all) {
                Ok(tasks) => Ok(Reply::Tasks(tasks)),
                Err(e) => Err(AppError::Task(e)),
            }
        },
        Action::Done { id } => {
            match service.complete(*id) {
                Ok(changed) => Ok(Reply::Text(done_message(*id, changed))),
                Err(e) => Err(AppError::Task(e)),
            }
        },
        Action::Delete { id } => {
            match service.delete(*id) {
                Ok(changed) => Ok(Reply::Text(deleted_message(*id, changed))),
                Err(e) => Err(AppError::Task(e)),
            }
        },
        Action::Search { keyword } => {
            match service.search(keyword.as_str()) {
                Ok(tasks) => {
                    if tasks.len() == 0 {
                        assert(tasks@ =~= Seq::<Task>::empty());
                        Ok(Reply::Text(no_match_message(keyword.as_str())))
                    } else {
                        Ok(Reply::Tasks(tasks))
                    }
                },
                Err(e) => Err(AppError::Task(e)),
            }
        },
    }
}
} // verus!
