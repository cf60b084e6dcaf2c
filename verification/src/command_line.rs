//! clap command lines that carry a plain description of themselves.
//!
//! Each builder step is one clap call, and its contract says how the
//! description changes. A command line built here is therefore described
//! exactly: which arguments it declares, with which flags, values and
//! defaults, and which subcommands.
use vstd::prelude::*;
use clap::{Arg, ArgAction, Command};

verus! {

/// What an argument declares.
pub struct ArgDesc {
    pub id: Seq<char>,
    /// The one-letter flag (`-l`).
    pub short: Option<char>,
    /// The long flag (`--lines`).
    pub long: Option<Seq<char>>,
    pub help: Option<Seq<char>>,
    pub required: bool,
    /// An on/off flag: present means `true`, absent `false`.
    pub flag: bool,
    /// The only values accepted.
    pub choices: Option<Seq<Seq<char>>>,
    /// The value used when the argument is absent.
    pub default: Option<Seq<char>>,
}

/// What a subcommand without arguments of its own declares.
pub struct SubcommandDesc {
    pub name: Seq<char>,
    pub about: Option<Seq<char>>,
}

/// What a command line declares.
pub struct CommandDesc {
    pub name: Seq<char>,
    pub version: Option<Seq<char>>,
    pub about: Option<Seq<char>>,
    pub args: Seq<ArgDesc>,
    pub subcommands: Seq<SubcommandDesc>,
}

/// A clap argument with its description.
pub struct DescribedArg {
    arg: Arg,
    desc: Ghost<ArgDesc>,
}

impl DescribedArg {
    pub closed spec fn desc(&self) -> ArgDesc {
        self.desc@
    }
}

/// A clap command with its description.
pub struct DescribedCommand {
    command: Command,
    desc: Ghost<CommandDesc>,
}

impl DescribedCommand {
    pub closed spec fn desc(&self) -> CommandDesc {
        self.desc@
    }

    /// The clap command, for parsing.
    pub fn into_command(self) -> Command {
        self.command
    }
}

/// `Arg::new`: an argument with an id; clap's defaults make it optional,
/// without flags, help, value list or default, storing the value given.
#[verifier::external_body]
pub fn new_arg(id: &'static str) -> (r: DescribedArg)
    ensures
        r.desc() == (ArgDesc {
            id: id@,
            short: None,
            long: None,
            help: None,
            required: false,
            flag: false,
            choices: None,
            default: None,
        }),
{
    DescribedArg { arg: Arg::new(id), desc: Ghost(ArgDesc { id: id@, short: None, long: None, help: None, required: false, flag: false, choices: None, default: None }) }
}

/// `Arg::short`: the one-letter flag. clap refuses `'-'` with a debug
/// assertion, so the flag must be another character.
#[verifier::external_body]
pub fn with_short(a: DescribedArg, c: char) -> (r: DescribedArg)
    requires
        c != '-',
    ensures
        r.desc() == (ArgDesc { short: Some(c), ..a.desc() }),
{
    DescribedArg { arg: a.arg.short(c), desc: Ghost(ArgDesc { short: Some(c), ..a.desc() }) }
}

/// `Arg::long`: the long flag.
#[verifier::external_body]
pub fn with_long(a: DescribedArg, name: &'static str) -> (r: DescribedArg)
    ensures
        r.desc() == (ArgDesc { long: Some(name@), ..a.desc() }),
{
    DescribedArg { arg: a.arg.long(name), desc: Ghost(ArgDesc { long: Some(name@), ..a.desc() }) }
}

/// `Arg::help`: the help text.
#[verifier::external_body]
pub fn with_help(a: DescribedArg, text: &'static str) -> (r: DescribedArg)
    ensures
        r.desc() == (ArgDesc { help: Some(text@), ..a.desc() }),
{
    DescribedArg { arg: a.arg.help(text), desc: Ghost(ArgDesc { help: Some(text@), ..a.desc() }) }
}

/// `Arg::required`: whether the argument must be given.
#[verifier::external_body]
pub fn with_required(a: DescribedArg, yes: bool) -> (r: DescribedArg)
    ensures
        r.desc() == (ArgDesc { required: yes, ..a.desc() }),
{
    DescribedArg { arg: a.arg.required(yes), desc: Ghost(ArgDesc { required: yes, ..a.desc() }) }
}

/// `Arg::action(ArgAction::SetTrue)`: an on/off flag.
#[verifier::external_body]
pub fn as_flag(a: DescribedArg) -> (r: DescribedArg)
    ensures
        r.desc() == (ArgDesc { flag: true, ..a.desc() }),
{
    DescribedArg { arg: a.arg.action(ArgAction::SetTrue), desc: Ghost(ArgDesc { flag: true, ..a.desc() }) }
}

/// `Arg::value_parser([first, second])`: only these two values are
/// accepted.
#[verifier::external_body]
pub fn with_choices(a: DescribedArg, first: &'static str, second: &'static str) -> (r: DescribedArg)
    ensures
        r.desc() == (ArgDesc { choices: Some(seq![first@, second@]), ..a.desc() }),
{
    DescribedArg {
        arg: a.arg.value_parser([first, second]),
        desc: Ghost(ArgDesc { choices: Some(seq![first@, second@]), ..a.desc() }),
    }
}

/// `Arg::default_value`: the value used when the argument is absent.
#[verifier::external_body]
pub fn with_default(a: DescribedArg, value: &'static str) -> (r: DescribedArg)
    ensures
        r.desc() == (ArgDesc { default: Some(value@), ..a.desc() }),
{
    DescribedArg { arg: a.arg.default_value(value), desc: Ghost(ArgDesc { default: Some(value@), ..a.desc() }) }
}

/// `Command::new`: a command with a name and nothing declared yet.
#[verifier::external_body]
pub fn new_command(name: &'static str) -> (r: DescribedCommand)
    ensures
        r.desc() == (CommandDesc { name: name@, version: None, about: None, args: seq![], subcommands: seq![] }),
{
    DescribedCommand {
        command: Command::new(name),
        desc: Ghost(CommandDesc { name: name@, version: None, about: None, args: seq![], subcommands: seq![] }),
    }
}

/// `Command::version`: the version shown by `--version`.
#[verifier::external_body]
pub fn with_version(c: DescribedCommand, version: &'static str) -> (r: DescribedCommand)
    ensures
        r.desc() == (CommandDesc { version: Some(version@), ..c.desc() }),
{
    DescribedCommand { command: c.command.version(version), desc: Ghost(CommandDesc { version: Some(version@), ..c.desc() }) }
}

/// `Command::about`: the description shown in help.
#[verifier::external_body]
pub fn with_about(c: DescribedCommand, text: &'static str) -> (r: DescribedCommand)
    ensures
        r.desc() == (CommandDesc { about: Some(text@), ..c.desc() }),
{
    DescribedCommand { command: c.command.about(text), desc: Ghost(CommandDesc { about: Some(text@), ..c.desc() }) }
}

/// `Command::arg`: declares one more argument.
#[verifier::external_body]
pub fn with_arg(c: DescribedCommand, a: DescribedArg) -> (r: DescribedCommand)
    ensures
        r.desc() == (CommandDesc { args: c.desc().args.push(a.desc()), ..c.desc() }),
{
    DescribedCommand {
        command: c.command.arg(a.arg),
        desc: Ghost(CommandDesc { args: c.desc().args.push(a.desc()), ..c.desc() }),
    }
}

/// `Command::subcommand` with a subcommand that declares nothing but its
/// name and description.
#[verifier::external_body]
pub fn with_subcommand(c: DescribedCommand, s: DescribedCommand) -> (r: DescribedCommand)
    requires
        s.desc().version is None,
        s.desc().args.len() == 0,
        s.desc().subcommands.len() == 0,
    ensures
        r.desc() == (CommandDesc {
            subcommands: c.desc().subcommands.push(SubcommandDesc { name: s.desc().name, about: s.desc().about }),
            ..c.desc()
        }),
{
    DescribedCommand {
        command: c.command.subcommand(s.command),
        desc: Ghost(CommandDesc {
            subcommands: c.desc().subcommands.push(SubcommandDesc { name: s.desc().name, about: s.desc().about }),
            ..c.desc()
        }),
    }
}

} // verus!
