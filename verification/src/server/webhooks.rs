//! What the coordinator makes of the events that GitHub sends: the commands
//! that people give to the bot in comments.

use vstd::prelude::*;
use vstd::string::{StrSliceExecFns, StringExecFns, StringSliceAdditionalSpecFns};
use crate::encoding::{
    from_hex, hex_bytes, hmac_sha1_verifies, is_hex, verify_hmac_sha1, MAX_KEY_LEN,
};
use crate::experiments::{CapLints, CrateSelect, Mode};
use crate::seqs::{first_match, lemma_first_match_is};
use crate::server::github::Issue;
use crate::text::{
    begins_with, find_char, is_blank, lines, lines_of, parse_i32, parse_int, push_signed_decimal,
    signed_decimal, split, split_at_each, split_once, starts_with, str_eq, texts,
};
use crate::toolchain::Toolchain;

verus! {

/// The name of the experiment that a command means when it gives none: a
/// pull request has the experiment `pr-` and its number, an issue has none.
pub open spec fn default_name(issue: Issue) -> Option<Seq<char>> {
    if issue.pull_request is Some {
        Some("pr-"@ + signed_decimal(issue.number as int))
    } else {
        None
    }
}

/// The name of the experiment that a command means when it gives none.
pub fn default_experiment_name(issue: &Issue) -> (name: Option<String>)
    ensures
        match name {
            Some(n) => default_name(*issue) == Some(n@),
            None => default_name(*issue) is None,
        },
{
    if issue.pull_request.is_some() {
        let mut name = String::from_str("pr-");
        push_signed_decimal(&mut name, issue.number);
        Some(name)
    } else {
        None
    }
}

/// What the arguments of a command say.
#[derive(Debug, PartialEq, Eq)]
pub struct EditArguments {
    pub run: Option<bool>,
    pub name: Option<String>,
    pub start: Option<Toolchain>,
    pub end: Option<Toolchain>,
    pub mode: Option<Mode>,
    pub crates: Option<CrateSelect>,
    pub lints: Option<CapLints>,
    pub p: Option<i32>,
}

/// What [`EditArguments`] hold, as plain values.
pub struct EditArgumentsView {
    pub run: Option<bool>,
    pub name: Option<Seq<char>>,
    pub start: Option<Seq<char>>,
    pub end: Option<Seq<char>>,
    pub mode: Option<Mode>,
    pub crates: Option<CrateSelect>,
    pub lints: Option<CapLints>,
    pub p: Option<i32>,
}

/// What an optional toolchain holds.
pub open spec fn toolchain_view(tc: Option<Toolchain>) -> Option<Seq<char>> {
    match tc {
        Some(tc) => Some(tc@),
        None => None,
    }
}

impl View for EditArguments {
    type V = EditArgumentsView;

    open spec fn view(&self) -> EditArgumentsView {
        EditArgumentsView {
            run: self.run,
            name: match self.name {
                Some(name) => Some(name@),
                None => None,
            },
            start: toolchain_view(self.start),
            end: toolchain_view(self.end),
            mode: self.mode,
            crates: self.crates,
            lints: self.lints,
            p: self.p,
        }
    }
}

/// Why the arguments of a command cannot be read.
#[derive(Debug, PartialEq, Eq)]
pub enum ArgumentError {
    /// The argument is none of those that a command takes.
    UnknownArgument(String),
    /// The value of the argument is not one that it takes.
    InvalidValue(String),
}

/// What an [`ArgumentError`] holds, as plain sequences.
pub enum ArgumentErrorView {
    UnknownArgument(Seq<char>),
    InvalidValue(Seq<char>),
}

impl View for ArgumentError {
    type V = ArgumentErrorView;

    open spec fn view(&self) -> ArgumentErrorView {
        match self {
            ArgumentError::UnknownArgument(arg) => ArgumentErrorView::UnknownArgument(arg@),
            ArgumentError::InvalidValue(arg) => ArgumentErrorView::InvalidValue(arg@),
        }
    }
}

/// Arguments that say nothing.
pub open spec fn no_arguments() -> EditArgumentsView {
    EditArgumentsView {
        run: None,
        name: None,
        start: None,
        end: None,
        mode: None,
        crates: None,
        lints: None,
        p: None,
    }
}

/// What the arguments say once one more argument is read. `run` and `run-`
/// say whether the experiment is to run; any other argument is a key, an
/// equals sign and a value: `name`, `start` and `end` for the name and the
/// toolchains, `mode`, `crates` and `lints` with one of their words, and `p`
/// with the priority as a number. An argument replaces what an earlier one
/// said of the same key.
pub open spec fn with_argument(args: EditArgumentsView, arg: Seq<char>) -> Result<
    EditArgumentsView,
    ArgumentErrorView,
> {
    let equals = find_char(arg, '=');
    let key = arg.take(equals);
    let value = arg.skip(equals + 1);
    if arg == "run"@ {
        Ok(EditArgumentsView { run: Some(true), ..args })
    } else if arg == "run-"@ {
        Ok(EditArgumentsView { run: Some(false), ..args })
    } else if equals >= arg.len() {
        Err(ArgumentErrorView::UnknownArgument(arg))
    } else if key == "name"@ {
        Ok(EditArgumentsView { name: Some(value), ..args })
    } else if key == "start"@ {
        if is_blank(value) {
            Err(ArgumentErrorView::InvalidValue(arg))
        } else {
            Ok(EditArgumentsView { start: Some(value), ..args })
        }
    } else if key == "end"@ {
        if is_blank(value) {
            Err(ArgumentErrorView::InvalidValue(arg))
        } else {
            Ok(EditArgumentsView { end: Some(value), ..args })
        }
    } else if key == "mode"@ {
        match Mode::parse(value) {
            Some(mode) => Ok(EditArgumentsView { mode: Some(mode), ..args }),
            None => Err(ArgumentErrorView::InvalidValue(arg)),
        }
    } else if key == "crates"@ {
        match CrateSelect::parse(value) {
            Some(crates) => Ok(EditArgumentsView { crates: Some(crates), ..args }),
            None => Err(ArgumentErrorView::InvalidValue(arg)),
        }
    } else if key == "lints"@ {
        match CapLints::parse(value) {
            Some(lints) => Ok(EditArgumentsView { lints: Some(lints), ..args }),
            None => Err(ArgumentErrorView::InvalidValue(arg)),
        }
    } else if key == "p"@ {
        match parse_int(value) {
            Some(p) => Ok(EditArgumentsView { p: Some(p as i32), ..args }),
            None => Err(ArgumentErrorView::InvalidValue(arg)),
        }
    } else {
        Err(ArgumentErrorView::UnknownArgument(arg))
    }
}

/// What the first `n` arguments of a command say, or the first of them that
/// cannot be read.
pub open spec fn arguments(args: Seq<Seq<char>>, n: int) -> Result<
    EditArgumentsView,
    ArgumentErrorView,
>
    decreases n,
{
    if n <= 0 {
        Ok(no_arguments())
    } else {
        match arguments(args, n - 1) {
            Ok(read) => with_argument(read, args[n - 1]),
            Err(e) => Err(e),
        }
    }
}

impl EditArguments {
    /// Reads one more argument.
    fn read(self, arg: &str) -> (read: Result<EditArguments, ArgumentError>)
        ensures
            match read {
                Ok(args) => with_argument(self@, arg@) == Ok::<_, ArgumentErrorView>(args@),
                Err(e) => with_argument(self@, arg@) == Err::<EditArgumentsView, _>(e@),
            },
    {
        let mut args = self;
        if str_eq(arg, "run") {
            args.run = Some(true);
            return Ok(args);
        }
        if str_eq(arg, "run-") {
            args.run = Some(false);
            return Ok(args);
        }
        let (key, value) = split_once(arg, '=');
        let value = match value {
            Some(value) => value,
            None => {
                return Err(ArgumentError::UnknownArgument(String::from_str(arg)));
            },
        };
        if str_eq(key, "name") {
            args.name = Some(String::from_str(value));
        } else if str_eq(key, "start") {
            match Toolchain::from_str(value) {
                Ok(tc) => {
                    args.start = Some(tc);
                },
                Err(_) => {
                    return Err(ArgumentError::InvalidValue(String::from_str(arg)));
                },
            }
        } else if str_eq(key, "end") {
            match Toolchain::from_str(value) {
                Ok(tc) => {
                    args.end = Some(tc);
                },
                Err(_) => {
                    return Err(ArgumentError::InvalidValue(String::from_str(arg)));
                },
            }
        } else if str_eq(key, "mode") {
            match Mode::from_str(value) {
                Ok(mode) => {
                    args.mode = Some(mode);
                },
                Err(_) => {
                    return Err(ArgumentError::InvalidValue(String::from_str(arg)));
                },
            }
        } else if str_eq(key, "crates") {
            match CrateSelect::from_str(value) {
                Ok(crates) => {
                    args.crates = Some(crates);
                },
                Err(_) => {
                    return Err(ArgumentError::InvalidValue(String::from_str(arg)));
                },
            }
        } else if str_eq(key, "lints") {
            match CapLints::from_str(value) {
                Ok(lints) => {
                    args.lints = Some(lints);
                },
                Err(_) => {
                    return Err(ArgumentError::InvalidValue(String::from_str(arg)));
                },
            }
        } else if str_eq(key, "p") {
            match parse_i32(value) {
                Some(p) => {
                    args.p = Some(p);
                },
                None => {
                    return Err(ArgumentError::InvalidValue(String::from_str(arg)));
                },
            }
        } else {
            return Err(ArgumentError::UnknownArgument(String::from_str(arg)));
        }
        Ok(args)
    }
}

/// Reads the arguments of a command.
pub fn parse_edit_arguments(args: &Vec<&str>) -> (parsed: Result<EditArguments, ArgumentError>)
    ensures
        match parsed {
            Ok(read) => arguments(texts(args@), args@.len() as int) == Ok::<_, ArgumentErrorView>(
                read@,
            ),
            Err(e) => arguments(texts(args@), args@.len() as int) == Err::<EditArgumentsView, _>(
                e@,
            ),
        },
{
    let mut result = EditArguments {
        run: None,
        name: None,
        start: None,
        end: None,
        mode: None,
        crates: None,
        lints: None,
        p: None,
    };
    let mut i: usize = 0;
    while i < args.len()
        invariant
            i <= args.len(),
            arguments(texts(args@), i as int) == Ok::<_, ArgumentErrorView>(result@),
        decreases args.len() - i,
    {
        assert(texts(args@)[i as int] == args@[i as int]@);
        match result.read(args[i]) {
            Ok(read) => {
                result = read;
            },
            Err(e) => {
                proof {
                    lemma_arguments_fail(texts(args@), i as int + 1, args@.len() as int);
                }
                return Err(e);
            },
        }
        i += 1;
    }
    Ok(result)
}

/// Once an argument cannot be read, the arguments after it are not read.
proof fn lemma_arguments_fail(args: Seq<Seq<char>>, n: int, m: int)
    requires
        0 <= n <= m,
        arguments(args, n) is Err,
    ensures
        arguments(args, m) == arguments(args, n),
    decreases m - n,
{
    if n < m {
        lemma_arguments_fail(args, n, m - 1);
    }
}

/// What a command asks for.
#[derive(Debug, PartialEq, Eq)]
pub enum Command {
    /// Nothing but an answer.
    Ping,
    /// To put an experiment in the queue.
    Create {
        name: String,
        start: Toolchain,
        end: Toolchain,
        mode: Mode,
        crates: CrateSelect,
        cap_lints: CapLints,
        priority: i32,
    },
    /// To remove an experiment.
    Delete { name: String },
    /// To change an experiment: each field that is given replaces what the
    /// experiment has.
    Edit {
        name: String,
        start: Option<Toolchain>,
        end: Option<Toolchain>,
        mode: Option<Mode>,
        crates: Option<CrateSelect>,
        priority: Option<i32>,
    },
}

/// What a [`Command`] holds, as plain values.
pub enum CommandView {
    Ping,
    Create {
        name: Seq<char>,
        start: Seq<char>,
        end: Seq<char>,
        mode: Mode,
        crates: CrateSelect,
        cap_lints: CapLints,
        priority: i32,
    },
    Delete { name: Seq<char> },
    Edit {
        name: Seq<char>,
        start: Option<Seq<char>>,
        end: Option<Seq<char>>,
        mode: Option<Mode>,
        crates: Option<CrateSelect>,
        priority: Option<i32>,
    },
}

impl View for Command {
    type V = CommandView;

    open spec fn view(&self) -> CommandView {
        match self {
            Command::Ping => CommandView::Ping,
            Command::Create { name, start, end, mode, crates, cap_lints, priority } =>
                CommandView::Create {
                    name: name@,
                    start: start@,
                    end: end@,
                    mode: *mode,
                    crates: *crates,
                    cap_lints: *cap_lints,
                    priority: *priority,
                },
            Command::Delete { name } => CommandView::Delete { name: name@ },
            Command::Edit { name, start, end, mode, crates, priority } => CommandView::Edit {
                name: name@,
                start: toolchain_view(*start),
                end: toolchain_view(*end),
                mode: *mode,
                crates: *crates,
                priority: *priority,
            },
        }
    }
}

/// Why a command cannot be carried out.
#[derive(Debug, PartialEq, Eq)]
pub enum CommandError {
    Argument(ArgumentError),
    MissingName,
    MissingStart,
    MissingEnd,
    MissingLints,
}

/// What a [`CommandError`] holds, as plain sequences.
pub enum CommandErrorView {
    Argument(ArgumentErrorView),
    MissingName,
    MissingStart,
    MissingEnd,
    MissingLints,
}

impl View for CommandError {
    type V = CommandErrorView;

    open spec fn view(&self) -> CommandErrorView {
        match self {
            CommandError::Argument(e) => CommandErrorView::Argument(e@),
            CommandError::MissingName => CommandErrorView::MissingName,
            CommandError::MissingStart => CommandErrorView::MissingStart,
            CommandError::MissingEnd => CommandErrorView::MissingEnd,
            CommandError::MissingLints => CommandErrorView::MissingLints,
        }
    }
}

impl CommandError {
    /// The message of this error.
    pub fn to_string(&self) -> (s: String)
        ensures
            s@ == match self@ {
                CommandErrorView::Argument(ArgumentErrorView::UnknownArgument(arg)) =>
                    "unknown argument: "@ + arg,
                CommandErrorView::Argument(ArgumentErrorView::InvalidValue(arg)) =>
                    "invalid argument: "@ + arg,
                CommandErrorView::MissingName => "missing experiment name!"@,
                CommandErrorView::MissingStart => "missing start toolchain"@,
                CommandErrorView::MissingEnd => "missing end toolchain"@,
                CommandErrorView::MissingLints => "missing lints option"@,
            },
    {
        match self {
            CommandError::Argument(ArgumentError::UnknownArgument(arg)) => String::from_str(
                "unknown argument: ",
            ).concat(arg.as_str()),
            CommandError::Argument(ArgumentError::InvalidValue(arg)) => String::from_str(
                "invalid argument: ",
            ).concat(arg.as_str()),
            CommandError::MissingName => String::from_str("missing experiment name!"),
            CommandError::MissingStart => String::from_str("missing start toolchain"),
            CommandError::MissingEnd => String::from_str("missing end toolchain"),
            CommandError::MissingLints => String::from_str("missing lints option"),
        }
    }
}

/// The command that arguments ask for, where `default` is the name of the
/// experiment that is meant when they give none. Arguments that say to run
/// ask for a new experiment, which needs both toolchains and the level of
/// the lints, tests every crate by building and testing unless they say
/// otherwise, and has the priority 0 unless they give one. Arguments that
/// say not to run ask to remove the experiment. Any others ask to change
/// it.
pub open spec fn asked(args: EditArgumentsView, default: Option<Seq<char>>) -> Result<
    CommandView,
    CommandErrorView,
> {
    let name = match args.name {
        Some(name) => Some(name),
        None => default,
    };
    if name is None {
        Err(CommandErrorView::MissingName)
    } else {
        match args.run {
            Some(true) => if args.start is None {
                Err(CommandErrorView::MissingStart)
            } else if args.end is None {
                Err(CommandErrorView::MissingEnd)
            } else if args.lints is None {
                Err(CommandErrorView::MissingLints)
            } else {
                Ok(
                    CommandView::Create {
                        name: name->0,
                        start: args.start->0,
                        end: args.end->0,
                        mode: match args.mode {
                            Some(mode) => mode,
                            None => Mode::BuildAndTest,
                        },
                        crates: match args.crates {
                            Some(crates) => crates,
                            None => CrateSelect::Full,
                        },
                        cap_lints: args.lints->0,
                        priority: match args.p {
                            Some(p) => p,
                            None => 0,
                        },
                    },
                )
            },
            Some(false) => Ok(CommandView::Delete { name: name->0 }),
            None => Ok(
                CommandView::Edit {
                    name: name->0,
                    start: args.start,
                    end: args.end,
                    mode: args.mode,
                    crates: args.crates,
                    priority: args.p,
                },
            ),
        }
    }
}

/// The command that arguments given on an issue ask for.
pub fn command_of(args: EditArguments, issue: &Issue) -> (command: Result<Command, CommandError>)
    ensures
        match command {
            Ok(c) => asked(args@, default_name(*issue)) == Ok::<_, CommandErrorView>(c@),
            Err(e) => asked(args@, default_name(*issue)) == Err::<CommandView, _>(e@),
        },
{
    let name = match args.name {
        Some(name) => name,
        None => match default_experiment_name(issue) {
            Some(name) => name,
            None => {
                return Err(CommandError::MissingName);
            },
        },
    };
    match args.run {
        Some(true) => {
            let start = match args.start {
                Some(start) => start,
                None => {
                    return Err(CommandError::MissingStart);
                },
            };
            let end = match args.end {
                Some(end) => end,
                None => {
                    return Err(CommandError::MissingEnd);
                },
            };
            let cap_lints = match args.lints {
                Some(lints) => lints,
                None => {
                    return Err(CommandError::MissingLints);
                },
            };
            Ok(
                Command::Create {
                    name,
                    start,
                    end,
                    mode: match args.mode {
                        Some(mode) => mode,
                        None => Mode::BuildAndTest,
                    },
                    crates: match args.crates {
                        Some(crates) => crates,
                        None => CrateSelect::Full,
                    },
                    cap_lints,
                    priority: match args.p {
                        Some(p) => p,
                        None => 0,
                    },
                },
            )
        },
        Some(false) => Ok(Command::Delete { name }),
        None => Ok(
            Command::Edit {
                name,
                start: args.start,
                end: args.end,
                mode: args.mode,
                crates: args.crates,
                priority: args.p,
            },
        ),
    }
}

/// What a comment holds for the bot.
#[derive(Debug, PartialEq, Eq)]
pub enum Reading {
    /// No line of the comment speaks to the bot.
    Nothing,
    /// The sender may not give commands.
    Denied,
    /// A command.
    Command(Command),
    /// A command that cannot be carried out.
    Failed(CommandError),
}

/// What a [`Reading`] holds, as plain values.
pub enum ReadingView {
    Nothing,
    Denied,
    Command(CommandView),
    Failed(CommandErrorView),
}

impl View for Reading {
    type V = ReadingView;

    open spec fn view(&self) -> ReadingView {
        match self {
            Reading::Nothing => ReadingView::Nothing,
            Reading::Denied => ReadingView::Denied,
            Reading::Command(c) => ReadingView::Command(c@),
            Reading::Failed(e) => ReadingView::Failed(e@),
        }
    }
}

/// The lines that speak to the bot: those that begin with an at sign, the
/// name of the bot and a space.
pub open spec fn speaks_to(bot: Seq<char>) -> spec_fn(Seq<char>) -> bool {
    |line: Seq<char>| begins_with(line, "@"@ + bot + " "@)
}

/// The users with the name `name`.
pub open spec fn is_user(name: Seq<char>) -> spec_fn(String) -> bool {
    |user: String| user@ == name
}

/// What a line that speaks to the bot holds: the words after the first
/// space are the command. A sender who is not on the list may not give
/// commands; `ping` is a command of its own; any other words are arguments.
pub open spec fn read_line(
    line: Seq<char>,
    sender: Seq<char>,
    acl: Seq<String>,
    default: Option<Seq<char>>,
) -> ReadingView {
    let words = split(line, ' ').skip(1);
    if first_match(acl, is_user(sender)) >= acl.len() {
        ReadingView::Denied
    } else if words == seq!["ping"@] {
        ReadingView::Command(CommandView::Ping)
    } else {
        match arguments(words, words.len() as int) {
            Err(e) => ReadingView::Failed(CommandErrorView::Argument(e)),
            Ok(args) => match asked(args, default) {
                Ok(command) => ReadingView::Command(command),
                Err(e) => ReadingView::Failed(e),
            },
        }
    }
}

/// What a comment holds for the bot: what its first line that speaks to the
/// bot holds.
pub open spec fn read(
    body: Seq<char>,
    sender: Seq<char>,
    bot: Seq<char>,
    acl: Seq<String>,
    default: Option<Seq<char>>,
) -> ReadingView {
    let at = first_match(lines(body), speaks_to(bot));
    if 0 <= at < lines(body).len() {
        read_line(lines(body)[at], sender, acl, default)
    } else {
        ReadingView::Nothing
    }
}

/// Reads the comment `body` that `sender` left on an issue.
pub fn process_command(
    sender: &str,
    body: &str,
    bot_username: &str,
    acl: &Vec<String>,
    issue: &Issue,
) -> (reading: Reading)
    ensures
        reading@ == read(body@, sender@, bot_username@, acl@, default_name(*issue)),
{
    let start = String::from_str("@").concat(bot_username).concat(" ");
    let found = lines_of(body);
    let mut i: usize = 0;
    while i < found.len() && !starts_with(found[i], start.as_str())
        invariant
            i <= found.len(),
            texts(found@) == lines(body@),
            start@ == "@"@ + bot_username@ + " "@,
            forall|j: int| 0 <= j < i ==> !speaks_to(bot_username@)(#[trigger] lines(body@)[j]),
        decreases found.len() - i,
    {
        assert(texts(found@)[i as int] == found@[i as int]@);
        i += 1;
    }
    proof {
        lemma_first_match_is(lines(body@), speaks_to(bot_username@), i as int);
        if i < found.len() {
            assert(texts(found@)[i as int] == found@[i as int]@);
        }
    }
    if i >= found.len() {
        return Reading::Nothing;
    }
    let line = found[i];
    let mut words = split_at_each(line, ' ');
    let ghost all = texts(words@);
    words.remove(0);
    assert(texts(words@) =~= all.skip(1));

    let wanted = String::from_str(sender);
    let mut k: usize = 0;
    while k < acl.len() && !(acl[k] == wanted)
        invariant
            k <= acl.len(),
            wanted@ == sender@,
            forall|j: int| 0 <= j < k ==> !is_user(sender@)(#[trigger] acl@[j]),
        decreases acl.len() - k,
    {
        k += 1;
    }
    proof {
        lemma_first_match_is(acl@, is_user(sender@), k as int);
    }
    if k >= acl.len() {
        return Reading::Denied;
    }
    if words.len() == 1 && str_eq(words[0], "ping") {
        assert(texts(words@) =~= seq!["ping"@]);
        return Reading::Command(Command::Ping);
    }
    proof {
        if texts(words@) == seq!["ping"@] {
            assert(texts(words@)[0] == words@[0]@);
        }
    }
    let args = match parse_edit_arguments(&words) {
        Ok(args) => args,
        Err(e) => {
            return Reading::Failed(CommandError::Argument(e));
        },
    };
    match command_of(args, issue) {
        Ok(command) => Reading::Command(command),
        Err(e) => Reading::Failed(e),
    }
}

/// Whether a signature is the one of a payload under a secret. The
/// signature names the way it was made, which must be `sha1`, and after an
/// equals sign the code to the base 16, which must be the code of the
/// payload under the secret.
pub open spec fn signed_by(secret: &str, payload: &str, raw_signature: Seq<char>) -> bool {
    let equals = find_char(raw_signature, '=');
    &&& 0 <= equals < raw_signature.len()
    &&& raw_signature.take(equals) == "sha1"@
    &&& is_hex(raw_signature.skip(equals + 1))
    &&& secret.spec_bytes().len() <= MAX_KEY_LEN
    &&& hmac_sha1_verifies(
        secret.spec_bytes(),
        payload.spec_bytes(),
        hex_bytes(raw_signature.skip(equals + 1)),
    )
}

/// Whether a signature is the one of a payload under a secret.
pub fn verify_signature(secret: &str, payload: &str, raw_signature: &str) -> (valid: bool)
    ensures
        valid == signed_by(secret, payload, raw_signature@),
{
    // The signature must have a =
    let (algorithm, hex_signature) = split_once(raw_signature, '=');
    let hex_signature = match hex_signature {
        Some(hex) => hex,
        None => {
            return false;
        },
    };
    // Convert the signature from hex
    let signature = match from_hex(hex_signature) {
        Some(signature) => signature,
        None => {
            return false;
        },
    };
    if !str_eq(algorithm, "sha1") {
        return false;
    }
    let key = secret.as_bytes_vec();
    if key.len() as u64 > MAX_KEY_LEN {
        return false;
    }
    let data = payload.as_bytes_vec();
    verify_hmac_sha1(key.as_slice(), data.as_slice(), signature.as_slice())
}

/// What GitHub tells the coordinator of.
#[derive(Debug, PartialEq, Eq, Clone, Copy, Hash, Structural)]
pub enum WebhookEvent {
    /// That the webhook is set up.
    Ping,
    /// That someone left a comment on an issue.
    IssueComment,
}

/// Why a message of GitHub is turned away.
#[derive(Debug, PartialEq, Eq)]
pub enum WebhookError {
    /// The message is not signed with the secret.
    InvalidSignature,
    /// The message tells of something that the coordinator does not know.
    InvalidEvent(String),
}

/// What a message of GitHub tells of, if it is signed with the secret: a
/// ping, or a comment on an issue.
pub fn process_webhook(payload: &str, signature: &str, event: &str, secret: &str) -> (told: Result<
    WebhookEvent,
    WebhookError,
>)
    ensures
        match told {
            Ok(WebhookEvent::Ping) => signed_by(secret, payload, signature@) && event@ == "ping"@,
            Ok(WebhookEvent::IssueComment) => signed_by(secret, payload, signature@) && event@
                == "issue_comment"@ && event@ != "ping"@,
            Err(WebhookError::InvalidSignature) => !signed_by(secret, payload, signature@),
            Err(WebhookError::InvalidEvent(e)) => signed_by(secret, payload, signature@) && event@
                != "ping"@ && event@ != "issue_comment"@ && e@ == event@,
        },
{
    if !verify_signature(secret, payload, signature) {
        return Err(WebhookError::InvalidSignature);
    }
    if str_eq(event, "ping") {
        Ok(WebhookEvent::Ping)
    } else if str_eq(event, "issue_comment") {
        Ok(WebhookEvent::IssueComment)
    } else {
        Err(WebhookError::InvalidEvent(String::from_str(event)))
    }
}

} // verus!
