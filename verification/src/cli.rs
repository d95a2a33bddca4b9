//! The command line: what the arguments ask for.

use vstd::prelude::*;
use crate::error::{outcome, Error, ErrorOf, Failure};
use crate::number::{is_digit, law_read_digits, parse_number, read_number, IntError};
use crate::settings::{env_usize_or, number_or, Setting, SettingOf, DEFAULT_CONTEXT_LIMIT};
use crate::text::{
    join, joined, law_joining_one_more, same, starts_with, starts_with_char, text_of, texts,
};

verus! {

/// What the user wants. `S` is the type of the texts: `String` at run time,
/// `Seq<char>` in specifications.
#[derive(Clone, Debug, PartialEq, Eq)]
pub enum CommandOf<S> {
    /// Ask a question about the machine.
    Ask {
        question: S,
        /// Scan the filesystem first.
        refresh: bool,
        /// Speak the answer.
        speak: bool,
        /// Send an image of the screen along.
        screen: bool,
        /// Show the avatar meanwhile.
        avatar: bool,
        /// How many filesystem entries to send at most.
        limit: usize,
    },
    /// Index a directory, or the home directory.
    Scan { root: Option<S> },
    /// Show what is stored and configured.
    Status,
    /// Show what would be sent.
    Context { limit: usize, screen: bool },
    /// Show the avatar.
    Avatar,
    /// Look for a newer release.
    Update { force: bool },
    /// Explain the commands.
    Help,
    /// Tell the version.
    Version,
}

/// What the user wants.
pub type CliCommand = CommandOf<String>;

/// What the user wants, as specifications speak of it.
pub type Command = CommandOf<Seq<char>>;

impl View for CommandOf<String> {
    type V = CommandOf<Seq<char>>;

    open spec fn view(&self) -> CommandOf<Seq<char>> {
        match *self {
            CommandOf::Ask { question, refresh, speak, screen, avatar, limit } => CommandOf::Ask {
                question: question@,
                refresh,
                speak,
                screen,
                avatar,
                limit,
            },
            CommandOf::Scan { root } => CommandOf::Scan { root: text_of(root) },
            CommandOf::Status => CommandOf::Status,
            CommandOf::Context { limit, screen } => CommandOf::Context { limit, screen },
            CommandOf::Avatar => CommandOf::Avatar,
            CommandOf::Update { force } => CommandOf::Update { force },
            CommandOf::Help => CommandOf::Help,
            CommandOf::Version => CommandOf::Version,
        }
    }
}

/// A parsed command or a failure, as specifications speak of them.
pub open spec fn parsed(result: Result<CliCommand, Error>) -> Result<Command, Failure> {
    match result {
        Ok(command) => Ok(command@),
        Err(error) => Err(error@),
    }
}

/// The environment variable that sets the default of `--limit`.
pub const CONTEXT_LIMIT: &'static str = "BUDDY_CONTEXT_LIMIT";

// ---------------------------------------------------------------------------
// Limits
// ---------------------------------------------------------------------------

/// The limit that the value of `--limit` denotes.
pub open spec fn limit_value(value: Option<Seq<char>>) -> Result<usize, Failure> {
    match value {
        None => Err(Failure::LimitMissing),
        Some(raw) => match read_number(raw, usize::MAX as nat) {
            Err(cause) => Err(Failure::LimitInvalid { raw, cause }),
            Ok(number) => if number == 0 {
                Err(Failure::LimitZero)
            } else {
                Ok(number as usize)
            },
        },
    }
}

/// The text of an optional reference to a string.
pub open spec fn value_text(value: Option<&String>) -> Option<Seq<char>> {
    match value {
        Some(text) => Some(text@),
        None => None,
    }
}

/// Reads the value of `--limit`.
pub fn parse_limit(value: Option<&String>) -> (res: Result<usize, Error>)
    ensures
        outcome(res) == limit_value(value_text(value)),
{
    match value {
        None => Err(ErrorOf::LimitMissing),
        Some(raw) => match parse_number(raw.as_str(), usize::MAX as u64) {
            Err(cause) => Err(ErrorOf::LimitInvalid { raw: raw.clone(), cause }),
            Ok(number) => if number == 0 {
                Err(ErrorOf::LimitZero)
            } else {
                Ok(number as usize)
            },
        },
    }
}

/// The limit that holds without `--limit`.
pub open spec fn default_limit(setting: SettingOf<Seq<char>>) -> Result<nat, Failure> {
    number_or(CONTEXT_LIMIT@, setting, DEFAULT_CONTEXT_LIMIT as nat)
}

/// The text at an index, if there is one.
pub open spec fn text_at(args: Seq<Seq<char>>, i: int) -> Option<Seq<char>> {
    if i < args.len() {
        Some(args[i])
    } else {
        None
    }
}

// ---------------------------------------------------------------------------
// ask
// ---------------------------------------------------------------------------

/// What the arguments of `ask` have said so far.
pub struct AskOptions {
    pub refresh: bool,
    pub speak: bool,
    pub screen: bool,
    pub avatar: bool,
    pub limit: usize,
    pub words: Seq<Seq<char>>,
}

/// What holds before the arguments of `ask` say anything.
pub open spec fn ask_defaults(limit: usize) -> AskOptions {
    AskOptions {
        refresh: false,
        speak: false,
        screen: false,
        avatar: true,
        limit,
        words: Seq::empty(),
    }
}

/// Reads the arguments of `ask` from the left, beginning with what has been said
/// so far.
pub open spec fn read_ask(args: Seq<Seq<char>>, so_far: AskOptions) -> Result<AskOptions, Failure>
    decreases args.len(),
{
    if args.len() == 0 {
        Ok(so_far)
    } else {
        let rest = args.drop_first();
        if args[0] == "--refresh"@ {
            read_ask(rest, AskOptions { refresh: true, ..so_far })
        } else if args[0] == "--speak"@ {
            read_ask(rest, AskOptions { speak: true, ..so_far })
        } else if args[0] == "--screen"@ {
            read_ask(rest, AskOptions { screen: true, ..so_far })
        } else if args[0] == "--no-avatar"@ {
            read_ask(rest, AskOptions { avatar: false, ..so_far })
        } else if args[0] == "--limit"@ {
            match limit_value(text_at(args, 1)) {
                Err(failure) => Err(failure),
                Ok(limit) => read_ask(rest.drop_first(), AskOptions { limit, ..so_far }),
            }
        } else if starts_with(args[0], '-') {
            Err(Failure::UnknownAskOption { option: args[0] })
        } else {
            read_ask(rest, AskOptions { words: so_far.words.push(args[0]), ..so_far })
        }
    }
}

/// The command that the arguments of `ask` make: their words, with spaces
/// between them, are the question.
pub open spec fn ask_command(args: Seq<Seq<char>>, setting: SettingOf<Seq<char>>) -> Result<
    Command,
    Failure,
> {
    match default_limit(setting) {
        Err(failure) => Err(failure),
        Ok(limit) => match read_ask(args, ask_defaults(limit as usize)) {
            Err(failure) => Err(failure),
            Ok(options) => if options.words.len() == 0 {
                Err(Failure::QuestionMissing)
            } else {
                Ok(
                    CommandOf::Ask {
                        question: joined(options.words, " "@),
                        refresh: options.refresh,
                        speak: options.speak,
                        screen: options.screen,
                        avatar: options.avatar,
                        limit: options.limit,
                    },
                )
            },
        },
    }
}

/// Reads the arguments of `ask`. `context_limit` is the setting of the default
/// limit.
pub fn parse_ask(arguments: Vec<String>, context_limit: &Setting) -> (res: Result<
    CliCommand,
    Error,
>)
    ensures
        parsed(res) == ask_command(texts(arguments@), context_limit@),
{
    let mut refresh = false;
    let mut speak = false;
    let mut screen = false;
    let mut avatar = true;
    let mut limit: usize = match env_usize_or(CONTEXT_LIMIT, context_limit, DEFAULT_CONTEXT_LIMIT) {
        Ok(limit) => limit,
        Err(error) => {
            return Err(error);
        },
    };
    let mut question: Vec<String> = Vec::new();
    let ghost args = texts(arguments@);
    let ghost begin = ask_defaults(limit);
    assert(args.skip(0) =~= args);
    assert(texts(question@) =~= Seq::<Seq<char>>::empty());
    let mut index: usize = 0;
    while index < arguments.len()
        invariant
            index <= arguments.len(),
            args == texts(arguments@),
            default_limit(context_limit@) == Ok::<nat, Failure>(begin.limit as nat),
            begin == ask_defaults(begin.limit),
            read_ask(args, begin) == read_ask(
                args.skip(index as int),
                (AskOptions { refresh, speak, screen, avatar, limit, words: texts(question@) }),
            ),
        decreases arguments.len() - index,
    {
        let argument = arguments[index].as_str();
        let ghost left = args.skip(index as int);
        proof {
            assert(left[0] == argument@);
            assert(left.drop_first() =~= args.skip(index + 1));
        }
        if same(argument, "--refresh") {
            refresh = true;
        } else if same(argument, "--speak") {
            speak = true;
        } else if same(argument, "--screen") {
            screen = true;
        } else if same(argument, "--no-avatar") {
            avatar = false;
        } else if same(argument, "--limit") {
            index = index + 1;
            let value = if index < arguments.len() {
                Some(&arguments[index])
            } else {
                None
            };
            assert(value_text(value) == text_at(left, 1));
            limit =
            match parse_limit(value) {
                Ok(number) => number,
                Err(error) => {
                    return Err(error);
                },
            };
            assert(left.drop_first().drop_first() =~= args.skip(index + 1));
        } else if starts_with_char(argument, '-') {
            return Err(ErrorOf::UnknownAskOption { option: argument.to_owned() });
        } else {
            let ghost before = question@;
            question.push(argument.to_owned());
            assert(texts(question@) =~= texts(before).push(argument@));
        }
        index = index + 1;
    }
    assert(args.skip(index as int).len() == 0);
    if question.len() == 0 {
        return Err(ErrorOf::QuestionMissing);
    }
    Ok(
        CommandOf::Ask {
            question: join(&question, " "),
            refresh,
            speak,
            screen,
            avatar,
            limit,
        },
    )
}

// ---------------------------------------------------------------------------
// context
// ---------------------------------------------------------------------------

/// Reads the arguments of `context` from the left, beginning with what has been
/// said so far: the limit, and whether the screen is wanted.
pub open spec fn read_context(args: Seq<Seq<char>>, limit: usize, screen: bool) -> Result<
    (usize, bool),
    Failure,
>
    decreases args.len(),
{
    if args.len() == 0 {
        Ok((limit, screen))
    } else {
        let rest = args.drop_first();
        if args[0] == "--screen"@ {
            read_context(rest, limit, true)
        } else if args[0] == "--limit"@ {
            match limit_value(text_at(args, 1)) {
                Err(failure) => Err(failure),
                Ok(number) => read_context(rest.drop_first(), number, screen),
            }
        } else {
            Err(Failure::UnknownContextOption { option: args[0] })
        }
    }
}

/// What the arguments of `context` ask for.
pub open spec fn context_options(args: Seq<Seq<char>>, setting: SettingOf<Seq<char>>) -> Result<
    (usize, bool),
    Failure,
> {
    match default_limit(setting) {
        Err(failure) => Err(failure),
        Ok(limit) => read_context(args, limit as usize, false),
    }
}

/// Reads the arguments of `context`. `context_limit` is the setting of the
/// default limit.
pub fn parse_context(arguments: &Vec<String>, context_limit: &Setting) -> (res: Result<
    (usize, bool),
    Error,
>)
    ensures
        outcome(res) == context_options(texts(arguments@), context_limit@),
{
    let mut limit: usize = match env_usize_or(CONTEXT_LIMIT, context_limit, DEFAULT_CONTEXT_LIMIT) {
        Ok(limit) => limit,
        Err(error) => {
            return Err(error);
        },
    };
    let ghost args = texts(arguments@);
    let ghost begin = limit;
    assert(args.skip(0) =~= args);
    let mut screen = false;
    let mut index: usize = 0;
    while index < arguments.len()
        invariant
            index <= arguments.len(),
            args == texts(arguments@),
            default_limit(context_limit@) == Ok::<nat, Failure>(begin as nat),
            read_context(args, begin, false) == read_context(
                args.skip(index as int),
                limit,
                screen,
            ),
        decreases arguments.len() - index,
    {
        let argument = arguments[index].as_str();
        let ghost left = args.skip(index as int);
        proof {
            assert(left[0] == argument@);
            assert(left.drop_first() =~= args.skip(index + 1));
        }
        if same(argument, "--screen") {
            screen = true;
        } else if same(argument, "--limit") {
            index = index + 1;
            let value = if index < arguments.len() {
                Some(&arguments[index])
            } else {
                None
            };
            assert(value_text(value) == text_at(left, 1));
            limit =
            match parse_limit(value) {
                Ok(number) => number,
                Err(error) => {
                    return Err(error);
                },
            };
            assert(left.drop_first().drop_first() =~= args.skip(index + 1));
        } else {
            return Err(ErrorOf::UnknownContextOption { option: argument.to_owned() });
        }
        index = index + 1;
    }
    assert(args.skip(index as int).len() == 0);
    Ok((limit, screen))
}

// ---------------------------------------------------------------------------
// All commands
// ---------------------------------------------------------------------------

/// The command takes no arguments: it is the given one without any, and a
/// failure with some.
pub open spec fn alone(word: Seq<char>, rest: Seq<Seq<char>>, command: Command) -> Result<
    Command,
    Failure,
> {
    if rest.len() == 0 {
        Ok(command)
    } else {
        Err(Failure::UnexpectedArguments { command: word })
    }
}

/// The command that a line of arguments asks for. `setting` is the setting of
/// the default limit.
pub open spec fn command_of(args: Seq<Seq<char>>, setting: SettingOf<Seq<char>>) -> Result<
    Command,
    Failure,
> {
    if args.len() == 0 {
        Ok(CommandOf::Help)
    } else {
        let word = args[0];
        let rest = args.drop_first();
        if word == "ask"@ {
            ask_command(rest, setting)
        } else if word == "scan"@ {
            if rest.len() > 1 {
                Err(Failure::ScanArguments)
            } else {
                Ok(CommandOf::Scan { root: text_at(rest, 0) })
            }
        } else if word == "context"@ {
            match context_options(rest, setting) {
                Ok((limit, screen)) => Ok(CommandOf::Context { limit, screen }),
                Err(failure) => Err(failure),
            }
        } else if word == "update"@ {
            if rest.len() == 0 {
                Ok(CommandOf::Update { force: false })
            } else if rest.len() == 1 && rest[0] == "--force"@ {
                Ok(CommandOf::Update { force: true })
            } else {
                Err(Failure::UpdateArguments)
            }
        } else if word == "status"@ {
            alone(word, rest, CommandOf::Status)
        } else if word == "avatar"@ {
            alone(word, rest, CommandOf::Avatar)
        } else if word == "help"@ || word == "--help"@ || word == "-h"@ {
            alone(word, rest, CommandOf::Help)
        } else if word == "version"@ || word == "--version"@ || word == "-V"@ {
            alone(word, rest, CommandOf::Version)
        } else {
            Err(Failure::UnknownCommand { command: word })
        }
    }
}

/// Reads the command line. `context_limit` is the setting of the default limit;
/// only `ask` and `context` look at it.
pub fn parse_args(arguments: Vec<String>, context_limit: &Setting) -> (res: Result<
    CliCommand,
    Error,
>)
    ensures
        parsed(res) == command_of(texts(arguments@), context_limit@),
{
    let mut remaining = arguments;
    if remaining.len() == 0 {
        return Ok(CommandOf::Help);
    }
    let ghost args = texts(arguments@);
    let command = remaining.remove(0);
    let word = command.as_str();
    let ghost rest = texts(remaining@);
    assert(args[0] == word@);
    assert(rest =~= args.drop_first());
    if same(word, "ask") {
        return parse_ask(remaining, context_limit);
    }
    if same(word, "scan") {
        if remaining.len() > 1 {
            return Err(ErrorOf::ScanArguments);
        }
        let root = if remaining.len() == 0 {
            None
        } else {
            assert(rest[0] == remaining@[0]@);
            Some(remaining[0].clone())
        };
        return Ok(CommandOf::Scan { root });
    }
    if same(word, "context") {
        return match parse_context(&remaining, context_limit) {
            Ok((limit, screen)) => Ok(CommandOf::Context { limit, screen }),
            Err(error) => Err(error),
        };
    }
    if same(word, "update") {
        if remaining.len() == 0 {
            return Ok(CommandOf::Update { force: false });
        }
        assert(rest[0] == remaining@[0]@);
        if remaining.len() == 1 && same(remaining[0].as_str(), "--force") {
            return Ok(CommandOf::Update { force: true });
        }
        return Err(ErrorOf::UpdateArguments);
    }
    let known = if same(word, "status") {
        CommandOf::Status
    } else if same(word, "avatar") {
        CommandOf::Avatar
    } else if same(word, "help") || same(word, "--help") || same(word, "-h") {
        CommandOf::Help
    } else if same(word, "version") || same(word, "--version") || same(word, "-V") {
        CommandOf::Version
    } else {
        return Err(ErrorOf::UnknownCommand { command });
    };
    if remaining.len() == 0 {
        Ok(known)
    } else {
        Err(ErrorOf::UnexpectedArguments { command })
    }
}

// ---------------------------------------------------------------------------
// What holds of every command
// ---------------------------------------------------------------------------

/// A command that is accepted has a limit that is greater than zero, if it has
/// one.
pub proof fn law_limits_are_positive(args: Seq<Seq<char>>, setting: SettingOf<Seq<char>>)
    ensures
        match command_of(args, setting) {
            Ok(CommandOf::Ask { question, refresh, speak, screen, avatar, limit }) => limit > 0,
            Ok(CommandOf::Context { limit, screen }) => limit > 0,
            _ => true,
        },
{
    if args.len() > 0 {
        let rest = args.drop_first();
        match default_limit(setting) {
            Ok(limit) => {
                lemma_ask_limit(rest, ask_defaults(limit as usize));
                lemma_context_limit(rest, limit as usize, false);
                lemma_default_limit(setting);
            },
            Err(_) => {},
        }
    }
}

proof fn lemma_default_limit(setting: SettingOf<Seq<char>>)
    ensures
        default_limit(setting) matches Ok(limit) ==> 0 < limit <= usize::MAX,
{
    match setting {
        SettingOf::Text(text) => {
            lemma_number_bound(text, usize::MAX as nat);
        },
        _ => {},
    }
}

proof fn lemma_number_bound(text: Seq<char>, max: nat)
    ensures
        read_number(text, max) matches Ok(number) ==> number <= max,
{
    if text.len() > 0 {
        law_read_digits(text, max);
        law_read_digits(text.drop_first(), max);
    }
}

proof fn lemma_limit_value(value: Option<Seq<char>>)
    ensures
        limit_value(value) matches Ok(limit) ==> limit > 0,
{
    match value {
        Some(raw) => {
            lemma_number_bound(raw, usize::MAX as nat);
        },
        None => {},
    }
}

proof fn lemma_ask_limit(args: Seq<Seq<char>>, so_far: AskOptions)
    ensures
        so_far.limit > 0 ==> (read_ask(args, so_far) matches Ok(options) ==> options.limit > 0),
    decreases args.len(),
{
    if args.len() > 0 {
        let rest = args.drop_first();
        lemma_limit_value(text_at(args, 1));
        lemma_ask_limit(rest, AskOptions { refresh: true, ..so_far });
        lemma_ask_limit(rest, AskOptions { speak: true, ..so_far });
        lemma_ask_limit(rest, AskOptions { screen: true, ..so_far });
        lemma_ask_limit(rest, AskOptions { avatar: false, ..so_far });
        lemma_ask_limit(rest, AskOptions { words: so_far.words.push(args[0]), ..so_far });
        match limit_value(text_at(args, 1)) {
            Ok(limit) => {
                if args.len() > 1 {
                    lemma_ask_limit(rest.drop_first(), AskOptions { limit, ..so_far });
                }
            },
            Err(_) => {},
        }
    }
}

proof fn lemma_context_limit(args: Seq<Seq<char>>, limit: usize, screen: bool)
    ensures
        limit > 0 ==> (read_context(args, limit, screen) matches Ok(options) ==> options.0 > 0),
    decreases args.len(),
{
    if args.len() > 0 {
        let rest = args.drop_first();
        lemma_limit_value(text_at(args, 1));
        lemma_context_limit(rest, limit, true);
        match limit_value(text_at(args, 1)) {
            Ok(number) => {
                if args.len() > 1 {
                    lemma_context_limit(rest.drop_first(), number, screen);
                }
            },
            Err(_) => {},
        }
    }
}

/// No text that starts with a dash is a limit.
proof fn lemma_dash_is_no_limit(text: Seq<char>)
    requires
        starts_with(text, '-'),
    ensures
        limit_value(Some(text)) is Err,
{
    law_read_digits(text, usize::MAX as nat);
    assert(!is_digit(text[0]));
}

/// The flags of `ask` are different from each other and start with dashes.
proof fn lemma_flags_differ()
    ensures
        "--refresh"@ != "--speak"@,
        "--refresh"@ != "--screen"@,
        "--refresh"@ != "--no-avatar"@,
        "--refresh"@ != "--limit"@,
        "--speak"@ != "--screen"@,
        "--speak"@ != "--no-avatar"@,
        "--speak"@ != "--limit"@,
        "--screen"@ != "--no-avatar"@,
        "--screen"@ != "--limit"@,
        "--no-avatar"@ != "--limit"@,
        starts_with("--refresh"@, '-'),
        starts_with("--speak"@, '-'),
        starts_with("--screen"@, '-'),
        starts_with("--no-avatar"@, '-'),
        starts_with("--limit"@, '-'),
{
    reveal_strlit("--refresh");
    reveal_strlit("--speak");
    reveal_strlit("--screen");
    reveal_strlit("--no-avatar");
    reveal_strlit("--limit");
    assert("--refresh"@.len() == 9);
    assert("--speak"@.len() == 7);
    assert("--screen"@.len() == 8);
    assert("--no-avatar"@.len() == 11);
    assert("--limit"@.len() == 7);
    assert("--speak"@[2] != "--limit"@[2]);
}

/// The options that were set are those that occur among the arguments.
pub open spec fn options_occur(args: Seq<Seq<char>>, before: AskOptions, after: AskOptions) -> bool {
    &&& after.refresh == (before.refresh || args.contains("--refresh"@))
    &&& after.speak == (before.speak || args.contains("--speak"@))
    &&& after.screen == (before.screen || args.contains("--screen"@))
    &&& after.avatar == (before.avatar && !args.contains("--no-avatar"@))
}

proof fn lemma_head_and_rest(args: Seq<Seq<char>>, flag: Seq<char>)
    requires
        args.len() > 0,
    ensures
        args.contains(flag) == (args[0] == flag || args.drop_first().contains(flag)),
{
    let rest = args.drop_first();
    if args.contains(flag) {
        let k = choose|k: int| 0 <= k < args.len() && args[k] == flag;
        if k > 0 {
            assert(rest[k - 1] == flag);
        }
    }
    if rest.contains(flag) {
        let k = choose|k: int| 0 <= k < rest.len() && rest[k] == flag;
        assert(args[k + 1] == flag);
    }
}

proof fn lemma_options_occur(args: Seq<Seq<char>>, so_far: AskOptions)
    ensures
        read_ask(args, so_far) matches Ok(options) ==> options_occur(args, so_far, options),
    decreases args.len(),
{
    if args.len() > 0 && read_ask(args, so_far) is Ok {
        let rest = args.drop_first();
        lemma_flags_differ();
        lemma_head_and_rest(args, "--refresh"@);
        lemma_head_and_rest(args, "--speak"@);
        lemma_head_and_rest(args, "--screen"@);
        lemma_head_and_rest(args, "--no-avatar"@);
        if args[0] == "--limit"@ {
            let value = args[1];
            let limit = limit_value(text_at(args, 1))->Ok_0;
            assert(rest[0] == value);
            if starts_with(value, '-') {
                lemma_dash_is_no_limit(value);
            }
            lemma_head_and_rest(rest, "--refresh"@);
            lemma_head_and_rest(rest, "--speak"@);
            lemma_head_and_rest(rest, "--screen"@);
            lemma_head_and_rest(rest, "--no-avatar"@);
            lemma_options_occur(rest.drop_first(), AskOptions { limit, ..so_far });
        } else {
            lemma_options_occur(rest, AskOptions { refresh: true, ..so_far });
            lemma_options_occur(rest, AskOptions { speak: true, ..so_far });
            lemma_options_occur(rest, AskOptions { screen: true, ..so_far });
            lemma_options_occur(rest, AskOptions { avatar: false, ..so_far });
            lemma_options_occur(
                rest,
                AskOptions { words: so_far.words.push(args[0]), ..so_far },
            );
        }
    }
}

/// Speech, the screen image, a fresh scan and a hidden avatar are opt-in: a
/// question comes with them exactly if their flags are among the arguments,
/// wherever they stand.
pub proof fn law_options_are_opt_in(rest: Seq<Seq<char>>, setting: SettingOf<Seq<char>>)
    ensures
        ask_command(rest, setting) matches Ok(
            CommandOf::Ask { question, refresh, speak, screen, avatar, limit },
        ) ==> {
            &&& refresh == rest.contains("--refresh"@)
            &&& speak == rest.contains("--speak"@)
            &&& screen == rest.contains("--screen"@)
            &&& avatar == !rest.contains("--no-avatar"@)
        },
        ask_command(rest, setting) matches Ok(command) ==> command is Ask,
{
    match default_limit(setting) {
        Ok(limit) => {
            lemma_options_occur(rest, ask_defaults(limit as usize));
        },
        Err(_) => {},
    }
}

proof fn lemma_context_screen(args: Seq<Seq<char>>, limit: usize, screen: bool)
    ensures
        read_context(args, limit, screen) matches Ok(options) ==> options.1 == (screen
            || args.contains("--screen"@)),
    decreases args.len(),
{
    if args.len() > 0 && read_context(args, limit, screen) is Ok {
        let rest = args.drop_first();
        lemma_flags_differ();
        lemma_head_and_rest(args, "--screen"@);
        if args[0] == "--screen"@ {
            lemma_context_screen(rest, limit, true);
        } else {
            let number = limit_value(text_at(args, 1))->Ok_0;
            assert(rest[0] == args[1]);
            if starts_with(args[1], '-') {
                lemma_dash_is_no_limit(args[1]);
            }
            lemma_head_and_rest(rest, "--screen"@);
            lemma_context_screen(rest.drop_first(), number, screen);
        }
    }
}

/// The screen is opt-in for `context` too: its metadata is shown exactly if the
/// flag is among the arguments.
pub proof fn law_context_screen_is_opt_in(rest: Seq<Seq<char>>, setting: SettingOf<Seq<char>>)
    ensures
        context_options(rest, setting) matches Ok(options) ==> options.1 == rest.contains(
            "--screen"@,
        ),
{
    match default_limit(setting) {
        Ok(limit) => {
            lemma_context_screen(rest, limit as usize, false);
        },
        Err(_) => {},
    }
}

proof fn lemma_limit_stays(args: Seq<Seq<char>>, so_far: AskOptions)
    ensures
        !args.contains("--limit"@) ==> (read_ask(args, so_far) matches Ok(options)
            ==> options.limit == so_far.limit),
    decreases args.len(),
{
    if args.len() > 0 {
        let rest = args.drop_first();
        lemma_head_and_rest(args, "--limit"@);
        lemma_limit_stays(rest, AskOptions { refresh: true, ..so_far });
        lemma_limit_stays(rest, AskOptions { speak: true, ..so_far });
        lemma_limit_stays(rest, AskOptions { screen: true, ..so_far });
        lemma_limit_stays(rest, AskOptions { avatar: false, ..so_far });
        lemma_limit_stays(rest, AskOptions { words: so_far.words.push(args[0]), ..so_far });
    }
}

proof fn lemma_context_limit_stays(args: Seq<Seq<char>>, limit: usize, screen: bool)
    ensures
        !args.contains("--limit"@) ==> (read_context(args, limit, screen) matches Ok(options)
            ==> options.0 == limit),
    decreases args.len(),
{
    if args.len() > 0 {
        lemma_head_and_rest(args, "--limit"@);
        lemma_context_limit_stays(args.drop_first(), limit, true);
    }
}

/// Without a limit among the arguments or in the environment, no more than two
/// thousand filesystem entries are shown or sent.
pub proof fn law_default_limit(args: Seq<Seq<char>>)
    requires
        !args.contains("--limit"@),
    ensures
        match command_of(args, SettingOf::Missing) {
            Ok(CommandOf::Ask { question, refresh, speak, screen, avatar, limit }) => limit == 2000,
            Ok(CommandOf::Context { limit, screen }) => limit == 2000,
            _ => true,
        },
{
    if args.len() > 0 {
        lemma_head_and_rest(args, "--limit"@);
        lemma_limit_stays(args.drop_first(), ask_defaults(2000));
        lemma_context_limit_stays(args.drop_first(), 2000, false);
    }
}

proof fn lemma_plain_words(args: Seq<Seq<char>>, so_far: AskOptions)
    requires
        forall|i: int| 0 <= i < args.len() ==> !starts_with(#[trigger] args[i], '-'),
    ensures
        read_ask(args, so_far) == Ok::<AskOptions, Failure>(
            AskOptions { words: so_far.words + args, ..so_far },
        ),
    decreases args.len(),
{
    if args.len() > 0 {
        lemma_flags_differ();
        assert(!starts_with(args[0], '-'));
        let rest = args.drop_first();
        assert forall|i: int| 0 <= i < rest.len() implies !starts_with(#[trigger] rest[i], '-') by {
            assert(rest[i] == args[i + 1]);
        }
        let more = AskOptions { words: so_far.words.push(args[0]), ..so_far };
        lemma_plain_words(rest, more);
        assert(so_far.words.push(args[0]) + rest =~= so_far.words + args);
    } else {
        assert(so_far.words + args =~= so_far.words);
    }
}

/// Words without a dash in front are the question, with spaces between them, and
/// nothing else is switched on. The limit is the default one.
pub proof fn law_plain_question(words: Seq<Seq<char>>)
    requires
        words.len() > 0,
        forall|i: int| 0 <= i < words.len() ==> !starts_with(#[trigger] words[i], '-'),
    ensures
        ask_command(words, SettingOf::Missing) == Ok::<Command, Failure>(
            CommandOf::Ask {
                question: joined(words, " "@),
                refresh: false,
                speak: false,
                screen: false,
                avatar: true,
                limit: 2000,
            },
        ),
{
    lemma_plain_words(words, ask_defaults(2000));
    assert(Seq::<Seq<char>>::empty() + words =~= words);
}

proof fn lemma_read_more(args: Seq<Seq<char>>, more: Seq<Seq<char>>, so_far: AskOptions)
    ensures
        read_ask(args, so_far) matches Ok(options) ==> read_ask(args + more, so_far) == read_ask(
            more,
            options,
        ),
        read_ask(args, so_far) matches Err(failure) ==> (failure != Failure::LimitMissing
            ==> read_ask(args + more, so_far) == Err::<AskOptions, Failure>(failure)),
    decreases args.len(),
{
    let all = args + more;
    if args.len() == 0 {
        assert(all =~= more);
    } else {
        let rest = args.drop_first();
        assert(all[0] == args[0]);
        assert(all.drop_first() =~= rest + more);
        if args[0] == "--refresh"@ {
            lemma_read_more(rest, more, AskOptions { refresh: true, ..so_far });
        } else if args[0] == "--speak"@ {
            lemma_read_more(rest, more, AskOptions { speak: true, ..so_far });
        } else if args[0] == "--screen"@ {
            lemma_read_more(rest, more, AskOptions { screen: true, ..so_far });
        } else if args[0] == "--no-avatar"@ {
            lemma_read_more(rest, more, AskOptions { avatar: false, ..so_far });
        } else if args[0] == "--limit"@ {
            if args.len() > 1 {
                assert(text_at(all, 1) == text_at(args, 1));
                match limit_value(text_at(args, 1)) {
                    Ok(limit) => {
                        assert(all.drop_first().drop_first() =~= rest.drop_first() + more);
                        lemma_read_more(rest.drop_first(), more, AskOptions { limit, ..so_far });
                    },
                    Err(_) => {},
                }
            }
        } else if !starts_with(args[0], '-') {
            lemma_read_more(
                rest,
                more,
                AskOptions { words: so_far.words.push(args[0]), ..so_far },
            );
        }
    }
}

proof fn lemma_read_one(arg: Seq<char>, so_far: AskOptions)
    ensures
        arg == "--refresh"@ ==> read_ask(seq![arg], so_far) == Ok::<AskOptions, Failure>(
            AskOptions { refresh: true, ..so_far },
        ),
        arg == "--speak"@ ==> read_ask(seq![arg], so_far) == Ok::<AskOptions, Failure>(
            AskOptions { speak: true, ..so_far },
        ),
        arg == "--screen"@ ==> read_ask(seq![arg], so_far) == Ok::<AskOptions, Failure>(
            AskOptions { screen: true, ..so_far },
        ),
        arg == "--no-avatar"@ ==> read_ask(seq![arg], so_far) == Ok::<AskOptions, Failure>(
            AskOptions { avatar: false, ..so_far },
        ),
        arg == "--limit"@ ==> read_ask(seq![arg], so_far) == Err::<AskOptions, Failure>(
            Failure::LimitMissing,
        ),
        !starts_with(arg, '-') ==> read_ask(seq![arg], so_far) == Ok::<AskOptions, Failure>(
            AskOptions { words: so_far.words.push(arg), ..so_far },
        ),
        starts_with(arg, '-') && arg != "--refresh"@ && arg != "--speak"@ && arg != "--screen"@
            && arg != "--no-avatar"@ && arg != "--limit"@ ==> read_ask(seq![arg], so_far) == Err::<
            AskOptions,
            Failure,
        >(Failure::UnknownAskOption { option: arg }),
{
    reveal_with_fuel(read_ask, 2);
    lemma_flags_differ();
    let args = seq![arg];
    assert(args.drop_first() =~= Seq::<Seq<char>>::empty());
}

proof fn lemma_read_limit(value: Seq<char>, so_far: AskOptions)
    ensures
        read_ask(seq!["--limit"@, value], so_far) == match limit_value(Some(value)) {
            Ok(limit) => Ok::<AskOptions, Failure>(AskOptions { limit, ..so_far }),
            Err(failure) => Err::<AskOptions, Failure>(failure),
        },
{
    reveal_with_fuel(read_ask, 2);
    lemma_flags_differ();
    let args = seq!["--limit"@, value];
    assert(args.drop_first().drop_first() =~= Seq::<Seq<char>>::empty());
    assert(text_at(args, 1) == Some(value));
}

/// A word after a question is part of it, behind a space, and changes nothing
/// else. A word after options alone is the question.
pub proof fn law_words_make_the_question(
    args: Seq<Seq<char>>,
    setting: SettingOf<Seq<char>>,
    word: Seq<char>,
)
    requires
        !starts_with(word, '-'),
    ensures
        match ask_command(args, setting) {
            Ok(CommandOf::Ask { question, refresh, speak, screen, avatar, limit }) => ask_command(
                args.push(word),
                setting,
            ) == Ok::<Command, Failure>(
                CommandOf::Ask {
                    question: question + " "@ + word,
                    refresh,
                    speak,
                    screen,
                    avatar,
                    limit,
                },
            ),
            Err(Failure::QuestionMissing) => {
                ask_command(args.push(word), setting) matches Ok(command) && (
                command matches CommandOf::Ask { question, .. } && question == word)
            },
            _ => true,
        },
{
    match default_limit(setting) {
        Ok(limit) => {
            let start = ask_defaults(limit as usize);
            lemma_read_more(args, seq![word], start);
            assert(args + seq![word] =~= args.push(word));
            match read_ask(args, start) {
                Ok(options) => {
                    lemma_read_one(word, options);
                    law_joining_one_more(options.words, word, " "@);
                },
                Err(_) => {
                    lemma_reading_needs_no_question(args, start);
                },
            }
        },
        Err(_) => {},
    }
}

/// The flag of `ask` changes what it is for and nothing else, and makes no
/// question.
pub proof fn law_flags_change_one_thing(
    args: Seq<Seq<char>>,
    setting: SettingOf<Seq<char>>,
    flag: Seq<char>,
)
    requires
        flag == "--refresh"@ || flag == "--speak"@ || flag == "--screen"@ || flag
            == "--no-avatar"@,
    ensures
        match ask_command(args, setting) {
            Ok(CommandOf::Ask { question, refresh, speak, screen, avatar, limit }) => ask_command(
                args.push(flag),
                setting,
            ) == Ok::<Command, Failure>(
                CommandOf::Ask {
                    question,
                    refresh: refresh || flag == "--refresh"@,
                    speak: speak || flag == "--speak"@,
                    screen: screen || flag == "--screen"@,
                    avatar: avatar && flag != "--no-avatar"@,
                    limit,
                },
            ),
            Err(Failure::QuestionMissing) => ask_command(args.push(flag), setting) == Err::<
                Command,
                Failure,
            >(Failure::QuestionMissing),
            _ => true,
        },
{
    lemma_flags_differ();
    match default_limit(setting) {
        Ok(limit) => {
            let start = ask_defaults(limit as usize);
            lemma_read_more(args, seq![flag], start);
            assert(args + seq![flag] =~= args.push(flag));
            match read_ask(args, start) {
                Ok(options) => {
                    lemma_read_one(flag, options);
                },
                Err(_) => {},
            }
        },
        Err(_) => {},
    }
}

/// A limit behind a question replaces the limit and nothing else. One that is
/// zero or no number is a failure.
pub proof fn law_limit_changes_the_limit(
    args: Seq<Seq<char>>,
    setting: SettingOf<Seq<char>>,
    value: Seq<char>,
)
    ensures
        match ask_command(args, setting) {
            Ok(CommandOf::Ask { question, refresh, speak, screen, avatar, limit }) => ask_command(
                args + seq!["--limit"@, value],
                setting,
            ) == match read_number(value, usize::MAX as nat) {
                Ok(number) => if number == 0 {
                    Err::<Command, Failure>(Failure::LimitZero)
                } else {
                    Ok::<Command, Failure>(
                        CommandOf::Ask {
                            question,
                            refresh,
                            speak,
                            screen,
                            avatar,
                            limit: number as usize,
                        },
                    )
                },
                Err(cause) => Err::<Command, Failure>(
                    Failure::LimitInvalid { raw: value, cause },
                ),
            },
            Err(Failure::QuestionMissing) => ask_command(args + seq!["--limit"@, value], setting)
                == Err::<Command, Failure>(
                match read_number(value, usize::MAX as nat) {
                    Ok(number) => if number == 0 {
                        Failure::LimitZero
                    } else {
                        Failure::QuestionMissing
                    },
                    Err(cause) => Failure::LimitInvalid { raw: value, cause },
                },
            ),
            _ => true,
        },
        ask_command(args, setting) is Ok || ask_command(args, setting) == Err::<Command, Failure>(
            Failure::QuestionMissing,
        ) ==> ask_command(args.push("--limit"@), setting) == Err::<Command, Failure>(
            Failure::LimitMissing,
        ),
{
    match default_limit(setting) {
        Ok(limit) => {
            let start = ask_defaults(limit as usize);
            lemma_read_more(args, seq!["--limit"@, value], start);
            lemma_read_more(args, seq!["--limit"@], start);
            assert(args + seq!["--limit"@] =~= args.push("--limit"@));
            match read_ask(args, start) {
                Ok(options) => {
                    lemma_read_limit(value, options);
                    lemma_read_one("--limit"@, options);
                },
                Err(_) => {
                    lemma_reading_needs_no_question(args, start);
                },
            }
        },
        Err(_) => {},
    }
}

/// Anything else that starts with a dash is refused, and told.
pub proof fn law_other_options_are_refused(
    args: Seq<Seq<char>>,
    setting: SettingOf<Seq<char>>,
    option: Seq<char>,
)
    requires
        starts_with(option, '-'),
        option != "--refresh"@,
        option != "--speak"@,
        option != "--screen"@,
        option != "--no-avatar"@,
        option != "--limit"@,
    ensures
        ask_command(args, setting) is Ok || ask_command(args, setting) == Err::<Command, Failure>(
            Failure::QuestionMissing,
        ) ==> ask_command(args.push(option), setting) == Err::<Command, Failure>(
            Failure::UnknownAskOption { option },
        ),
{
    match default_limit(setting) {
        Ok(limit) => {
            let start = ask_defaults(limit as usize);
            lemma_read_more(args, seq![option], start);
            assert(args + seq![option] =~= args.push(option));
            match read_ask(args, start) {
                Ok(options) => {
                    lemma_read_one(option, options);
                },
                Err(failure) => {
                    lemma_reading_needs_no_question(args, start);
                },
            }
        },
        Err(_) => {},
    }
}

proof fn lemma_reading_needs_no_question(args: Seq<Seq<char>>, so_far: AskOptions)
    ensures
        read_ask(args, so_far) != Err::<AskOptions, Failure>(Failure::QuestionMissing),
    decreases args.len(),
{
    if args.len() > 0 {
        let rest = args.drop_first();
        lemma_reading_needs_no_question(rest, AskOptions { refresh: true, ..so_far });
        lemma_reading_needs_no_question(rest, AskOptions { speak: true, ..so_far });
        lemma_reading_needs_no_question(rest, AskOptions { screen: true, ..so_far });
        lemma_reading_needs_no_question(rest, AskOptions { avatar: false, ..so_far });
        lemma_reading_needs_no_question(
            rest,
            AskOptions { words: so_far.words.push(args[0]), ..so_far },
        );
        match limit_value(text_at(args, 1)) {
            Ok(limit) => {
                if args.len() > 1 {
                    lemma_reading_needs_no_question(
                        rest.drop_first(),
                        AskOptions { limit, ..so_far },
                    );
                }
            },
            Err(_) => {},
        }
    }
}

/// Without any argument there is no question.
pub proof fn law_a_question_is_needed(setting: SettingOf<Seq<char>>)
    ensures
        default_limit(setting) is Ok ==> ask_command(Seq::empty(), setting) == Err::<
            Command,
            Failure,
        >(Failure::QuestionMissing),
        default_limit(setting) matches Err(failure) ==> forall|args: Seq<Seq<char>>| #[trigger]
            ask_command(args, setting) == Err::<Command, Failure>(failure),
        default_limit(setting) == number_or("BUDDY_CONTEXT_LIMIT"@, setting, 2000),
{
}

/// What made the arguments fail is told, whatever comes after it.
pub proof fn law_first_failure_is_told(
    args: Seq<Seq<char>>,
    setting: SettingOf<Seq<char>>,
    more: Seq<Seq<char>>,
)
    ensures
        ask_command(args, setting) matches Err(failure) ==> (failure != Failure::QuestionMissing
            && failure != Failure::LimitMissing ==> ask_command(args + more, setting) == Err::<
            Command,
            Failure,
        >(failure)),
{
    match default_limit(setting) {
        Ok(limit) => {
            lemma_read_more(args, more, ask_defaults(limit as usize));
        },
        Err(_) => {},
    }
}

proof fn lemma_last_limit(
    args: Seq<Seq<char>>,
    value: Seq<char>,
    more: Seq<Seq<char>>,
    so_far: AskOptions,
)
    requires
        !more.contains("--limit"@),
    ensures
        read_ask(args + seq!["--limit"@, value] + more, so_far) matches Ok(options)
            ==> limit_value(Some(value)) == Ok::<usize, Failure>(options.limit),
{
    let middle = seq!["--limit"@, value];
    assert(args + middle + more =~= args + (middle + more));
    lemma_read_more(args, middle + more, so_far);
    match read_ask(args, so_far) {
        Ok(options) => {
            lemma_read_limit(value, options);
            lemma_read_more(middle, more, options);
            match limit_value(Some(value)) {
                Ok(limit) => {
                    lemma_limit_stays(more, AskOptions { limit, ..options });
                },
                Err(failure) => {
                    lemma_limit_value_is_there(value);
                },
            }
        },
        Err(failure) => {
            if failure == Failure::LimitMissing {
                lemma_dangling_limit(args, middle + more, so_far);
            }
        },
    }
}

proof fn lemma_limit_value_is_there(value: Seq<char>)
    ensures
        limit_value(Some(value)) != Err::<usize, Failure>(Failure::LimitMissing),
{
}

/// An option is no value for a limit that is still open.
proof fn lemma_dangling_limit(args: Seq<Seq<char>>, more: Seq<Seq<char>>, so_far: AskOptions)
    requires
        read_ask(args, so_far) == Err::<AskOptions, Failure>(Failure::LimitMissing),
        more.len() > 0,
        more[0] == "--limit"@,
    ensures
        read_ask(args + more, so_far) is Err,
    decreases args.len(),
{
    let all = args + more;
    let rest = args.drop_first();
    lemma_flags_differ();
    assert(all[0] == args[0]);
    assert(all.drop_first() =~= rest + more);
    if args[0] == "--refresh"@ {
        lemma_dangling_limit(rest, more, AskOptions { refresh: true, ..so_far });
    } else if args[0] == "--speak"@ {
        lemma_dangling_limit(rest, more, AskOptions { speak: true, ..so_far });
    } else if args[0] == "--screen"@ {
        lemma_dangling_limit(rest, more, AskOptions { screen: true, ..so_far });
    } else if args[0] == "--no-avatar"@ {
        lemma_dangling_limit(rest, more, AskOptions { avatar: false, ..so_far });
    } else if args[0] == "--limit"@ {
        if args.len() > 1 {
            assert(text_at(all, 1) == text_at(args, 1));
            lemma_limit_value_is_there(args[1]);
            let limit = limit_value(text_at(args, 1))->Ok_0;
            assert(all.drop_first().drop_first() =~= rest.drop_first() + more);
            lemma_dangling_limit(rest.drop_first(), more, AskOptions { limit, ..so_far });
        } else {
            assert(all[1] == "--limit"@);
            lemma_dash_is_no_limit("--limit"@);
        }
    } else {
        lemma_dangling_limit(
            rest,
            more,
            AskOptions { words: so_far.words.push(args[0]), ..so_far },
        );
    }
}

/// The last limit among the arguments of a question counts.
pub proof fn law_last_limit_counts(
    args: Seq<Seq<char>>,
    value: Seq<char>,
    more: Seq<Seq<char>>,
    setting: SettingOf<Seq<char>>,
)
    requires
        !more.contains("--limit"@),
    ensures
        ask_command(args + seq!["--limit"@, value] + more, setting) matches Ok(command) ==> (
        command matches CommandOf::Ask { limit, .. } && read_number(value, usize::MAX as nat)
            == Ok::<nat, IntError>(limit as nat)),
{
    match default_limit(setting) {
        Ok(limit) => {
            lemma_last_limit(args, value, more, ask_defaults(limit as usize));
            lemma_number_bound(value, usize::MAX as nat);
        },
        Err(_) => {},
    }
}

proof fn lemma_read_more_context(
    args: Seq<Seq<char>>,
    more: Seq<Seq<char>>,
    limit: usize,
    screen: bool,
)
    ensures
        read_context(args, limit, screen) matches Ok(options) ==> read_context(
            args + more,
            limit,
            screen,
        ) == read_context(more, options.0, options.1),
        read_context(args, limit, screen) matches Err(failure) ==> (failure != Failure::LimitMissing
            ==> read_context(args + more, limit, screen) == Err::<(usize, bool), Failure>(failure)),
    decreases args.len(),
{
    let all = args + more;
    if args.len() == 0 {
        assert(all =~= more);
    } else {
        let rest = args.drop_first();
        assert(all[0] == args[0]);
        assert(all.drop_first() =~= rest + more);
        if args[0] == "--screen"@ {
            lemma_read_more_context(rest, more, limit, true);
        } else if args[0] == "--limit"@ {
            if args.len() > 1 {
                assert(text_at(all, 1) == text_at(args, 1));
                match limit_value(text_at(args, 1)) {
                    Ok(number) => {
                        assert(all.drop_first().drop_first() =~= rest.drop_first() + more);
                        lemma_read_more_context(rest.drop_first(), more, number, screen);
                    },
                    Err(_) => {},
                }
            }
        }
    }
}

/// The options of `context`, one after the other: without any, the default limit
/// and no screen; the flag adds the screen, a limit replaces the limit, and anything
/// else is refused. A failure is told whatever comes after it.
pub proof fn law_context_options(
    args: Seq<Seq<char>>,
    setting: SettingOf<Seq<char>>,
    arg: Seq<char>,
    more: Seq<Seq<char>>,
)
    ensures
        context_options(Seq::empty(), setting) == match default_limit(setting) {
            Ok(limit) => Ok::<(usize, bool), Failure>((limit as usize, false)),
            Err(failure) => Err::<(usize, bool), Failure>(failure),
        },
        context_options(args, setting) matches Ok(options) ==> {
            &&& context_options(args.push("--screen"@), setting) == Ok::<(usize, bool), Failure>(
                (options.0, true),
            )
            &&& context_options(args + seq!["--limit"@, arg], setting) == match read_number(
                arg,
                usize::MAX as nat,
            ) {
                Ok(number) => if number == 0 {
                    Err::<(usize, bool), Failure>(Failure::LimitZero)
                } else {
                    Ok::<(usize, bool), Failure>((number as usize, options.1))
                },
                Err(cause) => Err::<(usize, bool), Failure>(
                    Failure::LimitInvalid { raw: arg, cause },
                ),
            }
            &&& context_options(args.push("--limit"@), setting) == Err::<(usize, bool), Failure>(
                Failure::LimitMissing,
            )
            &&& arg != "--screen"@ && arg != "--limit"@ ==> context_options(args.push(arg), setting)
                == Err::<(usize, bool), Failure>(Failure::UnknownContextOption { option: arg })
        },
        context_options(args, setting) matches Err(failure) ==> (failure != Failure::LimitMissing
            ==> context_options(args + more, setting) == Err::<(usize, bool), Failure>(failure)),
{
    reveal_with_fuel(read_context, 2);
    lemma_flags_differ();
    match default_limit(setting) {
        Ok(limit) => {
            let start = limit as usize;
            let none = Seq::<Seq<char>>::empty();
            lemma_read_more_context(args, more, start, false);
            lemma_read_more_context(args, seq!["--screen"@], start, false);
            lemma_read_more_context(args, seq!["--limit"@], start, false);
            lemma_read_more_context(args, seq!["--limit"@, arg], start, false);
            lemma_read_more_context(args, seq![arg], start, false);
            assert(args + seq!["--screen"@] =~= args.push("--screen"@));
            assert(args + seq!["--limit"@] =~= args.push("--limit"@));
            assert(args + seq![arg] =~= args.push(arg));
            assert(seq!["--screen"@].drop_first() =~= none);
            assert(seq!["--limit"@, arg].drop_first().drop_first() =~= none);
            assert(text_at(seq!["--limit"@, arg], 1) == Some(arg));
        },
        Err(_) => {},
    }
}

/// Which word asks for which command, and what may come after it.
pub proof fn law_command_words(
    word: Seq<char>,
    rest: Seq<Seq<char>>,
    setting: SettingOf<Seq<char>>,
)
    ensures
        ({
            let res = command_of(seq![word] + rest, setting);
            let none = rest.len() == 0;
            let extra = Err::<Command, Failure>(Failure::UnexpectedArguments { command: word });
            let known = word == "ask"@ || word == "scan"@ || word == "context"@ || word == "update"@
                || word == "status"@ || word == "avatar"@ || word == "help"@ || word == "--help"@
                || word == "-h"@ || word == "version"@ || word == "--version"@ || word == "-V"@;
            &&& word == "ask"@ ==> res == ask_command(rest, setting)
            &&& word == "context"@ ==> res == match context_options(rest, setting) {
                Ok(options) => Ok::<Command, Failure>(
                    CommandOf::Context { limit: options.0, screen: options.1 },
                ),
                Err(failure) => Err::<Command, Failure>(failure),
            }
            &&& word == "scan"@ && none ==> res == Ok::<Command, Failure>(
                CommandOf::Scan { root: None },
            )
            &&& word == "scan"@ && rest.len() == 1 ==> res == Ok::<Command, Failure>(
                CommandOf::Scan { root: Some(rest[0]) },
            )
            &&& word == "scan"@ && rest.len() > 1 ==> res == Err::<Command, Failure>(
                Failure::ScanArguments,
            )
            &&& word == "update"@ && none ==> res == Ok::<Command, Failure>(
                CommandOf::Update { force: false },
            )
            &&& word == "update"@ && rest == seq!["--force"@] ==> res == Ok::<Command, Failure>(
                CommandOf::Update { force: true },
            )
            &&& word == "update"@ && !none && rest != seq!["--force"@] ==> res == Err::<
                Command,
                Failure,
            >(Failure::UpdateArguments)
            &&& word == "status"@ ==> res == if none {
                Ok::<Command, Failure>(CommandOf::Status)
            } else {
                extra
            }
            &&& word == "avatar"@ ==> res == if none {
                Ok::<Command, Failure>(CommandOf::Avatar)
            } else {
                extra
            }
            &&& word == "help"@ || word == "--help"@ || word == "-h"@ ==> res == if none {
                Ok::<Command, Failure>(CommandOf::Help)
            } else {
                extra
            }
            &&& word == "version"@ || word == "--version"@ || word == "-V"@ ==> res == if none {
                Ok::<Command, Failure>(CommandOf::Version)
            } else {
                extra
            }
            &&& !known ==> res == Err::<Command, Failure>(
                Failure::UnknownCommand { command: word },
            )
        }),
        command_of(Seq::empty(), setting) == Ok::<Command, Failure>(CommandOf::Help),
{
    let args = seq![word] + rest;
    assert(args[0] == word);
    assert(args.drop_first() =~= rest);
    lemma_command_words_differ();
    if rest.len() == 1 {
        assert(rest =~= seq![rest[0]]);
    }
}

proof fn lemma_command_words_differ()
    ensures
        "ask"@.len() == 3,
        "scan"@.len() == 4,
        "context"@.len() == 7,
        "update"@.len() == 6,
        "status"@.len() == 6,
        "avatar"@.len() == 6,
        "help"@.len() == 4,
        "--help"@.len() == 6,
        "-h"@.len() == 2,
        "version"@.len() == 7,
        "--version"@.len() == 9,
        "-V"@.len() == 2,
        "scan"@[0] == 's',
        "help"@[0] == 'h',
        "context"@[0] == 'c',
        "version"@[0] == 'v',
        "update"@[0] == 'u',
        "status"@[0] == 's',
        "avatar"@[0] == 'a',
        "--help"@[0] == '-',
        "-h"@[1] == 'h',
        "-V"@[1] == 'V',
{
    reveal_strlit("ask");
    reveal_strlit("scan");
    reveal_strlit("context");
    reveal_strlit("update");
    reveal_strlit("status");
    reveal_strlit("avatar");
    reveal_strlit("help");
    reveal_strlit("--help");
    reveal_strlit("-h");
    reveal_strlit("version");
    reveal_strlit("--version");
    reveal_strlit("-V");
}

/// Without a limit among its arguments a question has the default one, whatever
/// the setting of that is.
pub proof fn law_limit_without_option(args: Seq<Seq<char>>, setting: SettingOf<Seq<char>>)
    requires
        !args.contains("--limit"@),
    ensures
        ask_command(args, setting) matches Ok(command) ==> (command matches CommandOf::Ask {
            limit,
            ..
        } && number_or("BUDDY_CONTEXT_LIMIT"@, setting, 2000) == Ok::<nat, Failure>(limit as nat)),
{
    match default_limit(setting) {
        Ok(limit) => {
            lemma_default_limit(setting);
            lemma_limit_stays(args, ask_defaults(limit as usize));
        },
        Err(_) => {},
    }
}

/// What specifications see of a command is all of it.
pub proof fn law_commands_are_seen_whole(command: CliCommand)
    ensures
        match command {
            CommandOf::Ask { question, refresh, speak, screen, avatar, limit } => command@ == (
            Command::Ask { question: question@, refresh, speak, screen, avatar, limit }),
            CommandOf::Scan { root } => {
                command@ matches CommandOf::Scan { root: seen } && match (root, seen) {
                    (Some(path), Some(text)) => path@ == text,
                    (None, None) => true,
                    _ => false,
                }
            },
            CommandOf::Status => command@ is Status,
            CommandOf::Context { limit, screen } => command@ == (Command::Context {
                limit,
                screen,
            }),
            CommandOf::Avatar => command@ is Avatar,
            CommandOf::Update { force } => command@ == (Command::Update { force }),
            CommandOf::Help => command@ is Help,
            CommandOf::Version => command@ is Version,
        },
{
}

} // verus!
