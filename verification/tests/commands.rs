use buddy::cli::{parse_args, parse_ask, parse_context, parse_limit, CliCommand};
use buddy::error::{Error, ErrorOf};
use buddy::number::IntError;
use buddy::settings::{
    database_path, env_flag, env_text_or, env_usize, env_usize_or, home_dir, Setting,
    DEFAULT_CONTEXT_LIMIT,
};

fn strings(values: &[&str]) -> Vec<String> {
    values.iter().map(|value| (*value).to_owned()).collect()
}

fn text(value: &str) -> Setting {
    Setting::Text(value.to_owned())
}

fn parse(values: &[&str]) -> Result<CliCommand, Error> {
    parse_args(strings(values), &Setting::Missing)
}

#[test]
fn parses_spoken_refreshing_question() {
    let command = parse(&[
        "ask",
        "--speak",
        "--refresh",
        "--limit",
        "42",
        "what",
        "is running?",
    ])
    .unwrap();
    assert_eq!(
        command,
        CliCommand::Ask {
            question: "what is running?".to_owned(),
            refresh: true,
            speak: true,
            screen: false,
            avatar: true,
            limit: 42,
        }
    );
}

#[test]
fn parses_screen_context_and_avatar_opt_out() {
    let command = parse(&["ask", "--screen", "--no-avatar", "what", "is visible?"]).unwrap();
    assert_eq!(
        command,
        CliCommand::Ask {
            question: "what is visible?".to_owned(),
            refresh: false,
            speak: false,
            screen: true,
            avatar: false,
            limit: DEFAULT_CONTEXT_LIMIT,
        }
    );
    assert_eq!(
        parse(&["context", "--screen", "--limit", "12"]).unwrap(),
        CliCommand::Context {
            limit: 12,
            screen: true,
        }
    );
}

#[test]
fn rejects_zero_limit() {
    let error = parse(&["context", "--limit", "0"]).unwrap_err();
    assert!(error.to_string().contains("greater than zero"));
}

#[test]
fn reads_every_plain_command() {
    assert_eq!(parse(&[]).unwrap(), CliCommand::Help);
    for word in ["help", "--help", "-h"] {
        assert_eq!(parse(&[word]).unwrap(), CliCommand::Help);
    }
    for word in ["version", "--version", "-V"] {
        assert_eq!(parse(&[word]).unwrap(), CliCommand::Version);
    }
    assert_eq!(parse(&["status"]).unwrap(), CliCommand::Status);
    assert_eq!(parse(&["avatar"]).unwrap(), CliCommand::Avatar);
    assert_eq!(parse(&["scan"]).unwrap(), CliCommand::Scan { root: None });
    assert_eq!(
        parse(&["scan", "~/projects"]).unwrap(),
        CliCommand::Scan { root: Some("~/projects".to_owned()) }
    );
    assert_eq!(parse(&["update"]).unwrap(), CliCommand::Update { force: false });
    assert_eq!(parse(&["update", "--force"]).unwrap(), CliCommand::Update { force: true });
    assert_eq!(
        parse(&["context"]).unwrap(),
        CliCommand::Context { limit: 2000, screen: false }
    );
}

#[test]
fn tells_what_is_wrong_with_a_command_line() {
    let message = |values: &[&str]| parse(values).unwrap_err().report();
    assert_eq!(message(&["scan", "a", "b"]), "scan accepts at most one path");
    assert_eq!(message(&["update", "--now"]), "update accepts only '--force'");
    assert_eq!(message(&["update", "--force", "--force"]), "update accepts only '--force'");
    for word in ["status", "avatar", "help", "version", "--help", "--version", "-h", "-V"] {
        assert_eq!(
            parse(&[word, "now"]).unwrap_err(),
            ErrorOf::UnexpectedArguments { command: word.to_owned() }
        );
    }
    assert_eq!(message(&["status", "now"]), "status does not accept arguments");
    assert_eq!(message(&["obs"]), "unknown command 'obs'; run 'buddy help'");
    assert_eq!(message(&[""]), "unknown command ''; run 'buddy help'");
    assert_eq!(message(&["ask"]), "ask requires a question");
    assert_eq!(message(&["ask", "--speak"]), "ask requires a question");
    assert_eq!(message(&["ask", "-v", "why"]), "unknown ask option '-v'");
    assert_eq!(message(&["ask", "-5"]), "unknown ask option '-5'");
    assert_eq!(message(&["ask", "why", "--limit"]), "--limit requires a value");
    assert_eq!(
        message(&["ask", "--limit", "many", "why"]),
        "invalid limit 'many': invalid digit found in string"
    );
    assert_eq!(
        message(&["ask", "--limit", "", "why"]),
        "invalid limit '': cannot parse integer from empty string"
    );
    assert_eq!(
        message(&["context", "--limit", "99999999999999999999999"]),
        "invalid limit '99999999999999999999999': number too large to fit in target type"
    );
    assert_eq!(message(&["context", "why"]), "unknown context option 'why'");
    assert_eq!(message(&["context", "--limit"]), "--limit requires a value");
    assert_eq!(message(&["context", "--limit", "0"]), "limit must be greater than zero");
    assert_eq!(
        parse(&["context", "--limit", "x"]).unwrap_err().to_string(),
        "invalid limit 'x'"
    );
}

#[test]
fn options_may_stand_anywhere() {
    assert_eq!(
        parse(&["ask", "what", "--speak", "is", "--limit", "+7", "up", "--refresh"]).unwrap(),
        CliCommand::Ask {
            question: "what is up".to_owned(),
            refresh: true,
            speak: true,
            screen: false,
            avatar: true,
            limit: 7,
        }
    );
    // The value of an option is no option, and the last limit counts.
    assert_eq!(
        parse(&["ask", "--limit", "3", "why", "--limit", "4"]).unwrap(),
        CliCommand::Ask {
            question: "why".to_owned(),
            refresh: false,
            speak: false,
            screen: false,
            avatar: true,
            limit: 4,
        }
    );
    assert_eq!(
        parse_context(&strings(&["--limit", "5", "--screen", "--screen"]), &Setting::Missing),
        Ok((5, true))
    );
}

#[test]
fn the_environment_sets_the_default_limit() {
    assert_eq!(
        parse_args(strings(&["context"]), &text("25")).unwrap(),
        CliCommand::Context { limit: 25, screen: false }
    );
    assert_eq!(
        parse_args(strings(&["context", "--limit", "3"]), &text("25")).unwrap(),
        CliCommand::Context { limit: 3, screen: false }
    );
    assert_eq!(
        parse_args(strings(&["context", "--limit", "3"]), &text("none")).unwrap_err().report(),
        "BUDDY_CONTEXT_LIMIT must be a positive integer: invalid digit found in string"
    );
    assert_eq!(
        parse_ask(strings(&["why"]), &text("0")).unwrap_err().report(),
        "BUDDY_CONTEXT_LIMIT must be greater than zero"
    );
    assert_eq!(
        parse_ask(strings(&["why"]), &Setting::NotUnicode).unwrap_err().report(),
        "BUDDY_CONTEXT_LIMIT is not valid UTF-8"
    );
    // Other commands do not look at it.
    assert_eq!(parse_args(strings(&["status"]), &text("none")).unwrap(), CliCommand::Status);
}

#[test]
fn without_a_limit_two_thousand_entries_are_sent() {
    match parse(&["ask", "--refresh", "--no-avatar", "--screen", "--speak", "why"]).unwrap() {
        CliCommand::Ask { limit, .. } => assert_eq!(limit, 2000),
        other => panic!("{:?}", other),
    }
    assert_eq!(
        parse(&["context", "--screen"]).unwrap(),
        CliCommand::Context { limit: 2000, screen: true }
    );
}

#[test]
fn limits_are_read_like_numbers() {
    let value = "17".to_owned();
    assert_eq!(parse_limit(Some(&value)), Ok(17));
    assert_eq!(parse_limit(None), Err(ErrorOf::LimitMissing));
    let zero = "00".to_owned();
    assert_eq!(parse_limit(Some(&zero)), Err(ErrorOf::LimitZero));
    let sign = "+".to_owned();
    assert_eq!(
        parse_limit(Some(&sign)),
        Err(ErrorOf::LimitInvalid { raw: "+".to_owned(), cause: IntError::InvalidDigit })
    );
}

#[test]
fn settings_are_read() {
    assert_eq!(env_usize("N", &Setting::Missing), Ok(None));
    assert_eq!(env_usize("N", &text("12")), Ok(Some(12)));
    assert_eq!(env_usize_or("N", &Setting::Missing, 9), Ok(9));
    assert_eq!(env_usize_or("N", &text("3"), 9), Ok(3));
    assert_eq!(
        env_usize("N", &text("")).unwrap_err().report(),
        "N must be a positive integer: cannot parse integer from empty string"
    );
    for on in ["1", "true", "yes", "on", "TRUE", "Yes", "oN"] {
        assert!(env_flag(&text(on)));
    }
    for off in ["", "0", "false", "y", " 1", "on "] {
        assert!(!env_flag(&text(off)));
    }
    assert!(!env_flag(&Setting::Missing));
    assert!(!env_flag(&Setting::NotUnicode));
    assert_eq!(env_text_or(text("here"), "there"), "here");
    assert_eq!(env_text_or(text(""), "there"), "");
    assert_eq!(env_text_or(Setting::NotUnicode, "there"), "there");
}

#[test]
fn the_database_has_its_place() {
    let path = database_path(Some("a"), Some("b"), Some("c")).unwrap();
    assert_eq!((path.base, path.below), ("a", None));
    let path = database_path(None, Some("b"), Some("c")).unwrap();
    assert_eq!((path.base, path.below), ("b", Some("buddy/buddy.db")));
    let path = database_path(None, None, Some("c")).unwrap();
    assert_eq!((path.base, path.below), ("c", Some(".local/share/buddy/buddy.db")));
    assert_eq!(database_path::<&str>(None, None, None).err(), Some(ErrorOf::HomeMissing));
    assert_eq!(home_dir(Some("c")), Ok("c"));
    assert_eq!(
        home_dir::<&str>(None).unwrap_err().to_string(),
        "HOME is not set; pass an explicit path to 'buddy scan'"
    );
}
