use buddy::cli::CliCommand;
use buddy::error::ErrorOf;
use buddy::number::IntError;
use buddy::report::{help_text, status_lines, version_line};
use buddy::scan::{check_root, scan_directory, scan_note, scan_summary, Scan};
use buddy::session::{
    avatar_is_shown, avatar_label, avatar_line, next_step, scan_target, wants_avatar, ScanTarget,
    Step, CLEAR_LINE,
};
use buddy::settings::Setting;
use buddy::skillastic::Action;
use buddy::store::{
    build_context, count_query, process_metadata, scan_metadata, Entry, FileRecord, ProcessRecord,
    GET_METADATA, INSERT_FILE, INSERT_PROCESS, SCHEMA, SELECT_FILES, SELECT_PROCESSES,
    SET_METADATA,
};
use rusqlite::Connection;
use std::collections::BTreeMap;

fn strings(values: &[&str]) -> Vec<String> {
    values.iter().map(|value| (*value).to_owned()).collect()
}

#[test]
fn parses_only_bounded_skillastic_actions() {
    assert_eq!(Action::parse(&strings(&[])).unwrap(), Action::Status);
    assert_eq!(Action::parse(&strings(&["list"])).unwrap(), Action::List);
    assert!(Action::parse(&strings(&["migrate", "--all"])).is_err());
}

#[test]
fn skillastic_actions_have_their_words() {
    for action in [Action::Status, Action::List, Action::Capture] {
        assert_eq!(Action::parse(&strings(&[action.argument()])).unwrap(), action);
        assert_eq!(action.backend_arguments(), ["--json", action.argument()]);
    }
    assert_eq!(Action::Capture.argument(), "capture");
    assert_eq!(
        Action::parse(&strings(&["migrate"])).unwrap_err().to_string(),
        "skillastic accepts one of: status, list, capture"
    );
    assert_eq!(Action::parse(&strings(&["list", "list"])), Err(ErrorOf::SkillasticUsage));
}

fn in_memory() -> Connection {
    let connection = Connection::open_in_memory().unwrap();
    connection.execute_batch(SCHEMA).unwrap();
    connection
}

fn count(connection: &Connection, table: &str) -> usize {
    connection.query_row(count_query(table).unwrap(), [], |row| row.get(0)).unwrap()
}

fn metadata(connection: &Connection, key: &str) -> Option<String> {
    let mut statement = connection.prepare(GET_METADATA).unwrap();
    let mut rows = statement.query([key]).unwrap();
    rows.next().unwrap().map(|row| row.get(0).unwrap())
}

fn store(connection: &Connection, entries: &[Entry]) {
    for entry in entries {
        connection.execute(SET_METADATA, [&entry.key, &entry.value]).unwrap();
    }
}

fn context(connection: &Connection, limit: usize) -> buddy::store::MachineContext {
    let mut statement = connection.prepare(SELECT_PROCESSES).unwrap();
    let processes = statement
        .query_map([], |row| {
            Ok(ProcessRecord {
                pid: row.get(0)?,
                name: row.get(1)?,
                executable: row.get(2)?,
                started_at_unix: row.get(3)?,
            })
        })
        .unwrap()
        .map(|row| row.unwrap())
        .collect();
    let mut statement = connection.prepare(SELECT_FILES).unwrap();
    let files = statement
        .query_map([limit], |row| {
            Ok(FileRecord {
                path: row.get(0)?,
                is_dir: row.get(1)?,
                size_bytes: row.get(2)?,
                modified_at_unix: row.get(3)?,
            })
        })
        .unwrap()
        .map(|row| row.unwrap())
        .collect();
    build_context(
        limit,
        processes,
        count(connection, "filesystem"),
        files,
        metadata(connection, "scan_root"),
        metadata(connection, "scanned_at_unix"),
    )
    .unwrap()
}

#[test]
fn empty_store_has_bounded_empty_context() {
    let store = in_memory();
    let context = context(&store, 10);
    assert_eq!(context.process_count, 0);
    assert_eq!(context.indexed_entry_count, 0);
    assert_eq!(context.included_entry_count, 0);
}

#[test]
fn the_view_of_a_full_store_is_bounded() {
    let connection = in_memory();
    for path in ["/c", "/a", "/b"] {
        connection.execute(INSERT_FILE, (path, false, 3, Some(9))).unwrap();
    }
    connection.execute(INSERT_FILE, ("/a", true, 4, None::<u64>)).unwrap();
    connection.execute(INSERT_PROCESS, (7, "sh", "/bin/sh", 1)).unwrap();
    connection.execute(INSERT_PROCESS, (5, "sh", "/bin/sh", 2)).unwrap();
    connection.execute(INSERT_PROCESS, (9, "init", "/bin/init", 0)).unwrap();
    store(&connection, &scan_metadata("/old", 1));
    store(&connection, &scan_metadata("/", 1700));
    store(&connection, &process_metadata(1800));
    let view = context(&connection, 2);
    assert_eq!(view.process_count, 3);
    assert_eq!(view.indexed_entry_count, 3);
    assert_eq!(view.included_entry_count, 2);
    assert_eq!(view.scan_root.as_deref(), Some("/"));
    assert_eq!(view.scanned_at_unix, Some(1700));
    let pids: Vec<u32> = view.processes.iter().map(|process| process.pid).collect();
    assert_eq!(pids, [9, 5, 7]);
    assert_eq!(
        view.filesystem[0],
        FileRecord {
            path: "/a".to_owned(),
            is_dir: true,
            size_bytes: 4,
            modified_at_unix: None,
        }
    );
    assert_eq!(view.filesystem[1].path, "/b");
    assert_eq!(metadata(&connection, "processes_at_unix").as_deref(), Some("1800"));
    assert_eq!(count(&connection, "processes"), 3);
}

#[test]
fn a_view_needs_a_readable_scan_time() {
    let view = |at: &str| build_context(1, vec![], 0, vec![], None, Some(at.to_owned()));
    assert_eq!(view("12").unwrap().scanned_at_unix, Some(12));
    assert_eq!(
        view("now"),
        Err(ErrorOf::ScanTimestamp { value: "now".to_owned(), cause: IntError::InvalidDigit })
    );
    assert_eq!(
        view("").unwrap_err().report(),
        "invalid cached scan timestamp '': cannot parse integer from empty string"
    );
    assert_eq!(count_query("metadata"), Err(ErrorOf::UnsupportedTable));
    assert_eq!(count_query("x").unwrap_err().to_string(), "unsupported table");
}

#[test]
fn rows_beyond_the_limit_are_left_out() {
    let row = |path: &str| FileRecord {
        path: path.to_owned(),
        is_dir: false,
        size_bytes: 0,
        modified_at_unix: None,
    };
    let view = build_context(1, vec![], 2, vec![row("/a"), row("/b")], None, None).unwrap();
    assert_eq!(view.included_entry_count, 1);
    assert_eq!(view.filesystem, [row("/a")]);
}

fn entry(path: &str, is_dir: bool) -> FileRecord {
    FileRecord { path: path.to_owned(), is_dir, size_bytes: 1, modified_at_unix: None }
}

#[test]
fn a_walk_visits_every_listed_path() {
    // A link is no directory, and what it points to is not visited through it.
    let mut tree: BTreeMap<&str, Option<Vec<Option<&str>>>> = BTreeMap::new();
    tree.insert("/", Some(vec![Some("/a"), Some("/b"), None, Some("/link"), Some("/gone")]));
    tree.insert("/a", Some(vec![Some("/a/x"), Some("/a/y")]));
    tree.insert("/b", None);
    let leaves = ["/a/x", "/a/y", "/link"];
    let mut scan = Scan::new("/");
    let mut visited = Vec::new();
    while let Some(path) = scan.next() {
        visited.push(path);
        let record = if tree.contains_key(path) {
            Some(entry(path, true))
        } else if leaves.contains(&path) {
            Some(entry(path, false))
        } else {
            None
        };
        if scan.looked_at(record.as_ref()) {
            scan.listed(tree[path].clone());
        }
    }
    assert_eq!(visited, ["/", "/gone", "/link", "/b", "/a", "/a/y", "/a/x"]);
    let mut distinct = visited.clone();
    distinct.sort();
    distinct.dedup();
    assert_eq!(distinct.len(), visited.len());
    assert_eq!(scan.count, 6);
    assert_eq!(scan.skipped, 3);
}

#[test]
fn a_scan_needs_a_directory() {
    assert_eq!(scan_directory(Some("/x"), Some("/home")), Ok("/x"));
    assert_eq!(scan_directory(None, Some("/home")), Ok("/home"));
    assert_eq!(scan_directory::<&str>(None, None), Err(ErrorOf::HomeMissing));
    assert_eq!(scan_directory(Some("/x"), None), Ok("/x"));
    let named = CliCommand::Scan { root: Some("/x".to_owned()) };
    assert_eq!(scan_target(&named, Some("/home")), Ok(ScanTarget::Named("/x")));
    assert_eq!(scan_target::<&str>(&named, None), Ok(ScanTarget::Named("/x")));
    let unnamed = CliCommand::Scan { root: None };
    assert_eq!(scan_target(&unnamed, Some("/home")), Ok(ScanTarget::Home("/home")));
    assert_eq!(scan_target::<&str>(&unnamed, None), Err(ErrorOf::HomeMissing));
    let asked = question(true, false, false);
    assert_eq!(scan_target(&asked, Some("/home")), Ok(ScanTarget::Home("/home")));
    assert_eq!(scan_target::<&str>(&asked, None), Err(ErrorOf::HomeMissing));
    assert_eq!(check_root("/x", true), Ok(()));
    assert_eq!(
        check_root("/x", false).unwrap_err().to_string(),
        "scan root does not exist: /x"
    );
    assert_eq!(
        scan_summary(12, 3, 1),
        "Indexed 12 filesystem entries and 3 processes (skipped 1)."
    );
    assert_eq!(scan_note(12, 0), "Indexed 12 filesystem entries (skipped 0).");
}

fn steps(command: &CliCommand, unscanned: bool) -> Vec<Step> {
    let mut steps = Vec::new();
    while let Some(step) = next_step(command, steps.len(), unscanned) {
        steps.push(step);
    }
    steps
}

fn question(refresh: bool, speak: bool, screen: bool) -> CliCommand {
    CliCommand::Ask {
        question: "why?".to_owned(),
        refresh,
        speak,
        screen,
        avatar: true,
        limit: 2000,
    }
}

#[test]
fn a_question_takes_its_steps() {
    assert_eq!(
        steps(&question(false, false, false), false),
        [
            Step::OpenStore,
            Step::StartAvatar,
            Step::CaptureProcesses,
            Step::CountEntries,
            Step::ReadContext,
            Step::AskModel,
            Step::FinishAvatar,
            Step::PrintAnswer,
        ]
    );
    assert_eq!(
        steps(&question(false, false, false), true)[3..6],
        [Step::CountEntries, Step::ScanFiles, Step::ReportScan]
    );
    assert_eq!(
        steps(&question(true, true, true), false),
        [
            Step::OpenStore,
            Step::StartAvatar,
            Step::CaptureProcesses,
            Step::ScanFiles,
            Step::ReportScan,
            Step::CaptureScreen,
            Step::ReadContext,
            Step::AskModel,
            Step::FinishAvatar,
            Step::PrintAnswer,
            Step::Speak,
        ]
    );
}

#[test]
fn local_commands_never_reach_the_model() {
    let local = [
        CliCommand::Status,
        CliCommand::Context { limit: 5, screen: true },
        CliCommand::Context { limit: 5, screen: false },
        CliCommand::Scan { root: None },
        CliCommand::Avatar,
        CliCommand::Help,
        CliCommand::Version,
    ];
    for command in local {
        for unscanned in [false, true] {
            let steps = steps(&command, unscanned);
            assert!(!steps.contains(&Step::AskModel));
            assert!(!steps.contains(&Step::CheckForUpdate));
            assert!(!steps.contains(&Step::Speak));
        }
    }
    assert_eq!(steps(&CliCommand::Help, true), [Step::PrintHelp]);
    assert_eq!(steps(&CliCommand::Version, true), [Step::PrintVersion]);
    assert_eq!(steps(&CliCommand::Status, true), [Step::OpenStore, Step::PrintStatus]);
    assert_eq!(steps(&CliCommand::Avatar, true), [Step::OpenStore, Step::ShowAvatar]);
    assert_eq!(
        steps(&CliCommand::Update { force: true }, true),
        [Step::OpenStore, Step::CheckForUpdate]
    );
    assert_eq!(
        steps(&CliCommand::Scan { root: None }, true),
        [Step::OpenStore, Step::CaptureProcesses, Step::ScanFiles, Step::PrintScan]
    );
    assert_eq!(
        steps(&CliCommand::Context { limit: 5, screen: true }, true),
        [
            Step::OpenStore,
            Step::CaptureProcesses,
            Step::ReadContext,
            Step::StartAvatar,
            Step::CaptureScreen,
            Step::FinishAvatar,
            Step::PrintContext,
        ]
    );
}

#[test]
fn the_avatar_is_drawn() {
    assert_eq!(avatar_label(&question(false, false, false)), "thinking…");
    assert_eq!(avatar_label(&question(false, false, true)), "looking at the current screen…");
    assert_eq!(
        avatar_label(&CliCommand::Context { limit: 1, screen: true }),
        "capturing screen state…"
    );
    assert_eq!(avatar_label(&CliCommand::Avatar), "ready to help…");
    assert!(wants_avatar(&question(false, false, false)));
    assert!(wants_avatar(&CliCommand::Avatar));
    assert!(avatar_is_shown(true, true, false));
    assert!(!avatar_is_shown(false, true, false));
    assert!(!avatar_is_shown(true, false, false));
    assert!(!avatar_is_shown(true, true, true));
    assert_eq!(CLEAR_LINE, "\r\x1b[2K");
    let frames = ["(•ᴗ•)っ", "(•‿•)っ", "(•ᴗ•)ﾉ", "(─ᴗ─)"];
    for frame in 0..9 {
        assert_eq!(
            avatar_line(frame, "thinking…"),
            format!("\r\x1b[2K  🐧 {} thinking…", frames[frame % frames.len()])
        );
    }
}

#[test]
fn status_and_help_are_printed() {
    assert_eq!(
        status_lines("/db", 3, 4, None, Setting::Missing, Setting::NotUnicode),
        [
            "Database: /db",
            "Processes: 3",
            "Filesystem entries: 4",
            "Scan root: not scanned",
            "Voxd backend: voxd-cli",
            "Vision model: qwen/qwen3.6-27b (opt-in with --screen)",
        ]
    );
    assert_eq!(
        status_lines(
            "/db",
            0,
            0,
            Some("/home".to_owned()),
            Setting::Text("say".to_owned()),
            Setting::Text("eye".to_owned())
        )[3..],
        [
            "Scan root: /home",
            "Voxd backend: say",
            "Vision model: eye (opt-in with --screen)",
        ]
    );
    assert_eq!(version_line("1.2.3"), "buddy 1.2.3");
    assert_eq!(
        help_text(),
        "Buddy — local machine context with Groq intelligence and Voxd speech\n\n\
         USAGE:\n  \
           buddy scan [PATH]\n  \
           buddy ask [--refresh] [--screen] [--speak] [--no-avatar] [--limit N] <QUESTION>\n  \
           buddy context [--screen] [--limit N]\n  \
           buddy avatar\n  \
           buddy update [--force]\n  \
           buddy status\n\n\
         COMMANDS:\n  \
           scan       Index a directory (HOME by default) and running processes\n  \
           ask        Ask Groq; --screen adds an ephemeral just-in-time screen image\n  \
           context    Print bounded JSON; --screen adds capture metadata, never pixels\n  \
           avatar     Preview Buddy's animated penguin terminal avatar\n  \
           update     Check stable GitHub releases (cached for six hours)\n  \
           status     Show database and backend status\n\n\
         ENVIRONMENT:\n  \
           GROQ_API_KEY          Required by ask\n  \
           GROQ_MODEL            Model override (llama-3.3-70b-versatile)\n  \
           BUDDY_VISION_MODEL    Vision model override (qwen/qwen3.6-27b)\n  \
           BUDDY_SCREENSHOT_BIN  Screenshot tool receiving an output path\n  \
           BUDDY_SCREEN_MAX_BYTES Maximum capture size (10485760)\n  \
           BUDDY_NO_AVATAR       Disable terminal animation (1/true/yes/on)\n  \
           BUDDY_DB_PATH         SQLite database override\n  \
           BUDDY_CONTEXT_LIMIT   Maximum filesystem entries sent (2000)\n  \
           BUDDY_VOXD_BIN        Voxd executable override (voxd-cli)\n  \
           BUDDY_VOXD_PROJECT    Stable Voxd project voice path (.)\n  \
           BUDDY_TTS_MAX_CHARS   Maximum spoken answer length (2000)"
    );
}
