//! What is printed about Buddy itself.

use vstd::prelude::*;
use crate::chat::{DEFAULT_MODEL, DEFAULT_VISION_MODEL};
use crate::number::{append_number, decimal};
use crate::settings::{env_text_or, setting_or, Setting};
use crate::text::{concat2, concat3, text_of, texts};
use crate::voice::DEFAULT_VOICE;

verus! {

/// What `version` prints.
pub fn version_line(version: &str) -> (res: String)
    ensures
        res@ == "buddy "@ + version@,
{
    concat2("buddy ", version)
}

/// What `help` prints, up to the default model.
pub const HELP_START: &'static str = "Buddy — local machine context with Groq intelligence and Voxd speech

USAGE:
  buddy scan [PATH]
  buddy ask [--refresh] [--screen] [--speak] [--no-avatar] [--limit N] <QUESTION>
  buddy context [--screen] [--limit N]
  buddy avatar
  buddy update [--force]
  buddy status

COMMANDS:
  scan       Index a directory (HOME by default) and running processes
  ask        Ask Groq; --screen adds an ephemeral just-in-time screen image
  context    Print bounded JSON; --screen adds capture metadata, never pixels
  avatar     Preview Buddy's animated penguin terminal avatar
  update     Check stable GitHub releases (cached for six hours)
  status     Show database and backend status

ENVIRONMENT:
  GROQ_API_KEY          Required by ask
  GROQ_MODEL            Model override (";

/// What `help` prints between the default model and the default vision model.
pub const HELP_MIDDLE: &'static str = ")
  BUDDY_VISION_MODEL    Vision model override (";

/// What `help` prints after the default vision model.
pub const HELP_END: &'static str = ")
  BUDDY_SCREENSHOT_BIN  Screenshot tool receiving an output path
  BUDDY_SCREEN_MAX_BYTES Maximum capture size (10485760)
  BUDDY_NO_AVATAR       Disable terminal animation (1/true/yes/on)
  BUDDY_DB_PATH         SQLite database override
  BUDDY_CONTEXT_LIMIT   Maximum filesystem entries sent (2000)
  BUDDY_VOXD_BIN        Voxd executable override (voxd-cli)
  BUDDY_VOXD_PROJECT    Stable Voxd project voice path (.)
  BUDDY_TTS_MAX_CHARS   Maximum spoken answer length (2000)";

/// What `help` prints.
pub fn help_text() -> (res: String)
    ensures
        res@ == HELP_START@ + DEFAULT_MODEL@ + HELP_MIDDLE@ + DEFAULT_VISION_MODEL@ + HELP_END@,
{
    let mut res = concat3(HELP_START, DEFAULT_MODEL, HELP_MIDDLE);
    res.append(DEFAULT_VISION_MODEL);
    res.append(HELP_END);
    res
}

fn line_with_number(start: &str, number: usize) -> (res: String)
    ensures
        res@ == start@ + decimal(number as nat),
{
    let mut res = start.to_owned();
    append_number(&mut res, number as u64);
    res
}

/// What `status` prints, line by line.
pub fn status_lines(
    database: &str,
    processes: usize,
    entries: usize,
    scan_root: Option<String>,
    voice: Setting,
    vision_model: Setting,
) -> (res: Vec<String>)
    ensures
        texts(res@) == seq![
            "Database: "@ + database@,
            "Processes: "@ + decimal(processes as nat),
            "Filesystem entries: "@ + decimal(entries as nat),
            "Scan root: "@ + match text_of(scan_root) {
                Some(root) => root,
                None => "not scanned"@,
            },
            "Voxd backend: "@ + setting_or(voice@, DEFAULT_VOICE@),
            "Vision model: "@ + setting_or(vision_model@, DEFAULT_VISION_MODEL@)
                + " (opt-in with --screen)"@,
        ],
{
    let root = match scan_root {
        Some(root) => root,
        None => "not scanned".to_owned(),
    };
    let mut res: Vec<String> = Vec::new();
    res.push(concat2("Database: ", database));
    res.push(line_with_number("Processes: ", processes));
    res.push(line_with_number("Filesystem entries: ", entries));
    res.push(concat2("Scan root: ", root.as_str()));
    res.push(concat2("Voxd backend: ", env_text_or(voice, DEFAULT_VOICE).as_str()));
    res.push(
        concat3(
            "Vision model: ",
            env_text_or(vision_model, DEFAULT_VISION_MODEL).as_str(),
            " (opt-in with --screen)",
        ),
    );
    assert(texts(res@) =~= seq![
        "Database: "@ + database@,
        "Processes: "@ + decimal(processes as nat),
        "Filesystem entries: "@ + decimal(entries as nat),
        "Scan root: "@ + root@,
        "Voxd backend: "@ + setting_or(voice@, DEFAULT_VOICE@),
        "Vision model: "@ + setting_or(vision_model@, DEFAULT_VISION_MODEL@)
            + " (opt-in with --screen)"@,
    ]);
    res
}

} // verus!
