//! Programs that Buddy hands work to: how the voice is called, and how programs
//! end.

use vstd::prelude::*;
use crate::error::{Error, ErrorOf, Failure};
use crate::settings::{
    env_text_or, env_usize_or, number_or, setting_or, Setting, DEFAULT_SPEECH_LIMIT,
};
use crate::text::{texts, truncate_chars, truncated};

verus! {

/// The program that speaks by default.
pub const DEFAULT_VOICE: &'static str = "voxd-cli";

/// The project whose voice speaks by default.
pub const DEFAULT_VOICE_PROJECT: &'static str = ".";

/// The name of the setting that caps what is spoken.
pub const SPEECH_LIMIT: &'static str = "BUDDY_TTS_MAX_CHARS";

/// The arguments with which a text is spoken. Of a text with more characters
/// than the cap allows the start is spoken.
pub fn speech_arguments(project: Setting, max_chars: &Setting, text: &str) -> (res: Result<
    Vec<String>,
    Error,
>)
    ensures
        match (res, number_or(SPEECH_LIMIT@, max_chars@, DEFAULT_SPEECH_LIMIT as nat)) {
            (Ok(arguments), Ok(limit)) => texts(arguments@) == seq![
                "speak"@,
                "--project"@,
                setting_or(project@, DEFAULT_VOICE_PROJECT@),
                truncated(text@, limit),
            ],
            (Err(error), Err(failure)) => error@ == failure,
            _ => false,
        },
{
    let limit: usize = match env_usize_or(SPEECH_LIMIT, max_chars, DEFAULT_SPEECH_LIMIT) {
        Ok(limit) => limit,
        Err(error) => {
            return Err(error);
        },
    };
    let mut res: Vec<String> = Vec::new();
    res.push("speak".to_owned());
    res.push("--project".to_owned());
    res.push(env_text_or(project, DEFAULT_VOICE_PROJECT));
    res.push(truncate_chars(text, limit).to_owned());
    assert(texts(res@) =~= seq![
        "speak"@,
        "--project"@,
        setting_or(project@, DEFAULT_VOICE_PROJECT@),
        truncated(text@, limit as nat),
    ]);
    Ok(res)
}

/// Checks how a program ended.
pub fn check_backend(backend: &str, success: bool, status: &str) -> (res: Result<(), Error>)
    ensures
        match res {
            Ok(_) => success,
            Err(error) => !success && error@ == (Failure::BackendExited {
                backend: backend@,
                status: status@,
            }),
        },
{
    if success {
        Ok(())
    } else {
        Err(ErrorOf::BackendExited { backend: backend.to_owned(), status: status.to_owned() })
    }
}

} // verus!
