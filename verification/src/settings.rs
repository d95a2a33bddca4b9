//! Settings from the environment: what the values mean, and what holds without
//! them.

use vstd::prelude::*;
use crate::error::{Error, ErrorOf, Failure};
use crate::number::{decimal, law_decimal_reads_back, parse_number, read_number};
use crate::text::{ascii_lower, same, to_ascii_lowercase};

verus! {

/// How many filesystem entries the view of a snapshot holds by default.
pub const DEFAULT_CONTEXT_LIMIT: usize = 2000;

/// How many characters are spoken by default.
pub const DEFAULT_SPEECH_LIMIT: usize = 2000;

/// How many bytes a captured image may have by default.
pub const DEFAULT_SCREEN_MAX_BYTES: usize = 10485760;

/// The value of an environment variable. `S` is the type of the text: `String`
/// at run time, `Seq<char>` in specifications.
#[derive(Clone, Debug, PartialEq, Eq)]
pub enum SettingOf<S> {
    /// The variable is not set.
    Missing,
    /// The variable holds a text.
    Text(S),
    /// The variable holds something that is no Unicode text.
    NotUnicode,
}

/// The value of an environment variable.
pub type Setting = SettingOf<String>;

impl View for SettingOf<String> {
    type V = SettingOf<Seq<char>>;

    open spec fn view(&self) -> SettingOf<Seq<char>> {
        match *self {
            SettingOf::Missing => SettingOf::Missing,
            SettingOf::Text(text) => SettingOf::Text(text@),
            SettingOf::NotUnicode => SettingOf::NotUnicode,
        }
    }
}

/// The positive number that a setting holds, if it is there.
pub open spec fn setting_number(name: Seq<char>, setting: SettingOf<Seq<char>>) -> Result<
    Option<nat>,
    Failure,
> {
    match setting {
        SettingOf::Missing => Ok(None),
        SettingOf::NotUnicode => Err(Failure::SettingNotUnicode { name }),
        SettingOf::Text(text) => match read_number(text, usize::MAX as nat) {
            Err(cause) => Err(Failure::SettingInvalid { name, cause }),
            Ok(number) => if number == 0 {
                Err(Failure::SettingZero { name })
            } else {
                Ok(Some(number))
            },
        },
    }
}

/// The positive number that a setting holds, or the default one.
pub open spec fn number_or(
    name: Seq<char>,
    setting: SettingOf<Seq<char>>,
    default: nat,
) -> Result<nat, Failure> {
    match setting_number(name, setting) {
        Ok(Some(number)) => Ok(number),
        Ok(None) => Ok(default),
        Err(failure) => Err(failure),
    }
}

/// Reads a setting that holds a positive number.
pub fn env_usize(name: &str, setting: &Setting) -> (res: Result<Option<usize>, Error>)
    ensures
        match (res, setting_number(name@, setting@)) {
            (Ok(Some(number)), Ok(Some(expected))) => number == expected,
            (Ok(None), Ok(None)) => true,
            (Err(error), Err(failure)) => error@ == failure,
            _ => false,
        },
{
    match setting {
        SettingOf::Missing => Ok(None),
        SettingOf::NotUnicode => Err(ErrorOf::SettingNotUnicode { name: name.to_owned() }),
        SettingOf::Text(text) => match parse_number(text.as_str(), usize::MAX as u64) {
            Err(cause) => Err(ErrorOf::SettingInvalid { name: name.to_owned(), cause }),
            Ok(number) => if number == 0 {
                Err(ErrorOf::SettingZero { name: name.to_owned() })
            } else {
                Ok(Some(number as usize))
            },
        },
    }
}

/// Reads a setting that holds a positive number and has a default.
pub fn env_usize_or(name: &str, setting: &Setting, default: usize) -> (res: Result<usize, Error>)
    ensures
        match (res, number_or(name@, setting@, default as nat)) {
            (Ok(number), Ok(expected)) => number == expected,
            (Err(error), Err(failure)) => error@ == failure,
            _ => false,
        },
{
    match env_usize(name, setting) {
        Ok(Some(number)) => Ok(number),
        Ok(None) => Ok(default),
        Err(error) => Err(error),
    }
}

/// A text that switches something on, whatever the case of its letters.
pub open spec fn is_truthy(text: Seq<char>) -> bool {
    let lower = text.map_values(|c: char| ascii_lower(c));
    lower == "1"@ || lower == "true"@ || lower == "yes"@ || lower == "on"@
}

/// Reads a setting that switches something on. What is missing or no text does
/// not.
pub fn env_flag(setting: &Setting) -> (res: bool)
    ensures
        res == (setting@ matches SettingOf::Text(text) && is_truthy(text)),
{
    match setting {
        SettingOf::Text(text) => {
            let lower = to_ascii_lowercase(text.as_str());
            same(lower.as_str(), "1") || same(lower.as_str(), "true") || same(lower.as_str(), "yes")
                || same(lower.as_str(), "on")
        },
        _ => false,
    }
}

/// The text that a setting holds, or the default one. What is no text counts as
/// missing.
pub open spec fn setting_or(setting: SettingOf<Seq<char>>, default: Seq<char>) -> Seq<char> {
    match setting {
        SettingOf::Text(text) => text,
        _ => default,
    }
}

/// Reads a setting that is any text and has a default. What is no text counts as
/// missing.
pub fn env_text_or(setting: Setting, default: &str) -> (res: String)
    ensures
        res@ == setting_or(setting@, default@),
{
    match setting {
        SettingOf::Text(text) => text,
        _ => default.to_owned(),
    }
}

/// A path: a base, and what is to be joined to it.
pub struct DatabasePath<P> {
    pub base: P,
    pub below: Option<&'static str>,
}

/// The home directory, which is needed where this is asked for.
pub fn home_dir<P>(home: Option<P>) -> (res: Result<P, Error>)
    ensures
        match (res, home) {
            (Ok(path), Some(given)) => path == given,
            (Err(error), None) => error@ == Failure::HomeMissing,
            _ => false,
        },
{
    match home {
        Some(path) => Ok(path),
        None => Err(ErrorOf::HomeMissing),
    }
}

/// Where the database is: at the given place, else in the data directory, else
/// in the home directory.
pub fn database_path<P>(given: Option<P>, data_home: Option<P>, home: Option<P>) -> (res: Result<
    DatabasePath<P>,
    Error,
>)
    ensures
        match res {
            Ok(path) => match (given, data_home, home) {
                (Some(exact), _, _) => path.base == exact && path.below is None,
                (None, Some(data), _) => path.base == data && (path.below matches Some(below)
                    && below@ == "buddy/buddy.db"@),
                (None, None, Some(directory)) => path.base == directory && (
                path.below matches Some(below) && below@ == ".local/share/buddy/buddy.db"@),
                (None, None, None) => false,
            },
            Err(error) => {
                &&& error@ == Failure::HomeMissing
                &&& given is None
                &&& data_home is None
                &&& home is None
            },
        },
{
    if let Some(exact) = given {
        return Ok(DatabasePath { base: exact, below: None });
    }
    if let Some(data) = data_home {
        return Ok(DatabasePath { base: data, below: Some("buddy/buddy.db") });
    }
    match home_dir(home) {
        Ok(directory) => Ok(
            DatabasePath { base: directory, below: Some(".local/share/buddy/buddy.db") },
        ),
        Err(error) => Err(error),
    }
}

/// A setting that holds a number in decimal is read as that number, unless it is
/// zero or too large, which is a failure. A missing one gives the default. Nothing
/// else is accepted.
pub proof fn law_number_settings(
    name: Seq<char>,
    setting: SettingOf<Seq<char>>,
    default: nat,
    n: nat,
)
    ensures
        number_or(name, SettingOf::Missing, default) == Ok::<nat, Failure>(default),
        number_or(name, SettingOf::Missing, DEFAULT_SCREEN_MAX_BYTES as nat) == Ok::<nat, Failure>(
            10 * 1024 * 1024,
        ),
        0 < n <= usize::MAX ==> number_or(name, SettingOf::Text(decimal(n)), default) == Ok::<
            nat,
            Failure,
        >(n),
        number_or(name, SettingOf::Text("0"@), default) == Err::<nat, Failure>(
            Failure::SettingZero { name },
        ),
        number_or(name, SettingOf::NotUnicode, default) == Err::<nat, Failure>(
            Failure::SettingNotUnicode { name },
        ),
        setting matches SettingOf::Text(text) ==> match read_number(text, usize::MAX as nat) {
            Ok(number) => number_or(name, setting, default) == if number == 0 {
                Err::<nat, Failure>(Failure::SettingZero { name })
            } else {
                Ok::<nat, Failure>(number)
            },
            Err(cause) => number_or(name, setting, default) == Err::<nat, Failure>(
                Failure::SettingInvalid { name, cause },
            ),
        },
{
    if n <= usize::MAX {
        law_decimal_reads_back(n, usize::MAX as nat);
    }
    reveal_strlit("0");
    law_decimal_reads_back(0, usize::MAX as nat);
    assert("0"@ =~= decimal(0));
}

/// A setting that is there is taken as it is. Anything else gives the default.
pub proof fn law_text_settings(text: Seq<char>, default: Seq<char>)
    ensures
        setting_or(SettingOf::Text(text), default) == text,
        setting_or(SettingOf::Missing, default) == default,
        setting_or(SettingOf::NotUnicode, default) == default,
{
}

/// The text is the word but for the case of its letters.
pub open spec fn is_word(text: Seq<char>, word: Seq<char>) -> bool {
    &&& text.len() == word.len()
    &&& forall|i: int|
        0 <= i < word.len() ==> (#[trigger] text[i] == word[i] || ('A' <= text[i] <= 'Z'
            && text[i] as int + 32 == word[i] as int))
}

/// A setting is switched on by one of four words, whatever the case of its letters,
/// and by nothing else.
pub proof fn law_words_that_switch_on(text: Seq<char>)
    ensures
        is_truthy(text) <==> is_word(text, "1"@) || is_word(text, "true"@) || is_word(text, "yes"@)
            || is_word(text, "on"@),
{
    reveal_strlit("1");
    reveal_strlit("true");
    reveal_strlit("yes");
    reveal_strlit("on");
    lemma_lower(text, "1"@);
    lemma_lower(text, "true"@);
    lemma_lower(text, "yes"@);
    lemma_lower(text, "on"@);
}

proof fn lemma_lower(text: Seq<char>, word: Seq<char>)
    requires
        forall|i: int| 0 <= i < word.len() ==> !('A' <= #[trigger] word[i] <= 'Z'),
    ensures
        text.map_values(|c: char| ascii_lower(c)) == word <==> is_word(text, word),
{
    let lower = text.map_values(|c: char| ascii_lower(c));
    if lower == word {
        assert forall|i: int| 0 <= i < word.len() implies (#[trigger] text[i] == word[i] || ('A'
            <= text[i] <= 'Z' && text[i] as int + 32 == word[i] as int)) by {
            assert(lower[i] == ascii_lower(text[i]));
        }
    }
    if is_word(text, word) {
        assert forall|i: int| 0 <= i < word.len() implies lower[i] == word[i] by {
            assert(text[i] == text[i]);
            assert(!('A' <= word[i] <= 'Z'));
        }
        assert(lower =~= word);
    }
}

/// What specifications see of a setting is all of it.
pub proof fn law_settings_are_seen_whole(setting: Setting)
    ensures
        match setting {
            SettingOf::Missing => setting@ is Missing,
            SettingOf::Text(text) => setting@ == SettingOf::Text(text@),
            SettingOf::NotUnicode => setting@ is NotUnicode,
        },
{
}

} // verus!
