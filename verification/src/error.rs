//! What can go wrong, and how it is told to the user.

use vstd::prelude::*;
use crate::number::{append_number, decimal, IntError};
use crate::text::{concat2, concat3, padded};

verus! {

/// A failure. `S` is the type of the texts that it carries: `String` at run
/// time, `Seq<char>` in specifications.
#[derive(Clone, Debug, PartialEq, Eq)]
pub enum ErrorOf<S> {
    /// `--limit` is the last argument.
    LimitMissing,
    /// The value of `--limit` is no number.
    LimitInvalid { raw: S, cause: IntError },
    /// The value of `--limit` is zero.
    LimitZero,
    /// `scan` got more than one path.
    ScanArguments,
    /// `update` got something other than `--force`.
    UpdateArguments,
    /// A command that takes no arguments got some.
    UnexpectedArguments { command: S },
    /// There is no such command.
    UnknownCommand { command: S },
    /// `ask` has no such option.
    UnknownAskOption { option: S },
    /// `context` has no such option.
    UnknownContextOption { option: S },
    /// `ask` got no question.
    QuestionMissing,
    /// An environment variable holds no number.
    SettingInvalid { name: S, cause: IntError },
    /// An environment variable holds zero.
    SettingZero { name: S },
    /// An environment variable holds something other than Unicode text.
    SettingNotUnicode { name: S },
    /// There is no home directory.
    HomeMissing,
    /// The store has no such table.
    UnsupportedTable,
    /// The directory to scan is not there.
    ScanRootMissing { root: S },
    /// The stored time of the last scan is no number.
    ScanTimestamp { value: S, cause: IntError },
    /// A service answered with an HTTP status that is no success.
    HttpStatus { service: S, status: S, detail: S },
    /// The model gave no answer.
    NoAnswer,
    /// The captured image is too large.
    CaptureTooLarge { size: u64, max: u64 },
    /// No screenshot tool gave an image.
    CaptureFailed { detail: S },
    /// A helper program failed.
    BackendExited { backend: S, status: S },
    /// The running build has no stable version.
    UnstableBuild { version: S },
    /// The release repository is not of the form `owner/repository`.
    RepositoryFormat,
    /// The release repository holds something that is not allowed in it.
    RepositoryInvalid { repository: S },
    /// The stored time of the last update check is no number.
    UpdateTimestamp { value: S, cause: IntError },
    /// The stored release version is no stable version.
    UpdateVersion { version: S },
    /// The OBS arguments make no action.
    ObsUsage,
    /// The OBS port is no port number.
    ObsPort { cause: IntError },
    /// The scene has no name.
    SceneNameEmpty,
    /// The canvas is smaller than the smallest that is supported.
    CanvasTooSmall,
    /// The safe margin does not fit the canvas.
    SafeMargin,
    /// A source has no name or no kind.
    SourceFieldsEmpty,
    /// Two sources have the same name.
    SourceDuplicate { name: S },
    /// A source's rectangle does not fit the canvas.
    SourceRect { name: S },
    /// There is an input of the source's name, of another kind.
    InputKind { name: S, existing: S, wanted: S },
    /// The Skillastic arguments make no action.
    SkillasticUsage,
}

/// A failure, as it is returned.
pub type Error = ErrorOf<String>;

/// A failure, as specifications speak of it.
pub type Failure = ErrorOf<Seq<char>>;

impl View for ErrorOf<String> {
    type V = ErrorOf<Seq<char>>;

    open spec fn view(&self) -> ErrorOf<Seq<char>> {
        match *self {
            ErrorOf::LimitMissing => ErrorOf::LimitMissing,
            ErrorOf::LimitInvalid { raw, cause } => ErrorOf::LimitInvalid { raw: raw@, cause },
            ErrorOf::LimitZero => ErrorOf::LimitZero,
            ErrorOf::ScanArguments => ErrorOf::ScanArguments,
            ErrorOf::UpdateArguments => ErrorOf::UpdateArguments,
            ErrorOf::UnexpectedArguments { command } => ErrorOf::UnexpectedArguments {
                command: command@,
            },
            ErrorOf::UnknownCommand { command } => ErrorOf::UnknownCommand { command: command@ },
            ErrorOf::UnknownAskOption { option } => ErrorOf::UnknownAskOption { option: option@ },
            ErrorOf::UnknownContextOption { option } => ErrorOf::UnknownContextOption {
                option: option@,
            },
            ErrorOf::QuestionMissing => ErrorOf::QuestionMissing,
            ErrorOf::SettingInvalid { name, cause } => ErrorOf::SettingInvalid {
                name: name@,
                cause,
            },
            ErrorOf::SettingZero { name } => ErrorOf::SettingZero { name: name@ },
            ErrorOf::SettingNotUnicode { name } => ErrorOf::SettingNotUnicode { name: name@ },
            ErrorOf::HomeMissing => ErrorOf::HomeMissing,
            ErrorOf::UnsupportedTable => ErrorOf::UnsupportedTable,
            ErrorOf::ScanRootMissing { root } => ErrorOf::ScanRootMissing { root: root@ },
            ErrorOf::ScanTimestamp { value, cause } => ErrorOf::ScanTimestamp {
                value: value@,
                cause,
            },
            ErrorOf::HttpStatus { service, status, detail } => ErrorOf::HttpStatus {
                service: service@,
                status: status@,
                detail: detail@,
            },
            ErrorOf::NoAnswer => ErrorOf::NoAnswer,
            ErrorOf::CaptureTooLarge { size, max } => ErrorOf::CaptureTooLarge { size, max },
            ErrorOf::CaptureFailed { detail } => ErrorOf::CaptureFailed { detail: detail@ },
            ErrorOf::BackendExited { backend, status } => ErrorOf::BackendExited {
                backend: backend@,
                status: status@,
            },
            ErrorOf::UnstableBuild { version } => ErrorOf::UnstableBuild { version: version@ },
            ErrorOf::RepositoryFormat => ErrorOf::RepositoryFormat,
            ErrorOf::RepositoryInvalid { repository } => ErrorOf::RepositoryInvalid {
                repository: repository@,
            },
            ErrorOf::UpdateTimestamp { value, cause } => ErrorOf::UpdateTimestamp {
                value: value@,
                cause,
            },
            ErrorOf::UpdateVersion { version } => ErrorOf::UpdateVersion { version: version@ },
            ErrorOf::ObsUsage => ErrorOf::ObsUsage,
            ErrorOf::ObsPort { cause } => ErrorOf::ObsPort { cause },
            ErrorOf::SceneNameEmpty => ErrorOf::SceneNameEmpty,
            ErrorOf::CanvasTooSmall => ErrorOf::CanvasTooSmall,
            ErrorOf::SafeMargin => ErrorOf::SafeMargin,
            ErrorOf::SourceFieldsEmpty => ErrorOf::SourceFieldsEmpty,
            ErrorOf::SourceDuplicate { name } => ErrorOf::SourceDuplicate { name: name@ },
            ErrorOf::SourceRect { name } => ErrorOf::SourceRect { name: name@ },
            ErrorOf::InputKind { name, existing, wanted } => ErrorOf::InputKind {
                name: name@,
                existing: existing@,
                wanted: wanted@,
            },
            ErrorOf::SkillasticUsage => ErrorOf::SkillasticUsage,
        }
    }
}

impl ErrorOf<Seq<char>> {
    /// The message for the user.
    pub open spec fn text(self) -> Seq<char> {
        match self {
            ErrorOf::LimitMissing => "--limit requires a value"@,
            ErrorOf::LimitInvalid { raw, cause } => "invalid limit '"@ + raw + "'"@,
            ErrorOf::LimitZero => "limit must be greater than zero"@,
            ErrorOf::ScanArguments => "scan accepts at most one path"@,
            ErrorOf::UpdateArguments => "update accepts only '--force'"@,
            ErrorOf::UnexpectedArguments { command } => command
                + " does not accept arguments"@,
            ErrorOf::UnknownCommand { command } => "unknown command '"@ + command
                + "'; run 'buddy help'"@,
            ErrorOf::UnknownAskOption { option } => "unknown ask option '"@ + option + "'"@,
            ErrorOf::UnknownContextOption { option } => "unknown context option '"@ + option
                + "'"@,
            ErrorOf::QuestionMissing => "ask requires a question"@,
            ErrorOf::SettingInvalid { name, cause } => name + " must be a positive integer"@,
            ErrorOf::SettingZero { name } => name + " must be greater than zero"@,
            ErrorOf::SettingNotUnicode { name } => name + " is not valid UTF-8"@,
            ErrorOf::HomeMissing =>
                "HOME is not set; pass an explicit path to 'buddy scan'"@,
            ErrorOf::UnsupportedTable => "unsupported table"@,
            ErrorOf::ScanRootMissing { root } => "scan root does not exist: "@ + root,
            ErrorOf::ScanTimestamp { value, cause } => "invalid cached scan timestamp '"@ + value
                + "'"@,
            ErrorOf::HttpStatus { service, status, detail } => service + " returned HTTP "@ + status
                + ": "@ + detail,
            ErrorOf::NoAnswer => "Groq returned no answer"@,
            ErrorOf::CaptureTooLarge { size, max } => "screen capture is "@ + decimal(size as nat)
                + " bytes, exceeding BUDDY_SCREEN_MAX_BYTES ("@ + decimal(max as nat) + ")"@,
            ErrorOf::CaptureFailed { detail } => "could not capture the screen ("@ + detail
                + "); install grim, gnome-screenshot, spectacle, or scrot, or set BUDDY_SCREENSHOT_BIN"@,
            ErrorOf::BackendExited { backend, status } => backend + " backend exited with "@
                + status,
            ErrorOf::UnstableBuild { version } =>
                "update checks are disabled for non-stable build "@ + version,
            ErrorOf::RepositoryFormat =>
                "BUDDY_RELEASE_REPO must use owner/repository format"@,
            ErrorOf::RepositoryInvalid { repository } => "invalid BUDDY_RELEASE_REPO '"@
                + repository + "'"@,
            ErrorOf::UpdateTimestamp { value, cause } => "invalid cached update timestamp '"@
                + value + "'"@,
            ErrorOf::UpdateVersion { version } => "invalid cached release version '"@ + version
                + "'"@,
            ErrorOf::ObsUsage =>
                "obs usage: buddy obs <plan|apply|compose> <SPEC.json> | buddy obs evaluate <SCENE>"@,
            ErrorOf::ObsPort { cause } => "BUDDY_OBS_PORT must be a valid port"@,
            ErrorOf::SceneNameEmpty => "scene name cannot be empty"@,
            ErrorOf::CanvasTooSmall => "canvas dimensions must be at least 8x8"@,
            ErrorOf::SafeMargin =>
                "safe margin must be finite, non-negative, and smaller than half the canvas"@,
            ErrorOf::SourceFieldsEmpty => "OBS source names and kinds cannot be empty"@,
            ErrorOf::SourceDuplicate { name } => "duplicate OBS source name '"@ + name + "'"@,
            ErrorOf::SourceRect { name } => "source '"@ + name
                + "' rect must be finite, positive, and contained in normalized canvas coordinates"@,
            ErrorOf::InputKind { name, existing, wanted } => "OBS input '"@ + name
                + "' already exists with kind '"@ + existing + "', not '"@ + wanted + "'"@,
            ErrorOf::SkillasticUsage => "skillastic accepts one of: status, list, capture"@,
        }
    }

    /// What is wrong with the number that the failure is about, if it is about
    /// one.
    pub open spec fn cause(self) -> Option<IntError> {
        match self {
            ErrorOf::LimitInvalid { raw, cause } => Some(cause),
            ErrorOf::SettingInvalid { name, cause } => Some(cause),
            ErrorOf::ScanTimestamp { value, cause } => Some(cause),
            ErrorOf::UpdateTimestamp { value, cause } => Some(cause),
            ErrorOf::ObsPort { cause } => Some(cause),
            _ => None,
        }
    }

    /// The message, followed by its cause if there is one.
    pub open spec fn full_text(self) -> Seq<char> {
        match self.cause() {
            Some(cause) => self.text() + ": "@ + cause.text(),
            None => self.text(),
        }
    }
}

impl ErrorOf<String> {
    /// The message for the user.
    pub fn to_string(&self) -> (res: String)
        ensures
            res@ == self@.text(),
    {
        match self {
            ErrorOf::LimitMissing => "--limit requires a value".to_owned(),
            ErrorOf::LimitInvalid { raw, cause } => concat3("invalid limit '", raw.as_str(), "'"),
            ErrorOf::LimitZero => "limit must be greater than zero".to_owned(),
            ErrorOf::ScanArguments => "scan accepts at most one path".to_owned(),
            ErrorOf::UpdateArguments => "update accepts only '--force'".to_owned(),
            ErrorOf::UnexpectedArguments { command } => concat2(command.as_str(),
                " does not accept arguments",
            ),
            ErrorOf::UnknownCommand { command } => concat3(
                "unknown command '",
                command.as_str(),
                "'; run 'buddy help'",
            ),
            ErrorOf::UnknownAskOption { option } => concat3(
                "unknown ask option '",
                option.as_str(),
                "'",
            ),
            ErrorOf::UnknownContextOption { option } => concat3(
                "unknown context option '",
                option.as_str(),
                "'",
            ),
            ErrorOf::QuestionMissing => "ask requires a question".to_owned(),
            ErrorOf::SettingInvalid { name, cause } => concat2(name.as_str(),
                " must be a positive integer",
            ),
            ErrorOf::SettingZero { name } => concat2(name.as_str(), " must be greater than zero"),
            ErrorOf::SettingNotUnicode { name } => concat2(name.as_str(),
                " is not valid UTF-8",
            ),
            ErrorOf::HomeMissing =>
                "HOME is not set; pass an explicit path to 'buddy scan'".to_owned(),
            ErrorOf::UnsupportedTable => "unsupported table".to_owned(),
            ErrorOf::ScanRootMissing { root } => concat2("scan root does not exist: ", root.as_str()),
            ErrorOf::ScanTimestamp { value, cause } => concat3(
                "invalid cached scan timestamp '",
                value.as_str(),
                "'",
            ),
            ErrorOf::HttpStatus { service, status, detail } => {
                let mut res = concat3(service.as_str(), " returned HTTP ", status.as_str());
                res.append(": ");
                res.append(detail.as_str());
                res
            },
            ErrorOf::NoAnswer => "Groq returned no answer".to_owned(),
            ErrorOf::CaptureTooLarge { size, max } => {
                let mut res = "screen capture is ".to_owned();
                append_number(&mut res, *size);
                res.append(" bytes, exceeding BUDDY_SCREEN_MAX_BYTES (");
                append_number(&mut res, *max);
                res.append(")");
                res
            },
            ErrorOf::CaptureFailed { detail } => concat3(
                "could not capture the screen (",
                detail.as_str(),
                "); install grim, gnome-screenshot, spectacle, or scrot, or set BUDDY_SCREENSHOT_BIN",
            ),
            ErrorOf::BackendExited { backend, status } => concat3(
                backend.as_str(),
                " backend exited with ",
                status.as_str(),
            ),
            ErrorOf::UnstableBuild { version } => concat2("update checks are disabled for non-stable build ", version.as_str()),
            ErrorOf::RepositoryFormat =>
                "BUDDY_RELEASE_REPO must use owner/repository format".to_owned(),
            ErrorOf::RepositoryInvalid { repository } => concat3(
                "invalid BUDDY_RELEASE_REPO '",
                repository.as_str(),
                "'",
            ),
            ErrorOf::UpdateTimestamp { value, cause } => concat3(
                "invalid cached update timestamp '",
                value.as_str(),
                "'",
            ),
            ErrorOf::UpdateVersion { version } => concat3(
                "invalid cached release version '",
                version.as_str(),
                "'",
            ),
            ErrorOf::ObsUsage =>
                "obs usage: buddy obs <plan|apply|compose> <SPEC.json> | buddy obs evaluate <SCENE>".to_owned(),
            ErrorOf::ObsPort { cause } => "BUDDY_OBS_PORT must be a valid port".to_owned(),
            ErrorOf::SceneNameEmpty => "scene name cannot be empty".to_owned(),
            ErrorOf::CanvasTooSmall => "canvas dimensions must be at least 8x8".to_owned(),
            ErrorOf::SafeMargin =>
                "safe margin must be finite, non-negative, and smaller than half the canvas".to_owned(),
            ErrorOf::SourceFieldsEmpty => "OBS source names and kinds cannot be empty".to_owned(),
            ErrorOf::SourceDuplicate { name } => concat3(
                "duplicate OBS source name '",
                name.as_str(),
                "'",
            ),
            ErrorOf::SourceRect { name } => concat3(
                "source '",
                name.as_str(),
                "' rect must be finite, positive, and contained in normalized canvas coordinates",
            ),
            ErrorOf::InputKind { name, existing, wanted } => {
                let mut res = concat3("OBS input '", name.as_str(), "' already exists with kind '");
                res.append(existing.as_str());
                res.append("', not '");
                res.append(wanted.as_str());
                res.append("'");
                res
            },
            ErrorOf::SkillasticUsage => "skillastic accepts one of: status, list, capture".to_owned(),
        }
    }

    /// What is wrong with the number that the failure is about, if it is about
    /// one.
    pub fn cause(&self) -> (res: Option<IntError>)
        ensures
            res == self@.cause(),
    {
        match self {
            ErrorOf::LimitInvalid { raw, cause } => Some(*cause),
            ErrorOf::SettingInvalid { name, cause } => Some(*cause),
            ErrorOf::ScanTimestamp { value, cause } => Some(*cause),
            ErrorOf::UpdateTimestamp { value, cause } => Some(*cause),
            ErrorOf::ObsPort { cause } => Some(*cause),
            _ => None,
        }
    }

    /// The message, followed by its cause if there is one.
    pub fn report(&self) -> (res: String)
        ensures
            res@ == self@.full_text(),
    {
        let text = self.to_string();
        match self.cause() {
            Some(cause) => concat3(text.as_str(), ": ", cause.message()),
            None => text,
        }
    }
}

/// A result with its failure as specifications speak of it.
pub open spec fn outcome<T>(result: Result<T, Error>) -> Result<T, Failure> {
    match result {
        Ok(value) => Ok(value),
        Err(error) => Err(error@),
    }
}

/// The text holds the part.
pub open spec fn tells(text: Seq<char>, part: Seq<char>) -> bool {
    exists|before: Seq<char>, after: Seq<char>| text == #[trigger] padded(before, part, after)
}

/// A message tells what the failure is about: every text and every number that the
/// failure carries stands in it, the cause apart.
pub proof fn law_messages_tell_what_is_wrong(failure: Failure)
    ensures
        match failure {
            ErrorOf::LimitInvalid { raw, cause } => tells(failure.text(), raw),
            ErrorOf::UnexpectedArguments { command } => tells(failure.text(), command),
            ErrorOf::UnknownCommand { command } => tells(failure.text(), command),
            ErrorOf::UnknownAskOption { option } => tells(failure.text(), option),
            ErrorOf::UnknownContextOption { option } => tells(failure.text(), option),
            ErrorOf::SettingInvalid { name, cause } => tells(failure.text(), name),
            ErrorOf::SettingZero { name } => tells(failure.text(), name),
            ErrorOf::SettingNotUnicode { name } => tells(failure.text(), name),
            ErrorOf::ScanRootMissing { root } => tells(failure.text(), root),
            ErrorOf::ScanTimestamp { value, cause } => tells(failure.text(), value),
            ErrorOf::HttpStatus { service, status, detail } => {
                &&& tells(failure.text(), service)
                &&& tells(failure.text(), status)
                &&& tells(failure.text(), detail)
            },
            ErrorOf::CaptureTooLarge { size, max } => {
                &&& tells(failure.text(), decimal(size as nat))
                &&& tells(failure.text(), decimal(max as nat))
            },
            ErrorOf::CaptureFailed { detail } => tells(failure.text(), detail),
            ErrorOf::BackendExited { backend, status } => {
                &&& tells(failure.text(), backend)
                &&& tells(failure.text(), status)
            },
            ErrorOf::UnstableBuild { version } => tells(failure.text(), version),
            ErrorOf::RepositoryInvalid { repository } => tells(failure.text(), repository),
            ErrorOf::UpdateTimestamp { value, cause } => tells(failure.text(), value),
            ErrorOf::UpdateVersion { version } => tells(failure.text(), version),
            ErrorOf::ObsPort { cause } => failure.text() == "BUDDY_OBS_PORT must be a valid port"@,
            ErrorOf::SourceDuplicate { name } => tells(failure.text(), name),
            ErrorOf::SourceRect { name } => tells(failure.text(), name),
            ErrorOf::InputKind { name, existing, wanted } => {
                &&& tells(failure.text(), name)
                &&& tells(failure.text(), existing)
                &&& tells(failure.text(), wanted)
            },
            _ => true,
        },
{
    let text = failure.text();
    let none = Seq::<char>::empty();
    match failure {
        ErrorOf::LimitInvalid { raw, cause } => {
            assert(text =~= padded("invalid limit '"@, raw, "'"@));
        },
        ErrorOf::UnexpectedArguments { command } => {
            assert(text =~= padded(none, command, " does not accept arguments"@));
        },
        ErrorOf::UnknownCommand { command } => {
            assert(text =~= padded("unknown command '"@, command, "'; run 'buddy help'"@));
        },
        ErrorOf::UnknownAskOption { option } => {
            assert(text =~= padded("unknown ask option '"@, option, "'"@));
        },
        ErrorOf::UnknownContextOption { option } => {
            assert(text =~= padded("unknown context option '"@, option, "'"@));
        },
        ErrorOf::SettingInvalid { name, cause } => {
            assert(text =~= padded(none, name, " must be a positive integer"@));
        },
        ErrorOf::SettingZero { name } => {
            assert(text =~= padded(none, name, " must be greater than zero"@));
        },
        ErrorOf::SettingNotUnicode { name } => {
            assert(text =~= padded(none, name, " is not valid UTF-8"@));
        },
        ErrorOf::ScanRootMissing { root } => {
            assert(text =~= padded("scan root does not exist: "@, root, none));
        },
        ErrorOf::ScanTimestamp { value, cause } => {
            assert(text =~= padded("invalid cached scan timestamp '"@, value, "'"@));
        },
        ErrorOf::HttpStatus { service, status, detail } => {
            assert(text =~= padded(none, service, " returned HTTP "@ + status + ": "@ + detail));
            assert(text =~= padded(service + " returned HTTP "@, status, ": "@ + detail));
            assert(text =~= padded(service + " returned HTTP "@ + status + ": "@, detail, none));
        },
        ErrorOf::CaptureTooLarge { size, max } => {
            assert(text =~= padded(
                "screen capture is "@,
                decimal(size as nat),
                " bytes, exceeding BUDDY_SCREEN_MAX_BYTES ("@ + decimal(max as nat) + ")"@,
            ));
            assert(text =~= padded(
                "screen capture is "@ + decimal(size as nat) + " bytes, exceeding BUDDY_SCREEN_MAX_BYTES ("@,
                decimal(max as nat),
                ")"@,
            ));
        },
        ErrorOf::CaptureFailed { detail } => {
            assert(text =~= padded(
                "could not capture the screen ("@,
                detail,
                "); install grim, gnome-screenshot, spectacle, or scrot, or set BUDDY_SCREENSHOT_BIN"@,
            ));
        },
        ErrorOf::BackendExited { backend, status } => {
            assert(text =~= padded(none, backend, " backend exited with "@ + status));
            assert(text =~= padded(backend + " backend exited with "@, status, none));
        },
        ErrorOf::UnstableBuild { version } => {
            assert(text =~= padded(
                "update checks are disabled for non-stable build "@,
                version,
                none,
            ));
        },
        ErrorOf::RepositoryInvalid { repository } => {
            assert(text =~= padded("invalid BUDDY_RELEASE_REPO '"@, repository, "'"@));
        },
        ErrorOf::UpdateTimestamp { value, cause } => {
            assert(text =~= padded("invalid cached update timestamp '"@, value, "'"@));
        },
        ErrorOf::UpdateVersion { version } => {
            assert(text =~= padded("invalid cached release version '"@, version, "'"@));
        },
        ErrorOf::SourceDuplicate { name } => {
            assert(text =~= padded("duplicate OBS source name '"@, name, "'"@));
        },
        ErrorOf::SourceRect { name } => {
            assert(text =~= padded(
                "source '"@,
                name,
                "' rect must be finite, positive, and contained in normalized canvas coordinates"@,
            ));
        },
        ErrorOf::InputKind { name, existing, wanted } => {
            assert(text =~= padded(
                "OBS input '"@,
                name,
                "' already exists with kind '"@ + existing + "', not '"@ + wanted + "'"@,
            ));
            assert(text =~= padded(
                "OBS input '"@ + name + "' already exists with kind '"@,
                existing,
                "', not '"@ + wanted + "'"@,
            ));
            assert(text =~= padded(
                "OBS input '"@ + name + "' already exists with kind '"@ + existing + "', not '"@,
                wanted,
                "'"@,
            ));
        },
        _ => {},
    }
}

/// The messages of the failures that carry nothing.
pub proof fn law_plain_messages(failure: Failure)
    ensures
        match failure {
            ErrorOf::LimitMissing => failure.text() == "--limit requires a value"@,
            ErrorOf::LimitZero => failure.text() == "limit must be greater than zero"@,
            ErrorOf::ScanArguments => failure.text() == "scan accepts at most one path"@,
            ErrorOf::UpdateArguments => failure.text() == "update accepts only '--force'"@,
            ErrorOf::QuestionMissing => failure.text() == "ask requires a question"@,
            ErrorOf::HomeMissing => failure.text() == "HOME is not set; pass an explicit path to 'buddy scan'"@,
            ErrorOf::UnsupportedTable => failure.text() == "unsupported table"@,
            ErrorOf::NoAnswer => failure.text() == "Groq returned no answer"@,
            ErrorOf::RepositoryFormat => failure.text() == "BUDDY_RELEASE_REPO must use owner/repository format"@,
            ErrorOf::ObsUsage => failure.text() == "obs usage: buddy obs <plan|apply|compose> <SPEC.json> | buddy obs evaluate <SCENE>"@,
            ErrorOf::SceneNameEmpty => failure.text() == "scene name cannot be empty"@,
            ErrorOf::CanvasTooSmall => failure.text() == "canvas dimensions must be at least 8x8"@,
            ErrorOf::SafeMargin => failure.text() == "safe margin must be finite, non-negative, and smaller than half the canvas"@,
            ErrorOf::SourceFieldsEmpty => failure.text() == "OBS source names and kinds cannot be empty"@,
            ErrorOf::SkillasticUsage => failure.text() == "skillastic accepts one of: status, list, capture"@,
            _ => true,
        },
{
}

/// A report is the message, and behind it the cause, where a number is what is
/// wrong.
pub proof fn law_reports_tell_the_cause(failure: Failure)
    ensures
        failure.cause() matches Some(cause) ==> failure.full_text() == failure.text() + ": "@
            + cause.text(),
        failure.cause() is None ==> failure.full_text() == failure.text(),
        match failure {
            ErrorOf::LimitInvalid { raw, cause } => failure.cause() == Some(cause),
            ErrorOf::SettingInvalid { name, cause } => failure.cause() == Some(cause),
            ErrorOf::ScanTimestamp { value, cause } => failure.cause() == Some(cause),
            ErrorOf::UpdateTimestamp { value, cause } => failure.cause() == Some(cause),
            ErrorOf::ObsPort { cause } => failure.cause() == Some(cause),
            _ => failure.cause() is None,
        },
{
}

} // verus!
