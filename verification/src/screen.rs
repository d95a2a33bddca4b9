//! Screen images: the tools that capture them, and what becomes of each attempt.

use vstd::prelude::*;
use crate::error::{Error, ErrorOf, Failure};
use crate::number::{decimal, decimal_text};
use crate::text::{
    concat2, concat3, join, joined, law_truncation_bounds, text_of, texts, trim, trimmed,
    truncate_chars, truncated,
};

verus! {

/// An image of the screen. It is held in memory only.
#[derive(Clone, Debug, PartialEq, Eq)]
pub struct ScreenCapture {
    pub bytes: Vec<u8>,
    pub mime_type: &'static str,
    pub capture_tool: String,
    pub captured_at_unix: u64,
}

/// What is told about an image of the screen. The image itself is not part of
/// it.
#[derive(Clone, Debug, PartialEq, Eq)]
pub struct ScreenMetadata<'a> {
    pub capture_tool: &'a str,
    pub mime_type: &'a str,
    pub size_bytes: usize,
    pub captured_at_unix: u64,
    pub persisted: bool,
}

impl ScreenCapture {
    /// What is told about the image.
    pub fn metadata(&self) -> (res: ScreenMetadata<'_>)
        ensures
            res.capture_tool@ == self.capture_tool@,
            res.mime_type@ == self.mime_type@,
            res.size_bytes == self.bytes@.len(),
            res.captured_at_unix == self.captured_at_unix,
            !res.persisted,
    {
        ScreenMetadata {
            capture_tool: self.capture_tool.as_str(),
            mime_type: self.mime_type,
            size_bytes: self.bytes.len(),
            captured_at_unix: self.captured_at_unix,
            persisted: false,
        }
    }
}

/// The name of the directory that an image is captured into.
pub fn capture_directory(process: u32, nanos: u128) -> (res: String)
    ensures
        res@ == "buddy-screen-"@ + decimal(process as nat) + "-"@ + decimal(nanos as nat),
{
    let mut res = concat3("buddy-screen-", decimal_text(process as u128).as_str(), "-");
    res.append(decimal_text(nanos).as_str());
    res
}

// ---------------------------------------------------------------------------
// Tools
// ---------------------------------------------------------------------------

/// A program that captures the screen into a file. The file's path comes after
/// the flags.
#[derive(Clone, Debug, PartialEq, Eq)]
pub struct Tool {
    pub binary: String,
    pub flags: Vec<String>,
}

/// The names and flags of tools.
pub open spec fn tool_texts(tools: Seq<Tool>) -> Seq<(Seq<char>, Seq<Seq<char>>)> {
    tools.map_values(|tool: Tool| (tool.binary@, texts(tool.flags@)))
}

/// The tools that are tried, in order: the one that the user names, or else
/// those of the system.
pub open spec fn tools_to_try(named: Option<Seq<char>>, macos: bool) -> Seq<
    (Seq<char>, Seq<Seq<char>>),
> {
    match named {
        Some(binary) => seq![(binary, Seq::empty())],
        None => if macos {
            seq![("screencapture"@, seq!["-x"@])]
        } else {
            seq![
                ("grim"@, Seq::empty()),
                ("gnome-screenshot"@, seq!["-f"@]),
                ("spectacle"@, seq!["-b"@, "-n"@, "-o"@]),
                ("scrot"@, Seq::empty()),
                ("import"@, seq!["-window"@, "root"@]),
            ]
        },
    }
}

fn tool(binary: &str, flags: Vec<String>) -> (res: Tool)
    ensures
        res.binary@ == binary@,
        res.flags == flags,
{
    Tool { binary: binary.to_owned(), flags }
}

fn flags0() -> (res: Vec<String>)
    ensures
        texts(res@) == Seq::<Seq<char>>::empty(),
{
    let res: Vec<String> = Vec::new();
    assert(texts(res@) =~= Seq::<Seq<char>>::empty());
    res
}

fn with_flag(flags: Vec<String>, flag: &str) -> (res: Vec<String>)
    ensures
        texts(res@) == texts(flags@).push(flag@),
{
    let mut res = flags;
    res.push(flag.to_owned());
    assert(texts(res@) =~= texts(flags@).push(flag@));
    res
}

/// The tools that are tried, in order.
pub fn capture_tools(named: Option<String>, macos: bool) -> (res: Vec<Tool>)
    ensures
        tool_texts(res@) == tools_to_try(text_of(named), macos),
{
    let ghost wanted = tools_to_try(text_of(named), macos);
    let mut res: Vec<Tool> = Vec::new();
    match named {
        Some(binary) => {
            res.push(Tool { binary, flags: flags0() });
        },
        None => {
            if macos {
                res.push(tool("screencapture", with_flag(flags0(), "-x")));
                assert(texts(res@[0].flags@) =~= seq!["-x"@]);
            } else {
                res.push(tool("grim", flags0()));
                res.push(tool("gnome-screenshot", with_flag(flags0(), "-f")));
                res.push(
                    tool(
                        "spectacle",
                        with_flag(with_flag(with_flag(flags0(), "-b"), "-n"), "-o"),
                    ),
                );
                res.push(tool("scrot", flags0()));
                res.push(tool("import", with_flag(with_flag(flags0(), "-window"), "root")));
                assert(texts(res@[1].flags@) =~= seq!["-f"@]);
                assert(texts(res@[2].flags@) =~= seq!["-b"@, "-n"@, "-o"@]);
                assert(texts(res@[4].flags@) =~= seq!["-window"@, "root"@]);
            }
        },
    }
    assert(tool_texts(res@) =~= wanted);
    res
}

// ---------------------------------------------------------------------------
// Attempts
// ---------------------------------------------------------------------------

/// What came of running a tool.
pub enum Attempt {
    /// It succeeded, and this is in the file.
    Image(Vec<u8>),
    /// It ran and gave no file. This is what it complained about.
    Failed { complaint: String },
    /// There is no such program.
    NotFound,
    /// It could not be run, for this reason.
    Broken { reason: String },
}

/// How many characters of a tool's complaint are kept.
pub const COMPLAINT_LIMIT: usize = 160;

/// The note that is kept of an attempt that gave no image. Of a program that is
/// not there none is kept.
pub open spec fn attempt_note(binary: Seq<char>, attempt: Attempt) -> Option<Seq<char>> {
    match attempt {
        Attempt::Image(bytes) => if bytes@.len() == 0 {
            Some(binary + ": produced an empty image"@)
        } else {
            None
        },
        Attempt::Failed { complaint } => Some(
            binary + ": "@ + truncated(trimmed(complaint@), COMPLAINT_LIMIT as nat),
        ),
        Attempt::NotFound => None,
        Attempt::Broken { reason } => Some(binary + ": "@ + reason@),
    }
}

/// Tools that are tried one after the other, and the notes that have been kept of
/// the attempts.
pub struct Attempts {
    pub tools: Vec<Tool>,
    /// How many of the tools have been tried.
    pub tried: usize,
    pub notes: Vec<String>,
}

/// Notes with one more at the end, if there is one.
pub open spec fn noted(notes: Seq<Seq<char>>, note: Option<Seq<char>>) -> Seq<Seq<char>> {
    match note {
        Some(text) => notes.push(text),
        None => notes,
    }
}

impl Attempts {
    /// At most all tools have been tried.
    pub open spec fn wf(self) -> bool {
        self.tried <= self.tools@.len()
    }

    /// Before the first attempt.
    pub fn new(tools: Vec<Tool>) -> (res: Attempts)
        ensures
            res.wf(),
            res.tools == tools,
            res.tried == 0,
            res.notes@.len() == 0,
    {
        Attempts { tools, tried: 0, notes: Vec::new() }
    }

    /// The tool to try next, if one is left.
    pub fn next_tool(&self) -> (res: Option<&Tool>)
        requires
            self.wf(),
        ensures
            match res {
                Some(tool) => self.tried < self.tools@.len() && *tool
                    == self.tools@[self.tried as int],
                None => self.tried == self.tools@.len(),
            },
    {
        if self.tried < self.tools.len() {
            Some(&self.tools[self.tried])
        } else {
            None
        }
    }

    /// Takes what came of running the next tool. An image of at least one and at
    /// most `max_bytes` bytes is the capture. A larger one ends the attempts with
    /// a failure. Anything else is noted, and the tool after it may be tried.
    pub fn record(&mut self, attempt: Attempt, max_bytes: usize, now: u64) -> (res: Result<
        Option<ScreenCapture>,
        Error,
    >)
        requires
            old(self).wf(),
            old(self).tried < old(self).tools@.len(),
        ensures
            final(self).wf(),
            final(self).tools == old(self).tools,
            final(self).tried == old(self).tried + 1,
            texts(final(self).notes@) == noted(
                texts(old(self).notes@),
                attempt_note(old(self).tools@[old(self).tried as int].binary@, attempt),
            ),
            match res {
                Ok(Some(capture)) => {
                    &&& attempt == Attempt::Image(capture.bytes)
                    &&& 0 < capture.bytes@.len() <= max_bytes
                    &&& capture.mime_type@ == "image/png"@
                    &&& capture.capture_tool@ == old(self).tools@[old(self).tried as int].binary@
                    &&& capture.captured_at_unix == now
                },
                Ok(None) => attempt matches Attempt::Image(bytes) ==> bytes@.len() == 0,
                Err(error) => attempt matches Attempt::Image(bytes) && bytes@.len() > max_bytes
                    && error@ == (Failure::CaptureTooLarge {
                    size: bytes@.len() as u64,
                    max: max_bytes as u64,
                }),
            },
    {
        let count: usize = self.tools.len();
        assert(self.tried < count);
        let name = self.tools[self.tried].binary.clone();
        let binary = name.as_str();
        self.tried = self.tried + 1;
        let ghost before = self.notes@;
        match attempt {
            Attempt::Image(bytes) => {
                if bytes.len() == 0 {
                    self.notes.push(concat2(binary, ": produced an empty image"));
                    assert(texts(self.notes@) =~= texts(before).push(
                        binary@ + ": produced an empty image"@,
                    ));
                    Ok(None)
                } else if bytes.len() > max_bytes {
                    Err(
                        ErrorOf::CaptureTooLarge {
                            size: bytes.len() as u64,
                            max: max_bytes as u64,
                        },
                    )
                } else {
                    Ok(
                        Some(
                            ScreenCapture {
                                bytes,
                                mime_type: "image/png",
                                capture_tool: binary.to_owned(),
                                captured_at_unix: now,
                            },
                        ),
                    )
                }
            },
            Attempt::Failed { complaint } => {
                let kept = truncate_chars(trim(complaint.as_str()), COMPLAINT_LIMIT);
                self.notes.push(concat3(binary, ": ", kept));
                assert(texts(self.notes@) =~= texts(before).push(binary@ + ": "@ + kept@));
                Ok(None)
            },
            Attempt::NotFound => Ok(None),
            Attempt::Broken { reason } => {
                self.notes.push(concat3(binary, ": ", reason.as_str()));
                assert(texts(self.notes@) =~= texts(before).push(binary@ + ": "@ + reason@));
                Ok(None)
            },
        }
    }

    /// The failure after the last attempt: all notes, or that there was no tool.
    pub fn give_up(&self) -> (res: Error)
        ensures
            res@ == (Failure::CaptureFailed {
                detail: if self.notes@.len() == 0 {
                    "no supported screenshot tool was found"@
                } else {
                    joined(texts(self.notes@), "; "@)
                },
            }),
    {
        if self.notes.len() == 0 {
            ErrorOf::CaptureFailed { detail: "no supported screenshot tool was found".to_owned() }
        } else {
            ErrorOf::CaptureFailed { detail: join(&self.notes, "; ") }
        }
    }
}

/// The notes that are kept of a run of attempts, one with each tool.
pub open spec fn notes_of(tools: Seq<Seq<char>>, attempts: Seq<Attempt>) -> Seq<Seq<char>>
    decreases attempts.len(),
{
    if attempts.len() == 0 {
        Seq::empty()
    } else {
        noted(
            notes_of(tools, attempts.drop_last()),
            attempt_note(tools[attempts.len() - 1], attempts.last()),
        )
    }
}

/// No tool is said to have been found exactly if none of the programs was there:
/// any other attempt without an image leaves a note.
pub proof fn law_every_other_failure_is_told(tools: Seq<Seq<char>>, attempts: Seq<Attempt>)
    requires
        forall|k: int|
            0 <= k < attempts.len() ==> ((#[trigger] attempts[k]) matches Attempt::Image(bytes)
                ==> bytes@.len() == 0),
    ensures
        notes_of(tools, attempts).len() == 0 <==> forall|k: int|
            0 <= k < attempts.len() ==> (#[trigger] attempts[k]) is NotFound,
    decreases attempts.len(),
{
    if attempts.len() > 0 {
        let before = attempts.drop_last();
        assert forall|k: int| 0 <= k < before.len() implies ((
        #[trigger] before[k]) matches Attempt::Image(bytes) ==> bytes@.len() == 0) by {
            assert(before[k] == attempts[k]);
        }
        law_every_other_failure_is_told(tools, before);
        let last = attempts[attempts.len() - 1];
        if notes_of(tools, attempts).len() == 0 {
            assert forall|k: int| 0 <= k < attempts.len() implies (
            #[trigger] attempts[k]) is NotFound by {
                if k < before.len() {
                    assert(before[k] is NotFound);
                }
            }
        }
        if forall|k: int| 0 <= k < attempts.len() ==> (#[trigger] attempts[k]) is NotFound {
            assert(last is NotFound);
            assert forall|k: int| 0 <= k < before.len() implies (
            #[trigger] before[k]) is NotFound by {
                assert(before[k] == attempts[k]);
            }
        }
    }
}

/// A note on a failed attempt starts with the tool and quotes what is known: the
/// start of the complaint without the white space around it, the reason, or that
/// the image was empty.
pub proof fn law_notes_name_the_tool(binary: Seq<char>, attempt: Attempt)
    ensures
        attempt_note(binary, attempt) matches Some(note) ==> (binary + ": "@).is_prefix_of(note),
        match attempt {
            Attempt::Image(bytes) => if bytes@.len() > 0 {
                attempt_note(binary, attempt) is None
            } else {
                attempt_note(binary, attempt) == Some(binary + ": produced an empty image"@)
            },
            Attempt::NotFound => attempt_note(binary, attempt) is None,
            Attempt::Broken { reason } => attempt_note(binary, attempt) == Some(
                binary + ": "@ + reason@,
            ),
            Attempt::Failed { complaint } => {
                attempt_note(binary, attempt) matches Some(note) && {
                    let quoted = note.skip((binary + ": "@).len() as int);
                    &&& quoted.len() <= 160
                    &&& quoted.is_prefix_of(trimmed(complaint@))
                    &&& trimmed(complaint@).len() <= 160 ==> quoted == trimmed(complaint@)
                    &&& trimmed(complaint@).len() > 160 ==> quoted.len() == 160
                }
            },
        },
{
    reveal_strlit(": ");
    reveal_strlit(": produced an empty image");
    let head = binary + ": "@;
    match attempt_note(binary, attempt) {
        Some(note) => {
            match attempt {
                Attempt::Failed { complaint } => {
                    let kept = truncated(trimmed(complaint@), 160);
                    law_truncation_bounds(trimmed(complaint@), 160);
                    assert(note.skip(head.len() as int) =~= kept);
                },
                _ => {},
            }
            assert(head =~= note.subrange(0, head.len() as int));
        },
        None => {},
    }
}

/// A note is kept behind those that are there, and nothing is lost.
pub proof fn law_notes_are_kept(notes: Seq<Seq<char>>, note: Seq<char>)
    ensures
        noted(notes, Some(note)) == notes + seq![note],
        noted(notes, None) == notes,
{
    assert(notes.push(note) =~= notes + seq![note]);
}

/// The tool that the user names is the only one that is tried. Otherwise there is
/// at least one tool, and where it is not a Mac there are five.
pub proof fn law_named_tool_is_tried_alone(binary: Seq<char>, macos: bool)
    ensures
        tools_to_try(Some(binary), macos) == seq![(binary, Seq::<Seq<char>>::empty())],
        tools_to_try(None, true) == seq![("screencapture"@, seq!["-x"@])],
        tools_to_try(None, false).len() == 5,
        tools_to_try(None, false)[0] == ("grim"@, Seq::<Seq<char>>::empty()),
        tools_to_try(None, false)[1] == ("gnome-screenshot"@, seq!["-f"@]),
        tools_to_try(None, false)[2] == ("spectacle"@, seq!["-b"@, "-n"@, "-o"@]),
        tools_to_try(None, false)[3] == ("scrot"@, Seq::<Seq<char>>::empty()),
        tools_to_try(None, false)[4] == ("import"@, seq!["-window"@, "root"@]),
{
}

} // verus!
