//! The stored snapshot: its records, its metadata, and the bounded view of it
//! that is shown and sent.

use vstd::prelude::*;
use crate::error::{Error, ErrorOf, Failure};
use crate::number::{decimal, decimal_text, law_decimal_reads_back, parse_number, read_number};
use crate::text::{same, text_of};

verus! {

/// A running process.
#[derive(Clone, Debug, PartialEq, Eq)]
pub struct ProcessRecord {
    pub pid: u32,
    pub name: String,
    pub executable: String,
    pub started_at_unix: u64,
}

/// An entry of the filesystem.
#[derive(Clone, Debug, PartialEq, Eq)]
pub struct FileRecord {
    pub path: String,
    pub is_dir: bool,
    pub size_bytes: u64,
    pub modified_at_unix: Option<u64>,
}

/// The view of the snapshot that is shown and sent.
#[derive(Clone, Debug, PartialEq, Eq)]
pub struct MachineContext {
    pub process_count: usize,
    pub indexed_entry_count: usize,
    pub included_entry_count: usize,
    pub scan_root: Option<String>,
    pub scanned_at_unix: Option<u64>,
    pub processes: Vec<ProcessRecord>,
    pub filesystem: Vec<FileRecord>,
}

/// One metadata value to store under a key.
#[derive(Clone, Debug, PartialEq, Eq)]
pub struct Entry {
    pub key: String,
    pub value: String,
}

/// What the metadata holds.
pub type Metadata = Map<Seq<char>, Seq<char>>;

/// The keys and values of entries.
pub open spec fn entry_texts(entries: Seq<Entry>) -> Seq<(Seq<char>, Seq<char>)> {
    entries.map_values(|entry: Entry| (entry.key@, entry.value@))
}

/// The metadata after values have been stored, one after the other. A value
/// replaces what was stored under its key.
pub open spec fn stored(metadata: Metadata, entries: Seq<(Seq<char>, Seq<char>)>) -> Metadata
    decreases entries.len(),
{
    if entries.len() == 0 {
        metadata
    } else {
        stored(metadata, entries.drop_last()).insert(entries.last().0, entries.last().1)
    }
}

/// What the metadata holds under a key.
pub open spec fn lookup(metadata: Metadata, key: Seq<char>) -> Option<Seq<char>> {
    if metadata.dom().contains(key) {
        Some(metadata[key])
    } else {
        None
    }
}

/// A metadata value to store.
pub fn entry(key: &str, value: String) -> (res: Entry)
    ensures
        res.key@ == key@,
        res.value@ == value@,
{
    Entry { key: key.to_owned(), value }
}

/// The key of the time at which the processes were last captured.
pub const PROCESSES_AT: &'static str = "processes_at_unix";

/// The key of the directory that was last scanned.
pub const SCAN_ROOT: &'static str = "scan_root";

/// The key of the time of the last scan.
pub const SCANNED_AT: &'static str = "scanned_at_unix";

/// What is stored beside the processes once they have been captured.
pub open spec fn process_entries(now: u64) -> Seq<(Seq<char>, Seq<char>)> {
    seq![(PROCESSES_AT@, decimal(now as nat))]
}

/// What is stored beside the processes once they have been captured.
pub fn process_metadata(now: u64) -> (res: Vec<Entry>)
    ensures
        entry_texts(res@) == process_entries(now),
{
    let mut res: Vec<Entry> = Vec::new();
    res.push(entry(PROCESSES_AT, decimal_text(now as u128)));
    assert(entry_texts(res@) =~= process_entries(now));
    res
}

/// What is stored beside the filesystem entries once a directory has been
/// scanned.
pub open spec fn scan_entries(root: Seq<char>, now: u64) -> Seq<(Seq<char>, Seq<char>)> {
    seq![(SCAN_ROOT@, root), (SCANNED_AT@, decimal(now as nat))]
}

/// What is stored beside the filesystem entries once a directory has been
/// scanned.
pub fn scan_metadata(root: &str, now: u64) -> (res: Vec<Entry>)
    ensures
        entry_texts(res@) == scan_entries(root@, now),
{
    let mut res: Vec<Entry> = Vec::new();
    res.push(entry(SCAN_ROOT, root.to_owned()));
    res.push(entry(SCANNED_AT, decimal_text(now as u128)));
    assert(entry_texts(res@) =~= scan_entries(root@, now));
    res
}

// ---------------------------------------------------------------------------
// Statements
// ---------------------------------------------------------------------------

/// Makes the tables that are not there yet.
pub const SCHEMA: &'static str = "PRAGMA journal_mode = WAL;
CREATE TABLE IF NOT EXISTS processes (
    pid INTEGER PRIMARY KEY,
    name TEXT NOT NULL,
    executable TEXT NOT NULL,
    started_at_unix INTEGER NOT NULL
);
CREATE TABLE IF NOT EXISTS filesystem (
    path TEXT PRIMARY KEY,
    is_dir INTEGER NOT NULL,
    size_bytes INTEGER NOT NULL,
    modified_at_unix INTEGER
);
CREATE TABLE IF NOT EXISTS metadata (
    key TEXT PRIMARY KEY,
    value TEXT NOT NULL
);";

/// Forgets all processes.
pub const DELETE_PROCESSES: &'static str = "DELETE FROM processes";

/// Stores a process.
pub const INSERT_PROCESS: &'static str =
    "INSERT INTO processes (pid, name, executable, started_at_unix) VALUES (?1, ?2, ?3, ?4)";

/// Forgets all filesystem entries.
pub const DELETE_FILES: &'static str = "DELETE FROM filesystem";

/// Stores a filesystem entry, in place of one of the same path.
pub const INSERT_FILE: &'static str =
    "INSERT OR REPLACE INTO filesystem (path, is_dir, size_bytes, modified_at_unix) VALUES (?1, ?2, ?3, ?4)";

/// Stores a metadata value, in place of one under the same key.
pub const SET_METADATA: &'static str =
    "INSERT INTO metadata (key, value) VALUES (?1, ?2) ON CONFLICT(key) DO UPDATE SET value = excluded.value";

/// Reads the metadata value under a key.
pub const GET_METADATA: &'static str = "SELECT value FROM metadata WHERE key = ?1";

/// Reads all processes, ordered by name.
pub const SELECT_PROCESSES: &'static str =
    "SELECT pid, name, executable, started_at_unix FROM processes ORDER BY name, pid";

/// Reads filesystem entries, ordered by path, and no more than a given number.
pub const SELECT_FILES: &'static str =
    "SELECT path, is_dir, size_bytes, modified_at_unix FROM filesystem ORDER BY path LIMIT ?1";

/// The statement that counts the rows of a table.
pub fn count_query(table: &str) -> (res: Result<&'static str, Error>)
    ensures
        match res {
            Ok(query) => {
                ||| table@ == "processes"@ && query@ == "SELECT COUNT(*) FROM processes"@
                ||| table@ == "filesystem"@ && query@ == "SELECT COUNT(*) FROM filesystem"@
            },
            Err(error) => {
                &&& error@ == Failure::UnsupportedTable
                &&& table@ != "processes"@
                &&& table@ != "filesystem"@
            },
        },
{
    if same(table, "processes") {
        Ok("SELECT COUNT(*) FROM processes")
    } else if same(table, "filesystem") {
        Ok("SELECT COUNT(*) FROM filesystem")
    } else {
        Err(ErrorOf::UnsupportedTable)
    }
}

// ---------------------------------------------------------------------------
// The view of the snapshot
// ---------------------------------------------------------------------------

/// The time of the last scan that the metadata holds.
pub open spec fn scan_time(stored_at: Option<Seq<char>>) -> Result<Option<nat>, Failure> {
    match stored_at {
        None => Ok(None),
        Some(value) => match read_number(value, u64::MAX as nat) {
            Ok(time) => Ok(Some(time)),
            Err(cause) => Err(Failure::ScanTimestamp { value, cause }),
        },
    }
}

/// The first `limit` rows, or all of them if there are no more.
pub open spec fn bounded<T>(rows: Seq<T>, limit: nat) -> Seq<T> {
    if rows.len() <= limit {
        rows
    } else {
        rows.take(limit as int)
    }
}

/// Makes the view of a snapshot: all processes, and the first `limit` of the
/// filesystem entries. `indexed` is the number of entries in the store.
pub fn build_context(
    limit: usize,
    processes: Vec<ProcessRecord>,
    indexed: usize,
    rows: Vec<FileRecord>,
    scan_root: Option<String>,
    scanned_at: Option<String>,
) -> (res: Result<MachineContext, Error>)
    ensures
        match (res, scan_time(text_of(scanned_at))) {
            (Ok(context), Ok(time)) => {
                &&& context.process_count == processes@.len()
                &&& context.indexed_entry_count == indexed
                &&& context.included_entry_count == context.filesystem@.len()
                &&& context.scan_root == scan_root
                &&& match (context.scanned_at_unix, time) {
                    (Some(at), Some(expected)) => at == expected,
                    (None, None) => true,
                    _ => false,
                }
                &&& context.processes == processes
                &&& context.filesystem@ == bounded(rows@, limit as nat)
            },
            (Err(error), Err(failure)) => error@ == failure,
            _ => false,
        },
{
    let scanned_at_unix: Option<u64> = match scanned_at {
        None => None,
        Some(value) => match parse_number(value.as_str(), u64::MAX) {
            Ok(time) => Some(time),
            Err(cause) => {
                return Err(ErrorOf::ScanTimestamp { value, cause });
            },
        },
    };
    let mut filesystem = rows;
    if filesystem.len() > limit {
        filesystem.truncate(limit);
    }
    Ok(
        MachineContext {
            process_count: processes.len(),
            indexed_entry_count: indexed,
            included_entry_count: filesystem.len(),
            scan_root,
            scanned_at_unix,
            processes,
            filesystem,
        },
    )
}

/// The view never holds more filesystem entries than the limit allows and no fewer
/// than it can, what it holds is the start of what was indexed, and it holds all of
/// that if the limit allows it.
pub proof fn law_context_is_bounded<T>(rows: Seq<T>, limit: nat)
    ensures
        bounded(rows, limit).len() <= limit,
        bounded(rows, limit).is_prefix_of(rows),
        rows.len() <= limit ==> bounded(rows, limit) == rows,
        rows.len() >= limit ==> bounded(rows, limit).len() == limit,
{
}

/// After a scan the view tells the directory that was scanned and the time at
/// which that happened, whatever the metadata held before.
pub proof fn law_scan_is_remembered(metadata: Metadata, root: Seq<char>, now: u64)
    ensures
        ({
            let after = stored(metadata, scan_entries(root, now));
            &&& lookup(after, SCAN_ROOT@) == Some(root)
            &&& scan_time(lookup(after, SCANNED_AT@)) == Ok::<Option<nat>, Failure>(
                Some(now as nat),
            )
        }),
{
    reveal_strlit("scan_root");
    reveal_strlit("scanned_at_unix");
    assert(SCAN_ROOT@.len() != SCANNED_AT@.len());
    let entries = scan_entries(root, now);
    let first = entries.drop_last();
    assert(first.drop_last() =~= Seq::<(Seq<char>, Seq<char>)>::empty());
    assert(stored(metadata, first.drop_last()) == metadata);
    assert(stored(metadata, first) == metadata.insert(SCAN_ROOT@, root));
    law_decimal_reads_back(now as nat, u64::MAX as nat);
}

/// Storing a value changes what is held under its key and nothing else.
pub proof fn law_stored_values_are_found(
    metadata: Metadata,
    entries: Seq<(Seq<char>, Seq<char>)>,
    key: Seq<char>,
    value: Seq<char>,
    other: Seq<char>,
)
    ensures
        ({
            let before = stored(metadata, entries);
            let after = stored(metadata, entries.push((key, value)));
            &&& lookup(after, key) == Some(value)
            &&& other != key ==> lookup(after, other) == lookup(before, other)
        }),
        stored(metadata, Seq::empty()) == metadata,
{
    assert(entries.push((key, value)).drop_last() =~= entries);
}

/// The time of the last capture of the processes is remembered.
pub proof fn law_capture_is_remembered(metadata: Metadata, now: u64)
    ensures
        lookup(stored(metadata, process_entries(now)), "processes_at_unix"@) == Some(
            decimal(now as nat),
        ),
{
    let entries = process_entries(now);
    assert(entries.drop_last() =~= Seq::<(Seq<char>, Seq<char>)>::empty());
    assert(stored(metadata, entries.drop_last()) == metadata);
}

/// The time of a scan that the view tells is the number that is stored. Without a
/// stored time there is none, and a stored text that is no number is a failure.
pub proof fn law_scan_times(stored_at: Option<Seq<char>>, time: nat)
    ensures
        scan_time(None) == Ok::<Option<nat>, Failure>(None),
        time <= u64::MAX ==> scan_time(Some(decimal(time))) == Ok::<Option<nat>, Failure>(
            Some(time),
        ),
        stored_at matches Some(value) ==> match read_number(value, u64::MAX as nat) {
            Ok(number) => scan_time(stored_at) == Ok::<Option<nat>, Failure>(Some(number)),
            Err(cause) => scan_time(stored_at) == Err::<Option<nat>, Failure>(
                Failure::ScanTimestamp { value, cause },
            ),
        },
{
    if time <= u64::MAX {
        law_decimal_reads_back(time, u64::MAX as nat);
    }
}

} // verus!
