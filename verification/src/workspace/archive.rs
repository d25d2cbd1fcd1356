//! Packing a directory into a zip archive.
//!
//! The archive is built in steps. Each `ArchiveStep` says what to do next and which function
//! of this module takes the outcome. Symlinks are never followed and never packed, and the
//! bytes of all files together are held to a limit before any of them is read.
use vstd::prelude::*;
use crate::error::{detailed_error, io_failed, io_failure, os_failure, AppCommandError, AppErrorCode, AppErrorView};
use crate::number::{decimal, write_u64};
use crate::text::{append_chars, chars_of, string_of};
use super::archive_trace::may_follow;
use super::limits::{count_bytes, counted, saturated};

verus! {

/// The mode of a directory in the archive: readable by all, and open to all.
pub const DIR_MODE: u32 = 0o755;

/// The mode of a file in the archive: readable by all.
pub const FILE_MODE: u32 = 0o644;

/// What an entry of a directory tree is, symlinks not followed.
#[derive(Debug, Clone, Copy, PartialEq, Eq, Structural)]
pub enum EntryKind {
    Link,
    Directory,
    File,
    Other,
}

/// An entry of a directory tree, where `P` tells the host which one it is.
pub struct ArchiveEntry<P> {
    /// The entry itself.
    pub entry: P,
    /// The path below the directory that is packed. There is none for an entry that does not
    /// lie below it.
    pub rel: Option<String>,
    pub kind: EntryKind,
}

/// What is known of a directory tree so far.
#[derive(Debug, Clone, Copy, PartialEq, Eq, Structural)]
pub struct ArchiveScan {
    /// Most bytes that the files may have together.
    pub max_bytes: u64,
    /// The bytes of the files so far.
    pub total: u64,
    /// How many symlinks were left out so far.
    pub links_skipped: u64,
}

/// How an archive goes on.
pub enum ArchiveStep<P> {
    /// Ask for the next entry of the tree and hand it to `entry_found`.
    NextEntry(ArchiveScan),
    /// Add a directory of this name and mode and hand the outcome to `directory_added`.
    AddDirectory(ArchiveScan, String, u32),
    /// Ask how long this file is, which is to get this name, and hand the answer to
    /// `entry_measured`.
    Measure(ArchiveScan, P, String),
    /// Start a file of this name and mode, for this entry, and hand the outcome to
    /// `entry_started`.
    StartFile(ArchiveScan, P, String, u32),
    /// Open this file and hand the outcome to `source_opened`.
    OpenSource(ArchiveScan, P),
    /// Read a block of this file and hand it to `source_read`.
    ReadSource(ArchiveScan, P),
    /// Add this block, which was read from this file, and hand the outcome to `block_written`.
    WriteBlock(ArchiveScan, P, Vec<u8>),
    /// Finish the archive and hand the outcome to `archive_finished`.
    Finish(ArchiveScan),
    /// Ask how long the archive is and hand the answer to `archive_measured`.
    MeasureArchive(ArchiveScan),
    /// The archive is done and has this length.
    Done(ArchiveScan, u64),
    /// The archive has failed.
    Fail(AppCommandError),
}

/// Whether the step is a failure that says `e`.
pub open spec fn archive_fails<P>(step: ArchiveStep<P>, e: AppErrorView) -> bool {
    step matches ArchiveStep::Fail(f) && f@ == e
}

/// Starts an archive of files of at most `max_bytes` bytes together.
pub fn build_zip_archive_to_writer<P>(max_bytes: u64) -> (step: ArchiveStep<P>)
    ensures
        step == ArchiveStep::<P>::NextEntry((ArchiveScan { max_bytes, total: 0, links_skipped: 0 })),
{
    ArchiveStep::NextEntry(ArchiveScan { max_bytes, total: 0, links_skipped: 0 })
}

/// The name of an entry in the archive: its path with `/` between the names.
pub open spec fn entry_name_of(rel: Seq<char>) -> Seq<char> {
    rel.map_values(
        |c: char|
            if c == '\\' {
                '/'
            } else {
                c
            },
    )
}

/// The name of an entry in the archive.
pub fn entry_name(rel: &str) -> (s: String)
    ensures
        s@ == entry_name_of(rel@),
{
    let chars = chars_of(rel);
    let mut out: Vec<char> = Vec::new();
    let mut i: usize = 0;
    while i < chars.len()
        invariant
            i <= chars.len(),
            out@ == entry_name_of(chars@.take(i as int)),
        decreases chars.len() - i,
    {
        let c = if chars[i] == '\\' {
            '/'
        } else {
            chars[i]
        };
        out.push(c);
        assert(chars@.take(i + 1) =~= chars@.take(i as int).push(chars@[i as int]));
        assert(out@ =~= entry_name_of(chars@.take(i + 1)));
        i += 1;
    }
    assert(chars@.take(chars.len() as int) =~= chars@);
    string_of(&out)
}

/// The step that an entry leads to. The directory itself, and what is neither file, directory
/// nor symlink, is passed over; a symlink is counted and passed over.
pub open spec fn entry_step<P>(
    scan: ArchiveScan,
    entry: ArchiveEntry<P>,
    step: ArchiveStep<P>,
) -> bool {
    match entry.rel {
        None => step == ArchiveStep::<P>::NextEntry(scan),
        Some(rel) => if rel@.len() == 0 {
            step == ArchiveStep::<P>::NextEntry(scan)
        } else {
            match entry.kind {
                EntryKind::Link => step == ArchiveStep::<P>::NextEntry(
                    (ArchiveScan { links_skipped: saturated(scan.links_skipped, 1), ..scan }),
                ),
                EntryKind::Directory => step matches ArchiveStep::AddDirectory(s, name, mode) && s
                    == scan && name@ == entry_name_of(rel@).push('/') && mode == DIR_MODE,
                EntryKind::File => step matches ArchiveStep::Measure(s, p, name) && s == scan && p
                    == entry.entry && name@ == entry_name_of(rel@),
                EntryKind::Other => step == ArchiveStep::<P>::NextEntry(scan),
            }
        },
    }
}

/// Goes on with the next entry of the tree. After the last one the archive is finished.
pub fn entry_found<P>(scan: ArchiveScan, entry: Result<Option<ArchiveEntry<P>>, String>) -> (step:
    ArchiveStep<P>)
    ensures
        match entry {
            Err(reason) => archive_fails(step, io_failure("Failed to walk directory"@, reason@)),
            Ok(None) => step == ArchiveStep::<P>::Finish(scan),
            Ok(Some(e)) => entry_step(scan, e, step),
        },
        may_follow(ArchiveStep::<P>::NextEntry(scan), step),
{
    let found = match entry {
        Err(reason) => {
            return ArchiveStep::Fail(io_failed("Failed to walk directory", &reason));
        },
        Ok(None) => {
            return ArchiveStep::Finish(scan);
        },
        Ok(Some(e)) => e,
    };
    let rel = match found.rel {
        None => {
            return ArchiveStep::NextEntry(scan);
        },
        Some(rel) => chars_of(rel.as_str()),
    };
    if rel.len() == 0 {
        return ArchiveStep::NextEntry(scan);
    }
    let name = entry_name(string_of(&rel).as_str());
    match found.kind {
        EntryKind::Link => ArchiveStep::NextEntry(
            ArchiveScan {
                max_bytes: scan.max_bytes,
                total: scan.total,
                links_skipped: scan.links_skipped.saturating_add(1),
            },
        ),
        EntryKind::Directory => {
            let mut dir_name = chars_of(name.as_str());
            dir_name.push('/');
            ArchiveStep::AddDirectory(scan, string_of(&dir_name), DIR_MODE)
        },
        EntryKind::File => ArchiveStep::Measure(scan, found.entry, name),
        EntryKind::Other => ArchiveStep::NextEntry(scan),
    }
}

/// Goes on after a directory was added.
pub fn directory_added<P>(scan: ArchiveScan, outcome: Result<(), String>) -> (step: ArchiveStep<P>)
    ensures
        match outcome {
            Ok(_) => step == ArchiveStep::<P>::NextEntry(scan),
            Err(reason) => archive_fails(step, io_failure("Failed to add dir to zip"@, reason@)),
        },
        forall|name: String, mode: u32|
            #[trigger] may_follow(ArchiveStep::<P>::AddDirectory(scan, name, mode), step),
{
    match outcome {
        Ok(()) => ArchiveStep::NextEntry(scan),
        Err(reason) => ArchiveStep::Fail(io_failed("Failed to add dir to zip", &reason)),
    }
}

/// The refusal of a directory with too many bytes.
pub open spec fn over_limit(scanned: u64, limit: u64) -> AppErrorView {
    detailed_error(
        AppErrorCode::InvalidInput,
        "Directory exceeds the maximum download size"@,
        "scanned="@ + decimal(scanned as nat) + " limit="@ + decimal(limit as nat),
    )
}

/// The step that the length of a file leads to. A file that would bring the scan over the
/// limit is not packed.
pub open spec fn measured_step<P>(
    scan: ArchiveScan,
    entry: P,
    name: String,
    len: Result<u64, Seq<char>>,
    step: ArchiveStep<P>,
) -> bool {
    match len {
        Err(reason) => archive_fails(step, io_failure("Failed to stat entry"@, reason)),
        Ok(n) => match counted(scan.total, n, scan.max_bytes) {
            Ok(total) => step == ArchiveStep::StartFile(
                (ArchiveScan { total, ..scan }),
                entry,
                name,
                FILE_MODE,
            ),
            Err(total) => archive_fails(step, over_limit(total, scan.max_bytes)),
        },
    }
}

/// The answer to the question how long a file is.
pub open spec fn length_answer(len: Result<u64, String>) -> Result<u64, Seq<char>> {
    match len {
        Ok(n) => Ok(n),
        Err(reason) => Err(reason@),
    }
}

/// Goes on with the length of a file.
pub fn entry_measured<P>(
    scan: ArchiveScan,
    entry: P,
    name: String,
    len: Result<u64, String>,
) -> (step: ArchiveStep<P>)
    ensures
        measured_step(scan, entry, name, length_answer(len), step),
        may_follow(ArchiveStep::Measure(scan, entry, name), step),
{
    match len {
        Err(reason) => ArchiveStep::Fail(io_failed("Failed to stat entry", &reason)),
        Ok(n) => match count_bytes(scan.total, n, scan.max_bytes) {
            Err(total) => {
                let mut detail = chars_of("scanned=");
                append_chars(&mut detail, &write_u64(total));
                append_chars(&mut detail, &chars_of(" limit="));
                append_chars(&mut detail, &write_u64(scan.max_bytes));
                let detail = string_of(&detail);
                ArchiveStep::Fail(
                    AppCommandError::invalid_input(
                        "Directory exceeds the maximum download size",
                    ).with_detail(detail.as_str()),
                )
            },
            Ok(total) => ArchiveStep::StartFile(
                ArchiveScan {
                    max_bytes: scan.max_bytes,
                    total,
                    links_skipped: scan.links_skipped,
                },
                entry,
                name,
                FILE_MODE,
            ),
        },
    }
}

/// Goes on after a file was started in the archive: the file that is opened is the one that it
/// was started for.
pub fn entry_started<P>(scan: ArchiveScan, entry: P, outcome: Result<(), String>) -> (step:
    ArchiveStep<P>)
    ensures
        match outcome {
            Ok(_) => step == ArchiveStep::OpenSource(scan, entry),
            Err(reason) => archive_fails(step, io_failure("Failed to start zip entry"@, reason@)),
        },
        forall|name: String, mode: u32|
            #[trigger] may_follow(ArchiveStep::StartFile(scan, entry, name, mode), step),
{
    match outcome {
        Ok(()) => ArchiveStep::OpenSource(scan, entry),
        Err(reason) => ArchiveStep::Fail(io_failed("Failed to start zip entry", &reason)),
    }
}

/// Goes on after the file was opened.
pub fn source_opened<P>(scan: ArchiveScan, entry: P, outcome: Result<(), String>) -> (step:
    ArchiveStep<P>)
    ensures
        match outcome {
            Ok(_) => step == ArchiveStep::ReadSource(scan, entry),
            Err(reason) => archive_fails(step, os_failure(reason@)),
        },
        may_follow(ArchiveStep::OpenSource(scan, entry), step),
{
    match outcome {
        Ok(()) => ArchiveStep::ReadSource(scan, entry),
        Err(reason) => ArchiveStep::Fail(AppCommandError::io(reason.as_str())),
    }
}

/// The step that a block of the file leads to; an empty one is its end.
pub open spec fn block_step<P>(
    scan: ArchiveScan,
    entry: P,
    block: Result<Seq<u8>, Seq<char>>,
    step: ArchiveStep<P>,
) -> bool {
    match block {
        Ok(bytes) => if bytes.len() == 0 {
            step == ArchiveStep::<P>::NextEntry(scan)
        } else {
            step matches ArchiveStep::WriteBlock(s, p, b) && s == scan && p == entry && b@ == bytes
        },
        Err(reason) => archive_fails(step, os_failure(reason)),
    }
}

/// What reading a block brought.
pub open spec fn block_answer(block: Result<Vec<u8>, String>) -> Result<Seq<u8>, Seq<char>> {
    match block {
        Ok(bytes) => Ok(bytes@),
        Err(reason) => Err(reason@),
    }
}

/// Goes on with a block of the file.
pub fn source_read<P>(scan: ArchiveScan, entry: P, block: Result<Vec<u8>, String>) -> (step:
    ArchiveStep<P>)
    ensures
        block_step(scan, entry, block_answer(block), step),
        may_follow(ArchiveStep::ReadSource(scan, entry), step),
{
    match block {
        Ok(bytes) => if bytes.len() == 0 {
            ArchiveStep::NextEntry(scan)
        } else {
            ArchiveStep::WriteBlock(scan, entry, bytes)
        },
        Err(reason) => ArchiveStep::Fail(AppCommandError::io(reason.as_str())),
    }
}

/// Goes on after a block was added.
pub fn block_written<P>(scan: ArchiveScan, entry: P, outcome: Result<(), String>) -> (step:
    ArchiveStep<P>)
    ensures
        match outcome {
            Ok(_) => step == ArchiveStep::ReadSource(scan, entry),
            Err(reason) => archive_fails(step, io_failure("Failed to write zip entry"@, reason@)),
        },
        forall|bytes: Vec<u8>|
            #[trigger] may_follow(ArchiveStep::WriteBlock(scan, entry, bytes), step),
{
    match outcome {
        Ok(()) => ArchiveStep::ReadSource(scan, entry),
        Err(reason) => ArchiveStep::Fail(io_failed("Failed to write zip entry", &reason)),
    }
}

/// Goes on after the archive was finished.
pub fn archive_finished<P>(scan: ArchiveScan, outcome: Result<(), String>) -> (step: ArchiveStep<P>)
    ensures
        match outcome {
            Ok(_) => step == ArchiveStep::<P>::MeasureArchive(scan),
            Err(reason) => archive_fails(step, io_failure("Failed to finalize zip"@, reason@)),
        },
        may_follow(ArchiveStep::<P>::Finish(scan), step),
{
    match outcome {
        Ok(()) => ArchiveStep::MeasureArchive(scan),
        Err(reason) => ArchiveStep::Fail(io_failed("Failed to finalize zip", &reason)),
    }
}

/// Ends with the length of the archive.
pub fn archive_measured<P>(scan: ArchiveScan, size: Result<u64, String>) -> (step: ArchiveStep<P>)
    ensures
        match size {
            Ok(n) => step == ArchiveStep::<P>::Done(scan, n),
            Err(reason) => archive_fails(step, io_failure("Failed to measure zip size"@, reason@)),
        },
        may_follow(ArchiveStep::<P>::MeasureArchive(scan), step),
{
    match size {
        Ok(n) => ArchiveStep::Done(scan, n),
        Err(reason) => ArchiveStep::Fail(io_failed("Failed to measure zip size", &reason)),
    }
}

/// No name in an archive holds a backslash, and a name is as long as the path it is made of.
pub proof fn law_entry_name_has_no_backslash(rel: Seq<char>)
    ensures
        entry_name_of(rel).len() == rel.len(),
        !entry_name_of(rel).contains('\\'),
{
}

} // verus!
