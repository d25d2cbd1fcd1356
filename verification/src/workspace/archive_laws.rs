//! What of a directory tree gets into an archive, and under which names.
use vstd::prelude::*;
use crate::error::{detailed_error, plain_error, AppErrorCode, AppErrorView};
use crate::number::decimal;
use super::archive::{archive_fails, block_answer, block_step, entry_name_of, entry_step, length_answer, measured_step, over_limit, ArchiveEntry, ArchiveScan, ArchiveStep, EntryKind};
use super::archive_trace::{contents, packed_as, Packed};
use super::limits::law_bytes_are_counted;

verus! {

/// The name of an entry is its path, character for character, with `/` for each backslash; so a
/// path without a backslash is its own name.
pub proof fn law_entry_name_follows_the_path(rel: Seq<char>)
    ensures
        entry_name_of(rel).len() == rel.len(),
        forall|i: int|
            0 <= i < rel.len() && rel[i] != '\\' ==> #[trigger] entry_name_of(rel)[i] == rel[i],
        forall|i: int|
            0 <= i < rel.len() && rel[i] == '\\' ==> #[trigger] entry_name_of(rel)[i] == '/',
        !rel.contains('\\') ==> entry_name_of(rel) == rel,
{
    if !rel.contains('\\') {
        assert forall|i: int| 0 <= i < rel.len() implies #[trigger] entry_name_of(rel)[i]
            == rel[i] by {
            assert(rel.contains(rel[i]));
        }
        assert(entry_name_of(rel) =~= rel);
    }
}

/// The name of a path in two parts is made of the names of both.
pub proof fn law_entry_name_of_two_parts(a: Seq<char>, b: Seq<char>)
    ensures
        entry_name_of(a + b) == entry_name_of(a) + entry_name_of(b),
{
    assert(entry_name_of(a + b) =~= entry_name_of(a) + entry_name_of(b));
}

/// What an entry of the tree leads to: a file is measured, under its own path; a directory is
/// added under its path with a slash behind it, readable by all and open to all; a symlink is
/// counted and passed over; anything else, and the packed directory itself, is passed over.
pub proof fn law_every_entry_has_its_step<P>(
    scan: ArchiveScan,
    entry: ArchiveEntry<P>,
    rel: String,
    step: ArchiveStep<P>,
)
    requires
        entry_step(scan, entry, step),
    ensures
        entry.rel is None ==> step == ArchiveStep::<P>::NextEntry(scan),
        entry.rel == Some(rel) && rel@.len() == 0 ==> step == ArchiveStep::<P>::NextEntry(scan),
        entry.rel == Some(rel) && rel@.len() > 0 ==> match entry.kind {
            EntryKind::File => step matches ArchiveStep::Measure(s, p, name) && s == scan && p
                == entry.entry && name@ == entry_name_of(rel@),
            EntryKind::Directory => step matches ArchiveStep::AddDirectory(s, name, mode) && s
                == scan && mode == 0o755 && name@ == entry_name_of(rel@) + seq!['/'],
            EntryKind::Link => step matches ArchiveStep::NextEntry(s) && s.max_bytes
                == scan.max_bytes && s.total == scan.total && (scan.links_skipped < u64::MAX
                ==> s.links_skipped == scan.links_skipped + 1) && (scan.links_skipped == u64::MAX
                ==> s.links_skipped == u64::MAX),
            EntryKind::Other => step == ArchiveStep::<P>::NextEntry(scan),
        },
{
    law_entry_name_follows_the_path(rel@);
    assert(entry_name_of(rel@).push('/') =~= entry_name_of(rel@) + seq!['/']);
}

/// A file is packed exactly if the bytes of all files so far, with its own, are within the
/// limit; it is then packed under the name that was chosen for it, readable by all. One that is
/// too much is refused, with both numbers.
pub proof fn law_file_within_the_limit_is_packed<P>(
    scan: ArchiveScan,
    entry: P,
    name: String,
    len: u64,
    reason: Seq<char>,
    step: ArchiveStep<P>,
)
    ensures
        measured_step(scan, entry, name, Ok(len), step) && scan.total + len <= scan.max_bytes
            ==> (step matches ArchiveStep::StartFile(s, p, n, mode) && s.total == scan.total + len
            && s.max_bytes == scan.max_bytes && s.links_skipped == scan.links_skipped && p == entry
            && n == name && mode == 0o644),
        measured_step(scan, entry, name, Ok(len), step) && scan.max_bytes < scan.total + len
            <= u64::MAX ==> (step matches ArchiveStep::Fail(e) && e@ == over_limit(
            (scan.total + len) as u64,
            scan.max_bytes,
        )),
        measured_step(scan, entry, name, Ok(len), step) && scan.total + len > u64::MAX
            && scan.max_bytes < u64::MAX ==> (step matches ArchiveStep::Fail(e) && e@ == over_limit(
            u64::MAX,
            scan.max_bytes,
        )),
        measured_step(scan, entry, name, Ok(len), step) && scan.total + len > u64::MAX
            && scan.max_bytes == u64::MAX ==> (step matches ArchiveStep::StartFile(s, p, n, mode)
            && s.total == u64::MAX && p == entry && n == name && mode == 0o644),
        measured_step(scan, entry, name, Err(reason), step) ==> (step matches ArchiveStep::Fail(e)
            && e@ == detailed_error(AppErrorCode::IoError, "Failed to stat entry"@, reason)),
{
    law_bytes_are_counted(scan.total, len, scan.max_bytes);
}

/// Every block of a file that is not empty is added, as it was read; an empty one is the end of
/// the file.
pub proof fn law_every_block_is_added<P>(
    scan: ArchiveScan,
    entry: P,
    bytes: Seq<u8>,
    reason: Seq<char>,
    step: ArchiveStep<P>,
)
    ensures
        block_step(scan, entry, Ok(bytes), step) && bytes.len() > 0
            ==> (step matches ArchiveStep::WriteBlock(s, p, b) && s == scan && p == entry && b@
            == bytes),
        block_step(scan, entry, Ok(bytes), step) && bytes.len() == 0
            ==> (step matches ArchiveStep::NextEntry(s) && s == scan),
        block_step(scan, entry, Err(reason), step) ==> (step matches ArchiveStep::Fail(e)
            && e@ == plain_error(
            AppErrorCode::Os,
            reason,
        )),
{
}

/// What an entry below the packed directory is packed as: a directory under its path with a
/// slash behind it, a file under its path, with the modes of either; nothing else is packed.
pub proof fn law_files_and_directories_are_packed<P>(entry: ArchiveEntry<P>, rel: String)
    ensures
        packed_as(entry) is Some <==> (entry.rel matches Some(r) && r@.len() > 0) && (entry.kind
            == EntryKind::Directory || entry.kind == EntryKind::File),
        entry.rel == Some(rel) && rel@.len() > 0 && entry.kind == EntryKind::File ==> (packed_as(
            entry,
        ) matches Some(Packed::File(p, name, mode)) && p == entry.entry && mode == 0o644
            && name == entry_name_of(rel@)),
        entry.rel == Some(rel) && rel@.len() > 0 && entry.kind == EntryKind::Directory ==> (
        packed_as(entry) matches Some(Packed::Directory(name, mode)) && mode == 0o755 && name
            == entry_name_of(rel@) + seq!['/']),
{
    law_entry_name_follows_the_path(rel@);
    assert(entry_name_of(rel@).push('/') =~= entry_name_of(rel@) + seq!['/']);
}

/// The contents of an archive of two rows of entries are those of the one followed by those of
/// the other; of one entry they are what it is packed as.
pub proof fn law_contents_of_two_rows<P>(
    a: Seq<ArchiveEntry<P>>,
    b: Seq<ArchiveEntry<P>>,
    one: ArchiveEntry<P>,
)
    ensures
        contents(a + b) == contents(a) + contents(b),
        contents(seq![one]) == match packed_as(one) {
            Some(item) => seq![item],
            None => Seq::empty(),
        },
        contents(Seq::<ArchiveEntry<P>>::empty()).len() == 0,
    decreases b.len(),
{
    assert(seq![one].drop_last() =~= Seq::empty());
    assert(seq![one].last() == one);
    assert(contents(seq![one].drop_last()) =~= Seq::<Packed<P>>::empty());
    assert(contents(seq![one]) =~= match packed_as(one) {
        Some(item) => seq![item],
        None => Seq::empty(),
    });
    if b.len() == 0 {
        assert(a + b =~= a);
        assert(contents(a) + contents(b) =~= contents(a));
    } else {
        law_contents_of_two_rows(a, b.drop_last(), one);
        assert((a + b).drop_last() =~= a + b.drop_last());
        assert((a + b).last() == b.last());
        assert(contents(a + b) =~= contents(a) + contents(b));
    }
}

/// A refusal for size tells both numbers.
pub proof fn law_refusal_tells_the_sizes(scanned: u64, limit: u64)
    ensures
        over_limit(scanned, limit) == detailed_error(
            AppErrorCode::InvalidInput,
            "Directory exceeds the maximum download size"@,
            "scanned="@ + decimal(scanned as nat) + " limit="@ + decimal(limit as nat),
        ),
{
}

/// Answers of the host are taken as they are.
pub proof fn law_answers_are_taken_as_they_are(n: u64, bytes: Vec<u8>, reason: String)
    ensures
        length_answer(Ok(n)) == Ok::<u64, Seq<char>>(n),
        length_answer(Err(reason)) == Err::<u64, Seq<char>>(reason@),
        block_answer(Ok(bytes)) == Ok::<Seq<u8>, Seq<char>>(bytes@),
        block_answer(Err(reason)) == Err::<Seq<u8>, Seq<char>>(reason@),
{
}

/// A failure says exactly what it is said to say.
pub proof fn law_failed_archive_says_why<P>(step: ArchiveStep<P>, e: AppErrorView)
    ensures
        archive_fails(step, e) <==> step is Fail && step->Fail_0@ == e,
{
}

} // verus!
