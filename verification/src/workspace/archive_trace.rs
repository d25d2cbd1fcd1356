//! What holds of an archive from its beginning to its end.
//!
//! Every function of `archive` says in its contract that the step it returns may follow the
//! step whose outcome it takes; the laws here hold of every row of such steps.
use vstd::prelude::*;
use super::archive::{archive_fails, block_step, entry_name_of, entry_step, measured_step, over_limit, ArchiveEntry, ArchiveScan, ArchiveStep, EntryKind, DIR_MODE, FILE_MODE};
use super::limits::{counted_all, law_count_keeps_the_limit, sum_of};

verus! {

/// Whether `next` may come directly after `step` in an archive.
pub open spec fn may_follow<P>(step: ArchiveStep<P>, next: ArchiveStep<P>) -> bool {
    match step {
        ArchiveStep::NextEntry(scan) => match next {
            ArchiveStep::NextEntry(s) => s.max_bytes == scan.max_bytes && s.total == scan.total
                && s.links_skipped >= scan.links_skipped,
            ArchiveStep::AddDirectory(s, name, mode) => s == scan && mode == DIR_MODE
                && name@.len() > 1 && name@.last() == '/' && !name@.contains('\\'),
            ArchiveStep::Measure(s, _, name) => s == scan && name@.len() > 0 && !name@.contains(
                '\\',
            ),
            ArchiveStep::Finish(s) => s == scan,
            _ => next is Fail,
        },
        ArchiveStep::AddDirectory(scan, _, _) => next is Fail || next == ArchiveStep::<P>::NextEntry(
            scan,
        ),
        ArchiveStep::Measure(scan, entry, name) => match next {
            ArchiveStep::StartFile(s, p, n, mode) => p == entry && n == name && mode == FILE_MODE
                && s == (ArchiveScan { total: s.total, ..scan }) && scan.total <= s.total
                <= s.max_bytes,
            _ => next is Fail,
        },
        ArchiveStep::StartFile(scan, entry, _, _) => next is Fail || next
            == ArchiveStep::OpenSource(scan, entry),
        ArchiveStep::OpenSource(scan, entry) => next is Fail || next == ArchiveStep::ReadSource(
            scan,
            entry,
        ),
        ArchiveStep::ReadSource(scan, entry) => match next {
            ArchiveStep::NextEntry(s) => s == scan,
            ArchiveStep::WriteBlock(s, p, bytes) => s == scan && p == entry && bytes.len() > 0,
            _ => next is Fail,
        },
        ArchiveStep::WriteBlock(scan, entry, _) => next is Fail || next == ArchiveStep::ReadSource(
            scan,
            entry,
        ),
        ArchiveStep::Finish(scan) => next is Fail || next == ArchiveStep::<P>::MeasureArchive(scan),
        ArchiveStep::MeasureArchive(scan) => match next {
            ArchiveStep::Done(s, _) => s == scan,
            _ => next is Fail,
        },
        ArchiveStep::Done(_, _) => false,
        ArchiveStep::Fail(_) => false,
    }
}

/// Whether the steps are a run of an archive with the given limit, or the beginning of one,
/// where `len_of` says how long an entry is.
pub open spec fn is_run<P>(
    steps: Seq<ArchiveStep<P>>,
    max_bytes: u64,
    len_of: spec_fn(P) -> Result<u64, Seq<char>>,
) -> bool {
    &&& steps.len() > 0
    &&& steps[0] == ArchiveStep::<P>::NextEntry(
        (ArchiveScan { max_bytes, total: 0, links_skipped: 0 }),
    )
    &&& forall|i: int|
        0 <= i < steps.len() - 1 ==> may_follow(#[trigger] steps[i], steps[i + 1]) && (
        steps[i] matches ArchiveStep::Measure(scan, entry, name) ==> measured_step(
            scan,
            entry,
            name,
            len_of(entry),
            steps[i + 1],
        ))
}

/// What is known of the tree at a step.
pub open spec fn scan_of<P>(step: ArchiveStep<P>) -> Option<ArchiveScan> {
    match step {
        ArchiveStep::NextEntry(scan) => Some(scan),
        ArchiveStep::AddDirectory(scan, _, _) => Some(scan),
        ArchiveStep::Measure(scan, _, _) => Some(scan),
        ArchiveStep::StartFile(scan, _, _, _) => Some(scan),
        ArchiveStep::OpenSource(scan, _) => Some(scan),
        ArchiveStep::ReadSource(scan, _) => Some(scan),
        ArchiveStep::WriteBlock(scan, _, _) => Some(scan),
        ArchiveStep::Finish(scan) => Some(scan),
        ArchiveStep::MeasureArchive(scan) => Some(scan),
        ArchiveStep::Done(scan, _) => Some(scan),
        ArchiveStep::Fail(_) => None,
    }
}

/// The lengths of the files that are measured in the steps.
pub open spec fn measured_lens<P>(
    steps: Seq<ArchiveStep<P>>,
    len_of: spec_fn(P) -> Result<u64, Seq<char>>,
) -> Seq<u64>
    decreases steps.len(),
{
    if steps.len() == 0 {
        Seq::empty()
    } else {
        let head = measured_lens(steps.drop_last(), len_of);
        match steps.last() {
            ArchiveStep::Measure(_, entry, _) => match len_of(entry) {
                Ok(n) => head.push(n),
                Err(_) => head,
            },
            _ => head,
        }
    }
}

/// At every step of an archive that has not failed, the bytes so far are the count of the files
/// measured before it, and within the limit that the archive was begun with.
pub proof fn law_every_step_counts_the_files<P>(
    steps: Seq<ArchiveStep<P>>,
    max_bytes: u64,
    len_of: spec_fn(P) -> Result<u64, Seq<char>>,
    at: int,
)
    requires
        is_run(steps, max_bytes, len_of),
        0 <= at < steps.len(),
    ensures
        scan_of(steps[at]) matches Some(scan) ==> scan.max_bytes == max_bytes && scan.total
            <= max_bytes && counted_all(measured_lens(steps.take(at), len_of), max_bytes) == Ok::<
            u64,
            u64,
        >(scan.total),
    decreases at,
{
    let lens = measured_lens(steps.take(at), len_of);
    if at == 0 {
        assert(steps.take(0) =~= Seq::empty());
    } else {
        law_every_step_counts_the_files(steps, max_bytes, len_of, at - 1);
        let before = measured_lens(steps.take(at - 1), len_of);
        assert(steps.take(at).drop_last() =~= steps.take(at - 1));
        assert(steps.take(at).last() == steps[at - 1]);
        assert(may_follow(steps[at - 1], steps[at]));
        if let ArchiveStep::Measure(_, entry, _) = steps[at - 1] {
            if let Ok(n) = len_of(entry) {
                assert(before.push(n).drop_last() =~= before);
            }
        }
    }
}

/// An archive is refused for its size exactly when the files measured so far are too many, at
/// the first file for which that is so, and the refusal says how many bytes these files have.
pub proof fn law_archive_is_refused_exactly_over_the_limit<P>(
    steps: Seq<ArchiveStep<P>>,
    max_bytes: u64,
    len_of: spec_fn(P) -> Result<u64, Seq<char>>,
    at: int,
)
    requires
        is_run(steps, max_bytes, len_of),
        0 <= at < steps.len() - 1,
        steps[at] is Measure,
        len_of(steps[at]->Measure_1) is Ok,
    ensures
        match counted_all(measured_lens(steps.take(at + 1), len_of), max_bytes) {
            Ok(total) => steps[at + 1] matches ArchiveStep::StartFile(scan, entry, _, _)
                && scan.total == total && entry == steps[at]->Measure_1,
            Err(total) => archive_fails(steps[at + 1], over_limit(total, max_bytes)),
        },
{
    law_every_step_counts_the_files(steps, max_bytes, len_of, at);
    let before = measured_lens(steps.take(at), len_of);
    assert(steps.take(at + 1).drop_last() =~= steps.take(at));
    assert(steps.take(at + 1).last() == steps[at]);
    assert(may_follow(steps[at], steps[at + 1]));
    let n = len_of(steps[at]->Measure_1)->Ok_0;
    assert(before.push(n).drop_last() =~= before);
}

/// A finished archive holds exactly as many bytes of files as were counted, and no more than
/// allowed.
pub proof fn law_finished_archive_holds_the_sum_of_its_files<P>(
    steps: Seq<ArchiveStep<P>>,
    max_bytes: u64,
    len_of: spec_fn(P) -> Result<u64, Seq<char>>,
    at: int,
)
    requires
        is_run(steps, max_bytes, len_of),
        0 <= at < steps.len(),
        steps[at] is Done,
    ensures
        ({
            let sum = sum_of(measured_lens(steps.take(at), len_of));
            &&& sum <= max_bytes || max_bytes == u64::MAX
            &&& sum <= u64::MAX ==> steps[at]->Done_0.total == sum
        }),
{
    law_every_step_counts_the_files(steps, max_bytes, len_of, at);
    law_count_keeps_the_limit(measured_lens(steps.take(at), len_of), max_bytes);
}

/// What is read and packed after a file was started is the entry that it was started for, up
/// to the end of that file.
pub proof fn law_packed_bytes_are_of_the_started_entry<P>(
    step: ArchiveStep<P>,
    next: ArchiveStep<P>,
)
    requires
        may_follow(step, next),
        source_of(step) is Some,
    ensures
        source_of(next) == source_of(step) || next is NextEntry || next is Fail,
{
}

/// The entry that a step works on.
pub open spec fn source_of<P>(step: ArchiveStep<P>) -> Option<P> {
    match step {
        ArchiveStep::Measure(_, entry, _) => Some(entry),
        ArchiveStep::StartFile(_, entry, _, _) => Some(entry),
        ArchiveStep::OpenSource(_, entry) => Some(entry),
        ArchiveStep::ReadSource(_, entry) => Some(entry),
        ArchiveStep::WriteBlock(_, entry, _) => Some(entry),
        _ => None,
    }
}

/// Something that is put into an archive.
pub enum Packed<P> {
    /// A directory, by its name and mode.
    Directory(Seq<char>, u32),
    /// A file, by the entry it comes from, its name and its mode.
    File(P, Seq<char>, u32),
}

/// What an entry is packed as. The directory that is packed, what does not lie below it, and
/// what is neither a directory nor a file, symlinks among it, is not packed.
pub open spec fn packed_as<P>(entry: ArchiveEntry<P>) -> Option<Packed<P>> {
    match entry.rel {
        None => None,
        Some(rel) => if rel@.len() == 0 {
            None
        } else {
            match entry.kind {
                EntryKind::Directory => Some(
                    Packed::Directory(entry_name_of(rel@).push('/'), DIR_MODE),
                ),
                EntryKind::File => Some(
                    Packed::File(entry.entry, entry_name_of(rel@), FILE_MODE),
                ),
                EntryKind::Link => None,
                EntryKind::Other => None,
            }
        },
    }
}

/// What a row of entries is packed as, in their order and each once.
pub open spec fn contents<P>(found: Seq<ArchiveEntry<P>>) -> Seq<Packed<P>>
    decreases found.len(),
{
    if found.len() == 0 {
        Seq::empty()
    } else {
        let head = contents(found.drop_last());
        match packed_as(found.last()) {
            Some(item) => head.push(item),
            None => head,
        }
    }
}

/// What a step puts into the archive, or is about to.
pub open spec fn item_at<P>(step: ArchiveStep<P>) -> Option<Packed<P>> {
    match step {
        ArchiveStep::AddDirectory(_, name, mode) => Some(Packed::Directory(name@, mode)),
        ArchiveStep::Measure(_, entry, name) => Some(Packed::File(entry, name@, FILE_MODE)),
        ArchiveStep::StartFile(_, entry, name, mode) => Some(Packed::File(entry, name@, mode)),
        _ => None,
    }
}

/// What the steps put into the archive.
pub open spec fn packed<P>(steps: Seq<ArchiveStep<P>>) -> Seq<Packed<P>>
    decreases steps.len(),
{
    if steps.len() == 0 {
        Seq::empty()
    } else {
        let head = packed(steps.drop_last());
        match steps.last() {
            ArchiveStep::AddDirectory(_, name, mode) => head.push(Packed::Directory(name@, mode)),
            ArchiveStep::StartFile(_, entry, name, mode) => head.push(
                Packed::File(entry, name@, mode),
            ),
            _ => head,
        }
    }
}

/// How often an entry is asked for in the steps.
pub open spec fn entries_asked<P>(steps: Seq<ArchiveStep<P>>) -> nat
    decreases steps.len(),
{
    if steps.len() == 0 {
        0
    } else {
        let head = entries_asked(steps.drop_last());
        if steps.last() is NextEntry {
            head + 1
        } else {
            head
        }
    }
}

/// Whether the steps are a run in which the entries `found` are found in order, and then no
/// more.
pub open spec fn is_found_run<P>(
    steps: Seq<ArchiveStep<P>>,
    max_bytes: u64,
    len_of: spec_fn(P) -> Result<u64, Seq<char>>,
    found: Seq<ArchiveEntry<P>>,
) -> bool {
    &&& is_run(steps, max_bytes, len_of)
    &&& forall|i: int|
        0 <= i < steps.len() - 1 ==> (#[trigger] steps[i] matches ArchiveStep::NextEntry(scan) ==> {
            let k = entries_asked(steps.take(i));
            if k < found.len() {
                entry_step(scan, found[k as int], steps[i + 1])
            } else {
                steps[i + 1] == ArchiveStep::<P>::Finish(scan)
            }
        })
}

/// Whether all entries have been found at a step.
pub open spec fn has_found_all<P>(step: ArchiveStep<P>) -> bool {
    step is Finish || step is MeasureArchive || step is Done
}

/// The items, with what the step is about to put into the archive.
pub open spec fn with_item<P>(items: Seq<Packed<P>>, step: ArchiveStep<P>) -> Seq<Packed<P>> {
    match item_at(step) {
        Some(item) => items.push(item),
        None => items,
    }
}

proof fn lemma_packed_so_far<P>(
    steps: Seq<ArchiveStep<P>>,
    max_bytes: u64,
    len_of: spec_fn(P) -> Result<u64, Seq<char>>,
    found: Seq<ArchiveEntry<P>>,
    at: int,
)
    requires
        is_found_run(steps, max_bytes, len_of, found),
        0 <= at < steps.len(),
    ensures
        !(steps[at] is Fail) && !has_found_all(steps[at]) ==> entries_asked(steps.take(at))
            <= found.len() && with_item(packed(steps.take(at)), steps[at]) == contents(
            found.take(entries_asked(steps.take(at)) as int),
        ),
        has_found_all(steps[at]) ==> packed(steps.take(at)) == contents(found),
    decreases at,
{
    if at == 0 {
        assert(steps.take(0) =~= Seq::empty());
        assert(found.take(0) =~= Seq::empty());
    } else {
        lemma_packed_so_far(steps, max_bytes, len_of, found, at - 1);
        assert(may_follow(steps[at - 1], steps[at]));
        assert(steps.take(at).drop_last() =~= steps.take(at - 1));
        assert(steps.take(at).last() == steps[at - 1]);
        let k = entries_asked(steps.take(at - 1)) as int;
        if steps[at - 1] is NextEntry {
            if k < found.len() {
                assert(found.take(k + 1).drop_last() =~= found.take(k));
                assert(found.take(k + 1).last() == found[k]);
            } else {
                assert(found.take(k) =~= found);
            }
        }
    }
}

/// A finished archive holds exactly the directories and files that were found, each once and
/// in order, under their names and with their modes.
pub proof fn law_finished_archive_holds_what_was_found<P>(
    steps: Seq<ArchiveStep<P>>,
    max_bytes: u64,
    len_of: spec_fn(P) -> Result<u64, Seq<char>>,
    found: Seq<ArchiveEntry<P>>,
    at: int,
)
    requires
        is_found_run(steps, max_bytes, len_of, found),
        0 <= at < steps.len(),
        steps[at] is Done,
    ensures
        packed(steps.take(at)) == contents(found),
{
    lemma_packed_so_far(steps, max_bytes, len_of, found, at);
}

/// Whatever is packed is a directory or a file that was found, below the directory that is
/// packed. No symlink is among it.
pub proof fn law_no_symlink_is_packed<P>(found: Seq<ArchiveEntry<P>>, j: int)
    requires
        0 <= j < contents(found).len(),
    ensures
        exists|i: int|
            0 <= i < found.len() && packed_as(#[trigger] found[i]) == Some(contents(found)[j])
                && found[i].kind != EntryKind::Link && found[i].kind != EntryKind::Other,
    decreases found.len(),
{
    let head = found.drop_last();
    if j < contents(head).len() {
        law_no_symlink_is_packed(head, j);
        let i = choose|i: int|
            0 <= i < head.len() && packed_as(#[trigger] head[i]) == Some(contents(head)[j])
                && head[i].kind != EntryKind::Link && head[i].kind != EntryKind::Other;
        assert(found[i] == head[i]);
        assert(contents(found)[j] == contents(head)[j]);
    } else {
        assert(packed_as(found[found.len() - 1]) == Some(contents(found)[j]));
    }
}

/// Every directory and file that was found below the directory that is packed is packed.
pub proof fn law_every_found_entry_is_packed<P>(found: Seq<ArchiveEntry<P>>, i: int)
    requires
        0 <= i < found.len(),
        packed_as(found[i]) is Some,
    ensures
        contents(found).contains(packed_as(found[i])->0),
    decreases found.len(),
{
    let head = found.drop_last();
    let all = contents(found);
    let item = packed_as(found[i])->0;
    if i < head.len() {
        assert(head[i] == found[i]);
        law_every_found_entry_is_packed(head, i);
        let j = choose|j: int| 0 <= j < contents(head).len() && contents(head)[j] == item;
        assert(all[j] == item);
    } else {
        assert(all[all.len() - 1] == item);
    }
}

/// How often a block is asked for in the steps, since the last file was started.
pub open spec fn blocks_asked<P>(steps: Seq<ArchiveStep<P>>) -> nat
    decreases steps.len(),
{
    if steps.len() == 0 || steps.last() is StartFile {
        0
    } else {
        let head = blocks_asked(steps.drop_last());
        if steps.last() is ReadSource {
            head + 1
        } else {
            head
        }
    }
}

/// The blocks that are added in the steps, since the last file was started.
pub open spec fn added_blocks<P>(steps: Seq<ArchiveStep<P>>) -> Seq<Seq<u8>>
    decreases steps.len(),
{
    if steps.len() == 0 || steps.last() is StartFile {
        Seq::empty()
    } else {
        let head = added_blocks(steps.drop_last());
        match steps.last() {
            ArchiveStep::WriteBlock(_, _, bytes) => head.push(bytes@),
            _ => head,
        }
    }
}

/// Whether the steps are a run in which `block_of` gives, in order, the blocks of an entry.
pub open spec fn is_read_run<P>(
    steps: Seq<ArchiveStep<P>>,
    max_bytes: u64,
    len_of: spec_fn(P) -> Result<u64, Seq<char>>,
    block_of: spec_fn(P, nat) -> Result<Seq<u8>, Seq<char>>,
) -> bool {
    &&& is_run(steps, max_bytes, len_of)
    &&& forall|i: int|
        0 <= i < steps.len() - 1 ==> (#[trigger] steps[i] matches ArchiveStep::ReadSource(
            scan,
            entry,
        ) ==> block_step(scan, entry, block_of(entry, blocks_asked(steps.take(i))), steps[i + 1]))
}

/// Whether the first blocks of an entry are these.
pub open spec fn begins_with<P>(
    block_of: spec_fn(P, nat) -> Result<Seq<u8>, Seq<char>>,
    entry: P,
    blocks: Seq<Seq<u8>>,
) -> bool {
    forall|k: nat|
        k < blocks.len() ==> #[trigger] block_of(entry, k) == Ok::<Seq<u8>, Seq<char>>(
            blocks[k as int],
        )
}

/// What is added to the archive for a file are the blocks that are read from it, in order and
/// each once, up to the first empty one.
pub proof fn law_added_blocks_are_those_read<P>(
    steps: Seq<ArchiveStep<P>>,
    max_bytes: u64,
    len_of: spec_fn(P) -> Result<u64, Seq<char>>,
    block_of: spec_fn(P, nat) -> Result<Seq<u8>, Seq<char>>,
    at: int,
)
    requires
        is_read_run(steps, max_bytes, len_of, block_of),
        0 <= at < steps.len(),
    ensures
        ({
            let asked = blocks_asked(steps.take(at));
            let added = added_blocks(steps.take(at));
            match steps[at] {
                ArchiveStep::OpenSource(_, entry) => asked == 0 && added.len() == 0,
                ArchiveStep::ReadSource(_, entry) => asked == added.len() && begins_with(
                    block_of,
                    entry,
                    added,
                ),
                ArchiveStep::WriteBlock(_, entry, bytes) => asked == added.len() + 1
                    && begins_with(block_of, entry, added.push(bytes@)),
                ArchiveStep::NextEntry(_) => at > 0 && steps[at - 1] is ReadSource ==> {
                    let entry = steps[at - 1]->ReadSource_1;
                    &&& begins_with(block_of, entry, added)
                    &&& block_of(entry, added.len()) == Ok::<Seq<u8>, Seq<char>>(Seq::empty())
                },
                _ => true,
            }
        }),
    decreases at,
{
    if at > 0 {
        law_added_blocks_are_those_read(steps, max_bytes, len_of, block_of, at - 1);
        assert(may_follow(steps[at - 1], steps[at]));
        assert(steps.take(at).drop_last() =~= steps.take(at - 1));
        assert(steps.take(at).last() == steps[at - 1]);
        if let ArchiveStep::ReadSource(scan, entry) = steps[at - 1] {
            let added = added_blocks(steps.take(at - 1));
            let block = block_of(entry, added.len());
            assert(block_step(scan, entry, block, steps[at]));
            if let ArchiveStep::WriteBlock(_, _, bytes) = steps[at] {
                let more = added.push(bytes@);
                assert forall|k: nat| k < more.len() implies #[trigger] block_of(entry, k) == Ok::<
                    Seq<u8>,
                    Seq<char>,
                >(more[k as int]) by {
                    if k < added.len() {
                        assert(more[k as int] == added[k as int]);
                    }
                }
            }
            if steps[at] is NextEntry {
                assert(block->Ok_0 =~= Seq::empty());
            }
        }
    }
}

} // verus!
