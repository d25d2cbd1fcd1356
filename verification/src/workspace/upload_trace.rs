//! What holds of an upload from its beginning to its end.
//!
//! Every function of `upload` says in its contract that the step it returns may follow the
//! step whose outcome it takes. A run of an upload is therefore a row of steps, each of which
//! may follow the one before it, and the laws here hold of every such row.
use vstd::prelude::*;
use crate::error::AppErrorView;
use crate::outside::is_token;
use crate::text::{join, opt_text};
use super::chain::{chain_after, chain_start, law_steps_reach_the_verdict, place_of, step_verdict, ChainView, ProbeView};
use super::confine::inside_verdict;
use super::limits::{counted, counted_all, law_count_keeps_the_limit, sum_of};
use super::path::{components_of, entry_in, EntryView, PathReading, ReadingView};
use super::upload::{chunk_step, dir_reading, follows_walk, given, law_destination_lies_below_root, law_staging_file_is_beside_destination, parent_step, places, staging_name_of, starts_walk, stored, verified_step, wanted_names, with_text};
use super::upload_path::law_upload_segments_are_clean;
use super::upload_step::{place_ok, result_ok, step_ok, CommitMethod, FileRequest, Placement, Staged, TextField, UploadForm, UploadStep, UploadWorkspaceFileResult};

verus! {

/// Whether the step is the first one of an upload of at most `max_bytes` bytes.
pub open spec fn begins(step: UploadStep, max_bytes: u64) -> bool {
    &&& step matches UploadStep::NextField(form)
    &&& form.root_path is None
    &&& form.target_path is None
    &&& form.relative_path is None
    &&& form.result is None
    &&& form.max_bytes == max_bytes
}

/// Whether `place` is the destination of the request.
pub open spec fn settles(place: Placement, req: FileRequest) -> bool {
    &&& wanted_names(req) == Ok::<Seq<Seq<char>>, AppErrorView>(place.target@.names)
    &&& places(place, req, place.canonical_root, place.target@.names)
}

/// Whether `staged` is a new staging file for the destination.
pub open spec fn stages(staged: Staged, place: Placement) -> bool {
    &&& staged.place == place
    &&& staged.written == 0
    &&& exists|token: Seq<char>| #[trigger]
        is_token(token) && staged.staging@ == entry_in(place.parent@, staging_name_of(token))
}

/// The steps that may follow the question for the next field.
pub open spec fn field_may_lead_to(form: UploadForm, next: UploadStep) -> bool {
    match next {
        UploadStep::ReadText(f, _) => f == form,
        UploadStep::Drain(f) => f == form,
        UploadStep::CheckRoot(req) => req.form == form && form.result is None && form.root_path
            == Some(req.root),
        UploadStep::Done(result) => form.result == Some(result),
        UploadStep::Fail(_) => true,
        _ => false,
    }
}

/// Whether `next` may come directly after `step` in an upload.
pub open spec fn may_follow(step: UploadStep, next: UploadStep) -> bool {
    match step {
        UploadStep::NextField(form) => field_may_lead_to(form, next),
        UploadStep::ReadText(form, field) => match next {
            UploadStep::NextField(g) => exists|text: String| g == #[trigger] with_text(form, field, text),
            _ => next is Fail,
        },
        UploadStep::Drain(form) => next == UploadStep::NextField(form),
        UploadStep::CheckRoot(req) => match next {
            UploadStep::CanonicalizeRoot(r, _) => r == req,
            _ => next is Fail,
        },
        UploadStep::CanonicalizeRoot(req, _) => match next {
            UploadStep::ProbeLink(place, _) => settles(place, req),
            UploadStep::CreateDirs(place) => settles(place, req),
            _ => next is Fail,
        },
        UploadStep::ProbeLink(place, _) => match next {
            UploadStep::ProbeLink(p, _) => p == place,
            UploadStep::CreateDirs(p) => p == place,
            _ => next is Fail,
        },
        UploadStep::CreateDirs(place) => next is Fail || next == UploadStep::CanonicalizeParent(
            place,
        ),
        UploadStep::CanonicalizeParent(place) => next is Fail || next == UploadStep::InspectTarget(
            place,
        ),
        UploadStep::InspectTarget(place) => match next {
            UploadStep::OpenStaging(staged) => stages(staged, place),
            _ => next is Fail,
        },
        UploadStep::OpenStaging(staged) => next is Fail || next == UploadStep::ReadChunk(staged),
        UploadStep::ReadChunk(staged) => match next {
            UploadStep::WriteChunk(s, total, bytes) => s == staged && counted(
                staged.written,
                bytes.len() as u64,
                staged.place.form.max_bytes,
            ) == Ok::<u64, u64>(total),
            UploadStep::Flush(s) => s == staged,
            UploadStep::DiscardStaging(s, _) => s == staged,
            _ => false,
        },
        UploadStep::WriteChunk(staged, total, _) => match next {
            UploadStep::ReadChunk(s) => s == (Staged { written: total, ..staged }),
            UploadStep::DiscardStaging(s, _) => s == staged,
            _ => false,
        },
        UploadStep::Flush(staged) => match next {
            UploadStep::HardLink(s) => s == staged,
            UploadStep::DiscardStaging(s, _) => s == staged,
            _ => false,
        },
        UploadStep::HardLink(staged) => match next {
            UploadStep::RemoveStaging(s) => s == staged,
            UploadStep::Rename(s, _) => s == staged,
            UploadStep::DiscardStaging(s, _) => s == staged,
            _ => false,
        },
        UploadStep::Rename(staged, _) => match next {
            UploadStep::VerifyTarget(s, method) => s == staged && method == CommitMethod::Rename,
            UploadStep::DiscardStaging(s, _) => s == staged,
            _ => false,
        },
        UploadStep::RemoveStaging(staged) => next == UploadStep::VerifyTarget(
            staged,
            CommitMethod::HardLink,
        ),
        UploadStep::VerifyTarget(staged, method) => match next {
            UploadStep::CheckFinal(s, m) => s == staged && m == method,
            UploadStep::RemoveFinal(s, _) => s == staged,
            _ => false,
        },
        UploadStep::CheckFinal(staged, _) => next is Fail || stored(next, staged),
        UploadStep::DiscardStaging(_, e) => next == UploadStep::Fail(e),
        UploadStep::RemoveFinal(_, e) => next == UploadStep::Fail(e),
        UploadStep::Done(_) => false,
        UploadStep::Fail(_) => false,
    }
}

/// Whether the steps are a run of an upload of at most `max_bytes` bytes, or the beginning of
/// one.
pub open spec fn is_run(steps: Seq<UploadStep>, max_bytes: u64) -> bool {
    &&& steps.len() > 0
    &&& begins(steps[0], max_bytes)
    &&& forall|i: int| 0 <= i < steps.len() - 1 ==> may_follow(#[trigger] steps[i], steps[i + 1])
}

/// The limit that a step carries along.
pub open spec fn limit_of(step: UploadStep) -> Option<u64> {
    match step {
        UploadStep::NextField(form) => Some(form.max_bytes),
        UploadStep::ReadText(form, _) => Some(form.max_bytes),
        UploadStep::Drain(form) => Some(form.max_bytes),
        UploadStep::CheckRoot(req) => Some(req.form.max_bytes),
        UploadStep::CanonicalizeRoot(req, _) => Some(req.form.max_bytes),
        UploadStep::ProbeLink(place, _) => Some(place.form.max_bytes),
        UploadStep::CreateDirs(place) => Some(place.form.max_bytes),
        UploadStep::CanonicalizeParent(place) => Some(place.form.max_bytes),
        UploadStep::InspectTarget(place) => Some(place.form.max_bytes),
        UploadStep::OpenStaging(staged) => Some(staged.place.form.max_bytes),
        UploadStep::ReadChunk(staged) => Some(staged.place.form.max_bytes),
        UploadStep::WriteChunk(staged, _, _) => Some(staged.place.form.max_bytes),
        UploadStep::Flush(staged) => Some(staged.place.form.max_bytes),
        UploadStep::HardLink(staged) => Some(staged.place.form.max_bytes),
        UploadStep::Rename(staged, _) => Some(staged.place.form.max_bytes),
        UploadStep::RemoveStaging(staged) => Some(staged.place.form.max_bytes),
        UploadStep::VerifyTarget(staged, _) => Some(staged.place.form.max_bytes),
        UploadStep::CheckFinal(staged, _) => Some(staged.place.form.max_bytes),
        UploadStep::DiscardStaging(staged, _) => Some(staged.place.form.max_bytes),
        UploadStep::RemoveFinal(staged, _) => Some(staged.place.form.max_bytes),
        UploadStep::Done(_) => None,
        UploadStep::Fail(_) => None,
    }
}

/// The destination of a request is a good one.
proof fn lemma_settled_place_is_ok(place: Placement, req: FileRequest)
    requires
        settles(place, req),
        req.form.result is None,
        req.form.root_path == Some(req.root),
    ensures
        place_ok(place),
{
    law_upload_segments_are_clean(
        given(req.form.target_path),
        given(req.form.relative_path),
        req.file_name@,
    );
}

/// A step that may follow a good one is good, and keeps to the same limit.
pub proof fn law_next_step_is_ok(step: UploadStep, next: UploadStep)
    requires
        step_ok(step),
        may_follow(step, next),
    ensures
        step_ok(next),
        limit_of(step) is Some,
        limit_of(next) is None || limit_of(next) == limit_of(step),
        next matches UploadStep::Done(result) ==> result_ok(result, limit_of(step)->0),
{
    match step {
        UploadStep::CanonicalizeRoot(req, _) => {
            match next {
                UploadStep::ProbeLink(place, _) => lemma_settled_place_is_ok(place, req),
                UploadStep::CreateDirs(place) => lemma_settled_place_is_ok(place, req),
                _ => {},
            }
        },
        UploadStep::InspectTarget(place) => {
            if let UploadStep::OpenStaging(staged) = next {
                let token = choose|token: Seq<char>| #[trigger]
                    is_token(token) && staged.staging@ == entry_in(place.parent@, staging_name_of(token));
                law_staging_file_is_beside_destination(place.target@, token);
            }
        },
        UploadStep::CheckFinal(staged, _) => {
            let names = staged.place.target@.names;
            law_destination_lies_below_root(
                Seq::empty(),
                (ReadingView { is_absolute: false, components: Seq::empty() }),
                names,
            );
        },
        _ => {},
    }
}

/// Whatever comes of the single steps, every step of an upload is a good one: what is written
/// goes to a staging file beside a destination below the workspace folder that the client
/// named, and never more bytes than allowed. What the client is told at the end is true of the
/// destination.
pub proof fn law_every_step_of_an_upload_is_ok(steps: Seq<UploadStep>, max_bytes: u64)
    requires
        is_run(steps, max_bytes),
    ensures
        forall|i: int| 0 <= i < steps.len() ==> step_ok(#[trigger] steps[i]),
        forall|i: int|
            0 <= i < steps.len() ==> (limit_of(#[trigger] steps[i]) matches Some(m) ==> m
                == max_bytes),
        forall|i: int|
            0 <= i < steps.len() ==> (#[trigger] steps[i] matches UploadStep::Done(result)
                ==> result_ok(result, max_bytes)),
    decreases steps.len(),
{
    if steps.len() > 1 {
        let head = steps.drop_last();
        let k = head.len() - 1;
        assert forall|i: int| 0 <= i < head.len() - 1 implies may_follow(
            #[trigger] head[i],
            head[i + 1],
        ) by {
            assert(may_follow(steps[i], steps[i + 1]));
        }
        law_every_step_of_an_upload_is_ok(head, max_bytes);
        assert(step_ok(head[k]) && head[k] == steps[k]);
        assert(may_follow(steps[k], steps[k + 1]));
        law_next_step_is_ok(steps[k], steps[k + 1]);
        assert(limit_of(head[k]) matches Some(m) ==> m == max_bytes);
        assert forall|i: int| 0 <= i < steps.len() implies step_ok(#[trigger] steps[i]) && (
        limit_of(steps[i]) matches Some(m) ==> m == max_bytes) && (steps[i] matches UploadStep::Done(
            result,
        ) ==> result_ok(result, max_bytes)) by {
            if i < head.len() {
                assert(head[i] == steps[i]);
            }
        }
    }
}

/// The staging file that lies on disk at a step, if one does.
pub open spec fn staging_at(step: UploadStep) -> Option<EntryView> {
    match step {
        UploadStep::ReadChunk(s) => Some(s.staging@),
        UploadStep::WriteChunk(s, _, _) => Some(s.staging@),
        UploadStep::Flush(s) => Some(s.staging@),
        UploadStep::HardLink(s) => Some(s.staging@),
        UploadStep::Rename(s, _) => Some(s.staging@),
        UploadStep::RemoveStaging(s) => Some(s.staging@),
        UploadStep::DiscardStaging(s, _) => Some(s.staging@),
        _ => None,
    }
}

/// Whether the staging file at `path` is taken away between two steps: it is removed, or a
/// rename has moved it to the destination.
pub open spec fn takes_away(step: UploadStep, next: UploadStep, path: EntryView) -> bool {
    &&& staging_at(step) == Some(path)
    &&& step is RemoveStaging || step is DiscardStaging || (step is Rename && next is VerifyTarget)
}

/// A staging file lies on disk until a step takes it away.
pub proof fn law_staging_file_stays_until_taken_away(step: UploadStep, next: UploadStep)
    requires
        may_follow(step, next),
        staging_at(step) is Some,
    ensures
        takes_away(step, next, staging_at(step)->0) || staging_at(next) == staging_at(step),
{
}

/// An upload leaves no staging file behind: one that lies on disk at some step has been taken
/// away by the time the upload is done or has failed.
pub proof fn law_no_staging_file_is_left_behind(steps: Seq<UploadStep>, max_bytes: u64, at: int)
    requires
        is_run(steps, max_bytes),
        steps.last() is Done || steps.last() is Fail,
        0 <= at < steps.len(),
        staging_at(steps[at]) is Some,
    ensures
        exists|j: int|
            at <= j < steps.len() - 1 && #[trigger] takes_away(
                steps[j],
                steps[j + 1],
                staging_at(steps[at])->0,
            ),
    decreases steps.len() - at,
{
    let path = staging_at(steps[at])->0;
    assert(at < steps.len() - 1);
    assert(may_follow(steps[at], steps[at + 1]));
    law_staging_file_stays_until_taken_away(steps[at], steps[at + 1]);
    if !takes_away(steps[at], steps[at + 1], path) {
        law_no_staging_file_is_left_behind(steps, max_bytes, at + 1);
        let j = choose|j: int|
            at + 1 <= j < steps.len() - 1 && #[trigger] takes_away(steps[j], steps[j + 1], path);
        assert(takes_away(steps[j], steps[j + 1], path));
    }
}

/// An upload ends only with a result or a failure, and nothing comes after either.
pub proof fn law_an_ended_upload_stays_ended(step: UploadStep, next: UploadStep)
    requires
        step is Done || step is Fail,
    ensures
        !may_follow(step, next),
{
}

/// Whether the steps are the walk from the root toward the directory of the destination,
/// or the beginning of it, where `fs` gives the answers: `root_canonicalized` makes the first
/// one, and `link_probed` each of the others.
pub open spec fn is_walk(
    steps: Seq<UploadStep>,
    req: FileRequest,
    root: ReadingView,
    canonical: PathReading,
    names: Seq<Seq<char>>,
    fs: spec_fn(EntryView) -> ProbeView,
) -> bool {
    &&& steps.len() > 0
    &&& starts_walk(steps[0], req, root, canonical, names)
    &&& forall|i: int|
        0 <= i < steps.len() - 1 ==> (#[trigger] steps[i] matches UploadStep::ProbeLink(place, walk)
            && follows_walk(
            steps[i + 1],
            place,
            chain_after(walk.current@, components_of(walk.rest@), fs(walk.current@)),
        ))
}

/// How the walk ends from a step on.
pub open spec fn walk_verdict(step: UploadStep, fs: spec_fn(EntryView) -> ProbeView) -> Result<
    (),
    AppErrorView,
> {
    match step {
        UploadStep::ProbeLink(_, walk) => step_verdict(
            ChainView::Probe(walk.current@, components_of(walk.rest@)),
            fs,
        ),
        UploadStep::Fail(e) => Err(e@),
        _ => Ok(()),
    }
}

/// Directories are created only if the whole way to them is clear, and the upload fails on
/// the way only with the refusal that the way deserves.
pub proof fn law_directories_are_created_on_a_clear_way(
    steps: Seq<UploadStep>,
    req: FileRequest,
    root: ReadingView,
    canonical: PathReading,
    names: Seq<Seq<char>>,
    fs: spec_fn(EntryView) -> ProbeView,
    at: int,
)
    requires
        is_walk(steps, req, root, canonical, names, fs),
        0 <= at < steps.len(),
    ensures
        ({
            let verdict = step_verdict(chain_start(req.root@, root, dir_reading(root, names)), fs);
            &&& steps[at] is ProbeLink || steps[at] is CreateDirs || steps[at] is Fail
            &&& walk_verdict(steps[at], fs) == verdict
            &&& steps[at] is CreateDirs ==> verdict is Ok
            &&& steps[at] matches UploadStep::Fail(e) ==> verdict == Err::<(), AppErrorView>(e@)
        }),
    decreases at,
{
    if at > 0 {
        law_directories_are_created_on_a_clear_way(
            steps,
            req,
            root,
            canonical,
            names,
            fs,
            at - 1,
        );
        assert(steps[at - 1] is ProbeLink);
        if let UploadStep::ProbeLink(_, walk) = steps[at - 1] {
            let below = components_of(walk.rest@);
            law_steps_reach_the_verdict(walk.current@, below, fs);
            assert(step_verdict(chain_after(walk.current@, below, fs(walk.current@)), fs)
                == step_verdict(ChainView::Probe(walk.current@, below), fs));
        }
    }
}

/// The lengths of the chunks that are written in the steps.
pub open spec fn chunk_lens(steps: Seq<UploadStep>) -> Seq<u64>
    decreases steps.len(),
{
    if steps.len() == 0 {
        Seq::empty()
    } else {
        let head = chunk_lens(steps.drop_last());
        match steps.last() {
            UploadStep::WriteChunk(_, _, bytes) => head.push(bytes.len() as u64),
            _ => head,
        }
    }
}

/// Whether what a step says of the bytes so far is the count of chunks of the given lengths.
pub open spec fn counts(step: UploadStep, lens: Seq<u64>, max_bytes: u64) -> bool {
    let count = counted_all(lens, max_bytes);
    match step {
        UploadStep::NextField(form) => form_counts(form, lens, max_bytes),
        UploadStep::ReadText(form, _) => form_counts(form, lens, max_bytes),
        UploadStep::Drain(form) => form_counts(form, lens, max_bytes),
        UploadStep::CheckRoot(_) => lens.len() == 0,
        UploadStep::CanonicalizeRoot(_, _) => lens.len() == 0,
        UploadStep::ProbeLink(_, _) => lens.len() == 0,
        UploadStep::CreateDirs(_) => lens.len() == 0,
        UploadStep::CanonicalizeParent(_) => lens.len() == 0,
        UploadStep::InspectTarget(_) => lens.len() == 0,
        UploadStep::OpenStaging(s) => count == Ok::<u64, u64>(s.written),
        UploadStep::ReadChunk(s) => count == Ok::<u64, u64>(s.written),
        UploadStep::WriteChunk(s, total, bytes) => count == Ok::<u64, u64>(s.written) && counted_all(
            lens.push(bytes.len() as u64),
            max_bytes,
        ) == Ok::<u64, u64>(total),
        UploadStep::Flush(s) => count == Ok::<u64, u64>(s.written),
        UploadStep::HardLink(s) => count == Ok::<u64, u64>(s.written),
        UploadStep::Rename(s, _) => count == Ok::<u64, u64>(s.written),
        UploadStep::RemoveStaging(s) => count == Ok::<u64, u64>(s.written),
        UploadStep::VerifyTarget(s, _) => count == Ok::<u64, u64>(s.written),
        UploadStep::CheckFinal(s, _) => count == Ok::<u64, u64>(s.written),
        UploadStep::Done(result) => count == Ok::<u64, u64>(result.size),
        UploadStep::DiscardStaging(_, _) => true,
        UploadStep::RemoveFinal(_, _) => true,
        UploadStep::Fail(_) => true,
    }
}

/// Whether a form says what chunks of the given lengths come to, or has no file yet.
pub open spec fn form_counts(form: UploadForm, lens: Seq<u64>, max_bytes: u64) -> bool {
    match form.result {
        Some(result) => counted_all(lens, max_bytes) == Ok::<u64, u64>(result.size),
        None => lens.len() == 0,
    }
}

/// At every step of an upload the bytes so far are those of the chunks written before it.
pub proof fn law_every_step_counts_the_chunks(steps: Seq<UploadStep>, max_bytes: u64, at: int)
    requires
        is_run(steps, max_bytes),
        0 <= at < steps.len(),
    ensures
        counts(steps[at], chunk_lens(steps.take(at)), max_bytes),
    decreases at,
{
    law_every_step_of_an_upload_is_ok(steps, max_bytes);
    let lens = chunk_lens(steps.take(at));
    if at == 0 {
        assert(steps.take(0) =~= Seq::empty());
    } else {
        law_every_step_counts_the_chunks(steps, max_bytes, at - 1);
        let before = chunk_lens(steps.take(at - 1));
        assert(steps.take(at).drop_last() =~= steps.take(at - 1));
        assert(steps.take(at).last() == steps[at - 1]);
        assert(may_follow(steps[at - 1], steps[at]));
        assert(step_ok(steps[at - 1]));
        assert(limit_of(steps[at - 1]) == Some(max_bytes)) by {
            law_next_step_is_ok(steps[at - 1], steps[at]);
        }
        match steps[at] {
            UploadStep::WriteChunk(_, _, bytes) => {
                let len = bytes.len() as u64;
                assert(lens.push(len).drop_last() =~= lens);
            },
            _ => {},
        }
        if before.len() == 0 {
            assert(before =~= Seq::empty());
        }
    }
}

/// The size that a client is told is the number of bytes in the chunks that were written. Only
/// where that number is larger than any that can be told, and the limit is the largest there
/// is, is it told as that.
pub proof fn law_reported_size_is_the_sum_of_the_chunks(
    steps: Seq<UploadStep>,
    max_bytes: u64,
    at: int,
    result: UploadWorkspaceFileResult,
)
    requires
        is_run(steps, max_bytes),
        0 <= at < steps.len(),
        steps[at] == UploadStep::Done(result),
    ensures
        sum_of(chunk_lens(steps.take(at))) <= u64::MAX ==> result.size == sum_of(
            chunk_lens(steps.take(at)),
        ),
        sum_of(chunk_lens(steps.take(at))) <= max_bytes || max_bytes == u64::MAX,
{
    law_every_step_counts_the_chunks(steps, max_bytes, at);
    law_count_keeps_the_limit(chunk_lens(steps.take(at)), max_bytes);
}

/// Whether the destination that a step settles, if it does, has the workspace folder resolved
/// like this.
pub open spec fn root_resolved_as(
    next: UploadStep,
    root: Result<ReadingView, Seq<char>>,
) -> bool {
    match next {
        UploadStep::ProbeLink(place, _) => root == Ok::<ReadingView, Seq<char>>(place.canonical_root@),
        UploadStep::CreateDirs(place) => root == Ok::<ReadingView, Seq<char>>(place.canonical_root@),
        _ => true,
    }
}

/// Whether the steps are a run in which paths are resolved as `before` says until the file is
/// in place, and as `after` says from there on.
pub open spec fn is_resolved_run(
    steps: Seq<UploadStep>,
    max_bytes: u64,
    before: spec_fn(EntryView) -> Result<ReadingView, Seq<char>>,
    after: spec_fn(EntryView) -> Result<ReadingView, Seq<char>>,
) -> bool {
    &&& is_run(steps, max_bytes)
    &&& forall|i: int|
        0 <= i < steps.len() - 1 ==> match #[trigger] steps[i] {
            UploadStep::CanonicalizeRoot(req, _) => root_resolved_as(
                steps[i + 1],
                before(place_of(req.root@)),
            ),
            UploadStep::CanonicalizeParent(place) => parent_step(
                place,
                before(place.parent@),
                steps[i + 1],
            ),
            UploadStep::VerifyTarget(staged, method) => verified_step(
                staged,
                method,
                after(place_of(staged.place.root@)),
                after(staged.place.target@),
                steps[i + 1],
            ),
            _ => true,
        }
}

/// The destination at a step that comes after its directory was resolved.
pub open spec fn entered(step: UploadStep) -> Option<Placement> {
    match step {
        UploadStep::InspectTarget(place) => Some(place),
        UploadStep::OpenStaging(s) => Some(s.place),
        UploadStep::ReadChunk(s) => Some(s.place),
        UploadStep::WriteChunk(s, _, _) => Some(s.place),
        UploadStep::Flush(s) => Some(s.place),
        UploadStep::HardLink(s) => Some(s.place),
        UploadStep::Rename(s, _) => Some(s.place),
        UploadStep::RemoveStaging(s) => Some(s.place),
        UploadStep::VerifyTarget(s, _) => Some(s.place),
        UploadStep::CheckFinal(s, _) => Some(s.place),
        UploadStep::DiscardStaging(s, _) => Some(s.place),
        UploadStep::RemoveFinal(s, _) => Some(s.place),
        _ => None,
    }
}

/// The destination at a step that comes before its directory was resolved.
pub open spec fn approached(step: UploadStep) -> Option<Placement> {
    match step {
        UploadStep::ProbeLink(place, _) => Some(place),
        UploadStep::CreateDirs(place) => Some(place),
        UploadStep::CanonicalizeParent(place) => Some(place),
        _ => None,
    }
}

/// Nothing is written outside the workspace: the directory of the destination lies in the
/// workspace folder once symlinks are resolved, at every step from the look at the destination
/// on. And no file is reported as stored unless it lies there, once it is in place.
pub proof fn law_nothing_is_written_outside_the_workspace(
    steps: Seq<UploadStep>,
    max_bytes: u64,
    before: spec_fn(EntryView) -> Result<ReadingView, Seq<char>>,
    after: spec_fn(EntryView) -> Result<ReadingView, Seq<char>>,
    at: int,
)
    requires
        is_resolved_run(steps, max_bytes, before, after),
        0 <= at < steps.len(),
    ensures
        entered(steps[at]) matches Some(place) ==> inside_verdict(
            before(place_of(place.root@)),
            before(place.parent@),
        ) is Ok,
        approached(steps[at]) matches Some(place) ==> before(place_of(place.root@)) == Ok::<ReadingView, Seq<char>>(place.canonical_root@),
        steps[at] matches UploadStep::CheckFinal(staged, _) ==> inside_verdict(
            after(place_of(staged.place.root@)),
            after(staged.place.target@),
        ) is Ok,
    decreases at,
{
    if at > 0 {
        law_nothing_is_written_outside_the_workspace(steps, max_bytes, before, after, at - 1);
        assert(may_follow(steps[at - 1], steps[at]));
    }
}

/// How often a chunk is asked for in the steps.
pub open spec fn chunks_asked(steps: Seq<UploadStep>) -> nat
    decreases steps.len(),
{
    if steps.len() == 0 {
        0
    } else {
        let head = chunks_asked(steps.drop_last());
        if steps.last() is ReadChunk {
            head + 1
        } else {
            head
        }
    }
}

/// The chunks that are written in the steps.
pub open spec fn written_chunks(steps: Seq<UploadStep>) -> Seq<Seq<u8>>
    decreases steps.len(),
{
    if steps.len() == 0 {
        Seq::empty()
    } else {
        let head = written_chunks(steps.drop_last());
        match steps.last() {
            UploadStep::WriteChunk(_, _, bytes) => head.push(bytes@),
            _ => head,
        }
    }
}

/// Whether the steps are a run in which `reads` gives, in order, what reading a chunk brings.
pub open spec fn is_read_run(
    steps: Seq<UploadStep>,
    max_bytes: u64,
    reads: spec_fn(nat) -> Result<Option<Seq<u8>>, Seq<char>>,
) -> bool {
    &&& is_run(steps, max_bytes)
    &&& forall|i: int|
        0 <= i < steps.len() - 1 ==> (#[trigger] steps[i] matches UploadStep::ReadChunk(staged)
            ==> chunk_step(staged, reads(chunks_asked(steps.take(i))), steps[i + 1]))
}

/// Whether the first `n` reads bring these chunks, one each.
pub open spec fn brings(
    reads: spec_fn(nat) -> Result<Option<Seq<u8>>, Seq<char>>,
    n: nat,
    chunks: Seq<Seq<u8>>,
) -> bool {
    &&& chunks.len() == n
    &&& forall|k: nat|
        k < n ==> #[trigger] reads(k) == Ok::<Option<Seq<u8>>, Seq<char>>(Some(chunks[k as int]))
}

/// Whether the chunks are all that the reads bring, up to the end of the file at the last of
/// `n` reads.
pub open spec fn brings_all(
    reads: spec_fn(nat) -> Result<Option<Seq<u8>>, Seq<char>>,
    n: nat,
    chunks: Seq<Seq<u8>>,
) -> bool {
    &&& n > 0
    &&& brings(reads, (n - 1) as nat, chunks)
    &&& reads((n - 1) as nat) == Ok::<Option<Seq<u8>>, Seq<char>>(None)
}

/// Whether, after `n` reads, a step is right about the chunks written before it.
pub open spec fn writes_what_is_read(
    step: UploadStep,
    reads: spec_fn(nat) -> Result<Option<Seq<u8>>, Seq<char>>,
    n: nat,
    chunks: Seq<Seq<u8>>,
) -> bool {
    match step {
        UploadStep::NextField(form) => form_writes_what_is_read(form, reads, n, chunks),
        UploadStep::ReadText(form, _) => form_writes_what_is_read(form, reads, n, chunks),
        UploadStep::Drain(form) => form_writes_what_is_read(form, reads, n, chunks),
        UploadStep::CheckRoot(_) => brings(reads, 0, chunks) && n == 0,
        UploadStep::CanonicalizeRoot(_, _) => brings(reads, 0, chunks) && n == 0,
        UploadStep::ProbeLink(_, _) => brings(reads, 0, chunks) && n == 0,
        UploadStep::CreateDirs(_) => brings(reads, 0, chunks) && n == 0,
        UploadStep::CanonicalizeParent(_) => brings(reads, 0, chunks) && n == 0,
        UploadStep::InspectTarget(_) => brings(reads, 0, chunks) && n == 0,
        UploadStep::OpenStaging(_) => brings(reads, 0, chunks) && n == 0,
        UploadStep::ReadChunk(_) => brings(reads, n, chunks),
        UploadStep::WriteChunk(_, _, bytes) => brings(reads, n, chunks.push(bytes@)),
        UploadStep::Flush(_) => brings_all(reads, n, chunks),
        UploadStep::HardLink(_) => brings_all(reads, n, chunks),
        UploadStep::Rename(_, _) => brings_all(reads, n, chunks),
        UploadStep::RemoveStaging(_) => brings_all(reads, n, chunks),
        UploadStep::VerifyTarget(_, _) => brings_all(reads, n, chunks),
        UploadStep::CheckFinal(_, _) => brings_all(reads, n, chunks),
        UploadStep::Done(_) => brings_all(reads, n, chunks),
        UploadStep::RemoveFinal(_, _) => brings_all(reads, n, chunks),
        UploadStep::DiscardStaging(_, _) => true,
        UploadStep::Fail(_) => true,
    }
}

/// The same of a form, which may have no file yet.
pub open spec fn form_writes_what_is_read(
    form: UploadForm,
    reads: spec_fn(nat) -> Result<Option<Seq<u8>>, Seq<char>>,
    n: nat,
    chunks: Seq<Seq<u8>>,
) -> bool {
    match form.result {
        Some(_) => brings_all(reads, n, chunks),
        None => brings(reads, 0, chunks) && n == 0,
    }
}

/// The bytes that are written to the staging file are the chunks that were read, in order and
/// each once. A staging file that is put in place holds them all, up to the end of the file.
pub proof fn law_written_bytes_are_the_chunks_read(
    steps: Seq<UploadStep>,
    max_bytes: u64,
    reads: spec_fn(nat) -> Result<Option<Seq<u8>>, Seq<char>>,
    at: int,
)
    requires
        is_read_run(steps, max_bytes, reads),
        0 <= at < steps.len(),
    ensures
        writes_what_is_read(
            steps[at],
            reads,
            chunks_asked(steps.take(at)),
            written_chunks(steps.take(at)),
        ),
    decreases at,
{
    if at == 0 {
        assert(steps.take(0) =~= Seq::empty());
    } else {
        law_written_bytes_are_the_chunks_read(steps, max_bytes, reads, at - 1);
        law_every_step_of_an_upload_is_ok(steps, max_bytes);
        assert(step_ok(steps[at - 1]));
        let n = chunks_asked(steps.take(at - 1));
        let chunks = written_chunks(steps.take(at - 1));
        assert(steps.take(at).drop_last() =~= steps.take(at - 1));
        assert(steps.take(at).last() == steps[at - 1]);
        assert(may_follow(steps[at - 1], steps[at]));
        if steps[at - 1] is ReadChunk {
            if let UploadStep::WriteChunk(_, _, bytes) = steps[at] {
                let more = chunks.push(bytes@);
                assert forall|k: nat| k < n + 1 implies #[trigger] reads(k) == Ok::<
                    Option<Seq<u8>>,
                    Seq<char>,
                >(Some(more[k as int])) by {
                    if k < n {
                        assert(more[k as int] == chunks[k as int]);
                    }
                }
            }
        }
    }
}

/// Whether the result is about the file that a request asks for: its path is the one that the
/// form's fields and the name of the file come to, and its name the last one of that path.
pub open spec fn is_about(result: UploadWorkspaceFileResult, req: FileRequest) -> bool {
    &&& wanted_names(req) matches Ok(names)
    &&& result.path@ == join(names, '/')
    &&& result.name@ == names.last()
}

/// Whether what a step is about was asked for by the request.
pub open spec fn stems_from(step: UploadStep, req: FileRequest) -> bool {
    match step {
        UploadStep::NextField(form) => form.result matches Some(r) ==> is_about(r, req),
        UploadStep::ReadText(form, _) => form.result matches Some(r) ==> is_about(r, req),
        UploadStep::Drain(form) => form.result matches Some(r) ==> is_about(r, req),
        UploadStep::CheckRoot(r) => r == req,
        UploadStep::CanonicalizeRoot(r, _) => r == req,
        UploadStep::Done(r) => is_about(r, req),
        UploadStep::Fail(_) => true,
        _ => place_at(step) matches Some(place) && settles(place, req),
    }
}

/// The destination at a step.
pub open spec fn place_at(step: UploadStep) -> Option<Placement> {
    match approached(step) {
        Some(place) => Some(place),
        None => entered(step),
    }
}

/// Whether a file has been asked for by the time of a step.
pub open spec fn has_request(step: UploadStep) -> bool {
    match step {
        UploadStep::NextField(form) => form.result is Some,
        UploadStep::ReadText(form, _) => form.result is Some,
        UploadStep::Drain(form) => form.result is Some,
        UploadStep::Fail(_) => false,
        _ => true,
    }
}

/// The request that a step stems from stands earlier in the run.
proof fn lemma_request_of(steps: Seq<UploadStep>, max_bytes: u64, at: int) -> (j: int)
    requires
        is_run(steps, max_bytes),
        0 <= at < steps.len(),
        has_request(steps[at]),
    ensures
        0 < j <= at,
        steps[j] is CheckRoot,
        stems_from(steps[at], steps[j]->CheckRoot_0),
    decreases at,
{
    assert(at > 0);
    assert(may_follow(steps[at - 1], steps[at]));
    law_every_step_of_an_upload_is_ok(steps, max_bytes);
    assert(step_ok(steps[at - 1]));
    if steps[at] is CheckRoot {
        at
    } else {
        let j = lemma_request_of(steps, max_bytes, at - 1);
        let req = steps[j]->CheckRoot_0;
        assert(step_ok(steps[at]));
        if let UploadStep::CheckFinal(staged, _) = steps[at - 1] {
            assert(settles(staged.place, req));
        }
        j
    }
}

/// What a client is told it has stored is what it asked for: earlier in the upload stands the
/// request for the file, and the reported path is the one that the fields of the form at that
/// time and the name of the file come to.
pub proof fn law_reported_path_is_the_one_asked_for(
    steps: Seq<UploadStep>,
    max_bytes: u64,
    at: int,
    result: UploadWorkspaceFileResult,
)
    requires
        is_run(steps, max_bytes),
        0 <= at < steps.len(),
        steps[at] == UploadStep::Done(result),
    ensures
        exists|j: int|
            0 < j < at && (#[trigger] steps[j] matches UploadStep::CheckRoot(req) && is_about(
                result,
                req,
            )),
{
    let j = lemma_request_of(steps, max_bytes, at);
    assert(steps[j] is CheckRoot);
}

/// And so is the place where the bytes go: at every step with a destination, that is the one
/// that an earlier request in the upload asked for, below the workspace folder that it named.
pub proof fn law_destination_is_the_one_asked_for(
    steps: Seq<UploadStep>,
    max_bytes: u64,
    at: int,
    place: Placement,
)
    requires
        is_run(steps, max_bytes),
        0 <= at < steps.len(),
        place_at(steps[at]) == Some(place),
    ensures
        exists|j: int|
            0 < j < at && (#[trigger] steps[j] matches UploadStep::CheckRoot(req) && settles(
                place,
                req,
            )),
{
    let j = lemma_request_of(steps, max_bytes, at);
    assert(steps[j] is CheckRoot);
}

/// The form that a step carries along.
pub open spec fn form_at(step: UploadStep) -> Option<UploadForm> {
    match step {
        UploadStep::NextField(form) => Some(form),
        UploadStep::ReadText(form, _) => Some(form),
        UploadStep::Drain(form) => Some(form),
        UploadStep::CheckRoot(req) => Some(req.form),
        UploadStep::CanonicalizeRoot(req, _) => Some(req.form),
        _ => match place_at(step) {
            Some(place) => Some(place.form),
            None => None,
        },
    }
}

/// The text of a field in a form.
pub open spec fn field_of(form: UploadForm, field: TextField) -> Option<Seq<char>> {
    match field {
        TextField::RootPath => opt_text(form.root_path),
        TextField::TargetPath => opt_text(form.target_path),
        TextField::RelativePath => opt_text(form.relative_path),
    }
}

/// Whether the steps are a run in which `texts` gives the text that is read at a step, if it
/// can be read.
pub open spec fn is_text_run(
    steps: Seq<UploadStep>,
    max_bytes: u64,
    texts: spec_fn(int) -> Seq<char>,
) -> bool {
    &&& is_run(steps, max_bytes)
    &&& forall|i: int|
        0 <= i < steps.len() - 1 ==> (#[trigger] steps[i] matches UploadStep::ReadText(form, field)
            ==> (steps[i + 1] matches UploadStep::NextField(g) ==> field_of(g, field) == Some(
            texts(i),
        )))
}

/// The text of a field that was read last before the step at `at`.
pub open spec fn last_text(
    steps: Seq<UploadStep>,
    texts: spec_fn(int) -> Seq<char>,
    at: int,
    field: TextField,
) -> Option<Seq<char>>
    decreases at,
{
    if at <= 0 {
        None
    } else {
        match steps[at - 1] {
            UploadStep::ReadText(_, f) => if f == field {
                Some(texts(at - 1))
            } else {
                last_text(steps, texts, at - 1, field)
            },
            _ => last_text(steps, texts, at - 1, field),
        }
    }
}

/// A form holds what the client sent: each field the text that was read last for it, and a
/// field that did not come nothing.
pub proof fn law_form_holds_the_texts_last_read(
    steps: Seq<UploadStep>,
    max_bytes: u64,
    texts: spec_fn(int) -> Seq<char>,
    at: int,
    field: TextField,
)
    requires
        is_text_run(steps, max_bytes, texts),
        0 <= at < steps.len(),
    ensures
        form_at(steps[at]) matches Some(form) ==> field_of(form, field) == last_text(
            steps,
            texts,
            at,
            field,
        ),
    decreases at,
{
    if at > 0 {
        law_form_holds_the_texts_last_read(steps, max_bytes, texts, at - 1, field);
        assert(may_follow(steps[at - 1], steps[at]));
    }
}

} // verus!
