//! Refusing to write through a symlink.
//!
//! The walk goes from the workspace root toward a directory, one component at a time, and
//! asks about each path on the way whether it is a symlink. It ends well when every
//! component has been looked at, or at the first one that does not exist yet: below it
//! there is nothing to follow.
use vstd::prelude::*;
use crate::error::{invalid, plain_error, AppCommandError, AppErrorCode, AppErrorView};
use super::path::{components_of, components_start_with, entry_in, starts_with, ComponentView, EntryPath, EntryView, PathComponent, PathReading, ReadingView};
use super::path_laws::{all_normal, law_path_begins_with_another};

verus! {

/// What the file system says of a path, without following a symlink at its end.
pub enum Probe {
    /// A symlink.
    Link,
    /// Anything else that exists.
    Other,
    /// Nothing there.
    Missing,
    /// The question could not be answered, for the given reason.
    Failed(String),
}

/// What a `Probe` says.
pub enum ProbeView {
    Link,
    Other,
    Missing,
    Failed(Seq<char>),
}

impl View for Probe {
    type V = ProbeView;

    open spec fn view(&self) -> ProbeView {
        match self {
            Probe::Link => ProbeView::Link,
            Probe::Other => ProbeView::Other,
            Probe::Missing => ProbeView::Missing,
            Probe::Failed(reason) => ProbeView::Failed(reason@),
        }
    }
}

/// A walk that waits for an answer about the place `current`.
pub struct ChainWalk {
    /// The place to ask about.
    pub current: EntryPath,
    /// The components below it.
    pub rest: Vec<PathComponent>,
}

/// How a walk goes on.
pub enum ChainStep {
    /// Ask about `current` and hand the answer to `chain_probed`.
    Probe(ChainWalk),
    /// No symlink stands in the way.
    Clear,
    /// The walk is refused.
    Rejected(AppCommandError),
}

/// What a `ChainStep` stands for.
pub enum ChainView {
    Probe(EntryView, Seq<ComponentView>),
    Clear,
    Rejected(AppErrorView),
}

impl View for ChainStep {
    type V = ChainView;

    open spec fn view(&self) -> ChainView {
        match self {
            ChainStep::Probe(w) => ChainView::Probe(w.current@, components_of(w.rest@)),
            ChainStep::Clear => ChainView::Clear,
            ChainStep::Rejected(e) => ChainView::Rejected(e@),
        }
    }
}

/// The refusal of a path that runs through a symlink.
pub open spec fn link_refused() -> AppErrorView {
    invalid("Upload path traverses a symlink; refuse to follow it"@)
}

/// The refusal of a component that is neither a named entry nor `.`.
pub open spec fn odd_component() -> AppErrorView {
    invalid("Invalid path component while validating upload target"@)
}

/// The step of a walk that stands at `current` with `rest` before it.
pub open spec fn chain_from(current: EntryView, rest: Seq<ComponentView>) -> ChainView
    decreases rest.len(),
{
    if rest.len() == 0 {
        ChainView::Clear
    } else {
        match rest[0] {
            ComponentView::CurDir => chain_from(current, rest.drop_first()),
            ComponentView::Normal(name) => ChainView::Probe(
                entry_in(current, name),
                rest.drop_first(),
            ),
            _ => ChainView::Rejected(odd_component()),
        }
    }
}

/// The step of a walk after the answer about `current`.
pub open spec fn chain_after(
    current: EntryView,
    rest: Seq<ComponentView>,
    answer: ProbeView,
) -> ChainView {
    match answer {
        ProbeView::Link => ChainView::Rejected(link_refused()),
        ProbeView::Other => chain_from(current, rest),
        ProbeView::Missing => ChainView::Clear,
        ProbeView::Failed(reason) => ChainView::Rejected(plain_error(AppErrorCode::Os, reason)),
    }
}

/// The place that a path names.
pub open spec fn place_of(path: Seq<char>) -> EntryView {
    EntryView { base: path, names: Seq::empty() }
}

/// The first step of the walk from the path `base`, which the host reads as `root`, to
/// `target`.
pub open spec fn chain_start(base: Seq<char>, root: ReadingView, target: ReadingView) -> ChainView {
    if starts_with(target.components, root.components) {
        chain_from(place_of(base), target.components.skip(root.components.len() as int))
    } else {
        ChainView::Rejected(invalid("Target path is not under workspace root"@))
    }
}

/// How a whole walk ends, where `fs` gives the answers.
pub open spec fn chain_verdict(
    current: EntryView,
    rest: Seq<ComponentView>,
    fs: spec_fn(EntryView) -> ProbeView,
) -> Result<(), AppErrorView>
    decreases rest.len(),
{
    if rest.len() == 0 {
        Ok(())
    } else {
        match rest[0] {
            ComponentView::CurDir => chain_verdict(current, rest.drop_first(), fs),
            ComponentView::Normal(name) => {
                let path = entry_in(current, name);
                match fs(path) {
                    ProbeView::Link => Err(link_refused()),
                    ProbeView::Other => chain_verdict(path, rest.drop_first(), fs),
                    ProbeView::Missing => Ok(()),
                    ProbeView::Failed(reason) => Err(plain_error(AppErrorCode::Os, reason)),
                }
            },
            _ => Err(odd_component()),
        }
    }
}

/// How a walk ends from a given step on.
pub open spec fn step_verdict(
    step: ChainView,
    fs: spec_fn(EntryView) -> ProbeView,
) -> Result<(), AppErrorView> {
    match step {
        ChainView::Clear => Ok(()),
        ChainView::Rejected(e) => Err(e),
        ChainView::Probe(path, rest) => match fs(path) {
            ProbeView::Link => Err(link_refused()),
            ProbeView::Other => chain_verdict(path, rest, fs),
            ProbeView::Missing => Ok(()),
            ProbeView::Failed(reason) => Err(plain_error(AppErrorCode::Os, reason)),
        },
    }
}

/// Goes on with the walk until there is a place to ask about.
fn chain_walk(current: EntryPath, rest: Vec<PathComponent>) -> (step: ChainStep)
    ensures
        step@ == chain_from(current@, components_of(rest@)),
{
    let ghost whole = components_of(rest@);
    let mut left = rest;
    while left.len() > 0
        invariant
            whole == components_of(rest@),
            chain_from(current@, whole) == chain_from(current@, components_of(left@)),
        decreases left.len(),
    {
        let ghost before = components_of(left@);
        assert(before[0] == left@[0]@);
        let first = left.remove(0);
        assert(components_of(left@) =~= before.drop_first());
        match first {
            PathComponent::CurDir => {},
            PathComponent::Normal(name) => {
                return ChainStep::Probe(
                    ChainWalk { current: current.enter(name.as_str()), rest: left },
                );
            },
            _ => {
                return ChainStep::Rejected(
                    AppCommandError::invalid_input(
                        "Invalid path component while validating upload target",
                    ),
                );
            },
        }
    }
    ChainStep::Clear
}

/// Starts the walk from the path `base`, which the host reads as `root`, toward `target`,
/// which must lie at or below it.
pub fn ensure_no_symlink_in_chain(base: &str, root: &PathReading, target: PathReading) -> (step:
    ChainStep)
    ensures
        step@ == chain_start(base@, root@, target@),
{
    let mut comps = target.components;
    if !components_start_with(&comps, &root.components) {
        return ChainStep::Rejected(
            AppCommandError::invalid_input("Target path is not under workspace root"),
        );
    }
    let n: usize = root.components.len();
    let ghost all = components_of(comps@);
    let mut i: usize = 0;
    assert(all.skip(0) =~= all);
    assert(n == root@.components.len());
    while i < n
        invariant
            i <= n <= all.len(),
            components_of(comps@) == all.skip(i as int),
        decreases n - i,
    {
        let ghost before = components_of(comps@);
        assert(before.len() == comps@.len());
        comps.remove(0);
        assert(components_of(comps@) =~= before.drop_first());
        assert(all.skip(i as int).drop_first() =~= all.skip(i + 1));
        i += 1;
    }
    chain_walk(EntryPath::at(base), comps)
}

/// Goes on with a walk after the answer about its current path.
pub fn chain_probed(walk: ChainWalk, answer: Probe) -> (step: ChainStep)
    ensures
        step@ == chain_after(walk.current@, components_of(walk.rest@), answer@),
{
    match answer {
        Probe::Link => ChainStep::Rejected(
            AppCommandError::invalid_input("Upload path traverses a symlink; refuse to follow it"),
        ),
        Probe::Other => chain_walk(walk.current, walk.rest),
        Probe::Missing => ChainStep::Clear,
        Probe::Failed(reason) => ChainStep::Rejected(AppCommandError::io(reason.as_str())),
    }
}

/// Step by step the walk comes to the verdict on the whole chain: the steps that
/// `ensure_no_symlink_in_chain` and `chain_probed` take lead there, whatever the answers.
pub proof fn law_steps_reach_the_verdict(
    current: EntryView,
    rest: Seq<ComponentView>,
    fs: spec_fn(EntryView) -> ProbeView,
)
    ensures
        step_verdict(chain_from(current, rest), fs) == chain_verdict(current, rest, fs),
        forall|path: EntryView, below: Seq<ComponentView>|
            #![trigger chain_after(path, below, fs(path))]
            step_verdict(chain_after(path, below, fs(path)), fs) == step_verdict(
                ChainView::Probe(path, below),
                fs,
            ),
    decreases rest.len(),
{
    lemma_chain_from_verdict(current, rest, fs);
    assert forall|path: EntryView, below: Seq<ComponentView>|
        #![trigger chain_after(path, below, fs(path))]
        step_verdict(chain_after(path, below, fs(path)), fs) == step_verdict(
            ChainView::Probe(path, below),
            fs,
        ) by {
        lemma_chain_from_verdict(path, below, fs);
    }
}

proof fn lemma_chain_from_verdict(
    current: EntryView,
    rest: Seq<ComponentView>,
    fs: spec_fn(EntryView) -> ProbeView,
)
    ensures
        step_verdict(chain_from(current, rest), fs) == chain_verdict(current, rest, fs),
    decreases rest.len(),
{
    if rest.len() > 0 && rest[0] is CurDir {
        lemma_chain_from_verdict(current, rest.drop_first(), fs);
    }
}

/// The place that is reached from `current` over the first `k` of the named entries `rest`.
pub open spec fn prefix_path(current: EntryView, rest: Seq<ComponentView>, k: nat) -> EntryView
    decreases k,
{
    if k == 0 || rest.len() == 0 {
        current
    } else {
        prefix_path(entry_in(current, rest[0]->Normal_0), rest.drop_first(), (k - 1) as nat)
    }
}

/// A walk that ends well has met no symlink: of the paths on the way, none that exists, with
/// all those above it, is one.
pub proof fn law_clear_chain_has_no_link(
    current: EntryView,
    rest: Seq<ComponentView>,
    fs: spec_fn(EntryView) -> ProbeView,
    k: nat,
)
    requires
        all_normal(rest),
        chain_verdict(current, rest, fs) is Ok,
        0 < k <= rest.len(),
        forall|j: nat| 0 < j < k ==> !(fs(#[trigger] prefix_path(current, rest, j)) is Missing),
    ensures
        !(fs(prefix_path(current, rest, k)) is Link),
    decreases k,
{
    let name = rest[0]->Normal_0;
    let path = entry_in(current, name);
    let below = rest.drop_first();
    assert(rest[0] is Normal);
    reveal_with_fuel(prefix_path, 2);
    assert(prefix_path(current, rest, 1) == path);
    if k > 1 {
        assert(fs(path) is Other);
        assert forall|i: int| 0 <= i < below.len() implies #[trigger] below[i] is Normal by {
            assert(below[i] == rest[i + 1]);
        }
        assert forall|j: nat| 0 < j < k - 1 implies !(fs(
            #[trigger] prefix_path(path, below, j),
        ) is Missing) by {
            assert(prefix_path(current, rest, j + 1) == prefix_path(path, below, j));
        }
        law_clear_chain_has_no_link(path, below, fs, (k - 1) as nat);
        assert(prefix_path(current, rest, k) == prefix_path(path, below, (k - 1) as nat));
    }
}

/// A symlink that the walk comes to is refused: everything above it is there and is not a
/// symlink, so the walk asks about it.
pub proof fn law_link_in_chain_is_refused(
    current: EntryView,
    rest: Seq<ComponentView>,
    fs: spec_fn(EntryView) -> ProbeView,
    k: nat,
)
    requires
        all_normal(rest),
        0 < k <= rest.len(),
        forall|j: nat| 0 < j < k ==> fs(#[trigger] prefix_path(current, rest, j)) is Other,
        fs(prefix_path(current, rest, k)) is Link,
    ensures
        chain_verdict(current, rest, fs) == Err::<(), AppErrorView>(link_refused()),
    decreases k,
{
    let path = entry_in(current, rest[0]->Normal_0);
    let below = rest.drop_first();
    assert(rest[0] is Normal);
    reveal_with_fuel(prefix_path, 2);
    assert(prefix_path(current, rest, 1) == path);
    if k > 1 {
        assert forall|i: int| 0 <= i < below.len() implies #[trigger] below[i] is Normal by {
            assert(below[i] == rest[i + 1]);
        }
        assert forall|j: nat| 0 < j < k - 1 implies fs(
            #[trigger] prefix_path(path, below, j),
        ) is Other by {
            assert(prefix_path(current, rest, j + 1) == prefix_path(path, below, j));
        }
        assert(prefix_path(current, rest, k) == prefix_path(path, below, (k - 1) as nat));
        law_link_in_chain_is_refused(path, below, fs, (k - 1) as nat);
    }
}

/// The places on the way are reached one name at a time, from the place where it begins.
pub proof fn law_way_adds_one_name_at_a_time(
    current: EntryView,
    rest: Seq<ComponentView>,
    k: nat,
)
    requires
        all_normal(rest),
        k <= rest.len(),
    ensures
        prefix_path(current, rest, k).base == current.base,
        prefix_path(current, rest, k).names.len() == current.names.len() + k,
        forall|i: int|
            0 <= i < current.names.len() ==> #[trigger] prefix_path(current, rest, k).names[i]
                == current.names[i],
        forall|i: int|
            0 <= i < k ==> rest[i] == ComponentView::Normal(
                #[trigger] prefix_path(current, rest, k).names[current.names.len() + i],
            ),
    decreases k,
{
    if k > 0 {
        let name = rest[0]->Normal_0;
        let path = entry_in(current, name);
        let below = rest.drop_first();
        assert(rest[0] is Normal);
        assert forall|i: int| 0 <= i < below.len() implies #[trigger] below[i] is Normal by {
            assert(below[i] == rest[i + 1]);
        }
        law_way_adds_one_name_at_a_time(path, below, (k - 1) as nat);
        let names = prefix_path(current, rest, k).names;
        assert(prefix_path(current, rest, k) == prefix_path(path, below, (k - 1) as nat));
        assert forall|i: int| 0 <= i < current.names.len() implies #[trigger] names[i]
            == current.names[i] by {
            assert(names[i] == path.names[i]);
        }
        assert forall|i: int| 0 <= i < k implies rest[i] == ComponentView::Normal(
            #[trigger] names[current.names.len() + i],
        ) by {
            if i == 0 {
                assert(names[current.names.len() as int] == path.names[current.names.len() as int]);
            } else {
                assert(below[i - 1] == rest[i]);
                assert(below[i - 1] == ComponentView::Normal(
                    prefix_path(path, below, (k - 1) as nat).names[path.names.len() + (i - 1)],
                ));
            }
        }
    }
}

/// A way on which everything is there and nothing is a symlink is clear, however long it is; so
/// is one that comes to something missing before it comes to anything else.
pub proof fn law_way_without_links_is_clear(
    current: EntryView,
    rest: Seq<ComponentView>,
    fs: spec_fn(EntryView) -> ProbeView,
    k: nat,
)
    requires
        all_normal(rest),
        k <= rest.len(),
        forall|j: nat| 0 < j <= k ==> fs(#[trigger] prefix_path(current, rest, j)) is Other,
        k == rest.len() || fs(prefix_path(current, rest, k + 1)) is Missing,
    ensures
        chain_verdict(current, rest, fs) == Ok::<(), AppErrorView>(()),
    decreases rest.len(),
{
    if rest.len() > 0 {
        let path = entry_in(current, rest[0]->Normal_0);
        let below = rest.drop_first();
        assert(rest[0] is Normal);
        reveal_with_fuel(prefix_path, 2);
        assert(prefix_path(current, rest, 1) == path);
        if k > 0 {
            assert(fs(path) is Other);
            assert forall|i: int| 0 <= i < below.len() implies #[trigger] below[i] is Normal by {
                assert(below[i] == rest[i + 1]);
            }
            assert forall|j: nat| 0 < j <= k - 1 implies fs(
                #[trigger] prefix_path(path, below, j),
            ) is Other by {
                assert(prefix_path(current, rest, j + 1) == prefix_path(path, below, j));
            }
            if k < rest.len() {
                assert(prefix_path(current, rest, k + 1) == prefix_path(path, below, k));
            }
            law_way_without_links_is_clear(path, below, fs, (k - 1) as nat);
        }
    }
}

/// Where the question about a place on the way has no answer, the walk ends with the reason.
pub proof fn law_unanswered_question_ends_the_walk(
    current: EntryView,
    rest: Seq<ComponentView>,
    fs: spec_fn(EntryView) -> ProbeView,
    k: nat,
    reason: Seq<char>,
)
    requires
        all_normal(rest),
        0 < k <= rest.len(),
        forall|j: nat| 0 < j < k ==> fs(#[trigger] prefix_path(current, rest, j)) is Other,
        fs(prefix_path(current, rest, k)) == ProbeView::Failed(reason),
    ensures
        chain_verdict(current, rest, fs) == Err::<(), _>(plain_error(AppErrorCode::Os, reason)),
    decreases k,
{
    let path = entry_in(current, rest[0]->Normal_0);
    let below = rest.drop_first();
    assert(rest[0] is Normal);
    reveal_with_fuel(prefix_path, 2);
    assert(prefix_path(current, rest, 1) == path);
    if k > 1 {
        assert forall|i: int| 0 <= i < below.len() implies #[trigger] below[i] is Normal by {
            assert(below[i] == rest[i + 1]);
        }
        assert forall|j: nat| 0 < j < k - 1 implies fs(
            #[trigger] prefix_path(path, below, j),
        ) is Other by {
            assert(prefix_path(current, rest, j + 1) == prefix_path(path, below, j));
        }
        assert(prefix_path(current, rest, k) == prefix_path(path, below, (k - 1) as nat));
        law_unanswered_question_ends_the_walk(path, below, fs, (k - 1) as nat, reason);
    }
}

/// A walk stands still for no `.` and for no more than one name at a time; it ends where nothing
/// is left, and at a component that may not stand below a root.
pub proof fn law_walk_takes_one_name_at_a_time(
    current: EntryView,
    name: Seq<char>,
    rest: Seq<ComponentView>,
    odd: ComponentView,
)
    requires
        !(odd is Normal),
        !(odd is CurDir),
    ensures
        chain_from(current, Seq::empty()) == ChainView::Clear,
        chain_from(current, seq![ComponentView::CurDir] + rest) == chain_from(current, rest),
        chain_from(current, seq![ComponentView::Normal(name)] + rest) == ChainView::Probe(
            (EntryView { base: current.base, names: current.names.push(name) }),
            rest,
        ),
        chain_from(current, seq![odd] + rest) == ChainView::Rejected(odd_component()),
{
    assert((seq![ComponentView::CurDir] + rest).drop_first() =~= rest);
    assert((seq![ComponentView::Normal(name)] + rest).drop_first() =~= rest);
    assert((seq![odd] + rest)[0] == odd);
}

/// A walk starts with what the target has beyond the root, from the root on; toward a target
/// that does not lie at or below the root it does not start.
pub proof fn law_walk_starts_below_the_root(
    base: Seq<char>,
    root: ReadingView,
    target: ReadingView,
    rest: Seq<ComponentView>,
)
    ensures
        target.components == root.components + rest ==> chain_start(base, root, target)
            == chain_from((EntryView { base, names: Seq::empty() }), rest),
        (target.components.len() < root.components.len() || exists|i: int|
            0 <= i < root.components.len() && #[trigger] target.components[i]
                != root.components[i]) ==> chain_start(base, root, target) == ChainView::Rejected(
            plain_error(
                AppErrorCode::InvalidInput,
                "Target path is not under workspace root"@,
            ),
        ),
{
    law_path_begins_with_another(target.components, root.components, rest);
    assert((root.components + rest).skip(root.components.len() as int) =~= rest);
}

/// Answers and steps of a walk are seen by what they hold.
pub proof fn law_walk_is_seen_as_it_is(probe: Probe, step: ChainStep)
    ensures
        probe@ is Link <==> probe is Link,
        probe@ is Other <==> probe is Other,
        probe@ is Missing <==> probe is Missing,
        probe matches Probe::Failed(reason) ==> probe@ == ProbeView::Failed(reason@),
        step@ is Clear <==> step is Clear,
        step matches ChainStep::Probe(w) ==> step@ == ChainView::Probe(
            w.current@,
            components_of(w.rest@),
        ),
        step matches ChainStep::Rejected(e) ==> step@ == ChainView::Rejected(e@),
{
}

/// What the refusals of a walk say.
pub proof fn law_refused_walk_says_why()
    ensures
        link_refused() == plain_error(
            AppErrorCode::InvalidInput,
            "Upload path traverses a symlink; refuse to follow it"@,
        ),
        odd_component() == plain_error(
            AppErrorCode::InvalidInput,
            "Invalid path component while validating upload target"@,
        ),
        forall|path: Seq<char>|
            (#[trigger] place_of(path)).base == path && place_of(path).names.len() == 0,
{
}

} // verus!
