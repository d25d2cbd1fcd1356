//! The loop-phase taxonomy.
//!
//! A loop issue advances through six ordered phases. The process graph groups artifacts by
//! phase and the stage rail groups iterations; both use the two classifiers here. There are
//! two because some stages run without producing an artifact of their own.
use vstd::prelude::*;
use std::cmp::Ordering;
use vstd::std_specs::cmp::PartialOrdSpec;

verus! {

/// What an artifact of a loop issue is.
#[derive(Debug, Clone, Copy, PartialEq, Eq, Structural, Hash)]
pub enum ArtifactKind {
    Issue,
    Requirement,
    Design,
    Task,
    Review,
    Result,
    Reflection,
}

/// What an iteration of a loop issue works on.
#[derive(Debug, Clone, Copy, PartialEq, Eq, Structural, Hash)]
pub enum Stage {
    Triage,
    Refine,
    Design,
    Plan,
    Implement,
    Review,
    Finalize,
    Reflect,
}

/// The six phases of a loop issue, in the order in which an issue advances through them.
#[derive(Debug, Clone, Copy, PartialEq, Eq, Structural, Ord, Hash)]
pub enum LoopPhase {
    Issue,
    Requirement,
    Design,
    Implement,
    Result,
    Reflect,
}

impl LoopPhase {
    /// The position of the phase, counted from zero.
    pub open spec fn rank(self) -> int {
        match self {
            LoopPhase::Issue => 0,
            LoopPhase::Requirement => 1,
            LoopPhase::Design => 2,
            LoopPhase::Implement => 3,
            LoopPhase::Result => 4,
            LoopPhase::Reflect => 5,
        }
    }

    fn position(self) -> (n: u8)
        ensures
            n == self.rank(),
    {
        match self {
            LoopPhase::Issue => 0,
            LoopPhase::Requirement => 1,
            LoopPhase::Design => 2,
            LoopPhase::Implement => 3,
            LoopPhase::Result => 4,
            LoopPhase::Reflect => 5,
        }
    }
}

impl PartialOrd for LoopPhase {
    fn partial_cmp(&self, other: &LoopPhase) -> (r: Option<Ordering>) {
        let a: u8 = self.position();
        let b: u8 = other.position();
        if a < b {
            Some(Ordering::Less)
        } else if a == b {
            Some(Ordering::Equal)
        } else {
            Some(Ordering::Greater)
        }
    }
}

impl vstd::std_specs::cmp::PartialOrdSpecImpl for LoopPhase {
    open spec fn obeys_partial_cmp_spec() -> bool {
        true
    }

    open spec fn partial_cmp_spec(&self, other: &LoopPhase) -> Option<Ordering> {
        if self.rank() < other.rank() {
            Some(Ordering::Less)
        } else if self.rank() == other.rank() {
            Some(Ordering::Equal)
        } else {
            Some(Ordering::Greater)
        }
    }
}

/// The phase that an artifact belongs to.
pub open spec fn phase_of_artifact(kind: ArtifactKind) -> LoopPhase {
    match kind {
        ArtifactKind::Issue => LoopPhase::Issue,
        ArtifactKind::Requirement => LoopPhase::Requirement,
        ArtifactKind::Design => LoopPhase::Design,
        ArtifactKind::Task => LoopPhase::Implement,
        ArtifactKind::Review => LoopPhase::Implement,
        ArtifactKind::Result => LoopPhase::Result,
        ArtifactKind::Reflection => LoopPhase::Reflect,
    }
}

/// The phase that an iteration belongs to.
pub open spec fn phase_of_stage(stage: Stage) -> LoopPhase {
    match stage {
        Stage::Triage => LoopPhase::Issue,
        Stage::Refine => LoopPhase::Requirement,
        Stage::Design => LoopPhase::Design,
        Stage::Plan => LoopPhase::Implement,
        Stage::Implement => LoopPhase::Implement,
        Stage::Review => LoopPhase::Implement,
        Stage::Finalize => LoopPhase::Result,
        Stage::Reflect => LoopPhase::Reflect,
    }
}

/// The phase that an artifact belongs to. Tasks and their reviews are both part of the
/// implementation.
pub fn artifact_phase(kind: ArtifactKind) -> (phase: LoopPhase)
    ensures
        phase == phase_of_artifact(kind),
{
    match kind {
        ArtifactKind::Issue => LoopPhase::Issue,
        ArtifactKind::Requirement => LoopPhase::Requirement,
        ArtifactKind::Design => LoopPhase::Design,
        ArtifactKind::Task | ArtifactKind::Review => LoopPhase::Implement,
        ArtifactKind::Result => LoopPhase::Result,
        ArtifactKind::Reflection => LoopPhase::Reflect,
    }
}

/// The phase that an iteration belongs to. Triage produces no artifact and sits with the
/// issue; planning, implementing and reviewing all advance the implementation.
pub fn iteration_phase(stage: Stage) -> (phase: LoopPhase)
    ensures
        phase == phase_of_stage(stage),
{
    match stage {
        Stage::Triage => LoopPhase::Issue,
        Stage::Refine => LoopPhase::Requirement,
        Stage::Design => LoopPhase::Design,
        Stage::Plan | Stage::Implement | Stage::Review => LoopPhase::Implement,
        Stage::Finalize => LoopPhase::Result,
        Stage::Reflect => LoopPhase::Reflect,
    }
}

/// The phases compare as they are declared: issue, requirement, design, implementation,
/// result, reflection. Of two different phases exactly one comes before the other.
pub proof fn law_phase_order_is_declaration_order(a: LoopPhase, b: LoopPhase)
    ensures
        LoopPhase::Issue.rank() < LoopPhase::Requirement.rank() < LoopPhase::Design.rank()
            < LoopPhase::Implement.rank() < LoopPhase::Result.rank() < LoopPhase::Reflect.rank(),
        a.partial_cmp_spec(&b) == Some(Ordering::Less) <==> a.rank() < b.rank(),
        a.partial_cmp_spec(&b) == Some(Ordering::Equal) <==> a == b,
        a != b ==> (a.partial_cmp_spec(&b) == Some(Ordering::Less) <==> b.partial_cmp_spec(&a)
            == Some(Ordering::Greater)),
        a != b ==> (a.partial_cmp_spec(&b) == Some(Ordering::Less) || b.partial_cmp_spec(&a)
            == Some(Ordering::Less)),
{
}

/// The two classifiers agree: what a stage brings forth belongs to the phase of that stage, from
/// the requirement that refining brings to the reflection. Planning and reviewing belong with
/// implementing, as tasks and reviews do; triage belongs with the issue.
pub proof fn law_stages_and_artifacts_agree()
    ensures
        phase_of_stage(Stage::Triage) == phase_of_artifact(ArtifactKind::Issue),
        phase_of_stage(Stage::Refine) == phase_of_artifact(ArtifactKind::Requirement),
        phase_of_stage(Stage::Design) == phase_of_artifact(ArtifactKind::Design),
        phase_of_stage(Stage::Plan) == phase_of_artifact(ArtifactKind::Task),
        phase_of_stage(Stage::Implement) == phase_of_artifact(ArtifactKind::Task),
        phase_of_stage(Stage::Review) == phase_of_artifact(ArtifactKind::Review),
        phase_of_stage(Stage::Finalize) == phase_of_artifact(ArtifactKind::Result),
        phase_of_stage(Stage::Reflect) == phase_of_artifact(ArtifactKind::Reflection),
{
}

/// Every phase is that of an artifact, and the artifacts advance through the phases in order:
/// issue, requirement, design, implementation, result, reflection.
pub proof fn law_artifacts_advance_through_the_phases()
    ensures
        phase_of_artifact(ArtifactKind::Issue).rank() == 0,
        phase_of_artifact(ArtifactKind::Requirement).rank() == 1,
        phase_of_artifact(ArtifactKind::Design).rank() == 2,
        phase_of_artifact(ArtifactKind::Task).rank() == 3,
        phase_of_artifact(ArtifactKind::Review).rank() == 3,
        phase_of_artifact(ArtifactKind::Result).rank() == 4,
        phase_of_artifact(ArtifactKind::Reflection).rank() == 5,
        LoopPhase::Issue.rank() == 0,
        LoopPhase::Requirement.rank() == 1,
        LoopPhase::Design.rank() == 2,
        LoopPhase::Implement.rank() == 3,
        LoopPhase::Result.rank() == 4,
        LoopPhase::Reflect.rank() == 5,
{
}

} // verus!
