use codeg::loop_phase::{artifact_phase, iteration_phase, ArtifactKind, LoopPhase, Stage};

#[test]
fn phase_order_is_declaration_order() {
    assert!(LoopPhase::Issue < LoopPhase::Requirement);
    assert!(LoopPhase::Requirement < LoopPhase::Design);
    assert!(LoopPhase::Design < LoopPhase::Implement);
    assert!(LoopPhase::Implement < LoopPhase::Result);
    assert!(LoopPhase::Result < LoopPhase::Reflect);
}

#[test]
fn artifact_phase_maps_every_kind() {
    for kind in [
        ArtifactKind::Issue,
        ArtifactKind::Requirement,
        ArtifactKind::Design,
        ArtifactKind::Task,
        ArtifactKind::Review,
        ArtifactKind::Result,
        ArtifactKind::Reflection,
    ] {
        let phase = artifact_phase(kind);
        let expected = match kind {
            ArtifactKind::Issue => LoopPhase::Issue,
            ArtifactKind::Requirement => LoopPhase::Requirement,
            ArtifactKind::Design => LoopPhase::Design,
            ArtifactKind::Task => LoopPhase::Implement,
            ArtifactKind::Review => LoopPhase::Implement,
            ArtifactKind::Result => LoopPhase::Result,
            ArtifactKind::Reflection => LoopPhase::Reflect,
        };
        assert_eq!(phase, expected, "artifact_phase({kind:?})");
    }
}

#[test]
fn iteration_phase_maps_every_stage() {
    for stage in [
        Stage::Triage,
        Stage::Refine,
        Stage::Design,
        Stage::Plan,
        Stage::Implement,
        Stage::Review,
        Stage::Finalize,
        Stage::Reflect,
    ] {
        let phase = iteration_phase(stage);
        let expected = match stage {
            Stage::Triage => LoopPhase::Issue,
            Stage::Refine => LoopPhase::Requirement,
            Stage::Design => LoopPhase::Design,
            Stage::Plan => LoopPhase::Implement,
            Stage::Implement => LoopPhase::Implement,
            Stage::Review => LoopPhase::Implement,
            Stage::Finalize => LoopPhase::Result,
            Stage::Reflect => LoopPhase::Reflect,
        };
        assert_eq!(phase, expected, "iteration_phase({stage:?})");
    }
}

#[test]
fn phase_orderings_agree() {
    let phases = [
        LoopPhase::Issue,
        LoopPhase::Requirement,
        LoopPhase::Design,
        LoopPhase::Implement,
        LoopPhase::Result,
        LoopPhase::Reflect,
    ];
    for i in 0..phases.len() {
        for j in 0..phases.len() {
            assert_eq!(phases[i].cmp(&phases[j]), i.cmp(&j));
            assert_eq!(phases[i].partial_cmp(&phases[j]), Some(i.cmp(&j)));
            assert_eq!(phases[i] == phases[j], i == j);
        }
    }
}
