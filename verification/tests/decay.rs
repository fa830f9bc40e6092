use crablet::decay::{DecayCycleResult, DecayEventType, DecayModel};

#[test]
fn a_fresh_cycle_did_nothing() {
    let r = DecayCycleResult::default();
    assert_eq!((r.memories_updated, r.memories_forgotten, r.memories_needing_review, r.cycle_duration_ms), (0, 0, 0, 0));
    assert_ne!(DecayModel::Adaptive, DecayModel::PowerLaw);
    assert_eq!(DecayEventType::Pinned, DecayEventType::Pinned);
}
