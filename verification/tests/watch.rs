use cardamon::watch::{
    filter_relevant, is_relevant_event, should_rebuild, FsCreateKind, FsEventKind, FsModifyKind,
    FsRemoveKind, Supervisor, SupervisorAction, SupervisorState,
};

#[test]
fn creations_modifications_renames_and_removals_are_relevant() {
    assert!(is_relevant_event(&FsEventKind::Create(FsCreateKind::File)));
    assert!(is_relevant_event(&FsEventKind::Create(FsCreateKind::Folder)));
    assert!(is_relevant_event(&FsEventKind::Create(FsCreateKind::Any)));
    assert!(is_relevant_event(&FsEventKind::Modify(FsModifyKind::Data)));
    assert!(is_relevant_event(&FsEventKind::Modify(FsModifyKind::Name)));
    assert!(is_relevant_event(&FsEventKind::Modify(FsModifyKind::Any)));
    assert!(is_relevant_event(&FsEventKind::Remove(FsRemoveKind::File)));
    assert!(is_relevant_event(&FsEventKind::Remove(FsRemoveKind::Folder)));
    assert!(is_relevant_event(&FsEventKind::Remove(FsRemoveKind::Any)));
}

#[test]
fn metadata_only_and_other_events_are_not_relevant() {
    assert!(!is_relevant_event(&FsEventKind::Modify(FsModifyKind::Metadata)));
    assert!(!is_relevant_event(&FsEventKind::Modify(FsModifyKind::Other)));
    assert!(!is_relevant_event(&FsEventKind::Create(FsCreateKind::Other)));
    assert!(!is_relevant_event(&FsEventKind::Remove(FsRemoveKind::Other)));
    assert!(!is_relevant_event(&FsEventKind::Access));
    assert!(!is_relevant_event(&FsEventKind::Any));
    assert!(!is_relevant_event(&FsEventKind::Other));
}

#[test]
fn filter_keeps_relevant_events_in_order() {
    let events = vec![
        FsEventKind::Modify(FsModifyKind::Metadata),
        FsEventKind::Create(FsCreateKind::File),
        FsEventKind::Access,
        FsEventKind::Remove(FsRemoveKind::File),
    ];
    let kept = filter_relevant(&events);
    assert_eq!(kept.len(), 2);
    assert_eq!(kept[0], FsEventKind::Create(FsCreateKind::File));
    assert_eq!(kept[1], FsEventKind::Remove(FsRemoveKind::File));
}

#[test]
fn metadata_only_batch_never_triggers_a_rebuild() {
    let events = vec![
        FsEventKind::Modify(FsModifyKind::Metadata),
        FsEventKind::Modify(FsModifyKind::Metadata),
        FsEventKind::Access,
    ];
    assert!(!should_rebuild(&events));
    let mut sup = Supervisor::new();
    assert_eq!(sup.on_batch(&events), SupervisorAction::Wait);
    assert_eq!(sup.state, SupervisorState::Watching);
}

#[test]
fn five_relevant_events_in_one_window_cause_one_rebuild() {
    let events = vec![
        FsEventKind::Create(FsCreateKind::File),
        FsEventKind::Modify(FsModifyKind::Data),
        FsEventKind::Modify(FsModifyKind::Name),
        FsEventKind::Remove(FsRemoveKind::File),
        FsEventKind::Create(FsCreateKind::Folder),
    ];
    assert!(should_rebuild(&events));
    let mut sup = Supervisor::new();
    let action = sup.on_batch(&events);
    assert_eq!(action, SupervisorAction::StartRebuild);
    assert_eq!(sup.state, SupervisorState::Rebuilding);
    assert!(!sup.pending);
    assert_eq!(sup.on_rebuild_finished(true), SupervisorAction::Wait);
    assert_eq!(sup.state, SupervisorState::Watching);
}

#[test]
fn batch_during_a_rebuild_coalesces_into_one_more() {
    let relevant = vec![FsEventKind::Create(FsCreateKind::File)];
    let mut sup = Supervisor::new();
    assert_eq!(sup.on_batch(&relevant), SupervisorAction::StartRebuild);
    assert_eq!(sup.on_batch(&relevant), SupervisorAction::Wait);
    assert_eq!(sup.on_batch(&relevant), SupervisorAction::Wait);
    assert!(sup.pending);
    assert_eq!(sup.on_rebuild_finished(true), SupervisorAction::StartRebuild);
    assert!(!sup.pending);
    assert_eq!(sup.on_rebuild_finished(true), SupervisorAction::Wait);
    assert_eq!(sup.state, SupervisorState::Watching);
}

#[test]
fn a_failed_rebuild_is_tolerated() {
    let relevant = vec![FsEventKind::Modify(FsModifyKind::Data)];
    let mut sup = Supervisor::new();
    assert_eq!(sup.on_batch(&relevant), SupervisorAction::StartRebuild);
    assert_eq!(sup.on_rebuild_finished(false), SupervisorAction::Wait);
    assert_eq!(sup.state, SupervisorState::Watching);
    assert_eq!(sup.on_batch(&relevant), SupervisorAction::StartRebuild);
    assert_eq!(sup.state, SupervisorState::Rebuilding);
}
