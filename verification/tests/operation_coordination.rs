use fm_application::error::ApplicationError;
use fm_application::operation_planner::{ConflictPolicy, ConflictResolution, Location, OperationKind};
use fm_application::operations::{
    IdempotencyKeys, ListedOperation, PageWindow, ScheduledOperation, SchedulerFailure,
    list_operations, sort_listed, conflict_command, ConflictAnswer, ConflictCommand, check_conflict_policy, copy_request,
    delete_request, map_scheduler_error, mutating_operation_kind, page_window,
};

#[test]
fn start_rejects_the_unimplemented_keep_newer_policy() {
    let error = check_conflict_policy(ConflictPolicy::KeepNewer)
        .expect_err("keepNewer must remain rejected");
    assert!(matches!(error, ApplicationError::InvalidRequest(_)));
    assert!(check_conflict_policy(ConflictPolicy::Overwrite).is_ok());
}

#[test]
fn actions_start_their_operations() {
    assert_eq!(mutating_operation_kind("core.pack"), Some(OperationKind::CreateArchive));
    assert_eq!(mutating_operation_kind("core.duplicate"), Some(OperationKind::Duplicate));
    assert_eq!(mutating_operation_kind("core.selectAll"), None);
    assert_eq!(mutating_operation_kind("core.Copy"), None);
}

#[test]
fn replays_answer_with_the_first_start() {
    let mut keys = IdempotencyKeys::new();
    assert_eq!(keys.replay("k"), None);
    keys.record("k".to_owned(), 7);
    keys.record("j".to_owned(), 8);
    keys.record("k".to_owned(), 9);
    assert_eq!(keys.replay("k"), Some(7));
    assert_eq!(keys.replay("j"), Some(8));
}

#[test]
fn pages_clamp_their_limit_and_stay_within_the_list() {
    assert_eq!(page_window(10, 0, 0), PageWindow { limit: 1, start: 0, end: 1 });
    assert_eq!(page_window(500, 450, 200), PageWindow { limit: 100, start: 450, end: 500 });
    assert_eq!(page_window(3, 9, 20), PageWindow { limit: 20, start: 3, end: 3 });
    assert_eq!(page_window(50, 10, 20), PageWindow { limit: 20, start: 10, end: 30 });
}

fn location(uri: &str) -> Location {
    Location { provider_id: "local".to_string(), uri: uri.to_string() }
}

#[test]
fn scheduler_refusals_map_to_application_errors() {
    assert_eq!(map_scheduler_error(SchedulerFailure::UnknownOperation), ApplicationError::NotFound);
    assert_eq!(
        map_scheduler_error(SchedulerFailure::Transition("cannot resume a completed operation".to_string())),
        ApplicationError::InvalidRequest("cannot resume a completed operation".to_string())
    );
    assert_eq!(map_scheduler_error(SchedulerFailure::Execution), ApplicationError::Internal);
}

#[test]
fn a_sync_copy_overwrites_into_the_other_sides_parent() {
    let start = copy_request(location("file:///left/docs/a.txt"), location("file:///right/docs"));
    assert_eq!(start.kind, OperationKind::Copy);
    assert_eq!(start.conflict_policy, ConflictPolicy::Overwrite);
    assert_eq!(start.request.sources, vec![location("file:///left/docs/a.txt")]);
    assert_eq!(start.request.destination, Some(location("file:///right/docs")));
    assert!(start.request.destinations.is_empty());
    assert!(!start.request.permanent_delete_confirmed);
    assert!(!start.request.override_read_only);
}

#[test]
fn a_sync_delete_is_permanent_and_already_confirmed() {
    let start = delete_request(location("file:///right/old.txt"));
    assert_eq!(start.kind, OperationKind::Delete);
    assert_eq!(start.conflict_policy, ConflictPolicy::Ask);
    assert_eq!(start.request.sources, vec![location("file:///right/old.txt")]);
    assert_eq!(start.request.destination, None);
    assert!(start.request.permanent_delete_confirmed);
}

fn scheduled(id: u128, created_at: i128, queued: bool, terminal: bool) -> ScheduledOperation {
    ScheduledOperation { id, created_at, queued, terminal }
}

fn row(id: u128, created_at: i128, queue_position: Option<u64>) -> ListedOperation {
    ListedOperation { id, created_at, queue_position }
}

#[test]
fn the_operation_list_is_newest_first_with_queue_places_oldest_first() {
    let active = vec![
        scheduled(1, 30, true, false),
        scheduled(2, 10, false, false),
        scheduled(3, 20, true, false),
        scheduled(4, 40, false, true),
    ];
    let history = vec![row(5, 25, None), row(6, 5, None), row(7, 30, None)];
    assert_eq!(
        list_operations(&active, &history),
        vec![
            row(1, 30, Some(2)),
            row(7, 30, None),
            row(5, 25, None),
            row(3, 20, Some(1)),
            row(2, 10, None),
            row(6, 5, None),
        ]
    );
}

#[test]
fn sorting_rows_keeps_ties_in_their_order() {
    let rows = vec![row(1, 5, None), row(2, 3, None), row(3, 5, Some(1)), row(4, 3, None)];
    assert_eq!(
        sort_listed(&rows, false),
        vec![row(2, 3, None), row(4, 3, None), row(1, 5, None), row(3, 5, Some(1))]
    );
    assert_eq!(
        sort_listed(&rows, true),
        vec![row(1, 5, None), row(3, 5, Some(1)), row(2, 3, None), row(4, 3, None)]
    );
}

#[test]
fn queue_places_follow_creation_time_and_then_scheduler_order() {
    let active = vec![scheduled(8, 7, true, false), scheduled(9, 7, true, false)];
    assert_eq!(list_operations(&active, &Vec::new()), vec![row(8, 7, Some(1)), row(9, 7, Some(2))]);
}

#[test]
fn conflict_answers_become_scheduler_commands() {
    assert_eq!(conflict_command(ConflictAnswer::Confirm), ConflictCommand::Confirm);
    assert_eq!(conflict_command(ConflictAnswer::Skip), ConflictCommand::Resolve(ConflictResolution::Skip));
    assert_eq!(
        conflict_command(ConflictAnswer::Overwrite),
        ConflictCommand::Resolve(ConflictResolution::Overwrite)
    );
    assert_eq!(
        conflict_command(ConflictAnswer::RenameNew),
        ConflictCommand::Resolve(ConflictResolution::RenameNew)
    );
}

#[test]
fn keep_newer_is_refused_before_a_recorded_key_is_replayed() {
    let mut keys = IdempotencyKeys::new();
    keys.record("k".to_owned(), 7);
    match keys.admit_start(ConflictPolicy::KeepNewer, Some("k")) {
        Err(ApplicationError::InvalidRequest(message)) => assert_eq!(
            message,
            "keepNewer conflict policy is not supported yet; choose ask, skip, overwrite, or renameNew"
        ),
        other => panic!("unexpected {other:?}"),
    }
    assert_eq!(keys.admit_start(ConflictPolicy::Overwrite, Some("k")), Ok(Some(7)));
    assert_eq!(keys.admit_start(ConflictPolicy::Skip, Some("other")), Ok(None));
    assert_eq!(keys.admit_start(ConflictPolicy::Ask, None), Ok(None));
}
