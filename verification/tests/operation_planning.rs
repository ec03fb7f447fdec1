use fm_application::operation_planner::{
    CopyAction, CopyBookkeeping, CopyResult, EntryKind, ExistingDestinationStep, copy_action,
    copy_bookkeeping, existing_destination_step,
};
use fm_application::operation_planner::{
    ArchiveCreationFormat, ArchiveFormat, CommitOptions, CommitOutcome, CommitStep,
    ConflictPolicy, ConflictResolution, Location, MoveStrategy, OperationKind, OperationRecipe,
    OperationRequest, PlanRejection, TransferCapabilities, TransferPlan, TransferStrategy,
    UndoShape, archive_compression_level, commit_options, commit_step, copy_name,
    effective_resolution, plan_operation, undo_move_request, undo_shape,
};

/// Capabilities of a backend that can clone and rename entirely on its own
/// server (the local filesystem's shape).
fn native(endpoint: &str) -> TransferCapabilities {
    TransferCapabilities {
        endpoint: endpoint.to_owned(),
        server_side_copy: true,
        server_side_move: true,
        resumable_upload: false,
        resumable_download: false,
        random_read: true,
        random_write: false,
    }
}

/// Capabilities of a remote backend that can rename in place but has no
/// server-side clone (the SFTP/FTP shape).
fn remote(endpoint: &str) -> TransferCapabilities {
    TransferCapabilities {
        endpoint: endpoint.to_owned(),
        server_side_copy: false,
        server_side_move: true,
        resumable_upload: false,
        resumable_download: false,
        random_read: false,
        random_write: false,
    }
}

fn location(provider_id: &str, uri: &str) -> Location {
    Location {
        provider_id: provider_id.to_owned(),
        uri: uri.to_owned(),
    }
}

fn empty_request() -> OperationRequest {
    OperationRequest {
        sources: Vec::new(),
        destination: None,
        destinations: Vec::new(),
        name: None,
        archive_format: None,
        archive_compression_level: None,
        create_intermediate_directories: false,
        permanent_delete_confirmed: false,
        override_read_only: false,
    }
}

fn invalid_text(result: Result<OperationRecipe, PlanRejection>) -> String {
    match result {
        Err(PlanRejection::InvalidRequest(text)) => text,
        Err(PlanRejection::TrashUnsupported) => panic!("unexpected trash refusal"),
        Ok(recipe) => panic!("expected a refusal, got {recipe:?}"),
    }
}

#[test]
fn same_backend_with_a_native_clone_uses_the_server_side_copy() {
    let plan = TransferPlan::select(&native("local"), &native("local"));

    assert_eq!(plan.strategy, TransferStrategy::ServerSideCopy);
    assert_eq!(plan.move_strategy, MoveStrategy::ServerSideMove);
    assert!(plan.same_endpoint);
}

#[test]
fn same_backend_without_a_native_clone_still_streams_but_moves_natively() {
    let plan = TransferPlan::select(&remote("sftp:a"), &remote("sftp:a"));

    assert_eq!(plan.strategy, TransferStrategy::DirectStream);
    assert_eq!(plan.move_strategy, MoveStrategy::ServerSideMove);
    assert!(plan.same_endpoint);
}

#[test]
fn two_connections_of_the_same_provider_type_are_never_one_backend() {
    let plan = TransferPlan::select(&remote("sftp:a"), &remote("sftp:b"));

    assert_eq!(plan.strategy, TransferStrategy::DirectStream);
    assert_eq!(plan.move_strategy, MoveStrategy::CopyThenDelete);
    assert!(!plan.same_endpoint);
}

#[test]
fn a_remote_to_remote_transfer_streams_directly_without_local_staging() {
    for (source, destination) in [
        (remote("sftp:a"), remote("ftp:x")),
        (remote("ftp:x"), remote("sftp:a")),
    ] {
        let plan = TransferPlan::select(&source, &destination);
        assert_eq!(plan.strategy, TransferStrategy::DirectStream);
        assert_eq!(plan.move_strategy, MoveStrategy::CopyThenDelete);
        assert!(!plan.same_endpoint);
    }
}

#[test]
fn transfer_plan_carries_only_the_destinations_resumable_upload_capability() {
    let mut resumable_destination = remote("sftp:a");
    resumable_destination.resumable_upload = true;
    let mut resumable_source = remote("sftp:b");
    resumable_source.resumable_upload = true;

    let plan = TransferPlan::select(&remote("sftp:b"), &resumable_destination);
    assert!(plan.destination_resumable_upload);

    let plan = TransferPlan::select(&remote("sftp:b"), &remote("sftp:a"));
    assert!(!plan.destination_resumable_upload);

    let plan = TransferPlan::select(&resumable_source, &remote("sftp:a"));
    assert!(!plan.destination_resumable_upload);
}

#[test]
fn every_direction_pair_across_five_backends_resolves_consistently() {
    let backends = [
        ("local", native("local")),
        ("sftp:a", remote("sftp:a")),
        ("sftp:b", remote("sftp:b")),
        ("ftp:x", remote("ftp:x")),
        ("ftps:x", remote("ftps:x")),
    ];

    let mut server_side_copies = Vec::new();
    let mut server_side_moves = Vec::new();
    for (source_name, source) in &backends {
        for (destination_name, destination) in &backends {
            let plan = TransferPlan::select(source, destination);
            let pair = format!("{source_name} -> {destination_name}");

            let reversed = TransferPlan::select(destination, source);
            assert_eq!(
                plan.same_endpoint, reversed.same_endpoint,
                "endpoint identity must be symmetric for {pair}"
            );
            assert_eq!(
                plan.same_endpoint,
                source_name == destination_name,
                "only identical backends may share an endpoint ({pair})"
            );
            assert!(
                !plan.destination_resumable_upload,
                "no backend in this matrix advertises resumable_upload ({pair})"
            );
            if !plan.same_endpoint {
                assert_eq!(plan.strategy, TransferStrategy::DirectStream, "{pair}");
                assert_eq!(plan.move_strategy, MoveStrategy::CopyThenDelete, "{pair}");
            }
            if plan.strategy == TransferStrategy::ServerSideCopy {
                server_side_copies.push(pair.clone());
            }
            if plan.move_strategy == MoveStrategy::ServerSideMove {
                server_side_moves.push(pair);
            }
        }
    }

    assert_eq!(server_side_copies, vec!["local -> local".to_owned()]);
    assert_eq!(
        server_side_moves,
        vec![
            "local -> local".to_owned(),
            "sftp:a -> sftp:a".to_owned(),
            "sftp:b -> sftp:b".to_owned(),
            "ftp:x -> ftp:x".to_owned(),
            "ftps:x -> ftps:x".to_owned(),
        ]
    );
}

#[test]
fn a_backend_that_cannot_move_natively_falls_back_to_copy_then_delete() {
    let mut immobile = native("archive:/tmp/a.zip");
    immobile.server_side_move = false;

    let plan = TransferPlan::select(&immobile, &immobile);

    assert!(plan.same_endpoint);
    assert_eq!(plan.strategy, TransferStrategy::ServerSideCopy);
    assert_eq!(plan.move_strategy, MoveStrategy::CopyThenDelete);
}

#[test]
fn a_destination_that_cannot_clone_forces_streaming_even_on_one_backend() {
    let source = native("local");
    let mut destination = native("local");
    destination.server_side_copy = false;

    let plan = TransferPlan::select(&source, &destination);

    assert!(plan.same_endpoint);
    assert_eq!(plan.strategy, TransferStrategy::DirectStream);
}

#[test]
fn archive_zip_format_inferred_from_extension() {
    assert_eq!(
        ArchiveCreationFormat::from_request("/tmp/archive.zip", None).ok(),
        Some(ArchiveCreationFormat::Zip),
    );
}

#[test]
fn archive_7z_format_inferred_from_extension() {
    assert_eq!(
        ArchiveCreationFormat::from_request("/tmp/archive.7z", None).ok(),
        Some(ArchiveCreationFormat::SevenZip),
    );
}

#[test]
fn archive_format_mismatch_is_rejected() {
    let result = ArchiveCreationFormat::from_request("/tmp/archive.zip", Some(ArchiveFormat::SevenZip));
    assert!(result.is_err());
}

#[test]
fn archive_unknown_extension_is_rejected() {
    let result = ArchiveCreationFormat::from_request("/tmp/archive.tar", None);
    assert!(result.is_err());
}

#[test]
fn empty_sources_rejected_for_each_operation() {
    for kind in [
        OperationKind::Copy,
        OperationKind::Move,
        OperationKind::Duplicate,
        OperationKind::Delete,
        OperationKind::Trash,
        OperationKind::CreateArchive,
    ] {
        let result = plan_operation(kind, &empty_request(), false, true);
        assert!(result.is_err(), "{:?} should reject empty sources", kind);
    }
}

#[test]
fn search_returns_error() {
    let result = plan_operation(OperationKind::Search, &empty_request(), false, true);
    assert!(invalid_text(result).contains("start_search"));
}

#[test]
fn trash_platform_capability_rejected() {
    let mut request = empty_request();
    request.sources = vec![location("file", "file:///some/file")];
    let result = plan_operation(OperationKind::Trash, &request, false, true);
    assert!(matches!(result, Err(PlanRejection::TrashUnsupported)));
}

#[test]
fn archive_extension_is_matched_in_any_ascii_case() {
    assert_eq!(
        ArchiveCreationFormat::from_request("/tmp/ARCHIVE.ZIP", None).ok(),
        Some(ArchiveCreationFormat::Zip),
    );
    assert_eq!(
        ArchiveCreationFormat::from_request("/tmp/a.7Z", Some(ArchiveFormat::SevenZip)).ok(),
        Some(ArchiveCreationFormat::SevenZip),
    );
    match ArchiveCreationFormat::from_request("/tmp/archive", None) {
        Err(e) => assert_eq!(
            e,
            fm_application::error::ApplicationError::InvalidRequest(
                "archive destination must end in .zip or .7z".to_owned()
            )
        ),
        Ok(_) => panic!("an archive without an extension must be refused"),
    }
}

#[test]
fn compression_levels_follow_the_format() {
    assert_eq!(archive_compression_level(ArchiveCreationFormat::Zip, None).ok(), Some(6));
    assert_eq!(archive_compression_level(ArchiveCreationFormat::Zip, Some(0)).ok(), Some(0));
    assert_eq!(archive_compression_level(ArchiveCreationFormat::Zip, Some(9)).ok(), Some(9));
    assert!(archive_compression_level(ArchiveCreationFormat::Zip, Some(10)).is_err());
    assert!(archive_compression_level(ArchiveCreationFormat::Zip, Some(-1)).is_err());
    assert_eq!(archive_compression_level(ArchiveCreationFormat::SevenZip, None).ok(), Some(6));
    assert!(archive_compression_level(ArchiveCreationFormat::SevenZip, Some(6)).is_err());
}

#[test]
fn copy_names_keep_the_extension_last() {
    assert_eq!(copy_name("report.pdf", 1), "report (copy 1).pdf");
    assert_eq!(copy_name("archive.tar.gz", 2), "archive.tar (copy 2).gz");
    assert_eq!(copy_name("README", 12), "README (copy 12)");
    assert_eq!(copy_name(".bashrc", 3), ".bashrc (copy 3)");
}

#[test]
fn explicit_resolutions_win_over_the_policy() {
    assert_eq!(
        effective_resolution(ConflictPolicy::Skip, Some(ConflictResolution::Overwrite)),
        Some(ConflictResolution::Overwrite)
    );
    assert_eq!(effective_resolution(ConflictPolicy::Skip, None), Some(ConflictResolution::Skip));
    assert_eq!(effective_resolution(ConflictPolicy::Ask, None), None);
    assert_eq!(effective_resolution(ConflictPolicy::KeepNewer, None), None);
    assert_eq!(
        effective_resolution(ConflictPolicy::RenameNew, None),
        Some(ConflictResolution::RenameNew)
    );
}

#[test]
fn a_taken_name_is_renamed_reported_or_failed_by_resolution() {
    assert_eq!(
        commit_step(Some(ConflictResolution::RenameNew), CommitOutcome::AlreadyExists, 1),
        CommitStep::RetryAsCopy { suffix: 1, next_suffix: 2 }
    );
    assert_eq!(
        commit_step(Some(ConflictResolution::RenameNew), CommitOutcome::AlreadyExists, u32::MAX),
        CommitStep::RetryAsCopy { suffix: u32::MAX, next_suffix: u32::MAX }
    );
    assert_eq!(commit_step(None, CommitOutcome::AlreadyExists, 1), CommitStep::ReportConflict);
    assert_eq!(
        commit_step(Some(ConflictResolution::Overwrite), CommitOutcome::AlreadyExists, 1),
        CommitStep::Fail
    );
    assert_eq!(commit_step(None, CommitOutcome::Committed, 4), CommitStep::Done);
    assert_eq!(commit_step(None, CommitOutcome::Failed, 4), CommitStep::Fail);
}

#[test]
fn metadata_is_preserved_only_on_one_backend() {
    let same = TransferPlan::select(&native("local"), &native("local"));
    let across = TransferPlan::select(&native("local"), &remote("sftp:a"));
    assert_eq!(
        commit_options(same, Some(ConflictResolution::Overwrite), true),
        CommitOptions { overwrite: true, preserve_metadata: true }
    );
    assert_eq!(
        commit_options(across, None, true),
        CommitOptions { overwrite: false, preserve_metadata: false }
    );
    assert_eq!(
        commit_options(same, Some(ConflictResolution::Skip), false),
        CommitOptions { overwrite: false, preserve_metadata: false }
    );
}

#[test]
fn archive_requests_are_planned_with_their_format_and_level() {
    let mut request = empty_request();
    request.sources = vec![location("file", "file:///tmp/a.txt")];
    request.destination = Some(location("file", "file:///tmp/out.zip"));
    match plan_operation(OperationKind::MoveToArchive, &request, true, true) {
        Ok(OperationRecipe::CreateArchive {
            destination,
            sources,
            format,
            compression_level,
            remove_sources,
        }) => {
            assert_eq!(destination, location("file", "file:///tmp/out.zip"));
            assert_eq!(sources, vec![location("file", "file:///tmp/a.txt")]);
            assert_eq!(format, ArchiveCreationFormat::Zip);
            assert_eq!(compression_level, 6);
            assert!(remove_sources);
        }
        other => panic!("unexpected plan {other:?}"),
    }
    request.archive_compression_level = Some(11);
    assert_eq!(
        invalid_text(plan_operation(OperationKind::CreateArchive, &request, true, true)),
        "archive compression level must be between 0 and 9"
    );
    request.destination = None;
    assert_eq!(
        invalid_text(plan_operation(OperationKind::CreateArchive, &request, true, true)),
        "createArchive requires an archive destination"
    );
}

#[test]
fn renames_never_cross_providers() {
    let mut request = empty_request();
    request.sources = vec![location("file", "file:///a"), location("file", "file:///b")];
    request.destinations = vec![location("file", "file:///c"), location("sftp", "sftp://x/d")];
    assert_eq!(
        invalid_text(plan_operation(OperationKind::Rename, &request, true, true)),
        "rename cannot cross providers"
    );
    request.destinations = vec![location("file", "file:///c")];
    assert_eq!(
        invalid_text(plan_operation(OperationKind::Rename, &request, true, true)),
        "rename destinations must include exactly one entry per source"
    );
    request.destinations = vec![location("file", "file:///c"), location("file", "file:///d")];
    match plan_operation(OperationKind::Rename, &request, true, true) {
        Ok(OperationRecipe::RenameGroup { renames }) => {
            assert_eq!(renames.len(), 2);
            assert_eq!(renames[1], (location("file", "file:///b"), location("file", "file:///d")));
        }
        other => panic!("unexpected plan {other:?}"),
    }
    let mut single = empty_request();
    single.sources = vec![location("file", "file:///a")];
    assert_eq!(
        invalid_text(plan_operation(OperationKind::Rename, &single, true, true)),
        "rename requires a destination"
    );
    single.destination = Some(location("file", "file:///z"));
    assert!(matches!(
        plan_operation(OperationKind::Rename, &single, true, true),
        Ok(OperationRecipe::Rename { .. })
    ));
}

#[test]
fn permanent_delete_needs_confirmation_only_when_asked_and_not_given() {
    let mut request = empty_request();
    request.sources = vec![location("file", "file:///a")];
    let confirmation = |request: &OperationRequest, setting: bool| {
        match plan_operation(OperationKind::Delete, request, true, setting) {
            Ok(OperationRecipe::Delete { requires_confirmation, .. }) => requires_confirmation,
            other => panic!("unexpected plan {other:?}"),
        }
    };
    assert!(confirmation(&request, true));
    assert!(!confirmation(&request, false));
    request.permanent_delete_confirmed = true;
    assert!(!confirmation(&request, true));
}

#[test]
fn creating_entries_needs_a_parent_and_a_name() {
    let mut request = empty_request();
    assert_eq!(
        invalid_text(plan_operation(OperationKind::CreateFile, &request, true, true)),
        "createFile requires a destination directory"
    );
    request.destination = Some(location("file", "file:///tmp"));
    assert_eq!(
        invalid_text(plan_operation(OperationKind::CreateDirectory, &request, true, true)),
        "createDirectory requires a name"
    );
    request.name = Some("new".to_owned());
    request.create_intermediate_directories = true;
    match plan_operation(OperationKind::CreateDirectory, &request, true, true) {
        Ok(OperationRecipe::CreateDirectory { parent, name, create_intermediates }) => {
            assert_eq!(parent, location("file", "file:///tmp"));
            assert_eq!(name, "new");
            assert!(create_intermediates);
        }
        other => panic!("unexpected plan {other:?}"),
    }
    assert!(invalid_text(plan_operation(OperationKind::Undo, &request, true, true))
        .contains("undo endpoint"));
}

#[test]
fn undo_plans_need_actions_and_a_lone_cross_provider_move() {
    match undo_shape(&Vec::new()) {
        Err(PlanRejection::InvalidRequest(text)) => {
            assert_eq!(text, "This operation has no effects to undo.")
        }
        other => panic!("unexpected shape {other:?}"),
    }
    assert_eq!(undo_shape(&vec![false, false]), Ok(UndoShape::InPlace));
    assert_eq!(undo_shape(&vec![true]), Ok(UndoShape::CrossProviderMoveBack { index: 0 }));
    assert!(matches!(
        undo_shape(&vec![false, true]),
        Err(PlanRejection::InvalidRequest(_))
    ));
    let request = undo_move_request(location("sftp", "sftp://x/a"), location("file", "file:///dir"));
    match plan_operation(OperationKind::Move, &request, true, true) {
        Ok(OperationRecipe::Move { sources, destination_directory }) => {
            assert_eq!(sources, vec![location("sftp", "sftp://x/a")]);
            assert_eq!(destination_directory, location("file", "file:///dir"));
        }
        other => panic!("unexpected plan {other:?}"),
    }
}

#[test]
fn existing_destinations_follow_the_resolution() {
    assert_eq!(
        existing_destination_step(EntryKind::File, EntryKind::Directory, EntryKind::File, true, None),
        ExistingDestinationStep::KindMismatch
    );
    assert_eq!(
        existing_destination_step(EntryKind::File, EntryKind::File, EntryKind::File, true, None),
        ExistingDestinationStep::ReportConflict
    );
    assert_eq!(
        existing_destination_step(
            EntryKind::Directory,
            EntryKind::Directory,
            EntryKind::Directory,
            true,
            Some(ConflictResolution::Overwrite)
        ),
        ExistingDestinationStep::Overwrite { reuse_directory: true, remove_existing: false }
    );
    assert_eq!(
        existing_destination_step(
            EntryKind::Symlink,
            EntryKind::Symlink,
            EntryKind::Symlink,
            false,
            Some(ConflictResolution::Overwrite)
        ),
        ExistingDestinationStep::Overwrite { reuse_directory: false, remove_existing: true }
    );
    assert_eq!(
        existing_destination_step(
            EntryKind::Directory,
            EntryKind::Directory,
            EntryKind::Directory,
            true,
            Some(ConflictResolution::RenameNew)
        ),
        ExistingDestinationStep::RenameNew { rebase_descendants: true }
    );
    assert_eq!(copy_action(EntryKind::Directory, true), CopyAction::KeepDirectory);
    assert_eq!(copy_action(EntryKind::Symlink, false), CopyAction::CopySymlink);
    assert_eq!(
        copy_bookkeeping(CopyResult::Failed, true, false, false),
        CopyBookkeeping { failure_is_warning: true, record_created: false, record_root: false }
    );
    assert_eq!(
        copy_bookkeeping(CopyResult::Skipped, true, true, false),
        CopyBookkeeping { failure_is_warning: false, record_created: false, record_root: true }
    );
}

#[test]
fn read_only_entries_need_an_override_or_a_pending_confirmation() {
    assert_eq!(
        fm_application::operation_planner::check_read_only_delete(true, false, false, "file:///a"),
        Err("read-only entry requires explicit override: file:///a".to_owned())
    );
    assert_eq!(
        fm_application::operation_planner::check_read_only_delete(true, true, false, "file:///a"),
        Ok(())
    );
    assert_eq!(
        fm_application::operation_planner::check_read_only_delete(true, false, true, "file:///a"),
        Ok(())
    );
    let plan = TransferPlan::select(&native("local"), &native("local"));
    assert!(fm_application::operation_planner::attempts_native_move(false, plan));
    assert!(!fm_application::operation_planner::attempts_native_move(true, plan));
}

#[test]
fn copy_names_split_plain_names_at_their_last_dot() {
    assert_eq!(copy_name("notes.", 1), "notes (copy 1).");
    assert_eq!(copy_name("..hidden", 2), ". (copy 2).hidden");
    assert_eq!(copy_name("a.b.c", 4), "a.b (copy 4).c");
}
