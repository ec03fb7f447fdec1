use fm_application::semantic_components::fake::{
    validate_fake_local_model, FakeSemanticComponentCapability, FakeSemanticComponentScenario,
};
use fm_application::semantic_components::provided::{
    AdministratorProvisionedSemanticComponentCapability, UnavailableSemanticComponentCapability,
};
use fm_application::semantic_components::{
    semantic_model_migration_id_from_transport, InstallationOfferId, RemoveSemanticIndexRequest,
    SemanticCategoryDiskUse, SemanticComponentAuthority, SemanticComponentCapabilities,
    SemanticComponentError, SemanticComponentLifecycle, SemanticComponentOperation,
    SemanticComponentStatus, SemanticDataCategory, SemanticDiskUse, SemanticEmbeddingNormalization,
    SemanticIndexRecordCounts, SemanticIndexRemovalConfirmation, SemanticIndexRemovalPlanId,
    SemanticIndexRetentionDecision, SemanticInstallationConsent, SemanticLocalModelImportRequest,
    SemanticModelImportField, SemanticModelMigrationCheckpoint, SemanticModelMigrationConfirmation,
    SemanticModelMigrationId, SemanticProfile, SemanticReindexEstimate, RuntimeExecutableDownload,
    DesktopSemanticDistribution,
};

fn import_request() -> SemanticLocalModelImportRequest {
    SemanticLocalModelImportRequest {
        source_path: "/models/local.onnx".to_owned(),
        model_id: "local-model".to_owned(),
        upstream_revision: "rev-1".to_owned(),
        license_spdx: "MIT".to_owned(),
        license_notice: "notice".to_owned(),
        tokenizer: "tok".to_owned(),
        dimensions: 384,
        normalization: Some(SemanticEmbeddingNormalization::UnitLength),
        runtime_component_id: "runtime".to_owned(),
        runtime_version_requirement: "^1".to_owned(),
        language_coverage: vec!["en".to_owned()],
        estimated_disk_bytes: 10,
        estimated_ram_bytes: 20,
    }
}

fn import_error(request: &SemanticLocalModelImportRequest) -> Option<SemanticModelImportField> {
    match validate_fake_local_model(request) {
        Ok(()) => None,
        Err(SemanticComponentError::InvalidLocalModelMetadata { field }) => Some(field),
        Err(other) => panic!("unexpected error {other:?}"),
    }
}

#[test]
fn capability_reports_normalize_operations_into_presentation_order() {
    let report = SemanticComponentCapabilities::new(
        SemanticComponentAuthority::DesktopManaged,
        vec![
            SemanticComponentOperation::MoveData,
            SemanticComponentOperation::ViewStatus,
            SemanticComponentOperation::MoveData,
        ],
        RuntimeExecutableDownload::DirectDistribution,
    );
    assert_eq!(
        report.operations(),
        &[SemanticComponentOperation::ViewStatus, SemanticComponentOperation::MoveData]
    );
    assert!(report.supports(SemanticComponentOperation::MoveData));
    assert!(!report.supports(SemanticComponentOperation::RemoveIndex));
    let desktop = SemanticComponentCapabilities::desktop_managed(DesktopSemanticDistribution::MacAppStore, false);
    assert!(!desktop.supports(SemanticComponentOperation::RemoveIndex));
    assert!(!desktop.supports(SemanticComponentOperation::CheckpointModelMigration));
    assert!(desktop.supports(SemanticComponentOperation::ImportLocalModel));
    assert_eq!(
        desktop.runtime_executable_download(),
        RuntimeExecutableDownload::ProhibitedByMacAppStore
    );
}

#[test]
fn disk_use_is_normalized_into_every_category_and_overflow_is_refused() {
    let disk = SemanticDiskUse::from_categories(vec![
        SemanticCategoryDiskUse::new(SemanticDataCategory::Models, 5),
        SemanticCategoryDiskUse::new(SemanticDataCategory::Catalog, 2),
        SemanticCategoryDiskUse::new(SemanticDataCategory::Models, 7),
    ])
    .unwrap();
    let categories: Vec<_> = disk.categories().iter().map(|c| (c.category(), c.bytes())).collect();
    assert_eq!(
        categories,
        vec![
            (SemanticDataCategory::Catalog, 2),
            (SemanticDataCategory::Extracted, 0),
            (SemanticDataCategory::Zvec, 0),
            (SemanticDataCategory::EmbeddingCache, 0),
            (SemanticDataCategory::Models, 7),
            (SemanticDataCategory::Workers, 0),
        ]
    );
    assert_eq!(disk.total_bytes(), 9);
    assert_eq!(SemanticDiskUse::empty().total_bytes(), 0);
    assert_eq!(
        SemanticDiskUse::from_categories(vec![
            SemanticCategoryDiskUse::new(SemanticDataCategory::Models, u64::MAX),
            SemanticCategoryDiskUse::new(SemanticDataCategory::Workers, 1),
        ])
        .unwrap_err(),
        SemanticComponentError::DiskUseOverflow
    );
}

#[test]
fn blank_transport_identities_are_refused() {
    assert_eq!(
        InstallationOfferId::new("  ".to_owned()).unwrap_err(),
        SemanticComponentError::ConsentRequired
    );
    assert_eq!(
        SemanticIndexRemovalPlanId::new("".to_owned()).unwrap_err(),
        SemanticComponentError::IndexRemoval {
            message: "index removal confirmation token is empty".to_owned()
        }
    );
    assert_eq!(
        semantic_model_migration_id_from_transport("\t".to_owned()).unwrap_err(),
        SemanticComponentError::InvalidMigrationPlan
    );
    assert_eq!(InstallationOfferId::new("offer".to_owned()).unwrap().as_str(), "offer");
}

#[test]
fn an_offer_installs_once_and_pause_resume_round_trips() {
    let mut fake = FakeSemanticComponentCapability::new();
    assert_eq!(
        fake.status().unwrap().lifecycle(),
        &SemanticComponentLifecycle::Absent
    );
    let offer = fake.installation_offer(SemanticProfile::CompactEnglish).unwrap();
    assert_eq!(offer.id().as_str(), "fake-offer-1");
    assert_eq!(offer.resolved_model.model_id(), "fake-compact-english");
    assert_eq!(offer.resolved_model.revision(), "fake-compact-english-revision");
    assert_eq!(offer.components.len(), 3);
    assert_eq!(offer.data_root, "mock/semantic");
    assert_eq!(offer.minimum_free_space_reserve_bytes, 1_024);
    let id = offer.id().clone();
    let receipt = fake.install_or_enable(offer.consent()).unwrap();
    assert_eq!(
        receipt.installed_artifact_ids,
        vec!["fake-worker-artifact", "fake-runtime-artifact", "fake-model-artifact"]
    );
    let status = fake.status().unwrap();
    assert_eq!(status.lifecycle(), &SemanticComponentLifecycle::InstalledEnabled);
    assert_eq!(status.components().len(), 3);
    assert_eq!(status.disk_use().total_bytes(), 431);
    assert_eq!(
        fake.install_or_enable(SemanticInstallationConsent::accept(id)).unwrap_err(),
        SemanticComponentError::ConsentRequired
    );
    let before = fake.status().unwrap();
    fake.pause_indexing().unwrap();
    assert_eq!(fake.status().unwrap().lifecycle(), &SemanticComponentLifecycle::Paused);
    assert!(matches!(
        fake.pause_indexing().unwrap_err(),
        SemanticComponentError::InvalidLifecycle {
            operation: SemanticComponentOperation::PauseIndexing,
            ref lifecycle,
        } if lifecycle == "Paused"
    ));
    fake.resume_indexing().unwrap();
    assert_eq!(fake.status().unwrap(), before);
}

#[test]
fn migration_checkpoints_only_advance_and_complete_after_full_progress() {
    let mut fake = FakeSemanticComponentCapability::new();
    let plan = fake
        .plan_model_migration(SemanticProfile::MultilingualQuality, SemanticReindexEstimate::new(10, 100))
        .unwrap();
    assert_eq!(plan.id().as_str(), "fake-migration-1");
    assert!(plan.requires_confirmation() && plan.is_full_reindex() && plan.is_resumable());
    let id = plan.id().clone();
    let progress = fake.confirm_model_migration(plan.confirm()).unwrap();
    assert_eq!(progress.completed_documents(), 0);
    assert_eq!(progress.total_documents(), 10);
    let checkpoint = |completed: u64| SemanticModelMigrationCheckpoint {
        migration_id: id.clone(),
        completed_documents: completed,
        resume_cursor: Some(format!("cursor-{completed}")),
    };
    assert_eq!(fake.checkpoint_model_migration(checkpoint(4)).unwrap().completed_documents(), 4);
    assert_eq!(
        fake.checkpoint_model_migration(checkpoint(3)).unwrap_err(),
        SemanticComponentError::InvalidMigrationProgress { completed_documents: 3, total_documents: 10 }
    );
    assert_eq!(
        fake.checkpoint_model_migration(checkpoint(11)).unwrap_err(),
        SemanticComponentError::InvalidMigrationProgress { completed_documents: 11, total_documents: 10 }
    );
    assert_eq!(
        fake.complete_model_migration(id.clone()).unwrap_err(),
        SemanticComponentError::InvalidMigrationProgress { completed_documents: 4, total_documents: 10 }
    );
    fake.checkpoint_model_migration(checkpoint(10)).unwrap();
    let selection = fake.complete_model_migration(id.clone()).unwrap();
    assert_eq!(selection.profile(), SemanticProfile::MultilingualQuality);
    assert_eq!(selection.identity().model_id(), "fake-multilingual-quality");
    assert_eq!(
        fake.complete_model_migration(id).unwrap_err(),
        SemanticComponentError::InvalidMigrationPlan
    );
    assert_eq!(
        fake.confirm_model_migration(SemanticModelMigrationConfirmation::confirm(
            SemanticModelMigrationId::new("unknown".to_owned())
        ))
        .unwrap_err(),
        SemanticComponentError::InvalidMigrationPlan
    );
}

#[test]
fn index_removal_plans_are_single_use() {
    let mut fake = FakeSemanticComponentCapability::new();
    let plan = fake.plan_index_removal("library-1".to_owned(), true).unwrap();
    assert_eq!(plan.id().as_str(), "fake-index-removal-1");
    assert_eq!(
        plan.expected,
        SemanticIndexRecordCounts {
            index_records: 3,
            extracted_files: 2,
            zvec_vectors: 3,
            cache_entries: 1,
            conversation_evidence: 2,
        }
    );
    let plan_id = plan.id().clone();
    let receipt = fake.confirm_index_removal(plan.confirm()).unwrap();
    assert_eq!(receipt.enrolment_id, "library-1");
    assert!(receipt.conversation_evidence_deleted);
    assert!(matches!(
        fake.confirm_index_removal(SemanticIndexRemovalConfirmation::confirm(plan_id)).unwrap_err(),
        SemanticComponentError::IndexRemoval { .. }
    ));
    assert_eq!(
        fake.plan_index_removal("bad id".to_owned(), false).unwrap_err(),
        SemanticComponentError::InvalidEnrolment
    );
    let counts = SemanticIndexRecordCounts {
        index_records: 1,
        extracted_files: 1,
        zvec_vectors: 1,
        cache_entries: 1,
        conversation_evidence: 1,
    };
    assert_eq!(
        fake.remove_index(RemoveSemanticIndexRequest { enrolment_id: "a/b".to_owned(), expected: counts })
            .unwrap_err(),
        SemanticComponentError::InvalidEnrolment
    );
    let removed = fake
        .remove_index(RemoveSemanticIndexRequest { enrolment_id: "lib.1_a-b".to_owned(), expected: counts })
        .unwrap();
    assert_eq!(removed.deleted, counts);
}

#[test]
fn uninstall_and_data_moves_follow_the_retention_decision() {
    let mut fake = FakeSemanticComponentCapability::new();
    let offer = fake.installation_offer(SemanticProfile::CompactMultilingual).unwrap();
    fake.install_or_enable(offer.consent()).unwrap();
    let moved = fake.move_data("/data/semantic".to_owned()).unwrap();
    assert_eq!(moved.source, "mock/semantic");
    assert_eq!(moved.destination, "/data/semantic");
    let retained = fake.uninstall_components(SemanticIndexRetentionDecision::Retain).unwrap();
    assert_eq!(retained.removed_component_count, 3);
    let status = fake.status().unwrap();
    assert!(status.components().is_empty());
    assert!(status.active_model().is_some());
    assert_eq!(status.data_root(), Some("/data/semantic"));
    fake.uninstall_components(SemanticIndexRetentionDecision::Delete).unwrap();
    let status = fake.status().unwrap();
    assert!(status.active_model().is_none());
    assert_eq!(status.disk_use().total_bytes(), 0);
}

#[test]
fn local_model_metadata_reports_the_first_invalid_field() {
    assert_eq!(import_error(&import_request()), None);
    let mut request = import_request();
    request.source_path.clear();
    request.model_id = " ".to_owned();
    assert_eq!(import_error(&request), Some(SemanticModelImportField::SourcePath));
    let mut request = import_request();
    request.normalization = None;
    request.estimated_ram_bytes = 0;
    assert_eq!(import_error(&request), Some(SemanticModelImportField::Normalization));
    let mut request = import_request();
    request.language_coverage = vec!["en".to_owned(), "  ".to_owned()];
    assert_eq!(import_error(&request), Some(SemanticModelImportField::LanguageCoverage));
    let mut request = import_request();
    request.runtime_version_requirement = String::new();
    assert_eq!(import_error(&request), Some(SemanticModelImportField::RuntimeCompatibility));
    let mut fake = FakeSemanticComponentCapability::new();
    let plan = fake
        .import_local_model(import_request(), SemanticProfile::CompactEnglish, SemanticReindexEstimate::new(1, 1))
        .unwrap();
    assert_eq!(plan.target.identity().model_id(), "local-model");
    assert_eq!(plan.target.identity().revision(), "rev-1");
}

#[test]
fn scenarios_cover_every_lifecycle() {
    let all = FakeSemanticComponentScenario::all();
    assert_eq!(all.len(), 10);
    let mut fake = FakeSemanticComponentCapability::new();
    fake.set_scenario(FakeSemanticComponentScenario::LowDisk);
    assert_eq!(
        fake.status().unwrap().lifecycle(),
        &SemanticComponentLifecycle::LowDisk { available_bytes: 50, required_bytes: 100 }
    );
    fake.set_scenario(FakeSemanticComponentScenario::Migrating);
    let status = fake.status().unwrap();
    let progress = status.migration().expect("migrating scenario has progress");
    assert_eq!(progress.migration_id().as_str(), "fake-scenario-migration");
    assert_eq!(progress.completed_documents(), 4);
    assert_eq!(progress.resume_cursor(), Some("fake-resume-cursor"));
}

#[test]
fn unavailable_and_administrator_capabilities_refuse_mutations() {
    let unavailable = UnavailableSemanticComponentCapability::new();
    assert_eq!(unavailable.pause_indexing(), Err(SemanticComponentError::Unavailable));
    assert_eq!(
        unavailable.plan_index_removal("library-1".to_owned()).unwrap_err(),
        SemanticComponentError::Unavailable
    );
    let confirmation = SemanticIndexRemovalConfirmation::confirm(
        SemanticIndexRemovalPlanId::new("plan-1".to_owned()).expect("valid plan identity"),
    );
    assert_eq!(
        unavailable.confirm_index_removal(confirmation).unwrap_err(),
        SemanticComponentError::Unavailable
    );
    assert_eq!(
        unavailable.status().unwrap().lifecycle(),
        &SemanticComponentLifecycle::Unavailable
    );
    let admin = AdministratorProvisionedSemanticComponentCapability::new(
        SemanticComponentStatus::absent(Some("/srv/semantic".to_owned())),
        Vec::new(),
    );
    assert_eq!(
        admin.pause_indexing(),
        Err(SemanticComponentError::AuthorityDenied {
            authority: SemanticComponentAuthority::AdministratorProvisioned,
            operation: SemanticComponentOperation::PauseIndexing,
        })
    );
    assert_eq!(admin.status().unwrap().data_root(), Some("/srv/semantic"));
}

#[test]
fn disk_use_reports_ignore_the_order_of_distinct_measurements() {
    let a = SemanticCategoryDiskUse::new(SemanticDataCategory::all()[2], 30);
    let b = SemanticCategoryDiskUse::new(SemanticDataCategory::all()[0], 10);
    let c = SemanticCategoryDiskUse::new(SemanticDataCategory::all()[5], 50);
    let one = SemanticDiskUse::from_categories(vec![a, b, c]).expect("fits");
    let other = SemanticDiskUse::from_categories(vec![c, a, b]).expect("fits");
    assert_eq!(one, other);
    assert_eq!(one.total_bytes(), 90);
    assert_eq!(one.categories()[1].bytes(), 0);
    assert_eq!(one.categories()[1].category(), SemanticDataCategory::all()[1]);
}

#[test]
fn a_refused_checkpoint_leaves_the_status_and_an_accepted_one_is_recorded() {
    let mut fake = FakeSemanticComponentCapability::new();
    let plan = fake
        .plan_model_migration(SemanticProfile::MultilingualQuality, SemanticReindexEstimate::new(10, 100))
        .unwrap();
    let id = plan.id().clone();
    fake.confirm_model_migration(plan.confirm()).unwrap();
    let before = fake.status().unwrap();
    let too_far = SemanticModelMigrationCheckpoint {
        migration_id: id.clone(),
        completed_documents: 11,
        resume_cursor: None,
    };
    assert!(fake.checkpoint_model_migration(too_far).is_err());
    assert_eq!(fake.status().unwrap(), before);
    let step = SemanticModelMigrationCheckpoint {
        migration_id: id,
        completed_documents: 7,
        resume_cursor: Some("cursor-7".to_owned()),
    };
    let progress = fake.checkpoint_model_migration(step).unwrap();
    assert_eq!(progress.completed_documents(), 7);
    assert_eq!(progress.resume_cursor(), Some("cursor-7"));
    assert_eq!(fake.status().unwrap().migration(), Some(&progress));
}

#[test]
fn rebuilding_a_capability_report_from_what_it_reports_changes_nothing() {
    let report = SemanticComponentCapabilities::new(
        SemanticComponentAuthority::DesktopManaged,
        vec![
            SemanticComponentOperation::MoveData,
            SemanticComponentOperation::ViewStatus,
            SemanticComponentOperation::MoveData,
        ],
        RuntimeExecutableDownload::DirectDistribution,
    );
    let rebuilt = SemanticComponentCapabilities::new(
        report.authority(),
        report.operations().to_vec(),
        report.runtime_executable_download(),
    );
    assert_eq!(rebuilt, report);
    assert_eq!(
        report.operations(),
        &[SemanticComponentOperation::ViewStatus, SemanticComponentOperation::MoveData]
    );
}

#[test]
fn a_scenario_reports_the_empty_mock_status() {
    let mut fake = FakeSemanticComponentCapability::new();
    fake.set_scenario(FakeSemanticComponentScenario::DownloadingResumable);
    let status = fake.status().unwrap();
    assert_eq!(
        status.lifecycle(),
        &SemanticComponentLifecycle::Downloading { downloaded_bytes: 40, total_bytes: 100, resumable: true }
    );
    assert_eq!(status.data_root(), Some("mock/semantic"));
    assert!(status.active_model().is_none());
    assert!(status.components().is_empty());
    assert!(status.migration().is_none());
    assert_eq!(status.disk_use(), &SemanticDiskUse::empty());
}
