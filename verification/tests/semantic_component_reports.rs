use fm_application::semantic_component_mapping::{
    SemanticComponentErrorCode, SemanticComponentErrorDetails, path_to_transport_string,
    semantic_component_error_to_dto,
};
use fm_application::semantic_components::{
    SemanticComponentAuthority, SemanticComponentError, SemanticComponentOperation,
    SemanticModelImportField,
};

#[test]
fn authority_denial_keeps_the_rejected_operation_typed() {
    let dto = semantic_component_error_to_dto(
        SemanticComponentError::AuthorityDenied {
            authority: SemanticComponentAuthority::AdministratorProvisioned,
            operation: SemanticComponentOperation::MoveData,
        },
        0,
    );

    assert_eq!(dto.code, SemanticComponentErrorCode::AuthorityDenied);
    assert_eq!(
        dto.details,
        Some(SemanticComponentErrorDetails::AuthorityDenied {
            authority: SemanticComponentAuthority::AdministratorProvisioned,
            operation: SemanticComponentOperation::MoveData,
        })
    );
    assert_eq!(dto.message, "AdministratorProvisioned authority cannot perform MoveData");
    assert_eq!(dto.request_id, 0);
}

#[test]
fn failure_texts_follow_each_variant() {
    assert_eq!(
        SemanticComponentError::InsufficientSpace {
            available_bytes: 50,
            required_bytes: 100,
            reserve_bytes: 10,
        }
        .message(),
        "insufficient free space: 50 available, 100 required including 10 reserve"
    );
    assert_eq!(
        SemanticComponentError::InvalidLocalModelMetadata {
            field: SemanticModelImportField::Tokenizer
        }
        .message(),
        "local model metadata field Tokenizer is invalid"
    );
    assert_eq!(
        SemanticComponentError::InvalidLifecycle {
            operation: SemanticComponentOperation::ResumeIndexing,
            lifecycle: "Absent".to_owned(),
        }
        .message(),
        "ResumeIndexing is not valid while semantic components are Absent"
    );
    assert_eq!(
        SemanticComponentError::DownloadInterrupted {
            artifact_id: "worker".to_owned(),
            message: "reset".to_owned(),
        }
        .message(),
        "download of `worker` was interrupted: reset"
    );
    assert_eq!(
        SemanticComponentError::DiskUseOverflow.message(),
        "semantic component disk usage overflowed"
    );
}

#[test]
fn reports_carry_artifacts_and_progress_but_not_diagnostics() {
    let report = semantic_component_error_to_dto(
        SemanticComponentError::ActivationFailed {
            artifact_id: "model".to_owned(),
            message: "denied".to_owned(),
        },
        7,
    );
    assert_eq!(report.code, SemanticComponentErrorCode::ActivationFailed);
    assert_eq!(
        report.details,
        Some(SemanticComponentErrorDetails::Artifact { artifact_id: "model".to_owned() })
    );
    assert_eq!(report.message, "artifact `model` could not be activated: denied");
    assert_eq!(report.request_id, 7);

    let report = semantic_component_error_to_dto(
        SemanticComponentError::State { message: "disk".to_owned() },
        8,
    );
    assert_eq!(report.code, SemanticComponentErrorCode::State);
    assert_eq!(report.details, None);
    assert_eq!(report.message, "semantic component state error: disk");

    let report = semantic_component_error_to_dto(
        SemanticComponentError::InvalidMigrationProgress { completed_documents: 9, total_documents: 4 },
        9,
    );
    assert_eq!(
        report.details,
        Some(SemanticComponentErrorDetails::InvalidMigrationProgress {
            completed_documents: 9,
            total_documents: 4,
        })
    );
    assert_eq!(report.message, "invalid model migration progress 9 of 4");
}

#[test]
fn data_root_paths_travel_as_their_text() {
    assert_eq!(path_to_transport_string("/var/lib/semantic"), "/var/lib/semantic");
}
