//! Reporting of semantic component failures to hosts: the text each
//! failure renders, its stable code, the typed details a host may show,
//! and the transport form of data-root paths.

use vstd::prelude::*;

use crate::semantic_components::{
    SemanticComponentAuthority, SemanticComponentError, SemanticComponentOperation,
    SemanticModelImportField,
};
use crate::text::{decimal, push_decimal};

verus! {

/// `Debug` rendering of an authority: its variant name.
pub open spec fn authority_debug(v: SemanticComponentAuthority) -> Seq<char> {
    match v {
        SemanticComponentAuthority::Unavailable => "Unavailable"@,
        SemanticComponentAuthority::DesktopManaged => "DesktopManaged"@,
        SemanticComponentAuthority::AdministratorProvisioned => "AdministratorProvisioned"@,
        SemanticComponentAuthority::DeterministicMock => "DeterministicMock"@,
    }
}

fn push_authority_debug(out: &mut String, v: SemanticComponentAuthority)
    ensures
        final(out)@ == old(out)@ + authority_debug(v),
{
    match v {
        SemanticComponentAuthority::Unavailable => out.append("Unavailable"),
        SemanticComponentAuthority::DesktopManaged => out.append("DesktopManaged"),
        SemanticComponentAuthority::AdministratorProvisioned => out.append("AdministratorProvisioned"),
        SemanticComponentAuthority::DeterministicMock => out.append("DeterministicMock"),
    }
}

/// `Debug` rendering of an operation: its variant name.
pub open spec fn operation_debug(v: SemanticComponentOperation) -> Seq<char> {
    match v {
        SemanticComponentOperation::ViewStatus => "ViewStatus"@,
        SemanticComponentOperation::ViewCatalog => "ViewCatalog"@,
        SemanticComponentOperation::CreateInstallationOffer => "CreateInstallationOffer"@,
        SemanticComponentOperation::InstallOrEnable => "InstallOrEnable"@,
        SemanticComponentOperation::InstallWorkerPatch => "InstallWorkerPatch"@,
        SemanticComponentOperation::PauseIndexing => "PauseIndexing"@,
        SemanticComponentOperation::ResumeIndexing => "ResumeIndexing"@,
        SemanticComponentOperation::RemoveIndex => "RemoveIndex"@,
        SemanticComponentOperation::MoveData => "MoveData"@,
        SemanticComponentOperation::UninstallComponents => "UninstallComponents"@,
        SemanticComponentOperation::ImportLocalModel => "ImportLocalModel"@,
        SemanticComponentOperation::PlanModelMigration => "PlanModelMigration"@,
        SemanticComponentOperation::ConfirmModelMigration => "ConfirmModelMigration"@,
        SemanticComponentOperation::CheckpointModelMigration => "CheckpointModelMigration"@,
        SemanticComponentOperation::CompleteModelMigration => "CompleteModelMigration"@,
    }
}

fn push_operation_debug(out: &mut String, v: SemanticComponentOperation)
    ensures
        final(out)@ == old(out)@ + operation_debug(v),
{
    match v {
        SemanticComponentOperation::ViewStatus => out.append("ViewStatus"),
        SemanticComponentOperation::ViewCatalog => out.append("ViewCatalog"),
        SemanticComponentOperation::CreateInstallationOffer => out.append("CreateInstallationOffer"),
        SemanticComponentOperation::InstallOrEnable => out.append("InstallOrEnable"),
        SemanticComponentOperation::InstallWorkerPatch => out.append("InstallWorkerPatch"),
        SemanticComponentOperation::PauseIndexing => out.append("PauseIndexing"),
        SemanticComponentOperation::ResumeIndexing => out.append("ResumeIndexing"),
        SemanticComponentOperation::RemoveIndex => out.append("RemoveIndex"),
        SemanticComponentOperation::MoveData => out.append("MoveData"),
        SemanticComponentOperation::UninstallComponents => out.append("UninstallComponents"),
        SemanticComponentOperation::ImportLocalModel => out.append("ImportLocalModel"),
        SemanticComponentOperation::PlanModelMigration => out.append("PlanModelMigration"),
        SemanticComponentOperation::ConfirmModelMigration => out.append("ConfirmModelMigration"),
        SemanticComponentOperation::CheckpointModelMigration => out.append("CheckpointModelMigration"),
        SemanticComponentOperation::CompleteModelMigration => out.append("CompleteModelMigration"),
    }
}

/// `Debug` rendering of an import field: its variant name.
pub open spec fn import_field_debug(v: SemanticModelImportField) -> Seq<char> {
    match v {
        SemanticModelImportField::SourcePath => "SourcePath"@,
        SemanticModelImportField::ModelId => "ModelId"@,
        SemanticModelImportField::UpstreamRevision => "UpstreamRevision"@,
        SemanticModelImportField::License => "License"@,
        SemanticModelImportField::Tokenizer => "Tokenizer"@,
        SemanticModelImportField::Dimensions => "Dimensions"@,
        SemanticModelImportField::Normalization => "Normalization"@,
        SemanticModelImportField::RuntimeCompatibility => "RuntimeCompatibility"@,
        SemanticModelImportField::LanguageCoverage => "LanguageCoverage"@,
        SemanticModelImportField::EstimatedDiskBytes => "EstimatedDiskBytes"@,
        SemanticModelImportField::EstimatedRamBytes => "EstimatedRamBytes"@,
    }
}

fn push_import_field_debug(out: &mut String, v: SemanticModelImportField)
    ensures
        final(out)@ == old(out)@ + import_field_debug(v),
{
    match v {
        SemanticModelImportField::SourcePath => out.append("SourcePath"),
        SemanticModelImportField::ModelId => out.append("ModelId"),
        SemanticModelImportField::UpstreamRevision => out.append("UpstreamRevision"),
        SemanticModelImportField::License => out.append("License"),
        SemanticModelImportField::Tokenizer => out.append("Tokenizer"),
        SemanticModelImportField::Dimensions => out.append("Dimensions"),
        SemanticModelImportField::Normalization => out.append("Normalization"),
        SemanticModelImportField::RuntimeCompatibility => out.append("RuntimeCompatibility"),
        SemanticModelImportField::LanguageCoverage => out.append("LanguageCoverage"),
        SemanticModelImportField::EstimatedDiskBytes => out.append("EstimatedDiskBytes"),
        SemanticModelImportField::EstimatedRamBytes => out.append("EstimatedRamBytes"),
    }
}

/// The user-facing text of a semantic component failure.
pub open spec fn component_error_text(e: SemanticComponentError) -> Seq<char> {
    match e {
        SemanticComponentError::Unavailable => "semantic component capability is unavailable"@,
        SemanticComponentError::ConsentRequired => "installation requires explicit consent to a live offer"@,
        SemanticComponentError::InvalidEnrolment => "semantic enrolment identifier is invalid"@,
        SemanticComponentError::InvalidMigrationPlan => "model migration plan is stale or unknown"@,
        SemanticComponentError::ExecutableDownloadProhibited => "this distribution prohibits downloading executable semantic components"@,
        SemanticComponentError::DiskUseOverflow => "semantic component disk usage overflowed"@,
        SemanticComponentError::AuthorityDenied { authority, operation } => authority_debug(authority)
            + " authority cannot perform "@ + operation_debug(operation),
        SemanticComponentError::InvalidLocalModelMetadata { field } => "local model metadata field "@
            + import_field_debug(field) + " is invalid"@,
        SemanticComponentError::InvalidLifecycle { operation, lifecycle } => operation_debug(operation)
            + " is not valid while semantic components are "@ + lifecycle@,
        SemanticComponentError::InvalidMigrationProgress { completed_documents, total_documents } =>
            "invalid model migration progress "@ + decimal(completed_documents as nat) + " of "@
            + decimal(total_documents as nat),
        SemanticComponentError::InsufficientSpace { available_bytes, required_bytes, reserve_bytes } =>
            "insufficient free space: "@ + decimal(available_bytes as nat) + " available, "@ + decimal(
            required_bytes as nat,
        ) + " required including "@ + decimal(reserve_bytes as nat) + " reserve"@,
        SemanticComponentError::DownloadInterrupted { artifact_id, message } => "download of `"@
            + artifact_id@ + "` was interrupted: "@ + message@,
        SemanticComponentError::ArtifactVerificationFailed { artifact_id } => "artifact `"@
            + artifact_id@ + "` failed integrity validation"@,
        SemanticComponentError::ActivationFailed { artifact_id, message } => "artifact `"@
            + artifact_id@ + "` could not be activated: "@ + message@,
        SemanticComponentError::Catalog { message } => "semantic component catalog error: "@ + message@,
        SemanticComponentError::FreeSpaceProbe { message } => "semantic component free-space probe failed: "@ + message@,
        SemanticComponentError::State { message } => "semantic component state error: "@ + message@,
        SemanticComponentError::Filesystem { message } => "semantic component filesystem error: "@ + message@,
        SemanticComponentError::Indexing { message } => "semantic indexing lifecycle error: "@ + message@,
        SemanticComponentError::IndexRemoval { message } => "semantic index removal failed: "@ + message@,
        SemanticComponentError::DataMigration { message } => "semantic data migration failed: "@ + message@,
        SemanticComponentError::BlockingTaskFailed { message } => "semantic component blocking task failed: "@ + message@,
    }
}

impl SemanticComponentError {
    /// The user-facing text of this failure.
    pub fn message(&self) -> (r: String)
        ensures
            r@ == component_error_text(*self),
    {
        let mut out = String::new();
        match self {
            SemanticComponentError::Unavailable => {
                out.append("semantic component capability is unavailable");
            },
            SemanticComponentError::ConsentRequired => {
                out.append("installation requires explicit consent to a live offer");
            },
            SemanticComponentError::InvalidEnrolment => {
                out.append("semantic enrolment identifier is invalid");
            },
            SemanticComponentError::InvalidMigrationPlan => {
                out.append("model migration plan is stale or unknown");
            },
            SemanticComponentError::ExecutableDownloadProhibited => {
                out.append("this distribution prohibits downloading executable semantic components");
            },
            SemanticComponentError::DiskUseOverflow => {
                out.append("semantic component disk usage overflowed");
            },
            SemanticComponentError::AuthorityDenied { authority, operation } => {
                push_authority_debug(&mut out, *authority);
                out.append(" authority cannot perform ");
                push_operation_debug(&mut out, *operation);
            },
            SemanticComponentError::InvalidLocalModelMetadata { field } => {
                out.append("local model metadata field ");
                push_import_field_debug(&mut out, *field);
                out.append(" is invalid");
            },
            SemanticComponentError::InvalidLifecycle { operation, lifecycle } => {
                push_operation_debug(&mut out, *operation);
                out.append(" is not valid while semantic components are ");
                out.append(lifecycle.as_str());
            },
            SemanticComponentError::InvalidMigrationProgress { completed_documents, total_documents } => {
                out.append("invalid model migration progress ");
                push_decimal(&mut out, *completed_documents);
                out.append(" of ");
                push_decimal(&mut out, *total_documents);
            },
            SemanticComponentError::InsufficientSpace { available_bytes, required_bytes, reserve_bytes } => {
                out.append("insufficient free space: ");
                push_decimal(&mut out, *available_bytes);
                out.append(" available, ");
                push_decimal(&mut out, *required_bytes);
                out.append(" required including ");
                push_decimal(&mut out, *reserve_bytes);
                out.append(" reserve");
            },
            SemanticComponentError::DownloadInterrupted { artifact_id, message } => {
                out.append("download of `");
                out.append(artifact_id.as_str());
                out.append("` was interrupted: ");
                out.append(message.as_str());
            },
            SemanticComponentError::ArtifactVerificationFailed { artifact_id } => {
                out.append("artifact `");
                out.append(artifact_id.as_str());
                out.append("` failed integrity validation");
            },
            SemanticComponentError::ActivationFailed { artifact_id, message } => {
                out.append("artifact `");
                out.append(artifact_id.as_str());
                out.append("` could not be activated: ");
                out.append(message.as_str());
            },
            SemanticComponentError::Catalog { message } => {
                out.append("semantic component catalog error: ");
                out.append(message.as_str());
            },
            SemanticComponentError::FreeSpaceProbe { message } => {
                out.append("semantic component free-space probe failed: ");
                out.append(message.as_str());
            },
            SemanticComponentError::State { message } => {
                out.append("semantic component state error: ");
                out.append(message.as_str());
            },
            SemanticComponentError::Filesystem { message } => {
                out.append("semantic component filesystem error: ");
                out.append(message.as_str());
            },
            SemanticComponentError::Indexing { message } => {
                out.append("semantic indexing lifecycle error: ");
                out.append(message.as_str());
            },
            SemanticComponentError::IndexRemoval { message } => {
                out.append("semantic index removal failed: ");
                out.append(message.as_str());
            },
            SemanticComponentError::DataMigration { message } => {
                out.append("semantic data migration failed: ");
                out.append(message.as_str());
            },
            SemanticComponentError::BlockingTaskFailed { message } => {
                out.append("semantic component blocking task failed: ");
                out.append(message.as_str());
            },
        }
        assert(out@ =~= component_error_text(*self));
        out
    }
}

/// Stable machine-readable code of a semantic component failure.
#[derive(Debug, Clone, Copy, PartialEq, Eq, Structural)]
pub enum SemanticComponentErrorCode {
    /// The `Unavailable` failure.
    Unavailable,
    /// The `AuthorityDenied` failure.
    AuthorityDenied,
    /// The `ConsentRequired` failure.
    ConsentRequired,
    /// The `InvalidLocalModelMetadata` failure.
    InvalidLocalModelMetadata,
    /// The `InvalidLifecycle` failure.
    InvalidLifecycle,
    /// The `InvalidEnrolment` failure.
    InvalidEnrolment,
    /// The `InvalidMigrationPlan` failure.
    InvalidMigrationPlan,
    /// The `InvalidMigrationProgress` failure.
    InvalidMigrationProgress,
    /// The `ExecutableDownloadProhibited` failure.
    ExecutableDownloadProhibited,
    /// The `Catalog` failure.
    Catalog,
    /// The `InsufficientSpace` failure.
    InsufficientSpace,
    /// The `DownloadInterrupted` failure.
    DownloadInterrupted,
    /// The `ArtifactVerificationFailed` failure.
    ArtifactVerificationFailed,
    /// The `ActivationFailed` failure.
    ActivationFailed,
    /// The `FreeSpaceProbe` failure.
    FreeSpaceProbe,
    /// The `State` failure.
    State,
    /// The `Filesystem` failure.
    Filesystem,
    /// The `Indexing` failure.
    Indexing,
    /// The `IndexRemoval` failure.
    IndexRemoval,
    /// The `DataMigration` failure.
    DataMigration,
    /// The `BlockingTaskFailed` failure.
    BlockingTaskFailed,
    /// The `DiskUseOverflow` failure.
    DiskUseOverflow,
}

/// The code of a failure: the failure's own variant.
pub open spec fn component_error_code(e: SemanticComponentError) -> SemanticComponentErrorCode {
    match e {
        SemanticComponentError::Unavailable => SemanticComponentErrorCode::Unavailable,
        SemanticComponentError::AuthorityDenied { .. } => SemanticComponentErrorCode::AuthorityDenied,
        SemanticComponentError::ConsentRequired => SemanticComponentErrorCode::ConsentRequired,
        SemanticComponentError::InvalidLocalModelMetadata { .. } => SemanticComponentErrorCode::InvalidLocalModelMetadata,
        SemanticComponentError::InvalidLifecycle { .. } => SemanticComponentErrorCode::InvalidLifecycle,
        SemanticComponentError::InvalidEnrolment => SemanticComponentErrorCode::InvalidEnrolment,
        SemanticComponentError::InvalidMigrationPlan => SemanticComponentErrorCode::InvalidMigrationPlan,
        SemanticComponentError::InvalidMigrationProgress { .. } => SemanticComponentErrorCode::InvalidMigrationProgress,
        SemanticComponentError::ExecutableDownloadProhibited => SemanticComponentErrorCode::ExecutableDownloadProhibited,
        SemanticComponentError::Catalog { .. } => SemanticComponentErrorCode::Catalog,
        SemanticComponentError::InsufficientSpace { .. } => SemanticComponentErrorCode::InsufficientSpace,
        SemanticComponentError::DownloadInterrupted { .. } => SemanticComponentErrorCode::DownloadInterrupted,
        SemanticComponentError::ArtifactVerificationFailed { .. } => SemanticComponentErrorCode::ArtifactVerificationFailed,
        SemanticComponentError::ActivationFailed { .. } => SemanticComponentErrorCode::ActivationFailed,
        SemanticComponentError::FreeSpaceProbe { .. } => SemanticComponentErrorCode::FreeSpaceProbe,
        SemanticComponentError::State { .. } => SemanticComponentErrorCode::State,
        SemanticComponentError::Filesystem { .. } => SemanticComponentErrorCode::Filesystem,
        SemanticComponentError::Indexing { .. } => SemanticComponentErrorCode::Indexing,
        SemanticComponentError::IndexRemoval { .. } => SemanticComponentErrorCode::IndexRemoval,
        SemanticComponentError::DataMigration { .. } => SemanticComponentErrorCode::DataMigration,
        SemanticComponentError::BlockingTaskFailed { .. } => SemanticComponentErrorCode::BlockingTaskFailed,
        SemanticComponentError::DiskUseOverflow => SemanticComponentErrorCode::DiskUseOverflow,
    }
}

/// Typed details a host may show beside a failure's text.
#[derive(Debug, PartialEq, Eq)]
pub enum SemanticComponentErrorDetails {
    /// The authority that refused an operation.
    AuthorityDenied {
        /// Refusing authority.
        authority: SemanticComponentAuthority,
        /// Refused operation.
        operation: SemanticComponentOperation,
    },
    /// The invalid local-model field.
    InvalidLocalModelMetadata {
        /// Invalid field.
        field: SemanticModelImportField,
    },
    /// The operation refused in a lifecycle state.
    InvalidLifecycle {
        /// Refused operation.
        operation: SemanticComponentOperation,
        /// Lifecycle description.
        lifecycle: String,
    },
    /// A refused migration checkpoint.
    InvalidMigrationProgress {
        /// Refused completed count.
        completed_documents: u64,
        /// Disclosed total.
        total_documents: u64,
    },
    /// The space an install lacked.
    InsufficientSpace {
        /// Available bytes.
        available_bytes: u64,
        /// Required bytes, reserve included.
        required_bytes: u64,
        /// Reserve included in the requirement.
        reserve_bytes: u64,
    },
    /// The artifact a failure concerns.
    Artifact {
        /// Signed artifact identity.
        artifact_id: String,
    },
}

/// The details a failure carries to a host, if any.
pub open spec fn component_error_details(e: SemanticComponentError) -> Option<SemanticComponentErrorDetails> {
    match e {
        SemanticComponentError::AuthorityDenied { authority, operation } => Some(
            SemanticComponentErrorDetails::AuthorityDenied { authority, operation },
        ),
        SemanticComponentError::InvalidLocalModelMetadata { field } => Some(
            SemanticComponentErrorDetails::InvalidLocalModelMetadata { field },
        ),
        SemanticComponentError::InvalidLifecycle { operation, lifecycle } => Some(
            SemanticComponentErrorDetails::InvalidLifecycle { operation, lifecycle },
        ),
        SemanticComponentError::InvalidMigrationProgress { completed_documents, total_documents } =>
            Some(
            SemanticComponentErrorDetails::InvalidMigrationProgress {
                completed_documents,
                total_documents,
            },
        ),
        SemanticComponentError::InsufficientSpace { available_bytes, required_bytes, reserve_bytes } =>
            Some(
            SemanticComponentErrorDetails::InsufficientSpace {
                available_bytes,
                required_bytes,
                reserve_bytes,
            },
        ),
        SemanticComponentError::DownloadInterrupted { artifact_id, .. } => Some(
            SemanticComponentErrorDetails::Artifact { artifact_id },
        ),
        SemanticComponentError::ArtifactVerificationFailed { artifact_id } => Some(
            SemanticComponentErrorDetails::Artifact { artifact_id },
        ),
        SemanticComponentError::ActivationFailed { artifact_id, .. } => Some(
            SemanticComponentErrorDetails::Artifact { artifact_id },
        ),
        _ => None,
    }
}

/// A semantic component failure as a host reports it.
#[derive(Debug, PartialEq, Eq)]
pub struct SemanticComponentErrorReport {
    /// Stable code.
    pub code: SemanticComponentErrorCode,
    /// User-facing text.
    pub message: String,
    /// Identifier of the request that failed.
    pub request_id: u128,
    /// Typed details, where the failure has them.
    pub details: Option<SemanticComponentErrorDetails>,
}

/// Reports a failure to a host: its code, its text, the request it answers,
/// and the typed details it carries.
pub fn semantic_component_error_to_dto(error: SemanticComponentError, request_id: u128) -> (r:
    SemanticComponentErrorReport)
    ensures
        r.code == component_error_code(error),
        r.message@ == component_error_text(error),
        r.request_id == request_id,
        r.details == component_error_details(error),
{
    let message = error.message();
    let (code, details) = match error {
        SemanticComponentError::Unavailable => (SemanticComponentErrorCode::Unavailable, None),
        SemanticComponentError::AuthorityDenied { authority, operation } => (
            SemanticComponentErrorCode::AuthorityDenied,
            Some(SemanticComponentErrorDetails::AuthorityDenied { authority, operation }),
        ),
        SemanticComponentError::ConsentRequired => (SemanticComponentErrorCode::ConsentRequired, None),
        SemanticComponentError::InvalidLocalModelMetadata { field } => (
            SemanticComponentErrorCode::InvalidLocalModelMetadata,
            Some(SemanticComponentErrorDetails::InvalidLocalModelMetadata { field }),
        ),
        SemanticComponentError::InvalidLifecycle { operation, lifecycle } => (
            SemanticComponentErrorCode::InvalidLifecycle,
            Some(SemanticComponentErrorDetails::InvalidLifecycle { operation, lifecycle }),
        ),
        SemanticComponentError::InvalidEnrolment => (SemanticComponentErrorCode::InvalidEnrolment, None),
        SemanticComponentError::InvalidMigrationPlan => (
            SemanticComponentErrorCode::InvalidMigrationPlan,
            None,
        ),
        SemanticComponentError::InvalidMigrationProgress { completed_documents, total_documents } => (
            SemanticComponentErrorCode::InvalidMigrationProgress,
            Some(
                SemanticComponentErrorDetails::InvalidMigrationProgress {
                    completed_documents,
                    total_documents,
                },
            ),
        ),
        SemanticComponentError::ExecutableDownloadProhibited => (
            SemanticComponentErrorCode::ExecutableDownloadProhibited,
            None,
        ),
        SemanticComponentError::Catalog { .. } => (SemanticComponentErrorCode::Catalog, None),
        SemanticComponentError::InsufficientSpace { available_bytes, required_bytes, reserve_bytes } => (
            SemanticComponentErrorCode::InsufficientSpace,
            Some(
                SemanticComponentErrorDetails::InsufficientSpace {
                    available_bytes,
                    required_bytes,
                    reserve_bytes,
                },
            ),
        ),
        SemanticComponentError::DownloadInterrupted { artifact_id, .. } => (
            SemanticComponentErrorCode::DownloadInterrupted,
            Some(SemanticComponentErrorDetails::Artifact { artifact_id }),
        ),
        SemanticComponentError::ArtifactVerificationFailed { artifact_id } => (
            SemanticComponentErrorCode::ArtifactVerificationFailed,
            Some(SemanticComponentErrorDetails::Artifact { artifact_id }),
        ),
        SemanticComponentError::ActivationFailed { artifact_id, .. } => (
            SemanticComponentErrorCode::ActivationFailed,
            Some(SemanticComponentErrorDetails::Artifact { artifact_id }),
        ),
        SemanticComponentError::FreeSpaceProbe { .. } => (SemanticComponentErrorCode::FreeSpaceProbe, None),
        SemanticComponentError::State { .. } => (SemanticComponentErrorCode::State, None),
        SemanticComponentError::Filesystem { .. } => (SemanticComponentErrorCode::Filesystem, None),
        SemanticComponentError::Indexing { .. } => (SemanticComponentErrorCode::Indexing, None),
        SemanticComponentError::IndexRemoval { .. } => (SemanticComponentErrorCode::IndexRemoval, None),
        SemanticComponentError::DataMigration { .. } => (SemanticComponentErrorCode::DataMigration, None),
        SemanticComponentError::BlockingTaskFailed { .. } => (
            SemanticComponentErrorCode::BlockingTaskFailed,
            None,
        ),
        SemanticComponentError::DiskUseOverflow => (SemanticComponentErrorCode::DiskUseOverflow, None),
    };
    SemanticComponentErrorReport { code, message, request_id, details }
}

/// The transport form of a data-root path: its text, unchanged.
pub fn path_to_transport_string(path: &str) -> (r: String)
    ensures
        r@ == path@,
{
    String::from_str(path)
}

} // verus!
