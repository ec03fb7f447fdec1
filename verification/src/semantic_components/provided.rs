//! Capabilities that never mutate components: the inert one of a host
//! without an implementation, and the read-only one of
//! administrator-provisioned servers.

use vstd::prelude::*;

use super::{
    RemoveSemanticIndexRequest, RuntimeExecutableDownload, SemanticComponentAuthority,
    SemanticComponentCapabilities, SemanticComponentError, SemanticComponentLifecycle,
    SemanticComponentOperation, SemanticComponentStatus, SemanticDataMoveReceipt,
    SemanticIndexRemovalConfirmation, SemanticIndexRemovalPlan, SemanticIndexRemovalReceipt,
    SemanticIndexRetentionDecision, SemanticInstallReceipt, SemanticInstallationConsent,
    SemanticInstallationOffer, SemanticLocalModelImportRequest, SemanticModelMigrationCheckpoint,
    SemanticModelMigrationConfirmation, SemanticModelMigrationId, SemanticModelMigrationPlan,
    SemanticModelMigrationProgress, SemanticModelProfile, SemanticModelSelection, SemanticProfile,
    SemanticReindexEstimate, SemanticUninstallReceipt, SemanticWorkerPatchRequest,
};

verus! {

/// Inert capability used when no component implementation is configured.
pub struct UnavailableSemanticComponentCapability;

impl UnavailableSemanticComponentCapability {
    /// Creates an unavailable capability without touching component storage.
    pub fn new() -> (r: Self) {
        Self
    }

    /// Reports no authority and no operation.
    pub fn capabilities(&self) -> (r: SemanticComponentCapabilities)
        ensures
            r.spec_authority() == SemanticComponentAuthority::Unavailable,
            r.spec_download() == RuntimeExecutableDownload::Unavailable,
            r.spec_operations().len() == 0,
    {
        SemanticComponentCapabilities::unavailable()
    }

    /// Reports the unavailable lifecycle with nothing installed.
    pub fn status(&self) -> (r: Result<SemanticComponentStatus, SemanticComponentError>)
        ensures
            r matches Ok(s) && {
                &&& s.spec_lifecycle() == SemanticComponentLifecycle::Unavailable
                &&& s.spec_data_root() is None
                &&& s.spec_active_model() is None
                &&& s.spec_migration() is None
                &&& s.spec_components().len() == 0
                &&& s.spec_disk_use().well_formed()
                &&& s.spec_disk_use().spec_total() == 0
            },
    {
        Ok(SemanticComponentStatus::unavailable())
    }

    /// Always `Unavailable`.
    pub fn catalog_profiles(&self) -> (r: Result<Vec<SemanticModelProfile>, SemanticComponentError>)
        ensures
            r matches Err(e) && e == SemanticComponentError::Unavailable,
    {
        Err(SemanticComponentError::Unavailable)
    }

    /// Always `Unavailable`.
    pub fn installation_offer(&self, profile: SemanticProfile) -> (r: Result<
        SemanticInstallationOffer,
        SemanticComponentError,
    >)
        ensures
            r matches Err(e) && e == SemanticComponentError::Unavailable,
    {
        Err(SemanticComponentError::Unavailable)
    }

    /// Always `Unavailable`.
    pub fn install_or_enable(&self, consent: SemanticInstallationConsent) -> (r: Result<
        SemanticInstallReceipt,
        SemanticComponentError,
    >)
        ensures
            r matches Err(e) && e == SemanticComponentError::Unavailable,
    {
        Err(SemanticComponentError::Unavailable)
    }

    /// Always `Unavailable`.
    pub fn install_compatible_worker_patch(&self, request: SemanticWorkerPatchRequest) -> (r: Result<
        Option<SemanticInstallReceipt>,
        SemanticComponentError,
    >)
        ensures
            r matches Err(e) && e == SemanticComponentError::Unavailable,
    {
        Err(SemanticComponentError::Unavailable)
    }

    /// Always `Unavailable`.
    pub fn pause_indexing(&self) -> (r: Result<(), SemanticComponentError>)
        ensures
            r == Err::<(), SemanticComponentError>(SemanticComponentError::Unavailable),
    {
        Err(SemanticComponentError::Unavailable)
    }

    /// Always `Unavailable`.
    pub fn resume_indexing(&self) -> (r: Result<(), SemanticComponentError>)
        ensures
            r == Err::<(), SemanticComponentError>(SemanticComponentError::Unavailable),
    {
        Err(SemanticComponentError::Unavailable)
    }

    /// Always `Unavailable`.
    pub fn remove_index(&self, request: RemoveSemanticIndexRequest) -> (r: Result<
        SemanticIndexRemovalReceipt,
        SemanticComponentError,
    >)
        ensures
            r matches Err(e) && e == SemanticComponentError::Unavailable,
    {
        Err(SemanticComponentError::Unavailable)
    }

    /// Always `Unavailable`.
    pub fn plan_index_removal(&self, enrolment_id: String) -> (r: Result<
        SemanticIndexRemovalPlan,
        SemanticComponentError,
    >)
        ensures
            r matches Err(e) && e == SemanticComponentError::Unavailable,
    {
        Err(SemanticComponentError::Unavailable)
    }

    /// Always `Unavailable`.
    pub fn confirm_index_removal(&self, confirmation: SemanticIndexRemovalConfirmation) -> (r: Result<
        SemanticIndexRemovalReceipt,
        SemanticComponentError,
    >)
        ensures
            r matches Err(e) && e == SemanticComponentError::Unavailable,
    {
        Err(SemanticComponentError::Unavailable)
    }

    /// Always `Unavailable`.
    pub fn move_data(&self, destination: String) -> (r: Result<
        SemanticDataMoveReceipt,
        SemanticComponentError,
    >)
        ensures
            r matches Err(e) && e == SemanticComponentError::Unavailable,
    {
        Err(SemanticComponentError::Unavailable)
    }

    /// Always `Unavailable`.
    pub fn uninstall_components(&self, index_decision: SemanticIndexRetentionDecision) -> (r: Result<
        SemanticUninstallReceipt,
        SemanticComponentError,
    >)
        ensures
            r matches Err(e) && e == SemanticComponentError::Unavailable,
    {
        Err(SemanticComponentError::Unavailable)
    }

    /// Always `Unavailable`.
    pub fn import_local_model(
        &self,
        request: SemanticLocalModelImportRequest,
        profile: SemanticProfile,
        estimate: SemanticReindexEstimate,
    ) -> (r: Result<SemanticModelMigrationPlan, SemanticComponentError>)
        ensures
            r matches Err(e) && e == SemanticComponentError::Unavailable,
    {
        Err(SemanticComponentError::Unavailable)
    }

    /// Always `Unavailable`.
    pub fn plan_model_migration(&self, profile: SemanticProfile, estimate: SemanticReindexEstimate) -> (r:
        Result<SemanticModelMigrationPlan, SemanticComponentError>)
        ensures
            r matches Err(e) && e == SemanticComponentError::Unavailable,
    {
        Err(SemanticComponentError::Unavailable)
    }

    /// Always `Unavailable`.
    pub fn confirm_model_migration(&self, confirmation: SemanticModelMigrationConfirmation) -> (r:
        Result<SemanticModelMigrationProgress, SemanticComponentError>)
        ensures
            r matches Err(e) && e == SemanticComponentError::Unavailable,
    {
        Err(SemanticComponentError::Unavailable)
    }

    /// Always `Unavailable`.
    pub fn checkpoint_model_migration(&self, checkpoint: SemanticModelMigrationCheckpoint) -> (r:
        Result<SemanticModelMigrationProgress, SemanticComponentError>)
        ensures
            r matches Err(e) && e == SemanticComponentError::Unavailable,
    {
        Err(SemanticComponentError::Unavailable)
    }

    /// Always `Unavailable`.
    pub fn complete_model_migration(&self, migration_id: SemanticModelMigrationId) -> (r: Result<
        SemanticModelSelection,
        SemanticComponentError,
    >)
        ensures
            r matches Err(e) && e == SemanticComponentError::Unavailable,
    {
        Err(SemanticComponentError::Unavailable)
    }
}

/// The refusal of a read-only administrator-provisioned capability.
pub open spec fn denied_error(operation: SemanticComponentOperation) -> SemanticComponentError {
    SemanticComponentError::AuthorityDenied {
        authority: SemanticComponentAuthority::AdministratorProvisioned,
        operation,
    }
}

/// Read-only server capability whose components are administrator provisioned.
pub struct AdministratorProvisionedSemanticComponentCapability {
    status: SemanticComponentStatus,
    profiles: Vec<SemanticModelProfile>,
}

impl AdministratorProvisionedSemanticComponentCapability {
    /// The administrator-reported status.
    pub closed spec fn spec_status(&self) -> SemanticComponentStatus {
        self.status
    }

    /// The administrator-reported profiles.
    pub closed spec fn spec_profiles(&self) -> Seq<SemanticModelProfile> {
        self.profiles@
    }

    /// Creates a read-only capability from administrator-reported state.
    pub fn new(status: SemanticComponentStatus, profiles: Vec<SemanticModelProfile>) -> (r: Self)
        ensures
            r.spec_status() == status,
            r.spec_profiles() == profiles@,
    {
        Self { status, profiles }
    }

    fn denied(operation: SemanticComponentOperation) -> (r: SemanticComponentError)
        ensures
            r == denied_error(operation),
    {
        SemanticComponentError::AuthorityDenied {
            authority: SemanticComponentAuthority::AdministratorProvisioned,
            operation,
        }
    }

    /// Reports the read-only administrator authority.
    pub fn capabilities(&self) -> (r: SemanticComponentCapabilities)
        ensures
            r.spec_authority() == SemanticComponentAuthority::AdministratorProvisioned,
            r.spec_download() == RuntimeExecutableDownload::AdministratorProvisioned,
            r.spec_operations() == seq![
                SemanticComponentOperation::ViewStatus,
                SemanticComponentOperation::ViewCatalog,
            ],
    {
        SemanticComponentCapabilities::administrator_provisioned()
    }

    /// Reports the administrator-reported status.
    pub fn status(&self) -> (r: Result<SemanticComponentStatus, SemanticComponentError>)
        ensures
            r matches Ok(s) && s@ == self.spec_status()@,
    {
        Ok(self.status.clone())
    }

    /// Reports the administrator-reported profiles.
    pub fn catalog_profiles(&self) -> (r: Result<Vec<SemanticModelProfile>, SemanticComponentError>)
        ensures
            r matches Ok(p) && p.len() == self.spec_profiles().len(),
    {
        Ok(self.profiles.clone())
    }

    /// Refused: the authority is read-only.
    pub fn installation_offer(&self, profile: SemanticProfile) -> (r: Result<
        SemanticInstallationOffer,
        SemanticComponentError,
    >)
        ensures
            r matches Err(e) && e == denied_error(SemanticComponentOperation::CreateInstallationOffer),
    {
        Err(Self::denied(SemanticComponentOperation::CreateInstallationOffer))
    }

    /// Refused: the authority is read-only.
    pub fn install_or_enable(&self, consent: SemanticInstallationConsent) -> (r: Result<
        SemanticInstallReceipt,
        SemanticComponentError,
    >)
        ensures
            r matches Err(e) && e == denied_error(SemanticComponentOperation::InstallOrEnable),
    {
        Err(Self::denied(SemanticComponentOperation::InstallOrEnable))
    }

    /// Refused: the authority is read-only.
    pub fn install_compatible_worker_patch(&self, request: SemanticWorkerPatchRequest) -> (r: Result<
        Option<SemanticInstallReceipt>,
        SemanticComponentError,
    >)
        ensures
            r matches Err(e) && e == denied_error(SemanticComponentOperation::InstallWorkerPatch),
    {
        Err(Self::denied(SemanticComponentOperation::InstallWorkerPatch))
    }

    /// Refused: the authority is read-only.
    pub fn pause_indexing(&self) -> (r: Result<(), SemanticComponentError>)
        ensures
            r matches Err(e) && e == denied_error(SemanticComponentOperation::PauseIndexing),
    {
        Err(Self::denied(SemanticComponentOperation::PauseIndexing))
    }

    /// Refused: the authority is read-only.
    pub fn resume_indexing(&self) -> (r: Result<(), SemanticComponentError>)
        ensures
            r matches Err(e) && e == denied_error(SemanticComponentOperation::ResumeIndexing),
    {
        Err(Self::denied(SemanticComponentOperation::ResumeIndexing))
    }

    /// Refused: the authority is read-only.
    pub fn remove_index(&self, request: RemoveSemanticIndexRequest) -> (r: Result<
        SemanticIndexRemovalReceipt,
        SemanticComponentError,
    >)
        ensures
            r matches Err(e) && e == denied_error(SemanticComponentOperation::RemoveIndex),
    {
        Err(Self::denied(SemanticComponentOperation::RemoveIndex))
    }

    /// Refused: the authority is read-only.
    pub fn plan_index_removal(&self, enrolment_id: String) -> (r: Result<
        SemanticIndexRemovalPlan,
        SemanticComponentError,
    >)
        ensures
            r matches Err(e) && e == denied_error(SemanticComponentOperation::RemoveIndex),
    {
        Err(Self::denied(SemanticComponentOperation::RemoveIndex))
    }

    /// Refused: the authority is read-only.
    pub fn confirm_index_removal(&self, confirmation: SemanticIndexRemovalConfirmation) -> (r: Result<
        SemanticIndexRemovalReceipt,
        SemanticComponentError,
    >)
        ensures
            r matches Err(e) && e == denied_error(SemanticComponentOperation::RemoveIndex),
    {
        Err(Self::denied(SemanticComponentOperation::RemoveIndex))
    }

    /// Refused: the authority is read-only.
    pub fn move_data(&self, destination: String) -> (r: Result<
        SemanticDataMoveReceipt,
        SemanticComponentError,
    >)
        ensures
            r matches Err(e) && e == denied_error(SemanticComponentOperation::MoveData),
    {
        Err(Self::denied(SemanticComponentOperation::MoveData))
    }

    /// Refused: the authority is read-only.
    pub fn uninstall_components(&self, index_decision: SemanticIndexRetentionDecision) -> (r: Result<
        SemanticUninstallReceipt,
        SemanticComponentError,
    >)
        ensures
            r matches Err(e) && e == denied_error(SemanticComponentOperation::UninstallComponents),
    {
        Err(Self::denied(SemanticComponentOperation::UninstallComponents))
    }

    /// Refused: the authority is read-only.
    pub fn import_local_model(
        &self,
        request: SemanticLocalModelImportRequest,
        profile: SemanticProfile,
        estimate: SemanticReindexEstimate,
    ) -> (r: Result<SemanticModelMigrationPlan, SemanticComponentError>)
        ensures
            r matches Err(e) && e == denied_error(SemanticComponentOperation::ImportLocalModel),
    {
        Err(Self::denied(SemanticComponentOperation::ImportLocalModel))
    }

    /// Refused: the authority is read-only.
    pub fn plan_model_migration(&self, profile: SemanticProfile, estimate: SemanticReindexEstimate) -> (r:
        Result<SemanticModelMigrationPlan, SemanticComponentError>)
        ensures
            r matches Err(e) && e == denied_error(SemanticComponentOperation::PlanModelMigration),
    {
        Err(Self::denied(SemanticComponentOperation::PlanModelMigration))
    }

    /// Refused: the authority is read-only.
    pub fn confirm_model_migration(&self, confirmation: SemanticModelMigrationConfirmation) -> (r:
        Result<SemanticModelMigrationProgress, SemanticComponentError>)
        ensures
            r matches Err(e) && e == denied_error(SemanticComponentOperation::ConfirmModelMigration),
    {
        Err(Self::denied(SemanticComponentOperation::ConfirmModelMigration))
    }

    /// Refused: the authority is read-only.
    pub fn checkpoint_model_migration(&self, checkpoint: SemanticModelMigrationCheckpoint) -> (r:
        Result<SemanticModelMigrationProgress, SemanticComponentError>)
        ensures
            r matches Err(e) && e == denied_error(SemanticComponentOperation::CheckpointModelMigration),
    {
        Err(Self::denied(SemanticComponentOperation::CheckpointModelMigration))
    }

    /// Refused: the authority is read-only.
    pub fn complete_model_migration(&self, migration_id: SemanticModelMigrationId) -> (r: Result<
        SemanticModelSelection,
        SemanticComponentError,
    >)
        ensures
            r matches Err(e) && e == denied_error(SemanticComponentOperation::CompleteModelMigration),
    {
        Err(Self::denied(SemanticComponentOperation::CompleteModelMigration))
    }
}

} // verus!
