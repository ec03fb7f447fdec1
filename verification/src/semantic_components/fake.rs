//! The deterministic mock capability: scenario lifecycles, live offers and
//! plans held in memory, and the rules every mock mutation obeys.

use vstd::prelude::*;

use super::{
    InstallationOfferId, InstalledSemanticComponent, InstalledSemanticComponentState,
    RemoveSemanticIndexRequest, SemanticCategoryDiskUse, SemanticComponentCapabilities,
    SemanticComponentDisclosure, SemanticComponentError, SemanticComponentKind,
    SemanticComponentLifecycle, SemanticComponentOperation, SemanticComponentStatus,
    SemanticDataCategory, SemanticDataMoveReceipt, SemanticDiskUse, SemanticIndexRecordCounts,
    SemanticIndexRemovalConfirmation, SemanticIndexRemovalPlan, SemanticIndexRemovalPlanId,
    SemanticIndexRemovalReceipt, SemanticIndexRetentionDecision, SemanticInstallReceipt,
    SemanticInstallationConsent, SemanticInstallationOffer, SemanticLicense,
    SemanticLocalModelImportRequest, SemanticModelIdentity, SemanticModelImportField,
    SemanticModelMigrationCheckpoint, SemanticModelMigrationConfirmation, SemanticModelMigrationId,
    SemanticModelMigrationPlan, SemanticModelMigrationProgress, SemanticModelMigrationReason,
    SemanticModelSelection, SemanticProfile, SemanticReindexEstimate, SemanticUninstallReceipt,
    SemanticWorkerPatchRequest,
};
use super::{all_categories, lifecycle_debug, lifecycle_debug_text, sum_bytes, strictly_ordered};
use crate::assoc::{assoc_find, assoc_insert, assoc_map, assoc_remove, keys_distinct, lemma_assoc_index};
use crate::text::{decimal, is_blank, push_decimal, str_is_blank};

verus! {

/// Deterministic lifecycle scenarios available to mock-mode callers.
#[derive(Debug, Clone, Copy, PartialEq, Eq, Structural)]
pub enum FakeSemanticComponentScenario {
    /// Components have never been installed.
    Absent,
    /// A complete offer awaits consent.
    Offered,
    /// A partial download can resume.
    DownloadingResumable,
    /// Components are installed and enabled.
    InstalledEnabled,
    /// Indexing is paused.
    Paused,
    /// A confirmed full reindex has a durable checkpoint.
    Migrating,
    /// An update failed and the last worker was restored.
    UpdateFailedRolledBack,
    /// Installation is blocked on required free space.
    LowDisk,
    /// Components were removed while indexes were retained.
    UninstalledRetainingIndex,
    /// Components and indexes were deleted.
    UninstalledDeletingIndex,
}

/// Every scenario, in declaration order.
pub open spec fn all_scenarios() -> Seq<FakeSemanticComponentScenario> {
    seq![
        FakeSemanticComponentScenario::Absent,
        FakeSemanticComponentScenario::Offered,
        FakeSemanticComponentScenario::DownloadingResumable,
        FakeSemanticComponentScenario::InstalledEnabled,
        FakeSemanticComponentScenario::Paused,
        FakeSemanticComponentScenario::Migrating,
        FakeSemanticComponentScenario::UpdateFailedRolledBack,
        FakeSemanticComponentScenario::LowDisk,
        FakeSemanticComponentScenario::UninstalledRetainingIndex,
        FakeSemanticComponentScenario::UninstalledDeletingIndex,
    ]
}

/// The name part of the mock model of a profile.
pub open spec fn fake_suffix(profile: SemanticProfile) -> Seq<char> {
    match profile {
        SemanticProfile::CompactMultilingual => "compact-multilingual"@,
        SemanticProfile::CompactEnglish => "compact-english"@,
        SemanticProfile::MultilingualQuality => "multilingual-quality"@,
    }
}

/// The mock model of a profile: `fake-<suffix>` at revision `fake-<suffix>-revision`.
pub open spec fn is_fake_identity(identity: SemanticModelIdentity, profile: SemanticProfile) -> bool {
    &&& identity.spec_model_id() == "fake-"@ + fake_suffix(profile)
    &&& identity.spec_revision() == "fake-"@ + fake_suffix(profile) + "-revision"@
}

/// The lifecycle that a scenario stands for.
pub open spec fn scenario_lifecycle(
    scenario: FakeSemanticComponentScenario,
    l: SemanticComponentLifecycle,
) -> bool {
    match scenario {
        FakeSemanticComponentScenario::Absent => l == SemanticComponentLifecycle::Absent,
        FakeSemanticComponentScenario::Offered => (l matches SemanticComponentLifecycle::Offered {
            offer_id,
        } && offer_id@ == "fake-scenario-offer"@),
        FakeSemanticComponentScenario::DownloadingResumable => l
            == SemanticComponentLifecycle::Downloading {
            downloaded_bytes: 40,
            total_bytes: 100,
            resumable: true,
        },
        FakeSemanticComponentScenario::InstalledEnabled => l
            == SemanticComponentLifecycle::InstalledEnabled,
        FakeSemanticComponentScenario::Paused => l == SemanticComponentLifecycle::Paused,
        FakeSemanticComponentScenario::Migrating => (l matches SemanticComponentLifecycle::Migrating {
            progress,
        } && {
            &&& progress.spec_migration_id()@ == "fake-scenario-migration"@
            &&& progress.spec_completed() == 4
            &&& progress.spec_estimate().spec_documents() == 10
            &&& progress.spec_estimate().spec_source_bytes() == 100
            &&& progress.spec_target().spec_profile() == SemanticProfile::CompactMultilingual
            &&& is_fake_identity(
                progress.spec_target().spec_identity(),
                SemanticProfile::CompactMultilingual,
            )
            &&& progress.spec_reason() == SemanticModelMigrationReason::ModelChanged
            &&& (progress.spec_resume_cursor() matches Some(c) && c@ == "fake-resume-cursor"@)
        }),
        FakeSemanticComponentScenario::UpdateFailedRolledBack => (l
            matches SemanticComponentLifecycle::UpdateFailedRolledBack {
            failed_version,
            active_version,
        } && failed_version@ == "1.0.1"@ && active_version@ == "1.0.0"@),
        FakeSemanticComponentScenario::LowDisk => l == SemanticComponentLifecycle::LowDisk {
            available_bytes: 50,
            required_bytes: 100,
        },
        FakeSemanticComponentScenario::UninstalledRetainingIndex => l
            == SemanticComponentLifecycle::Uninstalled {
            index_decision: SemanticIndexRetentionDecision::Retain,
        },
        FakeSemanticComponentScenario::UninstalledDeletingIndex => l
            == SemanticComponentLifecycle::Uninstalled {
            index_decision: SemanticIndexRetentionDecision::Delete,
        },
    }
}

/// Builds the mock model identity of a profile.
pub fn fake_model_identity(profile: SemanticProfile) -> (r: SemanticModelIdentity)
    ensures
        is_fake_identity(r, profile),
{
    let suffix = match profile {
        SemanticProfile::CompactMultilingual => "compact-multilingual",
        SemanticProfile::CompactEnglish => "compact-english",
        SemanticProfile::MultilingualQuality => "multilingual-quality",
    };
    let mut model_id = String::from_str("fake-");
    model_id.append(suffix);
    let mut revision = String::from_str("fake-");
    revision.append(suffix);
    revision.append("-revision");
    SemanticModelIdentity::new(model_id, revision)
}

impl FakeSemanticComponentScenario {
    /// Returns every deterministic mock scenario.
    pub fn all() -> (r: [Self; 10])
        ensures
            r@ == all_scenarios(),
    {
        let r = [
            Self::Absent,
            Self::Offered,
            Self::DownloadingResumable,
            Self::InstalledEnabled,
            Self::Paused,
            Self::Migrating,
            Self::UpdateFailedRolledBack,
            Self::LowDisk,
            Self::UninstalledRetainingIndex,
            Self::UninstalledDeletingIndex,
        ];
        assert(r@ =~= all_scenarios());
        r
    }

    /// Returns the lifecycle value represented by this scenario.
    pub fn lifecycle(self) -> (r: SemanticComponentLifecycle)
        ensures
            scenario_lifecycle(self, r),
    {
        match self {
            Self::Absent => SemanticComponentLifecycle::Absent,
            Self::Offered => SemanticComponentLifecycle::Offered {
                offer_id: InstallationOfferId(String::from_str("fake-scenario-offer")),
            },
            Self::DownloadingResumable => SemanticComponentLifecycle::Downloading {
                downloaded_bytes: 40,
                total_bytes: 100,
                resumable: true,
            },
            Self::InstalledEnabled => SemanticComponentLifecycle::InstalledEnabled,
            Self::Paused => SemanticComponentLifecycle::Paused,
            Self::Migrating => SemanticComponentLifecycle::Migrating {
                progress: SemanticModelMigrationProgress::new(
                    SemanticModelMigrationId::new(String::from_str("fake-scenario-migration")),
                    4,
                    SemanticReindexEstimate::new(10, 100),
                    SemanticModelSelection::new(
                        SemanticProfile::CompactMultilingual,
                        fake_model_identity(SemanticProfile::CompactMultilingual),
                    ),
                    SemanticModelMigrationReason::ModelChanged,
                    Some(String::from_str("fake-resume-cursor")),
                ),
            },
            Self::UpdateFailedRolledBack => SemanticComponentLifecycle::UpdateFailedRolledBack {
                failed_version: String::from_str("1.0.1"),
                active_version: String::from_str("1.0.0"),
            },
            Self::LowDisk => SemanticComponentLifecycle::LowDisk {
                available_bytes: 50,
                required_bytes: 100,
            },
            Self::UninstalledRetainingIndex => SemanticComponentLifecycle::Uninstalled {
                index_decision: SemanticIndexRetentionDecision::Retain,
            },
            Self::UninstalledDeletingIndex => SemanticComponentLifecycle::Uninstalled {
                index_decision: SemanticIndexRetentionDecision::Delete,
            },
        }
    }
}


/// One installed mock component: version `1.0.0`, active.
pub open spec fn is_fake_component(
    c: InstalledSemanticComponent,
    artifact_id: Seq<char>,
    component_id: Seq<char>,
    kind: SemanticComponentKind,
    installed_bytes: u64,
) -> bool {
    &&& c.spec_artifact_id() == artifact_id
    &&& c.spec_component_id() == component_id
    &&& c.spec_kind() == kind
    &&& c.spec_version() == "1.0.0"@
    &&& c.spec_state() == InstalledSemanticComponentState::Active
    &&& c.spec_installed_bytes() == installed_bytes
}

/// The worker, runtime and model that a mock installation reports.
pub open spec fn fake_components_installed(s: Seq<InstalledSemanticComponent>) -> bool {
    &&& s.len() == 3
    &&& is_fake_component(s[0], "fake-worker-artifact"@, "fake-worker"@, SemanticComponentKind::Worker, 60)
    &&& is_fake_component(s[1], "fake-runtime-artifact"@, "fake-runtime"@, SemanticComponentKind::Runtime, 70)
    &&& is_fake_component(s[2], "fake-model-artifact"@, "fake-model"@, SemanticComponentKind::Model, 300)
}

/// Builds the components of a mock installation.
pub fn fake_installed_components() -> (r: Vec<InstalledSemanticComponent>)
    ensures
        fake_components_installed(r@),
{
    let mut r: Vec<InstalledSemanticComponent> = Vec::new();
    r.push(
        InstalledSemanticComponent::new(
            String::from_str("fake-worker-artifact"),
            String::from_str("fake-worker"),
            SemanticComponentKind::Worker,
            String::from_str("1.0.0"),
            InstalledSemanticComponentState::Active,
            60,
        ),
    );
    r.push(
        InstalledSemanticComponent::new(
            String::from_str("fake-runtime-artifact"),
            String::from_str("fake-runtime"),
            SemanticComponentKind::Runtime,
            String::from_str("1.0.0"),
            InstalledSemanticComponentState::Active,
            70,
        ),
    );
    r.push(
        InstalledSemanticComponent::new(
            String::from_str("fake-model-artifact"),
            String::from_str("fake-model"),
            SemanticComponentKind::Model,
            String::from_str("1.0.0"),
            InstalledSemanticComponentState::Active,
            300,
        ),
    );
    r
}

/// One disclosed mock component: version `1.0.0`, MIT-licensed.
pub open spec fn is_fake_disclosure(
    d: SemanticComponentDisclosure,
    artifact_id: Seq<char>,
    component_id: Seq<char>,
    kind: SemanticComponentKind,
    download_bytes: u64,
    installed_bytes: u64,
    ram_bytes: u64,
) -> bool {
    &&& d.artifact_id@ == artifact_id
    &&& d.component_id@ == component_id
    &&& d.kind == kind
    &&& d.version@ == "1.0.0"@
    &&& d.license.spdx@ == "MIT"@
    &&& d.license.notice@ == "Deterministic mock component; no package is downloaded."@
    &&& d.download_bytes == download_bytes
    &&& d.estimated_installed_bytes == installed_bytes
    &&& d.estimated_ram_bytes == ram_bytes
}

/// The complete mock disclosure for a profile and its resolved model.
pub open spec fn is_fake_offer(
    offer: SemanticInstallationOffer,
    profile: SemanticProfile,
    resolved_model: SemanticModelIdentity,
) -> bool {
    let c = offer.spec_components();
    &&& offer.spec_catalog_revision() == "fake-signed-catalog-revision"@
    &&& offer.spec_profile() == profile
    &&& offer.spec_resolved_model() == resolved_model
    &&& c.len() == 3
    &&& is_fake_disclosure(c[0], "fake-worker-artifact"@, "fake-worker"@, SemanticComponentKind::Worker, 100, 200, 50)
    &&& c[0].model is None
    &&& is_fake_disclosure(c[1], "fake-runtime-artifact"@, "fake-runtime"@, SemanticComponentKind::Runtime, 100, 200, 100)
    &&& c[1].model is None
    &&& is_fake_disclosure(c[2], "fake-model-artifact"@, "fake-model"@, SemanticComponentKind::Model, 200, 300, 400)
    &&& c[2].model == Some(resolved_model)
    &&& offer.spec_embeddings_stay_local()
    &&& offer.spec_local_only_disclosure()
        == "Embedding inference and semantic index data stay on this device."@
    &&& offer.spec_data_root() == "mock/semantic"@
    &&& offer.spec_reserve_bytes() == 1024
}

/// The license of every mock component.
fn fake_license() -> (r: SemanticLicense)
    ensures
        r.spdx@ == "MIT"@,
        r.notice@ == "Deterministic mock component; no package is downloaded."@,
{
    SemanticLicense {
        spdx: String::from_str("MIT"),
        notice: String::from_str("Deterministic mock component; no package is downloaded."),
    }
}

/// One mock disclosure.
fn fake_disclosure(
    artifact_id: &str,
    component_id: &str,
    kind: SemanticComponentKind,
    model: Option<SemanticModelIdentity>,
    download_bytes: u64,
    installed_bytes: u64,
    ram_bytes: u64,
) -> (r: SemanticComponentDisclosure)
    ensures
        is_fake_disclosure(r, artifact_id@, component_id@, kind, download_bytes, installed_bytes, ram_bytes),
        r.model == model,
{
    SemanticComponentDisclosure {
        artifact_id: String::from_str(artifact_id),
        component_id: String::from_str(component_id),
        kind,
        model,
        version: String::from_str("1.0.0"),
        license: fake_license(),
        download_bytes,
        estimated_installed_bytes: installed_bytes,
        estimated_ram_bytes: ram_bytes,
    }
}

/// Builds the mock disclosure issued under `id`.
fn fake_installation_offer(
    id: InstallationOfferId,
    profile: SemanticProfile,
    resolved_model: SemanticModelIdentity,
) -> (r: SemanticInstallationOffer)
    ensures
        r.spec_id() == id,
        is_fake_offer(r, profile, resolved_model),
{
    let mut components: Vec<SemanticComponentDisclosure> = Vec::new();
    components.push(
        fake_disclosure("fake-worker-artifact", "fake-worker", SemanticComponentKind::Worker, None, 100, 200, 50),
    );
    components.push(
        fake_disclosure("fake-runtime-artifact", "fake-runtime", SemanticComponentKind::Runtime, None, 100, 200, 100),
    );
    components.push(
        fake_disclosure(
            "fake-model-artifact",
            "fake-model",
            SemanticComponentKind::Model,
            Some(resolved_model.clone()),
            200,
            300,
            400,
        ),
    );
    SemanticInstallationOffer::new(
        id,
        String::from_str("fake-signed-catalog-revision"),
        profile,
        resolved_model,
        components,
        true,
        String::from_str("Embedding inference and semantic index data stay on this device."),
        String::from_str("mock/semantic"),
        1024,
    )
}

/// Some declared language is blank.
pub open spec fn has_blank_language(languages: Seq<String>) -> bool {
    exists|i: int| 0 <= i < languages.len() && is_blank((#[trigger] languages[i])@)
}

/// The first required field, in declaration order, that a local model
/// request leaves empty, blank or zero.
pub open spec fn first_invalid_import_field(r: SemanticLocalModelImportRequest) -> Option<
    SemanticModelImportField,
> {
    if r.source_path@.len() == 0 {
        Some(SemanticModelImportField::SourcePath)
    } else if is_blank(r.model_id@) {
        Some(SemanticModelImportField::ModelId)
    } else if is_blank(r.upstream_revision@) {
        Some(SemanticModelImportField::UpstreamRevision)
    } else if is_blank(r.license_spdx@) {
        Some(SemanticModelImportField::License)
    } else if is_blank(r.tokenizer@) {
        Some(SemanticModelImportField::Tokenizer)
    } else if r.dimensions == 0 {
        Some(SemanticModelImportField::Dimensions)
    } else if r.normalization is None {
        Some(SemanticModelImportField::Normalization)
    } else if is_blank(r.runtime_component_id@) || is_blank(r.runtime_version_requirement@) {
        Some(SemanticModelImportField::RuntimeCompatibility)
    } else if r.language_coverage@.len() == 0 || has_blank_language(r.language_coverage@) {
        Some(SemanticModelImportField::LanguageCoverage)
    } else if r.estimated_disk_bytes == 0 {
        Some(SemanticModelImportField::EstimatedDiskBytes)
    } else if r.estimated_ram_bytes == 0 {
        Some(SemanticModelImportField::EstimatedRamBytes)
    } else {
        None
    }
}

/// Whether some declared language is blank.
fn any_blank_language(languages: &Vec<String>) -> (r: bool)
    ensures
        r == has_blank_language(languages@),
{
    let mut i: usize = 0;
    while i < languages.len()
        invariant
            i <= languages.len(),
            forall|j: int| 0 <= j < i ==> !is_blank((#[trigger] languages@[j])@),
        decreases languages.len() - i,
    {
        if str_is_blank(languages[i].as_str()) {
            return true;
        }
        i = i + 1;
    }
    false
}

/// Checks expert local-model metadata: the first invalid field, in
/// declaration order, is reported as `InvalidLocalModelMetadata`.
pub fn validate_fake_local_model(request: &SemanticLocalModelImportRequest) -> (r: Result<
    (),
    SemanticComponentError,
>)
    ensures
        match first_invalid_import_field(*request) {
            Some(field) => r == Err::<(), SemanticComponentError>(
                SemanticComponentError::InvalidLocalModelMetadata { field },
            ),
            None => r is Ok,
        },
{
    let missing = if request.source_path.unicode_len() == 0 {
        Some(SemanticModelImportField::SourcePath)
    } else if str_is_blank(request.model_id.as_str()) {
        Some(SemanticModelImportField::ModelId)
    } else if str_is_blank(request.upstream_revision.as_str()) {
        Some(SemanticModelImportField::UpstreamRevision)
    } else if str_is_blank(request.license_spdx.as_str()) {
        Some(SemanticModelImportField::License)
    } else if str_is_blank(request.tokenizer.as_str()) {
        Some(SemanticModelImportField::Tokenizer)
    } else if request.dimensions == 0 {
        Some(SemanticModelImportField::Dimensions)
    } else if request.normalization.is_none() {
        Some(SemanticModelImportField::Normalization)
    } else if str_is_blank(request.runtime_component_id.as_str()) || str_is_blank(
        request.runtime_version_requirement.as_str(),
    ) {
        Some(SemanticModelImportField::RuntimeCompatibility)
    } else if request.language_coverage.len() == 0 || any_blank_language(&request.language_coverage) {
        Some(SemanticModelImportField::LanguageCoverage)
    } else if request.estimated_disk_bytes == 0 {
        Some(SemanticModelImportField::EstimatedDiskBytes)
    } else if request.estimated_ram_bytes == 0 {
        Some(SemanticModelImportField::EstimatedRamBytes)
    } else {
        None
    };
    match missing {
        Some(field) => Err(SemanticComponentError::InvalidLocalModelMetadata { field }),
        None => Ok(()),
    }
}

/// A character allowed in an enrolment identity: ASCII letter or digit, `.`, `_` or `-`.
pub open spec fn is_enrolment_char(c: char) -> bool {
    ('a' <= c && c <= 'z') || ('A' <= c && c <= 'Z') || ('0' <= c && c <= '9') || c == '.' || c
        == '_' || c == '-'
}

/// A non-empty enrolment identity made of allowed characters only.
pub open spec fn is_safe_enrolment(s: Seq<char>) -> bool {
    s.len() > 0 && forall|i: int| 0 <= i < s.len() ==> is_enrolment_char(#[trigger] s[i])
}

/// Whether an enrolment identity is non-empty and made of allowed characters only.
pub fn safe_enrolment(s: &str) -> (r: bool)
    ensures
        r == is_safe_enrolment(s@),
{
    let n = s.unicode_len();
    if n == 0 {
        return false;
    }
    let mut i: usize = 0;
    while i < n
        invariant
            n == s@.len(),
            i <= n,
            forall|j: int| 0 <= j < i ==> is_enrolment_char(#[trigger] s@[j]),
        decreases n - i,
    {
        let c = s.get_char(i);
        let ok = ('a' <= c && c <= 'z') || ('A' <= c && c <= 'Z') || ('0' <= c && c <= '9') || c
            == '.' || c == '_' || c == '-';
        if !ok {
            return false;
        }
        i = i + 1;
    }
    true
}


/// Bytes a mock installation reports per category, in stable order.
pub open spec fn installed_category_bytes() -> Seq<u64> {
    seq![1u64, 0u64, 0u64, 0u64, 300u64, 130u64]
}

/// The disk use a mock installation reports: catalog 1, models 300,
/// workers 130, nothing else, 431 in all.
pub open spec fn is_installed_disk_use(d: SemanticDiskUse) -> bool {
    &&& d.well_formed()
    &&& forall|i: int| 0 <= i < 6 ==> (#[trigger] d.spec_categories()[i]).spec_bytes()
        == installed_category_bytes()[i]
    &&& d.spec_total() == 431
}

/// Builds the disk use of a mock installation.
fn fake_installed_disk_use() -> (r: SemanticDiskUse)
    ensures
        is_installed_disk_use(r),
{
    let mut categories: Vec<SemanticCategoryDiskUse> = Vec::new();
    categories.push(SemanticCategoryDiskUse::new(SemanticDataCategory::Catalog, 1));
    categories.push(SemanticCategoryDiskUse::new(SemanticDataCategory::Extracted, 0));
    categories.push(SemanticCategoryDiskUse::new(SemanticDataCategory::Zvec, 0));
    categories.push(SemanticCategoryDiskUse::new(SemanticDataCategory::EmbeddingCache, 0));
    categories.push(SemanticCategoryDiskUse::new(SemanticDataCategory::Models, 300));
    categories.push(SemanticCategoryDiskUse::new(SemanticDataCategory::Workers, 130));
    let r = SemanticDiskUse { categories, total_bytes: 431 };
    proof {
        let c = r.spec_categories();
        assert(c[0].spec_bytes() == 1 && c[1].spec_bytes() == 0 && c[2].spec_bytes() == 0);
        assert(c[3].spec_bytes() == 0 && c[4].spec_bytes() == 300 && c[5].spec_bytes() == 130);
        assert(sum_bytes(c, 0) == 0);
        assert(sum_bytes(c, 1) == 1);
        assert(sum_bytes(c, 2) == 1);
        assert(sum_bytes(c, 3) == 1);
        assert(sum_bytes(c, 4) == 1);
        assert(sum_bytes(c, 5) == 301);
        assert(sum_bytes(c, 6) == 431);
    }
    r
}

/// The status the mock reports for a lifecycle: root `mock/semantic`, no
/// model, no components, empty disk use, and the migration of a migrating
/// lifecycle.
pub open spec fn is_mock_status(s: SemanticComponentStatus, lifecycle: SemanticComponentLifecycle) -> bool {
    &&& s.spec_lifecycle() == lifecycle
    &&& (s.spec_data_root() matches Some(root) && root@ == "mock/semantic"@)
    &&& s.spec_active_model() is None
    &&& s.spec_migration() == match lifecycle {
        SemanticComponentLifecycle::Migrating { progress } => Some(progress),
        _ => None,
    }
    &&& s.spec_components().len() == 0
    &&& s.spec_disk_use().well_formed()
    &&& s.spec_disk_use().spec_total() == 0
}

/// `n + 1`, or `n` at the top of the range.
pub open spec fn saturating_next(n: u64) -> u64 {
    if n < u64::MAX { (n + 1) as u64 } else { n }
}

/// The identity of the `n`th offer.
pub open spec fn offer_key(n: u64) -> Seq<char> {
    "fake-offer-"@ + decimal(n as nat)
}

/// The identity of the `n`th migration plan.
pub open spec fn migration_key(n: u64) -> Seq<char> {
    "fake-migration-"@ + decimal(n as nat)
}

/// The identity of the `n`th index-removal plan.
pub open spec fn removal_key(n: u64) -> Seq<char> {
    "fake-index-removal-"@ + decimal(n as nat)
}

/// A fixed prefix followed by the decimal rendering of `n`.
fn numbered(prefix: &str, n: u64) -> (r: String)
    ensures
        r@ == prefix@ + decimal(n as nat),
{
    let mut r = String::from_str(prefix);
    push_decimal(&mut r, n);
    r
}

/// The records that every mock index-removal plan expects.
pub open spec fn fake_removal_counts() -> SemanticIndexRecordCounts {
    SemanticIndexRecordCounts {
        index_records: 3,
        extracted_files: 2,
        zvec_vectors: 3,
        cache_entries: 1,
        conversation_evidence: 2,
    }
}

/// Controllable deterministic semantic component capability for mock mode.
pub struct FakeSemanticComponentCapability {
    status: SemanticComponentStatus,
    live_offers: Vec<(String, SemanticModelSelection)>,
    plans: Vec<(String, SemanticModelMigrationPlan)>,
    index_removal_plans: Vec<(String, (String, SemanticIndexRecordCounts))>,
    next_offer: u64,
    next_migration: u64,
    next_index_removal: u64,
}

impl FakeSemanticComponentCapability {
    /// The reported status.
    pub closed spec fn spec_status(&self) -> SemanticComponentStatus {
        self.status
    }

    /// Live offers by identity, with the selection each one resolves.
    pub closed spec fn spec_offers(&self) -> Map<Seq<char>, SemanticModelSelection> {
        assoc_map(self.live_offers@)
    }

    /// Live migration plans by identity.
    pub closed spec fn spec_plans(&self) -> Map<Seq<char>, SemanticModelMigrationPlan> {
        assoc_map(self.plans@)
    }

    /// Live index-removal plans by identity, with enrolment and expected counts.
    pub closed spec fn spec_removals(&self) -> Map<Seq<char>, (String, SemanticIndexRecordCounts)> {
        assoc_map(self.index_removal_plans@)
    }

    /// Number of the next offer.
    pub closed spec fn spec_next_offer(&self) -> u64 {
        self.next_offer
    }

    /// Number of the next migration plan.
    pub closed spec fn spec_next_migration(&self) -> u64 {
        self.next_migration
    }

    /// Number of the next index-removal plan.
    pub closed spec fn spec_next_removal(&self) -> u64 {
        self.next_index_removal
    }

    /// Each live table holds one entry per identity.
    pub closed spec fn well_formed(&self) -> bool {
        &&& keys_distinct(self.live_offers@)
        &&& keys_distinct(self.plans@)
        &&& keys_distinct(self.index_removal_plans@)
    }

    /// Two capabilities in the same observable state.
    pub open spec fn same_state(&self, other: &Self) -> bool {
        &&& self.spec_status() == other.spec_status()
        &&& self.spec_offers() == other.spec_offers()
        &&& self.spec_plans() == other.spec_plans()
        &&& self.spec_removals() == other.spec_removals()
        &&& self.spec_next_offer() == other.spec_next_offer()
        &&& self.spec_next_migration() == other.spec_next_migration()
        &&& self.spec_next_removal() == other.spec_next_removal()
    }

    /// Creates a fake in the absent state without touching the filesystem.
    pub fn new() -> (r: Self)
        ensures
            r.well_formed(),
            is_mock_status(r.spec_status(), SemanticComponentLifecycle::Absent),
            r.spec_offers().is_empty(),
            r.spec_plans().is_empty(),
            r.spec_removals().is_empty(),
            r.spec_next_offer() == 1,
            r.spec_next_migration() == 1,
            r.spec_next_removal() == 1,
    {
        let r = Self {
            status: SemanticComponentStatus::fake(SemanticComponentLifecycle::Absent),
            live_offers: Vec::new(),
            plans: Vec::new(),
            index_removal_plans: Vec::new(),
            next_offer: 1,
            next_migration: 1,
            next_index_removal: 1,
        };
        assert(r.spec_offers() =~= Map::empty());
        assert(r.spec_plans() =~= Map::empty());
        assert(r.spec_removals() =~= Map::empty());
        r
    }

    /// Selects one deterministic lifecycle scenario; only the status changes.
    pub fn set_scenario(&mut self, scenario: FakeSemanticComponentScenario)
        requires
            old(self).well_formed(),
        ensures
            final(self).well_formed(),
            scenario_lifecycle(scenario, final(self).spec_status().spec_lifecycle()),
            is_mock_status(final(self).spec_status(), final(self).spec_status().spec_lifecycle()),
            final(self).spec_offers() == old(self).spec_offers(),
            final(self).spec_plans() == old(self).spec_plans(),
            final(self).spec_removals() == old(self).spec_removals(),
            final(self).spec_next_offer() == old(self).spec_next_offer(),
            final(self).spec_next_migration() == old(self).spec_next_migration(),
            final(self).spec_next_removal() == old(self).spec_next_removal(),
    {
        self.status = SemanticComponentStatus::fake(scenario.lifecycle());
    }

    /// Reports every operation, with simulated downloads.
    pub fn capabilities(&self) -> (r: SemanticComponentCapabilities)
        ensures
            r.spec_authority() == super::SemanticComponentAuthority::DeterministicMock,
            r.spec_download() == super::RuntimeExecutableDownload::Simulated,
            strictly_ordered(r.spec_operations()),
            forall|op: SemanticComponentOperation| #[trigger] r.spec_operations().contains(op),
    {
        SemanticComponentCapabilities::deterministic_mock()
    }

    /// Reports the current status.
    pub fn status(&self) -> (r: Result<SemanticComponentStatus, SemanticComponentError>)
        ensures
            r matches Ok(s) && s@ == self.spec_status()@,
    {
        Ok(self.status.clone())
    }

    /// Issues the next offer for the mock model of `profile`: the offer becomes
    /// live, the lifecycle becomes `Offered` with its identity, and the offer
    /// counter advances.
    pub fn installation_offer(&mut self, profile: SemanticProfile) -> (r: Result<
        SemanticInstallationOffer,
        SemanticComponentError,
    >)
        requires
            old(self).well_formed(),
        ensures
            final(self).well_formed(),
            r matches Ok(offer) && {
                let k = offer_key(old(self).spec_next_offer());
                &&& offer.spec_id()@ == k
                &&& is_fake_identity(offer.spec_resolved_model(), profile)
                &&& is_fake_offer(offer, profile, offer.spec_resolved_model())
                &&& final(self).spec_offers() == old(self).spec_offers().insert(
                    k,
                    final(self).spec_offers()[k],
                )
                &&& final(self).spec_offers()[k].spec_profile() == profile
                &&& final(self).spec_offers()[k].spec_identity() == offer.spec_resolved_model()
                &&& final(self).spec_status() == old(self).spec_status().with_lifecycle(
                    SemanticComponentLifecycle::Offered { offer_id: offer.spec_id() },
                )
            },
            final(self).spec_next_offer() == saturating_next(old(self).spec_next_offer()),
            final(self).spec_plans() == old(self).spec_plans(),
            final(self).spec_removals() == old(self).spec_removals(),
            final(self).spec_next_migration() == old(self).spec_next_migration(),
            final(self).spec_next_removal() == old(self).spec_next_removal(),
    {
        let resolved_model = fake_model_identity(profile);
        let key = numbered("fake-offer-", self.next_offer);
        self.next_offer = self.next_offer.saturating_add(1);
        assoc_insert(
            &mut self.live_offers,
            key.clone(),
            SemanticModelSelection::new(profile, resolved_model.clone()),
        );
        self.status.lifecycle = SemanticComponentLifecycle::Offered {
            offer_id: InstallationOfferId(key.clone()),
        };
        Ok(fake_installation_offer(InstallationOfferId(key), profile, resolved_model))
    }

    /// Installs the mock components for a live offer. The offer is consumed;
    /// an identity that is not live is `ConsentRequired` and changes nothing.
    pub fn install_or_enable(&mut self, consent: SemanticInstallationConsent) -> (r: Result<
        SemanticInstallReceipt,
        SemanticComponentError,
    >)
        requires
            old(self).well_formed(),
        ensures
            final(self).well_formed(),
            match r {
                Ok(receipt) => {
                    let k = consent.spec_offer_id()@;
                    let st = final(self).spec_status();
                    &&& old(self).spec_offers().contains_key(k)
                    &&& final(self).spec_offers() == old(self).spec_offers().remove(k)
                    &&& st.spec_lifecycle() == SemanticComponentLifecycle::InstalledEnabled
                    &&& st.spec_active_model() == Some(old(self).spec_offers()[k])
                    &&& st.spec_data_root() == old(self).spec_status().spec_data_root()
                    &&& st.spec_migration() == old(self).spec_status().spec_migration()
                    &&& fake_components_installed(st.spec_components())
                    &&& is_installed_disk_use(st.spec_disk_use())
                    &&& receipt.installed_artifact_ids@.len() == 3
                    &&& receipt.installed_artifact_ids@[0]@ == "fake-worker-artifact"@
                    &&& receipt.installed_artifact_ids@[1]@ == "fake-runtime-artifact"@
                    &&& receipt.installed_artifact_ids@[2]@ == "fake-model-artifact"@
                    &&& final(self).spec_plans() == old(self).spec_plans()
                    &&& final(self).spec_removals() == old(self).spec_removals()
                    &&& final(self).spec_next_offer() == old(self).spec_next_offer()
                    &&& final(self).spec_next_migration() == old(self).spec_next_migration()
                    &&& final(self).spec_next_removal() == old(self).spec_next_removal()
                },
                Err(e) => {
                    &&& e == SemanticComponentError::ConsentRequired
                    &&& !old(self).spec_offers().contains_key(consent.spec_offer_id()@)
                    &&& final(self).same_state(&*old(self))
                },
            },
    {
        let selection = match assoc_remove(&mut self.live_offers, &consent.offer_id.0) {
            Some(selection) => selection,
            None => {
                assert(self.spec_offers() =~= old(self).spec_offers());
                return Err(SemanticComponentError::ConsentRequired);
            },
        };
        self.status.lifecycle = SemanticComponentLifecycle::InstalledEnabled;
        self.status.active_model = Some(selection);
        self.status.components = fake_installed_components();
        self.status.disk_use = fake_installed_disk_use();
        let mut installed_artifact_ids: Vec<String> = Vec::new();
        installed_artifact_ids.push(String::from_str("fake-worker-artifact"));
        installed_artifact_ids.push(String::from_str("fake-runtime-artifact"));
        installed_artifact_ids.push(String::from_str("fake-model-artifact"));
        Ok(SemanticInstallReceipt { installed_artifact_ids })
    }

    /// The mock has no worker patches: always `Ok(None)`.
    pub fn install_compatible_worker_patch(&self, request: SemanticWorkerPatchRequest) -> (r: Result<
        Option<SemanticInstallReceipt>,
        SemanticComponentError,
    >)
        ensures
            r matches Ok(None),
    {
        Ok(None)
    }

    /// Pauses indexing of an installed, enabled mock. In any other lifecycle
    /// the call is `InvalidLifecycle` naming the current lifecycle, and
    /// changes nothing.
    pub fn pause_indexing(&mut self) -> (r: Result<(), SemanticComponentError>)
        requires
            old(self).well_formed(),
        ensures
            final(self).well_formed(),
            (r is Ok) == (old(self).spec_status().spec_lifecycle()
                == SemanticComponentLifecycle::InstalledEnabled),
            r is Ok ==> final(self).spec_status() == old(self).spec_status().with_lifecycle(
                SemanticComponentLifecycle::Paused,
            ),
            r matches Err(e) ==> invalid_lifecycle_error(
                e,
                SemanticComponentOperation::PauseIndexing,
                old(self).spec_status().spec_lifecycle(),
            ),
            r is Err ==> final(self).spec_status() == old(self).spec_status(),
            final(self).spec_offers() == old(self).spec_offers(),
            final(self).spec_plans() == old(self).spec_plans(),
            final(self).spec_removals() == old(self).spec_removals(),
            final(self).spec_next_offer() == old(self).spec_next_offer(),
            final(self).spec_next_migration() == old(self).spec_next_migration(),
            final(self).spec_next_removal() == old(self).spec_next_removal(),
    {
        if !matches!(self.status.lifecycle, SemanticComponentLifecycle::InstalledEnabled) {
            return Err(
                SemanticComponentError::InvalidLifecycle {
                    operation: SemanticComponentOperation::PauseIndexing,
                    lifecycle: lifecycle_debug_text(&self.status.lifecycle),
                },
            );
        }
        self.status.lifecycle = SemanticComponentLifecycle::Paused;
        Ok(())
    }

    /// Resumes indexing of a paused mock. In any other lifecycle the call is
    /// `InvalidLifecycle` naming the current lifecycle, and changes nothing.
    pub fn resume_indexing(&mut self) -> (r: Result<(), SemanticComponentError>)
        requires
            old(self).well_formed(),
        ensures
            final(self).well_formed(),
            (r is Ok) == (old(self).spec_status().spec_lifecycle()
                == SemanticComponentLifecycle::Paused),
            r is Ok ==> final(self).spec_status() == old(self).spec_status().with_lifecycle(
                SemanticComponentLifecycle::InstalledEnabled,
            ),
            r matches Err(e) ==> invalid_lifecycle_error(
                e,
                SemanticComponentOperation::ResumeIndexing,
                old(self).spec_status().spec_lifecycle(),
            ),
            r is Err ==> final(self).spec_status() == old(self).spec_status(),
            final(self).spec_offers() == old(self).spec_offers(),
            final(self).spec_plans() == old(self).spec_plans(),
            final(self).spec_removals() == old(self).spec_removals(),
            final(self).spec_next_offer() == old(self).spec_next_offer(),
            final(self).spec_next_migration() == old(self).spec_next_migration(),
            final(self).spec_next_removal() == old(self).spec_next_removal(),
    {
        if !matches!(self.status.lifecycle, SemanticComponentLifecycle::Paused) {
            return Err(
                SemanticComponentError::InvalidLifecycle {
                    operation: SemanticComponentOperation::ResumeIndexing,
                    lifecycle: lifecycle_debug_text(&self.status.lifecycle),
                },
            );
        }
        self.status.lifecycle = SemanticComponentLifecycle::InstalledEnabled;
        Ok(())
    }
}

impl FakeSemanticComponentCapability {
    /// Reports the removal of every record of a safe enrolment identity: the
    /// deleted counts are the expected ones. An empty identity, or one with a
    /// character other than an ASCII letter or digit, `.`, `_` or `-`, is
    /// `InvalidEnrolment`.
    pub fn remove_index(&self, request: RemoveSemanticIndexRequest) -> (r: Result<
        SemanticIndexRemovalReceipt,
        SemanticComponentError,
    >)
        ensures
            match r {
                Ok(receipt) => {
                    &&& is_safe_enrolment(request.enrolment_id@)
                    &&& receipt.enrolment_id == request.enrolment_id
                    &&& receipt.deleted == request.expected
                    &&& receipt.conversation_evidence_deleted
                },
                Err(e) => !is_safe_enrolment(request.enrolment_id@) && e
                    == SemanticComponentError::InvalidEnrolment,
            },
    {
        if !safe_enrolment(request.enrolment_id.as_str()) {
            return Err(SemanticComponentError::InvalidEnrolment);
        }
        Ok(
            SemanticIndexRemovalReceipt {
                enrolment_id: request.enrolment_id,
                deleted: request.expected,
                conversation_evidence_deleted: true,
            },
        )
    }

    /// Issues the next index-removal plan for an enrolment that the host's
    /// enrolment-identity rules accepted (`enrolment_accepted`); a refused
    /// identity is `InvalidEnrolment` and changes nothing. Every mock plan
    /// expects the same counts.
    pub fn plan_index_removal(&mut self, enrolment_id: String, enrolment_accepted: bool) -> (r:
        Result<SemanticIndexRemovalPlan, SemanticComponentError>)
        requires
            old(self).well_formed(),
        ensures
            final(self).well_formed(),
            match r {
                Ok(plan) => {
                    let k = removal_key(old(self).spec_next_removal());
                    &&& enrolment_accepted
                    &&& plan.spec_id()@ == k
                    &&& plan.spec_enrolment_id() == enrolment_id@
                    &&& plan.spec_expected() == fake_removal_counts()
                    &&& final(self).spec_removals() == old(self).spec_removals().insert(
                        k,
                        final(self).spec_removals()[k],
                    )
                    &&& final(self).spec_removals()[k].0@ == enrolment_id@
                    &&& final(self).spec_removals()[k].1 == fake_removal_counts()
                    &&& final(self).spec_next_removal() == saturating_next(
                        old(self).spec_next_removal(),
                    )
                    &&& final(self).spec_status() == old(self).spec_status()
                    &&& final(self).spec_offers() == old(self).spec_offers()
                    &&& final(self).spec_plans() == old(self).spec_plans()
                    &&& final(self).spec_next_offer() == old(self).spec_next_offer()
                    &&& final(self).spec_next_migration() == old(self).spec_next_migration()
                },
                Err(e) => {
                    &&& !enrolment_accepted
                    &&& e == SemanticComponentError::InvalidEnrolment
                    &&& final(self).same_state(&*old(self))
                },
            },
    {
        if !enrolment_accepted {
            return Err(SemanticComponentError::InvalidEnrolment);
        }
        let key = numbered("fake-index-removal-", self.next_index_removal);
        self.next_index_removal = self.next_index_removal.saturating_add(1);
        let expected = SemanticIndexRecordCounts {
            index_records: 3,
            extracted_files: 2,
            zvec_vectors: 3,
            cache_entries: 1,
            conversation_evidence: 2,
        };
        assoc_insert(&mut self.index_removal_plans, key.clone(), (enrolment_id.clone(), expected));
        Ok(SemanticIndexRemovalPlan::new(SemanticIndexRemovalPlanId(key), enrolment_id, expected))
    }

    /// Removes the records of a live index-removal plan, consuming it. An
    /// identity that is not live is an index-removal error and changes nothing.
    pub fn confirm_index_removal(&mut self, confirmation: SemanticIndexRemovalConfirmation) -> (r:
        Result<SemanticIndexRemovalReceipt, SemanticComponentError>)
        requires
            old(self).well_formed(),
        ensures
            final(self).well_formed(),
            match r {
                Ok(receipt) => {
                    let k = confirmation.spec_plan_id()@;
                    &&& old(self).spec_removals().contains_key(k)
                    &&& receipt.enrolment_id == old(self).spec_removals()[k].0
                    &&& receipt.deleted == old(self).spec_removals()[k].1
                    &&& receipt.conversation_evidence_deleted
                    &&& final(self).spec_removals() == old(self).spec_removals().remove(k)
                    &&& final(self).spec_status() == old(self).spec_status()
                    &&& final(self).spec_offers() == old(self).spec_offers()
                    &&& final(self).spec_plans() == old(self).spec_plans()
                    &&& final(self).spec_next_offer() == old(self).spec_next_offer()
                    &&& final(self).spec_next_migration() == old(self).spec_next_migration()
                    &&& final(self).spec_next_removal() == old(self).spec_next_removal()
                },
                Err(e) => {
                    &&& !old(self).spec_removals().contains_key(confirmation.spec_plan_id()@)
                    &&& (e matches SemanticComponentError::IndexRemoval { message } && message@
                        == "index removal plan is stale or unknown"@)
                    &&& final(self).same_state(&*old(self))
                },
            },
    {
        match assoc_remove(&mut self.index_removal_plans, &confirmation.plan_id.0) {
            Some((enrolment_id, deleted)) => Ok(
                SemanticIndexRemovalReceipt {
                    enrolment_id,
                    deleted,
                    conversation_evidence_deleted: true,
                },
            ),
            None => {
                assert(self.spec_removals() =~= old(self).spec_removals());
                Err(
                    SemanticComponentError::IndexRemoval {
                        message: String::from_str("index removal plan is stale or unknown"),
                    },
                )
            },
        }
    }

    /// Makes `destination` the data root; the previous root, or
    /// `mock/semantic` when none was reported, is the source.
    pub fn move_data(&mut self, destination: String) -> (r: Result<
        SemanticDataMoveReceipt,
        SemanticComponentError,
    >)
        requires
            old(self).well_formed(),
        ensures
            final(self).well_formed(),
            r matches Ok(receipt) && {
                &&& receipt.source@ == match old(self).spec_status().spec_data_root() {
                    Some(root) => root@,
                    None => "mock/semantic"@,
                }
                &&& receipt.destination == destination
                &&& receipt.verified_file_count == 0
                &&& receipt.verified_bytes == 0
            },
            final(self).spec_status() == old(self).spec_status().with_data_root(Some(destination)),
            final(self).spec_offers() == old(self).spec_offers(),
            final(self).spec_plans() == old(self).spec_plans(),
            final(self).spec_removals() == old(self).spec_removals(),
            final(self).spec_next_offer() == old(self).spec_next_offer(),
            final(self).spec_next_migration() == old(self).spec_next_migration(),
            final(self).spec_next_removal() == old(self).spec_next_removal(),
    {
        let previous = self.status.data_root.take();
        self.status.data_root = Some(destination.clone());
        let source = match previous {
            Some(root) => root,
            None => String::from_str("mock/semantic"),
        };
        Ok(
            SemanticDataMoveReceipt {
                source,
                destination,
                verified_file_count: 0,
                verified_bytes: 0,
            },
        )
    }

    /// Uninstalls the mock components under an explicit retention decision:
    /// the lifecycle becomes `Uninstalled`, the components are gone, and
    /// deleting also forgets the active model, the migration and the disk
    /// use. Three component records are reported removed.
    pub fn uninstall_components(&mut self, index_decision: SemanticIndexRetentionDecision) -> (r:
        Result<SemanticUninstallReceipt, SemanticComponentError>)
        requires
            old(self).well_formed(),
        ensures
            final(self).well_formed(),
            r matches Ok(receipt) && receipt.index_decision == index_decision
                && receipt.removed_component_count == 3,
            final(self).spec_status().spec_lifecycle() == (SemanticComponentLifecycle::Uninstalled {
                index_decision,
            }),
            final(self).spec_status().spec_components().len() == 0,
            final(self).spec_status().spec_data_root() == old(self).spec_status().spec_data_root(),
            index_decision == SemanticIndexRetentionDecision::Retain ==> final(self).spec_status().spec_active_model() == old(self).spec_status().spec_active_model()
                && final(self).spec_status().spec_migration() == old(self).spec_status().spec_migration()
                && final(self).spec_status().spec_disk_use() == old(self).spec_status().spec_disk_use(),
            index_decision == SemanticIndexRetentionDecision::Delete ==> final(self).spec_status().spec_active_model() is None && final(self).spec_status().spec_migration() is None
                && final(self).spec_status().spec_disk_use().well_formed()
                && final(self).spec_status().spec_disk_use().spec_total() == 0,
            final(self).spec_offers() == old(self).spec_offers(),
            final(self).spec_plans() == old(self).spec_plans(),
            final(self).spec_removals() == old(self).spec_removals(),
            final(self).spec_next_offer() == old(self).spec_next_offer(),
            final(self).spec_next_migration() == old(self).spec_next_migration(),
            final(self).spec_next_removal() == old(self).spec_next_removal(),
    {
        self.status.lifecycle = SemanticComponentLifecycle::Uninstalled { index_decision };
        self.status.components.clear();
        if matches!(index_decision, SemanticIndexRetentionDecision::Delete) {
            self.status.active_model = None;
            self.status.migration = None;
            self.status.disk_use = SemanticDiskUse::empty();
        }
        Ok(SemanticUninstallReceipt { index_decision, removed_component_count: 3 })
    }
}

/// The plan a capability records for the `n`th migration: from the active
/// model to `profile` with `identity`, a model change.
pub open spec fn is_next_plan(
    plan: SemanticModelMigrationPlan,
    n: u64,
    from: Option<SemanticModelSelection>,
    profile: SemanticProfile,
    identity: SemanticModelIdentity,
    estimate: SemanticReindexEstimate,
) -> bool {
    &&& plan.spec_id()@ == migration_key(n)
    &&& plan.spec_from() == from
    &&& plan.spec_target().spec_profile() == profile
    &&& plan.spec_target().spec_identity() == identity
    &&& plan.spec_estimate() == estimate
    &&& plan.spec_reason() == SemanticModelMigrationReason::ModelChanged
}

/// Completed documents of the migration `id` in `migration`, or zero when
/// another migration (or none) is recorded.
pub open spec fn completed_for(migration: Option<SemanticModelMigrationProgress>, id: Seq<char>) -> u64 {
    match migration {
        Some(p) => if p.spec_migration_id()@ == id {
            p.spec_completed()
        } else {
            0
        },
        None => 0,
    }
}

/// What confirming a migration gives: for a live plan, its migration
/// recorded with nothing completed and no cursor, and the lifecycle
/// migrating; otherwise `InvalidMigrationPlan` and no change of status.
pub open spec fn confirm_answer(
    s: FakeSemanticComponentCapability,
    confirmation: SemanticModelMigrationConfirmation,
    r: Result<SemanticModelMigrationProgress, SemanticComponentError>,
    f: FakeSemanticComponentCapability,
) -> bool {
    match r {
        Ok(progress) => {
            let plan = s.spec_plans()[confirmation.spec_migration_id()@];
            &&& s.spec_plans().contains_key(confirmation.spec_migration_id()@)
            &&& progress == SemanticModelMigrationProgress::of(
                confirmation.spec_migration_id(),
                0,
                plan.spec_estimate(),
                plan.spec_target(),
                plan.spec_reason(),
                None,
            )
            &&& f.spec_status() == s.spec_status().with_migration(
                Some(progress),
            ).with_lifecycle(SemanticComponentLifecycle::Migrating { progress })
            &&& f.spec_plans() == s.spec_plans()
        },
        Err(e) => {
            &&& !s.spec_plans().contains_key(confirmation.spec_migration_id()@)
            &&& e == SemanticComponentError::InvalidMigrationPlan
            &&& f.spec_status() == s.spec_status()
        },
    }
}

/// What checkpointing a migration gives: for the recorded migration of a
/// live plan, a completed count from the recorded one up to the plan's
/// estimate is recorded with its cursor and the lifecycle migrating; a
/// count outside that range is `InvalidMigrationProgress`, any other
/// checkpoint `InvalidMigrationPlan`, and a refusal changes no status.
pub open spec fn checkpoint_answer(
    s: FakeSemanticComponentCapability,
    checkpoint: SemanticModelMigrationCheckpoint,
    r: Result<SemanticModelMigrationProgress, SemanticComponentError>,
    f: FakeSemanticComponentCapability,
) -> bool {
    ({
        let k = checkpoint.migration_id@;
        let live = s.spec_plans().contains_key(k);
        let plan = s.spec_plans()[k];
        let total = plan.spec_estimate().spec_documents();
        let recorded = s.spec_status().spec_migration();
        let current = recorded matches Some(p) && p.spec_migration_id()@ == k;
        let previous = recorded.unwrap().spec_completed();
        match r {
            Ok(progress) => {
                &&& live && current
                &&& previous <= checkpoint.completed_documents <= total
                &&& progress == SemanticModelMigrationProgress::of(
                    checkpoint.migration_id,
                    checkpoint.completed_documents,
                    plan.spec_estimate(),
                    plan.spec_target(),
                    plan.spec_reason(),
                    checkpoint.resume_cursor,
                )
                &&& f.spec_status() == s.spec_status().with_migration(
                    Some(progress),
                ).with_lifecycle(SemanticComponentLifecycle::Migrating { progress })
            },
            Err(e) => {
                &&& f.spec_status() == s.spec_status()
                &&& if !live || !current {
                    e == SemanticComponentError::InvalidMigrationPlan
                } else {
                    &&& (checkpoint.completed_documents < previous
                        || checkpoint.completed_documents > total)
                    &&& e == SemanticComponentError::InvalidMigrationProgress {
                        completed_documents: checkpoint.completed_documents,
                        total_documents: total,
                    }
                }
            },
        }
    })
}

impl FakeSemanticComponentCapability {
    /// The live plan recorded under `key`, if any.
    fn find_plan(&self, key: &String) -> (r: Option<SemanticModelMigrationPlan>)
        requires
            self.well_formed(),
        ensures
            match r {
                Some(p) => self.spec_plans().contains_key(key@) && p == self.spec_plans()[key@],
                None => !self.spec_plans().contains_key(key@),
            },
    {
        match assoc_find(&self.plans, key) {
            Some(i) => {
                proof {
                    lemma_assoc_index(self.plans@, i as int);
                }
                Some(self.plans[i].1.clone())
            },
            None => None,
        }
    }

    /// Records and returns the next migration plan.
    fn next_migration_plan(
        &mut self,
        profile: SemanticProfile,
        identity: SemanticModelIdentity,
        estimate: SemanticReindexEstimate,
    ) -> (plan: SemanticModelMigrationPlan)
        requires
            old(self).well_formed(),
        ensures
            final(self).well_formed(),
            is_next_plan(
                plan,
                old(self).spec_next_migration(),
                old(self).spec_status().spec_active_model(),
                profile,
                identity,
                estimate,
            ),
            final(self).spec_plans() == old(self).spec_plans().insert(plan.spec_id()@, plan),
            final(self).spec_next_migration() == saturating_next(old(self).spec_next_migration()),
            final(self).spec_status() == old(self).spec_status(),
            final(self).spec_offers() == old(self).spec_offers(),
            final(self).spec_removals() == old(self).spec_removals(),
            final(self).spec_next_offer() == old(self).spec_next_offer(),
            final(self).spec_next_removal() == old(self).spec_next_removal(),
    {
        let key = numbered("fake-migration-", self.next_migration);
        self.next_migration = self.next_migration.saturating_add(1);
        let plan = SemanticModelMigrationPlan::new(
            SemanticModelMigrationId::new(key.clone()),
            super::clone_option_selection(&self.status.active_model),
            SemanticModelSelection::new(profile, identity),
            estimate,
            SemanticModelMigrationReason::ModelChanged,
        );
        assoc_insert(&mut self.plans, key, plan.clone());
        plan
    }

    /// Plans a migration to an expert local model after checking its
    /// metadata; invalid metadata is refused as `validate_fake_local_model`
    /// says and changes nothing.
    pub fn import_local_model(
        &mut self,
        request: SemanticLocalModelImportRequest,
        profile: SemanticProfile,
        estimate: SemanticReindexEstimate,
    ) -> (r: Result<SemanticModelMigrationPlan, SemanticComponentError>)
        requires
            old(self).well_formed(),
        ensures
            final(self).well_formed(),
            match r {
                Ok(plan) => {
                    &&& first_invalid_import_field(request) is None
                    &&& plan.spec_target().spec_identity().spec_model_id() == request.model_id@
                    &&& plan.spec_target().spec_identity().spec_revision()
                        == request.upstream_revision@
                    &&& is_next_plan(
                        plan,
                        old(self).spec_next_migration(),
                        old(self).spec_status().spec_active_model(),
                        profile,
                        plan.spec_target().spec_identity(),
                        estimate,
                    )
                    &&& final(self).spec_plans() == old(self).spec_plans().insert(plan.spec_id()@, plan)
                    &&& final(self).spec_next_migration() == saturating_next(
                        old(self).spec_next_migration(),
                    )
                    &&& final(self).spec_status() == old(self).spec_status()
                    &&& final(self).spec_offers() == old(self).spec_offers()
                    &&& final(self).spec_removals() == old(self).spec_removals()
                    &&& final(self).spec_next_offer() == old(self).spec_next_offer()
                    &&& final(self).spec_next_removal() == old(self).spec_next_removal()
                },
                Err(e) => {
                    &&& first_invalid_import_field(request) matches Some(field)
                    &&& e == SemanticComponentError::InvalidLocalModelMetadata { field }
                    &&& final(self).same_state(&*old(self))
                },
            },
    {
        match validate_fake_local_model(&request) {
            Ok(()) => {},
            Err(e) => {
                return Err(e);
            },
        }
        let identity = SemanticModelIdentity::new(request.model_id, request.upstream_revision);
        Ok(self.next_migration_plan(profile, identity, estimate))
    }

    /// Plans a migration to the mock model of `profile`.
    pub fn plan_model_migration(&mut self, profile: SemanticProfile, estimate: SemanticReindexEstimate) -> (r:
        Result<SemanticModelMigrationPlan, SemanticComponentError>)
        requires
            old(self).well_formed(),
        ensures
            final(self).well_formed(),
            r matches Ok(plan) && {
                &&& is_fake_identity(plan.spec_target().spec_identity(), profile)
                &&& is_next_plan(
                    plan,
                    old(self).spec_next_migration(),
                    old(self).spec_status().spec_active_model(),
                    profile,
                    plan.spec_target().spec_identity(),
                    estimate,
                )
                &&& final(self).spec_plans() == old(self).spec_plans().insert(plan.spec_id()@, plan)
            },
            final(self).spec_next_migration() == saturating_next(old(self).spec_next_migration()),
            final(self).spec_status() == old(self).spec_status(),
            final(self).spec_offers() == old(self).spec_offers(),
            final(self).spec_removals() == old(self).spec_removals(),
            final(self).spec_next_offer() == old(self).spec_next_offer(),
            final(self).spec_next_removal() == old(self).spec_next_removal(),
    {
        let identity = fake_model_identity(profile);
        Ok(self.next_migration_plan(profile, identity, estimate))
    }

    /// Starts a live plan: its migration begins at zero documents with no
    /// cursor and the lifecycle becomes `Migrating`. An identity that is not
    /// live is `InvalidMigrationPlan` and changes nothing.
    pub fn confirm_model_migration(&mut self, confirmation: SemanticModelMigrationConfirmation) -> (r:
        Result<SemanticModelMigrationProgress, SemanticComponentError>)
        requires
            old(self).well_formed(),
        ensures
            final(self).well_formed(),
            confirm_answer(*old(self), confirmation, r, *final(self)),
            final(self).spec_plans() == old(self).spec_plans(),
            final(self).spec_offers() == old(self).spec_offers(),
            final(self).spec_removals() == old(self).spec_removals(),
            final(self).spec_next_offer() == old(self).spec_next_offer(),
            final(self).spec_next_migration() == old(self).spec_next_migration(),
            final(self).spec_next_removal() == old(self).spec_next_removal(),
    {
        let plan = match self.find_plan(&confirmation.migration_id.0) {
            Some(plan) => plan,
            None => {
                return Err(SemanticComponentError::InvalidMigrationPlan);
            },
        };
        let progress = SemanticModelMigrationProgress::new(
            confirmation.migration_id,
            0,
            plan.estimate,
            plan.target,
            plan.reason,
            None,
        );
        self.status.migration = Some(progress.clone());
        self.status.lifecycle = SemanticComponentLifecycle::Migrating { progress: progress.clone() };
        Ok(progress)
    }

    /// Records a durable checkpoint of the recorded migration of a live plan.
    /// Refused with `InvalidMigrationPlan` when the plan is not live or
    /// another migration (or none) is recorded, and with
    /// `InvalidMigrationProgress` when the completed count goes back or
    /// passes the plan's document estimate; a refusal changes nothing.
    pub fn checkpoint_model_migration(&mut self, checkpoint: SemanticModelMigrationCheckpoint) -> (r:
        Result<SemanticModelMigrationProgress, SemanticComponentError>)
        requires
            old(self).well_formed(),
        ensures
            final(self).well_formed(),
            checkpoint_answer(*old(self), checkpoint, r, *final(self)),
            final(self).spec_plans() == old(self).spec_plans(),
            final(self).spec_offers() == old(self).spec_offers(),
            final(self).spec_removals() == old(self).spec_removals(),
            final(self).spec_next_offer() == old(self).spec_next_offer(),
            final(self).spec_next_migration() == old(self).spec_next_migration(),
            final(self).spec_next_removal() == old(self).spec_next_removal(),
    {
        let plan = match self.find_plan(&checkpoint.migration_id.0) {
            Some(plan) => plan,
            None => {
                return Err(SemanticComponentError::InvalidMigrationPlan);
            },
        };
        let total_documents = plan.estimate.documents();
        let previous_completed = match &self.status.migration {
            Some(progress) => {
                if progress.migration_id.same_as(&checkpoint.migration_id) {
                    progress.completed_documents
                } else {
                    return Err(SemanticComponentError::InvalidMigrationPlan);
                }
            },
            None => {
                return Err(SemanticComponentError::InvalidMigrationPlan);
            },
        };
        if checkpoint.completed_documents < previous_completed || checkpoint.completed_documents
            > total_documents {
            return Err(
                SemanticComponentError::InvalidMigrationProgress {
                    completed_documents: checkpoint.completed_documents,
                    total_documents,
                },
            );
        }
        let progress = SemanticModelMigrationProgress::new(
            checkpoint.migration_id,
            checkpoint.completed_documents,
            plan.estimate,
            plan.target,
            plan.reason,
            checkpoint.resume_cursor,
        );
        self.status.migration = Some(progress.clone());
        self.status.lifecycle = SemanticComponentLifecycle::Migrating { progress: progress.clone() };
        Ok(progress)
    }

    /// Activates the target of a live plan whose recorded migration has
    /// completed every estimated document: the plan is consumed, the target
    /// becomes the active model, the migration is cleared and indexing is
    /// enabled. A plan that is not live is `InvalidMigrationPlan`; an
    /// unfinished one is `InvalidMigrationProgress`; a refusal changes nothing.
    pub fn complete_model_migration(&mut self, migration_id: SemanticModelMigrationId) -> (r: Result<
        SemanticModelSelection,
        SemanticComponentError,
    >)
        requires
            old(self).well_formed(),
        ensures
            final(self).well_formed(),
            ({
                let k = migration_id@;
                let live = old(self).spec_plans().contains_key(k);
                let plan = old(self).spec_plans()[k];
                let total = plan.spec_estimate().spec_documents();
                let completed = completed_for(old(self).spec_status().spec_migration(), k);
                match r {
                    Ok(target) => {
                        &&& live
                        &&& completed >= total
                        &&& target == plan.spec_target()
                        &&& final(self).spec_plans() == old(self).spec_plans().remove(k)
                        &&& final(self).spec_status() == old(self).spec_status().with_active_model(
                            Some(target),
                        ).with_migration(None).with_lifecycle(
                            SemanticComponentLifecycle::InstalledEnabled,
                        )
                    },
                    Err(e) => {
                        &&& final(self).spec_plans() == old(self).spec_plans()
                        &&& final(self).spec_status() == old(self).spec_status()
                        &&& if !live {
                            e == SemanticComponentError::InvalidMigrationPlan
                        } else {
                            &&& completed < total
                            &&& e == SemanticComponentError::InvalidMigrationProgress {
                                completed_documents: completed,
                                total_documents: total,
                            }
                        }
                    },
                }
            }),
            final(self).spec_offers() == old(self).spec_offers(),
            final(self).spec_removals() == old(self).spec_removals(),
            final(self).spec_next_offer() == old(self).spec_next_offer(),
            final(self).spec_next_migration() == old(self).spec_next_migration(),
            final(self).spec_next_removal() == old(self).spec_next_removal(),
    {
        let plan = match self.find_plan(&migration_id.0) {
            Some(plan) => plan,
            None => {
                return Err(SemanticComponentError::InvalidMigrationPlan);
            },
        };
        let completed = match &self.status.migration {
            Some(progress) => {
                if progress.migration_id.same_as(&migration_id) {
                    progress.completed_documents
                } else {
                    0
                }
            },
            None => 0,
        };
        if completed < plan.estimate.documents() {
            return Err(
                SemanticComponentError::InvalidMigrationProgress {
                    completed_documents: completed,
                    total_documents: plan.estimate.documents(),
                },
            );
        }
        let _ = assoc_remove(&mut self.plans, &migration_id.0);
        self.status.active_model = Some(plan.target.clone());
        self.status.migration = None;
        self.status.lifecycle = SemanticComponentLifecycle::InstalledEnabled;
        Ok(plan.target)
    }
}

/// The error of an operation refused in a lifecycle: the operation and the
/// `Debug` rendering of the lifecycle.
pub open spec fn invalid_lifecycle_error(
    e: SemanticComponentError,
    op: SemanticComponentOperation,
    l: SemanticComponentLifecycle,
) -> bool {
    e matches SemanticComponentError::InvalidLifecycle { operation, lifecycle } && operation == op
        && lifecycle@ == lifecycle_debug(l)
}


/// Pausing an installed, enabled mock and then resuming it gives back exactly
/// the status it had.
pub proof fn law_pause_then_resume_restores(s: SemanticComponentStatus)
    requires
        s.spec_lifecycle() == SemanticComponentLifecycle::InstalledEnabled,
    ensures
        s.with_lifecycle(SemanticComponentLifecycle::Paused).with_lifecycle(
            SemanticComponentLifecycle::InstalledEnabled,
        ) == s,
{
    s.lemma_with_lifecycle_twice(
        SemanticComponentLifecycle::Paused,
        SemanticComponentLifecycle::InstalledEnabled,
    );
    s.lemma_with_fields(
        SemanticComponentLifecycle::InstalledEnabled,
        s.spec_data_root(),
        s.spec_active_model(),
        s.spec_migration(),
    );
}

/// Resuming a paused mock and then pausing it again gives back exactly the
/// status it had.
pub proof fn law_resume_then_pause_restores(s: SemanticComponentStatus)
    requires
        s.spec_lifecycle() == SemanticComponentLifecycle::Paused,
    ensures
        s.with_lifecycle(SemanticComponentLifecycle::InstalledEnabled).with_lifecycle(
            SemanticComponentLifecycle::Paused,
        ) == s,
{
    s.lemma_with_lifecycle_twice(
        SemanticComponentLifecycle::InstalledEnabled,
        SemanticComponentLifecycle::Paused,
    );
    s.lemma_with_fields(
        SemanticComponentLifecycle::Paused,
        s.spec_data_root(),
        s.spec_active_model(),
        s.spec_migration(),
    );
}

/// A live entry that an operation consumed is no longer live, so a second
/// use of the same identity (an offer's consent, an index-removal
/// confirmation, a completed migration) is refused.
pub proof fn law_consumed_identity_is_not_live<V>(live: Map<Seq<char>, V>, id: Seq<char>)
    ensures
        !live.remove(id).contains_key(id),
{
}
/// While the migration of a live plan is recorded, a checkpoint of it is
/// refused exactly when its completed count goes back or passes the plan's
/// estimate, and a refusal changes no status; an accepted checkpoint
/// records its count and cursor as the status's migration.
pub proof fn law_checkpoints_move_forward_within_the_estimate(
    s: FakeSemanticComponentCapability,
    checkpoint: SemanticModelMigrationCheckpoint,
    r: Result<SemanticModelMigrationProgress, SemanticComponentError>,
    f: FakeSemanticComponentCapability,
)
    requires
        checkpoint_answer(s, checkpoint, r, f),
        s.spec_plans().contains_key(checkpoint.migration_id@),
        s.spec_status().spec_migration() matches Some(p) && p.spec_migration_id()@
            == checkpoint.migration_id@,
    ensures
        ({
            let previous = s.spec_status().spec_migration().unwrap().spec_completed();
            let total = s.spec_plans()[checkpoint.migration_id@].spec_estimate().spec_documents();
            &&& r is Err <==> (checkpoint.completed_documents < previous
                || checkpoint.completed_documents > total)
            &&& r is Err ==> f.spec_status() == s.spec_status()
            &&& r matches Ok(p) ==> {
                &&& p.spec_completed() == checkpoint.completed_documents
                &&& p.spec_resume_cursor() == checkpoint.resume_cursor
                &&& f.spec_status().spec_migration() == Some(p)
            }
        }),
{
    if let Ok(p) = r {
        let plan = s.spec_plans()[checkpoint.migration_id@];
        SemanticModelMigrationProgress::lemma_of_fields(
            checkpoint.migration_id,
            checkpoint.completed_documents,
            plan.spec_estimate(),
            plan.spec_target(),
            plan.spec_reason(),
            checkpoint.resume_cursor,
        );
        let with_progress = s.spec_status().with_migration(Some(p));
        with_progress.lemma_with_fields(
            SemanticComponentLifecycle::Migrating { progress: p },
            None,
            None,
            Some(p),
        );
        s.spec_status().lemma_with_fields(
            SemanticComponentLifecycle::Migrating { progress: p },
            None,
            None,
            Some(p),
        );
    }
}

/// The first checkpoint after a confirmed migration is refused exactly when
/// its completed count passes the plan's estimate, and then changes no
/// status; otherwise it records its count and cursor as the migration.
pub proof fn law_first_checkpoint_after_confirmation(
    s: FakeSemanticComponentCapability,
    confirmation: SemanticModelMigrationConfirmation,
    confirmed: SemanticModelMigrationProgress,
    t: FakeSemanticComponentCapability,
    checkpoint: SemanticModelMigrationCheckpoint,
    r: Result<SemanticModelMigrationProgress, SemanticComponentError>,
    f: FakeSemanticComponentCapability,
)
    requires
        confirm_answer(s, confirmation, Ok(confirmed), t),
        checkpoint_answer(t, checkpoint, r, f),
        checkpoint.migration_id@ == confirmation.spec_migration_id()@,
    ensures
        ({
            let total = s.spec_plans()[checkpoint.migration_id@].spec_estimate().spec_documents();
            &&& r is Err <==> checkpoint.completed_documents > total
            &&& r is Err ==> f.spec_status() == t.spec_status()
            &&& r matches Ok(p) ==> {
                &&& p.spec_completed() == checkpoint.completed_documents
                &&& p.spec_resume_cursor() == checkpoint.resume_cursor
                &&& f.spec_status().spec_migration() == Some(p)
            }
        }),
{
    let plan = s.spec_plans()[confirmation.spec_migration_id()@];
    SemanticModelMigrationProgress::lemma_of_fields(
        confirmation.spec_migration_id(),
        0,
        plan.spec_estimate(),
        plan.spec_target(),
        plan.spec_reason(),
        None,
    );
    let with_progress = s.spec_status().with_migration(Some(confirmed));
    with_progress.lemma_with_fields(
        SemanticComponentLifecycle::Migrating { progress: confirmed },
        None,
        None,
        Some(confirmed),
    );
    s.spec_status().lemma_with_fields(
        SemanticComponentLifecycle::Migrating { progress: confirmed },
        None,
        None,
        Some(confirmed),
    );
    assert(t.spec_status().spec_migration() == Some(confirmed));
    law_checkpoints_move_forward_within_the_estimate(t, checkpoint, r, f);
}

} // verus!
