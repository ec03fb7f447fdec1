//! Host-neutral lifecycle rules for optional semantic components: capability
//! reports, disk accounting, opaque identities, local-model validation and the
//! deterministic mock lifecycle.

use vstd::prelude::*;
use vstd::string::*;

use crate::assoc::{assoc_find, assoc_insert, assoc_map, assoc_remove, keys_distinct};
use crate::text::{bool_text, debug_quote, debug_text, decimal, is_blank, push_bool, push_decimal, str_is_blank, to_decimal};

pub mod fake;
pub mod provided;

verus! {

/// Principal allowed to manage semantic components in the current host.
#[derive(Debug, Clone, Copy, PartialEq, Eq, Structural)]
pub enum SemanticComponentAuthority {
    /// No semantic component implementation was configured.
    Unavailable,
    /// The local desktop user manages optional components.
    DesktopManaged,
    /// Components are provisioned by a server administrator.
    AdministratorProvisioned,
    /// Deterministic in-process mock authority.
    DeterministicMock,
}

/// Explicit semantic component operation advertised by a capability.
#[derive(Debug, Clone, Copy, PartialEq, Eq, PartialOrd, Ord, Structural)]
pub enum SemanticComponentOperation {
    /// Read component and disk-use status.
    ViewStatus,
    /// Read curated profile and model metadata.
    ViewCatalog,
    /// Create a complete disclosure before installation consent.
    CreateInstallationOffer,
    /// Install the offered components or enable an existing installation.
    InstallOrEnable,
    /// Install an eligible signed worker patch without changing embedding space.
    InstallWorkerPatch,
    /// Pause indexing without uninstalling components.
    PauseIndexing,
    /// Resume explicitly paused indexing.
    ResumeIndexing,
    /// Remove all data derived from one enrolment.
    RemoveIndex,
    /// Move the semantic-data root with verification.
    MoveData,
    /// Uninstall components with an explicit index decision.
    UninstallComponents,
    /// Validate a local model and create a migration plan.
    ImportLocalModel,
    /// Plan a curated model migration.
    PlanModelMigration,
    /// Confirm and begin a model migration.
    ConfirmModelMigration,
    /// Persist a resumable model migration checkpoint.
    CheckpointModelMigration,
    /// Complete a fully reindexed model migration.
    CompleteModelMigration,
}

/// Position of an operation in the stable presentation order (declaration order).
pub open spec fn operation_rank(op: SemanticComponentOperation) -> nat {
    match op {
        SemanticComponentOperation::ViewStatus => 0,
        SemanticComponentOperation::ViewCatalog => 1,
        SemanticComponentOperation::CreateInstallationOffer => 2,
        SemanticComponentOperation::InstallOrEnable => 3,
        SemanticComponentOperation::InstallWorkerPatch => 4,
        SemanticComponentOperation::PauseIndexing => 5,
        SemanticComponentOperation::ResumeIndexing => 6,
        SemanticComponentOperation::RemoveIndex => 7,
        SemanticComponentOperation::MoveData => 8,
        SemanticComponentOperation::UninstallComponents => 9,
        SemanticComponentOperation::ImportLocalModel => 10,
        SemanticComponentOperation::PlanModelMigration => 11,
        SemanticComponentOperation::ConfirmModelMigration => 12,
        SemanticComponentOperation::CheckpointModelMigration => 13,
        SemanticComponentOperation::CompleteModelMigration => 14,
    }
}

/// The operations of `s` appear in strictly increasing presentation order.
pub open spec fn strictly_ordered(s: Seq<SemanticComponentOperation>) -> bool {
    forall|a: int, b: int| 0 <= a < b < s.len() ==> operation_rank(#[trigger] s[a])
        < operation_rank(#[trigger] s[b])
}

fn operation_at(i: usize) -> (op: SemanticComponentOperation)
    requires
        i < 15,
    ensures
        operation_rank(op) == i,
{
    match i {
        0 => SemanticComponentOperation::ViewStatus,
        1 => SemanticComponentOperation::ViewCatalog,
        2 => SemanticComponentOperation::CreateInstallationOffer,
        3 => SemanticComponentOperation::InstallOrEnable,
        4 => SemanticComponentOperation::InstallWorkerPatch,
        5 => SemanticComponentOperation::PauseIndexing,
        6 => SemanticComponentOperation::ResumeIndexing,
        7 => SemanticComponentOperation::RemoveIndex,
        8 => SemanticComponentOperation::MoveData,
        9 => SemanticComponentOperation::UninstallComponents,
        10 => SemanticComponentOperation::ImportLocalModel,
        11 => SemanticComponentOperation::PlanModelMigration,
        12 => SemanticComponentOperation::ConfirmModelMigration,
        13 => SemanticComponentOperation::CheckpointModelMigration,
        _ => SemanticComponentOperation::CompleteModelMigration,
    }
}

fn contains_operation(ops: &Vec<SemanticComponentOperation>, op: SemanticComponentOperation) -> (r:
    bool)
    ensures
        r == ops@.contains(op),
{
    let mut i: usize = 0;
    while i < ops.len()
        invariant
            i <= ops.len(),
            forall|j: int| 0 <= j < i ==> ops@[j] != op,
        decreases ops.len() - i,
    {
        if ops[i] == op {
            assert(ops@[i as int] == op);
            return true;
        }
        i = i + 1;
    }
    false
}

/// Whether this distribution may download executable semantic components.
#[derive(Debug, Clone, Copy, PartialEq, Eq, Structural)]
pub enum RuntimeExecutableDownload {
    /// No component implementation is available.
    Unavailable,
    /// Executables may be downloaded by a direct desktop distribution.
    DirectDistribution,
    /// Executable downloads are prohibited in a Mac App Store build.
    ProhibitedByMacAppStore,
    /// Executables are provisioned by a server administrator.
    AdministratorProvisioned,
    /// Executable downloads are simulated without filesystem access.
    Simulated,
}

/// Desktop distribution policy for runtime-downloaded executable code.
#[derive(Debug, Clone, Copy, PartialEq, Eq, Structural)]
pub enum DesktopSemanticDistribution {
    /// Directly distributed desktop build that may install signed executables.
    Direct,
    /// Sandboxed Mac App Store build that may not download executable code.
    MacAppStore,
}

/// Operations and executable-download policy exposed by the active capability.
#[derive(Debug, Clone, PartialEq, Eq)]
pub struct SemanticComponentCapabilities {
    authority: SemanticComponentAuthority,
    operations: Vec<SemanticComponentOperation>,
    runtime_executable_download: RuntimeExecutableDownload,
}

impl SemanticComponentCapabilities {
    /// Who owns lifecycle mutations.
    pub closed spec fn spec_authority(&self) -> SemanticComponentAuthority {
        self.authority
    }

    /// Supported operations in presentation order.
    pub closed spec fn spec_operations(&self) -> Seq<SemanticComponentOperation> {
        self.operations@
    }

    /// Executable-download policy.
    pub closed spec fn spec_download(&self) -> RuntimeExecutableDownload {
        self.runtime_executable_download
    }

    /// Whether this is the report of an authority, the operations given (each
    /// once, in presentation order) and a download policy.
    pub open spec fn reports(
        &self,
        authority: SemanticComponentAuthority,
        operations: Seq<SemanticComponentOperation>,
        download: RuntimeExecutableDownload,
    ) -> bool {
        &&& self.spec_authority() == authority
        &&& self.spec_download() == download
        &&& strictly_ordered(self.spec_operations())
        &&& forall|op: SemanticComponentOperation| #[trigger]
            self.spec_operations().contains(op) <==> operations.contains(op)
    }

    /// Creates a capability report and normalizes duplicate operations: the
    /// report holds each requested operation once, in presentation order.
    pub fn new(
        authority: SemanticComponentAuthority,
        operations: Vec<SemanticComponentOperation>,
        runtime_executable_download: RuntimeExecutableDownload,
    ) -> (r: Self)
        ensures
            r.reports(authority, operations@, runtime_executable_download),
    {
        let mut normalized: Vec<SemanticComponentOperation> = Vec::new();
        let mut i: usize = 0;
        while i < 15
            invariant
                i <= 15,
                strictly_ordered(normalized@),
                forall|k: int| 0 <= k < normalized@.len() ==> operation_rank(#[trigger] normalized@[k])
                    < i,
                forall|k: int| 0 <= k < normalized@.len() ==> operations@.contains(
                    #[trigger] normalized@[k],
                ),
                forall|op: SemanticComponentOperation|
                    operation_rank(op) < i && operations@.contains(op) ==> #[trigger] normalized@.contains(
                        op,
                    ),
            decreases 15 - i,
        {
            let op = operation_at(i);
            if contains_operation(&operations, op) {
                let ghost before = normalized@;
                normalized.push(op);
                assert forall|o: SemanticComponentOperation|
                    operation_rank(o) < i + 1 && operations@.contains(o) implies #[trigger] normalized@.contains(
                    o,
                ) by {
                    lemma_push_contains(before, op, o);
                    if operation_rank(o) < i {
                        assert(before.contains(o));
                    }
                }
                assert forall|k: int| 0 <= k < normalized@.len() implies operations@.contains(
                    #[trigger] normalized@[k],
                ) by {
                    if k < before.len() {
                        assert(normalized@[k] == before[k]);
                    }
                }
            }
            i = i + 1;
        }
        assert forall|op: SemanticComponentOperation| #[trigger]
            normalized@.contains(op) implies operations@.contains(op) by {
            let k = choose|k: int| 0 <= k < normalized@.len() && normalized@[k] == op;
            assert(operations@.contains(normalized@[k]));
        }
        assert forall|op: SemanticComponentOperation| operations@.contains(
            op,
        ) implies #[trigger] normalized@.contains(op) by {
            assert(operation_rank(op) < 15);
        }
        SemanticComponentCapabilities {
            authority,
            operations: normalized,
            runtime_executable_download,
        }
    }

    /// Returns who owns component lifecycle mutations.
    pub fn authority(&self) -> (r: SemanticComponentAuthority)
        ensures
            r == self.spec_authority(),
    {
        self.authority
    }

    /// Returns supported operations in stable presentation order.
    pub fn operations(&self) -> (r: &[SemanticComponentOperation])
        ensures
            r@ == self.spec_operations(),
    {
        self.operations.as_slice()
    }

    /// Returns the executable-download policy for this distribution.
    pub fn runtime_executable_download(&self) -> (r: RuntimeExecutableDownload)
        ensures
            r == self.spec_download(),
    {
        self.runtime_executable_download
    }

    /// Reports whether one explicit operation is supported.
    pub fn supports(&self, operation: SemanticComponentOperation) -> (r: bool)
        ensures
            r == self.spec_operations().contains(operation),
    {
        contains_operation(&self.operations, operation)
    }

    /// The inert report of a host without a component implementation.
    pub fn unavailable() -> (r: Self)
        ensures
            r.spec_authority() == SemanticComponentAuthority::Unavailable,
            r.spec_download() == RuntimeExecutableDownload::Unavailable,
            r.spec_operations().len() == 0,
    {
        let r = Self::new(
            SemanticComponentAuthority::Unavailable,
            Vec::new(),
            RuntimeExecutableDownload::Unavailable,
        );
        proof {
            if r.spec_operations().len() > 0 {
                assert(r.spec_operations().contains(r.spec_operations()[0]));
            }
        }
        r
    }

    /// The read-only report of administrator-provisioned components.
    pub fn administrator_provisioned() -> (r: Self)
        ensures
            r.spec_authority() == SemanticComponentAuthority::AdministratorProvisioned,
            r.spec_download() == RuntimeExecutableDownload::AdministratorProvisioned,
            r.spec_operations() == seq![
                SemanticComponentOperation::ViewStatus,
                SemanticComponentOperation::ViewCatalog,
            ],
    {
        let mut ops = Vec::new();
        ops.push(SemanticComponentOperation::ViewStatus);
        ops.push(SemanticComponentOperation::ViewCatalog);
        let r = Self::new(
            SemanticComponentAuthority::AdministratorProvisioned,
            ops.clone(),
            RuntimeExecutableDownload::AdministratorProvisioned,
        );
        proof {
            let expected = seq![
                SemanticComponentOperation::ViewStatus,
                SemanticComponentOperation::ViewCatalog,
            ];
            assert forall|op: SemanticComponentOperation| #[trigger]
                r.spec_operations().contains(op) <==> expected.contains(op) by {
                assert(ops@ == expected);
            }
            lemma_ordered_from_membership(
                r.spec_operations(),
                seq![
                    SemanticComponentOperation::ViewStatus,
                    SemanticComponentOperation::ViewCatalog,
                ],
            );
        }
        r
    }

    /// The full report of the deterministic mock: every operation.
    pub fn deterministic_mock() -> (r: Self)
        ensures
            r.spec_authority() == SemanticComponentAuthority::DeterministicMock,
            r.spec_download() == RuntimeExecutableDownload::Simulated,
            strictly_ordered(r.spec_operations()),
            forall|op: SemanticComponentOperation| #[trigger] r.spec_operations().contains(op),
    {
        let mut ops = Vec::new();
        let mut i: usize = 0;
        while i < 15
            invariant
                i <= 15,
                forall|op: SemanticComponentOperation|
                    operation_rank(op) < i ==> #[trigger] ops@.contains(op),
            decreases 15 - i,
        {
            let op = operation_at(i);
            let ghost before = ops@;
            ops.push(op);
            assert forall|o: SemanticComponentOperation| operation_rank(o) < i + 1 implies #[trigger] ops@.contains(
                o,
            ) by {
                lemma_push_contains(before, op, o);
                if operation_rank(o) < i {
                    assert(before.contains(o));
                }
            }
            i = i + 1;
        }
        Self::new(
            SemanticComponentAuthority::DeterministicMock,
            ops,
            RuntimeExecutableDownload::Simulated,
        )
    }

    /// The report of desktop-managed components: every operation except
    /// migration checkpoints and completion, and index removal only when the
    /// host supplied removal adapters.
    pub fn desktop_managed(distribution: DesktopSemanticDistribution, can_remove_index: bool) -> (r:
        Self)
        ensures
            r.spec_authority() == SemanticComponentAuthority::DesktopManaged,
            r.spec_download() == match distribution {
                DesktopSemanticDistribution::Direct => RuntimeExecutableDownload::DirectDistribution,
                DesktopSemanticDistribution::MacAppStore => RuntimeExecutableDownload::ProhibitedByMacAppStore,
            },
            strictly_ordered(r.spec_operations()),
            forall|op: SemanticComponentOperation| #[trigger]
                r.spec_operations().contains(op) <==> (op != SemanticComponentOperation::CheckpointModelMigration
                    && op != SemanticComponentOperation::CompleteModelMigration && (op
                    != SemanticComponentOperation::RemoveIndex || can_remove_index)),
    {
        let mut ops = Vec::new();
        let mut i: usize = 0;
        while i < 13
            invariant
                i <= 13,
                forall|op: SemanticComponentOperation| #[trigger]
                    ops@.contains(op) <==> (operation_rank(op) < i && op
                        != SemanticComponentOperation::RemoveIndex),
            decreases 13 - i,
        {
            let op = operation_at(i);
            let ghost before = ops@;
            if i != 7 {
                ops.push(op);
                assert forall|o: SemanticComponentOperation| #[trigger]
                    ops@.contains(o) <==> (operation_rank(o) < i + 1 && o
                        != SemanticComponentOperation::RemoveIndex) by {
                    lemma_push_contains(before, op, o);
                    assert(before.contains(o) <==> (operation_rank(o) < i && o
                        != SemanticComponentOperation::RemoveIndex));
                }
            } else {
                assert forall|o: SemanticComponentOperation| #[trigger]
                    ops@.contains(o) <==> (operation_rank(o) < i + 1 && o
                        != SemanticComponentOperation::RemoveIndex) by {
                    assert(ops@.contains(o) <==> (operation_rank(o) < i && o
                        != SemanticComponentOperation::RemoveIndex));
                }
            }
            i = i + 1;
        }
        if can_remove_index {
            let ghost before = ops@;
            ops.push(SemanticComponentOperation::RemoveIndex);
            assert forall|o: SemanticComponentOperation| #[trigger]
                ops@.contains(o) <==> (operation_rank(o) < 13) by {
                lemma_push_contains(before, SemanticComponentOperation::RemoveIndex, o);
                assert(before.contains(o) <==> (operation_rank(o) < 13 && o
                    != SemanticComponentOperation::RemoveIndex));
            }
        }
        let download = match distribution {
            DesktopSemanticDistribution::Direct => RuntimeExecutableDownload::DirectDistribution,
            DesktopSemanticDistribution::MacAppStore => RuntimeExecutableDownload::ProhibitedByMacAppStore,
        };
        Self::new(SemanticComponentAuthority::DesktopManaged, ops, download)
    }
}

/// Membership after appending one element.
pub proof fn lemma_push_contains<T>(s: Seq<T>, x: T, o: T)
    ensures
        s.push(x).contains(o) <==> (s.contains(o) || o == x),
{
    if s.contains(o) {
        let k = choose|k: int| 0 <= k < s.len() && s[k] == o;
        assert(s.push(x)[k] == o);
    }
    if o == x {
        assert(s.push(x)[s.len() as int] == o);
    }
    if s.push(x).contains(o) {
        let k = choose|k: int| 0 <= k < s.push(x).len() && s.push(x)[k] == o;
        if k < s.len() {
            assert(s[k] == o);
        }
    }
}

/// Two strictly ordered operation lists with the same members are equal.
pub proof fn lemma_ordered_from_membership(
    a: Seq<SemanticComponentOperation>,
    b: Seq<SemanticComponentOperation>,
)
    requires
        strictly_ordered(a),
        strictly_ordered(b),
        forall|op: SemanticComponentOperation| #[trigger] a.contains(op) <==> b.contains(op),
    ensures
        a == b,
    decreases a.len(),
{
    if a.len() == 0 {
        if b.len() > 0 {
            assert(b.contains(b[0]));
            assert(a.contains(b[0]));
        }
        assert(a =~= b);
    } else if b.len() == 0 {
        assert(a.contains(a[0]));
        assert(b.contains(a[0]));
    } else {
        // The first elements are the minima of the same set.
        assert(a.contains(a[0]));
        assert(b.contains(b[0]));
        assert(a.contains(b[0]));
        assert(b.contains(a[0]));
        let ia = choose|k: int| 0 <= k < a.len() && a[k] == b[0];
        let ib = choose|k: int| 0 <= k < b.len() && b[k] == a[0];
        if ia > 0 {
            assert(operation_rank(a[0]) < operation_rank(a[ia]));
        }
        if ib > 0 {
            assert(operation_rank(b[0]) < operation_rank(b[ib]));
        }
        assert(a[0] == b[0]) by {
            if a[0] != b[0] {
                assert(ia > 0 && ib > 0);
            }
        }
        let a1 = a.drop_first();
        let b1 = b.drop_first();
        assert forall|op: SemanticComponentOperation| #[trigger] a1.contains(op) <==> b1.contains(op) by {
            if a1.contains(op) {
                let k = choose|k: int| 0 <= k < a1.len() && a1[k] == op;
                assert(a[k + 1] == op);
                assert(operation_rank(a[0]) < operation_rank(op));
                assert(a.contains(op));
                assert(b.contains(op));
                let j = choose|j: int| 0 <= j < b.len() && b[j] == op;
                assert(j != 0);
                assert(b1[j - 1] == op);
            }
            if b1.contains(op) {
                let k = choose|k: int| 0 <= k < b1.len() && b1[k] == op;
                assert(b[k + 1] == op);
                assert(operation_rank(b[0]) < operation_rank(op));
                assert(b.contains(op));
                assert(a.contains(op));
                let j = choose|j: int| 0 <= j < a.len() && a[j] == op;
                assert(j != 0);
                assert(a1[j - 1] == op);
            }
        }
        assert(strictly_ordered(a1)) by {
            assert forall|x: int, y: int| 0 <= x < y < a1.len() implies operation_rank(#[trigger] a1[x])
                < operation_rank(#[trigger] a1[y]) by {
                assert(a1[x] == a[x + 1] && a1[y] == a[y + 1]);
            }
        }
        assert(strictly_ordered(b1)) by {
            assert forall|x: int, y: int| 0 <= x < y < b1.len() implies operation_rank(#[trigger] b1[x])
                < operation_rank(#[trigger] b1[y]) by {
                assert(b1[x] == b[x + 1] && b1[y] == b[y + 1]);
            }
        }
        lemma_ordered_from_membership(a1, b1);
        assert(a =~= seq![a[0]] + a1);
        assert(b =~= seq![b[0]] + b1);
    }
}

/// Rebuilding a capability report from what it reports gives the same
/// report: normalizing an operation list that is already normalized changes
/// nothing.
pub proof fn law_rebuilding_a_report_changes_nothing(
    c: SemanticComponentCapabilities,
    rebuilt: SemanticComponentCapabilities,
)
    requires
        strictly_ordered(c.spec_operations()),
        rebuilt.reports(c.spec_authority(), c.spec_operations(), c.spec_download()),
    ensures
        rebuilt.spec_authority() == c.spec_authority(),
        rebuilt.spec_operations() == c.spec_operations(),
        rebuilt.spec_download() == c.spec_download(),
{
    lemma_ordered_from_membership(rebuilt.spec_operations(), c.spec_operations());
}

/// Semantic data category reported independently for stable disk accounting.
#[derive(Debug, Clone, Copy, PartialEq, Eq, PartialOrd, Ord, Hash, Structural)]
pub enum SemanticDataCategory {
    /// Signed catalog state and resumable downloads.
    Catalog,
    /// Extracted text and structured content.
    Extracted,
    /// Zvec index data.
    Zvec,
    /// Reusable embedding cache.
    EmbeddingCache,
    /// Installed model packages.
    Models,
    /// Versioned worker and runtime bundles.
    Workers,
}

/// Every category in stable presentation order.
pub open spec fn all_categories() -> Seq<SemanticDataCategory> {
    seq![
        SemanticDataCategory::Catalog,
        SemanticDataCategory::Extracted,
        SemanticDataCategory::Zvec,
        SemanticDataCategory::EmbeddingCache,
        SemanticDataCategory::Models,
        SemanticDataCategory::Workers,
    ]
}

impl SemanticDataCategory {
    /// Returns all categories in stable presentation order.
    pub fn all() -> (r: [Self; 6])
        ensures
            r@ == all_categories(),
    {
        let r = [
            Self::Catalog,
            Self::Extracted,
            Self::Zvec,
            Self::EmbeddingCache,
            Self::Models,
            Self::Workers,
        ];
        assert(r@ =~= all_categories());
        r
    }
}

/// Actual disk use for one semantic data category.
#[derive(Debug, Clone, Copy, PartialEq, Eq, Structural)]
pub struct SemanticCategoryDiskUse {
    category: SemanticDataCategory,
    bytes: u64,
}

impl SemanticCategoryDiskUse {
    /// The measured category.
    pub closed spec fn spec_category(self) -> SemanticDataCategory {
        self.category
    }

    /// The measured bytes.
    pub closed spec fn spec_bytes(self) -> u64 {
        self.bytes
    }

    /// Creates one category measurement.
    pub fn new(category: SemanticDataCategory, bytes: u64) -> (r: Self)
        ensures
            r.spec_category() == category,
            r.spec_bytes() == bytes,
    {
        Self { category, bytes }
    }

    /// Returns the measured category.
    pub fn category(self) -> (r: SemanticDataCategory)
        ensures
            r == self.spec_category(),
    {
        self.category
    }

    /// Returns actual occupied bytes.
    pub fn bytes(self) -> (r: u64)
        ensures
            r == self.spec_bytes(),
    {
        self.bytes
    }
}

/// The bytes of the last measurement of `category` in `ms`, or zero.
pub open spec fn last_measured(ms: Seq<SemanticCategoryDiskUse>, category: SemanticDataCategory) -> nat
    decreases ms.len(),
{
    if ms.len() == 0 {
        0
    } else if ms.last().spec_category() == category {
        ms.last().spec_bytes() as nat
    } else {
        last_measured(ms.drop_last(), category)
    }
}

/// Sum of the first `n` category measurements.
pub open spec fn sum_bytes(cs: Seq<SemanticCategoryDiskUse>, n: int) -> nat
    decreases n,
{
    if n <= 0 {
        0
    } else {
        sum_bytes(cs, n - 1) + cs[n - 1].spec_bytes() as nat
    }
}

/// The normalized report of `ms`: one entry per category in stable order,
/// each the last supplied measurement of that category or zero.
pub open spec fn normalized_categories(ms: Seq<SemanticCategoryDiskUse>) -> Seq<SemanticCategoryDiskUse> {
    all_categories().map_values(|c: SemanticDataCategory| disk_use_entry(c, last_measured(ms, c)))
}

/// A category measurement as a spec value.
pub closed spec fn disk_use_entry(category: SemanticDataCategory, bytes: nat) -> SemanticCategoryDiskUse {
    SemanticCategoryDiskUse { category, bytes: bytes as u64 }
}

/// Properties of a spec measurement.
pub proof fn lemma_disk_use_entry(category: SemanticDataCategory, bytes: nat)
    requires
        bytes <= u64::MAX,
    ensures
        disk_use_entry(category, bytes).spec_category() == category,
        disk_use_entry(category, bytes).spec_bytes() == bytes,
{
}

/// Stable per-category and aggregate semantic disk use.
#[derive(Debug, PartialEq, Eq)]
pub struct SemanticDiskUse {
    categories: Vec<SemanticCategoryDiskUse>,
    total_bytes: u64,
}

impl View for SemanticDiskUse {
    type V = (Seq<SemanticCategoryDiskUse>, u64);

    open spec fn view(&self) -> (Seq<SemanticCategoryDiskUse>, u64) {
        (self.spec_categories(), self.spec_total())
    }
}

impl Clone for SemanticDiskUse {
    fn clone(&self) -> (r: Self)
        ensures
            r@ == self@,
    {
        let mut categories: Vec<SemanticCategoryDiskUse> = Vec::new();
        let mut i: usize = 0;
        while i < self.categories.len()
            invariant
                i <= self.categories.len(),
                categories@ == self.categories@.take(i as int),
            decreases self.categories.len() - i,
        {
            categories.push(self.categories[i]);
            i = i + 1;
            assert(categories@ =~= self.categories@.take(i as int));
        }
        assert(categories@ =~= self.categories@);
        SemanticDiskUse { categories, total_bytes: self.total_bytes }
    }
}

impl SemanticDiskUse {
    /// Every category in stable order.
    pub closed spec fn spec_categories(&self) -> Seq<SemanticCategoryDiskUse> {
        self.categories@
    }

    /// Aggregate bytes.
    pub closed spec fn spec_total(&self) -> u64 {
        self.total_bytes
    }

    /// One entry per category in stable order, and the total is their sum.
    pub open spec fn well_formed(&self) -> bool {
        &&& self.spec_categories().len() == 6
        &&& forall|i: int| 0 <= i < 6 ==> (#[trigger] self.spec_categories()[i]).spec_category()
            == all_categories()[i]
        &&& self.spec_total() == sum_bytes(self.spec_categories(), 6)
    }

    /// Creates a zero-byte report containing every known category.
    pub fn empty() -> (r: Self)
        ensures
            r.well_formed(),
            forall|i: int| 0 <= i < 6 ==> (#[trigger] r.spec_categories()[i]).spec_bytes() == 0,
            r.spec_total() == 0,
    {
        let all = SemanticDataCategory::all();
        let mut categories: Vec<SemanticCategoryDiskUse> = Vec::new();
        let mut i: usize = 0;
        while i < 6
            invariant
                i <= 6,
                all@ == all_categories(),
                categories@.len() == i,
                forall|k: int| 0 <= k < i ==> (#[trigger] categories@[k]).spec_category()
                    == all_categories()[k] && categories@[k].spec_bytes() == 0,
            decreases 6 - i,
        {
            categories.push(SemanticCategoryDiskUse::new(all[i], 0));
            i = i + 1;
        }
        let r = Self { categories, total_bytes: 0 };
        proof {
            assert(sum_bytes(r.categories@, 0) == 0);
            assert(sum_bytes(r.categories@, 1) == 0);
            assert(sum_bytes(r.categories@, 2) == 0);
            assert(sum_bytes(r.categories@, 3) == 0);
            assert(sum_bytes(r.categories@, 4) == 0);
            assert(sum_bytes(r.categories@, 5) == 0);
            assert(sum_bytes(r.categories@, 6) == 0);
        }
        r
    }

    /// Normalizes arbitrary measurements into stable category order. Missing
    /// categories are reported as zero; a repeated category uses the final
    /// supplied measurement. Fails with `DiskUseOverflow` exactly when the
    /// aggregate does not fit in `u64`.
    pub fn from_categories(measurements: Vec<SemanticCategoryDiskUse>) -> (r: Result<
        Self,
        SemanticComponentError,
    >)
        ensures
            match r {
                Ok(d) => {
                    &&& d.well_formed()
                    &&& d.spec_categories() == normalized_categories(measurements@)
                    &&& sum_bytes(normalized_categories(measurements@), 6) <= u64::MAX
                },
                Err(e) => {
                    &&& e == SemanticComponentError::DiskUseOverflow
                    &&& sum_bytes(normalized_categories(measurements@), 6) > u64::MAX
                },
            },
    {
        let all = SemanticDataCategory::all();
        let mut categories: Vec<SemanticCategoryDiskUse> = Vec::new();
        let mut i: usize = 0;
        while i < 6
            invariant
                i <= 6,
                all@ == all_categories(),
                categories@.len() == i,
                forall|k: int| 0 <= k < i ==> #[trigger] categories@[k]
                    == normalized_categories(measurements@)[k],
            decreases 6 - i,
        {
            let category = all[i];
            let bytes = last_measurement(&measurements, category);
            let entry = SemanticCategoryDiskUse::new(category, bytes);
            proof {
                lemma_disk_use_entry(category, bytes as nat);
                assert(entry == disk_use_entry(category, last_measured(measurements@, category)));
            }
            categories.push(entry);
            i = i + 1;
        }
        assert(categories@ =~= normalized_categories(measurements@));
        let mut total: u64 = 0;
        let mut j: usize = 0;
        while j < 6
            invariant
                j <= 6,
                categories@.len() == 6,
                categories@ == normalized_categories(measurements@),
                total == sum_bytes(categories@, j as int),
            decreases 6 - j,
        {
            proof {
                lemma_sum_bytes_monotone(categories@, j as int + 1, 6);
            }
            match total.checked_add(categories[j].bytes()) {
                Some(t) => {
                    total = t;
                },
                None => {
                    proof {
                        lemma_sum_bytes_monotone(categories@, j as int + 1, 6);
                    }
                    return Err(SemanticComponentError::DiskUseOverflow);
                },
            }
            j = j + 1;
        }
        let r = Self { categories, total_bytes: total };
        assert(r.well_formed()) by {
            assert forall|i: int| 0 <= i < 6 implies (#[trigger] r.spec_categories()[i]).spec_category()
                == all_categories()[i] by {
                lemma_last_measured_bound(measurements@, all_categories()[i]);
                lemma_disk_use_entry(all_categories()[i], last_measured(measurements@, all_categories()[i]));
            }
        }
        Ok(r)
    }

    /// Returns every category in stable order, including zero-byte categories.
    pub fn categories(&self) -> (r: &[SemanticCategoryDiskUse])
        ensures
            r@ == self.spec_categories(),
    {
        self.categories.as_slice()
    }

    /// Returns aggregate bytes across all categories.
    pub fn total_bytes(&self) -> (r: u64)
        ensures
            r == self.spec_total(),
    {
        self.total_bytes
    }
}

/// A measured value always fits in `u64`.
pub proof fn lemma_last_measured_bound(ms: Seq<SemanticCategoryDiskUse>, c: SemanticDataCategory)
    ensures
        last_measured(ms, c) <= u64::MAX,
    decreases ms.len(),
{
    if ms.len() > 0 && ms.last().spec_category() != c {
        lemma_last_measured_bound(ms.drop_last(), c);
    }
}

/// The last measurement of a category is that of some measurement of it,
/// and zero when none measures it.
proof fn lemma_last_measured_source(ms: Seq<SemanticCategoryDiskUse>, c: SemanticDataCategory)
    ensures
        (forall|i: int| 0 <= i < ms.len() ==> (#[trigger] ms[i]).spec_category() != c)
            ==> last_measured(ms, c) == 0,
        (exists|i: int| 0 <= i < ms.len() && (#[trigger] ms[i]).spec_category() == c) ==> exists|
            j: int,
        |
            0 <= j < ms.len() && (#[trigger] ms[j]).spec_category() == c && last_measured(ms, c)
                == ms[j].spec_bytes(),
    decreases ms.len(),
{
    if ms.len() > 0 {
        let front = ms.drop_last();
        lemma_last_measured_source(front, c);
        if ms.last().spec_category() != c {
            if exists|i: int| 0 <= i < ms.len() && (#[trigger] ms[i]).spec_category() == c {
                let i = choose|i: int| 0 <= i < ms.len() && (#[trigger] ms[i]).spec_category() == c;
                assert(front[i] == ms[i]);
                let j = choose|j: int|
                    0 <= j < front.len() && (#[trigger] front[j]).spec_category() == c
                        && last_measured(front, c) == front[j].spec_bytes();
                assert(ms[j] == front[j]);
            }
            if forall|i: int| 0 <= i < ms.len() ==> (#[trigger] ms[i]).spec_category() != c {
                assert forall|i: int| 0 <= i < front.len() implies (#[trigger] front[i]).spec_category()
                    != c by {
                    assert(front[i] == ms[i]);
                }
            }
        } else {
            assert(ms[ms.len() - 1].spec_category() == c);
        }
    }
}

/// Every measurement counted by a zero sum is zero bytes.
proof fn lemma_zero_sum_has_zero_parts(cs: Seq<SemanticCategoryDiskUse>, n: int)
    requires
        sum_bytes(cs, n) == 0,
    ensures
        forall|i: int| 0 <= i < n ==> (#[trigger] cs[i]).spec_bytes() == 0,
    decreases n,
{
    if n > 0 {
        lemma_zero_sum_has_zero_parts(cs, n - 1);
    }
}

/// Two well-formed disk-use reports that both total zero bytes are the same
/// report: every category in stable order at zero bytes. So every report
/// that totals zero is the one `SemanticDiskUse::empty` builds.
pub proof fn law_zero_total_reports_are_equal(a: SemanticDiskUse, b: SemanticDiskUse)
    requires
        a.well_formed(),
        b.well_formed(),
        a.spec_total() == 0,
        b.spec_total() == 0,
    ensures
        a@ == b@,
{
    lemma_zero_sum_has_zero_parts(a.spec_categories(), 6);
    lemma_zero_sum_has_zero_parts(b.spec_categories(), 6);
    assert forall|i: int| 0 <= i < 6 implies a.spec_categories()[i] == b.spec_categories()[i] by {
        assert(a.spec_categories()[i].spec_category() == all_categories()[i]);
        assert(b.spec_categories()[i].spec_category() == all_categories()[i]);
    }
    assert(a.spec_categories() =~= b.spec_categories());
}

/// A disk-use report does not depend on the order of its measurements when
/// no category is measured twice: any permutation of the measurements gives
/// the same categories, in the same stable order, with the same bytes; and
/// a category that no measurement names is reported as zero bytes.
pub proof fn law_disk_use_ignores_measurement_order(
    ms: Seq<SemanticCategoryDiskUse>,
    permuted: Seq<SemanticCategoryDiskUse>,
    c: SemanticDataCategory,
)
    requires
        forall|i: int, j: int|
            0 <= i < j < ms.len() ==> (#[trigger] ms[i]).spec_category() != (#[trigger] ms[j]).spec_category(),
        permuted.to_multiset() == ms.to_multiset(),
    ensures
        normalized_categories(permuted) == normalized_categories(ms),
        (forall|i: int| 0 <= i < ms.len() ==> (#[trigger] ms[i]).spec_category() != c)
            ==> last_measured(ms, c) == 0,
{
    ms.to_multiset_ensures();
    permuted.to_multiset_ensures();
    lemma_last_measured_source(ms, c);
    assert forall|k: SemanticDataCategory| last_measured(permuted, k) == last_measured(ms, k) by {
        lemma_last_measured_source(ms, k);
        lemma_last_measured_source(permuted, k);
        if exists|i: int| 0 <= i < permuted.len() && (#[trigger] permuted[i]).spec_category() == k {
            let j = choose|j: int|
                0 <= j < permuted.len() && (#[trigger] permuted[j]).spec_category() == k
                    && last_measured(permuted, k) == permuted[j].spec_bytes();
            assert(permuted.contains(permuted[j]));
            assert(permuted.to_multiset().count(permuted[j]) > 0);
            assert(ms.contains(permuted[j]));
            let a = choose|a: int| 0 <= a < ms.len() && ms[a] == permuted[j];
            let b = choose|b: int|
                0 <= b < ms.len() && (#[trigger] ms[b]).spec_category() == k && last_measured(ms, k)
                    == ms[b].spec_bytes();
            if a != b {
                if a < b {
                    assert(ms[a].spec_category() != ms[b].spec_category());
                } else {
                    assert(ms[b].spec_category() != ms[a].spec_category());
                }
            }
        } else {
            assert forall|i: int| 0 <= i < ms.len() implies (#[trigger] ms[i]).spec_category() != k by {
                assert(ms.contains(ms[i]));
                assert(ms.to_multiset().count(ms[i]) > 0);
                assert(permuted.contains(ms[i]));
                let q = choose|q: int| 0 <= q < permuted.len() && permuted[q] == ms[i];
                assert(permuted[q].spec_category() != k);
            }
        }
    }
    assert(normalized_categories(permuted) =~= normalized_categories(ms));
}

/// Partial sums grow with their length.
pub proof fn lemma_sum_bytes_monotone(cs: Seq<SemanticCategoryDiskUse>, a: int, b: int)
    requires
        a <= b,
    ensures
        sum_bytes(cs, a) <= sum_bytes(cs, b),
    decreases b - a,
{
    if a < b {
        lemma_sum_bytes_monotone(cs, a, b - 1);
    }
}

fn last_measurement(ms: &Vec<SemanticCategoryDiskUse>, category: SemanticDataCategory) -> (r: u64)
    ensures
        r == last_measured(ms@, category),
{
    let mut i: usize = ms.len();
    assert(ms@.take(i as int) =~= ms@);
    while i > 0
        invariant
            i <= ms.len(),
            last_measured(ms@, category) == last_measured(ms@.take(i as int), category),
        decreases i,
    {
        let ghost prefix = ms@.take(i as int);
        assert(prefix.drop_last() == ms@.take(i - 1));
        assert(prefix.last() == ms@[i - 1]);
        if ms[i - 1].category() == category {
            proof {
                lemma_last_measured_bound(ms@, category);
            }
            return ms[i - 1].bytes();
        }
        i = i - 1;
    }
    0
}

/// Actionable semantic component lifecycle failure.
#[derive(Debug, Clone, PartialEq, Eq)]
pub enum SemanticComponentError {
    /// No semantic component implementation was configured.
    Unavailable,
    /// The active authority cannot perform a mutation.
    AuthorityDenied {
        /// Read-only or unavailable authority.
        authority: SemanticComponentAuthority,
        /// Rejected explicit operation.
        operation: SemanticComponentOperation,
    },
    /// An install request was not derived from a live reviewed offer.
    ConsentRequired,
    /// An expert local model omitted or invalidated required metadata.
    InvalidLocalModelMetadata {
        /// Invalid field.
        field: SemanticModelImportField,
    },
    /// An operation is not valid in the current lifecycle state.
    InvalidLifecycle {
        /// Rejected operation.
        operation: SemanticComponentOperation,
        /// Current lifecycle description.
        lifecycle: String,
    },
    /// An enrolment identity was empty or unsafe.
    InvalidEnrolment,
    /// A migration confirmation or checkpoint did not identify a live plan.
    InvalidMigrationPlan,
    /// A checkpoint regressed or exceeded the disclosed estimate.
    InvalidMigrationProgress {
        /// Rejected completed document count.
        completed_documents: u64,
        /// Disclosed total document estimate.
        total_documents: u64,
    },
    /// The current distribution prohibits runtime-downloaded executable code.
    ExecutableDownloadProhibited,
    /// Signed catalog lookup or compatibility validation failed.
    Catalog {
        /// Actionable catalog diagnostic.
        message: String,
    },
    /// Available storage cannot satisfy the estimate plus reserve.
    InsufficientSpace {
        /// Available bytes.
        available_bytes: u64,
        /// Required installed bytes plus reserve.
        required_bytes: u64,
        /// Explicit reserve included in the requirement.
        reserve_bytes: u64,
    },
    /// A resumable artifact download was interrupted.
    DownloadInterrupted {
        /// Signed artifact identity.
        artifact_id: String,
        /// Source diagnostic.
        message: String,
    },
    /// Downloaded or installed bytes failed signed integrity validation.
    ArtifactVerificationFailed {
        /// Rejected signed artifact.
        artifact_id: String,
    },
    /// A verified component could not be activated.
    ActivationFailed {
        /// Rejected signed artifact.
        artifact_id: String,
        /// Activation diagnostic.
        message: String,
    },
    /// Free-space probing failed before installation.
    FreeSpaceProbe {
        /// Probe diagnostic.
        message: String,
    },
    /// Durable component state could not be loaded or persisted.
    State {
        /// State diagnostic.
        message: String,
    },
    /// Component filesystem work failed.
    Filesystem {
        /// Filesystem diagnostic.
        message: String,
    },
    /// Indexing could not be paused or resumed.
    Indexing {
        /// Indexing diagnostic.
        message: String,
    },
    /// Enrolment-derived deletion failed.
    IndexRemoval {
        /// Removal diagnostic.
        message: String,
    },
    /// Data-root migration failed before its verified switch.
    DataMigration {
        /// Migration diagnostic.
        message: String,
    },
    /// A blocking filesystem task could not complete.
    BlockingTaskFailed {
        /// Join failure diagnostic.
        message: String,
    },
    /// Aggregate disk usage overflowed its representation.
    DiskUseOverflow,
}

/// Required expert local-model metadata field.
#[derive(Debug, Clone, Copy, PartialEq, Eq, Structural)]
pub enum SemanticModelImportField {
    /// Local package path.
    SourcePath,
    /// Model identifier.
    ModelId,
    /// Immutable upstream revision.
    UpstreamRevision,
    /// License information.
    License,
    /// Tokenizer identity.
    Tokenizer,
    /// Embedding dimensions.
    Dimensions,
    /// Embedding normalization.
    Normalization,
    /// Runtime compatibility.
    RuntimeCompatibility,
    /// Language coverage.
    LanguageCoverage,
    /// Installed-size estimate.
    EstimatedDiskBytes,
    /// Peak-RAM estimate.
    EstimatedRamBytes,
}

/// Abstract user-facing quality and language profile of the semantic model.
#[derive(Debug, Clone, Copy, PartialEq, Eq, Structural)]
pub enum SemanticProfile {
    /// Compact multilingual model.
    CompactMultilingual,
    /// Compact English-only model.
    CompactEnglish,
    /// Larger multilingual model with higher retrieval quality.
    MultilingualQuality,
}

/// Clones a text value, keeping it equal.
pub fn clone_string(s: &String) -> (r: String)
    ensures
        r == *s,
{
    s.clone()
}

/// Clones an optional text value, keeping it equal.
pub fn clone_option_string(s: &Option<String>) -> (r: Option<String>)
    ensures
        r == *s,
{
    match s {
        Some(v) => Some(v.clone()),
        None => None,
    }
}

/// Exact immutable model identity selected for an index.
#[derive(Debug, PartialEq, Eq)]
pub struct SemanticModelIdentity {
    model_id: String,
    revision: String,
}

impl Clone for SemanticModelIdentity {
    fn clone(&self) -> (r: Self)
        ensures
            r == *self,
    {
        SemanticModelIdentity { model_id: self.model_id.clone(), revision: self.revision.clone() }
    }
}

impl SemanticModelIdentity {
    /// The opaque model identifier.
    pub closed spec fn spec_model_id(&self) -> Seq<char> {
        self.model_id@
    }

    /// The immutable upstream revision.
    pub closed spec fn spec_revision(&self) -> Seq<char> {
        self.revision@
    }

    /// Creates an application-level exact model identity.
    pub fn new(model_id: String, revision: String) -> (r: Self)
        ensures
            r.spec_model_id() == model_id@,
            r.spec_revision() == revision@,
    {
        Self { model_id, revision }
    }

    /// Returns the opaque model identifier.
    pub fn model_id(&self) -> (r: &str)
        ensures
            r@ == self.spec_model_id(),
    {
        self.model_id.as_str()
    }

    /// Returns the immutable upstream revision.
    pub fn revision(&self) -> (r: &str)
        ensures
            r@ == self.spec_revision(),
    {
        self.revision.as_str()
    }
}

/// Abstract profile plus the exact model revision used by an index.
#[derive(Debug, PartialEq, Eq)]
pub struct SemanticModelSelection {
    profile: SemanticProfile,
    identity: SemanticModelIdentity,
}

impl Clone for SemanticModelSelection {
    fn clone(&self) -> (r: Self)
        ensures
            r == *self,
    {
        SemanticModelSelection { profile: self.profile, identity: self.identity.clone() }
    }
}

impl SemanticModelSelection {
    /// The persisted abstract profile.
    pub closed spec fn spec_profile(&self) -> SemanticProfile {
        self.profile
    }

    /// The exact model identity used by the index.
    pub closed spec fn spec_identity(&self) -> SemanticModelIdentity {
        self.identity
    }

    /// Creates one resolved model selection.
    pub fn new(profile: SemanticProfile, identity: SemanticModelIdentity) -> (r: Self)
        ensures
            r.spec_profile() == profile,
            r.spec_identity() == identity,
    {
        Self { profile, identity }
    }

    /// Returns the persisted abstract profile.
    pub fn profile(&self) -> (r: SemanticProfile)
        ensures
            r == self.spec_profile(),
    {
        self.profile
    }

    /// Returns the exact model identity used by the index.
    pub fn identity(&self) -> (r: &SemanticModelIdentity)
        ensures
            *r == self.spec_identity(),
    {
        &self.identity
    }
}

/// Opaque identity of one explicit model migration.
#[derive(Debug, PartialEq, Eq, PartialOrd, Ord, Hash)]
pub struct SemanticModelMigrationId(String);

impl Clone for SemanticModelMigrationId {
    fn clone(&self) -> (r: Self)
        ensures
            r == *self,
    {
        SemanticModelMigrationId(self.0.clone())
    }
}

impl View for SemanticModelMigrationId {
    type V = Seq<char>;

    closed spec fn view(&self) -> Seq<char> {
        self.0@
    }
}

impl SemanticModelMigrationId {
    /// Creates an opaque migration identity supplied by a host adapter.
    pub fn new(value: String) -> (r: Self)
        ensures
            r@ == value@,
    {
        Self(value)
    }

    /// Returns the opaque identity for correlation and checkpoints.
    pub fn as_str(&self) -> (r: &str)
        ensures
            r@ == self@,
    {
        self.0.as_str()
    }

    /// Whether two identities are the same.
    pub fn same_as(&self, other: &Self) -> (r: bool)
        ensures
            r == (self@ == other@),
    {
        self.0 == other.0
    }
}

/// Parses a migration identity received from a transport: a blank value
/// does not identify any live plan.
pub fn semantic_model_migration_id_from_transport(value: String) -> (r: Result<
    SemanticModelMigrationId,
    SemanticComponentError,
>)
    ensures
        match r {
            Ok(id) => !is_blank(value@) && id@ == value@,
            Err(e) => is_blank(value@) && e == SemanticComponentError::InvalidMigrationPlan,
        },
{
    if str_is_blank(value.as_str()) {
        return Err(SemanticComponentError::InvalidMigrationPlan);
    }
    Ok(SemanticModelMigrationId::new(value))
}

/// Estimated work disclosed before model migration confirmation.
#[derive(Debug, Clone, Copy, PartialEq, Eq, Structural)]
pub struct SemanticReindexEstimate {
    documents: u64,
    source_bytes: u64,
}

impl SemanticReindexEstimate {
    /// Estimated document count.
    pub closed spec fn spec_documents(self) -> u64 {
        self.documents
    }

    /// Estimated source bytes.
    pub closed spec fn spec_source_bytes(self) -> u64 {
        self.source_bytes
    }

    /// Creates an estimated full-reindex workload.
    pub fn new(documents: u64, source_bytes: u64) -> (r: Self)
        ensures
            r.spec_documents() == documents,
            r.spec_source_bytes() == source_bytes,
    {
        Self { documents, source_bytes }
    }

    /// Returns estimated document count.
    pub fn documents(self) -> (r: u64)
        ensures
            r == self.spec_documents(),
    {
        self.documents
    }

    /// Returns estimated source bytes.
    pub fn source_bytes(self) -> (r: u64)
        ensures
            r == self.spec_source_bytes(),
    {
        self.source_bytes
    }
}

/// Why an explicit full reindex is required.
#[derive(Debug, Clone, Copy, PartialEq, Eq, Structural)]
pub enum SemanticModelMigrationReason {
    /// The model identity or embedding contract changes.
    ModelChanged,
    /// The stored index schema changes.
    SchemaChanged {
        /// Existing schema version.
        from_version: u32,
        /// Replacement schema version.
        to_version: u32,
    },
}

/// Durable resumable model migration state.
#[derive(Debug, PartialEq, Eq)]
pub struct SemanticModelMigrationProgress {
    migration_id: SemanticModelMigrationId,
    completed_documents: u64,
    estimate: SemanticReindexEstimate,
    target: SemanticModelSelection,
    reason: SemanticModelMigrationReason,
    resume_cursor: Option<String>,
}

impl Clone for SemanticModelMigrationProgress {
    fn clone(&self) -> (r: Self)
        ensures
            r == *self,
    {
        SemanticModelMigrationProgress {
            migration_id: self.migration_id.clone(),
            completed_documents: self.completed_documents,
            estimate: self.estimate,
            target: self.target.clone(),
            reason: self.reason,
            resume_cursor: clone_option_string(&self.resume_cursor),
        }
    }
}

impl SemanticModelMigrationProgress {
    /// The migration being resumed.
    pub closed spec fn spec_migration_id(&self) -> SemanticModelMigrationId {
        self.migration_id
    }

    /// Durably completed documents.
    pub closed spec fn spec_completed(&self) -> u64 {
        self.completed_documents
    }

    /// The disclosed workload.
    pub closed spec fn spec_estimate(&self) -> SemanticReindexEstimate {
        self.estimate
    }

    /// The exact model selection being built.
    pub closed spec fn spec_target(&self) -> SemanticModelSelection {
        self.target
    }

    /// Why the full reindex was required.
    pub closed spec fn spec_reason(&self) -> SemanticModelMigrationReason {
        self.reason
    }

    /// The opaque durable cursor.
    pub closed spec fn spec_resume_cursor(&self) -> Option<String> {
        self.resume_cursor
    }

    /// The progress value holding exactly these fields.
    pub closed spec fn of(
        migration_id: SemanticModelMigrationId,
        completed_documents: u64,
        estimate: SemanticReindexEstimate,
        target: SemanticModelSelection,
        reason: SemanticModelMigrationReason,
        resume_cursor: Option<String>,
    ) -> Self {
        SemanticModelMigrationProgress {
            migration_id,
            completed_documents,
            estimate,
            target,
            reason,
            resume_cursor,
        }
    }

    /// Field access of the progress value built from fields.
    pub proof fn lemma_of_fields(
        migration_id: SemanticModelMigrationId,
        completed_documents: u64,
        estimate: SemanticReindexEstimate,
        target: SemanticModelSelection,
        reason: SemanticModelMigrationReason,
        resume_cursor: Option<String>,
    )
        ensures
            ({
                let p = Self::of(migration_id, completed_documents, estimate, target, reason, resume_cursor);
                &&& p.spec_migration_id() == migration_id
                &&& p.spec_completed() == completed_documents
                &&& p.spec_estimate() == estimate
                &&& p.spec_target() == target
                &&& p.spec_reason() == reason
                &&& p.spec_resume_cursor() == resume_cursor
            }),
    {
    }

    /// Creates one durable resumable migration checkpoint.
    pub fn new(
        migration_id: SemanticModelMigrationId,
        completed_documents: u64,
        estimate: SemanticReindexEstimate,
        target: SemanticModelSelection,
        reason: SemanticModelMigrationReason,
        resume_cursor: Option<String>,
    ) -> (r: Self)
        ensures
            r == Self::of(migration_id, completed_documents, estimate, target, reason, resume_cursor),
            r.spec_migration_id() == migration_id,
            r.spec_completed() == completed_documents,
            r.spec_estimate() == estimate,
            r.spec_target() == target,
            r.spec_reason() == reason,
            r.spec_resume_cursor() == resume_cursor,
    {
        Self { migration_id, completed_documents, estimate, target, reason, resume_cursor }
    }

    /// Returns the migration being resumed.
    pub fn migration_id(&self) -> (r: &SemanticModelMigrationId)
        ensures
            *r == self.spec_migration_id(),
    {
        &self.migration_id
    }

    /// Returns durably completed documents.
    pub fn completed_documents(&self) -> (r: u64)
        ensures
            r == self.spec_completed(),
    {
        self.completed_documents
    }

    /// Returns the disclosed total document estimate.
    pub fn total_documents(&self) -> (r: u64)
        ensures
            r == self.spec_estimate().spec_documents(),
    {
        self.estimate.documents()
    }

    /// Returns the full estimated workload disclosed before confirmation.
    pub fn estimate(&self) -> (r: SemanticReindexEstimate)
        ensures
            r == self.spec_estimate(),
    {
        self.estimate
    }

    /// Returns the exact model selection being built.
    pub fn target(&self) -> (r: &SemanticModelSelection)
        ensures
            *r == self.spec_target(),
    {
        &self.target
    }

    /// Returns why the full reindex was required.
    pub fn reason(&self) -> (r: SemanticModelMigrationReason)
        ensures
            r == self.spec_reason(),
    {
        self.reason
    }

    /// Returns the opaque durable cursor, when present.
    pub fn resume_cursor(&self) -> (r: Option<&str>)
        ensures
            match r {
                Some(c) => self.spec_resume_cursor() matches Some(v) && c@ == v@,
                None => self.spec_resume_cursor() is None,
            },
    {
        match &self.resume_cursor {
            Some(c) => Some(c.as_str()),
            None => None,
        }
    }
}

/// Installed component role.
#[derive(Debug, Clone, Copy, PartialEq, Eq, Structural)]
pub enum SemanticComponentKind {
    /// Isolated semantic worker executable.
    Worker,
    /// Embedding runtime executable or library.
    Runtime,
    /// Model package.
    Model,
}

/// Whether an installed component is active or retained for rollback.
#[derive(Debug, Clone, Copy, PartialEq, Eq, Structural)]
pub enum InstalledSemanticComponentState {
    /// Active installation.
    Active,
    /// Previous working worker retained for rollback.
    Rollback,
}

/// One installed semantic component.
#[derive(Debug, PartialEq, Eq)]
pub struct InstalledSemanticComponent {
    artifact_id: String,
    component_id: String,
    kind: SemanticComponentKind,
    version: String,
    state: InstalledSemanticComponentState,
    installed_bytes: u64,
}

impl Clone for InstalledSemanticComponent {
    fn clone(&self) -> (r: Self)
        ensures
            r == *self,
    {
        InstalledSemanticComponent {
            artifact_id: self.artifact_id.clone(),
            component_id: self.component_id.clone(),
            kind: self.kind,
            version: self.version.clone(),
            state: self.state,
            installed_bytes: self.installed_bytes,
        }
    }
}

impl InstalledSemanticComponent {
    /// The signed artifact identifier.
    pub closed spec fn spec_artifact_id(&self) -> Seq<char> {
        self.artifact_id@
    }

    /// The logical component identifier.
    pub closed spec fn spec_component_id(&self) -> Seq<char> {
        self.component_id@
    }

    /// The component role.
    pub closed spec fn spec_kind(&self) -> SemanticComponentKind {
        self.kind
    }

    /// The exact installed version.
    pub closed spec fn spec_version(&self) -> Seq<char> {
        self.version@
    }

    /// Active or rollback state.
    pub closed spec fn spec_state(&self) -> InstalledSemanticComponentState {
        self.state
    }

    /// Actual installed bytes.
    pub closed spec fn spec_installed_bytes(&self) -> u64 {
        self.installed_bytes
    }

    /// Creates an installed component status entry.
    pub fn new(
        artifact_id: String,
        component_id: String,
        kind: SemanticComponentKind,
        version: String,
        state: InstalledSemanticComponentState,
        installed_bytes: u64,
    ) -> (r: Self)
        ensures
            r.spec_artifact_id() == artifact_id@,
            r.spec_component_id() == component_id@,
            r.spec_kind() == kind,
            r.spec_version() == version@,
            r.spec_state() == state,
            r.spec_installed_bytes() == installed_bytes,
    {
        Self { artifact_id, component_id, kind, version, state, installed_bytes }
    }

    /// Returns the signed artifact identifier.
    pub fn artifact_id(&self) -> (r: &str)
        ensures
            r@ == self.spec_artifact_id(),
    {
        self.artifact_id.as_str()
    }

    /// Returns the logical component identifier.
    pub fn component_id(&self) -> (r: &str)
        ensures
            r@ == self.spec_component_id(),
    {
        self.component_id.as_str()
    }

    /// Returns the component role.
    pub fn kind(&self) -> (r: SemanticComponentKind)
        ensures
            r == self.spec_kind(),
    {
        self.kind
    }

    /// Returns the exact installed version.
    pub fn version(&self) -> (r: &str)
        ensures
            r@ == self.spec_version(),
    {
        self.version.as_str()
    }

    /// Returns active or rollback state.
    pub fn state(&self) -> (r: InstalledSemanticComponentState)
        ensures
            r == self.spec_state(),
    {
        self.state
    }

    /// Returns actual installed bytes.
    pub fn installed_bytes(&self) -> (r: u64)
        ensures
            r == self.spec_installed_bytes(),
    {
        self.installed_bytes
    }
}

/// Opaque identity of one signed installation disclosure.
#[derive(Debug, PartialEq, Eq, PartialOrd, Ord, Hash)]
pub struct InstallationOfferId(String);

impl Clone for InstallationOfferId {
    fn clone(&self) -> (r: Self)
        ensures
            r == *self,
    {
        InstallationOfferId(self.0.clone())
    }
}

impl View for InstallationOfferId {
    type V = Seq<char>;

    closed spec fn view(&self) -> Seq<char> {
        self.0@
    }
}

impl InstallationOfferId {
    /// Parses a non-blank opaque offer identity received from a transport;
    /// a blank value is `ConsentRequired`.
    pub fn new(value: String) -> (r: Result<Self, SemanticComponentError>)
        ensures
            match r {
                Ok(id) => !is_blank(value@) && id@ == value@,
                Err(e) => is_blank(value@) && e == SemanticComponentError::ConsentRequired,
            },
    {
        if str_is_blank(value.as_str()) {
            return Err(SemanticComponentError::ConsentRequired);
        }
        Ok(Self(value))
    }

    /// Returns the opaque offer identity.
    pub fn as_str(&self) -> (r: &str)
        ensures
            r@ == self@,
    {
        self.0.as_str()
    }
}

/// Opaque identity of one live, backend-generated index-removal plan.
#[derive(Debug, PartialEq, Eq, PartialOrd, Ord, Hash)]
pub struct SemanticIndexRemovalPlanId(String);

impl Clone for SemanticIndexRemovalPlanId {
    fn clone(&self) -> (r: Self)
        ensures
            r == *self,
    {
        SemanticIndexRemovalPlanId(self.0.clone())
    }
}

impl View for SemanticIndexRemovalPlanId {
    type V = Seq<char>;

    closed spec fn view(&self) -> Seq<char> {
        self.0@
    }
}

impl SemanticIndexRemovalPlanId {
    /// Reconstructs an opaque plan identity at a transport boundary; a blank
    /// token is an index-removal error.
    pub fn new(value: String) -> (r: Result<Self, SemanticComponentError>)
        ensures
            match r {
                Ok(id) => !is_blank(value@) && id@ == value@,
                Err(e) => is_blank(value@) && (e matches SemanticComponentError::IndexRemoval {
                    message,
                } && message@ == "index removal confirmation token is empty"@),
            },
    {
        if str_is_blank(value.as_str()) {
            return Err(
                SemanticComponentError::IndexRemoval {
                    message: String::from_str("index removal confirmation token is empty"),
                },
            );
        }
        Ok(Self(value))
    }

    /// Returns the opaque plan identity.
    pub fn as_str(&self) -> (r: &str)
        ensures
            r@ == self@,
    {
        self.0.as_str()
    }
}

/// Required handling of remaining indexes during component uninstall.
#[derive(Debug, Clone, Copy, PartialEq, Eq, Structural)]
pub enum SemanticIndexRetentionDecision {
    /// Retain remaining index data for a later reinstall.
    Retain,
    /// Delete remaining extracted, vector, and embedding-cache data.
    Delete,
}

/// Observable lifecycle of optional semantic components.
#[derive(Debug, PartialEq, Eq)]
pub enum SemanticComponentLifecycle {
    /// No component implementation was configured.
    Unavailable,
    /// Components are not installed.
    Absent,
    /// A signed installation disclosure is awaiting explicit consent.
    Offered {
        /// Opaque identity of the disclosed offer.
        offer_id: InstallationOfferId,
    },
    /// A resumable component download is in progress or interrupted.
    Downloading {
        /// Durable bytes already downloaded.
        downloaded_bytes: u64,
        /// Total signed download size.
        total_bytes: u64,
        /// Whether the retained partial download can be resumed.
        resumable: bool,
    },
    /// Components are installed and indexing is enabled.
    InstalledEnabled,
    /// Indexing is explicitly paused while components remain installed.
    Paused,
    /// A confirmed full reindex is in progress.
    Migrating {
        /// Durable migration checkpoint.
        progress: SemanticModelMigrationProgress,
    },
    /// A failed update retained or restored the last working component.
    UpdateFailedRolledBack {
        /// Version whose activation failed.
        failed_version: String,
        /// Last known working version that remains active.
        active_version: String,
    },
    /// Installation cannot proceed without freeing disk space.
    LowDisk {
        /// Bytes currently available.
        available_bytes: u64,
        /// Bytes required including the reserve.
        required_bytes: u64,
    },
    /// Components were removed with an explicit index retention decision.
    Uninstalled {
        /// Decision applied to remaining index data.
        index_decision: SemanticIndexRetentionDecision,
    },
}

impl Clone for SemanticComponentLifecycle {
    fn clone(&self) -> (r: Self)
        ensures
            r == *self,
    {
        match self {
            SemanticComponentLifecycle::Unavailable => SemanticComponentLifecycle::Unavailable,
            SemanticComponentLifecycle::Absent => SemanticComponentLifecycle::Absent,
            SemanticComponentLifecycle::Offered { offer_id } => SemanticComponentLifecycle::Offered {
                offer_id: offer_id.clone(),
            },
            SemanticComponentLifecycle::Downloading { downloaded_bytes, total_bytes, resumable } =>
                SemanticComponentLifecycle::Downloading {
                downloaded_bytes: *downloaded_bytes,
                total_bytes: *total_bytes,
                resumable: *resumable,
            },
            SemanticComponentLifecycle::InstalledEnabled => SemanticComponentLifecycle::InstalledEnabled,
            SemanticComponentLifecycle::Paused => SemanticComponentLifecycle::Paused,
            SemanticComponentLifecycle::Migrating { progress } => SemanticComponentLifecycle::Migrating {
                progress: progress.clone(),
            },
            SemanticComponentLifecycle::UpdateFailedRolledBack { failed_version, active_version } =>
                SemanticComponentLifecycle::UpdateFailedRolledBack {
                failed_version: failed_version.clone(),
                active_version: active_version.clone(),
            },
            SemanticComponentLifecycle::LowDisk { available_bytes, required_bytes } =>
                SemanticComponentLifecycle::LowDisk {
                available_bytes: *available_bytes,
                required_bytes: *required_bytes,
            },
            SemanticComponentLifecycle::Uninstalled { index_decision } =>
                SemanticComponentLifecycle::Uninstalled { index_decision: *index_decision },
        }
    }
}

/// `Debug` rendering of a profile.
pub open spec fn profile_debug(p: SemanticProfile) -> Seq<char> {
    match p {
        SemanticProfile::CompactMultilingual => "CompactMultilingual"@,
        SemanticProfile::CompactEnglish => "CompactEnglish"@,
        SemanticProfile::MultilingualQuality => "MultilingualQuality"@,
    }
}

/// `Debug` rendering of a migration reason.
pub open spec fn reason_debug(r: SemanticModelMigrationReason) -> Seq<char> {
    match r {
        SemanticModelMigrationReason::ModelChanged => "ModelChanged"@,
        SemanticModelMigrationReason::SchemaChanged { from_version, to_version } =>
            "SchemaChanged { from_version: "@ + decimal(from_version as nat) + ", to_version: "@
                + decimal(to_version as nat) + " }"@,
    }
}

/// `Debug` rendering of an optional text.
pub open spec fn option_text_debug(o: Option<String>) -> Seq<char> {
    match o {
        Some(v) => "Some("@ + debug_text(v@) + ")"@,
        None => "None"@,
    }
}

/// `Debug` rendering of a model selection.
pub open spec fn selection_debug(s: SemanticModelSelection) -> Seq<char> {
    "SemanticModelSelection { profile: "@ + profile_debug(s.spec_profile())
        + ", identity: SemanticModelIdentity { model_id: "@ + debug_text(
        s.spec_identity().spec_model_id(),
    ) + ", revision: "@ + debug_text(s.spec_identity().spec_revision()) + " } }"@
}

/// `Debug` rendering of migration progress.
pub open spec fn progress_debug(p: SemanticModelMigrationProgress) -> Seq<char> {
    "SemanticModelMigrationProgress { migration_id: SemanticModelMigrationId("@ + debug_text(
        p.spec_migration_id()@,
    ) + "), completed_documents: "@ + decimal(p.spec_completed() as nat)
        + ", estimate: SemanticReindexEstimate { documents: "@ + decimal(
        p.spec_estimate().spec_documents() as nat,
    ) + ", source_bytes: "@ + decimal(p.spec_estimate().spec_source_bytes() as nat) + " }, target: "@
        + selection_debug(p.spec_target()) + ", reason: "@ + reason_debug(p.spec_reason())
        + ", resume_cursor: "@ + option_text_debug(p.spec_resume_cursor()) + " }"@
}

/// `Debug` rendering of a retention decision.
pub open spec fn retention_debug(d: SemanticIndexRetentionDecision) -> Seq<char> {
    match d {
        SemanticIndexRetentionDecision::Retain => "Retain"@,
        SemanticIndexRetentionDecision::Delete => "Delete"@,
    }
}

/// `Debug` rendering of a lifecycle, as used in lifecycle error messages.
pub open spec fn lifecycle_debug(l: SemanticComponentLifecycle) -> Seq<char> {
    match l {
        SemanticComponentLifecycle::Unavailable => "Unavailable"@,
        SemanticComponentLifecycle::Absent => "Absent"@,
        SemanticComponentLifecycle::Offered { offer_id } => "Offered { offer_id: InstallationOfferId("@
            + debug_text(offer_id@) + ") }"@,
        SemanticComponentLifecycle::Downloading { downloaded_bytes, total_bytes, resumable } =>
            "Downloading { downloaded_bytes: "@ + decimal(downloaded_bytes as nat) + ", total_bytes: "@
                + decimal(total_bytes as nat) + ", resumable: "@ + bool_text(resumable) + " }"@,
        SemanticComponentLifecycle::InstalledEnabled => "InstalledEnabled"@,
        SemanticComponentLifecycle::Paused => "Paused"@,
        SemanticComponentLifecycle::Migrating { progress } => "Migrating { progress: "@
            + progress_debug(progress) + " }"@,
        SemanticComponentLifecycle::UpdateFailedRolledBack { failed_version, active_version } =>
            "UpdateFailedRolledBack { failed_version: "@ + debug_text(failed_version@)
                + ", active_version: "@ + debug_text(active_version@) + " }"@,
        SemanticComponentLifecycle::LowDisk { available_bytes, required_bytes } =>
            "LowDisk { available_bytes: "@ + decimal(available_bytes as nat) + ", required_bytes: "@
                + decimal(required_bytes as nat) + " }"@,
        SemanticComponentLifecycle::Uninstalled { index_decision } =>
            "Uninstalled { index_decision: "@ + retention_debug(index_decision) + " }"@,
    }
}

fn push_profile_debug(out: &mut String, p: SemanticProfile)
    ensures
        final(out)@ == old(out)@ + profile_debug(p),
{
    match p {
        SemanticProfile::CompactMultilingual => out.append("CompactMultilingual"),
        SemanticProfile::CompactEnglish => out.append("CompactEnglish"),
        SemanticProfile::MultilingualQuality => out.append("MultilingualQuality"),
    }
}

fn push_reason_debug(out: &mut String, r: SemanticModelMigrationReason)
    ensures
        final(out)@ == old(out)@ + reason_debug(r),
{
    match r {
        SemanticModelMigrationReason::ModelChanged => out.append("ModelChanged"),
        SemanticModelMigrationReason::SchemaChanged { from_version, to_version } => {
            let ghost start = out@;
            out.append("SchemaChanged { from_version: ");
            push_decimal(out, from_version as u64);
            out.append(", to_version: ");
            push_decimal(out, to_version as u64);
            out.append(" }");
            assert(out@ =~= start + reason_debug(r));
        },
    }
}

fn push_debug_text(out: &mut String, s: &str)
    ensures
        final(out)@ == old(out)@ + debug_text(s@),
{
    let q = debug_quote(s);
    out.append(q.as_str());
}

fn push_selection_debug(out: &mut String, s: &SemanticModelSelection)
    ensures
        final(out)@ == old(out)@ + selection_debug(*s),
{
    let ghost start = out@;
    out.append("SemanticModelSelection { profile: ");
    push_profile_debug(out, s.profile());
    out.append(", identity: SemanticModelIdentity { model_id: ");
    push_debug_text(out, s.identity().model_id());
    out.append(", revision: ");
    push_debug_text(out, s.identity().revision());
    out.append(" } }");
    assert(out@ =~= start + selection_debug(*s));
}

fn push_progress_debug(out: &mut String, p: &SemanticModelMigrationProgress)
    ensures
        final(out)@ == old(out)@ + progress_debug(*p),
{
    let ghost start = out@;
    out.append("SemanticModelMigrationProgress { migration_id: SemanticModelMigrationId(");
    push_debug_text(out, p.migration_id().as_str());
    out.append("), completed_documents: ");
    push_decimal(out, p.completed_documents());
    out.append(", estimate: SemanticReindexEstimate { documents: ");
    push_decimal(out, p.estimate().documents());
    out.append(", source_bytes: ");
    push_decimal(out, p.estimate().source_bytes());
    out.append(" }, target: ");
    push_selection_debug(out, p.target());
    out.append(", reason: ");
    push_reason_debug(out, p.reason());
    out.append(", resume_cursor: ");
    let ghost before_cursor = out@;
    match p.resume_cursor() {
        Some(c) => {
            out.append("Some(");
            push_debug_text(out, c);
            out.append(")");
        },
        None => {
            out.append("None");
        },
    }
    assert(out@ =~= before_cursor + option_text_debug(p.spec_resume_cursor()));
    out.append(" }");
    assert(out@ =~= start + progress_debug(*p));
}

/// Renders a lifecycle with `Debug` formatting.
pub fn lifecycle_debug_text(l: &SemanticComponentLifecycle) -> (r: String)
    ensures
        r@ == lifecycle_debug(*l),
{
    let mut out = String::new();
    match l {
        SemanticComponentLifecycle::Unavailable => out.append("Unavailable"),
        SemanticComponentLifecycle::Absent => out.append("Absent"),
        SemanticComponentLifecycle::Offered { offer_id } => {
            out.append("Offered { offer_id: InstallationOfferId(");
            push_debug_text(&mut out, offer_id.as_str());
            out.append(") }");
        },
        SemanticComponentLifecycle::Downloading { downloaded_bytes, total_bytes, resumable } => {
            out.append("Downloading { downloaded_bytes: ");
            push_decimal(&mut out, *downloaded_bytes);
            out.append(", total_bytes: ");
            push_decimal(&mut out, *total_bytes);
            out.append(", resumable: ");
            push_bool(&mut out, *resumable);
            out.append(" }");
        },
        SemanticComponentLifecycle::InstalledEnabled => out.append("InstalledEnabled"),
        SemanticComponentLifecycle::Paused => out.append("Paused"),
        SemanticComponentLifecycle::Migrating { progress } => {
            out.append("Migrating { progress: ");
            push_progress_debug(&mut out, progress);
            out.append(" }");
        },
        SemanticComponentLifecycle::UpdateFailedRolledBack { failed_version, active_version } => {
            out.append("UpdateFailedRolledBack { failed_version: ");
            push_debug_text(&mut out, failed_version.as_str());
            out.append(", active_version: ");
            push_debug_text(&mut out, active_version.as_str());
            out.append(" }");
        },
        SemanticComponentLifecycle::LowDisk { available_bytes, required_bytes } => {
            out.append("LowDisk { available_bytes: ");
            push_decimal(&mut out, *available_bytes);
            out.append(", required_bytes: ");
            push_decimal(&mut out, *required_bytes);
            out.append(" }");
        },
        SemanticComponentLifecycle::Uninstalled { index_decision } => {
            out.append("Uninstalled { index_decision: ");
            match index_decision {
                SemanticIndexRetentionDecision::Retain => out.append("Retain"),
                SemanticIndexRetentionDecision::Delete => out.append("Delete"),
            }
            out.append(" }");
        },
    }
    assert(out@ =~= lifecycle_debug(*l));
    out
}

/// Clones an optional model selection, keeping it equal.
pub fn clone_option_selection(s: &Option<SemanticModelSelection>) -> (r: Option<SemanticModelSelection>)
    ensures
        r == *s,
{
    match s {
        Some(v) => Some(v.clone()),
        None => None,
    }
}

/// Clones optional migration progress, keeping it equal.
pub fn clone_option_progress(s: &Option<SemanticModelMigrationProgress>) -> (r: Option<
    SemanticModelMigrationProgress,
>)
    ensures
        r == *s,
{
    match s {
        Some(v) => Some(v.clone()),
        None => None,
    }
}

/// Clones a list of installed components, keeping it equal.
pub fn clone_components(v: &Vec<InstalledSemanticComponent>) -> (r: Vec<InstalledSemanticComponent>)
    ensures
        r@ == v@,
{
    let mut r: Vec<InstalledSemanticComponent> = Vec::new();
    let mut i: usize = 0;
    while i < v.len()
        invariant
            i <= v.len(),
            r@ == v@.take(i as int),
        decreases v.len() - i,
    {
        r.push(v[i].clone());
        i = i + 1;
        assert(r@ =~= v@.take(i as int));
    }
    assert(r@ =~= v@);
    r
}

/// Current semantic component state.
#[derive(Debug, PartialEq, Eq)]
pub struct SemanticComponentStatus {
    lifecycle: SemanticComponentLifecycle,
    data_root: Option<String>,
    active_model: Option<SemanticModelSelection>,
    migration: Option<SemanticModelMigrationProgress>,
    components: Vec<InstalledSemanticComponent>,
    disk_use: SemanticDiskUse,
}

impl View for SemanticComponentStatus {
    type V = (
        SemanticComponentLifecycle,
        Option<String>,
        Option<SemanticModelSelection>,
        Option<SemanticModelMigrationProgress>,
        Seq<InstalledSemanticComponent>,
        (Seq<SemanticCategoryDiskUse>, u64),
    );

    open spec fn view(&self) -> Self::V {
        (
            self.spec_lifecycle(),
            self.spec_data_root(),
            self.spec_active_model(),
            self.spec_migration(),
            self.spec_components(),
            self.spec_disk_use()@,
        )
    }
}

impl Clone for SemanticComponentStatus {
    fn clone(&self) -> (r: Self)
        ensures
            r@ == self@,
    {
        let components = clone_components(&self.components);
        assert(components@ == self.components@);
        let r = SemanticComponentStatus {
            lifecycle: self.lifecycle.clone(),
            data_root: clone_option_string(&self.data_root),
            active_model: clone_option_selection(&self.active_model),
            migration: clone_option_progress(&self.migration),
            components,
            disk_use: self.disk_use.clone(),
        };
        assert(r.components@ == self.components@);
        r
    }
}

impl SemanticComponentStatus {
    /// The explicit lifecycle state.
    pub closed spec fn spec_lifecycle(&self) -> SemanticComponentLifecycle {
        self.lifecycle
    }

    /// The configured semantic-data root, when reportable.
    pub closed spec fn spec_data_root(&self) -> Option<String> {
        self.data_root
    }

    /// The active profile and exact model revision.
    pub closed spec fn spec_active_model(&self) -> Option<SemanticModelSelection> {
        self.active_model
    }

    /// Resumable migration state.
    pub closed spec fn spec_migration(&self) -> Option<SemanticModelMigrationProgress> {
        self.migration
    }

    /// Installed active and rollback components.
    pub closed spec fn spec_components(&self) -> Seq<InstalledSemanticComponent> {
        self.components@
    }

    /// Per-category disk usage.
    pub closed spec fn spec_disk_use(&self) -> SemanticDiskUse {
        self.disk_use
    }

    /// This status with the lifecycle replaced.
    pub closed spec fn with_lifecycle(self, lifecycle: SemanticComponentLifecycle) -> Self {
        SemanticComponentStatus { lifecycle, ..self }
    }

    /// This status with the data root replaced.
    pub closed spec fn with_data_root(self, data_root: Option<String>) -> Self {
        SemanticComponentStatus { data_root, ..self }
    }

    /// This status with the active model replaced.
    pub closed spec fn with_active_model(self, active_model: Option<SemanticModelSelection>) -> Self {
        SemanticComponentStatus { active_model, ..self }
    }

    /// This status with the migration replaced.
    pub closed spec fn with_migration(self, migration: Option<SemanticModelMigrationProgress>) -> Self {
        SemanticComponentStatus { migration, ..self }
    }

    /// Field access of the replacing constructors.
    pub proof fn lemma_with_fields(self, l: SemanticComponentLifecycle, d: Option<String>, a: Option<SemanticModelSelection>, m: Option<SemanticModelMigrationProgress>)
        ensures
            self.with_lifecycle(l).spec_lifecycle() == l,
            self.with_lifecycle(l).spec_data_root() == self.spec_data_root(),
            self.with_lifecycle(l).spec_active_model() == self.spec_active_model(),
            self.with_lifecycle(l).spec_migration() == self.spec_migration(),
            self.with_lifecycle(l).spec_components() == self.spec_components(),
            self.with_lifecycle(l).spec_disk_use() == self.spec_disk_use(),
            self.with_data_root(d).spec_data_root() == d,
            self.with_data_root(d).spec_lifecycle() == self.spec_lifecycle(),
            self.with_active_model(a).spec_active_model() == a,
            self.with_migration(m).spec_migration() == m,
            self.with_lifecycle(self.spec_lifecycle()) == self,
    {
    }

    /// Replacing the lifecycle twice keeps only the second replacement.
    pub proof fn lemma_with_lifecycle_twice(self, a: SemanticComponentLifecycle, b: SemanticComponentLifecycle)
        ensures
            self.with_lifecycle(a).with_lifecycle(b) == self.with_lifecycle(b),
    {
    }

    /// Creates a complete status reported by a host implementation.
    pub fn new(
        lifecycle: SemanticComponentLifecycle,
        data_root: Option<String>,
        active_model: Option<SemanticModelSelection>,
        migration: Option<SemanticModelMigrationProgress>,
        components: Vec<InstalledSemanticComponent>,
        disk_use: SemanticDiskUse,
    ) -> (r: Self)
        ensures
            r.spec_lifecycle() == lifecycle,
            r.spec_data_root() == data_root,
            r.spec_active_model() == active_model,
            r.spec_migration() == migration,
            r.spec_components() == components@,
            r.spec_disk_use() == disk_use,
    {
        Self { lifecycle, data_root, active_model, migration, components, disk_use }
    }

    /// Creates an absent status for a reported configured root.
    pub fn absent(data_root: Option<String>) -> (r: Self)
        ensures
            r.spec_lifecycle() == SemanticComponentLifecycle::Absent,
            r.spec_data_root() == data_root,
            r.spec_active_model() is None,
            r.spec_migration() is None,
            r.spec_components().len() == 0,
            r.spec_disk_use().well_formed(),
            r.spec_disk_use().spec_total() == 0,
    {
        Self {
            lifecycle: SemanticComponentLifecycle::Absent,
            data_root,
            active_model: None,
            migration: None,
            components: Vec::new(),
            disk_use: SemanticDiskUse::empty(),
        }
    }

    /// The status of a host without a component implementation.
    pub fn unavailable() -> (r: Self)
        ensures
            r.spec_lifecycle() == SemanticComponentLifecycle::Unavailable,
            r.spec_data_root() is None,
            r.spec_active_model() is None,
            r.spec_migration() is None,
            r.spec_components().len() == 0,
            r.spec_disk_use().well_formed(),
            r.spec_disk_use().spec_total() == 0,
    {
        Self {
            lifecycle: SemanticComponentLifecycle::Unavailable,
            data_root: None,
            active_model: None,
            migration: None,
            components: Vec::new(),
            disk_use: SemanticDiskUse::empty(),
        }
    }

    /// The mock status for a lifecycle: root `mock/semantic`, no model, no
    /// components, empty disk use, and the migration of a migrating lifecycle.
    pub fn fake(lifecycle: SemanticComponentLifecycle) -> (r: Self)
        ensures
            r.spec_lifecycle() == lifecycle,
            r.spec_data_root() matches Some(root) && root@ == "mock/semantic"@,
            r.spec_active_model() is None,
            r.spec_migration() == match lifecycle {
                SemanticComponentLifecycle::Migrating { progress } => Some(progress),
                _ => None,
            },
            r.spec_components().len() == 0,
            r.spec_disk_use().well_formed(),
            r.spec_disk_use().spec_total() == 0,
    {
        let migration = match &lifecycle {
            SemanticComponentLifecycle::Migrating { progress } => Some(progress.clone()),
            _ => None,
        };
        Self {
            lifecycle,
            data_root: Some(String::from_str("mock/semantic")),
            active_model: None,
            migration,
            components: Vec::new(),
            disk_use: SemanticDiskUse::empty(),
        }
    }

    /// Returns the current explicit lifecycle state.
    pub fn lifecycle(&self) -> (r: &SemanticComponentLifecycle)
        ensures
            *r == self.spec_lifecycle(),
    {
        &self.lifecycle
    }

    /// Returns the configured semantic-data root when one is reportable.
    pub fn data_root(&self) -> (r: Option<&str>)
        ensures
            match r {
                Some(v) => self.spec_data_root() matches Some(root) && v@ == root@,
                None => self.spec_data_root() is None,
            },
    {
        match &self.data_root {
            Some(root) => Some(root.as_str()),
            None => None,
        }
    }

    /// Returns the active abstract profile and exact model revision.
    pub fn active_model(&self) -> (r: Option<&SemanticModelSelection>)
        ensures
            match r {
                Some(v) => self.spec_active_model() == Some(*v),
                None => self.spec_active_model() is None,
            },
    {
        self.active_model.as_ref()
    }

    /// Returns resumable migration state when a full reindex is pending.
    pub fn migration(&self) -> (r: Option<&SemanticModelMigrationProgress>)
        ensures
            match r {
                Some(v) => self.spec_migration() == Some(*v),
                None => self.spec_migration() is None,
            },
    {
        self.migration.as_ref()
    }

    /// Returns installed active and rollback components.
    pub fn components(&self) -> (r: &[InstalledSemanticComponent])
        ensures
            r@ == self.spec_components(),
    {
        self.components.as_slice()
    }

    /// Returns stable per-category disk usage.
    pub fn disk_use(&self) -> (r: &SemanticDiskUse)
        ensures
            *r == self.spec_disk_use(),
    {
        &self.disk_use
    }
}


/// Embedding normalization contract.
#[derive(Debug, Clone, Copy, PartialEq, Eq, Structural)]
pub enum SemanticEmbeddingNormalization {
    /// Embeddings have unit L2 length.
    UnitLength,
    /// Embeddings retain runtime magnitudes (`None` in the wire vocabulary).
    Unnormalized,
}

/// Model license disclosed before installation.
#[derive(Debug, PartialEq, Eq)]
pub struct SemanticLicense {
    /// SPDX license expression.
    pub spdx: String,
    /// Human-readable attribution or notice.
    pub notice: String,
}

impl Clone for SemanticLicense {
    fn clone(&self) -> (r: Self)
        ensures
            r == *self,
    {
        SemanticLicense { spdx: self.spdx.clone(), notice: self.notice.clone() }
    }
}

/// Complete immutable metadata for one model revision.
#[derive(Debug, Clone, PartialEq, Eq)]
pub struct SemanticModelMetadata {
    /// Exact model identity.
    pub identity: SemanticModelIdentity,
    /// Model license.
    pub license: SemanticLicense,
    /// Exact tokenizer identity.
    pub tokenizer: String,
    /// Embedding vector dimensions.
    pub dimensions: u32,
    /// Stored embedding normalization.
    pub normalization: SemanticEmbeddingNormalization,
    /// Required logical runtime component.
    pub runtime_component_id: String,
    /// Accepted runtime versions.
    pub runtime_version_requirement: String,
    /// Declared language coverage.
    pub language_coverage: Vec<String>,
    /// Estimated installed model bytes.
    pub estimated_disk_bytes: u64,
    /// Estimated peak RAM bytes.
    pub estimated_ram_bytes: u64,
}

/// Curated model metadata displayed independently of transport types.
#[derive(Debug, Clone, PartialEq, Eq)]
pub struct SemanticModelProfile {
    /// Abstract user-facing quality and language profile.
    pub profile: SemanticProfile,
    /// Whether setup recommends this profile.
    pub recommended: bool,
    /// Stable explanation of the profile trade-off.
    pub explanation: String,
    /// Exact model identity resolved by the signed catalog.
    pub resolved_model: SemanticModelIdentity,
    /// Complete immutable model metadata.
    pub metadata: SemanticModelMetadata,
}

/// One component disclosed by a signed catalog before consent.
#[derive(Debug, Clone, PartialEq, Eq)]
pub struct SemanticComponentDisclosure {
    /// Signed artifact identifier.
    pub artifact_id: String,
    /// Logical component identifier.
    pub component_id: String,
    /// Component role.
    pub kind: SemanticComponentKind,
    /// Exact model identity for model packages.
    pub model: Option<SemanticModelIdentity>,
    /// Exact signed component version.
    pub version: String,
    /// License displayed before consent.
    pub license: SemanticLicense,
    /// Compressed download bytes.
    pub download_bytes: u64,
    /// Estimated installed bytes.
    pub estimated_installed_bytes: u64,
    /// Estimated peak RAM bytes.
    pub estimated_ram_bytes: u64,
}

/// Complete first-install disclosure backed by one verified signed catalog.
#[derive(Debug, Clone, PartialEq, Eq)]
pub struct SemanticInstallationOffer {
    id: InstallationOfferId,
    /// Immutable signed catalog revision.
    pub catalog_revision: String,
    /// Selected abstract profile.
    pub profile: SemanticProfile,
    /// Exact model revision resolved by that catalog.
    pub resolved_model: SemanticModelIdentity,
    /// Worker, runtime, and model disclosures.
    pub components: Vec<SemanticComponentDisclosure>,
    /// Whether embedding inference and semantic data remain on this device.
    pub embeddings_stay_local: bool,
    /// Stable local-only privacy disclosure.
    pub local_only_disclosure: String,
    /// Proposed semantic-data root.
    pub data_root: String,
    /// Free bytes reserved beyond installed-size estimates.
    pub minimum_free_space_reserve_bytes: u64,
}

impl SemanticInstallationOffer {
    /// The opaque identity of this disclosure.
    pub closed spec fn spec_id(&self) -> InstallationOfferId {
        self.id
    }

    /// The signed catalog revision.
    pub closed spec fn spec_catalog_revision(&self) -> Seq<char> {
        self.catalog_revision@
    }

    /// The selected profile.
    pub closed spec fn spec_profile(&self) -> SemanticProfile {
        self.profile
    }

    /// The resolved model identity.
    pub closed spec fn spec_resolved_model(&self) -> SemanticModelIdentity {
        self.resolved_model
    }

    /// The component disclosures.
    pub closed spec fn spec_components(&self) -> Seq<SemanticComponentDisclosure> {
        self.components@
    }

    /// Whether embeddings stay on this device.
    pub closed spec fn spec_embeddings_stay_local(&self) -> bool {
        self.embeddings_stay_local
    }

    /// The privacy disclosure.
    pub closed spec fn spec_local_only_disclosure(&self) -> Seq<char> {
        self.local_only_disclosure@
    }

    /// The proposed semantic-data root.
    pub closed spec fn spec_data_root(&self) -> Seq<char> {
        self.data_root@
    }

    /// The free-space reserve.
    pub closed spec fn spec_reserve_bytes(&self) -> u64 {
        self.minimum_free_space_reserve_bytes
    }

    /// Assembles a disclosure under the identity a capability issued for it.
    pub fn new(
        id: InstallationOfferId,
        catalog_revision: String,
        profile: SemanticProfile,
        resolved_model: SemanticModelIdentity,
        components: Vec<SemanticComponentDisclosure>,
        embeddings_stay_local: bool,
        local_only_disclosure: String,
        data_root: String,
        minimum_free_space_reserve_bytes: u64,
    ) -> (r: Self)
        ensures
            r.spec_id() == id,
            r.spec_catalog_revision() == catalog_revision@,
            r.spec_profile() == profile,
            r.spec_resolved_model() == resolved_model,
            r.spec_components() == components@,
            r.spec_embeddings_stay_local() == embeddings_stay_local,
            r.spec_local_only_disclosure() == local_only_disclosure@,
            r.spec_data_root() == data_root@,
            r.spec_reserve_bytes() == minimum_free_space_reserve_bytes,
    {
        Self {
            id,
            catalog_revision,
            profile,
            resolved_model,
            components,
            embeddings_stay_local,
            local_only_disclosure,
            data_root,
            minimum_free_space_reserve_bytes,
        }
    }

    /// Returns the opaque identity of this reviewed disclosure.
    pub fn id(&self) -> (r: &InstallationOfferId)
        ensures
            *r == self.spec_id(),
    {
        &self.id
    }

    /// Converts this reviewed disclosure into explicit installation consent.
    pub fn consent(self) -> (r: SemanticInstallationConsent)
        ensures
            r.spec_offer_id() == self.spec_id(),
    {
        SemanticInstallationConsent { offer_id: self.id }
    }
}

/// Proof that one previously returned installation offer was explicitly accepted.
#[derive(Debug, PartialEq, Eq)]
pub struct SemanticInstallationConsent {
    offer_id: InstallationOfferId,
}

impl Clone for SemanticInstallationConsent {
    fn clone(&self) -> (r: Self)
        ensures
            r == *self,
    {
        SemanticInstallationConsent { offer_id: self.offer_id.clone() }
    }
}

impl SemanticInstallationConsent {
    /// The accepted offer identity.
    pub closed spec fn spec_offer_id(&self) -> InstallationOfferId {
        self.offer_id
    }

    /// Records explicit acceptance of a previously displayed offer identity.
    /// Capabilities still reject identities that they did not issue.
    pub fn accept(offer_id: InstallationOfferId) -> (r: Self)
        ensures
            r.spec_offer_id() == offer_id,
    {
        Self { offer_id }
    }

    /// Returns the accepted offer identity.
    pub fn offer_id(&self) -> (r: &InstallationOfferId)
        ensures
            *r == self.spec_offer_id(),
    {
        &self.offer_id
    }
}

/// Successful install-or-enable result.
#[derive(Debug, Clone, PartialEq, Eq)]
pub struct SemanticInstallReceipt {
    /// Signed artifacts installed or verified as already installed.
    pub installed_artifact_ids: Vec<String>,
}

/// Request to apply the newest compatible signed worker patch.
#[derive(Debug, Clone, PartialEq, Eq)]
pub struct SemanticWorkerPatchRequest {
    /// Logical installed worker component.
    pub component_id: String,
}

/// Successful component uninstall.
#[derive(Debug, Clone, Copy, PartialEq, Eq, Structural)]
pub struct SemanticUninstallReceipt {
    /// Explicit decision applied to remaining index data.
    pub index_decision: SemanticIndexRetentionDecision,
    /// Active and rollback component records removed.
    pub removed_component_count: u64,
}

/// Expected or removed enrolment-derived records.
#[derive(Debug, Clone, Copy, PartialEq, Eq, Structural)]
pub struct SemanticIndexRecordCounts {
    /// Index records and enrolment metadata.
    pub index_records: u64,
    /// Extracted content files.
    pub extracted_files: u64,
    /// Zvec vectors.
    pub zvec_vectors: u64,
    /// Embedding-cache records.
    pub cache_entries: u64,
    /// Saved-conversation evidence records.
    pub conversation_evidence: u64,
}

/// Explicit request to remove every record derived from one enrolment.
#[derive(Debug, PartialEq, Eq)]
pub struct RemoveSemanticIndexRequest {
    /// Opaque enrolment identity.
    pub enrolment_id: String,
    /// Expected counts that must all be met.
    pub expected: SemanticIndexRecordCounts,
}

impl Clone for RemoveSemanticIndexRequest {
    fn clone(&self) -> (r: Self)
        ensures
            r == *self,
    {
        RemoveSemanticIndexRequest { enrolment_id: self.enrolment_id.clone(), expected: self.expected }
    }
}

/// Authoritative deletion inventory awaiting explicit confirmation.
#[derive(Debug, PartialEq, Eq)]
pub struct SemanticIndexRemovalPlan {
    id: SemanticIndexRemovalPlanId,
    /// Opaque enrolment identity.
    pub enrolment_id: String,
    /// Authoritative records that will be deleted in every category.
    pub expected: SemanticIndexRecordCounts,
}

impl Clone for SemanticIndexRemovalPlan {
    fn clone(&self) -> (r: Self)
        ensures
            r == *self,
    {
        SemanticIndexRemovalPlan {
            id: self.id.clone(),
            enrolment_id: self.enrolment_id.clone(),
            expected: self.expected,
        }
    }
}

impl SemanticIndexRemovalPlan {
    /// The opaque confirmation identity.
    pub closed spec fn spec_id(&self) -> SemanticIndexRemovalPlanId {
        self.id
    }

    /// The enrolment whose records the plan removes.
    pub closed spec fn spec_enrolment_id(&self) -> Seq<char> {
        self.enrolment_id@
    }

    /// The authoritative counts the plan removes.
    pub closed spec fn spec_expected(&self) -> SemanticIndexRecordCounts {
        self.expected
    }

    /// Assembles a plan under the identity a capability issued for it.
    pub fn new(
        id: SemanticIndexRemovalPlanId,
        enrolment_id: String,
        expected: SemanticIndexRecordCounts,
    ) -> (r: Self)
        ensures
            r.spec_id() == id,
            r.spec_enrolment_id() == enrolment_id@,
            r.spec_expected() == expected,
    {
        Self { id, enrolment_id, expected }
    }

    /// Returns the opaque confirmation identity.
    pub fn id(&self) -> (r: &SemanticIndexRemovalPlanId)
        ensures
            *r == self.spec_id(),
    {
        &self.id
    }

    /// Confirms this exact authoritative inventory.
    pub fn confirm(self) -> (r: SemanticIndexRemovalConfirmation)
        ensures
            r.spec_plan_id() == self.spec_id(),
    {
        SemanticIndexRemovalConfirmation { plan_id: self.id }
    }
}

/// Proof of consent to one live authoritative index-removal plan.
#[derive(Debug, PartialEq, Eq)]
pub struct SemanticIndexRemovalConfirmation {
    plan_id: SemanticIndexRemovalPlanId,
}

impl Clone for SemanticIndexRemovalConfirmation {
    fn clone(&self) -> (r: Self)
        ensures
            r == *self,
    {
        SemanticIndexRemovalConfirmation { plan_id: self.plan_id.clone() }
    }
}

impl SemanticIndexRemovalConfirmation {
    /// The confirmed plan identity.
    pub closed spec fn spec_plan_id(&self) -> SemanticIndexRemovalPlanId {
        self.plan_id
    }

    /// Reconstructs explicit confirmation of a previously returned plan.
    pub fn confirm(plan_id: SemanticIndexRemovalPlanId) -> (r: Self)
        ensures
            r.spec_plan_id() == plan_id,
    {
        Self { plan_id }
    }

    /// Returns the confirmed plan identity.
    pub fn plan_id(&self) -> (r: &SemanticIndexRemovalPlanId)
        ensures
            *r == self.spec_plan_id(),
    {
        &self.plan_id
    }
}

/// Verified enrolment-derived data removal.
#[derive(Debug, PartialEq, Eq)]
pub struct SemanticIndexRemovalReceipt {
    /// Opaque removed enrolment identity.
    pub enrolment_id: String,
    /// Actual records removed by category.
    pub deleted: SemanticIndexRecordCounts,
    /// Always true for a successful removal.
    pub conversation_evidence_deleted: bool,
}

/// Successful verified semantic-data root move.
#[derive(Debug, PartialEq, Eq)]
pub struct SemanticDataMoveReceipt {
    /// Retained source root.
    pub source: String,
    /// New active root.
    pub destination: String,
    /// Files independently verified.
    pub verified_file_count: u64,
    /// Bytes independently verified.
    pub verified_bytes: u64,
}

/// Raw expert-mode metadata for a local model file.
#[derive(Debug, Clone, PartialEq, Eq)]
pub struct SemanticLocalModelImportRequest {
    /// Existing local model package.
    pub source_path: String,
    /// Opaque model identifier.
    pub model_id: String,
    /// Exact immutable upstream revision.
    pub upstream_revision: String,
    /// SPDX license expression.
    pub license_spdx: String,
    /// Human-readable license notice.
    pub license_notice: String,
    /// Exact tokenizer identifier.
    pub tokenizer: String,
    /// Embedding dimensions.
    pub dimensions: u32,
    /// Required normalization metadata.
    pub normalization: Option<SemanticEmbeddingNormalization>,
    /// Required logical runtime component.
    pub runtime_component_id: String,
    /// Accepted runtime semantic versions.
    pub runtime_version_requirement: String,
    /// Declared language coverage.
    pub language_coverage: Vec<String>,
    /// Estimated installed disk bytes.
    pub estimated_disk_bytes: u64,
    /// Estimated peak RAM bytes.
    pub estimated_ram_bytes: u64,
}

/// Confirmation-gated model migration plan.
#[derive(Debug, PartialEq, Eq)]
pub struct SemanticModelMigrationPlan {
    id: SemanticModelMigrationId,
    /// Current selection captured by the plan.
    pub from: Option<SemanticModelSelection>,
    /// Exact target selection.
    pub target: SemanticModelSelection,
    /// Estimated full-reindex work.
    pub estimate: SemanticReindexEstimate,
    /// Why full reindexing is mandatory.
    pub reason: SemanticModelMigrationReason,
}

impl Clone for SemanticModelMigrationPlan {
    fn clone(&self) -> (r: Self)
        ensures
            r == *self,
    {
        SemanticModelMigrationPlan {
            id: self.id.clone(),
            from: clone_option_selection(&self.from),
            target: self.target.clone(),
            estimate: self.estimate,
            reason: self.reason,
        }
    }
}

impl SemanticModelMigrationPlan {
    /// The opaque plan identity.
    pub closed spec fn spec_id(&self) -> SemanticModelMigrationId {
        self.id
    }

    /// The selection captured when the plan was made.
    pub closed spec fn spec_from(&self) -> Option<SemanticModelSelection> {
        self.from
    }

    /// The exact target selection.
    pub closed spec fn spec_target(&self) -> SemanticModelSelection {
        self.target
    }

    /// The estimated full-reindex work.
    pub closed spec fn spec_estimate(&self) -> SemanticReindexEstimate {
        self.estimate
    }

    /// Why full reindexing is mandatory.
    pub closed spec fn spec_reason(&self) -> SemanticModelMigrationReason {
        self.reason
    }

    /// Assembles a plan under the identity a capability issued for it.
    pub fn new(
        id: SemanticModelMigrationId,
        from: Option<SemanticModelSelection>,
        target: SemanticModelSelection,
        estimate: SemanticReindexEstimate,
        reason: SemanticModelMigrationReason,
    ) -> (r: Self)
        ensures
            r.spec_id() == id,
            r.spec_from() == from,
            r.spec_target() == target,
            r.spec_estimate() == estimate,
            r.spec_reason() == reason,
    {
        Self { id, from, target, estimate, reason }
    }

    /// Returns the opaque plan identity.
    pub fn id(&self) -> (r: &SemanticModelMigrationId)
        ensures
            *r == self.spec_id(),
    {
        &self.id
    }

    /// Reports that activation requires explicit confirmation.
    pub fn requires_confirmation(&self) -> (r: bool)
        ensures
            r,
    {
        true
    }

    /// Reports that all embeddings must be rebuilt.
    pub fn is_full_reindex(&self) -> (r: bool)
        ensures
            r,
    {
        true
    }

    /// Reports that durable checkpoints can resume the work.
    pub fn is_resumable(&self) -> (r: bool)
        ensures
            r,
    {
        true
    }

    /// Converts this reviewed plan into explicit confirmation.
    pub fn confirm(self) -> (r: SemanticModelMigrationConfirmation)
        ensures
            r.spec_migration_id() == self.spec_id(),
    {
        SemanticModelMigrationConfirmation { migration_id: self.id }
    }
}

/// Proof that one returned migration plan was explicitly confirmed.
#[derive(Debug, PartialEq, Eq)]
pub struct SemanticModelMigrationConfirmation {
    migration_id: SemanticModelMigrationId,
}

impl Clone for SemanticModelMigrationConfirmation {
    fn clone(&self) -> (r: Self)
        ensures
            r == *self,
    {
        SemanticModelMigrationConfirmation { migration_id: self.migration_id.clone() }
    }
}

impl SemanticModelMigrationConfirmation {
    /// The confirmed migration identity.
    pub closed spec fn spec_migration_id(&self) -> SemanticModelMigrationId {
        self.migration_id
    }

    /// Records explicit confirmation of a previously displayed plan identity.
    /// Capabilities reject identities that do not refer to one of their live plans.
    pub fn confirm(migration_id: SemanticModelMigrationId) -> (r: Self)
        ensures
            r.spec_migration_id() == migration_id,
    {
        Self { migration_id }
    }

    /// Returns the confirmed migration identity.
    pub fn migration_id(&self) -> (r: &SemanticModelMigrationId)
        ensures
            *r == self.spec_migration_id(),
    {
        &self.migration_id
    }
}

/// Durable full-reindex checkpoint.
#[derive(Debug, PartialEq, Eq)]
pub struct SemanticModelMigrationCheckpoint {
    /// Migration being advanced.
    pub migration_id: SemanticModelMigrationId,
    /// Completely reindexed documents.
    pub completed_documents: u64,
    /// Opaque resume cursor.
    pub resume_cursor: Option<String>,
}

impl Clone for SemanticModelMigrationCheckpoint {
    fn clone(&self) -> (r: Self)
        ensures
            r == *self,
    {
        SemanticModelMigrationCheckpoint {
            migration_id: self.migration_id.clone(),
            completed_documents: self.completed_documents,
            resume_cursor: clone_option_string(&self.resume_cursor),
        }
    }
}

/// Failure returned by a host-owned enrolment data remover.
#[derive(Debug, PartialEq, Eq)]
pub struct SemanticIndexRemovalError {
    message: String,
}

impl Clone for SemanticIndexRemovalError {
    fn clone(&self) -> (r: Self)
        ensures
            r == *self,
    {
        SemanticIndexRemovalError { message: self.message.clone() }
    }
}

impl SemanticIndexRemovalError {
    /// The diagnostic text.
    pub closed spec fn spec_message(&self) -> Seq<char> {
        self.message@
    }

    /// Creates an index-removal diagnostic.
    pub fn new(message: String) -> (r: Self)
        ensures
            r.spec_message() == message@,
    {
        Self { message }
    }

    /// Returns the diagnostic text.
    pub fn message(&self) -> (r: &str)
        ensures
            r@ == self.spec_message(),
    {
        self.message.as_str()
    }

    /// The rendered failure: `enrolment-derived data removal failed: ` and the diagnostic.
    pub fn to_text(&self) -> (r: String)
        ensures
            r@ == "enrolment-derived data removal failed: "@ + self.spec_message(),
    {
        let mut out = String::from_str("enrolment-derived data removal failed: ");
        out.append(self.message.as_str());
        out
    }
}

} // verus!
