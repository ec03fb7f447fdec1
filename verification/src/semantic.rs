//! Optional semantic capability boundary: scoped ingestion, queries, jobs
//! and progress events, the failures a worker reports, and a deterministic
//! in-memory capability for mock mode and tests.

use vstd::prelude::*;

use crate::text::{
    contains_sub, decimal, lowercase, lemma_text_less_total, lemma_text_less_transitive,
    push_decimal, same_text, text_contains, text_less, text_lt, to_lowercase,
};

verus! {

/// Health of the optional semantic worker.
#[derive(Debug, Clone, Copy, PartialEq, Eq, Structural)]
pub enum SemanticHealth {
    /// Ready to accept work.
    Serving,
    /// Alive but temporarily degraded.
    Degraded,
    /// Finishing active work before shutdown.
    Draining,
}

/// Actionable failures from the optional semantic capability.
#[derive(Debug, PartialEq, Eq)]
pub enum SemanticError {
    /// No semantic capability was configured, or its worker cannot be reached.
    Unavailable,
    /// The worker rejected the session secret.
    AuthenticationRejected,
    /// The configured worker authentication material is invalid.
    AuthenticationConfiguration,
    /// The host application must be updated for protocol compatibility.
    ClientUpdateRequired(String),
    /// The semantic worker must be updated for protocol compatibility.
    WorkerUpdateRequired(String),
    /// A negotiated resource limit was exceeded.
    LimitExceeded(String),
    /// A semantic request exceeded its deadline.
    DeadlineExceeded(String),
    /// The semantic operation was cancelled.
    Cancelled,
    /// Other clients are still using the shared worker.
    ShutdownBlocked {
        /// Number of other clients that must disconnect before retrying.
        remaining_clients: u32,
    },
    /// The caller supplied an invalid or unknown semantic request.
    InvalidRequest(String),
    /// The worker reported an operation failure.
    WorkerFailure(String),
    /// The worker violated the negotiated protocol.
    ProtocolViolation,
}

impl Clone for SemanticError {
    fn clone(&self) -> (r: Self)
        ensures
            r == *self,
    {
        match self {
            SemanticError::Unavailable => SemanticError::Unavailable,
            SemanticError::AuthenticationRejected => SemanticError::AuthenticationRejected,
            SemanticError::AuthenticationConfiguration => SemanticError::AuthenticationConfiguration,
            SemanticError::ClientUpdateRequired(m) => SemanticError::ClientUpdateRequired(m.clone()),
            SemanticError::WorkerUpdateRequired(m) => SemanticError::WorkerUpdateRequired(m.clone()),
            SemanticError::LimitExceeded(m) => SemanticError::LimitExceeded(m.clone()),
            SemanticError::DeadlineExceeded(m) => SemanticError::DeadlineExceeded(m.clone()),
            SemanticError::Cancelled => SemanticError::Cancelled,
            SemanticError::ShutdownBlocked { remaining_clients } => SemanticError::ShutdownBlocked {
                remaining_clients: *remaining_clients,
            },
            SemanticError::InvalidRequest(m) => SemanticError::InvalidRequest(m.clone()),
            SemanticError::WorkerFailure(m) => SemanticError::WorkerFailure(m.clone()),
            SemanticError::ProtocolViolation => SemanticError::ProtocolViolation,
        }
    }
}

/// The user-facing text of a semantic failure.
pub open spec fn semantic_error_text(e: SemanticError) -> Seq<char> {
    match e {
        SemanticError::Unavailable => "semantic capability is unavailable"@,
        SemanticError::AuthenticationRejected => "semantic worker authentication was rejected"@,
        SemanticError::AuthenticationConfiguration =>
            "semantic worker authentication is misconfigured"@,
        SemanticError::ClientUpdateRequired(m) => "semantic client update required: "@ + m@,
        SemanticError::WorkerUpdateRequired(m) => "semantic worker update required: "@ + m@,
        SemanticError::LimitExceeded(m) => "semantic resource limit exceeded: "@ + m@,
        SemanticError::DeadlineExceeded(m) => "semantic request deadline exceeded: "@ + m@,
        SemanticError::Cancelled => "semantic operation was cancelled"@,
        SemanticError::ShutdownBlocked { remaining_clients } => "semantic worker shutdown requires "@
            + decimal(remaining_clients as nat) + " other client(s) to disconnect"@,
        SemanticError::InvalidRequest(m) => "invalid semantic request: "@ + m@,
        SemanticError::WorkerFailure(m) => "semantic worker failed: "@ + m@,
        SemanticError::ProtocolViolation => "semantic worker returned an invalid protocol response"@,
    }
}

/// A text that starts with `prefix` and ends with `rest`.
fn joined(prefix: &str, rest: &str) -> (r: String)
    ensures
        r@ == prefix@ + rest@,
{
    let mut out = String::from_str(prefix);
    out.append(rest);
    out
}

impl SemanticError {
    /// The user-facing text of this failure.
    pub fn message(&self) -> (r: String)
        ensures
            r@ == semantic_error_text(*self),
    {
        match self {
            SemanticError::Unavailable => String::from_str("semantic capability is unavailable"),
            SemanticError::AuthenticationRejected => String::from_str(
                "semantic worker authentication was rejected",
            ),
            SemanticError::AuthenticationConfiguration => String::from_str(
                "semantic worker authentication is misconfigured",
            ),
            SemanticError::ClientUpdateRequired(m) => joined(
                "semantic client update required: ",
                m.as_str(),
            ),
            SemanticError::WorkerUpdateRequired(m) => joined(
                "semantic worker update required: ",
                m.as_str(),
            ),
            SemanticError::LimitExceeded(m) => joined(
                "semantic resource limit exceeded: ",
                m.as_str(),
            ),
            SemanticError::DeadlineExceeded(m) => joined(
                "semantic request deadline exceeded: ",
                m.as_str(),
            ),
            SemanticError::Cancelled => String::from_str("semantic operation was cancelled"),
            SemanticError::ShutdownBlocked { remaining_clients } => {
                let mut out = String::from_str("semantic worker shutdown requires ");
                push_decimal(&mut out, *remaining_clients as u64);
                out.append(" other client(s) to disconnect");
                out
            },
            SemanticError::InvalidRequest(m) => joined("invalid semantic request: ", m.as_str()),
            SemanticError::WorkerFailure(m) => joined("semantic worker failed: ", m.as_str()),
            SemanticError::ProtocolViolation => String::from_str(
                "semantic worker returned an invalid protocol response",
            ),
        }
    }
}

/// Error code a worker attaches to a remote failure.
#[derive(Debug, Clone, Copy, PartialEq, Eq, Structural)]
pub enum SemanticRemoteErrorCode {
    /// No code was set.
    Unspecified,
    /// The session secret was rejected.
    Unauthenticated,
    /// A resource limit was exceeded.
    LimitExceeded,
    /// A deadline was exceeded.
    DeadlineExceeded,
    /// The request was invalid.
    InvalidRequest,
    /// The client must be updated.
    ClientUpdateRequired,
    /// The worker must be updated.
    WorkerUpdateRequired,
    /// The operation was cancelled.
    Cancelled,
    /// The worker is unavailable.
    Unavailable,
    /// The worker failed internally.
    Internal,
}

/// The failure a remote error code and message stand for.
pub open spec fn remote_error(code: SemanticRemoteErrorCode, message: String) -> SemanticError {
    match code {
        SemanticRemoteErrorCode::Unspecified => SemanticError::ProtocolViolation,
        SemanticRemoteErrorCode::Unauthenticated => SemanticError::AuthenticationRejected,
        SemanticRemoteErrorCode::LimitExceeded => SemanticError::LimitExceeded(message),
        SemanticRemoteErrorCode::DeadlineExceeded => SemanticError::DeadlineExceeded(message),
        SemanticRemoteErrorCode::InvalidRequest => SemanticError::InvalidRequest(message),
        SemanticRemoteErrorCode::ClientUpdateRequired => SemanticError::ClientUpdateRequired(message),
        SemanticRemoteErrorCode::WorkerUpdateRequired => SemanticError::WorkerUpdateRequired(message),
        SemanticRemoteErrorCode::Cancelled => SemanticError::Cancelled,
        SemanticRemoteErrorCode::Unavailable => SemanticError::Unavailable,
        SemanticRemoteErrorCode::Internal => SemanticError::WorkerFailure(message),
    }
}

/// Maps a worker's remote failure to a semantic failure, keeping its
/// message where the failure carries one.
pub fn map_remote_error(code: SemanticRemoteErrorCode, message: String) -> (r: SemanticError)
    ensures
        r == remote_error(code, message),
{
    match code {
        SemanticRemoteErrorCode::Unspecified => SemanticError::ProtocolViolation,
        SemanticRemoteErrorCode::Unauthenticated => SemanticError::AuthenticationRejected,
        SemanticRemoteErrorCode::LimitExceeded => SemanticError::LimitExceeded(message),
        SemanticRemoteErrorCode::DeadlineExceeded => SemanticError::DeadlineExceeded(message),
        SemanticRemoteErrorCode::InvalidRequest => SemanticError::InvalidRequest(message),
        SemanticRemoteErrorCode::ClientUpdateRequired => SemanticError::ClientUpdateRequired(message),
        SemanticRemoteErrorCode::WorkerUpdateRequired => SemanticError::WorkerUpdateRequired(message),
        SemanticRemoteErrorCode::Cancelled => SemanticError::Cancelled,
        SemanticRemoteErrorCode::Unavailable => SemanticError::Unavailable,
        SemanticRemoteErrorCode::Internal => SemanticError::WorkerFailure(message),
    }
}

/// How a worker client call failed, as far as the mapping to semantic
/// failures reads it.
#[derive(Debug)]
pub enum WorkerClientFailure {
    /// Transport I/O failed.
    Io,
    /// Frame I/O failed.
    FrameIo,
    /// A frame exceeded the size limit.
    FrameTooLarge,
    /// A frame could not be decoded.
    FrameDecode,
    /// The worker rejected the session secret.
    Unauthenticated,
    /// The worker is incompatible with this client.
    Incompatible {
        /// Compatibility code.
        code: SemanticRemoteErrorCode,
        /// Worker diagnostic.
        message: String,
    },
    /// The worker reported a failure.
    Remote {
        /// Failure code.
        code: SemanticRemoteErrorCode,
        /// Worker diagnostic.
        message: String,
    },
    /// The connection dropped.
    Disconnected,
    /// The worker answered with an unexpected response.
    UnexpectedResponse,
    /// Other clients still use the worker.
    ShutdownBlocked {
        /// Clients that must disconnect first.
        remaining_clients: u32,
    },
    /// The worker does not implement an optional capability.
    CapabilityUnavailable,
    /// The endpoint is not secure.
    InsecureEndpoint,
    /// The negotiated limits are invalid.
    InvalidNegotiatedLimits,
    /// The negotiated version is invalid.
    InvalidNegotiatedVersion,
    /// The secret file is invalid.
    InvalidSecretFile,
    /// The developer model pack is invalid.
    InvalidDeveloperModelPack(String),
    /// The managed components are invalid.
    InvalidManagedComponents(String),
    /// The worker did not stop in time.
    ShutdownTimedOut,
}

/// Whether `e` is the semantic failure that the worker client failure `f`
/// stands for.
pub open spec fn client_failure_maps_to(f: WorkerClientFailure, e: SemanticError) -> bool {
    match f {
        WorkerClientFailure::Io => e == SemanticError::Unavailable,
        WorkerClientFailure::FrameIo => e == SemanticError::Unavailable,
        WorkerClientFailure::FrameTooLarge => e matches SemanticError::LimitExceeded(m) && m@
            == "semantic message exceeds size limit"@,
        WorkerClientFailure::FrameDecode => e == SemanticError::ProtocolViolation,
        WorkerClientFailure::Unauthenticated => e == SemanticError::AuthenticationRejected,
        WorkerClientFailure::Incompatible { code, message } => e == match code {
            SemanticRemoteErrorCode::ClientUpdateRequired => SemanticError::ClientUpdateRequired(message),
            SemanticRemoteErrorCode::WorkerUpdateRequired => SemanticError::WorkerUpdateRequired(message),
            _ => SemanticError::ProtocolViolation,
        },
        WorkerClientFailure::Remote { code, message } => e == remote_error(code, message),
        WorkerClientFailure::Disconnected => e == SemanticError::Unavailable,
        WorkerClientFailure::UnexpectedResponse => e == SemanticError::ProtocolViolation,
        WorkerClientFailure::ShutdownBlocked { remaining_clients } => e
            == SemanticError::ShutdownBlocked { remaining_clients },
        WorkerClientFailure::CapabilityUnavailable => e == SemanticError::Unavailable,
        WorkerClientFailure::InsecureEndpoint => e == SemanticError::AuthenticationConfiguration,
        WorkerClientFailure::InvalidNegotiatedLimits => e == SemanticError::ProtocolViolation,
        WorkerClientFailure::InvalidNegotiatedVersion => e == SemanticError::ProtocolViolation,
        WorkerClientFailure::InvalidSecretFile => e == SemanticError::AuthenticationConfiguration,
        WorkerClientFailure::InvalidDeveloperModelPack(m) => e == SemanticError::WorkerFailure(m),
        WorkerClientFailure::InvalidManagedComponents(m) => e == SemanticError::WorkerFailure(m),
        WorkerClientFailure::ShutdownTimedOut => e matches SemanticError::WorkerFailure(m) && m@
            == "worker did not stop within the shutdown deadline"@,
    }
}

impl SemanticError {
    /// Maps a worker client failure: transport loss and missing optional
    /// capabilities are unavailability, malformed exchanges are protocol
    /// violations, and worker diagnostics are kept.
    pub fn from_client_failure(f: WorkerClientFailure) -> (r: SemanticError)
        ensures
            client_failure_maps_to(f, r),
    {
        match f {
            WorkerClientFailure::Io => SemanticError::Unavailable,
            WorkerClientFailure::FrameIo => SemanticError::Unavailable,
            WorkerClientFailure::FrameTooLarge => SemanticError::LimitExceeded(
                String::from_str("semantic message exceeds size limit"),
            ),
            WorkerClientFailure::FrameDecode => SemanticError::ProtocolViolation,
            WorkerClientFailure::Unauthenticated => SemanticError::AuthenticationRejected,
            WorkerClientFailure::Incompatible { code, message } => match code {
                SemanticRemoteErrorCode::ClientUpdateRequired => SemanticError::ClientUpdateRequired(
                    message,
                ),
                SemanticRemoteErrorCode::WorkerUpdateRequired => SemanticError::WorkerUpdateRequired(
                    message,
                ),
                _ => SemanticError::ProtocolViolation,
            },
            WorkerClientFailure::Remote { code, message } => map_remote_error(code, message),
            WorkerClientFailure::Disconnected => SemanticError::Unavailable,
            WorkerClientFailure::UnexpectedResponse => SemanticError::ProtocolViolation,
            WorkerClientFailure::ShutdownBlocked { remaining_clients } =>
                SemanticError::ShutdownBlocked { remaining_clients },
            WorkerClientFailure::CapabilityUnavailable => SemanticError::Unavailable,
            WorkerClientFailure::InsecureEndpoint => SemanticError::AuthenticationConfiguration,
            WorkerClientFailure::InvalidNegotiatedLimits => SemanticError::ProtocolViolation,
            WorkerClientFailure::InvalidNegotiatedVersion => SemanticError::ProtocolViolation,
            WorkerClientFailure::InvalidSecretFile => SemanticError::AuthenticationConfiguration,
            WorkerClientFailure::InvalidDeveloperModelPack(m) => SemanticError::WorkerFailure(m),
            WorkerClientFailure::InvalidManagedComponents(m) => SemanticError::WorkerFailure(m),
            WorkerClientFailure::ShutdownTimedOut => SemanticError::WorkerFailure(
                String::from_str("worker did not stop within the shutdown deadline"),
            ),
        }
    }
}

/// Opaque tenant identifier.
#[derive(Debug, PartialEq, Eq, PartialOrd, Ord, Hash)]
pub struct TenantId(String);

impl View for TenantId {
    type V = Seq<char>;

    closed spec fn view(&self) -> Seq<char> {
        self.0@
    }
}

impl Clone for TenantId {
    fn clone(&self) -> (r: Self)
        ensures
            r == *self,
    {
        TenantId(self.0.clone())
    }
}

impl TenantId {
    /// Creates an identifier without interpreting its contents.
    pub fn new(value: String) -> (r: Self)
        ensures
            r@ == value@,
    {
        TenantId(value)
    }

    /// Returns the opaque identifier value.
    pub fn as_str(&self) -> (r: &str)
        ensures
            r@ == self@,
    {
        self.0.as_str()
    }
}

/// Opaque library identifier within a tenant.
#[derive(Debug, PartialEq, Eq, PartialOrd, Ord, Hash)]
pub struct LibraryId(String);

impl View for LibraryId {
    type V = Seq<char>;

    closed spec fn view(&self) -> Seq<char> {
        self.0@
    }
}

impl Clone for LibraryId {
    fn clone(&self) -> (r: Self)
        ensures
            r == *self,
    {
        LibraryId(self.0.clone())
    }
}

impl LibraryId {
    /// Creates an identifier without interpreting its contents.
    pub fn new(value: String) -> (r: Self)
        ensures
            r@ == value@,
    {
        LibraryId(value)
    }

    /// Returns the opaque identifier value.
    pub fn as_str(&self) -> (r: &str)
        ensures
            r@ == self@,
    {
        self.0.as_str()
    }
}

/// Opaque document identifier within a library.
#[derive(Debug, PartialEq, Eq, PartialOrd, Ord, Hash)]
pub struct DocumentId(String);

impl View for DocumentId {
    type V = Seq<char>;

    closed spec fn view(&self) -> Seq<char> {
        self.0@
    }
}

impl Clone for DocumentId {
    fn clone(&self) -> (r: Self)
        ensures
            r == *self,
    {
        DocumentId(self.0.clone())
    }
}

impl DocumentId {
    /// Creates an identifier without interpreting its contents.
    pub fn new(value: String) -> (r: Self)
        ensures
            r@ == value@,
    {
        DocumentId(value)
    }

    /// Returns the opaque identifier value.
    pub fn as_str(&self) -> (r: &str)
        ensures
            r@ == self@,
    {
        self.0.as_str()
    }
}

/// Opaque semantic request or operation identifier.
#[derive(Debug, PartialEq, Eq, PartialOrd, Ord, Hash)]
pub struct SemanticOperationId(String);

impl View for SemanticOperationId {
    type V = Seq<char>;

    closed spec fn view(&self) -> Seq<char> {
        self.0@
    }
}

impl Clone for SemanticOperationId {
    fn clone(&self) -> (r: Self)
        ensures
            r == *self,
    {
        SemanticOperationId(self.0.clone())
    }
}

impl SemanticOperationId {
    /// Creates an identifier without interpreting its contents.
    pub fn new(value: String) -> (r: Self)
        ensures
            r@ == value@,
    {
        SemanticOperationId(value)
    }

    /// Returns the opaque identifier value.
    pub fn as_str(&self) -> (r: &str)
        ensures
            r@ == self@,
    {
        self.0.as_str()
    }
}

/// Opaque ingestion job identifier.
#[derive(Debug, PartialEq, Eq, PartialOrd, Ord, Hash)]
pub struct SemanticJobId(String);

impl View for SemanticJobId {
    type V = Seq<char>;

    closed spec fn view(&self) -> Seq<char> {
        self.0@
    }
}

impl Clone for SemanticJobId {
    fn clone(&self) -> (r: Self)
        ensures
            r == *self,
    {
        SemanticJobId(self.0.clone())
    }
}

impl SemanticJobId {
    /// Creates an identifier without interpreting its contents.
    pub fn new(value: String) -> (r: Self)
        ensures
            r@ == value@,
    {
        SemanticJobId(value)
    }

    /// Returns the opaque identifier value.
    pub fn as_str(&self) -> (r: &str)
        ensures
            r@ == self@,
    {
        self.0.as_str()
    }
}

/// Tenant and library ownership of a semantic operation.
#[derive(Debug, PartialEq, Eq, PartialOrd, Ord, Hash)]
pub struct SemanticScope {
    /// Tenant owning the operation.
    pub tenant_id: TenantId,
    /// Library within the tenant.
    pub library_id: LibraryId,
}

/// The texts that identify a scope: its tenant, then its library.
pub open spec fn scope_key(s: SemanticScope) -> (Seq<char>, Seq<char>) {
    (s.tenant_id@, s.library_id@)
}

impl Clone for SemanticScope {
    fn clone(&self) -> (r: Self)
        ensures
            r == *self,
    {
        SemanticScope { tenant_id: self.tenant_id.clone(), library_id: self.library_id.clone() }
    }
}

impl SemanticScope {
    /// Creates a tenant/library scope.
    pub fn new(tenant_id: TenantId, library_id: LibraryId) -> (r: Self)
        ensures
            r.tenant_id@ == tenant_id@,
            r.library_id@ == library_id@,
    {
        SemanticScope { tenant_id, library_id }
    }

    /// Whether two scopes name the same tenant and library.
    pub fn same_as(&self, other: &Self) -> (r: bool)
        ensures
            r == (scope_key(*self) == scope_key(*other)),
    {
        same_text(self.tenant_id.as_str(), other.tenant_id.as_str()) && same_text(
            self.library_id.as_str(),
            other.library_id.as_str(),
        )
    }
}

/// One provider-neutral document to ingest.
#[derive(Debug)]
pub struct DocumentIngestion {
    /// Tenant and library owning the document.
    pub scope: SemanticScope,
    /// Opaque identifier used for correlation and cancellation.
    pub operation_id: SemanticOperationId,
    /// Opaque document identifier.
    pub document_id: DocumentId,
    /// Structured metadata stored with the document, one entry per key.
    pub metadata: Vec<(String, String)>,
    /// IANA media type of the byte stream.
    pub media_type: String,
    /// Provider-supplied document bytes.
    pub content: Vec<u8>,
}

/// One scoped semantic query.
#[derive(Debug)]
pub struct SemanticQuery {
    /// Tenant and library to search.
    pub scope: SemanticScope,
    /// Opaque identifier used for correlation and cancellation.
    pub request_id: SemanticOperationId,
    /// Query text interpreted by the capability.
    pub text: String,
    /// Optional stable concept-folder query over published annotations.
    pub concept: Option<SemanticConceptQuery>,
    /// Maximum number of results to return.
    pub maximum_results: u32,
}

/// Pre-authorized and hierarchy-expanded concept query.
#[derive(Debug)]
pub struct SemanticConceptQuery {
    /// Attached vocabulary identity.
    pub vocabulary_id: String,
    /// Stable selected and expanded concept URIs.
    pub concept_uris: Vec<String>,
    /// Optional enrolled-root filter.
    pub root_id: Option<String>,
    /// Optional workspace filter.
    pub workspace_id: Option<String>,
    /// Include unavailable sources for honest stale browsing.
    pub include_unavailable: bool,
    /// Stable paging offset.
    pub offset: u64,
}

/// One provider-neutral semantic query result.
#[derive(Debug)]
pub struct SemanticSearchResult {
    /// Opaque document identifier.
    pub document_id: DocumentId,
    /// Capability-assigned relevance score, as the bits of an `f64`.
    pub score_bits: u64,
    /// Structured document metadata.
    pub metadata: Vec<(String, String)>,
    /// Bounded matching excerpt.
    pub excerpt: String,
}

/// Lifecycle state of an ingestion job.
#[derive(Debug, Clone, Copy, PartialEq, Eq, Structural)]
pub enum SemanticIngestionState {
    /// Waiting for execution.
    Pending,
    /// Currently executing.
    Running,
    /// Finished successfully.
    Completed,
    /// Finished with an error.
    Failed,
    /// Cancelled before completion.
    Cancelled,
    /// Intentionally excluded from the derived index.
    Skipped,
}

/// Current state of one scoped ingestion job.
#[derive(Debug)]
pub struct SemanticIngestionJob {
    /// Opaque job identifier.
    pub job_id: SemanticJobId,
    /// Opaque document identifier.
    pub document_id: DocumentId,
    /// Current lifecycle state.
    pub state: SemanticIngestionState,
    /// Sanitized failure or exclusion detail, when present.
    pub detail: Option<String>,
}

impl Clone for SemanticIngestionJob {
    fn clone(&self) -> (r: Self)
        ensures
            r == *self,
    {
        SemanticIngestionJob {
            job_id: self.job_id.clone(),
            document_id: self.document_id.clone(),
            state: self.state,
            detail: match &self.detail {
                Some(d) => Some(d.clone()),
                None => None,
            },
        }
    }
}

/// One scoped semantic progress event.
#[derive(Debug)]
pub struct SemanticProgressEvent {
    /// Opaque operation or job identifier.
    pub operation_id: SemanticOperationId,
    /// Stable machine-readable phase.
    pub phase: String,
}

/* ------------------------------------------------------------------------ */
/*  Ordering of scoped keys                                                 */
/* ------------------------------------------------------------------------ */

/// A key within a scope: tenant, library, then the scoped identifier.
pub type ScopedKey = (Seq<char>, Seq<char>, Seq<char>);

/// Strict order of scoped keys: by tenant, then library, then identifier.
pub open spec fn key_less(a: ScopedKey, b: ScopedKey) -> bool {
    ||| text_less(a.0, b.0)
    ||| (a.0 == b.0 && text_less(a.1, b.1))
    ||| (a.0 == b.0 && a.1 == b.1 && text_less(a.2, b.2))
}

proof fn lemma_key_less_transitive(a: ScopedKey, b: ScopedKey, c: ScopedKey)
    requires
        key_less(a, b),
        key_less(b, c),
    ensures
        key_less(a, c),
{
    if text_less(a.0, b.0) && text_less(b.0, c.0) {
        lemma_text_less_transitive(a.0, b.0, c.0);
    }
    if a.0 == b.0 && b.0 == c.0 {
        if text_less(a.1, b.1) && text_less(b.1, c.1) {
            lemma_text_less_transitive(a.1, b.1, c.1);
        }
        if a.1 == b.1 && b.1 == c.1 && text_less(a.2, b.2) && text_less(b.2, c.2) {
            lemma_text_less_transitive(a.2, b.2, c.2);
        }
    }
}

proof fn lemma_key_less_total(a: ScopedKey, b: ScopedKey)
    ensures
        a == b || key_less(a, b) || key_less(b, a),
{
    lemma_text_less_total(a.0, b.0);
    lemma_text_less_total(a.1, b.1);
    lemma_text_less_total(a.2, b.2);
}

/// Compares two scoped keys given by their texts.
fn key_lt(t1: &str, l1: &str, i1: &str, t2: &str, l2: &str, i2: &str) -> (r: bool)
    ensures
        r == key_less((t1@, l1@, i1@), (t2@, l2@, i2@)),
{
    if text_lt(t1, t2) {
        return true;
    }
    if !same_text(t1, t2) {
        return false;
    }
    if text_lt(l1, l2) {
        return true;
    }
    if !same_text(l1, l2) {
        return false;
    }
    text_lt(i1, i2)
}

/// Whether a worker client failure leaves the cached connection unusable,
/// so that the next operation connects afresh: transport and frame I/O,
/// undecodable frames, rejected authentication, a dropped connection and an
/// unexpected response do.
pub fn connection_is_unusable(f: &WorkerClientFailure) -> (r: bool)
    ensures
        r == (f is Io || f is FrameIo || f is FrameDecode || f is Unauthenticated || f is Disconnected
            || f is UnexpectedResponse),
{
    match f {
        WorkerClientFailure::Io | WorkerClientFailure::FrameIo | WorkerClientFailure::FrameDecode
        | WorkerClientFailure::Unauthenticated | WorkerClientFailure::Disconnected
        | WorkerClientFailure::UnexpectedResponse => true,
        _ => false,
    }
}

/* ------------------------------------------------------------------------ */
/*  Sorted keyed storage                                                    */
/* ------------------------------------------------------------------------ */

/// Whether keys are strictly increasing, so no key occurs twice.
pub open spec fn strictly_sorted(keys: Seq<ScopedKey>) -> bool {
    forall|i: int, j: int| 0 <= i < j < keys.len() ==> key_less(#[trigger] keys[i], #[trigger] keys[j])
}

/// Index of the first key at or after `i` that does not sort before `k`.
pub open spec fn lower_bound(keys: Seq<ScopedKey>, k: ScopedKey, i: nat) -> nat
    decreases keys.len() - i,
{
    if i >= keys.len() {
        keys.len()
    } else if !key_less(keys[i as int], k) {
        i
    } else {
        lower_bound(keys, k, i + 1)
    }
}

/// `s` with `x` stored under key `k`: replacing the entry under `k` if
/// there is one, and otherwise inserted where `k` keeps the keys sorted.
pub open spec fn upserted<T>(s: Seq<T>, keys: Seq<ScopedKey>, k: ScopedKey, x: T) -> Seq<T> {
    let p = lower_bound(keys, k, 0) as int;
    if p < s.len() && keys[p] == k {
        s.update(p, x)
    } else {
        s.insert(p, x)
    }
}

proof fn lemma_lower_bound(keys: Seq<ScopedKey>, k: ScopedKey, i: nat)
    requires
        i <= keys.len(),
        forall|j: int| 0 <= j < i ==> key_less(#[trigger] keys[j], k),
    ensures
        lower_bound(keys, k, i) <= keys.len(),
        forall|j: int| 0 <= j < lower_bound(keys, k, i) ==> key_less(#[trigger] keys[j], k),
        lower_bound(keys, k, i) < keys.len() ==> !key_less(keys[lower_bound(keys, k, i) as int], k),
    decreases keys.len() - i,
{
    if i < keys.len() && key_less(keys[i as int], k) {
        lemma_lower_bound(keys, k, i + 1);
    }
}

proof fn lemma_upsert_keeps_sorted(keys: Seq<ScopedKey>, k: ScopedKey)
    requires
        strictly_sorted(keys),
    ensures
        strictly_sorted(upserted(keys, keys, k, k)),
{
    lemma_lower_bound(keys, k, 0);
    let p = lower_bound(keys, k, 0) as int;
    let r = upserted(keys, keys, k, k);
    if p < keys.len() && keys[p] == k {
        assert(r =~= keys);
    } else {
        assert forall|j: int| p <= j < keys.len() implies key_less(k, #[trigger] keys[j]) by {
            lemma_key_less_total(keys[p], k);
            if j > p {
                assert(key_less(keys[p], keys[j]));
                if keys[p] != k {
                    lemma_key_less_transitive(k, keys[p], keys[j]);
                }
            }
        }
        assert forall|a: int, b: int| 0 <= a < b < r.len() implies key_less(
            #[trigger] r[a],
            #[trigger] r[b],
        ) by {
            if b < p {
            } else if b == p {
            } else if a < p {
                lemma_key_less_transitive(keys[a], k, keys[b - 1]);
            } else if a == p {
            } else {
                assert(key_less(keys[a - 1], keys[b - 1]));
            }
        }
    }
}

proof fn lemma_upsert_map<T>(s: Seq<T>, f: spec_fn(T) -> ScopedKey, k: ScopedKey, x: T)
    requires
        f(x) == k,
    ensures
        upserted(s, s.map_values(f), k, x).map_values(f) == upserted(
            s.map_values(f),
            s.map_values(f),
            k,
            k,
        ),
{
    let keys = s.map_values(f);
    let p = lower_bound(keys, k, 0) as int;
    lemma_lower_bound(keys, k, 0);
    if p < s.len() && keys[p] == k {
        assert(s.update(p, x).map_values(f) =~= keys.update(p, k));
    } else {
        assert(s.insert(p, x).map_values(f) =~= keys.insert(p, k));
    }
}

/* ------------------------------------------------------------------------ */
/*  Deterministic in-memory capability                                      */
/* ------------------------------------------------------------------------ */

/// Names the text that `String::from_utf8_lossy` decodes from `bytes`, with
/// each invalid sequence replaced by U+FFFD.
pub uninterp spec fn utf8_lossy(bytes: Seq<u8>) -> Seq<char>;

/// Calls `String::from_utf8_lossy` and takes the text it decodes.
#[verifier::external_body]
fn decode_utf8_lossy(bytes: &[u8]) -> (r: String)
    ensures
        r@ == utf8_lossy(bytes@),
{
    String::from_utf8_lossy(bytes).into_owned()
}

/// The bits of the `f64` score 1.0 that every fake result carries.
pub const FAKE_SCORE_BITS: u64 = 0x3FF0_0000_0000_0000;

/// Characters of a document kept in a result excerpt.
pub const EXCERPT_CHARS: usize = 256;

/// A document as the fake capability stores it.
#[derive(Debug)]
pub struct StoredDocument {
    /// Owning scope.
    pub scope: SemanticScope,
    /// Document identifier.
    pub document_id: DocumentId,
    /// Metadata as ingested.
    pub metadata: Vec<(String, String)>,
    /// Content as ingested.
    pub content: Vec<u8>,
}

/// A job as the fake capability stores it, under its scope.
#[derive(Debug)]
pub struct StoredJob {
    /// Owning scope.
    pub scope: SemanticScope,
    /// The job.
    pub job: SemanticIngestionJob,
}

/// The key a document is stored under.
pub open spec fn doc_key(d: StoredDocument) -> ScopedKey {
    (d.scope.tenant_id@, d.scope.library_id@, d.document_id@)
}

/// The key a job is stored under.
pub open spec fn job_key(j: StoredJob) -> ScopedKey {
    (j.scope.tenant_id@, j.scope.library_id@, j.job.job_id@)
}

/// Keys of stored documents, in storage order.
pub open spec fn doc_keys(s: Seq<StoredDocument>) -> Seq<ScopedKey> {
    s.map_values(|d: StoredDocument| doc_key(d))
}

/// Keys of stored jobs, in storage order.
pub open spec fn job_keys(s: Seq<StoredJob>) -> Seq<ScopedKey> {
    s.map_values(|j: StoredJob| job_key(j))
}

/// The value stored under `key` in metadata, taking the first entry with it.
pub open spec fn meta_get(m: Seq<(String, String)>, key: Seq<char>) -> Option<Seq<char>>
    decreases m.len(),
{
    if m.len() == 0 {
        None
    } else if m[0].0@ == key {
        Some(m[0].1@)
    } else {
        meta_get(m.drop_first(), key)
    }
}

/// Whether a concept query admits a document with metadata `m`: with no
/// concept query every document is admitted, and with one only a document
/// whose `concept_uri` is among the query's concepts.
pub open spec fn concept_admits(m: Seq<(String, String)>, concept: Option<SemanticConceptQuery>) -> bool {
    match concept {
        None => true,
        Some(c) => match meta_get(m, "concept_uri"@) {
            Some(uri) => exists|i: int| 0 <= i < c.concept_uris.len() && #[trigger] c.concept_uris@[i]@ == uri,
            None => false,
        },
    }
}

/// Whether a stored document answers a query: same scope, admitted by the
/// concept query, and containing the query text in its lowercased text.
pub open spec fn doc_matches(d: StoredDocument, q: SemanticQuery) -> bool {
    &&& scope_key(d.scope) == scope_key(q.scope)
    &&& concept_admits(d.metadata@, q.concept)
    &&& contains_sub(lowercase(utf8_lossy(d.content@)), lowercase(q.text@))
}

/// The documents, in storage order, that answer a query.
pub open spec fn matching_docs(docs: Seq<StoredDocument>, q: SemanticQuery) -> Seq<StoredDocument>
    decreases docs.len(),
{
    if docs.len() == 0 {
        seq![]
    } else {
        let prev = matching_docs(docs.drop_last(), q);
        if doc_matches(docs.last(), q) {
            prev.push(docs.last())
        } else {
            prev
        }
    }
}

/// At most the first `n` elements of `s`.
pub open spec fn take_at_most<T>(s: Seq<T>, n: nat) -> Seq<T> {
    if s.len() <= n {
        s
    } else {
        s.take(n as int)
    }
}

/// The excerpt of a document text: at most its first 256 characters.
pub open spec fn excerpt_of(text: Seq<char>) -> Seq<char> {
    take_at_most(text, EXCERPT_CHARS as nat)
}

/// Whether a result reports a stored document.
pub open spec fn reports(r: SemanticSearchResult, d: StoredDocument) -> bool {
    &&& r.document_id == d.document_id
    &&& r.score_bits == FAKE_SCORE_BITS
    &&& r.metadata@ == d.metadata@
    &&& r.excerpt@ == excerpt_of(utf8_lossy(d.content@))
}

/// The jobs, in storage order, of one scope.
pub open spec fn scope_jobs(jobs: Seq<StoredJob>, scope: (Seq<char>, Seq<char>)) -> Seq<StoredJob>
    decreases jobs.len(),
{
    if jobs.len() == 0 {
        seq![]
    } else {
        let prev = scope_jobs(jobs.drop_last(), scope);
        if scope_key(jobs.last().scope) == scope {
            prev.push(jobs.last())
        } else {
            prev
        }
    }
}

/// The identifier of the `n`-th fake ingestion job.
pub open spec fn fake_job_id(n: nat) -> Seq<char> {
    "fake-job-"@ + decimal(n)
}

/// Deterministic in-memory semantic capability for mock mode and tests.
pub struct FakeSemanticCapability {
    documents: Vec<StoredDocument>,
    jobs: Vec<StoredJob>,
    next_job_id: u64,
    draining: bool,
}

impl FakeSemanticCapability {
    /// Stored documents, ordered by scope and document identifier.
    pub closed spec fn spec_documents(&self) -> Seq<StoredDocument> {
        self.documents@
    }

    /// Stored jobs, ordered by scope and job identifier.
    pub closed spec fn spec_jobs(&self) -> Seq<StoredJob> {
        self.jobs@
    }

    /// Number of jobs created so far.
    pub closed spec fn spec_jobs_created(&self) -> u64 {
        self.next_job_id
    }

    /// Whether the capability is draining after a shutdown.
    pub closed spec fn spec_draining(&self) -> bool {
        self.draining
    }

    /// Documents and jobs are each stored once per key, in key order.
    pub open spec fn well_formed(&self) -> bool {
        &&& strictly_sorted(doc_keys(self.spec_documents()))
        &&& strictly_sorted(job_keys(self.spec_jobs()))
    }

    /// Creates an empty deterministic capability.
    pub fn new() -> (r: Self)
        ensures
            r.well_formed(),
            r.spec_documents().len() == 0,
            r.spec_jobs().len() == 0,
            r.spec_jobs_created() == 0,
            !r.spec_draining(),
    {
        FakeSemanticCapability {
            documents: Vec::new(),
            jobs: Vec::new(),
            next_job_id: 0,
            draining: false,
        }
    }

    /// Reports `Draining` after a shutdown and `Serving` before it.
    pub fn health(&self) -> (r: Result<SemanticHealth, SemanticError>)
        ensures
            r == Ok::<SemanticHealth, SemanticError>(
                if self.spec_draining() {
                    SemanticHealth::Draining
                } else {
                    SemanticHealth::Serving
                },
            ),
    {
        if self.draining {
            Ok(SemanticHealth::Draining)
        } else {
            Ok(SemanticHealth::Serving)
        }
    }

    fn document_slot(&self, scope: &SemanticScope, id: &DocumentId) -> (r: (usize, bool))
        ensures
            r.0 == lower_bound(doc_keys(self.documents@), (scope.tenant_id@, scope.library_id@, id@), 0),
            r.1 == (r.0 < self.documents.len() && doc_keys(self.documents@)[r.0 as int] == (
                scope.tenant_id@,
                scope.library_id@,
                id@,
            )),
    {
        let ghost ks = doc_keys(self.documents@);
        let ghost k = (scope.tenant_id@, scope.library_id@, id@);
        let mut i: usize = 0;
        while i < self.documents.len()
            invariant
                ks == doc_keys(self.documents@),
                k == (scope.tenant_id@, scope.library_id@, id@),
                i <= self.documents.len(),
                lower_bound(ks, k, 0) == lower_bound(ks, k, i as nat),
            decreases self.documents.len() - i,
        {
            let d = &self.documents[i];
            if !key_lt(
                d.scope.tenant_id.as_str(),
                d.scope.library_id.as_str(),
                d.document_id.as_str(),
                scope.tenant_id.as_str(),
                scope.library_id.as_str(),
                id.as_str(),
            ) {
                let found = same_text(d.scope.tenant_id.as_str(), scope.tenant_id.as_str())
                    && same_text(d.scope.library_id.as_str(), scope.library_id.as_str())
                    && same_text(d.document_id.as_str(), id.as_str());
                return (i, found);
            }
            i = i + 1;
        }
        (i, false)
    }

    fn job_slot(&self, scope: &SemanticScope, id: &SemanticJobId) -> (r: (usize, bool))
        ensures
            r.0 == lower_bound(job_keys(self.jobs@), (scope.tenant_id@, scope.library_id@, id@), 0),
            r.1 == (r.0 < self.jobs.len() && job_keys(self.jobs@)[r.0 as int] == (
                scope.tenant_id@,
                scope.library_id@,
                id@,
            )),
    {
        let ghost ks = job_keys(self.jobs@);
        let ghost k = (scope.tenant_id@, scope.library_id@, id@);
        let mut i: usize = 0;
        while i < self.jobs.len()
            invariant
                ks == job_keys(self.jobs@),
                k == (scope.tenant_id@, scope.library_id@, id@),
                i <= self.jobs.len(),
                lower_bound(ks, k, 0) == lower_bound(ks, k, i as nat),
            decreases self.jobs.len() - i,
        {
            let j = &self.jobs[i];
            if !key_lt(
                j.scope.tenant_id.as_str(),
                j.scope.library_id.as_str(),
                j.job.job_id.as_str(),
                scope.tenant_id.as_str(),
                scope.library_id.as_str(),
                id.as_str(),
            ) {
                let found = same_text(j.scope.tenant_id.as_str(), scope.tenant_id.as_str())
                    && same_text(j.scope.library_id.as_str(), scope.library_id.as_str())
                    && same_text(j.job.job_id.as_str(), id.as_str());
                return (i, found);
            }
            i = i + 1;
        }
        (i, false)
    }

    /// Stores a document under its scope and identifier, replacing one
    /// already stored there, and records a completed job for it under the
    /// next `fake-job-N` identifier. While draining, nothing is stored and
    /// the capability reports itself unavailable.
    pub fn ingest(&mut self, ingestion: DocumentIngestion) -> (r: Result<SemanticJobId, SemanticError>)
        requires
            old(self).well_formed(),
            old(self).spec_jobs_created() < u64::MAX,
        ensures
            final(self).well_formed(),
            final(self).spec_draining() == old(self).spec_draining(),
            old(self).spec_draining() ==> r == Err::<SemanticJobId, SemanticError>(
                SemanticError::Unavailable,
            ) && final(self).spec_documents() == old(self).spec_documents() && final(self).spec_jobs() == old(self).spec_jobs() && final(self).spec_jobs_created() == old(self).spec_jobs_created(),
            !old(self).spec_draining() ==> (r matches Ok(id) && id@ == fake_job_id(
                (old(self).spec_jobs_created() + 1) as nat,
            ) && final(self).spec_jobs_created() == old(self).spec_jobs_created() + 1 && final(self).spec_documents() == upserted(
                old(self).spec_documents(),
                doc_keys(old(self).spec_documents()),
                (ingestion.scope.tenant_id@, ingestion.scope.library_id@, ingestion.document_id@),
                StoredDocument {
                    scope: ingestion.scope,
                    document_id: ingestion.document_id,
                    metadata: ingestion.metadata,
                    content: ingestion.content,
                },
            ) && final(self).spec_jobs() == upserted(
                old(self).spec_jobs(),
                job_keys(old(self).spec_jobs()),
                (ingestion.scope.tenant_id@, ingestion.scope.library_id@, id@),
                StoredJob {
                    scope: ingestion.scope,
                    job: SemanticIngestionJob {
                        job_id: id,
                        document_id: ingestion.document_id,
                        state: SemanticIngestionState::Completed,
                        detail: None,
                    },
                },
            )),
    {
        if self.draining {
            return Err(SemanticError::Unavailable);
        }
        let n = self.next_job_id + 1;
        self.next_job_id = n;
        let mut text = String::from_str("fake-job-");
        push_decimal(&mut text, n);
        let job_id = SemanticJobId::new(text);
        let ghost old_docs = self.documents@;
        let ghost old_jobs = self.jobs@;
        let DocumentIngestion { scope, operation_id: _, document_id, metadata, media_type: _, content } =
            ingestion;
        let (p, found) = self.document_slot(&scope, &document_id);
        let job_scope = scope.clone();
        let job_document = document_id.clone();
        let document = StoredDocument { scope, document_id, metadata, content };
        let ghost dk = doc_key(document);
        proof {
            lemma_lower_bound(doc_keys(old_docs), dk, 0);
            lemma_upsert_map(old_docs, |d: StoredDocument| doc_key(d), dk, document);
            lemma_upsert_keeps_sorted(doc_keys(old_docs), dk);
        }
        if found {
            self.documents.set(p, document);
        } else {
            self.documents.insert(p, document);
        }
        assert(self.documents@ == upserted(old_docs, doc_keys(old_docs), dk, document));
        let (q, job_found) = self.job_slot(&job_scope, &job_id);
        let job = StoredJob {
            scope: job_scope,
            job: SemanticIngestionJob {
                job_id: job_id.clone(),
                document_id: job_document,
                state: SemanticIngestionState::Completed,
                detail: None,
            },
        };
        let ghost jk = job_key(job);
        proof {
            lemma_lower_bound(job_keys(old_jobs), jk, 0);
            lemma_upsert_map(old_jobs, |j: StoredJob| job_key(j), jk, job);
            lemma_upsert_keeps_sorted(job_keys(old_jobs), jk);
        }
        if job_found {
            self.jobs.set(q, job);
        } else {
            self.jobs.insert(q, job);
        }
        assert(self.jobs@ == upserted(old_jobs, job_keys(old_jobs), jk, job));
        Ok(job_id)
    }

    /// Answers a query with the stored documents of its scope, in storage
    /// order, that its concept query admits and whose lowercased text holds
    /// the lowercased query text, at most `maximum_results` of them. While
    /// draining, the capability reports itself unavailable.
    pub fn query(&self, query: &SemanticQuery) -> (r: Result<Vec<SemanticSearchResult>, SemanticError>)
        ensures
            self.spec_draining() ==> r == Err::<Vec<SemanticSearchResult>, SemanticError>(
                SemanticError::Unavailable,
            ),
            !self.spec_draining() ==> (r matches Ok(results) && results.len() == take_at_most(
                matching_docs(self.spec_documents(), *query),
                query.maximum_results as nat,
            ).len() && forall|k: int|
                0 <= k < results.len() ==> #[trigger] reports(
                    results@[k],
                    take_at_most(
                        matching_docs(self.spec_documents(), *query),
                        query.maximum_results as nat,
                    )[k],
                )),
    {
        if self.draining {
            return Err(SemanticError::Unavailable);
        }
        let needle = to_lowercase(query.text.as_str());
        let limit = query.maximum_results as usize;
        let ghost docs = self.documents@;
        let mut results: Vec<SemanticSearchResult> = Vec::new();
        let mut i: usize = 0;
        while i < self.documents.len()
            invariant
                docs == self.documents@,
                needle@ == lowercase(query.text@),
                limit == query.maximum_results,
                i <= docs.len(),
                results.len() == take_at_most(matching_docs(docs.take(i as int), *query), limit as nat).len(),
                forall|k: int|
                    0 <= k < results.len() ==> #[trigger] reports(
                        results@[k],
                        take_at_most(matching_docs(docs.take(i as int), *query), limit as nat)[k],
                    ),
            decreases docs.len() - i,
        {
            let d = &self.documents[i];
            let ghost prev = matching_docs(docs.take(i as int), *query);
            assert(docs.take(i as int + 1).drop_last() =~= docs.take(i as int));
            assert(docs.take(i as int + 1).last() == docs[i as int]);
            if document_matches(d, query, &needle) {
                if results.len() < limit {
                    let result = search_result_for(d);
                    results.push(result);
                    assert(take_at_most(prev.push(*d), limit as nat) =~= take_at_most(prev, limit as nat).push(*d));
                } else {
                    assert(take_at_most(prev.push(*d), limit as nat) =~= take_at_most(prev, limit as nat));
                }
            }
            i = i + 1;
        }
        assert(docs.take(docs.len() as int) =~= docs);
        Ok(results)
    }

    /// Reads the job stored under a scope and job identifier.
    pub fn ingestion_job(&self, scope: SemanticScope, job_id: SemanticJobId) -> (r: Result<
        SemanticIngestionJob,
        SemanticError,
    >)
        ensures
            match r {
                Ok(j) => exists|i: int|
                    0 <= i < self.spec_jobs().len() && #[trigger] job_keys(self.spec_jobs())[i] == (
                        scope.tenant_id@,
                        scope.library_id@,
                        job_id@,
                    ) && j == self.spec_jobs()[i].job,
                Err(e) => (forall|i: int|
                    0 <= i < self.spec_jobs().len() ==> #[trigger] job_keys(self.spec_jobs())[i] != (
                        scope.tenant_id@,
                        scope.library_id@,
                        job_id@,
                    )) && (e matches SemanticError::InvalidRequest(m) && m@
                    == "ingestion job was not found"@),
            },
    {
        let ghost k = (scope.tenant_id@, scope.library_id@, job_id@);
        let mut i: usize = 0;
        while i < self.jobs.len()
            invariant
                k == (scope.tenant_id@, scope.library_id@, job_id@),
                i <= self.jobs.len(),
                forall|m: int| 0 <= m < i ==> #[trigger] job_keys(self.jobs@)[m] != k,
            decreases self.jobs.len() - i,
        {
            let j = &self.jobs[i];
            if scope.same_as(&j.scope) && same_text(j.job.job_id.as_str(), job_id.as_str()) {
                let found = j.job.clone();
                assert(job_keys(self.spec_jobs())[i as int] == k && found == self.spec_jobs()[i as int].job);
                return Ok(found);
            }
            assert(job_keys(self.jobs@)[i as int] != k);
            i = i + 1;
        }
        Err(SemanticError::InvalidRequest(String::from_str("ingestion job was not found")))
    }

    /// Reports one `completed` event per job of the scope, in storage order,
    /// each carrying the job's identifier.
    pub fn events(&self, scope: SemanticScope) -> (r: Result<Vec<SemanticProgressEvent>, SemanticError>)
        ensures
            r matches Ok(events) && events.len() == scope_jobs(self.spec_jobs(), scope_key(scope)).len()
                && forall|k: int|
                0 <= k < events.len() ==> #[trigger] events@[k].operation_id@ == scope_jobs(
                    self.spec_jobs(),
                    scope_key(scope),
                )[k].job.job_id@ && events@[k].phase@ == "completed"@,
    {
        let ghost jobs = self.jobs@;
        let mut events: Vec<SemanticProgressEvent> = Vec::new();
        let mut i: usize = 0;
        while i < self.jobs.len()
            invariant
                jobs == self.jobs@,
                i <= jobs.len(),
                events.len() == scope_jobs(jobs.take(i as int), scope_key(scope)).len(),
                forall|k: int|
                    0 <= k < events.len() ==> #[trigger] events@[k].operation_id@ == scope_jobs(
                        jobs.take(i as int),
                        scope_key(scope),
                    )[k].job.job_id@ && events@[k].phase@ == "completed"@,
            decreases jobs.len() - i,
        {
            let j = &self.jobs[i];
            let ghost prev = scope_jobs(jobs.take(i as int), scope_key(scope));
            assert(jobs.take(i as int + 1).drop_last() =~= jobs.take(i as int));
            assert(jobs.take(i as int + 1).last() == jobs[i as int]);
            if j.scope.same_as(&scope) {
                let operation_id = SemanticOperationId::new(String::from_str(j.job.job_id.as_str()));
                let event = SemanticProgressEvent { operation_id, phase: String::from_str("completed") };
                assert(event.operation_id@ == jobs[i as int].job.job_id@);
                let ghost before = events@;
                events.push(event);
                assert(scope_jobs(jobs.take(i as int + 1), scope_key(scope)) == prev.push(jobs[i as int]));
                assert forall|k: int| 0 <= k < events.len() implies #[trigger] events@[k].operation_id@
                    == scope_jobs(jobs.take(i as int + 1), scope_key(scope))[k].job.job_id@
                    && events@[k].phase@ == "completed"@ by {
                    if k < events.len() - 1 {
                        assert(events@[k] == before[k]);
                        assert(before[k].operation_id@ == prev[k].job.job_id@);
                    }
                }
            } else {
                assert(scope_jobs(jobs.take(i as int + 1), scope_key(scope)) == prev);
            }
            i = i + 1;
        }
        assert(jobs.take(jobs.len() as int) =~= jobs);
        Ok(events)
    }

    /// The fake capability cancels nothing: it answers `false`.
    pub fn cancel(&self, operation_id: SemanticOperationId) -> (r: Result<bool, SemanticError>)
        ensures
            r == Ok::<bool, SemanticError>(false),
    {
        Ok(false)
    }

    /// Starts draining: later ingestion and queries report the capability
    /// unavailable, and health reports `Draining`.
    pub fn shutdown(&mut self) -> (r: Result<(), SemanticError>)
        ensures
            r == Ok::<(), SemanticError>(()),
            final(self).spec_draining(),
            final(self).spec_documents() == old(self).spec_documents(),
            final(self).spec_jobs() == old(self).spec_jobs(),
            final(self).spec_jobs_created() == old(self).spec_jobs_created(),
    {
        self.draining = true;
        Ok(())
    }
}

/// The value stored under `key` in metadata, taking the first entry with it.
fn metadata_value<'a>(m: &'a Vec<(String, String)>, key: &str) -> (r: Option<&'a String>)
    ensures
        match r {
            Some(v) => meta_get(m@, key@) == Some(v@),
            None => meta_get(m@, key@) is None,
        },
{
    let mut i: usize = 0;
    assert(m@.skip(0) =~= m@);
    while i < m.len()
        invariant
            i <= m.len(),
            meta_get(m@, key@) == meta_get(m@.skip(i as int), key@),
        decreases m.len() - i,
    {
        assert(m@.skip(i as int)[0] == m@[i as int]);
        if same_text(m[i].0.as_str(), key) {
            return Some(&m[i].1);
        }
        assert(m@.skip(i as int).drop_first() =~= m@.skip(i as int + 1));
        i = i + 1;
    }
    None
}

/// Whether a concept query admits a document with metadata `m`.
fn concept_admits_document(m: &Vec<(String, String)>, concept: &Option<SemanticConceptQuery>) -> (r:
    bool)
    ensures
        r == concept_admits(m@, *concept),
{
    match concept {
        None => true,
        Some(c) => match metadata_value(m, "concept_uri") {
            Some(uri) => {
                let mut i: usize = 0;
                while i < c.concept_uris.len()
                    invariant
                        i <= c.concept_uris.len(),
                        meta_get(m@, "concept_uri"@) == Some(uri@),
                        *concept == Some(*c),
                        forall|j: int| 0 <= j < i ==> #[trigger] c.concept_uris@[j]@ != uri@,
                    decreases c.concept_uris.len() - i,
                {
                    if same_text(c.concept_uris[i].as_str(), uri.as_str()) {
                        assert(c.concept_uris@[i as int]@ == uri@);
                        assert(meta_get(m@, "concept_uri"@) == Some(uri@));
                        return true;
                    }
                    i = i + 1;
                }
                false
            },
            None => false,
        },
    }
}

/// Whether a stored document answers a query whose lowercased text is `needle`.
fn document_matches(d: &StoredDocument, q: &SemanticQuery, needle: &String) -> (r: bool)
    requires
        needle@ == lowercase(q.text@),
    ensures
        r == doc_matches(*d, *q),
{
    if !d.scope.same_as(&q.scope) {
        return false;
    }
    if !concept_admits_document(&d.metadata, &q.concept) {
        return false;
    }
    let text = decode_utf8_lossy(d.content.as_slice());
    let lower = to_lowercase(text.as_str());
    text_contains(lower.as_str(), needle.as_str())
}

/// Copies metadata entry by entry.
fn clone_metadata(m: &Vec<(String, String)>) -> (r: Vec<(String, String)>)
    ensures
        r@ == m@,
{
    let mut out: Vec<(String, String)> = Vec::new();
    let mut i: usize = 0;
    while i < m.len()
        invariant
            i <= m.len(),
            out@ == m@.take(i as int),
        decreases m.len() - i,
    {
        out.push((m[i].0.clone(), m[i].1.clone()));
        i = i + 1;
        assert(out@ =~= m@.take(i as int));
    }
    assert(m@.take(m.len() as int) =~= m@);
    out
}

/// The result that reports a stored document.
fn search_result_for(d: &StoredDocument) -> (r: SemanticSearchResult)
    ensures
        reports(r, *d),
{
    let text = decode_utf8_lossy(d.content.as_slice());
    let n = text.as_str().unicode_len();
    let end = if n < EXCERPT_CHARS {
        n
    } else {
        EXCERPT_CHARS
    };
    let excerpt = String::from_str(text.as_str().substring_char(0, end));
    assert(excerpt@ =~= excerpt_of(text@));
    SemanticSearchResult {
        document_id: d.document_id.clone(),
        score_bits: FAKE_SCORE_BITS,
        metadata: clone_metadata(&d.metadata),
        excerpt,
    }
}

/* ------------------------------------------------------------------------ */
/*  Laws of the scoped store                                                */
/* ------------------------------------------------------------------------ */

proof fn lemma_matching_docs_match(docs: Seq<StoredDocument>, q: SemanticQuery)
    ensures
        forall|k: int|
            0 <= k < matching_docs(docs, q).len() ==> #[trigger] doc_matches(
                matching_docs(docs, q)[k],
                q,
            ),
    decreases docs.len(),
{
    if docs.len() > 0 {
        lemma_matching_docs_match(docs.drop_last(), q);
        let prev = matching_docs(docs.drop_last(), q);
        assert forall|k: int| 0 <= k < matching_docs(docs, q).len() implies #[trigger] doc_matches(
            matching_docs(docs, q)[k],
            q,
        ) by {
            if k < prev.len() {
                assert(doc_matches(prev[k], q));
            }
        }
    }
}

proof fn lemma_matching_insert(docs: Seq<StoredDocument>, p: int, d: StoredDocument, q: SemanticQuery)
    requires
        0 <= p <= docs.len(),
        !doc_matches(d, q),
    ensures
        matching_docs(docs.insert(p, d), q) == matching_docs(docs, q),
    decreases docs.len(),
{
    if p == docs.len() {
        assert(docs.insert(p, d).drop_last() =~= docs);
    } else {
        assert(docs.insert(p, d).drop_last() =~= docs.drop_last().insert(p, d));
        assert(docs.insert(p, d).last() == docs.last());
        lemma_matching_insert(docs.drop_last(), p, d, q);
    }
}

proof fn lemma_matching_update(docs: Seq<StoredDocument>, p: int, d: StoredDocument, q: SemanticQuery)
    requires
        0 <= p < docs.len(),
        !doc_matches(d, q),
        !doc_matches(docs[p], q),
    ensures
        matching_docs(docs.update(p, d), q) == matching_docs(docs, q),
    decreases docs.len(),
{
    if p == docs.len() - 1 {
        assert(docs.update(p, d).drop_last() =~= docs.drop_last());
    } else {
        assert(docs.update(p, d).drop_last() =~= docs.drop_last().update(p, d));
        assert(docs.update(p, d).last() == docs.last());
        lemma_matching_update(docs.drop_last(), p, d, q);
    }
}

proof fn lemma_matching_contains(docs: Seq<StoredDocument>, k: int, q: SemanticQuery)
    requires
        0 <= k < docs.len(),
        doc_matches(docs[k], q),
    ensures
        matching_docs(docs, q).contains(docs[k]),
    decreases docs.len(),
{
    if k == docs.len() - 1 {
        assert(matching_docs(docs, q).last() == docs[k]);
    } else {
        lemma_matching_contains(docs.drop_last(), k, q);
        let m = matching_docs(docs.drop_last(), q);
        let j = choose|j: int| 0 <= j < m.len() && m[j] == docs[k];
        if doc_matches(docs.last(), q) {
            assert(m.push(docs.last())[j] == docs[k]);
        }
    }
}

/// Whether a stored document answers a query, as a predicate.
pub open spec fn answers(q: SemanticQuery) -> spec_fn(StoredDocument) -> bool {
    |d: StoredDocument| doc_matches(d, q)
}

/// The documents that answer a query are exactly the stored ones that match
/// it, in storage order.
proof fn lemma_matching_docs_filter(docs: Seq<StoredDocument>, q: SemanticQuery)
    ensures
        matching_docs(docs, q) == docs.filter(answers(q)),
    decreases docs.len(),
{
    if docs.len() > 0 {
        lemma_matching_docs_filter(docs.drop_last(), q);
        assert(docs.drop_last().push(docs.last()) =~= docs);
        docs.drop_last().lemma_filter_push(docs.last(), answers(q));
    }
}

/// A query answers only with stored documents of its own tenant and library
/// that its concept query admits and whose lowercased text holds the
/// lowercased query text: the matching documents in storage order, as many
/// of them as the limit allows.
pub proof fn law_query_answers_with_matching_documents(
    docs: Seq<StoredDocument>,
    q: SemanticQuery,
    limit: nat,
)
    ensures
        matching_docs(docs, q) == docs.filter(answers(q)),
        take_at_most(matching_docs(docs, q), limit).len() == if matching_docs(docs, q).len()
            <= limit {
            matching_docs(docs, q).len()
        } else {
            limit
        },
        forall|k: int|
            0 <= k < take_at_most(matching_docs(docs, q), limit).len() ==> {
                let d = #[trigger] take_at_most(matching_docs(docs, q), limit)[k];
                &&& docs.contains(d)
                &&& scope_key(d.scope) == scope_key(q.scope)
                &&& concept_admits(d.metadata@, q.concept)
                &&& contains_sub(lowercase(utf8_lossy(d.content@)), lowercase(q.text@))
            },
{
    lemma_matching_docs_match(docs, q);
    lemma_matching_docs_filter(docs, q);
    assert forall|k: int| 0 <= k < take_at_most(matching_docs(docs, q), limit).len() implies {
        let d = #[trigger] take_at_most(matching_docs(docs, q), limit)[k];
        &&& docs.contains(d)
        &&& scope_key(d.scope) == scope_key(q.scope)
        &&& concept_admits(d.metadata@, q.concept)
        &&& contains_sub(lowercase(utf8_lossy(d.content@)), lowercase(q.text@))
    } by {
        let m = matching_docs(docs, q);
        assert(take_at_most(m, limit)[k] == m[k]);
        assert(doc_matches(m[k], q));
        assert(m.contains(m[k]));
        docs.lemma_filter_contains_rev(answers(q), m[k]);
    }
}

/// Ingesting a document into one tenant and library leaves every query of
/// another tenant or library answering exactly as before.
pub proof fn law_ingest_is_scope_isolated(docs: Seq<StoredDocument>, d: StoredDocument, q: SemanticQuery)
    requires
        strictly_sorted(doc_keys(docs)),
        scope_key(d.scope) != scope_key(q.scope),
    ensures
        matching_docs(upserted(docs, doc_keys(docs), doc_key(d), d), q) == matching_docs(docs, q),
{
    let keys = doc_keys(docs);
    lemma_lower_bound(keys, doc_key(d), 0);
    let p = lower_bound(keys, doc_key(d), 0) as int;
    if p < docs.len() && keys[p] == doc_key(d) {
        assert(keys[p] == doc_key(docs[p]));
        lemma_matching_update(docs, p, d, q);
    } else {
        lemma_matching_insert(docs, p, d, q);
    }
}

/// A document just ingested is among the documents that answer any query
/// of its tenant and library that it matches.
pub proof fn law_ingested_document_is_found(
    docs: Seq<StoredDocument>,
    d: StoredDocument,
    q: SemanticQuery,
)
    requires
        strictly_sorted(doc_keys(docs)),
        doc_matches(d, q),
    ensures
        matching_docs(upserted(docs, doc_keys(docs), doc_key(d), d), q).contains(d),
{
    let keys = doc_keys(docs);
    lemma_lower_bound(keys, doc_key(d), 0);
    let p = lower_bound(keys, doc_key(d), 0) as int;
    let after = upserted(docs, keys, doc_key(d), d);
    assert(after[p] == d);
    lemma_matching_contains(after, p, q);
}

} // verus!
