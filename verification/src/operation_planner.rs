//! Operation planning: what a start request asks for, which executor it
//! needs, how bytes cross between two backends, archive formats and the
//! names given to copies.

use vstd::prelude::*;

use crate::error::ApplicationError;
use crate::text::{
    ascii_lowercase, decimal, name_extension, name_stem, path_extension, path_extension_of,
    path_file_stem, path_file_stem_of, plain_file_name,
    push_decimal, same_text, to_ascii_lowercase,
};

verus! {

/// An invalid-request error carrying `message`.
fn invalid_request(message: &str) -> (e: ApplicationError)
    ensures
        e matches ApplicationError::InvalidRequest(t) && t@ == message@,
{
    ApplicationError::InvalidRequest(String::from_str(message))
}

/* ------------------------------------------------------------------------ */
/*  Cross-provider transfer strategy selection                              */
/* ------------------------------------------------------------------------ */

/// What one side of a transfer can do on its own backend.
#[derive(Debug)]
pub struct TransferCapabilities {
    /// Identity of the backend; two sides share a backend only when these are equal.
    pub endpoint: String,
    /// The backend can duplicate bytes itself.
    pub server_side_copy: bool,
    /// The backend can rename in place.
    pub server_side_move: bool,
    /// The backend accepts resumable uploads of a declared size.
    pub resumable_upload: bool,
    /// The backend can resume downloads.
    pub resumable_download: bool,
    /// The backend supports random-access reads.
    pub random_read: bool,
    /// The backend supports random-access writes.
    pub random_write: bool,
}

impl TransferCapabilities {
    /// Whether both sides name the same backend.
    pub open spec fn spec_shares_endpoint_with(&self, other: &Self) -> bool {
        self.endpoint@ == other.endpoint@
    }

    /// Whether both sides name the same backend.
    pub fn shares_endpoint_with(&self, other: &Self) -> (r: bool)
        ensures
            r == self.spec_shares_endpoint_with(other),
    {
        same_text(self.endpoint.as_str(), other.endpoint.as_str())
    }
}

/// How one file's bytes reach the destination.
#[derive(Debug, Clone, Copy, PartialEq, Eq, Structural)]
pub enum TransferStrategy {
    /// The one backend duplicates the bytes itself; nothing is streamed here.
    ServerSideCopy,
    /// The source's reader is piped straight into the destination's writer.
    DirectStream,
}

/// How an entry is relocated for a move.
#[derive(Debug, Clone, Copy, PartialEq, Eq, Structural)]
pub enum MoveStrategy {
    /// One backend that can rename in place: no bytes are transferred.
    ServerSideMove,
    /// Transfer the bytes, then delete the source once the destination is verified.
    CopyThenDelete,
}

/// The transfer decision for one source/destination pair.
#[derive(Debug, Clone, Copy, PartialEq, Eq, Structural)]
pub struct TransferPlan {
    /// Chosen byte-transfer path.
    pub strategy: TransferStrategy,
    /// Chosen relocation path, used only by move.
    pub move_strategy: MoveStrategy,
    /// Whether both sides sit on the same backend.
    pub same_endpoint: bool,
    /// Whether the destination advertised resumable uploads.
    pub destination_resumable_upload: bool,
}

/// The plan for a pair: a provider-native path only where both sides offer
/// it on one backend, direct streaming and copy-then-delete otherwise.
pub open spec fn transfer_plan_for(
    source: &TransferCapabilities,
    destination: &TransferCapabilities,
) -> TransferPlan {
    let same = source.spec_shares_endpoint_with(destination);
    TransferPlan {
        strategy: if same && source.server_side_copy && destination.server_side_copy {
            TransferStrategy::ServerSideCopy
        } else {
            TransferStrategy::DirectStream
        },
        move_strategy: if same && source.server_side_move && destination.server_side_move {
            MoveStrategy::ServerSideMove
        } else {
            MoveStrategy::CopyThenDelete
        },
        same_endpoint: same,
        destination_resumable_upload: destination.resumable_upload,
    }
}

impl TransferPlan {
    /// Chooses the safest fast path both sides can honour.
    pub fn select(source: &TransferCapabilities, destination: &TransferCapabilities) -> (r: Self)
        ensures
            r == transfer_plan_for(source, destination),
    {
        let same_endpoint = source.shares_endpoint_with(destination);
        let strategy = if same_endpoint && source.server_side_copy && destination.server_side_copy {
            TransferStrategy::ServerSideCopy
        } else {
            TransferStrategy::DirectStream
        };
        let move_strategy = if same_endpoint && source.server_side_move
            && destination.server_side_move {
            MoveStrategy::ServerSideMove
        } else {
            MoveStrategy::CopyThenDelete
        };
        TransferPlan {
            strategy,
            move_strategy,
            same_endpoint,
            destination_resumable_upload: destination.resumable_upload,
        }
    }
}

/// Whether two sides are one backend does not depend on which side is the
/// source: reversing a pair never changes it.
pub proof fn law_same_endpoint_is_symmetric(a: &TransferCapabilities, b: &TransferCapabilities)
    ensures
        transfer_plan_for(a, b).same_endpoint == transfer_plan_for(b, a).same_endpoint,
{
}

/// A fast path is never chosen across two different backends: there the
/// bytes are streamed and a move copies, then deletes.
pub proof fn law_no_fast_path_across_backends(
    source: &TransferCapabilities,
    destination: &TransferCapabilities,
)
    requires
        !source.spec_shares_endpoint_with(destination),
    ensures
        transfer_plan_for(source, destination).strategy == TransferStrategy::DirectStream,
        transfer_plan_for(source, destination).move_strategy == MoveStrategy::CopyThenDelete,
{
}

/// Only the destination's resumable-upload capability reaches the plan:
/// changing anything about the source leaves that flag as it was.
pub proof fn law_resumable_upload_is_the_destinations(
    source: &TransferCapabilities,
    other_source: &TransferCapabilities,
    destination: &TransferCapabilities,
)
    ensures
        transfer_plan_for(source, destination).destination_resumable_upload
            == destination.resumable_upload,
        transfer_plan_for(source, destination).destination_resumable_upload
            == transfer_plan_for(other_source, destination).destination_resumable_upload,
{
}

/* ------------------------------------------------------------------------ */
/*  Archive format inference                                                */
/* ------------------------------------------------------------------------ */

/// Archive format a request may name.
#[derive(Debug, Clone, Copy, PartialEq, Eq, Structural)]
pub enum ArchiveFormat {
    /// ZIP.
    Zip,
    /// 7z.
    SevenZip,
}

/// Archive format of an archive being created.
#[derive(Debug, Clone, Copy, PartialEq, Eq, Structural)]
pub enum ArchiveCreationFormat {
    /// ZIP.
    Zip,
    /// 7z.
    SevenZip,
}

/// The format that a destination's extension implies, in any ASCII case.
pub open spec fn inferred_archive_format(path: Seq<char>) -> Option<ArchiveCreationFormat> {
    match path_extension(path) {
        Some(e) => if ascii_lowercase(e) == "zip"@ {
            Some(ArchiveCreationFormat::Zip)
        } else if ascii_lowercase(e) == "7z"@ {
            Some(ArchiveCreationFormat::SevenZip)
        } else {
            None
        },
        None => None,
    }
}

/// The creation format a requested format names.
pub open spec fn requested_creation_format(f: ArchiveFormat) -> ArchiveCreationFormat {
    match f {
        ArchiveFormat::Zip => ArchiveCreationFormat::Zip,
        ArchiveFormat::SevenZip => ArchiveCreationFormat::SevenZip,
    }
}

/// Why a destination and a requested format cannot make an archive, if they cannot.
pub open spec fn archive_format_rejection(path: Seq<char>, requested: Option<ArchiveFormat>) -> Option<
    Seq<char>,
> {
    match inferred_archive_format(path) {
        None => Some("archive destination must end in .zip or .7z"@),
        Some(inferred) => match requested {
            Some(f) => if requested_creation_format(f) != inferred {
                Some("archive format must match the destination extension"@)
            } else {
                None
            },
            None => None,
        },
    }
}

impl ArchiveCreationFormat {
    /// Infers the format from the destination's extension and checks it
    /// against the format the request names, if any.
    pub fn from_request(path: &str, requested: Option<ArchiveFormat>) -> (r: Result<
        Self,
        ApplicationError,
    >)
        ensures
            match archive_format_rejection(path@, requested) {
                Some(m) => r matches Err(ApplicationError::InvalidRequest(t)) && t@ == m,
                None => r == Ok::<Self, ApplicationError>(inferred_archive_format(path@)->0),
            },
    {
        let inferred = match path_extension_of(path) {
            Some(extension) => {
                let lower = to_ascii_lowercase(extension.as_str());
                if same_text(lower.as_str(), "zip") {
                    proof {
                        reveal_strlit("zip");
                    }
                    ArchiveCreationFormat::Zip
                } else if same_text(lower.as_str(), "7z") {
                    proof {
                        reveal_strlit("zip");
                        reveal_strlit("7z");
                    }
                    ArchiveCreationFormat::SevenZip
                } else {
                    proof {
                        reveal_strlit("zip");
                        reveal_strlit("7z");
                    }
                    return Err(
                        invalid_request("archive destination must end in .zip or .7z"),
                    );
                }
            },
            None => {
                return Err(
                    invalid_request("archive destination must end in .zip or .7z"),
                );
            },
        };
        let requested = match requested {
            Some(ArchiveFormat::Zip) => ArchiveCreationFormat::Zip,
            Some(ArchiveFormat::SevenZip) => ArchiveCreationFormat::SevenZip,
            None => inferred,
        };
        if requested != inferred {
            return Err(
                invalid_request("archive format must match the destination extension"),
            );
        }
        Ok(requested)
    }
}

/// Compression level a ZIP archive gets when the request names none.
pub const DEFAULT_ARCHIVE_COMPRESSION_LEVEL: u32 = 6;

/// Why a requested compression level cannot be used for a format, if it cannot.
pub open spec fn compression_level_rejection(
    format: ArchiveCreationFormat,
    requested: Option<i64>,
) -> Option<Seq<char>> {
    match format {
        ArchiveCreationFormat::Zip => match requested {
            Some(level) => if 0 <= level <= 9 {
                None
            } else {
                Some("archive compression level must be between 0 and 9"@)
            },
            None => None,
        },
        ArchiveCreationFormat::SevenZip => if requested is Some {
            Some("7z compression level is not supported by this backend"@)
        } else {
            None
        },
    }
}

/// The compression level an accepted request archives with.
pub open spec fn compression_level_for(format: ArchiveCreationFormat, requested: Option<i64>) -> int {
    match format {
        ArchiveCreationFormat::Zip => match requested {
            Some(level) => level as int,
            None => DEFAULT_ARCHIVE_COMPRESSION_LEVEL as int,
        },
        ArchiveCreationFormat::SevenZip => DEFAULT_ARCHIVE_COMPRESSION_LEVEL as int,
    }
}

/// Checks a requested compression level against the format: ZIP takes 0 to
/// 9 and defaults to 6; 7z takes none and always uses 6.
pub fn archive_compression_level(format: ArchiveCreationFormat, requested: Option<i64>) -> (r: Result<
    u32,
    ApplicationError,
>)
    ensures
        match compression_level_rejection(format, requested) {
            Some(m) => r matches Err(ApplicationError::InvalidRequest(t)) && t@ == m,
            None => r matches Ok(level) && level == compression_level_for(format, requested),
        },
{
    match format {
        ArchiveCreationFormat::Zip => match requested {
            Some(level) => {
                if 0 <= level && level <= 9 {
                    Ok(level as u32)
                } else {
                    Err(
                        invalid_request("archive compression level must be between 0 and 9"),
                    )
                }
            },
            None => Ok(DEFAULT_ARCHIVE_COMPRESSION_LEVEL),
        },
        ArchiveCreationFormat::SevenZip => match requested {
            Some(_) => Err(
                invalid_request("7z compression level is not supported by this backend"),
            ),
            None => Ok(DEFAULT_ARCHIVE_COMPRESSION_LEVEL),
        },
    }
}

/* ------------------------------------------------------------------------ */
/*  Copy names                                                              */
/* ------------------------------------------------------------------------ */

/// The name of the `suffix`-th copy of `name`: its stem, ` (copy N)`, then
/// its extension, if it has one.
pub open spec fn copy_name_text(name: Seq<char>, suffix: u32) -> Seq<char> {
    let stem = match path_file_stem(name) {
        Some(s) => s,
        None => name,
    };
    match path_extension(name) {
        Some(e) => stem + " (copy "@ + decimal(suffix as nat) + ")."@ + e,
        None => stem + " (copy "@ + decimal(suffix as nat) + ")"@,
    }
}

/// Names the `suffix`-th copy of `name`, keeping its extension last.
pub fn copy_name(name: &str, suffix: u32) -> (r: String)
    ensures
        r@ == copy_name_text(name@, suffix),
        plain_file_name(name@) ==> r@ == (match name_extension(name@) {
            Some(e) => name_stem(name@) + " (copy "@ + decimal(suffix as nat) + ")."@ + e,
            None => name_stem(name@) + " (copy "@ + decimal(suffix as nat) + ")"@,
        }),
{
    let mut out = match path_file_stem_of(name) {
        Some(stem) => stem,
        None => name.to_string(),
    };
    let ghost stem = out@;
    out.append(" (copy ");
    push_decimal(&mut out, suffix as u64);
    match path_extension_of(name) {
        Some(extension) => {
            out.append(").");
            out.append(extension.as_str());
            assert(out@ =~= stem + " (copy "@ + decimal(suffix as nat) + ")."@ + extension@);
        },
        None => {
            out.append(")");
            assert(out@ =~= stem + " (copy "@ + decimal(suffix as nat) + ")"@);
        },
    }
    out
}


/* ------------------------------------------------------------------------ */
/*  Conflict resolution                                                     */
/* ------------------------------------------------------------------------ */

/// Standing policy for name conflicts at the destination.
#[derive(Debug, Clone, Copy, PartialEq, Eq, Structural)]
pub enum ConflictPolicy {
    /// Ask the user about each conflict.
    Ask,
    /// Skip conflicting entries.
    Skip,
    /// Overwrite conflicting entries.
    Overwrite,
    /// Give the new entry a copy name.
    RenameNew,
    /// Keep the newer entry.
    KeepNewer,
}

/// How one conflict is resolved.
#[derive(Debug, Clone, Copy, PartialEq, Eq, Structural)]
pub enum ConflictResolution {
    /// Skip the entry.
    Skip,
    /// Overwrite the existing entry.
    Overwrite,
    /// Give the new entry a copy name.
    RenameNew,
}

/// The resolution a policy implies when no explicit one was given.
pub open spec fn policy_resolution(policy: ConflictPolicy) -> Option<ConflictResolution> {
    match policy {
        ConflictPolicy::Ask => None,
        ConflictPolicy::Skip => Some(ConflictResolution::Skip),
        ConflictPolicy::Overwrite => Some(ConflictResolution::Overwrite),
        ConflictPolicy::RenameNew => Some(ConflictResolution::RenameNew),
        ConflictPolicy::KeepNewer => None,
    }
}

/// An explicit resolution wins; otherwise the policy decides, and `Ask` or
/// `KeepNewer` leave the conflict to be reported.
pub fn effective_resolution(policy: ConflictPolicy, resolution: Option<ConflictResolution>) -> (r:
    Option<ConflictResolution>)
    ensures
        r == (match resolution {
            Some(x) => Some(x),
            None => policy_resolution(policy),
        }),
{
    match resolution {
        Some(x) => Some(x),
        None => match policy {
            ConflictPolicy::Ask => None,
            ConflictPolicy::Skip => Some(ConflictResolution::Skip),
            ConflictPolicy::Overwrite => Some(ConflictResolution::Overwrite),
            ConflictPolicy::RenameNew => Some(ConflictResolution::RenameNew),
            ConflictPolicy::KeepNewer => None,
        },
    }
}

/// What the destination answered when a finished temporary copy was
/// committed under its final name.
#[derive(Debug, Clone, Copy, PartialEq, Eq, Structural)]
pub enum CommitOutcome {
    /// The copy now stands under the name.
    Committed,
    /// An entry already stands under the name.
    AlreadyExists,
    /// Any other failure.
    Failed,
}

/// The next step of committing a copy.
#[derive(Debug, Clone, Copy, PartialEq, Eq, Structural)]
pub enum CommitStep {
    /// The copy is in place.
    Done,
    /// Commit again under the copy name with suffix `suffix`; the suffix after
    /// it is `next_suffix`.
    RetryAsCopy {
        /// Suffix of the copy name to try now.
        suffix: u32,
        /// Suffix to try after that one.
        next_suffix: u32,
    },
    /// Discard the temporary and report the conflict to the user.
    ReportConflict,
    /// Fail with the destination's error.
    Fail,
}

/// Decides the next step after a commit attempt: a taken name is renamed
/// when the resolution says `RenameNew`, reported when nothing was decided,
/// and otherwise fails like any error.
pub fn commit_step(effective: Option<ConflictResolution>, outcome: CommitOutcome, suffix: u32) -> (r:
    CommitStep)
    ensures
        r == (match outcome {
            CommitOutcome::Committed => CommitStep::Done,
            CommitOutcome::AlreadyExists => match effective {
                Some(ConflictResolution::RenameNew) => CommitStep::RetryAsCopy {
                    suffix,
                    next_suffix: if suffix == u32::MAX {
                        u32::MAX
                    } else {
                        (suffix + 1) as u32
                    },
                },
                None => CommitStep::ReportConflict,
                _ => CommitStep::Fail,
            },
            CommitOutcome::Failed => CommitStep::Fail,
        }),
{
    match outcome {
        CommitOutcome::Committed => CommitStep::Done,
        CommitOutcome::AlreadyExists => match effective {
            Some(ConflictResolution::RenameNew) => CommitStep::RetryAsCopy {
                suffix,
                next_suffix: suffix.saturating_add(1),
            },
            None => CommitStep::ReportConflict,
            _ => CommitStep::Fail,
        },
        CommitOutcome::Failed => CommitStep::Fail,
    }
}

/// How a copy is committed: whether it may replace an existing entry and
/// whether the source's timestamps and permissions are carried across.
#[derive(Debug, Clone, Copy, PartialEq, Eq, Structural)]
pub struct CommitOptions {
    /// Replace an entry already under the name.
    pub overwrite: bool,
    /// Carry the source's metadata across.
    pub preserve_metadata: bool,
}

/// Overwrites only when the resolution says so, and preserves metadata only
/// on one backend that can set timestamps.
pub fn commit_options(
    plan: TransferPlan,
    effective: Option<ConflictResolution>,
    destination_sets_timestamps: bool,
) -> (r: CommitOptions)
    ensures
        r.overwrite == (effective == Some(ConflictResolution::Overwrite)),
        r.preserve_metadata == (plan.same_endpoint && destination_sets_timestamps),
{
    CommitOptions {
        overwrite: match effective {
            Some(ConflictResolution::Overwrite) => true,
            _ => false,
        },
        preserve_metadata: plan.same_endpoint && destination_sets_timestamps,
    }
}

/// Kind of a file-system entry.
#[derive(Debug, Clone, Copy, PartialEq, Eq, Structural)]
pub enum EntryKind {
    /// A regular file.
    File,
    /// A directory.
    Directory,
    /// A symbolic link.
    Symlink,
}

/// What copying an entry does when its destination already exists.
#[derive(Debug, Clone, Copy, PartialEq, Eq, Structural)]
pub enum ExistingDestinationStep {
    /// A file and a directory cannot replace one another: the copy fails.
    KindMismatch,
    /// Nothing decided the conflict: it is reported to the user.
    ReportConflict,
    /// The entry is skipped.
    Skip,
    /// The existing entry is replaced.
    Overwrite {
        /// A directory is merged into the existing one rather than recreated.
        reuse_directory: bool,
        /// The existing entry is removed before the copy is written.
        remove_existing: bool,
    },
    /// The copy is written under the next free copy name.
    RenameNew {
        /// The copy is the operation's root directory, so every planned
        /// destination beneath it moves to the new name too.
        rebase_descendants: bool,
    },
}

/// Decides how copying an entry proceeds when its destination exists.
pub fn existing_destination_step(
    source_kind: EntryKind,
    destination_kind: EntryKind,
    planned_kind: EntryKind,
    is_root: bool,
    effective: Option<ConflictResolution>,
) -> (r: ExistingDestinationStep)
    ensures
        r == (if source_kind != destination_kind {
            ExistingDestinationStep::KindMismatch
        } else {
            match effective {
                None => ExistingDestinationStep::ReportConflict,
                Some(ConflictResolution::Skip) => ExistingDestinationStep::Skip,
                Some(ConflictResolution::Overwrite) => ExistingDestinationStep::Overwrite {
                    reuse_directory: planned_kind == EntryKind::Directory,
                    remove_existing: planned_kind == EntryKind::Symlink,
                },
                Some(ConflictResolution::RenameNew) => ExistingDestinationStep::RenameNew {
                    rebase_descendants: is_root && planned_kind == EntryKind::Directory,
                },
            }
        }),
{
    if source_kind != destination_kind {
        return ExistingDestinationStep::KindMismatch;
    }
    match effective {
        None => ExistingDestinationStep::ReportConflict,
        Some(ConflictResolution::Skip) => ExistingDestinationStep::Skip,
        Some(ConflictResolution::Overwrite) => {
            let reuse_directory = planned_kind == EntryKind::Directory;
            ExistingDestinationStep::Overwrite {
                reuse_directory,
                remove_existing: planned_kind != EntryKind::File && !reuse_directory,
            }
        },
        Some(ConflictResolution::RenameNew) => ExistingDestinationStep::RenameNew {
            rebase_descendants: is_root && planned_kind == EntryKind::Directory,
        },
    }
}

/// How one planned entry is written at its destination.
#[derive(Debug, Clone, Copy, PartialEq, Eq, Structural)]
pub enum CopyAction {
    /// The existing directory is kept and merged into.
    KeepDirectory,
    /// A directory is created.
    CreateDirectory,
    /// The symbolic link is copied as a link.
    CopySymlink,
    /// The file's bytes are copied.
    CopyFile,
}

/// Chooses how a planned entry is written.
pub fn copy_action(planned_kind: EntryKind, reuse_directory: bool) -> (r: CopyAction)
    ensures
        r == (if reuse_directory {
            CopyAction::KeepDirectory
        } else {
            match planned_kind {
                EntryKind::Directory => CopyAction::CreateDirectory,
                EntryKind::Symlink => CopyAction::CopySymlink,
                EntryKind::File => CopyAction::CopyFile,
            }
        }),
{
    if reuse_directory {
        CopyAction::KeepDirectory
    } else {
        match planned_kind {
            EntryKind::Directory => CopyAction::CreateDirectory,
            EntryKind::Symlink => CopyAction::CopySymlink,
            EntryKind::File => CopyAction::CopyFile,
        }
    }
}

/// How writing one entry ended.
#[derive(Debug, Clone, Copy, PartialEq, Eq, Structural)]
pub enum CopyResult {
    /// The entry was written.
    Completed,
    /// The entry was skipped.
    Skipped,
    /// Writing failed.
    Failed,
}

/// What is recorded once one entry has been written.
#[derive(Debug, Clone, Copy, PartialEq, Eq, Structural)]
pub struct CopyBookkeeping {
    /// The failure becomes a warning and the operation goes on.
    pub failure_is_warning: bool,
    /// The destination is recorded as created by this operation.
    pub record_created: bool,
    /// The destination is recorded as the operation's completed root.
    pub record_root: bool,
}

/// Records the end of writing one entry: a failure below the root of an
/// operation that continues on errors becomes a warning; a completed entry
/// that was newly written is recorded as created; a root that did not fail
/// is recorded as the operation's root.
pub fn copy_bookkeeping(
    result: CopyResult,
    continue_on_error: bool,
    is_root: bool,
    reuse_directory: bool,
) -> (r: CopyBookkeeping)
    ensures
        r.failure_is_warning == (result == CopyResult::Failed && continue_on_error && !is_root),
        r.record_created == (result == CopyResult::Completed && !reuse_directory),
        r.record_root == (result != CopyResult::Failed && is_root),
{
    CopyBookkeeping {
        failure_is_warning: result == CopyResult::Failed && continue_on_error && !is_root,
        record_created: result == CopyResult::Completed && !reuse_directory,
        record_root: result != CopyResult::Failed && is_root,
    }
}

/// Whether a move asks the provider for an in-place rename: only when the
/// plan allows a server-side move and no fallback is forced; the provider
/// still decides whether both sides share a filesystem.
pub fn attempts_native_move(force_fallback: bool, plan: TransferPlan) -> (r: bool)
    ensures
        r == (!force_fallback && plan.move_strategy == MoveStrategy::ServerSideMove),
{
    !force_fallback && plan.move_strategy == MoveStrategy::ServerSideMove
}

/// Refuses deleting a read-only entry unless the request overrides
/// read-only entries or the delete still awaits the user's confirmation.
pub fn check_read_only_delete(
    read_only: bool,
    override_read_only: bool,
    requires_confirmation: bool,
    uri: &str,
) -> (r: Result<(), String>)
    ensures
        (read_only && !override_read_only && !requires_confirmation) ==> (r matches Err(m) && m@
            == "read-only entry requires explicit override: "@ + uri@),
        !(read_only && !override_read_only && !requires_confirmation) ==> r is Ok,
{
    if read_only && !override_read_only && !requires_confirmation {
        let mut m = String::from_str("read-only entry requires explicit override: ");
        m.append(uri);
        Err(m)
    } else {
        Ok(())
    }
}

/* ------------------------------------------------------------------------ */
/*  Start requests                                                          */
/* ------------------------------------------------------------------------ */

/// A location: the provider that owns it and the entry's address there.
#[derive(Debug, PartialEq, Eq)]
pub struct Location {
    /// Owning provider.
    pub provider_id: String,
    /// Address of the entry within the provider.
    pub uri: String,
}

impl Clone for Location {
    fn clone(&self) -> (r: Self)
        ensures
            r == *self,
    {
        Location { provider_id: self.provider_id.clone(), uri: self.uri.clone() }
    }
}

/// Clones a list of locations, keeping each equal.
pub fn clone_locations(v: &Vec<Location>) -> (r: Vec<Location>)
    ensures
        r@ == v@,
{
    let mut out: Vec<Location> = Vec::new();
    let mut i: usize = 0;
    while i < v.len()
        invariant
            i <= v.len(),
            out@ == v@.take(i as int),
        decreases v.len() - i,
    {
        out.push(v[i].clone());
        i = i + 1;
        assert(out@ =~= v@.take(i as int));
    }
    assert(v@.take(v.len() as int) =~= v@);
    out
}

/// Kind of operation a start request names.
#[derive(Debug, Clone, Copy, PartialEq, Eq, Structural)]
pub enum OperationKind {
    /// Copy entries into a directory.
    Copy,
    /// Move entries into a directory.
    Move,
    /// Copy entries next to themselves.
    Duplicate,
    /// Rename entries.
    Rename,
    /// Delete entries permanently.
    Delete,
    /// Move entries to the platform trash.
    Trash,
    /// Create a directory.
    CreateDirectory,
    /// Create an empty file.
    CreateFile,
    /// Create an archive of entries.
    CreateArchive,
    /// Create an archive of entries, then remove them.
    MoveToArchive,
    /// Undo a completed operation.
    Undo,
    /// Search.
    Search,
    /// Compare.
    Compare,
}

/// What a start request carries that planning reads.
#[derive(Debug)]
pub struct OperationRequest {
    /// Entries the operation acts on.
    pub sources: Vec<Location>,
    /// Destination directory, archive or new name.
    pub destination: Option<Location>,
    /// One destination per source, for a group rename.
    pub destinations: Vec<Location>,
    /// Name of an entry to create.
    pub name: Option<String>,
    /// Requested archive format.
    pub archive_format: Option<ArchiveFormat>,
    /// Requested archive compression level.
    pub archive_compression_level: Option<i64>,
    /// Create missing parent directories.
    pub create_intermediate_directories: bool,
    /// The user already confirmed a permanent delete.
    pub permanent_delete_confirmed: bool,
    /// Delete read-only entries too.
    pub override_read_only: bool,
}

/// Why planning refused a request.
#[derive(Debug, Clone, PartialEq, Eq)]
pub enum PlanRejection {
    /// The request is malformed; the text says why.
    InvalidRequest(String),
    /// The platform has no trash.
    TrashUnsupported,
}

/// The executor a request needs, with what it is built from.
#[derive(Debug)]
pub enum OperationRecipe {
    /// Archive `sources` into `destination`, removing them after when `remove_sources`.
    CreateArchive {
        /// Archive to create.
        destination: Location,
        /// Entries to archive.
        sources: Vec<Location>,
        /// Archive format.
        format: ArchiveCreationFormat,
        /// Compression level.
        compression_level: u32,
        /// Remove the sources once archived.
        remove_sources: bool,
    },
    /// Create directory `name` in `parent`.
    CreateDirectory {
        /// Parent directory.
        parent: Location,
        /// New directory's name.
        name: String,
        /// Create missing parents too.
        create_intermediates: bool,
    },
    /// Create empty file `name` in `parent`.
    CreateFile {
        /// Parent directory.
        parent: Location,
        /// New file's name.
        name: String,
    },
    /// Rename one entry.
    Rename {
        /// Entry to rename.
        source: Location,
        /// Its new location.
        destination: Location,
    },
    /// Rename several entries, each to its own destination.
    RenameGroup {
        /// Entries to rename, paired with their new locations.
        renames: Vec<(Location, Location)>,
    },
    /// Copy `sources` into `destination_directory`.
    Copy {
        /// Entries to copy.
        sources: Vec<Location>,
        /// Directory receiving the copies.
        destination_directory: Location,
    },
    /// Move `sources` into `destination_directory`.
    Move {
        /// Entries to move.
        sources: Vec<Location>,
        /// Directory receiving the entries.
        destination_directory: Location,
    },
    /// Copy each source next to itself.
    Duplicate {
        /// Entries to duplicate.
        sources: Vec<Location>,
    },
    /// Delete `sources` permanently.
    Delete {
        /// Entries to delete.
        sources: Vec<Location>,
        /// Delete read-only entries too.
        override_read_only: bool,
        /// The user must still confirm.
        requires_confirmation: bool,
    },
    /// Move the operation's sources to the trash.
    Trash,
}

/// Whether every source stays on its destination's provider.
pub open spec fn renames_stay_on_provider(sources: Seq<Location>, destinations: Seq<Location>) -> bool {
    forall|i: int|
        0 <= i < sources.len() ==> #[trigger] sources[i].provider_id@ == destinations[i].provider_id@
}

/// Why a request of `kind` is refused, if it is.
pub open spec fn plan_rejection(kind: OperationKind, req: OperationRequest, trash_supported: bool) -> Option<
    Seq<char>,
> {
    match kind {
        OperationKind::CreateArchive | OperationKind::MoveToArchive => if req.sources.len() == 0 {
            Some("createArchive requires at least one source"@)
        } else {
            match req.destination {
                None => Some("createArchive requires an archive destination"@),
                Some(d) => match archive_format_rejection(d.uri@, req.archive_format) {
                    Some(m) => Some(m),
                    None => compression_level_rejection(
                        inferred_archive_format(d.uri@)->0,
                        req.archive_compression_level,
                    ),
                },
            }
        },
        OperationKind::CreateDirectory => if req.destination is None {
            Some("createDirectory requires a destination directory"@)
        } else if req.name is None {
            Some("createDirectory requires a name"@)
        } else {
            None
        },
        OperationKind::CreateFile => if req.destination is None {
            Some("createFile requires a destination directory"@)
        } else if req.name is None {
            Some("createFile requires a name"@)
        } else {
            None
        },
        OperationKind::Rename => if req.destinations.len() == 0 {
            if req.sources.len() != 1 {
                Some("rename requires exactly one source, or a destinations entry per source"@)
            } else {
                match req.destination {
                    None => Some("rename requires a destination"@),
                    Some(d) => if req.sources@[0].provider_id@ != d.provider_id@ {
                        Some("rename cannot cross providers"@)
                    } else {
                        None
                    },
                }
            }
        } else if req.sources.len() == 0 {
            Some("rename requires at least one source"@)
        } else if req.destinations.len() != req.sources.len() {
            Some("rename destinations must include exactly one entry per source"@)
        } else if !renames_stay_on_provider(req.sources@, req.destinations@) {
            Some("rename cannot cross providers"@)
        } else {
            None
        },
        OperationKind::Copy => if req.sources.len() == 0 {
            Some("copy requires at least one source"@)
        } else if req.destination is None {
            Some("copy requires a destination directory"@)
        } else {
            None
        },
        OperationKind::Move => if req.sources.len() == 0 {
            Some("move requires at least one source"@)
        } else if req.destination is None {
            Some("move requires a destination directory"@)
        } else {
            None
        },
        OperationKind::Duplicate => if req.sources.len() == 0 {
            Some("duplicate requires at least one source"@)
        } else {
            None
        },
        OperationKind::Delete => if req.sources.len() == 0 {
            Some("delete requires at least one source"@)
        } else {
            None
        },
        OperationKind::Trash => if req.sources.len() == 0 {
            Some("trash requires at least one source"@)
        } else {
            None
        },
        OperationKind::Undo => Some("undo must target a completed operation through the undo endpoint"@),
        OperationKind::Search => Some("search is handled via start_search, not the operation executor"@),
        OperationKind::Compare => Some(
            "compare is handled via start_comparison, not the operation executor"@,
        ),
    }
}

/// Whether a trash request is refused only because the platform has no trash.
pub open spec fn trash_refused(kind: OperationKind, req: OperationRequest, trash_supported: bool) -> bool {
    kind == OperationKind::Trash && req.sources.len() > 0 && !trash_supported
}

/// Whether `r` is the executor an accepted request of `kind` needs.
pub open spec fn recipe_for(
    kind: OperationKind,
    req: OperationRequest,
    confirm_permanent_delete: bool,
    r: OperationRecipe,
) -> bool {
    match kind {
        OperationKind::CreateArchive | OperationKind::MoveToArchive => r matches OperationRecipe::CreateArchive {
            destination,
            sources,
            format,
            compression_level,
            remove_sources,
        } && req.destination == Some(destination) && sources@ == req.sources@ && Some(format)
            == inferred_archive_format(destination.uri@) && compression_level
            == compression_level_for(format, req.archive_compression_level) && remove_sources == (
        kind == OperationKind::MoveToArchive),
        OperationKind::CreateDirectory => r matches OperationRecipe::CreateDirectory {
            parent,
            name,
            create_intermediates,
        } && req.destination == Some(parent) && req.name == Some(name) && create_intermediates
            == req.create_intermediate_directories,
        OperationKind::CreateFile => r matches OperationRecipe::CreateFile { parent, name }
            && req.destination == Some(parent) && req.name == Some(name),
        OperationKind::Rename => if req.destinations.len() == 0 {
            r matches OperationRecipe::Rename { source, destination } && source == req.sources@[0]
                && req.destination == Some(destination)
        } else {
            r matches OperationRecipe::RenameGroup { renames } && renames.len() == req.sources.len()
                && forall|i: int|
                0 <= i < renames.len() ==> #[trigger] renames@[i] == (
                    req.sources@[i],
                    req.destinations@[i],
                )
        },
        OperationKind::Copy => r matches OperationRecipe::Copy { sources, destination_directory }
            && sources@ == req.sources@ && req.destination == Some(destination_directory),
        OperationKind::Move => r matches OperationRecipe::Move { sources, destination_directory }
            && sources@ == req.sources@ && req.destination == Some(destination_directory),
        OperationKind::Duplicate => r matches OperationRecipe::Duplicate { sources } && sources@
            == req.sources@,
        OperationKind::Delete => r matches OperationRecipe::Delete {
            sources,
            override_read_only,
            requires_confirmation,
        } && sources@ == req.sources@ && override_read_only == req.override_read_only
            && requires_confirmation == (confirm_permanent_delete
            && !req.permanent_delete_confirmed),
        OperationKind::Trash => r is Trash,
        _ => false,
    }
}

/// A refusal carrying `message`.
fn reject(message: &str) -> (r: PlanRejection)
    ensures
        r matches PlanRejection::InvalidRequest(t) && t@ == message@,
{
    PlanRejection::InvalidRequest(String::from_str(message))
}

/// Turns an invalid-request error into a refusal with the same text.
fn rejection_of(e: ApplicationError) -> (r: PlanRejection)
    ensures
        e matches ApplicationError::InvalidRequest(t) ==> r == PlanRejection::InvalidRequest(t),
{
    match e {
        ApplicationError::InvalidRequest(t) => PlanRejection::InvalidRequest(t),
        _ => PlanRejection::InvalidRequest(String::new()),
    }
}

/// Plans the executor a start request needs.
///
/// A malformed request is refused with the reason that `plan_rejection`
/// gives; a trash request on a platform without trash is refused as such.
/// An accepted request yields the executor's recipe, built from the
/// request's own locations; a permanent delete still needs confirmation when
/// the setting asks for it and the request has not confirmed it already.
pub fn plan_operation(
    kind: OperationKind,
    request: &OperationRequest,
    trash_supported: bool,
    confirm_permanent_delete: bool,
) -> (r: Result<OperationRecipe, PlanRejection>)
    ensures
        match plan_rejection(kind, *request, trash_supported) {
            Some(m) => r matches Err(PlanRejection::InvalidRequest(t)) && t@ == m,
            None => if trash_refused(kind, *request, trash_supported) {
                r == Err::<OperationRecipe, PlanRejection>(PlanRejection::TrashUnsupported)
            } else {
                r matches Ok(recipe) && recipe_for(kind, *request, confirm_permanent_delete, recipe)
            },
        },
{
    match kind {
        OperationKind::CreateArchive | OperationKind::MoveToArchive => {
            if request.sources.len() == 0 {
                return Err(reject("createArchive requires at least one source"));
            }
            let destination = match &request.destination {
                Some(d) => d.clone(),
                None => {
                    return Err(reject("createArchive requires an archive destination"));
                },
            };
            let format = match ArchiveCreationFormat::from_request(
                destination.uri.as_str(),
                request.archive_format,
            ) {
                Ok(f) => f,
                Err(e) => {
                    return Err(rejection_of(e));
                },
            };
            let compression_level = match archive_compression_level(
                format,
                request.archive_compression_level,
            ) {
                Ok(level) => level,
                Err(e) => {
                    return Err(rejection_of(e));
                },
            };
            let remove_sources = match kind {
                OperationKind::MoveToArchive => true,
                _ => false,
            };
            Ok(
                OperationRecipe::CreateArchive {
                    destination,
                    sources: clone_locations(&request.sources),
                    format,
                    compression_level,
                    remove_sources,
                },
            )
        },
        OperationKind::CreateDirectory => {
            let parent = match &request.destination {
                Some(d) => d.clone(),
                None => {
                    return Err(reject("createDirectory requires a destination directory"));
                },
            };
            let name = match &request.name {
                Some(n) => n.clone(),
                None => {
                    return Err(reject("createDirectory requires a name"));
                },
            };
            Ok(
                OperationRecipe::CreateDirectory {
                    parent,
                    name,
                    create_intermediates: request.create_intermediate_directories,
                },
            )
        },
        OperationKind::CreateFile => {
            let parent = match &request.destination {
                Some(d) => d.clone(),
                None => {
                    return Err(reject("createFile requires a destination directory"));
                },
            };
            let name = match &request.name {
                Some(n) => n.clone(),
                None => {
                    return Err(reject("createFile requires a name"));
                },
            };
            Ok(OperationRecipe::CreateFile { parent, name })
        },
        OperationKind::Rename => {
            if request.destinations.len() == 0 {
                if request.sources.len() != 1 {
                    return Err(
                        reject(
                            "rename requires exactly one source, or a destinations entry per source",
                        ),
                    );
                }
                let destination = match &request.destination {
                    Some(d) => d.clone(),
                    None => {
                        return Err(reject("rename requires a destination"));
                    },
                };
                let source = request.sources[0].clone();
                if !same_text(source.provider_id.as_str(), destination.provider_id.as_str()) {
                    return Err(reject("rename cannot cross providers"));
                }
                return Ok(OperationRecipe::Rename { source, destination });
            }
            if request.sources.len() == 0 {
                return Err(reject("rename requires at least one source"));
            }
            if request.destinations.len() != request.sources.len() {
                return Err(reject("rename destinations must include exactly one entry per source"));
            }
            let n = request.sources.len();
            let mut renames: Vec<(Location, Location)> = Vec::new();
            let mut i: usize = 0;
            while i < n
                invariant
                    kind == OperationKind::Rename,
                    n == request.sources.len(),
                    n == request.destinations.len(),
                    i <= n,
                    renames.len() == i,
                    forall|j: int|
                        0 <= j < i ==> #[trigger] renames@[j] == (
                            request.sources@[j],
                            request.destinations@[j],
                        ),
                    forall|j: int|
                        0 <= j < i ==> #[trigger] request.sources@[j].provider_id@
                            == request.destinations@[j].provider_id@,
                decreases n - i,
            {
                let source = request.sources[i].clone();
                let destination = request.destinations[i].clone();
                if !same_text(source.provider_id.as_str(), destination.provider_id.as_str()) {
                    assert(!renames_stay_on_provider(request.sources@, request.destinations@));
                    return Err(reject("rename cannot cross providers"));
                }
                renames.push((source, destination));
                i = i + 1;
            }
            Ok(OperationRecipe::RenameGroup { renames })
        },
        OperationKind::Copy => {
            if request.sources.len() == 0 {
                return Err(reject("copy requires at least one source"));
            }
            let destination_directory = match &request.destination {
                Some(d) => d.clone(),
                None => {
                    return Err(reject("copy requires a destination directory"));
                },
            };
            Ok(
                OperationRecipe::Copy {
                    sources: clone_locations(&request.sources),
                    destination_directory,
                },
            )
        },
        OperationKind::Move => {
            if request.sources.len() == 0 {
                return Err(reject("move requires at least one source"));
            }
            let destination_directory = match &request.destination {
                Some(d) => d.clone(),
                None => {
                    return Err(reject("move requires a destination directory"));
                },
            };
            Ok(
                OperationRecipe::Move {
                    sources: clone_locations(&request.sources),
                    destination_directory,
                },
            )
        },
        OperationKind::Duplicate => {
            if request.sources.len() == 0 {
                return Err(reject("duplicate requires at least one source"));
            }
            Ok(OperationRecipe::Duplicate { sources: clone_locations(&request.sources) })
        },
        OperationKind::Delete => {
            if request.sources.len() == 0 {
                return Err(reject("delete requires at least one source"));
            }
            Ok(
                OperationRecipe::Delete {
                    sources: clone_locations(&request.sources),
                    override_read_only: request.override_read_only,
                    requires_confirmation: confirm_permanent_delete
                        && !request.permanent_delete_confirmed,
                },
            )
        },
        OperationKind::Trash => {
            if request.sources.len() == 0 {
                return Err(reject("trash requires at least one source"));
            }
            if !trash_supported {
                return Err(PlanRejection::TrashUnsupported);
            }
            Ok(OperationRecipe::Trash)
        },
        OperationKind::Undo => Err(
            reject("undo must target a completed operation through the undo endpoint"),
        ),
        OperationKind::Search => Err(
            reject("search is handled via start_search, not the operation executor"),
        ),
        OperationKind::Compare => Err(
            reject("compare is handled via start_comparison, not the operation executor"),
        ),
    }
}

/* ------------------------------------------------------------------------ */
/*  Undo                                                                    */
/* ------------------------------------------------------------------------ */

/// How an undo is carried out.
#[derive(Debug, Clone, Copy, PartialEq, Eq, Structural)]
pub enum UndoShape {
    /// Each inverse action is applied in place.
    InPlace,
    /// The one inverse action, at this index, moves an entry back across
    /// providers, guarded by the in-place checks.
    CrossProviderMoveBack {
        /// Index of the action.
        index: usize,
    },
}

/// Index of the first cross-provider move-back among the inverse actions.
pub open spec fn first_cross_provider(flags: Seq<bool>) -> Option<int> {
    if exists|i: int| 0 <= i < flags.len() && flags[i] {
        Some(choose|i: int| 0 <= i < flags.len() && flags[i] && forall|j: int| 0 <= j < i ==> !flags[j])
    } else {
        None
    }
}

/// Decides how an undo plan is carried out, given for each inverse action
/// whether it moves an entry back across providers. A plan without actions
/// has nothing to undo; a cross-provider move-back must be the only action.
pub fn undo_shape(cross_provider: &Vec<bool>) -> (r: Result<UndoShape, PlanRejection>)
    ensures
        cross_provider.len() == 0 ==> (r matches Err(PlanRejection::InvalidRequest(t)) && t@
            == "This operation has no effects to undo."@),
        cross_provider.len() > 0 ==> match first_cross_provider(cross_provider@) {
            None => r == Ok::<UndoShape, PlanRejection>(UndoShape::InPlace),
            Some(i) => if cross_provider.len() != 1 {
                r matches Err(PlanRejection::InvalidRequest(t)) && t@
                    == "Cross-provider undo cannot be combined with other inverse actions."@
            } else {
                r == Ok::<UndoShape, PlanRejection>(
                    UndoShape::CrossProviderMoveBack { index: i as usize },
                )
            },
        },
{
    if cross_provider.len() == 0 {
        return Err(reject("This operation has no effects to undo."));
    }
    let mut i: usize = 0;
    while i < cross_provider.len()
        invariant
            i <= cross_provider.len(),
            forall|j: int| 0 <= j < i ==> !cross_provider@[j],
        decreases cross_provider.len() - i,
    {
        if cross_provider[i] {
            let ghost k = first_cross_provider(cross_provider@)->0;
            assert(cross_provider@[i as int]);
            assert(k == i) by {
                let c = choose|m: int|
                    0 <= m < cross_provider@.len() && cross_provider@[m] && forall|j: int|
                        0 <= j < m ==> !cross_provider@[j];
                assert(0 <= c < cross_provider@.len() && cross_provider@[c] && forall|j: int|
                    0 <= j < c ==> !cross_provider@[j]);
                if c < i {
                } else if c > i {
                    assert(!cross_provider@[i as int]);
                }
            }
            if cross_provider.len() != 1 {
                return Err(reject("Cross-provider undo cannot be combined with other inverse actions."));
            }
            return Ok(UndoShape::CrossProviderMoveBack { index: i });
        }
        i = i + 1;
    }
    Ok(UndoShape::InPlace)
}

/// The move request that carries a cross-provider move-back out: the
/// entry's current root moves into the original's parent, asking about
/// conflicts, with no other option set.
pub fn undo_move_request(current_root: Location, original_parent: Location) -> (r: OperationRequest)
    ensures
        r.sources@ == seq![current_root],
        r.destination == Some(original_parent),
        r.destinations@.len() == 0,
        r.name is None,
        r.archive_format is None,
        r.archive_compression_level is None,
        !r.create_intermediate_directories,
        !r.permanent_delete_confirmed,
        !r.override_read_only,
{
    let mut sources: Vec<Location> = Vec::new();
    sources.push(current_root);
    OperationRequest {
        sources,
        destination: Some(original_parent),
        destinations: Vec::new(),
        name: None,
        archive_format: None,
        archive_compression_level: None,
        create_intermediate_directories: false,
        permanent_delete_confirmed: false,
        override_read_only: false,
    }
}

/// A rename that planning accepts never crosses providers: each source
/// stays on the provider of its destination.
pub proof fn law_accepted_renames_stay_on_provider(req: OperationRequest, trash_supported: bool)
    requires
        plan_rejection(OperationKind::Rename, req, trash_supported) is None,
    ensures
        req.destinations.len() == 0 ==> req.sources.len() == 1 && req.destination is Some
            && req.sources@[0].provider_id@ == req.destination->0.provider_id@,
        req.destinations.len() > 0 ==> req.sources.len() == req.destinations.len()
            && renames_stay_on_provider(req.sources@, req.destinations@),
{
}

/// Every request that planning accepts, of any kind that acts on sources,
/// names at least one source.
pub proof fn law_accepted_requests_have_sources(
    kind: OperationKind,
    req: OperationRequest,
    trash_supported: bool,
)
    requires
        plan_rejection(kind, req, trash_supported) is None,
        kind != OperationKind::CreateDirectory,
        kind != OperationKind::CreateFile,
    ensures
        req.sources.len() > 0,
{
}

/// An accepted copy request is planned as a copy, never as a move: the
/// plan is not refused, and the only recipe it can yield copies exactly the
/// request's sources into the request's destination directory, leaving the
/// sources in place.
pub proof fn law_accepted_copy_is_planned_as_a_copy(
    req: OperationRequest,
    trash_supported: bool,
    confirm_permanent_delete: bool,
    recipe: OperationRecipe,
)
    requires
        req.sources.len() > 0,
        req.destination is Some,
    ensures
        plan_rejection(OperationKind::Copy, req, trash_supported) is None,
        !trash_refused(OperationKind::Copy, req, trash_supported),
        recipe_for(OperationKind::Copy, req, confirm_permanent_delete, recipe) ==> {
            &&& !(recipe is Move)
            &&& recipe matches OperationRecipe::Copy { sources, destination_directory }
            &&& sources@ == req.sources@
            &&& Some(destination_directory) == req.destination
        },
{
}

/// An accepted move request is planned as a move of exactly the request's
/// sources into its destination directory, never as a copy.
pub proof fn law_accepted_move_is_planned_as_a_move(
    req: OperationRequest,
    trash_supported: bool,
    confirm_permanent_delete: bool,
    recipe: OperationRecipe,
)
    requires
        req.sources.len() > 0,
        req.destination is Some,
    ensures
        plan_rejection(OperationKind::Move, req, trash_supported) is None,
        !trash_refused(OperationKind::Move, req, trash_supported),
        recipe_for(OperationKind::Move, req, confirm_permanent_delete, recipe) ==> {
            &&& !(recipe is Copy)
            &&& recipe matches OperationRecipe::Move { sources, destination_directory }
            &&& sources@ == req.sources@
            &&& Some(destination_directory) == req.destination
        },
{
}

/// Every planned recipe is the executor of the requested kind: copies are
/// copies, moves are moves, duplicates, deletes and trash requests keep their
/// own executors, renames rename, creations create, and only a move into an
/// archive removes the archived sources.
pub proof fn law_recipe_follows_the_requested_kind(
    kind: OperationKind,
    req: OperationRequest,
    confirm_permanent_delete: bool,
    recipe: OperationRecipe,
)
    requires
        recipe_for(kind, req, confirm_permanent_delete, recipe),
    ensures
        (kind == OperationKind::Copy) <==> (recipe is Copy),
        (kind == OperationKind::Move) <==> (recipe is Move),
        (kind == OperationKind::Duplicate) <==> (recipe is Duplicate),
        (kind == OperationKind::Delete) <==> (recipe is Delete),
        (kind == OperationKind::Trash) <==> (recipe is Trash),
        (kind == OperationKind::Rename) <==> (recipe is Rename || recipe is RenameGroup),
        (kind == OperationKind::CreateFile) <==> (recipe is CreateFile),
        (kind == OperationKind::CreateDirectory) <==> (recipe is CreateDirectory),
        (kind == OperationKind::CreateArchive || kind == OperationKind::MoveToArchive) <==> (
        recipe is CreateArchive),
        recipe matches OperationRecipe::CreateArchive { remove_sources, .. } ==> (remove_sources
            <==> kind == OperationKind::MoveToArchive),
        recipe matches OperationRecipe::Delete { requires_confirmation, override_read_only, .. }
            ==> (requires_confirmation <==> (confirm_permanent_delete
            && !req.permanent_delete_confirmed)) && override_read_only == req.override_read_only,
{
}

} // verus!
