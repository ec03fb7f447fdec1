//! Operation coordination rules: which actions start which operations,
//! which conflict policies a start request may carry, replays of
//! idempotent starts, and how the operation list is paged.

use vstd::prelude::*;

use crate::error::ApplicationError;
use crate::operation_planner::{
    ConflictPolicy, ConflictResolution, Location, OperationKind, OperationRequest,
};
use crate::text::same_text;

verus! {

/// The operation a mutating action starts, if it starts one.
pub open spec fn action_operation(id: Seq<char>) -> Option<OperationKind> {
    if id == "core.pack"@ {
        Some(OperationKind::CreateArchive)
    } else if id == "core.moveToArchive"@ {
        Some(OperationKind::MoveToArchive)
    } else if id == "core.copy"@ {
        Some(OperationKind::Copy)
    } else if id == "core.move"@ {
        Some(OperationKind::Move)
    } else if id == "core.rename"@ {
        Some(OperationKind::Rename)
    } else if id == "core.trash"@ {
        Some(OperationKind::Trash)
    } else if id == "core.delete"@ {
        Some(OperationKind::Delete)
    } else if id == "core.createDirectory"@ {
        Some(OperationKind::CreateDirectory)
    } else if id == "core.createFile"@ {
        Some(OperationKind::CreateFile)
    } else if id == "core.duplicate"@ {
        Some(OperationKind::Duplicate)
    } else {
        None
    }
}

/// Maps a mutating action id to the operation it starts, or `None` for
/// actions with no backing operation.
pub fn mutating_operation_kind(id: &str) -> (r: Option<OperationKind>)
    ensures
        r == action_operation(id@),
{
    if same_text(id, "core.pack") {
        Some(OperationKind::CreateArchive)
    } else if same_text(id, "core.moveToArchive") {
        Some(OperationKind::MoveToArchive)
    } else if same_text(id, "core.copy") {
        Some(OperationKind::Copy)
    } else if same_text(id, "core.move") {
        Some(OperationKind::Move)
    } else if same_text(id, "core.rename") {
        Some(OperationKind::Rename)
    } else if same_text(id, "core.trash") {
        Some(OperationKind::Trash)
    } else if same_text(id, "core.delete") {
        Some(OperationKind::Delete)
    } else if same_text(id, "core.createDirectory") {
        Some(OperationKind::CreateDirectory)
    } else if same_text(id, "core.createFile") {
        Some(OperationKind::CreateFile)
    } else if same_text(id, "core.duplicate") {
        Some(OperationKind::Duplicate)
    } else {
        None
    }
}

/// Refuses the conflict policy that is not implemented yet, `KeepNewer`.
pub fn check_conflict_policy(policy: ConflictPolicy) -> (r: Result<(), ApplicationError>)
    ensures
        policy == ConflictPolicy::KeepNewer ==> (r matches Err(ApplicationError::InvalidRequest(m))
            && m@
            == "keepNewer conflict policy is not supported yet; choose ask, skip, overwrite, or renameNew"@),
        policy != ConflictPolicy::KeepNewer ==> r is Ok,
{
    match policy {
        ConflictPolicy::KeepNewer => Err(
            ApplicationError::InvalidRequest(
                String::from_str(
                    "keepNewer conflict policy is not supported yet; choose ask, skip, overwrite, or renameNew",
                ),
            ),
        ),
        _ => Ok(()),
    }
}

/// Operations already started under an idempotency key.
pub struct IdempotencyKeys {
    entries: Vec<(String, u128)>,
}

/// The operation started under `key`, looking from the earliest record.
pub open spec fn started_under(entries: Seq<(String, u128)>, key: Seq<char>) -> Option<u128>
    decreases entries.len(),
{
    if entries.len() == 0 {
        None
    } else if entries[0].0@ == key {
        Some(entries[0].1)
    } else {
        started_under(entries.drop_first(), key)
    }
}

impl IdempotencyKeys {
    /// The records, earliest first.
    pub closed spec fn spec_entries(&self) -> Seq<(String, u128)> {
        self.entries@
    }

    /// The operation started under `key`, if any.
    pub open spec fn spec_started(&self, key: Seq<char>) -> Option<u128> {
        started_under(self.spec_entries(), key)
    }

    /// No key has been used yet.
    pub fn new() -> (r: Self)
        ensures
            r.spec_entries().len() == 0,
    {
        IdempotencyKeys { entries: Vec::new() }
    }

    /// The operation an earlier start under `key` created, so that a replay
    /// returns it instead of starting a second one.
    pub fn replay(&self, key: &str) -> (r: Option<u128>)
        ensures
            r == self.spec_started(key@),
    {
        let mut i: usize = 0;
        assert(self.entries@.skip(0) =~= self.entries@);
        while i < self.entries.len()
            invariant
                i <= self.entries.len(),
                started_under(self.entries@, key@) == started_under(self.entries@.skip(i as int), key@),
            decreases self.entries.len() - i,
        {
            assert(self.entries@.skip(i as int)[0] == self.entries@[i as int]);
            if same_text(self.entries[i].0.as_str(), key) {
                return Some(self.entries[i].1);
            }
            assert(self.entries@.skip(i as int).drop_first() =~= self.entries@.skip(i as int + 1));
            i = i + 1;
        }
        None
    }

    /// Decides how a start request begins: the `KeepNewer` policy is refused
    /// before anything else, so a recorded key is never replayed for it;
    /// otherwise a key with a recorded start answers with that operation,
    /// and `None` means the request goes on to be planned.
    pub fn admit_start(&self, policy: ConflictPolicy, key: Option<&str>) -> (r: Result<
        Option<u128>,
        ApplicationError,
    >)
        ensures
            policy == ConflictPolicy::KeepNewer ==> (r matches Err(ApplicationError::InvalidRequest(m))
                && m@
                == "keepNewer conflict policy is not supported yet; choose ask, skip, overwrite, or renameNew"@),
            policy != ConflictPolicy::KeepNewer ==> r == Ok::<Option<u128>, ApplicationError>(
                match key {
                    Some(k) => self.spec_started(k@),
                    None => None,
                },
            ),
    {
        match check_conflict_policy(policy) {
            Err(e) => Err(e),
            Ok(()) => match key {
                Some(k) => Ok(self.replay(k)),
                None => Ok(None),
            },
        }
    }

    /// Records that `id` was started under `key`, unless a start under it
    /// is already recorded, which then keeps answering replays.
    pub fn record(&mut self, key: String, id: u128)
        ensures
            old(self).spec_started(key@) is None ==> final(self).spec_started(key@) == Some(id),
            old(self).spec_started(key@) is Some ==> final(self).spec_started(key@) == old(
                self,
            ).spec_started(key@),
            forall|other: Seq<char>|
                other != key@ ==> #[trigger] final(self).spec_started(other) == old(
                    self,
                ).spec_started(other),
    {
        let ghost before = self.entries@;
        self.entries.push((key, id));
        proof {
            lemma_started_after_push(before, key, id);
        }
    }
}

proof fn lemma_started_after_push(entries: Seq<(String, u128)>, key: String, id: u128)
    ensures
        started_under(entries, key@) is None ==> started_under(entries.push((key, id)), key@) == Some(id),
        started_under(entries, key@) is Some ==> started_under(entries.push((key, id)), key@)
            == started_under(entries, key@),
        forall|other: Seq<char>|
            other != key@ ==> #[trigger] started_under(entries.push((key, id)), other) == started_under(
                entries,
                other,
            ),
    decreases entries.len(),
{
    if entries.len() > 0 {
        lemma_started_after_push(entries.drop_first(), key, id);
        assert(entries.push((key, id)).drop_first() =~= entries.drop_first().push((key, id)));
        assert forall|other: Seq<char>| other != key@ implies #[trigger] started_under(
            entries.push((key, id)),
            other,
        ) == started_under(entries, other) by {
            assert(started_under(entries.drop_first().push((key, id)), other) == started_under(
                entries.drop_first(),
                other,
            ));
        }
    } else {
        assert(entries.push((key, id)).drop_first() =~= entries);
        assert forall|other: Seq<char>| other != key@ implies #[trigger] started_under(
            entries.push((key, id)),
            other,
        ) == started_under(entries, other) by {
            assert(started_under(entries, other) is None);
        }
    }
}

/// The smallest and largest page sizes the operation list accepts.
pub const MIN_PAGE_LIMIT: u16 = 1;
/// The largest page size the operation list accepts.
pub const MAX_PAGE_LIMIT: u16 = 100;

/// One page of a list: the limit in effect and the half-open range of
/// positions it shows.
#[derive(Debug, Clone, Copy, PartialEq, Eq, Structural)]
pub struct PageWindow {
    /// The limit in effect, within 1 to 100.
    pub limit: u16,
    /// First position shown.
    pub start: usize,
    /// Position after the last one shown.
    pub end: usize,
}

/// Pages a list of `len` items: the limit is clamped to 1..=100, the start
/// is the offset or the end of the list, and the page holds up to `limit`
/// items from there.
pub fn page_window(len: usize, offset: u64, limit: u16) -> (r: PageWindow)
    ensures
        r.limit == (if limit < MIN_PAGE_LIMIT {
            MIN_PAGE_LIMIT
        } else if limit > MAX_PAGE_LIMIT {
            MAX_PAGE_LIMIT
        } else {
            limit
        }),
        r.start == (if offset < len {
            offset as usize
        } else {
            len
        }),
        r.end == (if r.start + r.limit < len {
            (r.start + r.limit) as usize
        } else {
            len
        }),
        r.start <= r.end <= len,
{
    let limit = if limit < MIN_PAGE_LIMIT {
        MIN_PAGE_LIMIT
    } else if limit > MAX_PAGE_LIMIT {
        MAX_PAGE_LIMIT
    } else {
        limit
    };
    let start = if offset < len as u64 {
        offset as usize
    } else {
        len
    };
    let room = len - start;
    let end = if (limit as usize) < room {
        start + limit as usize
    } else {
        len
    };
    PageWindow { limit, start, end }
}

/// Why the operation scheduler refused a request.
#[derive(Debug, Clone, PartialEq, Eq)]
pub enum SchedulerFailure {
    /// No operation has the given identity.
    UnknownOperation,
    /// The operation cannot move to the requested state; the text says why.
    Transition(String),
    /// The operation failed to execute.
    Execution,
}

/// Maps a scheduler refusal: an unknown operation is not found, a refused
/// state change is an invalid request with its text, and an execution
/// failure is internal.
pub fn map_scheduler_error(error: SchedulerFailure) -> (r: ApplicationError)
    ensures
        match error {
            SchedulerFailure::UnknownOperation => r == ApplicationError::NotFound,
            SchedulerFailure::Transition(m) => r matches ApplicationError::InvalidRequest(t) && t@
                == m@,
            SchedulerFailure::Execution => r == ApplicationError::Internal,
        },
{
    match error {
        SchedulerFailure::UnknownOperation => ApplicationError::NotFound,
        SchedulerFailure::Transition(m) => ApplicationError::InvalidRequest(m),
        SchedulerFailure::Execution => ApplicationError::Internal,
    }
}

/// A request to start an operation: what it does, on what, and how it
/// settles conflicts.
#[derive(Debug)]
pub struct StartRequest {
    /// The operation to start.
    pub kind: OperationKind,
    /// Its sources, destination and options.
    pub request: OperationRequest,
    /// How it settles a conflict at the destination.
    pub conflict_policy: ConflictPolicy,
}

/// A request with these sources and destination and every option off.
pub open spec fn plain_request(
    r: OperationRequest,
    sources: Seq<Location>,
    destination: Option<Location>,
) -> bool {
    &&& r.sources@ == sources
    &&& r.destination == destination
    &&& r.destinations@.len() == 0
    &&& r.name is None
    &&& r.archive_format is None
    &&& r.archive_compression_level is None
    &&& !r.create_intermediate_directories
    &&& !r.override_read_only
}

/// The copy that applies one synchronization row: the source entry into
/// the destination's parent directory on the other side, replacing what
/// differs there.
pub fn copy_request(source: Location, destination_parent: Location) -> (r: StartRequest)
    ensures
        r.kind == OperationKind::Copy,
        plain_request(r.request, seq![source], Some(destination_parent)),
        !r.request.permanent_delete_confirmed,
        r.conflict_policy == ConflictPolicy::Overwrite,
{
    let ghost entry = source;
    let mut sources = Vec::new();
    sources.push(source);
    assert(sources@ =~= seq![entry]);
    StartRequest {
        kind: OperationKind::Copy,
        request: OperationRequest {
            sources,
            destination: Some(destination_parent),
            destinations: Vec::new(),
            name: None,
            archive_format: None,
            archive_compression_level: None,
            create_intermediate_directories: false,
            permanent_delete_confirmed: false,
            override_read_only: false,
        },
        conflict_policy: ConflictPolicy::Overwrite,
    }
}

/// The deletion that applies one synchronization row: a permanent delete of
/// the entry, confirmed by the reviewed plan itself (a trash is not
/// available on every host).
pub fn delete_request(target: Location) -> (r: StartRequest)
    ensures
        r.kind == OperationKind::Delete,
        plain_request(r.request, seq![target], None),
        r.request.permanent_delete_confirmed,
        r.conflict_policy == ConflictPolicy::Ask,
{
    let ghost entry = target;
    let mut sources = Vec::new();
    sources.push(target);
    assert(sources@ =~= seq![entry]);
    StartRequest {
        kind: OperationKind::Delete,
        request: OperationRequest {
            sources,
            destination: None,
            destinations: Vec::new(),
            name: None,
            archive_format: None,
            archive_compression_level: None,
            create_intermediate_directories: false,
            permanent_delete_confirmed: true,
            override_read_only: false,
        },
        conflict_policy: ConflictPolicy::Ask,
    }
}

/// An operation the scheduler holds, as the operation list reads it.
#[derive(Debug, Clone, Copy, PartialEq, Eq, Structural)]
pub struct ScheduledOperation {
    /// Identity of the operation.
    pub id: u128,
    /// When it was created, in nanoseconds since the Unix epoch.
    pub created_at: i128,
    /// Whether it waits in the queue.
    pub queued: bool,
    /// Whether it has finished, failed or been cancelled.
    pub terminal: bool,
}

/// One row of the operation list.
#[derive(Debug, Clone, Copy, PartialEq, Eq, Structural)]
pub struct ListedOperation {
    /// Identity of the operation.
    pub id: u128,
    /// When it was created, in nanoseconds since the Unix epoch.
    pub created_at: i128,
    /// Its place in the queue, counting from one, if it waits there.
    pub queue_position: Option<u64>,
}

/// `a` is listed strictly before `b`: it is newer when `newest_first`, else older.
pub open spec fn listed_before(a: ListedOperation, b: ListedOperation, newest_first: bool) -> bool {
    if newest_first {
        a.created_at > b.created_at
    } else {
        a.created_at < b.created_at
    }
}

/// No row is listed strictly before a row above it.
pub open spec fn in_list_order(s: Seq<ListedOperation>, newest_first: bool) -> bool {
    forall|i: int, j: int|
        0 <= i < j < s.len() ==> !listed_before(#[trigger] s[j], #[trigger] s[i], newest_first)
}

/// The rows created at `t`, in their order.
pub open spec fn created_group(s: Seq<ListedOperation>, t: i128) -> Seq<ListedOperation> {
    s.filter(|x: ListedOperation| x.created_at == t)
}

/// `output` is `input` sorted by creation time (newest first or oldest
/// first), rows created at the same time keeping their order.
pub open spec fn sorted_stably(
    input: Seq<ListedOperation>,
    output: Seq<ListedOperation>,
    newest_first: bool,
) -> bool {
    &&& output.len() == input.len()
    &&& in_list_order(output, newest_first)
    &&& forall|t: i128| #[trigger] created_group(output, t) == created_group(input, t)
}

/// Where a row goes in a sorted list: before the first row it is listed
/// strictly before, else at the end.
pub open spec fn insertion_index(s: Seq<ListedOperation>, x: ListedOperation, newest_first: bool) -> int
    decreases s.len(),
{
    if s.len() == 0 {
        0
    } else if listed_before(x, s[0], newest_first) {
        0
    } else {
        1 + insertion_index(s.drop_first(), x, newest_first)
    }
}

proof fn lemma_insertion_index(s: Seq<ListedOperation>, x: ListedOperation, newest_first: bool)
    ensures
        0 <= insertion_index(s, x, newest_first) <= s.len(),
        forall|i: int|
            0 <= i < insertion_index(s, x, newest_first) ==> !listed_before(
                x,
                #[trigger] s[i],
                newest_first,
            ),
        insertion_index(s, x, newest_first) < s.len() ==> listed_before(
            x,
            s[insertion_index(s, x, newest_first)],
            newest_first,
        ),
    decreases s.len(),
{
    if s.len() > 0 && !listed_before(x, s[0], newest_first) {
        lemma_insertion_index(s.drop_first(), x, newest_first);
        assert forall|i: int| 0 <= i < insertion_index(s, x, newest_first) implies !listed_before(
            x,
            #[trigger] s[i],
            newest_first,
        ) by {
            if i > 0 {
                assert(s[i] == s.drop_first()[i - 1]);
            }
        }
    }
}

/// Whether `a` is listed strictly before `b`.
fn is_listed_before(a: ListedOperation, b: ListedOperation, newest_first: bool) -> (r: bool)
    ensures
        r == listed_before(a, b, newest_first),
{
    if newest_first {
        a.created_at > b.created_at
    } else {
        a.created_at < b.created_at
    }
}

/// Inserts a row into a sorted list after every row it is not listed
/// strictly before, keeping the list sorted and rows created at the same
/// time in arrival order.
fn insert_listed(sorted: &mut Vec<ListedOperation>, x: ListedOperation, newest_first: bool)
    requires
        in_list_order(old(sorted)@, newest_first),
    ensures
        final(sorted)@ == old(sorted)@.insert(insertion_index(old(sorted)@, x, newest_first), x),
        in_list_order(final(sorted)@, newest_first),
{
    proof {
        lemma_insertion_index(sorted@, x, newest_first);
    }
    let ghost a = sorted@;
    let mut p: usize = 0;
    while p < sorted.len() && !is_listed_before(x, sorted[p], newest_first)
        invariant
            sorted@ == a,
            p <= a.len(),
            p <= insertion_index(a, x, newest_first),
            0 <= insertion_index(a, x, newest_first) <= a.len(),
            insertion_index(a, x, newest_first) < a.len() ==> listed_before(
                x,
                a[insertion_index(a, x, newest_first)],
                newest_first,
            ),
            forall|i: int|
                0 <= i < insertion_index(a, x, newest_first) ==> !listed_before(
                    x,
                    #[trigger] a[i],
                    newest_first,
                ),
        decreases a.len() - p,
    {
        p = p + 1;
    }
    assert(p == insertion_index(a, x, newest_first));
    sorted.insert(p, x);
    assert(in_list_order(sorted@, newest_first)) by {
        assert forall|i: int, j: int| 0 <= i < j < sorted@.len() implies !listed_before(
            #[trigger] sorted@[j],
            #[trigger] sorted@[i],
            newest_first,
        ) by {
            if j < p {
                assert(sorted@[i] == a[i] && sorted@[j] == a[j]);
            } else if j == p {
                assert(sorted@[i] == a[i]);
            } else if i == p {
                assert(sorted@[j] == a[j - 1]);
                assert(!listed_before(a[j - 1], a[p as int], newest_first));
            } else if i < p {
                assert(sorted@[i] == a[i] && sorted@[j] == a[j - 1]);
            } else {
                assert(sorted@[i] == a[i - 1] && sorted@[j] == a[j - 1]);
            }
        }
    }
}

/// Sorts rows by creation time, newest first or oldest first; rows created
/// at the same time keep their order.
pub fn sort_listed(rows: &Vec<ListedOperation>, newest_first: bool) -> (r: Vec<ListedOperation>)
    ensures
        sorted_stably(rows@, r@, newest_first),
{
    let mut sorted: Vec<ListedOperation> = Vec::new();
    let mut i: usize = 0;
    while i < rows.len()
        invariant
            i <= rows.len(),
            sorted@.len() == i,
            in_list_order(sorted@, newest_first),
            forall|t: i128| #[trigger] created_group(sorted@, t) == created_group(rows@.take(i as int), t),
        decreases rows.len() - i,
    {
        let x = rows[i];
        let ghost a = sorted@;
        let ghost p = insertion_index(a, x, newest_first);
        proof {
            lemma_insertion_index(a, x, newest_first);
        }
        insert_listed(&mut sorted, x, newest_first);
        proof {
            assert(rows@.take(i + 1) =~= rows@.take(i as int).push(x));
            assert forall|t: i128| #[trigger] created_group(sorted@, t) == created_group(
                rows@.take(i + 1),
                t,
            ) by {
                let f = |y: ListedOperation| y.created_at == t;
                let front = a.take(p);
                let back = a.skip(p);
                assert(a =~= front + back);
                assert(sorted@ =~= front + (seq![x] + back));
                Seq::filter_distributes_over_add(front, seq![x] + back, f);
                Seq::filter_distributes_over_add(seq![x], back, f);
                Seq::filter_distributes_over_add(front, back, f);
                rows@.take(i as int).lemma_filter_push(x, f);
                if x.created_at == t {
                    assert forall|k: int| 0 <= k < back.len() implies !f(#[trigger] back[k]) by {
                        assert(back[k] == a[p + k]);
                        if k > 0 {
                            assert(!listed_before(a[p + k], a[p], newest_first));
                        }
                    }
                    back.lemma_all_neg_filter_empty(f);
                    assert(seq![x].filter(f) =~= seq![x]) by {
                        reveal_with_fuel(Seq::filter, 2);
                    }
                    assert(created_group(sorted@, t) =~= created_group(a, t).push(x));
                } else {
                    assert(seq![x].filter(f) =~= Seq::<ListedOperation>::empty()) by {
                        reveal_with_fuel(Seq::filter, 2);
                    }
                    assert(created_group(sorted@, t) =~= created_group(a, t));
                }
            }
        }
        i = i + 1;
    }
    assert(rows@.take(rows.len() as int) =~= rows@);
    sorted
}

/// The place, counting from one, of the first operation with identity `id`
/// in a queue, if any has it.
pub open spec fn queue_place(queue: Seq<ListedOperation>, id: u128) -> Option<u64> {
    if exists|k: int| 0 <= k < queue.len() && #[trigger] queue[k].id == id {
        let k = choose|k: int|
            0 <= k < queue.len() && #[trigger] queue[k].id == id && forall|j: int|
                0 <= j < k ==> queue[j].id != id;
        Some((k + 1) as u64)
    } else {
        None
    }
}

/// Whether an operation has not finished.
pub open spec fn is_unfinished() -> spec_fn(ScheduledOperation) -> bool {
    |o: ScheduledOperation| !o.terminal
}

/// Whether an operation waits in the queue.
pub open spec fn is_waiting() -> spec_fn(ScheduledOperation) -> bool {
    |o: ScheduledOperation| o.queued
}

/// An operation as a row without a queue place.
pub open spec fn unplaced_row() -> spec_fn(ScheduledOperation) -> ListedOperation {
    |o: ScheduledOperation| row_of(o, None)
}

/// The operations still running or waiting.
pub open spec fn unfinished(active: Seq<ScheduledOperation>) -> Seq<ScheduledOperation> {
    active.filter(is_unfinished())
}

/// A scheduled operation as a row with the given queue place.
pub open spec fn row_of(o: ScheduledOperation, place: Option<u64>) -> ListedOperation {
    ListedOperation { id: o.id, created_at: o.created_at, queue_position: place }
}

/// The waiting operations among `ops`, in their order, as rows without a place.
pub open spec fn waiting_rows(ops: Seq<ScheduledOperation>) -> Seq<ListedOperation> {
    ops.filter(is_waiting()).map_values(unplaced_row())
}

/// The rows of `ops`, each with its place in `queue`.
pub open spec fn placed_rows(ops: Seq<ScheduledOperation>, queue: Seq<ListedOperation>) -> Seq<
    ListedOperation,
> {
    ops.map_values(|o: ScheduledOperation| row_of(o, queue_place(queue, o.id)))
}

/// Finds the place of the first operation with identity `id` in a queue.
fn find_queue_place(queue: &Vec<ListedOperation>, id: u128) -> (r: Option<u64>)
    ensures
        r == queue_place(queue@, id),
{
    let mut k: usize = 0;
    while k < queue.len()
        invariant
            k <= queue.len(),
            forall|j: int| 0 <= j < k ==> queue@[j].id != id,
        decreases queue.len() - k,
    {
        if queue[k].id == id {
            let ghost q = queue@;
            assert(exists|m: int| 0 <= m < q.len() && #[trigger] q[m].id == id) by {
                assert(q[k as int].id == id);
            }
            let ghost c = choose|m: int|
                0 <= m < q.len() && #[trigger] q[m].id == id && forall|j: int|
                    0 <= j < m ==> q[j].id != id;
            assert(0 <= c < q.len() && q[c].id == id && forall|j: int| 0 <= j < c ==> q[j].id != id) by {
                assert(0 <= k < q.len() && q[k as int].id == id && forall|j: int|
                    0 <= j < k ==> q[j].id != id);
            }
            assert(c == k) by {
                if c < k {
                    assert(q[c].id != id);
                } else if c > k {
                    assert(q[k as int].id != id);
                }
            }
            return Some((k as u64) + 1);
        }
        k = k + 1;
    }
    assert(!exists|m: int| 0 <= m < queue@.len() && #[trigger] queue@[m].id == id);
    None
}

/// Lists the operations: those the scheduler holds that have not finished,
/// each with its place in the queue of waiting operations (oldest first,
/// ties in the scheduler's order), followed by the finished ones from
/// history, all sorted newest first, ties keeping that order.
pub fn list_operations(active: &Vec<ScheduledOperation>, history: &Vec<ListedOperation>) -> (r: Vec<
    ListedOperation,
>)
    ensures
        exists|queue: Seq<ListedOperation>|
            #[trigger] sorted_stably(waiting_rows(unfinished(active@)), queue, false)
                && sorted_stably(placed_rows(unfinished(active@), queue) + history@, r@, true),
{
    let mut kept: Vec<ScheduledOperation> = Vec::new();
    let mut i: usize = 0;
    while i < active.len()
        invariant
            i <= active.len(),
            kept@ == active@.take(i as int).filter(is_unfinished()),
        decreases active.len() - i,
    {
        let o = active[i];
        proof {
            assert(active@.take(i + 1) =~= active@.take(i as int).push(o));
            active@.take(i as int).lemma_filter_push(o, is_unfinished());
        }
        if !o.terminal {
            kept.push(o);
        }
        assert(kept@ =~= active@.take(i + 1).filter(is_unfinished()));
        i = i + 1;
    }
    assert(active@.take(active.len() as int) =~= active@);
    assert(kept@ =~= unfinished(active@));
    let mut waiting: Vec<ListedOperation> = Vec::new();
    let mut j: usize = 0;
    while j < kept.len()
        invariant
            j <= kept.len(),
            waiting@ == kept@.take(j as int).filter(is_waiting()).map_values(unplaced_row()),
        decreases kept.len() - j,
    {
        let o = kept[j];
        proof {
            assert(kept@.take(j + 1) =~= kept@.take(j as int).push(o));
            kept@.take(j as int).lemma_filter_push(o, is_waiting());
        }
        if o.queued {
            waiting.push(ListedOperation { id: o.id, created_at: o.created_at, queue_position: None });
            assert(waiting@ =~= kept@.take(j + 1).filter(is_waiting()).map_values(unplaced_row()));
        } else {
            assert(waiting@ =~= kept@.take(j + 1).filter(is_waiting()).map_values(unplaced_row()));
        }
        j = j + 1;
    }
    assert(kept@.take(kept.len() as int) =~= kept@);
    assert(waiting@ =~= waiting_rows(unfinished(active@)));
    let queue = sort_listed(&waiting, false);
    let mut rows: Vec<ListedOperation> = Vec::new();
    let mut k: usize = 0;
    while k < kept.len()
        invariant
            k <= kept.len(),
            rows@ == placed_rows(kept@.take(k as int), queue@),
        decreases kept.len() - k,
    {
        let o = kept[k];
        let place = find_queue_place(&queue, o.id);
        rows.push(ListedOperation { id: o.id, created_at: o.created_at, queue_position: place });
        proof {
            assert(kept@.take(k + 1) =~= kept@.take(k as int).push(o));
            assert(rows@ =~= placed_rows(kept@.take(k + 1), queue@));
        }
        k = k + 1;
    }
    assert(kept@.take(kept.len() as int) =~= kept@);
    let mut h: usize = 0;
    while h < history.len()
        invariant
            h <= history.len(),
            rows@ == placed_rows(kept@, queue@) + history@.take(h as int),
        decreases history.len() - h,
    {
        rows.push(history[h]);
        proof {
            assert(history@.take(h + 1) =~= history@.take(h as int).push(history@[h as int]));
            assert(rows@ =~= placed_rows(kept@, queue@) + history@.take(h + 1));
        }
        h = h + 1;
    }
    assert(history@.take(history.len() as int) =~= history@);
    let listed = sort_listed(&rows, true);
    assert(sorted_stably(waiting_rows(unfinished(active@)), queue@, false));
    listed
}

/// A user's answer to a conflict prompt.
#[derive(Debug, Clone, Copy, PartialEq, Eq, Structural)]
pub enum ConflictAnswer {
    /// Skip the conflicting entry.
    Skip,
    /// Overwrite the existing entry.
    Overwrite,
    /// Give the new entry a copy name.
    RenameNew,
    /// Confirm an operation that waits for confirmation.
    Confirm,
    /// Cancel the whole operation.
    CancelOperation,
}

/// What the scheduler is told for an answer.
#[derive(Debug, Clone, Copy, PartialEq, Eq, Structural)]
pub enum ConflictCommand {
    /// Confirm the waiting operation.
    Confirm,
    /// Resolve the pending conflict this way.
    Resolve(ConflictResolution),
}

/// The scheduler command for a conflict answer. Cancelling the operation
/// is handled before an answer reaches the scheduler.
pub fn conflict_command(answer: ConflictAnswer) -> (r: ConflictCommand)
    requires
        answer != ConflictAnswer::CancelOperation,
    ensures
        r == match answer {
            ConflictAnswer::Skip => ConflictCommand::Resolve(ConflictResolution::Skip),
            ConflictAnswer::Overwrite => ConflictCommand::Resolve(ConflictResolution::Overwrite),
            ConflictAnswer::RenameNew => ConflictCommand::Resolve(ConflictResolution::RenameNew),
            _ => ConflictCommand::Confirm,
        },
{
    match answer {
        ConflictAnswer::Confirm => ConflictCommand::Confirm,
        ConflictAnswer::Skip => ConflictCommand::Resolve(ConflictResolution::Skip),
        ConflictAnswer::Overwrite => ConflictCommand::Resolve(ConflictResolution::Overwrite),
        ConflictAnswer::RenameNew => ConflictCommand::Resolve(ConflictResolution::RenameNew),
        ConflictAnswer::CancelOperation => ConflictCommand::Confirm,
    }
}

} // verus!
