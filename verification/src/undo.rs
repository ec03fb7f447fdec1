//! Undo safety: an operation is undone only while its output is exactly as
//! it was left and its original place is still free, and the inverse
//! actions are planned entry by entry in a fixed order.

use vstd::prelude::*;

use crate::operation_planner::{EntryKind, Location};
use crate::search::Timestamp;
use crate::text::same_text;

verus! {

/// What an operation recorded about an entry it produced.
#[derive(Debug)]
pub struct EntryFingerprint {
    /// The entry's identity.
    pub entry_id: u128,
    /// Where it stands.
    pub location: Location,
    /// Whether the identity is stable across inspections.
    pub stable_id: bool,
    /// Its kind.
    pub kind: EntryKind,
    /// Its size, if known.
    pub size: Option<u64>,
    /// Its modification time, if known.
    pub modified_at: Option<Timestamp>,
    /// Its content hash, for files.
    pub content_hash: Option<String>,
}

/// What inspecting an entry now shows.
#[derive(Debug, Clone, Copy, PartialEq, Eq, Structural)]
pub struct EntryFacts {
    /// The entry's identity.
    pub id: u128,
    /// Its kind.
    pub kind: EntryKind,
    /// Its size, if known.
    pub size: Option<u64>,
    /// Its modification time, if known.
    pub modified_at: Option<Timestamp>,
}

/// Whether an entry still looks as recorded: same identity where the
/// identity is stable, same kind, size and modification time.
pub open spec fn still_matches(expected: EntryFingerprint, actual: EntryFacts) -> bool {
    &&& (expected.stable_id ==> expected.entry_id == actual.id)
    &&& expected.kind == actual.kind
    &&& expected.size == actual.size
    &&& expected.modified_at == actual.modified_at
}

/// Whether an entry still looks as recorded.
pub fn fingerprint_matches(expected: &EntryFingerprint, actual: &EntryFacts) -> (r: bool)
    ensures
        r == still_matches(*expected, *actual),
{
    (!expected.stable_id || expected.entry_id == actual.id) && expected.kind == actual.kind
        && expected.size == actual.size && expected.modified_at == actual.modified_at
}

/// What inspecting a location answered.
#[derive(Debug, Clone, Copy, PartialEq, Eq, Structural)]
pub enum Inspection {
    /// An entry stands there.
    Found(EntryFacts),
    /// Nothing stands there.
    NotFound,
    /// The provider failed; its error is reported as it is.
    Failed,
}

/// Why an undo cannot go on.
#[derive(Debug, PartialEq, Eq)]
pub enum UndoRefusal {
    /// The undo would be unsafe; the text says why.
    Unsafe(String),
    /// The provider failed; its own error is reported.
    ProviderFailure,
}

/// Checks that an operation's output is still as recorded; on success,
/// says whether its content hash must still be compared.
pub fn check_output_unchanged(expected: &EntryFingerprint, inspected: Inspection) -> (r: Result<
    bool,
    UndoRefusal,
>)
    ensures
        match inspected {
            Inspection::NotFound => r matches Err(UndoRefusal::Unsafe(m)) && m@
                == "The operation output is missing, so it cannot be undone safely."@,
            Inspection::Failed => r == Err::<bool, UndoRefusal>(UndoRefusal::ProviderFailure),
            Inspection::Found(actual) => if still_matches(*expected, actual) {
                r == Ok::<bool, UndoRefusal>(expected.content_hash is Some)
            } else {
                r matches Err(UndoRefusal::Unsafe(m)) && m@
                    == "The operation output changed after completion, so it cannot be undone safely."@
            },
        },
{
    match inspected {
        Inspection::NotFound => Err(
            UndoRefusal::Unsafe(
                String::from_str("The operation output is missing, so it cannot be undone safely."),
            ),
        ),
        Inspection::Failed => Err(UndoRefusal::ProviderFailure),
        Inspection::Found(actual) => {
            if fingerprint_matches(expected, &actual) {
                Ok(expected.content_hash.is_some())
            } else {
                Err(
                    UndoRefusal::Unsafe(
                        String::from_str(
                            "The operation output changed after completion, so it cannot be undone safely.",
                        ),
                    ),
                )
            }
        },
    }
}

/// Checks a file's current content hash against the recorded one.
pub fn check_content_unchanged(expected_hash: &str, actual_hash: Option<&str>) -> (r: Result<
    (),
    UndoRefusal,
>)
    ensures
        (actual_hash matches Some(h) && h@ == expected_hash@) ==> r is Ok,
        !(actual_hash matches Some(h) && h@ == expected_hash@) ==> (r matches Err(
            UndoRefusal::Unsafe(m),
        ) && m@
            == "The operation output content changed after completion, so it cannot be undone safely."@),
{
    match actual_hash {
        Some(h) => {
            if same_text(h, expected_hash) {
                return Ok(());
            }
        },
        None => {},
    }
    Err(
        UndoRefusal::Unsafe(
            String::from_str(
                "The operation output content changed after completion, so it cannot be undone safely.",
            ),
        ),
    )
}

/// Checks that an undo would not overwrite a later change at the original place.
pub fn check_original_absent(inspected: Inspection) -> (r: Result<(), UndoRefusal>)
    ensures
        inspected == Inspection::NotFound ==> r is Ok,
        inspected is Found ==> (r matches Err(UndoRefusal::Unsafe(m)) && m@
            == "The original path is occupied, so undo would overwrite a later change."@),
        inspected == Inspection::Failed ==> r == Err::<(), UndoRefusal>(UndoRefusal::ProviderFailure),
{
    match inspected {
        Inspection::NotFound => Ok(()),
        Inspection::Found(_) => Err(
            UndoRefusal::Unsafe(
                String::from_str("The original path is occupied, so undo would overwrite a later change."),
            ),
        ),
        Inspection::Failed => Err(UndoRefusal::ProviderFailure),
    }
}

/// One inverse action of an undo plan.
#[derive(Debug)]
pub enum UndoAction {
    /// Rename an entry back to where it was.
    MoveBack {
        /// Where it was.
        original: Location,
        /// What it was, as recorded before the move.
        original_fingerprint: EntryFingerprint,
        /// Where it is now, as recorded.
        current: EntryFingerprint,
    },
    /// Remove entries the operation created.
    RemoveCreated {
        /// The created entries, parents before children.
        entries: Vec<EntryFingerprint>,
    },
    /// Move entries back across providers.
    CrossProviderMoveBack {
        /// Where the root was.
        original: Location,
        /// What the root was, as recorded before the move.
        original_fingerprint: EntryFingerprint,
        /// The root now standing at the destination.
        current_root: EntryFingerprint,
        /// The entries now standing at the destination.
        current_entries: Vec<EntryFingerprint>,
    },
    /// Restore an entry from the trash.
    RestoreTrash {
        /// Where it was.
        original: Location,
        /// The trashed entry.
        trashed: EntryFingerprint,
    },
}

/// Locations of fingerprints, in order.
pub open spec fn fingerprint_locations(s: Seq<EntryFingerprint>) -> Seq<Location> {
    s.map_values(|f: EntryFingerprint| f.location)
}

/// The plan items one inverse action contributes: created entries are
/// removed children first, cross-provider entries keep their order.
pub open spec fn action_items(a: UndoAction) -> Seq<Location> {
    match a {
        UndoAction::MoveBack { current, .. } => seq![current.location],
        UndoAction::RemoveCreated { entries } => fingerprint_locations(entries@).reverse(),
        UndoAction::CrossProviderMoveBack { current_entries, .. } => fingerprint_locations(
            current_entries@,
        ),
        UndoAction::RestoreTrash { trashed, .. } => seq![trashed.location],
    }
}

/// The plan items of a whole undo plan: each action's in turn.
pub open spec fn plan_items(actions: Seq<UndoAction>) -> Seq<Location>
    decreases actions.len(),
{
    if actions.len() == 0 {
        seq![]
    } else {
        plan_items(actions.drop_last()) + action_items(actions.last())
    }
}

/// Plans the entries an undo acts on, in order.
pub fn undo_plan_items(actions: &Vec<UndoAction>) -> (r: Vec<Location>)
    ensures
        r@ == plan_items(actions@),
{
    let mut items: Vec<Location> = Vec::new();
    let mut i: usize = 0;
    while i < actions.len()
        invariant
            i <= actions.len(),
            items@ == plan_items(actions@.take(i as int)),
        decreases actions.len() - i,
    {
        let ghost before = items@;
        assert(actions@.take(i as int + 1).drop_last() =~= actions@.take(i as int));
        assert(actions@.take(i as int + 1).last() == actions@[i as int]);
        match &actions[i] {
            UndoAction::MoveBack { current, .. } => {
                items.push(current.location.clone());
            },
            UndoAction::RemoveCreated { entries } => {
                let ghost locs = fingerprint_locations(entries@);
                let mut j: usize = entries.len();
                while j > 0
                    invariant
                        j <= entries.len(),
                        locs == fingerprint_locations(entries@),
                        items@ == before + locs.reverse().take((entries.len() - j) as int),
                    decreases j,
                {
                    j = j - 1;
                    let ghost prior = items@;
                    items.push(entries[j].location.clone());
                    assert(locs.reverse()[(entries.len() - j - 1) as int] == locs[j as int]);
                    assert(items@ =~= before + locs.reverse().take((entries.len() - j) as int));
                }
                assert(locs.reverse().take(entries.len() as int) =~= locs.reverse());
            },
            UndoAction::CrossProviderMoveBack { current_entries, .. } => {
                let ghost locs = fingerprint_locations(current_entries@);
                let mut j: usize = 0;
                while j < current_entries.len()
                    invariant
                        j <= current_entries.len(),
                        locs == fingerprint_locations(current_entries@),
                        items@ == before + locs.take(j as int),
                    decreases current_entries.len() - j,
                {
                    items.push(current_entries[j].location.clone());
                    j = j + 1;
                    assert(items@ =~= before + locs.take(j as int));
                }
                assert(locs.take(current_entries.len() as int) =~= locs);
            },
            UndoAction::RestoreTrash { trashed, .. } => {
                items.push(trashed.location.clone());
            },
        }
        assert(items@ =~= before + action_items(actions@[i as int]));
        i = i + 1;
    }
    assert(actions@.take(actions.len() as int) =~= actions@);
    items
}

/// Whether two locations name the same entry.
pub open spec fn same_location(a: Location, b: Location) -> bool {
    a.provider_id@ == b.provider_id@ && a.uri@ == b.uri@
}

/// Whether an inverse action acts on the entry at `location`.
pub open spec fn action_covers(a: UndoAction, location: Location) -> bool {
    exists|k: int| 0 <= k < action_items(a).len() && same_location(#[trigger] action_items(a)[k], location)
}

fn location_eq(a: &Location, b: &Location) -> (r: bool)
    ensures
        r == same_location(*a, *b),
{
    same_text(a.provider_id.as_str(), b.provider_id.as_str()) && same_text(a.uri.as_str(), b.uri.as_str())
}

fn covers_any(entries: &Vec<EntryFingerprint>, location: &Location) -> (r: bool)
    ensures
        r == exists|k: int| 0 <= k < entries.len() && same_location(#[trigger] entries@[k].location, *location),
{
    let mut k: usize = 0;
    while k < entries.len()
        invariant
            k <= entries.len(),
            forall|m: int| 0 <= m < k ==> !same_location(#[trigger] entries@[m].location, *location),
        decreases entries.len() - k,
    {
        if location_eq(&entries[k].location, location) {
            return true;
        }
        k = k + 1;
    }
    false
}

fn action_covers_location(a: &UndoAction, location: &Location) -> (r: bool)
    ensures
        r == action_covers(*a, *location),
{
    match a {
        UndoAction::MoveBack { current, .. } => {
            let r = location_eq(&current.location, location);
            assert(action_items(*a)[0] == current.location);
            r
        },
        UndoAction::RemoveCreated { entries } => {
            let r = covers_any(entries, location);
            let ghost locs = fingerprint_locations(entries@);
            assert(r == action_covers(*a, *location)) by {
                if r {
                    let k = choose|k: int| 0 <= k < entries.len() && same_location(entries@[k].location, *location);
                    assert(locs.reverse()[entries.len() - 1 - k] == locs[k]);
                }
                if action_covers(*a, *location) {
                    let k = choose|k: int| 0 <= k < locs.reverse().len() && same_location(locs.reverse()[k], *location);
                    assert(locs.reverse()[k] == entries@[entries.len() - 1 - k].location);
                }
            }
            r
        },
        UndoAction::CrossProviderMoveBack { current_entries, .. } => {
            let r = covers_any(current_entries, location);
            assert(r == action_covers(*a, *location)) by {
                if r {
                    let k = choose|k: int| 0 <= k < current_entries.len() && same_location(current_entries@[k].location, *location);
                    assert(fingerprint_locations(current_entries@)[k] == current_entries@[k].location);
                }
            }
            r
        },
        UndoAction::RestoreTrash { trashed, .. } => {
            let r = location_eq(&trashed.location, location);
            assert(action_items(*a)[0] == trashed.location);
            r
        },
    }
}

/// Finds the first inverse action that acts on a planned entry.
pub fn action_for_item(actions: &Vec<UndoAction>, location: &Location) -> (r: Option<usize>)
    ensures
        match r {
            Some(i) => i < actions.len() && action_covers(actions@[i as int], *location) && forall|j: int|
                0 <= j < i ==> !action_covers(#[trigger] actions@[j], *location),
            None => forall|j: int| 0 <= j < actions.len() ==> !action_covers(#[trigger] actions@[j], *location),
        },
{
    let mut i: usize = 0;
    while i < actions.len()
        invariant
            i <= actions.len(),
            forall|j: int| 0 <= j < i ==> !action_covers(#[trigger] actions@[j], *location),
        decreases actions.len() - i,
    {
        if action_covers_location(&actions[i], location) {
            return Some(i);
        }
        i = i + 1;
    }
    None
}

/// Whether an operation can be undone, and how.
#[derive(Debug)]
pub enum UndoEvidence {
    /// The inverse actions that undo it.
    Available(Vec<UndoAction>),
    /// It cannot be undone; the text says why.
    Unavailable(String),
}

/// The created entries of a copy's undo plan, in order.
pub open spec fn created_entries(actions: Seq<UndoAction>) -> Seq<EntryFingerprint>
    decreases actions.len(),
{
    if actions.len() == 0 {
        seq![]
    } else {
        created_entries(actions.drop_last()) + match actions.last() {
            UndoAction::RemoveCreated { entries } => entries@,
            _ => seq![],
        }
    }
}

fn collect_created(actions: Vec<UndoAction>) -> (r: Vec<EntryFingerprint>)
    ensures
        r@ == created_entries(actions@),
{
    let ghost all = actions@;
    let mut out: Vec<EntryFingerprint> = Vec::new();
    let mut i: usize = 0;
    let source = actions;
    while i < source.len()
        invariant
            source@ == all,
            i <= all.len(),
            out@ == created_entries(all.take(i as int)),
        decreases all.len() - i,
    {
        assert(all.take(i as int + 1).drop_last() =~= all.take(i as int));
        assert(all.take(i as int + 1).last() == all[i as int]);
        match &source[i] {
            UndoAction::RemoveCreated { entries } => {
                let ghost before = out@;
                let mut j: usize = 0;
                while j < entries.len()
                    invariant
                        j <= entries.len(),
                        out@ == before + entries@.take(j as int),
                    decreases entries.len() - j,
                {
                    out.push(clone_fingerprint(&entries[j]));
                    j = j + 1;
                    assert(out@ =~= before + entries@.take(j as int));
                }
                assert(entries@.take(entries.len() as int) =~= entries@);
            },
            _ => {
                assert(out@ =~= out@ + Seq::<EntryFingerprint>::empty());
            },
        }
        i = i + 1;
    }
    assert(all.take(all.len() as int) =~= all);
    out
}

/// Copies a fingerprint field by field.
pub fn clone_fingerprint(f: &EntryFingerprint) -> (r: EntryFingerprint)
    ensures
        r == *f,
{
    EntryFingerprint {
        entry_id: f.entry_id,
        location: f.location.clone(),
        stable_id: f.stable_id,
        kind: f.kind,
        size: f.size,
        modified_at: f.modified_at,
        content_hash: match &f.content_hash {
            Some(h) => Some(h.clone()),
            None => None,
        },
    }
}

/// How the undo evidence of a move is decided.
pub open spec fn move_undo_rule(
    source: Location,
    original: Option<EntryFingerprint>,
    fell_back: bool,
    destination: Option<EntryFingerprint>,
    copy_evidence: UndoEvidence,
    completed_root: Option<Location>,
    root_keeps_name: bool,
    r: Result<UndoEvidence, Seq<char>>,
) -> bool {
    match original {
        None => r matches Ok(UndoEvidence::Unavailable(m)) && m@
            == "The move did not retain its original source fingerprint."@,
        Some(o) => if !fell_back {
            match destination {
                Some(d) => r matches Ok(UndoEvidence::Available(actions)) && actions@ == seq![
                    UndoAction::MoveBack { original: source, original_fingerprint: o, current: d },
                ],
                None => r matches Ok(UndoEvidence::Unavailable(m)) && m@
                    == "The move destination was not completed, so there is nothing safe to undo."@,
            }
        } else {
            match copy_evidence {
                UndoEvidence::Unavailable(m) => r matches Ok(UndoEvidence::Unavailable(t)) && t == m,
                UndoEvidence::Available(plan) => match completed_root {
                    None => r == Err::<UndoEvidence, Seq<char>>("move destination evidence is missing"@),
                    Some(root) => if !root_keeps_name {
                        r matches Ok(UndoEvidence::Unavailable(m)) && m@
                            == "A collision changed the moved entry name, so cross-provider undo is unavailable."@
                    } else {
                        let entries = created_entries(plan@);
                        if exists|k: int| 0 <= k < entries.len() && same_location(#[trigger] entries[k].location, root) {
                            match r {
                                Ok(UndoEvidence::Available(actions)) => actions.len() == 1 && match actions@[0] {
                                    UndoAction::CrossProviderMoveBack {
                                        original: orig,
                                        original_fingerprint: of,
                                        current_root,
                                        current_entries,
                                    } => orig == source && of == o && current_entries@ == entries
                                        && same_location(current_root.location, root) && (exists|k: int|
                                        0 <= k < entries.len() && entries[k] == current_root && forall|j: int|
                                            0 <= j < k ==> !same_location(#[trigger] entries[j].location, root)),
                                    _ => false,
                                },
                                _ => false,
                            }
                        } else {
                            r == Err::<UndoEvidence, Seq<char>>("move root fingerprint is missing"@)
                        }
                    },
                },
            }
        }
    }
}

/// Decides the undo evidence of a move. A native move is undone by moving
/// the entry back; a move that fell back to copy-then-delete is undone by a
/// guarded cross-provider move back of every created entry, unless a name
/// collision renamed the moved root. `root_keeps_name` says whether the
/// completed root kept the source's name.
pub fn move_undo_evidence(
    source: Location,
    original: Option<EntryFingerprint>,
    fell_back: bool,
    destination: Option<EntryFingerprint>,
    copy_evidence: UndoEvidence,
    completed_root: Option<Location>,
    root_keeps_name: bool,
) -> (r: Result<UndoEvidence, String>)
    ensures
        move_undo_rule(
            source,
            original,
            fell_back,
            destination,
            copy_evidence,
            completed_root,
            root_keeps_name,
            match r {
                Ok(e) => Ok(e),
                Err(m) => Err(m@),
            },
        ),
{
    let ghost g_source = source;
    let ghost g_original = original;
    let ghost g_destination = destination;
    let ghost g_copy = copy_evidence;
    let ghost g_root = completed_root;
    let original_fingerprint = match original {
        None => {
            return Ok(
                UndoEvidence::Unavailable(
                    String::from_str("The move did not retain its original source fingerprint."),
                ),
            );
        },
        Some(o) => o,
    };
    if !fell_back {
        return match destination {
            Some(current) => {
                let mut actions: Vec<UndoAction> = Vec::new();
                actions.push(UndoAction::MoveBack { original: source, original_fingerprint, current });
                assert(actions@ =~= seq![
                    UndoAction::MoveBack { original: g_source, original_fingerprint: g_original->0, current: g_destination->0 },
                ]);
                Ok(UndoEvidence::Available(actions))
            },
            None => Ok(
                UndoEvidence::Unavailable(
                    String::from_str(
                        "The move destination was not completed, so there is nothing safe to undo.",
                    ),
                ),
            ),
        };
    }
    let plan = match copy_evidence {
        UndoEvidence::Unavailable(m) => {
            return Ok(UndoEvidence::Unavailable(m));
        },
        UndoEvidence::Available(plan) => plan,
    };
    let ghost g_plan = plan@;
    let current_entries = collect_created(plan);
    let root = match completed_root {
        None => {
            return Err(String::from_str("move destination evidence is missing"));
        },
        Some(root) => root,
    };
    if !root_keeps_name {
        return Ok(
            UndoEvidence::Unavailable(
                String::from_str(
                    "A collision changed the moved entry name, so cross-provider undo is unavailable.",
                ),
            ),
        );
    }
    let mut k: usize = 0;
    while k < current_entries.len() && !location_eq(&current_entries[k].location, &root)
        invariant
            k <= current_entries.len(),
            forall|j: int| 0 <= j < k ==> !same_location(#[trigger] current_entries@[j].location, root),
        decreases current_entries.len() - k,
    {
        k = k + 1;
    }
    if k == current_entries.len() {
        return Err(String::from_str("move root fingerprint is missing"));
    }
    let current_root = clone_fingerprint(&current_entries[k]);
    let ghost g_entries = current_entries@;
    let mut actions: Vec<UndoAction> = Vec::new();
    actions.push(
        UndoAction::CrossProviderMoveBack {
            original: source,
            original_fingerprint,
            current_root,
            current_entries,
        },
    );
    proof {
        assert(g_entries[k as int] == current_root);
        assert(same_location(g_entries[k as int].location, root));
    }
    Ok(UndoEvidence::Available(actions))
}

/// An output that changed in any recorded way no longer matches its
/// fingerprint, so its undo is refused: a different modification time,
/// size or kind, or a different identity where the identity is stable.
pub proof fn law_changed_output_never_matches(expected: EntryFingerprint, actual: EntryFacts)
    requires
        expected.modified_at != actual.modified_at || expected.size != actual.size
            || expected.kind != actual.kind || (expected.stable_id && expected.entry_id
            != actual.id),
    ensures
        !still_matches(expected, actual),
{
}

/// An output left exactly as recorded matches its fingerprint, whatever
/// identity it is inspected under when the identity is not stable.
pub proof fn law_untouched_output_matches(expected: EntryFingerprint, actual: EntryFacts)
    requires
        expected.modified_at == actual.modified_at,
        expected.size == actual.size,
        expected.kind == actual.kind,
        expected.stable_id ==> expected.entry_id == actual.id,
    ensures
        still_matches(expected, actual),
{
}

} // verus!
