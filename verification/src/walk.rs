//! Depth-first walks that plan copies and deletes: a stack of pending
//! entries whose children are pushed so that they come off it in listing
//! order, the set of directories a walk that follows links has entered, and
//! the decisions taken for each entry.

use vstd::prelude::*;

use crate::operation_planner::EntryKind;

verus! {

/// The entries still to visit, the next one last.
pub struct WalkStack<T> {
    pending: Vec<T>,
}

impl<T> WalkStack<T> {
    /// Entries still to visit; the last is visited next.
    pub closed spec fn spec_pending(&self) -> Seq<T> {
        self.pending@
    }

    /// A walk that starts at `root`.
    pub fn new(root: T) -> (r: Self)
        ensures
            r.spec_pending() == seq![root],
    {
        let mut pending: Vec<T> = Vec::new();
        pending.push(root);
        WalkStack { pending }
    }

    /// Takes the next entry to visit, if any remains.
    pub fn pop(&mut self) -> (r: Option<T>)
        ensures
            old(self).spec_pending().len() == 0 ==> r is None && final(self).spec_pending()
                == old(self).spec_pending(),
            old(self).spec_pending().len() > 0 ==> r == Some(old(self).spec_pending().last())
                && final(self).spec_pending() == old(self).spec_pending().drop_last(),
    {
        self.pending.pop()
    }

    /// Puts an entry back to be visited next.
    pub fn push(&mut self, entry: T)
        ensures
            final(self).spec_pending() == old(self).spec_pending().push(entry),
    {
        self.pending.push(entry);
    }

    /// Pushes a directory's children so that the first one listed is visited next.
    pub fn push_children(&mut self, children: Vec<T>)
        ensures
            final(self).spec_pending() == old(self).spec_pending() + children@.reverse(),
    {
        let ghost start = self.pending@;
        let ghost all = children@;
        let mut rest = children;
        while rest.len() > 0
            invariant
                rest.len() <= all.len(),
                rest@ == all.take(rest.len() as int),
                self.pending@ == start + all.skip(rest.len() as int).reverse(),
            decreases rest.len(),
        {
            let ghost n = rest.len();
            let child = rest.pop().unwrap();
            assert(child == all[n - 1]);
            self.pending.push(child);
            assert(all.skip(n - 1).reverse() =~= all.skip(n as int).reverse().push(all[n - 1]));
            assert(rest@ =~= all.take(rest.len() as int));
        }
        assert(all.skip(0) =~= all);
    }
}

/// Directories a walk that follows links has entered, by identity.
pub struct VisitedDirectories {
    ids: Vec<u128>,
}

impl VisitedDirectories {
    /// The directories entered.
    pub closed spec fn spec_ids(&self) -> Set<u128> {
        self.ids@.to_set()
    }

    /// No directory entered yet.
    pub fn new() -> (r: Self)
        ensures
            r.spec_ids() == Set::<u128>::empty(),
    {
        let r = VisitedDirectories { ids: Vec::new() };
        assert(r.ids@.to_set() =~= Set::<u128>::empty());
        r
    }

    /// Records entering directory `id`; says whether it was new.
    pub fn insert(&mut self, id: u128) -> (r: bool)
        ensures
            r == !old(self).spec_ids().contains(id),
            final(self).spec_ids() == old(self).spec_ids().insert(id),
    {
        let mut i: usize = 0;
        while i < self.ids.len()
            invariant
                i <= self.ids.len(),
                forall|j: int| 0 <= j < i ==> self.ids@[j] != id,
            decreases self.ids.len() - i,
        {
            if self.ids[i] == id {
                assert(self.ids@.to_set().contains(id)) by {
                    assert(self.ids@.contains(id));
                }
                assert(self.ids@.to_set().insert(id) =~= self.ids@.to_set());
                return false;
            }
            i = i + 1;
        }
        assert(!self.ids@.contains(id));
        let ghost before = self.ids@;
        self.ids.push(id);
        assert(self.ids@.to_set() =~= before.to_set().insert(id)) by {
            assert forall|x: u128| self.ids@.to_set().contains(x) <==> before.to_set().insert(id).contains(x) by {
                if self.ids@.contains(x) {
                    let k = choose|k: int| 0 <= k < self.ids@.len() && self.ids@[k] == x;
                    if k < before.len() {
                        assert(before[k] == x);
                    }
                }
                if before.contains(x) {
                    let k = choose|k: int| 0 <= k < before.len() && before[k] == x;
                    assert(self.ids@[k] == x);
                }
                if x == id {
                    assert(self.ids@[before.len() as int] == id);
                }
            }
        }
        true
    }
}

/// How a copy walk treats symbolic links.
#[derive(Debug, Clone, Copy, PartialEq, Eq, Structural)]
pub enum SymlinkPolicy {
    /// Copy the link itself.
    CopyLink,
    /// Copy what the link points to.
    CopyTarget,
}

/// Whether a copy walk resolves an entry to its link target.
pub fn follows_link(kind: EntryKind, policy: SymlinkPolicy) -> (r: bool)
    ensures
        r == (kind == EntryKind::Symlink && policy == SymlinkPolicy::CopyTarget),
{
    kind == EntryKind::Symlink && policy == SymlinkPolicy::CopyTarget
}

/// Whether a directory reached through a link is skipped: a walk that
/// follows links enters each directory once, so links cannot loop it.
pub fn skip_followed_directory(
    visited: &mut VisitedDirectories,
    target_kind: EntryKind,
    target_id: u128,
) -> (r: bool)
    ensures
        target_kind == EntryKind::Directory ==> r == old(visited).spec_ids().contains(target_id)
            && final(visited).spec_ids() == old(visited).spec_ids().insert(target_id),
        target_kind != EntryKind::Directory ==> !r && final(visited).spec_ids() == old(
            visited,
        ).spec_ids(),
{
    if target_kind == EntryKind::Directory {
        !visited.insert(target_id)
    } else {
        false
    }
}

/// Records a directory reached directly, not through a link, when the walk
/// follows links, so that a link back to it is not entered again.
pub fn note_direct_directory(
    visited: &mut VisitedDirectories,
    kind: EntryKind,
    followed_target: bool,
    policy: SymlinkPolicy,
    id: u128,
)
    ensures
        (kind == EntryKind::Directory && !followed_target && policy == SymlinkPolicy::CopyTarget)
            ==> final(visited).spec_ids() == old(visited).spec_ids().insert(id),
        !(kind == EntryKind::Directory && !followed_target && policy == SymlinkPolicy::CopyTarget)
            ==> final(visited).spec_ids() == old(visited).spec_ids(),
{
    if kind == EntryKind::Directory && !followed_target && policy == SymlinkPolicy::CopyTarget {
        visited.insert(id);
    }
}

/// What a delete walk does with an entry it takes off its stack.
#[derive(Debug, Clone, Copy, PartialEq, Eq, Structural)]
pub enum DeleteVisit {
    /// List the directory: put it back as listed, then push its children,
    /// so that it is deleted after them.
    ListChildren,
    /// Plan the entry's deletion.
    Plan,
}

/// Decides a delete walk's step: a directory not yet listed is listed
/// first, and everything else is planned, children before their directory.
pub fn delete_visit(kind: EntryKind, listed: bool) -> (r: DeleteVisit)
    ensures
        r == (if kind == EntryKind::Directory && !listed {
            DeleteVisit::ListChildren
        } else {
            DeleteVisit::Plan
        }),
{
    if kind == EntryKind::Directory && !listed {
        DeleteVisit::ListChildren
    } else {
        DeleteVisit::Plan
    }
}

/// An entry tree as a walk lists it: the entry's identity, whether it is a
/// directory, and the children its listing gives, in the order the walk
/// pushes them.
pub struct EntryTree {
    /// Identity of the entry.
    pub id: u128,
    /// Whether the entry is a directory (only directories are listed).
    pub is_dir: bool,
    /// Children of a directory, in listing order.
    pub children: Seq<EntryTree>,
}

/// Entries of a tree, each directory after everything below it.
pub open spec fn post_order(t: EntryTree) -> Seq<u128>
    decreases t,
{
    if t.is_dir {
        post_order_all(t.children) + seq![t.id]
    } else {
        seq![t.id]
    }
}

/// Entries of trees in turn, each in post-order.
pub open spec fn post_order_all(ts: Seq<EntryTree>) -> Seq<u128>
    decreases ts,
{
    if ts.len() == 0 {
        seq![]
    } else {
        post_order(ts[0]) + post_order_all(ts.drop_first())
    }
}

/// Entries of a tree, each directory before everything below it.
pub open spec fn pre_order(t: EntryTree) -> Seq<u128>
    decreases t,
{
    if t.is_dir {
        seq![t.id] + pre_order_all(t.children)
    } else {
        seq![t.id]
    }
}

/// Entries of trees in turn, each in pre-order.
pub open spec fn pre_order_all(ts: Seq<EntryTree>) -> Seq<u128>
    decreases ts,
{
    if ts.len() == 0 {
        seq![]
    } else {
        pre_order(ts[0]) + pre_order_all(ts.drop_first())
    }
}

/// What a delete walk's stack entry will still plan: a listed directory
/// only itself, anything else its whole subtree in post-order.
pub open spec fn delete_pending(item: (EntryTree, bool)) -> Seq<u128> {
    if item.1 {
        seq![item.0.id]
    } else {
        post_order(item.0)
    }
}

/// What a delete walk's stack will still plan, from its top down.
pub open spec fn delete_remaining(stack: Seq<(EntryTree, bool)>) -> Seq<u128>
    decreases stack.len(),
{
    if stack.len() == 0 {
        seq![]
    } else {
        delete_pending(stack.last()) + delete_remaining(stack.drop_last())
    }
}

/// What the stack entries `items` will plan, first to last.
pub open spec fn delete_pending_all(items: Seq<(EntryTree, bool)>) -> Seq<u128>
    decreases items.len(),
{
    if items.len() == 0 {
        seq![]
    } else {
        delete_pending(items[0]) + delete_pending_all(items.drop_first())
    }
}

/// Children as a delete walk pushes them: not listed yet.
pub open spec fn unlisted(children: Seq<EntryTree>) -> Seq<(EntryTree, bool)> {
    children.map_values(|c: EntryTree| (c, false))
}

/// One step of a delete walk on a non-empty stack: the top entry is taken;
/// a directory not listed yet is put back as listed with its children
/// pushed above it (`delete_visit` lists it), anything else is planned.
/// Gives the new stack and the entry planned, if any.
pub open spec fn delete_step(stack: Seq<(EntryTree, bool)>) -> (Seq<(EntryTree, bool)>, Option<
    u128,
>) {
    let (t, listed) = stack.last();
    let rest = stack.drop_last();
    if t.is_dir && !listed {
        (rest.push((t, true)) + unlisted(t.children).reverse(), None)
    } else {
        (rest, Some(t.id))
    }
}

/// The entry planned by a step, as a sequence.
pub open spec fn planned(entry: Option<u128>) -> Seq<u128> {
    match entry {
        Some(id) => seq![id],
        None => seq![],
    }
}

/// Pushing entries reversed above a stack puts them first, in order.
proof fn lemma_delete_remaining_reversed(
    below: Seq<(EntryTree, bool)>,
    items: Seq<(EntryTree, bool)>,
)
    ensures
        delete_remaining(below + items.reverse()) == delete_pending_all(items) + delete_remaining(
            below,
        ),
    decreases items.len(),
{
    if items.len() == 0 {
        assert(below + items.reverse() =~= below);
        assert(delete_pending_all(items) =~= Seq::<u128>::empty());
        assert(delete_pending_all(items) + delete_remaining(below) =~= delete_remaining(below));
    } else {
        let tail = items.drop_first();
        let s = below + items.reverse();
        assert(s =~= (below + tail.reverse()).push(items[0]));
        assert(s.last() == items[0]);
        assert(s.drop_last() =~= below + tail.reverse());
        lemma_delete_remaining_reversed(below, tail);
        assert(delete_remaining(s) =~= delete_pending(items[0]) + (delete_pending_all(tail)
            + delete_remaining(below)));
    }
}

/// Unlisted children plan their subtrees in turn.
proof fn lemma_unlisted_pending(children: Seq<EntryTree>)
    ensures
        delete_pending_all(unlisted(children)) == post_order_all(children),
    decreases children.len(),
{
    if children.len() > 0 {
        assert(unlisted(children).drop_first() =~= unlisted(children.drop_first()));
        lemma_unlisted_pending(children.drop_first());
    }
}

/// A delete walk plans every entry of a tree after every entry below it:
/// from the root alone its stack will plan the tree in post-order, and each
/// step (`delete_step`, which takes the top entry off the stack with
/// `WalkStack::pop`, decides with `delete_visit`, and puts a listed
/// directory back with `WalkStack::push` under its children pushed with
/// `WalkStack::push_children`) plans exactly what the stack had next, so
/// what the walk has planned followed by what its stack will plan never
/// changes.
pub proof fn law_delete_walk_plans_in_post_order(root: EntryTree, stack: Seq<(EntryTree, bool)>)
    requires
        stack.len() > 0,
    ensures
        delete_remaining(seq![(root, false)]) == post_order(root),
        planned(delete_step(stack).1) + delete_remaining(delete_step(stack).0) == delete_remaining(
            stack,
        ),
{
    let one = seq![(root, false)];
    assert(one.last() == (root, false));
    assert(one.drop_last() =~= Seq::<(EntryTree, bool)>::empty());
    assert(delete_remaining(one.drop_last()) =~= Seq::<u128>::empty());
    assert(delete_remaining(one) =~= post_order(root));
    let (t, listed) = stack.last();
    let rest = stack.drop_last();
    if t.is_dir && !listed {
        let below = rest.push((t, true));
        lemma_delete_remaining_reversed(below, unlisted(t.children));
        lemma_unlisted_pending(t.children);
        assert(below.last() == (t, true));
        assert(below.drop_last() =~= rest);
        assert(planned(delete_step(stack).1) + delete_remaining(delete_step(stack).0)
            =~= post_order_all(t.children) + (seq![t.id] + delete_remaining(rest)));
    } else {
        assert(planned(delete_step(stack).1) + delete_remaining(delete_step(stack).0)
            =~= delete_remaining(stack));
    }
}

/// What a copy walk's stack will still plan, from its top down: each
/// entry's subtree in pre-order.
pub open spec fn copy_remaining(stack: Seq<EntryTree>) -> Seq<u128>
    decreases stack.len(),
{
    if stack.len() == 0 {
        seq![]
    } else {
        pre_order(stack.last()) + copy_remaining(stack.drop_last())
    }
}

/// One step of a copy walk that does not follow links, on a non-empty
/// stack: the top entry is taken and planned, and a directory's children
/// are pushed above the rest. Gives the new stack and the entry planned.
pub open spec fn copy_step(stack: Seq<EntryTree>) -> (Seq<EntryTree>, u128) {
    let t = stack.last();
    let rest = stack.drop_last();
    if t.is_dir {
        (rest + t.children.reverse(), t.id)
    } else {
        (rest, t.id)
    }
}

/// Pushing trees reversed above a stack puts their subtrees first, in order.
proof fn lemma_copy_remaining_reversed(below: Seq<EntryTree>, items: Seq<EntryTree>)
    ensures
        copy_remaining(below + items.reverse()) == pre_order_all(items) + copy_remaining(below),
    decreases items.len(),
{
    if items.len() == 0 {
        assert(below + items.reverse() =~= below);
        assert(pre_order_all(items) + copy_remaining(below) =~= copy_remaining(below));
    } else {
        let tail = items.drop_first();
        let s = below + items.reverse();
        assert(s =~= (below + tail.reverse()).push(items[0]));
        assert(s.last() == items[0]);
        assert(s.drop_last() =~= below + tail.reverse());
        lemma_copy_remaining_reversed(below, tail);
        assert(copy_remaining(s) =~= pre_order(items[0]) + (pre_order_all(tail) + copy_remaining(
            below,
        )));
    }
}

/// A copy walk that does not follow links plans every directory of a tree
/// before every entry below it, children in listing order: from the root
/// alone its stack will plan the tree in pre-order, and each step
/// (`copy_step`: `WalkStack::pop`, then `WalkStack::push_children` for a
/// directory) plans exactly what the stack had next.
pub proof fn law_copy_walk_plans_in_pre_order(root: EntryTree, stack: Seq<EntryTree>)
    requires
        stack.len() > 0,
    ensures
        copy_remaining(seq![root]) == pre_order(root),
        seq![copy_step(stack).1] + copy_remaining(copy_step(stack).0) == copy_remaining(stack),
{
    let one = seq![root];
    assert(one.last() == root);
    assert(one.drop_last() =~= Seq::<EntryTree>::empty());
    assert(copy_remaining(one.drop_last()) =~= Seq::<u128>::empty());
    assert(copy_remaining(one) =~= pre_order(root));
    let t = stack.last();
    let rest = stack.drop_last();
    if t.is_dir {
        lemma_copy_remaining_reversed(rest, t.children);
        assert(seq![copy_step(stack).1] + copy_remaining(copy_step(stack).0) =~= seq![t.id] + (
        pre_order_all(t.children) + copy_remaining(rest)));
    } else {
        assert(seq![copy_step(stack).1] + copy_remaining(copy_step(stack).0) =~= copy_remaining(
            stack,
        ));
    }
}

} // verus!
