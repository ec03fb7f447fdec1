//! Saved grounded-Ask conversations: one document of conversations, read
//! back in its stored order and sorted by identity on every save, where
//! every read and change stays inside one tenant.

use vstd::prelude::*;

use crate::rag::{RagAnswer, RagCitation, RagScope, SavedRagTurn};
use crate::rag_query_planning::RagRetrievalStrategy;
use crate::text::same_text;

verus! {

/// Saved conversation metadata. Retrieved chunk text is deliberately omitted.
#[derive(Debug, PartialEq, Eq)]
pub struct SavedRagConversation {
    /// Stable local conversation identity (a UUID as its 128-bit value).
    pub id: u128,
    /// Tenant boundary; never sent to the model.
    pub tenant_id: String,
    /// Profile selected by the user (a UUID as its 128-bit value).
    pub profile_id: u128,
    /// Visible retrieval scope.
    pub scope: RagScope,
    /// Whether model knowledge was allowed.
    pub model_knowledge_allowed: bool,
    /// Retrieval strategy fixed for this conversation.
    pub retrieval_strategy: RagRetrievalStrategy,
    /// Persisted turns with local citation identities.
    pub turns: Vec<SavedRagTurn>,
    /// Approximate serialized storage use.
    pub storage_bytes: u64,
}

/// The same citation, field by field.
pub open spec fn same_citation(a: RagCitation, b: RagCitation) -> bool {
    &&& a.label == b.label
    &&& a.source_id == b.source_id
    &&& a.source_record_ids@ == b.source_record_ids@
    &&& a.provenance == b.provenance
    &&& a.unavailable == b.unavailable
    &&& a.stale == b.stale
    &&& a.generated == b.generated
}

/// The same answer, field by field.
pub open spec fn same_answer(a: RagAnswer, b: RagAnswer) -> bool {
    &&& a.text == b.text
    &&& a.model_knowledge_allowed == b.model_knowledge_allowed
    &&& a.citations.len() == b.citations.len()
    &&& forall|i: int| 0 <= i < a.citations.len() ==> same_citation(
        #[trigger] a.citations@[i],
        b.citations@[i],
    )
}

/// The same turn, field by field.
pub open spec fn same_turn(a: SavedRagTurn, b: SavedRagTurn) -> bool {
    a.question == b.question && same_answer(a.answer, b.answer)
}

/// The same conversation, field by field.
pub open spec fn same_conversation(a: SavedRagConversation, b: SavedRagConversation) -> bool {
    &&& a.id == b.id
    &&& a.tenant_id == b.tenant_id
    &&& a.profile_id == b.profile_id
    &&& a.scope == b.scope
    &&& a.model_knowledge_allowed == b.model_knowledge_allowed
    &&& a.retrieval_strategy == b.retrieval_strategy
    &&& a.storage_bytes == b.storage_bytes
    &&& a.turns.len() == b.turns.len()
    &&& forall|i: int| 0 <= i < a.turns.len() ==> same_turn(#[trigger] a.turns@[i], b.turns@[i])
}

fn copy_texts(v: &Vec<String>) -> (r: Vec<String>)
    ensures
        r@ == v@,
{
    let mut r: Vec<String> = Vec::new();
    let mut i: usize = 0;
    while i < v.len()
        invariant
            i <= v.len(),
            r@ == v@.take(i as int),
        decreases v.len() - i,
    {
        r.push(v[i].clone());
        i = i + 1;
        assert(r@ =~= v@.take(i as int));
    }
    assert(r@ =~= v@);
    r
}

fn copy_citation(c: &RagCitation) -> (r: RagCitation)
    ensures
        same_citation(r, *c),
{
    RagCitation {
        label: c.label.clone(),
        source_id: c.source_id.clone(),
        source_record_ids: copy_texts(&c.source_record_ids),
        provenance: c.provenance.clone(),
        unavailable: c.unavailable,
        stale: c.stale,
        generated: c.generated,
    }
}

fn copy_answer(a: &RagAnswer) -> (r: RagAnswer)
    ensures
        same_answer(r, *a),
{
    let mut citations: Vec<RagCitation> = Vec::new();
    let mut i: usize = 0;
    while i < a.citations.len()
        invariant
            i <= a.citations.len(),
            citations.len() == i,
            forall|k: int| 0 <= k < i ==> same_citation(#[trigger] citations@[k], a.citations@[k]),
        decreases a.citations.len() - i,
    {
        citations.push(copy_citation(&a.citations[i]));
        i = i + 1;
    }
    RagAnswer {
        text: a.text.clone(),
        citations,
        model_knowledge_allowed: a.model_knowledge_allowed,
    }
}

/// A field-by-field copy of a conversation.
pub fn copy_conversation(c: &SavedRagConversation) -> (r: SavedRagConversation)
    ensures
        same_conversation(r, *c),
{
    let mut turns: Vec<SavedRagTurn> = Vec::new();
    let mut i: usize = 0;
    while i < c.turns.len()
        invariant
            i <= c.turns.len(),
            turns.len() == i,
            forall|k: int| 0 <= k < i ==> same_turn(#[trigger] turns@[k], c.turns@[k]),
        decreases c.turns.len() - i,
    {
        let t = &c.turns[i];
        turns.push(SavedRagTurn { question: t.question.clone(), answer: copy_answer(&t.answer) });
        i = i + 1;
    }
    SavedRagConversation {
        id: c.id,
        tenant_id: c.tenant_id.clone(),
        profile_id: c.profile_id,
        scope: c.scope.clone(),
        model_knowledge_allowed: c.model_knowledge_allowed,
        retrieval_strategy: c.retrieval_strategy,
        turns,
        storage_bytes: c.storage_bytes,
    }
}

/// The conversations of one tenant, in document order.
pub open spec fn of_tenant(doc: Seq<SavedRagConversation>, tenant: Seq<char>) -> Seq<
    SavedRagConversation,
>
    decreases doc.len(),
{
    if doc.len() == 0 {
        seq![]
    } else if doc.last().tenant_id@ == tenant {
        of_tenant(doc.drop_last(), tenant).push(doc.last())
    } else {
        of_tenant(doc.drop_last(), tenant)
    }
}

/// Whether a conversation is the one with identity `id` in tenant `tenant`.
pub open spec fn is_key(c: SavedRagConversation, tenant: Seq<char>, id: u128) -> bool {
    c.tenant_id@ == tenant && c.id == id
}

/// The document without the conversation `id` of tenant `tenant`.
pub open spec fn without(doc: Seq<SavedRagConversation>, tenant: Seq<char>, id: u128) -> Seq<
    SavedRagConversation,
>
    decreases doc.len(),
{
    if doc.len() == 0 {
        seq![]
    } else if is_key(doc.last(), tenant, id) {
        without(doc.drop_last(), tenant, id)
    } else {
        without(doc.drop_last(), tenant, id).push(doc.last())
    }
}

/// Where a conversation with identity `id` goes in a document ordered by
/// identity: after every conversation whose identity is not larger.
pub open spec fn id_insertion_point(doc: Seq<SavedRagConversation>, id: u128) -> int
    decreases doc.len(),
{
    if doc.len() == 0 {
        0
    } else if doc.last().id > id {
        id_insertion_point(doc.drop_last(), id)
    } else {
        doc.len() as int
    }
}

/// Whether a document is ordered by identity.
pub open spec fn ordered_by_id(doc: Seq<SavedRagConversation>) -> bool {
    forall|a: int, b: int| 0 <= a <= b < doc.len() ==> (#[trigger] doc[a]).id <= (#[trigger] doc[b]).id
}

/// A document with `c` inserted after every conversation whose identity is
/// not larger, counting from the end.
pub open spec fn insert_by_id(doc: Seq<SavedRagConversation>, c: SavedRagConversation) -> Seq<
    SavedRagConversation,
> {
    doc.insert(id_insertion_point(doc, c.id), c)
}

/// A document sorted by identity, conversations of equal identity keeping
/// their order.
pub open spec fn sorted_by_id(doc: Seq<SavedRagConversation>) -> Seq<SavedRagConversation>
    decreases doc.len(),
{
    if doc.len() == 0 {
        doc
    } else {
        insert_by_id(sorted_by_id(doc.drop_last()), doc.last())
    }
}

/// The document after saving `c`: any conversation with its identity in its
/// tenant is removed, `c` is added last, and the document is sorted by
/// identity, conversations of equal identity keeping their order.
pub open spec fn saved(doc: Seq<SavedRagConversation>, c: SavedRagConversation) -> Seq<
    SavedRagConversation,
> {
    sorted_by_id(without(doc, c.tenant_id@, c.id).push(c))
}

/// Durable document of explicitly saved conversations.
pub struct SavedRagConversations {
    conversations: Vec<SavedRagConversation>,
}

impl SavedRagConversations {
    /// The saved conversations, in document order.
    pub closed spec fn spec_conversations(&self) -> Seq<SavedRagConversation> {
        self.conversations@
    }

    /// Conversations are in identity order, as every save leaves them.
    pub open spec fn well_formed(&self) -> bool {
        ordered_by_id(self.spec_conversations())
    }

    /// Every saved conversation, in document order, as persisted.
    pub fn conversations(&self) -> (r: &[SavedRagConversation])
        ensures
            r@ == self.spec_conversations(),
    {
        self.conversations.as_slice()
    }

    /// An empty document.
    pub fn new() -> (r: Self)
        ensures
            r.well_formed(),
            r.spec_conversations().len() == 0,
    {
        SavedRagConversations { conversations: Vec::new() }
    }

    /// A document read back from storage, in its stored order.
    pub fn from_conversations(conversations: Vec<SavedRagConversation>) -> (r: Self)
        ensures
            r.spec_conversations() == conversations@,
    {
        SavedRagConversations { conversations }
    }

    /// Removes the conversation `id` of tenant `tenant`, if present.
    fn remove_key(&mut self, tenant: &str, id: u128)
        ensures
            final(self).spec_conversations() == without(old(self).spec_conversations(), tenant@, id),
    {
        let ghost orig = self.conversations@;
        let total = self.conversations.len();
        let mut consumed: usize = 0;
        let mut i: usize = 0;
        while i < self.conversations.len()
            invariant
                total == orig.len(),
                consumed <= orig.len(),
                i <= self.conversations.len(),
                self.conversations@ == without(orig.take(consumed as int), tenant@, id) + orig.skip(
                    consumed as int,
                ),
                i == without(orig.take(consumed as int), tenant@, id).len(),
                self.conversations@.len() == i + orig.len() - consumed,
            decreases self.conversations.len() - i,
        {
            assert(consumed < orig.len());
            proof {
                assert(orig.take(consumed as int + 1).drop_last() =~= orig.take(consumed as int));
                assert(self.conversations@[i as int] == orig[consumed as int]);
            }
            let matches_key = self.conversations[i].id == id && same_text(
                self.conversations[i].tenant_id.as_str(),
                tenant,
            );
            if matches_key {
                let _ = self.conversations.remove(i);
                proof {
                    assert(self.conversations@ =~= without(orig.take(consumed as int + 1), tenant@, id)
                        + orig.skip(consumed as int + 1));
                }
            } else {
                proof {
                    assert(self.conversations@ =~= without(orig.take(consumed as int + 1), tenant@, id)
                        + orig.skip(consumed as int + 1));
                }
                i = i + 1;
            }
            consumed = consumed + 1;
        }
        proof {
            assert(consumed == orig.len()) by {
                assert(self.conversations@.len() == i + orig.len() - consumed);
            }
            assert(orig.take(orig.len() as int) =~= orig);
            assert(self.conversations@ =~= without(orig, tenant@, id));
        }
    }

    /// Inserts a conversation in identity order, after equal identities.
    fn insert_ordered(&mut self, c: SavedRagConversation)
        requires
            old(self).well_formed(),
        ensures
            final(self).well_formed(),
            final(self).spec_conversations() == old(self).spec_conversations().insert(
                id_insertion_point(old(self).spec_conversations(), c.id),
                c,
            ),
    {
        let ghost doc = self.conversations@;
        let mut pos: usize = self.conversations.len();
        assert(doc.take(pos as int) =~= doc);
        while pos > 0 && self.conversations[pos - 1].id > c.id
            invariant
                pos <= doc.len(),
                self.conversations@ == doc,
                ordered_by_id(doc),
                id_insertion_point(doc, c.id) == id_insertion_point(doc.take(pos as int), c.id),
                forall|k: int| pos <= k < doc.len() ==> (#[trigger] doc[k]).id > c.id,
            decreases pos,
        {
            proof {
                assert(doc.take(pos as int).drop_last() =~= doc.take(pos as int - 1));
            }
            pos = pos - 1;
        }
        proof {
            if pos > 0 {
                assert(doc.take(pos as int).last() == doc[pos - 1]);
            }
            assert(doc.take(0) =~= Seq::<SavedRagConversation>::empty());
        }
        let id = c.id;
        self.conversations.insert(pos, c);
        proof {
            let d2 = self.conversations@;
            assert forall|a: int, b: int| 0 <= a <= b < d2.len() implies (#[trigger] d2[a]).id <= (
            #[trigger] d2[b]).id by {
                if a < pos && b < pos {
                    assert(d2[a] == doc[a] && d2[b] == doc[b]);
                } else if a < pos && b == pos {
                    assert(d2[a] == doc[a]);
                    assert(doc[pos - 1].id <= id);
                    assert(doc[a].id <= doc[pos - 1].id);
                } else if a < pos {
                    assert(d2[a] == doc[a] && d2[b] == doc[b - 1]);
                } else if a == pos && b > pos {
                    assert(d2[b] == doc[b - 1]);
                } else if a > pos {
                    assert(d2[a] == doc[a - 1] && d2[b] == doc[b - 1]);
                }
            }
        }
    }

    /// Sorts the document by identity, conversations of equal identity
    /// keeping their order.
    fn sort_by_id(&mut self)
        ensures
            final(self).well_formed(),
            final(self).spec_conversations() == sorted_by_id(old(self).spec_conversations()),
    {
        let ghost orig = self.conversations@;
        let mut source: Vec<SavedRagConversation> = Vec::new();
        std::mem::swap(&mut source, &mut self.conversations);
        let ghost n = orig.len();
        assert(orig.take(0) =~= Seq::<SavedRagConversation>::empty());
        assert(orig.skip(0) =~= orig);
        while source.len() > 0
            invariant
                n == orig.len(),
                source.len() <= n,
                source@ == orig.skip(n - source.len()),
                self.conversations@ == sorted_by_id(orig.take(n - source.len())),
                self.well_formed(),
            decreases source.len(),
        {
            let ghost k = n - source.len();
            let c = source.remove(0);
            proof {
                assert(c == orig[k]);
                assert(orig.take(k + 1).drop_last() =~= orig.take(k));
                assert(orig.take(k + 1).last() == orig[k]);
                assert(source@ =~= orig.skip(k + 1));
            }
            self.insert_ordered(c);
        }
        assert(orig.take(n as int) =~= orig);
    }

    /// Saves or replaces one tenant-owned conversation, recording its
    /// serialized size, and returns a copy of what was stored: any
    /// conversation with its identity in its tenant is removed, it is added
    /// last, and the document is sorted by identity.
    pub fn save(&mut self, conversation: SavedRagConversation, storage_bytes: u64) -> (r:
        SavedRagConversation)
        ensures
            final(self).well_formed(),
            r.storage_bytes == storage_bytes,
            same_conversation(r, (SavedRagConversation { storage_bytes, ..conversation })),
            final(self).spec_conversations() == saved(
                old(self).spec_conversations(),
                (SavedRagConversation { storage_bytes, ..conversation }),
            ),
    {
        let mut conversation = conversation;
        conversation.storage_bytes = storage_bytes;
        self.remove_key(conversation.tenant_id.as_str(), conversation.id);
        let ghost rest = self.conversations@;
        let ghost stored = conversation;
        let copy = copy_conversation(&conversation);
        self.sort_by_id();
        self.insert_ordered(conversation);
        proof {
            assert(rest.push(stored).drop_last() =~= rest);
            assert(rest.push(stored).last() == stored);
        }
        copy
    }

    /// Copies of the conversations of one tenant, in document order.
    pub fn list(&self, tenant_id: &str) -> (r: Vec<SavedRagConversation>)
        ensures
            r.len() == of_tenant(self.spec_conversations(), tenant_id@).len(),
            forall|i: int| 0 <= i < r.len() ==> same_conversation(
                #[trigger] r@[i],
                of_tenant(self.spec_conversations(), tenant_id@)[i],
            ),
    {
        let ghost doc = self.conversations@;
        let mut r: Vec<SavedRagConversation> = Vec::new();
        let mut i: usize = 0;
        while i < self.conversations.len()
            invariant
                i <= self.conversations.len(),
                doc == self.conversations@,
                r.len() == of_tenant(doc.take(i as int), tenant_id@).len(),
                forall|k: int| 0 <= k < r.len() ==> same_conversation(
                    #[trigger] r@[k],
                    of_tenant(doc.take(i as int), tenant_id@)[k],
                ),
            decreases self.conversations.len() - i,
        {
            proof {
                assert(doc.take(i as int + 1).drop_last() =~= doc.take(i as int));
                assert(doc.take(i as int + 1).last() == doc[i as int]);
            }
            if same_text(self.conversations[i].tenant_id.as_str(), tenant_id) {
                r.push(copy_conversation(&self.conversations[i]));
            }
            i = i + 1;
        }
        assert(doc.take(doc.len() as int) =~= doc);
        r
    }

    /// Deletes one tenant-owned conversation; reports whether it existed.
    pub fn delete(&mut self, tenant_id: &str, id: u128) -> (r: bool)
        ensures
            final(self).spec_conversations() == without(old(self).spec_conversations(), tenant_id@, id),
            r == exists|i: int| 0 <= i < old(self).spec_conversations().len() && is_key(
                #[trigger] old(self).spec_conversations()[i],
                tenant_id@,
                id,
            ),
    {
        let before = self.conversations.len();
        let ghost orig = self.conversations@;
        self.remove_key(tenant_id, id);
        proof {
            lemma_without_len(orig, tenant_id@, id);
        }
        self.conversations.len() != before
    }
}

/// An insertion point lies within the document.
proof fn lemma_insertion_point_bound(doc: Seq<SavedRagConversation>, id: u128)
    ensures
        0 <= id_insertion_point(doc, id) <= doc.len(),
    decreases doc.len(),
{
    if doc.len() > 0 {
        lemma_insertion_point_bound(doc.drop_last(), id);
    }
}

/// Removing a key shortens the document exactly when the key is present.
proof fn lemma_without_len(doc: Seq<SavedRagConversation>, tenant: Seq<char>, id: u128)
    ensures
        without(doc, tenant, id).len() <= doc.len(),
        (without(doc, tenant, id).len() < doc.len()) == exists|i: int| 0 <= i < doc.len() && is_key(
            #[trigger] doc[i],
            tenant,
            id,
        ),
    decreases doc.len(),
{
    if doc.len() > 0 {
        lemma_without_len(doc.drop_last(), tenant, id);
        if exists|i: int| 0 <= i < doc.drop_last().len() && is_key(#[trigger] doc.drop_last()[i], tenant, id) {
            let i = choose|i: int| 0 <= i < doc.drop_last().len() && is_key(#[trigger] doc.drop_last()[i], tenant, id);
            assert(doc[i] == doc.drop_last()[i]);
        }
        if exists|i: int| 0 <= i < doc.len() && is_key(#[trigger] doc[i], tenant, id) {
            let i = choose|i: int| 0 <= i < doc.len() && is_key(#[trigger] doc[i], tenant, id);
            if i < doc.len() - 1 {
                assert(doc.drop_last()[i] == doc[i]);
            }
        }
    }
}


/// Listing a tenant distributes over joining documents.
proof fn lemma_of_tenant_concat(a: Seq<SavedRagConversation>, b: Seq<SavedRagConversation>, t: Seq<char>)
    ensures
        of_tenant(a + b, t) == of_tenant(a, t) + of_tenant(b, t),
    decreases b.len(),
{
    if b.len() == 0 {
        assert(a + b =~= a);
        assert(of_tenant(a, t) + of_tenant(b, t) =~= of_tenant(a, t));
    } else {
        lemma_of_tenant_concat(a, b.drop_last(), t);
        assert((a + b).drop_last() =~= a + b.drop_last());
        assert((a + b).last() == b.last());
        if b.last().tenant_id@ == t {
            assert(of_tenant(a, t) + of_tenant(b, t) =~= (of_tenant(a, t) + of_tenant(b.drop_last(), t)).push(
                b.last(),
            ));
        }
    }
}

/// Removing a conversation of one tenant leaves the listing of every other
/// tenant unchanged.
proof fn lemma_without_other_tenant(
    doc: Seq<SavedRagConversation>,
    tenant: Seq<char>,
    id: u128,
    other: Seq<char>,
)
    requires
        other != tenant,
    ensures
        of_tenant(without(doc, tenant, id), other) == of_tenant(doc, other),
    decreases doc.len(),
{
    if doc.len() > 0 {
        lemma_without_other_tenant(doc.drop_last(), tenant, id, other);
        let w = without(doc.drop_last(), tenant, id);
        if !is_key(doc.last(), tenant, id) {
            assert(w.push(doc.last()).drop_last() =~= w);
            assert(w.push(doc.last()).last() == doc.last());
        }
    }
}

/// Listing a tenant after removing one of its conversations lists none with
/// that identity.
proof fn lemma_without_removes(doc: Seq<SavedRagConversation>, tenant: Seq<char>, id: u128)
    ensures
        forall|i: int| 0 <= i < without(doc, tenant, id).len() ==> !is_key(
            #[trigger] without(doc, tenant, id)[i],
            tenant,
            id,
        ),
    decreases doc.len(),
{
    if doc.len() > 0 {
        lemma_without_removes(doc.drop_last(), tenant, id);
        let w = without(doc.drop_last(), tenant, id);
        if !is_key(doc.last(), tenant, id) {
            assert forall|i: int| 0 <= i < w.push(doc.last()).len() implies !is_key(
                #[trigger] w.push(doc.last())[i],
                tenant,
                id,
            ) by {
                if i < w.len() {
                    assert(w.push(doc.last())[i] == w[i]);
                }
            }
        }
    }
}

/// Deleting a conversation never changes what another tenant lists, and
/// afterwards its own tenant lists no conversation with that identity.
pub proof fn law_delete_is_tenant_isolated(
    doc: Seq<SavedRagConversation>,
    tenant: Seq<char>,
    id: u128,
    other: Seq<char>,
)
    ensures
        other != tenant ==> of_tenant(without(doc, tenant, id), other) == of_tenant(doc, other),
        forall|i: int| 0 <= i < without(doc, tenant, id).len() ==> !is_key(
            #[trigger] without(doc, tenant, id)[i],
            tenant,
            id,
        ),
{
    if other != tenant {
        lemma_without_other_tenant(doc, tenant, id, other);
    }
    lemma_without_removes(doc, tenant, id);
}

/// Where a conversation goes in a document: every later conversation has
/// a larger identity, and the one before it does not.
proof fn lemma_insertion_point_facts(doc: Seq<SavedRagConversation>, id: u128)
    ensures
        0 <= id_insertion_point(doc, id) <= doc.len(),
        forall|k: int|
            id_insertion_point(doc, id) <= k < doc.len() ==> (#[trigger] doc[k]).id > id,
        id_insertion_point(doc, id) > 0 ==> doc[id_insertion_point(doc, id) - 1].id <= id,
    decreases doc.len(),
{
    if doc.len() > 0 {
        lemma_insertion_point_facts(doc.drop_last(), id);
        if doc.last().id > id {
            assert forall|k: int|
                id_insertion_point(doc, id) <= k < doc.len() implies (#[trigger] doc[k]).id > id by {
                if k < doc.len() - 1 {
                    assert(doc[k] == doc.drop_last()[k]);
                }
            }
            if id_insertion_point(doc, id) > 0 {
                assert(doc[id_insertion_point(doc, id) - 1] == doc.drop_last()[id_insertion_point(
                    doc,
                    id,
                ) - 1]);
            }
        }
    }
}

/// Sorting a document already in identity order leaves it as it is.
proof fn lemma_sorted_of_ordered(doc: Seq<SavedRagConversation>)
    requires
        ordered_by_id(doc),
    ensures
        sorted_by_id(doc) == doc,
    decreases doc.len(),
{
    if doc.len() > 0 {
        let front = doc.drop_last();
        assert(ordered_by_id(front)) by {
            assert forall|a: int, b: int| 0 <= a <= b < front.len() implies (#[trigger] front[a]).id
                <= (#[trigger] front[b]).id by {
                assert(front[a] == doc[a] && front[b] == doc[b]);
            }
        }
        lemma_sorted_of_ordered(front);
        if front.len() > 0 {
            assert(front.last() == doc[doc.len() - 2]);
        }
        assert(id_insertion_point(front, doc.last().id) == front.len());
        assert(front.insert(front.len() as int, doc.last()) =~= doc);
    }
}

/// Sorting keeps the length, and every conversation of the sorted document
/// is one of the document's.
proof fn lemma_sorted_elements(doc: Seq<SavedRagConversation>)
    ensures
        sorted_by_id(doc).len() == doc.len(),
        forall|i: int| 0 <= i < doc.len() ==> doc.contains(#[trigger] sorted_by_id(doc)[i]),
    decreases doc.len(),
{
    if doc.len() > 0 {
        let front = doc.drop_last();
        lemma_sorted_elements(front);
        let t = sorted_by_id(front);
        let p = id_insertion_point(t, doc.last().id);
        lemma_insertion_point_bound(t, doc.last().id);
        assert forall|i: int| 0 <= i < doc.len() implies doc.contains(#[trigger] sorted_by_id(doc)[i]) by {
            let x = sorted_by_id(doc)[i];
            if i < p {
                assert(x == t[i]);
                let j = choose|j: int| 0 <= j < front.len() && front[j] == x;
                assert(doc[j] == x);
            } else if i == p {
                assert(doc[doc.len() - 1] == x);
            } else {
                assert(x == t[i - 1]);
                let j = choose|j: int| 0 <= j < front.len() && front[j] == x;
                assert(doc[j] == x);
            }
        }
    }
}

/// Every conversation left after a removal is one of the document's, and a
/// document in identity order stays in identity order.
proof fn lemma_without_elements(doc: Seq<SavedRagConversation>, tenant: Seq<char>, id: u128)
    ensures
        forall|i: int|
            0 <= i < without(doc, tenant, id).len() ==> doc.contains(
                #[trigger] without(doc, tenant, id)[i],
            ),
        ordered_by_id(doc) ==> ordered_by_id(without(doc, tenant, id)),
    decreases doc.len(),
{
    if doc.len() > 0 {
        let front = doc.drop_last();
        lemma_without_elements(front, tenant, id);
        let w = without(front, tenant, id);
        assert forall|i: int| 0 <= i < w.len() implies doc.contains(#[trigger] w[i]) by {
            let j = choose|j: int| 0 <= j < front.len() && front[j] == w[i];
            assert(doc[j] == w[i]);
        }
        if !is_key(doc.last(), tenant, id) {
            let v = w.push(doc.last());
            assert forall|i: int| 0 <= i < v.len() implies doc.contains(#[trigger] v[i]) by {
                if i < w.len() {
                    assert(v[i] == w[i]);
                } else {
                    assert(doc[doc.len() - 1] == v[i]);
                }
            }
            if ordered_by_id(doc) {
                assert(ordered_by_id(front)) by {
                    assert forall|a: int, b: int| 0 <= a <= b < front.len() implies (
                    #[trigger] front[a]).id <= (#[trigger] front[b]).id by {
                        assert(front[a] == doc[a] && front[b] == doc[b]);
                    }
                }
                assert forall|a: int, b: int| 0 <= a <= b < v.len() implies (#[trigger] v[a]).id
                    <= (#[trigger] v[b]).id by {
                    if b == w.len() {
                        let j = choose|j: int| 0 <= j < front.len() && front[j] == w[a];
                        if a < w.len() {
                            assert(v[a] == w[a]);
                            assert(doc[j] == w[a]);
                        }
                    } else {
                        assert(v[a] == w[a] && v[b] == w[b]);
                    }
                }
            }
        } else if ordered_by_id(doc) {
            assert(ordered_by_id(front)) by {
                assert forall|a: int, b: int| 0 <= a <= b < front.len() implies (#[trigger] front[a]).id
                    <= (#[trigger] front[b]).id by {
                    assert(front[a] == doc[a] && front[b] == doc[b]);
                }
            }
        }
    }
}

/// Saving a conversation lists it in its own tenant, and no other
/// conversation with its identity there; in a document kept in identity
/// order it never changes what another tenant lists.
pub proof fn law_save_is_tenant_isolated(
    doc: Seq<SavedRagConversation>,
    c: SavedRagConversation,
    other: Seq<char>,
)
    ensures
        ordered_by_id(doc) && other != c.tenant_id@ ==> of_tenant(saved(doc, c), other)
            == of_tenant(doc, other),
        of_tenant(saved(doc, c), c.tenant_id@).contains(c),
        forall|i: int|
            0 <= i < saved(doc, c).len() && is_key(#[trigger] saved(doc, c)[i], c.tenant_id@, c.id)
                ==> saved(doc, c)[i] == c,
{
    let rest = without(doc, c.tenant_id@, c.id);
    assert(rest.push(c).drop_last() =~= rest);
    assert(rest.push(c).last() == c);
    let t = sorted_by_id(rest);
    let p = id_insertion_point(t, c.id);
    lemma_sorted_elements(rest);
    lemma_insertion_point_bound(t, c.id);
    lemma_without_elements(doc, c.tenant_id@, c.id);
    let s = saved(doc, c);
    assert(s == t.insert(p, c));
    assert(s =~= t.take(p).push(c) + t.skip(p));
    assert(t =~= t.take(p) + t.skip(p));
    assert(t.take(p).push(c).drop_last() =~= t.take(p));
    if ordered_by_id(doc) && other != c.tenant_id@ {
        lemma_sorted_of_ordered(rest);
        lemma_of_tenant_concat(t.take(p).push(c), t.skip(p), other);
        lemma_of_tenant_concat(t.take(p), t.skip(p), other);
        lemma_without_other_tenant(doc, c.tenant_id@, c.id, other);
    }
    let tn = c.tenant_id@;
    lemma_of_tenant_concat(t.take(p).push(c), t.skip(p), tn);
    let listed = of_tenant(t.take(p).push(c), tn);
    assert(listed == of_tenant(t.take(p), tn).push(c));
    assert(listed[listed.len() - 1] == c);
    assert(of_tenant(s, tn)[listed.len() - 1] == c);
    lemma_without_removes(doc, c.tenant_id@, c.id);
    assert forall|i: int|
        0 <= i < s.len() && is_key(#[trigger] s[i], c.tenant_id@, c.id) implies s[i] == c by {
        if i != p {
            let x = if i < p { t[i] } else { t[i - 1] };
            assert(s[i] == x);
            let j = choose|j: int| 0 <= j < rest.len() && rest[j] == x;
            assert(!is_key(rest[j], c.tenant_id@, c.id));
        }
    }
}
} // verus!
