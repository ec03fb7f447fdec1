//! Final context packing for grounded Ask: document diversity over ranked
//! candidates, adjacent-chunk expansion, a token budget, and opaque labels.

use vstd::prelude::*;

use crate::text::{
    decimal, lemma_text_less_total, lemma_text_less_transitive, listed,
    push_decimal, same_text, text_less, text_lt, texts,
};

verus! {

/// Local evidence of one indexed record, as retrieval returns it.
#[derive(Debug, PartialEq, Eq)]
pub struct QueryEvidence {
    /// Opaque record identity.
    pub record_id: String,
    /// Library holding the record.
    pub library_id: String,
    /// Document holding the record.
    pub document_id: String,
    /// Source occurrence identity.
    pub occurrence_id: String,
    /// Opaque source identity.
    pub source_id: String,
    /// Serialized provenance.
    pub provenance: String,
    /// Index generation.
    pub generation: u64,
    /// Record kind.
    pub record_kind: String,
    /// Bounded excerpt.
    pub excerpt: String,
    /// Complete record content.
    pub content: String,
    /// Token estimate of the content.
    pub token_count: usize,
    /// Section hierarchy.
    pub section_path: Vec<String>,
    /// Position of the record within its source.
    pub source_position: u32,
    /// Whether the record is generated summary text.
    pub generated: bool,
    /// Indexed content hash.
    pub content_hash: String,
    /// Whether the source can currently open.
    pub available: bool,
    /// Media type of the source.
    pub media_type: String,
    /// Source modification time in milliseconds.
    pub modified_at_ms: i64,
}

/// The same evidence, field by field.
pub open spec fn same_evidence(a: QueryEvidence, b: QueryEvidence) -> bool {
    &&& a.record_id == b.record_id
    &&& a.library_id == b.library_id
    &&& a.document_id == b.document_id
    &&& a.occurrence_id == b.occurrence_id
    &&& a.source_id == b.source_id
    &&& a.provenance == b.provenance
    &&& a.generation == b.generation
    &&& a.record_kind == b.record_kind
    &&& a.excerpt == b.excerpt
    &&& a.content == b.content
    &&& a.token_count == b.token_count
    &&& a.section_path@ == b.section_path@
    &&& a.source_position == b.source_position
    &&& a.generated == b.generated
    &&& a.content_hash == b.content_hash
    &&& a.available == b.available
    &&& a.media_type == b.media_type
    &&& a.modified_at_ms == b.modified_at_ms
}

/// Copies a list of texts.
fn clone_texts(v: &Vec<String>) -> (r: Vec<String>)
    ensures
        r@ == v@,
{
    let mut r: Vec<String> = Vec::new();
    let mut i: usize = 0;
    while i < v.len()
        invariant
            i <= v.len(),
            r@ == v@.take(i as int),
        decreases v.len() - i,
    {
        r.push(v[i].clone());
        i = i + 1;
        assert(r@ =~= v@.take(i as int));
    }
    assert(r@ =~= v@);
    r
}

impl Clone for QueryEvidence {
    fn clone(&self) -> (r: Self)
        ensures
            same_evidence(r, *self),
    {
        QueryEvidence {
            record_id: self.record_id.clone(),
            library_id: self.library_id.clone(),
            document_id: self.document_id.clone(),
            occurrence_id: self.occurrence_id.clone(),
            source_id: self.source_id.clone(),
            provenance: self.provenance.clone(),
            generation: self.generation,
            record_kind: self.record_kind.clone(),
            excerpt: self.excerpt.clone(),
            content: self.content.clone(),
            token_count: self.token_count,
            section_path: clone_texts(&self.section_path),
            source_position: self.source_position,
            generated: self.generated,
            content_hash: self.content_hash.clone(),
            available: self.available,
            media_type: self.media_type.clone(),
            modified_at_ms: self.modified_at_ms,
        }
    }
}

/// One labelled context chunk.
#[derive(Debug, PartialEq, Eq)]
pub struct RagContextChunk {
    /// Opaque citation label (`C1`, `C2`, ...), empty before packing.
    pub label: String,
    /// The record's evidence.
    pub evidence: QueryEvidence,
    /// Dense similarity, as the IEEE-754 bit pattern of its `f32` value; it
    /// is carried, never compared.
    pub score_bits: u32,
    /// Whether the chunk was added as a neighbour of a primary chunk.
    pub adjacent: bool,
    /// Original extracted records used for citation resolution.
    pub source_citation_record_ids: Vec<String>,
    /// Whether the source changed after indexing.
    pub stale: bool,
}

/// The same chunk apart from its label, adjacency and score.
pub open spec fn same_body(a: RagContextChunk, b: RagContextChunk) -> bool {
    &&& same_evidence(a.evidence, b.evidence)
    &&& a.source_citation_record_ids@ == b.source_citation_record_ids@
    &&& a.stale == b.stale
}

/// The same chunk, field by field.
pub open spec fn same_chunk(a: RagContextChunk, b: RagContextChunk) -> bool {
    &&& same_body(a, b)
    &&& a.label == b.label
    &&& a.score_bits == b.score_bits
    &&& a.adjacent == b.adjacent
}

impl Clone for RagContextChunk {
    fn clone(&self) -> (r: Self)
        ensures
            same_chunk(r, *self),
    {
        RagContextChunk {
            label: self.label.clone(),
            evidence: self.evidence.clone(),
            score_bits: self.score_bits,
            adjacent: self.adjacent,
            source_citation_record_ids: clone_texts(&self.source_citation_record_ids),
            stale: self.stale,
        }
    }
}

/// Packed evidence for one question.
#[derive(Debug, PartialEq, Eq)]
pub struct RagContext {
    /// Labelled chunks in context order.
    pub chunks: Vec<RagContextChunk>,
    /// Tokens of all packed chunks.
    pub token_count: usize,
    /// Whether nothing could be packed.
    pub insufficient: bool,
}

/// The limits that final packing applies.
#[derive(Debug, Clone, Copy, PartialEq, Eq, Structural)]
pub struct RagRetrievalPolicy {
    /// Most distinct documents among primary chunks.
    pub maximum_documents: usize,
    /// Most primary chunks per document.
    pub maximum_chunks_per_document: usize,
    /// Widest source-position distance of an adjacent chunk.
    pub adjacent_chunk_radius: u32,
    /// Most tokens of packed context.
    pub context_token_budget: usize,
}

/// The document of a chunk.
pub open spec fn doc_of(c: RagContextChunk) -> Seq<char> {
    c.evidence.document_id@
}

/// The record of a chunk.
pub open spec fn record_of(c: RagContextChunk) -> Seq<char> {
    c.evidence.record_id@
}

/// How many of the chunks at `picked` belong to document `d`.
pub open spec fn count_doc(ranked: Seq<RagContextChunk>, picked: Seq<int>, d: Seq<char>) -> nat
    decreases picked.len(),
{
    if picked.len() == 0 {
        0
    } else {
        count_doc(ranked, picked.drop_last(), d) + if doc_of(ranked[picked.last()]) == d {
            1nat
        } else {
            0nat
        }
    }
}

/// Primary selection over the first `n` ranked chunks: the positions of the
/// chunks kept, and the distinct documents among them in first-kept order. A
/// chunk is kept unless its document already has the most primary chunks
/// allowed, or it would add a document beyond the most documents allowed.
pub open spec fn primary_scan(ranked: Seq<RagContextChunk>, policy: RagRetrievalPolicy, n: int) -> (
    Seq<int>,
    Seq<Seq<char>>,
)
    decreases n,
{
    if n <= 0 {
        (seq![], seq![])
    } else {
        let (picked, docs) = primary_scan(ranked, policy, n - 1);
        let d = doc_of(ranked[n - 1]);
        if count_doc(ranked, picked, d) >= policy.maximum_chunks_per_document || (!docs.contains(d)
            && docs.len() >= policy.maximum_documents) {
            (picked, docs)
        } else {
            (picked.push(n - 1), if docs.contains(d) { docs } else { docs.push(d) })
        }
    }
}

/// Distance between two source positions.
pub open spec fn position_gap(a: u32, b: u32) -> int {
    if a >= b { a - b } else { b - a }
}

/// Whether `c` lies in the same source as `p`, within `radius` positions.
pub open spec fn is_near(c: RagContextChunk, p: RagContextChunk, radius: u32) -> bool {
    c.evidence.source_id@ == p.evidence.source_id@ && position_gap(
        c.evidence.source_position,
        p.evidence.source_position,
    ) <= radius
}

/// The chunks of `s` near `p`, in order.
pub open spec fn neighbours(s: Seq<RagContextChunk>, p: RagContextChunk, radius: u32) -> Seq<
    RagContextChunk,
>
    decreases s.len(),
{
    if s.len() == 0 {
        seq![]
    } else if is_near(s.last(), p, radius) {
        neighbours(s.drop_last(), p, radius).push(s.last())
    } else {
        neighbours(s.drop_last(), p, radius)
    }
}

/// Whether some chunk of `s` is the record `r`.
pub open spec fn has_record(s: Seq<RagContextChunk>, r: Seq<char>) -> bool {
    exists|i: int| 0 <= i < s.len() && record_of(#[trigger] s[i]) == r
}

/// The neighbours of primary `p` among all candidates, with `p` itself
/// added when none of them is its record.
pub open spec fn group_of(ranked: Seq<RagContextChunk>, p: RagContextChunk, radius: u32) -> Seq<
    RagContextChunk,
> {
    let g = neighbours(ranked, p, radius);
    if has_record(g, record_of(p)) {
        g
    } else {
        g.push(p)
    }
}

/// Whether `a` sorts strictly after `b`: by source position, then record.
pub open spec fn sorts_after(a: RagContextChunk, b: RagContextChunk) -> bool {
    b.evidence.source_position < a.evidence.source_position || (b.evidence.source_position
        == a.evidence.source_position && text_less(record_of(b), record_of(a)))
}

/// Where `c` goes in the sorted `s`: after every element that does not sort
/// after it.
pub open spec fn insertion_point(s: Seq<RagContextChunk>, c: RagContextChunk) -> int
    decreases s.len(),
{
    if s.len() == 0 {
        0
    } else if sorts_after(s.last(), c) {
        insertion_point(s.drop_last(), c)
    } else {
        s.len() as int
    }
}

/// Stable sort by source position, then record.
pub open spec fn sort_group(s: Seq<RagContextChunk>) -> Seq<RagContextChunk>
    decreases s.len(),
{
    if s.len() == 0 {
        seq![]
    } else {
        let sorted = sort_group(s.drop_last());
        sorted.insert(insertion_point(sorted, s.last()), s.last())
    }
}

/// Every chunk of the sorted group of each primary, paired with that primary,
/// primary by primary.
pub open spec fn candidates(
    ranked: Seq<RagContextChunk>,
    primaries: Seq<int>,
    radius: u32,
) -> Seq<(RagContextChunk, RagContextChunk)>
    decreases primaries.len(),
{
    if primaries.len() == 0 {
        seq![]
    } else {
        let p = ranked[primaries.last()];
        candidates(ranked, primaries.drop_last(), radius) + sort_group(group_of(ranked, p, radius)).map_values(
            |c: RagContextChunk| (c, p),
        )
    }
}

/// Token packing over candidate pairs: the accepted pairs, the records seen,
/// and the tokens used. A record already seen is skipped; otherwise it is
/// seen, and accepted when its tokens still fit in the budget.
pub open spec fn accept_scan(pairs: Seq<(RagContextChunk, RagContextChunk)>, budget: usize) -> (
    Seq<(RagContextChunk, RagContextChunk)>,
    Seq<Seq<char>>,
    nat,
)
    decreases pairs.len(),
{
    if pairs.len() == 0 {
        (seq![], seq![], 0)
    } else {
        let (accepted, seen, tokens) = accept_scan(pairs.drop_last(), budget);
        let (c, p) = pairs.last();
        if seen.contains(record_of(c)) {
            (accepted, seen, tokens)
        } else if tokens + c.evidence.token_count > budget {
            (accepted, seen.push(record_of(c)), tokens)
        } else {
            (accepted.push((c, p)), seen.push(record_of(c)), (tokens + c.evidence.token_count) as nat)
        }
    }
}

/// The `i`th packed chunk made from candidate `c` of primary `p`: labelled
/// `C<i+1>`, adjacent when it is not the primary's record, and then scored
/// as the primary.
pub open spec fn is_packed(out: RagContextChunk, c: RagContextChunk, p: RagContextChunk, i: int) -> bool {
    &&& same_body(out, c)
    &&& out.adjacent == (record_of(c) != record_of(p))
    &&& out.score_bits == if out.adjacent { p.score_bits } else { c.score_bits }
    &&& out.label@ == "C"@ + decimal((i + 1) as nat)
}


/// The chunks at the given positions.
pub open spec fn at(ranked: Seq<RagContextChunk>, idx: Seq<usize>) -> Seq<RagContextChunk> {
    idx.map_values(|i: usize| ranked[i as int])
}

/// Positions as integers.
pub open spec fn ints(idx: Seq<usize>) -> Seq<int> {
    idx.map_values(|i: usize| i as int)
}

/// Every position is below `n`.
pub open spec fn all_below(idx: Seq<usize>, n: int) -> bool {
    forall|i: int| 0 <= i < idx.len() ==> (#[trigger] idx[i]) < n
}

/// How many chunks at `picked` belong to the document `doc`.
fn count_picked(ranked: &Vec<RagContextChunk>, picked: &Vec<usize>, doc: &str) -> (r: usize)
    requires
        all_below(picked@, ranked.len() as int),
    ensures
        r == count_doc(ranked@, ints(picked@), doc@),
{
    let mut count: usize = 0;
    let mut j: usize = 0;
    while j < picked.len()
        invariant
            j <= picked.len(),
            all_below(picked@, ranked.len() as int),
            count <= j,
            count == count_doc(ranked@, ints(picked@).take(j as int), doc@),
        decreases picked.len() - j,
    {
        proof {
            assert(ints(picked@).take(j as int + 1).drop_last() =~= ints(picked@).take(j as int));
        }
        if same_text(ranked[picked[j]].evidence.document_id.as_str(), doc) {
            count = count + 1;
        }
        j = j + 1;
    }
    assert(ints(picked@).take(picked.len() as int) =~= ints(picked@));
    count
}

/// Whether `key` is one of `seen`.
fn holds_text(seen: &Vec<String>, key: &str) -> (r: bool)
    ensures
        r == seen@.map_values(|s: String| s@).contains(key@),
{
    let ghost t = seen@.map_values(|s: String| s@);
    let mut i: usize = 0;
    while i < seen.len()
        invariant
            i <= seen.len(),
            t == seen@.map_values(|s: String| s@),
            forall|j: int| 0 <= j < i ==> seen@[j]@ != key@,
        decreases seen.len() - i,
    {
        if same_text(seen[i].as_str(), key) {
            assert(t[i as int] == key@);
            return true;
        }
        i = i + 1;
    }
    proof {
        if t.contains(key@) {
            let j = choose|j: int| 0 <= j < t.len() && t[j] == key@;
            assert(seen@[j]@ == key@);
        }
    }
    false
}

/// Selects the primary chunks, as `primary_scan` says.
fn select_primaries(ranked: &Vec<RagContextChunk>, policy: RagRetrievalPolicy) -> (r: Vec<usize>)
    ensures
        ints(r@) == primary_scan(ranked@, policy, ranked.len() as int).0,
        all_below(r@, ranked.len() as int),
{
    let mut picked: Vec<usize> = Vec::new();
    let mut docs: Vec<String> = Vec::new();
    let mut i: usize = 0;
    while i < ranked.len()
        invariant
            i <= ranked.len(),
            all_below(picked@, ranked.len() as int),
            (ints(picked@), docs@.map_values(|s: String| s@)) == primary_scan(
                ranked@,
                policy,
                i as int,
            ),
        decreases ranked.len() - i,
    {
        let doc = ranked[i].evidence.document_id.as_str();
        let existing = count_picked(ranked, &picked, doc);
        let known = holds_text(&docs, doc);
        if !(existing >= policy.maximum_chunks_per_document || (!known && docs.len()
            >= policy.maximum_documents)) {
            let ghost before_p = ints(picked@);
            let ghost before_d = docs@.map_values(|s: String| s@);
            picked.push(i);
            if !known {
                docs.push(doc.to_owned());
                assert(docs@.map_values(|s: String| s@) =~= before_d.push(doc@));
            } else {
                assert(docs@.map_values(|s: String| s@) =~= before_d);
            }
            assert(ints(picked@) =~= before_p.push(i as int));
        }
        i = i + 1;
    }
    picked
}

/// Whether chunk `a` sorts strictly after chunk `b`.
fn chunk_sorts_after(a: &RagContextChunk, b: &RagContextChunk) -> (r: bool)
    ensures
        r == sorts_after(*a, *b),
{
    b.evidence.source_position < a.evidence.source_position || (b.evidence.source_position
        == a.evidence.source_position && text_lt(
        b.evidence.record_id.as_str(),
        a.evidence.record_id.as_str(),
    ))
}

/// Sorts the positions of a group stably by source position, then record.
fn sort_positions(ranked: &Vec<RagContextChunk>, group: &Vec<usize>) -> (r: Vec<usize>)
    requires
        all_below(group@, ranked.len() as int),
    ensures
        all_below(r@, ranked.len() as int),
        at(ranked@, r@) == sort_group(at(ranked@, group@)),
{
    let mut out: Vec<usize> = Vec::new();
    let mut j: usize = 0;
    while j < group.len()
        invariant
            j <= group.len(),
            all_below(group@, ranked.len() as int),
            all_below(out@, ranked.len() as int),
            at(ranked@, out@) == sort_group(at(ranked@, group@).take(j as int)),
        decreases group.len() - j,
    {
        let c = &ranked[group[j]];
        let ghost sorted = at(ranked@, out@);
        let mut pos: usize = out.len();
        assert(sorted.take(pos as int) =~= sorted);
        while pos > 0 && chunk_sorts_after(&ranked[out[pos - 1]], c)
            invariant
                pos <= out.len(),
                sorted == at(ranked@, out@),
                all_below(out@, ranked.len() as int),
                insertion_point(sorted, *c) == insertion_point(sorted.take(pos as int), *c),
            decreases pos,
        {
            proof {
                assert(sorted.take(pos as int).drop_last() =~= sorted.take(pos as int - 1));
                assert(sorted.take(pos as int).last() == ranked@[out@[pos - 1] as int]);
            }
            pos = pos - 1;
        }
        proof {
            if pos > 0 {
                assert(sorted.take(pos as int).last() == ranked@[out@[pos - 1] as int]);
            }
            assert(sorted.take(0) =~= Seq::<RagContextChunk>::empty());
            assert(insertion_point(sorted, *c) == pos);
            assert(at(ranked@, group@).take(j as int + 1).drop_last() =~= at(ranked@, group@).take(
                j as int,
            ));
        }
        let ghost before = out@;
        out.insert(pos, group[j]);
        proof {
            assert(at(ranked@, out@) =~= sorted.insert(pos as int, *c));
        }
        j = j + 1;
    }
    assert(at(ranked@, group@).take(group.len() as int) =~= at(ranked@, group@));
    out
}

/// The positions of the group of the primary at `p`, as `group_of` says.
fn group_positions(ranked: &Vec<RagContextChunk>, p: usize, radius: u32) -> (r: Vec<usize>)
    requires
        p < ranked.len(),
    ensures
        all_below(r@, ranked.len() as int),
        at(ranked@, r@) == group_of(ranked@, ranked@[p as int], radius),
{
    let primary = &ranked[p];
    let mut g: Vec<usize> = Vec::new();
    let mut j: usize = 0;
    while j < ranked.len()
        invariant
            j <= ranked.len(),
            p < ranked.len(),
            *primary == ranked@[p as int],
            all_below(g@, ranked.len() as int),
            at(ranked@, g@) == neighbours(ranked@.take(j as int), *primary, radius),
        decreases ranked.len() - j,
    {
        let c = &ranked[j];
        let a = c.evidence.source_position;
        let b = primary.evidence.source_position;
        let gap = if a >= b { a - b } else { b - a };
        proof {
            assert(ranked@.take(j as int + 1).drop_last() =~= ranked@.take(j as int));
            assert(ranked@.take(j as int + 1).last() == ranked@[j as int]);
        }
        if same_text(c.evidence.source_id.as_str(), primary.evidence.source_id.as_str()) && gap
            <= radius {
            let ghost before = at(ranked@, g@);
            g.push(j);
            assert(at(ranked@, g@) =~= before.push(ranked@[j as int]));
        }
        j = j + 1;
    }
    assert(ranked@.take(ranked.len() as int) =~= ranked@);
    let ghost neigh = at(ranked@, g@);
    let mut found = false;
    let mut k: usize = 0;
    while k < g.len()
        invariant
            k <= g.len(),
            neigh == at(ranked@, g@),
            all_below(g@, ranked.len() as int),
            found == exists|i: int| 0 <= i < k && record_of(#[trigger] neigh[i]) == record_of(
                *primary,
            ),
        decreases g.len() - k,
    {
        assert(neigh[k as int] == ranked@[g@[k as int] as int]);
        if same_text(
            ranked[g[k]].evidence.record_id.as_str(),
            primary.evidence.record_id.as_str(),
        ) {
            found = true;
        }
        k = k + 1;
    }
    if !found {
        g.push(p);
        assert(at(ranked@, g@) =~= neigh.push(*primary));
    }
    g
}


/// Whether `r` is the record of one of the candidates.
pub open spec fn is_record_in(r: Seq<char>, ranked: Seq<RagContextChunk>) -> bool {
    exists|j: int| 0 <= j < ranked.len() && r == record_of(#[trigger] ranked[j])
}

/// Distinct records of candidates are no more than the candidates.
proof fn lemma_distinct_records_bound(seen: Seq<Seq<char>>, ranked: Seq<RagContextChunk>)
    requires
        seen.no_duplicates(),
        forall|i: int| 0 <= i < seen.len() ==> is_record_in(#[trigger] seen[i], ranked),
    ensures
        seen.len() <= ranked.len(),
{
    let records = ranked.map_values(|c: RagContextChunk| record_of(c));
    seen.unique_seq_to_set();
    assert(seen.to_set().subset_of(records.to_set())) by {
        assert forall|x: Seq<char>| seen.to_set().contains(x) implies records.to_set().contains(x) by {
            let i = choose|i: int| 0 <= i < seen.len() && seen[i] == x;
            assert(is_record_in(seen[i], ranked));
            let j = choose|j: int| 0 <= j < ranked.len() && seen[i] == record_of(#[trigger] ranked[j]);
            assert(records[j] == x);
        }
    }
    vstd::seq_lib::seq_to_set_is_finite(records);
    vstd::set_lib::lemma_len_subset(seen.to_set(), records.to_set());
    records.lemma_cardinality_of_set();
}

/// Label of the `n`th packed chunk.
fn chunk_label(n: usize) -> (r: String)
    ensures
        r@ == "C"@ + decimal(n as nat),
{
    let mut s = String::from_str("C");
    push_decimal(&mut s, n as u64);
    s
}

/// Packs ranked candidates into the final context. Primary chunks are chosen
/// in rank order under the per-document and document limits; each primary
/// brings its group (the candidates of its source within the adjacency
/// radius) in source order; every record enters once, while the token budget
/// allows, labelled `C1`, `C2`, ... in context order; a neighbour is marked
/// adjacent and takes its primary's score. The context is insufficient when
/// nothing was packed.
pub fn pack_ranked_chunks(ranked: Vec<RagContextChunk>, policy: RagRetrievalPolicy) -> (r: RagContext)
    ensures
        ({
            let primaries = primary_scan(ranked@, policy, ranked.len() as int).0;
            let pairs = candidates(ranked@, primaries, policy.adjacent_chunk_radius);
            let (accepted, _, tokens) = accept_scan(pairs, policy.context_token_budget);
            &&& r.chunks.len() == accepted.len()
            &&& forall|i: int| 0 <= i < accepted.len() ==> is_packed(
                #[trigger] r.chunks@[i],
                accepted[i].0,
                accepted[i].1,
                i,
            )
            &&& r.token_count == tokens
            &&& r.insufficient == (accepted.len() == 0)
        }),
{
    let radius = policy.adjacent_chunk_radius;
    let budget = policy.context_token_budget;
    let primaries = select_primaries(&ranked, policy);
    let ghost prims = ints(primaries@);
    let mut chunks: Vec<RagContextChunk> = Vec::new();
    let mut seen: Vec<String> = Vec::new();
    let mut token_count: usize = 0;
    let ghost mut done: Seq<(RagContextChunk, RagContextChunk)> = seq![];
    let ghost mut accepted: Seq<(RagContextChunk, RagContextChunk)> = seq![];
    let mut k: usize = 0;
    assert(prims.take(0) =~= Seq::<int>::empty());
    while k < primaries.len()
        invariant
            k <= primaries.len(),
            prims == ints(primaries@),
            prims == primary_scan(ranked@, policy, ranked.len() as int).0,
            all_below(primaries@, ranked.len() as int),
            done == candidates(ranked@, prims.take(k as int), radius),
            accept_scan(done, budget) == (accepted, texts(seen@), token_count as nat),
            chunks.len() == accepted.len(),
            forall|i: int| 0 <= i < accepted.len() ==> is_packed(
                #[trigger] chunks@[i],
                accepted[i].0,
                accepted[i].1,
                i,
            ),
            forall|i: int| 0 <= i < seen.len() ==> is_record_in((#[trigger] seen@[i])@, ranked@),
            texts(seen@).no_duplicates(),
            chunks.len() <= seen.len(),
        decreases primaries.len() - k,
    {
        let p = primaries[k];
        let group = group_positions(&ranked, p, radius);
        let sorted = sort_positions(&ranked, &group);
        let ghost primary = ranked@[p as int];
        let ghost pairs = at(ranked@, sorted@).map_values(|c: RagContextChunk| (c, primary));
        let ghost start = done;
        assert(start + pairs.take(0) =~= start);
        let mut m: usize = 0;
        while m < sorted.len()
            invariant
                m <= sorted.len(),
                p < ranked.len(),
                primary == ranked@[p as int],
                all_below(sorted@, ranked.len() as int),
                pairs == at(ranked@, sorted@).map_values(|c: RagContextChunk| (c, primary)),
                accept_scan(start + pairs.take(m as int), budget) == (
                    accepted,
                    texts(seen@),
                    token_count as nat,
                ),
                chunks.len() == accepted.len(),
                forall|i: int| 0 <= i < accepted.len() ==> is_packed(
                    #[trigger] chunks@[i],
                    accepted[i].0,
                    accepted[i].1,
                    i,
                ),
                forall|i: int| 0 <= i < seen.len() ==> is_record_in((#[trigger] seen@[i])@, ranked@),
                texts(seen@).no_duplicates(),
                chunks.len() <= seen.len(),
            decreases sorted.len() - m,
        {
            let c = &ranked[sorted[m]];
            proof {
                assert((start + pairs.take(m as int + 1)).drop_last() =~= start + pairs.take(m as int));
                assert((start + pairs.take(m as int + 1)).last() == (*c, primary));
            }
            let ghost seen_before = texts(seen@);
            if !holds_text(&seen, c.evidence.record_id.as_str()) {
                seen.push(c.evidence.record_id.clone());
                proof {
                    assert(texts(seen@) =~= seen_before.push(record_of(*c)));
                    assert(ranked@[sorted@[m as int] as int] == *c);
                    assert forall|i: int| 0 <= i < seen.len() implies is_record_in(
                        (#[trigger] seen@[i])@,
                        ranked@,
                    ) by {
                        if i == seen.len() - 1 {
                            assert(seen@[i]@ == record_of(ranked@[sorted@[m as int] as int]));
                        } else {
                            assert(texts(seen@)[i] == seen_before[i]);
                        }
                    }
                    assert(texts(seen@).no_duplicates()) by {
                        assert forall|a: int, b: int|
                            0 <= a < b < texts(seen@).len() implies texts(seen@)[a]
                            != texts(seen@)[b] by {
                            if b == texts(seen@).len() - 1 {
                                assert(seen_before.contains(seen_before[a]));
                            } else {
                                assert(seen_before[a] != seen_before[b]);
                            }
                        }
                    }
                    lemma_distinct_records_bound(texts(seen@), ranked@);
                }
                match token_count.checked_add(c.evidence.token_count) {
                    Some(next) => {
                        if next <= budget {
                            token_count = next;
                            let mut out = c.clone();
                            out.adjacent = !same_text(
                                c.evidence.record_id.as_str(),
                                ranked[p].evidence.record_id.as_str(),
                            );
                            if out.adjacent {
                                out.score_bits = ranked[p].score_bits;
                            }
                            out.label = chunk_label(chunks.len() + 1);
                            chunks.push(out);
                            proof {
                                accepted = accepted.push((*c, primary));
                            }
                        }
                    },
                    None => {},
                }
            }
            m = m + 1;
        }
        proof {
            assert(pairs.take(sorted.len() as int) =~= pairs);
            let next = prims.take(k as int + 1);
            assert(next.drop_last() =~= prims.take(k as int));
            assert(next.last() == p as int);
            assert(at(ranked@, sorted@) == sort_group(group_of(ranked@, primary, radius)));
            assert(pairs =~= sort_group(group_of(ranked@, ranked@[next.last()], radius)).map_values(
                |c: RagContextChunk| (c, ranked@[next.last()]),
            ));
            done = start + pairs;
        }
        k = k + 1;
    }
    assert(prims.take(primaries.len() as int) =~= prims);
    let insufficient = chunks.len() == 0;
    RagContext { chunks, token_count, insufficient }
}

/// Packing never uses more tokens than the budget, and every record it
/// accepts is one it has seen; the records seen are distinct, so no record
/// is packed twice.
pub proof fn law_packing_respects_budget_and_uniqueness(
    pairs: Seq<(RagContextChunk, RagContextChunk)>,
    budget: usize,
)
    ensures
        ({
            let (accepted, seen, tokens) = accept_scan(pairs, budget);
            &&& tokens <= budget
            &&& seen.no_duplicates()
            &&& accepted.len() <= seen.len()
            &&& forall|a: int, b: int|
                0 <= a < b < accepted.len() ==> record_of((#[trigger] accepted[a]).0) != record_of(
                    (#[trigger] accepted[b]).0,
                )
            &&& forall|a: int| 0 <= a < accepted.len() ==> seen.contains(
                record_of((#[trigger] accepted[a]).0),
            )
        }),
    decreases pairs.len(),
{
    if pairs.len() > 0 {
        law_packing_respects_budget_and_uniqueness(pairs.drop_last(), budget);
        let (acc0, seen0, t0) = accept_scan(pairs.drop_last(), budget);
        let (acc, seen, t) = accept_scan(pairs, budget);
        let (c, p) = pairs.last();
        if !seen0.contains(record_of(c)) {
            assert(seen == seen0.push(record_of(c)));
            assert forall|a: int, b: int| 0 <= a < b < seen.len() implies seen[a] != seen[b] by {
                if b == seen.len() - 1 {
                    assert(seen0.contains(seen0[a]));
                }
            }
            assert forall|a: int| 0 <= a < acc.len() implies seen.contains(
                record_of((#[trigger] acc[a]).0),
            ) by {
                if a < acc0.len() {
                    assert(acc[a] == acc0[a]);
                    let w = choose|w: int| 0 <= w < seen0.len() && seen0[w] == record_of(acc0[a].0);
                    assert(seen[w] == seen0[w]);
                } else {
                    assert(seen[seen.len() - 1] == record_of(c));
                }
            }
            if acc.len() > acc0.len() {
                assert forall|a: int, b: int| 0 <= a < b < acc.len() implies record_of(
                    (#[trigger] acc[a]).0,
                ) != record_of((#[trigger] acc[b]).0) by {
                    if b == acc.len() - 1 {
                        assert(acc[a] == acc0[a]);
                        assert(seen0.contains(record_of(acc0[a].0)));
                    } else {
                        assert(acc[a] == acc0[a] && acc[b] == acc0[b]);
                    }
                }
            }
        }
    }
}

/// Primary selection keeps at most the allowed number of documents, and at
/// most the allowed number of chunks of any one document.
pub proof fn law_primaries_respect_diversity(
    ranked: Seq<RagContextChunk>,
    policy: RagRetrievalPolicy,
    n: int,
    d: Seq<char>,
)
    ensures
        ({
            let (picked, docs) = primary_scan(ranked, policy, n);
            &&& docs.len() <= policy.maximum_documents
            &&& count_doc(ranked, picked, d) <= policy.maximum_chunks_per_document
        }),
    decreases n,
{
    if n > 0 {
        law_primaries_respect_diversity(ranked, policy, n - 1, d);
        law_primaries_respect_diversity(ranked, policy, n - 1, doc_of(ranked[n - 1]));
        let (picked0, docs0) = primary_scan(ranked, policy, n - 1);
        let (picked, docs) = primary_scan(ranked, policy, n);
        if picked.len() > picked0.len() {
            assert(picked == picked0.push(n - 1));
            assert(picked.drop_last() == picked0);
        }
    }
}
/// Texts in strictly increasing order: sorted, each once.
pub open spec fn strictly_sorted_texts(s: Seq<Seq<char>>) -> bool {
    forall|i: int, j: int| 0 <= i < j < s.len() ==> text_less(#[trigger] s[i], #[trigger] s[j])
}

/// `merged` holds, sorted and each once, exactly the texts of `a` and `b`.
pub open spec fn merges_citations(
    merged: Seq<Seq<char>>,
    a: Seq<Seq<char>>,
    b: Seq<Seq<char>>,
) -> bool {
    &&& strictly_sorted_texts(merged)
    &&& forall|y: Seq<char>| #[trigger] listed(merged, y) <==> (listed(a, y) || listed(b, y))
}

/// Adds a record identity to a strictly sorted list unless it is there.
fn insert_citation(sorted: &mut Vec<String>, x: &String)
    requires
        strictly_sorted_texts(texts(old(sorted)@)),
    ensures
        strictly_sorted_texts(texts(final(sorted)@)),
        forall|y: Seq<char>| #[trigger]
            listed(texts(final(sorted)@), y) <==> (listed(texts(old(sorted)@), y) || y == x@),
{
    let ghost s = texts(sorted@);
    let mut j: usize = 0;
    while j < sorted.len() && text_lt(sorted[j].as_str(), x.as_str())
        invariant
            s == texts(sorted@),
            j <= sorted.len(),
            forall|i: int| 0 <= i < j ==> text_less(#[trigger] s[i], x@),
        decreases sorted.len() - j,
    {
        j = j + 1;
    }
    if j < sorted.len() && same_text(sorted[j].as_str(), x.as_str()) {
        assert(s[j as int] == x@);
        return;
    }
    proof {
        if j < s.len() {
            lemma_text_less_total(s[j as int], x@);
        }
    }
    sorted.insert(j, x.clone());
    let ghost r = texts(sorted@);
    assert(r =~= s.insert(j as int, x@));
    assert forall|a: int, b: int| 0 <= a < b < r.len() implies text_less(#[trigger] r[a], #[trigger] r[b]) by {
        if b < j {
        } else if b == j {
        } else if a == j {
            if b - 1 > j {
                lemma_text_less_transitive(x@, s[j as int], s[b - 1]);
            }
        } else if a < j {
            assert(r[a] == s[a] && r[b] == s[b - 1]);
        } else {
        }
    }
    assert forall|y: Seq<char>| #[trigger] listed(r, y) <==> (listed(s, y) || y == x@) by {
        if listed(r, y) {
            let i = choose|i: int| 0 <= i < r.len() && r[i] == y;
            if i < j {
                assert(s[i] == y);
            } else if i > j {
                assert(s[i - 1] == y);
            }
        }
        if y == x@ {
            assert(r[j as int] == y);
        }
        if listed(s, y) {
            let i = choose|i: int| 0 <= i < s.len() && s[i] == y;
            if i < j {
                assert(r[i] == y);
            } else {
                assert(r[i + 1] == y);
            }
        }
    }
}

/// Record identities of two retrievals of one record together, sorted and
/// each once.
pub fn merge_citation_ids(existing: &Vec<String>, more: &Vec<String>) -> (r: Vec<String>)
    ensures
        merges_citations(texts(r@), texts(existing@), texts(more@)),
{
    let mut merged: Vec<String> = Vec::new();
    let mut i: usize = 0;
    while i < existing.len()
        invariant
            i <= existing.len(),
            strictly_sorted_texts(texts(merged@)),
            forall|y: Seq<char>| #[trigger]
                listed(texts(merged@), y) <==> listed(texts(existing@).take(i as int), y),
        decreases existing.len() - i,
    {
        insert_citation(&mut merged, &existing[i]);
        proof {
            let before = texts(existing@).take(i as int);
            let after = texts(existing@).take(i + 1);
            assert(after =~= before.push(existing@[i as int]@));
            assert forall|y: Seq<char>| #[trigger] listed(after, y) <==> (listed(before, y) || y
                == existing@[i as int]@) by {
                if listed(after, y) {
                    let k = choose|k: int| 0 <= k < after.len() && after[k] == y;
                    if k < before.len() {
                        assert(before[k] == y);
                    }
                }
                if listed(before, y) {
                    let k = choose|k: int| 0 <= k < before.len() && before[k] == y;
                    assert(after[k] == y);
                }
                if y == existing@[i as int]@ {
                    assert(after[i as int] == y);
                }
            }
        }
        i = i + 1;
    }
    assert(texts(existing@).take(existing.len() as int) =~= texts(existing@));
    let mut k: usize = 0;
    while k < more.len()
        invariant
            k <= more.len(),
            strictly_sorted_texts(texts(merged@)),
            forall|y: Seq<char>| #[trigger]
                listed(texts(merged@), y) <==> (listed(texts(existing@), y) || listed(
                    texts(more@).take(k as int),
                    y,
                )),
        decreases more.len() - k,
    {
        insert_citation(&mut merged, &more[k]);
        proof {
            let before = texts(more@).take(k as int);
            let after = texts(more@).take(k + 1);
            assert(after =~= before.push(more@[k as int]@));
            assert forall|y: Seq<char>| #[trigger] listed(after, y) <==> (listed(before, y) || y
                == more@[k as int]@) by {
                if listed(after, y) {
                    let m = choose|m: int| 0 <= m < after.len() && after[m] == y;
                    if m < before.len() {
                        assert(before[m] == y);
                    }
                }
                if listed(before, y) {
                    let m = choose|m: int| 0 <= m < before.len() && before[m] == y;
                    assert(after[m] == y);
                }
                if y == more@[k as int]@ {
                    assert(after[k as int] == y);
                }
            }
        }
        k = k + 1;
    }
    assert(texts(more@).take(more.len() as int) =~= texts(more@));
    merged
}

/// Folds a later retrieval of the same record into a fused chunk: their
/// citation records together, sorted and each once; stale when either
/// retrieval found the source stale; available only when both found it
/// available. Everything else of the fused chunk stays.
pub fn merge_fused_record(fused: &mut RagContextChunk, chunk: &RagContextChunk)
    ensures
        merges_citations(
            texts(final(fused).source_citation_record_ids@),
            texts(old(fused).source_citation_record_ids@),
            texts(chunk.source_citation_record_ids@),
        ),
        final(fused).stale == (old(fused).stale || chunk.stale),
        final(fused).evidence == (QueryEvidence {
            available: old(fused).evidence.available && chunk.evidence.available,
            ..old(fused).evidence
        }),
        final(fused).label == old(fused).label,
        final(fused).score_bits == old(fused).score_bits,
        final(fused).adjacent == old(fused).adjacent,
{
    let merged = merge_citation_ids(&fused.source_citation_record_ids, &chunk.source_citation_record_ids);
    fused.source_citation_record_ids = merged;
    fused.stale = fused.stale || chunk.stale;
    fused.evidence.available = fused.evidence.available && chunk.evidence.available;
}

} // verus!
