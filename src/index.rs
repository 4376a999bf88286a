//! What ingestion writes to the vector index, and an in-memory index that
//! applies those writes.
//!
//! On a changed document every point of the document is deleted before the
//! new points are inserted, so the index ends up holding exactly the chunks
//! of the latest run.

use vstd::prelude::*;
use crate::chunker::Chunk;
use crate::document::is_fingerprint;
use crate::ingest::{DocumentStatus, POINT_BATCH, status_spec};

verus! {

/// The payload of one indexed chunk; its vector travels beside it.
pub struct IndexedPoint {
    pub document_id: u128,
    pub reference: String,
    pub title: String,
    pub chapter_idx: usize,
    pub chapter_title: Option<String>,
    pub chunk_index: usize,
    pub chunk_text: String,
    pub authors: Vec<String>,
    pub tags: Vec<String>,
}

/// One write to the vector index.
pub enum IndexCommand {
    /// Remove every point of the document.
    DeleteDocument(u128),
    /// Add these points.
    Insert(Vec<IndexedPoint>),
}

/// The document a chunk's point belongs to, and what its payload repeats.
pub struct DocumentInfo {
    pub document_id: u128,
    pub reference: String,
    pub title: String,
    pub authors: Vec<String>,
    pub tags: Vec<String>,
}

pub open spec fn is_point_of(p: IndexedPoint, d: DocumentInfo, c: Chunk) -> bool {
    &&& p.document_id == d.document_id
    &&& p.reference == d.reference
    &&& p.title == d.title
    &&& p.authors@ == d.authors@
    &&& p.tags@ == d.tags@
    &&& p.chapter_idx == c.chapter_idx
    &&& p.chapter_title == c.chapter_title
    &&& p.chunk_index == c.chunk_index
    &&& p.chunk_text == c.text
}

pub(crate) fn clone_strings(v: &Vec<String>) -> (r: Vec<String>)
    ensures
        r@ == v@,
{
    let mut out: Vec<String> = Vec::new();
    let mut i: usize = 0;
    while i < v.len()
        invariant
            i <= v@.len(),
            out@ == v@.take(i as int),
        decreases v@.len() - i,
    {
        out.push(v[i].clone());
        i = i + 1;
        assert(out@ =~= v@.take(i as int));
    }
    assert(v@.take(i as int) =~= v@);
    out
}

/// The point that indexes chunk `c` of document `d`.
pub fn point_of(d: &DocumentInfo, c: &Chunk) -> (r: IndexedPoint)
    ensures
        is_point_of(r, *d, *c),
{
    IndexedPoint {
        document_id: d.document_id,
        reference: d.reference.clone(),
        title: d.title.clone(),
        chapter_idx: c.chapter_idx,
        chapter_title: match &c.chapter_title {
            Some(t) => Some(t.clone()),
            None => None,
        },
        chunk_index: c.chunk_index,
        chunk_text: c.text.clone(),
        authors: clone_strings(&d.authors),
        tags: clone_strings(&d.tags),
    }
}

/// The points that the commands insert, in order.
pub open spec fn inserted(cmds: Seq<IndexCommand>) -> Seq<IndexedPoint>
    decreases cmds.len(),
{
    if cmds.len() == 0 {
        Seq::empty()
    } else {
        inserted(cmds.drop_last()) + match cmds.last() {
            IndexCommand::Insert(v) => v@,
            IndexCommand::DeleteDocument(_) => Seq::empty(),
        }
    }
}

/// Whether the index is written at all: a new or changed document, a
/// configured embedding provider, and at least one chunk.
pub open spec fn indexes(status: DocumentStatus, provider_configured: bool, n_chunks: nat) -> bool {
    status != DocumentStatus::Unchanged && provider_configured && n_chunks > 0
}

/// The writes to the index for one document: nothing, or (for a changed
/// document) a deletion of its points first, then its new points in
/// batches of `POINT_BATCH`, the last one possibly smaller.
pub open spec fn is_index_plan(
    r: Seq<IndexCommand>,
    status: DocumentStatus,
    provider_configured: bool,
    d: DocumentInfo,
    chunks: Seq<Chunk>,
) -> bool {
    if !indexes(status, provider_configured, chunks.len()) {
        r.len() == 0
    } else {
        let first = if status == DocumentStatus::Changed { 1int } else { 0int };
        &&& r.len() > first
        &&& status == DocumentStatus::Changed ==> r[0] == IndexCommand::DeleteDocument(d.document_id)
        &&& forall|k: int| first <= k < r.len() ==> (#[trigger] r[k]) is Insert && 0 < r[k]->Insert_0@.len() <= POINT_BATCH
        &&& forall|k: int| first <= k < r.len() - 1 ==> (#[trigger] r[k])->Insert_0@.len() == POINT_BATCH
        &&& inserted(r).len() == chunks.len()
        &&& forall|i: int| 0 <= i < chunks.len() ==> is_point_of(#[trigger] inserted(r)[i], d, chunks[i])
    }
}

proof fn lemma_inserted_push(prev: Seq<IndexCommand>, v: Vec<IndexedPoint>)
    ensures
        inserted(prev.push(IndexCommand::Insert(v))) == inserted(prev) + v@,
{
    assert(prev.push(IndexCommand::Insert(v)).drop_last() =~= prev);
}

proof fn lemma_plan_step(
    prev: Seq<IndexCommand>,
    batch: Vec<IndexedPoint>,
    d: DocumentInfo,
    chunks: Seq<Chunk>,
    lo: int,
)
    requires
        inserted(prev).len() == lo,
        lo + batch@.len() <= chunks.len(),
        forall|i: int| 0 <= i < lo ==> is_point_of(#[trigger] inserted(prev)[i], d, chunks[i]),
        forall|i: int| 0 <= i < batch@.len() ==> is_point_of(#[trigger] batch@[i], d, chunks[lo + i]),
    ensures
        inserted(prev.push(IndexCommand::Insert(batch))).len() == lo + batch@.len(),
        forall|i: int|
            0 <= i < lo + batch@.len() ==> is_point_of(
                #[trigger] inserted(prev.push(IndexCommand::Insert(batch)))[i],
                d,
                chunks[i],
            ),
{
    lemma_inserted_push(prev, batch);
    let all = inserted(prev.push(IndexCommand::Insert(batch)));
    assert forall|i: int| 0 <= i < lo + batch@.len() implies is_point_of(#[trigger] all[i], d, chunks[i]) by {
        if i >= lo {
            assert(all[i] == batch@[i - lo]);
        } else {
            assert(all[i] == inserted(prev)[i]);
        }
    }
}

/// The points of chunks `lo..hi`.
fn points_of_range(d: &DocumentInfo, chunks: &[Chunk], lo: usize, hi: usize) -> (r: Vec<IndexedPoint>)
    requires
        lo <= hi <= chunks@.len(),
    ensures
        r@.len() == hi - lo,
        forall|i: int| 0 <= i < r@.len() ==> is_point_of(#[trigger] r@[i], *d, chunks@[lo + i]),
{
    let mut batch: Vec<IndexedPoint> = Vec::new();
    let mut j: usize = lo;
    while j < hi
        invariant
            lo <= j <= hi <= chunks@.len(),
            batch@.len() == j - lo,
            forall|i: int| 0 <= i < batch@.len() ==> is_point_of(#[trigger] batch@[i], *d, chunks@[lo + i]),
        decreases hi - j,
    {
        batch.push(point_of(d, &chunks[j]));
        j = j + 1;
    }
    batch
}

/// The writes to the vector index that ingesting a document makes.
pub fn index_commands(
    status: DocumentStatus,
    provider_configured: bool,
    d: &DocumentInfo,
    chunks: &[Chunk],
) -> (r: Vec<IndexCommand>)
    ensures
        is_index_plan(r@, status, provider_configured, *d, chunks@),
{
    let mut out: Vec<IndexCommand> = Vec::new();
    if status == DocumentStatus::Unchanged || !provider_configured || chunks.len() == 0 {
        return out;
    }
    if status == DocumentStatus::Changed {
        out.push(IndexCommand::DeleteDocument(d.document_id));
    }
    let ghost first: int = if status == DocumentStatus::Changed { 1 } else { 0 };
    assert(inserted(out@) =~= Seq::<IndexedPoint>::empty()) by {
        if first == 1 {
            assert(out@.drop_last() =~= Seq::<IndexCommand>::empty());
            assert(inserted(out@.drop_last()) =~= Seq::<IndexedPoint>::empty());
        } else {
            assert(out@ =~= Seq::<IndexCommand>::empty());
        }
    }
    let n = chunks.len();
    let mut lo: usize = 0;
    while lo < n
        invariant
            lo <= n == chunks@.len(),
            n > 0,
            out@.len() > first || lo == 0,
            status == DocumentStatus::Changed ==> out@[0] == IndexCommand::DeleteDocument(d.document_id),
            first == if status == DocumentStatus::Changed { 1int } else { 0int },
            out@.len() >= first,
            forall|k: int| first <= k < out@.len() ==> (#[trigger] out@[k]) is Insert && 0 < out@[k]->Insert_0@.len() <= POINT_BATCH,
            forall|k: int| first <= k < out@.len() - 1 ==> (#[trigger] out@[k])->Insert_0@.len() == POINT_BATCH,
            lo < n && out@.len() > first ==> out@.last()->Insert_0@.len() == POINT_BATCH,
            inserted(out@).len() == lo,
            forall|i: int| 0 <= i < lo ==> is_point_of(#[trigger] inserted(out@)[i], *d, chunks@[i]),
        decreases n - lo,
    {
        let hi = if n - lo > POINT_BATCH {
            lo + POINT_BATCH
        } else {
            n
        };
        let batch = points_of_range(d, chunks, lo, hi);
        let ghost prev = out@;
        let ghost bv = batch@;
        out.push(IndexCommand::Insert(batch));
        proof {
            lemma_plan_step(prev, batch, *d, chunks@, lo as int);
            assert forall|k: int| first <= k < out@.len() implies (#[trigger] out@[k]) is Insert
                && 0 < out@[k]->Insert_0@.len() <= POINT_BATCH by {
                if k < prev.len() {
                    assert(out@[k] == prev[k]);
                }
            }
            assert forall|k: int| first <= k < out@.len() - 1 implies (#[trigger] out@[k])->Insert_0@.len()
                == POINT_BATCH by {
                assert(out@[k] == prev[k]);
                if k == prev.len() - 1 {
                    assert(prev.last() == prev[k]);
                }
            }
        }
        lo = hi;
    }
    out
}

/// The points of document `id`, in order.
pub open spec fn doc_points(s: Seq<IndexedPoint>, id: u128) -> Seq<IndexedPoint>
    decreases s.len(),
{
    if s.len() == 0 {
        Seq::empty()
    } else {
        let prev = doc_points(s.drop_last(), id);
        if s.last().document_id == id {
            prev.push(s.last())
        } else {
            prev
        }
    }
}

/// `s` without the points of document `id`.
pub open spec fn without_doc(s: Seq<IndexedPoint>, id: u128) -> Seq<IndexedPoint>
    decreases s.len(),
{
    if s.len() == 0 {
        Seq::empty()
    } else {
        let prev = without_doc(s.drop_last(), id);
        if s.last().document_id == id {
            prev
        } else {
            prev.push(s.last())
        }
    }
}

pub open spec fn apply_spec(s: Seq<IndexedPoint>, c: IndexCommand) -> Seq<IndexedPoint> {
    match c {
        IndexCommand::DeleteDocument(id) => without_doc(s, id),
        IndexCommand::Insert(v) => s + v@,
    }
}

pub open spec fn apply_all_spec(s: Seq<IndexedPoint>, cmds: Seq<IndexCommand>) -> Seq<IndexedPoint>
    decreases cmds.len(),
{
    if cmds.len() == 0 {
        s
    } else {
        apply_spec(apply_all_spec(s, cmds.drop_last()), cmds.last())
    }
}

/// An index held in memory, for running ingestion without a vector store.
pub struct MemoryIndex {
    pub points: Vec<IndexedPoint>,
}

impl MemoryIndex {
    pub fn new() -> (r: Self)
        ensures
            r.points@.len() == 0,
    {
        MemoryIndex { points: Vec::new() }
    }

    /// Removes every point of document `id`.
    pub fn delete_document(&mut self, id: u128)
        ensures
            final(self).points@ == without_doc(old(self).points@, id),
    {
        let mut rest: Vec<IndexedPoint> = Vec::new();
        std::mem::swap(&mut rest, &mut self.points);
        let ghost all = rest@;
        let mut i: usize = 0;
        let n = rest.len();
        assert(self.points@ =~= without_doc(all.take(0), id));
        while rest.len() > 0
            invariant
                i <= n,
                all.len() == n,
                rest@ == all.skip(i as int),
                self.points@ == without_doc(all.take(i as int), id),
            decreases rest@.len(),
        {
            let p = rest.remove(0);
            assert(all.take(i + 1).drop_last() =~= all.take(i as int));
            assert(all.take(i + 1).last() == p);
            if p.document_id != id {
                self.points.push(p);
            }
            i = i + 1;
            assert(rest@ =~= all.skip(i as int));
        }
        assert(all.take(i as int) =~= all);
    }

    /// Adds the points at the end.
    pub fn insert(&mut self, points: Vec<IndexedPoint>)
        ensures
            final(self).points@ == old(self).points@ + points@,
    {
        let mut points = points;
        self.points.append(&mut points);
    }

    /// Carries out one write.
    pub fn apply(&mut self, c: IndexCommand)
        ensures
            final(self).points@ == apply_spec(old(self).points@, c),
    {
        match c {
            IndexCommand::DeleteDocument(id) => self.delete_document(id),
            IndexCommand::Insert(v) => self.insert(v),
        }
    }

    /// Carries out the writes in order.
    pub fn apply_all(&mut self, cmds: Vec<IndexCommand>)
        ensures
            final(self).points@ == apply_all_spec(old(self).points@, cmds@),
    {
        let ghost start = self.points@;
        let ghost all = cmds@;
        let n = cmds.len();
        let mut rest = cmds;
        let mut i: usize = 0;
        while rest.len() > 0
            invariant
                i <= n,
                all.len() == n,
                rest@ == all.skip(i as int),
                self.points@ == apply_all_spec(start, all.take(i as int)),
            decreases rest@.len(),
        {
            let c = rest.remove(0);
            assert(all.take(i + 1).drop_last() =~= all.take(i as int));
            assert(all.take(i + 1).last() == c);
            self.apply(c);
            i = i + 1;
            assert(rest@ =~= all.skip(i as int));
        }
        assert(all.take(i as int) =~= all);
    }

    /// Number of points of document `id`.
    pub fn count_document(&self, id: u128) -> (r: usize)
        ensures
            r == doc_points(self.points@, id).len(),
    {
        let mut count: usize = 0;
        let mut i: usize = 0;
        while i < self.points.len()
            invariant
                i <= self.points@.len(),
                count == doc_points(self.points@.take(i as int), id).len(),
                count <= i,
            decreases self.points@.len() - i,
        {
            assert(self.points@.take(i + 1).drop_last() =~= self.points@.take(i as int));
            if self.points[i].document_id == id {
                count = count + 1;
            }
            i = i + 1;
        }
        assert(self.points@.take(i as int) =~= self.points@);
        count
    }
}

proof fn lemma_doc_points_concat(a: Seq<IndexedPoint>, b: Seq<IndexedPoint>, id: u128)
    ensures
        doc_points(a + b, id) == doc_points(a, id) + doc_points(b, id),
    decreases b.len(),
{
    if b.len() == 0 {
        assert(a + b =~= a);
        assert(doc_points(a, id) + doc_points(b, id) =~= doc_points(a, id));
    } else {
        lemma_doc_points_concat(a, b.drop_last(), id);
        assert((a + b).drop_last() =~= a + b.drop_last());
        assert((a + b).last() == b.last());
        if b.last().document_id == id {
            assert(doc_points(a, id) + doc_points(b.drop_last(), id).push(b.last()) =~= (
            doc_points(a, id) + doc_points(b.drop_last(), id)).push(b.last()));
        }
    }
}

proof fn lemma_doc_points_without(s: Seq<IndexedPoint>, id: u128)
    ensures
        doc_points(without_doc(s, id), id).len() == 0,
    decreases s.len(),
{
    if s.len() > 0 {
        lemma_doc_points_without(s.drop_last(), id);
        let w = without_doc(s.drop_last(), id);
        if s.last().document_id != id {
            assert(w.push(s.last()).drop_last() =~= w);
        }
    }
}

proof fn lemma_doc_points_all(b: Seq<IndexedPoint>, id: u128)
    requires
        forall|i: int| 0 <= i < b.len() ==> (#[trigger] b[i]).document_id == id,
    ensures
        doc_points(b, id) == b,
    decreases b.len(),
{
    if b.len() > 0 {
        lemma_doc_points_all(b.drop_last(), id);
        assert(b.drop_last().push(b.last()) =~= b);
    }
}

proof fn lemma_inserts_after_delete(s: Seq<IndexedPoint>, cmds: Seq<IndexCommand>, id: u128)
    requires
        cmds.len() > 0,
        cmds[0] == IndexCommand::DeleteDocument(id),
        forall|k: int| 1 <= k < cmds.len() ==> (#[trigger] cmds[k]) is Insert,
    ensures
        apply_all_spec(s, cmds) == without_doc(s, id) + inserted(cmds),
    decreases cmds.len(),
{
    if cmds.len() == 1 {
        assert(cmds.drop_last() =~= Seq::<IndexCommand>::empty());
        assert(cmds.last() == cmds[0]);
        assert(inserted(cmds.drop_last()) =~= Seq::<IndexedPoint>::empty());
        assert(inserted(cmds) =~= Seq::<IndexedPoint>::empty());
        assert(apply_all_spec(s, cmds.drop_last()) == s);
        assert(without_doc(s, id) + Seq::<IndexedPoint>::empty() =~= without_doc(s, id));
    } else {
        let d = cmds.drop_last();
        assert forall|k: int| 1 <= k < d.len() implies (#[trigger] d[k]) is Insert by {
            assert(d[k] == cmds[k]);
        }
        lemma_inserts_after_delete(s, d, id);
        assert(cmds[cmds.len() - 1] is Insert);
        assert(cmds.last() is Insert);
        assert(apply_all_spec(s, cmds) == apply_spec(apply_all_spec(s, d), cmds.last()));
        assert(inserted(cmds) == inserted(d) + cmds.last()->Insert_0@);
        assert(without_doc(s, id) + inserted(d) + cmds.last()->Insert_0@ =~= without_doc(s, id)
            + (inserted(d) + cmds.last()->Insert_0@));
    }
}

/// Re-ingesting a changed document replaces its points: whatever the index
/// held before, the points of the document afterwards are exactly the new
/// ones, in chunk order, and none from an earlier layout remains.
pub proof fn lemma_replace_not_merge(
    s: Seq<IndexedPoint>,
    provider_configured: bool,
    d: DocumentInfo,
    chunks: Seq<Chunk>,
    cmds: Seq<IndexCommand>,
)
    requires
        is_index_plan(cmds, DocumentStatus::Changed, provider_configured, d, chunks),
        indexes(DocumentStatus::Changed, provider_configured, chunks.len()),
    ensures
        doc_points(apply_all_spec(s, cmds), d.document_id) == inserted(cmds),
        doc_points(apply_all_spec(s, cmds), d.document_id).len() == chunks.len(),
        forall|i: int|
            0 <= i < chunks.len() ==> is_point_of(
                #[trigger] doc_points(apply_all_spec(s, cmds), d.document_id)[i],
                d,
                chunks[i],
            ),
{
    let id = d.document_id;
    lemma_inserts_after_delete(s, cmds, id);
    lemma_doc_points_concat(without_doc(s, id), inserted(cmds), id);
    lemma_doc_points_without(s, id);
    let ins = inserted(cmds);
    assert forall|i: int| 0 <= i < ins.len() implies (#[trigger] ins[i]).document_id == id by {
        assert(is_point_of(ins[i], d, chunks[i]));
    }
    lemma_doc_points_all(ins, id);
    assert(doc_points(without_doc(s, id), id) + ins =~= ins);
}

/// Which stores one ingestion run writes to.
pub struct WritePlan {
    pub record: bool,
    pub chapter_summaries: bool,
    pub index: bool,
}

/// The stores written for a document of the given status: the record on
/// any new or changed document, chapter summaries and the index only with
/// a configured generator (and, for the index, at least one chunk).
pub fn plan_writes(status: DocumentStatus, provider_configured: bool, n_chunks: usize) -> (r:
    WritePlan)
    ensures
        r.record == (status != DocumentStatus::Unchanged),
        r.chapter_summaries == (status != DocumentStatus::Unchanged && provider_configured),
        r.index == indexes(status, provider_configured, n_chunks as nat),
{
    let changed = status != DocumentStatus::Unchanged;
    WritePlan {
        record: changed,
        chapter_summaries: changed && provider_configured,
        index: changed && provider_configured && n_chunks > 0,
    }
}

/// Ingesting a document again whose raw text has not changed since its
/// fingerprint was stored writes nothing: the fingerprints agree, the
/// document is unchanged, and no store is written.
pub proof fn lemma_reingest_writes_nothing(
    raw: Seq<char>,
    stored: String,
    fresh: String,
    provider_configured: bool,
    n_chunks: nat,
)
    requires
        is_fingerprint(stored@, raw),
        is_fingerprint(fresh@, raw),
    ensures
        status_spec(Some(stored), fresh@) == DocumentStatus::Unchanged,
        !indexes(status_spec(Some(stored), fresh@), provider_configured, n_chunks),
{
}

} // verus!
