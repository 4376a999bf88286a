//! The per-document ingestion pipeline as a state machine.
//!
//! The caller performs each action that `Ingestion` hands out (a lookup, a
//! generation, a write) and hands back what came of it; the machine decides
//! what comes next. Steps run one after another: fingerprint lookup, summary,
//! record write, chapter summaries, embeddings, index writes. An unchanged
//! document ends at the lookup with nothing written; a failed write, embedding
//! or lookup ends the document as failed; a failed summary leaves it without
//! one.

use vstd::prelude::*;
use crate::chunker::{chunk_text, is_chunking, Chunk};
use crate::document::{is_fingerprint, ParsedBook};
use crate::index::{clone_strings, index_commands, is_index_plan, DocumentInfo, IndexCommand};
use crate::ingest::{
    chapter_prompt_spec, chapter_summary_request, classify, collect_chapter_summaries,
    kept_summaries, plan_summary, prefix_chars, status_spec, summary_view,
    DocumentStatus, SummaryPlan, SUMMARY_INPUT_CHARS, SUMMARY_PROMPT,
};
use crate::model::ChapterSummary;
use crate::segment::{chapter_view, extract_chapters, md_events_of, segment_spec, Chapter};
use crate::text::{blank, is_blank};

verus! {

/// How the ingestion of a document ended.
pub enum Outcome {
    /// Its fingerprint was already stored: nothing was written.
    Unchanged,
    /// Every store was written.
    Succeeded,
    /// A step failed; the reason.
    Failed(String),
}

/// What the caller is asked to do next.
pub enum Action {
    /// Look up the fingerprint stored for this reference.
    LookUp(String),
    /// Generate the book's summary from this prompt.
    Summarize(String),
    /// Write the document record, with this summary.
    WriteRecord(Option<String>),
    /// Generate the summary of chapter `0` from prompt `1`.
    SummarizeChapter(usize, String),
    /// Replace the document's chapter summaries with these.
    WriteChapterSummaries(Vec<ChapterSummary>),
    /// Embed these texts, in order.
    Embed(Vec<String>),
    /// Carry out this write on the vector index.
    WriteIndex(IndexCommand),
    /// The document is done.
    Done(Outcome),
}

/// What came of the last action.
pub enum Event {
    /// The fingerprint stored for the reference, if any.
    Stored(Option<String>),
    /// The generated text, or why generation failed.
    Generated(Result<String, String>),
    /// The identifier of the written record, or why the write failed.
    RecordWritten(Result<u128, String>),
    /// A write finished, or why it failed.
    Written(Result<(), String>),
    /// The number of vectors received, or why embedding failed.
    Embedded(Result<usize, String>),
}

/// The step the machine waits on.
pub enum Phase {
    Lookup,
    Summary,
    Record,
    ChapterSummary(usize),
    StoreSummaries,
    Embedding,
    Index,
    Finished,
}

/// One document going through ingestion.
pub struct Ingestion {
    pub book: ParsedBook,
    pub generator: bool,
    pub status: DocumentStatus,
    pub summary: Option<String>,
    pub document_id: u128,
    pub chapters: Vec<Chapter>,
    pub chunks: Vec<Chunk>,
    /// Answers for the chapters before the one being summarized; empty for
    /// a blank chapter.
    pub answers: Vec<String>,
    /// Index writes still to hand out.
    pub pending: Vec<IndexCommand>,
    pub phase: Phase,
}

/// Views of a list of strings.
pub open spec fn views(v: Seq<String>) -> Seq<Seq<char>> {
    v.map_values(|s: String| s@)
}

/// The first chapter at or after `from` whose text is not blank, or the
/// number of chapters when there is none.
pub open spec fn first_open(chs: Seq<Chapter>, from: int) -> int
    decreases chs.len() - from,
{
    if from >= chs.len() {
        chs.len() as int
    } else if !is_blank(chs[from].text@) {
        from
    } else {
        first_open(chs, from + 1)
    }
}

/// `d` describes the document of `s`: its identifier, reference, title,
/// authors and tags.
pub open spec fn same_info(d: DocumentInfo, s: Ingestion) -> bool {
    &&& d.document_id == s.document_id
    &&& d.reference == s.book.frontmatter.reference
    &&& d.title == s.book.frontmatter.title
    &&& d.authors@ == s.book.frontmatter.authors@
    &&& d.tags@ == s.book.frontmatter.tags@
}

/// `r` and `a` end the document as failed.
pub open spec fn fails(r: Ingestion, a: Action) -> bool {
    r.phase is Finished && a is Done && a->Done_0 is Failed
}

/// `n` empty answers.
pub open spec fn blanks(n: nat) -> Seq<Seq<char>> {
    Seq::new(n, |i: int| Seq::<char>::empty())
}

/// After the answers `base` (one per chapter before `from`): skip blank
/// chapters, answering nothing for them, then ask for the next open
/// chapter, or write the summaries once no chapter is left.
pub open spec fn asks_from(
    chs: Seq<Chapter>,
    base: Seq<Seq<char>>,
    from: int,
    r: Ingestion,
    a: Action,
) -> bool {
    let k = first_open(chs, from);
    let filled = base + blanks((k - from) as nat);
    &&& views(r.answers@) == filled
    &&& if k < chs.len() {
        &&& r.phase == Phase::ChapterSummary(k as usize)
        &&& a is SummarizeChapter
        &&& a->SummarizeChapter_0 == k
        &&& a->SummarizeChapter_1@ == chapter_prompt_spec(chs[k].title, chs[k].text@)
    } else if filled.len() <= i32::MAX {
        &&& r.phase is StoreSummaries
        &&& a is WriteChapterSummaries
        &&& a->WriteChapterSummaries_0@.map_values(|c: ChapterSummary| summary_view(c))
            == kept_summaries(chs, r.answers@, r.answers@.len() as int)
    } else {
        fails(r, a)
    }
}

/// Once chapter summaries are settled: embed the chunks when there is a
/// generator and something to index, else the document is done.
pub open spec fn embeds_or_succeeds(s: Ingestion, r: Ingestion, a: Action) -> bool {
    if s.generator && s.chunks@.len() > 0 {
        &&& r.phase is Embedding
        &&& a is Embed
        &&& a->Embed_0@.len() == s.chunks@.len()
        &&& forall|i: int| 0 <= i < s.chunks@.len() ==> (#[trigger] a->Embed_0@[i]) == s.chunks@[i].text
    } else {
        r.phase is Finished && a == Action::Done(Outcome::Succeeded)
    }
}

/// After the record is written: chapter summaries with a generator, else
/// done.
pub open spec fn after_record(s: Ingestion, r: Ingestion, a: Action) -> bool {
    if s.generator {
        asks_from(s.chapters@, Seq::empty(), 0, r, a)
    } else {
        r.phase is Finished && a == Action::Done(Outcome::Succeeded)
    }
}

/// Hands out the next pending index write, or ends the document.
pub open spec fn writes_next(s: Ingestion, r: Ingestion, a: Action) -> bool {
    if s.pending@.len() > 0 {
        r.phase is Index && a == Action::WriteIndex(s.pending@[0]) && r.pending@ == s.pending@.drop_first()
    } else {
        r.phase is Finished && a == Action::Done(Outcome::Succeeded)
    }
}

/// What a step keeps of what earlier steps settled: the status once the
/// lookup is past, the summary once the summary step is past, and the
/// record identifier except where the record is written.
pub open spec fn keeps_settled(s: Ingestion, r: Ingestion) -> bool {
    &&& !(s.phase is Lookup) ==> r.status == s.status
    &&& !(s.phase is Lookup) && !(s.phase is Summary) ==> r.summary == s.summary
    &&& !(s.phase is Record) ==> r.document_id == s.document_id
}

/// One step of the machine, from state `s` and event `e` to state `r` and
/// action `a`.
pub open spec fn step_spec(s: Ingestion, e: Event, r: Ingestion, a: Action) -> bool {
    &&& keeps_settled(s, r)
    &&& step_moves(s, e, r, a)
}

/// The move of one step: the next phase and the action handed out.
pub open spec fn step_moves(s: Ingestion, e: Event, r: Ingestion, a: Action) -> bool {
    match (s.phase, e) {
        (Phase::Lookup, Event::Stored(stored)) => {
            let st = status_spec(stored, s.book.hash@);
            &&& r.status == st
            &&& if st == DocumentStatus::Unchanged {
                r.phase is Finished && a == Action::Done(Outcome::Unchanged)
            } else if s.book.frontmatter.summary is Some {
                r.summary == s.book.frontmatter.summary && r.phase is Record && a == Action::WriteRecord(r.summary)
            } else if s.generator {
                &&& r.phase is Summary
                &&& a is Summarize
                &&& a->Summarize_0@ == SUMMARY_PROMPT@ + prefix_chars(s.book.content@, SUMMARY_INPUT_CHARS as nat)
            } else {
                r.summary is None && r.phase is Record && a == Action::WriteRecord(None)
            }
        },
        (Phase::Summary, Event::Generated(g)) => {
            &&& r.summary == match g {
                Ok(t) => Some(t),
                Err(_) => None::<String>,
            }
            &&& r.phase is Record
            &&& a == Action::WriteRecord(r.summary)
        },
        (Phase::Record, Event::RecordWritten(w)) => match w {
            Ok(id) => r.document_id == id && after_record(s, r, a),
            Err(_) => fails(r, a),
        },
        (Phase::ChapterSummary(i), Event::Generated(g)) => match g {
            Ok(t) => asks_from(s.chapters@, views(s.answers@).push(t@), i + 1, r, a),
            Err(_) => {
                &&& r.answers@.len() == 0
                &&& r.phase is StoreSummaries
                &&& a is WriteChapterSummaries
                &&& a->WriteChapterSummaries_0@.len() == 0
            },
        },
        (Phase::StoreSummaries, Event::Written(w)) => match w {
            Ok(_) => embeds_or_succeeds(s, r, a),
            Err(_) => fails(r, a),
        },
        (Phase::Embedding, Event::Embedded(n)) => match n {
            Ok(n) => if n == s.chunks@.len() {
                ({
                    let plan = r.pending@;
                    &&& exists|full: Seq<IndexCommand>, d: DocumentInfo|
                        same_info(d, s) && is_index_plan(full, s.status, true, d, s.chunks@)
                            && full.len() > 0 && a == Action::WriteIndex(full[0]) && plan
                            == full.drop_first()
                    &&& r.phase is Index
                })
            } else {
                fails(r, a)
            },
            Err(_) => fails(r, a),
        },
        (Phase::Index, Event::Written(w)) => match w {
            Ok(_) => writes_next(s, r, a),
            Err(_) => fails(r, a),
        },
        (Phase::Finished, _) => r.phase is Finished && a is Done,
        _ => fails(r, a),
    }
}

/// What every step keeps: the document, the generator setting, the
/// chapters and the chunks.
pub open spec fn keeps(s: Ingestion, r: Ingestion) -> bool {
    &&& r.book == s.book
    &&& r.generator == s.generator
    &&& r.chapters == s.chapters
    &&& r.chunks == s.chunks
}

/// `keeps`, and also the status, summary and record identifier.
pub open spec fn keeps_all(s: Ingestion, r: Ingestion) -> bool {
    &&& keeps(s, r)
    &&& r.status == s.status
    &&& r.summary == s.summary
    &&& r.document_id == s.document_id
}

/// The invariant of the machine between steps.
pub open spec fn wf(s: Ingestion) -> bool {
    &&& !(s.phase is Lookup) && !(s.phase is Finished) ==> s.status != DocumentStatus::Unchanged
    &&& s.phase is ChapterSummary ==> s.answers@.len() == s.phase->ChapterSummary_0
        && s.phase->ChapterSummary_0 < s.chapters@.len()
    &&& s.phase is Embedding ==> s.chunks@.len() > 0
}

impl Ingestion {
    /// Starts the ingestion of a parsed document: its chapters and chunks
    /// are computed, and the stored fingerprint is asked for.
    pub fn new(book: ParsedBook, generator: bool) -> (r: (Ingestion, Action))
        ensures
            r.0.book == book,
            r.0.generator == generator,
            r.0.phase is Lookup,
            r.0.chapters@.map_values(|c: Chapter| chapter_view(c)) == segment_spec(
                md_events_of(book.content@),
                book.content@,
            ),
            is_chunking(r.0.chunks@, r.0.chapters@),
            r.1 == Action::LookUp(book.frontmatter.reference),
            wf(r.0),
    {
        let chapters = extract_chapters(book.content.as_str());
        let chunks = chunk_text(chapters.as_slice());
        let reference = book.frontmatter.reference.clone();
        let ing = Ingestion {
            book,
            generator,
            status: DocumentStatus::New,
            summary: None,
            document_id: 0,
            chapters,
            chunks,
            answers: Vec::new(),
            pending: Vec::new(),
            phase: Phase::Lookup,
        };
        (ing, Action::LookUp(reference))
    }

    fn fail(&mut self, reason: String) -> (a: Action)
        ensures
            fails(*final(self), a),
            keeps_all(*old(self), *final(self)),
            final(self).answers == old(self).answers,
            final(self).pending == old(self).pending,
    {
        self.phase = Phase::Finished;
        Action::Done(Outcome::Failed(reason))
    }

    fn ask_from(&mut self, from: usize) -> (a: Action)
        requires
            from <= old(self).chapters@.len(),
            old(self).answers@.len() == from,
            old(self).status != DocumentStatus::Unchanged,
        ensures
            asks_from(old(self).chapters@, views(old(self).answers@), from as int, *final(self), a),
            keeps_all(*old(self), *final(self)),
            wf(*final(self)),
    {
        let ghost base = views(self.answers@);
        let n = self.chapters.len();
        let mut k: usize = from;
        assert(base + blanks(0) =~= base);
        while k < n && blank(self.chapters[k].text.as_str())
            invariant
                from <= k <= n == self.chapters@.len(),
                self.answers@.len() == k,
                first_open(self.chapters@, from as int) == first_open(self.chapters@, k as int),
                views(self.answers@) == base + blanks((k - from) as nat),
                keeps_all(*old(self), *self),
                self.phase == old(self).phase,
            decreases n - k,
        {
            let ghost before = views(self.answers@);
            self.answers.push(String::new());
            assert(views(self.answers@) =~= before.push(Seq::<char>::empty()));
            assert(base + blanks((k + 1 - from) as nat) =~= (base + blanks((k - from) as nat)).push(
                Seq::<char>::empty(),
            ));
            k = k + 1;
        }
        assert(first_open(self.chapters@, k as int) == k);
        if k < n {
            assert(!is_blank(self.chapters@[k as int].text@));
            let prompt = chapter_summary_request(&self.chapters[k]);
            match prompt {
                Some(p) => {
                    self.phase = Phase::ChapterSummary(k);
                    Action::SummarizeChapter(k, p)
                },
                None => self.fail(String::from_str("blank chapter")),
            }
        } else if self.answers.len() <= 0x7fff_ffff {
            assert(views(self.answers@).len() == self.answers@.len());
            let kept = collect_chapter_summaries(self.chapters.as_slice(), self.answers.as_slice());
            self.phase = Phase::StoreSummaries;
            Action::WriteChapterSummaries(kept)
        } else {
            assert(views(self.answers@).len() == self.answers@.len());
            self.fail(String::from_str("too many chapters"))
        }
    }

    fn embed_or_succeed(&mut self) -> (a: Action)
        requires
            old(self).status != DocumentStatus::Unchanged,
        ensures
            embeds_or_succeeds(*old(self), *final(self), a),
            keeps_all(*old(self), *final(self)),
            wf(*final(self)),
    {
        if self.generator && self.chunks.len() > 0 {
            let mut texts: Vec<String> = Vec::new();
            let mut i: usize = 0;
            while i < self.chunks.len()
                invariant
                    i <= self.chunks@.len(),
                    texts@.len() == i,
                    forall|j: int| 0 <= j < i ==> (#[trigger] texts@[j]) == self.chunks@[j].text,
                decreases self.chunks@.len() - i,
            {
                texts.push(self.chunks[i].text.clone());
                i = i + 1;
            }
            self.phase = Phase::Embedding;
            Action::Embed(texts)
        } else {
            self.phase = Phase::Finished;
            Action::Done(Outcome::Succeeded)
        }
    }

    fn write_next(&mut self) -> (a: Action)
        requires
            old(self).status != DocumentStatus::Unchanged,
        ensures
            writes_next(*old(self), *final(self), a),
            keeps_all(*old(self), *final(self)),
            wf(*final(self)),
    {
        if self.pending.len() > 0 {
            let c = self.pending.remove(0);
            self.phase = Phase::Index;
            Action::WriteIndex(c)
        } else {
            self.phase = Phase::Finished;
            Action::Done(Outcome::Succeeded)
        }
    }

    fn clone_summary(s: &Option<String>) -> (r: Option<String>)
        ensures
            r == *s,
    {
        match s {
            Some(t) => Some(t.clone()),
            None => None,
        }
    }

    /// Takes in what came of the last action and hands out the next one.
    pub fn step(&mut self, e: Event) -> (a: Action)
        requires
            wf(*old(self)),
        ensures
            step_spec(*old(self), e, *final(self), a),
            keeps(*old(self), *final(self)),
            wf(*final(self)),
    {
        match (&self.phase, e) {
            (Phase::Lookup, Event::Stored(stored)) => {
                let status = classify(&stored, &self.book.hash);
                self.status = status;
                if status == DocumentStatus::Unchanged {
                    self.phase = Phase::Finished;
                    return Action::Done(Outcome::Unchanged);
                }
                let plan = plan_summary(
                    &self.book.frontmatter.summary,
                    self.generator,
                    self.book.content.as_str(),
                );
                match plan {
                    SummaryPlan::Provided(s) => {
                        self.summary = Some(s);
                        self.phase = Phase::Record;
                        Action::WriteRecord(Self::clone_summary(&self.summary))
                    },
                    SummaryPlan::Generate(prompt) => {
                        self.phase = Phase::Summary;
                        Action::Summarize(prompt)
                    },
                    SummaryPlan::Absent => {
                        self.summary = None;
                        self.phase = Phase::Record;
                        Action::WriteRecord(None)
                    },
                }
            },
            (Phase::Summary, Event::Generated(g)) => {
                self.summary = match g {
                    Ok(t) => Some(t),
                    Err(_) => None,
                };
                self.phase = Phase::Record;
                Action::WriteRecord(Self::clone_summary(&self.summary))
            },
            (Phase::Record, Event::RecordWritten(w)) => match w {
                Ok(id) => {
                    self.document_id = id;
                    if self.generator {
                        self.answers = Vec::new();
                        assert(views(self.answers@) =~= Seq::<Seq<char>>::empty());
                        self.ask_from(0)
                    } else {
                        self.phase = Phase::Finished;
                        Action::Done(Outcome::Succeeded)
                    }
                },
                Err(m) => self.fail(m),
            },
            (Phase::ChapterSummary(i), Event::Generated(g)) => {
                let i = *i;
                let n = self.chapters.len();
                assert(i < n);
                match g {
                    Ok(t) => {
                        let ghost before = views(self.answers@);
                        let ghost tv = t@;
                        self.answers.push(t);
                        assert(views(self.answers@) =~= before.push(tv));
                        self.ask_from(i + 1)
                    },
                    Err(_) => {
                        self.answers = Vec::new();
                        self.phase = Phase::StoreSummaries;
                        Action::WriteChapterSummaries(Vec::new())
                    },
                }
            },
            (Phase::StoreSummaries, Event::Written(w)) => match w {
                Ok(_) => self.embed_or_succeed(),
                Err(m) => self.fail(m),
            },
            (Phase::Embedding, Event::Embedded(n)) => match n {
                Ok(n) => {
                    if n == self.chunks.len() {
                        let fm = &self.book.frontmatter;
                        let info = DocumentInfo {
                            document_id: self.document_id,
                            reference: fm.reference.clone(),
                            title: fm.title.clone(),
                            authors: clone_strings(&fm.authors),
                            tags: clone_strings(&fm.tags),
                        };
                        let mut cmds = index_commands(self.status, true, &info, self.chunks.as_slice());
                        let ghost full = cmds@;
                        let c = cmds.remove(0);
                        self.pending = cmds;
                        self.phase = Phase::Index;
                        assert(full.drop_first() =~= self.pending@);
                        Action::WriteIndex(c)
                    } else {
                        self.fail(String::from_str("embedding count does not match the chunks"))
                    }
                },
                Err(m) => self.fail(m),
            },
            (Phase::Index, Event::Written(w)) => match w {
                Ok(_) => self.write_next(),
                Err(m) => self.fail(m),
            },
            (Phase::Finished, _) => Action::Done(Outcome::Failed(String::from_str("already finished"))),
            _ => self.fail(String::from_str("unexpected event")),
        }
    }
}

/// A document whose stored fingerprint came from the same raw text ends at
/// the lookup: the machine finishes as unchanged and asks for no write.
pub proof fn lemma_same_document_no_writes(
    s: Ingestion,
    raw: Seq<char>,
    stored: String,
    r: Ingestion,
    a: Action,
)
    requires
        s.phase is Lookup,
        is_fingerprint(s.book.hash@, raw),
        is_fingerprint(stored@, raw),
        step_spec(s, Event::Stored(Some(stored)), r, a),
    ensures
        r.phase is Finished,
        a == Action::Done(Outcome::Unchanged),
{
}

/// A changed document hands out, as its first index write, the deletion of
/// all of its points; every later write inserts.
pub proof fn lemma_changed_document_deletes_first(s: Ingestion, n: usize, r: Ingestion, a: Action)
    requires
        s.phase is Embedding,
        s.status == DocumentStatus::Changed,
        n == s.chunks@.len(),
        step_spec(s, Event::Embedded(Ok(n)), r, a),
    ensures
        a == Action::WriteIndex(IndexCommand::DeleteDocument(s.document_id)),
        forall|k: int| 0 <= k < r.pending@.len() ==> (#[trigger] r.pending@[k]) is Insert,
{
    let (full, d) = choose|full: Seq<IndexCommand>, d: DocumentInfo|
        same_info(d, s) && is_index_plan(full, s.status, true, d, s.chunks@) && full.len() > 0
            && a == Action::WriteIndex(full[0]) && r.pending@ == full.drop_first();
    assert forall|k: int| 0 <= k < r.pending@.len() implies (#[trigger] r.pending@[k]) is Insert by {
        assert(r.pending@[k] == full[k + 1]);
    }
}

} // verus!
