//! Decisions of the per-document ingestion pipeline: whether a document
//! changed, where its summary comes from, what the generator is asked, and
//! how requests are batched.

use vstd::prelude::*;
use crate::model::ChapterSummary;
use crate::segment::Chapter;
use crate::text::{blank, chars_of, is_blank, take_chars};

verus! {

/// Texts embedded per request.
pub const EMBED_BATCH: usize = 16;

/// Points written to the vector index per request.
pub const POINT_BATCH: usize = 100;

/// Characters of the body given to the summary generator.
pub const SUMMARY_INPUT_CHARS: usize = 6000;

/// Characters of a chapter given to the chapter-summary generator.
pub const CHAPTER_INPUT_CHARS: usize = 4000;

/// System message for book summaries.
pub const SUMMARY_SYSTEM: &'static str = "Tu es un assistant qui rédige des résumés factuels de livres. Tes résumés doivent être objectifs et concis. Ne commence jamais par des phrases comme « Voici un résumé », « Ce texte parle de », etc. Commence directement par le contenu du résumé. Maximum 5 phrases.";

/// System message for chapter summaries.
pub const CHAPTER_SUMMARY_SYSTEM: &'static str = "Tu es un assistant qui rédige des résumés factuels de chapitres de livres. Tes résumés doivent être objectifs et concis. Ne commence jamais par des phrases comme « Voici un résumé », « Ce chapitre parle de », etc. Commence directement par le contenu du résumé. Maximum 3 phrases.";

/// Whether a file name has the extension `md`: it ends in `.md` and has
/// something before the dot.
pub open spec fn is_markdown_name(name: Seq<char>) -> bool {
    name.len() > 3 && name[name.len() - 3] == '.' && name[name.len() - 2] == 'm' && name[name.len()
        - 1] == 'd'
}

/// Whether the import reads a file of that name.
pub fn is_markdown_file(name: &str) -> (r: bool)
    ensures
        r == is_markdown_name(name@),
{
    let cs = chars_of(name);
    let n = cs.len();
    n > 3 && cs[n - 3] == '.' && cs[n - 2] == 'm' && cs[n - 1] == 'd'
}

/// Where a document stands against what is stored for its reference.
#[derive(PartialEq, Eq, Structural, Clone, Copy, Debug)]
pub enum DocumentStatus {
    /// Nothing is stored under its reference.
    New,
    /// The stored fingerprint equals the fresh one: nothing is written.
    Unchanged,
    /// A different fingerprint is stored: everything is replaced.
    Changed,
}

pub open spec fn status_spec(stored: Option<String>, fresh: Seq<char>) -> DocumentStatus {
    match stored {
        None => DocumentStatus::New,
        Some(h) => if h@ == fresh {
            DocumentStatus::Unchanged
        } else {
            DocumentStatus::Changed
        },
    }
}

/// Compares the stored fingerprint, if any, with the fresh one.
pub fn classify(stored: &Option<String>, fresh: &String) -> (r: DocumentStatus)
    ensures
        r == status_spec(*stored, fresh@),
{
    match stored {
        None => DocumentStatus::New,
        Some(h) => if *h == *fresh {
            DocumentStatus::Unchanged
        } else {
            DocumentStatus::Changed
        },
    }
}

/// Where the summary of a new or changed document comes from.
pub enum SummaryPlan {
    /// The metadata provides it.
    Provided(String),
    /// The generator is asked, with this prompt.
    Generate(String),
    /// There is none.
    Absent,
}

/// Prompt head for a book summary.
pub const SUMMARY_PROMPT: &'static str = "Résume le texte suivant en français en 5 phrases maximum :\n\n";

/// The first `n` characters of `s`, or all of it.
pub open spec fn prefix_chars(s: Seq<char>, n: nat) -> Seq<char> {
    s.take(if n <= s.len() { n as int } else { s.len() as int })
}

/// The summary of a document: the one its metadata gives, else a request
/// to the generator over the start of the body when one is configured,
/// else none.
pub fn plan_summary(given: &Option<String>, generator_configured: bool, content: &str) -> (r:
    SummaryPlan)
    ensures
        given is Some ==> r == SummaryPlan::Provided(given->Some_0),
        given is None && generator_configured ==> r is Generate && r->Generate_0@
            == SUMMARY_PROMPT@ + prefix_chars(content@, SUMMARY_INPUT_CHARS as nat),
        given is None && !generator_configured ==> r is Absent,
{
    match given {
        Some(s) => SummaryPlan::Provided(s.clone()),
        None => {
            if generator_configured {
                let mut prompt = String::from_str(SUMMARY_PROMPT);
                let excerpt = take_chars(content, SUMMARY_INPUT_CHARS);
                prompt.append(excerpt.as_str());
                SummaryPlan::Generate(prompt)
            } else {
                SummaryPlan::Absent
            }
        },
    }
}

/// The prompt for one chapter's summary.
pub open spec fn chapter_prompt_spec(title: Option<String>, text: Seq<char>) -> Seq<char> {
    let label = match title {
        Some(t) => "le chapitre \""@ + t@ + "\""@,
        None => "ce chapitre"@,
    };
    "Résume "@ + label + " en 3 phrases maximum en français :\n\n"@ + prefix_chars(
        text,
        CHAPTER_INPUT_CHARS as nat,
    )
}

/// What the generator is asked for one chapter: nothing for a blank
/// chapter, else a summary of the start of its text.
pub fn chapter_summary_request(chapter: &Chapter) -> (r: Option<String>)
    ensures
        is_blank(chapter.text@) ==> r is None,
        !is_blank(chapter.text@) ==> r is Some && r->Some_0@ == chapter_prompt_spec(
            chapter.title,
            chapter.text@,
        ),
{
    if blank(chapter.text.as_str()) {
        return None;
    }
    let mut prompt = String::from_str("Résume ");
    match &chapter.title {
        Some(t) => {
            prompt.append("le chapitre \"");
            prompt.append(t.as_str());
            prompt.append("\"");
        },
        None => {
            prompt.append("ce chapitre");
        },
    }
    prompt.append(" en 3 phrases maximum en français :\n\n");
    let excerpt = take_chars(chapter.text.as_str(), CHAPTER_INPUT_CHARS);
    prompt.append(excerpt.as_str());
    Some(prompt)
}

/// The summaries kept from the first `n` answers: each non-empty one, with
/// its chapter's number and title.
pub open spec fn kept_summaries(chapters: Seq<Chapter>, summaries: Seq<String>, n: int) -> Seq<
    (int, Option<Seq<char>>, Seq<char>),
>
    decreases n,
{
    if n <= 0 {
        Seq::empty()
    } else {
        let prev = kept_summaries(chapters, summaries, n - 1);
        if summaries[n - 1]@.len() == 0 {
            prev
        } else {
            let title = if n - 1 < chapters.len() {
                match chapters[n - 1].title {
                    Some(t) => Some(t@),
                    None => None,
                }
            } else {
                None
            };
            prev.push((n - 1, title, summaries[n - 1]@))
        }
    }
}

pub open spec fn summary_view(s: ChapterSummary) -> (int, Option<Seq<char>>, Seq<char>) {
    (
        s.chapter_idx as int,
        match s.title {
            Some(t) => Some(t@),
            None => None,
        },
        s.summary@,
    )
}

/// The chapter summaries to store, one for each non-empty answer of the
/// generator, numbered by chapter.
pub fn collect_chapter_summaries(chapters: &[Chapter], summaries: &[String]) -> (r: Vec<
    ChapterSummary,
>)
    requires
        summaries@.len() <= i32::MAX,
    ensures
        r@.map_values(|s: ChapterSummary| summary_view(s)) == kept_summaries(
            chapters@,
            summaries@,
            summaries@.len() as int,
        ),
{
    let mut out: Vec<ChapterSummary> = Vec::new();
    let mut i: usize = 0;
    assert(out@.map_values(|s: ChapterSummary| summary_view(s)) =~= Seq::empty());
    while i < summaries.len()
        invariant
            i <= summaries@.len() <= i32::MAX,
            out@.map_values(|s: ChapterSummary| summary_view(s)) == kept_summaries(
                chapters@,
                summaries@,
                i as int,
            ),
        decreases summaries@.len() - i,
    {
        let s = &summaries[i];
        if s.as_str().unicode_len() > 0 {
            let title = if i < chapters.len() {
                match &chapters[i].title {
                    Some(t) => Some(t.clone()),
                    None => None,
                }
            } else {
                None
            };
            let ghost before = out@;
            out.push(ChapterSummary { chapter_idx: i as i32, title, summary: s.clone() });
            assert(out@.map_values(|s: ChapterSummary| summary_view(s)) =~= before.map_values(
                |s: ChapterSummary| summary_view(s),
            ).push(summary_view(out@.last())));
        }
        i = i + 1;
    }
    out
}

/// `r` cuts `0..n` into consecutive non-empty ranges of `size` items, the
/// last one possibly shorter.
pub open spec fn is_batching(r: Seq<(usize, usize)>, n: nat, size: nat) -> bool {
    &&& (n == 0 <==> r.len() == 0)
    &&& r.len() > 0 ==> r[0].0 == 0 && r.last().1 == n
    &&& forall|k: int| 0 <= k < r.len() ==> (#[trigger] r[k]).0 < r[k].1 <= r[k].0 + size
    &&& forall|k: int| 0 <= k < r.len() - 1 ==> (#[trigger] r[k]).1 == r[k + 1].0 && r[k].1 - r[k].0 == size
}

/// The ranges of the batches of `n` items, `size` per batch.
pub fn batch_ranges(n: usize, size: usize) -> (r: Vec<(usize, usize)>)
    requires
        size > 0,
    ensures
        is_batching(r@, n as nat, size as nat),
{
    let mut out: Vec<(usize, usize)> = Vec::new();
    let mut start: usize = 0;
    while start < n
        invariant
            start <= n,
            size > 0,
            out@.len() == 0 <==> start == 0,
            out@.len() > 0 ==> out@[0].0 == 0 && out@.last().1 == start,
            forall|k: int| 0 <= k < out@.len() ==> (#[trigger] out@[k]).0 < out@[k].1 <= out@[k].0 + size,
            forall|k: int| 0 <= k < out@.len() - 1 ==> (#[trigger] out@[k]).1 == out@[k + 1].0 && out@[k].1 - out@[k].0 == size,
            out@.len() > 0 && start < n ==> out@.last().1 - out@.last().0 == size,
        decreases n - start,
    {
        let end = if n - start > size {
            start + size
        } else {
            n
        };
        out.push((start, end));
        start = end;
    }
    out
}

} // verus!
