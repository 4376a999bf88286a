//! Splitting a document body into chapters at its headings.
//!
//! The body is read as a stream of markup events. A level-one or level-two
//! heading opens a new chapter whose title is the heading's text; text runs
//! elsewhere go to the current chapter, each followed by a space, and line
//! breaks become a newline. A chapter is kept when its text is not blank or
//! when it has a title. A body without any chapter becomes one untitled
//! chapter holding the whole body.

use vstd::prelude::*;
use pulldown_cmark::{Event, Tag, TagEnd};
use crate::text::{blank, is_blank, push_char, trim, trimmed};

verus! {

/// A chapter: the text of its heading, if it has one, and its body text.
pub struct Chapter {
    pub title: Option<String>,
    pub text: String,
}

/// The markup events that segmentation reads.
pub enum MdEvent {
    /// Start of a heading of the given level (1 to 6).
    HeadingStart(u8),
    /// End of a heading.
    HeadingEnd,
    /// A run of text.
    Text(String),
    SoftBreak,
    HardBreak,
    /// Any other event.
    Other,
}

/// A chapter as a title and a text.
pub open spec fn chapter_view(c: Chapter) -> (Option<Seq<char>>, Seq<char>) {
    (title_view(c.title), c.text@)
}

pub open spec fn title_view(t: Option<String>) -> Option<Seq<char>> {
    match t {
        Some(s) => Some(s@),
        None => None,
    }
}

/// The state of segmentation between two events.
pub struct SegModel {
    pub chapters: Seq<(Option<Seq<char>>, Seq<char>)>,
    pub title: Option<Seq<char>>,
    pub text: Seq<char>,
    pub in_heading: bool,
    pub heading: Seq<char>,
}

/// Whether `e` opens a chapter.
pub open spec fn is_chapter_break(e: MdEvent) -> bool {
    match e {
        MdEvent::HeadingStart(l) => l == 1 || l == 2,
        _ => false,
    }
}

pub open spec fn seg_init() -> SegModel {
    SegModel {
        chapters: Seq::empty(),
        title: None,
        text: Seq::empty(),
        in_heading: false,
        heading: Seq::empty(),
    }
}

/// Emits the current chapter if it has a title or non-blank text.
pub open spec fn close_chapter(m: SegModel) -> SegModel {
    if !is_blank(m.text) || m.title is Some {
        SegModel {
            chapters: m.chapters.push((m.title, trimmed(m.text))),
            title: None,
            text: Seq::empty(),
            ..m
        }
    } else {
        m
    }
}

pub open spec fn seg_step(m: SegModel, e: MdEvent) -> SegModel {
    match e {
        MdEvent::HeadingStart(l) => if l == 1 || l == 2 {
            SegModel { in_heading: true, heading: Seq::empty(), ..close_chapter(m) }
        } else {
            m
        },
        MdEvent::HeadingEnd => if m.in_heading {
            SegModel { in_heading: false, title: Some(trimmed(m.heading)), ..m }
        } else {
            m
        },
        MdEvent::Text(t) => if m.in_heading {
            SegModel { heading: m.heading + t@, ..m }
        } else {
            SegModel { text: (m.text + t@).push(' '), ..m }
        },
        MdEvent::SoftBreak => SegModel { text: m.text.push('\n'), ..m },
        MdEvent::HardBreak => SegModel { text: m.text.push('\n'), ..m },
        MdEvent::Other => m,
    }
}

/// The state after reading all of `events`.
pub open spec fn seg_run(events: Seq<MdEvent>) -> SegModel
    decreases events.len(),
{
    if events.len() == 0 {
        seg_init()
    } else {
        seg_step(seg_run(events.drop_last()), events.last())
    }
}

/// The chapters of a body whose events are `events`.
pub open spec fn segment_spec(events: Seq<MdEvent>, body: Seq<char>) -> Seq<
    (Option<Seq<char>>, Seq<char>),
> {
    let m = close_chapter(seg_run(events));
    if m.chapters.len() == 0 {
        seq![(None, body)]
    } else {
        m.chapters
    }
}

/// What `markdown_events` returns for a text.
pub uninterp spec fn md_events_of(text: Seq<char>) -> Seq<MdEvent>;

/// Relies on `pulldown_cmark::Parser`: the CommonMark events of `content`
/// in document order, each carried over to the variant of `MdEvent` it is.
#[verifier::external_body]
fn markdown_events(content: &str) -> (r: Vec<MdEvent>)
    ensures
        r@ == md_events_of(content@),
{
    let mut out = Vec::new();
    for e in pulldown_cmark::Parser::new(content) {
        out.push(match e {
            Event::Start(Tag::Heading { level, .. }) => MdEvent::HeadingStart(level as u8),
            Event::End(TagEnd::Heading(_)) => MdEvent::HeadingEnd,
            Event::Text(t) => MdEvent::Text(t.into_string()),
            Event::SoftBreak => MdEvent::SoftBreak,
            Event::HardBreak => MdEvent::HardBreak,
            _ => MdEvent::Other,
        });
    }
    out
}

spec fn model_of(
    chapters: Seq<Chapter>,
    title: Option<String>,
    text: String,
    in_heading: bool,
    heading: String,
) -> SegModel {
    SegModel {
        chapters: chapters.map_values(|c: Chapter| chapter_view(c)),
        title: title_view(title),
        text: text@,
        in_heading,
        heading: heading@,
    }
}

fn close_current(chapters: &mut Vec<Chapter>, title: &mut Option<String>, text: &mut String)
    ensures
        ({
            let m0 = SegModel {
                chapters: old(chapters)@.map_values(|c: Chapter| chapter_view(c)),
                title: title_view(*old(title)),
                text: old(text)@,
                in_heading: false,
                heading: Seq::empty(),
            };
            let m1 = close_chapter(m0);
            &&& m1.chapters == final(chapters)@.map_values(|c: Chapter| chapter_view(c))
            &&& m1.title == title_view(*final(title))
            &&& m1.text == final(text)@
        }),
{
    if !blank(text.as_str()) || title.is_some() {
        let t = title.take();
        let body = trim(text.as_str());
        let ghost before = chapters@;
        chapters.push(Chapter { title: t, text: body });
        *text = String::new();
        assert(chapters@.map_values(|c: Chapter| chapter_view(c)) =~= before.map_values(
            |c: Chapter| chapter_view(c),
        ).push((title_view(t), trimmed(old(text)@))));
    }
}

/// Splits a body into chapters from its markup events, as `segment_spec`
/// describes.
pub fn segment_events(events: &[MdEvent], body: &str) -> (r: Vec<Chapter>)
    ensures
        r@.map_values(|c: Chapter| chapter_view(c)) == segment_spec(events@, body@),
{
    let mut chapters: Vec<Chapter> = Vec::new();
    let mut title: Option<String> = None;
    let mut text = String::new();
    let mut in_heading = false;
    let mut heading = String::new();
    let mut i: usize = 0;
    assert(chapters@.map_values(|c: Chapter| chapter_view(c)) =~= Seq::empty());
    while i < events.len()
        invariant
            i <= events@.len(),
            model_of(chapters@, title, text, in_heading, heading) == seg_run(
                events@.take(i as int),
            ),
        decreases events@.len() - i,
    {
        let ghost m = model_of(chapters@, title, text, in_heading, heading);
        assert(events@.take(i + 1).drop_last() =~= events@.take(i as int));
        match &events[i] {
            MdEvent::HeadingStart(l) => {
                if *l == 1 || *l == 2 {
                    close_current(&mut chapters, &mut title, &mut text);
                    in_heading = true;
                    heading = String::new();
                }
            },
            MdEvent::HeadingEnd => {
                if in_heading {
                    in_heading = false;
                    title = Some(trim(heading.as_str()));
                }
            },
            MdEvent::Text(t) => {
                if in_heading {
                    heading.append(t.as_str());
                } else {
                    text.append(t.as_str());
                    push_char(&mut text, ' ');
                }
            },
            MdEvent::SoftBreak => {
                push_char(&mut text, '\n');
            },
            MdEvent::HardBreak => {
                push_char(&mut text, '\n');
            },
            MdEvent::Other => {},
        }
        i = i + 1;
    }
    assert(events@.take(events@.len() as int) =~= events@);
    close_current(&mut chapters, &mut title, &mut text);
    if chapters.len() == 0 {
        chapters.push(Chapter { title: None, text: String::from_str(body) });
        assert(chapters@.map_values(|c: Chapter| chapter_view(c)) =~= seq![
            (None::<Seq<char>>, body@),
        ]);
    }
    chapters
}

/// Splits a markdown body into chapters at its level-one and level-two
/// headings.
pub fn extract_chapters(content: &str) -> (r: Vec<Chapter>)
    ensures
        r@.map_values(|c: Chapter| chapter_view(c)) == segment_spec(
            md_events_of(content@),
            content@,
        ),
{
    let events = markdown_events(content);
    segment_events(events.as_slice(), content)
}

proof fn lemma_no_break_run(events: Seq<MdEvent>)
    requires
        forall|i: int| 0 <= i < events.len() ==> !is_chapter_break(#[trigger] events[i]),
    ensures
        seg_run(events).chapters.len() == 0,
        seg_run(events).title is None,
        !seg_run(events).in_heading,
    decreases events.len(),
{
    if events.len() > 0 {
        let p = events.drop_last();
        assert forall|i: int| 0 <= i < p.len() implies !is_chapter_break(#[trigger] p[i]) by {
            assert(p[i] == events[i]);
        }
        lemma_no_break_run(p);
        assert(!is_chapter_break(events[events.len() - 1]));
    }
}

/// A body without level-one or level-two headings gives exactly one
/// chapter, without a title, holding all of the body's text: the trimmed
/// text runs, or the body itself where those are blank.
pub proof fn lemma_no_heading_single_chapter(events: Seq<MdEvent>, body: Seq<char>)
    requires
        forall|i: int| 0 <= i < events.len() ==> !is_chapter_break(#[trigger] events[i]),
    ensures
        segment_spec(events, body).len() == 1,
        segment_spec(events, body)[0].0 is None,
        segment_spec(events, body)[0].1 == if is_blank(seg_run(events).text) {
            body
        } else {
            trimmed(seg_run(events).text)
        },
{
    lemma_no_break_run(events);
}

} // verus!
