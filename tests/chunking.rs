use bilbo::chunker::{chunk_text, CHUNK_OVERLAP, CHUNK_SIZE};
use bilbo::segment::{extract_chapters, segment_events, Chapter, MdEvent};

fn chapter(title: Option<&str>, text: &str) -> Chapter {
    Chapter { title: title.map(|t| t.to_string()), text: text.to_string() }
}

fn numbered_text(len: usize) -> String {
    (0..len).map(|i| char::from(b'a' + (i % 26) as u8)).collect()
}

#[test]
fn chunk_windows_of_4200_characters() {
    let text = numbered_text(4200);
    let chunks = chunk_text(&[chapter(Some("One"), &text)]);
    assert_eq!(chunks.len(), 3);
    let bounds = [(0usize, 2000usize), (1600, 3600), (3200, 4200)];
    for (k, (lo, hi)) in bounds.iter().enumerate() {
        assert_eq!(chunks[k].chunk_index, k);
        assert_eq!(chunks[k].chapter_idx, 0);
        assert_eq!(chunks[k].chapter_title.as_deref(), Some("One"));
        assert_eq!(chunks[k].text, text[*lo..*hi]);
    }
}

#[test]
fn chunk_consecutive_windows_overlap() {
    let text = numbered_text(5000);
    let chunks = chunk_text(&[chapter(None, &text)]);
    for k in 0..chunks.len() - 1 {
        let a: Vec<char> = chunks[k].text.chars().collect();
        let b: Vec<char> = chunks[k + 1].text.chars().collect();
        assert_eq!(a.len(), CHUNK_SIZE);
        assert_eq!(&a[CHUNK_SIZE - CHUNK_OVERLAP..], &b[..CHUNK_OVERLAP]);
    }
    assert!(chunks.last().unwrap().text.ends_with(&text[4990..]));
}

#[test]
fn chunk_short_and_empty_chapters() {
    let chunks = chunk_text(&[chapter(None, ""), chapter(Some("B"), "short"), chapter(None, "")]);
    assert_eq!(chunks.len(), 1);
    assert_eq!(chunks[0].chapter_idx, 1);
    assert_eq!(chunks[0].chunk_index, 0);
    assert_eq!(chunks[0].text, "short");
}

#[test]
fn chunk_exactly_one_window() {
    let text = numbered_text(2000);
    let chunks = chunk_text(&[chapter(None, &text)]);
    assert_eq!(chunks.len(), 1);
    let text = numbered_text(2001);
    let chunks = chunk_text(&[chapter(None, &text)]);
    assert_eq!(chunks.len(), 2);
    assert_eq!(chunks[1].text, text[1600..2001]);
}

#[test]
fn chunk_index_restarts_per_chapter() {
    let long = numbered_text(3000);
    let chunks = chunk_text(&[chapter(Some("A"), &long), chapter(Some("B"), &long)]);
    assert_eq!(chunks.len(), 4);
    let idx: Vec<(usize, usize)> = chunks.iter().map(|c| (c.chapter_idx, c.chunk_index)).collect();
    assert_eq!(idx, vec![(0, 0), (0, 1), (1, 0), (1, 1)]);
}

#[test]
fn chunk_counts_characters_not_bytes() {
    let text: String = std::iter::repeat('é').take(2500).collect();
    let chunks = chunk_text(&[chapter(None, &text)]);
    assert_eq!(chunks.len(), 2);
    assert_eq!(chunks[0].text.chars().count(), 2000);
    assert_eq!(chunks[1].text.chars().count(), 900);
}

#[test]
fn chunk_is_deterministic() {
    let text = numbered_text(7000);
    let a = chunk_text(&[chapter(None, &text)]);
    let b = chunk_text(&[chapter(None, &text)]);
    assert_eq!(a.len(), b.len());
    for k in 0..a.len() {
        assert_eq!(a[k].text, b[k].text);
    }
}

#[test]
fn segment_two_headings() {
    let chapters = extract_chapters("# A\ntext1\n# B\ntext2");
    assert_eq!(chapters.len(), 2);
    assert_eq!(chapters[0].title.as_deref(), Some("A"));
    assert_eq!(chapters[0].text, "text1");
    assert_eq!(chapters[1].title.as_deref(), Some("B"));
    assert_eq!(chapters[1].text, "text2");
}

#[test]
fn segment_without_headings_is_one_chapter() {
    let chapters = extract_chapters("Just some text\nthat goes on.");
    assert_eq!(chapters.len(), 1);
    assert!(chapters[0].title.is_none());
    assert_eq!(chapters[0].text, "Just some text \nthat goes on.");
}

#[test]
fn segment_blank_body_keeps_whole_content() {
    let chapters = extract_chapters("   ");
    assert_eq!(chapters.len(), 1);
    assert!(chapters[0].title.is_none());
    assert_eq!(chapters[0].text, "   ");
}

#[test]
fn segment_heading_only_chapter_is_kept() {
    let chapters = extract_chapters("## Empty\n## Full\nbody");
    assert_eq!(chapters.len(), 2);
    assert_eq!(chapters[0].title.as_deref(), Some("Empty"));
    assert_eq!(chapters[0].text, "");
    assert_eq!(chapters[1].title.as_deref(), Some("Full"));
    assert_eq!(chapters[1].text, "body");
}

#[test]
fn segment_third_level_heading_stays_in_text() {
    let chapters = extract_chapters("# Top\nintro\n### Sub\nmore");
    assert_eq!(chapters.len(), 1);
    assert_eq!(chapters[0].title.as_deref(), Some("Top"));
    assert_eq!(chapters[0].text, "intro Sub more");
}

#[test]
fn segment_preface_before_first_heading() {
    let chapters = extract_chapters("Preface\n\n# One\nbody");
    assert_eq!(chapters.len(), 2);
    assert!(chapters[0].title.is_none());
    assert_eq!(chapters[0].text, "Preface");
    assert_eq!(chapters[1].title.as_deref(), Some("One"));
}

#[test]
fn segment_events_directly() {
    let events = vec![
        MdEvent::HeadingStart(1),
        MdEvent::Text("  T ".to_string()),
        MdEvent::HeadingEnd,
        MdEvent::Text("a".to_string()),
        MdEvent::SoftBreak,
        MdEvent::Text("b".to_string()),
        MdEvent::Other,
    ];
    let chapters = segment_events(&events, "ignored");
    assert_eq!(chapters.len(), 1);
    assert_eq!(chapters[0].title.as_deref(), Some("T"));
    assert_eq!(chapters[0].text, "a \nb");
}
