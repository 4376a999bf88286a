use bilbo::document::{parse_markdown, BookFrontmatter, MetadataBlock, ParsedBook};
use bilbo::index::{IndexCommand, MemoryIndex};
use bilbo::ingest::DocumentStatus;
use bilbo::orchestrator::{Action, Event, Ingestion, Outcome};

fn frontmatter(summary: Option<&str>) -> BookFrontmatter {
    BookFrontmatter {
        reference: "R1".to_string(),
        title: "Title".to_string(),
        authors: vec!["Ann".to_string()],
        editor: None,
        tags: vec!["sf".to_string()],
        edition_date: None,
        summary: summary.map(|s| s.to_string()),
        introduction: None,
        cover_text: None,
        ean: None,
        isbn: None,
        reseller_paper_urls: vec![],
        reseller_digital_urls: vec![],
    }
}

fn book(body: &str, summary: Option<&str>) -> ParsedBook {
    let raw = format!("---\nreference: R1\ntitle: Title\n---\n{body}");
    match parse_markdown(&raw, MetadataBlock::Read(frontmatter(summary)), body) {
        Ok(b) => b,
        Err(_) => panic!("document should parse"),
    }
}

struct Run {
    outcome: Outcome,
    writes: usize,
    status: DocumentStatus,
    summaries_written: Vec<usize>,
    record_summary: Option<String>,
}

fn run(
    book: ParsedBook,
    generator: bool,
    stored: Option<String>,
    index: &mut MemoryIndex,
    id: u128,
    fail_chapter: bool,
) -> Run {
    let (mut ing, mut action) = Ingestion::new(book, generator);
    let mut writes = 0;
    let mut summaries_written = vec![];
    let mut record_summary = None;
    loop {
        let event = match action {
            Action::LookUp(r) => {
                assert_eq!(r, "R1");
                Event::Stored(stored.clone())
            }
            Action::Summarize(_) => Event::Generated(Ok("generated".to_string())),
            Action::WriteRecord(s) => {
                writes += 1;
                record_summary = s;
                Event::RecordWritten(Ok(id))
            }
            Action::SummarizeChapter(i, _) => {
                if fail_chapter {
                    Event::Generated(Err("quota".to_string()))
                } else {
                    Event::Generated(Ok(format!("summary {i}")))
                }
            }
            Action::WriteChapterSummaries(v) => {
                writes += 1;
                summaries_written = v.iter().map(|s| s.chapter_idx as usize).collect();
                Event::Written(Ok(()))
            }
            Action::Embed(texts) => Event::Embedded(Ok(texts.len())),
            Action::WriteIndex(c) => {
                writes += 1;
                index.apply(c);
                Event::Written(Ok(()))
            }
            Action::Done(outcome) => {
                return Run { outcome, writes, status: ing.status, summaries_written, record_summary }
            }
        };
        action = ing.step(event);
    }
}

fn long_text(len: usize) -> String {
    std::iter::repeat('x').take(len).collect()
}

#[test]
fn pipeline_second_run_writes_nothing() {
    let body = format!("# One\n{}\n# Two\nshort", long_text(3000));
    let mut index = MemoryIndex::new();
    let first = run(book(&body, None), true, None, &mut index, 7, false);
    assert!(matches!(first.outcome, Outcome::Succeeded));
    assert_eq!(first.status, DocumentStatus::New);
    assert_eq!(first.record_summary.as_deref(), Some("generated"));
    assert_eq!(first.summaries_written, vec![0, 1]);
    assert_eq!(index.count_document(7), 3);
    let stored = Some(book(&body, None).hash);
    let second = run(book(&body, None), true, stored, &mut index, 7, false);
    assert!(matches!(second.outcome, Outcome::Unchanged));
    assert_eq!(second.writes, 0);
    assert_eq!(index.count_document(7), 3);
}

#[test]
fn pipeline_changed_layout_replaces_points() {
    let mut index = MemoryIndex::new();
    let old_body = format!("# A\n{}\n# B\ntail", long_text(6000));
    let first = run(book(&old_body, Some("given")), true, None, &mut index, 9, false);
    assert!(matches!(first.outcome, Outcome::Succeeded));
    assert_eq!(first.record_summary.as_deref(), Some("given"));
    assert_eq!(index.count_document(9), 5);
    let stored = Some(book(&old_body, None).hash);
    let new_body = format!("# C\n{}", long_text(4200));
    let second = run(book(&new_body, None), true, stored, &mut index, 9, false);
    assert!(matches!(second.outcome, Outcome::Succeeded));
    assert_eq!(second.status, DocumentStatus::Changed);
    assert_eq!(index.count_document(9), 3);
    assert!(index.points.iter().all(|p| p.chapter_title.as_deref() == Some("C")));
}

#[test]
fn pipeline_without_generator_writes_record_only() {
    let mut index = MemoryIndex::new();
    let r = run(book("# A\ntext", None), false, None, &mut index, 1, false);
    assert!(matches!(r.outcome, Outcome::Succeeded));
    assert_eq!(r.writes, 1);
    assert_eq!(r.record_summary, None);
    assert_eq!(index.count_document(1), 0);
}

#[test]
fn pipeline_chapter_summary_failure_stores_none() {
    let mut index = MemoryIndex::new();
    let r = run(book("# A\ntext\n# B\nmore", None), true, None, &mut index, 1, true);
    assert!(matches!(r.outcome, Outcome::Succeeded));
    assert!(r.summaries_written.is_empty());
    assert_eq!(index.count_document(1), 2);
}

#[test]
fn pipeline_record_failure_fails_document() {
    let (mut ing, a) = Ingestion::new(book("text", None), true);
    assert!(matches!(a, Action::LookUp(_)));
    let a = ing.step(Event::Stored(None));
    assert!(matches!(a, Action::Summarize(_)));
    let a = ing.step(Event::Generated(Err("down".to_string())));
    assert!(matches!(a, Action::WriteRecord(None)));
    match ing.step(Event::RecordWritten(Err("db gone".to_string()))) {
        Action::Done(Outcome::Failed(m)) => assert_eq!(m, "db gone"),
        _ => panic!("expected a failure"),
    }
}

#[test]
fn pipeline_embedding_failure_fails_document() {
    let (mut ing, _) = Ingestion::new(book("text", Some("s")), true);
    assert!(matches!(ing.step(Event::Stored(Some("other".to_string()))), Action::WriteRecord(_)));
    assert!(matches!(ing.step(Event::RecordWritten(Ok(3))), Action::SummarizeChapter(0, _)));
    assert!(matches!(ing.step(Event::Generated(Ok("s0".to_string()))), Action::WriteChapterSummaries(_)));
    assert!(matches!(ing.step(Event::Written(Ok(()))), Action::Embed(_)));
    let a = ing.step(Event::Embedded(Err("embed API error".to_string())));
    assert!(matches!(a, Action::Done(Outcome::Failed(_))));
}

#[test]
fn pipeline_changed_document_deletes_before_insert() {
    let (mut ing, _) = Ingestion::new(book("text", Some("s")), true);
    ing.step(Event::Stored(Some("other".to_string())));
    ing.step(Event::RecordWritten(Ok(3)));
    ing.step(Event::Generated(Ok("s0".to_string())));
    ing.step(Event::Written(Ok(())));
    let a = ing.step(Event::Embedded(Ok(1)));
    assert!(matches!(a, Action::WriteIndex(IndexCommand::DeleteDocument(3))));
    let a = ing.step(Event::Written(Ok(())));
    match a {
        Action::WriteIndex(IndexCommand::Insert(points)) => {
            assert_eq!(points.len(), 1);
            assert_eq!(points[0].chunk_text, "text");
            assert_eq!(points[0].reference, "R1");
        }
        _ => panic!("expected an insert"),
    }
    assert!(matches!(ing.step(Event::Written(Ok(()))), Action::Done(Outcome::Succeeded)));
}
