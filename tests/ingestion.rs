use bilbo::catalog::{build_search_text, search_query, sitemap_xml};
use bilbo::chunker::chunk_text;
use bilbo::document::fingerprint;
use bilbo::index::{index_commands, plan_writes, DocumentInfo, IndexCommand, MemoryIndex};
use bilbo::ingest::{
    batch_ranges, chapter_summary_request, classify, collect_chapter_summaries,
    is_markdown_file, plan_summary, DocumentStatus, SummaryPlan, SUMMARY_PROMPT,
};
use bilbo::segment::Chapter;

fn chapter(title: Option<&str>, text: &str) -> Chapter {
    Chapter { title: title.map(|t| t.to_string()), text: text.to_string() }
}

fn info(id: u128) -> DocumentInfo {
    DocumentInfo {
        document_id: id,
        reference: "R1".to_string(),
        title: "T".to_string(),
        authors: vec!["Ann".to_string()],
        tags: vec!["sf".to_string()],
    }
}

fn text_of(len: usize) -> String {
    std::iter::repeat('x').take(len).collect()
}

#[test]
fn reingest_same_document_writes_nothing() {
    let raw = "---\nreference: R1\ntitle: T\n---\nbody";
    let stored = Some(fingerprint(raw));
    let status = classify(&stored, &fingerprint(raw));
    assert_eq!(status, DocumentStatus::Unchanged);
    let plan = plan_writes(status, true, 4);
    assert!(!plan.record && !plan.chapter_summaries && !plan.index);
    let chunks = chunk_text(&[chapter(None, "body")]);
    assert!(index_commands(status, true, &info(1), &chunks).is_empty());
}

#[test]
fn classify_new_and_changed() {
    assert_eq!(classify(&None, &"h".to_string()), DocumentStatus::New);
    assert_eq!(classify(&Some("a".to_string()), &"b".to_string()), DocumentStatus::Changed);
    let plan = plan_writes(DocumentStatus::New, false, 3);
    assert!(plan.record && !plan.chapter_summaries && !plan.index);
}

#[test]
fn reingest_replaces_points() {
    let mut index = MemoryIndex::new();
    let other = chunk_text(&[chapter(None, "other book")]);
    index.apply_all(index_commands(DocumentStatus::New, true, &info(2), &other));

    // First layout: five chunks.
    let old = chunk_text(&[chapter(Some("A"), &text_of(6000)), chapter(Some("B"), "tail")]);
    assert_eq!(old.len(), 5);
    index.apply_all(index_commands(DocumentStatus::New, true, &info(1), &old));
    assert_eq!(index.count_document(1), 5);

    // New layout: three chunks.
    let new = chunk_text(&[chapter(Some("C"), &text_of(4200))]);
    assert_eq!(new.len(), 3);
    let cmds = index_commands(DocumentStatus::Changed, true, &info(1), &new);
    assert!(matches!(cmds[0], IndexCommand::DeleteDocument(1)));
    index.apply_all(cmds);
    assert_eq!(index.count_document(1), 3);
    assert_eq!(index.count_document(2), 1);
    let titles: Vec<Option<String>> = index
        .points
        .iter()
        .filter(|p| p.document_id == 1)
        .map(|p| p.chapter_title.clone())
        .collect();
    assert_eq!(titles, vec![Some("C".to_string()); 3]);
}

#[test]
fn points_are_batched_by_one_hundred() {
    let chunks = chunk_text(&[chapter(None, &text_of(1600 * 250))]);
    assert_eq!(chunks.len(), 250);
    let cmds = index_commands(DocumentStatus::New, true, &info(1), &chunks);
    let sizes: Vec<usize> = cmds
        .iter()
        .map(|c| match c {
            IndexCommand::Insert(v) => v.len(),
            IndexCommand::DeleteDocument(_) => 0,
        })
        .collect();
    assert_eq!(sizes, vec![100, 100, 50]);
    let cmds = index_commands(DocumentStatus::New, false, &info(1), &chunks);
    assert!(cmds.is_empty());
}

#[test]
fn batch_ranges_cover_items() {
    assert_eq!(batch_ranges(0, 16), vec![]);
    assert_eq!(batch_ranges(16, 16), vec![(0, 16)]);
    assert_eq!(batch_ranges(35, 16), vec![(0, 16), (16, 32), (32, 35)]);
}

#[test]
fn summary_plan_sources() {
    match plan_summary(&Some("given".to_string()), true, "body") {
        SummaryPlan::Provided(s) => assert_eq!(s, "given"),
        _ => panic!("expected the given summary"),
    }
    let body = text_of(7000);
    match plan_summary(&None, true, &body) {
        SummaryPlan::Generate(p) => {
            assert!(p.starts_with(SUMMARY_PROMPT));
            assert_eq!(p.chars().count(), SUMMARY_PROMPT.chars().count() + 6000);
        }
        _ => panic!("expected a generation request"),
    }
    assert!(matches!(plan_summary(&None, false, "body"), SummaryPlan::Absent));
}

#[test]
fn chapter_summary_prompts() {
    assert_eq!(chapter_summary_request(&chapter(Some("X"), "   ")), None);
    assert_eq!(
        chapter_summary_request(&chapter(Some("Intro"), "hello")),
        Some("Résume le chapitre \"Intro\" en 3 phrases maximum en français :\n\nhello".to_string())
    );
    assert_eq!(
        chapter_summary_request(&chapter(None, "hello")),
        Some("Résume ce chapitre en 3 phrases maximum en français :\n\nhello".to_string())
    );
    let long = text_of(5000);
    let p = chapter_summary_request(&chapter(None, &long)).unwrap();
    assert!(p.ends_with(&long[..4000]));
    assert!(!p.ends_with(&long[..4001]));
}

#[test]
fn chapter_summaries_skip_empty_answers() {
    let chapters = vec![chapter(Some("A"), "a"), chapter(None, "b"), chapter(Some("C"), "c")];
    let answers = vec!["sa".to_string(), String::new(), "sc".to_string()];
    let kept = collect_chapter_summaries(&chapters, &answers);
    assert_eq!(kept.len(), 2);
    assert_eq!(kept[0].chapter_idx, 0);
    assert_eq!(kept[0].title.as_deref(), Some("A"));
    assert_eq!(kept[0].summary, "sa");
    assert_eq!(kept[1].chapter_idx, 2);
    assert_eq!(kept[1].title.as_deref(), Some("C"));
}

#[test]
fn markdown_file_names() {
    assert!(is_markdown_file("book.md"));
    assert!(is_markdown_file("a.b.md"));
    assert!(!is_markdown_file(".md"));
    assert!(!is_markdown_file("book.txt"));
    assert!(!is_markdown_file("bookmd"));
}

#[test]
fn search_text_joins_fields() {
    let authors = vec!["Ann".to_string(), "Bob".to_string()];
    assert_eq!(build_search_text("T", &authors, Some("Ed"), "body"), "T Ed Ann Bob body");
    assert_eq!(build_search_text("T", &vec![], None, "body"), "T   body");
}

#[test]
fn search_query_parameters() {
    let q = search_query("  dune ", vec![], Some("Ann".to_string()), 2, 20);
    assert_eq!(q.text.as_deref(), Some("dune"));
    assert_eq!(q.like_pattern, "%dune%");
    assert!(q.tags.is_none());
    assert_eq!(q.author.as_deref(), Some("Ann"));
    assert_eq!(q.offset, 40);
    assert_eq!(q.limit, 20);
    let q = search_query("   ", vec!["sf".to_string()], None, 0, 10);
    assert!(q.text.is_none());
    assert_eq!(q.tags, Some(vec!["sf".to_string()]));
}

#[test]
fn sitemap_lists_books() {
    let xml = sitemap_xml(&[("R1".to_string(), "T".to_string())]);
    assert!(xml.starts_with("<?xml version=\"1.0\" encoding=\"UTF-8\"?>\n<urlset"));
    assert!(xml.contains("  <url>\n    <loc>https://bilbo.example.com/book/R1</loc>\n    <priority>0.8</priority>\n  </url>\n</urlset>"));
    assert!(xml.ends_with("</urlset>"));
}
