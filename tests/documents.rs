use bilbo::document::{fingerprint, parse_markdown, BookFrontmatter, MetadataBlock, ParseError};
use bilbo::text::{blank, take_chars, trim};

fn frontmatter(reference: &str, title: &str) -> BookFrontmatter {
    BookFrontmatter {
        reference: reference.to_string(),
        title: title.to_string(),
        authors: vec!["Ann".to_string()],
        editor: None,
        tags: vec![],
        edition_date: None,
        summary: None,
        introduction: None,
        cover_text: None,
        ean: None,
        isbn: None,
        reseller_paper_urls: vec![],
        reseller_digital_urls: vec![],
    }
}

#[test]
fn fingerprint_is_sha256_hex() {
    assert_eq!(
        fingerprint("abc"),
        "ba7816bf8f01cfea414140de5dae2223b00361a396177a9cb410ff61f20015ad"
    );
    assert_eq!(
        fingerprint(""),
        "e3b0c44298fc1c149afbf4c8996fb92427ae41e4649b934ca495991b7852b855"
    );
}

#[test]
fn fingerprint_same_bytes_same_value() {
    let raw = "---\nreference: R1\ntitle: T\n---\nbody";
    assert_eq!(fingerprint(raw), fingerprint(&raw.to_string()));
    assert_ne!(fingerprint(raw), fingerprint("---\nreference: R1\ntitle: U\n---\nbody"));
}

#[test]
fn parse_trims_body_and_hashes_raw() {
    let raw = "---\nreference: R1\ntitle: T\n---\n\n  Body text \n";
    let parsed = parse_markdown(raw, MetadataBlock::Read(frontmatter("R1", "T")), "\n  Body text \n");
    let parsed = match parsed {
        Ok(p) => p,
        Err(_) => panic!("expected a parsed document"),
    };
    assert_eq!(parsed.content, "Body text");
    assert_eq!(parsed.hash, fingerprint(raw));
    assert_eq!(parsed.hash.len(), 64);
    assert_eq!(parsed.frontmatter.reference, "R1");
}

#[test]
fn parse_missing_metadata() {
    let r = parse_markdown("body", MetadataBlock::Absent, "body");
    assert!(matches!(r, Err(ParseError::MissingMetadata)));
}

#[test]
fn parse_malformed_metadata() {
    let r = parse_markdown("x", MetadataBlock::Malformed("missing field `title`".to_string()), "x");
    match r {
        Err(ParseError::MalformedMetadata(m)) => assert_eq!(m, "missing field `title`"),
        _ => panic!("expected malformed metadata"),
    }
}

#[test]
fn trim_matches_std() {
    for s in ["", "  ", " a b ", "\t\nx\u{3000}", "\u{a0}y\u{2009}", "no-space"] {
        assert_eq!(trim(s), s.trim());
        assert_eq!(blank(s), s.trim().is_empty());
    }
}

#[test]
fn take_chars_counts_characters() {
    assert_eq!(take_chars("héllo", 2), "hé");
    assert_eq!(take_chars("abc", 10), "abc");
    assert_eq!(take_chars("", 3), "");
}
