//! Reading one source document: its metadata block, its trimmed body and
//! the fingerprint of its raw text.

use vstd::prelude::*;
use sha2::Digest;
use vstd::utf8::encode_utf8;
use crate::text::{trim, trimmed};

verus! {

/// The metadata block at the head of a document.
pub struct BookFrontmatter {
    pub reference: String,
    pub title: String,
    pub authors: Vec<String>,
    pub editor: Option<String>,
    pub tags: Vec<String>,
    pub edition_date: Option<String>,
    pub summary: Option<String>,
    pub introduction: Option<String>,
    pub cover_text: Option<String>,
    pub ean: Option<String>,
    pub isbn: Option<String>,
    pub reseller_paper_urls: Vec<String>,
    pub reseller_digital_urls: Vec<String>,
}

/// What was found where a document's metadata block should stand.
pub enum MetadataBlock {
    /// The document has no metadata block.
    Absent,
    /// A block is there but does not fit the schema; the reason.
    Malformed(String),
    /// A block with every required field.
    Read(BookFrontmatter),
}

/// Why a document could not be read.
pub enum ParseError {
    MissingMetadata,
    MalformedMetadata(String),
}

/// A document ready for ingestion.
pub struct ParsedBook {
    pub frontmatter: BookFrontmatter,
    /// The body without leading and trailing whitespace.
    pub content: String,
    /// Lowercase hex of the SHA-256 digest of the raw document.
    pub hash: String,
}

/// What `sha256_digest` returns for `data`.
pub uninterp spec fn sha256_of(data: Seq<u8>) -> Seq<u8>;

/// The lowercase hex digit for `n < 16`.
pub open spec fn hex_digit(n: int) -> char {
    if n == 0 { '0' } else if n == 1 { '1' } else if n == 2 { '2' } else if n == 3 { '3' }
    else if n == 4 { '4' } else if n == 5 { '5' } else if n == 6 { '6' } else if n == 7 { '7' }
    else if n == 8 { '8' } else if n == 9 { '9' } else if n == 10 { 'a' } else if n == 11 { 'b' }
    else if n == 12 { 'c' } else if n == 13 { 'd' } else if n == 14 { 'e' } else { 'f' }
}

/// `b` spelled in lowercase hex, two digits per byte, the high half first.
pub open spec fn hex_text(b: Seq<u8>) -> Seq<char> {
    Seq::new(
        2 * b.len(),
        |j: int|
            if j % 2 == 0 {
                hex_digit(b[j / 2] as int / 16)
            } else {
                hex_digit(b[j / 2] as int % 16)
            },
    )
}

/// `h` is the fingerprint of the raw text `raw`: the hex spelling of the
/// SHA-256 digest of its UTF-8 bytes.
pub open spec fn is_fingerprint(h: Seq<char>, raw: Seq<char>) -> bool {
    h == hex_text(sha256_of(encode_utf8(raw)))
}

/// Relies on `sha2::Sha256::digest`: the 32-byte SHA-256 digest of `data`.
#[verifier::external_body]
fn sha256_digest(data: &[u8]) -> (r: Vec<u8>)
    ensures
        r@ == sha256_of(data@),
        r@.len() == 32,
{
    sha2::Sha256::digest(data).to_vec()
}

/// Relies on `hex::encode`: two lowercase hex digits for each byte, the
/// high half first.
#[verifier::external_body]
fn hex_encode(data: &[u8]) -> (r: String)
    ensures
        r@ == hex_text(data@),
{
    hex::encode(data)
}

/// The fingerprint of a raw document.
pub fn fingerprint(raw: &str) -> (r: String)
    ensures
        is_fingerprint(r@, raw@),
        r@.len() == 64,
{
    let bytes = raw.as_bytes();
    let digest = sha256_digest(bytes);
    hex_encode(digest.as_slice())
}

/// Identical raw documents have identical fingerprints.
pub proof fn lemma_fingerprint_deterministic(raw1: Seq<char>, raw2: Seq<char>, h1: Seq<char>, h2: Seq<char>)
    requires
        raw1 == raw2,
        is_fingerprint(h1, raw1),
        is_fingerprint(h2, raw2),
    ensures
        h1 == h2,
{
}

/// Reads a document from its raw text, the metadata block found at its
/// head and the body that follows the block. The fingerprint covers the
/// whole raw text, metadata included; the body is trimmed.
pub fn parse_markdown(raw: &str, metadata: MetadataBlock, body: &str) -> (r: Result<
    ParsedBook,
    ParseError,
>)
    ensures
        metadata is Absent ==> r == Err::<ParsedBook, ParseError>(ParseError::MissingMetadata),
        metadata is Malformed ==> r == Err::<ParsedBook, ParseError>(
            ParseError::MalformedMetadata(metadata->Malformed_0),
        ),
        metadata is Read ==> r is Ok && r->Ok_0.frontmatter == metadata->Read_0
            && r->Ok_0.content@ == trimmed(body@) && is_fingerprint(r->Ok_0.hash@, raw@)
            && r->Ok_0.hash@.len() == 64,
{
    match metadata {
        MetadataBlock::Absent => Err(ParseError::MissingMetadata),
        MetadataBlock::Malformed(m) => Err(ParseError::MalformedMetadata(m)),
        MetadataBlock::Read(frontmatter) => {
            let content = trim(body);
            let hash = fingerprint(raw);
            Ok(ParsedBook { frontmatter, content, hash })
        },
    }
}

} // verus!
