//! Records exchanged between the stores, the retrieval core and the user
//! interface. Identifiers are kept as their 128-bit value.

use vstd::prelude::*;

verus! {

/// A book as a search lists it.
pub struct BookSearchResult {
    pub id: u128,
    pub reference: String,
    pub title: String,
    pub authors: Vec<String>,
    pub tags: Vec<String>,
    pub editor: Option<String>,
    pub edition_date: Option<String>,
    pub summary: Option<String>,
}

/// A book with everything its page shows.
pub struct BookDetail {
    pub id: u128,
    pub reference: String,
    pub title: String,
    pub authors: Vec<String>,
    pub editor: Option<String>,
    pub tags: Vec<String>,
    pub edition_date: Option<String>,
    pub summary: Option<String>,
    pub introduction: Option<String>,
    pub cover_text: Option<String>,
    pub ean: Option<String>,
    pub isbn: Option<String>,
    pub reseller_urls: Vec<ResellerUrl>,
    pub chapter_summaries: Vec<ChapterSummary>,
}

/// Where a book can be bought; `kind` is `paper` or `digital`.
pub struct ResellerUrl {
    pub url: String,
    pub kind: String,
}

/// The generated summary of one chapter.
pub struct ChapterSummary {
    pub chapter_idx: i32,
    pub title: Option<String>,
    pub summary: String,
}

/// One message of a conversation.
pub struct ChatMessage {
    pub role: ChatRole,
    pub content: String,
    pub sources: Vec<ChatSource>,
}

/// Who wrote a message.
#[derive(PartialEq, Eq, Structural, Clone, Copy, Debug)]
pub enum ChatRole {
    User,
    Assistant,
}

/// A passage cited by an answer.
pub struct ChatSource {
    pub reference: String,
    pub title: String,
    pub chunk_text: String,
}

/// A passage found by nearest-neighbour search.
pub struct SearchResult {
    pub reference: String,
    pub title: String,
    pub chunk_text: String,
}

} // verus!
