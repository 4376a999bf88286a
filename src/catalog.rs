//! Logic on the metadata store's side: the text indexed for full-text
//! search, the parameters of a structured search, and the sitemap.

use vstd::prelude::*;
use crate::text::{trim, trimmed};

verus! {

/// The strings of `v` joined by single spaces.
pub open spec fn joined(v: Seq<String>) -> Seq<char>
    decreases v.len(),
{
    if v.len() == 0 {
        Seq::empty()
    } else if v.len() == 1 {
        v[0]@
    } else {
        joined(v.drop_last()) + " "@ + v.last()@
    }
}

fn join_spaced(v: &Vec<String>) -> (r: String)
    ensures
        r@ == joined(v@),
{
    let mut out = String::new();
    let mut i: usize = 0;
    while i < v.len()
        invariant
            i <= v@.len(),
            out@ == joined(v@.take(i as int)),
        decreases v@.len() - i,
    {
        assert(v@.take(i + 1).drop_last() =~= v@.take(i as int));
        if i > 0 {
            out.append(" ");
        }
        out.append(v[i].as_str());
        i = i + 1;
        assert(out@ =~= joined(v@.take(i as int)));
    }
    assert(v@.take(i as int) =~= v@);
    out
}

/// The text indexed for full-text search: title, editor (or nothing),
/// the authors joined by spaces, and the body, separated by spaces.
pub open spec fn search_text_spec(
    title: Seq<char>,
    authors: Seq<String>,
    editor: Option<Seq<char>>,
    content: Seq<char>,
) -> Seq<char> {
    let ed = match editor {
        Some(e) => e,
        None => Seq::empty(),
    };
    title + " "@ + ed + " "@ + joined(authors) + " "@ + content
}

pub fn build_search_text(title: &str, authors: &Vec<String>, editor: Option<&str>, content: &str) -> (r:
    String)
    ensures
        r@ == search_text_spec(
            title@,
            authors@,
            match editor {
                Some(e) => Some(e@),
                None => None,
            },
            content@,
        ),
{
    let mut out = String::from_str(title);
    out.append(" ");
    match editor {
        Some(e) => out.append(e),
        None => {},
    }
    out.append(" ");
    let names = join_spaced(authors);
    out.append(names.as_str());
    out.append(" ");
    out.append(content);
    out
}

/// The parameters of one structured search.
pub struct SearchQuery {
    /// The trimmed free text, absent when blank: every book matches.
    pub text: Option<String>,
    /// The substring pattern matched against title and editor.
    pub like_pattern: String,
    /// Tags a book must have one of, absent when none is given.
    pub tags: Option<Vec<String>>,
    pub author: Option<String>,
    pub limit: i64,
    pub offset: i64,
}

/// Builds the parameters of the structured search for a page: the query
/// trimmed (absent when nothing is left), `%text%` as substring pattern,
/// the tag filter only when tags are given, and the offset of the page.
pub fn search_query(query: &str, tags: Vec<String>, author: Option<String>, page: i64, page_size: i64) -> (r:
    SearchQuery)
    requires
        0 <= page,
        0 <= page_size,
        page * page_size <= i64::MAX,
    ensures
        trimmed(query@).len() == 0 ==> r.text is None,
        trimmed(query@).len() > 0 ==> r.text is Some && r.text->Some_0@ == trimmed(query@),
        r.like_pattern@ == "%"@ + trimmed(query@) + "%"@,
        tags@.len() == 0 ==> r.tags is None,
        tags@.len() > 0 ==> r.tags == Some(tags),
        r.author == author,
        r.limit == page_size,
        r.offset == page * page_size,
{
    let t = trim(query);
    let mut like_pattern = String::from_str("%");
    like_pattern.append(t.as_str());
    like_pattern.append("%");
    let text = if t.as_str().unicode_len() == 0 {
        None
    } else {
        Some(t)
    };
    let tags = if tags.len() == 0 {
        None
    } else {
        Some(tags)
    };
    SearchQuery { text, like_pattern, tags, author, limit: page_size, offset: page * page_size }
}

/// Head of the sitemap: the home page and the chat page.
pub const SITEMAP_HEAD: &'static str = "<?xml version=\"1.0\" encoding=\"UTF-8\"?>\n<urlset xmlns=\"http://www.sitemaps.org/schemas/sitemap/0.9\">\n  <url>\n    <loc>https://bilbo.example.com/</loc>\n    <priority>1.0</priority>\n  </url>\n  <url>\n    <loc>https://bilbo.example.com/chat</loc>\n    <priority>0.5</priority>\n  </url>\n";

/// The sitemap entry of one book.
pub open spec fn sitemap_entry(reference: Seq<char>) -> Seq<char> {
    "  <url>\n    <loc>https://bilbo.example.com/book/"@ + reference
        + "</loc>\n    <priority>0.8</priority>\n  </url>\n"@
}

pub open spec fn sitemap_entries(books: Seq<(String, String)>) -> Seq<char>
    decreases books.len(),
{
    if books.len() == 0 {
        Seq::empty()
    } else {
        sitemap_entries(books.drop_last()) + sitemap_entry(books.last().0@)
    }
}

/// The sitemap of the site for the given (reference, title) pairs.
pub fn sitemap_xml(books: &[(String, String)]) -> (r: String)
    ensures
        r@ == SITEMAP_HEAD@ + sitemap_entries(books@) + "</urlset>"@,
{
    let mut out = String::from_str(SITEMAP_HEAD);
    let mut i: usize = 0;
    while i < books.len()
        invariant
            i <= books@.len(),
            out@ == SITEMAP_HEAD@ + sitemap_entries(books@.take(i as int)),
        decreases books@.len() - i,
    {
        assert(books@.take(i + 1).drop_last() =~= books@.take(i as int));
        out.append("  <url>\n    <loc>https://bilbo.example.com/book/");
        out.append(books[i].0.as_str());
        out.append("</loc>\n    <priority>0.8</priority>\n  </url>\n");
        i = i + 1;
        assert(out@ =~= SITEMAP_HEAD@ + sitemap_entries(books@.take(i as int)));
    }
    assert(books@.take(i as int) =~= books@);
    out.append("</urlset>");
    out
}

} // verus!
