//! Overlapping fixed-size windows over chapter text.
//!
//! Each chapter is cut, by characters, into windows of `CHUNK_SIZE`
//! characters; window `k` starts at `k * (CHUNK_SIZE - CHUNK_OVERLAP)`, and
//! the last window is the first one that reaches the end of the text.

use vstd::prelude::*;
use crate::segment::Chapter;

verus! {

/// Characters in one window.
pub const CHUNK_SIZE: usize = 2000;

/// Characters shared by two consecutive windows.
pub const CHUNK_OVERLAP: usize = 400;

/// One window of one chapter, ready to be embedded and indexed.
pub struct Chunk {
    pub chapter_idx: usize,
    pub chapter_title: Option<String>,
    pub chunk_index: usize,
    pub text: String,
}

/// Distance between the starts of two consecutive windows.
pub open spec fn step() -> nat {
    (CHUNK_SIZE - CHUNK_OVERLAP) as nat
}

/// Offset of the first character of window `k`.
pub open spec fn window_start(k: nat) -> nat {
    k * step()
}

/// Offset just past the last character of window `k` in a text of `len`.
pub open spec fn window_end(len: nat, k: nat) -> nat {
    if k * step() + CHUNK_SIZE <= len {
        k * step() + CHUNK_SIZE as nat
    } else {
        len
    }
}

/// Number of windows of a text of `len` characters.
pub open spec fn window_count(len: nat) -> nat
    decreases len,
{
    if len == 0 {
        0
    } else if len <= CHUNK_SIZE {
        1
    } else {
        1 + window_count((len - step()) as nat)
    }
}

/// Whether `c` is window `k` of chapter number `idx`.
pub open spec fn is_window(c: Chunk, idx: int, ch: Chapter, k: nat) -> bool {
    &&& c.chapter_idx == idx
    &&& c.chapter_title == ch.title
    &&& c.chunk_index == k
    &&& c.text@ == ch.text@.subrange(
        window_start(k) as int,
        window_end(ch.text@.len(), k) as int,
    )
}

/// Number of windows of the chapters before number `i`.
pub open spec fn chunks_before(chs: Seq<Chapter>, i: int) -> nat
    decreases i,
{
    if i <= 0 {
        0
    } else {
        chunks_before(chs, i - 1) + window_count(chs[i - 1].text@.len())
    }
}

/// The chunks of `chs`, chapter after chapter and window after window.
pub open spec fn is_chunking(r: Seq<Chunk>, chs: Seq<Chapter>) -> bool {
    &&& r.len() == chunks_before(chs, chs.len() as int)
    &&& forall|i: int, k: nat|
        0 <= i < chs.len() && k < window_count(chs[i].text@.len()) ==> is_window(
            #[trigger] r[chunks_before(chs, i) + k as int],
            i,
            chs[i],
            k,
        )
}

/// Every window but the last is full length and stops before the end.
pub proof fn lemma_inner_window_full(len: nat, k: nat)
    requires
        k + 1 < window_count(len),
    ensures
        window_start(k) + CHUNK_SIZE < len,
        window_end(len, k) == window_start(k) + CHUNK_SIZE,
    decreases k,
{
    if k > 0 {
        let len2 = (len - step()) as nat;
        lemma_inner_window_full(len2, (k - 1) as nat);
        assert((k - 1) * step() + step() == k * step()) by (nonlinear_arith);
    }
}

/// The last window reaches the end of the text.
pub proof fn lemma_last_window_reaches_end(len: nat)
    requires
        len > 0,
    ensures
        window_count(len) >= 1,
        window_end(len, (window_count(len) - 1) as nat) == len,
        window_start((window_count(len) - 1) as nat) < len,
    decreases len,
{
    if len > CHUNK_SIZE {
        let len2 = (len - step()) as nat;
        lemma_last_window_reaches_end(len2);
        let k2 = (window_count(len2) - 1) as nat;
        assert((k2 + 1) * step() == k2 * step() + step()) by (nonlinear_arith);
    } else {
        assert(window_start(0) == 0);
    }
}

proof fn lemma_index_below_start(k: nat)
    ensures
        k <= window_start(k),
{
    assert(k <= k * step()) by (nonlinear_arith)
        requires
            step() == 1600,
    ;
}

/// Window starts grow with the window number.
proof fn lemma_start_monotone(a: nat, b: nat)
    requires
        a <= b,
    ensures
        window_start(a) <= window_start(b),
{
    assert(a * step() <= b * step()) by (nonlinear_arith)
        requires
            a <= b,
    ;
}

/// Each window lies inside the text and is not empty.
pub proof fn lemma_window_in_text(len: nat, k: nat)
    requires
        k < window_count(len),
    ensures
        window_start(k) < window_end(len, k) <= len,
{
    lemma_last_window_reaches_end(len);
    let last = (window_count(len) - 1) as nat;
    lemma_start_monotone(k, last);
}

/// Every character of a text lies in some window, and two consecutive
/// windows share exactly `CHUNK_OVERLAP` characters.
pub proof fn lemma_windows_cover(len: nat, p: nat)
    requires
        p < len,
    ensures
        exists|k: nat|
            k < window_count(len) && window_start(k) <= p < #[trigger] window_end(len, k),
        forall|k: nat|
            k + 1 < window_count(len) ==> #[trigger] window_end(len, k) - window_start(k + 1)
                == CHUNK_OVERLAP,
    decreases len,
{
    assert forall|k: nat| k + 1 < window_count(len) implies #[trigger] window_end(len, k)
        - window_start(k + 1) == CHUNK_OVERLAP by {
        lemma_inner_window_full(len, k);
        assert((k + 1) * step() == k * step() + step()) by (nonlinear_arith);
    }
    if p < CHUNK_SIZE {
        assert(window_start(0) <= p < window_end(len, 0));
    } else {
        let len2 = (len - step()) as nat;
        lemma_windows_cover(len2, (p - step()) as nat);
        let k2 = choose|k: nat|
            k < window_count(len2) && window_start(k) <= (p - step()) < #[trigger] window_end(
                len2,
                k,
            );
        assert((k2 + 1) * step() == k2 * step() + step()) by (nonlinear_arith);
        assert(window_start(k2 + 1) <= p < window_end(len, k2 + 1));
    }
}

/// The number of windows of a non-empty text of `len` characters is one,
/// plus one for each further step needed to reach the end:
/// `1 + ceil(max(len - CHUNK_SIZE, 0) / (CHUNK_SIZE - CHUNK_OVERLAP))`.
pub proof fn lemma_window_count_formula(len: nat)
    ensures
        len == 0 ==> window_count(len) == 0,
        len > 0 && len <= CHUNK_SIZE ==> window_count(len) == 1,
        len > CHUNK_SIZE ==> window_count(len) == 1 + ((len - CHUNK_SIZE) + step() - 1) as nat
            / step(),
    decreases len,
{
    if len > CHUNK_SIZE {
        let len2 = (len - step()) as nat;
        lemma_window_count_formula(len2);
        let a = (len - CHUNK_SIZE) as int;
        if len2 > CHUNK_SIZE {
            assert((a + 1599) / 1600 == 1 + (a - 1600 + 1599) / 1600);
        } else {
            assert(0 < a <= 1600);
            assert((a + 1599) / 1600 == 1);
        }
    }
}

/// The count `ceil(max(len - CHUNK_OVERLAP, 0) / (CHUNK_SIZE - CHUNK_OVERLAP))`,
/// plus one for a non-empty text, is the number of windows for texts no
/// longer than the overlap, and one more than that number beyond.
pub proof fn lemma_window_count_overlap_form(len: nat)
    ensures
        (if len > CHUNK_OVERLAP {
            ((len - CHUNK_OVERLAP) + step() - 1) as nat / step()
        } else {
            0nat
        }) + (if len > 0 {
            1nat
        } else {
            0nat
        }) == window_count(len) + (if len > CHUNK_OVERLAP {
            1nat
        } else {
            0nat
        }),
{
    lemma_window_count_formula(len);
    if len > CHUNK_SIZE {
        let a = (len - CHUNK_SIZE) as int;
        assert((a + 1600 + 1599) / 1600 == 1 + (a + 1599) / 1600);
    } else if len > CHUNK_OVERLAP {
        let a = (len - CHUNK_OVERLAP) as int;
        assert(0 < a <= 1600);
        assert((a + 1599) / 1600 == 1);
    }
}

fn clone_title(t: &Option<String>) -> (r: Option<String>)
    ensures
        r == *t,
{
    match t {
        Some(s) => Some(s.clone()),
        None => None,
    }
}

/// Cuts every chapter into overlapping windows of `CHUNK_SIZE` characters,
/// `CHUNK_OVERLAP` of which are shared with the next window; empty chapters
/// give no chunk, and `chunk_index` restarts at zero in each chapter.
pub fn chunk_text(chapters: &[Chapter]) -> (r: Vec<Chunk>)
    ensures
        is_chunking(r@, chapters@),
{
    let mut chunks: Vec<Chunk> = Vec::new();
    let mut ci: usize = 0;
    while ci < chapters.len()
        invariant
            ci <= chapters@.len(),
            is_chunking(chunks@, chapters@.take(ci as int)),
        decreases chapters@.len() - ci,
    {
        let chapter = &chapters[ci];
        let ghost before = chunks@;
        let ghost chs = chapters@;
        let text = chapter.text.as_str();
        let len = text.unicode_len();
        let mut start: usize = 0;
        let mut k: usize = 0;
        let ghost base = chunks_before(chs, ci as int);
        assert(chunks_before(chapters@.take(ci as int), ci as int) == base) by {
            lemma_chunks_before_prefix(chs, ci as int, ci as int);
        }
        if len > 0 {
            loop
                invariant_except_break
                    start == window_start(k as nat),
                    start < len,
                    k < window_count(len as nat),
                invariant
                    len == chapter.text@.len(),
                    text@ == chapter.text@,
                    len > 0,
                    chapter == chs[ci as int],
                    chs == chapters@,
                    ci < chs.len(),
                    base == chunks_before(chs, ci as int),
                    chunks@.len() == base + k,
                    chunks@.take(base as int) == before,
                    is_chunking(before, chapters@.take(ci as int)),
                    forall|j: nat| j < k ==> is_window(#[trigger] chunks@[base + j as int], ci as int, *chapter, j),
                ensures
                    k == window_count(len as nat),
                decreases len - start,
            {
                let end = if len - start > CHUNK_SIZE {
                    start + CHUNK_SIZE
                } else {
                    len
                };
                proof {
                    lemma_index_below_start(k as nat);
                }
                let piece = String::from_str(text.substring_char(start, end));
                let title = clone_title(&chapter.title);
                let ghost old_chunks = chunks@;
                chunks.push(Chunk { chapter_idx: ci, chapter_title: title, chunk_index: k, text: piece });
                assert(chunks@.take(base as int) =~= before) by {
                    assert(old_chunks.take(base as int) =~= before);
                }
                assert forall|j: nat| j < k + 1 implies is_window(#[trigger] chunks@[base + j as int], ci as int, *chapter, j) by {
                    if j < k {
                        assert(chunks@[base + j as int] == old_chunks[base + j as int]);
                    }
                }
                if end >= len {
                    proof {
                        lemma_count_end(len as nat, k as nat);
                    }
                    k = k + 1;
                    break;
                }
                proof {
                    lemma_next_window(len as nat, k as nat);
                }
                k = k + 1;
                start = start + (CHUNK_SIZE - CHUNK_OVERLAP);
            }
        }
        proof {
            if len == 0 {
                assert(window_count(0) == 0);
                assert(chunks@.take(base as int) =~= before);
            }
            assert(k == window_count(len as nat));
            lemma_chunking_extend(before, chunks@, chs, ci as int);
        }
        ci = ci + 1;
    }
    assert(chapters@.take(chapters@.len() as int) =~= chapters@);
    chunks
}

proof fn lemma_count_end(len: nat, k: nat)
    requires
        k < window_count(len),
        window_start(k) + CHUNK_SIZE >= len,
    ensures
        window_count(len) == k + 1,
{
    if k + 1 < window_count(len) {
        lemma_inner_window_full(len, k);
    }
}

proof fn lemma_next_window(len: nat, k: nat)
    requires
        k < window_count(len),
        window_start(k) + CHUNK_SIZE < len,
    ensures
        k + 1 < window_count(len),
        window_start(k + 1) == window_start(k) + step(),
        window_start(k + 1) < len,
{
    assert((k + 1) * step() == k * step() + step()) by (nonlinear_arith);
    if k + 1 >= window_count(len) {
        lemma_last_window_reaches_end(len);
        assert(window_end(len, k) == len);
    }
    lemma_window_in_text(len, k + 1);
}

proof fn lemma_chunks_before_prefix(chs: Seq<Chapter>, n: int, i: int)
    requires
        0 <= i <= n <= chs.len(),
    ensures
        chunks_before(chs.take(n), i) == chunks_before(chs, i),
    decreases i,
{
    if i > 0 {
        lemma_chunks_before_prefix(chs, n, i - 1);
    }
}

proof fn lemma_chunking_extend(before: Seq<Chunk>, after: Seq<Chunk>, chs: Seq<Chapter>, ci: int)
    requires
        0 <= ci < chs.len(),
        is_chunking(before, chs.take(ci)),
        after.len() == chunks_before(chs, ci) + window_count(chs[ci].text@.len()),
        after.take(chunks_before(chs, ci) as int) == before,
        forall|j: nat|
            j < window_count(chs[ci].text@.len()) ==> is_window(
                #[trigger] after[chunks_before(chs, ci) + j as int],
                ci,
                chs[ci],
                j,
            ),
    ensures
        is_chunking(after, chs.take(ci + 1)),
{
    let p = chs.take(ci);
    let q = chs.take(ci + 1);
    lemma_chunks_before_prefix(chs, ci, ci);
    lemma_chunks_before_prefix(chs, ci + 1, ci + 1);
    assert forall|i: int, k: nat|
        0 <= i < q.len() && k < window_count(q[i].text@.len()) implies is_window(
        #[trigger] after[chunks_before(q, i) + k as int],
        i,
        q[i],
        k,
    ) by {
        lemma_chunks_before_prefix(chs, ci + 1, i);
        if i < ci {
            lemma_chunks_before_prefix(chs, ci, i);
            lemma_chunks_before_monotone(chs, i + 1, ci);
            assert(p[i] == q[i]);
            assert(before[chunks_before(p, i) + k as int] == after[chunks_before(q, i) + k as int]);
        }
    }
}

proof fn lemma_chunks_before_monotone(chs: Seq<Chapter>, i: int, j: int)
    requires
        0 <= i <= j <= chs.len(),
    ensures
        chunks_before(chs, i) <= chunks_before(chs, j),
    decreases j - i,
{
    if i < j {
        lemma_chunks_before_monotone(chs, i, j - 1);
    }
}

} // verus!
