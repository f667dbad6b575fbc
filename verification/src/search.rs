//! Full-text search helpers: paging parameters, query validation, and the
//! snippet highlighter that picks the 30-word window of the content holding
//! the most query terms.

use vstd::prelude::*;

use crate::text::{
    chars_of, find_in, find_sub, first_non_space, first_space, join_range, join_with_space,
    lemma_first_non_space, lemma_first_space, split_words, string_from_chars, trim_of, words_of,
};

verus! {

/// Largest number of results one search may return.
pub const MAX_SEARCH_LIMIT: i32 = 100;

/// Result-count limit used when the caller gives none.
pub const DEFAULT_SEARCH_LIMIT: i32 = 20;

/// Number of words in a snippet window.
pub const SNIPPET_WINDOW_WORDS: usize = 30;

/// A search over the imported transcripts.
#[derive(Debug)]
pub struct TranscriptSearchRequest {
    pub query: String,
    pub limit: Option<i32>,
    pub offset: Option<i32>,
}

/// Clamp the caller's paging parameters: the limit defaults to
/// `DEFAULT_SEARCH_LIMIT` and is capped at `MAX_SEARCH_LIMIT`; the offset
/// defaults to zero.
pub fn search_window(limit: Option<i32>, offset: Option<i32>) -> (r: (i32, i32))
    ensures
        r.0 == if limit is Some {
            if limit->0 < MAX_SEARCH_LIMIT {
                limit->0
            } else {
                MAX_SEARCH_LIMIT
            }
        } else {
            DEFAULT_SEARCH_LIMIT
        },
        r.1 == if offset is Some {
            offset->0
        } else {
            0
        },
{
    let l: i32 = match limit {
        Some(l) => if l < MAX_SEARCH_LIMIT {
            l
        } else {
            MAX_SEARCH_LIMIT
        },
        None => DEFAULT_SEARCH_LIMIT,
    };
    let o: i32 = match offset {
        Some(o) => o,
        None => 0,
    };
    (l, o)
}

/// A search query must hold something besides whitespace.
pub fn validate_query(query: &str) -> (r: Result<(), String>)
    ensures
        r is Ok <==> trim_of(query@).len() > 0,
        r matches Err(e) ==> e@ == "Search query cannot be empty"@,
{
    let chars = chars_of(query);
    let trimmed = crate::text::trim_chars(&chars);
    if trimmed.len() == 0 {
        Err("Search query cannot be empty".to_owned())
    } else {
        Ok(())
    }
}

/// What `str::to_lowercase` returns; the result depends on the characters
/// alone.
pub uninterp spec fn lower_of(s: Seq<char>) -> Seq<char>;

/// Relies on `str::to_lowercase` from std, whose result is a function of
/// the input characters alone.
#[verifier::external_body]
fn lowercase(s: &str) -> (r: String)
    ensures
        r@ == lower_of(s@),
{
    s.to_lowercase()
}

/// End of the window that starts at word `i`: thirty words on, or the end
/// of the text.
pub open spec fn window_end(words_len: int, i: int) -> int {
    if i + SNIPPET_WINDOW_WORDS <= words_len {
        i + SNIPPET_WINDOW_WORDS
    } else {
        words_len
    }
}

/// The window of up to thirty words starting at word `i`, joined by spaces.
pub open spec fn window_text(words: Seq<Seq<char>>, i: int) -> Seq<char> {
    join_with_space(words.subrange(i, window_end(words.len() as int, i)))
}

/// How many query words occur in the lowercased window; a query word given
/// twice counts twice.
pub open spec fn window_score(wl: Seq<char>, qws: Seq<Seq<char>>) -> nat
    decreases qws.len(),
{
    if qws.len() == 0 {
        0
    } else {
        window_score(wl, qws.drop_last()) + if find_sub(wl, qws.last()) is Some {
            1nat
        } else {
            0nat
        }
    }
}

/// The character spans at which each query word first occurs in the
/// lowercased window, in query order.
pub open spec fn window_positions(wl: Seq<char>, qws: Seq<Seq<char>>) -> Seq<(int, int)>
    decreases qws.len(),
{
    if qws.len() == 0 {
        Seq::empty()
    } else {
        window_positions(wl, qws.drop_last()) + match find_sub(wl, qws.last()) {
            Some(p) => seq![(p, p + qws.last().len() as int)],
            None => Seq::<(int, int)>::empty(),
        }
    }
}

/// The best window among those starting at words `0 .. n`, scanned in
/// order, a later window winning only with a strictly higher score: its
/// start, its score, and its highlight spans.
pub open spec fn best_window_upto(words: Seq<Seq<char>>, qws: Seq<Seq<char>>, n: int) -> (
    int,
    int,
    Seq<(int, int)>,
)
    decreases n,
{
    if n <= 0 {
        (0, 0, Seq::empty())
    } else {
        let prev = best_window_upto(words, qws, n - 1);
        let sc = window_score(lower_of(window_text(words, n - 1)), qws) as int;
        if sc > prev.1 {
            (n - 1, sc, window_positions(lower_of(window_text(words, n - 1)), qws))
        } else {
            prev
        }
    }
}

/// Total length taken by the first `n` words, a separator counted after
/// each: the character offset the original text attributes to word `n`.
pub open spec fn prefix_offset(words: Seq<Seq<char>>, n: int) -> int
    decreases n,
{
    if n <= 0 {
        0
    } else {
        prefix_offset(words, n - 1) + words[n - 1].len() + 1
    }
}

/// `a - b`, stopping at zero.
pub open spec fn sat_sub(a: int, b: int) -> int {
    if a >= b {
        a - b
    } else {
        0
    }
}

proof fn lemma_prefix_offset_bounds(words: Seq<Seq<char>>, k: int, n: int)
    requires
        0 <= k <= n <= words.len(),
    ensures
        0 <= prefix_offset(words, k) <= prefix_offset(words, n),
    decreases n,
{
    if n > 0 {
        if k == n {
            lemma_prefix_offset_bounds(words, 0, n - 1);
        } else {
            lemma_prefix_offset_bounds(words, k, n - 1);
        }
    }
}

/// The words of `s`, with one separator after each, fit within twice the
/// length of `s`.
proof fn lemma_words_total(s: Seq<char>)
    ensures
        prefix_offset(words_of(s), words_of(s).len() as int) <= 2 * s.len(),
    decreases s.len(),
{
    if s.len() == 0 {
    } else if crate::text::is_space_char(s[0]) {
        lemma_first_non_space(s);
        let rest = s.subrange(first_non_space(s), s.len() as int);
        lemma_words_total(rest);
    } else {
        lemma_first_space(s);
        let w = s.subrange(0, first_space(s));
        let rest = s.subrange(first_space(s), s.len() as int);
        lemma_words_total(rest);
        let ws = words_of(s);
        let wr = words_of(rest);
        assert(ws =~= seq![w] + wr);
        lemma_prefix_offset_shift(w, wr, wr.len() as int);
        assert(prefix_offset(ws, ws.len() as int) == w.len() + 1 + prefix_offset(
            wr,
            wr.len() as int,
        ));
    }
}

proof fn lemma_prefix_offset_min(words: Seq<Seq<char>>, n: int)
    requires
        0 <= n,
    ensures
        prefix_offset(words, n) >= n,
    decreases n,
{
    if n > 0 {
        lemma_prefix_offset_min(words, n - 1);
    }
}

proof fn lemma_prefix_offset_shift(w: Seq<char>, wr: Seq<Seq<char>>, n: int)
    requires
        0 <= n <= wr.len(),
    ensures
        prefix_offset(seq![w] + wr, n + 1) == w.len() + 1 + prefix_offset(wr, n),
    decreases n,
{
    let ws = seq![w] + wr;
    assert(prefix_offset(ws, n + 1) == prefix_offset(ws, n) + ws[n].len() + 1);
    if n == 0 {
        assert(ws[0] == w);
        assert(prefix_offset(ws, 0) == 0);
        assert(prefix_offset(wr, 0) == 0);
    } else {
        lemma_prefix_offset_shift(w, wr, n - 1);
        assert(ws[n] == wr[n - 1]);
        assert(prefix_offset(wr, n) == prefix_offset(wr, n - 1) + wr[n - 1].len() + 1);
    }
}

/// The words of the lowercased query, as the highlighter matches them.
pub open spec fn query_words_of(query: Seq<char>) -> Seq<Seq<char>> {
    words_of(lower_of(query))
}

/// The winning window for `query` over `content`: start word, score, and
/// raw highlight spans.
pub open spec fn best_window(content: Seq<char>, query: Seq<char>) -> (int, int, Seq<(int, int)>) {
    best_window_upto(words_of(content), query_words_of(query), words_of(content).len() as int)
}

/// The snippet shown for a search hit: the winning window joined by
/// spaces, with an ellipsis on each side that was cut.
pub open spec fn snippet_of(content: Seq<char>, query: Seq<char>) -> Seq<char> {
    let words = words_of(content);
    let bs = best_window(content, query).0;
    let core = join_with_space(words.subrange(bs, window_end(words.len() as int, bs)));
    let pre = if bs > 0 {
        seq!['.', '.', '.'] + core
    } else {
        core
    };
    if window_end(words.len() as int, bs) < words.len() {
        pre + seq!['.', '.', '.']
    } else {
        pre
    }
}

/// The highlight spans reported with the snippet: the winning window's raw
/// spans, shifted down by the offset of the window's first word and clamped
/// at zero.
pub open spec fn highlights_of(content: Seq<char>, query: Seq<char>) -> Seq<(int, int)> {
    let words = words_of(content);
    let off = prefix_offset(words, best_window(content, query).0);
    best_window(content, query).2.map_values(|p: (int, int)| (sat_sub(p.0, off), sat_sub(p.1, off)))
}

/// Pick the 30-word window of `content` that contains the most words of
/// `query` (matched case-insensitively, an earlier window winning ties),
/// and return it joined by single spaces, with ellipses marking cut ends,
/// together with the first-occurrence span of each query word within the
/// lowercased window, shifted by the window's character offset.
///
/// The length bound keeps the character offsets within `usize`.
pub fn create_highlighted_snippet(content: &str, query: &str, _max_length: usize) -> (r: (
    String,
    Vec<(usize, usize)>,
))
    requires
        content@.len() <= usize::MAX / 4,
    ensures
        r.0@ == snippet_of(content@, query@),
        r.1@.map_values(|p: (usize, usize)| (p.0 as int, p.1 as int)) == highlights_of(
            content@,
            query@,
        ),
{
    let query_lower = lowercase(query);
    let qchars = chars_of(&query_lower);
    let query_words = split_words(&qchars);
    let cchars = chars_of(content);
    let words = split_words(&cchars);
    let ghost spec_words = words_of(content@);
    let ghost spec_qws = query_words_of(query@);
    proof {
        assert(words@.map_values(|w: Vec<char>| w@) == spec_words);
        assert(query_words@.map_values(|w: Vec<char>| w@) == spec_qws);
        lemma_words_total(content@);
        lemma_prefix_offset_min(spec_words, spec_words.len() as int);
    }
    let n = words.len();
    let qn = query_words.len();
    let mut best_start: usize = 0;
    let mut best_score: usize = 0;
    let mut best_positions: Vec<(usize, usize)> = Vec::new();
    proof {
        assert(best_positions@.map_values(|p: (usize, usize)| (p.0 as int, p.1 as int))
            =~= Seq::<(int, int)>::empty());
    }
    for i in 0..n
        invariant
            n == words@.len(),
            qn == query_words@.len(),
            n <= 2 * content@.len(),
            content@.len() <= usize::MAX / 4,
            spec_words == words@.map_values(|w: Vec<char>| w@),
            spec_qws == query_words@.map_values(|w: Vec<char>| w@),
            best_start <= i,
            best_start as int == best_window_upto(spec_words, spec_qws, i as int).0,
            best_score as int == best_window_upto(spec_words, spec_qws, i as int).1,
            best_positions@.map_values(|p: (usize, usize)| (p.0 as int, p.1 as int))
                == best_window_upto(spec_words, spec_qws, i as int).2,
    {
        let wend = if i + SNIPPET_WINDOW_WORDS <= n {
            i + SNIPPET_WINDOW_WORDS
        } else {
            n
        };
        let wtext = join_range(&words, i, wend);
        let wstring = string_from_chars(&wtext);
        let wlower_s = lowercase(&wstring);
        let wlower = chars_of(&wlower_s);
        proof {
            assert(words@.map_values(|w: Vec<char>| w@).subrange(i as int, wend as int)
                == spec_words.subrange(i as int, window_end(spec_words.len() as int, i as int)));
            assert(wlower@ == lower_of(window_text(spec_words, i as int)));
        }
        let wl_len = wlower.len();
        let mut score: usize = 0;
        let mut found: Vec<(usize, usize)> = Vec::new();
        proof {
            assert(spec_qws.take(0) =~= Seq::<Seq<char>>::empty());
            assert(found@.map_values(|p: (usize, usize)| (p.0 as int, p.1 as int))
                =~= Seq::<(int, int)>::empty());
        }
        for j in 0..qn
            invariant
                qn == query_words@.len(),
                wl_len == wlower@.len(),
                spec_qws == query_words@.map_values(|w: Vec<char>| w@),
                wlower@ == lower_of(window_text(spec_words, i as int)),
                score <= j,
                score as int == window_score(wlower@, spec_qws.take(j as int)) as int,
                found@.map_values(|p: (usize, usize)| (p.0 as int, p.1 as int))
                    == window_positions(wlower@, spec_qws.take(j as int)),
        {
            proof {
                assert(spec_qws.take(j + 1).drop_last() =~= spec_qws.take(j as int));
                assert(spec_qws.take(j + 1).last() == spec_qws[j as int]);
            }
            let ghost found_prev = found@.map_values(|p: (usize, usize)| (p.0 as int, p.1 as int));
            match find_in(&wlower, &query_words[j]) {
                Some(p) => {
                    score = score + 1;
                    let span = (p, p + query_words[j].len());
                    proof {
                        assert((found@.push(span)).map_values(
                            |q: (usize, usize)| (q.0 as int, q.1 as int),
                        ) =~= found_prev.push((span.0 as int, span.1 as int)));
                        assert(found_prev.push((span.0 as int, span.1 as int)) =~= found_prev + seq![
                            (p as int, p + query_words@[j as int]@.len() as int),
                        ]);
                    }
                    found.push(span);
                },
                None => {},
            }
        }
        proof {
            assert(spec_qws.take(qn as int) =~= spec_qws);
        }
        if score > best_score {
            best_score = score;
            best_start = i;
            best_positions = found;
        }
    }
    // the winning window and the offset of its first word
    let send = if best_start + SNIPPET_WINDOW_WORDS <= n {
        best_start + SNIPPET_WINDOW_WORDS
    } else {
        n
    };
    let ghost best = best_window(content@, query@);
    proof {
        assert(best == best_window_upto(spec_words, spec_qws, n as int));
    }
    let core = join_range(&words, best_start, send);
    let mut offset: usize = 0;
    for k in 0..best_start
        invariant
            n == words@.len(),
            best_start <= n,
            n <= 2 * content@.len(),
            content@.len() <= usize::MAX / 4,
            spec_words == words_of(content@),
            spec_words == words@.map_values(|w: Vec<char>| w@),
            offset as int == prefix_offset(spec_words, k as int),
            offset <= 2 * content@.len(),
    {
        proof {
            lemma_words_total(content@);
            lemma_prefix_offset_bounds(spec_words, k + 1, n as int);
            assert(prefix_offset(spec_words, k + 1) == prefix_offset(spec_words, k as int)
                + spec_words[k as int].len() + 1);
            assert(spec_words[k as int] == words@[k as int]@);
        }
        offset = offset + words[k].len() + 1;
    }
    let mut adjusted: Vec<(usize, usize)> = Vec::new();
    let pn = best_positions.len();
    let ghost raw = best.2;
    let ghost spans = highlights_of(content@, query@);
    proof {
        assert(spans == raw.map_values(
            |p: (int, int)| (sat_sub(p.0, offset as int), sat_sub(p.1, offset as int)),
        ));
        assert(adjusted@.map_values(|p: (usize, usize)| (p.0 as int, p.1 as int)) =~= spans.take(
            0,
        ));
    }
    for idx in 0..pn
        invariant
            pn == best_positions@.len(),
            best_positions@.map_values(|p: (usize, usize)| (p.0 as int, p.1 as int)) == raw,
            spans == raw.map_values(
                |p: (int, int)| (sat_sub(p.0, offset as int), sat_sub(p.1, offset as int)),
            ),
            adjusted@.map_values(|p: (usize, usize)| (p.0 as int, p.1 as int)) == spans.take(
                idx as int,
            ),
    {
        let p = best_positions[idx];
        let a = if p.0 >= offset {
            p.0 - offset
        } else {
            0
        };
        let b = if p.1 >= offset {
            p.1 - offset
        } else {
            0
        };
        proof {
            assert(raw[idx as int] == (p.0 as int, p.1 as int));
            assert(spans[idx as int] == (
                sat_sub(p.0 as int, offset as int),
                sat_sub(p.1 as int, offset as int),
            ));
            assert(spans.take(idx + 1).drop_last() =~= spans.take(idx as int));
            let prev = adjusted@.map_values(|q: (usize, usize)| (q.0 as int, q.1 as int));
            assert((adjusted@.push((a, b))).map_values(
                |q: (usize, usize)| (q.0 as int, q.1 as int),
            ) =~= prev.push((a as int, b as int)));
        }
        adjusted.push((a, b));
    }
    proof {
        assert(spans.take(pn as int) =~= spans);
    }
    // assemble the snippet text, marking trimmed ends
    let mut out: Vec<char> = Vec::new();
    if best_start > 0 {
        out.push('.');
        out.push('.');
        out.push('.');
    }
    let clen = core.len();
    let ghost out_before = out@;
    for k in 0..clen
        invariant
            clen == core@.len(),
            out@ =~= out_before + core@.subrange(0, k as int),
    {
        out.push(core[k]);
    }
    proof {
        assert(out@ =~= out_before + core@);
    }
    if send < n {
        out.push('.');
        out.push('.');
        out.push('.');
    }
    proof {
        if best_start > 0 {
            assert(out_before =~= seq!['.', '.', '.']);
        } else {
            assert(out_before =~= Seq::<char>::empty());
        }
        if send < n {
            assert(out@ =~= snippet_of(content@, query@));
        } else {
            assert(out@ =~= snippet_of(content@, query@));
        }
    }
    (string_from_chars(&out), adjusted)
}

} // verus!
