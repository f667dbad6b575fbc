//! Character-level text utilities shared by the transcript and search
//! routines: whitespace classification, word and line splitting, trimming,
//! joining, and substring search, each against its mathematical
//! specification over `Seq<char>`.

use vstd::prelude::*;

verus! {

/// The whitespace class used for splitting and trimming: the Unicode
/// `White_Space` code points, exactly the characters `char::is_whitespace`
/// accepts.
pub open spec fn is_space_char(c: char) -> bool {
    ||| c == ' '
    ||| c == '\t'
    ||| c == '\n'
    ||| c == '\u{b}'
    ||| c == '\u{c}'
    ||| c == '\r'
    ||| c == '\u{85}'
    ||| c == '\u{a0}'
    ||| c == '\u{1680}'
    ||| ('\u{2000}' as int <= c as int && c as int <= '\u{200a}' as int)
    ||| c == '\u{2028}'
    ||| c == '\u{2029}'
    ||| c == '\u{202f}'
    ||| c == '\u{205f}'
    ||| c == '\u{3000}'
}

/// Executable test for [`is_space_char`].
pub fn is_space(c: char) -> (r: bool)
    ensures
        r == is_space_char(c),
{
    c == ' ' || c == '\t' || c == '\n' || c == '\u{b}' || c == '\u{c}' || c == '\r' || c
        == '\u{85}' || c == '\u{a0}' || c == '\u{1680}' || (c >= '\u{2000}' && c <= '\u{200a}')
        || c == '\u{2028}' || c == '\u{2029}' || c == '\u{202f}' || c == '\u{205f}' || c
        == '\u{3000}'
}

/// The characters of `s`, in order.
pub fn chars_of(s: &str) -> (v: Vec<char>)
    ensures
        v@ == s@,
{
    let mut v: Vec<char> = Vec::new();
    for c in it: s.chars()
        invariant
            it.seq() == s@,
            v@ == it.seq().take(it.index() as int),
    {
        v.push(c);
    }
    proof {
        assert(v@ =~= s@);
    }
    v
}

/// Relies on `String: FromIterator<char>` from std: collecting characters
/// builds the string of exactly those characters, in order.
#[verifier::external_body]
pub fn string_from_chars(v: &Vec<char>) -> (s: String)
    ensures
        s@ == v@,
{
    v.iter().collect()
}

/// Index of the first whitespace character of `s`, or `s.len()` when
/// there is none.
pub open spec fn first_space(s: Seq<char>) -> int
    decreases s.len(),
{
    if s.len() == 0 {
        0
    } else if is_space_char(s[0]) {
        0
    } else {
        1 + first_space(s.drop_first())
    }
}

pub proof fn lemma_first_space(s: Seq<char>)
    ensures
        0 <= first_space(s) <= s.len(),
        forall|k: int| 0 <= k < first_space(s) ==> !is_space_char(s[k]),
        first_space(s) < s.len() ==> is_space_char(s[first_space(s)]),
    decreases s.len(),
{
    if s.len() > 0 && !is_space_char(s[0]) {
        lemma_first_space(s.drop_first());
        assert forall|k: int| 0 <= k < first_space(s) implies !is_space_char(s[k]) by {
            if k > 0 {
                assert(s.drop_first()[k - 1] == s[k]);
            }
        }
    }
}

/// Index of the first character of `s` that is not whitespace, or `s.len()`.
pub open spec fn first_non_space(s: Seq<char>) -> int
    decreases s.len(),
{
    if s.len() == 0 {
        0
    } else if !is_space_char(s[0]) {
        0
    } else {
        1 + first_non_space(s.drop_first())
    }
}

pub proof fn lemma_first_non_space(s: Seq<char>)
    ensures
        0 <= first_non_space(s) <= s.len(),
        forall|k: int| 0 <= k < first_non_space(s) ==> is_space_char(s[k]),
        first_non_space(s) < s.len() ==> !is_space_char(s[first_non_space(s)]),
    decreases s.len(),
{
    if s.len() > 0 && is_space_char(s[0]) {
        lemma_first_non_space(s.drop_first());
        assert forall|k: int| 0 <= k < first_non_space(s) implies is_space_char(s[k]) by {
            if k > 0 {
                assert(s.drop_first()[k - 1] == s[k]);
            }
        }
    }
}

/// The maximal runs of non-whitespace characters of `s`, in order: what
/// `split_whitespace` yields, whitespace meaning the Unicode `White_Space`
/// class of [`is_space_char`].
pub open spec fn words_of(s: Seq<char>) -> Seq<Seq<char>>
    decreases s.len(),
    via words_of_decreases
{
    if s.len() == 0 {
        Seq::empty()
    } else if is_space_char(s[0]) {
        words_of(s.subrange(first_non_space(s), s.len() as int))
    } else {
        seq![s.subrange(0, first_space(s))] + words_of(s.subrange(first_space(s), s.len() as int))
    }
}

#[via_fn]
proof fn words_of_decreases(s: Seq<char>) {
    lemma_first_space(s);
    lemma_first_non_space(s);
}

/// The words of `s`, as character vectors.
pub fn split_words(chars: &Vec<char>) -> (words: Vec<Vec<char>>)
    ensures
        words@.map_values(|w: Vec<char>| w@) == words_of(chars@),
{
    let n = chars.len();
    let mut words: Vec<Vec<char>> = Vec::new();
    let mut i: usize = 0;
    proof {
        assert(chars@.subrange(0, n as int) =~= chars@);
        assert(words@.map_values(|w: Vec<char>| w@) =~= Seq::<Seq<char>>::empty());
    }
    while i < n
        invariant
            n == chars@.len(),
            i <= n,
            words@.map_values(|w: Vec<char>| w@) + words_of(chars@.subrange(i as int, n as int))
                =~= words_of(chars@),
        decreases n - i,
    {
        let ghost suffix = chars@.subrange(i as int, n as int);
        if is_space(chars[i]) {
            proof {
                lemma_first_non_space(suffix);
                assert(suffix.drop_first() =~= chars@.subrange(i + 1, n as int));
                assert(first_non_space(chars@.subrange(i + 1, n as int)) == first_non_space(suffix)
                    - 1);
                assert(suffix.subrange(first_non_space(suffix), suffix.len() as int)
                    =~= chars@.subrange(i + 1, n as int).subrange(
                    first_non_space(chars@.subrange(i + 1, n as int)),
                    n - i - 1,
                ));
            }
            i = i + 1;
        } else {
            let start = i;
            let mut word: Vec<char> = Vec::new();
            while i < n && !is_space(chars[i])
                invariant
                    n == chars@.len(),
                    start <= i <= n,
                    word@ =~= chars@.subrange(start as int, i as int),
                    forall|k: int| start <= k < i ==> !is_space_char(chars@[k]),
                decreases n - i,
            {
                word.push(chars[i]);
                i = i + 1;
            }
            proof {
                lemma_first_space(suffix);
                assert forall|k: int| 0 <= k < i - start implies !is_space_char(suffix[k]) by {
                    assert(suffix[k] == chars@[start + k]);
                }
                if i < n {
                    assert(suffix[i - start] == chars@[i as int]);
                }
                assert(first_space(suffix) == i - start);
                assert(word@ =~= suffix.subrange(0, first_space(suffix)));
                assert(suffix.subrange(first_space(suffix), suffix.len() as int) =~= chars@.subrange(
                    i as int,
                    n as int,
                ));
                let prev = words@.map_values(|w: Vec<char>| w@);
                assert((words@.push(word)).map_values(|w: Vec<char>| w@) =~= prev.push(word@));
                assert(prev.push(word@) + words_of(chars@.subrange(i as int, n as int)) =~= prev + (
                seq![word@] + words_of(chars@.subrange(i as int, n as int))));
            }
            words.push(word);
        }
    }
    proof {
        assert(chars@.subrange(n as int, n as int) =~= Seq::<char>::empty());
        assert(words_of(Seq::<char>::empty()) =~= Seq::<Seq<char>>::empty());
        assert(words@.map_values(|w: Vec<char>| w@) =~= words_of(chars@));
    }
    words
}

/// Index of the first line feed in `s`, or `s.len()` when there is none.
pub open spec fn find_newline(s: Seq<char>) -> int
    decreases s.len(),
{
    if s.len() == 0 {
        0
    } else if s[0] == '\n' {
        0
    } else {
        1 + find_newline(s.drop_first())
    }
}

pub proof fn lemma_find_newline(s: Seq<char>)
    ensures
        0 <= find_newline(s) <= s.len(),
        forall|k: int| 0 <= k < find_newline(s) ==> s[k] != '\n',
        find_newline(s) < s.len() ==> s[find_newline(s)] == '\n',
    decreases s.len(),
{
    if s.len() > 0 && s[0] != '\n' {
        lemma_find_newline(s.drop_first());
        assert forall|k: int| 0 <= k < find_newline(s) implies s[k] != '\n' by {
            if k > 0 {
                assert(s.drop_first()[k - 1] == s[k]);
            }
        }
    }
}

/// A line as `str::lines` yields it: the carriage return of a `\r\n` ending
/// is not part of the line.
pub open spec fn strip_cr(l: Seq<char>) -> Seq<char> {
    if l.len() > 0 && l.last() == '\r' {
        l.drop_last()
    } else {
        l
    }
}

/// The lines of `s`, split at line feeds, as `str::lines` yields them: a
/// `\r` before the line feed is stripped, a final line ending is optional,
/// and an empty text has no lines.
pub open spec fn lines_of(s: Seq<char>) -> Seq<Seq<char>>
    decreases s.len(),
    via lines_of_decreases
{
    if s.len() == 0 {
        Seq::empty()
    } else if find_newline(s) == s.len() {
        seq![s]
    } else {
        seq![strip_cr(s.subrange(0, find_newline(s)))] + lines_of(
            s.subrange(find_newline(s) + 1, s.len() as int),
        )
    }
}

#[via_fn]
proof fn lines_of_decreases(s: Seq<char>) {
    lemma_find_newline(s);
}

/// The lines of `chars`, as character vectors.
pub fn split_lines(chars: &Vec<char>) -> (lines: Vec<Vec<char>>)
    ensures
        lines@.map_values(|l: Vec<char>| l@) == lines_of(chars@),
{
    let n = chars.len();
    let mut lines: Vec<Vec<char>> = Vec::new();
    let mut i: usize = 0;
    proof {
        assert(chars@.subrange(0, n as int) =~= chars@);
        assert(lines@.map_values(|l: Vec<char>| l@) =~= Seq::<Seq<char>>::empty());
    }
    while i < n
        invariant
            n == chars@.len(),
            i <= n,
            lines@.map_values(|l: Vec<char>| l@) + lines_of(chars@.subrange(i as int, n as int))
                =~= lines_of(chars@),
        decreases n - i,
    {
        let ghost suffix = chars@.subrange(i as int, n as int);
        let start = i;
        let mut line: Vec<char> = Vec::new();
        while i < n && chars[i] != '\n'
            invariant
                n == chars@.len(),
                start <= i <= n,
                line@ =~= chars@.subrange(start as int, i as int),
                forall|k: int| start <= k < i ==> chars@[k] != '\n',
            decreases n - i,
        {
            line.push(chars[i]);
            i = i + 1;
        }
        proof {
            lemma_find_newline(suffix);
            assert forall|k: int| 0 <= k < i - start implies suffix[k] != '\n' by {
                assert(suffix[k] == chars@[start + k]);
            }
            if i < n {
                assert(suffix[i - start] == chars@[i as int]);
            }
            assert(find_newline(suffix) == i - start);
        }
        let ghost prev = lines@.map_values(|l: Vec<char>| l@);
        if i < n {
            // a line feed ends this line; strip a carriage return before it
            if line.len() > 0 && line[line.len() - 1] == '\r' {
                line.pop();
            }
            proof {
                assert(line@ =~= strip_cr(suffix.subrange(0, find_newline(suffix))));
                assert(suffix.subrange(find_newline(suffix) + 1, suffix.len() as int)
                    =~= chars@.subrange(i + 1, n as int));
                assert((lines@.push(line)).map_values(|l: Vec<char>| l@) =~= prev.push(line@));
                assert(prev.push(line@) + lines_of(chars@.subrange(i + 1, n as int)) =~= prev + (
                seq![line@] + lines_of(chars@.subrange(i + 1, n as int))));
            }
            lines.push(line);
            i = i + 1;
        } else {
            // the final line has no line ending and keeps any carriage return
            proof {
                assert(line@ =~= suffix);
                assert((lines@.push(line)).map_values(|l: Vec<char>| l@) =~= prev.push(line@));
                assert(lines_of(suffix) =~= seq![suffix]);
                assert(prev.push(suffix) =~= prev + seq![suffix]);
                assert(chars@.subrange(n as int, n as int) =~= Seq::<char>::empty());
                assert(prev.push(line@) + lines_of(chars@.subrange(n as int, n as int)) =~= prev
                    + lines_of(suffix));
            }
            lines.push(line);
        }
    }
    proof {
        assert(chars@.subrange(n as int, n as int) =~= Seq::<char>::empty());
        assert(lines@.map_values(|l: Vec<char>| l@) =~= lines_of(chars@));
    }
    lines
}

/// Index one past the last non-whitespace character of `s`, or zero when
/// `s` is all whitespace.
pub open spec fn trim_end_of(s: Seq<char>) -> int
    decreases s.len(),
{
    if s.len() == 0 {
        0
    } else if !is_space_char(s.last()) {
        s.len() as int
    } else {
        trim_end_of(s.drop_last())
    }
}

pub proof fn lemma_trim_end(s: Seq<char>)
    ensures
        0 <= trim_end_of(s) <= s.len(),
        forall|k: int| trim_end_of(s) <= k < s.len() ==> is_space_char(s[k]),
        trim_end_of(s) > 0 ==> !is_space_char(s[trim_end_of(s) - 1]),
    decreases s.len(),
{
    if s.len() > 0 && is_space_char(s.last()) {
        lemma_trim_end(s.drop_last());
        assert forall|k: int| trim_end_of(s) <= k < s.len() implies is_space_char(s[k]) by {
            if k < s.len() - 1 {
                assert(s.drop_last()[k] == s[k]);
            }
        }
    }
}

/// `s` with leading and trailing whitespace removed.
pub open spec fn trim_of(s: Seq<char>) -> Seq<char> {
    if trim_end_of(s) <= first_non_space(s) {
        Seq::empty()
    } else {
        s.subrange(first_non_space(s), trim_end_of(s))
    }
}

/// The trimmed copy of `v`.
pub fn trim_chars(v: &Vec<char>) -> (t: Vec<char>)
    ensures
        t@ == trim_of(v@),
{
    let n = v.len();
    let mut lo: usize = 0;
    while lo < n && is_space(v[lo])
        invariant
            n == v@.len(),
            lo <= n,
            forall|k: int| 0 <= k < lo ==> is_space_char(v@[k]),
        decreases n - lo,
    {
        lo = lo + 1;
    }
    let mut hi: usize = n;
    while hi > lo && is_space(v[hi - 1])
        invariant
            n == v@.len(),
            lo <= hi <= n,
            forall|k: int| hi <= k < n ==> is_space_char(v@[k]),
        decreases hi,
    {
        hi = hi - 1;
    }
    proof {
        lemma_first_non_space(v@);
        lemma_trim_end(v@);
        if lo < n {
            // lo is the first non-space index
            assert(first_non_space(v@) == lo);
        } else {
            assert(first_non_space(v@) == n);
        }
        if hi > lo {
            assert(!is_space_char(v@[hi - 1]));
            assert(trim_end_of(v@) == hi);
        }
    }
    let mut t: Vec<char> = Vec::new();
    let mut k: usize = lo;
    while k < hi
        invariant
            n == v@.len(),
            lo <= k <= hi <= n,
            t@ =~= v@.subrange(lo as int, k as int),
        decreases hi - k,
    {
        t.push(v[k]);
        k = k + 1;
    }
    proof {
        if hi > lo {
            assert(t@ =~= v@.subrange(first_non_space(v@), trim_end_of(v@)));
        } else {
            assert(t@ =~= Seq::<char>::empty());
            if trim_end_of(v@) > first_non_space(v@) {
                // impossible: the scans would have stopped apart
                assert(!is_space_char(v@[trim_end_of(v@) - 1]));
                assert(first_non_space(v@) == lo && lo >= hi);
                assert(trim_end_of(v@) - 1 >= lo);
                if lo < n {
                    assert(is_space_char(v@[trim_end_of(v@) - 1]));
                } else {
                    assert(trim_end_of(v@) <= n);
                }
            }
        }
    }
    t
}

/// The pieces joined with a single space between consecutive pieces.
pub open spec fn join_with_space(parts: Seq<Seq<char>>) -> Seq<char>
    decreases parts.len(),
{
    if parts.len() == 0 {
        Seq::empty()
    } else if parts.len() == 1 {
        parts[0]
    } else {
        join_with_space(parts.drop_last()) + seq![' '] + parts.last()
    }
}

/// Join character vectors with single spaces.
pub fn join_spaced(parts: &Vec<Vec<char>>) -> (out: Vec<char>)
    ensures
        out@ == join_with_space(parts@.map_values(|p: Vec<char>| p@)),
{
    let ghost spec_parts = parts@.map_values(|p: Vec<char>| p@);
    let mut out: Vec<char> = Vec::new();
    let m = parts.len();
    proof {
        assert(spec_parts.take(0) =~= Seq::<Seq<char>>::empty());
    }
    for i in 0..m
        invariant
            m == parts@.len(),
            spec_parts == parts@.map_values(|p: Vec<char>| p@),
            out@ == join_with_space(spec_parts.take(i as int)),
    {
        if i > 0 {
            out.push(' ');
        }
        let part = &parts[i];
        let plen = part.len();
        let ghost out_before = out@;
        for k in 0..plen
            invariant
                plen == part@.len(),
                out@ =~= out_before + part@.subrange(0, k as int),
        {
            out.push(part[k]);
        }
        proof {
            assert(out@ =~= out_before + part@);
            assert(spec_parts.take(i + 1).drop_last() =~= spec_parts.take(i as int));
            assert(spec_parts.take(i + 1).last() == spec_parts[i as int]);
            if i == 0 {
                assert(out@ =~= spec_parts[0]);
            }
        }
    }
    proof {
        assert(spec_parts.take(m as int) =~= spec_parts);
    }
    out
}

/// `needle` occurs in `hay` starting at index `i`.
pub open spec fn matches_at(hay: Seq<char>, needle: Seq<char>, i: int) -> bool {
    0 <= i && i + needle.len() <= hay.len() && hay.subrange(i, i + needle.len()) == needle
}

/// Index of the first occurrence of `needle` in `hay`, counted in
/// characters (where `str::find` counts bytes; the two agree on ASCII
/// text); an empty needle occurs at index zero.
pub open spec fn find_sub(hay: Seq<char>, needle: Seq<char>) -> Option<int>
    decreases hay.len(),
{
    if needle.len() > hay.len() {
        None
    } else if hay.subrange(0, needle.len() as int) == needle {
        Some(0)
    } else if hay.len() == 0 {
        None
    } else {
        match find_sub(hay.drop_first(), needle) {
            Some(j) => Some(j + 1),
            None => None,
        }
    }
}

pub proof fn lemma_find_sub(hay: Seq<char>, needle: Seq<char>)
    ensures
        find_sub(hay, needle) is Some ==> matches_at(hay, needle, find_sub(hay, needle)->0),
        find_sub(hay, needle) is Some ==> forall|k: int|
            0 <= k < find_sub(hay, needle)->0 ==> !matches_at(hay, needle, k),
        find_sub(hay, needle) is None ==> forall|k: int| !matches_at(hay, needle, k),
    decreases hay.len(),
{
    if needle.len() > hay.len() {
        assert(forall|k: int| !matches_at(hay, needle, k));
    } else if hay.subrange(0, needle.len() as int) == needle {
    } else {
        assert(!matches_at(hay, needle, 0));
        if hay.len() > 0 {
            lemma_find_sub(hay.drop_first(), needle);
            assert forall|k: int| 1 <= k implies (matches_at(hay, needle, k) == matches_at(
                hay.drop_first(),
                needle,
                k - 1,
            )) by {
                if 0 <= k - 1 && k - 1 + needle.len() <= hay.drop_first().len() {
                    assert(hay.subrange(k, k + needle.len()) =~= hay.drop_first().subrange(
                        k - 1,
                        k - 1 + needle.len(),
                    ));
                }
            }
        }
    }
}

/// First occurrence of `needle` in `hay`, by character index.
pub fn find_in(hay: &Vec<char>, needle: &Vec<char>) -> (r: Option<usize>)
    ensures
        match r {
            Some(i) => find_sub(hay@, needle@) == Some(i as int) && i + needle@.len()
                <= hay@.len(),
            None => find_sub(hay@, needle@) is None,
        },
{
    let hn = hay.len();
    let nn = needle.len();
    if nn > hn {
        proof {
            lemma_find_sub(hay@, needle@);
        }
        return None;
    }
    if nn == 0 {
        proof {
            assert(hay@.subrange(0, 0) =~= needle@);
        }
        return Some(0);
    }
    let mut i: usize = 0;
    while i <= hn - nn
        invariant
            hn == hay@.len(),
            nn == needle@.len(),
            1 <= nn <= hn,
            i <= hn - nn + 1,
            forall|k: int| 0 <= k < i ==> !matches_at(hay@, needle@, k),
        decreases hn - nn - i + 1,
    {
        let mut j: usize = 0;
        let mut ok = true;
        while j < nn
            invariant
                hn == hay@.len(),
                nn == needle@.len(),
                i + nn <= hn,
                j <= nn,
                ok ==> forall|t: int| 0 <= t < j ==> hay@[i + t] == needle@[t],
                !ok ==> !matches_at(hay@, needle@, i as int),
            decreases nn - j,
        {
            if hay[i + j] != needle[j] {
                proof {
                    if matches_at(hay@, needle@, i as int) {
                        assert(hay@.subrange(i as int, i + nn)[j as int] == needle@[j as int]);
                    }
                }
                ok = false;
                j = nn;
            } else {
                j = j + 1;
            }
        }
        if ok {
            proof {
                lemma_find_sub(hay@, needle@);
                assert(hay@.subrange(i as int, i + nn) =~= needle@);
                assert(matches_at(hay@, needle@, i as int));
                if find_sub(hay@, needle@) is None {
                    assert(false);
                }
                let fi = find_sub(hay@, needle@)->0;
                assert(fi == i);
            }
            return Some(i);
        }
        i = i + 1;
    }
    proof {
        lemma_find_sub(hay@, needle@);
        assert forall|k: int| !matches_at(hay@, needle@, k) by {
            if 0 <= k && k + nn <= hn {
                assert(k < i);
            }
        }
        if find_sub(hay@, needle@) is Some {
            let fi = find_sub(hay@, needle@)->0;
            assert(matches_at(hay@, needle@, fi));
        }
    }
    None
}

/// `c` is an ASCII decimal digit.
pub open spec fn is_digit(c: char) -> bool {
    '0' as int <= c as int && c as int <= '9' as int
}

/// Numeric value of a digit string, most significant digit first.
pub open spec fn digits_val(s: Seq<char>) -> int
    decreases s.len(),
{
    if s.len() == 0 {
        0
    } else {
        digits_val(s.drop_last()) * 10 + (s.last() as int - '0' as int)
    }
}

pub proof fn lemma_digits_val_nonneg(s: Seq<char>)
    requires
        forall|k: int| 0 <= k < s.len() ==> is_digit(s[k]),
    ensures
        digits_val(s) >= 0,
    decreases s.len(),
{
    if s.len() > 0 {
        lemma_digits_val_nonneg(s.drop_last());
    }
}

/// The digits of a numeral: everything after an optional leading plus sign.
pub open spec fn numeral_body(s: Seq<char>) -> Seq<char> {
    if s.len() > 0 && s[0] == '+' {
        s.drop_first()
    } else {
        s
    }
}

/// `s` parses as a `u32` the way `str::parse::<u32>` accepts it: an
/// optional leading plus sign, then at least one digit, with a value that
/// fits.
pub open spec fn u32_numeral(s: Seq<char>) -> bool {
    &&& numeral_body(s).len() > 0
    &&& (forall|k: int| 0 <= k < numeral_body(s).len() ==> is_digit(numeral_body(s)[k]))
    &&& digits_val(numeral_body(s)) <= u32::MAX as int
}

/// `dv` clamped one above the largest `u32`, the way the parsing
/// accumulator keeps it.
pub open spec fn capped_val(dv: int) -> int {
    if dv > u32::MAX as int {
        0x1_0000_0000
    } else {
        dv
    }
}

/// Does `v` parse as a `u32`?
pub fn parses_as_u32(v: &Vec<char>) -> (r: bool)
    ensures
        r == u32_numeral(v@),
{
    let n = v.len();
    let start: usize = if n > 0 && v[0] == '+' {
        1
    } else {
        0
    };
    let ghost body = numeral_body(v@);
    proof {
        assert(body =~= v@.subrange(start as int, n as int));
    }
    if start == n {
        return false;
    }
    // cap the accumulator one above u32::MAX: overflow past the cap stays
    // past the cap, so the final comparison is exact
    let cap: u64 = 0x1_0000_0000;
    let mut acc: u64 = 0;
    let mut i: usize = start;
    while i < n
        invariant
            n == v@.len(),
            start <= i <= n,
            start == if v@.len() > 0 && v@[0] == '+' {
                1int
            } else {
                0int
            },
            body == numeral_body(v@),
            body =~= v@.subrange(start as int, n as int),
            forall|k: int| start <= k < i ==> is_digit(v@[k]),
            acc == capped_val(digits_val(v@.subrange(start as int, i as int))),
        decreases n - i,
    {
        let c = v[i];
        if c < '0' || c > '9' {
            proof {
                assert(!is_digit(v@[i as int]));
                assert(body[i - start] == v@[i as int]);
                assert(0 <= i - start < body.len() && !is_digit(body[i - start]));
                assert(exists|k: int|
                    0 <= k < body.len() && !is_digit(#[trigger] body[k])) by {
                    assert(0 <= i - start < body.len() && !is_digit(body[i - start]));
                }
                assert(!u32_numeral(v@));
            }
            return false;
        }
        let d: u64 = (c as u8 - 48) as u64;
        proof {
            assert(is_digit(v@[i as int]));
            let prefix = v@.subrange(start as int, i as int);
            let prefix1 = v@.subrange(start as int, i + 1);
            assert(prefix1.drop_last() =~= prefix);
            assert(prefix1.last() == v@[i as int]);
            lemma_digits_val_nonneg(prefix);
        }
        if acc >= 0x1_0000_0000 {
            acc = 0x1_0000_0000;
        } else {
            acc = acc * 10 + d;
            if acc >= 0x1_0000_0000 {
                acc = 0x1_0000_0000;
            }
        }
        i = i + 1;
    }
    proof {
        assert(v@.subrange(start as int, n as int) =~= body);
        assert forall|k: int| 0 <= k < body.len() implies is_digit(body[k]) by {
            assert(body[k] == v@[start + k]);
        }
    }
    acc < cap
}

/// `hay` contains `needle` as a contiguous run.
pub open spec fn contains_sub(hay: Seq<char>, needle: Seq<char>) -> bool {
    find_sub(hay, needle) is Some
}

/// Element-wise equality of two character vectors.
pub fn eq_chars(a: &Vec<char>, b: &Vec<char>) -> (r: bool)
    ensures
        r == (a@ == b@),
{
    if a.len() != b.len() {
        return false;
    }
    let n = a.len();
    for i in 0..n
        invariant
            n == a@.len(),
            n == b@.len(),
            forall|k: int| 0 <= k < i ==> a@[k] == b@[k],
    {
        if a[i] != b[i] {
            return false;
        }
    }
    proof {
        assert(a@ =~= b@);
    }
    true
}

/// String equality by contents.
pub fn str_eq(a: &str, b: &str) -> (r: bool)
    ensures
        r == (a@ == b@),
{
    let av = chars_of(a);
    let bv = chars_of(b);
    eq_chars(&av, &bv)
}

/// Join the pieces with indices `from .. to` with single spaces.
pub fn join_range(parts: &Vec<Vec<char>>, from: usize, to: usize) -> (out: Vec<char>)
    requires
        from <= to <= parts@.len(),
    ensures
        out@ == join_with_space(parts@.map_values(|p: Vec<char>| p@).subrange(
            from as int,
            to as int,
        )),
{
    let ghost spec_parts = parts@.map_values(|p: Vec<char>| p@).subrange(from as int, to as int);
    let mut out: Vec<char> = Vec::new();
    proof {
        assert(spec_parts.take(0) =~= Seq::<Seq<char>>::empty());
    }
    let mut i: usize = from;
    while i < to
        invariant
            from <= i <= to <= parts@.len(),
            spec_parts == parts@.map_values(|p: Vec<char>| p@).subrange(from as int, to as int),
            out@ == join_with_space(spec_parts.take(i - from)),
        decreases to - i,
    {
        if i > from {
            out.push(' ');
        }
        let part = &parts[i];
        let plen = part.len();
        let ghost out_before = out@;
        for k in 0..plen
            invariant
                plen == part@.len(),
                out@ =~= out_before + part@.subrange(0, k as int),
        {
            out.push(part[k]);
        }
        proof {
            assert(out@ =~= out_before + part@);
            assert(spec_parts.take(i - from + 1).drop_last() =~= spec_parts.take(i - from));
            assert(spec_parts.take(i - from + 1).last() == spec_parts[i - from]);
            assert(spec_parts[i - from] == part@);
            if i == from {
                assert(out@ =~= spec_parts[0]);
            }
        }
        i = i + 1;
    }
    proof {
        assert(spec_parts.take(to - from) =~= spec_parts);
    }
    out
}

} // verus!
