use vstd::prelude::*;

verus! {

/// The characters of `s`, in order, as a vector.
pub fn chars_of(s: &str) -> (res: Vec<char>)
    ensures
        res@ == s@,
{
    let mut res: Vec<char> = Vec::new();
    for c in it: s.chars()
        invariant
            res@ == it.seq().take(it.index() as int),
            it.seq() == s@,
    {
        res.push(c);
    }
    res
}

/// Appends one character to a string (`String::push`).
#[verifier::external_body]
pub(crate) fn push_char(s: &mut String, c: char)
    ensures
        final(s)@ == old(s)@.push(c),
{
    s.push(c);
}

/// The string made of the characters of `v`.
pub fn string_of(v: &Vec<char>) -> (res: String)
    ensures
        res@ == v@,
{
    let mut res = String::new();
    for i in 0..v.len()
        invariant
            res@ == v@.take(i as int),
    {
        push_char(&mut res, v[i]);
        assert(v@.take(i + 1) == v@.take(i as int).push(v@[i as int]));
    }
    assert(v@.take(v.len() as int) == v@);
    res
}

/// Appends all of `add` to `out`.
pub fn push_all(out: &mut Vec<char>, add: &Vec<char>)
    ensures
        final(out)@ == old(out)@ + add@,
{
    let ghost start = out@;
    for i in 0..add.len()
        invariant
            out@ == start + add@.take(i as int),
    {
        out.push(add[i]);
        assert(add@.take(i + 1) == add@.take(i as int).push(add@[i as int]));
    }
    assert(add@.take(add.len() as int) == add@);
}

/// `pat` occurs in `s` starting at position `i`.
pub open spec fn occurs_at(s: Seq<char>, i: int, pat: Seq<char>) -> bool {
    0 <= i && i + pat.len() <= s.len() && s.subrange(i, i + pat.len()) == pat
}

/// `pat` occurs somewhere in `s`.
pub open spec fn contains_seq(s: Seq<char>, pat: Seq<char>) -> bool {
    exists|i: int| occurs_at(s, i, pat)
}

/// Whether `pat` occurs in `s` at position `i`.
pub fn matches_at(s: &Vec<char>, i: usize, pat: &Vec<char>) -> (res: bool)
    ensures
        res == occurs_at(s@, i as int, pat@),
{
    if i > s.len() || pat.len() > s.len() - i {
        return false;
    }
    let mut k: usize = 0;
    while k < pat.len()
        invariant
            k <= pat.len(),
            i + pat.len() <= s.len(),
            forall|j: int| 0 <= j < k ==> s@[i + j] == pat@[j],
        decreases pat.len() - k,
    {
        if s[i + k] != pat[k] {
            assert(s@.subrange(i as int, i + pat.len())[k as int] != pat@[k as int]);
            return false;
        }
        k += 1;
    }
    assert(s@.subrange(i as int, i + pat.len()) == pat@);
    true
}

/// `s` with every occurrence of `pat` replaced by `rep`, scanning from the
/// left and never letting two replaced occurrences overlap (the behaviour of
/// `str::replace` for a non-empty pattern).
pub open spec fn replace_all(s: Seq<char>, pat: Seq<char>, rep: Seq<char>) -> Seq<char>
    decreases s.len(),
{
    if pat.len() == 0 || s.len() == 0 {
        s
    } else if s.len() >= pat.len() && s.take(pat.len() as int) == pat {
        rep + replace_all(s.skip(pat.len() as int), pat, rep)
    } else {
        seq![s[0]] + replace_all(s.skip(1), pat, rep)
    }
}

/// `s` with every occurrence of the non-empty `pat` replaced by `rep`.
pub fn replace_chars(s: &Vec<char>, pat: &Vec<char>, rep: &Vec<char>) -> (res: Vec<char>)
    requires
        pat@.len() > 0,
    ensures
        res@ == replace_all(s@, pat@, rep@),
{
    let mut out: Vec<char> = Vec::new();
    let mut i: usize = 0;
    assert(s@.skip(0) == s@);
    while i < s.len()
        invariant
            i <= s.len(),
            pat@.len() > 0,
            out@ + replace_all(s@.skip(i as int), pat@, rep@) == replace_all(s@, pat@, rep@),
        decreases s.len() - i,
    {
        let ghost rest = s@.skip(i as int);
        if matches_at(s, i, pat) {
            assert(rest.take(pat@.len() as int) == s@.subrange(i as int, i + pat@.len()));
            assert(rest.skip(pat@.len() as int) == s@.skip(i + pat@.len()));
            push_all(&mut out, rep);
            i = i + pat.len();
            assert(out@ + replace_all(s@.skip(i as int), pat@, rep@) == replace_all(s@, pat@, rep@));
        } else {
            assert(rest.len() >= pat@.len() ==> rest.take(pat@.len() as int) == s@.subrange(i as int, i + pat@.len()));
            assert(rest.skip(1) == s@.skip(i + 1));
            out.push(s[i]);
            i = i + 1;
            assert(out@ + replace_all(s@.skip(i as int), pat@, rep@) == replace_all(s@, pat@, rep@));
        }
    }
    assert(s@.skip(i as int).len() == 0);
    assert(out@ + replace_all(s@.skip(i as int), pat@, rep@) == out@);
    out
}

/// `s` with every occurrence of the non-empty `pat` replaced by `rep`.
pub fn replace_str(s: &str, pat: &str, rep: &str) -> (res: String)
    requires
        pat@.len() > 0,
    ensures
        res@ == replace_all(s@, pat@, rep@),
{
    let v = chars_of(s);
    let p = chars_of(pat);
    let r = chars_of(rep);
    let out = replace_chars(&v, &p, &r);
    string_of(&out)
}

} // verus!

verus! {

/// What `char::is_alphabetic` returns for `c` (the Unicode `Alphabetic` property).
pub uninterp spec fn is_alphabetic(c: char) -> bool;

/// `char::is_alphabetic`: whether `c` has the Unicode `Alphabetic` property.
/// The contract only names the result; the Unicode tables are not restated.
#[verifier::external_body]
pub(crate) fn char_is_alphabetic(c: char) -> (res: bool)
    ensures
        res == is_alphabetic(c),
{
    c.is_alphabetic()
}

} // verus!

verus! {

/// No occurrence of `p` can be made by putting `r` next to other text:
/// `p` is not inside `r` nor `r` inside `p`, and no proper piece at one end
/// of `p` matches the piece of `r` at the other end.
pub open spec fn straddle_free(p: Seq<char>, r: Seq<char>) -> bool {
    &&& r.len() > 0
    &&& !contains_seq(r, p)
    &&& !contains_seq(p, r)
    &&& forall|j: int| 0 < j < p.len() && j <= r.len() ==> #[trigger] p.take(j) != r.skip(r.len() - j)
    &&& forall|j: int| 0 < j < p.len() && j <= r.len() ==> #[trigger] p.skip(p.len() - j) != r.take(j)
}

/// If the result of a replacement starts with the tail `p.skip(m)` of `p`,
/// then so did the text it was made from.
pub proof fn lemma_replace_prefix(t: Seq<char>, q: Seq<char>, r: Seq<char>, p: Seq<char>, m: int)
    requires
        q.len() > 0,
        p.len() > 0,
        straddle_free(p, r),
        1 <= m <= p.len(),
        replace_all(t, q, r).len() >= p.len() - m,
        replace_all(t, q, r).take(p.len() - m) == p.skip(m),
    ensures
        t.len() >= p.len() - m,
        t.take(p.len() - m) == p.skip(m),
    decreases t.len(),
{
    let n = p.len() - m;
    let big = replace_all(t, q, r);
    if n == 0 {
        assert(t.take(0) == p.skip(m));
    } else if t.len() == 0 {
    } else if t.len() >= q.len() && t.take(q.len() as int) == q {
        let rest = t.skip(q.len() as int);
        assert(big == r + replace_all(rest, q, r));
        if n <= r.len() {
            assert(big.take(n) == r.take(n));
            assert(p.skip(p.len() - n) == p.skip(m));
        } else {
            assert(big.take(n).take(r.len() as int) == r);
            assert(p.subrange(m, m + r.len()) == r) by {
                assert forall|i: int| 0 <= i < r.len() implies p.subrange(m, m + r.len())[i] == r[i] by {
                    assert(p.skip(m)[i] == p[m + i]);
                    assert(big.take(n)[i] == r[i]);
                }
            }
            assert(occurs_at(p, m, r));
        }
    } else {
        let rest = t.skip(1);
        let small = replace_all(rest, q, r);
        assert(big == seq![t[0]] + small);
        assert(small.take(p.len() - (m + 1)) == p.skip(m + 1)) by {
            assert forall|i: int| 0 <= i < p.len() - (m + 1) implies #[trigger] small.take(p.len() - (m + 1))[i] == p.skip(m + 1)[i] by {
                assert(big.take(n)[i + 1] == small[i]);
                assert(p.skip(m)[i + 1] == p[m + 1 + i]);
            }
        }
        lemma_replace_prefix(rest, q, r, p, m + 1);
        assert(big.take(n)[0] == t[0]);
        assert(t.take(n) == p.skip(m)) by {
            assert forall|i: int| 0 <= i < n implies t.take(n)[i] == p.skip(m)[i] by {
                if i > 0 {
                    assert(rest.take(n - 1)[i - 1] == t[i]);
                    assert(p.skip(m + 1)[i - 1] == p[m + i]);
                }
            }
        }
    }
}

/// Replacing `q` by a straddle-free `r` makes no new occurrence of `p`; and
/// when `q` is `p` itself, the result has no occurrence of `p` at all.
pub proof fn lemma_replace_no_occurrence(s: Seq<char>, q: Seq<char>, r: Seq<char>, p: Seq<char>)
    requires
        q.len() > 0,
        p.len() > 0,
        straddle_free(p, r),
        q == p || !contains_seq(s, p),
    ensures
        !contains_seq(replace_all(s, q, r), p),
    decreases s.len(),
{
    let big = replace_all(s, q, r);
    if s.len() == 0 {
        assert(big.len() == 0);
    } else if s.len() >= q.len() && s.take(q.len() as int) == q {
        let rest = s.skip(q.len() as int);
        if q != p {
            assert forall|i: int| !occurs_at(rest, i, p) by {
                if occurs_at(rest, i, p) {
                    assert(s.subrange(i + q.len(), i + q.len() + p.len()) == rest.subrange(i, i + p.len()));
                    assert(occurs_at(s, i + q.len(), p));
                }
            }
        }
        lemma_replace_no_occurrence(rest, q, r, p);
        let small = replace_all(rest, q, r);
        assert(big == r + small);
        assert forall|k: int| !occurs_at(big, k, p) by {
            if occurs_at(big, k, p) {
                if k >= r.len() {
                    assert(big.subrange(k, k + p.len()) == small.subrange(k - r.len(), k - r.len() + p.len()));
                    assert(occurs_at(small, k - r.len(), p));
                } else if k + p.len() <= r.len() {
                    assert(big.subrange(k, k + p.len()) == r.subrange(k, k + p.len()));
                    assert(occurs_at(r, k, p));
                } else {
                    let j = r.len() - k;
                    assert(p.take(j) == r.skip(r.len() - j)) by {
                        assert forall|i: int| 0 <= i < j implies p.take(j)[i] == r.skip(r.len() - j)[i] by {
                            assert(big.subrange(k, k + p.len())[i] == big[k + i]);
                            assert(big[k + i] == r[k + i]);
                        }
                    }
                }
            }
        }
    } else {
        let rest = s.skip(1);
        if q != p {
            assert forall|i: int| !occurs_at(rest, i, p) by {
                if occurs_at(rest, i, p) {
                    assert(s.subrange(i + 1, i + 1 + p.len()) == rest.subrange(i, i + p.len()));
                    assert(occurs_at(s, i + 1, p));
                }
            }
        }
        lemma_replace_no_occurrence(rest, q, r, p);
        let small = replace_all(rest, q, r);
        assert(big == seq![s[0]] + small);
        assert forall|k: int| !occurs_at(big, k, p) by {
            if occurs_at(big, k, p) {
                if k >= 1 {
                    assert(big.subrange(k, k + p.len()) == small.subrange(k - 1, k - 1 + p.len()));
                    assert(occurs_at(small, k - 1, p));
                } else {
                    assert(small.take(p.len() - 1) == p.skip(1)) by {
                        assert forall|i: int| 0 <= i < p.len() - 1 implies small.take(p.len() - 1)[i] == p.skip(1)[i] by {
                            assert(big.subrange(0, p.len() as int)[i + 1] == big[i + 1]);
                            assert(big[i + 1] == small[i]);
                        }
                    }
                    lemma_replace_prefix(rest, q, r, p, 1);
                    assert(s.take(p.len() as int) == p) by {
                        assert forall|i: int| 0 <= i < p.len() implies s.take(p.len() as int)[i] == p[i] by {
                            if i == 0 {
                                assert(big.subrange(0, p.len() as int)[0] == big[0]);
                            } else {
                                assert(rest.take(p.len() - 1)[i - 1] == s[i]);
                                assert(p.skip(1)[i - 1] == p[i]);
                            }
                        }
                    }
                    assert(occurs_at(s, 0, p));
                }
            }
        }
    }
}

} // verus!

verus! {

/// A replacement text that shares no character with `p` is straddle-free.
pub proof fn lemma_straddle_free_disjoint(p: Seq<char>, r: Seq<char>)
    requires
        p.len() > 0,
        r.len() > 0,
        forall|i: int| 0 <= i < r.len() ==> !p.contains(#[trigger] r[i]),
    ensures
        straddle_free(p, r),
{
    assert forall|i: int| !occurs_at(r, i, p) by {
        if occurs_at(r, i, p) {
            assert(r.subrange(i, i + p.len())[0] == r[i]);
            assert(p[0] == r[i]);
        }
    }
    assert forall|i: int| !occurs_at(p, i, r) by {
        if occurs_at(p, i, r) {
            assert(p.subrange(i, i + r.len())[0] == p[i]);
            assert(p.contains(r[0]));
        }
    }
    assert forall|j: int| 0 < j < p.len() && j <= r.len() implies #[trigger] p.take(j) != r.skip(r.len() - j) by {
        assert(r.skip(r.len() - j)[0] == r[r.len() - j]);
        assert(p.take(j)[0] == p[0]);
        assert(!p.contains(r[r.len() - j]));
    }
    assert forall|j: int| 0 < j < p.len() && j <= r.len() implies #[trigger] p.skip(p.len() - j) != r.take(j) by {
        assert(r.take(j)[0] == r[0]);
        assert(p.skip(p.len() - j)[0] == p[p.len() - j]);
        assert(!p.contains(r[0]));
    }
}

} // verus!

verus! {

/// Whether two strings hold the same characters.
pub fn eq_str(a: &str, b: &str) -> (res: bool)
    ensures
        res == (a@ == b@),
{
    let x = chars_of(a);
    let y = chars_of(b);
    if x.len() != y.len() {
        return false;
    }
    let mut i: usize = 0;
    while i < x.len()
        invariant
            i <= x.len(),
            x.len() == y.len(),
            x@ == a@,
            y@ == b@,
            forall|j: int| 0 <= j < i ==> x@[j] == y@[j],
        decreases x.len() - i,
    {
        if x[i] != y[i] {
            assert(x@[i as int] != y@[i as int]);
            return false;
        }
        i += 1;
    }
    assert(x@ == y@);
    true
}

} // verus!

verus! {

/// A character with the Unicode `White_Space` property (what
/// `char::is_whitespace` tests): U+0009–U+000D, space, NEL, no-break space,
/// U+1680, U+2000–U+200A, the line and paragraph separators, U+202F, U+205F
/// and U+3000.
pub open spec fn is_white_space(c: char) -> bool {
    ('\u{0009}' <= c && c <= '\u{000D}') || c == ' ' || c == '\u{0085}' || c == '\u{00A0}' || c == '\u{1680}'
        || ('\u{2000}' <= c && c <= '\u{200A}') || c == '\u{2028}' || c == '\u{2029}' || c == '\u{202F}'
        || c == '\u{205F}' || c == '\u{3000}'
}

/// Whether `c` is white space (`is_white_space`).
pub fn char_is_whitespace(c: char) -> (res: bool)
    ensures
        res == is_white_space(c),
{
    ('\u{0009}' <= c && c <= '\u{000D}') || c == ' ' || c == '\u{0085}' || c == '\u{00A0}' || c == '\u{1680}'
        || ('\u{2000}' <= c && c <= '\u{200A}') || c == '\u{2028}' || c == '\u{2029}' || c == '\u{202F}'
        || c == '\u{205F}' || c == '\u{3000}'
}

/// Number of leading characters of `s` that satisfy `is_white_space`.
pub open spec fn leading_ws(s: Seq<char>) -> nat
    decreases s.len(),
{
    if s.len() > 0 && is_white_space(s[0]) {
        1 + leading_ws(s.drop_first())
    } else {
        0
    }
}

/// Number of trailing characters of `s` that satisfy `is_white_space`.
pub open spec fn trailing_ws(s: Seq<char>) -> nat
    decreases s.len(),
{
    if s.len() > 0 && is_white_space(s.last()) {
        1 + trailing_ws(s.drop_last())
    } else {
        0
    }
}

/// `s` without leading and trailing whitespace (what `str::trim` returns).
pub open spec fn trim_text(s: Seq<char>) -> Seq<char> {
    let front = s.skip(leading_ws(s) as int);
    front.take(front.len() - trailing_ws(front))
}

proof fn lemma_leading_ws_bound(s: Seq<char>)
    ensures
        leading_ws(s) <= s.len(),
    decreases s.len(),
{
    if s.len() > 0 && is_white_space(s[0]) {
        lemma_leading_ws_bound(s.drop_first());
    }
}

proof fn lemma_trailing_ws_bound(s: Seq<char>)
    ensures
        trailing_ws(s) <= s.len(),
    decreases s.len(),
{
    if s.len() > 0 && is_white_space(s.last()) {
        lemma_trailing_ws_bound(s.drop_last());
    }
}

/// Index of the first character at or after `i` that is not whitespace.
fn skip_ws_forward(v: &Vec<char>, i: usize) -> (res: usize)
    requires
        i <= v.len(),
    ensures
        i <= res <= v.len(),
        leading_ws(v@.skip(i as int)) == res - i,
    decreases v.len() - i,
{
    if i < v.len() && char_is_whitespace(v[i]) {
        assert(v@.skip(i as int).drop_first() == v@.skip(i + 1));
        skip_ws_forward(v, i + 1)
    } else {
        i
    }
}

/// Index just past the last character before `j` that is not whitespace.
fn skip_ws_backward(v: &Vec<char>, lo: usize, j: usize) -> (res: usize)
    requires
        lo <= j <= v.len(),
    ensures
        lo <= res <= j,
        trailing_ws(v@.subrange(lo as int, j as int)) == j - res,
    decreases j - lo,
{
    if j > lo && char_is_whitespace(v[j - 1]) {
        assert(v@.subrange(lo as int, j as int).drop_last() == v@.subrange(lo as int, j - 1));
        skip_ws_backward(v, lo, j - 1)
    } else {
        proof {
            i_am_last(v@, lo as int, j as int);
        }
        j
    }
}

proof fn i_am_last(s: Seq<char>, lo: int, j: int)
    requires
        0 <= lo <= j <= s.len(),
    ensures
        j > lo ==> s.subrange(lo, j).last() == s[j - 1],
{
}

/// `s` without leading and trailing whitespace (`str::trim`).
pub fn trim_chars(v: &Vec<char>) -> (res: Vec<char>)
    ensures
        res@ == trim_text(v@),
{
    let start = skip_ws_forward(v, 0);
    assert(v@.skip(0) == v@);
    let end = skip_ws_backward(v, start, v.len());
    assert(v@.subrange(start as int, v.len() as int) == v@.skip(start as int));
    let mut out: Vec<char> = Vec::new();
    let mut k = start;
    while k < end
        invariant
            start <= k <= end,
            end <= v.len(),
            out@ == v@.subrange(start as int, k as int),
        decreases end - k,
    {
        out.push(v[k]);
        k += 1;
    }
    let ghost front = v@.skip(start as int);
    assert(out@ == front.take(front.len() - trailing_ws(front)));
    out
}

/// `s` without leading and trailing whitespace (`str::trim`).
pub fn trim_str(s: &str) -> (res: String)
    ensures
        res@ == trim_text(s@),
{
    let v = chars_of(s);
    string_of(&trim_chars(&v))
}

/// The pieces of `s` between occurrences of `sep`, empty pieces included
/// (what `str::split` with a character yields); `s` with no `sep` is one piece.
pub open spec fn split_text(s: Seq<char>, sep: char) -> Seq<Seq<char>>
    decreases s.len(),
{
    if s.len() == 0 {
        seq![Seq::<char>::empty()]
    } else {
        let init = split_text(s.drop_last(), sep);
        if s.last() == sep {
            init.push(Seq::<char>::empty())
        } else {
            init.update(init.len() - 1, init.last().push(s.last()))
        }
    }
}

pub proof fn lemma_split_nonempty(s: Seq<char>, sep: char)
    ensures
        split_text(s, sep).len() >= 1,
    decreases s.len(),
{
    if s.len() > 0 {
        lemma_split_nonempty(s.drop_last(), sep);
    }
}

/// The pieces of `v` between occurrences of `sep`.
pub fn split_chars(v: &Vec<char>, sep: char) -> (res: Vec<Vec<char>>)
    ensures
        res@.len() == split_text(v@, sep).len(),
        forall|i: int| 0 <= i < res@.len() ==> #[trigger] res@[i]@ == split_text(v@, sep)[i],
{
    let mut done: Vec<Vec<char>> = Vec::new();
    let mut cur: Vec<char> = Vec::new();
    let mut i: usize = 0;
    assert(v@.take(0) == Seq::<char>::empty());
    while i < v.len()
        invariant
            i <= v.len(),
            done@.len() + 1 == split_text(v@.take(i as int), sep).len(),
            forall|k: int| 0 <= k < done@.len() ==> #[trigger] done@[k]@ == split_text(v@.take(i as int), sep)[k],
            cur@ == split_text(v@.take(i as int), sep).last(),
        decreases v.len() - i,
    {
        let ghost before = split_text(v@.take(i as int), sep);
        assert(v@.take(i + 1).drop_last() == v@.take(i as int));
        assert(v@.take(i + 1).last() == v@[i as int]);
        if v[i] == sep {
            let piece = cur;
            done.push(piece);
            cur = Vec::new();
        } else {
            cur.push(v[i]);
        }
        i += 1;
        proof {
            let after = split_text(v@.take(i as int), sep);
            assert forall|k: int| 0 <= k < done@.len() implies #[trigger] done@[k]@ == after[k] by {
                if k < before.len() - 1 {
                    assert(after[k] == before[k]);
                }
            }
        }
    }
    assert(v@.take(v.len() as int) == v@);
    done.push(cur);
    proof {
        let all = split_text(v@, sep);
        assert forall|k: int| 0 <= k < done@.len() implies #[trigger] done@[k]@ == all[k] by {
        }
    }
    done
}

} // verus!

verus! {

/// What `str::to_lowercase` returns for `s` (Unicode lowercase mapping).
pub uninterp spec fn lowercase(s: Seq<char>) -> Seq<char>;

/// `str::to_lowercase`: the lowercase equivalent of `s` under the Unicode
/// rules. The contract only names the result; the mapping is not restated.
#[verifier::external_body]
pub(crate) fn to_lowercase(s: &str) -> (res: String)
    ensures
        res@ == lowercase(s@),
{
    s.to_lowercase()
}

/// What `char::is_alphanumeric` returns for `c` (Unicode `Alphabetic` or `Numeric`).
pub uninterp spec fn is_alphanumeric(c: char) -> bool;

/// `char::is_alphanumeric`: whether `c` is alphabetic or numeric under the
/// Unicode rules. The contract only names the result.
#[verifier::external_body]
pub(crate) fn char_is_alphanumeric(c: char) -> (res: bool)
    ensures
        res == is_alphanumeric(c),
{
    c.is_alphanumeric()
}

/// `char::is_ascii_punctuation`: one of ``!"#$%&'()*+,-./:;<=>?@[\]^_`{|}~``.
pub open spec fn is_ascii_punctuation(c: char) -> bool {
    ('!' <= c && c <= '/') || (':' <= c && c <= '@') || ('[' <= c && c <= '`') || ('{' <= c && c <= '~')
}

/// Whether `c` is ASCII punctuation.
pub fn ascii_punctuation(c: char) -> (res: bool)
    ensures
        res == is_ascii_punctuation(c),
{
    ('!' <= c && c <= '/') || (':' <= c && c <= '@') || ('[' <= c && c <= '`') || ('{' <= c && c <= '~')
}

/// `char::is_ascii_digit`: one of `0` to `9`.
pub open spec fn is_ascii_digit(c: char) -> bool {
    '0' <= c && c <= '9'
}

/// The decimal digit for `d` (below ten).
pub open spec fn digit_char(d: nat) -> char {
    if d == 0 { '0' }
    else if d == 1 { '1' }
    else if d == 2 { '2' }
    else if d == 3 { '3' }
    else if d == 4 { '4' }
    else if d == 5 { '5' }
    else if d == 6 { '6' }
    else if d == 7 { '7' }
    else if d == 8 { '8' }
    else { '9' }
}

/// The decimal notation of `n`, without leading zeros (how `{}` shows an integer).
pub open spec fn decimal_text(n: nat) -> Seq<char>
    decreases n,
{
    if n < 10 {
        seq![digit_char(n)]
    } else {
        decimal_text(n / 10).push(digit_char(n % 10))
    }
}

fn digit_of(d: u64) -> (c: char)
    requires
        d < 10,
    ensures
        c == digit_char(d as nat),
{
    if d == 0 { '0' }
    else if d == 1 { '1' }
    else if d == 2 { '2' }
    else if d == 3 { '3' }
    else if d == 4 { '4' }
    else if d == 5 { '5' }
    else if d == 6 { '6' }
    else if d == 7 { '7' }
    else if d == 8 { '8' }
    else { '9' }
}

/// The decimal notation of `n`.
pub fn decimal_chars(n: u64) -> (res: Vec<char>)
    ensures
        res@ == decimal_text(n as nat),
    decreases n,
{
    if n < 10 {
        let mut v: Vec<char> = Vec::new();
        v.push(digit_of(n));
        v
    } else {
        let mut v = decimal_chars(n / 10);
        v.push(digit_of(n % 10));
        v
    }
}

/// The decimal notation of `n`.
pub fn decimal_string(n: u64) -> (res: String)
    ensures
        res@ == decimal_text(n as nat),
{
    string_of(&decimal_chars(n))
}

/// Position of the first `c` in `s`, if any.
pub open spec fn first_index(s: Seq<char>, c: char) -> Option<int> {
    if s.contains(c) {
        Some(choose|i: int| 0 <= i < s.len() && s[i] == c && forall|j: int| 0 <= j < i ==> s[j] != c)
    } else {
        None
    }
}

/// Position of the last `c` in `s`, if any.
pub open spec fn last_index(s: Seq<char>, c: char) -> Option<int> {
    if s.contains(c) {
        Some(choose|i: int| 0 <= i < s.len() && s[i] == c && forall|j: int| i < j < s.len() ==> s[j] != c)
    } else {
        None
    }
}

/// Position of the first `c` in `v` (`str::find` counted in characters).
pub fn find_char(v: &Vec<char>, c: char) -> (res: Option<usize>)
    ensures
        match res {
            Some(i) => i < v@.len() && first_index(v@, c) == Some(i as int),
            None => first_index(v@, c) is None,
        },
{
    for i in 0..v.len()
        invariant
            forall|j: int| 0 <= j < i ==> v@[j] != c,
    {
        if v[i] == c {
            proof {
                assert(v@.contains(c));
                let k = choose|k: int| 0 <= k < v@.len() && v@[k] == c && forall|j: int| 0 <= j < k ==> v@[j] != c;
                if k < i {
                } else if k > i {
                    assert(v@[i as int] == c);
                }
            }
            return Some(i);
        }
    }
    None
}

/// Position of the last `c` in `v` (`str::rfind` counted in characters).
pub fn rfind_char(v: &Vec<char>, c: char) -> (res: Option<usize>)
    ensures
        match res {
            Some(i) => i < v@.len() && last_index(v@, c) == Some(i as int),
            None => last_index(v@, c) is None,
        },
{
    let mut i = v.len();
    while i > 0
        invariant
            i <= v.len(),
            forall|j: int| i <= j < v@.len() ==> v@[j] != c,
        decreases i,
    {
        i -= 1;
        if v[i] == c {
            proof {
                assert(v@.contains(c));
                let k = choose|k: int| 0 <= k < v@.len() && v@[k] == c && forall|j: int| k < j < v@.len() ==> v@[j] != c;
                if k < i {
                    assert(v@[i as int] == c);
                } else if k > i {
                }
            }
            return Some(i);
        }
    }
    None
}

/// The characters of `v` from `lo` up to (not including) `hi`.
pub fn slice_chars(v: &Vec<char>, lo: usize, hi: usize) -> (res: Vec<char>)
    requires
        lo <= hi <= v.len(),
    ensures
        res@ == v@.subrange(lo as int, hi as int),
{
    let mut out: Vec<char> = Vec::new();
    let mut k = lo;
    while k < hi
        invariant
            lo <= k <= hi,
            hi <= v.len(),
            out@ == v@.subrange(lo as int, k as int),
        decreases hi - k,
    {
        out.push(v[k]);
        k += 1;
    }
    out
}

} // verus!

verus! {

/// Whether `pat` occurs in `v`.
pub fn contains_chars(v: &Vec<char>, pat: &Vec<char>) -> (res: bool)
    ensures
        res == contains_seq(v@, pat@),
{
    if pat.len() == 0 {
        assert(v@.subrange(0, 0) == pat@);
        assert(occurs_at(v@, 0, pat@));
        return true;
    }
    for i in 0..v.len()
        invariant
            pat@.len() > 0,
            forall|j: int| 0 <= j < i ==> !occurs_at(v@, j, pat@),
    {
        if matches_at(v, i, pat) {
            return true;
        }
    }
    false
}

/// The texts joined with `sep` between them.
pub open spec fn join_texts(items: Seq<Seq<char>>, sep: Seq<char>) -> Seq<char>
    decreases items.len(),
{
    if items.len() == 0 {
        seq![]
    } else if items.len() == 1 {
        items[0]
    } else {
        join_texts(items.drop_last(), sep) + sep + items.last()
    }
}

/// Joins the texts of `items` with `sep` between them.
pub fn join_strings(items: &Vec<String>, sep: &str) -> (res: String)
    ensures
        res@ == join_texts(items@.map_values(|s: String| s@), sep@),
{
    let ghost all = items@.map_values(|s: String| s@);
    let mut out = String::new();
    for i in 0..items.len()
        invariant
            all == items@.map_values(|s: String| s@),
            out@ == join_texts(all.take(i as int), sep@),
    {
        assert(all.take(i + 1).drop_last() == all.take(i as int));
        assert(all.take(i + 1).last() == items@[i as int]@);
        if i > 0 {
            out.append(sep);
        } else {
            assert(all.take(0).len() == 0);
        }
        out.append(items[i].as_str());
    }
    assert(all.take(items.len() as int) == all);
    out
}

/// The non-empty texts of `items`, in order.
pub open spec fn nonempty_texts(items: Seq<Seq<char>>) -> Seq<Seq<char>>
    decreases items.len(),
{
    if items.len() == 0 {
        seq![]
    } else if items.last().len() == 0 {
        nonempty_texts(items.drop_last())
    } else {
        nonempty_texts(items.drop_last()).push(items.last())
    }
}

/// The number of bytes `c` takes in UTF-8 (`char::len_utf8`).
pub open spec fn utf8_len(c: char) -> nat {
    if (c as u32) < 0x80 {
        1
    } else if (c as u32) < 0x800 {
        2
    } else if (c as u32) < 0x10000 {
        3
    } else {
        4
    }
}

/// The number of bytes `s` takes in UTF-8 (`str::len`).
pub open spec fn utf8_bytes(s: Seq<char>) -> nat
    decreases s.len(),
{
    if s.len() == 0 {
        0
    } else {
        utf8_len(s[0]) + utf8_bytes(s.drop_first())
    }
}

/// The UTF-8 length of a text grows by the length of an appended character.
pub proof fn lemma_utf8_bytes_push(s: Seq<char>, c: char)
    ensures
        utf8_bytes(s.push(c)) == utf8_bytes(s) + utf8_len(c),
    decreases s.len(),
{
    if s.len() > 0 {
        assert(s.push(c).drop_first() == s.drop_first().push(c));
        assert(s.push(c)[0] == s[0]);
        lemma_utf8_bytes_push(s.drop_first(), c);
    } else {
        assert(s.push(c).drop_first().len() == 0);
        assert(s.push(c)[0] == c);
        assert(utf8_bytes(s.push(c).drop_first()) == 0);
    }
}

/// The number of bytes `c` takes in UTF-8.
pub fn char_utf8_len(c: char) -> (res: usize)
    ensures
        res as nat == utf8_len(c),
{
    let u = c as u32;
    if u < 0x80 {
        1
    } else if u < 0x800 {
        2
    } else if u < 0x10000 {
        3
    } else {
        4
    }
}

} // verus!

verus! {

/// `base` with the relative path `rel` appended the way `PathBuf::push`
/// does: a `/` in between unless `base` is empty or already ends with one.
pub open spec fn join_path_text(base: Seq<char>, rel: Seq<char>) -> Seq<char> {
    if base.len() == 0 {
        rel
    } else if base.last() == '/' {
        base + rel
    } else {
        base + "/"@ + rel
    }
}

/// `base` joined with the relative path `rel`.
pub fn join_path(base: &str, rel: &str) -> (res: String)
    ensures
        res@ == join_path_text(base@, rel@),
{
    let v = chars_of(base);
    if v.len() == 0 {
        String::from_str(rel)
    } else if v[v.len() - 1] == '/' {
        let mut out = String::from_str(base);
        out.append(rel);
        out
    } else {
        let mut out = String::from_str(base);
        out.append("/");
        out.append(rel);
        out
    }
}

} // verus!

verus! {

/// Position of the first occurrence of `pat` in `s`, if any.
pub open spec fn first_occurrence(s: Seq<char>, pat: Seq<char>) -> Option<int> {
    if contains_seq(s, pat) {
        Some(choose|i: int| occurs_at(s, i, pat) && forall|j: int| 0 <= j < i ==> !occurs_at(s, j, pat))
    } else {
        None
    }
}

/// Position of the first occurrence of the non-empty `pat` in `v`
/// (`str::find` counted in characters).
pub fn find_chars(v: &Vec<char>, pat: &Vec<char>) -> (res: Option<usize>)
    requires
        pat@.len() > 0,
    ensures
        match res {
            Some(i) => occurs_at(v@, i as int, pat@) && first_occurrence(v@, pat@) == Some(i as int),
            None => first_occurrence(v@, pat@) is None,
        },
{
    for i in 0..v.len()
        invariant
            pat@.len() > 0,
            forall|j: int| 0 <= j < i ==> !occurs_at(v@, j, pat@),
    {
        if matches_at(v, i, pat) {
            proof {
                lemma_first_occurrence_at(v@, pat@, i as int);
            }
            return Some(i);
        }
    }
    proof {
        lemma_no_occurrence(v@, pat@);
    }
    None
}

proof fn lemma_first_occurrence_at(s: Seq<char>, pat: Seq<char>, i: int)
    requires
        occurs_at(s, i, pat),
        forall|j: int| 0 <= j < i ==> !occurs_at(s, j, pat),
    ensures
        first_occurrence(s, pat) == Some(i),
{
    let k = choose|k: int| occurs_at(s, k, pat) && forall|j: int| 0 <= j < k ==> !occurs_at(s, j, pat);
    assert(occurs_at(s, k, pat));
    if k > i {
        assert(!occurs_at(s, i, pat));
    }
}

proof fn lemma_no_occurrence(s: Seq<char>, pat: Seq<char>)
    requires
        pat.len() > 0,
        forall|j: int| 0 <= j < s.len() ==> !occurs_at(s, j, pat),
    ensures
        first_occurrence(s, pat) is None,
{
    assert forall|j: int| !occurs_at(s, j, pat) by {
        if 0 <= j < s.len() {
        }
    }
}

} // verus!

verus! {

/// The longest prefix of `s` that fits in `n` bytes of UTF-8.
pub open spec fn prefix_within(s: Seq<char>, n: nat) -> Seq<char>
    decreases s.len(),
{
    if s.len() == 0 || utf8_len(s[0]) > n {
        seq![]
    } else {
        seq![s[0]] + prefix_within(s.drop_first(), (n - utf8_len(s[0])) as nat)
    }
}

pub proof fn lemma_prefix_within_all(s: Seq<char>, n: nat)
    requires
        utf8_bytes(s) <= n,
    ensures
        prefix_within(s, n) == s,
    decreases s.len(),
{
    if s.len() > 0 {
        lemma_prefix_within_all(s.drop_first(), (n - utf8_len(s[0])) as nat);
        assert(seq![s[0]] + s.drop_first() == s);
    }
}

proof fn lemma_prefix_within_step(s: Seq<char>, i: int, n: nat)
    requires
        0 <= i < s.len(),
        utf8_len(s[i]) <= n,
    ensures
        prefix_within(s.skip(i), n) == seq![s[i]] + prefix_within(s.skip(i + 1), (n - utf8_len(s[i])) as nat),
{
    assert(s.skip(i)[0] == s[i]);
    assert(s.skip(i).drop_first() == s.skip(i + 1));
}

/// When a character does not fit in the remaining budget, the whole text is
/// at least `n` bytes long.
pub proof fn lemma_total_at_least(s: Seq<char>, i: int, budget: nat, n: nat)
    requires
        0 <= i < s.len(),
        utf8_bytes(s.take(i)) + budget == n,
        utf8_len(s[i]) > budget,
    ensures
        utf8_bytes(s) >= n,
{
    lemma_utf8_bytes_split(s, i + 1);
    lemma_utf8_bytes_push(s.take(i), s[i]);
    assert(s.take(i + 1) == s.take(i).push(s[i]));
}

/// The UTF-8 length of a text is that of its first `k` characters plus that
/// of the rest.
pub proof fn lemma_utf8_bytes_split(s: Seq<char>, k: int)
    requires
        0 <= k <= s.len(),
    ensures
        utf8_bytes(s) == utf8_bytes(s.take(k)) + utf8_bytes(s.skip(k)),
    decreases k,
{
    if k == 0 {
        assert(s.skip(0) == s);
        assert(s.take(0).len() == 0);
    } else {
        lemma_utf8_bytes_split(s, k - 1);
        lemma_utf8_bytes_push(s.take(k - 1), s[k - 1]);
        assert(s.take(k) == s.take(k - 1).push(s[k - 1]));
        assert(s.skip(k - 1)[0] == s[k - 1]);
        assert(s.skip(k - 1).drop_first() == s.skip(k));
    }
}

/// The longest prefix of `v` that fits in `n` bytes of UTF-8: its length
/// in characters and in bytes.
pub fn byte_prefix(v: &Vec<char>, n: usize) -> (res: (usize, usize))
    ensures
        res.0 <= v@.len(),
        res.1 <= n,
        v@.take(res.0 as int) == prefix_within(v@, n as nat),
        utf8_bytes(v@.take(res.0 as int)) == res.1,
        res.0 < v@.len() ==> utf8_len(v@[res.0 as int]) > n - res.1,
{
    let mut i: usize = 0;
    let mut budget: usize = n;
    assert(v@.skip(0) == v@);
    assert(v@.take(0).len() == 0);
    assert(v@.take(0) + prefix_within(v@.skip(0), n as nat) == prefix_within(v@, n as nat));
    while i < v.len() && char_utf8_len(v[i]) <= budget
        invariant
            i <= v.len(),
            budget <= n,
            utf8_bytes(v@.take(i as int)) + budget == n,
            v@.take(i as int) + prefix_within(v@.skip(i as int), budget as nat) == prefix_within(v@, n as nat),
        decreases v.len() - i,
    {
        let ghost old_i = i;
        let ghost old_budget = budget;
        proof {
            lemma_prefix_within_step(v@, i as int, budget as nat);
            lemma_utf8_bytes_push(v@.take(i as int), v@[i as int]);
            assert(v@.take(i + 1) == v@.take(i as int).push(v@[i as int]));
        }
        budget = budget - char_utf8_len(v[i]);
        i += 1;
        assert(v@.take(old_i as int) + prefix_within(v@.skip(old_i as int), old_budget as nat) == v@.take(i as int) + prefix_within(v@.skip(i as int), budget as nat));
    }
    proof {
        if i == v.len() {
            assert(v@.skip(i as int).len() == 0);
        } else {
            assert(v@.skip(i as int)[0] == v@[i as int]);
        }
        assert(prefix_within(v@.skip(i as int), budget as nat) == Seq::<char>::empty());
        assert(prefix_within(v@, n as nat) == v@.take(i as int));
    }
    (i, n - budget)
}

} // verus!
