//! Character-level text model shared by the other modules: whitespace,
//! trimming, splitting into lines, and comparisons of character sequences.

use vstd::prelude::*;

verus! {

/// Unicode `White_Space`: the characters that `str::trim` removes.
pub open spec fn is_ws(c: char) -> bool {
    ||| ('\u{9}' <= c && c <= '\u{d}')
    ||| c == ' '
    ||| c == '\u{85}'
    ||| c == '\u{a0}'
    ||| c == '\u{1680}'
    ||| ('\u{2000}' <= c && c <= '\u{200a}')
    ||| c == '\u{2028}'
    ||| c == '\u{2029}'
    ||| c == '\u{202f}'
    ||| c == '\u{205f}'
    ||| c == '\u{3000}'
}

/// The characters a trim removes: double quotes when `quote`, else whitespace.
pub open spec fn strippable(c: char, quote: bool) -> bool {
    if quote {
        c == '"'
    } else {
        is_ws(c)
    }
}

/// `s` without its leading strippable characters.
pub open spec fn trim_start_by(s: Seq<char>, quote: bool) -> Seq<char>
    decreases s.len(),
{
    if s.len() > 0 && strippable(s[0], quote) {
        trim_start_by(s.drop_first(), quote)
    } else {
        s
    }
}

/// `s` without its trailing strippable characters.
pub open spec fn trim_end_by(s: Seq<char>, quote: bool) -> Seq<char>
    decreases s.len(),
{
    if s.len() > 0 && strippable(s.last(), quote) {
        trim_end_by(s.drop_last(), quote)
    } else {
        s
    }
}

/// What `str::trim` returns.
pub open spec fn trim(s: Seq<char>) -> Seq<char> {
    trim_end_by(trim_start_by(s, false), false)
}

/// What `str::trim_matches('"')` returns.
pub open spec fn trim_quotes(s: Seq<char>) -> Seq<char> {
    trim_end_by(trim_start_by(s, true), true)
}

/// What `str::split(sep)` yields: the pieces between separators, always at
/// least one.
pub open spec fn split_on(s: Seq<char>, sep: char) -> Seq<Seq<char>>
    decreases s.len(),
{
    if s.len() == 0 {
        seq![Seq::<char>::empty()]
    } else {
        let pre = split_on(s.drop_last(), sep);
        if s.last() == sep {
            pre.push(Seq::<char>::empty())
        } else {
            pre.update(pre.len() - 1, pre.last().push(s.last()))
        }
    }
}

/// The lines of a text, split at `'\n'`. Every use of them trims each line
/// and skips the empty ones, so a `'\r'` before the `'\n'` and an empty last
/// piece make no difference: over those uses this agrees with `str::lines`.
pub open spec fn text_lines(s: Seq<char>) -> Seq<Seq<char>> {
    split_on(s, '\n')
}

/// The views of a sequence of strings.
pub open spec fn views(v: Seq<String>) -> Seq<Seq<char>> {
    v.map_values(|s: String| s@)
}

/// `prefix` begins `s`.
pub open spec fn has_prefix(s: Seq<char>, prefix: Seq<char>) -> bool {
    prefix.len() <= s.len() && s.subrange(0, prefix.len() as int) == prefix
}

/// Splitting always gives at least one piece.
pub proof fn lemma_split_nonempty(s: Seq<char>, sep: char)
    ensures
        split_on(s, sep).len() >= 1,
    decreases s.len(),
{
    if s.len() > 0 {
        lemma_split_nonempty(s.drop_last(), sep);
    }
}

/// Splitting a sequence without separators gives the sequence itself.
pub proof fn lemma_split_no_sep(x: Seq<char>, sep: char)
    requires
        forall|i: int| 0 <= i < x.len() ==> x[i] != sep,
    ensures
        split_on(x, sep) == seq![x],
    decreases x.len(),
{
    if x.len() > 0 {
        lemma_split_no_sep(x.drop_last(), sep);
        assert(x.drop_last().push(x.last()) =~= x);
        assert(seq![x.drop_last()].update(0, x.drop_last().push(x.last())) =~~= seq![x]);
    } else {
        assert(x =~= Seq::<char>::empty());
    }
}

/// The pieces of `x + y`: those of `x` and of `y`, the last of `x` joined
/// with the first of `y`.
pub proof fn lemma_split_concat(x: Seq<char>, y: Seq<char>, sep: char)
    ensures
        split_on(x + y, sep) =~~= split_on(x, sep).drop_last() + seq![
            split_on(x, sep).last() + split_on(y, sep)[0],
        ] + split_on(y, sep).drop_first(),
    decreases y.len(),
{
    lemma_split_nonempty(x, sep);
    lemma_split_nonempty(y, sep);
    if y.len() == 0 {
        assert(x + y =~= x);
        assert(split_on(x, sep).last() + Seq::<char>::empty() =~= split_on(x, sep).last());
    } else {
        let yp = y.drop_last();
        let c = y.last();
        lemma_split_concat(x, yp, sep);
        lemma_split_nonempty(yp, sep);
        assert((x + y).drop_last() =~= x + yp);
        assert((x + y).last() == c);
        let sx = split_on(x, sep);
        let sp = split_on(yp, sep);
        let m = sx.last();
        if c != sep {
            if sp.len() == 1 {
                assert((m + sp[0]).push(c) =~= m + sp[0].push(c));
            }
        }
    }
}

/// The lines of `x`, a newline and `y`: the line `x`, then those of `y`.
pub proof fn lemma_lines_after_line(x: Seq<char>, y: Seq<char>)
    requires
        forall|i: int| 0 <= i < x.len() ==> x[i] != '\n',
    ensures
        text_lines(x + seq!['\n'] + y) =~~= seq![x] + text_lines(y),
{
    let xs = x + seq!['\n'];
    assert(xs.drop_last() =~= x);
    lemma_split_no_sep(x, '\n');
    assert(split_on(xs, '\n') =~~= seq![x, Seq::<char>::empty()]);
    lemma_split_concat(xs, y, '\n');
    lemma_split_nonempty(y, '\n');
    let sy = split_on(y, '\n');
    assert(Seq::<char>::empty() + sy[0] =~= sy[0]);
    assert(seq![x] + seq![sy[0]] + sy.drop_first() =~~= seq![x] + sy);
}

proof fn lemma_trim_start_head(s: Seq<char>, quote: bool)
    ensures
        trim_start_by(s, quote).len() > 0 ==> !strippable(trim_start_by(s, quote)[0], quote),
    decreases s.len(),
{
    if s.len() > 0 && strippable(s[0], quote) {
        lemma_trim_start_head(s.drop_first(), quote);
    }
}

proof fn lemma_trim_end_shape(s: Seq<char>, quote: bool)
    ensures
        trim_end_by(s, quote).len() > 0 ==> !strippable(trim_end_by(s, quote).last(), quote),
        trim_end_by(s, quote).len() <= s.len(),
        trim_end_by(s, quote) == s.subrange(0, trim_end_by(s, quote).len() as int),
        s.len() > 0 && !strippable(s[0], quote) ==> trim_end_by(s, quote).len() > 0,
    decreases s.len(),
{
    if s.len() > 0 && strippable(s.last(), quote) {
        let d = s.drop_last();
        lemma_trim_end_shape(d, quote);
        let t = trim_end_by(d, quote);
        assert(t =~= s.subrange(0, t.len() as int));
        if s.len() > 0 && !strippable(s[0], quote) {
            assert(s.len() > 1);
            assert(d[0] == s[0]);
        }
    } else {
        assert(s.subrange(0, s.len() as int) =~= s);
    }
}

/// Trimming a trimmed text changes nothing.
pub proof fn lemma_trim_idempotent(s: Seq<char>)
    ensures
        trim(trim(s)) == trim(s),
{
    let a = trim_start_by(s, false);
    lemma_trim_start_head(s, false);
    lemma_trim_end_shape(a, false);
    let t = trim(s);
    if t.len() > 0 {
        assert(t[0] == a[0]);
        assert(trim_start_by(t, false) == t);
        assert(trim_end_by(t, false) == t);
    } else {
        assert(trim_start_by(t, false) == t);
        assert(trim_end_by(t, false) == t);
    }
}

proof fn lemma_trim_start_skip(s: Seq<char>, k: int, quote: bool)
    requires
        0 <= k <= s.len(),
        forall|i: int| 0 <= i < k ==> strippable(#[trigger] s[i], quote),
    ensures
        trim_start_by(s, quote) == trim_start_by(s.subrange(k, s.len() as int), quote),
    decreases k,
{
    if k > 0 {
        assert(s.drop_first() =~= s.subrange(1, s.len() as int));
        let t = s.drop_first();
        assert forall|i: int| 0 <= i < k - 1 implies strippable(#[trigger] t[i], quote) by {
            assert(t[i] == s[i + 1]);
        }
        lemma_trim_start_skip(t, k - 1, quote);
        assert(t.subrange(k - 1, t.len() as int) =~= s.subrange(k, s.len() as int));
    } else {
        assert(s.subrange(0, s.len() as int) =~= s);
    }
}

proof fn lemma_trim_end_skip(s: Seq<char>, k: int, quote: bool)
    requires
        0 <= k <= s.len(),
        forall|i: int| k <= i < s.len() ==> strippable(#[trigger] s[i], quote),
    ensures
        trim_end_by(s, quote) == trim_end_by(s.subrange(0, k), quote),
    decreases s.len() - k,
{
    if k < s.len() {
        let t = s.drop_last();
        assert forall|i: int| k <= i < t.len() implies strippable(#[trigger] t[i], quote) by {
            assert(t[i] == s[i]);
        }
        lemma_trim_end_skip(t, k, quote);
        assert(t.subrange(0, k) =~= s.subrange(0, k));
    } else {
        assert(s.subrange(0, k) =~= s);
    }
}

/// Executable counterpart of [`is_ws`].
pub fn is_whitespace(c: char) -> (r: bool)
    ensures
        r == is_ws(c),
{
    ('\u{9}' <= c && c <= '\u{d}') || c == ' ' || c == '\u{85}' || c == '\u{a0}' || c
        == '\u{1680}' || ('\u{2000}' <= c && c <= '\u{200a}') || c == '\u{2028}' || c
        == '\u{2029}' || c == '\u{202f}' || c == '\u{205f}' || c == '\u{3000}'
}

fn is_strippable(c: char, quote: bool) -> (r: bool)
    ensures
        r == strippable(c, quote),
{
    if quote {
        c == '"'
    } else {
        is_whitespace(c)
    }
}

/// The characters of `s`, in order.
pub fn chars_of(s: &str) -> (r: Vec<char>)
    ensures
        r@ == s@,
{
    let mut r: Vec<char> = Vec::new();
    for c in it: s.chars()
        invariant
            r@ == it.seq().take(it.index() as int),
    {
        r.push(c);
    }
    r
}

/// `String::push`: appends the character `c` at the end of `s`, whose
/// characters are then those of `s` followed by `c`.
#[verifier::external_body]
pub(crate) fn append_char(s: &mut String, c: char)
    ensures
        final(s)@ == old(s)@.push(c),
{
    s.push(c);
}

/// The string made of `v[lo..hi]`.
pub fn string_of(v: &Vec<char>, lo: usize, hi: usize) -> (r: String)
    requires
        lo <= hi <= v@.len(),
    ensures
        r@ == v@.subrange(lo as int, hi as int),
{
    let mut r = String::new();
    let mut i = lo;
    while i < hi
        invariant
            lo <= i <= hi <= v@.len(),
            r@ == v@.subrange(lo as int, i as int),
        decreases hi - i,
    {
        append_char(&mut r, v[i]);
        assert(v@.subrange(lo as int, i + 1) =~= v@.subrange(lo as int, i as int).push(v@[i as int]));
        i = i + 1;
    }
    r
}

/// `s` followed by the characters of `t`.
pub fn append_str(s: &mut String, t: &str)
    ensures
        final(s)@ == old(s)@ + t@,
{
    let v = chars_of(t);
    let mut i: usize = 0;
    while i < v.len()
        invariant
            i <= v@.len(),
            v@ == t@,
            s@ == old(s)@ + v@.subrange(0, i as int),
        decreases v@.len() - i,
    {
        append_char(s, v[i]);
        assert(v@.subrange(0, i + 1) =~= v@.subrange(0, i as int).push(v@[i as int]));
        i = i + 1;
    }
    assert(v@.subrange(0, v@.len() as int) =~= v@);
}

/// A fresh string holding `t`.
pub fn string_from(t: &str) -> (r: String)
    ensures
        r@ == t@,
{
    let mut r = String::new();
    append_str(&mut r, t);
    assert(Seq::<char>::empty() + t@ =~= t@);
    r
}

/// The first index of `v[lo..hi]` after its leading strippable characters.
pub fn skip_start(v: &Vec<char>, lo: usize, hi: usize, quote: bool) -> (r: usize)
    requires
        lo <= hi <= v@.len(),
    ensures
        lo <= r <= hi,
        v@.subrange(r as int, hi as int) == trim_start_by(v@.subrange(lo as int, hi as int), quote),
{
    let mut i = lo;
    while i < hi && is_strippable(v[i], quote)
        invariant
            lo <= i <= hi <= v@.len(),
            forall|j: int| lo <= j < i ==> strippable(#[trigger] v@[j], quote),
        decreases hi - i,
    {
        i = i + 1;
    }
    let ghost s = v@.subrange(lo as int, hi as int);
    proof {
        assert forall|j: int| 0 <= j < i - lo implies strippable(#[trigger] s[j], quote) by {
            assert(s[j] == v@[lo + j]);
        }
        lemma_trim_start_skip(s, i - lo, quote);
        assert(s.subrange(i - lo, s.len() as int) =~= v@.subrange(i as int, hi as int));
        let t = v@.subrange(i as int, hi as int);
        if t.len() > 0 {
            assert(t[0] == v@[i as int]);
        }
    }
    i
}

/// The end index of `v[lo..hi]` before its trailing strippable characters.
pub fn skip_end(v: &Vec<char>, lo: usize, hi: usize, quote: bool) -> (r: usize)
    requires
        lo <= hi <= v@.len(),
    ensures
        lo <= r <= hi,
        v@.subrange(lo as int, r as int) == trim_end_by(v@.subrange(lo as int, hi as int), quote),
{
    let mut j = hi;
    while j > lo && is_strippable(v[j - 1], quote)
        invariant
            lo <= j <= hi <= v@.len(),
            forall|k: int| j <= k < hi ==> strippable(#[trigger] v@[k], quote),
        decreases j - lo,
    {
        j = j - 1;
    }
    let ghost s = v@.subrange(lo as int, hi as int);
    proof {
        assert forall|k: int| j - lo <= k < s.len() implies strippable(#[trigger] s[k], quote) by {
            assert(s[k] == v@[lo + k]);
        }
        lemma_trim_end_skip(s, j - lo, quote);
        assert(s.subrange(0, j - lo) =~= v@.subrange(lo as int, j as int));
        let t = v@.subrange(lo as int, j as int);
        if t.len() > 0 {
            assert(t.last() == v@[j - 1]);
        }
    }
    j
}

/// The bounds of `trim(v[lo..hi])` within `v`.
pub fn trim_range(v: &Vec<char>, lo: usize, hi: usize) -> (r: (usize, usize))
    requires
        lo <= hi <= v@.len(),
    ensures
        lo <= r.0 <= r.1 <= hi,
        v@.subrange(r.0 as int, r.1 as int) == trim(v@.subrange(lo as int, hi as int)),
{
    let a = skip_start(v, lo, hi, false);
    let b = skip_end(v, a, hi, false);
    (a, b)
}

/// What `str::trim` returns, as a new string.
pub fn trimmed(s: &str) -> (r: String)
    ensures
        r@ == trim(s@),
{
    let v = chars_of(s);
    assert(v@.subrange(0, v@.len() as int) =~= v@);
    let (a, b) = trim_range(&v, 0, v.len());
    string_of(&v, a, b)
}

/// Whether `v[lo..hi]` and `w` hold the same characters.
pub fn range_equals(v: &Vec<char>, lo: usize, hi: usize, w: &Vec<char>) -> (r: bool)
    requires
        lo <= hi <= v@.len(),
    ensures
        r == (v@.subrange(lo as int, hi as int) == w@),
{
    if hi - lo != w.len() {
        proof {
            assert(v@.subrange(lo as int, hi as int).len() != w@.len());
        }
        return false;
    }
    let mut i: usize = 0;
    while i < w.len()
        invariant
            lo <= hi <= v@.len(),
            hi - lo == w@.len(),
            i <= w@.len(),
            forall|k: int| 0 <= k < i ==> v@[lo + k] == w@[k],
        decreases w@.len() - i,
    {
        if v[lo + i] != w[i] {
            proof {
                assert(v@.subrange(lo as int, hi as int)[i as int] != w@[i as int]);
            }
            return false;
        }
        i = i + 1;
    }
    assert(v@.subrange(lo as int, hi as int) =~= w@);
    true
}

/// Whether two strings hold the same characters.
pub fn same_text(a: &str, b: &str) -> (r: bool)
    ensures
        r == (a@ == b@),
{
    let v = chars_of(a);
    let w = chars_of(b);
    assert(v@.subrange(0, v@.len() as int) =~= v@);
    range_equals(&v, 0, v.len(), &w)
}

/// Whether `s` begins with `prefix`.
pub fn starts_with(s: &str, prefix: &str) -> (r: bool)
    ensures
        r == has_prefix(s@, prefix@),
{
    let v = chars_of(s);
    let w = chars_of(prefix);
    if w.len() > v.len() {
        return false;
    }
    range_equals(&v, 0, w.len(), &w)
}

/// What `str::strip_prefix` returns.
pub fn strip_prefix(s: &str, prefix: &str) -> (r: Option<String>)
    ensures
        r matches Some(t) ==> has_prefix(s@, prefix@) && t@ == s@.subrange(
            prefix@.len() as int,
            s@.len() as int,
        ),
        r is None ==> !has_prefix(s@, prefix@),
{
    let v = chars_of(s);
    let w = chars_of(prefix);
    if w.len() > v.len() {
        return None;
    }
    if range_equals(&v, 0, w.len(), &w) {
        Some(string_of(&v, w.len(), v.len()))
    } else {
        None
    }
}

/// The `[start, end)` bounds of every line of `v` (see [`text_lines`]).
pub fn line_ranges(v: &Vec<char>) -> (r: Vec<(usize, usize)>)
    ensures
        r@.len() == text_lines(v@).len(),
        forall|k: int|
            0 <= k < r@.len() ==> {
                &&& (#[trigger] r@[k]).0 <= r@[k].1 <= v@.len()
                &&& v@.subrange(r@[k].0 as int, r@[k].1 as int) == text_lines(v@)[k]
            },
{
    let mut r: Vec<(usize, usize)> = Vec::new();
    let mut start: usize = 0;
    let mut i: usize = 0;
    while i < v.len()
        invariant
            start <= i <= v@.len(),
            r@.len() + 1 == text_lines(v@.subrange(0, i as int)).len(),
            forall|k: int|
                0 <= k < r@.len() ==> {
                    &&& (#[trigger] r@[k]).0 <= r@[k].1 <= start
                    &&& v@.subrange(r@[k].0 as int, r@[k].1 as int) == text_lines(
                        v@.subrange(0, i as int),
                    )[k]
                },
            v@.subrange(start as int, i as int) == text_lines(v@.subrange(0, i as int)).last(),
        decreases v@.len() - i,
    {
        let ghost pre = v@.subrange(0, i as int);
        let ghost cur = v@.subrange(0, i + 1);
        proof {
            assert(cur.drop_last() =~= pre);
            lemma_split_nonempty(pre, '\n');
        }
        if v[i] == '\n' {
            r.push((start, i));
            start = i + 1;
            proof {
                assert(v@.subrange(start as int, i + 1) =~= Seq::<char>::empty());
            }
        } else {
            proof {
                assert(v@.subrange(start as int, i + 1) =~= v@.subrange(start as int, i as int).push(
                    v@[i as int],
                ));
            }
        }
        i = i + 1;
    }
    assert(v@.subrange(0, v@.len() as int) =~= v@);
    r.push((start, i));
    r
}

} // verus!
