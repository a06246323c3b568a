//! Julia project names: which names are usable as they stand, and how other
//! names are turned into one.

use vstd::prelude::*;
use crate::text::chars_of;

verus! {

pub open spec fn is_ascii_alpha(c: char) -> bool {
    ('a' <= c && c <= 'z') || ('A' <= c && c <= 'Z')
}

pub open spec fn is_ascii_digit(c: char) -> bool {
    '0' <= c && c <= '9'
}

pub open spec fn is_ascii_alnum(c: char) -> bool {
    is_ascii_alpha(c) || is_ascii_digit(c)
}

/// A usable Julia identifier: an ASCII letter or `_`, then ASCII letters,
/// digits and `_`.
pub open spec fn valid_project_name(s: Seq<char>) -> bool {
    &&& s.len() > 0
    &&& (is_ascii_alpha(s[0]) || s[0] == '_')
    &&& forall|i: int| 1 <= i < s.len() ==> is_ascii_alnum(#[trigger] s[i]) || s[i] == '_'
}

/// The ASCII upper case of `c`; other characters are unchanged.
pub open spec fn ascii_upper(c: char) -> char {
    if 'a' <= c && c <= 'z' {
        ((c as int) - 32) as char
    } else {
        c
    }
}

/// The name made of the ASCII alphanumeric runs of `s`, in order, each with
/// its first character upper-cased; every other character is dropped.
pub open spec fn normalized(s: Seq<char>) -> Seq<char>
    decreases s.len(),
{
    if s.len() == 0 {
        Seq::<char>::empty()
    } else {
        let pre = normalized(s.drop_last());
        let c = s.last();
        if !is_ascii_alnum(c) {
            pre
        } else if s.len() == 1 || !is_ascii_alnum(s[s.len() - 2]) {
            pre.push(ascii_upper(c))
        } else {
            pre.push(c)
        }
    }
}

/// A valid project name is made only of ASCII letters, digits and `_`, and
/// does not begin with a digit: any other character (`.`, `-`, a space, a
/// non-ASCII letter) makes a name invalid.
pub proof fn lemma_valid_name_characters(s: Seq<char>)
    ensures
        valid_project_name(s) <==> {
            &&& s.len() > 0
            &&& ('a' <= s[0] <= 'z' || 'A' <= s[0] <= 'Z' || s[0] == '_')
            &&& forall|i: int|
                1 <= i < s.len() ==> ('a' <= #[trigger] s[i] <= 'z' || 'A' <= s[i] <= 'Z' || '0'
                    <= s[i] <= '9' || s[i] == '_')
        },
{
}

proof fn lemma_upper(c: char)
    ensures
        is_ascii_alnum(c) ==> is_ascii_alnum(ascii_upper(c)),
        ascii_upper(ascii_upper(c)) == ascii_upper(c),
{
}

/// A normalized name is made of ASCII letters and digits only.
pub proof fn lemma_normalized_alnum(s: Seq<char>)
    ensures
        forall|i: int| 0 <= i < normalized(s).len() ==> is_ascii_alnum(#[trigger] normalized(s)[i]),
    decreases s.len(),
{
    if s.len() > 0 {
        lemma_normalized_alnum(s.drop_last());
        lemma_upper(s.last());
        let p = normalized(s.drop_last());
        let t = normalized(s);
        assert forall|i: int| 0 <= i < t.len() implies is_ascii_alnum(#[trigger] t[i]) by {
            if i < p.len() {
                assert(t[i] == p[i]);
            }
        }
    }
}

proof fn lemma_normalized_of_alnum(u: Seq<char>)
    requires
        forall|i: int| 0 <= i < u.len() ==> is_ascii_alnum(#[trigger] u[i]),
    ensures
        u.len() > 0 ==> normalized(u) == u.update(0, ascii_upper(u[0])),
        u.len() == 0 ==> normalized(u) == u,
    decreases u.len(),
{
    if u.len() > 0 {
        let d = u.drop_last();
        lemma_normalized_of_alnum(d);
        if u.len() > 1 {
            assert(u[u.len() - 2] == d.last());
            assert(d.update(0, ascii_upper(d[0])).push(u.last()) =~= u.update(0, ascii_upper(u[0])));
        } else {
            assert(Seq::<char>::empty().push(ascii_upper(u.last())) =~= u.update(
                0,
                ascii_upper(u[0]),
            ));
        }
    } else {
        assert(normalized(u) =~= u);
    }
}

proof fn lemma_normalized_head(s: Seq<char>)
    ensures
        normalized(s).len() > 0 ==> ascii_upper(normalized(s)[0]) == normalized(s)[0],
    decreases s.len(),
{
    if s.len() > 0 {
        let d = s.drop_last();
        lemma_normalized_head(d);
        lemma_upper(s.last());
        if s.len() > 1 && is_ascii_alnum(s[s.len() - 2]) {
            assert(d.last() == s[s.len() - 2]);
            assert(normalized(d).len() > 0);
        }
    }
}

/// Normalizing a normalized name changes nothing.
pub proof fn lemma_normalize_idempotent(s: Seq<char>)
    ensures
        normalized(normalized(s)) == normalized(s),
{
    let t = normalized(s);
    lemma_normalized_alnum(s);
    lemma_normalized_of_alnum(t);
    lemma_normalized_head(s);
    if t.len() > 0 {
        assert(t.update(0, ascii_upper(t[0])) =~= t);
    }
}

fn is_alpha(c: char) -> (r: bool)
    ensures
        r == is_ascii_alpha(c),
{
    ('a' <= c && c <= 'z') || ('A' <= c && c <= 'Z')
}

fn is_alnum(c: char) -> (r: bool)
    ensures
        r == is_ascii_alnum(c),
{
    is_alpha(c) || ('0' <= c && c <= '9')
}

fn to_upper(c: char) -> (r: char)
    ensures
        r == ascii_upper(c),
{
    if 'a' <= c && c <= 'z' {
        let b: u8 = (c as u32 - 32) as u8;
        b as char
    } else {
        c
    }
}

/// Whether `name` is already a usable Julia identifier.
pub fn is_valid_project_name(name: &str) -> (r: bool)
    ensures
        r == valid_project_name(name@),
{
    let v = chars_of(name);
    if v.len() == 0 {
        return false;
    }
    if !(is_alpha(v[0]) || v[0] == '_') {
        return false;
    }
    let mut i: usize = 1;
    while i < v.len()
        invariant
            1 <= i <= v@.len(),
            v@ == name@,
            forall|k: int| 1 <= k < i ==> is_ascii_alnum(#[trigger] v@[k]) || v@[k] == '_',
        decreases v@.len() - i,
    {
        if !(is_alnum(v[i]) || v[i] == '_') {
            return false;
        }
        i = i + 1;
    }
    true
}

/// Turns a name that is not a usable identifier into one in the Julia
/// style: `julia-pkg-cli` becomes `JuliaPkgCli`, `my package` becomes
/// `MyPackage`.
pub fn normalize_julia_name(name: &str) -> (r: String)
    ensures
        r@ == normalized(name@),
{
    let v = chars_of(name);
    let mut out: Vec<char> = Vec::new();
    let mut i: usize = 0;
    while i < v.len()
        invariant
            i <= v@.len(),
            v@ == name@,
            out@ == normalized(v@.subrange(0, i as int)),
        decreases v@.len() - i,
    {
        let c = v[i];
        proof {
            let s = v@.subrange(0, i + 1);
            assert(s.drop_last() =~= v@.subrange(0, i as int));
            assert(s.last() == c);
            if i >= 1 {
                assert(s[s.len() - 2] == v@[i - 1]);
            }
        }
        if is_alnum(c) {
            if i == 0 || !is_alnum(v[i - 1]) {
                out.push(to_upper(c));
            } else {
                out.push(c);
            }
        }
        i = i + 1;
    }
    assert(v@.subrange(0, v@.len() as int) =~= v@);
    let mut r = String::new();
    let mut j: usize = 0;
    while j < out.len()
        invariant
            j <= out@.len(),
            r@ == out@.subrange(0, j as int),
        decreases out@.len() - j,
    {
        crate::text::append_char(&mut r, out[j]);
        assert(out@.subrange(0, j + 1) =~= out@.subrange(0, j as int).push(out@[j as int]));
        j = j + 1;
    }
    assert(out@.subrange(0, out@.len() as int) =~= out@);
    r
}

} // verus!
