//! `Project.toml` identity: reading top-level fields, writing a new project
//! file, and adding the missing `name`, `uuid` and `version` to an existing
//! one without touching the rest.

use vstd::prelude::*;
use crate::names::{is_ascii_alnum, is_ascii_alpha, valid_project_name};
use crate::text::{
    append_char, append_str, chars_of, is_ws, lemma_lines_after_line, line_ranges, range_equals,
    skip_end, skip_start, string_of, text_lines, trim, trim_end_by, trim_quotes, trim_range,
    trim_start_by,
};
use crate::uuid::{is_lower_hex, is_v4_uuid_text, uuid_v4};

verus! {

/// `i` is the first position of `c` in `s`.
pub open spec fn is_first(s: Seq<char>, c: char, i: int) -> bool {
    &&& 0 <= i < s.len()
    &&& s[i] == c
    &&& forall|j: int| 0 <= j < i ==> s[j] != c
}

pub open spec fn contains_char(s: Seq<char>, c: char) -> bool {
    exists|i: int| 0 <= i < s.len() && s[i] == c
}

/// The line `key = "value"` without its newline.
pub open spec fn field_text(key: Seq<char>, value: Seq<char>) -> Seq<char> {
    key + seq![' ', '=', ' ', '"'] + value + seq!['"']
}

/// A key that a field line can be written with and read back by.
pub open spec fn plain_key(k: Seq<char>) -> bool {
    &&& k.len() > 0
    &&& !is_ws(k[0]) && k[0] != '[' && k[0] != '#'
    &&& !is_ws(k.last())
    &&& forall|i: int| 0 <= i < k.len() ==> k[i] != '=' && k[i] != '\n'
}

/// A value that a field line can be written with and read back by.
pub open spec fn plain_value(w: Seq<char>) -> bool {
    &&& w.len() > 0
    &&& w[0] != '"' && w.last() != '"'
    &&& forall|i: int| 0 <= i < w.len() ==> w[i] != '\n'
}

/// The first position of `c` in `s` (meaningful when `s` contains `c`).
pub open spec fn first_index(s: Seq<char>, c: char) -> int {
    choose|i: int| is_first(s, c, i)
}

/// The value of the top-level `key = value` line among the lines of a
/// `Project.toml`, as `read_top_level_value` finds it: lines are trimmed,
/// blank lines and `#` comments are skipped, the scan stops at the first
/// `[table]` header, and the value is trimmed and stripped of its quotes.
pub open spec fn top_level_value(lines: Seq<Seq<char>>, key: Seq<char>) -> Option<Seq<char>>
    decreases lines.len(),
{
    if lines.len() == 0 {
        None
    } else {
        let line = trim(lines[0]);
        if line.len() > 0 && line[0] == '[' {
            None
        } else if line.len() == 0 || line[0] == '#' {
            top_level_value(lines.drop_first(), key)
        } else if contains_char(line, '=') && trim(
            line.subrange(0, first_index(line, '=')),
        ) == key {
            Some(
                trim_quotes(trim(line.subrange(first_index(line, '=') + 1, line.len() as int))),
            )
        } else {
            top_level_value(lines.drop_first(), key)
        }
    }
}

/// The field `key` of a `Project.toml` text.
pub open spec fn field_of(content: Seq<char>, key: Seq<char>) -> Option<Seq<char>> {
    top_level_value(text_lines(content), key)
}

/// The line `key = "value"` and its newline.
pub open spec fn field_line(key: Seq<char>, value: Seq<char>) -> Seq<char> {
    key + seq![' ', '=', ' ', '"'] + value + seq!['"', '\n']
}

pub open spec fn name_key() -> Seq<char> {
    seq!['n', 'a', 'm', 'e']
}

pub open spec fn uuid_key() -> Seq<char> {
    seq!['u', 'u', 'i', 'd']
}

pub open spec fn version_key() -> Seq<char> {
    seq!['v', 'e', 'r', 's', 'i', 'o', 'n']
}

/// The version a new project starts at.
pub open spec fn initial_version() -> Seq<char> {
    seq!['0', '.', '1', '.', '0']
}

/// The text of a new `Project.toml`.
pub open spec fn new_project_text(name: Seq<char>, uuid: Seq<char>) -> Seq<char> {
    field_line(name_key(), name) + field_line(uuid_key(), uuid) + field_line(
        version_key(),
        initial_version(),
    )
}

/// The identity lines missing from `content`, in the order name, uuid,
/// version.
pub open spec fn identity_prefix(content: Seq<char>, name: Seq<char>, uuid: Seq<char>) -> Seq<
    char,
> {
    (if field_of(content, name_key()) is None {
        field_line(name_key(), name)
    } else {
        Seq::<char>::empty()
    }) + (if field_of(content, uuid_key()) is None {
        field_line(uuid_key(), uuid)
    } else {
        Seq::<char>::empty()
    }) + (if field_of(content, version_key()) is None {
        field_line(version_key(), initial_version())
    } else {
        Seq::<char>::empty()
    })
}

/// `content` with its missing identity lines put in front, separated from
/// the old text by a blank line.
pub open spec fn with_identity(content: Seq<char>, name: Seq<char>, uuid: Seq<char>) -> Seq<char> {
    let prefix = identity_prefix(content, name, uuid);
    if prefix.len() > 0 && content.len() > 0 {
        prefix + seq!['\n'] + content
    } else {
        prefix + content
    }
}

/// The text of the module file `src/<name>.jl` of a package.
pub open spec fn module_text(name: Seq<char>) -> Seq<char> {
    seq!['m', 'o', 'd', 'u', 'l', 'e', ' '] + name + seq!['\n', '\n', 'e', 'n', 'd', '\n']
}

proof fn lemma_first_unique(s: Seq<char>, c: char, i: int)
    requires
        is_first(s, c, i),
    ensures
        contains_char(s, c),
        first_index(s, c) == i,
{
    assert(exists|k: int| is_first(s, c, k));
    let k = first_index(s, c);
    if k < i {
        assert(s[k] != c);
    }
    if i < k {
        assert(s[i] != c);
    }
}

proof fn lemma_scan_field(k: Seq<char>, w: Seq<char>, rest: Seq<Seq<char>>, q: Seq<char>)
    requires
        plain_key(k),
        plain_value(w),
    ensures
        top_level_value(seq![field_text(k, w)] + rest, q) == if q == k {
            Some(w)
        } else {
            top_level_value(rest, q)
        },
{
    let line = field_text(k, w);
    let lines = seq![line] + rest;
    assert(lines[0] == line);
    assert(lines.drop_first() =~~= rest);
    assert(line[0] == k[0]);
    assert(line.last() == '"');
    assert(trim_start_by(line, false) == line);
    assert(trim_end_by(line, false) == line);
    let e: int = k.len() as int + 1;
    assert forall|j: int| 0 <= j < e implies line[j] != '=' by {
        if j < k.len() {
            assert(line[j] == k[j]);
        }
    }
    assert(line[e] == '=');
    lemma_first_unique(line, '=', e);
    let before = line.subrange(0, e);
    assert(before =~= k.push(' '));
    assert(before[0] == k[0]);
    assert(trim_start_by(before, false) == before);
    assert(before.drop_last() =~= k);
    assert(trim_end_by(k, false) == k);
    assert(trim_end_by(before, false) == k);
    let after = line.subrange(e + 1, line.len() as int);
    let a1 = seq!['"'] + w + seq!['"'];
    assert(after =~= seq![' '] + a1);
    assert(after.drop_first() =~= a1);
    assert(trim_start_by(a1, false) == a1);
    assert(trim_start_by(after, false) == a1);
    assert(trim_end_by(a1, false) == a1);
    let b1 = w + seq!['"'];
    assert(a1.drop_first() =~= b1);
    assert(b1[0] == w[0]);
    assert(trim_start_by(b1, true) == b1);
    assert(trim_start_by(a1, true) == b1);
    assert(b1.drop_last() =~= w);
    assert(trim_end_by(w, true) == w);
    assert(trim_end_by(b1, true) == w);
}

/// Reading a field from a text that begins with the line `k = "w"`.
proof fn lemma_field_of_line(k: Seq<char>, w: Seq<char>, y: Seq<char>, q: Seq<char>)
    requires
        plain_key(k),
        plain_value(w),
    ensures
        field_of(field_line(k, w) + y, q) == if q == k {
            Some(w)
        } else {
            field_of(y, q)
        },
{
    let t = field_text(k, w);
    assert forall|i: int| 0 <= i < t.len() implies t[i] != '\n' by {
        if i < k.len() {
            assert(t[i] == k[i]);
        } else if k.len() + 4 <= i < k.len() + 4 + w.len() {
            assert(t[i] == w[i - k.len() - 4]);
        }
    }
    assert(field_line(k, w) + y =~= t + seq!['\n'] + y);
    lemma_lines_after_line(t, y);
    lemma_scan_field(k, w, text_lines(y), q);
}

/// A blank first line changes no field.
proof fn lemma_field_of_blank(y: Seq<char>, q: Seq<char>)
    ensures
        field_of(seq!['\n'] + y, q) == field_of(y, q),
{
    let e = Seq::<char>::empty();
    assert(e + seq!['\n'] + y =~= seq!['\n'] + y);
    lemma_lines_after_line(e, y);
    let lines = seq![e] + text_lines(y);
    assert(lines[0] == e);
    assert(lines.drop_first() =~~= text_lines(y));
    assert(trim_start_by(e, false) == e);
    assert(trim_end_by(e, false) == e);
}

proof fn lemma_keys_plain()
    ensures
        plain_key(name_key()),
        plain_key(uuid_key()),
        plain_key(version_key()),
        plain_value(initial_version()),
        name_key() != uuid_key(),
        name_key() != version_key(),
        uuid_key() != version_key(),
{
    assert(name_key()[0] != uuid_key()[0]);
    assert(name_key()[0] != version_key()[0]);
    assert(uuid_key()[0] != version_key()[0]);
}

proof fn lemma_name_plain(n: Seq<char>)
    requires
        valid_project_name(n),
    ensures
        plain_value(n),
{
    assert forall|i: int| 0 <= i < n.len() implies n[i] != '\n' by {
        if i > 0 {
            assert(is_ascii_alnum(n[i]) || n[i] == '_');
        }
    }
    if n.len() > 1 {
        assert(is_ascii_alnum(n[n.len() - 1]) || n[n.len() - 1] == '_');
    }
}

proof fn lemma_uuid_plain(u: Seq<char>)
    requires
        is_v4_uuid_text(u),
    ensures
        plain_value(u),
{
    assert(is_lower_hex(u[0]) || u[0] == '-');
    assert(is_lower_hex(u[35]) || u[35] == '-');
    assert forall|i: int| 0 <= i < u.len() implies u[i] != '\n' by {
        assert(is_lower_hex(u[i]) || u[i] == '-');
    }
}

/// Reading a field after an optional field line.
proof fn lemma_field_of_piece(present: bool, k: Seq<char>, w: Seq<char>, y: Seq<char>, q: Seq<char>)
    requires
        plain_key(k),
        plain_value(w),
    ensures
        field_of(
            (if present {
                Seq::<char>::empty()
            } else {
                field_line(k, w)
            }) + y,
            q,
        ) == if !present && q == k {
            Some(w)
        } else {
            field_of(y, q)
        },
{
    if present {
        assert(Seq::<char>::empty() + y =~= y);
    } else {
        lemma_field_of_line(k, w, y, q);
    }
}

/// Adding the identity keeps the old text whole, at the end, and leaves the
/// project with a name, a uuid and a version: those it had, and otherwise
/// the ones added.
pub proof fn lemma_identity_fields(c: Seq<char>, n: Seq<char>, u: Seq<char>)
    requires
        valid_project_name(n),
        is_v4_uuid_text(u),
    ensures
        with_identity(c, n, u).subrange(
            with_identity(c, n, u).len() - c.len(),
            with_identity(c, n, u).len() as int,
        ) == c,
        field_of(with_identity(c, n, u), name_key()) == if field_of(c, name_key()) is Some {
            field_of(c, name_key())
        } else {
            Some(n)
        },
        field_of(with_identity(c, n, u), uuid_key()) == if field_of(c, uuid_key()) is Some {
            field_of(c, uuid_key())
        } else {
            Some(u)
        },
        field_of(with_identity(c, n, u), version_key()) == if field_of(c, version_key()) is Some {
            field_of(c, version_key())
        } else {
            Some(initial_version())
        },
{
    lemma_keys_plain();
    lemma_name_plain(n);
    lemma_uuid_plain(u);
    let hn = field_of(c, name_key()) is Some;
    let hu = field_of(c, uuid_key()) is Some;
    let hv = field_of(c, version_key()) is Some;
    let pn = if hn {
        Seq::<char>::empty()
    } else {
        field_line(name_key(), n)
    };
    let pu = if hu {
        Seq::<char>::empty()
    } else {
        field_line(uuid_key(), u)
    };
    let pv = if hv {
        Seq::<char>::empty()
    } else {
        field_line(version_key(), initial_version())
    };
    let prefix = identity_prefix(c, n, u);
    assert(prefix == pn + pu + pv);
    let tail = if prefix.len() > 0 && c.len() > 0 {
        seq!['\n'] + c
    } else {
        c
    };
    let r = with_identity(c, n, u);
    assert(r =~= pn + (pu + (pv + tail)));
    assert(r.subrange(r.len() - c.len(), r.len() as int) =~= c);
    assert forall|q: Seq<char>| #[trigger] field_of(tail, q) == field_of(c, q) by {
        if prefix.len() > 0 && c.len() > 0 {
            lemma_field_of_blank(c, q);
        }
    }
    let keys = seq![name_key(), uuid_key(), version_key()];
    assert forall|i: int| 0 <= i < 3 implies #[trigger] field_of(r, keys[i]) == if field_of(
        c,
        keys[i],
    ) is Some {
        field_of(c, keys[i])
    } else if i == 0 {
        Some(n)
    } else if i == 1 {
        Some(u)
    } else {
        Some(initial_version())
    } by {
        let q = keys[i];
        lemma_field_of_piece(hv, version_key(), initial_version(), tail, q);
        lemma_field_of_piece(hu, uuid_key(), u, pv + tail, q);
        lemma_field_of_piece(hn, name_key(), n, pu + (pv + tail), q);
    }
    assert(field_of(r, keys[0]) == field_of(r, name_key()));
    assert(field_of(r, keys[1]) == field_of(r, uuid_key()));
    assert(field_of(r, keys[2]) == field_of(r, version_key()));
}

/// The module file declares a module named exactly as the project: the
/// text is `module `, the name character for character, and `\n\nend\n`.
pub proof fn lemma_module_named_as_project(name: Seq<char>)
    ensures
        module_text(name).len() == name.len() + 13,
        module_text(name).subrange(0, 7) == seq!['m', 'o', 'd', 'u', 'l', 'e', ' '],
        module_text(name).subrange(7, 7 + name.len() as int) == name,
        module_text(name).subrange(7 + name.len() as int, name.len() as int + 13) == seq![
            '\n',
            '\n',
            'e',
            'n',
            'd',
            '\n',
        ],
{
    let t = module_text(name);
    assert(t.subrange(0, 7) =~= seq!['m', 'o', 'd', 'u', 'l', 'e', ' ']);
    assert(t.subrange(7, 7 + name.len() as int) =~= name);
    assert(t.subrange(7 + name.len() as int, name.len() as int + 13) =~= seq!['\n', '\n', 'e', 'n', 'd', '\n']);
}

/// The text that adding the identity puts in front of a `Project.toml`
/// (everything before the old text).
pub open spec fn added_text(c: Seq<char>, n: Seq<char>, u: Seq<char>) -> Seq<char> {
    with_identity(c, n, u).subrange(0, with_identity(c, n, u).len() - c.len())
}

proof fn lemma_field_of_empty(q: Seq<char>)
    ensures
        field_of(Seq::<char>::empty(), q) is None,
{
    let e = Seq::<char>::empty();
    assert(text_lines(e) =~~= seq![e]);
    let lines = text_lines(e);
    assert(lines.drop_first() =~~= Seq::<Seq<char>>::empty());
    assert(top_level_value(Seq::<Seq<char>>::empty(), q) is None);
    assert(lines[0] == e);
    assert(trim_start_by(e, false) == e);
    assert(trim_end_by(e, false) == e);
    assert(top_level_value(lines, q) == top_level_value(lines.drop_first(), q));
}

/// The text added in front of a project file holds a field exactly for each
/// identity field the old text lacks: the given name when it has no name, the
/// given uuid when it has no uuid, the initial version when it has no
/// version, and nothing for a field it already has, so that no field is
/// written twice.
pub proof fn lemma_added_only_missing_fields(c: Seq<char>, n: Seq<char>, u: Seq<char>)
    requires
        valid_project_name(n),
        is_v4_uuid_text(u),
    ensures
        field_of(added_text(c, n, u), name_key()) == if field_of(c, name_key()) is Some {
            None
        } else {
            Some(n)
        },
        field_of(added_text(c, n, u), uuid_key()) == if field_of(c, uuid_key()) is Some {
            None
        } else {
            Some(u)
        },
        field_of(added_text(c, n, u), version_key()) == if field_of(c, version_key()) is Some {
            None
        } else {
            Some(initial_version())
        },
{
    lemma_keys_plain();
    lemma_name_plain(n);
    lemma_uuid_plain(u);
    let hn = field_of(c, name_key()) is Some;
    let hu = field_of(c, uuid_key()) is Some;
    let hv = field_of(c, version_key()) is Some;
    let pn = if hn {
        Seq::<char>::empty()
    } else {
        field_line(name_key(), n)
    };
    let pu = if hu {
        Seq::<char>::empty()
    } else {
        field_line(uuid_key(), u)
    };
    let pv = if hv {
        Seq::<char>::empty()
    } else {
        field_line(version_key(), initial_version())
    };
    let prefix = identity_prefix(c, n, u);
    assert(prefix == pn + pu + pv);
    let sep = if prefix.len() > 0 && c.len() > 0 {
        seq!['\n']
    } else {
        Seq::<char>::empty()
    };
    let r = with_identity(c, n, u);
    assert(r =~= prefix + sep + c);
    let added = added_text(c, n, u);
    assert(added =~= pn + (pu + (pv + sep)));
    let keys = seq![name_key(), uuid_key(), version_key()];
    assert forall|i: int| 0 <= i < 3 implies #[trigger] field_of(added, keys[i]) == if field_of(
        c,
        keys[i],
    ) is Some {
        None
    } else if i == 0 {
        Some(n)
    } else if i == 1 {
        Some(u)
    } else {
        Some(initial_version())
    } by {
        let q = keys[i];
        lemma_field_of_empty(q);
        if sep.len() > 0 {
            assert(sep =~= seq!['\n'] + Seq::<char>::empty());
            lemma_field_of_blank(Seq::<char>::empty(), q);
        }
        lemma_field_of_piece(hv, version_key(), initial_version(), sep, q);
        lemma_field_of_piece(hu, uuid_key(), u, pv + sep, q);
        lemma_field_of_piece(hn, name_key(), n, pu + (pv + sep), q);
    }
    assert(field_of(added, keys[0]) == field_of(added, name_key()));
    assert(field_of(added, keys[1]) == field_of(added, uuid_key()));
    assert(field_of(added, keys[2]) == field_of(added, version_key()));
}

/// A new project text holds the name, the uuid and the initial version it
/// was made with.
pub proof fn lemma_new_project_fields(n: Seq<char>, u: Seq<char>)
    requires
        valid_project_name(n),
        is_v4_uuid_text(u),
    ensures
        field_of(new_project_text(n, u), name_key()) == Some(n),
        field_of(new_project_text(n, u), uuid_key()) == Some(u),
        field_of(new_project_text(n, u), version_key()) == Some(initial_version()),
{
    lemma_keys_plain();
    lemma_name_plain(n);
    lemma_uuid_plain(u);
    let lv = field_line(version_key(), initial_version());
    let lu = field_line(uuid_key(), u);
    let ln = field_line(name_key(), n);
    assert(new_project_text(n, u) =~= ln + (lu + lv));
    assert(lv =~= lv + Seq::<char>::empty());
    let e = Seq::<char>::empty();
    lemma_field_of_line(version_key(), initial_version(), e, name_key());
    lemma_field_of_line(version_key(), initial_version(), e, uuid_key());
    lemma_field_of_line(version_key(), initial_version(), e, version_key());
    lemma_field_of_line(uuid_key(), u, lv, name_key());
    lemma_field_of_line(uuid_key(), u, lv, uuid_key());
    lemma_field_of_line(uuid_key(), u, lv, version_key());
    lemma_field_of_line(name_key(), n, lu + lv, name_key());
    lemma_field_of_line(name_key(), n, lu + lv, uuid_key());
    lemma_field_of_line(name_key(), n, lu + lv, version_key());
}

/// The position of the first `c` in `v[lo..hi]`, or `hi` when there is none.
fn find_char(v: &Vec<char>, lo: usize, hi: usize, c: char) -> (r: usize)
    requires
        lo <= hi <= v@.len(),
    ensures
        lo <= r <= hi,
        r < hi ==> is_first(v@.subrange(lo as int, hi as int), c, r - lo),
        r == hi ==> !contains_char(v@.subrange(lo as int, hi as int), c),
{
    let mut i = lo;
    while i < hi && v[i] != c
        invariant
            lo <= i <= hi <= v@.len(),
            forall|j: int| lo <= j < i ==> v@[j] != c,
        decreases hi - i,
    {
        i = i + 1;
    }
    let ghost s = v@.subrange(lo as int, hi as int);
    proof {
        if i < hi {
            assert forall|j: int| 0 <= j < i - lo implies s[j] != c by {
                assert(s[j] == v@[lo + j]);
            }
        } else {
            assert forall|j: int| 0 <= j < s.len() implies s[j] != c by {
                assert(s[j] == v@[lo + j]);
            }
        }
    }
    i
}

/// Reads a top-level value of a `Project.toml` text. The scan stops where
/// the first `[table]` begins, so a `name` inside another table is not taken
/// for the project's name.
pub fn read_top_level_value(content: &str, wanted_key: &str) -> (r: Option<String>)
    ensures
        r matches Some(s) ==> field_of(content@, wanted_key@) == Some(s@),
        r is None ==> field_of(content@, wanted_key@) is None,
{
    let v = chars_of(content);
    let key = chars_of(wanted_key);
    let lines = line_ranges(&v);
    let ghost all = text_lines(v@);
    let mut i: usize = 0;
    assert(all.skip(0) =~= all);
    while i < lines.len()
        invariant
            v@ == content@,
            key@ == wanted_key@,
            all == text_lines(v@),
            i <= lines@.len() == all.len(),
            forall|k: int|
                0 <= k < lines@.len() ==> {
                    &&& (#[trigger] lines@[k]).0 <= lines@[k].1 <= v@.len()
                    &&& v@.subrange(lines@[k].0 as int, lines@[k].1 as int) == all[k]
                },
            top_level_value(all, key@) == top_level_value(all.skip(i as int), key@),
        decreases lines@.len() - i,
    {
        let (lo, hi) = lines[i];
        let (a, b) = trim_range(&v, lo, hi);
        let ghost rest = all.skip(i as int);
        let ghost line = v@.subrange(a as int, b as int);
        proof {
            assert(rest[0] == all[i as int]);
            assert(rest.drop_first() =~= all.skip(i + 1));
            assert(line == trim(rest[0]));
            if a < b {
                assert(line[0] == v@[a as int]);
            }
        }
        if a < b && v[a] == '[' {
            return None;
        }
        if a < b && v[a] != '#' {
            let e = find_char(&v, a, b, '=');
            if e < b {
                proof {
                    lemma_first_unique(line, '=', e - a);
                    assert(line.subrange(0, e - a) =~= v@.subrange(a as int, e as int));
                    assert(line.subrange(e - a + 1, line.len() as int) =~= v@.subrange(
                        e + 1,
                        b as int,
                    ));
                }
                let (ka, kb) = trim_range(&v, a, e);
                if range_equals(&v, ka, kb, &key) {
                    let (va, vb) = trim_range(&v, e + 1, b);
                    let qa = skip_start(&v, va, vb, true);
                    let qb = skip_end(&v, qa, vb, true);
                    return Some(string_of(&v, qa, qb));
                }
            }
        }
        i = i + 1;
    }
    assert(all.skip(all.len() as int) =~= Seq::<Seq<char>>::empty());
    None
}

fn append_field_line(r: &mut String, key: &str, value: &str)
    ensures
        final(r)@ == old(r)@ + field_line(key@, value@),
{
    append_str(r, key);
    append_char(r, ' ');
    append_char(r, '=');
    append_char(r, ' ');
    append_char(r, '"');
    append_str(r, value);
    append_char(r, '"');
    append_char(r, '\n');
    assert(final(r)@ =~= old(r)@ + field_line(key@, value@));
}

/// The key literals are the key sequences.
pub proof fn lemma_keys()
    ensures
        "name"@ == name_key(),
        "uuid"@ == uuid_key(),
        "version"@ == version_key(),
        "0.1.0"@ == initial_version(),
{
    reveal_strlit("name");
    reveal_strlit("uuid");
    reveal_strlit("version");
    reveal_strlit("0.1.0");
}

/// The text of a new `Project.toml` for `name` with the given UUID.
pub fn project_toml_text(name: &str, uuid: &str) -> (r: String)
    ensures
        r@ == new_project_text(name@, uuid@),
{
    proof {
        lemma_keys();
    }
    let mut r = String::new();
    append_field_line(&mut r, "name", name);
    append_field_line(&mut r, "uuid", uuid);
    append_field_line(&mut r, "version", "0.1.0");
    assert(r@ =~= new_project_text(name@, uuid@));
    r
}

/// The text of a new `Project.toml` for `name`, with a fresh random UUID;
/// `None` when no random bytes could be had.
pub fn new_project_toml(name: &str) -> (r: Option<String>)
    ensures
        r matches Some(t) ==> exists|u: Seq<char>|
            is_v4_uuid_text(u) && t@ == new_project_text(name@, u),
{
    match uuid_v4() {
        Some(u) => {
            let t = project_toml_text(name, u.as_str());
            assert(is_v4_uuid_text(u@));
            Some(t)
        },
        None => None,
    }
}

/// `content` with the identity lines it lacks put in front, using `uuid`
/// when it has no `uuid`.
pub fn project_with_identity(content: &str, name: &str, uuid: &str) -> (r: String)
    ensures
        r@ == with_identity(content@, name@, uuid@),
{
    proof {
        lemma_keys();
    }
    let has_name = read_top_level_value(content, "name").is_some();
    let has_uuid = read_top_level_value(content, "uuid").is_some();
    let has_version = read_top_level_value(content, "version").is_some();
    let mut r = String::new();
    if !has_name {
        append_field_line(&mut r, "name", name);
    }
    if !has_uuid {
        append_field_line(&mut r, "uuid", uuid);
    }
    if !has_version {
        append_field_line(&mut r, "version", "0.1.0");
    }
    assert(r@ =~= identity_prefix(content@, name@, uuid@));
    if !r.as_str().is_empty() && !content.is_empty() {
        append_char(&mut r, '\n');
    }
    append_str(&mut r, content);
    r
}

/// Adds the missing identity fields to an anonymous `Project.toml` text,
/// keeping everything it already holds. A UUID is drawn only when the text
/// has none; `None` when it was needed and no random bytes could be had.
pub fn add_project_identity(content: &str, name: &str) -> (r: Option<String>)
    ensures
        field_of(content@, uuid_key()) is Some ==> (r matches Some(t) && t@ == with_identity(
            content@,
            name@,
            Seq::<char>::empty(),
        )),
        r matches Some(t) ==> exists|u: Seq<char>|
            #![trigger with_identity(content@, name@, u)]
            (is_v4_uuid_text(u) || field_of(content@, uuid_key()) is Some) && t@ == with_identity(
                content@,
                name@,
                u,
            ),
{
    proof {
        lemma_keys();
    }
    if read_top_level_value(content, "uuid").is_some() {
        let t = project_with_identity(content, name, "");
        proof {
            reveal_strlit("");
            assert(""@ =~= Seq::<char>::empty());
            assert(t@ == with_identity(content@, name@, Seq::<char>::empty()));
            assert(field_of(content@, uuid_key()) is Some);
        }
        Some(t)
    } else {
        match uuid_v4() {
            Some(u) => {
                let t = project_with_identity(content, name, u.as_str());
                assert(is_v4_uuid_text(u@));
                Some(t)
            },
            None => None,
        }
    }
}

/// The text of the module file `src/<name>.jl` that `init --package` creates.
pub fn module_definition(name: &str) -> (r: String)
    ensures
        r@ == module_text(name@),
        r@.subrange(7, 7 + name@.len() as int) == name@,
{
    let mut r = String::new();
    append_str(&mut r, "module ");
    append_str(&mut r, name);
    append_str(&mut r, "\n\nend\n");
    proof {
        reveal_strlit("module ");
        reveal_strlit("\n\nend\n");
    }
    assert(r@ =~= module_text(name@));
    proof {
        lemma_module_named_as_project(name@);
    }
    r
}

} // verus!
