//! Random (version 4) UUIDs in their canonical 8-4-4-4-12 text form.

use vstd::prelude::*;
use crate::text::append_char;

verus! {

/// The lowercase hexadecimal digit of `n` (`n < 16`).
pub open spec fn hex_digit(n: u8) -> char {
    if n < 10 {
        (48 + n) as char
    } else {
        (87 + n) as char
    }
}

/// `{:02x}` of a byte.
pub open spec fn hex_byte(b: u8) -> Seq<char> {
    seq![hex_digit(b / 16), hex_digit(b % 16)]
}

/// Whether a hyphen goes before byte `k` of a UUID.
pub open spec fn group_starts_at(k: int) -> bool {
    k == 4 || k == 6 || k == 8 || k == 10
}

/// The bytes in lowercase hex, with a hyphen before bytes 4, 6, 8 and 10.
pub open spec fn grouped_hex(b: Seq<u8>) -> Seq<char>
    decreases b.len(),
{
    if b.len() == 0 {
        Seq::<char>::empty()
    } else {
        let k = b.len() - 1;
        let sep = if group_starts_at(k) {
            seq!['-']
        } else {
            Seq::<char>::empty()
        };
        grouped_hex(b.drop_last()) + sep + hex_byte(b.last())
    }
}

/// The bytes with the version (4) and variant (RFC 4122) bits set.
pub open spec fn v4_bytes(b: Seq<u8>) -> Seq<u8> {
    b.update(6, (b[6] & 0x0f) | 0x40).update(8, (b[8] & 0x3f) | 0x80)
}

/// The text of the version 4 UUID made from 16 random bytes.
pub open spec fn uuid_text(b: Seq<u8>) -> Seq<char> {
    grouped_hex(v4_bytes(b))
}

pub open spec fn is_lower_hex(c: char) -> bool {
    ('0' <= c && c <= '9') || ('a' <= c && c <= 'f')
}

/// Number of hyphens in the text of the first `k` bytes.
pub open spec fn hyphens_within(k: int) -> int {
    if k > 10 {
        4
    } else if k > 8 {
        3
    } else if k > 6 {
        2
    } else if k > 4 {
        1
    } else {
        0
    }
}

/// Where the two digits of byte `k` begin.
pub open spec fn byte_position(k: int) -> int {
    2 * k + hyphens_within(k + 1)
}

/// The shape of a version 4 UUID: 36 characters, hyphens at 8, 13, 18 and
/// 23, lowercase hex digits elsewhere, `4` at 14 and one of `8 9 a b` at 19.
pub open spec fn is_v4_uuid_text(t: Seq<char>) -> bool {
    &&& t.len() == 36
    &&& forall|i: int| 0 <= i < t.len() ==> is_lower_hex(#[trigger] t[i]) || t[i] == '-'
    &&& t[8] == '-' && t[13] == '-' && t[18] == '-' && t[23] == '-'
    &&& forall|k: int|
        0 <= k < 16 ==> is_lower_hex(#[trigger] t[byte_position(k)]) && is_lower_hex(
            t[byte_position(k) + 1],
        )
    &&& t[14] == '4'
    &&& (t[19] == '8' || t[19] == '9' || t[19] == 'a' || t[19] == 'b')
}

proof fn lemma_grouped_layout(b: Seq<u8>)
    requires
        b.len() <= 16,
    ensures
        grouped_hex(b).len() == 2 * b.len() + hyphens_within(b.len() as int),
        forall|k: int|
            0 <= k < b.len() ==> grouped_hex(b)[#[trigger] byte_position(k)] == hex_digit(b[k] / 16)
                && grouped_hex(b)[byte_position(k) + 1] == hex_digit(b[k] % 16),
        forall|k: int|
            0 <= k < b.len() && group_starts_at(k) ==> grouped_hex(b)[#[trigger] byte_position(k)
                - 1] == '-',
        forall|i: int|
            0 <= i < grouped_hex(b).len() ==> is_lower_hex(#[trigger] grouped_hex(b)[i])
                || grouped_hex(b)[i] == '-',
    decreases b.len(),
{
    if b.len() > 0 {
        let p = b.drop_last();
        lemma_grouped_layout(p);
        let k = b.len() - 1;
        let sep = if group_starts_at(k) {
            seq!['-']
        } else {
            Seq::<char>::empty()
        };
        let g = grouped_hex(b);
        assert(g == grouped_hex(p) + sep + hex_byte(b.last()));
        assert forall|j: int| 0 <= j < b.len() implies g[#[trigger] byte_position(j)] == hex_digit(
            b[j] / 16,
        ) && g[byte_position(j) + 1] == hex_digit(b[j] % 16) by {
            if j < k {
                assert(p[j] == b[j]);
            }
        }
        assert forall|j: int| 0 <= j < b.len() && group_starts_at(j) implies g[#[trigger] byte_position(j)
            - 1] == '-' by {
            if j < k {
                assert(p[j] == b[j]);
            }
        }
        let x = b.last();
        assert(x / 16 < 16) by (bit_vector);
        assert(x % 16 < 16) by (bit_vector);
        lemma_hex_digit(x / 16);
        lemma_hex_digit(x % 16);
        assert forall|i: int| 0 <= i < g.len() implies is_lower_hex(#[trigger] g[i]) || g[i]
            == '-' by {
            let q = grouped_hex(p);
            if i < q.len() {
                assert(g[i] == q[i]);
            }
        }
    }
}

proof fn lemma_hex_digit(n: u8)
    requires
        n < 16,
    ensures
        is_lower_hex(hex_digit(n)),
{
}

/// Every UUID text has the shape of a version 4 UUID.
pub proof fn lemma_uuid_text_shape(b: Seq<u8>)
    requires
        b.len() == 16,
    ensures
        is_v4_uuid_text(uuid_text(b)),
{
    let s = v4_bytes(b);
    lemma_grouped_layout(s);
    let t = uuid_text(b);
    assert forall|k: int| 0 <= k < 16 implies is_lower_hex(#[trigger] t[byte_position(k)])
        && is_lower_hex(t[byte_position(k) + 1]) by {
        let x = s[k];
        assert(x / 16 < 16) by (bit_vector);
        assert(x % 16 < 16) by (bit_vector);
        lemma_hex_digit(x / 16);
        lemma_hex_digit(x % 16);
    }
    assert(t[byte_position(4) - 1] == '-');
    assert(t[byte_position(6) - 1] == '-');
    assert(t[byte_position(8) - 1] == '-');
    assert(t[byte_position(10) - 1] == '-');
    let x6 = b[6];
    let x8 = b[8];
    assert(((x6 & 0x0f) | 0x40) / 16 == 4) by (bit_vector);
    assert(8 <= ((x8 & 0x3f) | 0x80) / 16 <= 11) by (bit_vector);
    assert(t[byte_position(6)] == hex_digit(s[6] / 16));
    assert(t[byte_position(8)] == hex_digit(s[8] / 16));
}

fn hex_char(n: u8) -> (c: char)
    requires
        n < 16,
    ensures
        c == hex_digit(n),
{
    if n < 10 {
        (48 + n) as char
    } else {
        (87 + n) as char
    }
}

/// The text of the version 4 UUID made from `bytes`: the version and variant
/// bits are set, then the bytes are written in lowercase hex as 8-4-4-4-12.
pub fn format_uuid_v4(bytes: [u8; 16]) -> (r: String)
    ensures
        r@ == uuid_text(bytes@),
        is_v4_uuid_text(r@),
{
    let mut b = bytes;
    b[6] = (b[6] & 0x0f) | 0x40;
    b[8] = (b[8] & 0x3f) | 0x80;
    assert(b@ =~= v4_bytes(bytes@));
    let mut r = String::new();
    let mut i: usize = 0;
    while i < 16
        invariant
            i <= 16,
            b@.len() == 16,
            r@ == grouped_hex(b@.subrange(0, i as int)),
        decreases 16 - i,
    {
        let ghost pre = b@.subrange(0, i as int);
        let ghost cur = b@.subrange(0, i + 1);
        assert(cur.drop_last() =~= pre);
        if i == 4 || i == 6 || i == 8 || i == 10 {
            append_char(&mut r, '-');
        }
        let x = b[i];
        assert(x / 16 < 16) by (bit_vector);
        assert(x % 16 < 16) by (bit_vector);
        append_char(&mut r, hex_char(x / 16));
        append_char(&mut r, hex_char(x % 16));
        assert(r@ =~= grouped_hex(cur));
        i = i + 1;
    }
    assert(b@.subrange(0, 16) =~= b@);
    proof {
        lemma_uuid_text_shape(bytes@);
    }
    r
}

#[verifier::external_type_specification]
#[verifier::external_body]
pub struct ExRandomError(getrandom::Error);

/// `getrandom::fill`: asks the operating system's random source to fill
/// `dest`. Nothing is claimed of the bytes it writes, nor of whether it
/// succeeds; on an error the contents of `dest` are unspecified.
#[verifier::external_body]
fn fill_random(dest: &mut [u8; 16]) -> (r: Result<(), getrandom::Error>) {
    getrandom::fill(dest)
}

/// A new random version 4 UUID, or `None` when the operating system's random
/// source fails.
pub fn uuid_v4() -> (r: Option<String>)
    ensures
        r matches Some(t) ==> is_v4_uuid_text(t@),
        r matches Some(t) ==> exists|b: Seq<u8>| b.len() == 16 && t@ == uuid_text(b),
{
    let mut bytes: [u8; 16] = [0u8; 16];
    match fill_random(&mut bytes) {
        Ok(()) => {
            let t = format_uuid_v4(bytes);
            assert(bytes@.len() == 16);
            Some(t)
        },
        Err(_) => None,
    }
}

} // verus!
