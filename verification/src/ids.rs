//! The canonical textual identifier form used by the change feed and by the
//! rendered markup: 36 characters, 32 hexadecimal digits in five groups
//! separated by hyphens at positions 8, 13, 18 and 23. An identifier value is
//! the 128-bit integer written by the 32 digits, most significant first.

use vstd::prelude::*;

verus! {

/// A hexadecimal digit of the canonical textual form.
pub open spec fn is_hex_digit(c: char) -> bool {
    ('0' <= c && c <= '9') || ('a' <= c && c <= 'f') || ('A' <= c && c <= 'F')
}

/// The numeric value of a hexadecimal digit.
pub open spec fn hex_digit_value(c: char) -> int {
    if '0' <= c && c <= '9' {
        c as int - '0' as int
    } else if 'a' <= c && c <= 'f' {
        10 + c as int - 'a' as int
    } else {
        10 + c as int - 'A' as int
    }
}

/// The positions of the canonical form that hold a hyphen.
pub open spec fn is_hyphen_position(i: int) -> bool {
    i == 8 || i == 13 || i == 18 || i == 23
}

/// How many hyphens lie strictly before position `i` of the canonical form.
pub open spec fn hyphens_before(i: int) -> int {
    if i <= 8 {
        0
    } else if i <= 13 {
        1
    } else if i <= 18 {
        2
    } else if i <= 23 {
        3
    } else {
        4
    }
}

/// The character at position `i` of a canonical identifier text.
pub open spec fn canonical_char_at(s: Seq<char>, i: int) -> bool {
    if is_hyphen_position(i) {
        s[i] == '-'
    } else {
        is_hex_digit(s[i])
    }
}

/// A sequence of characters is an identifier in canonical textual form.
pub open spec fn is_canonical_id(s: Seq<char>) -> bool {
    s.len() == 36 && forall|i: int| 0 <= i < 36 ==> canonical_char_at(s, i)
}

/// The value written by the first `n` characters of an identifier text,
/// hyphens passed over.
pub open spec fn id_value_prefix(s: Seq<char>, n: int) -> int
    decreases n,
{
    if n <= 0 {
        0
    } else if s[n - 1] == '-' {
        id_value_prefix(s, n - 1)
    } else {
        id_value_prefix(s, n - 1) * 16 + hex_digit_value(s[n - 1])
    }
}

/// The 128-bit value written by a canonical identifier text.
pub open spec fn id_value(s: Seq<char>) -> int {
    id_value_prefix(s, 36)
}

/// Sixteen to the power `n`.
pub open spec fn pow16(n: nat) -> int
    decreases n,
{
    if n == 0 {
        1
    } else {
        16 * pow16((n - 1) as nat)
    }
}

/// The value of an identifier text prefix is bounded by sixteen to the number
/// of digits read so far.
proof fn lemma_prefix_bound(s: Seq<char>, n: int)
    requires
        0 <= n <= 36,
        forall|i: int| 0 <= i < n ==> canonical_char_at(s, i),
    ensures
        0 <= id_value_prefix(s, n) < pow16((n - hyphens_before(n)) as nat),
    decreases n,
{
    if n > 0 {
        lemma_prefix_bound(s, n - 1);
        assert(canonical_char_at(s, n - 1));
        if is_hyphen_position(n - 1) {
            assert(hyphens_before(n) == hyphens_before(n - 1) + 1);
        } else {
            assert(s[n - 1] != '-');
            assert(hyphens_before(n) == hyphens_before(n - 1));
            assert(0 <= hex_digit_value(s[n - 1]) < 16);
            assert(pow16((n - hyphens_before(n)) as nat) == 16 * pow16(
                (n - 1 - hyphens_before(n - 1)) as nat,
            ));
        }
    }
}

fn hex_value_of(c: char) -> (r: Option<u8>)
    ensures
        r is Some <==> is_hex_digit(c),
        r is Some ==> r->Some_0 == hex_digit_value(c) && r->Some_0 < 16,
{
    if '0' <= c && c <= '9' {
        Some(c as u8 - ('0' as u8))
    } else if 'a' <= c && c <= 'f' {
        Some(10 + c as u8 - ('a' as u8))
    } else if 'A' <= c && c <= 'F' {
        Some(10 + c as u8 - ('A' as u8))
    } else {
        None
    }
}

/// Parse one identifier from the canonical textual form.
///
/// Succeeds exactly on canonical 36-character texts and returns the value
/// their digits write.
pub fn parse_id(s: &str) -> (r: Option<u128>)
    ensures
        r is Some <==> is_canonical_id(s@),
        r is Some ==> r->Some_0 == id_value(s@),
{
    let n = s.unicode_len();
    if n != 36 {
        return None;
    }
    let mut acc: u128 = 0;
    let mut i: usize = 0;
    while i < 36
        invariant
            0 <= i <= 36,
            s@.len() == 36,
            forall|j: int| 0 <= j < i ==> canonical_char_at(s@, j),
            acc == id_value_prefix(s@, i as int),
        decreases 36 - i,
    {
        let c = s.get_char(i);
        if i == 8 || i == 13 || i == 18 || i == 23 {
            if c != '-' {
                assert(!canonical_char_at(s@, i as int));
                assert(!is_canonical_id(s@));
                return None;
            }
            assert(id_value_prefix(s@, i + 1) == id_value_prefix(s@, i as int));
        } else {
            match hex_value_of(c) {
                Some(d) => {
                    proof {
                        lemma_prefix_bound(s@, i as int);
                        assert(i - hyphens_before(i as int) <= 31);
                        lemma_pow16_increases((i - hyphens_before(i as int)) as nat, 31);
                        assert(pow16(31) == 0x10000000000000000000000000000000) by {
                            reveal_with_fuel(pow16, 32);
                        }
                    }
                    acc = acc * 16 + (d as u128);
                    assert(!is_hyphen_position(i as int));
                    assert(s@[i as int] != '-');
                },
                None => {
                    assert(!canonical_char_at(s@, i as int));
                    assert(!is_canonical_id(s@));
                    return None;
                },
            }
        }
        i += 1;
    }
    Some(acc)
}

/// `pow16` does not decrease as the exponent grows.
proof fn lemma_pow16_increases(a: nat, b: nat)
    requires
        a <= b,
    ensures
        pow16(a) <= pow16(b),
    decreases b,
{
    if a < b {
        lemma_pow16_increases(a, (b - 1) as nat);
        lemma_pow16_positive(b);
    }
}

/// `pow16` is positive.
proof fn lemma_pow16_positive(n: nat)
    ensures
        pow16(n) >= 1,
    decreases n,
{
    if n > 0 {
        lemma_pow16_positive((n - 1) as nat);
    }
}

/// How far the digit at position `k` (most significant first) is shifted.
pub open spec fn shift_amount(k: int) -> u128 {
    (4 * (31 - k)) as u128
}

/// The digit at position `k` of the 32 hexadecimal digits of `v`,
/// most significant first.
pub open spec fn nibble_of(v: u128, k: int) -> u128 {
    (v >> shift_amount(k)) & 0xf
}

/// The lower-case hexadecimal character for a digit value below sixteen.
pub open spec fn hex_char_of(d: u128) -> char {
    if d == 0 {
        '0'
    } else if d == 1 {
        '1'
    } else if d == 2 {
        '2'
    } else if d == 3 {
        '3'
    } else if d == 4 {
        '4'
    } else if d == 5 {
        '5'
    } else if d == 6 {
        '6'
    } else if d == 7 {
        '7'
    } else if d == 8 {
        '8'
    } else if d == 9 {
        '9'
    } else if d == 10 {
        'a'
    } else if d == 11 {
        'b'
    } else if d == 12 {
        'c'
    } else if d == 13 {
        'd'
    } else if d == 14 {
        'e'
    } else {
        'f'
    }
}

/// The canonical textual form of the identifier value `v`.
pub open spec fn id_seq(v: u128) -> Seq<char> {
    Seq::new(36, |i: int| if is_hyphen_position(i) {
        '-'
    } else {
        hex_char_of(nibble_of(v, i - hyphens_before(i)))
    })
}

fn nibble_at(v: u128, k: usize) -> (d: u128)
    requires
        k < 32,
    ensures
        d == nibble_of(v, k as int),
        d < 16,
{
    let sh: u128 = (4 * (31 - k)) as u128;
    assert(sh == shift_amount(k as int));
    let d = (v >> sh) & 0xf;
    assert((v >> sh) & 0xf < 16) by (bit_vector);
    d
}

fn hex_char_at(d: u128) -> (c: char)
    requires
        d < 16,
    ensures
        c == hex_char_of(d),
{
    if d == 0 {
        '0'
    } else if d == 1 {
        '1'
    } else if d == 2 {
        '2'
    } else if d == 3 {
        '3'
    } else if d == 4 {
        '4'
    } else if d == 5 {
        '5'
    } else if d == 6 {
        '6'
    } else if d == 7 {
        '7'
    } else if d == 8 {
        '8'
    } else if d == 9 {
        '9'
    } else if d == 10 {
        'a'
    } else if d == 11 {
        'b'
    } else if d == 12 {
        'c'
    } else if d == 13 {
        'd'
    } else if d == 14 {
        'e'
    } else {
        'f'
    }
}

/// Write the identifier value `v` in its canonical textual form,
/// one character per element.
pub fn id_chars(v: u128) -> (r: Vec<char>)
    ensures
        r@ == id_seq(v),
{
    let mut out: Vec<char> = Vec::new();
    let mut i: usize = 0;
    while i < 36
        invariant
            0 <= i <= 36,
            out@.len() == i,
            forall|j: int| 0 <= j < i ==> out@[j] == id_seq(v)[j],
        decreases 36 - i,
    {
        if i == 8 || i == 13 || i == 18 || i == 23 {
            out.push('-');
        } else {
            let h: usize = if i < 8 {
                0
            } else if i < 13 {
                1
            } else if i < 18 {
                2
            } else if i < 23 {
                3
            } else {
                4
            };
            assert(h == hyphens_before(i as int));
            let d = nibble_at(v, i - h);
            out.push(hex_char_at(d));
        }
        i += 1;
    }
    assert(out@ =~= id_seq(v));
    out
}

/// The canonical textual form of the identifier value `v`, as a string.
pub fn id_string(v: u128) -> (r: String)
    ensures
        r@ == id_seq(v),
{
    let c = id_chars(v);
    crate::text::chars_to_string(&c)
}

/// Reading back the character written for a digit yields the digit.
proof fn lemma_hex_char_value(d: u128)
    requires
        d < 16,
    ensures
        is_hex_digit(hex_char_of(d)),
        hex_char_of(d) != '-',
        hex_digit_value(hex_char_of(d)) == d,
{
}

/// The canonical text of a value is canonical.
pub proof fn lemma_id_seq_canonical(v: u128)
    ensures
        is_canonical_id(id_seq(v)),
{
    assert forall|i: int| 0 <= i < 36 implies canonical_char_at(id_seq(v), i) by {
        if !is_hyphen_position(i) {
            let k = i - hyphens_before(i);
            let sh = shift_amount(k);
            assert((v >> sh) & 0xf < 16) by (bit_vector);
            lemma_hex_char_value(nibble_of(v, k));
        }
    }
}

/// The value written by the first `n` characters of a value's canonical
/// text: the digits read so far are the value's topmost nibbles.
proof fn lemma_id_seq_value_prefix(v: u128, n: int)
    requires
        0 <= n <= 36,
    ensures
        ({
            let k = n - hyphens_before(n);
            if k == 0 {
                id_value_prefix(id_seq(v), n) == 0
            } else {
                id_value_prefix(id_seq(v), n) == v >> ((4 * (32 - k)) as u128)
            }
        }),
    decreases n,
{
    if n > 0 {
        lemma_id_seq_value_prefix(v, n - 1);
        let s = id_seq(v);
        if is_hyphen_position(n - 1) {
            assert(s[n - 1] == '-');
        } else {
            let k = n - 1 - hyphens_before(n - 1);
            let sh = shift_amount(k);
            assert(s[n - 1] == hex_char_of(nibble_of(v, k)));
            assert((v >> sh) & 0xf < 16) by (bit_vector);
            lemma_hex_char_value(nibble_of(v, k));
            assert(id_value_prefix(s, n) == id_value_prefix(s, n - 1) * 16 + nibble_of(v, k));
            if k == 0 {
                assert(sh == 124);
                assert((v >> 124u128) & 0xf == v >> 124u128) by (bit_vector);
            } else {
                let shp = (4 * (32 - k)) as u128;
                assert(shp == sh + 4);
                assert((v >> shp) * 16 + ((v >> sh) & 0xf) == v >> sh) by (bit_vector)
                    requires
                        shp == sh + 4,
                        sh <= 120,
                ;
            }
        }
    }
}

/// Writing a value in canonical textual form and reading it back yields
/// the value: the identifier text determines the identifier.
pub proof fn lemma_id_round_trip(v: u128)
    ensures
        is_canonical_id(id_seq(v)),
        id_value(id_seq(v)) == v,
{
    lemma_id_seq_canonical(v);
    lemma_id_seq_value_prefix(v, 36);
    assert(v >> 0u128 == v) by (bit_vector);
}

/// The version digit of an identifier value.
pub open spec fn id_version(v: u128) -> u128 {
    (v >> 76) & 0xf
}

/// An identifier embeds its creation time when its version digit is one,
/// six or seven; no other version in use carries one.
pub open spec fn has_creation_time(v: u128) -> bool {
    id_version(v) == 1 || id_version(v) == 6 || id_version(v) == 7
}

/// The millisecond timestamp written in the top 48 bits of a
/// version-seven identifier.
pub open spec fn v7_timestamp_ms(v: u128) -> u128 {
    v >> 80
}

/// The 100-nanosecond Gregorian tick count written in a version-one
/// identifier: the low, middle and high time fields in their scattered
/// positions.
pub open spec fn v1_gregorian_ticks(v: u128) -> u128 {
    (((v >> 64) & 0xfff) << 48) | (((v >> 80) & 0xffff) << 32) | ((v >> 96) & 0xffffffff)
}

/// The 100-nanosecond Gregorian tick count written in a version-six
/// identifier: the same sixty bits as version one, laid out most
/// significant first.
pub open spec fn v6_gregorian_ticks(v: u128) -> u128 {
    (((v >> 96) & 0xffffffff) << 28) | (((v >> 80) & 0xffff) << 12) | ((v >> 64) & 0xfff)
}

/// The ticks between the Gregorian epoch (1582-10-15) and the Unix epoch.
pub open spec fn gregorian_unix_offset_ticks() -> int {
    0x01B21DD213814000
}

/// Unix milliseconds from a Gregorian tick count, as the reference
/// timestamp arithmetic computes them: the epoch offset is subtracted with
/// 64-bit wrap-around, then whole milliseconds are taken.
pub open spec fn gregorian_to_unix_ms(ticks: int) -> int {
    let w = if ticks >= gregorian_unix_offset_ticks() {
        ticks - gregorian_unix_offset_ticks()
    } else {
        ticks - gregorian_unix_offset_ticks() + 0x10000000000000000
    };
    w / 10000
}

/// The creation time embedded in an identifier, in milliseconds since the
/// Unix epoch.
pub open spec fn creation_ms(v: u128) -> int
    recommends
        has_creation_time(v),
{
    if id_version(v) == 7 {
        v7_timestamp_ms(v) as int
    } else if id_version(v) == 1 {
        gregorian_to_unix_ms(v1_gregorian_ticks(v) as int)
    } else {
        gregorian_to_unix_ms(v6_gregorian_ticks(v) as int)
    }
}

/// The creation time of an entity, read from its identifier.
///
/// Identifiers of versions one and six carry it as a 60-bit Gregorian tick
/// count, version seven as Unix milliseconds in the top 48 bits; every
/// other version carries none. The result is bounded well inside the range
/// a calendar can represent.
pub fn creation_time_ms(id: u128) -> (r: Option<u64>)
    ensures
        r is Some <==> has_creation_time(id),
        r is Some ==> r->Some_0 == creation_ms(id) && r->Some_0 <= 0x68db8bac710cb,
{
    let ver = (id >> 76) & 0xf;
    if ver == 7 {
        let ts = id >> 80;
        assert(id >> 80 < 0x1000000000000u128) by (bit_vector);
        Some(ts as u64)
    } else if ver == 1 || ver == 6 {
        let ticks: u128 = if ver == 1 {
            (((id >> 64) & 0xfff) << 48) | (((id >> 80) & 0xffff) << 32) | ((id >> 96)
                & 0xffffffff)
        } else {
            (((id >> 96) & 0xffffffff) << 28) | (((id >> 80) & 0xffff) << 12) | ((id >> 64)
                & 0xfff)
        };
        proof {
            let t = id;
            assert(((((t >> 64) & 0xfff) << 48) | (((t >> 80) & 0xffff) << 32) | ((t >> 96)
                & 0xffffffff)) < 0x1000000000000000u128) by (bit_vector);
            assert(((((t >> 96) & 0xffffffff) << 28) | (((t >> 80) & 0xffff) << 12) | ((t >> 64)
                & 0xfff)) < 0x1000000000000000u128) by (bit_vector);
        }
        let w: u128 = if ticks >= 0x01B21DD213814000 {
            ticks - 0x01B21DD213814000
        } else {
            ticks + (0x10000000000000000u128 - 0x01B21DD213814000)
        };
        let ms = w / 10000;
        proof {
            assert(w < 0x10000000000000000);
            vstd::arithmetic::div_mod::lemma_div_is_ordered(
                w as int,
                0xffffffffffffffffu128 as int,
                10000,
            );
        }
        Some(ms as u64)
    } else {
        None
    }
}

} // verus!
