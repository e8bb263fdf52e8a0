//! Identifiers and their canonical text form.
//!
//! An identifier is a 128-bit value. In storage and in URLs it appears in
//! its canonical text form: 32 lowercase hexadecimal digits in five groups
//! of 8, 4, 4, 4 and 12, separated by hyphens. Parsing also accepts
//! uppercase digits; encoding always emits lowercase.
use vstd::prelude::*;
use vstd::arithmetic::div_mod::{lemma_basic_div, lemma_div_denominator, lemma_fundamental_div_mod};

verus! {

/// 16 raised to `e`.
pub open spec fn pow16(e: nat) -> int
    decreases e,
{
    if e == 0 {
        1
    } else {
        16 * pow16((e - 1) as nat)
    }
}

pub proof fn lemma_pow16_pos(e: nat)
    ensures
        pow16(e) >= 1,
    decreases e,
{
    if e > 0 {
        lemma_pow16_pos((e - 1) as nat);
    }
}

pub proof fn lemma_pow16_le(a: nat, b: nat)
    requires
        a <= b,
    ensures
        pow16(a) <= pow16(b),
    decreases b,
{
    if a < b {
        lemma_pow16_le(a, (b - 1) as nat);
        lemma_pow16_pos((b - 1) as nat);
    }
}

/// The positions of the four hyphens in the 36-character text form.
pub open spec fn is_hyphen_pos(i: int) -> bool {
    i == 8 || i == 13 || i == 18 || i == 23
}

/// Which hexadecimal digit (0 = most significant) stands at text position
/// `i`, for a non-hyphen position.
pub open spec fn digit_index(i: int) -> int {
    if i < 8 {
        i
    } else if i < 13 {
        i - 1
    } else if i < 18 {
        i - 2
    } else if i < 23 {
        i - 3
    } else {
        i - 4
    }
}

/// How many digit positions (non-hyphen positions) lie before text
/// position `i`.
pub open spec fn digits_before(i: int) -> int {
    if i <= 8 {
        i
    } else if i <= 13 {
        i - 1
    } else if i <= 18 {
        i - 2
    } else if i <= 23 {
        i - 3
    } else {
        i - 4
    }
}

/// The text position of hexadecimal digit `j` (0 = most significant).
pub open spec fn pos_of_digit(j: int) -> int {
    if j < 8 {
        j
    } else if j < 12 {
        j + 1
    } else if j < 16 {
        j + 2
    } else if j < 20 {
        j + 3
    } else {
        j + 4
    }
}

/// Hexadecimal digit `j` (0 = most significant) of `v`.
pub open spec fn nibble_of(v: u128, j: int) -> int {
    (v as int / pow16((31 - j) as nat)) % 16
}

/// The lowercase hexadecimal character for a digit value.
pub open spec fn hex_char_of(n: int) -> char {
    if n == 0 {
        '0'
    } else if n == 1 {
        '1'
    } else if n == 2 {
        '2'
    } else if n == 3 {
        '3'
    } else if n == 4 {
        '4'
    } else if n == 5 {
        '5'
    } else if n == 6 {
        '6'
    } else if n == 7 {
        '7'
    } else if n == 8 {
        '8'
    } else if n == 9 {
        '9'
    } else if n == 10 {
        'a'
    } else if n == 11 {
        'b'
    } else if n == 12 {
        'c'
    } else if n == 13 {
        'd'
    } else if n == 14 {
        'e'
    } else {
        'f'
    }
}

/// The digit value of a hexadecimal character, either case, or `None`.
pub open spec fn hex_val_of(c: char) -> Option<int> {
    let u = c as int;
    if 48 <= u && u <= 57 {
        Some(u - 48)
    } else if 97 <= u && u <= 102 {
        Some(u - 87)
    } else if 65 <= u && u <= 70 {
        Some(u - 55)
    } else {
        None
    }
}

/// The character at position `i` of the canonical text form of `v`.
pub open spec fn id_char_at(v: u128, i: int) -> char {
    if is_hyphen_pos(i) {
        '-'
    } else {
        hex_char_of(nibble_of(v, digit_index(i)))
    }
}

/// The canonical text form of identifier `v`.
pub open spec fn id_text_of(v: u128) -> Seq<char> {
    Seq::new(36, |i: int| id_char_at(v, i))
}

/// Whether `s` is a well-formed identifier text: 36 characters, hyphens at
/// the four group boundaries, hexadecimal digits everywhere else.
pub open spec fn is_id_text(s: Seq<char>) -> bool {
    &&& s.len() == 36
    &&& forall|i: int|
        0 <= i < 36 ==> (if is_hyphen_pos(i) {
            s[i] == '-'
        } else {
            hex_val_of(#[trigger] s[i]) is Some
        })
}

/// The value of the first `k` hexadecimal digits of a well-formed
/// identifier text, most significant first.
pub open spec fn digits_value(s: Seq<char>, k: int) -> int
    decreases k,
{
    if k <= 0 {
        0
    } else {
        digits_value(s, k - 1) * 16 + hex_val_of(s[pos_of_digit(k - 1)])->Some_0
    }
}

/// The identifier a text denotes, or `None` where the text is not a
/// well-formed identifier text.
pub open spec fn id_of_text(s: Seq<char>) -> Option<u128> {
    if is_id_text(s) {
        Some(digits_value(s, 32) as u128)
    } else {
        None
    }
}

/// The digit characters of the canonical text form denote the digits of
/// the value: `hex_val_of` undoes `hex_char_of`.
proof fn lemma_hex_char_val(n: int)
    requires
        0 <= n < 16,
    ensures
        hex_val_of(hex_char_of(n)) == Some(n),
{
}

proof fn lemma_pow16_32()
    ensures
        pow16(32) == 0x100000000000000000000000000000000,
{
    assert(pow16(0) == 1);
    assert(pow16(1) == 16);
    assert(pow16(2) == 0x100);
    assert(pow16(3) == 0x1000);
    assert(pow16(4) == 0x10000);
    assert(pow16(5) == 0x100000);
    assert(pow16(6) == 0x1000000);
    assert(pow16(7) == 0x10000000);
    assert(pow16(8) == 0x100000000);
    assert(pow16(9) == 0x1000000000);
    assert(pow16(10) == 0x10000000000);
    assert(pow16(11) == 0x100000000000);
    assert(pow16(12) == 0x1000000000000);
    assert(pow16(13) == 0x10000000000000);
    assert(pow16(14) == 0x100000000000000);
    assert(pow16(15) == 0x1000000000000000);
    assert(pow16(16) == 0x10000000000000000);
    assert(pow16(17) == 0x100000000000000000);
    assert(pow16(18) == 0x1000000000000000000);
    assert(pow16(19) == 0x10000000000000000000);
    assert(pow16(20) == 0x100000000000000000000);
    assert(pow16(21) == 0x1000000000000000000000);
    assert(pow16(22) == 0x10000000000000000000000);
    assert(pow16(23) == 0x100000000000000000000000);
    assert(pow16(24) == 0x1000000000000000000000000);
    assert(pow16(25) == 0x10000000000000000000000000);
    assert(pow16(26) == 0x100000000000000000000000000);
    assert(pow16(27) == 0x1000000000000000000000000000);
    assert(pow16(28) == 0x10000000000000000000000000000);
    assert(pow16(29) == 0x100000000000000000000000000000);
    assert(pow16(30) == 0x1000000000000000000000000000000);
    assert(pow16(31) == 0x10000000000000000000000000000000);
    assert(pow16(32) == 0x100000000000000000000000000000000);
}

/// For every prefix length `k`, the first `k` digits of the canonical text
/// of `v` denote the top `k` nibbles of `v`.
proof fn lemma_digits_of_text(v: u128, k: int)
    requires
        0 <= k <= 32,
    ensures
        digits_value(id_text_of(v), k) == v as int / pow16((32 - k) as nat),
    decreases k,
{
    let s = id_text_of(v);
    lemma_pow16_pos((32 - k) as nat);
    if k == 0 {
        lemma_pow16_32();
        assert((v as int) < pow16(32));
        lemma_basic_div(v as int, pow16(32));
    } else {
        lemma_digits_of_text(v, k - 1);
        let j = k - 1;
        let p = pos_of_digit(j);
        assert(!is_hyphen_pos(p) && digit_index(p) == j && 0 <= p < 36);
        assert(s[p] == hex_char_of(nibble_of(v, j)));
        assert(0 <= nibble_of(v, j) < 16);
        lemma_hex_char_val(nibble_of(v, j));
        assert(hex_val_of(s[p]) == Some(nibble_of(v, j)));
        // 31 - j == 32 - k
        let x = v as int / pow16((32 - k) as nat);
        assert(nibble_of(v, j) == x % 16);
        // top (k-1) digits == x / 16
        lemma_pow16_pos((32 - k) as nat);
        lemma_div_denominator(v as int, pow16((32 - k) as nat), 16);
        assert(pow16((33 - k) as nat) == 16 * pow16((32 - k) as nat));
        assert(v as int / pow16((33 - k) as nat) == x / 16) by {
            assert(pow16((32 - k) as nat) * 16 == 16 * pow16((32 - k) as nat)) by {
                vstd::arithmetic::mul::lemma_mul_is_commutative(pow16((32 - k) as nat), 16);
            }
        }
        lemma_fundamental_div_mod(x, 16);
        assert(digits_value(s, k) == (x / 16) * 16 + x % 16);
        assert((x / 16) * 16 == 16 * (x / 16)) by {
            vstd::arithmetic::mul::lemma_mul_is_commutative(x / 16, 16);
        }
    }
}

/// Round trip: the canonical text of an identifier parses back to that
/// same identifier.
pub proof fn lemma_text_round_trip(v: u128)
    ensures
        id_of_text(id_text_of(v)) == Some(v),
{
    let s = id_text_of(v);
    assert forall|i: int| 0 <= i < 36 implies (if is_hyphen_pos(i) {
        s[i] == '-'
    } else {
        hex_val_of(#[trigger] s[i]) is Some
    }) by {
        if !is_hyphen_pos(i) {
            assert(0 <= nibble_of(v, digit_index(i)) < 16);
            lemma_hex_char_val(nibble_of(v, digit_index(i)));
        }
    }
    assert(is_id_text(s));
    lemma_digits_of_text(v, 32);
    assert(pow16(0) == 1);
    assert(digits_value(s, 32) == v as int);
}

/// Canonical texts are distinct for distinct identifiers.
pub proof fn lemma_text_injective(a: u128, b: u128)
    requires
        id_text_of(a) == id_text_of(b),
    ensures
        a == b,
{
    lemma_text_round_trip(a);
    lemma_text_round_trip(b);
}

/// Generates a fresh random identifier.
///
/// Relies on `uuid::Uuid::new_v4` and `uuid::Uuid::as_u128`: `new_v4`
/// draws random bits and masks in the version nibble (4) and the variant
/// bits (binary 10); `as_u128` reads the sixteen bytes back big-endian.
/// Nothing more is promised of a random value: distinct calls may in
/// principle return equal values. `new_v4` panics if the operating
/// system's randomness source fails — an environmental failure, not one
/// any input can cause.
#[verifier::external_body]
pub(crate) fn generate_id() -> (r: u128)
    ensures
        (r >> 76) & 0xf == 4,
        (r >> 62) & 0x3 == 2,
{
    uuid::Uuid::new_v4().as_u128()
}

/// The one-character string for a hexadecimal digit value.
fn hex_str(d: u8) -> (r: &'static str)
    requires
        d < 16,
    ensures
        r@ =~= seq![hex_char_of(d as int)],
{
    proof {
        reveal_strlit("0");
        reveal_strlit("1");
        reveal_strlit("2");
        reveal_strlit("3");
        reveal_strlit("4");
        reveal_strlit("5");
        reveal_strlit("6");
        reveal_strlit("7");
        reveal_strlit("8");
        reveal_strlit("9");
        reveal_strlit("a");
        reveal_strlit("b");
        reveal_strlit("c");
        reveal_strlit("d");
        reveal_strlit("e");
        reveal_strlit("f");
    }
    match d {
        0 => "0",
        1 => "1",
        2 => "2",
        3 => "3",
        4 => "4",
        5 => "5",
        6 => "6",
        7 => "7",
        8 => "8",
        9 => "9",
        10 => "a",
        11 => "b",
        12 => "c",
        13 => "d",
        14 => "e",
        _ => "f",
    }
}

/// Encodes an identifier as its canonical text form.
pub fn encode_id(v: u128) -> (r: String)
    ensures
        r@ == id_text_of(v),
        id_of_text(r@) == Some(v),
{
    let mut out = String::new();
    // p holds 16^(31 - j) while digit j is the next to emit
    let mut p: u128 = 0x10000000000000000000000000000000;
    let mut j: usize = 0;
    let mut i: usize = 0;
    proof {
        lemma_pow16_32();
        assert(pow16(31) == 0x10000000000000000000000000000000);
    }
    while i < 36
        invariant
            i <= 36,
            j == digits_before(i as int),
            j <= 32,
            j < 32 ==> p as int == pow16((31 - j) as nat),
            out@ =~= Seq::new(i as nat, |k: int| id_char_at(v, k)),
        decreases 36 - i,
    {
        if i == 8 || i == 13 || i == 18 || i == 23 {
            out.append("-");
            proof {
                reveal_strlit("-");
                assert(("-")@ =~= seq!['-']);
                assert(id_char_at(v, i as int) == '-');
            }
        } else {
            proof {
                assert(j < 32);
                lemma_pow16_pos((31 - j) as nat);
                assert(p >= 1);
            }
            let d: u8 = ((v / p) % 16) as u8;
            proof {
                assert(digit_index(i as int) == j as int);
                assert(d as int == nibble_of(v, j as int));
                assert(id_char_at(v, i as int) == hex_char_of(d as int));
            }
            let h = hex_str(d);
            out.append(h);
            if p >= 16 {
                p = p / 16;
            } else {
                p = 0;
            }
            proof {
                if j + 1 < 32 {
                    assert(pow16((31 - j) as nat) == 16 * pow16((30 - j) as nat));
                }
            }
            j = j + 1;
        }
        i = i + 1;
    }
    proof {
        assert(out@ =~= id_text_of(v));
        lemma_text_round_trip(v);
    }
    out
}

/// Parses a canonical identifier text, accepting hexadecimal digits of
/// either case. Returns `None` where the text is malformed.
pub fn parse_id(s: &str) -> (r: Option<u128>)
    ensures
        r == id_of_text(s@),
{
    let n = s.unicode_len();
    if n != 36 {
        return None;
    }
    let ghost sv = s@;
    let mut acc: u128 = 0;
    let mut k: usize = 0;
    let mut i: usize = 0;
    proof {
        lemma_pow16_32();
    }
    while i < 36
        invariant
            i <= 36,
            s@ == sv && sv.len() == 36,
            k == digits_before(i as int),
            k <= 32,
            acc as int == digits_value(sv, k as int),
            (acc as int) < pow16(k as nat),
            pow16(32) == 0x100000000000000000000000000000000,
            forall|t: int|
                0 <= t < i ==> (if is_hyphen_pos(t) {
                    sv[t] == '-'
                } else {
                    hex_val_of(#[trigger] sv[t]) is Some
                }),
        decreases 36 - i,
    {
        let c = s.get_char(i);
        if i == 8 || i == 13 || i == 18 || i == 23 {
            if c != '-' {
                proof {
                    assert(!is_id_text(sv));
                }
                return None;
            }
        } else {
            let u = c as u32;
            let d: u32 = if 48 <= u && u <= 57 {
                u - 48
            } else if 97 <= u && u <= 102 {
                u - 87
            } else if 65 <= u && u <= 70 {
                u - 55
            } else {
                proof {
                    assert(hex_val_of(sv[i as int]) is None);
                    assert(!is_id_text(sv));
                }
                return None;
            };
            proof {
                assert(k < 32);
                assert(hex_val_of(sv[i as int]) == Some(d as int));
                assert(pos_of_digit(k as int) == i as int);
                lemma_pow16_pos(k as nat);
                lemma_pow16_le((k + 1) as nat, 32);
                vstd::arithmetic::mul::lemma_mul_inequality(acc as int, pow16(k as nat) - 1, 16);
                assert(pow16((k + 1) as nat) == 16 * pow16(k as nat));
            }
            acc = acc * 16 + d as u128;
            k = k + 1;
        }
        i = i + 1;
    }
    proof {
        assert(is_id_text(sv));
        assert(id_of_text(sv) == Some(acc));
    }
    Some(acc)
}

} // verus!
