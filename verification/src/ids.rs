//! Project identifiers: generation of a fresh 128-bit id, and its canonical
//! hyphenated lowercase-hexadecimal text form, used to namespace asset keys.
use vstd::prelude::*;
use crate::store::ProjectError;

verus! {

/// The lowercase hexadecimal digit for `d` (meaningful for `0 <= d < 16`).
pub open spec fn hex_char(d: int) -> char {
    if d == 0 {
        '0'
    } else if d == 1 {
        '1'
    } else if d == 2 {
        '2'
    } else if d == 3 {
        '3'
    } else if d == 4 {
        '4'
    } else if d == 5 {
        '5'
    } else if d == 6 {
        '6'
    } else if d == 7 {
        '7'
    } else if d == 8 {
        '8'
    } else if d == 9 {
        '9'
    } else if d == 10 {
        'a'
    } else if d == 11 {
        'b'
    } else if d == 12 {
        'c'
    } else if d == 13 {
        'd'
    } else if d == 14 {
        'e'
    } else {
        'f'
    }
}

/// The `i`-th hexadecimal digit of `v`, counting from the most significant
/// of its 32 nibbles (meaningful for `0 <= i < 32`).
pub open spec fn nibble(v: u128, i: int) -> int {
    ((v >> (((31 - i) * 4) as u128)) & 0xf) as int
}

/// The 32 hexadecimal digits of `v`, most significant first.
pub open spec fn hex_chars(v: u128) -> Seq<char> {
    Seq::new(32, |i: int| hex_char(nibble(v, i)))
}

/// The canonical text form of a 128-bit id: its 32 hexadecimal digits in
/// the groups 8-4-4-4-12, separated by hyphens.
pub open spec fn spec_id_text(v: u128) -> Seq<char> {
    hex_chars(v).subrange(0, 8) + seq!['-'] + hex_chars(v).subrange(8, 12) + seq!['-']
        + hex_chars(v).subrange(12, 16) + seq!['-'] + hex_chars(v).subrange(16, 20) + seq!['-']
        + hex_chars(v).subrange(20, 32)
}

/// The one-character string for the hexadecimal digit `d`.
fn hex_digit_str(d: u128) -> (r: &'static str)
    requires
        d < 16,
    ensures
        r@ =~= seq![hex_char(d as int)],
{
    proof {
        reveal_strlit("0");
        reveal_strlit("1");
        reveal_strlit("2");
        reveal_strlit("3");
        reveal_strlit("4");
        reveal_strlit("5");
        reveal_strlit("6");
        reveal_strlit("7");
        reveal_strlit("8");
        reveal_strlit("9");
        reveal_strlit("a");
        reveal_strlit("b");
        reveal_strlit("c");
        reveal_strlit("d");
        reveal_strlit("e");
        reveal_strlit("f");
    }
    if d == 0 {
        "0"
    } else if d == 1 {
        "1"
    } else if d == 2 {
        "2"
    } else if d == 3 {
        "3"
    } else if d == 4 {
        "4"
    } else if d == 5 {
        "5"
    } else if d == 6 {
        "6"
    } else if d == 7 {
        "7"
    } else if d == 8 {
        "8"
    } else if d == 9 {
        "9"
    } else if d == 10 {
        "a"
    } else if d == 11 {
        "b"
    } else if d == 12 {
        "c"
    } else if d == 13 {
        "d"
    } else if d == 14 {
        "e"
    } else {
        "f"
    }
}

/// Renders a 128-bit id in its canonical hyphenated hexadecimal form.
pub fn id_text(v: u128) -> (r: String)
    ensures
        r@ == spec_id_text(v),
{
    let mut hex = String::new();
    let mut i: usize = 0;
    while i < 32
        invariant
            i <= 32,
            hex@ == hex_chars(v).subrange(0, i as int),
        decreases 32 - i,
    {
        let sh: u128 = ((31 - i) as u128) * 4;
        let d: u128 = (v >> sh) & 0xf;
        proof {
            assert((v >> sh) & 0xf < 16) by (bit_vector);
            assert(sh == ((31 - (i as int)) * 4) as u128);
            assert(d == nibble(v, i as int));
        }
        hex.append(hex_digit_str(d));
        proof {
            assert(hex@ =~= hex_chars(v).subrange(0, i + 1 as int));
        }
        i = i + 1;
    }
    proof {
        assert(hex@ =~= hex_chars(v));
    }
    let mut out = String::new();
    proof {
        reveal_strlit("-");
        assert("-"@ =~= seq!['-']);
    }
    out.append(hex.as_str().substring_char(0, 8));
    out.append("-");
    out.append(hex.as_str().substring_char(8, 12));
    out.append("-");
    out.append(hex.as_str().substring_char(12, 16));
    out.append("-");
    out.append(hex.as_str().substring_char(16, 20));
    out.append("-");
    out.append(hex.as_str().substring_char(20, 32));
    proof {
        assert(out@ =~= spec_id_text(v));
    }
    out
}

/// A nibble always lies below 16.
pub proof fn lemma_nibble_range(v: u128, i: int)
    requires
        0 <= i < 32,
    ensures
        0 <= nibble(v, i) < 16,
{
    let sh = ((31 - i) * 4) as u128;
    assert((v >> sh) & 0xf < 16) by (bit_vector);
}

/// The sixteen hexadecimal digit characters are pairwise distinct.
pub proof fn lemma_hex_char_injective(a: int, b: int)
    requires
        0 <= a < 16,
        0 <= b < 16,
        hex_char(a) == hex_char(b),
    ensures
        a == b,
{
}

/// A 128-bit value is determined by its 32 nibbles.
proof fn lemma_nibbles_determine(a: u128, b: u128)
    requires
        forall|i: int| 0 <= i < 32 ==> nibble(a, i) == nibble(b, i),
    ensures
        a == b,
{
    assert(nibble(a, 0) == nibble(b, 0));
    assert(nibble(a, 1) == nibble(b, 1));
    assert(nibble(a, 2) == nibble(b, 2));
    assert(nibble(a, 3) == nibble(b, 3));
    assert(nibble(a, 4) == nibble(b, 4));
    assert(nibble(a, 5) == nibble(b, 5));
    assert(nibble(a, 6) == nibble(b, 6));
    assert(nibble(a, 7) == nibble(b, 7));
    assert(nibble(a, 8) == nibble(b, 8));
    assert(nibble(a, 9) == nibble(b, 9));
    assert(nibble(a, 10) == nibble(b, 10));
    assert(nibble(a, 11) == nibble(b, 11));
    assert(nibble(a, 12) == nibble(b, 12));
    assert(nibble(a, 13) == nibble(b, 13));
    assert(nibble(a, 14) == nibble(b, 14));
    assert(nibble(a, 15) == nibble(b, 15));
    assert(nibble(a, 16) == nibble(b, 16));
    assert(nibble(a, 17) == nibble(b, 17));
    assert(nibble(a, 18) == nibble(b, 18));
    assert(nibble(a, 19) == nibble(b, 19));
    assert(nibble(a, 20) == nibble(b, 20));
    assert(nibble(a, 21) == nibble(b, 21));
    assert(nibble(a, 22) == nibble(b, 22));
    assert(nibble(a, 23) == nibble(b, 23));
    assert(nibble(a, 24) == nibble(b, 24));
    assert(nibble(a, 25) == nibble(b, 25));
    assert(nibble(a, 26) == nibble(b, 26));
    assert(nibble(a, 27) == nibble(b, 27));
    assert(nibble(a, 28) == nibble(b, 28));
    assert(nibble(a, 29) == nibble(b, 29));
    assert(nibble(a, 30) == nibble(b, 30));
    assert(nibble(a, 31) == nibble(b, 31));
    assert(a == b) by (bit_vector)
        requires
            ((a >> 124u128) & 0xf) == ((b >> 124u128) & 0xf),
            ((a >> 120u128) & 0xf) == ((b >> 120u128) & 0xf),
            ((a >> 116u128) & 0xf) == ((b >> 116u128) & 0xf),
            ((a >> 112u128) & 0xf) == ((b >> 112u128) & 0xf),
            ((a >> 108u128) & 0xf) == ((b >> 108u128) & 0xf),
            ((a >> 104u128) & 0xf) == ((b >> 104u128) & 0xf),
            ((a >> 100u128) & 0xf) == ((b >> 100u128) & 0xf),
            ((a >> 96u128) & 0xf) == ((b >> 96u128) & 0xf),
            ((a >> 92u128) & 0xf) == ((b >> 92u128) & 0xf),
            ((a >> 88u128) & 0xf) == ((b >> 88u128) & 0xf),
            ((a >> 84u128) & 0xf) == ((b >> 84u128) & 0xf),
            ((a >> 80u128) & 0xf) == ((b >> 80u128) & 0xf),
            ((a >> 76u128) & 0xf) == ((b >> 76u128) & 0xf),
            ((a >> 72u128) & 0xf) == ((b >> 72u128) & 0xf),
            ((a >> 68u128) & 0xf) == ((b >> 68u128) & 0xf),
            ((a >> 64u128) & 0xf) == ((b >> 64u128) & 0xf),
            ((a >> 60u128) & 0xf) == ((b >> 60u128) & 0xf),
            ((a >> 56u128) & 0xf) == ((b >> 56u128) & 0xf),
            ((a >> 52u128) & 0xf) == ((b >> 52u128) & 0xf),
            ((a >> 48u128) & 0xf) == ((b >> 48u128) & 0xf),
            ((a >> 44u128) & 0xf) == ((b >> 44u128) & 0xf),
            ((a >> 40u128) & 0xf) == ((b >> 40u128) & 0xf),
            ((a >> 36u128) & 0xf) == ((b >> 36u128) & 0xf),
            ((a >> 32u128) & 0xf) == ((b >> 32u128) & 0xf),
            ((a >> 28u128) & 0xf) == ((b >> 28u128) & 0xf),
            ((a >> 24u128) & 0xf) == ((b >> 24u128) & 0xf),
            ((a >> 20u128) & 0xf) == ((b >> 20u128) & 0xf),
            ((a >> 16u128) & 0xf) == ((b >> 16u128) & 0xf),
            ((a >> 12u128) & 0xf) == ((b >> 12u128) & 0xf),
            ((a >> 8u128) & 0xf) == ((b >> 8u128) & 0xf),
            ((a >> 4u128) & 0xf) == ((b >> 4u128) & 0xf),
            ((a >> 0u128) & 0xf) == ((b >> 0u128) & 0xf),
    ;
}

/// Distinct ids have distinct canonical text forms: the text determines
/// the id.
pub proof fn lemma_id_text_injective(a: u128, b: u128)
    requires
        spec_id_text(a) == spec_id_text(b),
    ensures
        a == b,
{
    assert forall|i: int| 0 <= i < 32 implies nibble(a, i) == nibble(b, i) by {
        let pos: int = if i < 8 {
            i
        } else if i < 12 {
            i + 1
        } else if i < 16 {
            i + 2
        } else if i < 20 {
            i + 3
        } else {
            i + 4
        };
        assert(spec_id_text(a)[pos] == hex_char(nibble(a, i)));
        assert(spec_id_text(b)[pos] == hex_char(nibble(b, i)));
        lemma_nibble_range(a, i);
        lemma_nibble_range(b, i);
        lemma_hex_char_injective(nibble(a, i), nibble(b, i));
    }
    lemma_nibbles_determine(a, b);
}

/// The text position of hex digit `j` in the canonical form: the four
/// hyphens sit after digits 8, 12, 16 and 20.
pub open spec fn digit_pos(j: int) -> int {
    if j < 8 {
        j
    } else if j < 12 {
        j + 1
    } else if j < 16 {
        j + 2
    } else if j < 20 {
        j + 3
    } else {
        j + 4
    }
}

/// The value of a lowercase hexadecimal digit character.
fn hex_digit_val(c: char) -> (r: Option<u128>)
    ensures
        match r {
            Option::Some(d) => d < 16 && c == hex_char(d as int),
            Option::None => forall|d: int| 0 <= d < 16 ==> c != hex_char(d),
        },
{
    if c == '0' {
        Option::Some(0)
    } else if c == '1' {
        Option::Some(1)
    } else if c == '2' {
        Option::Some(2)
    } else if c == '3' {
        Option::Some(3)
    } else if c == '4' {
        Option::Some(4)
    } else if c == '5' {
        Option::Some(5)
    } else if c == '6' {
        Option::Some(6)
    } else if c == '7' {
        Option::Some(7)
    } else if c == '8' {
        Option::Some(8)
    } else if c == '9' {
        Option::Some(9)
    } else if c == 'a' {
        Option::Some(10)
    } else if c == 'b' {
        Option::Some(11)
    } else if c == 'c' {
        Option::Some(12)
    } else if c == 'd' {
        Option::Some(13)
    } else if c == 'e' {
        Option::Some(14)
    } else if c == 'f' {
        Option::Some(15)
    } else {
        Option::None
    }
}

/// Shifting a fresh digit in leaves the accumulator bounded.
proof fn lemma_shift_in_keeps_bound(v: u128, d: u128, k: u128)
    requires
        v >> k == 0,
        d < 16,
        k <= 124,
    ensures
        ((v << 4) | d) >> (k + 4) as u128 == 0,
{
    assert(((v << 4) | d) >> ((k + 4) as u128) == 0) by (bit_vector)
        requires
            v >> k == 0,
            d < 16,
            k <= 124,
    ;
}

/// Shifting a fresh digit in moves every earlier nibble up one place.
proof fn lemma_shift_in_keeps_nibbles(v: u128, d: u128, m: u128)
    requires
        d < 16,
        m <= 120,
    ensures
        (((v << 4) | d) >> (m + 4) as u128) & 0xf == (v >> m) & 0xf,
        ((v << 4) | d) & 0xf == d,
{
    assert((((v << 4) | d) >> ((m + 4) as u128)) & 0xf == (v >> m) & 0xf) by (bit_vector)
        requires
            d < 16,
            m <= 120,
    ;
    assert(((v << 4) | d) & 0xf == d) by (bit_vector)
        requires
            d < 16,
    ;
}

/// Parses the canonical hyphenated lowercase-hexadecimal text of an id:
/// the exact inverse of `id_text`. Succeeds exactly on texts some id
/// renders to; anything else is rejected as a malformed identifier.
pub fn parse_id_text(s: &str) -> (r: Result<u128, ProjectError>)
    ensures
        match r {
            Result::Ok(v) => s@ == spec_id_text(v),
            Result::Err(e) => e == ProjectError::Validation && (forall|v: u128|
                s@ != spec_id_text(v)),
        },
{
    let len = s.unicode_len();
    if len != 36 {
        proof {
            assert forall|v: u128| s@ != spec_id_text(v) by {
                assert(spec_id_text(v).len() == 36);
            }
        }
        return Result::Err(ProjectError::Validation);
    }
    if s.get_char(8) != '-' || s.get_char(13) != '-' || s.get_char(18) != '-' || s.get_char(23)
        != '-' {
        proof {
            assert forall|v: u128| s@ != spec_id_text(v) by {
                assert(spec_id_text(v)[8] == '-');
                assert(spec_id_text(v)[13] == '-');
                assert(spec_id_text(v)[18] == '-');
                assert(spec_id_text(v)[23] == '-');
            }
        }
        return Result::Err(ProjectError::Validation);
    }
    let mut v: u128 = 0;
    let mut j: usize = 0;
    proof {
        assert(0u128 >> 0u128 == 0u128) by (bit_vector);
    }
    while j < 32
        invariant
            j <= 32,
            s@.len() == 36,
            v >> ((4 * j) as u128) == 0,
            forall|k: int|
                0 <= k < j ==> hex_char(((v >> ((4 * (j - 1 - k)) as u128)) & 0xf) as int)
                    == s@[digit_pos(k)],
        decreases 32 - j,
    {
        let pos: usize = if j < 8 {
            j
        } else if j < 12 {
            j + 1
        } else if j < 16 {
            j + 2
        } else if j < 20 {
            j + 3
        } else {
            j + 4
        };
        proof {
            assert(pos as int == digit_pos(j as int));
        }
        let c = s.get_char(pos);
        let d = match hex_digit_val(c) {
            Option::Some(d) => d,
            Option::None => {
                proof {
                    assert forall|w: u128| s@ != spec_id_text(w) by {
                        lemma_nibble_range(w, j as int);
                        assert(spec_id_text(w)[digit_pos(j as int)] == hex_char(
                            nibble(w, j as int),
                        ));
                    }
                }
                return Result::Err(ProjectError::Validation);
            },
        };
        let ghost old_v = v;
        v = (v << 4) | d;
        proof {
            lemma_shift_in_keeps_bound(old_v, d, (4 * j) as u128);
            assert(v >> ((4 * (j + 1)) as u128) == 0);
            assert forall|k: int|
                0 <= k < j + 1 implies hex_char(
                ((v >> ((4 * (j + 1 - 1 - k)) as u128)) & 0xf) as int,
            ) == s@[digit_pos(k)] by {
                if k < j {
                    let m = (4 * ((j as int) - 1 - k)) as u128;
                    lemma_shift_in_keeps_nibbles(old_v, d, m);
                    assert((4 * (j + 1 - 1 - k)) as u128 == m + 4);
                    assert((v >> (m + 4) as u128) & 0xf == (old_v >> m) & 0xf);
                } else {
                    lemma_shift_in_keeps_nibbles(old_v, d, 0);
                    assert(v & 0xf == d);
                    assert(v >> 0u128 == v) by (bit_vector);
                    assert((4 * (j + 1 - 1 - k)) as u128 == 0u128);
                    assert(((v >> 0u128) & 0xf) as int == d as int);
                }
            }
        }
        j = j + 1;
    }
    proof {
        assert forall|p: int| 0 <= p < 36 implies s@[p] == spec_id_text(v)[p] by {
            if p == 8 || p == 13 || p == 18 || p == 23 {
                assert(spec_id_text(v)[p] == '-');
            } else {
                let k: int = if p < 8 {
                    p
                } else if p < 13 {
                    p - 1
                } else if p < 18 {
                    p - 2
                } else if p < 23 {
                    p - 3
                } else {
                    p - 4
                };
                assert(digit_pos(k) == p);
                assert(spec_id_text(v)[p] == hex_char(nibble(v, k)));
                assert(hex_char(((v >> ((4 * (32 - 1 - k)) as u128)) & 0xf) as int)
                    == s@[digit_pos(k)]);
                assert(nibble(v, k) == ((v >> ((4 * (31 - k)) as u128)) & 0xf) as int);
            }
        }
        assert(s@ =~= spec_id_text(v));
    }
    Result::Ok(v)
}

/// Relies on `uuid::Uuid::new_v4`: a randomly generated (version 4) unique
/// identifier, taken here as its 128-bit value. Nothing is promised of the
/// value: callers must check it against the store themselves.
#[verifier::external_body]
pub(crate) fn random_id() -> u128 {
    uuid::Uuid::new_v4().as_u128()
}

} // verus!
