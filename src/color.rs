//! Colour codes written as `#RRGGBB` or `#RRGGBBAA`.

use vstd::prelude::*;
use vstd::string::StringSliceAdditionalSpecFns;

verus! {

/// A string that is not a colour code.
pub struct ParseColorError {}

/// The value of one hexadecimal digit, either case.
pub open spec fn hex_value(c: u8) -> Option<nat> {
    if 0x30 <= c <= 0x39 {
        Some((c - 0x30) as nat)
    } else if 0x61 <= c <= 0x66 {
        Some((c - 0x61 + 10) as nat)
    } else if 0x41 <= c <= 0x46 {
        Some((c - 0x41 + 10) as nat)
    } else {
        None
    }
}

pub open spec fn all_hex(digits: Seq<u8>) -> bool {
    forall|i: int| 0 <= i < digits.len() ==> (#[trigger] hex_value(digits[i])) is Some
}

/// The number that a run of hexadecimal digits writes, most significant
/// first.
pub open spec fn hex_number(digits: Seq<u8>) -> nat
    decreases digits.len(),
{
    if digits.len() == 0 {
        0
    } else {
        hex_number(digits.drop_last()) * 16 + hex_value(digits.last()).unwrap_or(0)
    }
}

pub open spec fn pow16(k: nat) -> nat
    decreases k,
{
    if k == 0 {
        1
    } else {
        16 * pow16((k - 1) as nat)
    }
}

/// The code a string writes: `#` and then six or eight hexadecimal digits.
/// Six digits give `0xRRGGBB00`, eight give `0xRRGGBBAA`.
pub open spec fn color_code(text: Seq<u8>) -> Option<u32> {
    let digits = text.subrange(1, text.len() as int);
    if text.len() >= 1 && text[0] == 0x23 && (digits.len() == 6 || digits.len() == 8) && all_hex(
        digits,
    ) {
        if digits.len() == 6 {
            Some((hex_number(digits) * 256) as u32)
        } else {
            Some(hex_number(digits) as u32)
        }
    } else {
        None
    }
}

proof fn lemma_hex_number_bound(digits: Seq<u8>)
    requires
        all_hex(digits),
    ensures
        hex_number(digits) < pow16(digits.len()),
    decreases digits.len(),
{
    if digits.len() > 0 {
        let init = digits.drop_last();
        assert(all_hex(init)) by {
            assert forall|i: int| 0 <= i < init.len() implies (#[trigger] hex_value(init[i])) is Some by {
                assert(init[i] == digits[i]);
            }
        }
        lemma_hex_number_bound(init);
        assert(hex_value(digits[digits.len() - 1]) is Some);
        let a = hex_number(init);
        let p = pow16(init.len());
        let d = hex_value(digits.last()).unwrap_or(0);
        assert(d < 16);
        assert(a * 16 + d < 16 * p) by (nonlinear_arith)
            requires
                a < p,
                d < 16,
        ;
    }
}

fn digit_value(c: u8) -> (r: Option<u32>)
    ensures
        r matches Some(v) ==> hex_value(c) == Some(v as nat),
        r is None ==> hex_value(c) is None,
{
    if 0x30 <= c && c <= 0x39 {
        Some((c - 0x30) as u32)
    } else if 0x61 <= c && c <= 0x66 {
        Some((c - 0x61 + 10) as u32)
    } else if 0x41 <= c && c <= 0x46 {
        Some((c - 0x41 + 10) as u32)
    } else {
        None
    }
}

/// Reads a colour code: `#` and six or eight hexadecimal digits. Six digits
/// are shifted up one byte, so that the last byte is zero.
pub fn parse_color_code(s: &str) -> (r: Result<u32, ParseColorError>)
    ensures
        r matches Ok(code) ==> color_code(s.spec_bytes()) == Some(code),
        r is Err ==> color_code(s.spec_bytes()) is None,
{
    let bytes = s.as_bytes();
    let len = bytes.len();
    if len != 7 && len != 9 {
        return Err(ParseColorError {});
    }
    if bytes[0] != 0x23 {
        return Err(ParseColorError {});
    }
    let ghost text = bytes@;
    let ghost digits = text.subrange(1, text.len() as int);
    let mut value: u32 = 0;
    let mut i: usize = 1;
    while i < len
        invariant
            bytes@ == text,
            text == s.spec_bytes(),
            len == text.len(),
            len == 7 || len == 9,
            digits == text.subrange(1, text.len() as int),
            1 <= i <= len,
            all_hex(digits.take(i - 1)),
            value as nat == hex_number(digits.take(i - 1)),
        decreases len - i,
    {
        let ghost done = digits.take(i - 1);
        let ghost next = digits.take(i as int);
        assert(next.drop_last() =~= done);
        assert(next.last() == bytes@[i as int]);
        match digit_value(bytes[i]) {
            Some(d) => {
                proof {
                    assert(all_hex(next)) by {
                        assert forall|j: int| 0 <= j < next.len() implies (#[trigger] hex_value(
                            next[j],
                        )) is Some by {
                            if j < done.len() {
                                assert(next[j] == done[j]);
                            }
                        }
                    }
                    lemma_hex_number_bound(next);
                    assert(pow16(next.len()) <= pow16(8)) by {
                        reveal_with_fuel(pow16, 9);
                    }
                    assert(pow16(8) == 0x1_0000_0000) by {
                        reveal_with_fuel(pow16, 9);
                    }
                }
                value = value * 16 + d;
            },
            None => {
                proof {
                    assert(!all_hex(digits)) by {
                        assert(digits[i - 1] == bytes@[i as int]);
                    }
                }
                return Err(ParseColorError {});
            },
        }
        i = i + 1;
    }
    proof {
        assert(digits.take(len - 1) =~= digits);
    }
    if len == 7 {
        proof {
            lemma_hex_number_bound(digits);
            reveal_with_fuel(pow16, 7);
        }
        Ok(value * 256)
    } else {
        Ok(value)
    }
}

/// The red, green, blue and alpha bytes that a colour code stands for: the
/// code's bytes from the most significant are alpha, red, green, blue.
pub fn code_channels(code: u32) -> (r: (u8, u8, u8, u8))
    ensures
        r.0 == (code / 0x10000) % 0x100,
        r.1 == (code / 0x100) % 0x100,
        r.2 == code % 0x100,
        r.3 == code / 0x100_0000,
{
    (
        ((code / 0x10000) % 0x100) as u8,
        ((code / 0x100) % 0x100) as u8,
        (code % 0x100) as u8,
        (code / 0x100_0000) as u8,
    )
}

} // verus!
