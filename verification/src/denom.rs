//! The syntax of a native denom: 3 to 128 characters, a letter first, then
//! letters, digits and the separators `/`, `:`, `.`, `_` and `-`.
//!
//! Posting takes its denom validator as an argument. This one is offered for
//! chains that name their tokens in this syntax.

use vstd::prelude::*;
use vstd::utf8::{is_ascii_chars, is_ascii_chars_encode_utf8};

verus! {

/// An ASCII letter.
pub open spec fn is_letter(c: char) -> bool {
    ('a' <= c <= 'z') || ('A' <= c <= 'Z')
}

/// An ASCII digit.
pub open spec fn is_digit(c: char) -> bool {
    '0' <= c <= '9'
}

/// One of the separators that a denom may hold.
pub open spec fn is_separator(c: char) -> bool {
    c == '/' || c == ':' || c == '.' || c == '_' || c == '-'
}

/// Whether `text` is a native denom.
pub open spec fn native_denom(text: Seq<char>) -> bool {
    &&& 3 <= text.len() <= 128
    &&& is_letter(text[0])
    &&& forall|i: int| 1 <= i < text.len() ==> {
        let c = #[trigger] text[i];
        is_letter(c) || is_digit(c) || is_separator(c)
    }
}

/// Whether the byte is an ASCII letter.
fn is_letter_byte(b: u8) -> (r: bool)
    ensures
        r == ((0x61 <= b <= 0x7a) || (0x41 <= b <= 0x5a)),
{
    (0x61 <= b && b <= 0x7a) || (0x41 <= b && b <= 0x5a)
}

/// Whether the byte is an ASCII digit or one of the separators.
fn is_digit_or_separator_byte(b: u8) -> (r: bool)
    ensures
        r == ((0x30 <= b <= 0x39) || b == 0x2f || b == 0x3a || b == 0x2e || b == 0x5f || b == 0x2d),
{
    (0x30 <= b && b <= 0x39) || b == 0x2f || b == 0x3a || b == 0x2e || b == 0x5f || b == 0x2d
}

/// Decides whether `denom` is a native denom.
pub fn is_valid_native_denom(denom: &str) -> (r: bool)
    ensures
        r == native_denom(denom@),
{
    if !denom.is_ascii() {
        proof {
            if native_denom(denom@) {
                assert forall|i: int| 0 <= i < denom@.len() implies '\0' <= #[trigger] denom@[i] <= '\u{7f}' by {
                    if i > 0 {
                        let c = denom@[i];
                        assert(is_letter(c) || is_digit(c) || is_separator(c));
                    }
                }
            }
        }
        return false;
    }
    proof {
        is_ascii_chars_encode_utf8(denom@);
    }
    let bytes = denom.as_bytes();
    let n = bytes.len();
    if n < 3 || n > 128 {
        return false;
    }
    if !is_letter_byte(bytes[0]) {
        assert(denom@[0] as u8 == bytes@[0]);
        return false;
    }
    assert(denom@[0] as u8 == bytes@[0]);
    let mut i: usize = 1;
    while i < n
        invariant
            1 <= i <= n,
            n == bytes@.len(),
            n == denom@.len(),
            is_ascii_chars(denom@),
            forall|j: int| 0 <= j < n ==> (#[trigger] denom@[j]) as u8 == bytes@[j],
            forall|j: int| 1 <= j < i ==> {
                let c = #[trigger] denom@[j];
                is_letter(c) || is_digit(c) || is_separator(c)
            },
        decreases n - i,
    {
        let b = bytes[i];
        if !(is_letter_byte(b) || is_digit_or_separator_byte(b)) {
            proof {
                let c = denom@[i as int];
                assert(c as u8 == b);
                assert(!(is_letter(c) || is_digit(c) || is_separator(c)));
            }
            return false;
        }
        proof {
            let c = denom@[i as int];
            assert(c as u8 == b);
            assert('\0' <= c <= '\u{7f}');
        }
        i += 1;
    }
    true
}

} // verus!
