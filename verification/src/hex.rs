//! Upper-case hexadecimal text of a byte string.

use vstd::prelude::*;
use vstd::string::*;

verus! {

/// The digit that stands for `n` in upper-case hexadecimal, for `0 <= n < 16`.
pub open spec fn hex_digit(n: int) -> char {
    "0123456789ABCDEF"@[n]
}

/// The upper-case hexadecimal text of `bytes`: two digits for each byte, the
/// high half first.
pub open spec fn upper_hex(bytes: Seq<u8>) -> Seq<char> {
    Seq::new(
        2 * bytes.len(),
        |i: int|
            if i % 2 == 0 {
                hex_digit(bytes[i / 2] as int / 16)
            } else {
                hex_digit(bytes[i / 2] as int % 16)
            },
    )
}

/// Whether `c` is one of the sixteen upper-case hexadecimal digits.
pub open spec fn is_hex_digit(c: char) -> bool {
    ('0' <= c <= '9') || ('A' <= c <= 'F')
}

/// Whether every character of `text` is an upper-case hexadecimal digit.
pub open spec fn is_upper_hex(text: Seq<char>) -> bool {
    forall|i: int| 0 <= i < text.len() ==> is_hex_digit(#[trigger] text[i])
}

/// Writes `bytes` as upper-case hexadecimal text.
pub fn to_upper_hex(bytes: &[u8]) -> (out: String)
    ensures
        out@ == upper_hex(bytes@),
{
    let digits = "0123456789ABCDEF";
    proof {
        reveal_strlit("0123456789ABCDEF");
    }
    let mut out = String::new();
    let mut i: usize = 0;
    while i < bytes.len()
        invariant
            i <= bytes.len(),
            digits@ == "0123456789ABCDEF"@,
            digits@.len() == 16,
            digits.is_ascii(),
            out@ == upper_hex(bytes@.subrange(0, i as int)),
        decreases bytes.len() - i,
    {
        let high: usize = (bytes[i] / 16) as usize;
        let low: usize = (bytes[i] % 16) as usize;
        out.append(digits.substring_ascii(high, high + 1));
        out.append(digits.substring_ascii(low, low + 1));
        proof {
            let before = bytes@.subrange(0, i as int);
            let after = bytes@.subrange(0, i + 1);
            assert(after == before.push(bytes@[i as int]));
            assert(out@ =~= upper_hex(after));
        }
        i += 1;
    }
    proof {
        assert(bytes@.subrange(0, i as int) == bytes@);
    }
    out
}

/// Upper-case hexadecimal text has two digits for each byte, and digits only.
pub proof fn lemma_upper_hex_shape(bytes: Seq<u8>)
    ensures
        upper_hex(bytes).len() == 2 * bytes.len(),
        is_upper_hex(upper_hex(bytes)),
{
    reveal_strlit("0123456789ABCDEF");
    let text = upper_hex(bytes);
    assert forall|i: int| 0 <= i < text.len() implies is_hex_digit(#[trigger] text[i]) by {
        let b = bytes[i / 2] as int;
        let n = if i % 2 == 0 {
            b / 16
        } else {
            b % 16
        };
        assert(0 <= n < 16);
        assert(text[i] == hex_digit(n));
    }
}

} // verus!
