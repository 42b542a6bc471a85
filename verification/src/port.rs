//! The port the server listens on, read from its command-line argument.

use vstd::prelude::*;
use vstd::string::StringSliceAdditionalSpecFns;

verus! {

/// The port used where none is given or the one given is not a valid port.
pub const DEFAULT_PORT: u16 = 12345;

/// The number that a sequence of ASCII decimal digits spells.
pub open spec fn digits_value(b: Seq<u8>) -> nat
    decreases b.len(),
{
    if b.len() == 0 {
        0
    } else {
        digits_value(b.drop_last()) * 10 + (b.last() - 48) as nat
    }
}

/// Every byte is an ASCII decimal digit.
pub open spec fn all_digits(b: Seq<u8>) -> bool {
    forall|i: int| 0 <= i < b.len() ==> 48 <= #[trigger] b[i] <= 57
}

/// How `u16`'s `FromStr` reads a string's bytes: an optional `+`, then at least
/// one decimal digit and nothing else, with a value of at most 65535.
pub open spec fn spec_parse_u16(b: Seq<u8>) -> Option<u16> {
    let digits = if b.len() > 0 && b[0] == 43 { b.skip(1) } else { b };
    if digits.len() > 0 && all_digits(digits) && digits_value(digits) <= 65535 {
        Some(digits_value(digits) as u16)
    } else {
        None
    }
}

proof fn lemma_digits_value_step(b: Seq<u8>, i: int)
    requires
        0 <= i < b.len(),
    ensures
        digits_value(b.take(i + 1)) == digits_value(b.take(i)) * 10 + (b[i] - 48) as nat,
{
    assert(b.take(i + 1).drop_last() =~= b.take(i));
}

proof fn lemma_digits_value_monotone(b: Seq<u8>, i: int, j: int)
    requires
        0 <= i <= j <= b.len(),
        all_digits(b),
    ensures
        digits_value(b.take(i)) <= digits_value(b.take(j)),
    decreases j - i,
{
    if i < j {
        lemma_digits_value_monotone(b, i, j - 1);
        lemma_digits_value_step(b, j - 1);
    }
}

/// Reads a port from decimal text as `u16`'s `FromStr` does.
fn parse_port(text: &str) -> (r: Option<u16>)
    ensures
        r == spec_parse_u16(text.spec_bytes()),
{
    let bytes = text.as_bytes();
    let ghost b = bytes@;
    let mut start: usize = 0;
    if bytes.len() > 0 && bytes[0] == 43u8 {
        start = 1;
    }
    let ghost digits = b.skip(start as int);
    proof {
        assert(b.skip(0) =~= b);
        assert(digits == (if b.len() > 0 && b[0] == 43 { b.skip(1) } else { b }));
    }
    if start >= bytes.len() {
        return None;
    }
    let mut value: u32 = 0;
    let mut i: usize = start;
    while i < bytes.len()
        invariant
            start <= i <= bytes@.len(),
            bytes@ == b,
            b == text.spec_bytes(),
            digits == b.skip(start as int),
            digits == (if b.len() > 0 && b[0] == 43 { b.skip(1) } else { b }),
            all_digits(digits.take(i - start)),
            value == digits_value(digits.take(i - start)),
            value <= 65535,
            digits.len() > 0,
            digits.len() == b.len() - start,
        decreases bytes.len() - i,
    {
        let c = bytes[i];
        if c < 48u8 || c > 57u8 {
            proof {
                assert(digits[i - start] == b[i as int]);
                assert(digits[i - start] == c);
                assert(!(48 <= digits[i - start] <= 57));
                assert(!all_digits(digits));
                assert(spec_parse_u16(b) == None::<u16>);
            }
            return None;
        }
        proof {
            assert(digits[i - start] == b[i as int]);
            assert(digits[i - start] == c);
            lemma_digits_value_step(digits, i - start);
            assert(digits.take(i - start + 1).drop_last() =~= digits.take(i - start));
            assert(all_digits(digits.take(i - start + 1)));
        }
        let next = value * 10 + (c - 48u8) as u32;
        if next > 65535 {
            proof {
                assert(digits.take(i - start + 1).drop_last() =~= digits.take(i - start));
                if all_digits(digits) {
                    lemma_digits_value_monotone(digits, i - start + 1, digits.len() as int);
                    assert(digits.take(digits.len() as int) =~= digits);
                }
                assert(spec_parse_u16(b) == None::<u16>);
            }
            return None;
        }
        value = next;
        i = i + 1;
    }
    proof {
        assert(digits.take(i - start) =~= digits);
    }
    Some(value as u16)
}

/// The port named by the argument, or the default port where there is no argument
/// or it is not a valid port.
pub fn get_port(arg: Option<&str>) -> (port: u16)
    ensures
        port == match arg {
            Some(text) => match spec_parse_u16(text.spec_bytes()) {
                Some(p) => p,
                None => DEFAULT_PORT,
            },
            None => DEFAULT_PORT,
        },
{
    match arg {
        Some(text) => match parse_port(text) {
            Some(p) => p,
            None => DEFAULT_PORT,
        },
        None => DEFAULT_PORT,
    }
}

} // verus!
