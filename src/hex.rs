//! Hexadecimal encoding and decoding of byte strings.

use vstd::prelude::*;
use vstd::string::StringSliceAdditionalSpecFns;

verus! {

/// The lower-case hexadecimal digit for a nibble.
pub open spec fn hex_digit(n: u8) -> char
    recommends
        n < 16,
{
    if n < 10 {
        (n + 48) as char
    } else {
        (n + 87) as char
    }
}

/// The two-digits-per-byte, lower-case hexadecimal rendering of `b`.
pub open spec fn hex_chars(b: Seq<u8>) -> Seq<char> {
    Seq::new(
        2 * b.len(),
        |i: int|
            if i % 2 == 0 {
                hex_digit(b[i / 2] / 16)
            } else {
                hex_digit(b[i / 2] % 16)
            },
    )
}

/// Appends one character to a string.
/// Relies on `String::push`: the string grows by exactly that character.
#[verifier::external_body]
fn push_char(s: &mut String, c: char)
    ensures
        final(s)@ == old(s)@.push(c),
{
    s.push(c)
}

fn digit_char(n: u8) -> (c: char)
    requires
        n < 16,
    ensures
        c == hex_digit(n),
{
    if n < 10 {
        (n + 48) as char
    } else {
        (n + 87) as char
    }
}

/// Renders bytes as lower-case hexadecimal, two digits per byte.
pub fn hex_str(value: &[u8]) -> (r: String)
    ensures
        r@ == hex_chars(value@),
{
    let mut res = String::new();
    let mut i: usize = 0;
    while i < value.len()
        invariant
            i <= value@.len(),
            res@ =~= hex_chars(value@.subrange(0, i as int)),
        decreases value@.len() - i,
    {
        let v = value[i];
        push_char(&mut res, digit_char(v / 16));
        push_char(&mut res, digit_char(v % 16));
        i += 1;
        assert(res@ =~= hex_chars(value@.subrange(0, i as int)));
    }
    assert(value@.subrange(0, i as int) =~= value@);
    res
}

/// Whether a byte is an ASCII hexadecimal digit, in either case.
pub open spec fn is_hex_byte(c: u8) -> bool {
    (48 <= c <= 57) || (65 <= c <= 70) || (97 <= c <= 102)
}

/// The value of an ASCII hexadecimal digit.
pub open spec fn nibble_of(c: u8) -> u8 {
    if 48 <= c <= 57 {
        (c - 48) as u8
    } else if 65 <= c <= 70 {
        (c - 55) as u8
    } else {
        (c - 87) as u8
    }
}

/// The bytes that a string of hexadecimal digits spells, two digits per byte
/// (a trailing odd digit is dropped); `None` when any byte is not a digit.
pub open spec fn hex_decode(s: Seq<u8>) -> Option<Seq<u8>> {
    if forall|i: int| 0 <= i < s.len() ==> is_hex_byte(#[trigger] s[i]) {
        Some(
            Seq::new(
                s.len() / 2,
                |i: int| (nibble_of(s[2 * i]) * 16 + nibble_of(s[2 * i + 1])) as u8,
            ),
        )
    } else {
        None
    }
}

fn nibble(c: u8) -> (r: Option<u8>)
    ensures
        r == (if is_hex_byte(c) {
            Some(nibble_of(c))
        } else {
            None::<u8>
        }),
        r is Some ==> r->0 < 16,
{
    if 65 <= c && c <= 70 {
        Some(c - 55)
    } else if 97 <= c && c <= 102 {
        Some(c - 87)
    } else if 48 <= c && c <= 57 {
        Some(c - 48)
    } else {
        None
    }
}

/// Decodes a string of hexadecimal digits, two per byte, upper or lower case.
/// A trailing odd digit is dropped. Returns `None` if any character is not a
/// hexadecimal digit.
pub fn hex_str_to_vec(hex: &str) -> (r: Option<Vec<u8>>)
    ensures
        r is Some <==> hex_decode(hex.spec_bytes()) is Some,
        r is Some ==> hex_decode(hex.spec_bytes()) == Some(r->0@),
{
    let bytes = hex.as_bytes();
    let ghost s = hex.spec_bytes();
    let mut out: Vec<u8> = Vec::new();
    let mut b: u8 = 0;
    let mut idx: usize = 0;
    while idx < bytes.len()
        invariant
            bytes@ == s,
            s == hex.spec_bytes(),
            idx <= s.len(),
            forall|j: int| 0 <= j < idx ==> is_hex_byte(#[trigger] s[j]),
            out@ =~= Seq::new(
                idx as nat / 2,
                |i: int| (nibble_of(s[2 * i]) * 16 + nibble_of(s[2 * i + 1])) as u8,
            ),
            b < 16,
            idx % 2 == 1 ==> b == nibble_of(s[idx - 1]),
        decreases s.len() - idx,
    {
        let c = bytes[idx];
        let v = match nibble(c) {
            Some(v) => v,
            None => {
                assert(c == s[idx as int]);
                assert(!is_hex_byte(s[idx as int]));
                assert(hex_decode(s) is None);
                return None;
            },
        };
        if idx % 2 == 1 {
            out.push(b * 16 + v);
            b = 0;
        } else {
            b = v;
        }
        idx += 1;
        assert(out@ =~= Seq::new(
            idx as nat / 2,
            |i: int| (nibble_of(s[2 * i]) * 16 + nibble_of(s[2 * i + 1])) as u8,
        ));
    }
    Some(out)
}

} // verus!
