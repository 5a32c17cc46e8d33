//! The textual encoding of the gateway's commit-hash fields: 20-byte hashes
//! carried as 40 lowercase hexadecimal characters.

use vstd::prelude::*;
use vstd::string::{StringExecFns, StringSliceAdditionalSpecFns};

verus! {

/// Whether a byte is an ASCII lowercase hexadecimal digit.
pub open spec fn is_hex_digit(b: u8) -> bool {
    (48 <= b <= 57) || (97 <= b <= 102)
}

/// The numeric value of one ASCII lowercase hexadecimal digit.
pub open spec fn hex_digit_value(b: u8) -> u8 {
    if b <= 57 {
        (b - 48) as u8
    } else {
        (b - 87) as u8
    }
}

/// The lowercase hexadecimal character of one value below sixteen.
pub open spec fn hex_char_of(n: u8) -> char {
    if n < 10 {
        ((n + 48) as u8) as char
    } else {
        ((n + 87) as u8) as char
    }
}

/// The lowercase hexadecimal text of a byte sequence: two characters per
/// byte, high nibble first.
pub open spec fn spec_hex_lower(bytes: Seq<u8>) -> Seq<char> {
    Seq::new(
        2 * bytes.len(),
        |i: int|
            if i % 2 == 0 {
                hex_char_of((bytes[i / 2] / 16) as u8)
            } else {
                hex_char_of((bytes[i / 2] % 16) as u8)
            },
    )
}

/// Whether every byte of the sequence is a lowercase hexadecimal digit.
pub open spec fn spec_is_hex(t: Seq<u8>) -> bool {
    forall|i: int| 0 <= i < t.len() ==> is_hex_digit(t[i])
}

/// The bytes denoted by a sequence of hexadecimal digit pairs.
pub open spec fn spec_hex_decode(t: Seq<u8>) -> Seq<u8> {
    Seq::new(
        t.len() / 2,
        |i: int| (hex_digit_value(t[2 * i]) * 16 + hex_digit_value(t[2 * i + 1])) as u8,
    )
}

/// The failure of reading a hash field's text.
#[derive(Clone, Copy, Debug, PartialEq, Eq, Structural)]
pub enum HexDecodeError {
    InvalidHexEncoding,
}

fn is_hex_digit_exec(b: u8) -> (r: bool)
    ensures
        r == is_hex_digit(b),
{
    (48 <= b && b <= 57) || (97 <= b && b <= 102)
}

fn hex_digit_value_exec(b: u8) -> (r: u8)
    requires
        is_hex_digit(b),
    ensures
        r == hex_digit_value(b),
        r <= 15,
{
    if b <= 57 {
        b - 48
    } else {
        b - 87
    }
}

pub(crate) fn push_hex_char(out: &mut String, n: u8)
    requires
        n < 16,
    ensures
        final(out)@ == old(out)@ + seq![hex_char_of(n)],
{
    if n == 0 {
        proof {
            reveal_strlit("0");
            assert("0"@ =~= seq![hex_char_of(0)]);
        }
        out.append("0");
    } else if n == 1 {
        proof {
            reveal_strlit("1");
            assert("1"@ =~= seq![hex_char_of(1)]);
        }
        out.append("1");
    } else if n == 2 {
        proof {
            reveal_strlit("2");
            assert("2"@ =~= seq![hex_char_of(2)]);
        }
        out.append("2");
    } else if n == 3 {
        proof {
            reveal_strlit("3");
            assert("3"@ =~= seq![hex_char_of(3)]);
        }
        out.append("3");
    } else if n == 4 {
        proof {
            reveal_strlit("4");
            assert("4"@ =~= seq![hex_char_of(4)]);
        }
        out.append("4");
    } else if n == 5 {
        proof {
            reveal_strlit("5");
            assert("5"@ =~= seq![hex_char_of(5)]);
        }
        out.append("5");
    } else if n == 6 {
        proof {
            reveal_strlit("6");
            assert("6"@ =~= seq![hex_char_of(6)]);
        }
        out.append("6");
    } else if n == 7 {
        proof {
            reveal_strlit("7");
            assert("7"@ =~= seq![hex_char_of(7)]);
        }
        out.append("7");
    } else if n == 8 {
        proof {
            reveal_strlit("8");
            assert("8"@ =~= seq![hex_char_of(8)]);
        }
        out.append("8");
    } else if n == 9 {
        proof {
            reveal_strlit("9");
            assert("9"@ =~= seq![hex_char_of(9)]);
        }
        out.append("9");
    } else if n == 10 {
        proof {
            reveal_strlit("a");
            assert("a"@ =~= seq![hex_char_of(10)]);
        }
        out.append("a");
    } else if n == 11 {
        proof {
            reveal_strlit("b");
            assert("b"@ =~= seq![hex_char_of(11)]);
        }
        out.append("b");
    } else if n == 12 {
        proof {
            reveal_strlit("c");
            assert("c"@ =~= seq![hex_char_of(12)]);
        }
        out.append("c");
    } else if n == 13 {
        proof {
            reveal_strlit("d");
            assert("d"@ =~= seq![hex_char_of(13)]);
        }
        out.append("d");
    } else if n == 14 {
        proof {
            reveal_strlit("e");
            assert("e"@ =~= seq![hex_char_of(14)]);
        }
        out.append("e");
    } else {
        proof {
            reveal_strlit("f");
            assert("f"@ =~= seq![hex_char_of(15)]);
        }
        out.append("f");
    }
}

/// The lowercase hexadecimal text of a hash: two characters for every byte,
/// high nibble first.
pub fn serialize(hash: &[u8]) -> (r: String)
    ensures
        r@ == spec_hex_lower(hash@),
{
    let mut out = String::new();
    let n = hash.len();
    for i in 0..n
        invariant
            n == hash@.len(),
            out@ =~= spec_hex_lower(hash@.subrange(0, i as int)),
    {
        let b = hash[i];
        push_hex_char(&mut out, b / 16);
        push_hex_char(&mut out, b % 16);
        proof {
            assert(out@ =~= spec_hex_lower(hash@.subrange(0, i as int + 1)));
        }
    }
    proof {
        assert(hash@.subrange(0, n as int) =~= hash@);
        assert(out@ =~= spec_hex_lower(hash@));
    }
    out
}

/// The hash denoted by a hash field's text: exactly forty lowercase
/// hexadecimal characters denoting twenty bytes; anything else is rejected.
pub fn deserialize(s: &str) -> (r: Result<Vec<u8>, HexDecodeError>)
    ensures
        match r {
            Ok(bytes) => s.spec_bytes().len() == 40 && spec_is_hex(s.spec_bytes()) && bytes@
                == spec_hex_decode(s.spec_bytes()),
            Err(e) => !(s.spec_bytes().len() == 40 && spec_is_hex(s.spec_bytes())),
        },
{
    let b = s.as_bytes();
    if b.len() != 40 {
        return Err(HexDecodeError::InvalidHexEncoding);
    }
    let mut out: Vec<u8> = Vec::new();
    let mut i: usize = 0;
    while i < 40
        invariant
            i % 2 == 0,
            i <= 40,
            b@.len() == 40,
            b@ == s.spec_bytes(),
            forall|j: int| 0 <= j < i ==> is_hex_digit(b@[j]),
            out@ =~= spec_hex_decode(b@.subrange(0, i as int)),
        decreases 40 - i,
    {
        let hi = b[i];
        let lo = b[i + 1];
        if !is_hex_digit_exec(hi) {
            proof {
                assert(!spec_is_hex(b@));
            }
            return Err(HexDecodeError::InvalidHexEncoding);
        }
        if !is_hex_digit_exec(lo) {
            proof {
                assert(!spec_is_hex(b@));
            }
            return Err(HexDecodeError::InvalidHexEncoding);
        }
        let value = hex_digit_value_exec(hi) * 16 + hex_digit_value_exec(lo);
        out.push(value);
        i = i + 2;
        proof {
            assert(out@ =~= spec_hex_decode(b@.subrange(0, i as int)));
        }
    }
    proof {
        assert(b@.subrange(0, 40) =~= b@);
        assert(out@ =~= spec_hex_decode(s.spec_bytes()));
    }
    Ok(out)
}

} // verus!
