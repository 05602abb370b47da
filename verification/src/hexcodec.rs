//! Lowercase hexadecimal encoding and decoding of byte strings, with the
//! round-trip law that decoding an encoding yields the original bytes.
use vstd::prelude::*;

use crate::strutil;

verus! {

/// The lowercase hexadecimal digit for a value below sixteen.
pub open spec fn hex_digit_char(n: int) -> char
    recommends
        0 <= n < 16,
{
    if n < 10 {
        strutil::digit_char(n)
    } else if n == 10 {
        'a'
    } else if n == 11 {
        'b'
    } else if n == 12 {
        'c'
    } else if n == 13 {
        'd'
    } else if n == 14 {
        'e'
    } else {
        'f'
    }
}

/// The lowercase hex text of a byte string: two digits per byte, high nibble
/// first.
pub open spec fn hex_of(bytes: Seq<u8>) -> Seq<char>
    decreases bytes.len(),
{
    if bytes.len() == 0 {
        Seq::empty()
    } else {
        hex_of(bytes.drop_last()) + seq![
            hex_digit_char(bytes.last() as int / 16),
            hex_digit_char(bytes.last() as int % 16),
        ]
    }
}

/// Whether a character is a hexadecimal digit, in either case.
pub open spec fn is_hex_char(c: char) -> bool {
    ('0' <= c && c <= '9') || ('a' <= c && c <= 'f') || ('A' <= c && c <= 'F')
}

/// The value of one hexadecimal digit character.
pub open spec fn hex_char_value(c: char) -> int
    recommends
        is_hex_char(c),
{
    if '0' <= c && c <= '9' {
        c as int - '0' as int
    } else if 'a' <= c && c <= 'f' {
        c as int - 'a' as int + 10
    } else {
        c as int - 'A' as int + 10
    }
}

/// What decoding a hex string yields: the bytes, or nothing when the length
/// is odd or a character is no hex digit.
pub open spec fn hex_decode_of(s: Seq<char>) -> Option<Seq<u8>>
    decreases s.len(),
{
    if s.len() % 2 != 0 {
        None
    } else if s.len() == 0 {
        Some(Seq::empty())
    } else if !is_hex_char(s[s.len() - 2]) || !is_hex_char(s[s.len() - 1]) {
        None
    } else {
        match hex_decode_of(s.subrange(0, s.len() - 2)) {
            Some(rest) => Some(
                rest.push(
                    (hex_char_value(s[s.len() - 2]) * 16 + hex_char_value(s[s.len() - 1])) as u8,
                ),
            ),
            None => None,
        }
    }
}

fn hex_digit_of(n: u8) -> (c: char)
    requires
        n < 16,
    ensures
        c == hex_digit_char(n as int),
{
    if n == 0 {
        '0'
    } else if n == 1 {
        '1'
    } else if n == 2 {
        '2'
    } else if n == 3 {
        '3'
    } else if n == 4 {
        '4'
    } else if n == 5 {
        '5'
    } else if n == 6 {
        '6'
    } else if n == 7 {
        '7'
    } else if n == 8 {
        '8'
    } else if n == 9 {
        '9'
    } else if n == 10 {
        'a'
    } else if n == 11 {
        'b'
    } else if n == 12 {
        'c'
    } else if n == 13 {
        'd'
    } else if n == 14 {
        'e'
    } else {
        'f'
    }
}

/// Encodes bytes as lowercase hex text.
pub fn encode(bytes: &Vec<u8>) -> (s: String)
    ensures
        s@ == hex_of(bytes@),
{
    let mut out: Vec<char> = Vec::new();
    let mut i: usize = 0;
    while i < bytes.len()
        invariant
            i <= bytes@.len(),
            out@ == hex_of(bytes@.subrange(0, i as int)),
        decreases bytes@.len() - i,
    {
        let b = bytes[i];
        out.push(hex_digit_of(b / 16));
        out.push(hex_digit_of(b % 16));
        i = i + 1;
        proof {
            assert(bytes@.subrange(0, i as int).drop_last() =~= bytes@.subrange(0, i as int - 1));
            assert(out@ =~= hex_of(bytes@.subrange(0, i as int)));
        }
    }
    proof {
        assert(bytes@.subrange(0, bytes@.len() as int) =~= bytes@);
    }
    strutil::string_from_chars(&out)
}

fn hex_value_of(c: char) -> (r: Option<u8>)
    ensures
        match r {
            Some(v) => is_hex_char(c) && v as int == hex_char_value(c) && v < 16,
            None => !is_hex_char(c),
        },
{
    let u = c as u32;
    if '0' <= c && c <= '9' {
        Some((u - ('0' as u32)) as u8)
    } else if 'a' <= c && c <= 'f' {
        Some((u - ('a' as u32) + 10) as u8)
    } else if 'A' <= c && c <= 'F' {
        Some((u - ('A' as u32) + 10) as u8)
    } else {
        None
    }
}

/// Decodes hex text to bytes. Succeeds exactly on even-length strings of hex
/// digits.
pub fn decode(s: &str) -> (r: Option<Vec<u8>>)
    ensures
        match r {
            Some(v) => hex_decode_of(s@) == Some(v@),
            None => hex_decode_of(s@) is None,
        },
{
    let cs = strutil::chars_of(s);
    let n = cs.len();
    if n % 2 != 0 {
        return None;
    }
    let mut out: Vec<u8> = Vec::new();
    let mut i: usize = 0;
    while i < n
        invariant
            i <= n,
            n == cs@.len(),
            cs@ == s@,
            i % 2 == 0,
            n % 2 == 0,
            hex_decode_of(s@.subrange(0, i as int)) == Some(out@),
        decreases n - i,
    {
        let hi = match hex_value_of(cs[i]) {
            Some(v) => v,
            None => {
                proof {
                    lemma_hex_decode_bad_char(s@, i as int);
                }
                return None;
            },
        };
        let lo = match hex_value_of(cs[i + 1]) {
            Some(v) => v,
            None => {
                proof {
                    lemma_hex_decode_bad_char(s@, i as int + 1);
                }
                return None;
            },
        };
        out.push(hi * 16 + lo);
        i = i + 2;
        proof {
            assert(s@.subrange(0, i as int).subrange(0, i as int - 2) =~= s@.subrange(
                0,
                i as int - 2,
            ));
            assert(hex_decode_of(s@.subrange(0, i as int)) == Some(out@));
        }
    }
    proof {
        assert(s@.subrange(0, n as int) =~= s@);
    }
    Some(out)
}

/// A string with a non-hex character at an even-aligned position decodes to
/// nothing.
proof fn lemma_hex_decode_bad_char(s: Seq<char>, i: int)
    requires
        0 <= i < s.len(),
        s.len() % 2 == 0,
        !is_hex_char(s[i]),
    ensures
        hex_decode_of(s) is None,
    decreases s.len(),
{
    if s.len() >= 2 {
        if i < s.len() - 2 {
            lemma_hex_decode_bad_char(s.subrange(0, s.len() - 2), i);
        }
    }
}

/// Law: decoding the hex encoding of any byte string yields those bytes.
pub proof fn lemma_hex_round_trip(bytes: Seq<u8>)
    ensures
        hex_decode_of(hex_of(bytes)) == Some(bytes),
    decreases bytes.len(),
{
    if bytes.len() == 0 {
        assert(hex_of(bytes).len() == 0);
    } else {
        lemma_hex_round_trip(bytes.drop_last());
        lemma_hex_of_len(bytes.drop_last());
        lemma_hex_of_len(bytes);
        let s = hex_of(bytes);
        let b = bytes.last();
        assert(s == hex_of(bytes.drop_last()) + seq![
            hex_digit_char(b as int / 16),
            hex_digit_char(b as int % 16),
        ]);
        assert(s.subrange(0, s.len() - 2) =~= hex_of(bytes.drop_last()));
        assert(s[s.len() - 2] == hex_digit_char(b as int / 16));
        assert(s[s.len() - 1] == hex_digit_char(b as int % 16));
        lemma_hex_digit_char_value(b as int / 16);
        lemma_hex_digit_char_value(b as int % 16);
        assert(hex_char_value(s[s.len() - 2]) * 16 + hex_char_value(s[s.len() - 1]) == b as int);
        assert(hex_decode_of(s) == Some(bytes.drop_last().push(b)));
        assert(bytes.drop_last().push(b) =~= bytes);
    }
}

/// The hex text of a byte string is twice as long as the byte string.
pub proof fn lemma_hex_of_len(bytes: Seq<u8>)
    ensures
        hex_of(bytes).len() == 2 * bytes.len(),
    decreases bytes.len(),
{
    if bytes.len() > 0 {
        lemma_hex_of_len(bytes.drop_last());
    }
}

/// Each hex digit character is a hex character and reads back as its value.
proof fn lemma_hex_digit_char_value(n: int)
    requires
        0 <= n < 16,
    ensures
        is_hex_char(hex_digit_char(n)),
        hex_char_value(hex_digit_char(n)) == n,
{
}

} // verus!
