//! Hex encoding and decoding of state-root identifiers.
//!
//! A root identifier travels as a lowercase hex string; the durable HEAD
//! entry stores the raw bytes.  `to_hex` and `parse_hex` convert between
//! the two, and `lemma_parse_to_hex` is the round-trip law.

use vstd::prelude::*;
use vstd::string::StrSliceExecFns;
use vstd::string::StringExecFns;

verus! {

/// The character for one four-bit value.
pub open spec fn hex_digit(n: u8) -> char {
    if n == 0 {
        '0'
    } else if n == 1 {
        '1'
    } else if n == 2 {
        '2'
    } else if n == 3 {
        '3'
    } else if n == 4 {
        '4'
    } else if n == 5 {
        '5'
    } else if n == 6 {
        '6'
    } else if n == 7 {
        '7'
    } else if n == 8 {
        '8'
    } else if n == 9 {
        '9'
    } else if n == 10 {
        'a'
    } else if n == 11 {
        'b'
    } else if n == 12 {
        'c'
    } else if n == 13 {
        'd'
    } else if n == 14 {
        'e'
    } else {
        'f'
    }
}

/// The four-bit value of one hex character, upper or lower case;
/// 16 marks a character that is no hex digit.
pub open spec fn hex_value(c: char) -> u8 {
    if c == '0' {
        0
    } else if c == '1' {
        1
    } else if c == '2' {
        2
    } else if c == '3' {
        3
    } else if c == '4' {
        4
    } else if c == '5' {
        5
    } else if c == '6' {
        6
    } else if c == '7' {
        7
    } else if c == '8' {
        8
    } else if c == '9' {
        9
    } else if c == 'a' || c == 'A' {
        10
    } else if c == 'b' || c == 'B' {
        11
    } else if c == 'c' || c == 'C' {
        12
    } else if c == 'd' || c == 'D' {
        13
    } else if c == 'e' || c == 'E' {
        14
    } else if c == 'f' || c == 'F' {
        15
    } else {
        16
    }
}

pub open spec fn is_hex_char(c: char) -> bool {
    hex_value(c) < 16
}

/// A string that `parse_hex` accepts: even length, hex digits only.
pub open spec fn is_hex_str(s: Seq<char>) -> bool {
    &&& s.len() % 2 == 0
    &&& forall|i: int| 0 <= i < s.len() ==> is_hex_char(#[trigger] s[i])
}

/// The lowercase hex rendering of a byte sequence: two digits per byte,
/// high nibble first.
pub open spec fn to_hex_of(b: Seq<u8>) -> Seq<char>
    decreases b.len(),
{
    if b.len() == 0 {
        Seq::empty()
    } else {
        to_hex_of(b.drop_last()) + seq![
            hex_digit(b.last() / 16),
            hex_digit(b.last() % 16),
        ]
    }
}

/// The bytes a hex string denotes, two characters per byte.
pub open spec fn from_hex_of(s: Seq<char>) -> Seq<u8>
    decreases s.len(),
{
    if s.len() < 2 {
        Seq::empty()
    } else {
        from_hex_of(s.drop_last().drop_last()).push(
            (hex_value(s[s.len() - 2]) * 16 + hex_value(s.last()) % 16) as u8,
        )
    }
}

/// Append the two digits of one byte to a string.
fn push_byte_hex(s: &mut String, b: u8)
    ensures
        final(s)@ == old(s)@ + seq![hex_digit(b / 16), hex_digit(b % 16)],
{
    push_digit(s, b / 16);
    push_digit(s, b % 16);
    proof {
        assert(s@ =~= old(s)@ + seq![hex_digit(b / 16), hex_digit(b % 16)]);
    }
}

/// Append the digit of one four-bit value to a string.
fn push_digit(s: &mut String, n: u8)
    requires
        n < 16,
    ensures
        final(s)@ == old(s)@ + seq![hex_digit(n)],
{
    let d: &str = if n == 0 {
        "0"
    } else if n == 1 {
        "1"
    } else if n == 2 {
        "2"
    } else if n == 3 {
        "3"
    } else if n == 4 {
        "4"
    } else if n == 5 {
        "5"
    } else if n == 6 {
        "6"
    } else if n == 7 {
        "7"
    } else if n == 8 {
        "8"
    } else if n == 9 {
        "9"
    } else if n == 10 {
        "a"
    } else if n == 11 {
        "b"
    } else if n == 12 {
        "c"
    } else if n == 13 {
        "d"
    } else if n == 14 {
        "e"
    } else {
        "f"
    };
    proof {
        reveal_strlit("0");
        reveal_strlit("1");
        reveal_strlit("2");
        reveal_strlit("3");
        reveal_strlit("4");
        reveal_strlit("5");
        reveal_strlit("6");
        reveal_strlit("7");
        reveal_strlit("8");
        reveal_strlit("9");
        reveal_strlit("a");
        reveal_strlit("b");
        reveal_strlit("c");
        reveal_strlit("d");
        reveal_strlit("e");
        reveal_strlit("f");
        assert(d@ =~= seq![hex_digit(n)]);
    }
    s.append(d);
}

/// Render bytes as a lowercase hex string, two digits per byte.
pub fn to_hex(bytes: &Vec<u8>) -> (s: String)
    ensures
        s@ == to_hex_of(bytes@),
{
    let mut s = String::new();
    let mut i: usize = 0;
    while i < bytes.len()
        invariant
            i <= bytes@.len(),
            s@ =~= to_hex_of(bytes@.take(i as int)),
        decreases bytes@.len() - i,
    {
        push_byte_hex(&mut s, bytes[i]);
        proof {
            let p = bytes@.take(i + 1);
            assert(p.drop_last() =~= bytes@.take(i as int));
            assert(p.last() == bytes@[i as int]);
        }
        i += 1;
    }
    proof {
        assert(bytes@.take(bytes@.len() as int) =~= bytes@);
    }
    s
}

/// Decode a hex string into its bytes.  Fails exactly when the string has
/// odd length or holds a character that is no hex digit.
pub fn parse_hex(s: &str) -> (r: Result<Vec<u8>, ()>)
    ensures
        r is Ok <==> is_hex_str(s@),
        r matches Ok(b) ==> b@ == from_hex_of(s@),
{
    let n: usize = s.unicode_len();
    if n % 2 != 0 {
        return Err(());
    }
    let mut out: Vec<u8> = Vec::new();
    let mut i: usize = 0;
    while i < n
        invariant
            n == s@.len(),
            i <= n,
            i % 2 == 0,
            n % 2 == 0,
            forall|j: int| 0 <= j < i ==> is_hex_char(#[trigger] s@[j]),
            out@ =~= from_hex_of(s@.take(i as int)),
        decreases n - i,
    {
        let hi: u8 = hex_char_value(s.get_char(i));
        let lo: u8 = hex_char_value(s.get_char(i + 1));
        if hi >= 16 || lo >= 16 {
            return Err(());
        }
        out.push(hi * 16 + lo);
        proof {
            let p = s@.take(i + 2);
            assert(p.drop_last().drop_last() =~= s@.take(i as int));
            assert(p[p.len() - 2] == s@[i as int]);
            assert(p.last() == s@[i + 1]);
        }
        i += 2;
    }
    proof {
        assert(s@.take(n as int) =~= s@);
    }
    Ok(out)
}

/// The four-bit value of one character, or 16 where it is no hex digit.
fn hex_char_value(c: char) -> (n: u8)
    ensures
        n == hex_value(c),
{
    match c {
        '0' => 0,
        '1' => 1,
        '2' => 2,
        '3' => 3,
        '4' => 4,
        '5' => 5,
        '6' => 6,
        '7' => 7,
        '8' => 8,
        '9' => 9,
        'a' | 'A' => 10,
        'b' | 'B' => 11,
        'c' | 'C' => 12,
        'd' | 'D' => 13,
        'e' | 'E' => 14,
        'f' | 'F' => 15,
        _ => 16,
    }
}

/// Decoding the rendering of any byte sequence gives the bytes back.
pub proof fn lemma_parse_to_hex(b: Seq<u8>)
    ensures
        is_hex_str(to_hex_of(b)),
        from_hex_of(to_hex_of(b)) == b,
    decreases b.len(),
{
    if b.len() == 0 {
        assert(from_hex_of(to_hex_of(b)) =~= b);
    } else {
        lemma_parse_to_hex(b.drop_last());
        let s = to_hex_of(b);
        let prev = to_hex_of(b.drop_last());
        assert(s.len() == prev.len() + 2);
        assert(s.drop_last().drop_last() =~= prev);
        assert(forall|i: int| 0 <= i < prev.len() ==> s[i] == prev[i]);
        assert(s[s.len() - 2] == hex_digit(b.last() / 16));
        assert(s.last() == hex_digit(b.last() % 16));
        assert(is_hex_char(hex_digit(b.last() / 16)));
        assert(is_hex_char(hex_digit(b.last() % 16)));
        assert(hex_value(hex_digit(b.last() / 16)) == b.last() / 16);
        assert(hex_value(hex_digit(b.last() % 16)) == b.last() % 16);
        assert(from_hex_of(s) == from_hex_of(prev).push(
            (hex_value(s[s.len() - 2]) * 16 + hex_value(s.last()) % 16) as u8,
        ));
        assert((b.last() / 16 * 16 + (b.last() % 16) % 16) as u8 == b.last());
        assert(from_hex_of(s) =~= b);
    }
}

} // verus!
