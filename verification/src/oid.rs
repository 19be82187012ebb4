//! Document ids as plain bytes, with their hexadecimal text form.
//!
//! The store identifies documents by a twelve-byte id, written as a
//! twenty-four character lowercase hexadecimal string. An id of all zero
//! bytes is the sentinel that stands for "no parent" on a comment.
use crate::strutil::{chars_of_str, string_from_chars};
use vstd::prelude::*;

verus! {

pub const OBJECT_ID_LEN: usize = 12;

pub open spec fn hex_digit_char(d: nat) -> char {
    if d == 0 {
        '0'
    } else if d == 1 {
        '1'
    } else if d == 2 {
        '2'
    } else if d == 3 {
        '3'
    } else if d == 4 {
        '4'
    } else if d == 5 {
        '5'
    } else if d == 6 {
        '6'
    } else if d == 7 {
        '7'
    } else if d == 8 {
        '8'
    } else if d == 9 {
        '9'
    } else if d == 10 {
        'a'
    } else if d == 11 {
        'b'
    } else if d == 12 {
        'c'
    } else if d == 13 {
        'd'
    } else if d == 14 {
        'e'
    } else {
        'f'
    }
}

pub open spec fn hex_of_byte(b: u8) -> Seq<char> {
    seq![hex_digit_char(b as nat / 16), hex_digit_char(b as nat % 16)]
}

/// Lowercase hexadecimal rendering of a byte string, two digits per byte.
pub open spec fn hex_of_bytes(s: Seq<u8>) -> Seq<char>
    decreases s.len(),
{
    if s.len() == 0 {
        Seq::empty()
    } else {
        hex_of_bytes(s.drop_last()) + hex_of_byte(s.last())
    }
}

pub open spec fn is_hex_digit_char(c: char) -> bool {
    ('0' as u32 <= c as u32 && c as u32 <= '9' as u32) || ('a' as u32 <= c as u32 && c as u32
        <= 'f' as u32) || ('A' as u32 <= c as u32 && c as u32 <= 'F' as u32)
}

pub open spec fn hex_digit_val(c: char) -> nat {
    if '0' as u32 <= c as u32 && c as u32 <= '9' as u32 {
        (c as u32 - '0' as u32) as nat
    } else if 'a' as u32 <= c as u32 && c as u32 <= 'f' as u32 {
        (c as u32 - 'a' as u32 + 10) as nat
    } else {
        (c as u32 - 'A' as u32 + 10) as nat
    }
}

/// What parsing an id out of hexadecimal text yields: exactly twenty-four
/// hexadecimal digits, upper or lower case, giving twelve bytes.
pub open spec fn id_of_hex(s: Seq<char>) -> Option<Seq<u8>> {
    if s.len() != 2 * OBJECT_ID_LEN {
        None
    } else if !(forall|i: int| 0 <= i < s.len() ==> is_hex_digit_char(s[i])) {
        None
    } else {
        Some(
            Seq::new(
                OBJECT_ID_LEN as nat,
                |i: int| (hex_digit_val(s[2 * i]) * 16 + hex_digit_val(s[2 * i + 1])) as u8,
            ),
        )
    }
}

/// A well-formed id holds exactly twelve bytes.
pub open spec fn id_wf(s: Seq<u8>) -> bool {
    s.len() == OBJECT_ID_LEN
}

/// The all-zero id: the zero-value sentinel that means "no parent".
pub open spec fn id_is_zero(s: Seq<u8>) -> bool {
    forall|i: int| 0 <= i < s.len() ==> s[i] == 0u8
}

fn hex_digit_to_char(d: u8) -> (c: char)
    requires
        d < 16,
    ensures
        c == hex_digit_char(d as nat),
{
    if d == 0 {
        '0'
    } else if d == 1 {
        '1'
    } else if d == 2 {
        '2'
    } else if d == 3 {
        '3'
    } else if d == 4 {
        '4'
    } else if d == 5 {
        '5'
    } else if d == 6 {
        '6'
    } else if d == 7 {
        '7'
    } else if d == 8 {
        '8'
    } else if d == 9 {
        '9'
    } else if d == 10 {
        'a'
    } else if d == 11 {
        'b'
    } else if d == 12 {
        'c'
    } else if d == 13 {
        'd'
    } else if d == 14 {
        'e'
    } else {
        'f'
    }
}

/// Renders bytes as lowercase hexadecimal text, as the store writes ids.
pub fn hex_string_of_bytes(bytes: &Vec<u8>) -> (r: String)
    ensures
        r@ == hex_of_bytes(bytes@),
{
    let mut chars: Vec<char> = Vec::new();
    let mut i: usize = 0;
    while i < bytes.len()
        invariant
            0 <= i <= bytes.len(),
            chars@ == hex_of_bytes(bytes@.subrange(0, i as int)),
        decreases bytes.len() - i,
    {
        let b = bytes[i];
        let hi = hex_digit_to_char(b / 16);
        let lo = hex_digit_to_char(b % 16);
        chars.push(hi);
        chars.push(lo);
        proof {
            let pre = bytes@.subrange(0, i as int + 1);
            assert(pre.drop_last() =~= bytes@.subrange(0, i as int));
            assert(pre.last() == bytes@[i as int]);
            assert(chars@ =~= hex_of_bytes(bytes@.subrange(0, i as int)) + hex_of_byte(
                bytes@[i as int],
            ));
        }
        i += 1;
    }
    proof {
        assert(bytes@.subrange(0, bytes@.len() as int) =~= bytes@);
    }
    string_from_chars(&chars)
}

fn hex_char_val(c: char) -> (r: Option<u8>)
    ensures
        match r {
            Some(d) => is_hex_digit_char(c) && d as nat == hex_digit_val(c) && d < 16,
            None => !is_hex_digit_char(c),
        },
{
    let u: u32 = c as u32;
    if 48 <= u && u <= 57 {
        Some((u - 48) as u8)
    } else if 97 <= u && u <= 102 {
        Some((u - 97 + 10) as u8)
    } else if 65 <= u && u <= 70 {
        Some((u - 65 + 10) as u8)
    } else {
        None
    }
}

/// Parses an id out of its hexadecimal text form, as the store reads one:
/// exactly twenty-four hexadecimal digits, upper or lower case.
pub fn id_from_hex_chars(s: &Vec<char>) -> (r: Option<Vec<u8>>)
    ensures
        match r {
            Some(bytes) => id_of_hex(s@) == Some(bytes@) && id_wf(bytes@),
            None => id_of_hex(s@) is None,
        },
{
    if s.len() != 2 * OBJECT_ID_LEN {
        return None;
    }
    let mut bytes: Vec<u8> = Vec::new();
    let mut i: usize = 0;
    while i < OBJECT_ID_LEN
        invariant
            0 <= i <= OBJECT_ID_LEN,
            s@.len() == 2 * OBJECT_ID_LEN,
            bytes@.len() == i,
            forall|j: int| 0 <= j < 2 * i ==> is_hex_digit_char(s@[j]),
            forall|j: int|
                0 <= j < i ==> bytes@[j] == (hex_digit_val(s@[2 * j]) * 16 + hex_digit_val(
                    s@[2 * j + 1],
                )) as u8,
        decreases OBJECT_ID_LEN - i,
    {
        let hi = match hex_char_val(s[2 * i]) {
            Some(d) => d,
            None => {
                return None;
            },
        };
        let lo = match hex_char_val(s[2 * i + 1]) {
            Some(d) => d,
            None => {
                return None;
            },
        };
        bytes.push(hi * 16 + lo);
        i += 1;
    }
    proof {
        let expected = id_of_hex(s@);
        assert(forall|j: int| 0 <= j < s@.len() ==> is_hex_digit_char(s@[j]));
        assert(expected matches Some(b) && b =~= bytes@);
    }
    Some(bytes)
}

/// Parses an id out of a string slice.
pub fn id_from_hex(s: &str) -> (r: Option<Vec<u8>>)
    ensures
        match r {
            Some(bytes) => id_of_hex(s@) == Some(bytes@) && id_wf(bytes@),
            None => id_of_hex(s@) is None,
        },
{
    let chars = chars_of_str(s);
    id_from_hex_chars(&chars)
}

/// Tests for the all-zero sentinel id.
pub fn id_zero_check(bytes: &Vec<u8>) -> (r: bool)
    ensures
        r == id_is_zero(bytes@),
{
    let mut i: usize = 0;
    while i < bytes.len()
        invariant
            0 <= i <= bytes.len(),
            forall|j: int| 0 <= j < i ==> bytes@[j] == 0u8,
        decreases bytes.len() - i,
    {
        if bytes[i] != 0 {
            return false;
        }
        i += 1;
    }
    true
}

/// Round trip: rendering an id and parsing the text gives the id back.
pub proof fn lemma_id_hex_round_trip(bytes: Seq<u8>)
    requires
        id_wf(bytes),
    ensures
        id_of_hex(hex_of_bytes(bytes)) == Some(bytes),
{
    lemma_hex_of_bytes_shape(bytes);
    let s = hex_of_bytes(bytes);
    assert(id_of_hex(s) matches Some(b) && b =~= bytes);
}

proof fn lemma_hex_of_bytes_shape(bytes: Seq<u8>)
    ensures
        hex_of_bytes(bytes).len() == 2 * bytes.len(),
        forall|i: int|
            0 <= i < bytes.len() ==> #[trigger] hex_of_bytes(bytes)[2 * i] == hex_digit_char(
                bytes[i] as nat / 16,
            ) && hex_of_bytes(bytes)[2 * i + 1] == hex_digit_char(bytes[i] as nat % 16),
        forall|j: int| 0 <= j < 2 * bytes.len() ==> is_hex_digit_char(#[trigger] hex_of_bytes(
            bytes,
        )[j]),
        forall|i: int|
            0 <= i < bytes.len() ==> (hex_digit_val(#[trigger] hex_of_bytes(bytes)[2 * i]) * 16
                + hex_digit_val(hex_of_bytes(bytes)[2 * i + 1])) as u8 == bytes[i],
    decreases bytes.len(),
{
    if bytes.len() == 0 {
    } else {
        lemma_hex_of_bytes_shape(bytes.drop_last());
        let s = hex_of_bytes(bytes);
        let pre = hex_of_bytes(bytes.drop_last());
        let b = bytes.last();
        assert(s == pre + hex_of_byte(b));
        assert forall|d: nat| d < 16 implies is_hex_digit_char(hex_digit_char(d)) && hex_digit_val(
            hex_digit_char(d),
        ) == d by {
            assert('0' as u32 == 48 && '9' as u32 == 57 && 'a' as u32 == 97 && 'f' as u32 == 102);
        }
        assert(b as nat / 16 < 16 && b as nat % 16 < 16);
        assert((hex_digit_val(s[2 * (bytes.len() - 1)]) * 16 + hex_digit_val(
            s[2 * (bytes.len() - 1) + 1],
        )) as u8 == b) by {
            assert(s[2 * (bytes.len() - 1)] == hex_digit_char(b as nat / 16));
            assert(s[2 * (bytes.len() - 1) + 1] == hex_digit_char(b as nat % 16));
            assert((b as nat / 16) * 16 + b as nat % 16 == b as nat) by (nonlinear_arith);
        }
    }
}

} // verus!
