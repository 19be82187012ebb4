//! Decimal rendering and parsing of integers, with exact specifications.
//!
//! Rendering matches what the standard formatter prints for integers, and
//! parsing matches what `str::parse` accepts for unsigned and signed
//! integers: an optional sign, then one or more ASCII digits, rejecting
//! anything else and any value out of range.
use crate::strutil::string_from_chars;
use vstd::prelude::*;

verus! {

pub open spec fn is_digit_char(c: char) -> bool {
    '0' as u32 <= c as u32 && c as u32 <= '9' as u32
}

pub open spec fn digit_val(c: char) -> nat {
    (c as u32 - '0' as u32) as nat
}

pub open spec fn digit_char(d: nat) -> char {
    if d == 0 {
        '0'
    } else if d == 1 {
        '1'
    } else if d == 2 {
        '2'
    } else if d == 3 {
        '3'
    } else if d == 4 {
        '4'
    } else if d == 5 {
        '5'
    } else if d == 6 {
        '6'
    } else if d == 7 {
        '7'
    } else if d == 8 {
        '8'
    } else {
        '9'
    }
}

/// Digits of `n` in base ten, most significant first; empty for zero.
pub open spec fn dec_digits(n: nat) -> Seq<char>
    decreases n,
{
    if n == 0 {
        Seq::empty()
    } else {
        dec_digits(n / 10).push(digit_char(n % 10))
    }
}

/// Decimal rendering of a natural number, as the standard formatter prints it.
pub open spec fn dec_nat(n: nat) -> Seq<char> {
    if n == 0 {
        seq!['0']
    } else {
        dec_digits(n)
    }
}

/// Decimal rendering of an integer, with a leading minus sign when negative.
pub open spec fn dec_int(i: int) -> Seq<char> {
    if i < 0 {
        seq!['-'] + dec_nat((-i) as nat)
    } else {
        dec_nat(i as nat)
    }
}

pub open spec fn all_digits(s: Seq<char>) -> bool {
    forall|i: int| 0 <= i < s.len() ==> is_digit_char(s[i])
}

/// Value of a digit string read in base ten.
pub open spec fn digits_val(s: Seq<char>) -> nat
    decreases s.len(),
{
    if s.len() == 0 {
        0
    } else {
        digits_val(s.drop_last()) * 10 + digit_val(s.last())
    }
}

/// What parsing a bare digit string yields under a cap: no sign, at least
/// one digit, all digits, value at most `cap`.
pub open spec fn parse_digits_spec(s: Seq<char>, cap: nat) -> Option<nat> {
    if s.len() == 0 || !all_digits(s) {
        None
    } else if digits_val(s) > cap {
        None
    } else {
        Some(digits_val(s))
    }
}

/// What `str::parse` accepts for an unsigned integer type whose maximum is
/// `cap`: an optional leading plus sign, then digits.
pub open spec fn parse_uint_spec(s: Seq<char>, cap: nat) -> Option<nat> {
    if s.len() > 0 && s[0] == '+' {
        parse_digits_spec(s.subrange(1, s.len() as int), cap)
    } else {
        parse_digits_spec(s, cap)
    }
}

/// What `str::parse::<i64>` accepts: an optional sign, then digits, within
/// the range of the type.
pub open spec fn parse_i64_spec(s: Seq<char>) -> Option<i64> {
    if s.len() > 0 && s[0] == '-' {
        match parse_digits_spec(s.subrange(1, s.len() as int), 0x8000_0000_0000_0000nat) {
            Some(m) => Some((-(m as int)) as i64),
            None => None,
        }
    } else {
        match parse_uint_spec(s, 0x7fff_ffff_ffff_ffffnat) {
            Some(m) => Some(m as i64),
            None => None,
        }
    }
}

fn digit_to_char(d: u64) -> (c: char)
    requires
        d < 10,
    ensures
        c == digit_char(d as nat),
{
    if d == 0 {
        '0'
    } else if d == 1 {
        '1'
    } else if d == 2 {
        '2'
    } else if d == 3 {
        '3'
    } else if d == 4 {
        '4'
    } else if d == 5 {
        '5'
    } else if d == 6 {
        '6'
    } else if d == 7 {
        '7'
    } else if d == 8 {
        '8'
    } else {
        '9'
    }
}

/// Digits of `n` in base ten, most significant first, as a vector.
pub fn dec_chars_u64(n: u64) -> (r: Vec<char>)
    ensures
        r@ == dec_nat(n as nat),
{
    let mut digits: Vec<char> = Vec::new();
    if n == 0 {
        digits.push('0');
        proof {
            assert(digits@ =~= dec_nat(n as nat));
        }
        return digits;
    }
    let mut m: u64 = n;
    while m > 0
        invariant
            dec_digits(n as nat) == dec_digits(m as nat) + digits@,
        decreases m,
    {
        let d: u64 = m % 10;
        let c = digit_to_char(d);
        let ghost prev = digits@;
        digits.insert(0, c);
        proof {
            assert(digits@ =~= seq![c] + prev);
            assert(dec_digits(m as nat) == dec_digits((m / 10) as nat).push(c));
            assert(dec_digits((m / 10) as nat) + digits@ =~= dec_digits(m as nat) + prev);
        }
        m = m / 10;
    }
    proof {
        assert(dec_digits(0nat) + digits@ =~= digits@);
        assert(digits@ == dec_nat(n as nat));
    }
    digits
}

/// Renders an unsigned integer in base ten.
pub fn fmt_u64(n: u64) -> (r: String)
    ensures
        r@ == dec_nat(n as nat),
{
    let digits = dec_chars_u64(n);
    string_from_chars(&digits)
}

/// Renders a signed integer in base ten.
pub fn fmt_i64(n: i64) -> (r: String)
    ensures
        r@ == dec_int(n as int),
{
    if n >= 0 {
        let r = fmt_u64(n as u64);
        proof {
            assert(r@ == dec_int(n as int));
        }
        r
    } else {
        let mag: u64 = if n == i64::MIN {
            9223372036854775808u64
        } else {
            (-n) as u64
        };
        proof {
            assert(mag as int == -(n as int));
        }
        let mut digits = dec_chars_u64(mag);
        let ghost body = digits@;
        digits.insert(0, '-');
        proof {
            assert(digits@ =~= seq!['-'] + body);
            assert(digits@ =~= dec_int(n as int));
        }
        string_from_chars(&digits)
    }
}

proof fn lemma_digits_val_step(s: Seq<char>, i: int)
    requires
        0 <= i < s.len(),
    ensures
        digits_val(s.subrange(0, i + 1)) == digits_val(s.subrange(0, i)) * 10 + digit_val(s[i]),
{
    let pre = s.subrange(0, i + 1);
    assert(pre.drop_last() =~= s.subrange(0, i));
    assert(pre.last() == s[i]);
}

/// A digit string is worth at least its prefix: appending digits never
/// lowers the value read so far.
proof fn lemma_digits_val_prefix(s: Seq<char>, i: int)
    requires
        0 <= i <= s.len(),
    ensures
        digits_val(s) >= digits_val(s.subrange(0, i)),
    decreases s.len() - i,
{
    if i == s.len() {
        assert(s.subrange(0, i) =~= s);
    } else {
        lemma_digits_val_step(s, i);
        assert(digits_val(s.subrange(0, i + 1)) >= digits_val(s.subrange(0, i)));
        lemma_digits_val_prefix(s, i + 1);
    }
}

/// Parses the digits of `v` from position `from` on, capped at `cap`.
pub fn parse_digits_capped(v: &Vec<char>, from: usize, cap: u64) -> (r: Option<u64>)
    requires
        from <= v@.len(),
    ensures
        match r {
            Some(x) => parse_digits_spec(v@.subrange(from as int, v@.len() as int), cap as nat)
                == Some(x as nat),
            None => parse_digits_spec(v@.subrange(from as int, v@.len() as int), cap as nat)
                is None,
        },
{
    let ghost s = v@.subrange(from as int, v@.len() as int);
    let n = v.len();
    if from == n {
        return None;
    }
    let mut acc: u64 = 0;
    let mut i: usize = from;
    while i < n
        invariant
            from <= i <= n,
            n == v@.len(),
            s == v@.subrange(from as int, v@.len() as int),
            acc as nat == digits_val(s.subrange(0, i - from)),
            acc <= cap,
            all_digits(s.subrange(0, i - from)),
        decreases n - i,
    {
        let c = v[i];
        let u: u32 = c as u32;
        if u < 48 || u > 57 {
            proof {
                assert(s[i - from] == v@[i as int]);
                assert(!is_digit_char(s[i - from]));
            }
            return None;
        }
        let d: u64 = (u - 48) as u64;
        proof {
            assert(is_digit_char(v@[i as int]));
            assert(d as nat == digit_val(v@[i as int]));
        }
        // Would acc * 10 + d exceed cap?
        let overflow: bool = acc > cap / 10 || (acc == cap / 10 && d > cap % 10);
        proof {
            let a = acc as nat;
            let dd = d as nat;
            let cc = cap as nat;
            assert((a * 10 + dd > cc) == (a > cc / 10 || (a == cc / 10 && dd > cc % 10)))
                by (nonlinear_arith)
                requires
                    dd < 10,
            ;
            lemma_digits_val_step(s, i - from);
            assert(s[i - from] == v@[i as int]);
        }
        if overflow {
            proof {
                assert(digits_val(s.subrange(0, i - from + 1)) > cap as nat);
                lemma_digits_val_prefix(s, i - from + 1);
                assert(digits_val(s) > cap as nat);
            }
            return None;
        }
        acc = acc * 10 + d;
        proof {
            assert(forall|j: int|
                0 <= j < i - from + 1 ==> s.subrange(0, i - from + 1)[j] == s[j]);
            assert(all_digits(s.subrange(0, i - from + 1)));
        }
        i += 1;
    }
    proof {
        assert(s.subrange(0, n - from) =~= s);
    }
    Some(acc)
}

/// Parses an unsigned value of at most `cap`, as `str::parse` would for an
/// unsigned integer type with that maximum.
pub fn parse_uint_capped(v: &Vec<char>, cap: u64) -> (r: Option<u64>)
    ensures
        match r {
            Some(x) => parse_uint_spec(v@, cap as nat) == Some(x as nat),
            None => parse_uint_spec(v@, cap as nat) is None,
        },
{
    if v.len() > 0 && v[0] == '+' {
        let r = parse_digits_capped(v, 1, cap);
        proof {
            assert(v@.subrange(1, v@.len() as int) == v@.subrange(1, v@.len() as int));
        }
        r
    } else {
        let r = parse_digits_capped(v, 0, cap);
        proof {
            assert(v@.subrange(0, v@.len() as int) =~= v@);
        }
        r
    }
}

/// Parses as `str::parse::<u32>` does.
pub fn parse_u32_chars(v: &Vec<char>) -> (r: Option<u32>)
    ensures
        match r {
            Some(x) => parse_uint_spec(v@, u32::MAX as nat) == Some(x as nat),
            None => parse_uint_spec(v@, u32::MAX as nat) is None,
        },
{
    match parse_uint_capped(v, 0xffff_ffffu64) {
        Some(x) => Some(x as u32),
        None => None,
    }
}

/// Parses as `str::parse::<u16>` does.
pub fn parse_u16_chars(v: &Vec<char>) -> (r: Option<u16>)
    ensures
        match r {
            Some(x) => parse_uint_spec(v@, u16::MAX as nat) == Some(x as nat),
            None => parse_uint_spec(v@, u16::MAX as nat) is None,
        },
{
    match parse_uint_capped(v, 0xffffu64) {
        Some(x) => Some(x as u16),
        None => None,
    }
}

/// Parses as `str::parse::<i64>` does.
pub fn parse_i64_chars(v: &Vec<char>) -> (r: Option<i64>)
    ensures
        r == parse_i64_spec(v@),
{
    if v.len() > 0 && v[0] == '-' {
        match parse_digits_capped(v, 1, 0x8000_0000_0000_0000u64) {
            Some(m) => {
                let r: i64 = if m == 0x8000_0000_0000_0000u64 {
                    i64::MIN
                } else {
                    -(m as i64)
                };
                proof {
                    assert(r as int == -(m as int));
                }
                Some(r)
            },
            None => None,
        }
    } else {
        match parse_uint_capped(v, 0x7fff_ffff_ffff_ffffu64) {
            Some(m) => Some(m as i64),
            None => None,
        }
    }
}

/// Reading back a rendered natural number gives the number itself.
pub proof fn lemma_dec_digits_all_digits(n: nat)
    ensures
        all_digits(dec_digits(n)),
        digits_val(dec_digits(n)) == n,
    decreases n,
{
    if n == 0 {
    } else {
        lemma_dec_digits_all_digits(n / 10);
        let s = dec_digits(n);
        assert(s.drop_last() =~= dec_digits(n / 10));
        assert(is_digit_char(digit_char(n % 10)));
        assert(digit_val(digit_char(n % 10)) == n % 10);
        assert(digits_val(s) == (n / 10) * 10 + n % 10);
        assert((n / 10) * 10 + n % 10 == n) by (nonlinear_arith);
        assert(forall|i: int|
            0 <= i < s.len() ==> is_digit_char(#[trigger] s[i]) == if i < s.len() - 1 {
                is_digit_char(s.drop_last()[i])
            } else {
                is_digit_char(s.last())
            });
    }
}

pub proof fn lemma_dec_nat_all_digits(n: nat)
    ensures
        all_digits(dec_nat(n)),
        dec_nat(n).len() >= 1,
        digits_val(dec_nat(n)) == n,
        dec_nat(n)[0] != '+',
        dec_nat(n)[0] != '-',
{
    lemma_dec_digits_all_digits(n);
    if n == 0 {
        assert(dec_nat(0nat) == seq!['0']);
        assert(digits_val(seq!['0']) == 0nat) by {
            assert(seq!['0'].drop_last() =~= Seq::<char>::empty());
        }
    } else {
        if dec_digits(n).len() == 0 {
            assert(digits_val(dec_digits(n)) == 0);
            assert(false);
        }
        assert(is_digit_char(dec_nat(n)[0]));
        assert('+' as u32 == 43 && '-' as u32 == 45 && '0' as u32 == 48);
    }
}

/// Round trip: parsing the decimal rendering of an `i64` yields it back.
pub proof fn lemma_parse_dec_int_round_trip(n: i64)
    ensures
        parse_i64_spec(dec_int(n as int)) == Some(n),
{
    if n >= 0 {
        lemma_dec_nat_all_digits(n as nat);
        assert(parse_uint_spec(dec_nat(n as nat), 0x7fff_ffff_ffff_ffffnat) == Some(n as nat));
    } else {
        let mag = (-(n as int)) as nat;
        lemma_dec_nat_all_digits(mag);
        let s = dec_int(n as int);
        assert(s[0] == '-');
        assert(s.subrange(1, s.len() as int) =~= dec_nat(mag));
        assert(mag <= 0x8000_0000_0000_0000nat);
        assert(parse_digits_spec(dec_nat(mag), 0x8000_0000_0000_0000nat) == Some(mag));
    }
}

} // verus!
