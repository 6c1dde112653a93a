//! Numbers written as text and read from it.

use vstd::prelude::*;

use crate::text;

verus! {

// ---------------------------------------------------------------------------------------
// Writing

/// The character of a hexadecimal digit.
pub open spec fn digit_char(d: int) -> char {
    if d < 10 {
        (48 + d) as char
    } else {
        (87 + d) as char
    }
}

/// `n` in decimal, without leading zeros.
pub open spec fn decimal(n: nat) -> Seq<char>
    decreases n,
{
    if n < 10 {
        seq![digit_char(n as int)]
    } else {
        decimal(n / 10).push(digit_char((n % 10) as int))
    }
}

/// The `width` lowest hexadecimal digits of `n`, in lower case.
pub open spec fn hexadecimal(n: nat, width: nat) -> Seq<char>
    decreases width,
{
    if width == 0 {
        Seq::empty()
    } else {
        hexadecimal(n / 16, (width - 1) as nat).push(digit_char((n % 16) as int))
    }
}

fn write_digit(d: u8) -> (r: char)
    requires
        d < 16,
    ensures
        r == digit_char(d as int),
{
    if d < 10 {
        (48u8 + d) as char
    } else {
        (87u8 + d) as char
    }
}

/// Writes `n` in decimal.
pub fn write_decimal(n: u64) -> (r: String)
    ensures
        r@ == decimal(n as nat),
    decreases n,
{
    let mut out = if n < 10 { String::new() } else { write_decimal(n / 10) };
    let d: u8 = (n % 10) as u8;
    out.push(write_digit(d));
    assert(n < 10 ==> out@ =~= seq![digit_char(n as int)]);
    out
}

/// Writes the `width` lowest hexadecimal digits of `n`.
pub fn write_hexadecimal(n: u64, width: usize) -> (r: String)
    ensures
        r@ == hexadecimal(n as nat, width as nat),
    decreases width,
{
    if width == 0 {
        String::new()
    } else {
        let mut out = write_hexadecimal(n / 16, width - 1);
        let d: u8 = (n % 16) as u8;
        out.push(write_digit(d));
        out
    }
}

// ---------------------------------------------------------------------------------------
// Reading

/// Every character is a decimal digit, and there is at least one.
pub open spec fn all_digits(s: Seq<char>) -> bool {
    s.len() > 0 && forall|i: int| 0 <= i < s.len() ==> '0' <= #[trigger] s[i] <= '9'
}

/// The number that a row of decimal digits denotes.
pub open spec fn digits_value(s: Seq<char>) -> nat
    decreases s.len(),
{
    if s.len() == 0 {
        0
    } else {
        (digits_value(s.drop_last()) * 10 + (s.last() as int - 48)) as nat
    }
}

/// The digits behind an optional sign `+`.
pub open spec fn behind_plus(s: Seq<char>) -> Seq<char> {
    if s.len() > 0 && s[0] == '+' {
        s.drop_first()
    } else {
        s
    }
}

/// The number below 2^64 that `s` denotes: digits, with at most a `+` before them.
pub open spec fn unsigned_of(s: Seq<char>) -> Option<u64> {
    let d = behind_plus(s);
    if all_digits(d) && digits_value(d) <= u64::MAX {
        Some(digits_value(d) as u64)
    } else {
        None
    }
}

/// The signed 64-bit number that `s` denotes: digits, with at most one sign before them.
pub open spec fn signed_of(s: Seq<char>) -> Option<i64> {
    if s.len() > 0 && s[0] == '-' {
        let d = s.drop_first();
        if all_digits(d) && digits_value(d) <= -(i64::MIN as int) {
            Some((-(digits_value(d) as int)) as i64)
        } else {
            None
        }
    } else {
        let d = behind_plus(s);
        if all_digits(d) && digits_value(d) <= i64::MAX {
            Some(digits_value(d) as i64)
        } else {
            None
        }
    }
}

proof fn lemma_value_grows(s: Seq<char>, n: int)
    requires
        0 <= n <= s.len(),
        forall|i: int| 0 <= i < s.len() ==> '0' <= #[trigger] s[i] <= '9',
    ensures
        digits_value(s.take(n)) <= digits_value(s),
    decreases s.len() - n,
{
    if n < s.len() {
        lemma_value_grows(s, n + 1);
        assert(s.take(n + 1).drop_last() =~= s.take(n));
        assert('0' <= s[n] <= '9');
    } else {
        assert(s.take(n) =~= s);
    }
}

/// The value of the digits from `from` on, unless it exceeds `u64::MAX`.
fn read_digits(cs: &Vec<char>, from: usize) -> (r: Option<u64>)
    requires
        from <= cs@.len(),
    ensures
        ({
            let d = cs@.skip(from as int);
            r == if all_digits(d) && digits_value(d) <= u64::MAX {
                Some(digits_value(d) as u64)
            } else {
                None
            }
        }),
{
    let n: usize = cs.len();
    let ghost d = cs@.skip(from as int);
    if from == n {
        return None;
    }
    let mut value: u64 = 0;
    let mut i: usize = from;
    while i < n
        invariant
            from <= i <= n == cs@.len(),
            from < n,
            d == cs@.skip(from as int),
            forall|j: int| 0 <= j < i - from ==> '0' <= #[trigger] d[j] <= '9',
            value == digits_value(d.take(i - from)),
        decreases n - i,
    {
        let c = cs[i];
        assert(c == d[i - from]);
        if c < '0' || c > '9' {
            return None;
        }
        let x: u64 = (c as u32 - 48) as u64;
        assert(d.take(i - from + 1).drop_last() =~= d.take(i - from));
        if value > u64::MAX / 10 || value * 10 > u64::MAX - x {
            proof {
                if all_digits(d) {
                    lemma_value_grows(d, i - from + 1);
                }
            }
            return None;
        }
        value = value * 10 + x;
        i += 1;
    }
    assert(d.take(n - from) =~= d);
    Some(value)
}

/// Reads an unsigned number.
pub fn read_unsigned(s: &str) -> (r: Option<u64>)
    ensures
        r == unsigned_of(s@),
{
    let cs = text::chars_of(s);
    let from: usize = if cs.len() > 0 && cs[0] == '+' { 1 } else { 0 };
    assert(cs@.skip(0) =~= cs@);
    assert(cs@.len() > 0 ==> cs@.skip(1) =~= cs@.drop_first());
    read_digits(&cs, from)
}

/// Reads a signed number.
pub fn read_signed(s: &str) -> (r: Option<i64>)
    ensures
        r == signed_of(s@),
{
    let cs = text::chars_of(s);
    assert(cs@.skip(0) =~= cs@);
    assert(cs@.len() > 0 ==> cs@.skip(1) =~= cs@.drop_first());
    if cs.len() > 0 && cs[0] == '-' {
        match read_digits(&cs, 1) {
            Some(v) => if v < 0x8000_0000_0000_0000 {
                Some(-(v as i64))
            } else if v == 0x8000_0000_0000_0000 {
                Some(i64::MIN)
            } else {
                None
            },
            None => None,
        }
    } else {
        let from: usize = if cs.len() > 0 && cs[0] == '+' { 1 } else { 0 };
        match read_digits(&cs, from) {
            Some(v) => if v <= 0x7fff_ffff_ffff_ffff {
                Some(v as i64)
            } else {
                None
            },
            None => None,
        }
    }
}

proof fn lemma_decimal_digits(n: nat)
    ensures
        all_digits(decimal(n)),
        digits_value(decimal(n)) == n,
        decimal(n)[0] != '+',
        decimal(n)[0] != '-',
    decreases n,
{
    let s = decimal(n);
    if n < 10 {
        assert(s.drop_last() =~= Seq::<char>::empty());
        assert(digits_value(s.drop_last()) == 0);
    } else {
        lemma_decimal_digits(n / 10);
        assert(s.drop_last() =~= decimal(n / 10));
        assert(s[0] == decimal(n / 10)[0]);
    }
}

/// A number that was written is read back unchanged.
pub proof fn law_number_read_back(n: u64)
    ensures
        unsigned_of(decimal(n as nat)) == Some(n),
        n <= i64::MAX ==> signed_of(decimal(n as nat)) == Some(n as i64),
{
    lemma_decimal_digits(n as nat);
}

} // verus!
