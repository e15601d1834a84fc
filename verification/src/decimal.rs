//! Decimal numbers written in ASCII digits.

use crate::text::{ascii, free_of, NINE, PLUS, ZERO};
use vstd::prelude::*;
use vstd::string::StringExecFns;

verus! {

/// Whether `b` is one of the digits `0` to `9`.
pub open spec fn is_digit(b: u8) -> bool {
    0x30 <= b <= 0x39
}

/// The number that a digit stands for; 0 for any other byte.
pub open spec fn digit_value(b: u8) -> nat {
    if is_digit(b) {
        (b - 0x30) as nat
    } else {
        0
    }
}

/// Whether `s` holds digits only.
pub open spec fn all_digits(s: Seq<u8>) -> bool {
    forall|i: int| 0 <= i < s.len() ==> is_digit(s[i])
}

/// The number that the digits of `s` write in base ten, most significant
/// digit first. The empty text writes 0.
pub open spec fn value(s: Seq<u8>) -> nat
    decreases s.len(),
{
    if s.len() == 0 {
        0
    } else {
        value(s.drop_last()) * 10 + digit_value(s.last())
    }
}

/// The length of the run of digits that `s` starts with.
pub open spec fn digit_run(s: Seq<u8>) -> int
    decreases s.len(),
{
    if s.len() == 0 || !is_digit(s[0]) {
        0
    } else {
        1 + digit_run(s.skip(1))
    }
}

/// `n` in base ten, without leading zeros; `0` is written `0`.
pub open spec fn decimal(n: nat) -> Seq<u8>
    decreases n,
{
    if n < 10 {
        seq![(0x30 + n) as u8]
    } else {
        decimal(n / 10).push((0x30 + n % 10) as u8)
    }
}

/// Why a text is not a number of the wanted type.
#[derive(Debug, Clone, Copy, PartialEq, Eq, Structural)]
pub enum IntErrorKind {
    /// The text is empty.
    Empty,
    /// A byte that is no digit stands where a digit is wanted.
    InvalidDigit,
    /// The number is too large for the type.
    PosOverflow,
}

/// What a text is as a `u32`: an optional `+`, then one or more digits that
/// write a number of at most `u32::MAX`. Scanning from the left, the error
/// is that of the first byte that cannot be taken: `InvalidDigit` where no
/// digit stands, `PosOverflow` where the digit makes the number too large.
pub open spec fn parse_u32_spec(s: Seq<u8>) -> Result<u32, IntErrorKind> {
    let d = if s.len() > 0 && s[0] == PLUS {
        s.skip(1)
    } else {
        s
    };
    let n = digit_run(d);
    if s.len() == 0 {
        Err(IntErrorKind::Empty)
    } else if d.len() == 0 {
        Err(IntErrorKind::InvalidDigit)
    } else if value(d.take(n)) > u32::MAX {
        Err(IntErrorKind::PosOverflow)
    } else if n < d.len() {
        Err(IntErrorKind::InvalidDigit)
    } else {
        Ok(value(d) as u32)
    }
}

/// What a text is as a number of at most `max`: one or more digits, leading
/// zeros allowed.
pub open spec fn parse_digits_spec(s: Seq<u8>, max: nat) -> Option<nat> {
    if s.len() > 0 && all_digits(s) && value(s) <= max {
        Some(value(s))
    } else {
        None
    }
}

/// `digit_run` is the least position that holds no digit.
pub proof fn lemma_digit_run(s: Seq<u8>)
    ensures
        0 <= digit_run(s) <= s.len(),
        all_digits(s.take(digit_run(s))),
        digit_run(s) < s.len() ==> !is_digit(s[digit_run(s)]),
    decreases s.len(),
{
    if s.len() == 0 || !is_digit(s[0]) {
    } else {
        lemma_digit_run(s.skip(1));
        let n = digit_run(s);
        assert forall|j: int| 0 <= j < s.take(n).len() implies is_digit(s.take(n)[j]) by {
            if j > 0 {
                assert(s.take(n)[j] == s.skip(1).take(n - 1)[j - 1]);
            }
        }
    }
}

/// A position that holds no digit, or is the end, with digits only before it,
/// is `digit_run`.
pub proof fn lemma_digit_run_is(s: Seq<u8>, n: int)
    requires
        0 <= n <= s.len(),
        forall|j: int| 0 <= j < n ==> is_digit(s[j]),
        n < s.len() ==> !is_digit(s[n]),
    ensures
        digit_run(s) == n,
    decreases s.len(),
{
    if s.len() == 0 || !is_digit(s[0]) {
    } else {
        assert forall|j: int| 0 <= j < n - 1 implies is_digit(s.skip(1)[j]) by {
            assert(s.skip(1)[j] == s[j + 1]);
        }
        lemma_digit_run_is(s.skip(1), n - 1);
    }
}

/// Taking one more byte multiplies the value by ten and adds the digit.
pub proof fn lemma_value_step(s: Seq<u8>, k: int)
    requires
        0 <= k < s.len(),
    ensures
        value(s.take(k + 1)) == value(s.take(k)) * 10 + digit_value(s[k]),
{
    assert(s.take(k + 1).drop_last() == s.take(k));
}

/// A longer prefix writes no smaller number.
pub proof fn lemma_value_monotone(s: Seq<u8>, a: int, b: int)
    requires
        0 <= a <= b <= s.len(),
    ensures
        value(s.take(a)) <= value(s.take(b)),
    decreases b - a,
{
    if a < b {
        lemma_value_monotone(s, a, b - 1);
        lemma_value_step(s, b - 1);
    }
}

/// The digits of `decimal(n)` write `n`, and there is no leading zero but
/// for `0` itself.
pub proof fn lemma_decimal(n: nat)
    ensures
        decimal(n).len() >= 1,
        all_digits(decimal(n)),
        value(decimal(n)) == n,
        n > 0 ==> decimal(n)[0] != 0x30,
        n < 10 ==> decimal(n).len() == 1,
        10 <= n < 100 ==> decimal(n).len() == 2,
        100 <= n < 1000 ==> decimal(n).len() == 3,
    decreases n,
{
    if n < 10 {
        let s = decimal(n);
        assert(s.drop_last() == Seq::<u8>::empty());
        assert(value(s.drop_last()) == 0);
    } else {
        lemma_decimal(n / 10);
        let s = decimal(n);
        assert(s.drop_last() == decimal(n / 10));
        assert(s[0] == decimal(n / 10)[0]);
    }
}

/// Reading `decimal(n)` as a `u32` gives `n` back.
pub proof fn lemma_parse_u32_decimal(n: u32)
    ensures
        parse_u32_spec(decimal(n as nat)) == Ok::<u32, IntErrorKind>(n),
{
    let s = decimal(n as nat);
    lemma_decimal(n as nat);
    lemma_digit_run_is(s, s.len() as int);
    assert(s.take(s.len() as int) == s);
}

/// A text of digits holds no byte that is no digit.
pub proof fn lemma_digits_free_of(s: Seq<u8>, sep: u8)
    requires
        all_digits(s),
        !is_digit(sep),
    ensures
        free_of(s, sep),
{
}

/// Reads a `u32` as `str::parse` does.
pub fn parse_u32(s: &[u8]) -> (r: Result<u32, IntErrorKind>)
    ensures
        r == parse_u32_spec(s@),
{
    if s.len() == 0 {
        return Err(IntErrorKind::Empty);
    }
    let start: usize = if s[0] == PLUS {
        1
    } else {
        0
    };
    if start == s.len() {
        return Err(IntErrorKind::InvalidDigit);
    }
    let ghost d = s@.skip(start as int);
    assert(s@.skip(0) == s@);
    let mut acc: u32 = 0;
    let mut i: usize = start;
    while i < s.len()
        invariant
            0 < s@.len(),
            start < s@.len(),
            start <= i <= s@.len(),
            d == if s@[0] == PLUS { s@.skip(1) } else { s@ },
            d.len() == s@.len() - start,
            forall|j: int| 0 <= j < d.len() ==> d[j] == s@[j + start],
            forall|j: int| 0 <= j < i - start ==> is_digit(d[j]),
            acc == value(d.take(i - start)),
        decreases s@.len() - i,
    {
        let b: u8 = s[i];
        proof {
            assert(d[i - start] == b);
            lemma_digit_run(d);
        }
        if b < ZERO || b > NINE {
            proof {
                lemma_digit_run_is(d, i - start);
            }
            return Err(IntErrorKind::InvalidDigit);
        }
        let digit: u32 = (b - ZERO) as u32;
        proof {
            lemma_value_step(d, i - start);
            let n = digit_run(d);
            if n < i - start + 1 {
                assert(is_digit(d[n]));
            }
            lemma_value_monotone(d, i - start + 1, n);
        }
        if acc > (u32::MAX - digit) / 10 {
            return Err(IntErrorKind::PosOverflow);
        }
        acc = acc * 10 + digit;
        i += 1;
    }
    proof {
        lemma_digit_run_is(d, d.len() as int);
        assert(d.take(d.len() as int) == d);
    }
    Ok(acc)
}

/// Reads one or more digits as a number of at most `max`.
pub fn parse_digits(s: &[u8], max: u32) -> (r: Option<u32>)
    ensures
        r matches Some(n) ==> parse_digits_spec(s@, max as nat) == Some(n as nat),
        r is None ==> parse_digits_spec(s@, max as nat) is None,
{
    if s.len() == 0 {
        return None;
    }
    let mut acc: u32 = 0;
    let mut i: usize = 0;
    while i < s.len()
        invariant
            i <= s@.len(),
            all_digits(s@.take(i as int)),
            acc == value(s@.take(i as int)),
            acc <= max,
        decreases s@.len() - i,
    {
        let b: u8 = s[i];
        if b < ZERO || b > NINE {
            return None;
        }
        let digit: u32 = (b - ZERO) as u32;
        proof {
            lemma_value_step(s@, i as int);
            lemma_value_monotone(s@, i + 1, s@.len() as int);
            assert(s@.take(s@.len() as int) == s@);
            let next = s@.take(i + 1);
            assert forall|j: int| 0 <= j < next.len() implies is_digit(next[j]) by {
                if j < i {
                    assert(s@.take(i as int)[j] == s@[j]);
                }
            }
        }
        if digit > max || acc > (max - digit) / 10 {
            return None;
        }
        acc = acc * 10 + digit;
        i += 1;
    }
    proof {
        assert(s@.take(s@.len() as int) == s@);
    }
    Some(acc)
}

/// The text of one digit.
fn digit_text(d: u32) -> (t: &'static str)
    requires
        d < 10,
    ensures
        t@ == seq![(0x30 + d) as u8 as char],
{
    proof {
        reveal_strlit("0");
        reveal_strlit("1");
        reveal_strlit("2");
        reveal_strlit("3");
        reveal_strlit("4");
        reveal_strlit("5");
        reveal_strlit("6");
        reveal_strlit("7");
        reveal_strlit("8");
        reveal_strlit("9");
    }
    let t = match d {
        0 => "0",
        1 => "1",
        2 => "2",
        3 => "3",
        4 => "4",
        5 => "5",
        6 => "6",
        7 => "7",
        8 => "8",
        _ => "9",
    };
    assert(t@ =~= seq![(0x30 + d) as u8 as char]);
    t
}

/// Appends `n` in base ten to `out`.
pub fn push_decimal(out: &mut String, n: u32)
    ensures
        final(out)@ == old(out)@ + ascii(decimal(n as nat)),
    decreases n,
{
    if n >= 10 {
        push_decimal(out, n / 10);
    }
    out.append(digit_text(n % 10));
    proof {
        let d = decimal(n as nat);
        if n >= 10 {
            assert(ascii(d) =~= ascii(decimal((n / 10) as nat)) + seq![(0x30 + n % 10) as u8 as char]);
        } else {
            assert(ascii(d) =~= seq![(0x30 + n % 10) as u8 as char]);
        }
    }
}

} // verus!
