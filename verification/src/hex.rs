//! Hexadecimal numbers written in ASCII digits.

use crate::decimal::is_digit;
use crate::text::ascii;
use vstd::prelude::*;
use vstd::string::StringExecFns;

verus! {

/// Whether `b` is a hexadecimal digit, in either case.
pub open spec fn is_hex(b: u8) -> bool {
    is_digit(b) || 0x61 <= b <= 0x66 || 0x41 <= b <= 0x46
}

/// The number that a hexadecimal digit stands for; 0 for any other byte.
pub open spec fn hex_value(b: u8) -> nat {
    if is_digit(b) {
        (b - 0x30) as nat
    } else if 0x61 <= b <= 0x66 {
        (b - 0x61 + 10) as nat
    } else if 0x41 <= b <= 0x46 {
        (b - 0x41 + 10) as nat
    } else {
        0
    }
}

/// Whether `s` holds hexadecimal digits only.
pub open spec fn all_hex(s: Seq<u8>) -> bool {
    forall|i: int| 0 <= i < s.len() ==> is_hex(s[i])
}

/// The number that the digits of `s` write in base sixteen, most
/// significant digit first.
pub open spec fn hex_number(s: Seq<u8>) -> nat
    decreases s.len(),
{
    if s.len() == 0 {
        0
    } else {
        hex_number(s.drop_last()) * 16 + hex_value(s.last())
    }
}

/// The lower-case hexadecimal digit for a number below sixteen.
pub open spec fn hex_digit(d: nat) -> u8 {
    if d < 10 {
        (0x30 + d) as u8
    } else {
        (0x61 + d - 10) as u8
    }
}

/// `n` in base sixteen, in lower case and without leading zeros; `0` is
/// written `0`.
pub open spec fn hex(n: nat) -> Seq<u8>
    decreases n,
{
    if n < 16 {
        seq![hex_digit(n)]
    } else {
        hex(n / 16).push(hex_digit(n % 16))
    }
}

/// What a text is as a group of an IPv6 address: one to four hexadecimal
/// digits.
pub open spec fn group_spec(s: Seq<u8>) -> Option<u16> {
    if 1 <= s.len() <= 4 && all_hex(s) {
        Some(hex_number(s) as u16)
    } else {
        None
    }
}

/// The digits of `hex(n)` are lower-case hexadecimal digits that write `n`.
pub proof fn lemma_hex(n: nat)
    ensures
        hex(n).len() >= 1,
        all_hex(hex(n)),
        forall|i: int|
            0 <= i < hex(n).len() ==> is_digit(#[trigger] hex(n)[i]) || 0x61 <= hex(n)[i] <= 0x66,
        hex_number(hex(n)) == n,
        n < 16 ==> hex(n).len() == 1,
        16 <= n < 256 ==> hex(n).len() == 2,
        256 <= n < 4096 ==> hex(n).len() == 3,
        4096 <= n < 65536 ==> hex(n).len() == 4,
    decreases n,
{
    let s = hex(n);
    if n < 16 {
        assert(s.drop_last() == Seq::<u8>::empty());
        assert(hex_number(s.drop_last()) == 0);
    } else {
        lemma_hex(n / 16);
        assert(s.drop_last() == hex(n / 16));
        assert forall|i: int| 0 <= i < s.len() implies is_digit(#[trigger] s[i]) || 0x61 <= s[i]
            <= 0x66 by {
            if i < s.len() - 1 {
                assert(s[i] == hex(n / 16)[i]);
            }
        }
    }
}

/// Reading `hex(n)` as a group gives `n` back.
pub proof fn lemma_group_hex(n: u16)
    ensures
        group_spec(hex(n as nat)) == Some(n),
{
    lemma_hex(n as nat);
}

/// Up to four hexadecimal digits write a number below 65536.
pub proof fn lemma_hex_number_bound(s: Seq<u8>)
    requires
        all_hex(s),
    ensures
        s.len() == 0 ==> hex_number(s) == 0,
        s.len() == 1 ==> hex_number(s) < 16,
        s.len() == 2 ==> hex_number(s) < 256,
        s.len() == 3 ==> hex_number(s) < 4096,
        s.len() == 4 ==> hex_number(s) < 65536,
    decreases s.len(),
{
    if s.len() > 0 {
        lemma_hex_number_bound(s.drop_last());
    }
}

/// Reads a group of an IPv6 address.
pub fn parse_group(s: &[u8]) -> (r: Option<u16>)
    ensures
        r == group_spec(s@),
{
    if s.len() < 1 || s.len() > 4 {
        return None;
    }
    let mut acc: u32 = 0;
    let mut i: usize = 0;
    while i < s.len()
        invariant
            i <= s@.len() <= 4,
            all_hex(s@.take(i as int)),
            acc == hex_number(s@.take(i as int)),
        decreases s@.len() - i,
    {
        let b: u8 = s[i];
        let digit: u32 = if 0x30 <= b && b <= 0x39 {
            (b - 0x30) as u32
        } else if 0x61 <= b && b <= 0x66 {
            (b - 0x61 + 10) as u32
        } else if 0x41 <= b && b <= 0x46 {
            (b - 0x41 + 10) as u32
        } else {
            assert(!is_hex(s@[i as int]));
            return None;
        };
        proof {
            let next = s@.take(i + 1);
            assert(next.drop_last() == s@.take(i as int));
            assert forall|j: int| 0 <= j < next.len() implies is_hex(next[j]) by {
                if j < i {
                    assert(s@.take(i as int)[j] == s@[j]);
                }
            }
            lemma_hex_number_bound(s@.take(i as int));
        }
        acc = acc * 16 + digit;
        i += 1;
    }
    proof {
        assert(s@.take(s@.len() as int) == s@);
        lemma_hex_number_bound(s@);
    }
    Some(acc as u16)
}

/// The text of one hexadecimal digit.
fn hex_digit_text(d: u16) -> (t: &'static str)
    requires
        d < 16,
    ensures
        t@ == seq![hex_digit(d as nat) as char],
{
    proof {
        reveal_strlit("0");
        reveal_strlit("1");
        reveal_strlit("2");
        reveal_strlit("3");
        reveal_strlit("4");
        reveal_strlit("5");
        reveal_strlit("6");
        reveal_strlit("7");
        reveal_strlit("8");
        reveal_strlit("9");
        reveal_strlit("a");
        reveal_strlit("b");
        reveal_strlit("c");
        reveal_strlit("d");
        reveal_strlit("e");
        reveal_strlit("f");
    }
    let t = match d {
        0 => "0",
        1 => "1",
        2 => "2",
        3 => "3",
        4 => "4",
        5 => "5",
        6 => "6",
        7 => "7",
        8 => "8",
        9 => "9",
        10 => "a",
        11 => "b",
        12 => "c",
        13 => "d",
        14 => "e",
        _ => "f",
    };
    assert(t@ =~= seq![hex_digit(d as nat) as char]);
    t
}

/// Appends `n` in base sixteen to `out`.
pub fn push_hex(out: &mut String, n: u16)
    ensures
        final(out)@ == old(out)@ + ascii(hex(n as nat)),
    decreases n,
{
    if n >= 16 {
        push_hex(out, n / 16);
    }
    out.append(hex_digit_text(n % 16));
    proof {
        let d = hex(n as nat);
        if n >= 16 {
            assert(ascii(d) =~= ascii(hex((n / 16) as nat)) + seq![
                hex_digit((n % 16) as nat) as char,
            ]);
        } else {
            assert(ascii(d) =~= seq![hex_digit((n % 16) as nat) as char]);
        }
    }
}

} // verus!
