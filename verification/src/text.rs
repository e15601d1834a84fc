//! ASCII text as bytes: separators, fields, and what std makes of bytes as text.

use vstd::prelude::*;
use vstd::string::{is_ascii, is_ascii_spec_bytes, StringSliceAdditionalSpecFns};
use vstd::utf8::{encode_utf8, is_ascii_chars, is_ascii_chars_encode_utf8, valid_utf8};

verus! {

/// `std::str::Utf8Error`, which says where bytes stop being UTF-8.
#[verifier::external_type_specification]
#[verifier::external_body]
pub struct ExUtf8Error(std::str::Utf8Error);

/// The line feed.
pub const NEWLINE: u8 = 0x0a;

/// `%`
pub const PERCENT: u8 = 0x25;

/// `+`
pub const PLUS: u8 = 0x2b;

/// `.`
pub const DOT: u8 = 0x2e;

/// `0`
pub const ZERO: u8 = 0x30;

/// `9`
pub const NINE: u8 = 0x39;

/// `:`
pub const COLON: u8 = 0x3a;

/// `[`
pub const OPEN: u8 = 0x5b;

/// `]`
pub const CLOSE: u8 = 0x5d;

/// `|`
pub const BAR: u8 = 0x7c;

/// The bytes of a text whose characters are all ASCII.
pub open spec fn bytes(text: Seq<char>) -> Seq<u8> {
    Seq::new(text.len(), |i: int| text[i] as u8)
}

/// The characters of a sequence of ASCII bytes.
pub open spec fn ascii(bytes: Seq<u8>) -> Seq<char> {
    Seq::new(bytes.len(), |i: int| bytes[i] as char)
}

/// Whether every byte of `s` is an ASCII byte.
pub open spec fn is_ascii_bytes(s: Seq<u8>) -> bool {
    forall|i: int| 0 <= i < s.len() ==> s[i] < 0x80
}

/// The position of the first `sep` in `s`, or the length of `s` if it holds none.
pub open spec fn find(s: Seq<u8>, sep: u8) -> int
    decreases s.len(),
{
    if s.len() == 0 || s[0] == sep {
        0
    } else {
        1 + find(s.skip(1), sep)
    }
}

/// Whether `sep` occurs nowhere in `s`.
pub open spec fn free_of(s: Seq<u8>, sep: u8) -> bool {
    forall|i: int| 0 <= i < s.len() ==> s[i] != sep
}

/// The fields of `s` between occurrences of `sep`. There is always at least
/// one field; a field may be empty.
pub open spec fn split(s: Seq<u8>, sep: u8) -> Seq<Seq<u8>>
    decreases s.len(),
{
    let i = find(s, sep);
    if i < 0 || i >= s.len() {
        seq![s]
    } else {
        seq![s.take(i)] + split(s.skip(i + 1), sep)
    }
}

/// `find` is the least position that holds `sep`.
pub proof fn lemma_find(s: Seq<u8>, sep: u8)
    ensures
        0 <= find(s, sep) <= s.len(),
        free_of(s.take(find(s, sep)), sep),
        find(s, sep) < s.len() ==> s[find(s, sep)] == sep,
    decreases s.len(),
{
    if s.len() == 0 || s[0] == sep {
    } else {
        lemma_find(s.skip(1), sep);
        let i = find(s, sep);
        assert forall|j: int| 0 <= j < s.take(i).len() implies s.take(i)[j] != sep by {
            if j > 0 {
                assert(s.take(i)[j] == s.skip(1).take(i - 1)[j - 1]);
            }
        }
    }
}

/// A position that holds `sep`, or is the end, with no `sep` before it, is `find`.
pub proof fn lemma_find_is(s: Seq<u8>, sep: u8, i: int)
    requires
        0 <= i <= s.len(),
        forall|j: int| 0 <= j < i ==> s[j] != sep,
        i < s.len() ==> s[i] == sep,
    ensures
        find(s, sep) == i,
    decreases s.len(),
{
    if s.len() == 0 || s[0] == sep {
    } else {
        assert forall|j: int| 0 <= j < i - 1 implies s.skip(1)[j] != sep by {
            assert(s.skip(1)[j] == s[j + 1]);
        }
        lemma_find_is(s.skip(1), sep, i - 1);
    }
}

/// A text that is free of `sep` is its own single field.
pub proof fn lemma_split_free(s: Seq<u8>, sep: u8)
    requires
        free_of(s, sep),
    ensures
        split(s, sep) == seq![s],
{
    lemma_find_is(s, sep, s.len() as int);
}

/// Splitting `head`, `sep`, `tail` gives `head` and then the fields of `tail`,
/// where `head` is free of `sep`.
pub proof fn lemma_split_cons(head: Seq<u8>, sep: u8, tail: Seq<u8>)
    requires
        free_of(head, sep),
    ensures
        split(head + seq![sep] + tail, sep) == seq![head] + split(tail, sep),
{
    let s = head + seq![sep] + tail;
    lemma_find_is(s, sep, head.len() as int);
    assert(s.take(head.len() as int) == head);
    assert(s.skip(head.len() as int + 1) == tail);
}

/// Two texts with `sep` between are two fields, where neither holds `sep`.
pub proof fn lemma_split_two(a: Seq<u8>, b: Seq<u8>, sep: u8)
    requires
        free_of(a, sep),
        free_of(b, sep),
    ensures
        split(a + seq![sep] + b, sep) == seq![a, b],
{
    lemma_split_free(b, sep);
    lemma_split_cons(a, sep, b);
    assert(seq![a] + seq![b] =~= seq![a, b]);
}

/// Five texts with `sep` between are five fields, where none holds `sep`.
pub proof fn lemma_split_five(
    a: Seq<u8>,
    b: Seq<u8>,
    c: Seq<u8>,
    d: Seq<u8>,
    e: Seq<u8>,
    sep: u8,
)
    requires
        free_of(a, sep),
        free_of(b, sep),
        free_of(c, sep),
        free_of(d, sep),
        free_of(e, sep),
    ensures
        split(a + seq![sep] + b + seq![sep] + c + seq![sep] + d + seq![sep] + e, sep) == seq![
            a,
            b,
            c,
            d,
            e,
        ],
{
    let t3 = d + seq![sep] + e;
    let t2 = c + seq![sep] + t3;
    let t1 = b + seq![sep] + t2;
    let t0 = a + seq![sep] + t1;
    lemma_split_two(d, e, sep);
    lemma_split_cons(c, sep, t3);
    assert(split(t2, sep) =~= seq![c, d, e]);
    lemma_split_cons(b, sep, t2);
    assert(split(t1, sep) =~= seq![b, c, d, e]);
    lemma_split_cons(a, sep, t1);
    assert(split(t0, sep) =~= seq![a, b, c, d, e]);
    assert(a + seq![sep] + b + seq![sep] + c + seq![sep] + d + seq![sep] + e =~= t0);
}

/// ASCII bytes are the UTF-8 encoding of their characters.
pub proof fn lemma_utf8_of_ascii(s: Seq<u8>)
    requires
        is_ascii_bytes(s),
    ensures
        is_ascii_chars(ascii(s)),
        encode_utf8(ascii(s)) == s,
{
    is_ascii_chars_encode_utf8(ascii(s));
    assert(encode_utf8(ascii(s)) =~= s);
}

/// Whether the bytes of `s` are the ASCII text `t`.
pub fn is_text(s: &[u8], t: &str) -> (r: bool)
    requires
        is_ascii(t),
    ensures
        r == (s@ == bytes(t@)),
{
    let b = t.as_bytes();
    proof {
        is_ascii_spec_bytes(t);
        assert(b@ =~= bytes(t@));
    }
    if s.len() != b.len() {
        return false;
    }
    let mut i: usize = 0;
    while i < s.len()
        invariant
            i <= s@.len(),
            s@.len() == b@.len(),
            b@ == bytes(t@),
            forall|j: int| 0 <= j < i ==> s@[j] == b@[j],
        decreases s@.len() - i,
    {
        if s[i] != b[i] {
            return false;
        }
        i += 1;
    }
    assert(s@ =~= b@);
    true
}

/// The text that `String::from_utf8_lossy` makes of `bytes`: the text that
/// the bytes encode, where each run of bytes that encodes nothing is
/// replaced by U+FFFD.
pub uninterp spec fn utf8_lossy(bytes: Seq<u8>) -> Seq<char>;

/// Calls `String::from_utf8_lossy` and takes the text it gives as a
/// `String`. Trusted: that the text depends on the bytes alone.
#[verifier::external_body]
pub(crate) fn from_utf8_lossy(bytes: &[u8]) -> (text: String)
    ensures
        text@ == utf8_lossy(bytes@),
{
    String::from_utf8_lossy(bytes).into_owned()
}

/// Calls `std::str::from_utf8`. Trusted: that it gives the bytes as a text
/// where they are valid UTF-8, and an error where they are not.
#[verifier::external_body]
pub(crate) fn from_utf8(bytes: &[u8]) -> (r: Result<&str, std::str::Utf8Error>)
    ensures
        (r is Ok) <==> valid_utf8(bytes@),
        r matches Ok(text) ==> text.spec_bytes() == bytes@,
{
    std::str::from_utf8(bytes)
}

/// Appends `more` to `out`.
pub fn extend(out: &mut Vec<u8>, more: &[u8])
    ensures
        final(out)@ == old(out)@ + more@,
{
    let mut i: usize = 0;
    while i < more.len()
        invariant
            i <= more@.len(),
            out@ == old(out)@ + more@.take(i as int),
        decreases more@.len() - i,
    {
        out.push(more[i]);
        assert(more@.take(i + 1) == more@.take(i as int).push(more@[i as int]));
        i += 1;
    }
    assert(more@.take(more@.len() as int) == more@);
}

/// The bytes of an ASCII text.
pub fn text_bytes(t: &str) -> (r: Vec<u8>)
    requires
        is_ascii(t),
    ensures
        r@ == bytes(t@),
{
    let b = t.as_bytes();
    proof {
        is_ascii_spec_bytes(t);
        assert(b@ =~= bytes(t@));
    }
    let mut r: Vec<u8> = Vec::new();
    extend(&mut r, b);
    r
}

/// `s` without the line feed that it ends with, if it ends with one.
pub open spec fn strip_newline(s: Seq<u8>) -> Seq<u8> {
    if s.len() > 0 && s.last() == NEWLINE {
        s.drop_last()
    } else {
        s
    }
}

/// The position of the first `sep` of `s` at or after `from`, or the length
/// of `s` if there is none.
pub fn find_from(s: &[u8], from: usize, sep: u8) -> (at: usize)
    requires
        from <= s@.len(),
    ensures
        at == from + find(s@.skip(from as int), sep),
        from <= at <= s@.len(),
{
    let mut i: usize = from;
    while i < s.len() && s[i] != sep
        invariant
            from <= i <= s@.len(),
            forall|j: int| from <= j < i ==> s@[j] != sep,
        decreases s@.len() - i,
    {
        i += 1;
    }
    proof {
        lemma_find_is(s@.skip(from as int), sep, i - from);
    }
    i
}

/// The fields of `s` between occurrences of `sep`, each as the range of
/// positions that it takes in `s`.
pub fn split_ranges(s: &[u8], sep: u8) -> (r: Vec<(usize, usize)>)
    ensures
        r@.len() == split(s@, sep).len(),
        forall|k: int|
            #![trigger r@[k]]
            #![trigger split(s@, sep)[k]]
            0 <= k < r@.len() ==> r@[k].0 <= r@[k].1 <= s@.len() && s@.subrange(
                r@[k].0 as int,
                r@[k].1 as int,
            ) == split(s@, sep)[k],
{
    let mut r: Vec<(usize, usize)> = Vec::new();
    let mut start: usize = 0;
    let ghost mut done: Seq<Seq<u8>> = Seq::empty();
    assert(s@.skip(0) == s@);
    loop
        invariant_except_break
            start <= s@.len(),
            split(s@, sep) == done + split(s@.skip(start as int), sep),
            r@.len() == done.len(),
        invariant
            r@.len() <= done.len(),
            forall|k: int|
                #![trigger r@[k]]
                #![trigger done[k]]
                0 <= k < r@.len() ==> r@[k].0 <= r@[k].1 <= s@.len() && s@.subrange(
                    r@[k].0 as int,
                    r@[k].1 as int,
                ) == done[k],
        ensures
            r@.len() == done.len(),
            split(s@, sep) == done,
        decreases s@.len() - start,
    {
        let end: usize = find_from(s, start, sep);
        let ghost rest = s@.skip(start as int);
        let ghost before = done;
        let ghost taken = r@;
        proof {
            assert(rest.take(end - start) == s@.subrange(start as int, end as int));
            if end < s@.len() {
                assert(rest.skip(end - start + 1) == s@.skip(end + 1));
            } else {
                assert(rest.take(end - start) == rest);
            }
            done = done.push(s@.subrange(start as int, end as int));
        }
        r.push((start, end));
        assert forall|k: int| 0 <= k < r@.len() implies r@[k].0 <= r@[k].1 <= s@.len()
            && s@.subrange(r@[k].0 as int, r@[k].1 as int) == done[k] by {
            if k < taken.len() {
                assert(r@[k] == taken[k]);
                assert(done[k] == before[k]);
            }
        }
        if end == s.len() {
            break ;
        }
        start = end + 1;
    }
    r
}

} // verus!
