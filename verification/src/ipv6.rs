//! IPv6 addresses and their text.

use crate::decimal::is_digit;
use crate::hex::{group_spec, hex, lemma_group_hex, lemma_hex, parse_group, push_hex};
use crate::net::Ipv4Addr;
use crate::text::{
    ascii, bytes, free_of, lemma_split_cons, lemma_split_free, lemma_split_two, split,
    split_ranges, COLON, DOT,
};
use vstd::prelude::*;
use vstd::slice::slice_subrange;
use vstd::string::StringExecFns;

verus! {

/// An IPv6 address: its eight groups of sixteen bits, the first one first.
#[derive(Debug, Clone, Copy, PartialEq, Eq, Hash, Structural)]
pub struct Ipv6Addr {
    pub a: u16,
    pub b: u16,
    pub c: u16,
    pub d: u16,
    pub e: u16,
    pub f: u16,
    pub g: u16,
    pub h: u16,
}

/// How many groups from position `i` on are zero without a break.
pub open spec fn zeros_at(groups: Seq<u16>, i: int) -> int
    decreases groups.len() - i,
{
    if i < 0 || i >= groups.len() || groups[i] != 0 {
        0
    } else {
        1 + zeros_at(groups, i + 1)
    }
}

/// Where the longest run of zero groups at or after position `i` starts:
/// the first such run where several are longest, and the end of the groups
/// where there is no group at or after `i`.
pub open spec fn longest_at(groups: Seq<u16>, i: int) -> int
    decreases groups.len() - i,
{
    if i < 0 || i >= groups.len() {
        groups.len() as int
    } else {
        let later = longest_at(groups, i + 1);
        if zeros_at(groups, i) >= zeros_at(groups, later) {
            i
        } else {
            later
        }
    }
}

/// The groups in lower-case hexadecimal, with colons between.
pub open spec fn join(groups: Seq<u16>) -> Seq<u8>
    decreases groups.len(),
{
    if groups.len() == 0 {
        Seq::empty()
    } else if groups.len() == 1 {
        hex(groups[0] as nat)
    } else {
        hex(groups[0] as nat) + seq![COLON] + join(groups.skip(1))
    }
}

/// The position of the first two colons in a row, or the length of `s` if
/// it holds no such pair.
pub open spec fn find_gap(s: Seq<u8>) -> int
    decreases s.len(),
{
    if s.len() < 2 {
        s.len() as int
    } else if s[0] == COLON && s[1] == COLON {
        0
    } else {
        1 + find_gap(s.skip(1))
    }
}

/// Whether two colons in a row stand at position `j` of `s`.
pub open spec fn gap_at(s: Seq<u8>, j: int) -> bool {
    0 <= j && j + 1 < s.len() && s[j] == COLON && s[j + 1] == COLON
}

/// Whether every one of `parts` is a group.
pub open spec fn all_groups(parts: Seq<Seq<u8>>) -> bool {
    forall|i: int| 0 <= i < parts.len() ==> group_spec(#[trigger] parts[i]) is Some
}

/// The groups that `parts` write.
pub open spec fn groups_of(parts: Seq<Seq<u8>>) -> Seq<u16> {
    Seq::new(parts.len(), |i: int| group_spec(parts[i])->0)
}

/// The two groups that hold an IPv4 address.
pub open spec fn quad_groups(ip: Ipv4Addr) -> Seq<u16> {
    seq![(ip.a * 256 + ip.b) as u16, (ip.c * 256 + ip.d) as u16]
}

/// `n` zero groups.
pub open spec fn zero_groups(n: int) -> Seq<u16> {
    Seq::new(n as nat, |i: int| 0u16)
}

/// The groups that one side of an address writes: nothing writes no group;
/// else the text is split at its colons, and each part is a group, but that
/// the last part may be an IPv4 address in dotted form, which holds two
/// groups, where `quad` allows it.
pub open spec fn side_spec(text: Seq<u8>, quad: bool) -> Option<Seq<u16>> {
    let parts = split(text, COLON);
    if text.len() == 0 {
        Some(Seq::empty())
    } else if all_groups(parts) {
        Some(groups_of(parts))
    } else if quad && all_groups(parts.drop_last()) && Ipv4Addr::parse_spec(parts.last()) is Some {
        Some(groups_of(parts.drop_last()) + quad_groups(Ipv4Addr::parse_spec(parts.last())->0))
    } else {
        None
    }
}

impl Ipv6Addr {
    /// The address of the groups `a` to `h`.
    pub fn new(a: u16, b: u16, c: u16, d: u16, e: u16, f: u16, g: u16, h: u16) -> (ip: Ipv6Addr)
        ensures
            ip == (Ipv6Addr { a, b, c, d, e, f, g, h }),
    {
        Ipv6Addr { a, b, c, d, e, f, g, h }
    }

    /// The eight groups of the address.
    pub open spec fn segments(self) -> Seq<u16> {
        seq![self.a, self.b, self.c, self.d, self.e, self.f, self.g, self.h]
    }

    /// The address of eight groups.
    pub open spec fn from_segments(groups: Seq<u16>) -> Ipv6Addr {
        Ipv6Addr {
            a: groups[0],
            b: groups[1],
            c: groups[2],
            d: groups[3],
            e: groups[4],
            f: groups[5],
            g: groups[6],
            h: groups[7],
        }
    }

    /// Whether the address stands for an IPv4 address: `::ffff:a.b.c.d`.
    pub open spec fn is_mapped(self) -> bool {
        self.a == 0 && self.b == 0 && self.c == 0 && self.d == 0 && self.e == 0 && self.f == 0xffff
    }

    /// The IPv4 address in the last two groups.
    pub open spec fn embedded(self) -> Ipv4Addr {
        Ipv4Addr {
            a: (self.g / 256) as u8,
            b: (self.g % 256) as u8,
            c: (self.h / 256) as u8,
            d: (self.h % 256) as u8,
        }
    }

    /// The text of the address. An address that stands for an IPv4 address
    /// is written `::ffff:` and the IPv4 address in dotted form. Any other
    /// is written as its groups in lower-case hexadecimal with colons
    /// between, where the longest run of two or more zero groups, the first
    /// of them where several are longest, is left out, so that two colons
    /// stand in its place.
    pub open spec fn text(self) -> Seq<u8> {
        let groups = self.segments();
        let start = longest_at(groups, 0);
        let len = zeros_at(groups, start);
        if self.is_mapped() {
            bytes("::ffff:"@) + self.embedded().text()
        } else if len > 1 {
            join(groups.take(start)) + seq![COLON, COLON] + join(groups.skip(start + len))
        } else {
            join(groups)
        }
    }

    /// What a text is as an address. Without two colons in a row, it
    /// writes eight groups. With them, the groups before and those after
    /// are at most seven, and as many zero groups stand between as make
    /// eight. An IPv4 address in dotted form may stand for the last two
    /// groups, but not before the two colons.
    pub open spec fn parse_spec(s: Seq<u8>) -> Option<Ipv6Addr> {
        let k = find_gap(s);
        if k >= s.len() {
            match side_spec(s, true) {
                Some(groups) => if groups.len() == 8 {
                    Some(Self::from_segments(groups))
                } else {
                    None
                },
                None => None,
            }
        } else {
            match (side_spec(s.take(k), false), side_spec(s.skip(k + 2), true)) {
                (Some(head), Some(tail)) => if head.len() + tail.len() <= 7 {
                    Some(
                        Self::from_segments(
                            head + zero_groups(8 - head.len() - tail.len()) + tail,
                        ),
                    )
                } else {
                    None
                },
                _ => None,
            }
        }
    }
}

/// `find_gap` is the least position of two colons in a row.
pub proof fn lemma_find_gap_is(s: Seq<u8>, k: int)
    requires
        0 <= k <= s.len(),
        forall|j: int| 0 <= j < k ==> !gap_at(s, j),
        k < s.len() ==> gap_at(s, k),
    ensures
        find_gap(s) == k,
    decreases s.len(),
{
    if s.len() < 2 {
    } else if s[0] == COLON && s[1] == COLON {
        if k > 0 {
            assert(!gap_at(s, 0));
        }
    } else {
        let t = s.skip(1);
        if k == 0 {
            assert(gap_at(s, 0));
        }
        assert forall|j: int| 0 <= j < k - 1 implies !gap_at(t, j) by {
            assert(!gap_at(s, j + 1));
            if j + 1 < t.len() {
                assert(t[j] == s[j + 1]);
                assert(t[j + 1] == s[j + 1 + 1]);
            }
        }
        if k - 1 < t.len() {
            assert(gap_at(s, k));
            assert(t[k - 1] == s[k]);
            assert(t[k] == s[k + 1]);
        }
        lemma_find_gap_is(t, k - 1);
    }
}

/// The position of the first two colons in a row of `s`.
fn find_gap_at(s: &[u8]) -> (k: usize)
    ensures
        k == find_gap(s@),
        k <= s@.len(),
        k < s@.len() ==> k + 2 <= s@.len(),
{
    if s.len() < 2 {
        return s.len();
    }
    let mut i: usize = 0;
    while i < s.len() - 1
        invariant
            2 <= s@.len(),
            i <= s@.len(),
            forall|j: int| 0 <= j < i ==> !gap_at(s@, j),
        decreases s@.len() - i,
    {
        if s[i] == COLON && s[i + 1] == COLON {
            proof {
                lemma_find_gap_is(s@, i as int);
            }
            return i;
        }
        i += 1;
    }
    proof {
        lemma_find_gap_is(s@, s@.len() as int);
    }
    s.len()
}

/// Reads the groups of one side of an address.
fn parse_side(text: &[u8], quad: bool) -> (r: Option<Vec<u16>>)
    ensures
        match r {
            Some(groups) => side_spec(text@, quad) == Some(groups@),
            None => side_spec(text@, quad) is None,
        },
{
    let mut groups: Vec<u16> = Vec::new();
    if text.len() == 0 {
        return Some(groups);
    }
    let ranges = split_ranges(text, COLON);
    let ghost parts = split(text@, COLON);
    let mut i: usize = 0;
    while i < ranges.len()
        invariant
            i <= ranges@.len(),
            parts == split(text@, COLON),
            text@.len() > 0,
            ranges@.len() == parts.len(),
            parts.len() > 0,
            forall|k: int|
                #![trigger ranges@[k]]
                0 <= k < ranges@.len() ==> ranges@[k].0 <= ranges@[k].1 <= text@.len()
                    && text@.subrange(ranges@[k].0 as int, ranges@[k].1 as int) == parts[k],
            all_groups(parts.take(i as int)),
            groups@ == groups_of(parts.take(i as int)),
        decreases ranges@.len() - i,
    {
        let part = slice_subrange(text, ranges[i].0, ranges[i].1);
        assert(part@ == parts[i as int]);
        match parse_group(part) {
            Some(group) => {
                groups.push(group);
                proof {
                    let next = parts.take(i + 1);
                    assert forall|k: int| 0 <= k < next.len() implies group_spec(
                        #[trigger] next[k],
                    ) is Some by {
                        if k < i {
                            assert(parts.take(i as int)[k] == next[k]);
                        }
                    }
                    assert(groups@ =~= groups_of(next));
                }
            },
            None => {
                assert(!all_groups(parts));
                if quad && i + 1 == ranges.len() {
                    assert(parts.take(i as int) == parts.drop_last());
                    assert(parts.last() == parts[i as int]);
                    return match Ipv4Addr::parse_ascii(part) {
                        Some(ip) => {
                            groups.push((ip.a as u16) * 256 + ip.b as u16);
                            groups.push((ip.c as u16) * 256 + ip.d as u16);
                            assert(groups@ =~= groups_of(parts.drop_last()) + quad_groups(ip));
                            Some(groups)
                        },
                        None => None,
                    };
                } else {
                    proof {
                        if i + 1 < parts.len() {
                            assert(parts.drop_last()[i as int] == parts[i as int]);
                        }
                    }
                    return None;
                }
            },
        }
        i += 1;
    }
    assert(parts.take(parts.len() as int) == parts);
    Some(groups)
}

/// The address of eight groups.
fn from_groups(groups: &Vec<u16>) -> (ip: Ipv6Addr)
    requires
        groups@.len() == 8,
    ensures
        ip == Ipv6Addr::from_segments(groups@),
{
    Ipv6Addr {
        a: groups[0],
        b: groups[1],
        c: groups[2],
        d: groups[3],
        e: groups[4],
        f: groups[5],
        g: groups[6],
        h: groups[7],
    }
}

impl Ipv6Addr {
    /// Reads an address.
    pub fn parse_ascii(s: &[u8]) -> (r: Option<Ipv6Addr>)
        ensures
            r == Self::parse_spec(s@),
    {
        let k: usize = find_gap_at(s);
        if k >= s.len() {
            return match parse_side(s, true) {
                Some(groups) => if groups.len() == 8 {
                    Some(from_groups(&groups))
                } else {
                    None
                },
                None => None,
            };
        }
        assert(s@.take(k as int) == s@.subrange(0, k as int));
        assert(s@.skip(k + 2) == s@.subrange(k + 2, s@.len() as int));
        let head = match parse_side(slice_subrange(s, 0, k), false) {
            Some(groups) => groups,
            None => { return None; },
        };
        let tail = match parse_side(slice_subrange(s, k + 2, s.len()), true) {
            Some(groups) => groups,
            None => { return None; },
        };
        if head.len() > 7 || tail.len() > 7 - head.len() {
            return None;
        }
        let mut groups: Vec<u16> = Vec::new();
        let mut i: usize = 0;
        while i < head.len()
            invariant
                i <= head@.len(),
                groups@ == head@.take(i as int),
            decreases head@.len() - i,
        {
            groups.push(head[i]);
            assert(head@.take(i + 1) == head@.take(i as int).push(head@[i as int]));
            i += 1;
        }
        assert(head@.take(head@.len() as int) == head@);
        let fill: usize = 8 - head.len() - tail.len();
        let mut z: usize = 0;
        while z < fill
            invariant
                z <= fill,
                groups@ == head@ + zero_groups(z as int),
            decreases fill - z,
        {
            groups.push(0);
            assert(zero_groups(z + 1) == zero_groups(z as int).push(0u16));
            z += 1;
        }
        let mut j: usize = 0;
        while j < tail.len()
            invariant
                j <= tail@.len(),
                groups@ == head@ + zero_groups(fill as int) + tail@.take(j as int),
            decreases tail@.len() - j,
        {
            groups.push(tail[j]);
            assert(tail@.take(j + 1) == tail@.take(j as int).push(tail@[j as int]));
            j += 1;
        }
        assert(tail@.take(tail@.len() as int) == tail@);
        Some(from_groups(&groups))
    }
}

/// Whether `b` may stand in the text of an address: a digit, a lower-case
/// hexadecimal digit, a colon or a dot.
pub open spec fn is_address_byte(b: u8) -> bool {
    is_digit(b) || 0x61 <= b <= 0x66 || b == COLON || b == DOT
}

/// The groups, with one more at the end, are joined by one more colon.
pub proof fn lemma_join_push(groups: Seq<u16>, last: u16)
    ensures
        join(groups.push(last)) == if groups.len() == 0 {
            hex(last as nat)
        } else {
            join(groups) + seq![COLON] + hex(last as nat)
        },
    decreases groups.len(),
{
    let all = groups.push(last);
    if groups.len() == 0 {
    } else {
        let rest = groups.skip(1);
        lemma_join_push(rest, last);
        assert(all.skip(1) == rest.push(last));
        assert(all[0] == groups[0]);
        if rest.len() == 0 {
            assert(join(groups) == hex(groups[0] as nat));
        } else {
            assert(join(all) =~= join(groups) + seq![COLON] + hex(last as nat));
        }
    }
}

/// The text of joined groups holds hexadecimal digits with single colons
/// between them.
pub proof fn lemma_join_text(groups: Seq<u16>)
    ensures
        forall|j: int| 0 <= j < join(groups).len() ==> is_address_byte(#[trigger] join(groups)[j]),
        forall|j: int| 0 <= j < join(groups).len() ==> #[trigger] join(groups)[j] != DOT,
        forall|j: int| !gap_at(join(groups), j),
        groups.len() > 0 ==> join(groups).len() > 0 && join(groups)[0] != COLON && join(
            groups,
        ).last() != COLON,
        groups.len() == 0 ==> join(groups).len() == 0,
    decreases groups.len(),
{
    let text = join(groups);
    if groups.len() == 0 {
    } else if groups.len() == 1 {
        lemma_hex(groups[0] as nat);
    } else {
        let first = hex(groups[0] as nat);
        let rest = join(groups.skip(1));
        lemma_hex(groups[0] as nat);
        lemma_join_text(groups.skip(1));
        assert forall|j: int| 0 <= j < text.len() implies is_address_byte(#[trigger] text[j])
            && text[j] != DOT by {
            if j < first.len() {
                assert(text[j] == first[j]);
            } else if j > first.len() {
                assert(text[j] == rest[j - first.len() - 1]);
            }
        }
        assert forall|j: int| !gap_at(text, j) by {
            if 0 <= j && j + 1 < text.len() {
                if j < first.len() {
                    assert(text[j] == first[j]);
                } else if j == first.len() {
                    assert(text[j + 1] == rest[0]);
                } else {
                    assert(text[j] == rest[j - first.len() - 1]);
                    assert(text[j + 1] == rest[j - first.len()]);
                    assert(!gap_at(rest, j - first.len() - 1));
                }
            }
        }
        assert(text[0] == first[0]);
        assert(text.last() == rest.last());
    }
}

/// The text of joined groups, split at its colons, is the groups in
/// hexadecimal.
pub proof fn lemma_split_join(groups: Seq<u16>)
    requires
        groups.len() > 0,
    ensures
        split(join(groups), COLON) == Seq::new(groups.len(), |i: int| hex(groups[i] as nat)),
    decreases groups.len(),
{
    let first = hex(groups[0] as nat);
    lemma_hex(groups[0] as nat);
    assert(free_of(first, COLON));
    if groups.len() == 1 {
        lemma_split_free(first, COLON);
        assert(seq![first] =~= Seq::new(groups.len(), |i: int| hex(groups[i] as nat)));
    } else {
        let rest = groups.skip(1);
        lemma_split_join(rest);
        lemma_split_cons(first, COLON, join(rest));
        assert(seq![first] + Seq::new(rest.len(), |i: int| hex(rest[i] as nat)) =~= Seq::new(
            groups.len(),
            |i: int| hex(groups[i] as nat),
        ));
    }
}

/// One side of an address that is written as joined groups reads as those
/// groups.
pub proof fn lemma_side_join(groups: Seq<u16>, quad: bool)
    ensures
        side_spec(join(groups), quad) == Some(groups),
{
    lemma_join_text(groups);
    if groups.len() > 0 {
        lemma_split_join(groups);
        let parts = split(join(groups), COLON);
        assert forall|i: int| 0 <= i < parts.len() implies group_spec(#[trigger] parts[i])
            == Some(groups[i]) by {
            lemma_group_hex(groups[i]);
        }
        assert(groups_of(parts) =~= groups);
    }
}

/// Groups, two colons, and more groups read as those groups with zero
/// groups between them.
pub proof fn lemma_parse_gap(head: Seq<u16>, zeros: int, tail: Seq<u16>)
    requires
        zeros >= 1,
        head.len() + zeros + tail.len() == 8,
    ensures
        Ipv6Addr::parse_spec(join(head) + seq![COLON, COLON] + join(tail)) == Some(
            Ipv6Addr::from_segments(head + zero_groups(zeros) + tail),
        ),
{
    let text = join(head) + seq![COLON, COLON] + join(tail);
    let k = join(head).len() as int;
    lemma_join_text(head);
    lemma_join_text(tail);
    assert forall|j: int| 0 <= j < k implies !gap_at(text, j) by {
        if j + 1 < k {
            assert(text[j] == join(head)[j]);
            assert(text[j + 1] == join(head)[j + 1]);
            assert(!gap_at(join(head), j));
        } else {
            assert(text[j] == join(head).last());
        }
    }
    assert(gap_at(text, k)) by {
        assert(text[k] == COLON);
        assert(text[k + 1] == COLON);
    }
    lemma_find_gap_is(text, k);
    assert(text.take(k) == join(head));
    assert(text.skip(k + 2) == join(tail));
    lemma_side_join(head, false);
    lemma_side_join(tail, true);
}

/// A run of zero groups is a run of zero groups.
pub proof fn lemma_zeros_at(groups: Seq<u16>, i: int)
    requires
        0 <= i <= groups.len(),
    ensures
        0 <= zeros_at(groups, i) <= groups.len() - i,
        forall|j: int| i <= j < i + zeros_at(groups, i) ==> groups[j] == 0,
    decreases groups.len() - i,
{
    if i < groups.len() && groups[i] == 0 {
        lemma_zeros_at(groups, i + 1);
    }
}

/// The longest run of zero groups starts among the groups looked at.
pub proof fn lemma_longest_at(groups: Seq<u16>, i: int)
    requires
        0 <= i <= groups.len(),
    ensures
        i <= longest_at(groups, i) <= groups.len(),
    decreases groups.len() - i,
{
    if i < groups.len() {
        lemma_longest_at(groups, i + 1);
    }
}

/// Appends the groups from position `from` up to position `to`, joined.
fn push_join(out: &mut String, groups: &Vec<u16>, from: usize, to: usize)
    requires
        from <= to <= groups@.len(),
    ensures
        final(out)@ == old(out)@ + ascii(join(groups@.subrange(from as int, to as int))),
{
    let mut i: usize = from;
    assert(groups@.subrange(from as int, from as int) == Seq::<u16>::empty());
    assert(out@ == old(out)@ + ascii(Seq::<u8>::empty()));
    while i < to
        invariant
            from <= i <= to <= groups@.len(),
            out@ == old(out)@ + ascii(join(groups@.subrange(from as int, i as int))),
        decreases to - i,
    {
        let ghost before = groups@.subrange(from as int, i as int);
        let ghost next = groups@.subrange(from as int, i + 1);
        let ghost word = hex(groups@[i as int] as nat);
        proof {
            reveal_strlit(":");
            lemma_join_push(before, groups@[i as int]);
            assert(next == before.push(groups@[i as int]));
            assert(before.len() == i - from);
        }
        if i > from {
            out.append(":");
            assert(out@ =~= old(out)@ + ascii(join(before) + seq![COLON]));
            push_hex(out, groups[i]);
            assert(join(next) == join(before) + seq![COLON] + word);
            assert(ascii(join(before) + seq![COLON] + word) =~= ascii(join(before) + seq![COLON])
                + ascii(word));
        } else {
            assert(join(before) =~= Seq::<u8>::empty());
            assert(out@ =~= old(out)@);
            push_hex(out, groups[i]);
            assert(join(next) == word);
        }
        assert(out@ =~= old(out)@ + ascii(join(next)));
        i += 1;
    }
}

/// Where the longest run of zero groups starts, and how long it is.
fn longest_zero_run(groups: &Vec<u16>) -> (r: (usize, usize))
    requires
        groups@.len() == 8,
    ensures
        r.0 == longest_at(groups@, 0),
        r.1 == zeros_at(groups@, r.0 as int),
        r.0 + r.1 <= 8,
{
    let mut best: usize = 8;
    let mut best_len: usize = 0;
    let mut run: usize = 0;
    let mut i: usize = 8;
    while i > 0
        invariant
            i <= 8,
            groups@.len() == 8,
            run == zeros_at(groups@, i as int),
            best == longest_at(groups@, i as int),
            best_len == zeros_at(groups@, best as int),
            run <= 8 - i,
            i <= best <= 8,
            best + best_len <= 8,
        decreases i,
    {
        i -= 1;
        if groups[i] == 0 {
            run += 1;
        } else {
            run = 0;
        }
        if run >= best_len {
            best = i;
            best_len = run;
        }
    }
    (best, best_len)
}

impl Ipv6Addr {
    /// Appends the text of the address to `out`.
    pub fn push_text(&self, out: &mut String)
        ensures
            final(out)@ == old(out)@ + ascii(self.text()),
    {
        proof {
            reveal_strlit("::ffff:");
            reveal_strlit("::");
        }
        if self.a == 0 && self.b == 0 && self.c == 0 && self.d == 0 && self.e == 0 && self.f
            == 0xffff {
            out.append("::ffff:");
            let ip = Ipv4Addr::new(
                (self.g / 256) as u8,
                (self.g % 256) as u8,
                (self.h / 256) as u8,
                (self.h % 256) as u8,
            );
            ip.push_text(out);
            assert(out@ =~= old(out)@ + ascii(self.text()));
        } else {
            let groups: Vec<u16> = vec![
                self.a,
                self.b,
                self.c,
                self.d,
                self.e,
                self.f,
                self.g,
                self.h,
            ];
            assert(groups@ =~= self.segments());
            let (start, len) = longest_zero_run(&groups);
            if len > 1 {
                push_join(out, &groups, 0, start);
                out.append("::");
                push_join(out, &groups, start + len, 8);
                proof {
                    assert(groups@.subrange(0, start as int) == groups@.take(start as int));
                    assert(groups@.subrange(start + len, 8) == groups@.skip(start + len));
                    assert(out@ =~= old(out)@ + ascii(self.text()));
                }
            } else {
                push_join(out, &groups, 0, 8);
                proof {
                    assert(groups@.subrange(0, 8) == groups@);
                }
            }
        }
    }

    /// The text of the address.
    pub fn to_string(&self) -> (r: String)
        ensures
            r@ == ascii(self.text()),
    {
        let mut out = String::new();
        self.push_text(&mut out);
        assert(out@ =~= ascii(self.text()));
        out
    }

    /// The text of an address holds digits, lower-case hexadecimal digits,
    /// colons and dots only, and is not empty.
    pub proof fn lemma_text_bytes(self)
        ensures
            forall|j: int|
                0 <= j < self.text().len() ==> is_address_byte(#[trigger] self.text()[j]),
            self.text().len() > 0,
    {
        let groups = self.segments();
        let start = longest_at(groups, 0);
        let len = zeros_at(groups, start);
        let text = self.text();
        lemma_longest_at(groups, 0);
        lemma_zeros_at(groups, start);
        if self.is_mapped() {
            reveal_strlit("::ffff:");
            let head = bytes("::ffff:"@);
            let tail = self.embedded().text();
            self.embedded().lemma_text_bytes();
            assert forall|j: int| 0 <= j < text.len() implies is_address_byte(
                #[trigger] text[j],
            ) by {
                if j >= head.len() {
                    assert(text[j] == tail[j - head.len()]);
                }
            }
        } else if len > 1 {
            let head = join(groups.take(start));
            let tail = join(groups.skip(start + len));
            lemma_join_text(groups.take(start));
            lemma_join_text(groups.skip(start + len));
            assert forall|j: int| 0 <= j < text.len() implies is_address_byte(
                #[trigger] text[j],
            ) by {
                if j < head.len() {
                    assert(text[j] == head[j]);
                } else if j >= head.len() + 2 {
                    assert(text[j] == tail[j - head.len() - 2]);
                }
            }
        } else {
            lemma_join_text(groups);
        }
    }

    /// Reading the text of an address gives the address back.
    pub proof fn lemma_parse_text(self)
        ensures
            Self::parse_spec(self.text()) == Some(self),
    {
        let groups = self.segments();
        let start = longest_at(groups, 0);
        let len = zeros_at(groups, start);
        lemma_longest_at(groups, 0);
        lemma_zeros_at(groups, start);
        if self.is_mapped() {
            self.lemma_parse_mapped();
        } else if len > 1 {
            assert(groups.take(start) + zero_groups(len) + groups.skip(start + len) =~= groups);
            lemma_parse_gap(groups.take(start), len, groups.skip(start + len));
        } else {
            let text = join(groups);
            lemma_join_text(groups);
            lemma_find_gap_is(text, text.len() as int);
            lemma_side_join(groups, true);
            assert(Self::from_segments(groups) == self);
        }
    }

    /// Reading the text of an address that stands for an IPv4 address gives
    /// the address back.
    proof fn lemma_parse_mapped(self)
        requires
            self.is_mapped(),
        ensures
            Self::parse_spec(self.text()) == Some(self),
    {
        reveal_strlit("::ffff:");
        let ip = self.embedded();
        let quad = ip.text();
        let text = self.text();
        let word = hex(0xffff);
        assert(word == seq![0x66u8, 0x66u8, 0x66u8, 0x66u8]) by {
            reveal_with_fuel(hex, 4);
        }
        lemma_hex(0xffff);
        lemma_group_hex(0xffff);
        ip.lemma_text_bytes();
        ip.lemma_parse_text();
        assert(gap_at(text, 0));
        lemma_find_gap_is(text, 0);
        assert(text.take(0) == Seq::<u8>::empty());
        let tail = text.skip(2);
        assert(tail == word + seq![COLON] + quad);
        assert(free_of(quad, COLON));
        assert(free_of(word, COLON));
        lemma_split_two(word, quad, COLON);
        let parts = split(tail, COLON);
        assert(parts.drop_last() == seq![word]);
        assert(parts.last() == quad);
        ip.lemma_has_dot();
        assert(group_spec(quad) is None);
        assert(!all_groups(parts)) by {
            assert(parts[1] == quad);
        }
        assert(groups_of(parts.drop_last()) == seq![0xffffu16]);
        let read = seq![0xffffu16] + quad_groups(ip);
        assert(side_spec(tail, true) == Some(read));
        assert(Seq::<u16>::empty() + zero_groups(8 - 0 - 3) + read =~= self.segments());
        assert(Self::from_segments(self.segments()) == self);
    }
}

} // verus!
