//! Socket addresses and their text.

use crate::decimal::{
    all_digits, decimal, is_digit, lemma_decimal, lemma_digits_free_of, parse_digits,
    parse_digits_spec, push_decimal,
};
use crate::ipv6::Ipv6Addr;
use crate::text::{
    ascii, find, find_from, free_of, is_ascii_bytes, lemma_find, lemma_find_is, lemma_split_cons,
    lemma_split_free, split, split_ranges, BAR, CLOSE, COLON, DOT, OPEN, PERCENT, ZERO,
};
use vstd::prelude::*;
use vstd::slice::slice_subrange;
use vstd::string::StringExecFns;

verus! {

/// An IPv4 address: its four octets, the first one first.
#[derive(Debug, Clone, Copy, PartialEq, Eq, Hash, Structural)]
pub struct Ipv4Addr {
    pub a: u8,
    pub b: u8,
    pub c: u8,
    pub d: u8,
}

/// An IP address.
#[derive(Debug, Clone, Copy, PartialEq, Eq, Hash, Structural)]
pub enum IpAddr {
    V4(Ipv4Addr),
    V6(Ipv6Addr),
}

/// An IP address with a port, and with the scope of the address where it
/// is an IPv6 address.
#[derive(Debug, Clone, Copy, PartialEq, Eq, Hash, Structural)]
pub enum SocketAddr {
    V4 { ip: Ipv4Addr, port: u16 },
    V6 { ip: Ipv6Addr, port: u16, scope_id: u32 },
}

/// What a text is as an octet of a dotted address: one to three digits
/// without a leading zero (but `0` itself) that write at most 255.
pub open spec fn octet_spec(s: Seq<u8>) -> Option<u8> {
    if 1 <= s.len() <= 3 && (s.len() == 1 || s[0] != ZERO) {
        match parse_digits_spec(s, 255) {
            Some(n) => Some(n as u8),
            None => None,
        }
    } else {
        None
    }
}

/// Reads an octet of a dotted address.
pub fn parse_octet(s: &[u8]) -> (r: Option<u8>)
    ensures
        r == octet_spec(s@),
{
    if s.len() < 1 || s.len() > 3 {
        return None;
    }
    if s.len() > 1 && s[0] == ZERO {
        return None;
    }
    match parse_digits(s, 255) {
        Some(n) => Some(n as u8),
        None => None,
    }
}

/// Reading the decimal text of an octet gives the octet back.
pub proof fn lemma_octet_decimal(n: u8)
    ensures
        octet_spec(decimal(n as nat)) == Some(n),
        all_digits(decimal(n as nat)),
{
    lemma_decimal(n as nat);
}

impl Ipv4Addr {
    /// The address `a.b.c.d`.
    pub fn new(a: u8, b: u8, c: u8, d: u8) -> (ip: Ipv4Addr)
        ensures
            ip == (Ipv4Addr { a, b, c, d }),
    {
        Ipv4Addr { a, b, c, d }
    }

    /// The text of the address: its octets in base ten, with dots between.
    pub open spec fn text(self) -> Seq<u8> {
        decimal(self.a as nat) + seq![DOT] + decimal(self.b as nat) + seq![DOT] + decimal(
            self.c as nat,
        ) + seq![DOT] + decimal(self.d as nat)
    }

    /// What a text is as an address: four octets with dots between.
    pub open spec fn parse_spec(s: Seq<u8>) -> Option<Ipv4Addr> {
        let f = split(s, DOT);
        if f.len() == 4 && octet_spec(f[0]) is Some && octet_spec(f[1]) is Some && octet_spec(
            f[2],
        ) is Some && octet_spec(f[3]) is Some {
            Some(
                Ipv4Addr {
                    a: octet_spec(f[0])->0,
                    b: octet_spec(f[1])->0,
                    c: octet_spec(f[2])->0,
                    d: octet_spec(f[3])->0,
                },
            )
        } else {
            None
        }
    }

    /// Reads an address.
    pub fn parse_ascii(s: &[u8]) -> (r: Option<Ipv4Addr>)
        ensures
            r == Self::parse_spec(s@),
    {
        let ranges = split_ranges(s, DOT);
        if ranges.len() != 4 {
            return None;
        }
        let a = match parse_octet(slice_subrange(s, ranges[0].0, ranges[0].1)) {
            Some(n) => n,
            None => { return None; },
        };
        let b = match parse_octet(slice_subrange(s, ranges[1].0, ranges[1].1)) {
            Some(n) => n,
            None => { return None; },
        };
        let c = match parse_octet(slice_subrange(s, ranges[2].0, ranges[2].1)) {
            Some(n) => n,
            None => { return None; },
        };
        let d = match parse_octet(slice_subrange(s, ranges[3].0, ranges[3].1)) {
            Some(n) => n,
            None => { return None; },
        };
        Some(Ipv4Addr { a, b, c, d })
    }

    /// Appends the text of the address to `out`.
    pub fn push_text(&self, out: &mut String)
        ensures
            final(out)@ == old(out)@ + ascii(self.text()),
    {
        proof {
            reveal_strlit(".");
        }
        let ghost start = out@;
        push_decimal(out, self.a as u32);
        out.append(".");
        push_decimal(out, self.b as u32);
        out.append(".");
        push_decimal(out, self.c as u32);
        out.append(".");
        push_decimal(out, self.d as u32);
        assert(out@ =~= start + ascii(self.text()));
    }

    /// The text of the address.
    pub fn to_string(&self) -> (r: String)
        ensures
            r@ == ascii(self.text()),
    {
        let mut out = String::new();
        self.push_text(&mut out);
        assert(out@ =~= ascii(self.text()));
        out
    }

    /// The text of an address holds digits and dots only.
    pub proof fn lemma_text_bytes(self)
        ensures
            forall|i: int|
                0 <= i < self.text().len() ==> is_digit(#[trigger] self.text()[i])
                    || self.text()[i] == DOT,
            self.text().len() > 0,
            is_digit(self.text()[0]),
    {
        lemma_decimal(self.a as nat);
        lemma_decimal(self.b as nat);
        lemma_decimal(self.c as nat);
        lemma_decimal(self.d as nat);
    }

    /// The text of an address holds a dot.
    pub proof fn lemma_has_dot(self)
        ensures
            exists|i: int| 0 <= i < self.text().len() && self.text()[i] == DOT,
    {
        let i = decimal(self.a as nat).len() as int;
        assert(self.text()[i] == DOT);
    }

    /// Reading the text of an address gives the address back.
    pub proof fn lemma_parse_text(self)
        ensures
            Self::parse_spec(self.text()) == Some(self),
    {
        let a = decimal(self.a as nat);
        let b = decimal(self.b as nat);
        let c = decimal(self.c as nat);
        let d = decimal(self.d as nat);
        lemma_octet_decimal(self.a);
        lemma_octet_decimal(self.b);
        lemma_octet_decimal(self.c);
        lemma_octet_decimal(self.d);
        lemma_digits_free_of(a, DOT);
        lemma_digits_free_of(b, DOT);
        lemma_digits_free_of(c, DOT);
        lemma_digits_free_of(d, DOT);
        lemma_split_free(d, DOT);
        lemma_split_cons(c, DOT, d);
        lemma_split_cons(b, DOT, c + seq![DOT] + d);
        lemma_split_cons(a, DOT, b + seq![DOT] + (c + seq![DOT] + d));
        assert(self.text() =~= a + seq![DOT] + (b + seq![DOT] + (c + seq![DOT] + d)));
        assert(b + seq![DOT] + c + seq![DOT] + d =~= b + seq![DOT] + (c + seq![DOT] + d));
    }
}

impl IpAddr {
    /// The text of the address.
    pub open spec fn text(self) -> Seq<u8> {
        match self {
            IpAddr::V4(ip) => ip.text(),
            IpAddr::V6(ip) => ip.text(),
        }
    }

    /// The text of the address.
    pub fn to_string(&self) -> (r: String)
        ensures
            r@ == ascii(self.text()),
    {
        match self {
            IpAddr::V4(ip) => ip.to_string(),
            IpAddr::V6(ip) => ip.to_string(),
        }
    }
}

/// The scope of an IPv6 address as it stands in the text of a socket
/// address: nothing for the scope 0, else `%` and the scope in base ten.
pub open spec fn scope_text(scope_id: u32) -> Seq<u8> {
    if scope_id == 0 {
        Seq::empty()
    } else {
        seq![PERCENT] + decimal(scope_id as nat)
    }
}

impl SocketAddr {
    /// The socket address of `ip` and `port`, with the scope 0.
    pub fn new(ip: IpAddr, port: u16) -> (addr: SocketAddr)
        ensures
            addr == match ip {
                IpAddr::V4(ip) => SocketAddr::V4 { ip, port },
                IpAddr::V6(ip) => SocketAddr::V6 { ip, port, scope_id: 0 },
            },
    {
        match ip {
            IpAddr::V4(ip) => SocketAddr::V4 { ip, port },
            IpAddr::V6(ip) => SocketAddr::V6 { ip, port, scope_id: 0 },
        }
    }

    /// The IP address.
    pub open spec fn ip_spec(self) -> IpAddr {
        match self {
            SocketAddr::V4 { ip, port } => IpAddr::V4(ip),
            SocketAddr::V6 { ip, port, scope_id } => IpAddr::V6(ip),
        }
    }

    /// The port.
    pub open spec fn port_spec(self) -> u16 {
        match self {
            SocketAddr::V4 { ip, port } => port,
            SocketAddr::V6 { ip, port, scope_id } => port,
        }
    }

    /// The IP address.
    pub fn ip(&self) -> (ip: IpAddr)
        ensures
            ip == self.ip_spec(),
    {
        match self {
            SocketAddr::V4 { ip, port } => IpAddr::V4(*ip),
            SocketAddr::V6 { ip, port, scope_id } => IpAddr::V6(*ip),
        }
    }

    /// The port.
    pub fn port(&self) -> (port: u16)
        ensures
            port == self.port_spec(),
    {
        match self {
            SocketAddr::V4 { ip, port } => *port,
            SocketAddr::V6 { ip, port, scope_id } => *port,
        }
    }

    /// The text of the socket address: `a.b.c.d:port` for an IPv4 address,
    /// and for an IPv6 address `[address]:port`, or `[address%scope]:port`
    /// where the scope is not 0.
    pub open spec fn text(self) -> Seq<u8> {
        match self {
            SocketAddr::V4 { ip, port } => ip.text() + seq![COLON] + decimal(port as nat),
            SocketAddr::V6 { ip, port, scope_id } => seq![OPEN] + ip.text() + scope_text(scope_id)
                + seq![CLOSE, COLON] + decimal(port as nat),
        }
    }

    /// What a text is as an IPv4 socket address: the address, a colon, and
    /// a port of one or more digits that write at most 65535.
    pub open spec fn parse_v4_spec(s: Seq<u8>) -> Option<SocketAddr> {
        let i = find(s, COLON);
        if i < s.len() && Ipv4Addr::parse_spec(s.take(i)) is Some && parse_digits_spec(
            s.skip(i + 1),
            65535,
        ) is Some {
            Some(
                SocketAddr::V4 {
                    ip: Ipv4Addr::parse_spec(s.take(i))->0,
                    port: parse_digits_spec(s.skip(i + 1), 65535)->0 as u16,
                },
            )
        } else {
            None
        }
    }

    /// What a text is as an IPv6 socket address: `[`, the address, then
    /// either nothing, which stands for the scope 0, or `%` and a scope of
    /// one or more digits that write at most `u32::MAX`, then `]`, a colon,
    /// and a port of one or more digits that write at most 65535.
    pub open spec fn parse_v6_spec(s: Seq<u8>) -> Option<SocketAddr> {
        let j = find(s, CLOSE);
        let inside = s.subrange(1, j);
        let p = find(inside, PERCENT);
        let after = s.skip(j + 1);
        let scope = if p >= inside.len() {
            Some(0nat)
        } else {
            parse_digits_spec(inside.skip(p + 1), u32::MAX as nat)
        };
        if 1 <= j < s.len() && s[0] == OPEN && Ipv6Addr::parse_spec(inside.take(p)) is Some
            && scope is Some && after.len() > 0 && after[0] == COLON && parse_digits_spec(
            after.skip(1),
            65535,
        ) is Some {
            Some(
                SocketAddr::V6 {
                    ip: Ipv6Addr::parse_spec(inside.take(p))->0,
                    port: parse_digits_spec(after.skip(1), 65535)->0 as u16,
                    scope_id: scope->0 as u32,
                },
            )
        } else {
            None
        }
    }

    /// What a text is as a socket address: an IPv6 socket address where it
    /// starts with `[`, else an IPv4 socket address.
    pub open spec fn parse_spec(s: Seq<u8>) -> Option<SocketAddr> {
        if s.len() > 0 && s[0] == OPEN {
            Self::parse_v6_spec(s)
        } else {
            Self::parse_v4_spec(s)
        }
    }

    /// Reads an IPv4 socket address.
    fn parse_v4(s: &[u8]) -> (r: Option<SocketAddr>)
        ensures
            r == Self::parse_v4_spec(s@),
    {
        assert(s@.skip(0) == s@);
        let i = find_from(s, 0, COLON);
        if i >= s.len() {
            return None;
        }
        assert(s@.take(i as int) == s@.subrange(0, i as int));
        assert(s@.skip(i + 1) == s@.subrange(i + 1, s@.len() as int));
        let ip = match Ipv4Addr::parse_ascii(slice_subrange(s, 0, i)) {
            Some(ip) => ip,
            None => { return None; },
        };
        let port = match parse_digits(slice_subrange(s, i + 1, s.len()), 65535) {
            Some(n) => n as u16,
            None => { return None; },
        };
        Some(SocketAddr::V4 { ip, port })
    }

    /// Reads an IPv6 socket address.
    fn parse_v6(s: &[u8]) -> (r: Option<SocketAddr>)
        requires
            s@.len() > 0,
            s@[0] == OPEN,
        ensures
            r == Self::parse_v6_spec(s@),
    {
        assert(s@.skip(0) == s@);
        let j = find_from(s, 0, CLOSE);
        if j >= s.len() {
            return None;
        }
        proof {
            lemma_find(s@, CLOSE);
        }
        let inside = slice_subrange(s, 1, j);
        assert(inside@.skip(0) == inside@);
        let p = find_from(inside, 0, PERCENT);
        assert(inside@.take(p as int) == inside@.subrange(0, p as int));
        let ip = match Ipv6Addr::parse_ascii(slice_subrange(inside, 0, p)) {
            Some(ip) => ip,
            None => { return None; },
        };
        let scope_id: u32 = if p >= inside.len() {
            0
        } else {
            assert(inside@.skip(p + 1) == inside@.subrange(p + 1, inside@.len() as int));
            match parse_digits(slice_subrange(inside, p + 1, inside.len()), u32::MAX) {
                Some(n) => n,
                None => { return None; },
            }
        };
        let after = slice_subrange(s, j + 1, s.len());
        assert(after@ == s@.skip(j + 1));
        if after.len() == 0 || after[0] != COLON {
            return None;
        }
        assert(after@.skip(1) == after@.subrange(1, after@.len() as int));
        let port = match parse_digits(slice_subrange(after, 1, after.len()), 65535) {
            Some(n) => n as u16,
            None => { return None; },
        };
        Some(SocketAddr::V6 { ip, port, scope_id })
    }

    /// Reads a socket address.
    pub fn parse_ascii(s: &[u8]) -> (r: Option<SocketAddr>)
        ensures
            r == Self::parse_spec(s@),
    {
        if s.len() > 0 && s[0] == OPEN {
            Self::parse_v6(s)
        } else {
            Self::parse_v4(s)
        }
    }

    /// Appends the text of the socket address to `out`.
    pub fn push_text(&self, out: &mut String)
        ensures
            final(out)@ == old(out)@ + ascii(self.text()),
    {
        proof {
            reveal_strlit(":");
            reveal_strlit("[");
            reveal_strlit("%");
            reveal_strlit("]:");
        }
        match self {
            SocketAddr::V4 { ip, port } => {
                ip.push_text(out);
                out.append(":");
                push_decimal(out, *port as u32);
            },
            SocketAddr::V6 { ip, port, scope_id } => {
                out.append("[");
                ip.push_text(out);
                if *scope_id != 0 {
                    out.append("%");
                    push_decimal(out, *scope_id);
                }
                out.append("]:");
                push_decimal(out, *port as u32);
            },
        }
        assert(out@ =~= old(out)@ + ascii(self.text()));
    }

    /// The text of the socket address.
    pub fn to_string(&self) -> (r: String)
        ensures
            r@ == ascii(self.text()),
    {
        let mut out = String::new();
        self.push_text(&mut out);
        assert(out@ =~= ascii(self.text()));
        out
    }

    /// The text of a socket address is ASCII and holds no bar.
    pub proof fn lemma_text_bytes(self)
        ensures
            free_of(self.text(), BAR),
            is_ascii_bytes(self.text()),
    {
        let text = self.text();
        match self {
            SocketAddr::V4 { ip, port } => {
                ip.lemma_text_bytes();
                lemma_decimal(port as nat);
            },
            SocketAddr::V6 { ip, port, scope_id } => {
                ip.lemma_text_bytes();
                lemma_decimal(port as nat);
                lemma_decimal(scope_id as nat);
                let a = seq![OPEN] + ip.text();
                let b = a + scope_text(scope_id);
                let c = b + seq![CLOSE, COLON];
                assert forall|i: int| 0 <= i < text.len() implies text[i] != BAR && text[i]
                    < 0x80 by {
                    if i < 1 {
                    } else if i < a.len() {
                        assert(text[i] == ip.text()[i - 1]);
                    } else if i < b.len() {
                        assert(text[i] == scope_text(scope_id)[i - a.len()]);
                    } else if i < c.len() {
                    } else {
                        assert(text[i] == decimal(port as nat)[i - c.len()]);
                    }
                }
            },
        }
    }

    /// Reading the text of a socket address gives the socket address back.
    pub proof fn lemma_parse_text(self)
        ensures
            Self::parse_spec(self.text()) == Some(self),
    {
        match self {
            SocketAddr::V4 { ip, port } => {
                let s = self.text();
                let head = ip.text();
                let tail = decimal(port as nat);
                ip.lemma_text_bytes();
                ip.lemma_parse_text();
                lemma_decimal(port as nat);
                lemma_find_is(s, COLON, head.len() as int);
                assert(s.take(head.len() as int) == head);
                assert(s.skip(head.len() as int + 1) == tail);
            },
            SocketAddr::V6 { ip, port, scope_id } => {
                ip.lemma_text_bytes();
                ip.lemma_parse_text();
                lemma_decimal(port as nat);
                lemma_decimal(scope_id as nat);
                assert(free_of(ip.text(), CLOSE) && free_of(ip.text(), PERCENT));
                assert(free_of(scope_text(scope_id), CLOSE));
                lemma_parse_bracketed(ip.text(), scope_id, decimal(port as nat));
            },
        }
    }
}

/// How the text of an IPv6 socket address is taken apart: the address
/// stands between `[` and the first `%` or `]`, the scope between `%` and
/// `]`, the port after `]:`.
pub proof fn lemma_parse_bracketed(word: Seq<u8>, scope_id: u32, tail: Seq<u8>)
    requires
        free_of(word, CLOSE),
        free_of(word, PERCENT),
    ensures
        ({
            let s = seq![OPEN] + word + scope_text(scope_id) + seq![CLOSE, COLON] + tail;
            let j = find(s, CLOSE);
            let inside = s.subrange(1, j);
            let p = find(inside, PERCENT);
            &&& 1 <= j < s.len()
            &&& s[0] == OPEN
            &&& inside.take(p) == word
            &&& p >= inside.len() <==> scope_id == 0
            &&& scope_id != 0 ==> inside.skip(p + 1) == decimal(scope_id as nat)
            &&& s.skip(j + 1).len() > 0
            &&& s.skip(j + 1)[0] == COLON
            &&& s.skip(j + 1).skip(1) == tail
        }),
{
    let scope = scope_text(scope_id);
    let s = seq![OPEN] + word + scope + seq![CLOSE, COLON] + tail;
    let j: int = 1 + word.len() as int + scope.len() as int;
    lemma_decimal(scope_id as nat);
    assert forall|i: int| 0 <= i < j implies s[i] != CLOSE by {
        if 1 <= i && i < 1 + word.len() {
            assert(s[i] == word[i - 1]);
        } else if i >= 1 + word.len() {
            assert(s[i] == scope[i - 1 - word.len()]);
        }
    }
    assert(s[j] == CLOSE);
    lemma_find_is(s, CLOSE, j);
    let inside = s.subrange(1, j);
    assert(inside == word + scope);
    assert forall|i: int| 0 <= i < word.len() implies inside[i] != PERCENT by {
        assert(inside[i] == word[i]);
    }
    if scope_id != 0 {
        assert(inside[word.len() as int] == PERCENT);
    }
    lemma_find_is(inside, PERCENT, word.len() as int);
    assert(inside.take(word.len() as int) == word);
    if scope_id != 0 {
        assert(inside.skip(word.len() as int + 1) == decimal(scope_id as nat));
    }
    let after = s.skip(j + 1);
    assert(after == seq![COLON] + tail);
    assert(after.skip(1) == tail);
}

} // verus!
