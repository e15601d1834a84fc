use sshrpc::hex::parse_group;
use sshrpc::ipv6::Ipv6Addr;
use sshrpc::net::{parse_octet, IpAddr, Ipv4Addr, SocketAddr};

fn v4(a: u8, b: u8, c: u8, d: u8, port: u16) -> SocketAddr {
    SocketAddr::V4 { ip: Ipv4Addr::new(a, b, c, d), port }
}

fn v6(g: [u16; 8], port: u16, scope_id: u32) -> SocketAddr {
    SocketAddr::V6 { ip: Ipv6Addr::new(g[0], g[1], g[2], g[3], g[4], g[5], g[6], g[7]), port, scope_id }
}

#[test]
fn ipv4_socket_addresses_are_read() {
    assert_eq!(SocketAddr::parse_ascii(b"127.0.0.1:1234"), Some(v4(127, 0, 0, 1, 1234)));
    assert_eq!(SocketAddr::parse_ascii(b"0.0.0.0:0"), Some(v4(0, 0, 0, 0, 0)));
    assert_eq!(SocketAddr::parse_ascii(b"255.255.255.255:65535"), Some(v4(255, 255, 255, 255, 65535)));
    assert_eq!(SocketAddr::parse_ascii(b"1.2.3.4:080"), Some(v4(1, 2, 3, 4, 80)));
    assert_eq!(SocketAddr::parse_ascii(b"1.2.3.4:0000000000065535"), Some(v4(1, 2, 3, 4, 65535)));
}

#[test]
fn texts_that_are_no_ipv4_socket_address() {
    let texts: Vec<&[u8]> = vec![
        b"", b":", b"1.2.3.4", b"1.2.3.4:", b":80", b"1.2.3:80", b"1.2.3.4.5:80", b"1.2.3.4:65536",
        b"256.0.0.1:80", b"01.2.3.4:80", b"1.2.3.04:80", b"1.2.3.4:+80", b"1.2.3.4:80 ", b" 1.2.3.4:80",
        b"1..3.4:80", b"1.2.3.4:8:0", b"localhost:80", b"1.2.3.4:-1", b"1.2.3.4 :80", b".1.2.3:80",
        b"1.2.3.:80", b"1.2.3.1000:80", b"1.2.3.4:99999999999999999999", b"0x1.2.3.4:80",
    ];
    for text in texts {
        assert_eq!(SocketAddr::parse_ascii(text), None, "{:?}", String::from_utf8_lossy(text));
    }
}

#[test]
fn octets() {
    assert_eq!(parse_octet(b"0"), Some(0));
    assert_eq!(parse_octet(b"9"), Some(9));
    assert_eq!(parse_octet(b"10"), Some(10));
    assert_eq!(parse_octet(b"255"), Some(255));
    assert_eq!(parse_octet(b"256"), None);
    assert_eq!(parse_octet(b"00"), None);
    assert_eq!(parse_octet(b"010"), None);
    assert_eq!(parse_octet(b""), None);
    assert_eq!(parse_octet(b"1000"), None);
    assert_eq!(parse_octet(b"1a"), None);
}

#[test]
fn hexadecimal_groups() {
    assert_eq!(parse_group(b"0"), Some(0));
    assert_eq!(parse_group(b"0000"), Some(0));
    assert_eq!(parse_group(b"ffff"), Some(0xffff));
    assert_eq!(parse_group(b"FFFF"), Some(0xffff));
    assert_eq!(parse_group(b"aBcD"), Some(0xabcd));
    assert_eq!(parse_group(b"1f"), Some(0x1f));
    assert_eq!(parse_group(b"00001"), None);
    assert_eq!(parse_group(b""), None);
    assert_eq!(parse_group(b"g"), None);
    assert_eq!(parse_group(b"1:"), None);
}

#[test]
fn ipv4_text() {
    assert_eq!(Ipv4Addr::new(127, 0, 0, 1).to_string(), "127.0.0.1");
    assert_eq!(Ipv4Addr::new(0, 10, 100, 255).to_string(), "0.10.100.255");
    assert_eq!(v4(192, 168, 1, 20, 8080).to_string(), "192.168.1.20:8080");
    assert_eq!(v4(1, 2, 3, 4, 0).to_string(), "1.2.3.4:0");
    assert_eq!(IpAddr::V4(Ipv4Addr::new(9, 99, 199, 0)).to_string(), "9.99.199.0");
    assert_eq!(Ipv4Addr::parse_ascii(b"9.99.199.0"), Some(Ipv4Addr::new(9, 99, 199, 0)));
    assert_eq!(Ipv4Addr::parse_ascii(b"9.99.199.0:1"), None);
}

#[test]
fn ipv6_text() {
    let text = |g: [u16; 8]| Ipv6Addr::new(g[0], g[1], g[2], g[3], g[4], g[5], g[6], g[7]).to_string();
    assert_eq!(text([0, 0, 0, 0, 0, 0, 0, 0]), "::");
    assert_eq!(text([0, 0, 0, 0, 0, 0, 0, 1]), "::1");
    assert_eq!(text([1, 0, 0, 0, 0, 0, 0, 0]), "1::");
    assert_eq!(text([0x2001, 0xdb8, 0, 0, 0, 0, 0, 1]), "2001:db8::1");
    assert_eq!(text([1, 0, 0, 2, 0, 0, 0, 3]), "1:0:0:2::3");
    assert_eq!(text([1, 0, 0, 0, 2, 0, 0, 3]), "1::2:0:0:3");
    assert_eq!(text([1, 0, 0, 2, 3, 0, 0, 4]), "1::2:3:0:0:4");
    assert_eq!(text([1, 0, 2, 3, 4, 5, 6, 7]), "1:0:2:3:4:5:6:7");
    assert_eq!(text([0, 1, 2, 3, 4, 5, 6, 7]), "0:1:2:3:4:5:6:7");
    assert_eq!(text([1, 2, 3, 4, 5, 6, 7, 0]), "1:2:3:4:5:6:7:0");
    assert_eq!(text([1, 2, 3, 4, 5, 6, 0, 0]), "1:2:3:4:5:6::");
    assert_eq!(text([0, 0, 3, 4, 5, 6, 7, 8]), "::3:4:5:6:7:8");
    assert_eq!(text([0xffff, 0xabcd, 0x10, 0x100, 0x1000, 9, 0xa, 0xf]), "ffff:abcd:10:100:1000:9:a:f");
    assert_eq!(text([0, 0, 0, 0, 0, 0xffff, 0xc000, 0x280]), "::ffff:192.0.2.128");
    assert_eq!(text([0, 0, 0, 0, 0, 0xffff, 0, 0]), "::ffff:0.0.0.0");
    assert_eq!(text([0, 0, 0, 0, 0, 0, 0x102, 0x304]), "::102:304");
    assert_eq!(text([0, 0, 0, 0, 1, 0xffff, 0x102, 0x304]), "::1:ffff:102:304");
}

#[test]
fn ipv6_socket_address_text() {
    assert_eq!(v6([0, 0, 0, 0, 0, 0, 0, 1], 8080, 0).to_string(), "[::1]:8080");
    assert_eq!(v6([0xfe80, 0, 0, 0, 0, 0, 0, 1], 22, 3).to_string(), "[fe80::1%3]:22");
    assert_eq!(v6([0, 0, 0, 0, 0, 0xffff, 0x7f00, 1], 1, 0).to_string(), "[::ffff:127.0.0.1]:1");
    assert_eq!(
        SocketAddr::new(IpAddr::V6(Ipv6Addr::new(1, 2, 3, 4, 5, 6, 7, 8)), 65535).to_string(),
        "[1:2:3:4:5:6:7:8]:65535"
    );
}

#[test]
fn ipv6_socket_addresses_are_read() {
    assert_eq!(SocketAddr::parse_ascii(b"[::1]:8080"), Some(v6([0, 0, 0, 0, 0, 0, 0, 1], 8080, 0)));
    assert_eq!(SocketAddr::parse_ascii(b"[::]:0"), Some(v6([0; 8], 0, 0)));
    assert_eq!(
        SocketAddr::parse_ascii(b"[2001:DB8::1]:443"),
        Some(v6([0x2001, 0xdb8, 0, 0, 0, 0, 0, 1], 443, 0))
    );
    assert_eq!(
        SocketAddr::parse_ascii(b"[1:2:3:4:5:6:7:8]:9"),
        Some(v6([1, 2, 3, 4, 5, 6, 7, 8], 9, 0))
    );
    assert_eq!(
        SocketAddr::parse_ascii(b"[0001:0002:0003:0004:0005:0006:0007:0008]:9"),
        Some(v6([1, 2, 3, 4, 5, 6, 7, 8], 9, 0))
    );
    assert_eq!(
        SocketAddr::parse_ascii(b"[1:2:3:4:5:6:1.2.3.4]:9"),
        Some(v6([1, 2, 3, 4, 5, 6, 0x102, 0x304], 9, 0))
    );
    assert_eq!(
        SocketAddr::parse_ascii(b"[::ffff:192.0.2.128]:9"),
        Some(v6([0, 0, 0, 0, 0, 0xffff, 0xc000, 0x280], 9, 0))
    );
    assert_eq!(SocketAddr::parse_ascii(b"[::1.2.3.4]:9"), Some(v6([0, 0, 0, 0, 0, 0, 0x102, 0x304], 9, 0)));
    assert_eq!(
        SocketAddr::parse_ascii(b"[1:2:3:4:5:6:7::]:9"),
        Some(v6([1, 2, 3, 4, 5, 6, 7, 0], 9, 0))
    );
    assert_eq!(
        SocketAddr::parse_ascii(b"[::2:3:4:5:6:7:8]:9"),
        Some(v6([0, 2, 3, 4, 5, 6, 7, 8], 9, 0))
    );
    assert_eq!(
        SocketAddr::parse_ascii(b"[1::5:1.2.3.4]:9"),
        Some(v6([1, 0, 0, 0, 0, 5, 0x102, 0x304], 9, 0))
    );
    assert_eq!(
        SocketAddr::parse_ascii(b"[::1:2:3:4:5:1.2.3.4]:9"),
        Some(v6([0, 1, 2, 3, 4, 5, 0x102, 0x304], 9, 0))
    );
    assert_eq!(SocketAddr::parse_ascii(b"[fe80::1%3]:22"), Some(v6([0xfe80, 0, 0, 0, 0, 0, 0, 1], 22, 3)));
    assert_eq!(SocketAddr::parse_ascii(b"[fe80::1%0]:22"), Some(v6([0xfe80, 0, 0, 0, 0, 0, 0, 1], 22, 0)));
    assert_eq!(
        SocketAddr::parse_ascii(b"[fe80::1%4294967295]:22"),
        Some(v6([0xfe80, 0, 0, 0, 0, 0, 0, 1], 22, u32::MAX))
    );
    assert_eq!(SocketAddr::parse_ascii(b"[1::2]:0080"), Some(v6([1, 0, 0, 0, 0, 0, 0, 2], 80, 0)));
}

#[test]
fn texts_that_are_no_ipv6_socket_address() {
    let texts: Vec<&[u8]> = vec![
        b"[", b"[]", b"[]:1", b"[::1]", b"[::1]:", b"[::1]1", b"[::1]:65536", b"::1:80", b"[::1:80",
        b"::1]:80", b"[:::1]:1", b"[:::]:1", b"[1:::2]:1", b"[1::2::3]:1", b"[1:2:3:4:5:6:7:8:9]:1",
        b"[1:2:3:4:5:6:7]:1", b"[12345::]:1", b"[::12345]:1", b"[::g]:1", b"[::1%]:1", b"[::1%x]:1",
        b"[::1%4294967296]:1", b"[::1%1%2]:1", b"[1.2.3.4::]:1", b"[1.2.3.4]:1", b"[::1.2.3.4:5]:1",
        b"[::1.2.3]:1", b"[::1.2.3.256]:1", b"[::01.2.3.4]:1", b"[1:2:3:4:5:6:7:1.2.3.4]:1",
        b"[1:2:3:4:5:1.2.3.4]:1", b"[::1:2:3:4:5:6:1.2.3.4]:1", b"[1:2:3:4:5:6:7::8]:1",
        b"[1:2:3:4:5:6:7:8::]:1", b"[::1:2:3:4:5:6:7:8]:1", b"[:1::2]:1", b"[1::2:]:1", b"[1:]:1",
        b"[:1]:1", b"[ ::1]:1", b"[::1 ]:1", b"[::1]]:1", b"[[::1]:1", b"[::1]:1]", b"[::1]:+1",
        b"[1:2:3:4:5:6:7:8]:1 ", b"[::-1]:1",
    ];
    for text in texts {
        assert_eq!(SocketAddr::parse_ascii(text), None, "{:?}", String::from_utf8_lossy(text));
    }
}

#[test]
fn bare_ipv6_addresses() {
    assert_eq!(Ipv6Addr::parse_ascii(b"::1"), Some(Ipv6Addr::new(0, 0, 0, 0, 0, 0, 0, 1)));
    assert_eq!(Ipv6Addr::parse_ascii(b"::"), Some(Ipv6Addr::new(0, 0, 0, 0, 0, 0, 0, 0)));
    assert_eq!(Ipv6Addr::parse_ascii(b":"), None);
    assert_eq!(Ipv6Addr::parse_ascii(b""), None);
    assert_eq!(Ipv6Addr::parse_ascii(b"1"), None);
    assert_eq!(Ipv6Addr::parse_ascii(b"::1%3"), None);
    assert_eq!(Ipv6Addr::parse_ascii(b"[::1]"), None);
}

#[test]
fn parts_of_a_socket_address() {
    let a = v4(10, 1, 2, 3, 99);
    assert_eq!(a.ip(), IpAddr::V4(Ipv4Addr::new(10, 1, 2, 3)));
    assert_eq!(a.port(), 99);
    let b = v6([1, 2, 3, 4, 5, 6, 7, 8], 7, 5);
    assert_eq!(b.ip(), IpAddr::V6(Ipv6Addr::new(1, 2, 3, 4, 5, 6, 7, 8)));
    assert_eq!(b.port(), 7);
    assert_eq!(SocketAddr::new(b.ip(), 7), v6([1, 2, 3, 4, 5, 6, 7, 8], 7, 0));
}

#[test]
fn reading_the_text_of_an_address_gives_it_back() {
    let groups: Vec<u16> = vec![0, 1, 0xffff, 0x10, 0xabc];
    let mut count = 0;
    for a in &groups {
        for b in &groups {
            for c in &groups {
                for d in &groups {
                    let ip = Ipv6Addr::new(*a, 0, *b, 0, 0, *c, *d, *a);
                    let addr = SocketAddr::V6 { ip, port: *d, scope_id: *b as u32 };
                    assert_eq!(SocketAddr::parse_ascii(addr.to_string().as_bytes()), Some(addr));
                    assert_eq!(Ipv6Addr::parse_ascii(ip.to_string().as_bytes()), Some(ip));
                    let ip = Ipv6Addr::new(0, 0, 0, 0, *a, *b, *c, *d);
                    assert_eq!(Ipv6Addr::parse_ascii(ip.to_string().as_bytes()), Some(ip));
                    let ip = Ipv6Addr::new(*a, *b, *c, *d, 0, 0, 0, 0);
                    assert_eq!(Ipv6Addr::parse_ascii(ip.to_string().as_bytes()), Some(ip));
                    count += 1;
                }
            }
        }
    }
    assert_eq!(count, 625);
    for a in [0u8, 1, 9, 10, 99, 100, 255] {
        for b in [0u8, 7, 42, 200] {
            let addr = SocketAddr::V4 { ip: Ipv4Addr::new(a, b, b, a), port: a as u16 * 257 };
            assert_eq!(SocketAddr::parse_ascii(addr.to_string().as_bytes()), Some(addr));
        }
    }
}
