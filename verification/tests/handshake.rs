use sshrpc::decimal::{parse_digits, parse_u32, IntErrorKind};
use sshrpc::ipv6::Ipv6Addr;
use sshrpc::net::{IpAddr, Ipv4Addr, SocketAddr};
use sshrpc::{HandshakeInformation, NetworkType, ParseHandshakeError, Protcol};

fn info(app: u32, network_type: NetworkType, addr: SocketAddr, protcol: Protcol) -> HandshakeInformation {
    HandshakeInformation {
        core_protcol_version: 1,
        app_protocol_version: app,
        network_type,
        network_addr: addr,
        protcol,
    }
}

fn localhost(port: u16) -> SocketAddr {
    SocketAddr::new(IpAddr::V4(Ipv4Addr::new(127, 0, 0, 1)), port)
}

#[test]
fn test_parse_handshake() {
    assert!("1|1|tcp|".parse::<HandshakeInformation>().is_err());
    assert_eq!(
        HandshakeInformation {
            core_protcol_version: 1,
            app_protocol_version: 1,
            network_type: NetworkType::Tcp,
            network_addr: SocketAddr::parse_ascii("127.0.0.1:1234".as_bytes()).unwrap(),
            protcol: Protcol::TarpcBincode,
        },
        "1|1|tcp|127.0.0.1:1234|tarpc<bincode>"
            .parse::<HandshakeInformation>()
            .unwrap()
    );
    assert_eq!(
        "1|1|tcp|127.0.0.1:1234|grpc",
        HandshakeInformation {
            core_protcol_version: 1,
            app_protocol_version: 1,
            network_type: NetworkType::Tcp,
            network_addr: SocketAddr::new(IpAddr::V4(Ipv4Addr::new(127, 0, 0, 1)), 1234),
            protcol: Protcol::Grpc,
        }
        .to_string()
    );
}

#[test]
fn too_few_fields_are_insufficient() {
    assert_eq!(
        HandshakeInformation::from_str("1|1|tcp|"),
        Err(ParseHandshakeError::InsufficientFields)
    );
    assert_eq!(HandshakeInformation::from_str(""), Err(ParseHandshakeError::InsufficientFields));
    assert_eq!(
        HandshakeInformation::from_str("2|x"),
        Err(ParseHandshakeError::InsufficientFields)
    );
    assert_eq!(
        HandshakeInformation::from_str("1|1|tcp|127.0.0.1:1234"),
        Err(ParseHandshakeError::InsufficientFields)
    );
}

#[test]
fn decodes_a_full_line() {
    assert_eq!(
        HandshakeInformation::from_str("1|1|tcp|127.0.0.1:1234|tarpc<bincode>"),
        Ok(info(1, NetworkType::Tcp, localhost(1234), Protcol::TarpcBincode))
    );
    assert_eq!(
        HandshakeInformation::decode(b"1|4294967295|unix|10.0.0.255:65535|netrpc"),
        Ok(info(
            u32::MAX,
            NetworkType::Unix,
            SocketAddr::new(IpAddr::V4(Ipv4Addr::new(10, 0, 0, 255)), 65535),
            Protcol::Netrpc
        ))
    );
}

#[test]
fn encodes_exactly() {
    assert_eq!(
        info(1, NetworkType::Tcp, localhost(1234), Protcol::Grpc).to_string(),
        "1|1|tcp|127.0.0.1:1234|grpc"
    );
    assert_eq!(
        info(0, NetworkType::Unix, localhost(0), Protcol::Netrpc).to_string(),
        "1|0|unix|127.0.0.1:0|netrpc"
    );
    assert_eq!(
        info(
            4000000000,
            NetworkType::Tcp,
            SocketAddr::V6 { ip: Ipv6Addr::new(0, 0, 0, 0, 0, 0, 0, 1), port: 9, scope_id: 0 },
            Protcol::TarpcBincode
        )
        .to_string(),
        "1|4000000000|tcp|[::1]:9|tarpc<bincode>"
    );
}

#[test]
fn decode_of_encode_is_identity() {
    let addrs = vec![
        localhost(1234),
        SocketAddr::new(IpAddr::V4(Ipv4Addr::new(0, 0, 0, 0)), 0),
        SocketAddr::new(IpAddr::V4(Ipv4Addr::new(255, 255, 255, 255)), 65535),
        SocketAddr::new(IpAddr::V6(Ipv6Addr::new(0, 0, 0, 0, 0, 0, 0, 0)), 1),
        SocketAddr::new(IpAddr::V6(Ipv6Addr::new(0x2001, 0xdb8, 0, 0, 0, 0, 0, 1)), 443),
        SocketAddr::new(IpAddr::V6(Ipv6Addr::new(0, 0, 0, 0, 0, 0xffff, 0xc000, 0x280)), 80),
        SocketAddr::new(IpAddr::V6(Ipv6Addr::new(1, 0, 0, 2, 3, 0, 0, 4)), 80),
        SocketAddr::new(IpAddr::V6(Ipv6Addr::new(1, 2, 3, 4, 5, 6, 7, 0)), 80),
        SocketAddr::new(IpAddr::V6(Ipv6Addr::new(0, 2, 3, 4, 5, 6, 7, 8)), 80),
        SocketAddr::new(IpAddr::V6(Ipv6Addr::new(0xffff, 0xabcd, 0x10, 0x100, 0x1000, 9, 0xa, 0xf)), 80),
        SocketAddr::V6 { ip: Ipv6Addr::new(0xfe80, 0, 0, 0, 0, 0, 0, 1), port: 22, scope_id: 7 },
        SocketAddr::V6 { ip: Ipv6Addr::new(0, 0, 0, 0, 0, 0, 0x102, 0x304), port: 22, scope_id: u32::MAX },
    ];
    let kinds = vec![NetworkType::Tcp, NetworkType::Unix];
    let protocols = vec![Protcol::Netrpc, Protcol::Grpc, Protcol::TarpcBincode];
    let versions = vec![0u32, 1, 9, 10, 99, 100, 4294967295];
    for addr in &addrs {
        for kind in &kinds {
            for protocol in &protocols {
                for version in &versions {
                    let h = info(*version, *kind, *addr, *protocol);
                    let line = h.to_string();
                    assert_eq!(HandshakeInformation::from_str(&line), Ok(h));
                    assert_eq!(HandshakeInformation::decode(line.as_bytes()), Ok(h));
                    assert_eq!(HandshakeInformation::try_from(line.as_bytes()), Ok(h));
                    assert!(line.is_ascii());
                    assert!(!line.contains('\n'));
                }
            }
        }
    }
}

#[test]
fn fields_after_the_fifth_are_ignored() {
    assert_eq!(
        HandshakeInformation::from_str("1|7|tcp|127.0.0.1:1|grpc|more|and more"),
        Ok(info(7, NetworkType::Tcp, localhost(1), Protcol::Grpc))
    );
    assert_eq!(
        HandshakeInformation::from_str("1|7|tcp|127.0.0.1:1|grpc|"),
        Ok(info(7, NetworkType::Tcp, localhost(1), Protcol::Grpc))
    );
    assert_eq!(
        HandshakeInformation::from_str("1|7|tcp|127.0.0.1:1|grpc|h\u{e9}llo"),
        Ok(info(7, NetworkType::Tcp, localhost(1), Protcol::Grpc))
    );
}

#[test]
fn each_stage_has_its_error() {
    let e = |s: &str| HandshakeInformation::from_str(s).unwrap_err();
    assert_eq!(e("x|1|tcp|127.0.0.1:1|grpc"), ParseHandshakeError::ParseIntError(IntErrorKind::InvalidDigit));
    assert_eq!(e("|1|tcp|127.0.0.1:1|grpc"), ParseHandshakeError::ParseIntError(IntErrorKind::Empty));
    assert_eq!(
        e("4294967296|1|tcp|127.0.0.1:1|grpc"),
        ParseHandshakeError::ParseIntError(IntErrorKind::PosOverflow)
    );
    assert_eq!(e("2|1|tcp|127.0.0.1:1|grpc"), ParseHandshakeError::InvalidCoreProtocolVersion);
    assert_eq!(e("0|1|tcp|127.0.0.1:1|grpc"), ParseHandshakeError::InvalidCoreProtocolVersion);
    assert_eq!(e("1|-1|tcp|127.0.0.1:1|grpc"), ParseHandshakeError::ParseIntError(IntErrorKind::InvalidDigit));
    assert_eq!(e("1|1|udp|127.0.0.1:1|grpc"), ParseHandshakeError::ParseEnumError);
    assert_eq!(e("1|1|TCP|127.0.0.1:1|grpc"), ParseHandshakeError::ParseEnumError);
    assert_eq!(e("1|1|tcp|localhost:1|grpc"), ParseHandshakeError::ParseAddrError);
    assert_eq!(e("1|1|tcp|127.0.0.1|grpc"), ParseHandshakeError::ParseAddrError);
    assert_eq!(e("1|1|tcp|127.0.0.1:1|tarpc"), ParseHandshakeError::ParseEnumError);
    assert_eq!(e("1|1|tcp|127.0.0.1:1|grpc\r"), ParseHandshakeError::ParseEnumError);
    assert_eq!(e("1|1|tcp|127.0.0.1:1|"), ParseHandshakeError::ParseEnumError);
}

#[test]
fn the_core_version_is_held_before_the_other_fields_are_read() {
    assert_eq!(
        HandshakeInformation::from_str("2|x|y|z|w"),
        Err(ParseHandshakeError::InvalidCoreProtocolVersion)
    );
    assert_eq!(
        HandshakeInformation::from_str("1|x|y|z|w"),
        Err(ParseHandshakeError::ParseIntError(IntErrorKind::InvalidDigit))
    );
    assert_eq!(
        HandshakeInformation::from_str("1|1|y|z|w"),
        Err(ParseHandshakeError::ParseEnumError)
    );
    assert_eq!(
        HandshakeInformation::from_str("1|1|tcp|z|w"),
        Err(ParseHandshakeError::ParseAddrError)
    );
}

#[test]
fn a_plus_sign_and_leading_zeros_are_read() {
    assert_eq!(
        HandshakeInformation::from_str("+1|007|tcp|127.0.0.1:1|grpc"),
        Ok(info(7, NetworkType::Tcp, localhost(1), Protcol::Grpc))
    );
}

#[test]
fn bytes_that_are_no_utf8_are_refused_as_a_whole() {
    let mut line = b"1|7|tcp|127.0.0.1:1|grpc|".to_vec();
    line.push(0xff);
    assert!(matches!(
        HandshakeInformation::try_from(&line[..]),
        Err(ParseHandshakeError::FromUtf8Error(_))
    ));
    assert_eq!(
        HandshakeInformation::decode(&line[..]),
        Ok(info(7, NetworkType::Tcp, localhost(1), Protcol::Grpc))
    );
    assert_eq!(
        HandshakeInformation::try_from(&b"1|7|tcp|127.0.0.1:1|grpc"[..]),
        Ok(info(7, NetworkType::Tcp, localhost(1), Protcol::Grpc))
    );
    assert_eq!(
        HandshakeInformation::try_from(&b"1|7|tcp"[..]),
        Err(ParseHandshakeError::InsufficientFields)
    );
}

#[test]
fn words_of_the_enums() {
    assert_eq!(NetworkType::Tcp.to_string(), "tcp");
    assert_eq!(NetworkType::Unix.to_string(), "unix");
    assert_eq!(Protcol::Netrpc.to_string(), "netrpc");
    assert_eq!(Protcol::Grpc.to_string(), "grpc");
    assert_eq!(Protcol::TarpcBincode.to_string(), "tarpc<bincode>");
    assert_eq!(NetworkType::parse_ascii(b"tcp"), Some(NetworkType::Tcp));
    assert_eq!(NetworkType::parse_ascii(b"unix"), Some(NetworkType::Unix));
    assert_eq!(NetworkType::parse_ascii(b"tcp "), None);
    assert_eq!(NetworkType::parse_ascii(b""), None);
    assert_eq!(Protcol::parse_ascii(b"netrpc"), Some(Protcol::Netrpc));
    assert_eq!(Protcol::parse_ascii(b"grpc"), Some(Protcol::Grpc));
    assert_eq!(Protcol::parse_ascii(b"tarpc<bincode>"), Some(Protcol::TarpcBincode));
    assert_eq!(Protcol::parse_ascii(b"tarpc_bincode"), None);
}

fn kind_of(e: &std::num::IntErrorKind) -> IntErrorKind {
    match e {
        std::num::IntErrorKind::Empty => IntErrorKind::Empty,
        std::num::IntErrorKind::InvalidDigit => IntErrorKind::InvalidDigit,
        std::num::IntErrorKind::PosOverflow => IntErrorKind::PosOverflow,
        _ => panic!("no other kind comes of an unsigned number"),
    }
}

#[test]
fn numbers_are_read_as_the_standard_library_reads_them() {
    let texts = vec![
        "", "+", "-", "-1", "+1", "++1", "+-1", "0", "00", "001", "1", "9", "10", "4294967295",
        "4294967296", "04294967295", "+4294967295", "42949672950", "99999999999x", "999999999x",
        "4294967295x", "12x", "x", "x99999999999", "1 ", " 1", "1_000", "0x10", "\u{663}", "1.0",
        "18446744073709551616", "00000000000000000000000000001",
    ];
    for text in texts {
        let ours = parse_u32(text.as_bytes());
        let theirs = text.parse::<u32>().map_err(|e| kind_of(e.kind()));
        assert_eq!(ours, theirs, "{:?}", text);
    }
}

#[test]
fn digits_with_a_bound() {
    assert_eq!(parse_digits(b"65535", 65535), Some(65535));
    assert_eq!(parse_digits(b"65536", 65535), None);
    assert_eq!(parse_digits(b"0000000000000000000080", 65535), Some(80));
    assert_eq!(parse_digits(b"", 65535), None);
    assert_eq!(parse_digits(b"+1", 65535), None);
    assert_eq!(parse_digits(b"4294967295", u32::MAX), Some(u32::MAX));
    assert_eq!(parse_digits(b"4294967296", u32::MAX), None);
    assert_eq!(parse_digits(b"7", 0), None);
    assert_eq!(parse_digits(b"0", 0), Some(0));
}
