//! The line with which a freshly launched server announces its endpoint:
//! `core|app|network_type|address|protocol`.

use crate::decimal::{
    decimal, lemma_decimal, lemma_digits_free_of, lemma_parse_u32_decimal, parse_u32,
    parse_u32_spec, push_decimal, IntErrorKind,
};
use crate::net::SocketAddr;
use crate::text::{
    ascii, bytes, free_of, from_utf8, is_ascii_bytes, is_text, lemma_split_five,
    lemma_utf8_of_ascii, split, split_ranges, BAR,
};
use vstd::prelude::*;
use vstd::slice::slice_subrange;
use vstd::string::{StringExecFns, StringSliceAdditionalSpecFns};
use vstd::utf8::{encode_utf8, valid_utf8};

verus! {

/// The kind of socket that the server listens on.
#[derive(Debug, Clone, Copy, PartialEq, Eq, Hash, Structural)]
pub enum NetworkType {
    Tcp,
    Unix,
}

/// The RPC framing that the server speaks.
#[derive(Debug, Clone, Copy, PartialEq, Eq, Hash, Structural)]
pub enum Protcol {
    Netrpc,
    Grpc,
    TarpcBincode,
}

/// What a launched server announces on the first line of its standard output.
#[derive(Debug, Clone, Copy, PartialEq, Eq, Hash, Structural)]
pub struct HandshakeInformation {
    /// The version of the line's own format: always 1.
    pub core_protcol_version: u32,
    /// The version of the RPC service that the server offers.
    pub app_protocol_version: u32,
    pub network_type: NetworkType,
    /// Where the server listens.
    pub network_addr: SocketAddr,
    pub protcol: Protcol,
}

/// Why a line is no handshake line: the stage of decoding that failed.
#[derive(Debug, Clone, Copy, PartialEq, Eq)]
pub enum ParseHandshakeError {
    /// The first field is a number other than 1.
    InvalidCoreProtocolVersion,
    /// One of the two version fields is no `u32`.
    ParseIntError(IntErrorKind),
    /// The network type or the protocol is none of the known words.
    ParseEnumError,
    /// The address field is no socket address.
    ParseAddrError,
    /// The bytes are no UTF-8 text.
    FromUtf8Error(std::str::Utf8Error),
    /// The line has fewer than five fields.
    InsufficientFields,
}

impl NetworkType {
    /// The word that stands for the network type on the line.
    pub open spec fn text(self) -> Seq<u8> {
        match self {
            NetworkType::Tcp => bytes("tcp"@),
            NetworkType::Unix => bytes("unix"@),
        }
    }

    /// The network type that a word stands for.
    pub open spec fn parse_spec(s: Seq<u8>) -> Option<NetworkType> {
        if s == bytes("tcp"@) {
            Some(NetworkType::Tcp)
        } else if s == bytes("unix"@) {
            Some(NetworkType::Unix)
        } else {
            None
        }
    }

    /// The word that stands for the network type on the line.
    pub fn as_str(&self) -> (r: &'static str)
        ensures
            r@ == ascii(self.text()),
    {
        proof {
            reveal_strlit("tcp");
            reveal_strlit("unix");
        }
        let r = match self {
            NetworkType::Tcp => "tcp",
            NetworkType::Unix => "unix",
        };
        assert(r@ =~= ascii(self.text()));
        r
    }

    /// The word that stands for the network type on the line.
    pub fn to_string(&self) -> (r: String)
        ensures
            r@ == ascii(self.text()),
    {
        String::from_str(self.as_str())
    }

    /// Reads a network type.
    pub fn parse_ascii(s: &[u8]) -> (r: Option<NetworkType>)
        ensures
            r == Self::parse_spec(s@),
    {
        proof {
            reveal_strlit("tcp");
            reveal_strlit("unix");
        }
        if is_text(s, "tcp") {
            Some(NetworkType::Tcp)
        } else if is_text(s, "unix") {
            Some(NetworkType::Unix)
        } else {
            None
        }
    }

    /// The word of a network type is ASCII without a bar, and reads back as
    /// the network type.
    pub proof fn lemma_text(self)
        ensures
            free_of(self.text(), BAR),
            is_ascii_bytes(self.text()),
            Self::parse_spec(self.text()) == Some(self),
    {
        reveal_strlit("tcp");
        reveal_strlit("unix");
        assert(bytes("tcp"@).len() == 3);
        assert(bytes("unix"@).len() == 4);
    }
}

impl Protcol {
    /// The word that stands for the protocol on the line.
    pub open spec fn text(self) -> Seq<u8> {
        match self {
            Protcol::Netrpc => bytes("netrpc"@),
            Protcol::Grpc => bytes("grpc"@),
            Protcol::TarpcBincode => bytes("tarpc<bincode>"@),
        }
    }

    /// The protocol that a word stands for.
    pub open spec fn parse_spec(s: Seq<u8>) -> Option<Protcol> {
        if s == bytes("netrpc"@) {
            Some(Protcol::Netrpc)
        } else if s == bytes("grpc"@) {
            Some(Protcol::Grpc)
        } else if s == bytes("tarpc<bincode>"@) {
            Some(Protcol::TarpcBincode)
        } else {
            None
        }
    }

    /// The word that stands for the protocol on the line.
    pub fn as_str(&self) -> (r: &'static str)
        ensures
            r@ == ascii(self.text()),
    {
        proof {
            reveal_strlit("netrpc");
            reveal_strlit("grpc");
            reveal_strlit("tarpc<bincode>");
        }
        let r = match self {
            Protcol::Netrpc => "netrpc",
            Protcol::Grpc => "grpc",
            Protcol::TarpcBincode => "tarpc<bincode>",
        };
        assert(r@ =~= ascii(self.text()));
        r
    }

    /// The word that stands for the protocol on the line.
    pub fn to_string(&self) -> (r: String)
        ensures
            r@ == ascii(self.text()),
    {
        String::from_str(self.as_str())
    }

    /// Reads a protocol.
    pub fn parse_ascii(s: &[u8]) -> (r: Option<Protcol>)
        ensures
            r == Self::parse_spec(s@),
    {
        proof {
            reveal_strlit("netrpc");
            reveal_strlit("grpc");
            reveal_strlit("tarpc<bincode>");
        }
        if is_text(s, "netrpc") {
            Some(Protcol::Netrpc)
        } else if is_text(s, "grpc") {
            Some(Protcol::Grpc)
        } else if is_text(s, "tarpc<bincode>") {
            Some(Protcol::TarpcBincode)
        } else {
            None
        }
    }

    /// The word of a protocol is ASCII without a bar, and reads back as the
    /// protocol.
    pub proof fn lemma_text(self)
        ensures
            free_of(self.text(), BAR),
            is_ascii_bytes(self.text()),
            Self::parse_spec(self.text()) == Some(self),
    {
        reveal_strlit("netrpc");
        reveal_strlit("grpc");
        reveal_strlit("tarpc<bincode>");
        assert(bytes("netrpc"@).len() == 6);
        assert(bytes("grpc"@).len() == 4);
        assert(bytes("tarpc<bincode>"@).len() == 14);
    }
}

impl HandshakeInformation {
    /// Whether the information is valid: its core protocol version is 1.
    pub open spec fn is_valid(self) -> bool {
        self.core_protcol_version == 1
    }

    /// The handshake line, without the line feed that ends it: the five
    /// fields with bars between.
    pub open spec fn text(self) -> Seq<u8> {
        decimal(self.core_protcol_version as nat) + seq![BAR] + decimal(
            self.app_protocol_version as nat,
        ) + seq![BAR] + self.network_type.text() + seq![BAR] + self.network_addr.text() + seq![BAR]
            + self.protcol.text()
    }

    /// What a line is as handshake information. The line is split at its
    /// bars; fields after the fifth are not looked at. The errors come in
    /// this order: too few fields, then each field from the first on, and
    /// the first field is held to be 1 before the second is read.
    pub open spec fn decode_spec(line: Seq<u8>) -> Result<
        HandshakeInformation,
        ParseHandshakeError,
    > {
        let f = split(line, BAR);
        if f.len() < 5 {
            Err(ParseHandshakeError::InsufficientFields)
        } else {
            match parse_u32_spec(f[0]) {
                Err(kind) => Err(ParseHandshakeError::ParseIntError(kind)),
                Ok(core) => if core != 1 {
                    Err(ParseHandshakeError::InvalidCoreProtocolVersion)
                } else {
                    match parse_u32_spec(f[1]) {
                        Err(kind) => Err(ParseHandshakeError::ParseIntError(kind)),
                        Ok(app) => match NetworkType::parse_spec(f[2]) {
                            None => Err(ParseHandshakeError::ParseEnumError),
                            Some(network_type) => match SocketAddr::parse_spec(f[3]) {
                                None => Err(ParseHandshakeError::ParseAddrError),
                                Some(network_addr) => match Protcol::parse_spec(f[4]) {
                                    None => Err(ParseHandshakeError::ParseEnumError),
                                    Some(protcol) => Ok(
                                        HandshakeInformation {
                                            core_protcol_version: core,
                                            app_protocol_version: app,
                                            network_type,
                                            network_addr,
                                            protcol,
                                        },
                                    ),
                                },
                            },
                        },
                    }
                },
            }
        }
    }

    /// Reads a handshake line, given without its line feed.
    pub fn decode(line: &[u8]) -> (r: Result<HandshakeInformation, ParseHandshakeError>)
        ensures
            r == Self::decode_spec(line@),
    {
        let fields = split_ranges(line, BAR);
        if fields.len() < 5 {
            return Err(ParseHandshakeError::InsufficientFields);
        }
        let core = match parse_u32(slice_subrange(line, fields[0].0, fields[0].1)) {
            Ok(n) => n,
            Err(kind) => { return Err(ParseHandshakeError::ParseIntError(kind)); },
        };
        if core != 1 {
            return Err(ParseHandshakeError::InvalidCoreProtocolVersion);
        }
        let app = match parse_u32(slice_subrange(line, fields[1].0, fields[1].1)) {
            Ok(n) => n,
            Err(kind) => { return Err(ParseHandshakeError::ParseIntError(kind)); },
        };
        let network_type = match NetworkType::parse_ascii(
            slice_subrange(line, fields[2].0, fields[2].1),
        ) {
            Some(t) => t,
            None => { return Err(ParseHandshakeError::ParseEnumError); },
        };
        let network_addr = match SocketAddr::parse_ascii(
            slice_subrange(line, fields[3].0, fields[3].1),
        ) {
            Some(a) => a,
            None => { return Err(ParseHandshakeError::ParseAddrError); },
        };
        let protcol = match Protcol::parse_ascii(slice_subrange(line, fields[4].0, fields[4].1)) {
            Some(p) => p,
            None => { return Err(ParseHandshakeError::ParseEnumError); },
        };
        Ok(
            HandshakeInformation {
                core_protcol_version: core,
                app_protocol_version: app,
                network_type,
                network_addr,
                protcol,
            },
        )
    }

    /// Reads a handshake line, given without its line feed.
    pub fn from_str(s: &str) -> (r: Result<HandshakeInformation, ParseHandshakeError>)
        ensures
            r == Self::decode_spec(s.spec_bytes()),
    {
        Self::decode(s.as_bytes())
    }

    /// Reads a handshake line, given without its line feed, from bytes that
    /// have to be UTF-8 as a whole.
    pub fn try_from(value: &[u8]) -> (r: Result<HandshakeInformation, ParseHandshakeError>)
        ensures
            valid_utf8(value@) ==> r == Self::decode_spec(value@),
            !valid_utf8(value@) ==> r matches Err(ParseHandshakeError::FromUtf8Error(_)),
    {
        match from_utf8(value) {
            Ok(text) => Self::from_str(text),
            Err(e) => Err(ParseHandshakeError::FromUtf8Error(e)),
        }
    }

    /// The handshake line, without the line feed that ends it.
    pub fn to_string(&self) -> (r: String)
        ensures
            r@ == ascii(self.text()),
    {
        proof {
            reveal_strlit("|");
        }
        let mut out = String::new();
        push_decimal(&mut out, self.core_protcol_version);
        out.append("|");
        push_decimal(&mut out, self.app_protocol_version);
        out.append("|");
        out.append(self.network_type.as_str());
        out.append("|");
        self.network_addr.push_text(&mut out);
        out.append("|");
        out.append(self.protcol.as_str());
        assert(out@ =~= ascii(self.text()));
        out
    }
}

impl std::str::FromStr for HandshakeInformation {
    type Err = ParseHandshakeError;

    /// Reads a handshake line, given without its line feed.
    fn from_str(s: &str) -> (r: Result<HandshakeInformation, ParseHandshakeError>)
        ensures
            r == HandshakeInformation::decode_spec(s.spec_bytes()),
    {
        HandshakeInformation::decode(s.as_bytes())
    }
}

/// The fields of the line of handshake information are its five parts.
pub proof fn lemma_fields(h: HandshakeInformation)
    ensures
        split(h.text(), BAR) == seq![
            decimal(h.core_protcol_version as nat),
            decimal(h.app_protocol_version as nat),
            h.network_type.text(),
            h.network_addr.text(),
            h.protcol.text(),
        ],
{
    let core = decimal(h.core_protcol_version as nat);
    let app = decimal(h.app_protocol_version as nat);
    let kind = h.network_type.text();
    let addr = h.network_addr.text();
    let protocol = h.protcol.text();
    assert(free_of(core, BAR) && free_of(app, BAR)) by {
        lemma_decimal(h.core_protcol_version as nat);
        lemma_decimal(h.app_protocol_version as nat);
        lemma_digits_free_of(core, BAR);
        lemma_digits_free_of(app, BAR);
    }
    assert(free_of(kind, BAR) && free_of(protocol, BAR) && free_of(addr, BAR)) by {
        h.network_type.lemma_text();
        h.protcol.lemma_text();
        h.network_addr.lemma_text_bytes();
    }
    lemma_split_five(core, app, kind, addr, protocol, BAR);
}

/// Decoding the line of valid handshake information gives the information
/// back.
pub proof fn law_decode_encode(h: HandshakeInformation)
    requires
        h.is_valid(),
    ensures
        HandshakeInformation::decode_spec(h.text()) == Ok::<
            HandshakeInformation,
            ParseHandshakeError,
        >(h),
{
    lemma_fields(h);
    lemma_parse_u32_decimal(h.core_protcol_version);
    lemma_parse_u32_decimal(h.app_protocol_version);
    h.network_type.lemma_text();
    h.protcol.lemma_text();
    h.network_addr.lemma_parse_text();
}

/// What a line decodes to is valid handshake information, and the line of
/// that information decodes to it again.
pub proof fn law_decoded_is_valid(line: Seq<u8>)
    ensures
        HandshakeInformation::decode_spec(line) matches Ok(h) ==> h.is_valid()
            && HandshakeInformation::decode_spec(h.text()) == Ok::<
            HandshakeInformation,
            ParseHandshakeError,
        >(h),
{
    match HandshakeInformation::decode_spec(line) {
        Ok(h) => {
            law_decode_encode(h);
        },
        Err(_) => {},
    }
}

/// The line of handshake information is ASCII, so that it is its own text
/// in UTF-8.
pub proof fn law_line_is_ascii(h: HandshakeInformation)
    ensures
        is_ascii_bytes(h.text()),
        encode_utf8(ascii(h.text())) == h.text(),
{
    lemma_decimal(h.core_protcol_version as nat);
    lemma_decimal(h.app_protocol_version as nat);
    h.network_type.lemma_text();
    h.protcol.lemma_text();
    h.network_addr.lemma_text_bytes();
    lemma_utf8_of_ascii(h.text());
}

} // verus!
