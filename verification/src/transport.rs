//! The server's side: what a listener announces.

use crate::handshake::{HandshakeInformation, NetworkType, Protcol};
use crate::net::SocketAddr;
use crate::text::{ascii, NEWLINE};
use vstd::prelude::*;
use vstd::string::StringExecFns;

verus! {

/// What a server announces that listens on `local_addr` and offers the
/// application protocol version `app_protocol_version`.
pub open spec fn announcement_spec(
    app_protocol_version: u32,
    local_addr: SocketAddr,
) -> HandshakeInformation {
    HandshakeInformation {
        core_protcol_version: 1,
        app_protocol_version,
        network_type: NetworkType::Tcp,
        network_addr: local_addr,
        protcol: Protcol::TarpcBincode,
    }
}

/// What a server announces that listens on `local_addr` and offers the
/// application protocol version `app_protocol_version`.
pub fn announcement(app_protocol_version: u32, local_addr: SocketAddr) -> (info:
    HandshakeInformation)
    ensures
        info == announcement_spec(app_protocol_version, local_addr),
{
    HandshakeInformation {
        core_protcol_version: 1,
        app_protocol_version,
        network_type: NetworkType::Tcp,
        network_addr: local_addr,
        protcol: Protcol::TarpcBincode,
    }
}

/// The line that a server writes first to its standard output: the
/// handshake line, ended by a line feed.
pub fn announcement_line(app_protocol_version: u32, local_addr: SocketAddr) -> (line: String)
    ensures
        line@ == ascii(
            announcement_spec(app_protocol_version, local_addr).text() + seq![NEWLINE],
        ),
{
    proof {
        reveal_strlit("\n");
    }
    let mut line = announcement(app_protocol_version, local_addr).to_string();
    line.append("\n");
    assert(line@ =~= ascii(
        announcement_spec(app_protocol_version, local_addr).text() + seq![NEWLINE],
    ));
    line
}

} // verus!
