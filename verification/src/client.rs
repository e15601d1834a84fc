//! The controller's side: remote commands, the launch procedure, the session.

pub mod channel;
pub mod guard;
pub mod launch;
pub mod trace;

use crate::handshake::HandshakeInformation;
use vstd::prelude::*;

verus! {

/// A server that runs on the remote host: the channel it was started on,
/// the connection to the address it announced, and its handshake.
pub struct SshRpcSession<C, S> {
    pub handshake_information: HandshakeInformation,
    /// The execution channel of the server.
    pub channel: C,
    /// The forwarded connection to the server.
    pub stream: S,
}

/// Why a session is not taken as a transport.
#[derive(Debug, Clone, Copy, PartialEq, Eq, Structural)]
pub enum AppProtocolError {
    /// The server announced another application protocol version than the
    /// one asked for.
    VersionMismatch { expected: u32, got: u32 },
}

impl<C, S> SshRpcSession<C, S> {
    /// Holds the version that the server announced against
    /// `app_protocol_version`. The session is only looked at.
    pub fn check_app_protocol_version(&self, app_protocol_version: u32) -> (r: Result<
        (),
        AppProtocolError,
    >)
        ensures
            r == if self.handshake_information.app_protocol_version == app_protocol_version {
                Ok::<(), AppProtocolError>(())
            } else {
                Err::<(), AppProtocolError>(
                    AppProtocolError::VersionMismatch {
                        expected: app_protocol_version,
                        got: self.handshake_information.app_protocol_version,
                    },
                )
            },
    {
        if self.handshake_information.app_protocol_version != app_protocol_version {
            return Err(
                AppProtocolError::VersionMismatch {
                    expected: app_protocol_version,
                    got: self.handshake_information.app_protocol_version,
                },
            );
        }
        Ok(())
    }

    /// Hands out the channel and the connection for the RPC transport,
    /// both as they are, where the server announced the application
    /// protocol version `app_protocol_version`; else says which versions
    /// differ.
    pub fn try_into_transport(self, app_protocol_version: u32) -> (r: Result<
        (C, S),
        AppProtocolError,
    >)
        ensures
            r == if self.handshake_information.app_protocol_version == app_protocol_version {
                Ok::<(C, S), AppProtocolError>((self.channel, self.stream))
            } else {
                Err::<(C, S), AppProtocolError>(
                    AppProtocolError::VersionMismatch {
                        expected: app_protocol_version,
                        got: self.handshake_information.app_protocol_version,
                    },
                )
            },
    {
        match self.check_app_protocol_version(app_protocol_version) {
            Ok(()) => Ok((self.channel, self.stream)),
            Err(e) => Err(e),
        }
    }
}

} // verus!
