//! The launch of a server on the remote host, one step at a time.
//!
//! The caller owns the remote-shell session. It carries out each action that
//! the launcher asks for and reports what came of it; the launcher decides
//! what is asked next.

use crate::client::channel::{observe_exit, pop_newline, ChannelMsg, ExitStatus, Output, OutputView, exit_seen};
use crate::handshake::{HandshakeInformation, ParseHandshakeError};
use crate::text::{ascii, bytes, extend, find, find_from, text_bytes, NEWLINE};
use vstd::prelude::*;
use vstd::slice::slice_subrange;
use vstd::string::{is_ascii, is_ascii_spec_bytes, StringExecFns, StringSliceAdditionalSpecFns};

verus! {

/// Why a launch has failed.
#[derive(Debug, PartialEq, Eq)]
pub enum RpcStartError {
    /// The binary content could not be read or written; the text says why.
    IoError(String),
    /// The server's channel closed before it printed anything.
    HandshakeInformationNotReceived,
    /// The handshake cannot be used; the text says why. The launcher
    /// reports a first line that does not decode as
    /// `ParseHandshakeInformation`, with the stage that failed.
    InvalidHandshakeInformation(String),
    /// A remote command, or the server before its handshake, exited with
    /// this status.
    LaunchFail(u32),
    /// The server's first line is no handshake line.
    ParseHandshakeInformation(ParseHandshakeError),
    /// The remote-shell session has failed; the text says why.
    RusshError(String),
}

/// What an `RpcStartError` holds.
pub enum RpcStartErrorView {
    IoError(Seq<char>),
    HandshakeInformationNotReceived,
    InvalidHandshakeInformation(Seq<char>),
    LaunchFail(u32),
    ParseHandshakeInformation(ParseHandshakeError),
    RusshError(Seq<char>),
}

/// What the launcher asks of the remote-shell session.
#[derive(Debug, PartialEq, Eq)]
pub enum Action {
    /// Open a new execution channel and request `command` on it. The new
    /// channel is the current one from here on.
    Exec { command: Vec<u8> },
    /// Stream the binary content into the input of the current channel.
    SendBinary,
    /// Signal the end of input on the current channel.
    SendEof,
    /// Wait for the next event of the current channel.
    Wait,
    /// Hand the current channel to a cleanup guard and activate the guard.
    Guard,
    /// Open a direct forwarded connection through the session to `host` and
    /// `port`, as seen from the remote host.
    Forward { host: String, port: u32 },
    /// The launch is done: the session is the current channel, the
    /// forwarded connection, and `handshake`.
    Finish { handshake: HandshakeInformation },
    /// The launch has failed.
    Fail(RpcStartError),
}

/// What an `Action` holds.
pub enum ActionView {
    Exec { command: Seq<u8> },
    SendBinary,
    SendEof,
    Wait,
    Guard,
    Forward { host: Seq<char>, port: u32 },
    Finish { handshake: HandshakeInformation },
    Fail(RpcStartErrorView),
}

/// What came of the action that the launcher asked for last.
#[derive(Debug, PartialEq, Eq)]
pub enum Event {
    /// The action was carried out. This answers every action but `Wait`.
    Done,
    /// The channel has delivered a message. This answers `Wait`.
    Message(ChannelMsg),
    /// The channel has no more events. This answers `Wait`.
    Closed,
    /// The binary content could not be read or written.
    IoFailed(String),
    /// The remote-shell session has failed.
    SessionFailed(String),
}

/// Where a launch stands: the name says which answer is awaited.
#[derive(Debug, Clone, Copy, PartialEq, Eq, Structural)]
pub enum Stage {
    /// `which elfexec` has been requested.
    ProbeExec,
    /// The output of `which elfexec` is being collected.
    ProbeOutput,
    /// `elfexec <args>` has been requested.
    FastExec,
    /// The binary is being streamed to `elfexec`.
    FastUpload,
    /// The end of input is being signalled to `elfexec`.
    FastEof,
    /// `mktemp` has been requested.
    MktempExec,
    /// The output of `mktemp` is being collected.
    MktempOutput,
    /// `cat > <tmp>` has been requested.
    CopyExec,
    /// The binary is being streamed to `cat`.
    CopyUpload,
    /// The end of input is being signalled to `cat`.
    CopyEof,
    /// The exit of `cat` is awaited.
    CopyExit,
    /// `chmod +x <tmp>` has been requested.
    ChmodExec,
    /// The output of `chmod` is being collected.
    ChmodOutput,
    /// The command that removes the temporary file has been requested.
    TrapExec,
    /// Its channel is being handed to the cleanup guard.
    TrapGuard,
    /// `<tmp> <args>` has been requested.
    TargetExec,
    /// The end of input is being signalled to the server.
    TargetEof,
    /// The server's handshake line is awaited.
    Handshake,
    /// The forwarded connection is being opened.
    Forward,
    /// The launch is done.
    Done,
    /// The launch has failed.
    Failed,
}

/// The state of a launch.
pub struct Launcher {
    stage: Stage,
    args: Vec<u8>,
    output: Output,
    status: Option<u32>,
    tmpfile: Vec<u8>,
    handshake: Option<HandshakeInformation>,
}

/// What a `Launcher` holds.
pub struct LauncherView {
    /// Where the launch stands.
    pub stage: Stage,
    /// The arguments of the server.
    pub args: Seq<u8>,
    /// What the one-shot command at hand has reported so far.
    pub output: OutputView,
    /// The last exit status that the copy has reported.
    pub status: Option<u32>,
    /// The path of the temporary file on the remote host.
    pub tmpfile: Seq<u8>,
    /// The handshake, once it has been read.
    pub handshake: Option<HandshakeInformation>,
}

impl View for RpcStartError {
    type V = RpcStartErrorView;

    open spec fn view(&self) -> RpcStartErrorView {
        match *self {
            RpcStartError::IoError(text) => RpcStartErrorView::IoError(text@),
            RpcStartError::HandshakeInformationNotReceived => {
                RpcStartErrorView::HandshakeInformationNotReceived
            },
            RpcStartError::InvalidHandshakeInformation(text) => {
                RpcStartErrorView::InvalidHandshakeInformation(text@)
            },
            RpcStartError::LaunchFail(code) => RpcStartErrorView::LaunchFail(code),
            RpcStartError::ParseHandshakeInformation(e) => {
                RpcStartErrorView::ParseHandshakeInformation(e)
            },
            RpcStartError::RusshError(text) => RpcStartErrorView::RusshError(text@),
        }
    }
}

impl View for Action {
    type V = ActionView;

    open spec fn view(&self) -> ActionView {
        match *self {
            Action::Exec { command } => ActionView::Exec { command: command@ },
            Action::SendBinary => ActionView::SendBinary,
            Action::SendEof => ActionView::SendEof,
            Action::Wait => ActionView::Wait,
            Action::Guard => ActionView::Guard,
            Action::Forward { host, port } => ActionView::Forward { host: host@, port },
            Action::Finish { handshake } => ActionView::Finish { handshake },
            Action::Fail(e) => ActionView::Fail(e@),
        }
    }
}

impl View for Launcher {
    type V = LauncherView;

    closed spec fn view(&self) -> LauncherView {
        LauncherView {
            stage: self.stage,
            args: self.args@,
            output: self.output@,
            status: self.status,
            tmpfile: self.tmpfile@,
            handshake: self.handshake,
        }
    }
}

/// The command that asks the remote host whether it has `elfexec`.
pub open spec fn probe_command() -> Seq<u8> {
    bytes("which elfexec"@)
}

/// The command that runs the streamed binary from memory.
pub open spec fn elfexec_command(args: Seq<u8>) -> Seq<u8> {
    bytes("elfexec "@) + args
}

/// The command that makes the temporary file.
pub open spec fn mktemp_command() -> Seq<u8> {
    bytes("mktemp"@)
}

/// The command that writes the streamed binary to the temporary file.
pub open spec fn copy_command(tmpfile: Seq<u8>) -> Seq<u8> {
    bytes("cat > "@) + tmpfile
}

/// The command that makes the temporary file executable.
pub open spec fn chmod_command(tmpfile: Seq<u8>) -> Seq<u8> {
    bytes("chmod +x "@) + tmpfile
}

/// The command that removes the temporary file once its input ends.
pub open spec fn trap_command(tmpfile: Seq<u8>) -> Seq<u8> {
    bytes("bash -c \"cat;rm -f "@) + tmpfile + bytes("\""@)
}

/// The command that runs the temporary file.
pub open spec fn target_command(tmpfile: Seq<u8>, args: Seq<u8>) -> Seq<u8> {
    tmpfile + bytes(" "@) + args
}

/// What is said of an event that does not answer the action asked for.
pub open spec fn unexpected() -> Seq<char> {
    "unexpected event"@
}

/// The bytes of `data` before its first line feed.
pub open spec fn first_line(data: Seq<u8>) -> Seq<u8> {
    data.take(find(data, NEWLINE))
}

impl LauncherView {
    /// A launch of a server with the arguments `args`, of which the first
    /// action, the probe, has been asked for.
    pub open spec fn initial(args: Seq<u8>) -> LauncherView {
        LauncherView {
            stage: Stage::ProbeExec,
            args,
            output: OutputView::empty(),
            status: None,
            tmpfile: Seq::empty(),
            handshake: None,
        }
    }

    /// A launch that has come to where the server's handshake is awaited.
    pub open spec fn reading() -> LauncherView {
        LauncherView { stage: Stage::Handshake, ..Self::initial(Seq::empty()) }
    }

    /// Whether the launch has ended.
    pub open spec fn ended(self) -> bool {
        self.stage == Stage::Done || self.stage == Stage::Failed
    }

    /// The launch at `stage`, asking for `action`.
    pub open spec fn go(self, stage: Stage, action: ActionView) -> (LauncherView, ActionView) {
        (LauncherView { stage, ..self }, action)
    }

    /// The launch failed with `error`.
    pub open spec fn fail(self, error: RpcStartErrorView) -> (LauncherView, ActionView) {
        (LauncherView { stage: Stage::Failed, ..self }, ActionView::Fail(error))
    }

    /// The launch failed because of an event that answers nothing.
    pub open spec fn refuse(self) -> (LauncherView, ActionView) {
        self.fail(RpcStartErrorView::RusshError(unexpected()))
    }

    /// What follows when the action asked for has been carried out.
    pub open spec fn on_done(self) -> (LauncherView, ActionView) {
        match self.stage {
            Stage::ProbeExec => LauncherView { output: OutputView::empty(), ..self }.go(
                Stage::ProbeOutput,
                ActionView::Wait,
            ),
            Stage::FastExec => self.go(Stage::FastUpload, ActionView::SendBinary),
            Stage::FastUpload => self.go(Stage::FastEof, ActionView::SendEof),
            Stage::FastEof => self.go(Stage::Handshake, ActionView::Wait),
            Stage::MktempExec => LauncherView { output: OutputView::empty(), ..self }.go(
                Stage::MktempOutput,
                ActionView::Wait,
            ),
            Stage::CopyExec => self.go(Stage::CopyUpload, ActionView::SendBinary),
            Stage::CopyUpload => self.go(Stage::CopyEof, ActionView::SendEof),
            Stage::CopyEof => LauncherView { status: None, ..self }.go(
                Stage::CopyExit,
                ActionView::Wait,
            ),
            Stage::ChmodExec => LauncherView { output: OutputView::empty(), ..self }.go(
                Stage::ChmodOutput,
                ActionView::Wait,
            ),
            Stage::TrapExec => self.go(Stage::TrapGuard, ActionView::Guard),
            Stage::TrapGuard => self.go(
                Stage::TargetExec,
                ActionView::Exec { command: target_command(self.tmpfile, self.args) },
            ),
            Stage::TargetExec => self.go(Stage::TargetEof, ActionView::SendEof),
            Stage::TargetEof => self.go(Stage::Handshake, ActionView::Wait),
            Stage::Forward => match self.handshake {
                Some(handshake) => self.go(Stage::Done, ActionView::Finish { handshake }),
                None => self.refuse(),
            },
            _ => self.refuse(),
        }
    }

    /// What follows when the server's channel has delivered `msg` while its
    /// handshake is awaited: the first bytes of standard output have to be
    /// the handshake line, an exit status before them is a failed launch,
    /// and anything else is waited out.
    pub open spec fn on_handshake_message(self, msg: ChannelMsg) -> (LauncherView, ActionView) {
        match msg {
            ChannelMsg::Data { data } => match HandshakeInformation::decode_spec(
                first_line(data@),
            ) {
                Ok(handshake) => LauncherView { handshake: Some(handshake), ..self }.go(
                    Stage::Forward,
                    ActionView::Forward {
                        host: ascii(handshake.network_addr.ip_spec().text()),
                        port: handshake.network_addr.port_spec() as u32,
                    },
                ),
                Err(e) => self.fail(RpcStartErrorView::ParseHandshakeInformation(e)),
            },
            ChannelMsg::ExitStatus { exit_status } => self.fail(
                RpcStartErrorView::LaunchFail(exit_status),
            ),
            _ => self.go(Stage::Handshake, ActionView::Wait),
        }
    }

    /// What follows when the channel waited on has delivered `msg`.
    pub open spec fn on_message(self, msg: ChannelMsg) -> (LauncherView, ActionView) {
        match self.stage {
            Stage::ProbeOutput | Stage::MktempOutput | Stage::ChmodOutput => LauncherView {
                output: self.output.observe(msg),
                ..self
            }.go(self.stage, ActionView::Wait),
            Stage::CopyExit => LauncherView { status: exit_seen(self.status, msg), ..self }.go(
                Stage::CopyExit,
                ActionView::Wait,
            ),
            Stage::Handshake => self.on_handshake_message(msg),
            _ => self.refuse(),
        }
    }

    /// What follows when the channel waited on has no more events.
    pub open spec fn on_closed(self) -> (LauncherView, ActionView) {
        match self.stage {
            Stage::ProbeOutput => if self.output.code.spec_sucess() {
                self.go(Stage::FastExec, ActionView::Exec { command: elfexec_command(self.args) })
            } else {
                self.go(Stage::MktempExec, ActionView::Exec { command: mktemp_command() })
            },
            Stage::MktempOutput => if self.output.code.spec_sucess() {
                let tmpfile = self.output.finish().stdout;
                LauncherView { tmpfile, ..self }.go(
                    Stage::CopyExec,
                    ActionView::Exec { command: copy_command(tmpfile) },
                )
            } else {
                self.fail(RpcStartErrorView::LaunchFail(self.output.code.failure()))
            },
            Stage::CopyExit => if self.status == Some(0u32) {
                self.go(
                    Stage::ChmodExec,
                    ActionView::Exec { command: chmod_command(self.tmpfile) },
                )
            } else {
                self.fail(
                    RpcStartErrorView::LaunchFail(
                        match self.status {
                            Some(code) => code,
                            None => 1,
                        },
                    ),
                )
            },
            Stage::ChmodOutput => if self.output.code.spec_sucess() {
                self.go(Stage::TrapExec, ActionView::Exec { command: trap_command(self.tmpfile) })
            } else {
                self.fail(RpcStartErrorView::LaunchFail(self.output.code.failure()))
            },
            Stage::Handshake => self.fail(RpcStartErrorView::HandshakeInformationNotReceived),
            _ => self.refuse(),
        }
    }

    /// The launch after `event`, and what it asks for next. A launch that
    /// has ended stays as it is. Any failure of the session or of the
    /// binary's stream ends the launch.
    pub open spec fn step(self, event: Event) -> (LauncherView, ActionView) {
        if self.ended() {
            (self, ActionView::Fail(RpcStartErrorView::RusshError(unexpected())))
        } else {
            match event {
                Event::Done => self.on_done(),
                Event::Message(msg) => self.on_message(msg),
                Event::Closed => self.on_closed(),
                Event::IoFailed(text) => self.fail(RpcStartErrorView::IoError(text@)),
                Event::SessionFailed(text) => self.fail(RpcStartErrorView::RusshError(text@)),
            }
        }
    }
}

/// The bytes of the ASCII text `text`, followed by `rest`.
fn command(text: &str, rest: &[u8]) -> (r: Vec<u8>)
    requires
        is_ascii(text),
    ensures
        r@ == bytes(text@) + rest@,
{
    let mut r = text_bytes(text);
    extend(&mut r, rest);
    r
}

impl Launcher {
    /// Begins the launch of a server with the arguments `args`. The first
    /// action is the probe for `elfexec`.
    pub fn new(args: Vec<u8>) -> (r: (Launcher, Action))
        ensures
            r.0@ == LauncherView::initial(args@),
            r.1@ == (ActionView::Exec { command: probe_command() }),
    {
        proof {
            reveal_strlit("which elfexec");
        }
        let launcher = Launcher {
            stage: Stage::ProbeExec,
            args,
            output: Output::new(),
            status: None,
            tmpfile: Vec::new(),
            handshake: None,
        };
        (launcher, Action::Exec { command: text_bytes("which elfexec") })
    }

    /// Takes a launch up where the server runs on the current channel and
    /// its handshake is awaited.
    pub fn reading() -> (r: (Launcher, Action))
        ensures
            r.0@ == LauncherView::reading(),
            r.1@ == ActionView::Wait,
    {
        let launcher = Launcher {
            stage: Stage::Handshake,
            args: Vec::new(),
            output: Output::new(),
            status: None,
            tmpfile: Vec::new(),
            handshake: None,
        };
        (launcher, Action::Wait)
    }

    /// Where the launch stands.
    pub fn stage(&self) -> (stage: Stage)
        ensures
            stage == self@.stage,
    {
        self.stage
    }

    /// Whether the launch has ended.
    pub fn ended(&self) -> (r: bool)
        ensures
            r == self@.ended(),
    {
        match self.stage {
            Stage::Done | Stage::Failed => true,
            _ => false,
        }
    }

    /// Moves on to `stage`, asking for `action`.
    fn go(&mut self, stage: Stage, action: Action) -> (r: Action)
        ensures
            (final(self)@, r@) == old(self)@.go(stage, action@),
    {
        self.stage = stage;
        action
    }

    /// Ends the launch with `error`.
    fn fail(&mut self, error: RpcStartError) -> (r: Action)
        ensures
            (final(self)@, r@) == old(self)@.fail(error@),
    {
        self.stage = Stage::Failed;
        Action::Fail(error)
    }

    /// Ends the launch because of an event that answers nothing.
    fn refuse(&mut self) -> (r: Action)
        ensures
            (final(self)@, r@) == old(self)@.refuse(),
    {
        self.fail(RpcStartError::RusshError(String::from_str("unexpected event")))
    }

    /// Takes note that the action asked for has been carried out.
    fn on_done(&mut self) -> (r: Action)
        ensures
            (final(self)@, r@) == old(self)@.on_done(),
    {
        proof {
            reveal_strlit(" ");
        }
        match self.stage {
            Stage::ProbeExec => {
                self.output = Output::new();
                self.go(Stage::ProbeOutput, Action::Wait)
            },
            Stage::FastExec => self.go(Stage::FastUpload, Action::SendBinary),
            Stage::FastUpload => self.go(Stage::FastEof, Action::SendEof),
            Stage::FastEof => self.go(Stage::Handshake, Action::Wait),
            Stage::MktempExec => {
                self.output = Output::new();
                self.go(Stage::MktempOutput, Action::Wait)
            },
            Stage::CopyExec => self.go(Stage::CopyUpload, Action::SendBinary),
            Stage::CopyUpload => self.go(Stage::CopyEof, Action::SendEof),
            Stage::CopyEof => {
                self.status = None;
                self.go(Stage::CopyExit, Action::Wait)
            },
            Stage::ChmodExec => {
                self.output = Output::new();
                self.go(Stage::ChmodOutput, Action::Wait)
            },
            Stage::TrapExec => self.go(Stage::TrapGuard, Action::Guard),
            Stage::TrapGuard => {
                let mut command: Vec<u8> = Vec::new();
                extend(&mut command, self.tmpfile.as_slice());
                extend(&mut command, " ".as_bytes());
                extend(&mut command, self.args.as_slice());
                proof {
                    is_ascii_spec_bytes(" ");
                    assert(" ".spec_bytes() =~= bytes(" "@));
                    assert(command@ =~= target_command(self.tmpfile@, self.args@));
                }
                self.go(Stage::TargetExec, Action::Exec { command })
            },
            Stage::TargetExec => self.go(Stage::TargetEof, Action::SendEof),
            Stage::TargetEof => self.go(Stage::Handshake, Action::Wait),
            Stage::Forward => match self.handshake {
                Some(handshake) => self.go(Stage::Done, Action::Finish { handshake }),
                None => self.refuse(),
            },
            _ => self.refuse(),
        }
    }

    /// Takes note of a message of the server's channel while its
    /// handshake is awaited.
    fn on_handshake_message(&mut self, msg: &ChannelMsg) -> (r: Action)
        ensures
            (final(self)@, r@) == old(self)@.on_handshake_message(*msg),
    {
        match msg {
            ChannelMsg::Data { data } => {
                let data = data.as_slice();
                assert(data@.skip(0) == data@);
                let end: usize = find_from(data, 0, NEWLINE);
                assert(data@.subrange(0, end as int) == first_line(data@));
                match HandshakeInformation::decode(slice_subrange(data, 0, end)) {
                    Ok(handshake) => {
                        self.handshake = Some(handshake);
                        let host = handshake.network_addr.ip().to_string();
                        let port: u32 = handshake.network_addr.port() as u32;
                        self.go(Stage::Forward, Action::Forward { host, port })
                    },
                    Err(e) => self.fail(RpcStartError::ParseHandshakeInformation(e)),
                }
            },
            ChannelMsg::ExitStatus { exit_status } => self.fail(
                RpcStartError::LaunchFail(*exit_status),
            ),
            _ => self.go(Stage::Handshake, Action::Wait),
        }
    }

    /// Takes note of a message of the channel waited on.
    fn on_message(&mut self, msg: &ChannelMsg) -> (r: Action)
        ensures
            (final(self)@, r@) == old(self)@.on_message(*msg),
    {
        match self.stage {
            Stage::ProbeOutput | Stage::MktempOutput | Stage::ChmodOutput => {
                self.output.observe(msg);
                Action::Wait
            },
            Stage::CopyExit => {
                self.status = observe_exit(self.status, msg);
                Action::Wait
            },
            Stage::Handshake => self.on_handshake_message(msg),
            _ => self.refuse(),
        }
    }

    /// Takes note that the channel waited on has no more events.
    fn on_closed(&mut self) -> (r: Action)
        ensures
            (final(self)@, r@) == old(self)@.on_closed(),
    {
        proof {
            reveal_strlit("elfexec ");
            reveal_strlit("mktemp");
            reveal_strlit("cat > ");
            reveal_strlit("chmod +x ");
            reveal_strlit("bash -c \"cat;rm -f ");
            reveal_strlit("\"");
        }
        match self.stage {
            Stage::ProbeOutput => {
                if self.output.code.sucess() {
                    let command = command("elfexec ", self.args.as_slice());
                    self.go(Stage::FastExec, Action::Exec { command })
                } else {
                    let command = text_bytes("mktemp");
                    self.go(Stage::MktempExec, Action::Exec { command })
                }
            },
            Stage::MktempOutput => {
                if self.output.code.sucess() {
                    let mut tmpfile: Vec<u8> = Vec::new();
                    extend(&mut tmpfile, self.output.stdout.as_slice());
                    pop_newline(&mut tmpfile);
                    let command = command("cat > ", tmpfile.as_slice());
                    self.tmpfile = tmpfile;
                    self.go(Stage::CopyExec, Action::Exec { command })
                } else {
                    let code: u32 = match self.output.code.code() {
                        Some(code) => code,
                        None => 1,
                    };
                    self.fail(RpcStartError::LaunchFail(code))
                }
            },
            Stage::CopyExit => {
                match self.status {
                    Some(0) => {
                        let command = command("chmod +x ", self.tmpfile.as_slice());
                        self.go(Stage::ChmodExec, Action::Exec { command })
                    },
                    Some(code) => self.fail(RpcStartError::LaunchFail(code)),
                    None => self.fail(RpcStartError::LaunchFail(1)),
                }
            },
            Stage::ChmodOutput => {
                if self.output.code.sucess() {
                    let mut command = command("bash -c \"cat;rm -f ", self.tmpfile.as_slice());
                    extend(&mut command, "\"".as_bytes());
                    proof {
                        is_ascii_spec_bytes("\"");
                        assert("\"".spec_bytes() =~= bytes("\""@));
                    }
                    self.go(Stage::TrapExec, Action::Exec { command })
                } else {
                    let code: u32 = match self.output.code.code() {
                        Some(code) => code,
                        None => 1,
                    };
                    self.fail(RpcStartError::LaunchFail(code))
                }
            },
            Stage::Handshake => self.fail(RpcStartError::HandshakeInformationNotReceived),
            _ => self.refuse(),
        }
    }

    /// Takes note of what came of the action asked for last, and says what
    /// to do next.
    pub fn step(&mut self, event: Event) -> (action: Action)
        ensures
            (final(self)@, action@) == old(self)@.step(event),
    {
        if self.ended() {
            return Action::Fail(RpcStartError::RusshError(String::from_str("unexpected event")));
        }
        match event {
            Event::Done => self.on_done(),
            Event::Message(msg) => self.on_message(&msg),
            Event::Closed => self.on_closed(),
            Event::IoFailed(text) => self.fail(RpcStartError::IoError(text)),
            Event::SessionFailed(text) => self.fail(RpcStartError::RusshError(text)),
        }
    }
}

} // verus!
