use sshrpc::client::channel::ChannelMsg;
use sshrpc::client::launch::{Action, Event, Launcher, RpcStartError, Stage};
use sshrpc::decimal::IntErrorKind;
use sshrpc::net::{IpAddr, Ipv4Addr, SocketAddr};
use sshrpc::{HandshakeInformation, NetworkType, ParseHandshakeError, Protcol};

fn data(bytes: &[u8]) -> Event {
    Event::Message(ChannelMsg::Data { data: bytes.to_vec() })
}

fn stderr(bytes: &[u8]) -> Event {
    Event::Message(ChannelMsg::ExtendedData { data: bytes.to_vec(), ext: 1 })
}

fn exit(exit_status: u32) -> Event {
    Event::Message(ChannelMsg::ExitStatus { exit_status })
}

fn exec(command: &[u8]) -> Action {
    Action::Exec { command: command.to_vec() }
}

/// Runs a launch over `events` and gives every action asked for.
fn run(args: &[u8], events: Vec<Event>) -> (Launcher, Vec<Action>) {
    let (mut launcher, first) = Launcher::new(args.to_vec());
    let mut actions = vec![first];
    for event in events {
        actions.push(launcher.step(event));
    }
    (launcher, actions)
}

fn commands(actions: &[Action]) -> Vec<Vec<u8>> {
    let mut commands = Vec::new();
    for action in actions {
        if let Action::Exec { command } = action {
            commands.push(command.clone());
        }
    }
    commands
}

fn handshake() -> HandshakeInformation {
    HandshakeInformation {
        core_protcol_version: 1,
        app_protocol_version: 3,
        network_type: NetworkType::Tcp,
        network_addr: SocketAddr::new(IpAddr::V4(Ipv4Addr::new(127, 0, 0, 1)), 40123),
        protcol: Protcol::TarpcBincode,
    }
}

fn fallback_events() -> Vec<Event> {
    vec![
        Event::Done,
        stderr(b"which: no elfexec\n"),
        exit(1),
        Event::Closed,
        Event::Done,
        data(b"/tmp/tmp.Xy1\n"),
        exit(0),
        Event::Closed,
        Event::Done,
        Event::Done,
        Event::Done,
        exit(0),
        Event::Closed,
        Event::Done,
        exit(0),
        Event::Closed,
        Event::Done,
        Event::Done,
        Event::Done,
        Event::Done,
    ]
}

#[test]
fn with_elfexec_only_the_probe_and_the_launch_are_requested() {
    let (launcher, actions) = run(
        b"--serve now",
        vec![
            Event::Done,
            data(b"/usr/bin/elfexec\n"),
            exit(0),
            Event::Closed,
            Event::Done,
            Event::Done,
            Event::Done,
            stderr(b"starting\n"),
            data(b"1|3|tcp|127.0.0.1:40123|tarpc<bincode>\nready\n"),
            Event::Done,
        ],
    );
    assert_eq!(
        actions,
        vec![
            exec(b"which elfexec"),
            Action::Wait,
            Action::Wait,
            Action::Wait,
            exec(b"elfexec --serve now"),
            Action::SendBinary,
            Action::SendEof,
            Action::Wait,
            Action::Wait,
            Action::Forward { host: "127.0.0.1".to_string(), port: 40123 },
            Action::Finish { handshake: handshake() },
        ]
    );
    assert_eq!(commands(&actions), vec![b"which elfexec".to_vec(), b"elfexec --serve now".to_vec()]);
    assert_eq!(launcher.stage(), Stage::Done);
    assert!(launcher.ended());
}

#[test]
fn the_probe_goes_by_the_exit_code_alone() {
    let (launcher, actions) = run(b"", vec![Event::Done, exit(0), Event::Closed]);
    assert_eq!(actions.last(), Some(&exec(b"elfexec ")));
    assert_eq!(launcher.stage(), Stage::FastExec);
    let (launcher, actions) =
        run(b"", vec![Event::Done, data(b"/usr/bin/elfexec\n"), Event::Closed]);
    assert_eq!(actions.last(), Some(&exec(b"mktemp")));
    assert_eq!(launcher.stage(), Stage::MktempExec);
    let (_, actions) = run(b"", vec![Event::Done, data(b"/usr/bin/elfexec\n"), exit(2), Event::Closed]);
    assert_eq!(actions.last(), Some(&exec(b"mktemp")));
}

#[test]
fn without_elfexec_the_binary_goes_through_a_temporary_file() {
    let mut events = fallback_events();
    events.push(data(b"1|3|tcp|127.0.0.1:40123|tarpc<bincode>\n"));
    events.push(Event::Done);
    let (launcher, actions) = run(b"-v", events);
    assert_eq!(
        actions,
        vec![
            exec(b"which elfexec"),
            Action::Wait,
            Action::Wait,
            Action::Wait,
            exec(b"mktemp"),
            Action::Wait,
            Action::Wait,
            Action::Wait,
            exec(b"cat > /tmp/tmp.Xy1"),
            Action::SendBinary,
            Action::SendEof,
            Action::Wait,
            Action::Wait,
            exec(b"chmod +x /tmp/tmp.Xy1"),
            Action::Wait,
            Action::Wait,
            exec(b"bash -c \"cat;rm -f /tmp/tmp.Xy1\""),
            Action::Guard,
            exec(b"/tmp/tmp.Xy1 -v"),
            Action::SendEof,
            Action::Wait,
            Action::Forward { host: "127.0.0.1".to_string(), port: 40123 },
            Action::Finish { handshake: handshake() },
        ]
    );
    assert_eq!(launcher.stage(), Stage::Done);
}

#[test]
fn a_failing_mktemp_ends_the_launch() {
    let (mut launcher, actions) = run(
        b"-v",
        vec![
            Event::Done,
            exit(1),
            Event::Closed,
            Event::Done,
            stderr(b"mktemp: failed\n"),
            exit(73),
            Event::Closed,
        ],
    );
    assert_eq!(actions.last(), Some(&Action::Fail(RpcStartError::LaunchFail(73))));
    assert_eq!(commands(&actions), vec![b"which elfexec".to_vec(), b"mktemp".to_vec()]);
    assert_eq!(launcher.stage(), Stage::Failed);
    for event in vec![Event::Done, data(b"x"), Event::Closed, exit(0), Event::Done] {
        assert!(matches!(launcher.step(event), Action::Fail(_)));
        assert_eq!(launcher.stage(), Stage::Failed);
    }
}

#[test]
fn a_command_without_an_exit_code_fails_with_one() {
    let (_, actions) =
        run(b"", vec![Event::Done, Event::Closed, Event::Done, data(b"/tmp/x\n"), Event::Closed]);
    assert_eq!(actions.last(), Some(&Action::Fail(RpcStartError::LaunchFail(1))));
    let mut events = fallback_events();
    events.truncate(11);
    events.push(Event::Closed);
    let (_, actions) = run(b"", events);
    assert_eq!(actions.last(), Some(&Action::Fail(RpcStartError::LaunchFail(1))));
    assert_eq!(
        commands(&actions),
        vec![b"which elfexec".to_vec(), b"mktemp".to_vec(), b"cat > /tmp/tmp.Xy1".to_vec()]
    );
}

#[test]
fn a_failing_copy_or_chmod_ends_the_launch() {
    let mut events = fallback_events();
    events.truncate(11);
    events.push(exit(0));
    events.push(exit(5));
    events.push(Event::Closed);
    let (_, actions) = run(b"", events);
    assert_eq!(actions.last(), Some(&Action::Fail(RpcStartError::LaunchFail(5))));
    let mut events = fallback_events();
    events.truncate(14);
    events.push(exit(126));
    events.push(Event::Closed);
    let (_, actions) = run(b"", events);
    assert_eq!(actions.last(), Some(&Action::Fail(RpcStartError::LaunchFail(126))));
    assert_eq!(commands(&actions).len(), 4);
    assert_eq!(commands(&actions)[3], b"chmod +x /tmp/tmp.Xy1".to_vec());
}

#[test]
fn an_exit_before_the_handshake_is_a_failed_launch() {
    let mut events = fallback_events();
    events.push(exit(0));
    let (launcher, actions) = run(b"", events);
    assert_eq!(actions.last(), Some(&Action::Fail(RpcStartError::LaunchFail(0))));
    assert_eq!(launcher.stage(), Stage::Failed);
    let (mut launcher, first) = Launcher::reading();
    assert_eq!(first, Action::Wait);
    assert_eq!(launcher.step(exit(255)), Action::Fail(RpcStartError::LaunchFail(255)));
    assert_eq!(launcher.stage(), Stage::Failed);
}

#[test]
fn a_channel_that_closes_before_the_handshake() {
    let (mut launcher, _) = Launcher::reading();
    assert_eq!(launcher.step(stderr(b"oops")), Action::Wait);
    assert_eq!(launcher.step(Event::Message(ChannelMsg::Other)), Action::Wait);
    assert_eq!(
        launcher.step(Event::Closed),
        Action::Fail(RpcStartError::HandshakeInformationNotReceived)
    );
}

#[test]
fn the_first_output_has_to_be_the_handshake_line() {
    let (mut launcher, _) = Launcher::reading();
    assert_eq!(
        launcher.step(data(b"hello\n1|3|tcp|127.0.0.1:40123|tarpc<bincode>\n")),
        Action::Fail(RpcStartError::ParseHandshakeInformation(ParseHandshakeError::InsufficientFields))
    );
    let (mut launcher, _) = Launcher::reading();
    assert_eq!(
        launcher.step(data(b"one|3|tcp|127.0.0.1:40123|tarpc<bincode>")),
        Action::Fail(RpcStartError::ParseHandshakeInformation(ParseHandshakeError::ParseIntError(
            IntErrorKind::InvalidDigit
        )))
    );
    let (mut launcher, _) = Launcher::reading();
    assert_eq!(
        launcher.step(data(b"")),
        Action::Fail(RpcStartError::ParseHandshakeInformation(ParseHandshakeError::InsufficientFields))
    );
    let (mut launcher, _) = Launcher::reading();
    assert_eq!(
        launcher.step(data(b"1|3|tcp|127.0.0.1:40123|tarpc<bincode>")),
        Action::Forward { host: "127.0.0.1".to_string(), port: 40123 }
    );
    assert_eq!(launcher.step(Event::Done), Action::Finish { handshake: handshake() });
    let (mut launcher, _) = Launcher::reading();
    assert_eq!(
        launcher.step(data(b"1|3|tcp|[::1]:8|grpc\n\xff")),
        Action::Forward { host: "::1".to_string(), port: 8 }
    );
}

#[test]
fn a_failure_of_the_session_ends_the_launch_at_once() {
    let (_, actions) = run(b"", vec![Event::Done, Event::SessionFailed("disconnected".to_string())]);
    assert_eq!(
        actions.last(),
        Some(&Action::Fail(RpcStartError::RusshError("disconnected".to_string())))
    );
    let (launcher, actions) = run(
        b"",
        vec![
            Event::Done,
            exit(0),
            Event::Closed,
            Event::Done,
            Event::IoFailed("broken pipe".to_string()),
            Event::Done,
        ],
    );
    assert_eq!(actions[5], Action::Fail(RpcStartError::IoError("broken pipe".to_string())));
    assert!(matches!(actions[6], Action::Fail(_)));
    assert_eq!(launcher.stage(), Stage::Failed);
    assert_eq!(commands(&actions).len(), 2);
}

#[test]
fn an_event_that_answers_nothing_ends_the_launch() {
    let (launcher, actions) = run(b"", vec![Event::Closed]);
    assert_eq!(
        actions.last(),
        Some(&Action::Fail(RpcStartError::RusshError("unexpected event".to_string())))
    );
    assert_eq!(launcher.stage(), Stage::Failed);
    let (launcher, actions) = run(b"", vec![Event::Done, Event::Done]);
    assert_eq!(
        actions.last(),
        Some(&Action::Fail(RpcStartError::RusshError("unexpected event".to_string())))
    );
    assert_eq!(launcher.stage(), Stage::Failed);
}

#[test]
fn the_trap_channel_goes_to_the_guard_untouched() {
    let (_, actions) = run(b"", fallback_events());
    let at = actions
        .iter()
        .position(|a| *a == exec(b"bash -c \"cat;rm -f /tmp/tmp.Xy1\""))
        .unwrap();
    assert_eq!(actions[at + 1], Action::Guard);
    assert_eq!(actions[at + 2], exec(b"/tmp/tmp.Xy1 "));
    assert_eq!(actions.iter().filter(|a| **a == Action::Guard).count(), 1);
}

#[test]
fn the_handshake_is_read_from_bytes_as_from_their_text() {
    let inputs: Vec<&[u8]> = vec![
        b"1|3|tcp|127.0.0.1:40123|tarpc<bincode>\n",
        b"1|3|tcp|127.0.0.1:40123|tarpc<bincode>",
        b"1|3|tcp|127.0.0.1:40123|tarpc<bincode>\r\n",
        b"1|3|tcp|127.0.0.1:40123|grpc|\xff\xfe\nrest",
        b"1|3|tcp|127.0.0.1:40123|gr\xffpc\n",
        b"1|3|tcp|127.0.0.\xc3\xa9:1|grpc\n",
        b"1|\xe2\x82|tcp|127.0.0.1:1|grpc\n",
        b"\xff1|3|tcp|127.0.0.1:1|grpc\n",
        b"1|3|tcp|127.0.0.1:1\xe2\n|grpc\n",
        b"\n1|3|tcp|127.0.0.1:1|grpc\n",
        b"",
        b"\xe2\x82",
        b"1|3|unix|[::1]:9|netrpc|\xf0\x9f",
    ];
    for input in inputs {
        let text = String::from_utf8_lossy(input);
        let line = text.split('\n').next().unwrap();
        let (mut launcher, _) = Launcher::reading();
        let action = launcher.step(data(input));
        match HandshakeInformation::from_str(line) {
            Ok(handshake) => {
                assert_eq!(
                    action,
                    Action::Forward {
                        host: handshake.network_addr.ip().to_string(),
                        port: handshake.network_addr.port() as u32
                    }
                );
                assert_eq!(launcher.step(Event::Done), Action::Finish { handshake });
            }
            Err(e) => assert_eq!(action, Action::Fail(RpcStartError::ParseHandshakeInformation(e))),
        }
    }
}
