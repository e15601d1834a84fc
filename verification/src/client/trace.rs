//! Whole launches: what the launcher asks for over any course of events.

use crate::client::channel::{ChannelMsg, OutputView};
use crate::client::launch::{
    chmod_command, copy_command, elfexec_command, first_line, mktemp_command, probe_command,
    target_command, trap_command, ActionView, Event, LauncherView, RpcStartErrorView, Stage,
};
use crate::handshake::HandshakeInformation;
use crate::text::ascii;
use vstd::prelude::*;

verus! {

/// The launch after `events`, and the actions asked for on the way.
pub open spec fn run(s: LauncherView, events: Seq<Event>) -> (LauncherView, Seq<ActionView>)
    decreases events.len(),
{
    if events.len() == 0 {
        (s, Seq::empty())
    } else {
        let before = run(s, events.drop_last());
        let next = before.0.step(events.last());
        (next.0, before.1.push(next.1))
    }
}

/// The commands that `actions` request, in their order.
pub open spec fn commands(actions: Seq<ActionView>) -> Seq<Seq<u8>>
    decreases actions.len(),
{
    if actions.len() == 0 {
        Seq::empty()
    } else {
        match actions.last() {
            ActionView::Exec { command } => commands(actions.drop_last()).push(command),
            _ => commands(actions.drop_last()),
        }
    }
}

/// Every action of a launch of a server with the arguments `args`: the
/// probe, and what `events` lead to.
pub open spec fn trace(args: Seq<u8>, events: Seq<Event>) -> Seq<ActionView> {
    seq![ActionView::Exec { command: probe_command() }] + run(
        LauncherView::initial(args),
        events,
    ).1
}

/// The events of a channel that delivers `msgs`.
pub open spec fn messages(msgs: Seq<ChannelMsg>) -> Seq<Event> {
    Seq::new(msgs.len(), |i: int| Event::Message(msgs[i]))
}

/// The events of a one-shot command that is requested, delivers `msgs` and
/// closes its channel.
pub open spec fn one_shot(msgs: Seq<ChannelMsg>) -> Seq<Event> {
    seq![Event::Done] + messages(msgs) + seq![Event::Closed]
}

/// The commands of a launch on a host that has `elfexec`.
pub open spec fn fast_commands(args: Seq<u8>) -> Seq<Seq<u8>> {
    seq![probe_command(), elfexec_command(args)]
}

/// The commands of a launch on a host without `elfexec`, where `mktemp`
/// has named the file `tmpfile`.
pub open spec fn fallback_commands(args: Seq<u8>, tmpfile: Seq<u8>) -> Seq<Seq<u8>> {
    seq![
        probe_command(),
        mktemp_command(),
        copy_command(tmpfile),
        chmod_command(tmpfile),
        trap_command(tmpfile),
        target_command(tmpfile, args),
    ]
}

/// Whether a launch at `stage` requests no further command, whatever happens.
pub open spec fn quiet(stage: Stage) -> bool {
    match stage {
        Stage::FastExec | Stage::FastUpload | Stage::FastEof | Stage::TargetExec
        | Stage::TargetEof | Stage::Handshake | Stage::Forward | Stage::Done | Stage::Failed => true,
        _ => false,
    }
}

/// What the commands requested so far are at each stage of a launch of a
/// server with the arguments `args`.
pub open spec fn in_order(s: LauncherView, args: Seq<u8>, requested: Seq<Seq<u8>>) -> bool {
    let fast = fast_commands(args);
    let fallback = fallback_commands(args, s.tmpfile);
    &&& s.args == args
    &&& match s.stage {
        Stage::ProbeExec | Stage::ProbeOutput => requested == fast.take(1),
        Stage::FastExec | Stage::FastUpload | Stage::FastEof => requested == fast,
        Stage::MktempExec | Stage::MktempOutput => requested == fallback.take(2),
        Stage::CopyExec | Stage::CopyUpload | Stage::CopyEof | Stage::CopyExit => requested
            == fallback.take(3),
        Stage::ChmodExec | Stage::ChmodOutput => requested == fallback.take(4),
        Stage::TrapExec | Stage::TrapGuard => requested == fallback.take(5),
        Stage::TargetExec | Stage::TargetEof => requested == fallback,
        Stage::Handshake | Stage::Forward | Stage::Done => requested == fast || requested
            == fallback,
        Stage::Failed => requested.is_prefix_of(fast) || requested.is_prefix_of(fallback),
    }
}

/// The commands of two runs of actions, one after the other.
pub proof fn lemma_commands_concat(a: Seq<ActionView>, b: Seq<ActionView>)
    ensures
        commands(a + b) == commands(a) + commands(b),
    decreases b.len(),
{
    if b.len() == 0 {
        assert(a + b == a);
        assert(commands(a) + commands(b) == commands(a));
    } else {
        lemma_commands_concat(a, b.drop_last());
        assert((a + b).drop_last() == a + b.drop_last());
        assert((a + b).last() == b.last());
        match b.last() {
            ActionView::Exec { command } => {
                assert(commands(a + b) == (commands(a) + commands(b.drop_last())).push(command));
                assert(commands(a) + commands(b) == (commands(a) + commands(
                    b.drop_last(),
                )).push(command));
            },
            _ => {},
        }
    }
}

/// A launch over two courses of events, one after the other.
pub proof fn lemma_run_concat(s: LauncherView, a: Seq<Event>, b: Seq<Event>)
    ensures
        run(s, a + b).0 == run(run(s, a).0, b).0,
        run(s, a + b).1 == run(s, a).1 + run(run(s, a).0, b).1,
    decreases b.len(),
{
    if b.len() == 0 {
        assert(a + b == a);
        assert(run(s, a).1 + Seq::<ActionView>::empty() == run(s, a).1);
    } else {
        lemma_run_concat(s, a, b.drop_last());
        assert((a + b).drop_last() == a + b.drop_last());
        assert((a + b).last() == b.last());
        let mid = run(s, a).0;
        let before = run(mid, b.drop_last());
        let next = before.0.step(b.last());
        assert(run(s, a + b).1 == (run(s, a).1 + before.1).push(next.1));
        assert(run(s, a).1 + before.1.push(next.1) == (run(s, a).1 + before.1).push(next.1));
    }
}

/// A launch over one event.
pub proof fn lemma_run_one(s: LauncherView, event: Event)
    ensures
        run(s, seq![event]).0 == s.step(event).0,
        run(s, seq![event]).1 == seq![s.step(event).1],
{
    let events = seq![event];
    assert(events.drop_last() == Seq::<Event>::empty());
    assert(run(s, events.drop_last()).1.push(s.step(event).1) == seq![s.step(event).1]);
}

/// While the output of a one-shot command is collected, the launcher waits.
pub proof fn lemma_collect(s: LauncherView, msgs: Seq<ChannelMsg>)
    requires
        s.stage == Stage::ProbeOutput || s.stage == Stage::MktempOutput || s.stage
            == Stage::ChmodOutput,
    ensures
        run(s, messages(msgs)).0 == (LauncherView { output: s.output.observe_all(msgs), ..s }),
        commands(run(s, messages(msgs)).1) == Seq::<Seq<u8>>::empty(),
    decreases msgs.len(),
{
    if msgs.len() == 0 {
        assert(messages(msgs) == Seq::<Event>::empty());
    } else {
        lemma_collect(s, msgs.drop_last());
        assert(messages(msgs).drop_last() == messages(msgs.drop_last()));
        assert(messages(msgs).last() == Event::Message(msgs.last()));
        let before = run(s, messages(msgs.drop_last()));
        let actions = run(s, messages(msgs)).1;
        assert(actions == before.1.push(ActionView::Wait));
        assert(actions.drop_last() == before.1);
    }
}

/// A one-shot command: it is requested, its output is collected, and its
/// channel closes. No command is requested before it has closed.
pub proof fn lemma_one_shot(s: LauncherView, msgs: Seq<ChannelMsg>)
    requires
        s.stage == Stage::ProbeExec || s.stage == Stage::MktempExec || s.stage
            == Stage::ChmodExec,
    ensures
        ({
            let collected = LauncherView {
                output: OutputView::empty().observe_all(msgs),
                stage: s.on_done().0.stage,
                ..s
            };
            &&& run(s, one_shot(msgs)).0 == collected.on_closed().0
            &&& run(s, one_shot(msgs)).1.last() == collected.on_closed().1
            &&& commands(run(s, one_shot(msgs)).1) == commands(seq![collected.on_closed().1])
        }),
{
    let waiting = s.on_done().0;
    let collected = LauncherView { output: OutputView::empty().observe_all(msgs), ..waiting };
    lemma_run_one(s, Event::Done);
    lemma_collect(waiting, msgs);
    lemma_run_one(collected, Event::Closed);
    lemma_run_concat(s, seq![Event::Done], messages(msgs));
    lemma_run_concat(s, seq![Event::Done] + messages(msgs), seq![Event::Closed]);
    let a = run(s, seq![Event::Done]).1;
    let b = run(waiting, messages(msgs)).1;
    let c = seq![collected.on_closed().1];
    assert(run(s, one_shot(msgs)).1 == a + b + c);
    lemma_commands_concat(a + b, c);
    lemma_commands_concat(a, b);
    assert(commands(a) == Seq::<Seq<u8>>::empty()) by {
        assert(a == seq![ActionView::Wait]);
        assert(a.drop_last() == Seq::<ActionView>::empty());
        assert(commands(a.drop_last()) == Seq::<Seq<u8>>::empty());
        assert(a.last() == ActionView::Wait);
    }
    assert(commands(a) + commands(b) + commands(c) == commands(c));
}

/// One step keeps the commands in their order.
pub proof fn lemma_step_in_order(
    s: LauncherView,
    args: Seq<u8>,
    requested: Seq<Seq<u8>>,
    event: Event,
)
    requires
        in_order(s, args, requested),
    ensures
        in_order(s.step(event).0, args, requested + commands(seq![s.step(event).1])),
{
    let next = s.step(event);
    let one = seq![next.1];
    assert(one.drop_last() == Seq::<ActionView>::empty());
    assert(commands(one.drop_last()) == Seq::<Seq<u8>>::empty());
    let fast = fast_commands(args);
    let fallback = fallback_commands(args, s.tmpfile);
    let after = fallback_commands(args, next.0.tmpfile);
    match next.1 {
        ActionView::Exec { command } => {
            assert(commands(one) == seq![command]);
            assert(requested + seq![command] == requested.push(command));
            assert(fast.take(1).push(fast[1]) == fast);
            assert(after.take(1).push(after[1]) == after.take(2));
            assert(after.take(2).push(after[2]) == after.take(3));
            assert(after.take(3).push(after[3]) == after.take(4));
            assert(after.take(4).push(after[4]) == after.take(5));
            assert(after.take(5).push(after[5]) == after);
            assert(fast.take(1) == after.take(1));
            assert(fallback.take(2) == after.take(2));
        },
        _ => {
            assert(commands(one) == Seq::<Seq<u8>>::empty());
            assert(requested + commands(one) == requested);
            assert(fast.is_prefix_of(fast));
            assert(fallback.is_prefix_of(fallback));
            assert(fast.take(1).is_prefix_of(fast));
            assert(fallback.take(2).is_prefix_of(fallback));
            assert(fallback.take(3).is_prefix_of(fallback));
            assert(fallback.take(4).is_prefix_of(fallback));
            assert(fallback.take(5).is_prefix_of(fallback));
        },
    }
}

/// The commands of one requested command.
pub proof fn lemma_commands_one(action: ActionView)
    ensures
        commands(seq![action]) == match action {
            ActionView::Exec { command } => seq![command],
            _ => Seq::<Seq<u8>>::empty(),
        },
{
    let one = seq![action];
    assert(one.drop_last() == Seq::<ActionView>::empty());
    assert(commands(one.drop_last()) == Seq::<Seq<u8>>::empty());
    assert(one.last() == action);
    match action {
        ActionView::Exec { command } => {
            assert(Seq::<Seq<u8>>::empty().push(command) == seq![command]);
        },
        _ => {},
    }
}

/// At every point of a launch the commands requested so far are those that
/// its stage calls for.
pub proof fn lemma_in_order(args: Seq<u8>, events: Seq<Event>)
    ensures
        in_order(run(LauncherView::initial(args), events).0, args, commands(trace(args, events))),
    decreases events.len(),
{
    let start = LauncherView::initial(args);
    let probe = seq![ActionView::Exec { command: probe_command() }];
    lemma_commands_one(probe[0]);
    if events.len() == 0 {
        assert(trace(args, events) == probe);
        assert(fast_commands(args).take(1) == seq![probe_command()]);
    } else {
        lemma_in_order(args, events.drop_last());
        let before = run(start, events.drop_last());
        let next = before.0.step(events.last());
        let requested = commands(trace(args, events.drop_last()));
        lemma_step_in_order(before.0, args, requested, events.last());
        lemma_commands_concat(probe + before.1, seq![next.1]);
        assert(trace(args, events) == probe + before.1 + seq![next.1]);
    }
}

/// A launch that requests no further command requests none, whatever happens.
pub proof fn lemma_quiet(s: LauncherView, events: Seq<Event>)
    requires
        quiet(s.stage),
    ensures
        quiet(run(s, events).0.stage),
        commands(run(s, events).1) == Seq::<Seq<u8>>::empty(),
    decreases events.len(),
{
    if events.len() > 0 {
        lemma_quiet(s, events.drop_last());
        let before = run(s, events.drop_last());
        let next = before.0.step(events.last());
        lemma_commands_one(next.1);
        lemma_commands_concat(before.1, seq![next.1]);
        assert(run(s, events).1 == before.1 + seq![next.1]);
    }
}

/// The commands of a launch are requested in one fixed order, each at most
/// once: at every point they are the first few of `which elfexec`,
/// `elfexec <args>`, or the first few of `which elfexec`, `mktemp`,
/// `cat > <tmp>`, `chmod +x <tmp>`, the command that removes `<tmp>`, and
/// `<tmp> <args>`.
pub proof fn law_command_order(args: Seq<u8>, events: Seq<Event>)
    ensures
        ({
            let tmpfile = run(LauncherView::initial(args), events).0.tmpfile;
            let requested = commands(trace(args, events));
            requested.is_prefix_of(fast_commands(args)) || requested.is_prefix_of(
                fallback_commands(args, tmpfile),
            )
        }),
{
    lemma_in_order(args, events);
    let s = run(LauncherView::initial(args), events).0;
    let fast = fast_commands(args);
    let fallback = fallback_commands(args, s.tmpfile);
    assert(fast.is_prefix_of(fast));
    assert(fallback.is_prefix_of(fallback));
    assert(fast.take(1).is_prefix_of(fast));
    assert(fallback.take(2).is_prefix_of(fallback));
    assert(fallback.take(3).is_prefix_of(fallback));
    assert(fallback.take(4).is_prefix_of(fallback));
    assert(fallback.take(5).is_prefix_of(fallback));
}

/// Where the probe exits with 0, the launch requests the probe and
/// `elfexec <args>` and nothing else, whatever happens afterwards.
pub proof fn law_fast_path(args: Seq<u8>, probe: Seq<ChannelMsg>, rest: Seq<Event>)
    requires
        OutputView::of(probe).code.spec_sucess(),
    ensures
        commands(trace(args, one_shot(probe) + rest)) == fast_commands(args),
{
    let start = LauncherView::initial(args);
    let first = seq![ActionView::Exec { command: probe_command() }];
    lemma_one_shot(start, probe);
    let s = run(start, one_shot(probe)).0;
    let a = run(start, one_shot(probe)).1;
    let b = run(s, rest).1;
    assert(s.stage == Stage::FastExec);
    lemma_commands_one(ActionView::Exec { command: elfexec_command(args) });
    lemma_commands_one(first[0]);
    lemma_quiet(s, rest);
    lemma_run_concat(start, one_shot(probe), rest);
    lemma_commands_concat(first, a + b);
    lemma_commands_concat(a, b);
    assert(trace(args, one_shot(probe) + rest) == first + (a + b));
    assert(seq![probe_command()] + (seq![elfexec_command(args)] + Seq::<Seq<u8>>::empty())
        == fast_commands(args));
}

/// Where the probe does not exit with 0 and `mktemp` does not either, the
/// launch fails with the exit code of `mktemp`, or with 1 where `mktemp`
/// reported none, and requests the probe and `mktemp` and nothing else,
/// whatever happens afterwards.
pub proof fn law_mktemp_failure(
    args: Seq<u8>,
    probe: Seq<ChannelMsg>,
    made: Seq<ChannelMsg>,
    rest: Seq<Event>,
)
    requires
        !OutputView::of(probe).code.spec_sucess(),
        !OutputView::of(made).code.spec_sucess(),
    ensures
        run(LauncherView::initial(args), one_shot(probe) + one_shot(made)).1.last()
            == ActionView::Fail(RpcStartErrorView::LaunchFail(OutputView::of(made).code.failure())),
        commands(trace(args, one_shot(probe) + one_shot(made) + rest)) == seq![
            probe_command(),
            mktemp_command(),
        ],
{
    let start = LauncherView::initial(args);
    let first = seq![ActionView::Exec { command: probe_command() }];
    lemma_one_shot(start, probe);
    let s1 = run(start, one_shot(probe)).0;
    let a = run(start, one_shot(probe)).1;
    assert(s1.stage == Stage::MktempExec);
    lemma_one_shot(s1, made);
    let s2 = run(s1, one_shot(made)).0;
    let b = run(s1, one_shot(made)).1;
    assert(s2.stage == Stage::Failed);
    let c = run(s2, rest).1;
    lemma_quiet(s2, rest);
    lemma_run_concat(start, one_shot(probe), one_shot(made));
    lemma_run_concat(start, one_shot(probe) + one_shot(made), rest);
    lemma_commands_one(ActionView::Exec { command: mktemp_command() });
    lemma_commands_one(
        ActionView::Fail(RpcStartErrorView::LaunchFail(OutputView::of(made).code.failure())),
    );
    lemma_commands_one(first[0]);
    lemma_commands_concat(first, a + b + c);
    lemma_commands_concat(a + b, c);
    lemma_commands_concat(a, b);
    assert(trace(args, one_shot(probe) + one_shot(made) + rest) == first + (a + b + c));
    assert(b.len() > 0);
    assert((a + b).last() == b.last());
    assert(seq![probe_command()] + (seq![mktemp_command()] + Seq::<Seq<u8>>::empty()
        + Seq::<Seq<u8>>::empty()) == seq![probe_command(), mktemp_command()]);
}

/// Where the server's channel reports an exit status while the handshake is
/// awaited, the launch fails with that status. What the channel may print
/// afterwards is not looked at.
pub proof fn law_exit_before_handshake(s: LauncherView, exit_status: u32, rest: Seq<Event>)
    requires
        s.stage == Stage::Handshake,
    ensures
        s.step(Event::Message(ChannelMsg::ExitStatus { exit_status })) == s.fail(
            RpcStartErrorView::LaunchFail(exit_status),
        ),
        run(s.step(Event::Message(ChannelMsg::ExitStatus { exit_status })).0, rest).0
            == s.fail(RpcStartErrorView::LaunchFail(exit_status)).0,
{
    law_ended_is_final(s.fail(RpcStartErrorView::LaunchFail(exit_status)).0, rest);
}

/// A launch that has ended stays as it is and requests nothing more.
pub proof fn law_ended_is_final(s: LauncherView, events: Seq<Event>)
    requires
        s.ended(),
    ensures
        run(s, events).0 == s,
        commands(run(s, events).1) == Seq::<Seq<u8>>::empty(),
    decreases events.len(),
{
    lemma_quiet(s, events);
    if events.len() > 0 {
        law_ended_is_final(s, events.drop_last());
    }
}

/// The launcher itself never writes to the channel of the command that
/// removes the temporary file, nor signals the end of its input, nor waits
/// on it: once the command is requested, the channel goes to the cleanup
/// guard, and the next command gets a channel of its own.
pub proof fn law_trap_channel(s: LauncherView, event: Event)
    requires
        s.stage == Stage::TrapExec || s.stage == Stage::TrapGuard,
    ensures
        ({
            let next = s.step(event);
            ||| s.stage == Stage::TrapExec && next.0.stage == Stage::TrapGuard && next.1
                == ActionView::Guard
            ||| s.stage == Stage::TrapGuard && next.0.stage == Stage::TargetExec && next.1
                == (ActionView::Exec { command: target_command(s.tmpfile, s.args) })
            ||| next.0.stage == Stage::Failed && next.1 is Fail
        }),
{
}

/// The probe decides by its exit code alone: where it exits with 0, the
/// next command is `elfexec <args>`, and where it exits otherwise or reports
/// no exit, the next command is `mktemp`.
pub proof fn law_probe_decides(args: Seq<u8>, probe: Seq<ChannelMsg>)
    ensures
        commands(trace(args, one_shot(probe))) == if OutputView::of(probe).code.spec_sucess() {
            fast_commands(args)
        } else {
            seq![probe_command(), mktemp_command()]
        },
{
    let start = LauncherView::initial(args);
    let first = seq![ActionView::Exec { command: probe_command() }];
    lemma_one_shot(start, probe);
    lemma_commands_one(first[0]);
    lemma_commands_one(ActionView::Exec { command: elfexec_command(args) });
    lemma_commands_one(ActionView::Exec { command: mktemp_command() });
    lemma_commands_concat(first, run(start, one_shot(probe)).1);
    assert(seq![probe_command()] + seq![elfexec_command(args)] == fast_commands(args));
    assert(seq![probe_command()] + seq![mktemp_command()] == seq![
        probe_command(),
        mktemp_command(),
    ]);
}

/// Whether the launcher waits for an event of a channel in `actions`.
pub open spec fn waits(actions: Seq<ActionView>) -> bool {
    exists|i: int| 0 <= i < actions.len() && actions[i] == ActionView::Wait
}

/// Once the handshake line has been read, the launcher never waits on the
/// server's channel again: what the server prints after the line is left to
/// the caller.
pub proof fn law_one_handshake_line(s: LauncherView, events: Seq<Event>)
    requires
        s.stage == Stage::Forward,
    ensures
        !waits(run(s, events).1),
        run(s, events).0.stage == Stage::Forward || run(s, events).0.ended(),
    decreases events.len(),
{
    if events.len() > 0 {
        law_one_handshake_line(s, events.drop_last());
        let before = run(s, events.drop_last());
        let actions = run(s, events).1;
        assert forall|i: int| 0 <= i < actions.len() implies actions[i] != ActionView::Wait by {
            if i < before.1.len() {
                assert(actions[i] == before.1[i]);
            }
        }
    }
}

/// A launch is done only with a whole session: the handshake line has been
/// read from the first bytes that the server printed, the forwarded
/// connection to the address of that handshake has been asked for and has
/// been opened, and the handshake is handed out with the session.
pub proof fn law_session_is_whole(s: LauncherView, event: Event)
    ensures
        s.stage != Stage::Done && s.step(event).0.stage == Stage::Done ==> s.stage
            == Stage::Forward && event == Event::Done && s.handshake is Some && s.step(event).1
            == (ActionView::Finish { handshake: s.handshake->0 }),
        s.stage != Stage::Forward && s.step(event).0.stage == Stage::Forward ==> s.stage
            == Stage::Handshake && ({
            &&& event matches Event::Message(ChannelMsg::Data { data })
            &&& HandshakeInformation::decode_spec(first_line(data@)) matches Ok(handshake)
            &&& s.step(event).0.handshake == Some(handshake)
            &&& s.step(event).1 == (ActionView::Forward {
                host: ascii(handshake.network_addr.ip_spec().text()),
                port: handshake.network_addr.port_spec() as u32,
            })
        }),
{
}

} // verus!
