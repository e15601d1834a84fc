//! What a remote execution channel reports, and what is kept of it.

use crate::decimal::{decimal, push_decimal};
use crate::text::{ascii, extend, from_utf8_lossy, strip_newline, utf8_lossy, NEWLINE};
use vstd::prelude::*;
use vstd::string::{StrSliceExecFns, StringExecFns};

verus! {

/// A message of a remote execution channel.
#[derive(Debug, PartialEq, Eq)]
pub enum ChannelMsg {
    /// Bytes of the remote process's standard output.
    Data { data: Vec<u8> },
    /// Bytes of another stream of the remote process; stream 1 is its
    /// standard error.
    ExtendedData { data: Vec<u8>, ext: u32 },
    /// The remote process has exited with this status.
    ExitStatus { exit_status: u32 },
    /// Any other message.
    Other,
}

/// How a remote command ended, as far as it has been observed.
#[derive(Debug, Clone, Copy, PartialEq, Eq, Structural)]
pub enum ExitStatus {
    /// The command exited with this code.
    Code(u32),
    /// No exit status has been seen yet.
    Processing,
}

/// What a remote command has printed and how it ended.
#[derive(Debug, PartialEq, Eq)]
pub struct Output {
    pub stdout: Vec<u8>,
    pub stderr: Vec<u8>,
    pub code: ExitStatus,
}

/// What an `Output` holds.
pub struct OutputView {
    pub stdout: Seq<u8>,
    pub stderr: Seq<u8>,
    pub code: ExitStatus,
}

/// How much a line of the trace matters.
#[derive(Debug, Clone, Copy, PartialEq, Eq, Structural)]
pub enum TraceLevel {
    Debug,
    Warn,
}

/// A line for the diagnostic trace.
#[derive(Debug, PartialEq, Eq)]
pub struct TraceLine {
    pub level: TraceLevel,
    pub text: String,
}

impl ExitStatus {
    /// Whether the command is known to have exited with code 0.
    pub open spec fn spec_sucess(&self) -> bool {
        *self == ExitStatus::Code(0)
    }

    /// The exit code, if one has been seen.
    pub open spec fn spec_code(&self) -> Option<u32> {
        match *self {
            ExitStatus::Code(c) => Some(c),
            ExitStatus::Processing => None,
        }
    }

    /// The code that a failed command is reported with: its exit code, or
    /// 1 where it has reported none.
    pub open spec fn failure(self) -> u32 {
        match self {
            ExitStatus::Code(c) => c,
            ExitStatus::Processing => 1,
        }
    }

    /// Whether the command is known to have exited with code 0.
    #[verifier::when_used_as_spec(spec_sucess)]
    pub fn sucess(&self) -> (ok: bool)
        ensures
            ok == self.spec_sucess(),
    {
        match self {
            ExitStatus::Code(code) => *code == 0,
            ExitStatus::Processing => false,
        }
    }

    /// The exit code, if one has been seen.
    #[verifier::when_used_as_spec(spec_code)]
    pub fn code(&self) -> (code: Option<u32>)
        ensures
            code == self.spec_code(),
    {
        match self {
            ExitStatus::Code(code) => Some(*code),
            ExitStatus::Processing => None,
        }
    }
}

impl View for Output {
    type V = OutputView;

    open spec fn view(&self) -> OutputView {
        OutputView { stdout: self.stdout@, stderr: self.stderr@, code: self.code }
    }
}

impl OutputView {
    /// Nothing printed, no exit status seen.
    pub open spec fn empty() -> OutputView {
        OutputView { stdout: Seq::empty(), stderr: Seq::empty(), code: ExitStatus::Processing }
    }

    /// The output after one more message: standard output and standard
    /// error grow in the order of arrival, the last exit status counts, and
    /// any other message changes nothing.
    pub open spec fn observe(self, msg: ChannelMsg) -> OutputView {
        match msg {
            ChannelMsg::Data { data } => OutputView { stdout: self.stdout + data@, ..self },
            ChannelMsg::ExtendedData { data, ext } => if ext == 1 {
                OutputView { stderr: self.stderr + data@, ..self }
            } else {
                self
            },
            ChannelMsg::ExitStatus { exit_status } => OutputView {
                code: ExitStatus::Code(exit_status),
                ..self
            },
            ChannelMsg::Other => self,
        }
    }

    /// The output after the messages `msgs`, in their order.
    pub open spec fn observe_all(self, msgs: Seq<ChannelMsg>) -> OutputView
        decreases msgs.len(),
    {
        if msgs.len() == 0 {
            self
        } else {
            self.observe_all(msgs.drop_last()).observe(msgs.last())
        }
    }

    /// The output as it is handed out once the channel has closed: standard
    /// output and standard error each without one line feed at the end.
    pub open spec fn finish(self) -> OutputView {
        OutputView {
            stdout: strip_newline(self.stdout),
            stderr: strip_newline(self.stderr),
            code: self.code,
        }
    }

    /// What a command that sent `msgs` and then closed its channel has put out.
    pub open spec fn of(msgs: Seq<ChannelMsg>) -> OutputView {
        Self::empty().observe_all(msgs).finish()
    }
}

/// Removes one line feed from the end of `bytes`, if there is one.
pub fn pop_newline(bytes: &mut Vec<u8>)
    ensures
        final(bytes)@ == strip_newline(old(bytes)@),
{
    let n: usize = bytes.len();
    if n > 0 && bytes[n - 1] == NEWLINE {
        bytes.pop();
        assert(bytes@ == old(bytes)@.drop_last());
    }
}

impl Output {
    /// The output of a command that has reported nothing yet.
    pub fn new() -> (out: Output)
        ensures
            out@ == OutputView::empty(),
    {
        Output { stdout: Vec::new(), stderr: Vec::new(), code: ExitStatus::Processing }
    }

    /// Takes note of one more message of the command's channel.
    pub fn observe(&mut self, msg: &ChannelMsg)
        ensures
            final(self)@ == old(self)@.observe(*msg),
    {
        match msg {
            ChannelMsg::Data { data } => {
                extend(&mut self.stdout, data.as_slice());
            },
            ChannelMsg::ExtendedData { data, ext } => {
                if *ext == 1 {
                    extend(&mut self.stderr, data.as_slice());
                }
            },
            ChannelMsg::ExitStatus { exit_status } => {
                self.code = ExitStatus::Code(*exit_status);
            },
            ChannelMsg::Other => {},
        }
    }

    /// The output as it is handed out once the channel has closed.
    pub fn finish(self) -> (out: Output)
        ensures
            out@ == self@.finish(),
    {
        let mut out = self;
        pop_newline(&mut out.stdout);
        pop_newline(&mut out.stderr);
        out
    }

    /// What a command that sent `msgs` and then closed its channel has put out.
    pub fn of(msgs: &Vec<ChannelMsg>) -> (out: Output)
        ensures
            out@ == OutputView::of(msgs@),
    {
        let mut out = Output::new();
        let mut i: usize = 0;
        while i < msgs.len()
            invariant
                i <= msgs@.len(),
                out@ == OutputView::empty().observe_all(msgs@.take(i as int)),
            decreases msgs@.len() - i,
        {
            out.observe(&msgs[i]);
            assert(msgs@.take(i + 1).drop_last() == msgs@.take(i as int));
            i += 1;
        }
        assert(msgs@.take(msgs@.len() as int) == msgs@);
        out.finish()
    }
}

/// The exit status that counts after one more message: that of the message,
/// if it brings one.
pub open spec fn exit_seen(status: Option<u32>, msg: ChannelMsg) -> Option<u32> {
    match msg {
        ChannelMsg::ExitStatus { exit_status } => Some(exit_status),
        _ => status,
    }
}

/// The exit status that counts after the messages `msgs`: the last one seen.
pub open spec fn last_exit(msgs: Seq<ChannelMsg>) -> Option<u32>
    decreases msgs.len(),
{
    if msgs.len() == 0 {
        None
    } else {
        exit_seen(last_exit(msgs.drop_last()), msgs.last())
    }
}

/// The exit status that counts after one more message.
pub fn observe_exit(status: Option<u32>, msg: &ChannelMsg) -> (r: Option<u32>)
    ensures
        r == exit_seen(status, *msg),
{
    match msg {
        ChannelMsg::ExitStatus { exit_status } => Some(*exit_status),
        _ => status,
    }
}

/// The last exit status among the messages that a channel sent before it
/// closed.
pub fn wait_until_exit(msgs: &Vec<ChannelMsg>) -> (code: Option<u32>)
    ensures
        code == last_exit(msgs@),
{
    let mut code: Option<u32> = None;
    let mut i: usize = 0;
    while i < msgs.len()
        invariant
            i <= msgs@.len(),
            code == last_exit(msgs@.take(i as int)),
        decreases msgs@.len() - i,
    {
        code = observe_exit(code, &msgs[i]);
        assert(msgs@.take(i + 1).drop_last() == msgs@.take(i as int));
        i += 1;
    }
    assert(msgs@.take(msgs@.len() as int) == msgs@);
    code
}

/// `s` without the line feed that it ends with, if it ends with one.
pub open spec fn drop_last_newline_spec(s: Seq<char>) -> Seq<char> {
    if s.len() > 0 && s.last() == '\n' {
        s.drop_last()
    } else {
        s
    }
}

/// `s` without the line feed that it ends with, if it ends with one.
pub fn drop_last_newline(s: &str) -> (r: &str)
    ensures
        r@ == drop_last_newline_spec(s@),
{
    let n: usize = s.unicode_len();
    if n > 0 && s.get_char(n - 1) == '\n' {
        let r = s.substring_char(0, n - 1);
        assert(s@.subrange(0, n - 1) == s@.drop_last());
        r
    } else {
        s
    }
}

/// The line that a message of the channel of `command` leaves in the trace:
/// what it printed, without one line feed at the end, or the status it
/// exited with. Standard error is traced as a warning. Other messages leave
/// no line.
pub open spec fn trace_spec(command: Seq<char>, msg: ChannelMsg) -> Option<(TraceLevel, Seq<char>)> {
    match msg {
        ChannelMsg::Data { data } => Some(
            (TraceLevel::Debug, command + ":stdout: "@ + drop_last_newline_spec(utf8_lossy(data@))),
        ),
        ChannelMsg::ExtendedData { data, ext } => if ext == 1 {
            Some(
                (
                    TraceLevel::Warn,
                    command + ":stderr: "@ + drop_last_newline_spec(utf8_lossy(data@)),
                ),
            )
        } else {
            None
        },
        ChannelMsg::ExitStatus { exit_status } => Some(
            (
                TraceLevel::Debug,
                command + ":exit: Exit status: "@ + ascii(decimal(exit_status as nat)),
            ),
        ),
        ChannelMsg::Other => None,
    }
}

/// The line that a message of the channel of `command` leaves in the trace.
pub fn trace_msg(command: &str, msg: &ChannelMsg) -> (line: Option<TraceLine>)
    ensures
        match line {
            Some(line) => trace_spec(command@, *msg) == Some((line.level, line.text@)),
            None => trace_spec(command@, *msg) is None,
        },
{
    match msg {
        ChannelMsg::Data { data } => {
            let printed = from_utf8_lossy(data.as_slice());
            let mut text = String::from_str(command);
            text.append(":stdout: ");
            text.append(drop_last_newline(printed.as_str()));
            Some(TraceLine { level: TraceLevel::Debug, text })
        },
        ChannelMsg::ExtendedData { data, ext } => {
            if *ext == 1 {
                let printed = from_utf8_lossy(data.as_slice());
                let mut text = String::from_str(command);
                text.append(":stderr: ");
                text.append(drop_last_newline(printed.as_str()));
                Some(TraceLine { level: TraceLevel::Warn, text })
            } else {
                None
            }
        },
        ChannelMsg::ExitStatus { exit_status } => {
            let mut text = String::from_str(command);
            text.append(":exit: Exit status: ");
            push_decimal(&mut text, *exit_status);
            Some(TraceLine { level: TraceLevel::Debug, text })
        },
        ChannelMsg::Other => None,
    }
}

} // verus!
