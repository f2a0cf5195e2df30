//! The controller's side of the debugging protocol: the run/pause flag, the
//! commands and responses that cross between the two threads, and the facade
//! that drives them.

use crate::link::{
    bound_of, command_channel, commands_reach, initial_state, load_state, new_flag,
    recv_response, response_channel, responses_reach, seconds, send_command, share_flag,
    store_state, swap_state, ControlLink, HookLink, RecvFailure,
};
use crate::sq::{DebugEvent, SqInteger, SqLocalVar, SqStackInfo, SqUnsignedInteger};
use crate::text::{
    decimal_digits, from_chars, pad_zeros, push_decimal, push_decimal_padded, push_signed,
    push_str, signed_digits,
};
use std::sync::Arc;
use vstd::prelude::*;

verus! {

/// How long, in seconds, the controller waits for a response.
pub const RECV_TIMEOUT_SECS: u64 = 10;

/// How many responses the response channel holds: none, so that the hook
/// hands each response over to a controller that is waiting for it.
pub const RESPONSE_CAPACITY: usize = 0;

/// Whether the monitored virtual machine runs freely or is held inside the debug hook.
#[derive(Copy, Clone, PartialEq, PartialOrd, Eq, Ord, Structural, Debug, Hash)]
pub enum ExecState {
    Running,
    Halted,
}

/// A request of the controller to the debug hook.
#[derive(Copy, Clone, PartialEq, Eq, Structural, Debug, Hash)]
pub enum DebugMsg {
    /// Let the machine run on to its next debug event.
    Step,
    /// Report the call stack.
    Backtrace,
    /// Report the local variables of one level, or of all levels.
    Locals(Option<SqUnsignedInteger>),
}

/// A debug event together with the source file it came from, where known.
#[derive(Clone, PartialEq, PartialOrd, Eq, Ord, Debug, Hash)]
pub struct EventWithSrc {
    pub event: DebugEvent,
    pub src: Option<String>,
}

/// A local variable together with the call-stack level that owns it.
#[derive(Clone, PartialEq, PartialOrd, Eq, Debug, Hash)]
pub struct SqLocalVarWithLvl {
    pub var: SqLocalVar,
    pub lvl: SqUnsignedInteger,
}

/// The call stack, innermost frame first.
pub type SqBacktrace = Vec<SqStackInfo>;

/// An answer of the debug hook to the controller.
#[derive(Clone, PartialEq, PartialOrd, Eq, Debug, Hash)]
pub enum DebugResp {
    /// The machine reached a debug event while halted.
    Event(EventWithSrc),
    /// The call stack, innermost frame first.
    Backtrace(SqBacktrace),
    /// The local variables that were asked for; `None` where there are none.
    Locals(Option<Vec<SqLocalVarWithLvl>>),
}

/// The three kinds of response.
#[derive(Copy, Clone, PartialEq, Eq, Structural, Debug, Hash)]
pub enum RespKind {
    Event,
    Backtrace,
    Locals,
}

/// Why a request of the controller failed.
#[derive(Copy, Clone, PartialEq, Eq, Structural, Debug, Hash)]
pub enum DebugError {
    /// A response of the wrong kind arrived.
    ProtocolMismatch { expected: RespKind, got: RespKind },
    /// No response arrived within the bound.
    Timeout,
    /// The hook's end of the response channel no longer exists.
    Disconnected,
    /// The command could not be posted: the hook's end of the command
    /// channel no longer exists.
    NotSent,
    /// The hook found no local variables at the level asked for, or at any
    /// level where none was named.
    NoLocals(Option<SqUnsignedInteger>),
}

impl DebugResp {
    /// The kind of a response.
    pub open spec fn kind_of(self) -> RespKind {
        match self {
            DebugResp::Event(_) => RespKind::Event,
            DebugResp::Backtrace(_) => RespKind::Backtrace,
            DebugResp::Locals(_) => RespKind::Locals,
        }
    }

    /// The kind of this response.
    pub fn kind(&self) -> (k: RespKind)
        ensures
            k == self.kind_of(),
    {
        match self {
            DebugResp::Event(_) => RespKind::Event,
            DebugResp::Backtrace(_) => RespKind::Backtrace,
            DebugResp::Locals(_) => RespKind::Locals,
        }
    }
}

/// The error for a request that ended without a response.
pub open spec fn failure_of(failure: RecvFailure) -> DebugError {
    match failure {
        RecvFailure::Timeout => DebugError::Timeout,
        RecvFailure::Disconnected => DebugError::Disconnected,
        RecvFailure::NotSent => DebugError::NotSent,
    }
}

/// The error for a request that ended without a response.
pub fn failure(why: RecvFailure) -> (e: DebugError)
    ensures
        e == failure_of(why),
{
    match why {
        RecvFailure::Timeout => DebugError::Timeout,
        RecvFailure::Disconnected => DebugError::Disconnected,
        RecvFailure::NotSent => DebugError::NotSent,
    }
}

/// The command that asks the hook to let the machine go to its next event.
pub fn step_command() -> (m: DebugMsg)
    ensures
        m == DebugMsg::Step,
{
    DebugMsg::Step
}

/// The command that asks the hook for the call stack.
pub fn backtrace_command() -> (m: DebugMsg)
    ensures
        m == DebugMsg::Backtrace,
{
    DebugMsg::Backtrace
}

/// The command that asks the hook for the locals of `lvl`, or of all levels.
pub fn locals_command(lvl: Option<SqUnsignedInteger>) -> (m: DebugMsg)
    ensures
        m == DebugMsg::Locals(lvl),
{
    DebugMsg::Locals(lvl)
}

/// Whether a request waits for a response: only if its command was posted.
pub fn request_waits(posted: bool) -> (wait: bool)
    ensures
        wait == posted,
{
    posted
}

/// What a request for an event returns, given what the wait for a response
/// produced: the event received, and an error for anything else.
pub open spec fn event_of(got: Result<DebugResp, RecvFailure>) -> Result<EventWithSrc, DebugError> {
    match got {
        Ok(DebugResp::Event(e)) => Ok(e),
        Ok(other) => Err(
            DebugError::ProtocolMismatch { expected: RespKind::Event, got: other.kind_of() },
        ),
        Err(failure) => Err(failure_of(failure)),
    }
}

/// What a request for the call stack returns, given what the wait produced.
pub open spec fn backtrace_of(got: Result<DebugResp, RecvFailure>) -> Result<
    SqBacktrace,
    DebugError,
> {
    match got {
        Ok(DebugResp::Backtrace(bt)) => Ok(bt),
        Ok(other) => Err(
            DebugError::ProtocolMismatch { expected: RespKind::Backtrace, got: other.kind_of() },
        ),
        Err(failure) => Err(failure_of(failure)),
    }
}

/// What a request for the locals of `lvl` returns, given what the wait
/// produced. An answer without locals is an error that names the level.
pub open spec fn locals_of(
    lvl: Option<SqUnsignedInteger>,
    got: Result<DebugResp, RecvFailure>,
) -> Result<Vec<SqLocalVarWithLvl>, DebugError> {
    match got {
        Ok(DebugResp::Locals(Some(locals))) => Ok(locals),
        Ok(DebugResp::Locals(None)) => Err(DebugError::NoLocals(lvl)),
        Ok(other) => Err(
            DebugError::ProtocolMismatch { expected: RespKind::Locals, got: other.kind_of() },
        ),
        Err(failure) => Err(failure_of(failure)),
    }
}

/// Whether `halt` waits for an event: only if the machine was running and the
/// caller did not decline.
pub open spec fn halt_waits(previous: ExecState, no_recv: bool) -> bool {
    previous == ExecState::Running && !no_recv
}

/// What `halt` returns where it waited, given what the wait produced.
pub open spec fn halted_of(got: Result<DebugResp, RecvFailure>) -> Result<
    Option<EventWithSrc>,
    DebugError,
> {
    match event_of(got) {
        Ok(e) => Ok(Some(e)),
        Err(e) => Err(e),
    }
}

/// What `halt` returns, given the state that it replaced and what the wait
/// produced where it waited.
pub open spec fn halt_outcome(
    previous: ExecState,
    no_recv: bool,
    got: Result<DebugResp, RecvFailure>,
) -> Result<Option<EventWithSrc>, DebugError> {
    if halt_waits(previous, no_recv) {
        halted_of(got)
    } else {
        Ok(None)
    }
}

/// Whether `halt` waits for an event, given the state that it replaced.
pub fn halt_waits_for(previous: ExecState, no_recv: bool) -> (wait: bool)
    ensures
        wait == halt_waits(previous, no_recv),
{
    previous == ExecState::Running && !no_recv
}

/// Turns what a wait produced into the answer to a request for an event.
pub fn expect_event(got: Result<DebugResp, RecvFailure>) -> (r: Result<EventWithSrc, DebugError>)
    ensures
        r == event_of(got),
{
    match got {
        Ok(DebugResp::Event(e)) => Ok(e),
        Ok(other) => Err(
            DebugError::ProtocolMismatch { expected: RespKind::Event, got: other.kind() },
        ),
        Err(e) => Err(failure(e)),
    }
}

/// Turns what a wait produced into the answer to a request for the call stack.
pub fn expect_backtrace(got: Result<DebugResp, RecvFailure>) -> (r: Result<SqBacktrace, DebugError>)
    ensures
        r == backtrace_of(got),
{
    match got {
        Ok(DebugResp::Backtrace(bt)) => Ok(bt),
        Ok(other) => Err(
            DebugError::ProtocolMismatch { expected: RespKind::Backtrace, got: other.kind() },
        ),
        Err(e) => Err(failure(e)),
    }
}

/// Turns what a wait produced into the answer to a request for the locals of `lvl`.
pub fn expect_locals(lvl: Option<SqUnsignedInteger>, got: Result<DebugResp, RecvFailure>) -> (r:
    Result<Vec<SqLocalVarWithLvl>, DebugError>)
    ensures
        r == locals_of(lvl, got),
{
    match got {
        Ok(DebugResp::Locals(Some(locals))) => Ok(locals),
        Ok(DebugResp::Locals(None)) => Err(DebugError::NoLocals(lvl)),
        Ok(other) => Err(
            DebugError::ProtocolMismatch { expected: RespKind::Locals, got: other.kind() },
        ),
        Err(e) => Err(failure(e)),
    }
}

/// Turns what a wait produced into the answer of a `halt` that waited.
pub fn expect_halted(got: Result<DebugResp, RecvFailure>) -> (r: Result<
    Option<EventWithSrc>,
    DebugError,
>)
    ensures
        r == halted_of(got),
{
    match expect_event(got) {
        Ok(e) => Ok(Some(e)),
        Err(e) => Err(e),
    }
}

/// The controller's handle on a monitored virtual machine.
pub struct SqDebugger {
    link: ControlLink,
}

impl SqDebugger {
    /// The flag of this handle.
    pub closed spec fn flag(&self) -> Arc<atomic::Atomic<ExecState>> {
        self.link.exec_state
    }

    /// The sending end of this handle's command channel.
    pub closed spec fn commands(&self) -> std::sync::mpsc::Sender<DebugMsg> {
        self.link.commands
    }

    /// Whether `hook` holds the other ends of this handle's link: the same
    /// flag, the receiving half of the command channel and the sending half
    /// of the response channel.
    pub open spec fn linked(&self, hook: &HookLink) -> bool {
        &&& hook.exec_state == self.flag()
        &&& commands_reach(self.commands(), hook.commands)
        &&& responses_reach(hook.responses, self.responses())
    }

    /// Creates the flag, initially `Halted`, and the two channels. Returns the
    /// controller's handle and the ends that the debug hook works with: both
    /// hold the one flag, commands pass from the handle to the hook without a
    /// bound, and responses pass from the hook to the handle through a
    /// channel that holds back none.
    pub fn attach() -> (ends: (SqDebugger, HookLink))
        ensures
            ends.0.linked(&ends.1),
            initial_state(*ends.0.flag()) == ExecState::Halted,
            bound_of(ends.1.responses) == RESPONSE_CAPACITY,
    {
        let flag = Arc::new(new_flag(ExecState::Halted));
        let hook_flag = share_flag(&flag);
        let (command_tx, command_rx) = command_channel();
        let (response_tx, response_rx) = response_channel(RESPONSE_CAPACITY);
        (
            SqDebugger {
                link: ControlLink { exec_state: flag, commands: command_tx, responses: response_rx },
            },
            HookLink { exec_state: hook_flag, commands: command_rx, responses: response_tx },
        )
    }

    /// Lets the machine run: stores `Running`. The hook notices at its next poll.
    pub fn resume(&self) {
        store_state(&self.link.exec_state, ExecState::Running);
    }

    /// The receiving end of this handle's response channel.
    pub closed spec fn responses(&self) -> std::sync::mpsc::Receiver<DebugResp> {
        self.link.responses
    }

    /// The receiving end of the response channel, for a caller that waits
    /// for an event without asking for one.
    pub fn receiver(&self) -> (r: &std::sync::mpsc::Receiver<DebugResp>)
        ensures
            *r == self.responses(),
    {
        &self.link.responses
    }

    /// Stores `Halted`. If the machine was running and `no_recv` is unset,
    /// waits for the event at which the hook stops it and returns that event.
    pub fn halt(&self, no_recv: bool) -> (r: Result<Option<EventWithSrc>, DebugError>)
        ensures
            no_recv ==> r == Ok::<Option<EventWithSrc>, DebugError>(None),
            exists|previous: ExecState, got: Result<DebugResp, RecvFailure>|
                r == #[trigger] halt_outcome(previous, no_recv, got),
    {
        let previous = swap_state(&self.link.exec_state, ExecState::Halted);
        if halt_waits_for(previous, no_recv) {
            let got = recv_response(&self.link.responses, seconds(RECV_TIMEOUT_SECS));
            let r = expect_halted(got);
            assert(r == halt_outcome(previous, no_recv, got));
            r
        } else {
            assert(halt_outcome(previous, no_recv, Err(RecvFailure::Timeout)) == Ok::<
                Option<EventWithSrc>,
                DebugError,
            >(None));
            Ok(None)
        }
    }

    /// Posts a command and waits for the response to it. Where the command
    /// cannot be posted, nothing is waited for.
    fn request(&self, msg: DebugMsg) -> (got: Result<DebugResp, RecvFailure>) {
        let posted = send_command(&self.link.commands, msg);
        if request_waits(posted) {
            recv_response(&self.link.responses, seconds(RECV_TIMEOUT_SECS))
        } else {
            Err(RecvFailure::NotSent)
        }
    }

    /// Posts `Step` and waits for the event of the machine's next stop.
    pub fn step(&self) -> (r: Result<EventWithSrc, DebugError>)
        ensures
            exists|got: Result<DebugResp, RecvFailure>| r == #[trigger] event_of(got),
    {
        let got = self.request(step_command());
        expect_event(got)
    }

    /// Asks for the local variables of `lvl`, or of all levels, and waits for them.
    pub fn get_locals(&self, lvl: Option<SqUnsignedInteger>) -> (r: Result<
        Vec<SqLocalVarWithLvl>,
        DebugError,
    >)
        ensures
            exists|got: Result<DebugResp, RecvFailure>| r == #[trigger] locals_of(lvl, got),
    {
        let got = self.request(locals_command(lvl));
        expect_locals(lvl, got)
    }

    /// Asks for the call stack and waits for it. The first frame is the
    /// current function, the last the root.
    pub fn get_backtrace(&self) -> (r: Result<SqBacktrace, DebugError>)
        ensures
            exists|got: Result<DebugResp, RecvFailure>| r == #[trigger] backtrace_of(got),
    {
        let got = self.request(backtrace_command());
        expect_backtrace(got)
    }

    /// Reads the flag, without waiting.
    pub fn exec_state(&self) -> ExecState {
        load_state(&self.link.exec_state)
    }
}

/// The text for an optional name: the name, or `??` where there is none.
pub open spec fn name_text(name: Option<String>) -> Seq<char> {
    match name {
        Some(s) => s@,
        None => "??"@,
    }
}

/// The text for an optional line: its numeral, or `??` where there is none.
pub open spec fn line_text(line: Option<SqInteger>) -> Seq<char> {
    match line {
        Some(l) => signed_digits(l as int),
        None => "??"@,
    }
}

/// The text that shows an event: its kind, the source file, and the line or
/// the function with its line.
pub open spec fn event_text(e: EventWithSrc) -> Seq<char> {
    match e.event {
        DebugEvent::Line(line) => "line: "@ + name_text(e.src) + ":"@ + signed_digits(line as int),
        DebugEvent::FnCall(name, line) => "call: "@ + name_text(e.src) + ":"@ + name@ + " ("@
            + line_text(line) + ")"@,
        DebugEvent::FnRet(name, line) => "ret:  "@ + name_text(e.src) + ":"@ + name@ + " ("@
            + line_text(line) + ")"@,
    }
}

/// Appends the text for an optional name.
fn push_name(out: &mut Vec<char>, name: &Option<String>)
    ensures
        final(out)@ == old(out)@ + name_text(*name),
{
    match name {
        Some(s) => push_str(out, s.as_str()),
        None => push_str(out, "??"),
    }
}

/// Appends the text for an optional line.
fn push_line(out: &mut Vec<char>, line: Option<SqInteger>)
    ensures
        final(out)@ == old(out)@ + line_text(line),
{
    match line {
        Some(l) => push_signed(out, l),
        None => push_str(out, "??"),
    }
}

impl EventWithSrc {
    /// The text that shows this event.
    pub fn to_string(&self) -> (r: String)
        ensures
            r@ == event_text(*self),
    {
        let mut out: Vec<char> = Vec::new();
        match &self.event {
            DebugEvent::Line(line) => {
                push_str(&mut out, "line: ");
                push_name(&mut out, &self.src);
                push_str(&mut out, ":");
                push_signed(&mut out, *line);
            },
            DebugEvent::FnCall(name, line) => {
                push_str(&mut out, "call: ");
                push_name(&mut out, &self.src);
                push_str(&mut out, ":");
                push_str(&mut out, name.as_str());
                push_str(&mut out, " (");
                push_line(&mut out, *line);
                push_str(&mut out, ")");
            },
            DebugEvent::FnRet(name, line) => {
                push_str(&mut out, "ret:  ");
                push_name(&mut out, &self.src);
                push_str(&mut out, ":");
                push_str(&mut out, name.as_str());
                push_str(&mut out, " (");
                push_line(&mut out, *line);
                push_str(&mut out, ")");
            },
        }
        from_chars(&out)
    }
}

/// The text that shows a stack frame: source file, function and line.
pub open spec fn frame_text(frame: SqStackInfo) -> Seq<char> {
    name_text(frame.src_file) + ":"@ + name_text(frame.funcname) + " ("@ + line_text(frame.line)
        + ")"@
}

/// The rows of a backtrace: for each frame a line break, its level in three
/// digits, and the frame.
pub open spec fn backtrace_rows(frames: Seq<SqStackInfo>) -> Seq<char>
    decreases frames.len(),
{
    if frames.len() == 0 {
        Seq::empty()
    } else {
        backtrace_rows(frames.drop_last()) + (seq!['\n'] + pad_zeros(
            decimal_digits(frames.len()),
            3,
        ) + ": "@ + frame_text(frames.last()))
    }
}

/// The text that shows a backtrace: a heading and one row for each frame,
/// the innermost first, levels counted from one.
pub open spec fn backtrace_text(frames: Seq<SqStackInfo>) -> Seq<char> {
    "Backtrace:"@ + backtrace_rows(frames)
}

/// The text that shows a backtrace.
pub fn print_backtrace(bt: &SqBacktrace) -> (r: String)
    ensures
        r@ == backtrace_text(bt@),
{
    let mut out: Vec<char> = Vec::new();
    push_str(&mut out, "Backtrace:");
    let mut i: usize = 0;
    assert(backtrace_rows(bt@.take(0)) == Seq::<char>::empty());
    while i < bt.len()
        invariant
            i <= bt.len(),
            out@ == "Backtrace:"@ + backtrace_rows(bt@.take(i as int)),
        decreases bt.len() - i,
    {
        let ghost before = out@;
        let frame = &bt[i];
        out.push('\n');
        push_decimal_padded(&mut out, (i as u64) + 1, 3);
        push_str(&mut out, ": ");
        push_name(&mut out, &frame.src_file);
        push_str(&mut out, ":");
        push_name(&mut out, &frame.funcname);
        push_str(&mut out, " (");
        push_line(&mut out, frame.line);
        push_str(&mut out, ")");
        proof {
            let next = bt@.take(i + 1);
            assert(next.drop_last() == bt@.take(i as int));
            assert(next.last() == *frame);
            assert(next.len() == i + 1);
            assert(out@ == before + (seq!['\n'] + pad_zeros(decimal_digits((i + 1) as nat), 3)
                + ": "@ + frame_text(*frame)));
        }
        i += 1;
    }
    assert(bt@.take(bt.len() as int) == bt@);
    from_chars(&out)
}

/// The name of a kind of response.
pub open spec fn kind_text(kind: RespKind) -> Seq<char> {
    match kind {
        RespKind::Event => "event"@,
        RespKind::Backtrace => "backtrace"@,
        RespKind::Locals => "locals"@,
    }
}

/// The message for an error.
pub open spec fn error_text(e: DebugError) -> Seq<char> {
    match e {
        DebugError::ProtocolMismatch { expected, got } => kind_text(got) + ": expected "@
            + kind_text(expected),
        DebugError::Timeout => "timed out waiting on channel"@,
        DebugError::Disconnected => "channel is empty and sending half is closed"@,
        DebugError::NotSent => "sending on a closed channel"@,
        DebugError::NoLocals(Some(level)) => "no locals at level "@ + decimal_digits(level as nat),
        DebugError::NoLocals(None) => "no locals at all levels"@,
    }
}

/// Appends the name of a kind of response.
fn push_kind(out: &mut Vec<char>, kind: RespKind)
    ensures
        final(out)@ == old(out)@ + kind_text(kind),
{
    match kind {
        RespKind::Event => push_str(out, "event"),
        RespKind::Backtrace => push_str(out, "backtrace"),
        RespKind::Locals => push_str(out, "locals"),
    }
}

impl DebugError {
    /// The message for this error.
    pub fn to_string(&self) -> (r: String)
        ensures
            r@ == error_text(*self),
    {
        let mut out: Vec<char> = Vec::new();
        match *self {
            DebugError::ProtocolMismatch { expected, got } => {
                push_kind(&mut out, got);
                push_str(&mut out, ": expected ");
                push_kind(&mut out, expected);
            },
            DebugError::Timeout => push_str(&mut out, "timed out waiting on channel"),
            DebugError::Disconnected => push_str(
                &mut out,
                "channel is empty and sending half is closed",
            ),
            DebugError::NotSent => push_str(&mut out, "sending on a closed channel"),
            DebugError::NoLocals(Some(level)) => {
                push_str(&mut out, "no locals at level ");
                push_decimal(&mut out, level as u64);
            },
            DebugError::NoLocals(None) => push_str(&mut out, "no locals at all levels"),
        }
        from_chars(&out)
    }
}

} // verus!
