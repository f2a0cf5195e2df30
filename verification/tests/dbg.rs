use sq_common::dbg::{
    backtrace_command, expect_backtrace, expect_event, expect_halted, expect_locals, failure,
    halt_waits_for, locals_command, print_backtrace, request_waits, step_command, DebugError,
    DebugMsg, DebugResp, EventWithSrc, ExecState, RespKind, SqDebugger, SqLocalVarWithLvl,
};
use sq_common::link::RecvFailure;
use sq_common::sq::{DebugEvent, DynSqVar, SqLocalVar, SqStackInfo};
use std::sync::mpsc::{RecvTimeoutError, SendError};

fn s(text: &str) -> String {
    text.to_string()
}

fn line_event(line: i32) -> EventWithSrc {
    EventWithSrc { event: DebugEvent::Line(line), src: Some(s("a.nut")) }
}

fn frame(name: &str, line: i32) -> SqStackInfo {
    SqStackInfo { funcname: Some(s(name)), src_file: Some(s("a.nut")), line: Some(line) }
}

fn a_local() -> SqLocalVarWithLvl {
    SqLocalVarWithLvl { var: SqLocalVar { name: s("x"), val: DynSqVar::Integer(1) }, lvl: 1 }
}

#[test]
fn event_is_taken_from_an_event_response() {
    assert_eq!(expect_event(Ok(DebugResp::Event(line_event(3)))), Ok(line_event(3)));
}

#[test]
fn other_responses_are_a_protocol_mismatch_for_an_event() {
    assert_eq!(
        expect_event(Ok(DebugResp::Backtrace(vec![]))),
        Err(DebugError::ProtocolMismatch { expected: RespKind::Event, got: RespKind::Backtrace })
    );
    assert_eq!(
        expect_event(Ok(DebugResp::Locals(None))),
        Err(DebugError::ProtocolMismatch { expected: RespKind::Event, got: RespKind::Locals })
    );
}

#[test]
fn a_wait_without_response_is_a_timeout_or_a_disconnect() {
    assert_eq!(expect_event(Err(RecvFailure::Timeout)), Err(DebugError::Timeout));
    assert_eq!(expect_event(Err(RecvFailure::Disconnected)), Err(DebugError::Disconnected));
    assert_eq!(expect_backtrace(Err(RecvFailure::Timeout)), Err(DebugError::Timeout));
    assert_eq!(expect_locals(None, Err(RecvFailure::Disconnected)), Err(DebugError::Disconnected));
    assert_eq!(expect_halted(Err(RecvFailure::Timeout)), Err(DebugError::Timeout));
}

#[test]
fn backtrace_is_taken_from_a_backtrace_response() {
    let bt = vec![frame("inner", 3), frame("outer", 9)];
    assert_eq!(expect_backtrace(Ok(DebugResp::Backtrace(bt.clone()))), Ok(bt));
    assert_eq!(
        expect_backtrace(Ok(DebugResp::Event(line_event(1)))),
        Err(DebugError::ProtocolMismatch { expected: RespKind::Backtrace, got: RespKind::Event })
    );
}

#[test]
fn locals_are_taken_from_a_locals_response() {
    let locals = vec![a_local()];
    assert_eq!(expect_locals(Some(1), Ok(DebugResp::Locals(Some(locals.clone())))), Ok(locals));
}

#[test]
fn an_answer_without_locals_is_an_error_that_names_the_level() {
    assert_eq!(
        expect_locals(Some(4), Ok(DebugResp::Locals(None))),
        Err(DebugError::NoLocals(Some(4)))
    );
    assert_eq!(expect_locals(None, Ok(DebugResp::Locals(None))), Err(DebugError::NoLocals(None)));
    assert_eq!(
        expect_locals(None, Ok(DebugResp::Backtrace(vec![]))),
        Err(DebugError::ProtocolMismatch { expected: RespKind::Locals, got: RespKind::Backtrace })
    );
}

#[test]
fn halt_that_waited_returns_the_event() {
    assert_eq!(expect_halted(Ok(DebugResp::Event(line_event(2)))), Ok(Some(line_event(2))));
    assert_eq!(
        expect_halted(Ok(DebugResp::Locals(None))),
        Err(DebugError::ProtocolMismatch { expected: RespKind::Event, got: RespKind::Locals })
    );
}

#[test]
fn kinds_of_responses() {
    assert_eq!(DebugResp::Event(line_event(1)).kind(), RespKind::Event);
    assert_eq!(DebugResp::Backtrace(vec![]).kind(), RespKind::Backtrace);
    assert_eq!(DebugResp::Locals(None).kind(), RespKind::Locals);
}

#[test]
fn event_texts() {
    assert_eq!(line_event(12).to_string(), "line: a.nut:12");
    let call = EventWithSrc { event: DebugEvent::FnCall(s("f"), Some(3)), src: None };
    assert_eq!(call.to_string(), "call: ??:f (3)");
    let ret = EventWithSrc { event: DebugEvent::FnRet(s("g"), None), src: Some(s("b.nut")) };
    assert_eq!(ret.to_string(), "ret:  b.nut:g (??)");
    let negative = EventWithSrc { event: DebugEvent::Line(-1), src: None };
    assert_eq!(negative.to_string(), "line: ??:-1");
}

#[test]
fn error_texts() {
    assert_eq!(DebugError::Timeout.to_string(), "timed out waiting on channel");
    assert_eq!(
        DebugError::Disconnected.to_string(),
        "channel is empty and sending half is closed"
    );
    assert_eq!(DebugError::NotSent.to_string(), "sending on a closed channel");
    assert_eq!(DebugError::NoLocals(Some(3)).to_string(), "no locals at level 3");
    assert_eq!(DebugError::NoLocals(None).to_string(), "no locals at all levels");
    let mismatch = DebugError::ProtocolMismatch { expected: RespKind::Event, got: RespKind::Locals };
    assert_eq!(mismatch.to_string(), "locals: expected event");
}

#[test]
fn backtrace_text_counts_levels_from_one() {
    let bt = vec![
        frame("inner", 3),
        SqStackInfo { funcname: None, src_file: None, line: None },
    ];
    assert_eq!(print_backtrace(&bt), "Backtrace:\n001: a.nut:inner (3)\n002: ??:?? (??)");
    assert_eq!(print_backtrace(&vec![]), "Backtrace:");
}

#[test]
fn attach_starts_halted() {
    let (dbg, _hook) = SqDebugger::attach();
    assert_eq!(dbg.exec_state(), ExecState::Halted);
}

#[test]
fn resume_and_halt_flip_the_flag_for_both_sides() {
    let (dbg, hook) = SqDebugger::attach();
    dbg.resume();
    assert_eq!(dbg.exec_state(), ExecState::Running);
    assert_eq!(hook.exec_state.load(atomic::Ordering::Relaxed), ExecState::Running);
    assert_eq!(dbg.halt(true), Ok(None));
    assert_eq!(dbg.exec_state(), ExecState::Halted);
    assert_eq!(hook.exec_state.load(atomic::Ordering::Relaxed), ExecState::Halted);
}

#[test]
fn halt_of_a_halted_machine_does_not_wait() {
    let (dbg, _hook) = SqDebugger::attach();
    assert_eq!(dbg.halt(false), Ok(None));
}

#[test]
fn requests_fail_at_once_when_the_hook_is_gone() {
    let (dbg, hook) = SqDebugger::attach();
    drop(hook);
    assert_eq!(dbg.step(), Err(DebugError::NotSent));
    assert_eq!(dbg.get_backtrace(), Err(DebugError::NotSent));
    assert_eq!(dbg.get_locals(Some(1)), Err(DebugError::NotSent));
    dbg.resume();
    assert_eq!(dbg.halt(false), Err(DebugError::Disconnected));
}

#[test]
fn a_silent_hook_makes_the_request_time_out_and_still_gets_the_command() {
    let (dbg, hook) = SqDebugger::attach();
    assert_eq!(dbg.get_locals(Some(2)), Err(DebugError::Timeout));
    assert_eq!(hook.commands.try_recv(), Ok(DebugMsg::Locals(Some(2))));
    assert!(hook.commands.try_recv().is_err());
    assert!(dbg.receiver().try_recv().is_err());
}

#[test]
fn response_channel_holds_back_nothing() {
    let (dbg, hook) = SqDebugger::attach();
    let sent = hook.responses.try_send(DebugResp::Event(line_event(1)));
    assert!(matches!(sent, Err(std::sync::mpsc::TrySendError::Full(_))));
    assert!(dbg.receiver().try_recv().is_err());
}

#[test]
fn both_ends_hold_one_flag() {
    let (dbg, hook) = SqDebugger::attach();
    assert_eq!(hook.exec_state.load(atomic::Ordering::Relaxed), ExecState::Halted);
    hook.exec_state.store(ExecState::Running, atomic::Ordering::Relaxed);
    assert_eq!(dbg.exec_state(), ExecState::Running);
    assert_eq!(dbg.halt(true), Ok(None));
    assert_eq!(hook.exec_state.load(atomic::Ordering::Relaxed), ExecState::Halted);
}

#[test]
fn the_hook_ends_belong_to_the_channels_of_the_handle() {
    let (dbg, hook) = SqDebugger::attach();
    dbg.resume();
    assert_eq!(dbg.halt(true), Ok(None));
    assert!(hook.commands.try_recv().is_err());
    drop(dbg);
    assert_eq!(hook.commands.try_recv(), Err(std::sync::mpsc::TryRecvError::Disconnected));
    let sent = hook.responses.try_send(DebugResp::Backtrace(vec![frame("f", 1)]));
    assert!(matches!(sent, Err(std::sync::mpsc::TrySendError::Disconnected(_))));
}

#[test]
fn halt_waits_only_for_a_running_machine_and_a_caller_that_accepts() {
    assert!(halt_waits_for(ExecState::Running, false));
    assert!(!halt_waits_for(ExecState::Running, true));
    assert!(!halt_waits_for(ExecState::Halted, false));
    assert!(!halt_waits_for(ExecState::Halted, true));
}

#[test]
fn a_request_waits_only_after_its_command_was_posted() {
    assert!(request_waits(true));
    assert!(!request_waits(false));
    assert_eq!(expect_event(Err(RecvFailure::NotSent)), Err(DebugError::NotSent));
    assert_eq!(expect_backtrace(Err(RecvFailure::NotSent)), Err(DebugError::NotSent));
    assert_eq!(expect_locals(Some(1), Err(RecvFailure::NotSent)), Err(DebugError::NotSent));
}

#[test]
fn commands_are_what_the_requests_post() {
    assert_eq!(step_command(), DebugMsg::Step);
    assert_eq!(backtrace_command(), DebugMsg::Backtrace);
    assert_eq!(locals_command(Some(3)), DebugMsg::Locals(Some(3)));
    assert_eq!(locals_command(None), DebugMsg::Locals(None));
    let (dbg, hook) = SqDebugger::attach();
    dbg.resume();
    drop(hook.responses);
    assert_eq!(dbg.step(), Err(DebugError::Disconnected));
    assert_eq!(dbg.get_backtrace(), Err(DebugError::Disconnected));
    assert_eq!(hook.commands.try_recv(), Ok(DebugMsg::Step));
    assert_eq!(hook.commands.try_recv(), Ok(DebugMsg::Backtrace));
    assert!(hook.commands.try_recv().is_err());
}

#[test]
fn failures_are_shown_as_the_channels_show_them() {
    assert_eq!(failure(RecvFailure::Timeout).to_string(), RecvTimeoutError::Timeout.to_string());
    assert_eq!(
        failure(RecvFailure::Disconnected).to_string(),
        RecvTimeoutError::Disconnected.to_string()
    );
    assert_eq!(failure(RecvFailure::NotSent).to_string(), SendError(()).to_string());
}

#[test]
fn halt_of_a_running_machine_waits_for_the_hook() {
    let (dbg, hook) = SqDebugger::attach();
    dbg.resume();
    drop(hook);
    assert_eq!(dbg.halt(false), Err(DebugError::Disconnected));
    assert_eq!(dbg.exec_state(), ExecState::Halted);
    assert_eq!(dbg.halt(false), Ok(None));
}
