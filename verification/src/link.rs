//! The shared flag and the two channels that connect the controller with the
//! debug hook. Everything here is a thin call into `std::sync::mpsc` or the
//! `atomic` crate; none of it is verified. What a cell or a channel was made
//! with has a name; what passes through them depends on the other thread and
//! has none.

use crate::dbg::{DebugMsg, DebugResp, ExecState};
use std::sync::mpsc::{Receiver, RecvTimeoutError, Sender, SyncSender};
use std::sync::Arc;
use std::time::Duration;
use vstd::prelude::*;

verus! {

/// `std::sync::mpsc::Sender`, the sending half of an unbounded channel.
#[verifier::external_type_specification]
#[verifier::external_body]
#[verifier::reject_recursive_types(T)]
pub struct ExSender<T>(Sender<T>);

/// `std::sync::mpsc::SyncSender`, the sending half of a bounded channel.
#[verifier::external_type_specification]
#[verifier::external_body]
#[verifier::reject_recursive_types(T)]
pub struct ExSyncSender<T>(SyncSender<T>);

/// `std::sync::mpsc::Receiver`, the receiving half of a channel.
#[verifier::external_type_specification]
#[verifier::external_body]
#[verifier::reject_recursive_types(T)]
pub struct ExReceiver<T>(Receiver<T>);

/// `atomic::Atomic`, a cell that threads read and write without a lock.
#[verifier::external_type_specification]
#[verifier::external_body]
#[verifier::reject_recursive_types(T)]
pub struct ExAtomic<T>(atomic::Atomic<T>);

/// Why a request ended without a response.
#[derive(Copy, Clone, PartialEq, Eq, Structural, Debug, Hash)]
pub enum RecvFailure {
    /// Nothing arrived within the bound.
    Timeout,
    /// The sending side no longer exists.
    Disconnected,
    /// The command could not be posted, so that nothing was waited for.
    NotSent,
}

/// The hook's ends of the link: what the debug hook needs to take part in the
/// protocol.
pub struct HookLink {
    pub exec_state: Arc<atomic::Atomic<ExecState>>,
    pub commands: Receiver<DebugMsg>,
    pub responses: SyncSender<DebugResp>,
}

/// The controller's ends of the link.
pub struct ControlLink {
    pub exec_state: Arc<atomic::Atomic<ExecState>>,
    pub commands: Sender<DebugMsg>,
    pub responses: Receiver<DebugResp>,
}

/// The state that a cell was made with. What the cell holds later is up to
/// the threads that store into it and has no name.
pub uninterp spec fn initial_state(flag: atomic::Atomic<ExecState>) -> ExecState;

/// Whether what is sent on `tx` arrives at `rx`: the two are the halves of
/// one command channel.
pub uninterp spec fn commands_reach(tx: Sender<DebugMsg>, rx: Receiver<DebugMsg>) -> bool;

/// Whether what is sent on `tx` arrives at `rx`: the two are the halves of
/// one response channel.
pub uninterp spec fn responses_reach(tx: SyncSender<DebugResp>, rx: Receiver<DebugResp>) -> bool;

/// How many responses the channel of `tx` holds back for a receiver that is
/// not waiting: the bound that the channel was made with.
pub uninterp spec fn bound_of(tx: SyncSender<DebugResp>) -> usize;

/// Calls `Atomic::new`. Trusted: the cell is made with the state given.
#[verifier::external_body]
pub(crate) fn new_flag(initial: ExecState) -> (flag: atomic::Atomic<ExecState>)
    ensures
        initial_state(flag) == initial,
{
    atomic::Atomic::new(initial)
}

/// Calls `Arc::clone`. Trusted: the new handle points to the same cell.
#[verifier::external_body]
pub(crate) fn share_flag(flag: &Arc<atomic::Atomic<ExecState>>) -> (shared: Arc<
    atomic::Atomic<ExecState>,
>)
    ensures
        shared == *flag,
{
    Arc::clone(flag)
}

/// Calls `mpsc::channel`. Trusted: the two values are the halves of one
/// channel, so that what is sent on the first arrives at the second.
#[verifier::external_body]
pub(crate) fn command_channel() -> (ends: (Sender<DebugMsg>, Receiver<DebugMsg>))
    ensures
        commands_reach(ends.0, ends.1),
{
    std::sync::mpsc::channel()
}

/// Calls `mpsc::sync_channel` with the given bound. Trusted: the two values
/// are the halves of one channel, and the channel has that bound.
#[verifier::external_body]
pub(crate) fn response_channel(capacity: usize) -> (ends: (
    SyncSender<DebugResp>,
    Receiver<DebugResp>,
))
    ensures
        responses_reach(ends.0, ends.1),
        bound_of(ends.0) == capacity,
{
    std::sync::mpsc::sync_channel(capacity)
}

/// Calls `Atomic::load` with relaxed ordering. Trusted; the value read is
/// whatever a thread stored last, so nothing is claimed of it.
#[verifier::external_body]
pub(crate) fn load_state(flag: &Arc<atomic::Atomic<ExecState>>) -> (state: ExecState) {
    flag.load(atomic::Ordering::Relaxed)
}

/// Calls `Atomic::store` with relaxed ordering. Trusted; it returns nothing.
#[verifier::external_body]
pub(crate) fn store_state(flag: &Arc<atomic::Atomic<ExecState>>, state: ExecState) {
    flag.store(state, atomic::Ordering::Relaxed)
}

/// Calls `Atomic::swap` with relaxed ordering. Trusted; the value replaced is
/// whatever a thread stored last, so nothing is claimed of it.
#[verifier::external_body]
pub(crate) fn swap_state(flag: &Arc<atomic::Atomic<ExecState>>, state: ExecState) -> (previous:
    ExecState) {
    flag.swap(state, atomic::Ordering::Relaxed)
}

/// Calls `Sender::send`. Trusted: it reports `false` exactly when `send`
/// returns its error, which is when the receiving half is gone.
#[verifier::external_body]
pub(crate) fn send_command(commands: &Sender<DebugMsg>, msg: DebugMsg) -> (sent: bool) {
    commands.send(msg).is_ok()
}

/// Calls `Duration::from_secs`. Trusted; nothing is claimed of the span,
/// which is opaque here.
#[verifier::external_body]
pub(crate) fn seconds(secs: u64) -> (span: Duration) {
    Duration::from_secs(secs)
}

/// Calls `Receiver::recv_timeout` with the given bound. Trusted; what
/// arrives is up to the other thread, so nothing is claimed of it.
#[verifier::external_body]
pub(crate) fn recv_response(responses: &Receiver<DebugResp>, bound: Duration) -> (got: Result<
    DebugResp,
    RecvFailure,
>) {
    match responses.recv_timeout(bound) {
        Ok(resp) => Ok(resp),
        Err(RecvTimeoutError::Timeout) => Err(RecvFailure::Timeout),
        Err(RecvTimeoutError::Disconnected) => Err(RecvFailure::Disconnected),
    }
}

} // verus!
