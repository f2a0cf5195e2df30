//! The two threads together, as a model.
//!
//! The controller and the hook share a flag, a queue of commands and a
//! hand-over point for responses that holds nothing: a response passes only
//! while the hook holds it out and the controller takes it. This module
//! describes every move that either side, or the machine, can make, with the
//! hook's moves decided by `hook::next`, and proves what holds of every run.
//! The controller of the model lives; what the hook does once the controller
//! is gone is stated in `hook`.

use crate::dbg::{DebugMsg, EventWithSrc, ExecState};
use crate::hook::{next, ActionModel, HookInput, RespModel, StateModel};
use vstd::prelude::*;

verus! {

/// The state of a session.
pub struct Session {
    /// The run/pause flag.
    pub flag: ExecState,
    /// The commands posted and not yet found by the hook, oldest first.
    pub queue: Seq<DebugMsg>,
    /// Where the hook stands; `Released` while the machine runs outside it.
    pub hook: StateModel,
    /// What the hook is about to do. A pending `Send` is a response held
    /// out: the hook waits until the controller takes it.
    pub pending: ActionModel,
    /// How many invocations of the hook have begun.
    pub invocation: nat,
    /// The responses that the controller has taken, each with the number of
    /// the invocation that handed it over.
    pub taken: Seq<(nat, RespModel)>,
}

/// A move of one of the three parties.
pub enum Move {
    /// The controller stores `Running`.
    Resume,
    /// The controller stores `Halted`.
    Halt,
    /// The controller posts a command.
    Post(DebugMsg),
    /// The controller takes the response that the hook holds out.
    Take,
    /// The machine raises a debug event and enters the hook.
    Raise(EventWithSrc),
    /// The hook reads the flag.
    ReadFlag,
    /// The hook looks for a command.
    Poll,
    /// The machine answers a query of the hook.
    Answer(HookInput),
    /// The hook wakes from its sleep.
    Wake,
}

/// A session at attach time: halted, nothing posted, the machine outside the hook.
pub open spec fn attached() -> Session {
    Session {
        flag: ExecState::Halted,
        queue: Seq::empty(),
        hook: StateModel::Released,
        pending: ActionModel::Return,
        invocation: 0,
        taken: Seq::empty(),
    }
}

/// Whether a move can be made. The controller's stores and posts never
/// wait; it can take a response only while one is held out; the machine
/// enters the hook only from outside; the hook does what is pending.
pub open spec fn enabled(s: Session, m: Move) -> bool {
    match m {
        Move::Resume => true,
        Move::Halt => true,
        Move::Post(_) => true,
        Move::Take => s.pending is Send,
        Move::Raise(_) => s.hook is Released,
        Move::ReadFlag => s.pending is ReadState,
        Move::Poll => s.pending is PollCommand,
        Move::Answer(input) => (s.pending is QueryFrame && input is Frame) || (s.pending
            is QueryLocal && input is Local),
        Move::Wake => s.pending is Sleep,
    }
}

/// The session with the hook moved on by an input.
pub open spec fn hook_takes(s: Session, input: HookInput) -> Session {
    Session { hook: next(s.hook, input).0, pending: next(s.hook, input).1, ..s }
}

/// The session after a move.
pub open spec fn after(s: Session, m: Move) -> Session {
    match m {
        Move::Resume => Session { flag: ExecState::Running, ..s },
        Move::Halt => Session { flag: ExecState::Halted, ..s },
        Move::Post(msg) => Session { queue: s.queue.push(msg), ..s },
        Move::Take => Session {
            taken: s.taken.push((s.invocation, s.pending->Send_0)),
            ..hook_takes(s, HookInput::Sent)
        },
        Move::Raise(event) => Session {
            hook: StateModel::Entered { event },
            pending: ActionModel::ReadState,
            invocation: s.invocation + 1,
            ..s
        },
        Move::ReadFlag => hook_takes(s, HookInput::State(s.flag)),
        Move::Poll => if s.queue.len() > 0 {
            Session {
                queue: s.queue.drop_first(),
                ..hook_takes(s, HookInput::Command(Some(s.queue.first())))
            }
        } else {
            hook_takes(s, HookInput::Command(None))
        },
        Move::Answer(input) => hook_takes(s, input),
        Move::Wake => hook_takes(s, HookInput::Woke),
    }
}

/// Whether what is pending is what the hook's state calls for.
pub open spec fn coherent(s: Session) -> bool {
    match s.hook {
        StateModel::Entered { .. } => s.pending is ReadState,
        StateModel::Announcing => s.pending matches ActionModel::Send(r) && r is Event,
        StateModel::Polling => s.pending is PollCommand,
        StateModel::Backtrace { level, .. } => s.pending == ActionModel::QueryFrame(level),
        StateModel::Locals { level, slot, .. } => s.pending == ActionModel::QueryLocal(level, slot),
        StateModel::Replying => s.pending matches ActionModel::Send(r) && !(r is Event),
        StateModel::Checking => s.pending is ReadState,
        StateModel::Sleeping => s.pending is Sleep,
        StateModel::Released => s.pending is Return,
    }
}

/// The session after a run of moves.
pub open spec fn run(s: Session, moves: Seq<Move>) -> Session
    decreases moves.len(),
{
    if moves.len() == 0 {
        s
    } else {
        after(run(s, moves.drop_last()), moves.last())
    }
}

/// Whether every move of a run can be made when its turn comes.
pub open spec fn possible(s: Session, moves: Seq<Move>) -> bool
    decreases moves.len(),
{
    if moves.len() == 0 {
        true
    } else {
        possible(s, moves.drop_last()) && enabled(run(s, moves.drop_last()), moves.last())
    }
}

/// Every move keeps the session coherent, and the hook always gets the
/// input that its pending action answers with.
pub proof fn lemma_move_keeps_coherent(s: Session, m: Move)
    requires
        coherent(s),
        enabled(s, m),
    ensures
        coherent(after(s, m)),
{
}

/// Every run from a coherent session ends in a coherent session.
pub proof fn lemma_run_keeps_coherent(s: Session, moves: Seq<Move>)
    requires
        coherent(s),
        possible(s, moves),
    ensures
        coherent(run(s, moves)),
    decreases moves.len(),
{
    if moves.len() > 0 {
        lemma_run_keeps_coherent(s, moves.drop_last());
        lemma_move_keeps_coherent(run(s, moves.drop_last()), moves.last());
    }
}

/// Whether no `Step` waits in the queue.
pub open spec fn no_step_posted(s: Session) -> bool {
    forall|i: int| 0 <= i < s.queue.len() ==> s.queue[i] != DebugMsg::Step
}

/// Whether a run holds neither a `Resume` nor the post of a `Step`.
pub open spec fn keeps_halted(moves: Seq<Move>) -> bool {
    forall|i: int|
        0 <= i < moves.len() ==> !(#[trigger] moves[i] is Resume) && moves[i] != Move::Post(
            DebugMsg::Step,
        )
}

/// The machine is held inside the hook until the hook finds a `Step` in the
/// queue or reads `Running` at the check that follows a poll: a move lets
/// the machine go exactly if it is one of these two.
pub proof fn lemma_held_while_halted(s: Session, m: Move)
    requires
        coherent(s),
        enabled(s, m),
        !(s.hook is Released),
    ensures
        after(s, m).hook is Released <==> (m is Poll && s.queue.len() > 0 && s.queue.first()
            == DebugMsg::Step) || (m is ReadFlag && s.hook is Checking && s.flag
            == ExecState::Running),
{
}

/// While the flag reads `Halted` and no `Step` is posted, no move lets the
/// machine go.
pub proof fn lemma_halted_hook_holds(s: Session, m: Move)
    requires
        coherent(s),
        enabled(s, m),
        !(s.hook is Released),
        s.flag == ExecState::Halted,
        no_step_posted(s),
        !(m is Resume),
        m != Move::Post(DebugMsg::Step),
    ensures
        !(after(s, m).hook is Released),
        after(s, m).flag == ExecState::Halted,
        no_step_posted(after(s, m)),
        after(s, m).invocation == s.invocation,
{
    let t = after(s, m);
    assert forall|i: int| 0 <= i < t.queue.len() implies t.queue[i] != DebugMsg::Step by {
        if m is Poll && s.queue.len() > 0 {
            assert(t.queue[i] == s.queue[i + 1]);
        } else if m is Post {
            if i < s.queue.len() {
                assert(t.queue[i] == s.queue[i]);
            }
        } else {
            assert(t.queue[i] == s.queue[i]);
        }
    }
}

/// A halted machine stays halted. Once the hook holds the machine with the
/// flag at `Halted` and no `Step` posted, it holds it through every run in
/// which the controller neither resumes nor posts a `Step`, whatever else
/// the controller asks for and however the moves interleave.
pub proof fn lemma_halted_run_holds(s: Session, moves: Seq<Move>)
    requires
        coherent(s),
        !(s.hook is Released),
        s.flag == ExecState::Halted,
        no_step_posted(s),
        possible(s, moves),
        keeps_halted(moves),
    ensures
        coherent(run(s, moves)),
        !(run(s, moves).hook is Released),
        run(s, moves).flag == ExecState::Halted,
        no_step_posted(run(s, moves)),
        run(s, moves).invocation == s.invocation,
    decreases moves.len(),
{
    if moves.len() > 0 {
        let earlier = moves.drop_last();
        assert forall|i: int| 0 <= i < earlier.len() implies !(#[trigger] earlier[i] is Resume)
            && earlier[i] != Move::Post(DebugMsg::Step) by {
            assert(earlier[i] == moves[i]);
        }
        lemma_halted_run_holds(s, earlier);
        let before = run(s, earlier);
        let m = moves.last();
        assert(m == moves[moves.len() - 1]);
        lemma_move_keeps_coherent(before, m);
        lemma_halted_hook_holds(before, m);
    }
}

/// A session at attach time is coherent and has no announcement ahead of
/// it, so the laws of this module hold of every run from there.
pub proof fn lemma_attached_is_settled()
    ensures
        coherent(attached()),
        settled(attached(), attached().invocation),
        attached().flag == ExecState::Halted,
        no_step_posted(attached()),
{
}

/// Whether every event that the controller took after the first `base`
/// responses was handed over by an invocation later than number `n`.
pub open spec fn events_after(s: Session, n: nat, base: nat) -> bool {
    &&& base <= s.taken.len()
    &&& forall|k: int|
        base <= k < s.taken.len() && (#[trigger] s.taken[k]).1 is Event ==> s.taken[k].0 > n
}

/// Whether invocation `n` has its announcement behind it, or is over.
pub open spec fn settled(s: Session, n: nat) -> bool {
    &&& s.invocation >= n
    &&& s.invocation == n ==> !(s.hook is Entered) && !(s.hook is Announcing)
}

/// One move keeps a settled session settled and adds no event of an
/// invocation up to `n` to what the controller took.
pub proof fn lemma_move_keeps_fresh(s: Session, m: Move, n: nat, base: nat)
    requires
        coherent(s),
        enabled(s, m),
        settled(s, n),
        events_after(s, n, base),
    ensures
        settled(after(s, m), n),
        events_after(after(s, m), n, base),
        after(s, m).taken.len() >= s.taken.len(),
        after(s, m).taken.take(s.taken.len() as int) == s.taken,
{
    let t = after(s, m);
    assert(t.taken.take(s.taken.len() as int) == s.taken);
    assert forall|k: int| base <= k < t.taken.len() && (#[trigger] t.taken[k]).1 is Event implies
        t.taken[k].0 > n by {
        if k < s.taken.len() {
            assert(t.taken[k] == s.taken[k]);
        }
    }
}

/// No stale events. From the moment at which the hook has the announcement
/// of its invocation behind it, or the machine runs outside the hook,
/// whatever the controller, the hook and the machine do: every event that
/// the controller takes from then on was announced by a later invocation.
/// So a `Step` posted while the hook waits in its loop is answered by the
/// event of an invocation that began after it.
pub proof fn lemma_no_stale_event(s: Session, moves: Seq<Move>)
    requires
        coherent(s),
        settled(s, s.invocation),
        possible(s, moves),
    ensures
        run(s, moves).taken.len() >= s.taken.len(),
        run(s, moves).taken.take(s.taken.len() as int) == s.taken,
        forall|k: int|
            s.taken.len() <= k < run(s, moves).taken.len() && (#[trigger] run(
                s,
                moves,
            ).taken[k]).1 is Event ==> run(s, moves).taken[k].0 > s.invocation,
{
    lemma_run_fresh(s, moves, s.invocation, s.taken.len());
}

proof fn lemma_run_fresh(s: Session, moves: Seq<Move>, n: nat, base: nat)
    requires
        coherent(s),
        settled(s, n),
        events_after(s, n, base),
        possible(s, moves),
    ensures
        coherent(run(s, moves)),
        settled(run(s, moves), n),
        events_after(run(s, moves), n, base),
        run(s, moves).taken.len() >= s.taken.len(),
        run(s, moves).taken.take(s.taken.len() as int) == s.taken,
    decreases moves.len(),
{
    if moves.len() == 0 {
        assert(s.taken.take(s.taken.len() as int) == s.taken);
    } else {
        let before = run(s, moves.drop_last());
        lemma_run_fresh(s, moves.drop_last(), n, base);
        lemma_move_keeps_coherent(before, moves.last());
        lemma_move_keeps_fresh(before, moves.last(), n, base);
        let t = run(s, moves);
        assert(t.taken.take(s.taken.len() as int) == before.taken.take(s.taken.len() as int));
    }
}

/// The moves of a step: the controller posts `Step`, the hook finds it, the
/// machine raises an event, the hook reads the flag, and the controller
/// takes what the hook holds out.
pub open spec fn step_moves(event: EventWithSrc) -> Seq<Move> {
    seq![
        Move::Post(DebugMsg::Step),
        Move::Poll,
        Move::Raise(event),
        Move::ReadFlag,
        Move::Take,
    ]
}

/// The event that a halted hook announces is the event of its own
/// invocation, and it is handed over before the hook looks for any command.
pub proof fn lemma_announcement_comes_first(s: Session, event: EventWithSrc)
    requires
        coherent(s),
        s.hook is Released,
        s.flag == ExecState::Halted,
    ensures
        run(s, seq![Move::Raise(event), Move::ReadFlag, Move::Take]).taken == s.taken.push(
            (s.invocation + 1, RespModel::Event(event)),
        ),
        run(s, seq![Move::Raise(event), Move::ReadFlag, Move::Take]).hook is Polling,
        possible(s, seq![Move::Raise(event), Move::ReadFlag, Move::Take]),
{
    let moves = seq![Move::Raise(event), Move::ReadFlag, Move::Take];
    let two = moves.drop_last();
    let one = two.drop_last();
    assert(one.drop_last().len() == 0);
    assert(one.last() == Move::Raise(event));
    assert(two.last() == Move::ReadFlag);
    assert(moves.last() == Move::Take);
    let s1 = run(s, one);
    assert(run(s, one.drop_last()) == s);
    assert(s1 == after(s, Move::Raise(event)));
    let s2 = run(s, two);
    assert(s2 == after(s1, Move::ReadFlag));
    assert(possible(s, one.drop_last()));
    assert(possible(s, one));
    assert(possible(s, two));
}

/// A step goes to the next event. With the machine held at a poll, the
/// flag at `Halted` and nothing posted: once the controller posts a `Step`,
/// the hook finds it and lets the machine go; the machine raises its next
/// event, the hook reads `Halted` and announces that event, and what the
/// controller takes is that event, from the invocation that began after the
/// step. The hook is then at a poll again.
pub proof fn lemma_step_brings_the_next_event(s: Session, event: EventWithSrc)
    requires
        coherent(s),
        s.hook is Polling,
        s.flag == ExecState::Halted,
        s.queue.len() == 0,
    ensures
        possible(s, step_moves(event)),
        run(s, step_moves(event)).taken == s.taken.push(
            (s.invocation + 1, RespModel::Event(event)),
        ),
        run(s, step_moves(event)).hook is Polling,
        run(s, step_moves(event)).flag == ExecState::Halted,
        run(s, step_moves(event)).queue.len() == 0,
{
    let moves = step_moves(event);
    let four = moves.drop_last();
    let three = four.drop_last();
    let two = three.drop_last();
    let one = two.drop_last();
    assert(one.drop_last().len() == 0);
    assert(one.last() == Move::Post(DebugMsg::Step));
    assert(two.last() == Move::Poll);
    assert(three.last() == Move::Raise(event));
    assert(four.last() == Move::ReadFlag);
    assert(moves.last() == Move::Take);
    assert(run(s, one.drop_last()) == s);
    let s1 = run(s, one);
    assert(s1 == after(s, Move::Post(DebugMsg::Step)));
    assert(s1.queue.first() == DebugMsg::Step);
    assert(s1.queue.drop_first().len() == 0);
    let s2 = run(s, two);
    assert(s2 == after(s1, Move::Poll));
    assert(s2.hook is Released);
    let s3 = run(s, three);
    assert(s3 == after(s2, Move::Raise(event)));
    let s4 = run(s, four);
    assert(s4 == after(s3, Move::ReadFlag));
    assert(possible(s, one.drop_last()));
    assert(possible(s, one));
    assert(possible(s, two));
    assert(possible(s, three));
    assert(possible(s, four));
}

} // verus!
