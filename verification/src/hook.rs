//! The debug hook as a state machine.
//!
//! The hook runs on the machine's own thread, once per debug event. What it
//! has to do next (read the flag, hand over a response, look for a command,
//! query the stack, sleep, return) is an action; what came of it is an input.
//! `HookState::step` maps the state of one invocation and an input to the next
//! state and the next action. The caller performs the actions; this module
//! decides.

use crate::dbg::{DebugMsg, DebugResp, EventWithSrc, ExecState, SqLocalVarWithLvl};
use crate::sq::{DebugEvent, SqLocalVar, SqStackInfo, SqUnsignedInteger};
use vstd::prelude::*;

verus! {

/// How long the hook sleeps between two polls, in milliseconds.
pub const POLL_INTERVAL_MS: u64 = 50;

/// The highest call-stack level and slot number that the hook asks for.
pub const LAST_INDEX: SqUnsignedInteger = 0xffff_ffff;

/// Where one invocation of the hook stands.
#[derive(Clone, PartialEq, Eq, Debug)]
pub enum HookState {
    /// Just invoked with this event; the flag is being read.
    Entered { event: EventWithSrc },
    /// The event is being handed to the controller.
    Announcing,
    /// The command channel is being looked at.
    Polling,
    /// The stack is being walked: `level` is being asked for, the levels
    /// below it are in `frames`.
    Backtrace { level: SqUnsignedInteger, frames: Vec<SqStackInfo> },
    /// Locals are being collected for the request `asked`: slot `slot` of
    /// `level` is being asked for, what came before is in `found`.
    Locals {
        asked: Option<SqUnsignedInteger>,
        level: SqUnsignedInteger,
        slot: SqUnsignedInteger,
        found: Vec<SqLocalVarWithLvl>,
    },
    /// The answer to a command is being handed to the controller.
    Replying,
    /// A poll is over; the flag is being read.
    Checking,
    /// The hook sleeps before its next poll.
    Sleeping,
    /// The invocation is over; the machine runs on.
    Released,
}

/// What the hook has to do next.
#[derive(Clone, PartialEq, Eq, Debug)]
pub enum HookAction {
    /// Read the flag and answer with `HookInput::State`.
    ReadState,
    /// Hand the response over, waiting until the controller takes it, and
    /// answer with `HookInput::Sent`.
    Send(DebugResp),
    /// Look for a command without waiting and answer with `HookInput::Command`.
    PollCommand,
    /// Ask the machine for a stack level and answer with `HookInput::Frame`.
    QueryFrame(SqUnsignedInteger),
    /// Ask the machine for a slot of a level and answer with `HookInput::Local`.
    QueryLocal(SqUnsignedInteger, SqUnsignedInteger),
    /// Sleep for the poll interval and answer with `HookInput::Woke`.
    Sleep,
    /// Return to the machine.
    Return,
}

/// What came of the last action.
#[derive(Clone, PartialEq, Eq, Debug)]
pub enum HookInput {
    /// The flag as it was read.
    State(ExecState),
    /// The controller took the response.
    Sent,
    /// The command found, if there was one.
    Command(Option<DebugMsg>),
    /// The stack level asked for, unless the machine has no such level.
    Frame(Option<SqStackInfo>),
    /// The slot asked for, unless the machine has no such slot.
    Local(Option<SqLocalVar>),
    /// The sleep is over.
    Woke,
    /// The controller is gone: the response was not taken because nobody is
    /// there to take it, or the command channel is closed.
    Gone,
}

/// A response with its lists as sequences.
pub enum RespModel {
    Event(EventWithSrc),
    Backtrace(Seq<SqStackInfo>),
    Locals(Option<Seq<SqLocalVarWithLvl>>),
}

/// A state with its lists as sequences.
pub enum StateModel {
    Entered { event: EventWithSrc },
    Announcing,
    Polling,
    Backtrace { level: SqUnsignedInteger, frames: Seq<SqStackInfo> },
    Locals {
        asked: Option<SqUnsignedInteger>,
        level: SqUnsignedInteger,
        slot: SqUnsignedInteger,
        found: Seq<SqLocalVarWithLvl>,
    },
    Replying,
    Checking,
    Sleeping,
    Released,
}

/// An action with its lists as sequences.
pub enum ActionModel {
    ReadState,
    Send(RespModel),
    PollCommand,
    QueryFrame(SqUnsignedInteger),
    QueryLocal(SqUnsignedInteger, SqUnsignedInteger),
    Sleep,
    Return,
}

/// The model of a response.
pub open spec fn resp_model(resp: DebugResp) -> RespModel {
    match resp {
        DebugResp::Event(e) => RespModel::Event(e),
        DebugResp::Backtrace(frames) => RespModel::Backtrace(frames@),
        DebugResp::Locals(Some(found)) => RespModel::Locals(Some(found@)),
        DebugResp::Locals(None) => RespModel::Locals(None),
    }
}

impl View for HookState {
    type V = StateModel;

    open spec fn view(&self) -> StateModel {
        match *self {
            HookState::Entered { event } => StateModel::Entered { event },
            HookState::Announcing => StateModel::Announcing,
            HookState::Polling => StateModel::Polling,
            HookState::Backtrace { level, frames } => StateModel::Backtrace {
                level,
                frames: frames@,
            },
            HookState::Locals { asked, level, slot, found } => StateModel::Locals {
                asked,
                level,
                slot,
                found: found@,
            },
            HookState::Replying => StateModel::Replying,
            HookState::Checking => StateModel::Checking,
            HookState::Sleeping => StateModel::Sleeping,
            HookState::Released => StateModel::Released,
        }
    }
}

impl View for HookAction {
    type V = ActionModel;

    open spec fn view(&self) -> ActionModel {
        match *self {
            HookAction::ReadState => ActionModel::ReadState,
            HookAction::Send(resp) => ActionModel::Send(resp_model(resp)),
            HookAction::PollCommand => ActionModel::PollCommand,
            HookAction::QueryFrame(level) => ActionModel::QueryFrame(level),
            HookAction::QueryLocal(level, slot) => ActionModel::QueryLocal(level, slot),
            HookAction::Sleep => ActionModel::Sleep,
            HookAction::Return => ActionModel::Return,
        }
    }
}

/// The response that ends a collection of locals: the list, or `None` for an
/// empty one.
pub open spec fn locals_reply(found: Seq<SqLocalVarWithLvl>) -> RespModel {
    if found.len() == 0 {
        RespModel::Locals(None)
    } else {
        RespModel::Locals(Some(found))
    }
}

/// What follows a level whose slots have all been read, at least one of them
/// holding a variable: the answer where one level was asked for or no higher
/// level can be named, else the first slot of the next level.
pub open spec fn after_level(
    asked: Option<SqUnsignedInteger>,
    level: SqUnsignedInteger,
    found: Seq<SqLocalVarWithLvl>,
) -> (StateModel, ActionModel) {
    if asked.is_some() || level == LAST_INDEX {
        (StateModel::Replying, ActionModel::Send(locals_reply(found)))
    } else {
        (
            StateModel::Locals { asked, level: (level + 1) as u32, slot: 0, found },
            ActionModel::QueryLocal((level + 1) as u32, 0),
        )
    }
}

/// Whether `input` is what the action pending in `state` answers with. A
/// hand-over and a look for a command may also find the controller gone.
pub open spec fn accepts(state: StateModel, input: HookInput) -> bool {
    match state {
        StateModel::Entered { .. } => input is State,
        StateModel::Announcing => input is Sent || input is Gone,
        StateModel::Polling => input is Command || input is Gone,
        StateModel::Backtrace { .. } => input is Frame,
        StateModel::Locals { .. } => input is Local,
        StateModel::Replying => input is Sent || input is Gone,
        StateModel::Checking => input is State,
        StateModel::Sleeping => input is Woke,
        StateModel::Released => false,
    }
}

/// The transition function of the hook. Once the controller is gone the
/// invocation ends, whatever the state; so does it on an input that the
/// pending action does not answer with.
pub open spec fn next(state: StateModel, input: HookInput) -> (StateModel, ActionModel) {
    match (state, input) {
        (StateModel::Entered { event }, HookInput::State(ExecState::Halted)) => (
            StateModel::Announcing,
            ActionModel::Send(RespModel::Event(event)),
        ),
        (StateModel::Entered { .. }, HookInput::State(ExecState::Running)) => (
            StateModel::Polling,
            ActionModel::PollCommand,
        ),
        (StateModel::Announcing, HookInput::Sent) => (
            StateModel::Polling,
            ActionModel::PollCommand,
        ),
        (StateModel::Polling, HookInput::Command(Some(DebugMsg::Step))) => (
            StateModel::Released,
            ActionModel::Return,
        ),
        (StateModel::Polling, HookInput::Command(Some(DebugMsg::Backtrace))) => (
            StateModel::Backtrace { level: 1, frames: Seq::empty() },
            ActionModel::QueryFrame(1),
        ),
        (StateModel::Polling, HookInput::Command(Some(DebugMsg::Locals(asked)))) => {
            let level = match asked {
                Some(level) => level,
                None => 1,
            };
            (
                StateModel::Locals { asked, level, slot: 0, found: Seq::empty() },
                ActionModel::QueryLocal(level, 0),
            )
        },
        (StateModel::Polling, HookInput::Command(None)) => (
            StateModel::Checking,
            ActionModel::ReadState,
        ),
        (StateModel::Backtrace { level, frames }, HookInput::Frame(Some(frame))) => {
            if level == LAST_INDEX {
                (
                    StateModel::Replying,
                    ActionModel::Send(RespModel::Backtrace(frames.push(frame))),
                )
            } else {
                (
                    StateModel::Backtrace { level: (level + 1) as u32, frames: frames.push(frame) },
                    ActionModel::QueryFrame((level + 1) as u32),
                )
            }
        },
        (StateModel::Backtrace { level, frames }, HookInput::Frame(None)) => (
            StateModel::Replying,
            ActionModel::Send(RespModel::Backtrace(frames)),
        ),
        (StateModel::Locals { asked, level, slot, found }, HookInput::Local(Some(var))) => {
            let found = found.push(SqLocalVarWithLvl { var, lvl: level });
            if slot == LAST_INDEX {
                after_level(asked, level, found)
            } else {
                (
                    StateModel::Locals { asked, level, slot: (slot + 1) as u32, found },
                    ActionModel::QueryLocal(level, (slot + 1) as u32),
                )
            }
        },
        (StateModel::Locals { asked, level, slot, found }, HookInput::Local(None)) => {
            if slot == 0 {
                (StateModel::Replying, ActionModel::Send(locals_reply(found)))
            } else {
                after_level(asked, level, found)
            }
        },
        (StateModel::Replying, HookInput::Sent) => (StateModel::Checking, ActionModel::ReadState),
        (StateModel::Checking, HookInput::State(ExecState::Running)) => (
            StateModel::Released,
            ActionModel::Return,
        ),
        (StateModel::Checking, HookInput::State(ExecState::Halted)) => (
            StateModel::Sleeping,
            ActionModel::Sleep,
        ),
        (StateModel::Sleeping, HookInput::Woke) => (StateModel::Polling, ActionModel::PollCommand),
        _ => (StateModel::Released, ActionModel::Return),
    }
}

/// Ends a collection of locals.
fn reply_locals(found: Vec<SqLocalVarWithLvl>) -> (r: (HookState, HookAction))
    ensures
        r.0@ == StateModel::Replying,
        r.1@ == ActionModel::Send(locals_reply(found@)),
{
    if found.len() == 0 {
        (HookState::Replying, HookAction::Send(DebugResp::Locals(None)))
    } else {
        (HookState::Replying, HookAction::Send(DebugResp::Locals(Some(found))))
    }
}

/// Goes on after a level that held at least one variable.
fn leave_level(
    asked: Option<SqUnsignedInteger>,
    level: SqUnsignedInteger,
    found: Vec<SqLocalVarWithLvl>,
) -> (r: (HookState, HookAction))
    ensures
        (r.0@, r.1@) == after_level(asked, level, found@),
{
    if asked.is_some() || level == LAST_INDEX {
        reply_locals(found)
    } else {
        (
            HookState::Locals { asked, level: level + 1, slot: 0, found },
            HookAction::QueryLocal(level + 1, 0),
        )
    }
}

impl HookState {
    /// Starts an invocation of the hook for a debug event: the flag is to be
    /// read first.
    pub fn begin(event: DebugEvent, src: Option<String>) -> (r: (HookState, HookAction))
        ensures
            r.0@ == (StateModel::Entered { event: EventWithSrc { event, src } }),
            r.1@ == ActionModel::ReadState,
    {
        (HookState::Entered { event: EventWithSrc { event, src } }, HookAction::ReadState)
    }

    /// Whether the invocation is over.
    pub fn is_released(&self) -> (r: bool)
        ensures
            r == (self@ is Released),
    {
        match self {
            HookState::Released => true,
            _ => false,
        }
    }

    /// Takes what came of the pending action and says what to do next.
    pub fn step(self, input: HookInput) -> (r: (HookState, HookAction))
        ensures
            (r.0@, r.1@) == next(self@, input),
    {
        match (self, input) {
            (HookState::Entered { event }, HookInput::State(ExecState::Halted)) => (
                HookState::Announcing,
                HookAction::Send(DebugResp::Event(event)),
            ),
            (HookState::Entered { .. }, HookInput::State(ExecState::Running)) => (
                HookState::Polling,
                HookAction::PollCommand,
            ),
            (HookState::Announcing, HookInput::Sent) => (
                HookState::Polling,
                HookAction::PollCommand,
            ),
            (HookState::Polling, HookInput::Command(Some(DebugMsg::Step))) => (
                HookState::Released,
                HookAction::Return,
            ),
            (HookState::Polling, HookInput::Command(Some(DebugMsg::Backtrace))) => (
                HookState::Backtrace { level: 1, frames: Vec::new() },
                HookAction::QueryFrame(1),
            ),
            (HookState::Polling, HookInput::Command(Some(DebugMsg::Locals(asked)))) => {
                let level = match asked {
                    Some(level) => level,
                    None => 1,
                };
                (
                    HookState::Locals { asked, level, slot: 0, found: Vec::new() },
                    HookAction::QueryLocal(level, 0),
                )
            },
            (HookState::Polling, HookInput::Command(None)) => (
                HookState::Checking,
                HookAction::ReadState,
            ),
            (HookState::Backtrace { level, frames }, HookInput::Frame(Some(frame))) => {
                let mut frames = frames;
                frames.push(frame);
                if level == LAST_INDEX {
                    (HookState::Replying, HookAction::Send(DebugResp::Backtrace(frames)))
                } else {
                    (
                        HookState::Backtrace { level: level + 1, frames },
                        HookAction::QueryFrame(level + 1),
                    )
                }
            },
            (HookState::Backtrace { level, frames }, HookInput::Frame(None)) => (
                HookState::Replying,
                HookAction::Send(DebugResp::Backtrace(frames)),
            ),
            (HookState::Locals { asked, level, slot, found }, HookInput::Local(Some(var))) => {
                let mut found = found;
                found.push(SqLocalVarWithLvl { var, lvl: level });
                if slot == LAST_INDEX {
                    leave_level(asked, level, found)
                } else {
                    (
                        HookState::Locals { asked, level, slot: slot + 1, found },
                        HookAction::QueryLocal(level, slot + 1),
                    )
                }
            },
            (HookState::Locals { asked, level, slot, found }, HookInput::Local(None)) => {
                if slot == 0 {
                    reply_locals(found)
                } else {
                    leave_level(asked, level, found)
                }
            },
            (HookState::Replying, HookInput::Sent) => (HookState::Checking, HookAction::ReadState),
            (HookState::Checking, HookInput::State(ExecState::Running)) => (
                HookState::Released,
                HookAction::Return,
            ),
            (HookState::Checking, HookInput::State(ExecState::Halted)) => (
                HookState::Sleeping,
                HookAction::Sleep,
            ),
            (HookState::Sleeping, HookInput::Woke) => (HookState::Polling, HookAction::PollCommand),
            _ => (HookState::Released, HookAction::Return),
        }
    }
}

/// The state that a run of inputs leaves the hook in.
pub open spec fn run(state: StateModel, inputs: Seq<HookInput>) -> StateModel
    decreases inputs.len(),
{
    if inputs.len() == 0 {
        state
    } else {
        next(run(state, inputs.drop_last()), inputs.last()).0
    }
}

/// The action that the hook decides on when it takes input number `k` of a run.
pub open spec fn action_at(state: StateModel, inputs: Seq<HookInput>, k: int) -> ActionModel {
    next(run(state, inputs.take(k)), inputs[k]).1
}

/// Whether every input of a run is what the action pending at that point
/// answers with.
pub open spec fn orderly(state: StateModel, inputs: Seq<HookInput>) -> bool {
    forall|k: int| 0 <= k < inputs.len() ==> accepts(#[trigger] run(state, inputs.take(k)), inputs[k])
}

/// The inputs that let the machine go: a `Step` found at a poll, `Running`
/// read at the check that follows a poll, and the news that the controller
/// is gone.
pub open spec fn lets_go(state: StateModel, input: HookInput) -> bool {
    ||| state is Polling && input == HookInput::Command(Some(DebugMsg::Step))
    ||| state is Checking && input == HookInput::State(ExecState::Running)
    ||| input is Gone
}

/// The hook holds the machine until it finds a `Step`, reads `Running` after
/// a poll or finds the controller gone: an input that answers the pending
/// action ends the invocation exactly if it is one of those, and the action
/// is then `Return`.
pub proof fn lemma_released_by_step_or_running(state: StateModel, input: HookInput)
    requires
        accepts(state, input),
    ensures
        next(state, input).0 is Released <==> lets_go(state, input),
        next(state, input).1 is Return <==> lets_go(state, input),
{
}

/// Over a whole invocation: after any orderly run of inputs the machine has
/// been let go exactly if the last input was a `Step` found at a poll,
/// `Running` read after one, or the news that the controller is gone. Until
/// then the hook holds it.
pub proof fn lemma_held_until_let_go(event: EventWithSrc, inputs: Seq<HookInput>)
    requires
        orderly(StateModel::Entered { event }, inputs),
    ensures
        run(StateModel::Entered { event }, inputs) is Released <==> inputs.len() > 0 && lets_go(
            run(StateModel::Entered { event }, inputs.drop_last()),
            inputs.last(),
        ),
{
    let start = StateModel::Entered { event };
    if inputs.len() > 0 {
        let k = inputs.len() - 1;
        assert(inputs.take(k) == inputs.drop_last());
        assert(accepts(run(start, inputs.take(k)), inputs[k]));
        lemma_released_by_step_or_running(run(start, inputs.drop_last()), inputs.last());
    }
}

/// A hook that sleeps while the controller stores `Running` lets the machine
/// go after that one sleep, unless a command arrives first: it wakes, finds no
/// command, reads the flag and returns.
pub proof fn lemma_resume_noticed_after_one_sleep()
    ensures
        run(
            StateModel::Sleeping,
            seq![
                HookInput::Woke,
                HookInput::Command(None),
                HookInput::State(ExecState::Running),
            ],
        ) is Released,
{
    let inputs = seq![
        HookInput::Woke,
        HookInput::Command(None),
        HookInput::State(ExecState::Running),
    ];
    let two = inputs.drop_last();
    let one = two.drop_last();
    assert(one.drop_last().len() == 0);
    assert(one.last() == HookInput::Woke);
    assert(two.last() == HookInput::Command(None));
    assert(run(StateModel::Sleeping, one.drop_last()) == StateModel::Sleeping);
    assert(run(StateModel::Sleeping, one) == StateModel::Polling);
    assert(run(StateModel::Sleeping, two) == StateModel::Checking);
}

/// An invocation announces its event at most once, and only as its first
/// action, on reading `Halted`: whatever is handed over later in the same
/// invocation is no event. So an event that the controller receives after it
/// has taken the announcement of an invocation comes from a later invocation.
pub proof fn lemma_event_only_announced_first(
    event: EventWithSrc,
    inputs: Seq<HookInput>,
    k: int,
)
    requires
        0 <= k < inputs.len(),
    ensures
        action_at(StateModel::Entered { event }, inputs, k) matches ActionModel::Send(
            RespModel::Event(e),
        ) ==> k == 0 && inputs[0] == HookInput::State(ExecState::Halted) && e == event,
{
    let start = StateModel::Entered { event };
    if k == 0 {
        assert(inputs.take(0).len() == 0);
    } else {
        let before = inputs.take(k);
        lemma_entered_only_first(start, before);
    }
}

/// After at least one input the hook is never in its first state again.
pub proof fn lemma_entered_only_first(state: StateModel, inputs: Seq<HookInput>)
    requires
        inputs.len() > 0,
    ensures
        !(run(state, inputs) is Entered),
{
}

/// A `Step` that the hook finds ends the invocation at once: nothing is
/// handed to the controller for it.
pub proof fn lemma_step_sends_nothing()
    ensures
        next(StateModel::Polling, HookInput::Command(Some(DebugMsg::Step))) == (
            StateModel::Released,
            ActionModel::Return,
        ),
{
}

/// Once the controller is gone the hook is inert: whatever state it is in,
/// the news ends the invocation, with nothing handed over and no sleep.
pub proof fn lemma_gone_ends_the_invocation(state: StateModel)
    ensures
        next(state, HookInput::Gone) == (StateModel::Released, ActionModel::Return),
{
}

/// The inputs of an invocation that finds the controller gone: the flag as
/// read, and the news at the hand-over of the event or at the first look for
/// a command.
pub open spec fn inert_inputs(flag: ExecState) -> Seq<HookInput> {
    seq![HookInput::State(flag), HookInput::Gone]
}

/// With the controller gone, every invocation is over after its first
/// hand-over or its first look for a command, whatever the flag reads: the
/// machine is not held and the hook never sleeps.
pub proof fn lemma_hook_without_controller_is_inert(event: EventWithSrc, flag: ExecState)
    ensures
        orderly(StateModel::Entered { event }, inert_inputs(flag)),
        run(StateModel::Entered { event }, inert_inputs(flag)) is Released,
        forall|k: int|
            0 <= k < 2 ==> !(#[trigger] action_at(
                StateModel::Entered { event },
                inert_inputs(flag),
                k,
            ) is Sleep),
{
    let start = StateModel::Entered { event };
    let inputs = inert_inputs(flag);
    let one = inputs.drop_last();
    assert(one.drop_last().len() == 0);
    assert(one.last() == HookInput::State(flag));
    assert(run(start, one.drop_last()) == start);
    assert(inputs.take(0) == one.drop_last());
    assert(inputs.take(1) == one);
    assert(run(start, inputs.take(0)) == start);
    let first = run(start, one);
    assert(first == next(start, HookInput::State(flag)).0);
    assert(first is Announcing || first is Polling);
    assert forall|k: int| 0 <= k < inputs.len() implies accepts(
        #[trigger] run(start, inputs.take(k)),
        inputs[k],
    ) by {
        if k == 0 {
        } else {
            assert(inputs.take(k) == one);
        }
    }
}

/// A machine as the hook sees it through its two queries.
pub struct VmModel {
    /// The frame of a call-stack level, for the levels that exist.
    pub frames: spec_fn(SqUnsignedInteger) -> Option<SqStackInfo>,
    /// The variable in a slot of a level, for the slots that exist.
    pub locals: spec_fn(SqUnsignedInteger, SqUnsignedInteger) -> Option<SqLocalVar>,
}

/// Lets the hook put up to `fuel` queries to the machine `vm`, each answered
/// by `vm`, and returns the state and the action at which it stops asking.
pub open spec fn settle(vm: VmModel, state: StateModel, action: ActionModel, fuel: nat) -> (
    StateModel,
    ActionModel,
)
    decreases fuel,
{
    if fuel == 0 {
        (state, action)
    } else {
        match action {
            ActionModel::QueryFrame(level) => {
                let r = next(state, HookInput::Frame((vm.frames)(level)));
                settle(vm, r.0, r.1, (fuel - 1) as nat)
            },
            ActionModel::QueryLocal(level, slot) => {
                let r = next(state, HookInput::Local((vm.locals)(level, slot)));
                settle(vm, r.0, r.1, (fuel - 1) as nat)
            },
            _ => (state, action),
        }
    }
}

/// The frames of the levels `1..=depth` of `vm`, innermost first.
pub open spec fn stack_of(vm: VmModel, depth: nat) -> Seq<SqStackInfo> {
    Seq::new(depth, |i: int| (vm.frames)((i + 1) as u32).unwrap())
}

/// Whether the call stack of `vm` has exactly `depth` levels: the levels up
/// to `depth` exist and the one after does not.
pub open spec fn has_depth(vm: VmModel, depth: nat) -> bool {
    &&& depth < LAST_INDEX
    &&& forall|level: u32| 1 <= level <= depth ==> (#[trigger] (vm.frames)(level)).is_some()
    &&& (vm.frames)((depth + 1) as u32).is_none()
}

proof fn lemma_backtrace_from(vm: VmModel, depth: nat, done: nat, fuel: nat)
    requires
        has_depth(vm, depth),
        done <= depth,
        fuel > depth - done,
    ensures
        settle(
            vm,
            StateModel::Backtrace { level: (done + 1) as u32, frames: stack_of(vm, done) },
            ActionModel::QueryFrame((done + 1) as u32),
            fuel,
        ) == (StateModel::Replying, ActionModel::Send(RespModel::Backtrace(stack_of(vm, depth)))),
    decreases depth - done,
{
    let level = (done + 1) as u32;
    reveal_with_fuel(settle, 2);
    if done < depth {
        assert((vm.frames)(level).is_some());
        assert(stack_of(vm, done + 1) == stack_of(vm, done).push((vm.frames)(level).unwrap()));
        lemma_backtrace_from(vm, depth, done + 1, (fuel - 1) as nat);
    } else {
        assert(stack_of(vm, done) == stack_of(vm, depth));
    }
}

/// A backtrace holds the frames of the levels before the first one that the
/// machine does not have, innermost first: that many, and in that order.
pub proof fn lemma_backtrace_walks_the_stack(vm: VmModel, depth: nat, fuel: nat)
    requires
        has_depth(vm, depth),
        fuel > depth,
    ensures
        settle(
            vm,
            next(StateModel::Polling, HookInput::Command(Some(DebugMsg::Backtrace))).0,
            next(StateModel::Polling, HookInput::Command(Some(DebugMsg::Backtrace))).1,
            fuel,
        ) == (StateModel::Replying, ActionModel::Send(RespModel::Backtrace(stack_of(vm, depth)))),
        stack_of(vm, depth).len() == depth,
{
    assert(stack_of(vm, 0) == Seq::<SqStackInfo>::empty());
    lemma_backtrace_from(vm, depth, 0, fuel);
}

/// The variables in the slots `0..count` of `level`, each marked with the level.
pub open spec fn level_vars(vm: VmModel, level: SqUnsignedInteger, count: nat) -> Seq<
    SqLocalVarWithLvl,
> {
    Seq::new(
        count,
        |i: int| SqLocalVarWithLvl { var: (vm.locals)(level, i as u32).unwrap(), lvl: level },
    )
}

/// Whether `level` of `vm` has exactly `count` variables: the slots below
/// `count` exist and slot `count` does not.
pub open spec fn has_vars(vm: VmModel, level: SqUnsignedInteger, count: nat) -> bool {
    &&& count <= LAST_INDEX
    &&& forall|slot: u32| slot < count ==> (#[trigger] (vm.locals)(level, slot)).is_some()
    &&& (vm.locals)(level, count as u32).is_none()
}

/// Where the hook stands once it has read all slots of a level.
pub open spec fn level_read(
    asked: Option<SqUnsignedInteger>,
    level: SqUnsignedInteger,
    count: nat,
    found: Seq<SqLocalVarWithLvl>,
) -> (StateModel, ActionModel) {
    if count == 0 {
        (StateModel::Replying, ActionModel::Send(locals_reply(found)))
    } else {
        after_level(asked, level, found)
    }
}

proof fn lemma_level_from(
    vm: VmModel,
    asked: Option<SqUnsignedInteger>,
    level: SqUnsignedInteger,
    count: nat,
    before: Seq<SqLocalVarWithLvl>,
    done: nat,
    fuel: nat,
)
    requires
        has_vars(vm, level, count),
        done <= count,
        fuel > count - done,
    ensures
        settle(
            vm,
            StateModel::Locals {
                asked,
                level,
                slot: done as u32,
                found: before + level_vars(vm, level, done),
            },
            ActionModel::QueryLocal(level, done as u32),
            fuel,
        ) == settle(
            vm,
            level_read(asked, level, count, before + level_vars(vm, level, count)).0,
            level_read(asked, level, count, before + level_vars(vm, level, count)).1,
            (fuel - (count - done) - 1) as nat,
        ),
    decreases count - done,
{
    let slot = done as u32;
    let found = before + level_vars(vm, level, done);
    if done < count {
        assert((vm.locals)(level, slot).is_some());
        let var = (vm.locals)(level, slot).unwrap();
        assert(before + level_vars(vm, level, done + 1) == found.push(
            SqLocalVarWithLvl { var, lvl: level },
        ));
        lemma_level_from(vm, asked, level, count, before, done + 1, (fuel - 1) as nat);
    } else {
        assert((vm.locals)(level, slot).is_none());
    }
}

/// Asked for one level, the hook answers with the variables of that level, in
/// slot order and none from another level; with `None` where the level has none.
pub proof fn lemma_locals_of_one_level(
    vm: VmModel,
    level: SqUnsignedInteger,
    count: nat,
    fuel: nat,
)
    requires
        has_vars(vm, level, count),
        fuel > count,
    ensures
        settle(
            vm,
            next(StateModel::Polling, HookInput::Command(Some(DebugMsg::Locals(Some(level))))).0,
            next(StateModel::Polling, HookInput::Command(Some(DebugMsg::Locals(Some(level))))).1,
            fuel,
        ) == (
            StateModel::Replying,
            ActionModel::Send(locals_reply(level_vars(vm, level, count))),
        ),
        forall|i: int| 0 <= i < count ==> (#[trigger] level_vars(vm, level, count)[i]).lvl == level,
{
    let none = Seq::<SqLocalVarWithLvl>::empty();
    assert(none + level_vars(vm, level, 0) == none);
    assert(none + level_vars(vm, level, count) == level_vars(vm, level, count));
    lemma_level_from(vm, Some(level), level, count, none, 0, fuel);
}

/// The variables of the levels `1..=levels`, level by level, where `counts`
/// gives the number of variables of each level.
pub open spec fn gathered(vm: VmModel, counts: spec_fn(SqUnsignedInteger) -> nat, levels: nat) -> Seq<
    SqLocalVarWithLvl,
>
    decreases levels,
{
    if levels == 0 {
        Seq::empty()
    } else {
        gathered(vm, counts, (levels - 1) as nat) + level_vars(
            vm,
            levels as u32,
            counts(levels as u32),
        )
    }
}

/// How many queries the hook puts to collect the levels after `done` up to
/// `levels` and to find the next one empty.
pub open spec fn queries_left(counts: spec_fn(SqUnsignedInteger) -> nat, levels: nat, done: nat) -> nat
    decreases levels - done,
{
    if done >= levels {
        1
    } else {
        counts((done + 1) as u32) + 1 + queries_left(counts, levels, done + 1)
    }
}

/// Whether `vm` has variables on exactly the levels `1..=levels` counted from
/// the innermost: each of them has the `counts` number of variables, at least
/// one, and the level after them has none.
pub open spec fn has_levels(
    vm: VmModel,
    counts: spec_fn(SqUnsignedInteger) -> nat,
    levels: nat,
) -> bool {
    &&& levels < LAST_INDEX
    &&& forall|level: u32|
        1 <= level <= levels ==> counts(level) >= 1 && #[trigger] has_vars(
            vm,
            level,
            counts(level),
        )
    &&& has_vars(vm, (levels + 1) as u32, 0)
}

proof fn lemma_levels_from(
    vm: VmModel,
    counts: spec_fn(SqUnsignedInteger) -> nat,
    levels: nat,
    done: nat,
    fuel: nat,
)
    requires
        has_levels(vm, counts, levels),
        done <= levels,
        fuel >= queries_left(counts, levels, done),
    ensures
        settle(
            vm,
            StateModel::Locals {
                asked: None,
                level: (done + 1) as u32,
                slot: 0,
                found: gathered(vm, counts, done),
            },
            ActionModel::QueryLocal((done + 1) as u32, 0),
            fuel,
        ) == (
            StateModel::Replying,
            ActionModel::Send(locals_reply(gathered(vm, counts, levels))),
        ),
    decreases levels - done,
{
    let level = (done + 1) as u32;
    let before = gathered(vm, counts, done);
    assert(before + level_vars(vm, level, 0) == before);
    if done < levels {
        let count = counts(level);
        assert(has_vars(vm, level, count));
        lemma_level_from(vm, None, level, count, before, 0, fuel);
        assert(before + level_vars(vm, level, count) == gathered(vm, counts, done + 1));
        lemma_levels_from(vm, counts, levels, done + 1, (fuel - count - 1) as nat);
    } else {
        lemma_level_from(vm, None, level, 0, before, 0, fuel);
    }
}

/// Asked for all levels, the hook answers with the variables of level one,
/// then of level two, and so on up to the level before the first that has no
/// variables: every such level is there, whole and in order, and no other.
pub proof fn lemma_locals_of_all_levels(
    vm: VmModel,
    counts: spec_fn(SqUnsignedInteger) -> nat,
    levels: nat,
    fuel: nat,
)
    requires
        has_levels(vm, counts, levels),
        fuel >= queries_left(counts, levels, 0),
    ensures
        settle(
            vm,
            next(StateModel::Polling, HookInput::Command(Some(DebugMsg::Locals(None)))).0,
            next(StateModel::Polling, HookInput::Command(Some(DebugMsg::Locals(None)))).1,
            fuel,
        ) == (
            StateModel::Replying,
            ActionModel::Send(locals_reply(gathered(vm, counts, levels))),
        ),
{
    lemma_levels_from(vm, counts, levels, 0, fuel);
}

} // verus!
