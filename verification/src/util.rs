//! The front end of the debugger: the commands a user can give, and what
//! each of them does to the session.

use crate::breakpoint::{
    breakpoint_of, parse_breakpoint, stored_view, with_enabled, without, BreakpointStore,
    StoredBreakpoint,
};
use crate::buffers::{listing_of, texts_view, ScriptBuffers};
use crate::dbg::{
    backtrace_of, event_of, locals_of, DebugError, DebugResp, EventWithSrc, SqBacktrace,
    SqDebugger, SqLocalVarWithLvl,
};
use crate::eval::{capture_view, prepare, prepared, EvalError, EvalErrorModel, EvalRequest};
use crate::link::RecvFailure;
use crate::lookup::first_with;
use crate::path::{examination_of, examine, Examination, ExamineError};
use crate::report::{
    bool_text, pieces_view, push_bool, push_float, push_text, push_type, type_text, words,
    PieceModel, ReportPiece,
};
use crate::sq::{DynSqVar, SqLocalVar, SqUnsignedInteger};
use crate::text::{
    decimal_digits, from_chars, push_decimal, push_signed, push_str, rows, signed_digits, split,
    split_on, to_chars, trim, trimmed,
};
use vstd::prelude::*;
use vstd::std_specs::convert::FromSpecImpl;

verus! {

/// A switch as a user writes it.
#[derive(Copy, Clone, PartialEq, Eq, Structural, Debug, Hash)]
pub enum BoolVal {
    True,
    False,
}

impl From<BoolVal> for bool {
    fn from(value: BoolVal) -> (r: bool) {
        match value {
            BoolVal::True => true,
            BoolVal::False => false,
        }
    }
}

impl FromSpecImpl<BoolVal> for bool {
    open spec fn obeys_from_spec() -> bool {
        true
    }

    open spec fn from_spec(value: BoolVal) -> bool {
        value == BoolVal::True
    }
}

/// The variables of the debugger that a user can set.
#[derive(Copy, Clone, PartialEq, Eq, Structural, Debug, Hash)]
pub enum SetCommands {
    /// Whether the machine's print hook is active.
    PrintfHook { active: BoolVal },
}

/// What a `set` command changes: the variable and its new value.
#[derive(Copy, Clone, PartialEq, Eq, Structural, Debug, Hash)]
pub enum VarUpdate {
    PrintfHook(bool),
}

/// The commands on script buffers.
#[derive(Copy, Clone, PartialEq, Eq, Structural, Debug, Hash)]
pub enum BufferCommands {
    /// Create a buffer.
    New,
    /// Delete a buffer by number.
    Delete { num: u32 },
    /// Edit a buffer by number.
    Edit { num: u32 },
    /// Print a buffer by number.
    Print { num: u32 },
    /// List the buffers.
    List,
}

/// The commands of the front end.
#[derive(Clone, PartialEq, Eq, Debug)]
pub enum Commands {
    /// Let the machine run to its next debug event.
    Step,
    /// Let the machine run.
    Continue,
    /// Show the call stack.
    Backtrace,
    /// Show the locals of a level, or of all levels.
    Locals { level: Option<u32> },
    /// Show the value that a path leads to.
    Examine { target: String, level: Option<SqUnsignedInteger>, depth: u32 },
    /// Add a breakpoint.
    BreakpointAdd { spec: String },
    /// Enable a breakpoint, or all.
    BreakpointEnable { num: Option<u32> },
    /// Disable a breakpoint, or all.
    BreakpointDisable { num: Option<u32> },
    /// Remove a breakpoint, or all.
    BreakpointClear { num: Option<u32> },
    /// List the breakpoints.
    BreakpointList,
    /// Run a script, from a buffer or newly written.
    Evaluate { debug: bool, buffer: Option<u32> },
    /// Work on the script buffers.
    Buffer(BufferCommands),
    /// Let the machine run and show every debug event.
    Trace,
    /// Set a variable of the debugger.
    SetVar(SetCommands),
    /// Save breakpoints and buffers to a file.
    Save { file: Option<String> },
    /// Load breakpoints and buffers from a file.
    Load { file: Option<String> },
    /// Do nothing.
    Nop,
    /// Leave.
    Exit,
}

impl Default for Commands {
    fn default() -> (r: Commands)
        ensures
            r == Commands::Nop,
    {
        Commands::Nop
    }
}

/// The buffers and breakpoints of a session in the form in which they are
/// written to a file.
#[derive(Clone, PartialEq, Eq, Debug)]
pub struct SavedState {
    pub buffers: Vec<(u32, String)>,
    pub buffer_counter: u32,
    pub breakpoints: Vec<(u32, StoredBreakpoint)>,
    pub breakpoint_counter: u32,
}

/// A request of the controller that can fail.
#[derive(Copy, Clone, PartialEq, Eq, Structural, Debug, Hash)]
pub enum Request {
    Step,
    Backtrace,
    Locals,
}

/// What came of a command on the script buffers.
#[derive(Clone, PartialEq, Eq, Debug)]
pub enum BufferOutcome {
    /// Nothing to show.
    Done,
    /// A buffer was added under this number.
    Added(u32),
    /// This text is to be shown.
    Text(String),
    /// There is no buffer with the number given.
    NoSuchBuffer,
    /// No text came back from the editor.
    EditorFailed,
    /// No more buffers can be added.
    Full,
}

/// A `BufferOutcome` with its text as a sequence.
pub enum BufferOutcomeModel {
    Done,
    Added(u32),
    Text(Seq<char>),
    NoSuchBuffer,
    EditorFailed,
    Full,
}

impl View for BufferOutcome {
    type V = BufferOutcomeModel;

    open spec fn view(&self) -> BufferOutcomeModel {
        match *self {
            BufferOutcome::Done => BufferOutcomeModel::Done,
            BufferOutcome::Added(n) => BufferOutcomeModel::Added(n),
            BufferOutcome::Text(s) => BufferOutcomeModel::Text(s@),
            BufferOutcome::NoSuchBuffer => BufferOutcomeModel::NoSuchBuffer,
            BufferOutcome::EditorFailed => BufferOutcomeModel::EditorFailed,
            BufferOutcome::Full => BufferOutcomeModel::Full,
        }
    }
}

/// What the caller has to show or to do after a command.
#[derive(PartialEq, Eq, Debug)]
pub enum Reaction {
    /// Nothing.
    Quiet,
    /// A request to the hook failed.
    Failed(Request, DebugError),
    /// Show this call stack.
    Backtrace(SqBacktrace),
    /// Show these locals.
    Locals(Vec<SqLocalVarWithLvl>),
    /// Show what the examination found.
    Examined(Examination),
    /// The examination did not get to look.
    ExamineFailed(ExamineError),
    /// A breakpoint was added under this number.
    BreakpointAdded(u32),
    /// The breakpoint specification is malformed.
    BreakpointRejected,
    /// No more breakpoints can be added.
    BreakpointsFull,
    /// Show the breakpoints.
    Breakpoints,
    /// What came of a buffer command.
    Buffer(BufferOutcome),
    /// Run this script, or show why it cannot run.
    Evaluate(Result<EvalRequest, EvalError>),
    /// Trace the machine.
    Trace,
    /// Load the session from this file.
    Load(String),
    /// Save this state to this file.
    Save(String, SavedState),
    /// Set this variable.
    SetVar(VarUpdate),
    /// Leave.
    Exit,
}

/// The name of the file that a session is saved to where none is given.
pub open spec fn default_state_filename() -> Seq<char> {
    "state.json"@
}

/// The file that a save or load command names.
pub open spec fn state_path(file: Option<String>) -> Seq<char> {
    match file {
        Some(name) => name@,
        None => default_state_filename(),
    }
}

/// What a step request shows: nothing where it went well, the error where not.
pub open spec fn step_reaction(result: Result<EventWithSrc, DebugError>) -> Reaction {
    match result {
        Ok(_) => Reaction::Quiet,
        Err(e) => Reaction::Failed(Request::Step, e),
    }
}

/// What a backtrace request shows.
pub open spec fn backtrace_reaction(result: Result<SqBacktrace, DebugError>) -> Reaction {
    match result {
        Ok(bt) => Reaction::Backtrace(bt),
        Err(e) => Reaction::Failed(Request::Backtrace, e),
    }
}

/// What a locals request shows.
pub open spec fn locals_reaction(result: Result<Vec<SqLocalVarWithLvl>, DebugError>) -> Reaction {
    match result {
        Ok(locals) => Reaction::Locals(locals),
        Err(e) => Reaction::Failed(Request::Locals, e),
    }
}

/// What an examination shows.
pub open spec fn examine_reaction(result: Result<Examination, ExamineError>) -> Reaction {
    match result {
        Ok(found) => Reaction::Examined(found),
        Err(e) => Reaction::ExamineFailed(e),
    }
}

/// Turns the answer to a step request into what is shown.
pub fn react_to_step(result: Result<EventWithSrc, DebugError>) -> (r: Reaction)
    ensures
        r == step_reaction(result),
{
    match result {
        Ok(_) => Reaction::Quiet,
        Err(e) => Reaction::Failed(Request::Step, e),
    }
}

/// Turns the answer to a backtrace request into what is shown.
pub fn react_to_backtrace(result: Result<SqBacktrace, DebugError>) -> (r: Reaction)
    ensures
        r == backtrace_reaction(result),
{
    match result {
        Ok(bt) => Reaction::Backtrace(bt),
        Err(e) => Reaction::Failed(Request::Backtrace, e),
    }
}

/// Turns the answer to a locals request into what is shown.
pub fn react_to_locals(result: Result<Vec<SqLocalVarWithLvl>, DebugError>) -> (r: Reaction)
    ensures
        r == locals_reaction(result),
{
    match result {
        Ok(locals) => Reaction::Locals(locals),
        Err(e) => Reaction::Failed(Request::Locals, e),
    }
}

/// Turns the result of an examination into what is shown.
pub fn react_to_examine(result: Result<Examination, ExamineError>) -> (r: Reaction)
    ensures
        r == examine_reaction(result),
{
    match result {
        Ok(found) => Reaction::Examined(found),
        Err(e) => Reaction::ExamineFailed(e),
    }
}

/// The heading of a level: an empty line, then the level in a line of its own.
pub open spec fn heading_text(lvl: SqUnsignedInteger) -> Seq<char> {
    "\nLevel "@ + decimal_digits(lvl as nat) + " locals:\n"@
}

/// How a line for a local begins: its name and the kind of its value.
pub open spec fn local_head(var: SqLocalVar) -> Seq<char> {
    var.name@ + ": "@ + type_text(var.val.type_of())
}

/// The line for a local: name and kind, and for a number, a truth value or
/// a string also what it holds, a string between quotes.
pub open spec fn local_pieces(var: SqLocalVar) -> Seq<PieceModel> {
    match var.val {
        DynSqVar::Integer(i) => words(local_head(var) + " = "@ + signed_digits(i as int) + "\n"@),
        DynSqVar::Float(f) => words(local_head(var) + " = "@) + seq![PieceModel::Float(f)] + words(
            "\n"@,
        ),
        DynSqVar::Bool(b) => words(local_head(var) + " = "@ + bool_text(b) + "\n"@),
        DynSqVar::String(s) => words(local_head(var) + " = \""@ + s@ + "\"\n"@),
        _ => words(local_head(var) + "\n"@),
    }
}

/// The level of the local before index `at`; zero, which no local has,
/// before the first.
pub open spec fn level_before(locals: Seq<SqLocalVarWithLvl>, at: int) -> SqUnsignedInteger {
    if at == 0 {
        0
    } else {
        locals[at - 1].lvl
    }
}

/// The report on the first `upto` locals: a line for every local in order,
/// and the heading of its level before each local whose level differs from
/// that of the local before it.
pub open spec fn report_of(locals: Seq<SqLocalVarWithLvl>, upto: nat) -> Seq<PieceModel>
    decreases upto,
{
    if upto == 0 {
        Seq::empty()
    } else {
        let at = (upto - 1) as int;
        let before = report_of(locals, (upto - 1) as nat);
        let headed = if locals[at].lvl != level_before(locals, at) {
            before + words(heading_text(locals[at].lvl))
        } else {
            before
        };
        headed + local_pieces(locals[at].var)
    }
}

/// Appends the line for a local.
fn push_local(report: &mut Vec<ReportPiece>, var: &SqLocalVar)
    ensures
        pieces_view(final(report)@) == pieces_view(old(report)@) + local_pieces(*var),
{
    let ghost before = pieces_view(report@);
    let mut out: Vec<char> = Vec::new();
    push_str(&mut out, var.name.as_str());
    push_str(&mut out, ": ");
    push_type(&mut out, var.val.get_type());
    assert(out@ == local_head(*var));
    match &var.val {
        DynSqVar::Integer(i) => {
            push_str(&mut out, " = ");
            push_signed(&mut out, *i);
            push_str(&mut out, "\n");
            push_text(report, &out);
        },
        DynSqVar::Float(f) => {
            push_str(&mut out, " = ");
            push_text(report, &out);
            push_float(report, *f);
            let mut end: Vec<char> = Vec::new();
            push_str(&mut end, "\n");
            push_text(report, &end);
        },
        DynSqVar::Bool(b) => {
            push_str(&mut out, " = ");
            push_bool(&mut out, *b);
            push_str(&mut out, "\n");
            push_text(report, &out);
        },
        DynSqVar::String(s) => {
            push_str(&mut out, " = \"");
            push_str(&mut out, s.as_str());
            push_str(&mut out, "\"\n");
            push_text(report, &out);
        },
        _ => {
            push_str(&mut out, "\n");
            push_text(report, &out);
        },
    }
    assert(pieces_view(report@) == before + local_pieces(*var));
}

/// The report on a list of locals, level by level.
pub fn print_locals(locals: &Vec<SqLocalVarWithLvl>) -> (r: Vec<ReportPiece>)
    ensures
        pieces_view(r@) == report_of(locals@, locals@.len()),
{
    let mut r: Vec<ReportPiece> = Vec::new();
    let mut curr_lvl: SqUnsignedInteger = 0;
    let mut i: usize = 0;
    while i < locals.len()
        invariant
            i <= locals.len(),
            curr_lvl == level_before(locals@, i as int),
            pieces_view(r@) == report_of(locals@, i as nat),
        decreases locals.len() - i,
    {
        let lvl = locals[i].lvl;
        if lvl != curr_lvl {
            let mut heading: Vec<char> = Vec::new();
            push_str(&mut heading, "\nLevel ");
            push_decimal(&mut heading, lvl as u64);
            push_str(&mut heading, " locals:\n");
            push_text(&mut r, &heading);
            curr_lvl = lvl;
        }
        push_local(&mut r, &locals[i].var);
        i += 1;
    }
    r
}

/// The front end of the debugger: the last command given, the script
/// buffers, and whether an evaluation is going on.
#[derive(Debug)]
pub struct DebuggerFrontend {
    last_cmd: Commands,
    buffers: ScriptBuffers,
    during_eval: bool,
}

impl DebuggerFrontend {
    /// The command that `do_actions` carries out.
    pub closed spec fn command(&self) -> Commands {
        self.last_cmd
    }

    /// The script buffers.
    pub closed spec fn buffers(&self) -> ScriptBuffers {
        self.buffers
    }

    /// Whether an evaluation is going on.
    pub closed spec fn evaluating(&self) -> bool {
        self.during_eval
    }

    /// The invariant: that of the buffers.
    pub open spec fn wf(&self) -> bool {
        self.buffers().wf()
    }

    /// Whether two front ends hold the same buffers and the same guard.
    pub open spec fn same_session(&self, other: &Self) -> bool {
        &&& self.buffers()@ == other.buffers()@
        &&& self.buffers().next_number() == other.buffers().next_number()
        &&& self.evaluating() == other.evaluating()
    }

    /// A front end with no buffers, no evaluation going on and nothing to do.
    pub fn new() -> (r: Self)
        ensures
            r.command() == Commands::Nop,
            r.buffers()@ == Seq::<(u32, Seq<char>)>::empty(),
            r.buffers().next_number() == 1,
            !r.evaluating(),
            r.wf(),
    {
        DebuggerFrontend {
            last_cmd: Commands::default(),
            buffers: ScriptBuffers::new(),
            during_eval: false,
        }
    }

    /// Whether the invariant holds. It does for every front end that this
    /// module hands out.
    pub fn is_sound(&self) -> (r: bool)
        ensures
            r == self.wf(),
    {
        self.buffers.is_sound()
    }

    /// The command that `do_actions` carries out.
    pub fn last_command(&self) -> (r: &Commands)
        ensures
            *r == self.command(),
    {
        &self.last_cmd
    }

    /// The script buffers.
    pub fn script_buffers(&self) -> (r: &ScriptBuffers)
        ensures
            *r == self.buffers(),
    {
        &self.buffers
    }

    /// Whether an evaluation is going on.
    pub fn is_evaluating(&self) -> (r: bool)
        ensures
            r == self.evaluating(),
    {
        self.during_eval
    }

    /// The words of a command line: the line without outer white space, cut
    /// at every single space.
    pub open spec fn words_of(args: Seq<char>) -> Seq<Seq<char>> {
        split_on(trimmed(args), ' ')
    }

    /// The texts of a list of strings.
    pub open spec fn texts(words: Seq<String>) -> Seq<Seq<char>> {
        Seq::new(words.len(), |i: int| words[i]@)
    }

    /// Cuts a command line into its words.
    pub fn split_args(args: &str) -> (r: Vec<String>)
        ensures
            Self::texts(r@) == Self::words_of(args@),
    {
        let pieces = split(&trim(&to_chars(args)), ' ');
        let mut r: Vec<String> = Vec::new();
        let mut i: usize = 0;
        while i < pieces.len()
            invariant
                i <= pieces.len(),
                rows(pieces@) == Self::words_of(args@),
                Self::texts(r@) == Self::words_of(args@).take(i as int),
            decreases pieces.len() - i,
        {
            let ghost before = Self::texts(r@);
            let word = from_chars(&pieces[i]);
            assert(word@ == rows(pieces@)[i as int]);
            r.push(word);
            assert(Self::texts(r@) == before.push(word@));
            assert(Self::words_of(args@).take(i + 1) == Self::words_of(args@).take(i as int).push(
                word@,
            ));
            i += 1;
        }
        assert(Self::words_of(args@).take(pieces.len() as int) == Self::words_of(args@));
        r
    }

    /// Takes what parsing a command line gave: a command becomes the one to
    /// carry out, an error is handed back and changes nothing.
    pub fn parse_args<E>(&mut self, parsed: Result<Commands, E>) -> (r: Result<(), E>)
        ensures
            match parsed {
                Ok(cmd) => r.is_ok() && final(self).command() == cmd,
                Err(e) => r == Err::<(), E>(e) && final(self).command() == old(self).command(),
            },
            final(self).buffers() == old(self).buffers(),
            final(self).evaluating() == old(self).evaluating(),
    {
        match parsed {
            Ok(cmd) => {
                self.last_cmd = cmd;
                Ok(())
            },
            Err(e) => Err(e),
        }
    }

    /// What a `set` command changes.
    pub fn set_var(var: &SetCommands) -> (r: VarUpdate)
        ensures
            r == match *var {
                SetCommands::PrintfHook { active } => VarUpdate::PrintfHook(
                    active == BoolVal::True,
                ),
            },
    {
        match var {
            SetCommands::PrintfHook { active } => VarUpdate::PrintfHook(bool::from(*active)),
        }
    }
}

impl DebuggerFrontend {
    /// The index of the buffer that an evaluation of `buffer` runs, if it
    /// names one that exists.
    pub open spec fn chosen(&self, buffer: Option<u32>) -> Option<int> {
        match buffer {
            Some(number) => first_with(self.buffers()@, number),
            None => None,
        }
    }

    /// Whether `r` is what making `script` ready gives, and the guard of
    /// `after` is set exactly if it went well.
    pub open spec fn prepared_as(
        script: Seq<char>,
        debug: bool,
        after: &Self,
        r: Result<EvalRequest, EvalError>,
    ) -> bool {
        match prepared(script) {
            Ok((text, capture)) => {
                &&& r.is_ok()
                &&& r.unwrap().script@ == text
                &&& capture_view(r.unwrap().capture@) == capture
                &&& r.unwrap().debug == debug
                &&& after.evaluating()
            },
            Err(e) => r.is_err() && r.unwrap_err()@ == e && !after.evaluating(),
        }
    }

    /// What a request for an evaluation does. While an evaluation is going
    /// on it is refused and nothing changes. Else the script is the buffer
    /// chosen, or the text just written, which becomes a new buffer; it is
    /// made ready, and the guard is set if that went well.
    pub open spec fn eval_result(
        before: &Self,
        debug: bool,
        buffer: Option<u32>,
        edited: Option<String>,
        after: &Self,
        r: Result<EvalRequest, EvalError>,
    ) -> bool {
        if before.evaluating() {
            r.is_err() && r.unwrap_err()@ == EvalErrorModel::DuringEval && after.same_session(before)
        } else {
            match before.chosen(buffer) {
                Some(at) => {
                    &&& after.buffers()@ == before.buffers()@
                    &&& after.buffers().next_number() == before.buffers().next_number()
                    &&& Self::prepared_as(before.buffers()@[at].1, debug, after, r)
                },
                None => match edited {
                    None => r.is_err() && r.unwrap_err()@ == EvalErrorModel::NoScript
                        && after.same_session(before),
                    Some(text) => if before.buffers().next_number() == u32::MAX {
                        r.is_err() && r.unwrap_err()@ == EvalErrorModel::BuffersFull
                            && after.same_session(before)
                    } else {
                        &&& after.buffers()@ == before.buffers()@.push(
                            (before.buffers().next_number(), text@),
                        )
                        &&& after.buffers().next_number() == before.buffers().next_number() + 1
                        &&& Self::prepared_as(text@, debug, after, r)
                    },
                },
            }
        }
    }

    /// Makes a script ready to run and sets the guard. `edited` is the text
    /// that the user wrote, for the case that `buffer` names no buffer.
    pub fn eval_script(&mut self, debug: bool, buffer: Option<u32>, edited: Option<String>) -> (r:
        Result<EvalRequest, EvalError>)
        requires
            old(self).wf(),
        ensures
            final(self).wf(),
            final(self).command() == old(self).command(),
            Self::eval_result(old(self), debug, buffer, edited, final(self), r),
    {
        if self.during_eval {
            return Err(EvalError::DuringEval);
        }
        let existing: Option<&String> = match buffer {
            Some(number) => self.buffers.get(number),
            None => None,
        };
        let made = match existing {
            Some(text) => prepare(text.as_str()),
            None => match edited {
                None => {
                    return Err(EvalError::NoScript);
                },
                Some(text) => {
                    if self.buffers.is_full() {
                        return Err(EvalError::BuffersFull);
                    }
                    let made = prepare(text.as_str());
                    self.buffers.add(text);
                    made
                },
            },
        };
        match made {
            Ok((script, capture)) => {
                self.during_eval = true;
                Ok(EvalRequest { script, capture, debug })
            },
            Err(e) => Err(e),
        }
    }

    /// Whether an evaluation is over as soon as it was started: a plain one
    /// is, and so is one under the debugger that could not be started. One
    /// that runs under the debugger is over when its result is there.
    pub open spec fn over_at_once(debug: bool, started: bool) -> bool {
        !debug || !started
    }

    /// Takes note of how the start of an evaluation went, and clears the
    /// guard if the evaluation is over with that.
    pub fn eval_started(&mut self, debug: bool, started: bool)
        ensures
            final(self).evaluating() == (old(self).evaluating() && !Self::over_at_once(
                debug,
                started,
            )),
            final(self).buffers() == old(self).buffers(),
            final(self).command() == old(self).command(),
    {
        if !debug || !started {
            self.during_eval = false;
        }
    }

    /// Clears the guard: the evaluation is over.
    pub fn finish_eval(&mut self)
        ensures
            !final(self).evaluating(),
            final(self).buffers() == old(self).buffers(),
            final(self).command() == old(self).command(),
    {
        self.during_eval = false;
    }

    /// What a buffer command does to the buffers and what it gives back.
    pub open spec fn buffer_result(
        before: &Self,
        cmd: BufferCommands,
        edited: Option<String>,
        after: &Self,
        r: BufferOutcome,
    ) -> bool {
        let was = before.buffers()@;
        let next = before.buffers().next_number();
        &&& after.evaluating() == before.evaluating()
        &&& match cmd {
            BufferCommands::New => match edited {
                None => r@ == BufferOutcomeModel::EditorFailed && after.same_session(before),
                Some(text) => if next == u32::MAX {
                    r@ == BufferOutcomeModel::Full && after.same_session(before)
                } else {
                    &&& r@ == BufferOutcomeModel::Added(next)
                    &&& after.buffers()@ == was.push((next, text@))
                    &&& after.buffers().next_number() == next + 1
                },
            },
            BufferCommands::Delete { num } => {
                &&& r@ == BufferOutcomeModel::Done
                &&& after.buffers().next_number() == next
                &&& after.buffers()@ == match first_with(was, num) {
                    Some(at) => was.remove(at),
                    None => was,
                }
            },
            BufferCommands::Edit { num } => match first_with(was, num) {
                None => r@ == BufferOutcomeModel::NoSuchBuffer && after.same_session(before),
                Some(at) => match edited {
                    None => r@ == BufferOutcomeModel::EditorFailed && after.same_session(before),
                    Some(text) => {
                        &&& r@ == BufferOutcomeModel::Done
                        &&& after.buffers().next_number() == next
                        &&& after.buffers()@ == was.update(at, (num, text@))
                    },
                },
            },
            BufferCommands::Print { num } => after.same_session(before) && match first_with(
                was,
                num,
            ) {
                Some(at) => r@ == BufferOutcomeModel::Text(was[at].1),
                None => r@ == BufferOutcomeModel::NoSuchBuffer,
            },
            BufferCommands::List => after.same_session(before) && r@ == BufferOutcomeModel::Text(
                listing_of(was),
            ),
        }
    }

    /// Carries out a buffer command. `edited` is the text that the user
    /// wrote, for the commands that open an editor.
    pub fn manipulate_buffer(&mut self, cmd: BufferCommands, edited: Option<String>) -> (r:
        BufferOutcome)
        requires
            old(self).wf(),
        ensures
            final(self).wf(),
            final(self).command() == old(self).command(),
            Self::buffer_result(old(self), cmd, edited, final(self), r),
    {
        match cmd {
            BufferCommands::New => match edited {
                None => BufferOutcome::EditorFailed,
                Some(text) => {
                    if self.buffers.is_full() {
                        BufferOutcome::Full
                    } else {
                        BufferOutcome::Added(self.buffers.add(text))
                    }
                },
            },
            BufferCommands::Delete { num } => {
                self.buffers.delete(num);
                BufferOutcome::Done
            },
            BufferCommands::Edit { num } => {
                if self.buffers.get(num).is_none() {
                    BufferOutcome::NoSuchBuffer
                } else {
                    match edited {
                        None => BufferOutcome::EditorFailed,
                        Some(text) => {
                            self.buffers.replace(num, text);
                            BufferOutcome::Done
                        },
                    }
                }
            },
            BufferCommands::Print { num } => match self.buffers.get(num) {
                Some(text) => BufferOutcome::Text(text.clone()),
                None => BufferOutcome::NoSuchBuffer,
            },
            BufferCommands::List => BufferOutcome::Text(self.buffers.to_string()),
        }
    }

    /// The text that an editor is to open with before the pending command
    /// is carried out; `None` where the command opens no editor.
    pub open spec fn editor_text(&self) -> Option<Seq<char>> {
        match self.command() {
            Commands::Buffer(BufferCommands::New) => Some(Seq::empty()),
            Commands::Buffer(BufferCommands::Edit { num }) => match first_with(
                self.buffers()@,
                num,
            ) {
                Some(at) => Some(self.buffers()@[at].1),
                None => None,
            },
            Commands::Evaluate { debug, buffer } => if !self.evaluating() && self.chosen(
                buffer,
            ).is_none() {
                Some(Seq::empty())
            } else {
                None
            },
            _ => None,
        }
    }

    /// The text that an editor is to open with before `do_actions`.
    pub fn editor_request(&self) -> (r: Option<String>)
        ensures
            match self.editor_text() {
                Some(text) => r.is_some() && r.unwrap()@ == text,
                None => r.is_none(),
            },
    {
        match &self.last_cmd {
            Commands::Buffer(BufferCommands::New) => Some(String::new()),
            Commands::Buffer(BufferCommands::Edit { num }) => match self.buffers.get(*num) {
                Some(text) => Some(text.clone()),
                None => None,
            },
            Commands::Evaluate { debug, buffer } => {
                let exists = match buffer {
                    Some(number) => self.buffers.get(*number).is_some(),
                    None => false,
                };
                if !self.during_eval && !exists {
                    Some(String::new())
                } else {
                    None
                }
            },
            _ => None,
        }
    }

    /// The state of the session in the form in which it is written to a file.
    pub fn save(&self, breakpoints: &BreakpointStore) -> (r: SavedState)
        ensures
            texts_view(r.buffers@) == self.buffers()@,
            r.buffer_counter == self.buffers().next_number(),
            stored_view(r.breakpoints@) == breakpoints@,
            r.breakpoint_counter == breakpoints.next_number(),
    {
        let (buffers, buffer_counter) = self.buffers.copy().into_parts();
        let (stored, breakpoint_counter) = breakpoints.copy().into_parts();
        SavedState { buffers, buffer_counter, breakpoints: stored, breakpoint_counter }
    }

    /// Takes over a state that was read from a file: its buffers become the
    /// buffers of the session and its breakpoints are handed back. A state
    /// whose numbering is unsound is refused and changes nothing.
    pub fn load(&mut self, state: SavedState) -> (r: Option<BreakpointStore>)
        ensures
            final(self).command() == old(self).command(),
            final(self).evaluating() == old(self).evaluating(),
            match (
                ScriptBuffers::restored(state.buffers@, state.buffer_counter),
                BreakpointStore::restored(state.breakpoints@, state.breakpoint_counter),
            ) {
                (Some((texts, next)), Some((stored, number))) => {
                    &&& r.is_some()
                    &&& r.unwrap()@ == stored
                    &&& r.unwrap().next_number() == number
                    &&& r.unwrap().wf()
                    &&& final(self).buffers()@ == texts
                    &&& final(self).buffers().next_number() == next
                    &&& final(self).wf()
                },
                _ => r.is_none() && final(self).buffers() == old(self).buffers(),
            },
    {
        let buffers = ScriptBuffers::restore(state.buffers, state.buffer_counter);
        let breakpoints = BreakpointStore::restore(state.breakpoints, state.breakpoint_counter);
        match (buffers, breakpoints) {
            (Some(b), Some(s)) => {
                self.buffers = b;
                Some(s)
            },
            _ => None,
        }
    }
}

impl DebuggerFrontend {
    /// What adding the breakpoint that `spec` describes does to the store
    /// and gives back: a malformed specification is rejected, a full store
    /// takes no more, and both leave the store as it was; else the
    /// breakpoint is added, enabled, under the next number.
    pub open spec fn added_as(
        store: &BreakpointStore,
        spec: Seq<char>,
        after_store: &BreakpointStore,
        r: Reaction,
    ) -> bool {
        let same_store = after_store@ == store@ && after_store.next_number()
            == store.next_number();
        match breakpoint_of(spec) {
            None => r == Reaction::BreakpointRejected && same_store,
            Some(bp) => if store.next_number() == u32::MAX {
                r == Reaction::BreakpointsFull && same_store
            } else {
                &&& r == Reaction::BreakpointAdded(store.next_number())
                &&& after_store@ == store@.push((store.next_number(), (true, bp)))
                &&& after_store.next_number() == store.next_number() + 1
            },
        }
    }

    /// Reads a breakpoint specification and adds the breakpoint to the store.
    pub fn add_breakpoint(breakpoints: &mut BreakpointStore, spec: &str) -> (r: Reaction)
        requires
            old(breakpoints).wf(),
        ensures
            final(breakpoints).wf(),
            Self::added_as(old(breakpoints), spec@, final(breakpoints), r),
    {
        match parse_breakpoint(spec) {
            None => Reaction::BreakpointRejected,
            Some(bp) => match breakpoints.add(bp) {
                Some(number) => Reaction::BreakpointAdded(number),
                None => Reaction::BreakpointsFull,
            },
        }
    }

    /// What carrying out the pending command does to the session and gives
    /// back, for the commands that do not ask the hook for anything.
    pub open spec fn local_result(
        before: &Self,
        store: &BreakpointStore,
        edited: Option<String>,
        after: &Self,
        after_store: &BreakpointStore,
        r: Reaction,
    ) -> bool {
        let same_store = after_store@ == store@ && after_store.next_number()
            == store.next_number();
        match before.command() {
            Commands::Continue => r == Reaction::Quiet && after.same_session(before) && same_store,
            Commands::BreakpointAdd { spec } => after.same_session(before) && Self::added_as(
                store,
                spec@,
                after_store,
                r,
            ),
            Commands::BreakpointEnable { num } => {
                &&& r == Reaction::Quiet
                &&& after.same_session(before)
                &&& after_store@ == with_enabled(store@, num, true)
                &&& after_store.next_number() == store.next_number()
            },
            Commands::BreakpointDisable { num } => {
                &&& r == Reaction::Quiet
                &&& after.same_session(before)
                &&& after_store@ == with_enabled(store@, num, false)
                &&& after_store.next_number() == store.next_number()
            },
            Commands::BreakpointClear { num } => {
                &&& r == Reaction::Quiet
                &&& after.same_session(before)
                &&& after_store@ == without(store@, num)
                &&& after_store.next_number() == store.next_number()
            },
            Commands::BreakpointList => r == Reaction::Breakpoints && after.same_session(before)
                && same_store,
            Commands::Evaluate { debug, buffer } => {
                &&& same_store
                &&& r matches Reaction::Evaluate(made)
                &&& Self::eval_result(before, debug, buffer, edited, after, made)
            },
            Commands::Buffer(cmd) => {
                &&& same_store
                &&& r matches Reaction::Buffer(outcome)
                &&& Self::buffer_result(before, cmd, edited, after, outcome)
            },
            Commands::Trace => r == Reaction::Trace && after.same_session(before) && same_store,
            Commands::Load { file } => {
                &&& after.same_session(before)
                &&& same_store
                &&& r matches Reaction::Load(path)
                &&& path@ == state_path(file)
            },
            Commands::Save { file } => {
                &&& after.same_session(before)
                &&& same_store
                &&& r matches Reaction::Save(path, state)
                &&& path@ == state_path(file)
                &&& texts_view(state.buffers@) == before.buffers()@
                &&& state.buffer_counter == before.buffers().next_number()
                &&& stored_view(state.breakpoints@) == store@
                &&& state.breakpoint_counter == store.next_number()
            },
            Commands::SetVar(SetCommands::PrintfHook { active }) => r == Reaction::SetVar(
                VarUpdate::PrintfHook(active == BoolVal::True),
            ) && after.same_session(before) && same_store,
            Commands::Nop => r == Reaction::Quiet && after.same_session(before) && same_store,
            Commands::Exit => r == Reaction::Exit && after.same_session(before) && same_store,
            _ => true,
        }
    }

    /// What carrying out `cmd` gives back, for the commands
    /// that ask the hook: what the request shows for whatever the hook, or
    /// the wait for it, answered.
    pub open spec fn remote_result(cmd: Commands, r: Reaction) -> bool {
        match cmd {
            Commands::Step => exists|got: Result<DebugResp, RecvFailure>|
                r == step_reaction(#[trigger] event_of(got)),
            Commands::Backtrace => exists|got: Result<DebugResp, RecvFailure>|
                r == backtrace_reaction(#[trigger] backtrace_of(got)),
            Commands::Locals { level } => exists|got: Result<DebugResp, RecvFailure>|
                r == locals_reaction(#[trigger] locals_of(level, got)),
            Commands::Examine { target, level, depth } => exists|
                result: Result<Examination, ExamineError>,
            |
                examination_of(target@, level, depth, result) && r == #[trigger] examine_reaction(
                    result,
                ),
            _ => true,
        }
    }

    /// Whether a command asks the hook for something.
    pub open spec fn is_remote(cmd: Commands) -> bool {
        cmd is Step || cmd is Backtrace || cmd is Locals || cmd is Examine
    }

    /// The file that a save or load command names.
    fn path_of(file: &Option<String>) -> (r: String)
        ensures
            r@ == state_path(*file),
    {
        match file {
            Some(name) => name.clone(),
            None => from_chars(&to_chars("state.json")),
        }
    }

    /// Carries out the pending command. Requests go to the hook through
    /// `dbg`; breakpoints are kept in `breakpoints`; `edited` is the text that
    /// the user wrote, for the commands that open an editor. What is to be
    /// shown, and what only the caller can do, comes back.
    pub fn do_actions(
        &mut self,
        dbg: &SqDebugger,
        breakpoints: &mut BreakpointStore,
        edited: Option<String>,
    ) -> (r: Reaction)
        requires
            old(self).wf(),
            old(breakpoints).wf(),
        ensures
            final(self).wf(),
            final(breakpoints).wf(),
            final(self).command() == old(self).command(),
            Self::local_result(
                old(self),
                old(breakpoints),
                edited,
                final(self),
                final(breakpoints),
                r,
            ),
            Self::remote_result(old(self).command(), r),
            Self::is_remote(old(self).command()) ==> final(self).same_session(old(self))
                && final(breakpoints)@ == old(breakpoints)@ && final(breakpoints).next_number()
                == old(breakpoints).next_number(),
    {
        let cmd = self.last_cmd.clone_command();
        match cmd {
            Commands::Step => {
                let result = dbg.step();
                react_to_step(result)
            },
            Commands::Continue => {
                dbg.resume();
                Reaction::Quiet
            },
            Commands::Backtrace => {
                let result = dbg.get_backtrace();
                react_to_backtrace(result)
            },
            Commands::Locals { level } => {
                let result = dbg.get_locals(level);
                react_to_locals(result)
            },
            Commands::Examine { target, level, depth } => {
                let result = examine(dbg, target.as_str(), level, depth);
                react_to_examine(result)
            },
            Commands::BreakpointAdd { spec } => Self::add_breakpoint(breakpoints, spec.as_str()),
            Commands::BreakpointEnable { num } => {
                breakpoints.enable(num, true);
                Reaction::Quiet
            },
            Commands::BreakpointDisable { num } => {
                breakpoints.enable(num, false);
                Reaction::Quiet
            },
            Commands::BreakpointClear { num } => {
                breakpoints.remove(num);
                Reaction::Quiet
            },
            Commands::BreakpointList => Reaction::Breakpoints,
            Commands::Evaluate { debug, buffer } => Reaction::Evaluate(
                self.eval_script(debug, buffer, edited),
            ),
            Commands::Buffer(buffer_cmd) => Reaction::Buffer(
                self.manipulate_buffer(buffer_cmd, edited),
            ),
            Commands::Trace => Reaction::Trace,
            Commands::Load { file } => Reaction::Load(Self::path_of(&file)),
            Commands::Save { file } => Reaction::Save(Self::path_of(&file), self.save(breakpoints)),
            Commands::SetVar(var) => Reaction::SetVar(Self::set_var(&var)),
            Commands::Nop => Reaction::Quiet,
            Commands::Exit => Reaction::Exit,
        }
    }
}

impl Commands {
    /// A copy of this command.
    pub fn clone_command(&self) -> (r: Commands)
        ensures
            r == *self,
    {
        match self {
            Commands::Step => Commands::Step,
            Commands::Continue => Commands::Continue,
            Commands::Backtrace => Commands::Backtrace,
            Commands::Locals { level } => Commands::Locals { level: *level },
            Commands::Examine { target, level, depth } => Commands::Examine {
                target: target.clone(),
                level: *level,
                depth: *depth,
            },
            Commands::BreakpointAdd { spec } => Commands::BreakpointAdd { spec: spec.clone() },
            Commands::BreakpointEnable { num } => Commands::BreakpointEnable { num: *num },
            Commands::BreakpointDisable { num } => Commands::BreakpointDisable { num: *num },
            Commands::BreakpointClear { num } => Commands::BreakpointClear { num: *num },
            Commands::BreakpointList => Commands::BreakpointList,
            Commands::Evaluate { debug, buffer } => Commands::Evaluate {
                debug: *debug,
                buffer: *buffer,
            },
            Commands::Buffer(cmd) => Commands::Buffer(*cmd),
            Commands::Trace => Commands::Trace,
            Commands::SetVar(var) => Commands::SetVar(*var),
            Commands::Save { file } => Commands::Save {
                file: match file {
                    Some(name) => Some(name.clone()),
                    None => None,
                },
            },
            Commands::Load { file } => Commands::Load {
                file: match file {
                    Some(name) => Some(name.clone()),
                    None => None,
                },
            },
            Commands::Nop => Commands::Nop,
            Commands::Exit => Commands::Exit,
        }
    }
}

/// A request for an evaluation while one is going on is refused and changes
/// nothing; once the guard is cleared, a request for a buffer whose text can
/// be made ready succeeds and sets the guard.
pub proof fn lemma_eval_guard(
    before: DebuggerFrontend,
    debug: bool,
    buffer: Option<u32>,
    edited: Option<String>,
    after: DebuggerFrontend,
    r: Result<EvalRequest, EvalError>,
)
    requires
        DebuggerFrontend::eval_result(&before, debug, buffer, edited, &after, r),
    ensures
        before.evaluating() ==> r.is_err() && r.unwrap_err()@ == EvalErrorModel::DuringEval
            && after.same_session(&before),
        !before.evaluating() && before.chosen(buffer).is_some() && prepared(
            before.buffers()@[before.chosen(buffer).unwrap()].1,
        ).is_ok() ==> r.is_ok() && after.evaluating(),
{
}

/// Save, then load: making a session of the state that a session was saved
/// as gives the same buffers and the same breakpoints, in the same order and
/// under the same numbers.
pub proof fn lemma_save_load_round_trip(
    buffers: ScriptBuffers,
    store: BreakpointStore,
    state: SavedState,
)
    requires
        buffers.wf(),
        store.wf(),
        texts_view(state.buffers@) == buffers@,
        state.buffer_counter == buffers.next_number(),
        stored_view(state.breakpoints@) == store@,
        state.breakpoint_counter == store.next_number(),
    ensures
        ScriptBuffers::restored(state.buffers@, state.buffer_counter) == Some(
            (buffers@, buffers.next_number()),
        ),
        BreakpointStore::restored(state.breakpoints@, state.breakpoint_counter) == Some(
            (store@, store.next_number()),
        ),
{
}

} // verus!
