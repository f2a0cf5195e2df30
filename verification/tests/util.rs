use sq_common::breakpoint::{BreakpointStore, SqBreakpoint};
use sq_common::dbg::{DebugError, SqDebugger, SqLocalVarWithLvl};
use sq_common::eval::{EvalError, EvalRequest};
use sq_common::path::ExamineError;
use sq_common::report::ReportPiece;
use sq_common::sq::{DynSqVar, SqFloat, SqInstance, SqLocalVar};
use sq_common::util::{
    print_locals, react_to_backtrace, react_to_locals, react_to_step, BoolVal, BufferCommands,
    BufferOutcome, Commands, DebuggerFrontend, Reaction, Request, SavedState,
    SetCommands, VarUpdate,
};

fn s(text: &str) -> String {
    text.to_string()
}

fn local(name: &str, lvl: u32) -> SqLocalVarWithLvl {
    SqLocalVarWithLvl { var: SqLocalVar { name: s(name), val: DynSqVar::Null }, lvl }
}

fn run(front: &mut DebuggerFrontend, cmd: Commands, edited: Option<&str>) -> Reaction {
    let (dbg, _hook) = SqDebugger::attach();
    let mut store = BreakpointStore::new();
    run_with(front, &dbg, &mut store, cmd, edited)
}

fn run_with(
    front: &mut DebuggerFrontend,
    dbg: &SqDebugger,
    store: &mut BreakpointStore,
    cmd: Commands,
    edited: Option<&str>,
) -> Reaction {
    let parsed: Result<Commands, String> = Ok(cmd);
    assert_eq!(front.parse_args(parsed), Ok(()));
    front.do_actions(dbg, store, edited.map(s))
}

#[test]
fn new_front_end_has_nothing_to_do() {
    let front = DebuggerFrontend::new();
    assert_eq!(front.last_command(), &Commands::Nop);
    assert!(!front.is_evaluating());
    assert_eq!(front.script_buffers().len(), 0);
    assert_eq!(Commands::default(), Commands::Nop);
}

#[test]
fn parse_args_keeps_the_last_command_on_an_error() {
    let mut front = DebuggerFrontend::new();
    let ok: Result<Commands, String> = Ok(Commands::Step);
    assert_eq!(front.parse_args(ok), Ok(()));
    let bad: Result<Commands, String> = Err(s("unknown command"));
    assert_eq!(front.parse_args(bad), Err(s("unknown command")));
    assert_eq!(front.last_command(), &Commands::Step);
}

#[test]
fn command_line_is_cut_at_single_spaces() {
    assert_eq!(DebuggerFrontend::split_args("  x this.a  2 \n"), vec!["x", "this.a", "", "2"]);
    assert_eq!(DebuggerFrontend::split_args(""), vec![""]);
    assert_eq!(DebuggerFrontend::split_args("bt"), vec!["bt"]);
}

#[test]
fn set_var_turns_the_switch_into_a_value() {
    assert_eq!(
        DebuggerFrontend::set_var(&SetCommands::PrintfHook { active: BoolVal::True }),
        VarUpdate::PrintfHook(true)
    );
    assert_eq!(
        DebuggerFrontend::set_var(&SetCommands::PrintfHook { active: BoolVal::False }),
        VarUpdate::PrintfHook(false)
    );
    assert!(bool::from(BoolVal::True));
    assert!(!bool::from(BoolVal::False));
}

fn text(t: &str) -> ReportPiece {
    ReportPiece::Text(s(t))
}

#[test]
fn locals_are_listed_under_a_heading_per_level() {
    let locals = vec![local("a", 1), local("b", 1), local("c", 2), local("d", 1)];
    assert_eq!(
        print_locals(&locals),
        vec![
            text("\nLevel 1 locals:\n"),
            text("a: Null\n"),
            text("b: Null\n"),
            text("\nLevel 2 locals:\n"),
            text("c: Null\n"),
            text("\nLevel 1 locals:\n"),
            text("d: Null\n"),
        ]
    );
    assert_eq!(print_locals(&vec![]), vec![]);
    assert_eq!(print_locals(&vec![local("z", 0)]), vec![text("z: Null\n")]);
}

#[test]
fn locals_show_what_plain_values_hold() {
    let var = |name: &str, val: DynSqVar| SqLocalVarWithLvl {
        var: SqLocalVar { name: s(name), val },
        lvl: 4294967295,
    };
    let locals = vec![
        var("i", DynSqVar::Integer(-2147483648)),
        var("f", DynSqVar::Float(SqFloat::from_bits(0x3fc0_0000))),
        var("yes", DynSqVar::Bool(true)),
        var("no", DynSqVar::Bool(false)),
        var("s", DynSqVar::String(s("a \"b\""))),
        var("t", DynSqVar::Table(vec![(DynSqVar::Integer(1), DynSqVar::Null)])),
        var("n", DynSqVar::NativeClosure),
    ];
    assert_eq!(
        print_locals(&locals),
        vec![
            text("\nLevel 4294967295 locals:\n"),
            text("i: Integer = -2147483648\n"),
            text("f: Float = "),
            ReportPiece::Float(SqFloat::from_bits(0x3fc0_0000)),
            text("\n"),
            text("yes: Bool = true\n"),
            text("no: Bool = false\n"),
            text("s: String = \"a \"b\"\"\n"),
            text("t: Table\n"),
            text("n: NativeClosure\n"),
        ]
    );
}

#[test]
fn kinds_of_values_are_named_as_they_are_written() {
    let all = vec![
        DynSqVar::Null,
        DynSqVar::Integer(0),
        DynSqVar::Float(SqFloat::from_bits(0)),
        DynSqVar::Bool(false),
        DynSqVar::String(s("")),
        DynSqVar::Table(vec![]),
        DynSqVar::Class(vec![]),
        DynSqVar::Instance(SqInstance { this: vec![] }),
        DynSqVar::Array(vec![]),
        DynSqVar::Closure,
        DynSqVar::NativeClosure,
        DynSqVar::Generator,
        DynSqVar::UserData,
        DynSqVar::UserPointer,
        DynSqVar::Thread,
        DynSqVar::FuncProto,
        DynSqVar::WeakRef,
    ];
    for val in all {
        let name = format!("{:?}", val.get_type());
        let pieces = print_locals(&vec![SqLocalVarWithLvl {
            var: SqLocalVar { name: s("x"), val },
            lvl: 0,
        }]);
        match &pieces[0] {
            ReportPiece::Text(line) => assert!(line.starts_with(&format!("x: {name}")), "{line}"),
            other => panic!("{other:?}"),
        }
    }
}

#[test]
fn reactions_to_answers() {
    assert_eq!(react_to_step(Err(DebugError::Timeout)), Reaction::Failed(Request::Step, DebugError::Timeout));
    assert_eq!(react_to_backtrace(Ok(vec![])), Reaction::Backtrace(vec![]));
    assert_eq!(
        react_to_locals(Err(DebugError::NoLocals(None))),
        Reaction::Failed(Request::Locals, DebugError::NoLocals(None))
    );
    assert_eq!(react_to_locals(Ok(vec![local("a", 1)])), Reaction::Locals(vec![local("a", 1)]));
}

#[test]
fn evaluation_is_refused_while_one_is_going_on() {
    let mut front = DebuggerFrontend::new();
    let first = front.eval_script(false, None, Some(s("print(1)")));
    assert_eq!(first, Ok(EvalRequest { script: s("print(1)"), capture: vec![], debug: false }));
    assert!(front.is_evaluating());
    let before = front.script_buffers().entries().clone();
    assert_eq!(front.eval_script(true, Some(1), Some(s("other"))), Err(EvalError::DuringEval));
    assert_eq!(front.script_buffers().entries(), &before);
    assert!(front.is_evaluating());
    front.finish_eval();
    assert!(!front.is_evaluating());
    let again = front.eval_script(true, Some(1), None);
    assert_eq!(again, Ok(EvalRequest { script: s("print(1)"), capture: vec![], debug: true }));
}

#[test]
fn evaluation_of_a_new_text_adds_a_buffer() {
    let mut front = DebuggerFrontend::new();
    let made = front.eval_script(false, Some(7), Some(s("|1.a|\nreturn a")));
    assert_eq!(
        made,
        Ok(EvalRequest { script: s("return a"), capture: vec![(s("a"), 1)], debug: false })
    );
    assert_eq!(front.script_buffers().entries(), &vec![(1, s("|1.a|\nreturn a"))]);
}

#[test]
fn evaluation_without_a_script_fails_and_sets_no_guard() {
    let mut front = DebuggerFrontend::new();
    assert_eq!(front.eval_script(false, None, None), Err(EvalError::NoScript));
    assert!(!front.is_evaluating());
    assert_eq!(front.eval_script(false, None, Some(s(""))), Err(EvalError::EmptyBuffer));
    assert!(!front.is_evaluating());
    assert_eq!(front.script_buffers().len(), 1);
}

#[test]
fn buffer_commands() {
    let mut front = DebuggerFrontend::new();
    assert_eq!(front.manipulate_buffer(BufferCommands::New, Some(s("one"))), BufferOutcome::Added(1));
    assert_eq!(front.manipulate_buffer(BufferCommands::New, None), BufferOutcome::EditorFailed);
    assert_eq!(
        front.manipulate_buffer(BufferCommands::Print { num: 1 }, None),
        BufferOutcome::Text(s("one"))
    );
    assert_eq!(
        front.manipulate_buffer(BufferCommands::Print { num: 2 }, None),
        BufferOutcome::NoSuchBuffer
    );
    assert_eq!(
        front.manipulate_buffer(BufferCommands::Edit { num: 1 }, Some(s("uno"))),
        BufferOutcome::Done
    );
    assert_eq!(
        front.manipulate_buffer(BufferCommands::Edit { num: 1 }, None),
        BufferOutcome::EditorFailed
    );
    assert_eq!(
        front.manipulate_buffer(BufferCommands::Edit { num: 5 }, Some(s("x"))),
        BufferOutcome::NoSuchBuffer
    );
    assert_eq!(
        front.manipulate_buffer(BufferCommands::List, None),
        BufferOutcome::Text(s("number  content\n1       uno ..."))
    );
    assert_eq!(front.manipulate_buffer(BufferCommands::Delete { num: 1 }, None), BufferOutcome::Done);
    assert_eq!(
        front.manipulate_buffer(BufferCommands::List, None),
        BufferOutcome::Text(s("no buffers available"))
    );
}

#[test]
fn editor_is_asked_for_where_a_command_needs_text() {
    let mut front = DebuggerFrontend::new();
    front.manipulate_buffer(BufferCommands::New, Some(s("text")));
    let ask = |front: &mut DebuggerFrontend, cmd: Commands| {
        let parsed: Result<Commands, String> = Ok(cmd);
        front.parse_args(parsed).unwrap();
        front.editor_request()
    };
    assert_eq!(ask(&mut front, Commands::Buffer(BufferCommands::New)), Some(s("")));
    assert_eq!(ask(&mut front, Commands::Buffer(BufferCommands::Edit { num: 1 })), Some(s("text")));
    assert_eq!(ask(&mut front, Commands::Buffer(BufferCommands::Edit { num: 2 })), None);
    assert_eq!(ask(&mut front, Commands::Evaluate { debug: false, buffer: None }), Some(s("")));
    assert_eq!(ask(&mut front, Commands::Evaluate { debug: false, buffer: Some(1) }), None);
    assert_eq!(ask(&mut front, Commands::Evaluate { debug: false, buffer: Some(3) }), Some(s("")));
    assert_eq!(ask(&mut front, Commands::Step), None);
}

#[test]
fn commands_that_only_the_caller_can_carry_out() {
    let mut front = DebuggerFrontend::new();
    assert_eq!(run(&mut front, Commands::Nop, None), Reaction::Quiet);
    assert_eq!(run(&mut front, Commands::Exit, None), Reaction::Exit);
    assert_eq!(run(&mut front, Commands::Trace, None), Reaction::Trace);
    assert_eq!(run(&mut front, Commands::BreakpointList, None), Reaction::Breakpoints);
    assert_eq!(run(&mut front, Commands::Load { file: None }, None), Reaction::Load(s("state.json")));
    assert_eq!(
        run(&mut front, Commands::Load { file: Some(s("my.json")) }, None),
        Reaction::Load(s("my.json"))
    );
    assert_eq!(
        run(&mut front, Commands::SetVar(SetCommands::PrintfHook { active: BoolVal::True }), None),
        Reaction::SetVar(VarUpdate::PrintfHook(true))
    );
}

#[test]
fn continue_stores_running() {
    let mut front = DebuggerFrontend::new();
    let (dbg, _hook) = SqDebugger::attach();
    let mut store = BreakpointStore::new();
    assert_eq!(run_with(&mut front, &dbg, &mut store, Commands::Continue, None), Reaction::Quiet);
    assert_eq!(dbg.exec_state(), sq_common::dbg::ExecState::Running);
}

#[test]
fn requests_to_a_hook_that_is_gone_are_reported() {
    let mut front = DebuggerFrontend::new();
    let (dbg, hook) = SqDebugger::attach();
    drop(hook);
    let mut store = BreakpointStore::new();
    assert_eq!(
        run_with(&mut front, &dbg, &mut store, Commands::Step, None),
        Reaction::Failed(Request::Step, DebugError::NotSent)
    );
    assert_eq!(
        run_with(&mut front, &dbg, &mut store, Commands::Backtrace, None),
        Reaction::Failed(Request::Backtrace, DebugError::NotSent)
    );
    assert_eq!(
        run_with(&mut front, &dbg, &mut store, Commands::Locals { level: None }, None),
        Reaction::Failed(Request::Locals, DebugError::NotSent)
    );
    let examine = Commands::Examine { target: s("this.a"), level: None, depth: 1 };
    assert_eq!(
        run_with(&mut front, &dbg, &mut store, examine, None),
        Reaction::ExamineFailed(ExamineError::Locals(DebugError::NotSent))
    );
    let level_only = Commands::Examine { target: s("2"), level: None, depth: 1 };
    assert_eq!(
        run_with(&mut front, &dbg, &mut store, level_only, None),
        Reaction::ExamineFailed(ExamineError::LevelOnly)
    );
}

#[test]
fn breakpoint_commands_work_on_the_store() {
    let mut front = DebuggerFrontend::new();
    let (dbg, _hook) = SqDebugger::attach();
    let mut store = BreakpointStore::new();
    let add = |spec: &str| Commands::BreakpointAdd { spec: s(spec) };
    assert_eq!(run_with(&mut front, &dbg, &mut store, add("file:a.nut:f:3"), None), Reaction::BreakpointAdded(1));
    assert_eq!(run_with(&mut front, &dbg, &mut store, add("10:20"), None), Reaction::BreakpointRejected);
    assert_eq!(run_with(&mut front, &dbg, &mut store, add("g"), None), Reaction::BreakpointAdded(2));
    assert_eq!(
        run_with(&mut front, &dbg, &mut store, Commands::BreakpointDisable { num: Some(1) }, None),
        Reaction::Quiet
    );
    assert!(!store.entries()[0].1.enabled);
    assert!(store.entries()[1].1.enabled);
    run_with(&mut front, &dbg, &mut store, Commands::BreakpointEnable { num: None }, None);
    assert!(store.entries()[0].1.enabled);
    run_with(&mut front, &dbg, &mut store, Commands::BreakpointClear { num: Some(1) }, None);
    assert_eq!(store.len(), 1);
    assert_eq!(
        store.entries()[0].1.bp,
        SqBreakpoint { src_file: None, fn_name: Some(s("g")), line: None }
    );
    run_with(&mut front, &dbg, &mut store, Commands::BreakpointClear { num: None }, None);
    assert_eq!(store.len(), 0);
}

#[test]
fn evaluate_and_buffer_commands_go_through_do_actions() {
    let mut front = DebuggerFrontend::new();
    assert_eq!(
        run(&mut front, Commands::Buffer(BufferCommands::New), Some("a = 1")),
        Reaction::Buffer(BufferOutcome::Added(1))
    );
    assert_eq!(
        run(&mut front, Commands::Evaluate { debug: true, buffer: Some(1) }, None),
        Reaction::Evaluate(Ok(EvalRequest { script: s("a = 1"), capture: vec![], debug: true }))
    );
    assert_eq!(
        run(&mut front, Commands::Evaluate { debug: false, buffer: Some(1) }, None),
        Reaction::Evaluate(Err(EvalError::DuringEval))
    );
}

#[test]
fn save_then_load_gives_the_same_buffers_and_breakpoints() {
    let mut front = DebuggerFrontend::new();
    front.manipulate_buffer(BufferCommands::New, Some(s("one")));
    front.manipulate_buffer(BufferCommands::New, Some(s("two\nlines")));
    front.manipulate_buffer(BufferCommands::Delete { num: 1 }, None);
    let mut store = BreakpointStore::new();
    store.add(SqBreakpoint { src_file: Some(s("a.nut")), fn_name: None, line: Some(3) });
    store.add(SqBreakpoint { src_file: None, fn_name: Some(s("f")), line: None });
    store.enable(Some(2), false);
    let state = front.save(&store);
    assert_eq!(state.buffers, vec![(2, s("two\nlines"))]);
    assert_eq!(state.buffer_counter, 3);
    assert_eq!(state.breakpoint_counter, 3);
    let mut fresh = DebuggerFrontend::new();
    let loaded = fresh.load(state.clone()).unwrap();
    assert_eq!(fresh.script_buffers().entries(), front.script_buffers().entries());
    assert_eq!(fresh.script_buffers().counter(), front.script_buffers().counter());
    assert_eq!(loaded.entries(), store.entries());
    assert_eq!(loaded.counter(), store.counter());
    assert_eq!(fresh.save(&loaded), state);
}

#[test]
fn save_command_hands_out_the_state_with_its_file() {
    let mut front = DebuggerFrontend::new();
    front.manipulate_buffer(BufferCommands::New, Some(s("x")));
    let expected = SavedState {
        buffers: vec![(1, s("x"))],
        buffer_counter: 2,
        breakpoints: vec![],
        breakpoint_counter: 1,
    };
    assert_eq!(
        run(&mut front, Commands::Save { file: None }, None),
        Reaction::Save(s("state.json"), expected)
    );
}

#[test]
fn load_refuses_a_state_with_unsound_numbering() {
    let mut front = DebuggerFrontend::new();
    front.manipulate_buffer(BufferCommands::New, Some(s("keep")));
    let bad = SavedState {
        buffers: vec![(2, s("a")), (2, s("b"))],
        buffer_counter: 3,
        breakpoints: vec![],
        breakpoint_counter: 1,
    };
    assert!(front.load(bad).is_none());
    assert_eq!(front.script_buffers().entries(), &vec![(1, s("keep"))]);
}

#[test]
fn add_breakpoint_reads_the_spec_and_numbers_the_breakpoint() {
    let mut store = BreakpointStore::new();
    assert_eq!(
        DebuggerFrontend::add_breakpoint(&mut store, "file:foo.nut:bar:10"),
        Reaction::BreakpointAdded(1)
    );
    assert_eq!(DebuggerFrontend::add_breakpoint(&mut store, "10:20"), Reaction::BreakpointRejected);
    assert_eq!(DebuggerFrontend::add_breakpoint(&mut store, "bar"), Reaction::BreakpointAdded(2));
    assert_eq!(store.len(), 2);
    let (entries, counter) = store.into_parts();
    assert_eq!(counter, 3);
    assert_eq!(entries[0].0, 1);
    assert!(entries[0].1.enabled);
    assert_eq!(
        entries[0].1.bp,
        SqBreakpoint { src_file: Some(s("foo.nut")), fn_name: Some(s("bar")), line: Some(10) }
    );
    assert_eq!(entries[1].1.bp, SqBreakpoint { src_file: None, fn_name: Some(s("bar")), line: None });
}

#[test]
fn sessions_that_the_front_end_makes_are_sound() {
    let mut front = DebuggerFrontend::new();
    assert!(front.is_sound());
    run(&mut front, Commands::Buffer(BufferCommands::New), Some("a"));
    run(&mut front, Commands::Buffer(BufferCommands::New), Some("b"));
    run(&mut front, Commands::Buffer(BufferCommands::Delete { num: 1 }), None);
    assert!(front.is_sound());
    assert!(front.script_buffers().is_sound());
    let mut store = BreakpointStore::new();
    assert!(store.is_sound());
    DebuggerFrontend::add_breakpoint(&mut store, "bar");
    DebuggerFrontend::add_breakpoint(&mut store, "7");
    store.remove(Some(1));
    assert!(store.is_sound());
}

#[test]
fn nothing_is_added_once_the_numbers_have_run_out() {
    let mut front = DebuggerFrontend::new();
    let full = SavedState {
        buffers: vec![(7, s("x"))],
        buffer_counter: u32::MAX,
        breakpoints: vec![],
        breakpoint_counter: u32::MAX,
    };
    let mut store = front.load(full).unwrap();
    let (dbg, _hook) = SqDebugger::attach();
    assert_eq!(
        run_with(&mut front, &dbg, &mut store, Commands::Buffer(BufferCommands::New), Some("y")),
        Reaction::Buffer(BufferOutcome::Full)
    );
    assert_eq!(
        run_with(
            &mut front,
            &dbg,
            &mut store,
            Commands::Evaluate { debug: false, buffer: None },
            Some("z")
        ),
        Reaction::Evaluate(Err(EvalError::BuffersFull))
    );
    assert!(!front.is_evaluating());
    assert_eq!(front.script_buffers().len(), 1);
    assert_eq!(
        run_with(
            &mut front,
            &dbg,
            &mut store,
            Commands::BreakpointAdd { spec: s("bar") },
            None
        ),
        Reaction::BreakpointsFull
    );
    assert_eq!(store.len(), 0);
    assert_eq!(
        run_with(
            &mut front,
            &dbg,
            &mut store,
            Commands::Evaluate { debug: true, buffer: Some(7) },
            None
        ),
        Reaction::Evaluate(Ok(EvalRequest { script: s("x"), capture: vec![], debug: true }))
    );
}

#[test]
fn guard_is_cleared_when_the_evaluation_is_over_at_once() {
    let started = |debug: bool, ok: bool| {
        let mut front = DebuggerFrontend::new();
        let made = run(&mut front, Commands::Evaluate { debug, buffer: None }, Some("x <- 1"));
        assert!(matches!(made, Reaction::Evaluate(Ok(_))));
        assert!(front.is_evaluating());
        front.eval_started(debug, ok);
        front.is_evaluating()
    };
    assert!(!started(false, true));
    assert!(!started(false, false));
    assert!(!started(true, false));
    assert!(started(true, true));
}

#[test]
fn evaluation_under_the_debugger_is_refused_until_it_is_finished() {
    let mut front = DebuggerFrontend::new();
    run(&mut front, Commands::Evaluate { debug: true, buffer: None }, Some("x <- 1"));
    front.eval_started(true, true);
    assert_eq!(
        run(&mut front, Commands::Evaluate { debug: true, buffer: Some(1) }, None),
        Reaction::Evaluate(Err(EvalError::DuringEval))
    );
    front.finish_eval();
    assert!(matches!(
        run(&mut front, Commands::Evaluate { debug: false, buffer: Some(1) }, None),
        Reaction::Evaluate(Ok(_))
    ));
}
