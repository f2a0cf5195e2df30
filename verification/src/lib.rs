//! A cooperative debugger for an embedded Squirrel machine.
//!
//! The machine runs on a thread of its own and calls a debug hook on every
//! line, call and return. A controller on another thread halts and resumes
//! it, steps it, and asks for the call stack and the local variables.
//!
//! - `sq`: the values, local variables, stack frames and debug events of the
//!   machine, as plain data.
//! - `link`: the shared flag and the two channels between the threads.
//! - `dbg`: the messages of the protocol and the controller's side of it.
//! - `hook`: what the debug hook decides, as a state machine, and what it
//!   answers from the machine's stack.
//! - `protocol`: a model of both threads together, with the laws that hold of
//!   every interleaving.
//! - `path`: dotted paths into the local variables.
//! - `breakpoint`: breakpoint specifications and the numbered store of them.
//! - `buffers`: numbered script buffers.
//! - `eval`: scripts made ready for evaluation, with their capture lists.
//! - `report`: how values are written out.
//! - `util`: the interactive front end: commands, the session's state, and
//!   what each command does.
//! - `text`, `lookup`: characters, decimal numbers and numbered lists, which
//!   the others build on.

pub mod breakpoint;
pub mod buffers;
pub mod dbg;
pub mod eval;
pub mod hook;
pub mod link;
pub mod lookup;
pub mod path;
pub mod protocol;
pub mod report;
pub mod sq;
pub mod text;
pub mod util;
