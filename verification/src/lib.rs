//! A stack calculator with user-defined words.
//!
//! The calculator takes a line as a run of words. A word is a number, a
//! built-in operator such as `+` or `dup`, or a name defined earlier with
//! `: name ... ;`. `( ... )` is a comment, and `if ... then` passes over the
//! words between the two when it finds a zero on the stack.
//!
//! Numbers are IEEE-754 doubles held by their bit patterns ([`value::Value`]).
//! The library moves them around, tests them and truncates them; it does no
//! arithmetic on them and prints nothing. For that it has a host:
//!
//! 1. the host splits a line with [`word::split_line`], reads each word as a
//!    number where it is one, and hands the words to [`shell::Shell::do_line`];
//! 2. it calls [`shell::Shell::step`] until the step reports
//!    [`host::Action::Done`], [`host::Action::Halt`] or a failure;
//! 3. where a step reports [`host::Action::Compute`], it computes the number
//!    and hands it to [`shell::Shell::resume`]; where a step reports
//!    [`host::Action::Print`], it prints.
//!
//! What each word does is the function [`model::State::dispatch`]; the
//! session's functions are proved to compute it, and [`laws`] holds what
//! follows from it for every state.

pub mod builtin;
pub mod error;
pub mod host;
pub mod laws;
pub mod model;
mod random;
pub mod shell;
pub mod stack;
pub mod value;
pub mod word;
