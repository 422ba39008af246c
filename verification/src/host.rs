//! What passes between the calculator and its host.
//!
//! The calculator does no arithmetic on doubles and prints nothing. Where a
//! word needs one or the other it hands its host an [`Action`], and the host
//! answers a [`Request`] with the number that it computed.

use crate::builtin::{BinaryOp, UnaryOp};
use crate::value::{Value, ONE_BITS};
use vstd::prelude::*;

verus! {

/// A computation that the host is asked for.
#[derive(Clone, Copy, Debug, PartialEq, Eq, Structural)]
pub enum Request {
    Unary { function: UnaryOp, arg: Value },
    Binary { operator: BinaryOp, lhs: Value, rhs: Value },
}

/// What the host is asked to print.
#[derive(Debug, PartialEq, Eq)]
pub enum Output {
    /// The top of the stack.
    Top(Value),
    /// The whole stack from the top down.
    All(Vec<Value>),
    /// A number in scientific notation: a minus sign where `negative` is set,
    /// then `magnitude`, whose sign bit is clear.
    Scientific { negative: bool, magnitude: Value },
}

/// An [`Output`] with its numbers as a sequence.
pub enum OutputView {
    Top(Value),
    All(Seq<Value>),
    Scientific { negative: bool, magnitude: Value },
}

impl View for Output {
    type V = OutputView;

    open spec fn view(&self) -> OutputView {
        match self {
            Output::Top(v) => OutputView::Top(*v),
            Output::All(vs) => OutputView::All(vs@),
            Output::Scientific { negative, magnitude } => OutputView::Scientific {
                negative: *negative,
                magnitude: *magnitude,
            },
        }
    }
}

/// What the host does after a step of the calculator.
#[derive(Debug, PartialEq, Eq)]
pub enum Action {
    /// No word is left: the line is finished.
    Done,
    /// A word was carried out and asks nothing of the host.
    Continue,
    /// A word asked to end the session.
    Halt,
    /// Compute this and hand the result back.
    Compute(Request),
    /// Print this.
    Print(Output),
    /// `dice` found a bound below one, so that there is no number to draw.
    EmptyRange,
}

/// An [`Action`] with its numbers as a sequence.
pub enum ActionView {
    Done,
    Continue,
    Halt,
    Compute(Request),
    Print(OutputView),
    EmptyRange,
}

impl View for Action {
    type V = ActionView;

    open spec fn view(&self) -> ActionView {
        match self {
            Action::Done => ActionView::Done,
            Action::Continue => ActionView::Continue,
            Action::Halt => ActionView::Halt,
            Action::Compute(r) => ActionView::Compute(*r),
            Action::Print(o) => ActionView::Print(o@),
            Action::EmptyRange => ActionView::EmptyRange,
        }
    }
}

/// The request that the host has not answered yet, and what becomes of its
/// answer.
#[derive(Clone, Copy, Debug, PartialEq, Eq, Structural)]
pub enum Awaiting {
    /// No request is open.
    Nothing,
    /// The answer goes on the stack.
    Push(Request),
    /// A factorial is under way and asks for `product * counter`.
    Product { product: Value, counter: Value },
    /// A factorial is under way and asks for `counter - 1`.
    Counter { product: Value, counter: Value },
}

impl Awaiting {
    /// The open request.
    pub open spec fn request(self) -> Option<Request> {
        match self {
            Awaiting::Nothing => None,
            Awaiting::Push(r) => Some(r),
            Awaiting::Product { product, counter } => Some(
                Request::Binary { operator: BinaryOp::Mul, lhs: product, rhs: counter },
            ),
            Awaiting::Counter { product, counter } => Some(
                Request::Binary { operator: BinaryOp::Sub, lhs: counter, rhs: Value { bits: ONE_BITS } },
            ),
        }
    }

    /// The open request.
    pub fn open_request(self) -> (r: Option<Request>)
        ensures
            r == self.request(),
    {
        match self {
            Awaiting::Nothing => None,
            Awaiting::Push(r) => Some(r),
            Awaiting::Product { product, counter } => Some(
                Request::Binary { operator: BinaryOp::Mul, lhs: product, rhs: counter },
            ),
            Awaiting::Counter { product, counter } => Some(
                Request::Binary { operator: BinaryOp::Sub, lhs: counter, rhs: Value::one() },
            ),
        }
    }
}

} // verus!
