//! The calculator as a function from a state and a word to the next state.

use crate::builtin::{named, BinaryOp, Builtin};
use crate::error::Failure;
use crate::host::{ActionView, Awaiting, OutputView, Request};
use crate::value::{Value, E_BITS, NAN_BITS, ONE_BITS, PI_BITS, SIGN_LIMIT};
use crate::word::WordView;
use vstd::prelude::*;

verus! {

/// How words are taken, apart from comments.
pub enum ModeView {
    /// Words are carried out.
    Normal,
    /// Words are recorded for the definition that `:` began. `name` is the
    /// word after `:`, once it has come.
    Compiling { name: Option<Seq<char>>, body: Seq<WordView> },
    /// Words are passed over until the `then` that matches the `if` which
    /// found a zero. `depth` counts the `if`s met since that are still open.
    Skipping { depth: nat },
}

/// All that the calculator remembers.
pub struct State {
    /// The numbers, the top last.
    pub stack: Seq<Value>,
    /// The defined words with their bodies.
    pub dictionary: Map<Seq<char>, Seq<WordView>>,
    /// A `(` has come and its `)` has not.
    pub in_comment: bool,
    pub mode: ModeView,
    /// The words that are still to be carried out, the next one first.
    pub pending: Seq<WordView>,
    pub awaiting: Awaiting,
    /// Whether the host prompts for each line. No word reads or changes it.
    pub interactive: bool,
}

/// What a step reports.
pub type Report = Result<ActionView, Failure>;

/// The place under the top that a number names for `pick` and `put`: the
/// number rounded toward zero, and zero for a negative number or a NaN.
pub open spec fn depth_of(v: Value) -> nat {
    if v.truncated() < 0 {
        0
    } else {
        v.truncated() as nat
    }
}

/// The operands of `op` when `top` lies on the stack above `below`.
pub open spec fn operands(op: BinaryOp, top: Value, below: Value) -> Request {
    match op {
        BinaryOp::Add => Request::Binary { operator: op, lhs: top, rhs: below },
        BinaryOp::Mul => Request::Binary { operator: op, lhs: top, rhs: below },
        BinaryOp::Sub => Request::Binary { operator: op, lhs: below, rhs: top },
        BinaryOp::Div => Request::Binary { operator: op, lhs: below, rhs: top },
        BinaryOp::Rem => Request::Binary { operator: op, lhs: below, rhs: top },
        BinaryOp::Pow => Request::Binary { operator: op, lhs: below, rhs: top },
        BinaryOp::Log => Request::Binary { operator: op, lhs: below, rhs: top },
    }
}

impl State {
    /// The state of a new session.
    pub open spec fn initial() -> State {
        State {
            stack: Seq::empty(),
            dictionary: Map::empty(),
            in_comment: false,
            mode: ModeView::Normal,
            pending: Seq::empty(),
            awaiting: Awaiting::Nothing,
            interactive: false,
        }
    }

    /// How many `if`s are open in what is being passed over.
    pub open spec fn nesting(self) -> nat {
        match self.mode {
            ModeView::Skipping { depth } => depth,
            _ => 0,
        }
    }

    /// The word failed: the rest of the line is dropped, all else stays.
    pub open spec fn fail(self, f: Failure) -> (State, Report) {
        (State { pending: Seq::empty(), ..self }, Err(f))
    }

    /// The word is done and leaves `stack`.
    pub open spec fn leave(self, stack: Seq<Value>) -> (State, Report) {
        (State { stack, ..self }, Ok(ActionView::Continue))
    }

    /// The word leaves `stack` and asks the host for a number to push.
    pub open spec fn ask(self, stack: Seq<Value>, request: Request) -> (State, Report) {
        (State { stack, awaiting: Awaiting::Push(request), ..self }, Ok(ActionView::Compute(request)))
    }

    /// The effect of a built-in word. `roll` is the number that `dice` draws.
    pub open spec fn perform(self, b: Builtin, roll: nat) -> (State, Report) {
        let n = self.stack.len() as int;
        if n < b.demand() {
            self.fail(Failure::StackUnderflow)
        } else {
            let top = self.stack[n - 1];
            let below = self.stack[n - 2];
            let third = self.stack[n - 3];
            let rest = self.stack.take(n - 1);
            let rest2 = self.stack.take(n - 2);
            let rest3 = self.stack.take(n - 3);
            match b {
                Builtin::Binary(op) => self.ask(rest2, operands(op, top, below)),
                Builtin::Unary(op) => self.ask(rest, Request::Unary { function: op, arg: top }),
                Builtin::Factorial => {
                    if !top.whole() || top.negative() {
                        self.leave(rest.push(Value { bits: NAN_BITS }))
                    } else if !top.positive() {
                        self.leave(rest.push(Value { bits: ONE_BITS }))
                    } else {
                        let open = Awaiting::Product {
                            product: Value { bits: ONE_BITS },
                            counter: top,
                        };
                        (
                            State { stack: rest, awaiting: open, ..self },
                            Ok(ActionView::Compute(open.request().unwrap())),
                        )
                    }
                },
                Builtin::Show => (self, Ok(ActionView::Print(OutputView::Top(top)))),
                Builtin::ShowAll => (
                    self,
                    Ok(ActionView::Print(OutputView::All(self.stack.reverse()))),
                ),
                Builtin::ShowScientific => (
                    self,
                    Ok(
                        ActionView::Print(
                            OutputView::Scientific {
                                negative: top.negative(),
                                magnitude: Value { bits: top.bits % SIGN_LIMIT },
                            },
                        ),
                    ),
                ),
                Builtin::Swap => self.leave(rest2.push(top).push(below)),
                Builtin::Pop => self.leave(rest),
                Builtin::Dup => self.leave(self.stack.push(top)),
                Builtin::Over => self.leave(self.stack.push(below)),
                Builtin::Rot => self.leave(rest3.push(below).push(top).push(third)),
                Builtin::RotBack => self.leave(rest3.push(top).push(third).push(below)),
                Builtin::Pick => {
                    let u = depth_of(top);
                    if u >= rest.len() {
                        self.fail(Failure::StackUnderflow)
                    } else {
                        self.leave(rest.push(rest[rest.len() - 1 - u]))
                    }
                },
                Builtin::Put => {
                    let u = depth_of(top);
                    if u >= rest2.len() {
                        self.fail(Failure::StackUnderflow)
                    } else {
                        self.leave(rest2.update(rest2.len() - 1 - u, below))
                    }
                },
                Builtin::Pi => self.leave(self.stack.push(Value { bits: PI_BITS })),
                Builtin::Euler => self.leave(self.stack.push(Value { bits: E_BITS })),
                Builtin::Dice => {
                    if top.clamped(i64::MIN as int, i64::MAX as int) > 0 {
                        self.leave(rest.push(Value::nearest(roll)))
                    } else {
                        (State { pending: Seq::empty(), ..self }, Ok(ActionView::EmptyRange))
                    }
                },
                Builtin::If => {
                    if top.zero() {
                        (
                            State { stack: rest, mode: ModeView::Skipping { depth: 0 }, ..self },
                            Ok(ActionView::Continue),
                        )
                    } else {
                        self.leave(rest)
                    }
                },
                Builtin::EndIf => self.leave(self.stack),
                Builtin::Clear => self.leave(Seq::empty()),
                Builtin::Bye => (State { pending: Seq::empty(), ..self }, Ok(ActionView::Halt)),
                Builtin::Define => (
                    State {
                        mode: ModeView::Compiling { name: None, body: Seq::empty() },
                        ..self
                    },
                    Ok(ActionView::Continue),
                ),
            }
        }
    }

    /// The effect of a word while words are carried out: a number is pushed,
    /// a built-in word is performed, and a defined word puts its body before
    /// the words that are still to come.
    pub open spec fn evaluate(self, w: WordView, roll: nat) -> (State, Report) {
        match w.literal {
            Some(v) => self.leave(self.stack.push(v)),
            None => match named(w.text) {
                Some(b) => self.perform(b, roll),
                None => {
                    if self.dictionary.contains_key(w.text) {
                        (
                            State { pending: self.dictionary[w.text] + self.pending, ..self },
                            Ok(ActionView::Continue),
                        )
                    } else {
                        self.fail(Failure::UndefinedWord(w.text))
                    }
                },
            },
        }
    }

    /// The effect of a word while a definition is recorded.
    pub open spec fn compile(self, name: Option<Seq<char>>, body: Seq<WordView>, w: WordView) -> State {
        if w.text == ";"@ {
            let key = match name {
                Some(n) => n,
                None => Seq::empty(),
            };
            State { dictionary: self.dictionary.insert(key, body), mode: ModeView::Normal, ..self }
        } else if name is None {
            State { mode: ModeView::Compiling { name: Some(w.text), body }, ..self }
        } else {
            State { mode: ModeView::Compiling { name, body: body.push(w) }, ..self }
        }
    }

    /// The effect of a word while words are passed over.
    pub open spec fn skip(self, depth: nat, w: WordView) -> State {
        if w.text == "if"@ {
            State { mode: ModeView::Skipping { depth: depth + 1 }, ..self }
        } else if w.text == "then"@ {
            if depth == 0 {
                State { mode: ModeView::Normal, ..self }
            } else {
                State { mode: ModeView::Skipping { depth: (depth - 1) as nat }, ..self }
            }
        } else {
            self
        }
    }

    /// The effect of one word. A comment takes every word up to `)`; outside
    /// a comment `(` begins one; any other word goes by the mode.
    pub open spec fn dispatch(self, w: WordView, roll: nat) -> (State, Report) {
        if self.in_comment {
            (State { in_comment: w.text != ")"@, ..self }, Ok(ActionView::Continue))
        } else if w.text == "("@ {
            (State { in_comment: true, ..self }, Ok(ActionView::Continue))
        } else {
            match self.mode {
                ModeView::Compiling { name, body } => (
                    self.compile(name, body, w),
                    Ok(ActionView::Continue),
                ),
                ModeView::Skipping { depth } => (self.skip(depth, w), Ok(ActionView::Continue)),
                ModeView::Normal => self.evaluate(w, roll),
            }
        }
    }

    /// Whether words are carried out: no comment is open, no definition is
    /// recorded and nothing is passed over.
    pub open spec fn evaluating(self) -> bool {
        !self.in_comment && self.mode is Normal
    }

    /// The state after the words of `ws` have been dispatched one after
    /// another, whatever each of them reported. A `dice` among them draws
    /// zero.
    pub open spec fn feed(self, ws: Seq<WordView>) -> State
        decreases ws.len(),
    {
        if ws.len() == 0 {
            self
        } else {
            self.dispatch(ws[0], 0).0.feed(ws.skip(1))
        }
    }

    /// Whether `dispatch` of `w` draws a number, and so depends on `roll`.
    pub open spec fn draws(self, w: WordView) -> bool {
        &&& !self.in_comment
        &&& w.text != "("@
        &&& self.mode is Normal
        &&& w.literal is None
        &&& named(w.text) == Some(Builtin::Dice)
        &&& self.stack.len() > 0
        &&& self.stack.last().clamped(i64::MIN as int, i64::MAX as int) > 0
    }

    /// The numbers that `dispatch` of `w` may draw: those below the top of
    /// the stack.
    pub open spec fn may_draw(self, w: WordView, roll: nat) -> bool {
        self.draws(w) ==> roll < self.stack.last().clamped(i64::MIN as int, i64::MAX as int)
    }

    /// The numbers that `step` may draw: those that the dispatch of the next
    /// pending word may draw.
    pub open spec fn may_step(self, roll: nat) -> bool {
        self.awaiting.request() is None && self.pending.len() > 0 ==> State {
            pending: self.pending.skip(1),
            ..self
        }.may_draw(self.pending[0], roll)
    }

    /// One step of the session. An open request is repeated until it is
    /// answered; else the next pending word is taken off and dispatched; with
    /// no word pending the line is done.
    pub open spec fn step(self, roll: nat) -> (State, Report) {
        if self.awaiting.request() is Some {
            (self, Ok(ActionView::Compute(self.awaiting.request().unwrap())))
        } else if self.pending.len() == 0 {
            (self, Ok(ActionView::Done))
        } else {
            State { pending: self.pending.skip(1), ..self }.dispatch(self.pending[0], roll)
        }
    }

    /// The host's answer `v` to the open request. An answer to no request
    /// changes nothing.
    pub open spec fn resume(self, v: Value) -> (State, ActionView) {
        match self.awaiting {
            Awaiting::Nothing => (self, ActionView::Continue),
            Awaiting::Push(_) => (
                State { stack: self.stack.push(v), awaiting: Awaiting::Nothing, ..self },
                ActionView::Continue,
            ),
            Awaiting::Product { product, counter } => {
                if v.infinity() {
                    (
                        State { stack: self.stack.push(v), awaiting: Awaiting::Nothing, ..self },
                        ActionView::Continue,
                    )
                } else {
                    let open = Awaiting::Counter { product: v, counter };
                    (
                        State { awaiting: open, ..self },
                        ActionView::Compute(open.request().unwrap()),
                    )
                }
            },
            Awaiting::Counter { product, counter } => {
                if v.positive() {
                    let open = Awaiting::Product { product, counter: v };
                    (
                        State { awaiting: open, ..self },
                        ActionView::Compute(open.request().unwrap()),
                    )
                } else {
                    (
                        State {
                            stack: self.stack.push(product),
                            awaiting: Awaiting::Nothing,
                            ..self
                        },
                        ActionView::Continue,
                    )
                }
            },
        }
    }

    /// A new line: its words replace those that were pending, and an open
    /// request is dropped.
    pub open spec fn begin(self, words: Seq<WordView>) -> State {
        State { pending: words, awaiting: Awaiting::Nothing, ..self }
    }
}

} // verus!
