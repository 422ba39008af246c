//! The session: the stack, the defined words and the modes, driven one word
//! at a time.

use crate::builtin::{BinaryOp, Builtin};
use crate::error::RpnError;
use crate::host::{Action, Awaiting, Output, Request};
use crate::model::{depth_of, operands, ModeView, Report, State};
use crate::random::draw_below;
use crate::stack::Stack;
use crate::value::Value;
use crate::word::{same_text, views, Word, WordView};
use vstd::hash_map::StringHashMap;
use vstd::prelude::*;
use vstd::string::*;

verus! {

/// How words are taken, apart from comments.
pub enum Mode {
    Normal,
    Compiling { name: Option<String>, body: Vec<Word> },
    Skipping { depth: u32 },
}

impl View for Mode {
    type V = ModeView;

    open spec fn view(&self) -> ModeView {
        match self {
            Mode::Normal => ModeView::Normal,
            Mode::Compiling { name, body } => ModeView::Compiling {
                name: match name {
                    Some(n) => Some(n@),
                    None => None,
                },
                body: views(body@),
            },
            Mode::Skipping { depth } => ModeView::Skipping { depth: *depth as nat },
        }
    }
}

/// What a step reports, with texts and numbers as sequences.
pub open spec fn report(r: Result<Action, RpnError>) -> Report {
    match r {
        Ok(a) => Ok(a@),
        Err(e) => Err(e@),
    }
}

/// Puts copies of the words of `body` before the words that `pending` holds.
/// `pending` holds its words in reverse, the next one last.
fn queue_before(pending: &mut Vec<Word>, body: &Vec<Word>)
    ensures
        views(final(pending)@).reverse() == views(body@) + views(old(pending)@).reverse(),
{
    let mut i: usize = body.len();
    assert(views(body@).skip(i as int) + views(pending@).reverse() =~= views(pending@).reverse());
    while i > 0
        invariant
            i <= body@.len(),
            views(pending@).reverse() == views(body@).skip(i as int) + views(
                old(pending)@,
            ).reverse(),
        decreases i,
    {
        i = i - 1;
        let ghost before = pending@;
        pending.push(body[i].duplicate());
        assert(views(pending@).reverse() =~= seq![body@[i as int]@] + views(before).reverse());
        assert(views(body@).skip(i as int) =~= seq![body@[i as int]@] + views(body@).skip(
            i + 1,
        ));
    }
    assert(views(body@).skip(0) =~= views(body@));
}

/// The words of `words` in reverse.
fn reversed(words: Vec<Word>) -> (turned: Vec<Word>)
    ensures
        views(turned@).reverse() == views(words@),
{
    let mut words = words;
    let mut turned: Vec<Word> = Vec::new();
    let ghost all = words@;
    while words.len() > 0
        invariant
            turned@.len() + words@.len() == all.len(),
            forall|j: int| 0 <= j < words@.len() ==> words@[j] == all[j],
            forall|j: int| 0 <= j < turned@.len() ==> turned@[j] == all[all.len() - 1 - j],
        decreases words@.len(),
    {
        let w = words.pop().unwrap();
        turned.push(w);
    }
    assert(views(turned@).reverse() =~= views(all));
    turned
}

/// A session of the calculator.
pub struct Shell {
    stack: Stack,
    bonus_words: StringHashMap<Vec<Word>>,
    /// Whether the host prompts for each line. No word reads or changes it.
    pub interactive: bool,
    in_comment: bool,
    mode: Mode,
    pending: Vec<Word>,
    awaiting: Awaiting,
}

impl View for Shell {
    type V = State;

    closed spec fn view(&self) -> State {
        State {
            stack: self.stack@,
            dictionary: self.bonus_words@.map_values(|body: Vec<Word>| views(body@)),
            in_comment: self.in_comment,
            mode: self.mode@,
            pending: views(self.pending@).reverse(),
            awaiting: self.awaiting,
            interactive: self.interactive,
        }
    }
}

/// The prompt of a session: `> ` where the host prompts, else nothing.
pub open spec fn prompt_text(interactive: bool) -> Seq<char> {
    if interactive {
        "> "@
    } else {
        ""@
    }
}

impl Default for Shell {
    fn default() -> (s: Shell)
        ensures
            s@ == State::initial(),
    {
        Shell::new()
    }
}

/// The exit status that a stack stands for: its top as an `i32`, and zero
/// for an empty stack.
pub open spec fn exit_value(stack: Seq<Value>) -> int {
    if stack.len() == 0 {
        0
    } else {
        stack.last().clamped(i32::MIN as int, i32::MAX as int)
    }
}

impl Shell {
    /// A new session: nothing on the stack, no word defined, no line begun.
    pub fn new() -> (s: Shell)
        ensures
            s@ == State::initial(),
    {
        let s = Shell {
            stack: Stack::new(),
            bonus_words: StringHashMap::new(),
            interactive: false,
            in_comment: false,
            mode: Mode::Normal,
            pending: Vec::new(),
            awaiting: Awaiting::Nothing,
        };
        assert(s@.dictionary =~= Map::empty());
        assert(s@.pending =~= Seq::empty());
        s
    }

    /// The exit status of the session.
    pub fn get_exit_val(&self) -> (status: i32)
        ensures
            status == exit_value(self@.stack),
    {
        match self.stack.peek_top() {
            Ok(v) => v.to_i32(),
            Err(_) => 0,
        }
    }

    /// The text with which the host asks for the next line.
    pub fn prompt(&self) -> (text: &'static str)
        ensures
            text@ == prompt_text(self@.interactive),
    {
        if self.interactive {
            "> "
        } else {
            ""
        }
    }

    /// The stack.
    pub fn stack(&self) -> (s: &Stack)
        ensures
            s@ == self@.stack,
    {
        &self.stack
    }

    /// How many `if`s are open in what is being passed over.
    pub fn nesting(&self) -> (depth: u32)
        ensures
            depth == self@.nesting(),
    {
        match self.mode {
            Mode::Skipping { depth } => depth,
            _ => 0,
        }
    }

    /// Begins a line. Its words replace those that were still pending, and a
    /// request that was still open is dropped.
    pub fn do_line(&mut self, words: Vec<Word>)
        ensures
            final(self)@ == old(self)@.begin(views(words@)),
    {
        self.pending = reversed(words);
        self.awaiting = Awaiting::Nothing;
    }

    fn fail(&mut self, e: RpnError) -> (r: Result<Action, RpnError>)
        ensures
            (final(self)@, report(r)) == old(self)@.fail(e@),
    {
        self.pending.clear();
        assert(views(self.pending@).reverse() =~= Seq::empty());
        Err(e)
    }
}

/// The operands of `op` when `top` lies on the stack above `below`.
fn operands_of(op: BinaryOp, top: Value, below: Value) -> (r: Request)
    ensures
        r == operands(op, top, below),
{
    match op {
        BinaryOp::Add => Request::Binary { operator: op, lhs: top, rhs: below },
        BinaryOp::Mul => Request::Binary { operator: op, lhs: top, rhs: below },
        BinaryOp::Sub => Request::Binary { operator: op, lhs: below, rhs: top },
        BinaryOp::Div => Request::Binary { operator: op, lhs: below, rhs: top },
        BinaryOp::Rem => Request::Binary { operator: op, lhs: below, rhs: top },
        BinaryOp::Pow => Request::Binary { operator: op, lhs: below, rhs: top },
        BinaryOp::Log => Request::Binary { operator: op, lhs: below, rhs: top },
    }
}

impl Shell {
    /// Takes a word while a definition is recorded.
    fn compile(&mut self, w: &Word)
        requires
            old(self)@.mode is Compiling,
        ensures
            final(self)@ == old(self)@.compile(
                old(self)@.mode->Compiling_name,
                old(self)@.mode->Compiling_body,
                w@,
            ),
    {
        let mut mode = Mode::Normal;
        core::mem::swap(&mut self.mode, &mut mode);
        match mode {
            Mode::Compiling { name, body } => {
                if same_text(w.text.as_str(), ";") {
                    let key = match name {
                        Some(n) => n,
                        None => String::new(),
                    };
                    let ghost before = self.bonus_words@;
                    self.bonus_words.insert(key, body);
                    assert(self@.dictionary =~= before.map_values(
                        |body: Vec<Word>| views(body@),
                    ).insert(key@, views(body@)));
                } else if name.is_none() {
                    self.mode = Mode::Compiling { name: Some(w.text.clone()), body };
                } else {
                    let mut body = body;
                    let ghost before = body@;
                    body.push(w.duplicate());
                    assert(views(body@) =~= views(before).push(w@));
                    self.mode = Mode::Compiling { name, body };
                }
            },
            _ => {},
        }
    }

    /// Takes a word while words are passed over.
    fn skip(&mut self, w: &Word)
        requires
            old(self)@.mode is Skipping,
            old(self)@.nesting() < u32::MAX,
        ensures
            final(self)@ == old(self)@.skip(old(self)@.nesting(), w@),
    {
        let depth: u32 = self.nesting();
        if same_text(w.text.as_str(), "if") {
            self.mode = Mode::Skipping { depth: depth + 1 };
        } else if same_text(w.text.as_str(), "then") {
            if depth == 0 {
                self.mode = Mode::Normal;
            } else {
                self.mode = Mode::Skipping { depth: depth - 1 };
            }
        }
    }

    /// Performs a word that shuffles, reads or writes the stack and asks
    /// nothing of the host.
    fn shuffle(&mut self, b: Builtin) -> (r: Result<Action, RpnError>)
        requires
            b is Swap || b is Pop || b is Dup || b is Over || b is Rot || b is RotBack || b is Pick
                || b is Put || b is Pi || b is Euler || b is Clear || b is EndIf,
        ensures
            (final(self)@, report(r)) == old(self)@.perform(b, 0),
    {
        let ghost s = self@.stack;
        let ghost n = s.len() as int;
        match b {
            Builtin::Swap => match self.stack.get_top_n(2) {
                Ok(taken) => {
                    self.stack.push(taken[0]);
                    self.stack.push(taken[1]);
                    Ok(Action::Continue)
                },
                Err(e) => self.fail(e),
            },
            Builtin::Pop => match self.stack.get_top() {
                Ok(_) => {
                    assert(self@.stack =~= s.take(n - 1));
                    Ok(Action::Continue)
                },
                Err(e) => self.fail(e),
            },
            Builtin::Dup => match self.stack.peek_top() {
                Ok(top) => {
                    self.stack.push(top);
                    Ok(Action::Continue)
                },
                Err(e) => self.fail(e),
            },
            Builtin::Over => {
                let seen = match self.stack.peek_top_n(2) {
                    Ok(seen) => Ok(seen[0]),
                    Err(e) => Err(e),
                };
                match seen {
                    Ok(below) => {
                        self.stack.push(below);
                        Ok(Action::Continue)
                    },
                    Err(e) => self.fail(e),
                }
            },
            Builtin::Rot => match self.stack.get_top_n(3) {
                Ok(taken) => {
                    self.stack.push(taken[1]);
                    self.stack.push(taken[0]);
                    self.stack.push(taken[2]);
                    Ok(Action::Continue)
                },
                Err(e) => self.fail(e),
            },
            Builtin::RotBack => match self.stack.get_top_n(3) {
                Ok(taken) => {
                    self.stack.push(taken[0]);
                    self.stack.push(taken[2]);
                    self.stack.push(taken[1]);
                    Ok(Action::Continue)
                },
                Err(e) => self.fail(e),
            },
            Builtin::Pick => match self.stack.peek_top() {
                Ok(top) => {
                    let u: usize = top.to_usize();
                    let len: usize = self.stack.len();
                    if u >= len - 1 {
                        self.fail(RpnError::StackUnderflow)
                    } else {
                        match self.stack.peek_at(u + 1) {
                            Ok(x) => {
                                let _ = self.stack.get_top();
                                self.stack.push(x);
                                assert(self@.stack =~= s.take(n - 1).push(
                                    s.take(n - 1)[n - 2 - depth_of(top)],
                                ));
                                Ok(Action::Continue)
                            },
                            Err(e) => self.fail(e),
                        }
                    }
                },
                Err(e) => self.fail(e),
            },
            Builtin::Put => {
                let seen = match self.stack.peek_top_n(2) {
                    Ok(seen) => Ok((seen[1], seen[0])),
                    Err(e) => Err(e),
                };
                match seen {
                    Ok((top, below)) => {
                        let u: usize = top.to_usize();
                        let len: usize = self.stack.len();
                        if u >= len - 2 {
                            self.fail(RpnError::StackUnderflow)
                        } else {
                            let _ = self.stack.get_top_n(2);
                            let _ = self.stack.put_at(u, below);
                            Ok(Action::Continue)
                        }
                    },
                    Err(e) => self.fail(e),
                }
            },
            Builtin::Pi => {
                self.stack.push(Value::pi());
                Ok(Action::Continue)
            },
            Builtin::Euler => {
                self.stack.push(Value::e());
                Ok(Action::Continue)
            },
            Builtin::Clear => {
                self.stack.clear();
                Ok(Action::Continue)
            },
            _ => Ok(Action::Continue),
        }
    }

    /// Performs a built-in word. `roll` is the number that `dice` draws.
    fn perform(&mut self, b: Builtin, roll: u64) -> (r: Result<Action, RpnError>)
        ensures
            (final(self)@, report(r)) == old(self)@.perform(b, roll as nat),
    {
        let ghost s = self@.stack;
        let ghost n = s.len() as int;
        match b {
            Builtin::Binary(op) => match self.stack.get_top_n(2) {
                Ok(taken) => {
                    let request = operands_of(op, taken[0], taken[1]);
                    self.awaiting = Awaiting::Push(request);
                    Ok(Action::Compute(request))
                },
                Err(e) => self.fail(e),
            },
            Builtin::Unary(op) => match self.stack.get_top() {
                Ok(top) => {
                    let request = Request::Unary { function: op, arg: top };
                    self.awaiting = Awaiting::Push(request);
                    assert(self@.stack =~= s.take(n - 1));
                    Ok(Action::Compute(request))
                },
                Err(e) => self.fail(e),
            },
            Builtin::Factorial => match self.stack.get_top() {
                Ok(top) => {
                    assert(self@.stack =~= s.take(n - 1));
                    if !top.is_whole() || top.is_sign_negative() {
                        self.stack.push(Value::not_a_number());
                        Ok(Action::Continue)
                    } else if !top.is_positive() {
                        self.stack.push(Value::one());
                        Ok(Action::Continue)
                    } else {
                        let product = Value::one();
                        self.awaiting = Awaiting::Product { product, counter: top };
                        Ok(
                            Action::Compute(
                                Request::Binary { operator: BinaryOp::Mul, lhs: product, rhs: top },
                            ),
                        )
                    }
                },
                Err(e) => self.fail(e),
            },
            Builtin::Show => match self.stack.peek_top() {
                Ok(top) => Ok(Action::Print(Output::Top(top))),
                Err(e) => self.fail(e),
            },
            Builtin::ShowAll => Ok(Action::Print(Output::All(self.stack.top_to_bottom()))),
            Builtin::ShowScientific => match self.stack.peek_top() {
                Ok(top) => Ok(
                    Action::Print(
                        Output::Scientific {
                            negative: top.is_sign_negative(),
                            magnitude: top.abs(),
                        },
                    ),
                ),
                Err(e) => self.fail(e),
            },
            Builtin::Dice => match self.stack.peek_top() {
                Ok(top) => {
                    if top.to_i64() > 0 {
                        let _ = self.stack.get_top();
                        self.stack.push(Value::from_whole(roll));
                        assert(self@.stack =~= s.take(n - 1).push(Value::nearest(roll as nat)));
                        Ok(Action::Continue)
                    } else {
                        self.pending.clear();
                        assert(views(self.pending@).reverse() =~= Seq::empty());
                        Ok(Action::EmptyRange)
                    }
                },
                Err(e) => self.fail(e),
            },
            Builtin::If => match self.stack.get_top() {
                Ok(top) => {
                    assert(self@.stack =~= s.take(n - 1));
                    if top.is_zero() {
                        self.mode = Mode::Skipping { depth: 0 };
                    }
                    Ok(Action::Continue)
                },
                Err(e) => self.fail(e),
            },
            Builtin::Bye => {
                self.pending.clear();
                assert(views(self.pending@).reverse() =~= Seq::empty());
                Ok(Action::Halt)
            },
            Builtin::Define => {
                self.mode = Mode::Compiling { name: None, body: Vec::new() };
                assert(self.mode@ == (ModeView::Compiling { name: None, body: Seq::empty() }))
                    by {
                    assert(views(Seq::<Word>::empty()) =~= Seq::<WordView>::empty());
                }
                Ok(Action::Continue)
            },
            _ => self.shuffle(b),
        }
    }

    /// Takes a word while words are carried out.
    fn evaluate(&mut self, w: &Word, roll: u64) -> (r: Result<Action, RpnError>)
        ensures
            (final(self)@, report(r)) == old(self)@.evaluate(w@, roll as nat),
    {
        match w.literal {
            Some(v) => {
                self.stack.push(v);
                Ok(Action::Continue)
            },
            None => match Builtin::lookup(w.text.as_str()) {
                Some(b) => self.perform(b, roll),
                None => match self.bonus_words.get(w.text.as_str()) {
                    Some(body) => {
                        queue_before(&mut self.pending, body);
                        Ok(Action::Continue)
                    },
                    None => self.fail(RpnError::UndefinedWord(w.text.clone())),
                },
            },
        }
    }

    /// Carries out one word, with `roll` as the number that `dice` draws if
    /// the word is `dice`.
    pub fn apply(&mut self, w: &Word, roll: u64) -> (r: Result<Action, RpnError>)
        requires
            old(self)@.nesting() < u32::MAX,
        ensures
            (final(self)@, report(r)) == old(self)@.dispatch(w@, roll as nat),
    {
        if self.in_comment {
            if same_text(w.text.as_str(), ")") {
                self.in_comment = false;
            }
            return Ok(Action::Continue);
        }
        if same_text(w.text.as_str(), "(") {
            self.in_comment = true;
            return Ok(Action::Continue);
        }
        match self.mode {
            Mode::Compiling { .. } => {
                self.compile(w);
                Ok(Action::Continue)
            },
            Mode::Skipping { .. } => {
                self.skip(w);
                Ok(Action::Continue)
            },
            Mode::Normal => self.evaluate(w, roll),
        }
    }

    /// The bound below which `dice` draws, where `w` is a `dice` that draws.
    fn dice_bound(&self, w: &Word) -> (bound: Option<i64>)
        ensures
            match bound {
                Some(b) => self@.draws(w@) && b == self@.stack.last().clamped(
                    i64::MIN as int,
                    i64::MAX as int,
                ),
                None => !self@.draws(w@),
            },
    {
        if self.in_comment || same_text(w.text.as_str(), "(") || w.literal.is_some() {
            return None;
        }
        match self.mode {
            Mode::Normal => {},
            _ => {
                return None;
            },
        }
        match Builtin::lookup(w.text.as_str()) {
            Some(Builtin::Dice) => match self.stack.peek_top() {
                Ok(top) => {
                    let b: i64 = top.to_i64();
                    if b > 0 {
                        Some(b)
                    } else {
                        None
                    }
                },
                Err(_) => None,
            },
            _ => None,
        }
    }

    /// Carries out one word. Where the word is `dice`, the number is drawn
    /// here, below the top of the stack.
    pub fn do_word(&mut self, w: &Word) -> (r: Result<Action, RpnError>)
        requires
            old(self)@.nesting() < u32::MAX,
        ensures
            exists|roll: nat|
                old(self)@.may_draw(w@, roll) && (final(self)@, report(r)) == #[trigger] old(self)@.dispatch(w@, roll),
    {
        let roll: u64 = match self.dice_bound(w) {
            Some(bound) => draw_below(bound) as u64,
            None => 0,
        };
        let r = self.apply(w, roll);
        assert(old(self)@.may_draw(w@, roll as nat));
        r
    }

    /// Makes one step: repeats the request that is still open, or carries out
    /// the next pending word, or reports that the line is done.
    pub fn step(&mut self) -> (r: Result<Action, RpnError>)
        requires
            old(self)@.nesting() < u32::MAX,
        ensures
            exists|roll: nat|
                old(self)@.may_step(roll) && (final(self)@, report(r)) == #[trigger] old(self)@.step(roll),
    {
        if let Some(request) = self.awaiting.open_request() {
            assert(old(self)@.may_step(0) && (self@, report(Ok(Action::Compute(request))))
                == old(self)@.step(0));
            return Ok(Action::Compute(request));
        }
        match self.pending.pop() {
            None => {
                assert(old(self)@.may_step(0) && (self@, report(Ok(Action::Done))) == old(self)@.step(0));
                Ok(Action::Done)
            },
            Some(w) => {
                assert(self@.pending =~= old(self)@.pending.skip(1));
                assert(w@ == old(self)@.pending[0]);
                let ghost taken = self@;
                let r = self.do_word(&w);
                let ghost roll = choose|roll: nat|
                    taken.may_draw(w@, roll) && (self@, report(r)) == #[trigger] taken.dispatch(
                        w@,
                        roll,
                    );
                assert(old(self)@.may_step(roll) && (self@, report(r)) == old(self)@.step(roll));
                r
            },
        }
    }

    /// Takes the host's answer to the open request. What comes back is the
    /// next request of a factorial, or `Continue`.
    pub fn resume(&mut self, v: Value) -> (next: Action)
        ensures
            (final(self)@, next@) == old(self)@.resume(v),
    {
        match self.awaiting {
            Awaiting::Nothing => Action::Continue,
            Awaiting::Push(_) => {
                self.stack.push(v);
                self.awaiting = Awaiting::Nothing;
                Action::Continue
            },
            Awaiting::Product { product, counter } => {
                if v.is_infinity() {
                    self.stack.push(v);
                    self.awaiting = Awaiting::Nothing;
                    Action::Continue
                } else {
                    self.awaiting = Awaiting::Counter { product: v, counter };
                    Action::Compute(
                        Request::Binary { operator: BinaryOp::Sub, lhs: counter, rhs: Value::one() },
                    )
                }
            },
            Awaiting::Counter { product, counter } => {
                if v.is_positive() {
                    self.awaiting = Awaiting::Product { product, counter: v };
                    Action::Compute(
                        Request::Binary { operator: BinaryOp::Mul, lhs: product, rhs: v },
                    )
                } else {
                    self.stack.push(product);
                    self.awaiting = Awaiting::Nothing;
                    Action::Continue
                }
            },
        }
    }
}

} // verus!
