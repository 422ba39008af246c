//! What holds of the calculator whatever its state.

use crate::builtin::{lemma_spellings, named, BinaryOp, Builtin, UnaryOp};
use crate::error::Failure;
use crate::host::{ActionView, Awaiting, OutputView, Request};
use crate::model::{depth_of, operands, ModeView, State};
use crate::value::{Value, NAN_BITS, ONE_BITS};
use crate::word::WordView;
use vstd::prelude::*;

verus! {

/// The numbers that the words of `ws` read as, in order.
pub open spec fn readings(ws: Seq<WordView>) -> Seq<Value> {
    ws.map_values(|w: WordView| w.literal.unwrap())
}

/// A built-in word that finds fewer numbers than it needs fails with
/// `StackUnderflow` and changes nothing but to drop the rest of the line.
pub proof fn lemma_underflow_changes_nothing(s: State, b: Builtin, roll: nat)
    requires
        s.stack.len() < b.demand(),
    ensures
        s.perform(b, roll) == s.fail(Failure::StackUnderflow),
        s.perform(b, roll).0.stack == s.stack,
{
}

/// The same of the word as it stands in a line: where words are carried out
/// and the stack is too short for the built-in word `w`, the word reports
/// `StackUnderflow` and leaves the stack, the defined words and the modes as
/// they were.
pub proof fn lemma_short_stack_fails(s: State, w: WordView, b: Builtin, roll: nat)
    requires
        s.evaluating(),
        w.literal is None,
        named(w.text) == Some(b),
        s.stack.len() < b.demand(),
    ensures
        s.dispatch(w, roll).1 == Err::<ActionView, Failure>(Failure::StackUnderflow),
        s.dispatch(w, roll).0 == (State { pending: Seq::empty(), ..s }),
{
    lemma_spellings();
}

/// A word that fails changes nothing but to drop the rest of the line: the
/// stack, the defined words and the modes are as they were before it.
pub proof fn lemma_failure_keeps_session(s: State, w: WordView, roll: nat)
    requires
        s.dispatch(w, roll).1 is Err,
    ensures
        s.dispatch(w, roll).0 == (State { pending: Seq::empty(), ..s }),
{
}

/// The only failures are `StackUnderflow`, and `UndefinedWord` with the word
/// itself, which comes only of a word that reads as no number, names no
/// built-in word and is not defined.
pub proof fn lemma_failures(s: State, w: WordView, roll: nat)
    requires
        s.dispatch(w, roll).1 is Err,
    ensures
        s.evaluating(),
        w.literal is None,
        s.dispatch(w, roll).1 == Err::<ActionView, Failure>(Failure::StackUnderflow) || (
        s.dispatch(w, roll).1 == Err::<ActionView, Failure>(Failure::UndefinedWord(w.text))
            && named(w.text) is None && !s.dictionary.contains_key(w.text)),
{
}

/// `dup` and then `pop` leave the stack as it was, in every state.
pub proof fn lemma_dup_pop(s: State, roll: nat)
    ensures
        s.dispatch(WordView::name("dup"@), roll).0.dispatch(
            WordView::name("pop"@),
            roll,
        ).0.stack == s.stack,
        s.evaluating() && s.stack.len() > 0 ==> s.dispatch(WordView::name("dup"@), roll).0.dispatch(
            WordView::name("pop"@),
            roll,
        ).0 == s,
{
    lemma_spellings();
    let dup = WordView::name("dup"@);
    let pop = WordView::name("pop"@);
    assert(named(dup.text) == Some(Builtin::Dup));
    assert(named(pop.text) == Some(Builtin::Pop));
    let mid = s.dispatch(dup, roll).0;
    if s.evaluating() && s.stack.len() > 0 {
        assert(mid.stack.take(mid.stack.len() - 1) =~= s.stack);
    }
}

/// `swp` twice leaves the stack as it was, in every state.
pub proof fn lemma_swp_swp(s: State, roll: nat)
    ensures
        s.dispatch(WordView::name("swp"@), roll).0.dispatch(
            WordView::name("swp"@),
            roll,
        ).0.stack == s.stack,
        s.evaluating() && s.stack.len() > 1 ==> s.dispatch(WordView::name("swp"@), roll).0.dispatch(
            WordView::name("swp"@),
            roll,
        ).0 == s,
{
    lemma_spellings();
    let swp = WordView::name("swp"@);
    assert(named(swp.text) == Some(Builtin::Swap));
    let mid = s.dispatch(swp, roll).0;
    let after = mid.dispatch(swp, roll).0;
    if s.evaluating() && s.stack.len() > 1 {
        assert(after.stack =~= s.stack);
    }
}

/// Inside a comment no word but `)` does anything, and no word fails.
pub proof fn lemma_comment_word(s: State, w: WordView, roll: nat)
    requires
        s.in_comment,
    ensures
        s.dispatch(w, roll).1 == Ok::<ActionView, Failure>(ActionView::Continue),
        w.text != ")"@ ==> s.dispatch(w, roll).0 == s,
        w.text == ")"@ ==> s.dispatch(w, roll).0 == (State { in_comment: false, ..s }),
{
}

/// The words of a comment leave an open comment open and the state as it is.
pub proof fn lemma_comment_body(s: State, body: Seq<WordView>)
    requires
        s.in_comment,
        forall|i: int| 0 <= i < body.len() ==> body[i].text != ")"@,
    ensures
        s.feed(body) == s,
    decreases body.len(),
{
    if body.len() > 0 {
        assert(s.dispatch(body[0], 0).0 == s);
        lemma_comment_body(s, body.skip(1));
    }
}

/// A comment changes nothing: in every state outside a comment, and so in
/// every mode, `(`, then any words but `)`, then `)` lead back to the state
/// before.
pub proof fn lemma_comment_is_transparent(s: State, body: Seq<WordView>)
    requires
        !s.in_comment,
        forall|i: int| 0 <= i < body.len() ==> body[i].text != ")"@,
    ensures
        s.dispatch(WordView::name("("@), 0).0.feed(body).dispatch(WordView::name(")"@), 0).0 == s,
{
    let opened = s.dispatch(WordView::name("("@), 0).0;
    lemma_comment_body(opened, body);
}

/// Numbers come to lie on the stack in the order in which they are given.
pub proof fn lemma_numbers_are_pushed(s: State, ws: Seq<WordView>)
    requires
        s.evaluating(),
        forall|i: int| 0 <= i < ws.len() ==> ws[i].literal is Some && ws[i].text != "("@,
    ensures
        s.feed(ws) == (State { stack: s.stack + readings(ws), ..s }),
    decreases ws.len(),
{
    if ws.len() == 0 {
        assert(s.stack + readings(ws) =~= s.stack);
    } else {
        let next = s.dispatch(ws[0], 0).0;
        assert(next == (State { stack: s.stack.push(ws[0].literal.unwrap()), ..s }));
        lemma_numbers_are_pushed(next, ws.skip(1));
        assert(next.stack + readings(ws.skip(1)) =~= s.stack + readings(ws));
    }
}

/// After a run of numbers, `.s` has the host print the stack from the top
/// down: the numbers of the run from the last one given to the first, then
/// what lay under them, and all of them stay where they are.
pub proof fn lemma_listing_reverses_pushes(s: State, ws: Seq<WordView>, roll: nat)
    requires
        s.evaluating(),
        forall|i: int| 0 <= i < ws.len() ==> ws[i].literal is Some && ws[i].text != "("@,
    ensures
        s.feed(ws).dispatch(WordView::name(".s"@), roll).1 == Ok::<ActionView, Failure>(
            ActionView::Print(OutputView::All(readings(ws).reverse() + s.stack.reverse())),
        ),
        s.feed(ws).dispatch(WordView::name(".s"@), roll).0 == s.feed(ws),
{
    lemma_spellings();
    lemma_numbers_are_pushed(s, ws);
    assert((s.stack + readings(ws)).reverse() =~= readings(ws).reverse() + s.stack.reverse());
    assert(named(".s"@) == Some(Builtin::ShowAll));
}

/// `pick` with a place at or beyond the depth that is left under it fails
/// with `StackUnderflow` and leaves the stack as it was, its own argument
/// included.
pub proof fn lemma_pick_beyond_depth(s: State, roll: nat)
    requires
        s.evaluating(),
        s.stack.len() > 0,
        depth_of(s.stack.last()) >= s.stack.len() - 1,
    ensures
        s.dispatch(WordView::name("pick"@), roll) == s.fail(Failure::StackUnderflow),
        s.dispatch(WordView::name("pick"@), roll).0.stack == s.stack,
{
    lemma_spellings();
    assert(named("pick"@) == Some(Builtin::Pick));
}

/// A word that reads as a number is pushed, whatever its text names.
pub proof fn lemma_number_comes_first(s: State, w: WordView, roll: nat)
    requires
        s.evaluating(),
        w.literal is Some,
        w.text != "("@,
    ensures
        s.dispatch(w, roll) == s.leave(s.stack.push(w.literal.unwrap())),
{
}

/// A built-in word is performed whatever is defined under its name.
pub proof fn lemma_builtin_comes_first(s: State, w: WordView, b: Builtin, roll: nat)
    requires
        s.evaluating(),
        w.literal is None,
        named(w.text) == Some(b),
    ensures
        s.dispatch(w, roll) == s.perform(b, roll),
{
    lemma_spellings();
}

/// A defined word puts its body before the words that are still to come,
/// and does nothing else.
pub proof fn lemma_defined_word_replays(s: State, w: WordView, roll: nat)
    requires
        s.evaluating(),
        w.literal is None,
        w.text != "("@,
        named(w.text) is None,
        s.dictionary.contains_key(w.text),
    ensures
        s.dispatch(w, roll) == (
            State { pending: s.dictionary[w.text] + s.pending, ..s },
            Ok::<ActionView, Failure>(ActionView::Continue),
        ),
{
}

/// While a definition with a name is recorded, words other than `;` and `(`
/// are appended to its body and do nothing else.
pub proof fn lemma_body_is_recorded(
    s: State,
    name: Seq<char>,
    recorded: Seq<WordView>,
    body: Seq<WordView>,
)
    requires
        !s.in_comment,
        s.mode == (ModeView::Compiling { name: Some(name), body: recorded }),
        forall|i: int| 0 <= i < body.len() ==> body[i].text != ";"@ && body[i].text != "("@,
    ensures
        s.feed(body) == (State {
            mode: ModeView::Compiling { name: Some(name), body: recorded + body },
            ..s
        }),
    decreases body.len(),
{
    if body.len() == 0 {
        assert(recorded + body =~= recorded);
    } else {
        let next = s.dispatch(body[0], 0).0;
        lemma_body_is_recorded(next, name, recorded.push(body[0]), body.skip(1));
        assert(recorded.push(body[0]) + body.skip(1) =~= recorded + body);
    }
}

/// `:`, a name, a body and `;` define the name as the body, over whatever the
/// name was defined as before, and change nothing else. Neither the name nor
/// a word of the body is `;` or `(`.
pub proof fn lemma_definition(s: State, name: WordView, body: Seq<WordView>)
    requires
        s.evaluating(),
        name.text != ";"@ && name.text != "("@,
        forall|i: int| 0 <= i < body.len() ==> body[i].text != ";"@ && body[i].text != "("@,
    ensures
        s.dispatch(WordView::name(":"@), 0).0.dispatch(name, 0).0.feed(body).dispatch(
            WordView::name(";"@),
            0,
        ).0 == (State { dictionary: s.dictionary.insert(name.text, body), ..s }),
{
    lemma_spellings();
    assert(named(":"@) == Some(Builtin::Define));
    let begun = s.dispatch(WordView::name(":"@), 0).0;
    let named_state = begun.dispatch(name, 0).0;
    lemma_body_is_recorded(named_state, name.text, Seq::empty(), body);
    assert(Seq::<WordView>::empty() + body =~= body);
}

/// While words are passed over, words other than `if`, `then` and `(` do
/// nothing and do not fail.
pub proof fn lemma_skipped_words(s: State, body: Seq<WordView>)
    requires
        !s.in_comment,
        s.mode is Skipping,
        forall|i: int|
            0 <= i < body.len() ==> body[i].text != "if"@ && body[i].text != "then"@
                && body[i].text != "("@,
    ensures
        s.feed(body) == s,
    decreases body.len(),
{
    if body.len() > 0 {
        assert(s.dispatch(body[0], 0).0 == s);
        lemma_skipped_words(s, body.skip(1));
    }
}

/// `if` on a zero takes the zero off and passes over the words up to `then`;
/// `if` on another number takes the number off and does nothing else.
pub proof fn lemma_if(s: State, body: Seq<WordView>, roll: nat)
    requires
        s.evaluating(),
        s.stack.len() > 0,
        forall|i: int|
            0 <= i < body.len() ==> body[i].text != "if"@ && body[i].text != "then"@
                && body[i].text != "("@,
    ensures
        s.stack.last().zero() ==> s.dispatch(WordView::name("if"@), roll).0.feed(body).dispatch(
            WordView::name("then"@),
            roll,
        ).0 == (State { stack: s.stack.drop_last(), ..s }),
        !s.stack.last().zero() ==> s.dispatch(WordView::name("if"@), roll) == s.leave(
            s.stack.drop_last(),
        ),
{
    lemma_spellings();
    assert(named("if"@) == Some(Builtin::If));
    assert(s.stack.take(s.stack.len() - 1) =~= s.stack.drop_last());
    if s.stack.last().zero() {
        lemma_skipped_words(s.dispatch(WordView::name("if"@), roll).0, body);
    }
}

/// `then` does nothing where words are carried out.
pub proof fn lemma_then_alone(s: State, roll: nat)
    requires
        s.evaluating(),
    ensures
        s.dispatch(WordView::name("then"@), roll) == (
            s,
            Ok::<ActionView, Failure>(ActionView::Continue),
        ),
{
    lemma_spellings();
    assert(named("then"@) == Some(Builtin::EndIf));
}

/// `bye` halts and drops the rest of the line, whatever the stack holds.
pub proof fn lemma_bye_halts(s: State, roll: nat)
    requires
        s.evaluating(),
    ensures
        s.dispatch(WordView::name("bye"@), roll) == (
            State { pending: Seq::empty(), ..s },
            Ok::<ActionView, Failure>(ActionView::Halt),
        ),
{
    lemma_spellings();
    assert(named("bye"@) == Some(Builtin::Bye));
}

/// What `dice` pushes is a whole number from zero up to, and not including,
/// the number that it took off, as long as that is no more than `2^53`.
pub proof fn lemma_dice_range(s: State, roll: nat)
    requires
        s.evaluating(),
        s.stack.len() > 0,
        s.may_draw(WordView::name("dice"@), roll),
        0 < s.stack.last().truncated() <= 0x20_0000_0000_0000,
    ensures
        s.dispatch(WordView::name("dice"@), roll).0.stack == s.stack.drop_last().push(
            Value::nearest(roll),
        ),
        Value::nearest(roll).whole(),
        0 <= Value::nearest(roll).truncated() < s.stack.last().truncated(),
{
    lemma_spellings();
    assert(named("dice"@) == Some(Builtin::Dice));
    assert(s.stack.take(s.stack.len() - 1) =~= s.stack.drop_last());
    assert(s.draws(WordView::name("dice"@)));
    Value::lemma_nearest_exact(roll);
}

/// A failure ends the line: the step after a failed step finds no word and
/// reports that the line is done.
pub proof fn lemma_failure_ends_the_line(s: State, roll: nat, next: nat)
    requires
        s.step(roll).1 is Err,
    ensures
        s.step(roll).0 == (State { pending: Seq::empty(), ..s }),
        s.step(roll).0.step(next) == (
            s.step(roll).0,
            Ok::<ActionView, Failure>(ActionView::Done),
        ),
{
    let taken = State { pending: s.pending.skip(1), ..s };
    lemma_failure_keeps_session(taken, s.pending[0], roll);
}

/// A halt ends the line as well: after it no word is pending.
pub proof fn lemma_halt_ends_the_line(s: State, roll: nat, next: nat)
    requires
        s.step(roll).1 == Ok::<ActionView, Failure>(ActionView::Halt),
    ensures
        s.step(roll).0 == (State { pending: Seq::empty(), ..s }),
        s.step(roll).0.step(next) == (
            s.step(roll).0,
            Ok::<ActionView, Failure>(ActionView::Done),
        ),
{
}

/// A step takes the pending words in their order: with no request open, it
/// dispatches the first of them and leaves the others pending behind what
/// the word itself may have put there.
pub proof fn lemma_step_takes_the_next_word(s: State, roll: nat)
    requires
        s.awaiting is Nothing,
        s.pending.len() > 0,
    ensures
        s.step(roll) == (State { pending: s.pending.drop_first(), ..s }).dispatch(
            s.pending.first(),
            roll,
        ),
{
    assert(s.pending.skip(1) =~= s.pending.drop_first());
}

/// A word of two numbers takes both off, asks the host for the operation on
/// them, and pushes the host's answer: the stack loses two numbers and gains
/// the one that the host computed.
pub proof fn lemma_binary_word(s: State, op: BinaryOp, answer: Value, roll: nat)
    requires
        s.stack.len() >= 2,
    ensures
        s.perform(Builtin::Binary(op), roll).1 == Ok::<ActionView, Failure>(
            ActionView::Compute(
                operands(op, s.stack[s.stack.len() - 1], s.stack[s.stack.len() - 2]),
            ),
        ),
        s.perform(Builtin::Binary(op), roll).0.resume(answer).0 == (State {
            stack: s.stack.take(s.stack.len() - 2).push(answer),
            awaiting: Awaiting::Nothing,
            ..s
        }),
{
}

/// A word of one number takes it off, asks the host for the function of it,
/// and pushes the host's answer.
pub proof fn lemma_unary_word(s: State, op: UnaryOp, answer: Value, roll: nat)
    requires
        s.stack.len() >= 1,
    ensures
        s.perform(Builtin::Unary(op), roll).1 == Ok::<ActionView, Failure>(
            ActionView::Compute(Request::Unary { function: op, arg: s.stack.last() }),
        ),
        s.perform(Builtin::Unary(op), roll).0.resume(answer).0 == (State {
            stack: s.stack.drop_last().push(answer),
            awaiting: Awaiting::Nothing,
            ..s
        }),
{
    assert(s.stack.take(s.stack.len() - 1) =~= s.stack.drop_last());
}

/// The product that a factorial arrives at with a host that answers the
/// request `r` with `host(r)`: multiply the product by the counter; stop if
/// that is infinity; take one off the counter; stop if that is not above
/// zero; and again. `None` where `rounds` multiplications do not reach a stop.
pub open spec fn falling_product(
    host: spec_fn(Request) -> Value,
    product: Value,
    counter: Value,
    rounds: nat,
) -> Option<Value>
    decreases rounds,
{
    if rounds == 0 {
        None
    } else {
        let multiplied = host(
            Request::Binary { operator: BinaryOp::Mul, lhs: product, rhs: counter },
        );
        let lowered = host(
            Request::Binary { operator: BinaryOp::Sub, lhs: counter, rhs: Value { bits: ONE_BITS } },
        );
        if multiplied.infinity() || !lowered.positive() {
            Some(multiplied)
        } else {
            falling_product(host, multiplied, lowered, (rounds - 1) as nat)
        }
    }
}

/// The state after the host has answered the open request, and the requests
/// that its answers led to, `rounds` times at most.
pub open spec fn answered(s: State, host: spec_fn(Request) -> Value, rounds: nat) -> State
    decreases rounds,
{
    if rounds == 0 || s.awaiting.request() is None {
        s
    } else {
        answered(s.resume(host(s.awaiting.request().unwrap())).0, host, (rounds - 1) as nat)
    }
}

/// A factorial under way ends with its product on the stack and no request
/// open: the requests of the calculator and the answers of the host make up
/// the loop that `falling_product` describes.
pub proof fn lemma_factorial_ends(
    s: State,
    host: spec_fn(Request) -> Value,
    product: Value,
    counter: Value,
    rounds: nat,
)
    requires
        s.awaiting == (Awaiting::Product { product, counter }),
        falling_product(host, product, counter, rounds) is Some,
    ensures
        answered(s, host, 2 * rounds) == (State {
            stack: s.stack.push(falling_product(host, product, counter, rounds).unwrap()),
            awaiting: Awaiting::Nothing,
            ..s
        }),
    decreases rounds,
{
    let multiplied = host(Request::Binary { operator: BinaryOp::Mul, lhs: product, rhs: counter });
    let lowered = host(
        Request::Binary { operator: BinaryOp::Sub, lhs: counter, rhs: Value { bits: ONE_BITS } },
    );
    let first = s.resume(multiplied).0;
    assert(answered(s, host, 2 * rounds) == answered(first, host, (2 * rounds - 1) as nat));
    if multiplied.infinity() {
        assert(answered(first, host, (2 * rounds - 1) as nat) == first);
    } else {
        let second = first.resume(lowered).0;
        assert(answered(first, host, (2 * rounds - 1) as nat) == answered(
            second,
            host,
            (2 * rounds - 2) as nat,
        ));
        if lowered.positive() {
            lemma_factorial_ends(second, host, multiplied, lowered, (rounds - 1) as nat);
        } else {
            assert(answered(second, host, (2 * rounds - 2) as nat) == second);
        }
    }
}

/// `fact` on a whole number above zero takes it off and begins a factorial
/// with the product one; on zero it pushes one; on any other number it pushes
/// a NaN.
pub proof fn lemma_factorial_begins(s: State, roll: nat)
    requires
        s.stack.len() > 0,
    ensures
        ({
            let top = s.stack.last();
            let rest = s.stack.drop_last();
            let after = s.perform(Builtin::Factorial, roll).0;
            &&& top.whole() && top.positive() ==> after == (State {
                stack: rest,
                awaiting: Awaiting::Product { product: Value { bits: ONE_BITS }, counter: top },
                ..s
            })
            &&& top.zero() && !top.negative() ==> after == (State {
                stack: rest.push(Value { bits: ONE_BITS }),
                ..s
            })
            &&& !top.whole() || top.negative() ==> after == (State {
                stack: rest.push(Value { bits: NAN_BITS }),
                ..s
            })
        }),
{
    assert(s.stack.take(s.stack.len() - 1) =~= s.stack.drop_last());
    let top = s.stack.last();
    if top.zero() && !top.negative() {
        assert(top.whole());
    }
}

/// Only a `dice` that draws depends on the number drawn: every other word
/// does the same whatever `roll` is.
pub proof fn lemma_only_dice_draws(s: State, w: WordView, roll: nat, other: nat)
    requires
        !s.draws(w),
    ensures
        s.dispatch(w, roll) == s.dispatch(w, other),
{
}

} // verus!
