//! The stack of numbers.
//!
//! The top of the stack is the last element of its view. Every operation that
//! can fail leaves the stack as it was when it fails.

use crate::error::RpnError;
use crate::value::Value;
use vstd::prelude::*;
use vstd::slice::slice_subrange;

verus! {

/// The `n` last elements of `s`, the last one first.
pub open spec fn top_first(s: Seq<Value>, n: nat) -> Seq<Value>
    recommends
        n <= s.len(),
{
    Seq::new(n, |i: int| s[s.len() - 1 - i])
}

/// The numbers that the calculator works on, the most recent one on top.
pub struct Stack {
    items: Vec<Value>,
}

impl View for Stack {
    type V = Seq<Value>;

    closed spec fn view(&self) -> Seq<Value> {
        self.items@
    }
}

impl Stack {
    /// An empty stack.
    pub fn new() -> (s: Stack)
        ensures
            s@ == Seq::<Value>::empty(),
    {
        Stack { items: Vec::new() }
    }

    /// How many numbers the stack holds.
    pub fn len(&self) -> (n: usize)
        ensures
            n == self@.len(),
    {
        self.items.len()
    }

    /// Puts `v` on top.
    pub fn push(&mut self, v: Value)
        ensures
            final(self)@ == old(self)@.push(v),
    {
        self.items.push(v);
    }

    /// Removes all numbers.
    pub fn clear(&mut self)
        ensures
            final(self)@ == Seq::<Value>::empty(),
    {
        self.items.clear();
    }

    /// Takes the top number off. An empty stack stays empty and gives
    /// `StackUnderflow`.
    pub fn get_top(&mut self) -> (r: Result<Value, RpnError>)
        ensures
            match r {
                Ok(v) => old(self)@.len() > 0 && v == old(self)@.last() && final(self)@ == old(self)@.drop_last(),
                Err(e) => old(self)@.len() == 0 && e == RpnError::StackUnderflow && final(self)@
                    == old(self)@,
            },
    {
        match self.items.pop() {
            Some(v) => Ok(v),
            None => Err(RpnError::StackUnderflow),
        }
    }

    /// Takes the `n` top numbers off and returns them, the topmost first. With
    /// fewer than `n` numbers the stack is left as it was and the result is
    /// `StackUnderflow`.
    pub fn get_top_n(&mut self, n: usize) -> (r: Result<Vec<Value>, RpnError>)
        ensures
            match r {
                Ok(taken) => n <= old(self)@.len() && taken@ == top_first(old(self)@, n as nat)
                    && final(self)@ == old(self)@.take(old(self)@.len() - n),
                Err(e) => n > old(self)@.len() && e == RpnError::StackUnderflow && final(self)@
                    == old(self)@,
            },
    {
        if self.items.len() < n {
            return Err(RpnError::StackUnderflow);
        }
        let mut taken: Vec<Value> = Vec::new();
        let mut i: usize = 0;
        while i < n
            invariant
                i <= n <= old(self)@.len(),
                self@ == old(self)@.take(old(self)@.len() - i),
                taken@ == top_first(old(self)@, i as nat),
            decreases n - i,
        {
            let v = self.items.pop().unwrap();
            taken.push(v);
            i = i + 1;
            assert(taken@ =~= top_first(old(self)@, i as nat));
            assert(self@ =~= old(self)@.take(old(self)@.len() - i));
        }
        Ok(taken)
    }

    /// The top number, which stays where it is. An empty stack gives
    /// `StackUnderflow`.
    pub fn peek_top(&self) -> (r: Result<Value, RpnError>)
        ensures
            match r {
                Ok(v) => self@.len() > 0 && v == self@.last(),
                Err(e) => self@.len() == 0 && e == RpnError::StackUnderflow,
            },
    {
        if self.items.len() == 0 {
            Err(RpnError::StackUnderflow)
        } else {
            Ok(self.items[self.items.len() - 1])
        }
    }

    /// The `n` top numbers in the order in which they lie, the topmost last.
    /// With fewer than `n` numbers the result is `StackUnderflow`.
    pub fn peek_top_n(&self, n: usize) -> (r: Result<&[Value], RpnError>)
        ensures
            match r {
                Ok(seen) => n <= self@.len() && seen@ == self@.skip(self@.len() - n),
                Err(e) => n > self@.len() && e == RpnError::StackUnderflow,
            },
    {
        let len: usize = self.items.len();
        if len >= n {
            let seen = slice_subrange(self.items.as_slice(), len - n, len);
            assert(seen@ =~= self@.skip(self@.len() - n));
            Ok(seen)
        } else {
            Err(RpnError::StackUnderflow)
        }
    }

    /// The number that lies `depth` places under the top, which stays where it
    /// is. With no more than `depth` numbers the result is `StackUnderflow`.
    pub fn peek_at(&self, depth: usize) -> (r: Result<Value, RpnError>)
        ensures
            match r {
                Ok(v) => depth < self@.len() && v == self@[self@.len() - 1 - depth],
                Err(e) => depth >= self@.len() && e == RpnError::StackUnderflow,
            },
    {
        let len: usize = self.items.len();
        if depth >= len {
            Err(RpnError::StackUnderflow)
        } else {
            Ok(self.items[len - 1 - depth])
        }
    }

    /// Writes `v` over the number that lies `depth` places under the top. With
    /// no more than `depth` numbers the stack is left as it was and the result
    /// is `StackUnderflow`.
    pub fn put_at(&mut self, depth: usize, v: Value) -> (r: Result<(), RpnError>)
        ensures
            match r {
                Ok(_) => depth < old(self)@.len() && final(self)@ == old(self)@.update(
                    old(self)@.len() - 1 - depth,
                    v,
                ),
                Err(e) => depth >= old(self)@.len() && e == RpnError::StackUnderflow && final(self)@ == old(self)@,
            },
    {
        let len: usize = self.items.len();
        if depth >= len {
            Err(RpnError::StackUnderflow)
        } else {
            self.items.set(len - 1 - depth, v);
            Ok(())
        }
    }

    /// The numbers in the order in which they lie, the top last.
    pub fn as_slice(&self) -> (items: &[Value])
        ensures
            items@ == self@,
    {
        self.items.as_slice()
    }

    /// A copy of the numbers from the top down.
    pub fn top_to_bottom(&self) -> (listed: Vec<Value>)
        ensures
            listed@ == self@.reverse(),
    {
        let len: usize = self.items.len();
        let mut listed: Vec<Value> = Vec::new();
        let mut i: usize = 0;
        while i < len
            invariant
                i <= len == self@.len(),
                listed@ == top_first(self@, i as nat),
            decreases len - i,
        {
            listed.push(self.items[len - 1 - i]);
            i = i + 1;
            assert(listed@ =~= top_first(self@, i as nat));
        }
        assert(listed@ =~= self@.reverse());
        listed
    }
}

} // verus!
