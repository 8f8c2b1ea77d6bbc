//! A call of a command as the parser leaves it: which arguments stand at
//! which position, and which flags were given. To evaluate an argument is the
//! caller's part; what is decided here is which argument is meant.

use vstd::prelude::*;
use crate::id::DeclId;
use crate::span::Span;
use crate::value::{ShellError, ShellErrorView};

verus! {

/// An argument of a call that is not yet evaluated: the place of its source.
#[derive(Clone, Copy, Debug, PartialEq, Eq, Structural)]
pub struct Expression {
    pub span: Span,
}

/// A call of the declaration `decl_id` at the place `head`, with its
/// positional arguments in order and its flags, each with the value that it
/// was given, if any.
#[derive(Clone, Debug)]
pub struct Call {
    pub decl_id: DeclId,
    pub head: Span,
    pub positional: Vec<Expression>,
    pub named: Vec<(String, Option<Expression>)>,
}

/// The first position at which the flag `name` stands among the flags given.
pub open spec fn first_flag(named: Seq<(String, Option<Expression>)>, name: Seq<char>) -> Option<int> {
    if exists|i: int| 0 <= i < named.len() && named[i].0@ == name {
        Some(
            choose|i: int|
                0 <= i < named.len() && named[i].0@ == name && forall|j: int|
                    0 <= j < i ==> named[j].0@ != name,
        )
    } else {
        None
    }
}

impl Call {
    /// A call without arguments.
    pub fn new(decl_id: DeclId, head: Span) -> (call: Call)
        ensures
            call.decl_id == decl_id,
            call.head == head,
            call.positional@.len() == 0,
            call.named@.len() == 0,
    {
        Call { decl_id, head, positional: Vec::new(), named: Vec::new() }
    }

    /// The position of the flag `name` among the flags given.
    fn find_flag(&self, name: &str) -> (found: Option<usize>)
        ensures
            match found {
                Some(i) => first_flag(self.named@, name@) == Some(i as int) && i < self.named@.len(),
                None => first_flag(self.named@, name@).is_none(),
            },
    {
        let wanted = name.to_owned();
        let mut i: usize = 0;
        while i < self.named.len()
            invariant
                wanted@ == name@,
                i <= self.named@.len(),
                forall|j: int| 0 <= j < i ==> self.named@[j].0@ != name@,
            decreases self.named@.len() - i,
        {
            if self.named[i].0 == wanted {
                proof {
                    let named = self.named@;
                    let k = choose|k: int|
                        0 <= k < named.len() && named[k].0@ == name@ && forall|j: int|
                            0 <= j < k ==> named[j].0@ != name@;
                    assert(k == i);
                }
                return Some(i);
            }
            i += 1;
        }
        None
    }

    /// Whether the flag `flag_name` was given.
    pub fn has_flag(&self, flag_name: &str) -> (given: bool)
        ensures
            given == first_flag(self.named@, flag_name@).is_some(),
    {
        self.find_flag(flag_name).is_some()
    }

    /// The value that the flag `flag_name` was given where it first stands;
    /// none where the flag was not given or was given without a value.
    pub fn get_flag_expr(&self, flag_name: &str) -> (expr: Option<Expression>)
        ensures
            expr == match first_flag(self.named@, flag_name@) {
                Some(i) => self.named@[i].1,
                None => None,
            },
    {
        match self.find_flag(flag_name) {
            Some(i) => self.named[i].1,
            None => None,
        }
    }

    /// The argument at position `pos`, counted from 0.
    pub fn nth(&self, pos: usize) -> (expr: Option<Expression>)
        ensures
            expr == if pos < self.positional@.len() {
                Some(self.positional@[pos as int])
            } else {
                None
            },
    {
        if pos < self.positional.len() {
            Some(self.positional[pos])
        } else {
            None
        }
    }

    /// The argument at position `pos`, which the command cannot do without.
    pub fn req_expr(&self, pos: usize) -> (expr: Result<Expression, ShellError>)
        ensures
            pos < self.positional@.len() ==> expr.is_ok() && expr.unwrap()
                == self.positional@[pos as int],
            pos >= self.positional@.len() ==> expr.is_err() && expr.unwrap_err()@
                == ShellErrorView::AccessBeyondEnd(self.positional@.len() as usize, self.head),
    {
        match self.nth(pos) {
            Some(expr) => Ok(expr),
            None => Err(ShellError::AccessBeyondEnd(self.positional.len(), self.head)),
        }
    }

    /// The arguments from position `starting_pos` on, in order.
    pub fn rest_exprs(&self, starting_pos: usize) -> (rest: Vec<Expression>)
        ensures
            rest@ == if starting_pos <= self.positional@.len() {
                self.positional@.subrange(starting_pos as int, self.positional@.len() as int)
            } else {
                Seq::empty()
            },
    {
        let mut rest: Vec<Expression> = Vec::new();
        if starting_pos > self.positional.len() {
            return rest;
        }
        let mut i = starting_pos;
        while i < self.positional.len()
            invariant
                starting_pos <= i <= self.positional@.len(),
                rest@ =~= self.positional@.subrange(starting_pos as int, i as int),
            decreases self.positional@.len() - i,
        {
            rest.push(self.positional[i]);
            i += 1;
        }
        rest
    }
}

} // verus!
