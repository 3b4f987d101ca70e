//! The parsing cursor that every parser takes and hands back.
use vstd::prelude::*;
use crate::input::{Input, Requirement, Unexpected};
use crate::token::Token;

verus! {

/// Why a parser failed.
#[derive(Clone, Copy, Debug, PartialEq, Eq)]
pub enum ParseError<'i, T> {
    /// The input holds a token that the match rejects, whatever follows.
    Unexpected(Unexpected<'i, T>),
    /// The input ended before the match was decided either way.
    Incomplete(Requirement),
}

/// The cursor: the input that remains to be parsed, as a window on storage
/// that every cursor derived from it shares.
#[derive(Clone, Copy, Debug)]
pub struct Pass<'i, T> {
    pub input: Input<'i, T>,
}

/// What a parser gives back: a value and the cursor after it, or an error and
/// the cursor at the point of failure.
pub type PassResult<'i, T, O> = Result<(O, Pass<'i, T>), (ParseError<'i, T>, Pass<'i, T>)>;

/// The cursor that an outcome carries, on success or on failure.
pub open spec fn outcome_pass<'i, T, O>(r: PassResult<'i, T, O>) -> Pass<'i, T> {
    match r {
        Ok((_, p)) => p,
        Err((_, p)) => p,
    }
}

impl<'i, T: Token> Pass<'i, T> {
    /// The remaining window lies inside its storage.
    pub open spec fn wf(&self) -> bool {
        self.input.wf()
    }

    /// The tokens that remain.
    pub open spec fn view(&self) -> Seq<T> {
        self.input@
    }

    /// Where the cursor stands in the storage.
    pub open spec fn position(&self) -> nat {
        self.input.start as nat
    }

    /// Both cursors walk the same storage to the same end.
    pub open spec fn same_source(&self, other: Pass<'i, T>) -> bool {
        self.input.shares_storage(other.input) && self.input.end == other.input.end
    }

    /// The cursor after the first `n` remaining tokens.
    pub open spec fn spec_advance(&self, n: nat) -> Pass<'i, T> {
        Pass { input: self.input.spec_skip(n) }
    }

    /// A cursor at the start of `data`.
    pub fn from_slice(data: &'i [T]) -> (r: Pass<'i, T>)
        ensures
            r.wf(),
            r.input.data == data,
            r.position() == 0,
            r@ == data@,
            r.input.end == data@.len(),
    {
        Pass { input: Input::new(data) }
    }

    /// The remaining input, to inspect without consuming it.
    pub fn input(&self) -> (r: Input<'i, T>)
        ensures
            r == self.input,
    {
        self.input
    }

    /// Runs the outcome of an input operation through this cursor: a value
    /// comes back with the cursor unchanged, which only `commit` moves; a
    /// shortage of input becomes an incomplete error here.
    pub fn with_input_result<O>(self, r: Result<O, Requirement>) -> (out: PassResult<'i, T, O>)
        ensures
            out == match r {
                Ok(v) => Ok::<_, (ParseError<'i, T>, Pass<'i, T>)>((v, self)),
                Err(req) => Err::<(O, Pass<'i, T>), _>((ParseError::Incomplete(req), self)),
            },
    {
        match r {
            Ok(v) => Ok((v, self)),
            Err(req) => Err((ParseError::Incomplete(req), self)),
        }
    }

    /// A cursor whose remaining input is `remaining`, a window on the same
    /// storage.
    pub fn commit(self, remaining: Input<'i, T>) -> (r: Pass<'i, T>)
        requires
            self.wf(),
            remaining.wf(),
            self.input.shares_storage(remaining),
        ensures
            r.input == remaining,
            r.wf(),
    {
        Pass { input: remaining }
    }

    /// A failure that reports an unexpected token, at this cursor.
    pub fn with_input_error_unexpected(self, u: Unexpected<'i, T>) -> (r: (ParseError<'i, T>, Pass<'i, T>))
        ensures
            r == (ParseError::Unexpected(u), self),
    {
        (ParseError::Unexpected(u), self)
    }

    /// A failure that reports a shortage of input, at this cursor.
    pub fn with_input_error_incomplete(self, req: Requirement) -> (r: (ParseError<'i, T>, Pass<'i, T>))
        ensures
            r == (ParseError::<'i, T>::Incomplete(req), self),
    {
        (ParseError::Incomplete(req), self)
    }
}

/// Two cursors are equal when the same tokens remain.
impl<'i, T: Token> PartialEq for Pass<'i, T> {
    fn eq(&self, other: &Self) -> (r: bool) {
        self.input.eq(&other.input)
    }
}

impl<'i, T: Token> vstd::std_specs::cmp::PartialEqSpecImpl for Pass<'i, T> {
    open spec fn obeys_eq_spec() -> bool {
        true
    }

    open spec fn eq_spec(&self, other: &Pass<'i, T>) -> bool {
        self.wf() && other.wf() && self@ == other@
    }
}

} // verus!
