//! Views into token storage, completeness-tagged values, and the diagnostics
//! that describe a failed match.
use vstd::prelude::*;
use vstd::slice::slice_subrange;
use crate::token::Token;

verus! {

/// The tokens `data[start..end]`: a window on shared, read-only storage.
/// Splitting narrows the window and never copies.
#[derive(Clone, Copy, Debug)]
pub struct Input<'i, T> {
    pub data: &'i [T],
    pub start: usize,
    pub end: usize,
}

impl<'i, T: Token> Input<'i, T> {
    /// The window lies inside its storage.
    pub open spec fn wf(&self) -> bool {
        self.start <= self.end <= self.data@.len()
    }

    /// The tokens in the window.
    pub open spec fn view(&self) -> Seq<T> {
        self.data@.subrange(self.start as int, self.end as int)
    }

    /// Both windows look into the same storage.
    pub open spec fn shares_storage(&self, other: Input<'i, T>) -> bool {
        self.data@ == other.data@
    }

    /// The window `data[start..end]`, shrunk to the first `n` tokens.
    pub open spec fn spec_front(&self, n: nat) -> Input<'i, T> {
        Input { data: self.data, start: self.start, end: (self.start + n) as usize }
    }

    /// The window with its first `n` tokens dropped.
    pub open spec fn spec_skip(&self, n: nat) -> Input<'i, T> {
        Input { data: self.data, start: (self.start + n) as usize, end: self.end }
    }

    /// The whole of `data`.
    pub fn new(data: &'i [T]) -> (r: Input<'i, T>)
        ensures
            r.wf(),
            r.data == data,
            r.start == 0,
            r@ == data@,
    {
        let r = Input { data, start: 0, end: data.len() };
        assert(r@ =~= data@);
        r
    }

    /// The number of tokens in the window.
    pub fn len(&self) -> (r: usize)
        requires
            self.wf(),
        ensures
            r == self@.len(),
    {
        self.end - self.start
    }

    /// Whether the window holds no token.
    pub fn is_empty(&self) -> (r: bool)
        requires
            self.wf(),
        ensures
            r == (self@.len() == 0),
    {
        self.end == self.start
    }

    /// The token at index `i` of the window.
    pub fn get(&self, i: usize) -> (r: T)
        requires
            self.wf(),
            i < self@.len(),
        ensures
            r == self@[i as int],
    {
        self.data[self.start + i]
    }

    /// The tokens of the window as a slice of the storage.
    pub fn tokens(&self) -> (r: &'i [T])
        requires
            self.wf(),
        ensures
            r@ == self@,
    {
        slice_subrange(self.data, self.start, self.end)
    }

    /// Splits off the first `n` tokens: the taken part and the rest, both
    /// windows on the same storage. Where fewer than `n` tokens remain, it
    /// says how many more are needed instead of truncating.
    pub fn split_at(&self, n: usize) -> (r: Result<(Input<'i, T>, Input<'i, T>), Requirement>)
        requires
            self.wf(),
        ensures
            n <= self@.len() ==> r == Ok::<_, Requirement>((self.spec_front(n as nat), self.spec_skip(n as nat))),
            n > self@.len() ==> r == Err::<(Input<'i, T>, Input<'i, T>), _>(Requirement::Exact((n - self@.len()) as usize)),
    {
        let len = self.end - self.start;
        if n <= len {
            let front = Input { data: self.data, start: self.start, end: self.start + n };
            let rest = Input { data: self.data, start: self.start + n, end: self.end };
            Ok((front, rest))
        } else {
            Err(Requirement::Exact(n - len))
        }
    }
}

/// Two windows are equal when both lie inside their storage and hold the same
/// tokens, wherever they lie.
impl<'i, T: Token> PartialEq for Input<'i, T> {
    fn eq(&self, other: &Self) -> (r: bool) {
        if !(self.start <= self.end && self.end <= self.data.len()) {
            return false;
        }
        if !(other.start <= other.end && other.end <= other.data.len()) {
            return false;
        }
        let n = self.end - self.start;
        if n != other.end - other.start {
            assert(self@.len() != other@.len());
            return false;
        }
        let mut i: usize = 0;
        while i < n
            invariant
                self.wf(),
                other.wf(),
                n == self@.len(),
                n == other@.len(),
                i <= n,
                forall|j: int| 0 <= j < i ==> self@[j] == other@[j],
            decreases n - i,
        {
            if !self.data[self.start + i].token_eq(&other.data[other.start + i]) {
                assert(self@[i as int] != other@[i as int]);
                return false;
            }
            i = i + 1;
        }
        assert(self@ =~= other@);
        true
    }
}

impl<'i, T: Token> vstd::std_specs::cmp::PartialEqSpecImpl for Input<'i, T> {
    open spec fn obeys_eq_spec() -> bool {
        true
    }

    open spec fn eq_spec(&self, other: &Input<'i, T>) -> bool {
        self.wf() && other.wf() && self@ == other@
    }
}

/// What was seen where a match failed: a token, or the end of the input.
#[derive(Clone, Copy, Debug, PartialEq, Eq)]
pub enum TokenTag<T> {
    Token(T),
    End,
}

/// What would have satisfied a failed match; for diagnostics only.
#[derive(Clone, Copy, Debug, PartialEq, Eq)]
pub enum ExpectedHint<'i, T> {
    /// A literal sequence of tokens.
    Tag(&'i [T]),
    /// One token between two bounds, both included.
    Range(T, T),
    /// A token that meets the named predicate.
    Named(&'static str),
}

/// A token that deterministically fails the active match.
#[derive(Clone, Copy, Debug, PartialEq, Eq)]
pub struct Unexpected<'i, T> {
    /// Index in the storage of the token that was seen.
    pub offset: usize,
    /// The token that was seen.
    pub unexpected: TokenTag<T>,
    /// What was looked for.
    pub expecting: ExpectedHint<'i, T>,
}

/// How much more input would settle an undecided match.
#[derive(Clone, Copy, Debug, PartialEq, Eq)]
pub enum Requirement {
    /// Exactly this many more tokens.
    Exact(usize),
    /// At least this many more tokens.
    AtLeast(usize),
    /// An amount that is not known.
    Unknown,
}

/// A value together with whether enough input was there to finish it.
#[derive(Clone, Copy, Debug)]
pub struct Capture<V> {
    pub value: V,
    pub complete: bool,
}

impl<V> Capture<V> {
    /// A finished value.
    pub fn whole(value: V) -> (r: Capture<V>)
        ensures
            r.complete,
            r.value == value,
    {
        Capture { value, complete: true }
    }

    /// A value that more input could still change.
    pub fn partial(value: V) -> (r: Capture<V>)
        ensures
            !r.complete,
            r.value == value,
    {
        Capture { value, complete: false }
    }

    /// Whether the value is finished.
    pub fn is_complete(&self) -> (r: bool)
        ensures
            r == self.complete,
    {
        self.complete
    }

    /// The value; only a finished one may be taken.
    pub fn into_value(self) -> (r: V)
        requires
            self.complete,
        ensures
            r == self.value,
    {
        self.value
    }
}

} // verus!
