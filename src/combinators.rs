//! Parsers and the combinators that build larger parsers from smaller ones.
use vstd::prelude::*;
use crate::input::{Capture, ExpectedHint, Input, Requirement, TokenTag, Unexpected};
use crate::pass::{outcome_pass, ParseError, Pass, PassResult};
use crate::token::{OrderedToken, Token};

verus! {

/// A parser: a function from a cursor to an outcome.
pub trait Parser<'i, T: Token> {
    /// The value a success produces.
    type Output;

    /// The parser can run: the closures it holds accept every argument.
    spec fn wf(&self) -> bool;

    /// `r` is an outcome that the parser may give when it starts at `pass`.
    spec fn yields(&self, pass: Pass<'i, T>, r: PassResult<'i, T, Self::Output>) -> bool;

    /// Runs the parser from `pass`. The cursor it hands back, on success or
    /// failure, walks the same storage.
    fn parse(&self, pass: Pass<'i, T>) -> (r: PassResult<'i, T, Self::Output>)
        requires
            self.wf(),
            pass.wf(),
        ensures
            self.yields(pass, r),
            outcome_pass(r).wf(),
            outcome_pass(r).same_source(pass),
    ;
}

/// `k` is the first index at which `s` and `t` differ.
pub open spec fn first_mismatch<T>(s: Seq<T>, t: Seq<T>, k: int) -> bool {
    &&& 0 <= k < s.len()
    &&& k < t.len()
    &&& s[k] != t[k]
    &&& forall|j: int| 0 <= j < k ==> s[j] == t[j]
}

/// Matches a literal sequence of tokens.
#[derive(Clone, Copy, Debug)]
pub struct Tag<'i, T> {
    pub tag: &'i [T],
}

/// A parser for the literal sequence `tag`.
pub fn tag<'i, T: Token>(sequence: &'i [T]) -> (r: Tag<'i, T>)
    ensures
        r.tag == sequence,
{
    Tag { tag: sequence }
}

impl<'i, T: Token> Parser<'i, T> for Tag<'i, T> {
    type Output = Input<'i, T>;

    open spec fn wf(&self) -> bool {
        true
    }

    /// Too little input is incomplete; the first differing token is
    /// unexpected; a full match returns the matched window and moves past it.
    /// A failure consumes nothing.
    open spec fn yields(&self, pass: Pass<'i, T>, r: PassResult<'i, T, Input<'i, T>>) -> bool {
        let n = self.tag@.len();
        if pass@.len() < n {
            r == Err::<(Input<'i, T>, Pass<'i, T>), _>(
                (ParseError::<'i, T>::Incomplete(Requirement::Exact((n - pass@.len()) as usize)), pass),
            )
        } else if pass@.take(n as int) == self.tag@ {
            r == Ok::<_, (ParseError<'i, T>, Pass<'i, T>)>(
                (pass.input.spec_front(n), pass.spec_advance(n)),
            )
        } else {
            exists|k: int|
                #![trigger first_mismatch(pass@, self.tag@, k)]
                first_mismatch(pass@, self.tag@, k) && r == Err::<(Input<'i, T>, Pass<'i, T>), _>(
                    (
                        ParseError::Unexpected(
                            Unexpected {
                                offset: (pass.input.start + k) as usize,
                                unexpected: TokenTag::Token(pass@[k]),
                                expecting: ExpectedHint::Tag(self.tag),
                            },
                        ),
                        pass,
                    ),
                )
        }
    }

    fn parse(&self, pass: Pass<'i, T>) -> (r: PassResult<'i, T, Input<'i, T>>) {
        let tag_len = self.tag.len();
        let input = pass.input();
        let (input_tag, rest, cur) = match pass.with_input_result(input.split_at(tag_len)) {
            Ok(((input_tag, rest), cur)) => (input_tag, rest, cur),
            Err(e) => {
                return Err(e);
            },
        };
        let mut i: usize = 0;
        while i < tag_len
            invariant
                cur == pass,
                pass.wf(),
                input_tag == pass.input.spec_front(tag_len as nat),
                rest == pass.input.spec_skip(tag_len as nat),
                tag_len == self.tag@.len(),
                tag_len <= pass@.len(),
                i <= tag_len,
                forall|j: int| 0 <= j < i ==> pass@[j] == self.tag@[j],
            decreases tag_len - i,
        {
            let t = input_tag.get(i);
            if !self.tag[i].token_eq(&t) {
                let u = Unexpected {
                    offset: input_tag.start + i,
                    unexpected: TokenTag::Token(t),
                    expecting: ExpectedHint::Tag(self.tag),
                };
                assert(first_mismatch(pass@, self.tag@, i as int));
                return Err(cur.with_input_error_unexpected(u));
            }
            i = i + 1;
        }
        assert(pass@.take(tag_len as int) =~= self.tag@);
        Ok((input_tag, cur.commit(rest)))
    }
}

/// The outcome of taking the first remaining token where the decision on it
/// is `accept`: no token left is incomplete; an accepted token is taken; a
/// rejected one is reported with `hint`, and nothing is consumed.
pub open spec fn first_token_outcome<'i, T: Token>(
    pass: Pass<'i, T>,
    accept: bool,
    hint: ExpectedHint<'i, T>,
) -> PassResult<'i, T, T> {
    if pass@.len() == 0 {
        Err((ParseError::<'i, T>::Incomplete(Requirement::Exact(1)), pass))
    } else if accept {
        Ok((pass@[0], pass.spec_advance(1)))
    } else {
        Err(
            (
                ParseError::Unexpected(
                    Unexpected {
                        offset: pass.input.start,
                        unexpected: TokenTag::Token(pass@[0]),
                        expecting: hint,
                    },
                ),
                pass,
            ),
        )
    }
}

/// Takes the first remaining token where `predicate` accepts it.
fn take_first_if<'i, T: Token, F: Fn(T) -> bool>(
    pass: Pass<'i, T>,
    predicate: &F,
    hint: ExpectedHint<'i, T>,
) -> (r: PassResult<'i, T, T>)
    requires
        pass.wf(),
        forall|t: T| #[trigger] predicate.requires((t,)),
    ensures
        pass@.len() == 0 ==> r == first_token_outcome(pass, false, hint),
        pass@.len() > 0 ==> exists|accept: bool|
            #[trigger] predicate.ensures((pass@[0],), accept) && r == first_token_outcome(pass, accept, hint),
        outcome_pass(r).wf(),
        outcome_pass(r).same_source(pass),
{
    let input = pass.input();
    if input.is_empty() {
        return Err(pass.with_input_error_incomplete(Requirement::Exact(1)));
    }
    let t = input.get(0);
    let accept = predicate(t);
    if accept {
        let (_, rest) = match input.split_at(1) {
            Ok(parts) => parts,
            Err(req) => {
                return Err(pass.with_input_error_incomplete(req));
            },
        };
        let after = pass.commit(rest);
        Ok((t, after))
    } else {
        let u = Unexpected { offset: input.start, unexpected: TokenTag::Token(t), expecting: hint };
        Err(pass.with_input_error_unexpected(u))
    }
}

/// Matches one token that a predicate accepts.
#[derive(Clone, Copy, Debug)]
pub struct TokenIf<F> {
    pub name: &'static str,
    pub predicate: F,
}

/// A parser for one token that `predicate` accepts; `name` describes the
/// predicate where a token is rejected.
pub fn token_if<F>(name: &'static str, predicate: F) -> (r: TokenIf<F>)
    ensures
        r.name == name,
        r.predicate == predicate,
{
    TokenIf { name, predicate }
}

impl<'i, T: Token, F: Fn(T) -> bool> Parser<'i, T> for TokenIf<F> {
    type Output = T;

    open spec fn wf(&self) -> bool {
        forall|t: T| #[trigger] self.predicate.requires((t,))
    }

    open spec fn yields(&self, pass: Pass<'i, T>, r: PassResult<'i, T, T>) -> bool {
        if pass@.len() == 0 {
            r == first_token_outcome(pass, false, ExpectedHint::Named(self.name))
        } else {
            exists|accept: bool|
                #[trigger] self.predicate.ensures((pass@[0],), accept) && r == first_token_outcome(
                    pass,
                    accept,
                    ExpectedHint::Named(self.name),
                )
        }
    }

    fn parse(&self, pass: Pass<'i, T>) -> (r: PassResult<'i, T, T>) {
        take_first_if(pass, &self.predicate, ExpectedHint::Named(self.name))
    }
}

/// Matches one token between two bounds, both included.
#[derive(Clone, Copy, Debug)]
pub struct InRange<T> {
    pub low: T,
    pub high: T,
}

/// A parser for one token `t` with `low <= t <= high`.
pub fn in_range<T: OrderedToken>(low: T, high: T) -> (r: InRange<T>)
    ensures
        r.low == low,
        r.high == high,
{
    InRange { low, high }
}

impl<'i, T: OrderedToken> Parser<'i, T> for InRange<T> {
    type Output = T;

    open spec fn wf(&self) -> bool {
        true
    }

    /// No token left is incomplete; a first token within the bounds is taken;
    /// any other is unexpected, and nothing is consumed.
    open spec fn yields(&self, pass: Pass<'i, T>, r: PassResult<'i, T, T>) -> bool {
        r == first_token_outcome(
            pass,
            pass@.len() > 0 && self.low.precedes(pass@[0]) && pass@[0].precedes(self.high),
            ExpectedHint::Range(self.low, self.high),
        )
    }

    fn parse(&self, pass: Pass<'i, T>) -> (r: PassResult<'i, T, T>) {
        let low = self.low;
        let high = self.high;
        let within = |t: T| -> (b: bool)
            ensures
                b == (low.precedes(t) && t.precedes(high)),
            { low.token_le(&t) && t.token_le(&high) };
        take_first_if(pass, &within, ExpectedHint::Range(low, high))
    }
}

/// Tries `a`, and `b` where `a` fails.
#[derive(Clone, Copy, Debug)]
pub struct Or<A, B> {
    pub a: A,
    pub b: B,
}

/// A parser that gives `a`'s success, or else what `b` gives from the cursor
/// at which `a` failed. Where both fail, `b`'s error is the one reported.
pub fn or<A, B>(a: A, b: B) -> (r: Or<A, B>)
    ensures
        r.a == a,
        r.b == b,
{
    Or { a, b }
}

impl<'i, T: Token, O, A: Parser<'i, T, Output = O>, B: Parser<'i, T, Output = O>> Parser<'i, T> for Or<A, B> {
    type Output = O;

    open spec fn wf(&self) -> bool {
        self.a.wf() && self.b.wf()
    }

    open spec fn yields(&self, pass: Pass<'i, T>, r: PassResult<'i, T, O>) -> bool {
        exists|ra: PassResult<'i, T, O>|
            #[trigger] self.a.yields(pass, ra) && match ra {
                Ok(_) => r == ra,
                Err((_, at)) => self.b.yields(at, r),
            }
    }

    fn parse(&self, pass: Pass<'i, T>) -> (r: PassResult<'i, T, O>) {
        let ra = self.a.parse(pass);
        match ra {
            Err((_err_a, at)) => {
                let rb = self.b.parse(at);
                assert(self.a.yields(pass, ra));
                rb
            },
            ok => ok,
        }
    }
}

/// Runs `sub` without consuming what it matched.
#[derive(Clone, Copy, Debug)]
pub struct Peek<P> {
    pub sub: P,
}

/// A parser that gives `sub`'s value with the cursor where it started, and
/// `sub`'s failure unchanged.
pub fn peek<P>(sub: P) -> (r: Peek<P>)
    ensures
        r.sub == sub,
{
    Peek { sub }
}

impl<'i, T: Token, P: Parser<'i, T>> Parser<'i, T> for Peek<P> {
    type Output = P::Output;

    open spec fn wf(&self) -> bool {
        self.sub.wf()
    }

    open spec fn yields(&self, pass: Pass<'i, T>, r: PassResult<'i, T, P::Output>) -> bool {
        exists|rs: PassResult<'i, T, P::Output>|
            #[trigger] self.sub.yields(pass, rs) && match rs {
                Ok((v, _)) => r == Ok::<_, (ParseError<'i, T>, Pass<'i, T>)>((v, pass)),
                Err(_) => r == rs,
            }
    }

    fn parse(&self, pass: Pass<'i, T>) -> (r: PassResult<'i, T, P::Output>) {
        let input = pass.input();
        let rs = self.sub.parse(pass);
        match rs {
            Ok((out, after)) => {
                let back = after.commit(input);
                Ok((out, back))
            },
            err => err,
        }
    }
}

/// Transforms the value of `sub`'s success.
#[derive(Clone, Copy, Debug)]
pub struct Mapped<P, F> {
    pub sub: P,
    pub mapper: F,
}

/// A parser that applies `mapper` to `sub`'s value and keeps `sub`'s cursor;
/// a failure passes through unchanged.
pub fn map<P, F>(sub: P, mapper: F) -> (r: Mapped<P, F>)
    ensures
        r.sub == sub,
        r.mapper == mapper,
{
    Mapped { sub, mapper }
}

impl<'i, T: Token, P: Parser<'i, T>, O, F: Fn(P::Output) -> O> Parser<'i, T> for Mapped<P, F> {
    type Output = O;

    open spec fn wf(&self) -> bool {
        &&& self.sub.wf()
        &&& forall|v: P::Output| #[trigger] self.mapper.requires((v,))
    }

    open spec fn yields(&self, pass: Pass<'i, T>, r: PassResult<'i, T, O>) -> bool {
        exists|rs: PassResult<'i, T, P::Output>|
            #[trigger] self.sub.yields(pass, rs) && match rs {
                Ok((v, after)) => match r {
                    Ok((o, at)) => at == after && self.mapper.ensures((v,), o),
                    Err(_) => false,
                },
                Err(e) => r == Err::<(O, Pass<'i, T>), _>(e),
            }
    }

    fn parse(&self, pass: Pass<'i, T>) -> (r: PassResult<'i, T, O>) {
        let rs = self.sub.parse(pass);
        match rs {
            Ok((val, after)) => {
                let o = (self.mapper)(val);
                assert(self.sub.yields(pass, rs));
                Ok((o, after))
            },
            Err(err) => {
                assert(self.sub.yields(pass, rs));
                Err(err)
            },
        }
    }
}

/// Hands `sub`'s value and cursor to a continuation that decides what comes next.
#[derive(Clone, Copy, Debug)]
pub struct AndThen<P, F> {
    pub sub: P,
    pub next: F,
}

/// A parser whose next step depends on the value `sub` produced: on success
/// the outcome is `next`'s; a failure of `sub` passes through unchanged.
pub fn and_then<P, F>(sub: P, next: F) -> (r: AndThen<P, F>)
    ensures
        r.sub == sub,
        r.next == next,
{
    AndThen { sub, next }
}

impl<'i, T: Token + 'i, P: Parser<'i, T>, O, F: Fn((P::Output, Pass<'i, T>)) -> PassResult<'i, T, O>> Parser<'i, T> for AndThen<P, F> {
    type Output = O;

    /// The continuation accepts every value and cursor, and hands back a
    /// cursor on the same storage.
    open spec fn wf(&self) -> bool {
        &&& self.sub.wf()
        &&& forall|v: P::Output, p: Pass<'i, T>| p.wf() ==> #[trigger] self.next.requires(((v, p),))
        &&& forall|v: P::Output, p: Pass<'i, T>, r: PassResult<'i, T, O>|
            p.wf() && #[trigger] self.next.ensures(((v, p),), r) ==> outcome_pass(r).wf()
                && outcome_pass(r).same_source(p)
    }

    open spec fn yields(&self, pass: Pass<'i, T>, r: PassResult<'i, T, O>) -> bool {
        exists|rs: PassResult<'i, T, P::Output>|
            #[trigger] self.sub.yields(pass, rs) && match rs {
                Ok((v, after)) => self.next.ensures(((v, after),), r),
                Err(e) => r == Err::<(O, Pass<'i, T>), _>(e),
            }
    }

    fn parse(&self, pass: Pass<'i, T>) -> (r: PassResult<'i, T, O>) {
        let rs = self.sub.parse(pass);
        match rs {
            Ok((val, after)) => {
                let r = (self.next)((val, after));
                assert(self.sub.yields(pass, rs));
                r
            },
            Err(err) => {
                assert(self.sub.yields(pass, rs));
                Err(err)
            },
        }
    }
}

/// Turns an unfinished capture into a demand for more input.
#[derive(Clone, Copy, Debug)]
pub struct Complete<P> {
    pub sub: P,
}

/// A parser that unwraps a finished capture of `sub`, and fails as incomplete,
/// by an unknown amount, on an unfinished one.
pub fn complete<P>(sub: P) -> (r: Complete<P>)
    ensures
        r.sub == sub,
{
    Complete { sub }
}

impl<'i, T: Token, V, P: Parser<'i, T, Output = Capture<V>>> Parser<'i, T> for Complete<P> {
    type Output = V;

    open spec fn wf(&self) -> bool {
        self.sub.wf()
    }

    open spec fn yields(&self, pass: Pass<'i, T>, r: PassResult<'i, T, V>) -> bool {
        exists|rs: PassResult<'i, T, Capture<V>>|
            #[trigger] self.sub.yields(pass, rs) && match rs {
                Ok((c, after)) => if c.complete {
                    r == Ok::<_, (ParseError<'i, T>, Pass<'i, T>)>((c.value, after))
                } else {
                    r == Err::<(V, Pass<'i, T>), _>(
                        (ParseError::<'i, T>::Incomplete(Requirement::Unknown), after),
                    )
                },
                Err(e) => r == Err::<(V, Pass<'i, T>), _>(e),
            }
    }

    fn parse(&self, pass: Pass<'i, T>) -> (r: PassResult<'i, T, V>) {
        let rs = self.sub.parse(pass);
        assert(self.sub.yields(pass, rs));
        match rs {
            Ok((out, after)) => {
                if out.is_complete() {
                    Ok((out.into_value(), after))
                } else {
                    Err(after.with_input_error_incomplete(Requirement::Unknown))
                }
            },
            Err(err) => Err(err),
        }
    }
}

} // verus!
