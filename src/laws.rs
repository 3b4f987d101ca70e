//! What holds of the parsers whatever the input: each law in words above it.
use vstd::prelude::*;
use crate::combinators::{first_mismatch, Complete, InRange, Mapped, Or, Parser, Peek, Tag};
use crate::input::{Capture, ExpectedHint, Input, Requirement, TokenTag, Unexpected};
use crate::pass::{outcome_pass, ParseError, Pass, PassResult};
use crate::token::{OrderedToken, Token};

verus! {

/// A tag applied to input that begins with it succeeds, returns the tag's
/// tokens, and leaves the input with that prefix removed.
pub proof fn lemma_tag_matches_prefix<'i, T: Token>(
    sequence: &'i [T],
    pass: Pass<'i, T>,
    r: PassResult<'i, T, Input<'i, T>>,
)
    requires
        pass.wf(),
        sequence@.len() <= pass@.len(),
        pass@.take(sequence@.len() as int) == sequence@,
        (Tag { tag: sequence }).yields(pass, r),
    ensures
        r is Ok,
        r->Ok_0.0@ == sequence@,
        r->Ok_0.1@ == pass@.skip(sequence@.len() as int),
        r->Ok_0.1.position() == pass.position() + sequence@.len(),
{
    assert(r->Ok_0.0@ =~= sequence@);
    assert(r->Ok_0.1@ =~= pass@.skip(sequence@.len() as int));
}

/// A tag applied to input as long as the tag that first differs from it at
/// index `k` fails as unexpected: it names the input's token at `k` and the
/// whole tag, and consumes nothing.
pub proof fn lemma_tag_rejects_mismatch<'i, T: Token>(
    sequence: &'i [T],
    pass: Pass<'i, T>,
    k: int,
    r: PassResult<'i, T, Input<'i, T>>,
)
    requires
        pass.wf(),
        sequence@.len() <= pass@.len(),
        first_mismatch(pass@, sequence@, k),
        (Tag { tag: sequence }).yields(pass, r),
    ensures
        r == Err::<(Input<'i, T>, Pass<'i, T>), _>(
            (
                ParseError::Unexpected(
                    Unexpected {
                        offset: (pass.position() + k) as usize,
                        unexpected: TokenTag::Token(pass@[k]),
                        expecting: ExpectedHint::Tag(sequence),
                    },
                ),
                pass,
            ),
        ),
{
    let n = sequence@.len() as int;
    assert(pass@.take(n)[k] != sequence@[k]);
    let j = choose|j: int| first_mismatch(pass@, sequence@, j) && r == Err::<(Input<'i, T>, Pass<'i, T>), _>(
        (
            ParseError::Unexpected(
                Unexpected {
                    offset: (pass.input.start + j) as usize,
                    unexpected: TokenTag::Token(pass@[j]),
                    expecting: ExpectedHint::Tag(sequence),
                },
            ),
            pass,
        ),
    );
    if j < k {
        assert(pass@[j] == sequence@[j]);
    } else if k < j {
        assert(pass@[k] == sequence@[k]);
    }
}

/// A tag applied to input shorter than the tag fails as incomplete, never as
/// unexpected, and consumes nothing.
pub proof fn lemma_tag_short_input_incomplete<'i, T: Token>(
    sequence: &'i [T],
    pass: Pass<'i, T>,
    r: PassResult<'i, T, Input<'i, T>>,
)
    requires
        pass.wf(),
        pass@.len() < sequence@.len(),
        (Tag { tag: sequence }).yields(pass, r),
    ensures
        r is Err,
        r->Err_0.0 is Incomplete,
        r->Err_0.1 == pass,
{
}

/// A range succeeds exactly when the first token lies within its bounds, and
/// then consumes that one token; otherwise it fails as unexpected and
/// consumes nothing.
pub proof fn lemma_in_range_first_token<'i, T: OrderedToken>(
    low: T,
    high: T,
    pass: Pass<'i, T>,
    r: PassResult<'i, T, T>,
)
    requires
        pass.wf(),
        pass@.len() > 0,
        (InRange { low, high }).yields(pass, r),
    ensures
        r is Ok <==> (low.precedes(pass@[0]) && pass@[0].precedes(high)),
        r is Ok ==> r->Ok_0.0 == pass@[0] && r->Ok_0.1@ == pass@.skip(1)
            && r->Ok_0.1.position() == pass.position() + 1,
        r is Err ==> r->Err_0.0 is Unexpected && r->Err_0.1 == pass,
{
    assert(pass.spec_advance(1)@ =~= pass@.skip(1));
}

/// Where `a` consumes nothing when it fails, `or(a, b)` gives what `a` gives
/// when `a` succeeds, and otherwise what `b` gives on the same input.
pub proof fn lemma_or_alternates<'i, T: Token, O, A: Parser<'i, T, Output = O>, B: Parser<'i, T, Output = O>>(
    a: A,
    b: B,
    pass: Pass<'i, T>,
    r: PassResult<'i, T, O>,
)
    requires
        a.wf(),
        b.wf(),
        pass.wf(),
        forall|ra: PassResult<'i, T, O>| #[trigger] a.yields(pass, ra) && ra is Err ==> outcome_pass(ra) == pass,
    ensures
        (Or { a, b }).yields(pass, r) <==> ((a.yields(pass, r) && r is Ok) || ((exists|ra: PassResult<'i, T, O>| #[trigger] a.yields(pass, ra) && ra is Err) && b.yields(pass, r))),
{
    let either = Or { a, b };
    assert(either.a == a && either.b == b);
    if either.yields(pass, r) {
        let ra = choose|ra: PassResult<'i, T, O>| #[trigger] either.a.yields(pass, ra) && match ra {
            Ok(_) => r == ra,
            Err((_, at)) => either.b.yields(at, r),
        };
        assert(a.yields(pass, ra));
        if ra is Err {
            assert(outcome_pass(ra) == pass);
        }
    }
    if a.yields(pass, r) && r is Ok {
        assert(either.a.yields(pass, r));
    }
    if (exists|ra: PassResult<'i, T, O>| #[trigger] a.yields(pass, ra) && ra is Err) && b.yields(pass, r) {
        let ra = choose|ra: PassResult<'i, T, O>| #[trigger] a.yields(pass, ra) && ra is Err;
        assert(outcome_pass(ra) == pass);
        assert(either.a.yields(pass, ra));
    }
}

/// `peek(p)` gives `p`'s value with the cursor where it started, and `p`'s
/// failure unchanged; no success of `peek(p)` moves the cursor.
pub proof fn lemma_peek_rewinds<'i, T: Token, P: Parser<'i, T>>(
    sub: P,
    pass: Pass<'i, T>,
    rs: PassResult<'i, T, P::Output>,
)
    requires
        sub.wf(),
        pass.wf(),
        sub.yields(pass, rs),
    ensures
        rs is Ok ==> (Peek { sub }).yields(pass, Ok((rs->Ok_0.0, pass))),
        rs is Err ==> (Peek { sub }).yields(pass, rs),
        forall|r: PassResult<'i, T, P::Output>| #[trigger] (Peek { sub }).yields(pass, r) && r is Ok ==> r->Ok_0.1 == pass,
{
    let look = Peek { sub };
    assert(look.sub == sub);
    assert(look.sub.yields(pass, rs));
}

/// `map(p, f)` on success gives `f` of `p`'s value with `p`'s cursor, and
/// passes `p`'s failure through; every outcome of it comes from an outcome
/// of `p` that leaves the cursor at the same place.
pub proof fn lemma_map_transforms<'i, T: Token, P: Parser<'i, T>, O, F: Fn(P::Output) -> O>(
    sub: P,
    mapper: F,
    pass: Pass<'i, T>,
    rs: PassResult<'i, T, P::Output>,
)
    requires
        sub.wf(),
        pass.wf(),
        sub.yields(pass, rs),
    ensures
        rs is Ok ==> forall|o: O| mapper.ensures((rs->Ok_0.0,), o) ==> #[trigger] (Mapped { sub, mapper }).yields(pass, Ok((o, rs->Ok_0.1))),
        rs is Err ==> (Mapped { sub, mapper }).yields(pass, Err(rs->Err_0)),
        forall|r: PassResult<'i, T, O>| #[trigger] (Mapped { sub, mapper }).yields(pass, r) ==> exists|rp: PassResult<'i, T, P::Output>| #[trigger] sub.yields(pass, rp) && outcome_pass(rp) == outcome_pass(r) && (rp is Ok <==> r is Ok),
{
    let mapped = Mapped { sub, mapper };
    assert(mapped.sub == sub && mapped.mapper == mapper);
    assert(mapped.sub.yields(pass, rs));
    assert forall|r: PassResult<'i, T, O>| #[trigger] (Mapped { sub, mapper }).yields(pass, r) implies exists|rp: PassResult<'i, T, P::Output>| #[trigger] sub.yields(pass, rp) && outcome_pass(rp) == outcome_pass(r) && (rp is Ok <==> r is Ok) by {
        let rp = choose|rp: PassResult<'i, T, P::Output>| #[trigger] sub.yields(pass, rp) && match rp {
            Ok((v, after)) => match r {
                Ok((o, at)) => at == after && mapper.ensures((v,), o),
                Err(_) => false,
            },
            Err(e) => r == Err::<(O, Pass<'i, T>), _>(e),
        };
        assert(sub.yields(pass, rp));
    }
}

/// `complete(p)` succeeds exactly where `p` produced a finished capture, with
/// its value; on an unfinished one it fails as incomplete by an unknown amount.
pub proof fn lemma_complete_unwraps<'i, T: Token, V, P: Parser<'i, T, Output = Capture<V>>>(
    sub: P,
    pass: Pass<'i, T>,
    rs: PassResult<'i, T, Capture<V>>,
)
    requires
        sub.wf(),
        pass.wf(),
        sub.yields(pass, rs),
        rs is Ok,
    ensures
        rs->Ok_0.0.complete ==> (Complete { sub }).yields(pass, Ok((rs->Ok_0.0.value, rs->Ok_0.1))),
        !rs->Ok_0.0.complete ==> (Complete { sub }).yields(pass, Err((ParseError::Incomplete(Requirement::Unknown), rs->Ok_0.1))),
        forall|r: PassResult<'i, T, V>| #[trigger] (Complete { sub }).yields(pass, r) && r is Ok ==> exists|rp: PassResult<'i, T, Capture<V>>| #[trigger] sub.yields(pass, rp) && rp is Ok && rp->Ok_0.0.complete && r->Ok_0.0 == rp->Ok_0.0.value,
{
    let whole = Complete { sub };
    assert(whole.sub == sub);
    assert(whole.sub.yields(pass, rs));
}

} // verus!
