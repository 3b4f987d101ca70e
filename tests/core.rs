use feast::combinators;
use feast::combinators::{and_then, complete, in_range, or, peek, tag, token_if, Parser};
use feast::input::{Capture, ExpectedHint, Input, Requirement, TokenTag, Unexpected};
use feast::pass::{ParseError, Pass, PassResult};

fn test_pass(input: &'static [u8]) -> Pass<'static, u8> {
    Pass::from_slice(input)
}

fn empty_pass() -> Pass<'static, u8> {
    test_pass(b"")
}

fn ascii_digit(pass: Pass<'static, u8>) -> PassResult<'static, u8, u8> {
    in_range(b'0', b'9').parse(pass)
}

#[test]
fn test_peek_simple() {
    let pass = test_pass(b"1");
    let digit = in_range(b'0', b'9');
    match peek(digit).parse(pass.clone()) {
        Ok((b'1', pass_out)) => {
            assert_eq!(pass_out, pass);
        }
        other => panic!("unexpected outcome {:?}", other),
    }
}

#[test]
fn test_map_simple() {
    let pass = test_pass(b"1");
    let digit = in_range(b'0', b'9');
    match combinators::map(digit, |digit: u8| digit as char).parse(pass.clone()) {
        Ok(('1', pass_out)) => {
            assert_eq!(pass_out, empty_pass());
        }
        other => panic!("unexpected outcome {:?}", other),
    }
}

#[test]
fn test_peek_tag() {
    let raw = &b"hello"[..];
    let pass = test_pass(raw);
    let input_tag = tag(raw);
    match peek(input_tag).parse(pass.clone()) {
        Ok((input_out, pass_out)) => {
            assert_eq!(input_out, Input::new(raw));
            assert_eq!(pass_out, pass);
        }
        other => panic!("unexpected outcome {:?}", other),
    }
}

#[test]
fn tag_matches_whole_input() {
    let pass = test_pass(b"hello");
    let (matched, rest) = tag(&b"hello"[..]).parse(pass).unwrap();
    assert_eq!(matched.tokens(), &b"hello"[..]);
    assert_eq!(rest, empty_pass());
    assert_eq!(rest.input().len(), 0);
}

#[test]
fn tag_leaves_rest_after_prefix() {
    let pass = test_pass(b"hello world");
    let (matched, rest) = tag(&b"hello"[..]).parse(pass).unwrap();
    assert_eq!(matched.tokens(), &b"hello"[..]);
    assert_eq!(rest.input().tokens(), &b" world"[..]);
    assert_eq!(rest.input().start, 5);
}

#[test]
fn tag_reports_first_mismatch() {
    let pass = test_pass(b"help!");
    let raw = &b"hello"[..];
    let (err, at) = tag(raw).parse(pass).unwrap_err();
    assert_eq!(
        err,
        ParseError::Unexpected(Unexpected {
            offset: 3,
            unexpected: TokenTag::Token(b'p'),
            expecting: ExpectedHint::Tag(raw),
        })
    );
    assert_eq!(at, pass);
    assert_eq!(at.input().start, 0);
}

#[test]
fn tag_short_input_is_incomplete() {
    let pass = test_pass(b"help");
    let (err, at) = tag(&b"hello"[..]).parse(pass).unwrap_err();
    assert_eq!(err, ParseError::Incomplete(Requirement::Exact(1)));
    assert_eq!(at, pass);
}

#[test]
fn tag_on_empty_input_is_incomplete() {
    let (err, at) = tag(&b"a"[..]).parse(empty_pass()).unwrap_err();
    assert_eq!(err, ParseError::Incomplete(Requirement::Exact(1)));
    assert_eq!(at, empty_pass());
}

#[test]
fn empty_tag_always_matches() {
    let pass = test_pass(b"xyz");
    let (matched, rest) = tag(&b""[..]).parse(pass).unwrap();
    assert_eq!(matched.len(), 0);
    assert_eq!(rest, pass);
}

#[test]
fn in_range_takes_one_digit() {
    let (digit, rest) = ascii_digit(test_pass(b"1")).unwrap();
    assert_eq!(digit, b'1');
    assert_eq!(rest, empty_pass());
}

#[test]
fn in_range_bounds_are_inclusive() {
    let (low, _) = ascii_digit(test_pass(b"0")).unwrap();
    let (high, rest) = ascii_digit(test_pass(b"9a")).unwrap();
    assert_eq!(low, b'0');
    assert_eq!(high, b'9');
    assert_eq!(rest.input().tokens(), &b"a"[..]);
}

#[test]
fn in_range_rejects_token_outside() {
    let pass = test_pass(b"a1");
    let (err, at) = ascii_digit(pass).unwrap_err();
    assert_eq!(
        err,
        ParseError::Unexpected(Unexpected {
            offset: 0,
            unexpected: TokenTag::Token(b'a'),
            expecting: ExpectedHint::Range(b'0', b'9'),
        })
    );
    assert_eq!(at, pass);
}

#[test]
fn in_range_on_empty_input_is_incomplete() {
    let (err, _) = ascii_digit(empty_pass()).unwrap_err();
    assert_eq!(err, ParseError::Incomplete(Requirement::Exact(1)));
}

#[test]
fn in_range_over_chars() {
    let text = ['q', 'z'];
    let pass = Pass::from_slice(&text[..]);
    let (c, rest) = in_range('a', 'y').parse(pass).unwrap();
    assert_eq!(c, 'q');
    let (err, _) = in_range('a', 'y').parse(rest).unwrap_err();
    assert!(matches!(err, ParseError::Unexpected(_)));
}

#[test]
fn peek_digit_keeps_input() {
    let pass = test_pass(b"1");
    let (digit, rest) = peek(in_range(b'0', b'9')).parse(pass).unwrap();
    assert_eq!(digit, b'1');
    assert_eq!(rest, pass);
    assert_eq!(rest.input().tokens(), &b"1"[..]);
}

#[test]
fn peek_passes_failure_through() {
    let pass = test_pass(b"x");
    let direct = ascii_digit(pass);
    let peeked = peek(in_range(b'0', b'9')).parse(pass);
    assert_eq!(peeked, direct);
}

#[test]
fn map_digit_to_number() {
    let digit_to_number = |d: u8| (d - b'0') as u32;
    let (n, rest) = combinators::map(in_range(b'0', b'9'), digit_to_number).parse(test_pass(b"5")).unwrap();
    assert_eq!(n, 5);
    assert_eq!(rest, empty_pass());
}

#[test]
fn map_passes_failure_through() {
    let pass = test_pass(b"x");
    let (err, at) = combinators::map(in_range(b'0', b'9'), |d: u8| d as u32).parse(pass).unwrap_err();
    assert_eq!((err, at), ascii_digit(pass).unwrap_err());
}

#[test]
fn or_takes_first_success() {
    let pass = test_pass(b"abc");
    let (matched, rest) = or(tag(&b"ab"[..]), tag(&b"a"[..])).parse(pass).unwrap();
    assert_eq!(matched.tokens(), &b"ab"[..]);
    assert_eq!(rest.input().tokens(), &b"c"[..]);
}

#[test]
fn or_falls_back_to_second() {
    let pass = test_pass(b"abc");
    let (matched, rest) = or(tag(&b"x"[..]), tag(&b"ab"[..])).parse(pass).unwrap();
    assert_eq!(matched.tokens(), &b"ab"[..]);
    assert_eq!(rest.input().tokens(), &b"c"[..]);
}

#[test]
fn or_reports_second_error() {
    let pass = test_pass(b"abc");
    let second = &b"y"[..];
    let (err, at) = or(tag(&b"x"[..]), tag(second)).parse(pass).unwrap_err();
    assert_eq!(
        err,
        ParseError::Unexpected(Unexpected {
            offset: 0,
            unexpected: TokenTag::Token(b'a'),
            expecting: ExpectedHint::Tag(second),
        })
    );
    assert_eq!(at, pass);
}

#[test]
fn and_then_chains_on_value() {
    let pass = test_pass(b"2ab");
    let count = and_then(in_range(b'0', b'9'), |(d, p): (u8, Pass<'static, u8>)| {
        let input = p.input();
        match input.split_at((d - b'0') as usize) {
            Ok((taken, rest)) => Ok((taken.len(), p.commit(rest))),
            Err(req) => Err(p.with_input_error_incomplete(req)),
        }
    });
    let (n, rest) = count.parse(pass).unwrap();
    assert_eq!(n, 2);
    assert_eq!(rest, empty_pass());
    let (err, _) = count.parse(test_pass(b"5ab")).unwrap_err();
    assert_eq!(err, ParseError::Incomplete(Requirement::Exact(3)));
}

#[test]
fn and_then_passes_failure_through() {
    let pass = test_pass(b"z");
    let r = and_then(in_range(b'0', b'9'), |(d, p): (u8, Pass<'static, u8>)| Ok((d, p)))
        .parse(pass);
    assert_eq!(r, ascii_digit(pass));
}

#[test]
fn complete_unwraps_finished_capture() {
    let pass = test_pass(b"7");
    let whole = complete(combinators::map(in_range(b'0', b'9'), |d: u8| Capture::whole(d)));
    let (v, rest) = whole.parse(pass).unwrap();
    assert_eq!(v, b'7');
    assert_eq!(rest, empty_pass());
}

#[test]
fn complete_rejects_unfinished_capture() {
    let pass = test_pass(b"7");
    let partial = complete(combinators::map(in_range(b'0', b'9'), |d: u8| Capture::partial(d)));
    let (err, at) = partial.parse(pass).unwrap_err();
    assert_eq!(err, ParseError::Incomplete(Requirement::Unknown));
    assert_eq!(at, empty_pass());
}

#[test]
fn capture_reports_completeness() {
    let c = Capture::whole(3u8);
    assert!(c.is_complete());
    assert_eq!(c.into_value(), 3);
    assert!(!Capture::partial(4u8).is_complete());
}

#[test]
fn split_at_shares_storage() {
    let input = Input::new(&b"abcd"[..]);
    let (front, rest) = input.split_at(3).unwrap();
    assert_eq!(front.tokens(), &b"abc"[..]);
    assert_eq!(rest.tokens(), &b"d"[..]);
    assert_eq!(rest.start, 3);
    assert_eq!(input.split_at(6).unwrap_err(), Requirement::Exact(2));
    assert_eq!(input.get(1), b'b');
}

#[test]
fn inputs_compare_by_tokens() {
    let a = Input::new(&b"xab"[..]).split_at(1).unwrap().1;
    let b = Input::new(&b"ab"[..]);
    assert_eq!(a, b);
    assert_ne!(a, Input::new(&b"ac"[..]));
}

#[test]
fn token_if_follows_predicate() {
    let alpha = token_if("alphabetic", |t: u8| t.is_ascii_alphabetic());
    let (t, rest) = alpha.parse(test_pass(b"k9")).unwrap();
    assert_eq!(t, b'k');
    assert_eq!(rest.input().tokens(), &b"9"[..]);
    let (err, at) = alpha.parse(rest).unwrap_err();
    assert_eq!(
        err,
        ParseError::Unexpected(Unexpected {
            offset: 1,
            unexpected: TokenTag::Token(b'9'),
            expecting: ExpectedHint::Named("alphabetic"),
        })
    );
    assert_eq!(at, rest);
    let (err, _) = alpha.parse(empty_pass()).unwrap_err();
    assert_eq!(err, ParseError::Incomplete(Requirement::Exact(1)));
}
