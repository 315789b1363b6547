use munch::error::Error;
use munch::str::{Any, End, Peek, Satisfy, TakeWhile1};
use munch::{Outcome, Parser};
use std::cell::Cell;
use std::fmt::Debug;

fn check_mac<'a, Q>(p: &Q, input: &'a str, expected: Outcome<Q::Output, Q::Error>)
where
    Q: Parser<&'a str>,
    Q::Output: PartialEq + Debug,
    Q::Error: PartialEq + Debug,
{
    assert_eq!(p.parse(input, 0), expected);
    let shifted: &'static str = Box::leak(format!("🐱{}", input).into_boxed_str());
    let r = match p.parse(shifted, 4) {
        Ok((from, output)) => Ok((from - 4, output)),
        Err((from, error)) => Err((from - 4, error)),
    };
    assert_eq!(r, expected);
}

#[derive(Debug, PartialEq)]
enum MacError {
    Munch(Error<'static>),
    ParseInt(std::num::ParseIntError),
    AllEqual(u8),
}

#[derive(Debug, PartialEq)]
struct Ip(u8, u8, u8, u8);

#[test]
fn mac() {
    let u8 = TakeWhile1(|ch: char| '0' <= ch && ch <= '9')
        .map_err(MacError::Munch)
        .and_then(|str: &str| str.parse::<u8>().map_err(MacError::ParseInt));

    let ip = |input: &'static str, from: usize| -> Outcome<Ip, MacError> {
        let (from, a) = u8.parse(input, from)?;
        let (from, _) = '.'.map_err(MacError::Munch).parse(input, from)?;
        let inner = |input: &'static str, from: usize| u8.parse(input, from);
        let (from, b) = inner.parse(input, from)?;
        let (from, _) = Satisfy(|ch: char| ch == '.').map_err(MacError::Munch).parse(input, from)?;
        let (from, c) = u8.parse(input, from)?;
        let c = c + 1;
        let (from, _) = '.'.map_err(MacError::Munch).parse(input, from)?;
        let (from, d) = u8.parse(input, from)?;
        if a == b && b == c && c == d {
            Err((from, MacError::AllEqual(a)))
        } else {
            Ok((from, Ip(a, b, c, d)))
        }
    };

    check_mac(&ip, "", Err((0, MacError::Munch(Error::TakeWhile1))));
    check_mac(&ip, "a", Err((0, MacError::Munch(Error::TakeWhile1))));
    check_mac(&ip, "1", Err((1, MacError::Munch(Error::Char('.')))));
    check_mac(&ip, "1.", Err((2, MacError::Munch(Error::TakeWhile1))));
    check_mac(&ip, "1.2", Err((3, MacError::Munch(Error::Satisfy))));
    check_mac(&ip, "1.2.", Err((4, MacError::Munch(Error::TakeWhile1))));
    check_mac(&ip, "1.2.3.4", Ok((7, Ip(1, 2, 4, 4))));
    check_mac(&ip, "256", Err((3, MacError::ParseInt("256".parse::<u8>().err().unwrap()))));
    check_mac(&ip, "1.2.3.256", Err((9, MacError::ParseInt("256".parse::<u8>().err().unwrap()))));
    check_mac(&ip, "1.1.0.1", Err((7, MacError::AllEqual(1))));

    let count = |input: &'static str, from: usize| -> Outcome<i32, Error<'static>> {
        let n = Cell::new(0);
        let (from, _) = Any.map(|_: char| n.set(n.get() + 1)).repeat(1..).parse(input, from)?;
        Ok((from, n.get()))
    };

    check_mac(&count, "", Err((0, Error::Any)));
    check_mac(&count, "π", Ok((2, 1)));
    check_mac(&count, "πr", Ok((3, 2)));
    check_mac(&count, "πr²", Ok((5, 3)));

    let json = |input: &'static str, from: usize| -> Outcome<&'static str, Error<'static>> {
        let (from, next) = Peek.parse(input, from)?;
        let (from, value) = match next {
            'n' => Parser::parse(&"null", input, from)?,
            'f' => Parser::parse(&"false", input, from)?,
            't' => Parser::parse(&"true", input, from)?,
            '0' | '1' | '2'..='9' => TakeWhile1(|ch: char| ch.is_digit(10)).parse(input, from)?,
            _ => return Err((from, Error::Satisfy)),
        };
        let (from, _) = End.parse(input, from)?;
        Ok((from, value))
    };

    check_mac(&json, "n", Err((0, Error::Str("null"))));
    check_mac(&json, "nu", Err((0, Error::Str("null"))));
    check_mac(&json, "nul", Err((0, Error::Str("null"))));
    check_mac(&json, "null", Ok((4, "null")));
    check_mac(&json, "null.", Err((4, Error::End)));
    check_mac(&json, "f", Err((0, Error::Str("false"))));
    check_mac(&json, "false", Ok((5, "false")));
    check_mac(&json, "false.", Err((5, Error::End)));
    check_mac(&json, "t", Err((0, Error::Str("true"))));
    check_mac(&json, "true", Ok((4, "true")));
    check_mac(&json, "true.", Err((4, Error::End)));
    check_mac(&json, "0", Ok((1, "0")));
    check_mac(&json, "0123", Ok((4, "0123")));
    check_mac(&json, "0123.", Err((4, Error::End)));
    check_mac(&json, "π", Err((0, Error::Satisfy)));
}
