use munch::error::Error;
use munch::str::{Any, Capture, Satisfy, TakeWhile, TakeWhile1};
use munch::{Outcome, Parser};
use std::fmt::Debug;

fn check<'a, P>(p: &P, input: &'a str, expected: Outcome<P::Output, P::Error>)
where
    P: Parser<&'a str>,
    P::Output: PartialEq + Debug,
    P::Error: PartialEq + Debug,
{
    assert_eq!(p.parse(input, 0), expected);
    let shifted: &'static str = Box::leak(format!("🐱{}", input).into_boxed_str());
    let r = match p.parse(shifted, 4) {
        Ok((from, output)) => Ok((from - 4, output)),
        Err((from, error)) => Err((from - 4, error)),
    };
    assert_eq!(r, expected);
}

#[test]
fn char() {
    let p = 'π';
    check(&p, "", Err((0, Error::Char('π'))));
    check(&p, "π", Ok((2, 'π')));
    check(&p, "πr", Ok((2, 'π')));
    check(&p, "πr²", Ok((2, 'π')));
}

#[test]
fn str() {
    let p = "πr";
    check(&p, "", Err((0, Error::Str("πr"))));
    check(&p, "π", Err((0, Error::Str("πr"))));
    check(&p, "πr", Ok((3, "πr")));
    check(&p, "πr²", Ok((3, "πr")));
}

#[test]
fn str_satisfy() {
    let p = Satisfy(char::is_alphabetic);
    check(&p, "", Err((0, Error::Satisfy)));
    check(&p, "π", Ok((2, 'π')));
    check(&p, "πr", Ok((2, 'π')));
}

#[test]
fn str_take_while() {
    let p = TakeWhile(char::is_alphabetic);
    check(&p, "", Ok((0, "")));
    check(&p, "π", Ok((2, "π")));
    check(&p, "πr", Ok((3, "πr")));
    check(&p, "πr²", Ok((3, "πr")));
    check(&p, "πr²h", Ok((3, "πr")));
}

#[test]
fn str_take_while1() {
    let p = TakeWhile1(char::is_alphabetic);
    check(&p, "", Err((0, Error::TakeWhile1)));
    check(&p, "π", Ok((2, "π")));
    check(&p, "πr", Ok((3, "πr")));
    check(&p, "πr²", Ok((3, "πr")));
    check(&p, "πr²h", Ok((3, "πr")));
}

/// A letter or a decimal digit; unlike `char::is_alphanumeric`, it does not take in other
/// numeric characters such as `'²'`.
fn is_alphanumeric(c: char) -> bool {
    c.is_alphabetic() || c.is_ascii_digit()
}

#[test]
fn str_capture() {
    let p = Capture((Satisfy(char::is_alphabetic), TakeWhile(is_alphanumeric)));
    check(&p, "1", Err((0, Error::Satisfy)));
    check(&p, "π", Ok((2, "π")));
    check(&p, "πr", Ok((3, "πr")));
    check(&p, "πr²", Ok((3, "πr")));
    check(&p, "πrr", Ok((4, "πrr")));
    check(&p, "πrrh", Ok((5, "πrrh")));
}

#[test]
fn str_any() {
    let p = Any;
    check(&p, "", Err((0, Error::Any)));
    check(&p, "π", Ok((2, 'π')));
    check(&p, "πr", Ok((2, 'π')));
}
