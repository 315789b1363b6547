use munch::ascii::{Satisfy, TakeWhile, TakeWhile1};
use munch::error::{Ascii, Error};
use munch::{Outcome, Parser};
use std::fmt::Debug;

fn check_ascii<'a, P>(p: &P, input: &'a str, expected: Outcome<P::Output, P::Error>)
where
    P: Parser<&'a str>,
    P::Output: PartialEq + Debug,
    P::Error: PartialEq + Debug,
{
    assert_eq!(p.parse(input, 0), expected);
    let shifted: &'static str = Box::leak(format!("🐱{}", input).into_boxed_str());
    let r = match p.parse(shifted, 4) {
        Ok((from, output)) => Ok((from - 4, output)),
        Err((from, error)) => Err((from - 4, error)),
    };
    assert_eq!(r, expected);
}

fn is_alphabetic(u8: u8) -> bool {
    match u8 {
        b'a'..=b'z' | b'A'..=b'Z' => true,
        _ => false,
    }
}

#[test]
fn ascii_satisfy() {
    let p = Satisfy(|u8| u8 == b'p');
    check_ascii(&p, "", Err((0, Error::Ascii(Ascii::Satisfy))));
    check_ascii(&p, "p", Ok((1, b'p')));
    check_ascii(&p, "pr", Ok((1, b'p')));
    check_ascii(&p, "pr²", Ok((1, b'p')));
    let p = Satisfy(|u8| u8 == 0x7F);
    check_ascii(&p, "\x7F", Ok((1, 0x7F)));
    let p = Satisfy(|u8| u8 == "π".as_bytes()[0]);
    check_ascii(&p, "π", Err((0, Error::Ascii(Ascii::Satisfy))));
}

#[test]
fn ascii_take_while() {
    let p = TakeWhile(is_alphabetic);
    check_ascii(&p, "", Ok((0, "")));
    check_ascii(&p, "p", Ok((1, "p")));
    check_ascii(&p, "pr", Ok((2, "pr")));
    check_ascii(&p, "pr2", Ok((2, "pr")));
    check_ascii(&p, "pr2h", Ok((2, "pr")));
    let p = TakeWhile(|u8| u8 == 0x7F);
    check_ascii(&p, "\x7F", Ok((1, "\x7F")));
    check_ascii(&p, "\x7F\x7F", Ok((2, "\x7F\x7F")));
    let p = TakeWhile(|u8| u8 == "π".as_bytes()[0]);
    check_ascii(&p, "π", Ok((0, "")));
}

#[test]
fn ascii_take_while1() {
    let p = TakeWhile1(is_alphabetic);
    check_ascii(&p, "", Err((0, Error::Ascii(Ascii::TakeWhile1))));
    check_ascii(&p, "p", Ok((1, "p")));
    check_ascii(&p, "pr", Ok((2, "pr")));
    check_ascii(&p, "pr2", Ok((2, "pr")));
    check_ascii(&p, "pr2h", Ok((2, "pr")));
    let p = TakeWhile1(|u8| u8 == 0x7F);
    check_ascii(&p, "\x7F", Ok((1, "\x7F")));
    check_ascii(&p, "\x7F\x7F", Ok((2, "\x7F\x7F")));
    let p = TakeWhile1(|u8| u8 == "π".as_bytes()[0]);
    check_ascii(&p, "π", Err((0, Error::Ascii(Ascii::TakeWhile1))));
}

#[test]
fn ascii_over_bytes() {
    let p = TakeWhile1(is_alphabetic);
    let input: &[u8] = b"pr2";
    assert_eq!(p.parse(input, 0), Ok((2, "pr")));
    let input: &[u8] = &[0xCF, 0x80];
    assert_eq!(p.parse(input, 0), Err((0, Error::Ascii(Ascii::TakeWhile1))));
    let q = Satisfy(|u8| u8 == b'r');
    let input: &[u8] = b"pr";
    assert_eq!(q.parse(input, 1), Ok((2, b'r')));
}
