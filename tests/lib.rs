use munch::error::Error;
use munch::str::{Any, Capture, Satisfy, TakeWhile, TakeWhile1};
use munch::{Fail, Guard, Optional, Outcome, Pack, Parser, Position, Range, Succeed, Try, P};
use std::cmp::Ordering::{Equal, Greater, Less};
use std::collections::HashMap;
use std::fmt::Debug;

fn t<'a, Q>(p: &Q, input: &'a str, expected: Outcome<Q::Output, Q::Error>)
where
    Q: Parser<&'a str>,
    Q::Output: PartialEq + Debug,
    Q::Error: PartialEq + Debug,
{
    assert_eq!(p.parse(input, 0), expected);
    let shifted: &'static str = Box::leak(format!("🐱{}", input).into_boxed_str());
    let r = match p.parse(shifted, 4) {
        Ok((from, output)) => Ok((from - 4, output)),
        Err((from, error)) => Err((from - 4, error)),
    };
    assert_eq!(r, expected);
}

#[test]
fn p() {
    let q = 'π'.p();
    t(&q, "", Err((0, Error::Char('π'))));
    t(&q, "π", Ok((2, 'π')));
    t(&q, "πr", Ok((2, 'π')));
    let q = 'π'.p() | 'r' | "²".map(|_| '2');
    t(&q, "", Err((0, Error::Str("²"))));
    t(&q, "π", Ok((2, 'π')));
    t(&q, "πr", Ok((2, 'π')));
    t(&q, "r", Ok((1, 'r')));
    t(&q, "r²", Ok((1, 'r')));
    t(&q, "²", Ok((2, '2')));
    t(&q, "²³", Ok((2, '2')));
    let q = 'π'.p() << 'r' << '²';
    t(&q, "", Err((0, Error::Char('π'))));
    t(&q, "π", Err((2, Error::Char('r'))));
    t(&q, "πr", Err((3, Error::Char('²'))));
    t(&q, "πr²", Ok((5, 'π')));
    t(&q, "πr²h", Ok((5, 'π')));
    let q = 'π'.p() << 'r' >> '²';
    t(&q, "", Err((0, Error::Char('π'))));
    t(&q, "π", Err((2, Error::Char('r'))));
    t(&q, "πr", Err((3, Error::Char('²'))));
    t(&q, "πr²", Ok((5, '²')));
    t(&q, "πr²h", Ok((5, '²')));
    let q = 'π'.p() >> 'r' << '²';
    t(&q, "", Err((0, Error::Char('π'))));
    t(&q, "π", Err((2, Error::Char('r'))));
    t(&q, "πr", Err((3, Error::Char('²'))));
    t(&q, "πr²", Ok((5, 'r')));
    t(&q, "πr²h", Ok((5, 'r')));
    let q = 'π'.p() >> 'r' >> '²';
    t(&q, "", Err((0, Error::Char('π'))));
    t(&q, "π", Err((2, Error::Char('r'))));
    t(&q, "πr", Err((3, Error::Char('²'))));
    t(&q, "πr²", Ok((5, '²')));
    t(&q, "πr²h", Ok((5, '²')));
}

#[test]
fn by_ref() {
    let c = 'π';
    let q = c.by_ref();
    t(&q, "", Err((0, Error::Char('π'))));
    t(&q, "π", Ok((2, 'π')));
    t(&q, "πr", Ok((2, 'π')));
}

#[derive(Debug, PartialEq)]
enum PackError {
    Low,
    High,
    NotANumber,
}

#[test]
fn pack() {
    let number = |input: &'static str, from: usize, &(min, max): &(u32, u32)| {
        TakeWhile1(|ch: char| ch.is_digit(10))
            .map_err(|_| PackError::NotANumber)
            .and_then(|str: &str| match str.parse::<u32>() {
                Ok(number) => {
                    if number < min {
                        Err(PackError::Low)
                    } else if number > max {
                        Err(PackError::High)
                    } else {
                        Ok(number)
                    }
                }
                Err(_) => Err(PackError::NotANumber),
            })
            .parse(input, from)
    };
    let q = Pack(&number, (10, 100));
    t(&q, "", Err((0, PackError::NotANumber)));
    t(&q, "π", Err((0, PackError::NotANumber)));
    t(&q, "9", Err((1, PackError::Low)));
    t(&q, "10", Ok((2, 10)));
    t(&q, "55", Ok((2, 55)));
    t(&q, "100", Ok((3, 100)));
    t(&q, "101", Err((3, PackError::High)));
    t(&q, "4294967296", Err((10, PackError::NotANumber)));
}

#[test]
fn and() {
    let q = 'π'.and('r').and('²');
    t(&q, "", Err((0, Error::Char('π'))));
    t(&q, "a", Err((0, Error::Char('π'))));
    t(&q, "π", Err((2, Error::Char('r'))));
    t(&q, "πh", Err((2, Error::Char('r'))));
    t(&q, "πr", Err((3, Error::Char('²'))));
    t(&q, "πrh", Err((3, Error::Char('²'))));
    t(&q, "πr²", Ok((5, (('π', 'r'), '²'))));
    t(&q, "πr²h", Ok((5, (('π', 'r'), '²'))));
}

#[test]
fn and_skip() {
    let q = 'π'.and_skip("r").and('²');
    t(&q, "", Err((0, Error::Char('π'))));
    t(&q, "a", Err((0, Error::Char('π'))));
    t(&q, "π", Err((2, Error::Str("r"))));
    t(&q, "πh", Err((2, Error::Str("r"))));
    t(&q, "πr", Err((3, Error::Char('²'))));
    t(&q, "πrh", Err((3, Error::Char('²'))));
    t(&q, "πr²", Ok((5, ('π', '²'))));
    t(&q, "πr²h", Ok((5, ('π', '²'))));
}

#[test]
fn skip_and() {
    let q = "π".skip_and('r').and('²');
    t(&q, "", Err((0, Error::Str("π"))));
    t(&q, "a", Err((0, Error::Str("π"))));
    t(&q, "π", Err((2, Error::Char('r'))));
    t(&q, "πh", Err((2, Error::Char('r'))));
    t(&q, "πr", Err((3, Error::Char('²'))));
    t(&q, "πrh", Err((3, Error::Char('²'))));
    t(&q, "πr²", Ok((5, ('r', '²'))));
    t(&q, "πr²h", Ok((5, ('r', '²'))));
}

#[test]
fn or() {
    let q = 'π'.or('r').or('²');
    t(&q, "", Err((0, Error::Char('²'))));
    t(&q, "a", Err((0, Error::Char('²'))));
    t(&q, "π", Ok((2, 'π')));
    t(&q, "r", Ok((1, 'r')));
    t(&q, "²", Ok((2, '²')));
    let q = 'π'.and('r').and('²').or('2'.and('π').and('r'));
    t(&q, "", Err((0, Error::Char('2'))));
    t(&q, "π", Err((2, Error::Char('r'))));
    t(&q, "πr", Err((3, Error::Char('²'))));
    t(&q, "πr²", Ok((5, (('π', 'r'), '²'))));
    t(&q, "πr²h", Ok((5, (('π', 'r'), '²'))));
    t(&q, "2", Err((1, Error::Char('π'))));
    t(&q, "2π", Err((3, Error::Char('r'))));
    t(&q, "2πr", Ok((4, (('2', 'π'), 'r'))));
    t(&q, "2πrh", Ok((4, (('2', 'π'), 'r'))));
    let q = 'π'.and('r').and('²').or('π'.and('r').and('2'));
    t(&q, "πr²", Ok((5, (('π', 'r'), '²'))));
    t(&q, "πr2", Err((3, Error::Char('²'))));
    let q = Try('π'.and('r').and('²')).or('π'.and('r').and('2'));
    t(&q, "πr²", Ok((5, (('π', 'r'), '²'))));
    t(&q, "πr2", Ok((4, (('π', 'r'), '2'))));
}

#[test]
fn try_() {
    let q = Try('π'.and('r').and('²'));
    t(&q, "", Err((0, Error::Char('π'))));
    t(&q, "a", Err((0, Error::Char('π'))));
    t(&q, "π", Err((0, Error::Char('r'))));
    t(&q, "πh", Err((0, Error::Char('r'))));
    t(&q, "πr", Err((0, Error::Char('²'))));
    t(&q, "πrh", Err((0, Error::Char('²'))));
    t(&q, "πr²", Ok((5, (('π', 'r'), '²'))));
    t(&q, "πr²h", Ok((5, (('π', 'r'), '²'))));
}

#[test]
fn map() {
    let q = "one"
        .or("two")
        .or("three")
        .map(|str: &str| str.len())
        .or(Satisfy(char::is_alphabetic).map(|ch: char| ch.len_utf8()));
    t(&q, "one", Ok((3, 3)));
    t(&q, "two", Ok((3, 3)));
    t(&q, "three", Ok((5, 5)));
    t(&q, "a", Ok((1, 1)));
    t(&q, "π", Ok((2, 2)));
}

#[derive(Debug, PartialEq)]
enum MapErrError {
    Munch(munch::error::Error<'static>),
}

#[test]
fn map_err() {
    let q = "foo".map_err(MapErrError::Munch);
    t(&q, "", Err((0, MapErrError::Munch(munch::error::Error::Str("foo")))));
    t(&q, "foo", Ok((3, "foo")));
}

#[test]
fn tuple() {
    t(&('a',), "a", Ok((1, ('a',))));
    t(&('a', 'b'), "ab", Ok((2, ('a', 'b'))));
    t(&('a', 'b', 'c'), "abc", Ok((3, ('a', 'b', 'c'))));
    t(&('a', 'b', 'c', 'd'), "abcd", Ok((4, ('a', 'b', 'c', 'd'))));
    t(&('a', 'b', 'c', 'd', 'e'), "abcde", Ok((5, ('a', 'b', 'c', 'd', 'e'))));
    t(&('a', 'b', 'c', 'd', 'e', 'f'), "abcdef", Ok((6, ('a', 'b', 'c', 'd', 'e', 'f'))));
    t(
        &('a', 'b', 'c', 'd', 'e', 'f', 'g'),
        "abcdefg",
        Ok((7, ('a', 'b', 'c', 'd', 'e', 'f', 'g'))),
    );
    t(
        &('a', 'b', 'c', 'd', 'e', 'f', 'g', 'h'),
        "abcdefgh",
        Ok((8, ('a', 'b', 'c', 'd', 'e', 'f', 'g', 'h'))),
    );
    t(
        &('a', 'b', 'c', 'd', 'e', 'f', 'g', 'h', 'i'),
        "abcdefghi",
        Ok((9, ('a', 'b', 'c', 'd', 'e', 'f', 'g', 'h', 'i'))),
    );
    t(
        &('a', 'b', 'c', 'd', 'e', 'f', 'g', 'h', 'i', 'j'),
        "abcdefghij",
        Ok((10, ('a', 'b', 'c', 'd', 'e', 'f', 'g', 'h', 'i', 'j'))),
    );
    t(
        &('a', 'b', 'c', 'd', 'e', 'f', 'g', 'h', 'i', 'j', 'k'),
        "abcdefghijk",
        Ok((11, ('a', 'b', 'c', 'd', 'e', 'f', 'g', 'h', 'i', 'j', 'k'))),
    );
    t(
        &('a', 'b', 'c', 'd', 'e', 'f', 'g', 'h', 'i', 'j', 'k', 'l'),
        "abcdefghijkl",
        Ok((12, ('a', 'b', 'c', 'd', 'e', 'f', 'g', 'h', 'i', 'j', 'k', 'l'))),
    );
}

#[test]
fn fn_() {
    let pi = |input: &'static str, from: usize| {
        if input[from..].starts_with("pi") {
            Ok((from + 2, 'π'))
        } else {
            Err((from, ()))
        }
    };
    t(&pi, "", Err((0, ())));
    t(&pi, "pi", Ok((2, 'π')));
    t(&pi, "pie", Ok((2, 'π')));
}

#[derive(Debug, PartialEq)]
enum AndThenError {
    Munch(munch::error::Error<'static>),
    ParseIntError(std::num::ParseIntError),
}

#[test]
fn and_then() {
    let q = TakeWhile1(|ch: char| '0' <= ch && ch <= '9')
        .map_err(AndThenError::Munch)
        .and_then(|str: &str| str.parse::<u8>().map_err(AndThenError::ParseIntError));
    t(&q, "", Err((0, AndThenError::Munch(munch::error::Error::TakeWhile1))));
    t(&q, "0", Ok((1, 0)));
    t(&q, "255", Ok((3, 255)));
    t(&q, "256", Err((3, AndThenError::ParseIntError("256".parse::<u8>().err().unwrap()))));
    t(&q, "1024", Err((4, AndThenError::ParseIntError("1024".parse::<u8>().err().unwrap()))));
}

#[test]
fn optional() {
    let q = 'π'.optional();
    t(&q, "", Ok((0, None)));
    t(&q, "π", Ok((2, Some('π'))));
    t(&q, "πr", Ok((2, Some('π'))));
    let q = ('π', 'r', "²").optional();
    t(&q, "", Ok((0, None)));
    t(&q, "π", Err((2, Error::Char('r'))));
    t(&q, "πr", Err((3, Error::Str("²"))));
    t(&q, "πr²", Ok((5, Some(('π', 'r', "²")))));
    t(&q, "πr²h", Ok((5, Some(('π', 'r', "²")))));
    let q = (Try(('π', 'r')), "²").optional();
    t(&q, "", Ok((0, None)));
    t(&q, "π", Ok((0, None)));
    t(&q, "πr", Err((3, Error::Str("²"))));
    t(&q, "πr²", Ok((5, Some((('π', 'r'), "²")))));
    t(&q, "πr²h", Ok((5, Some((('π', 'r'), "²")))));
}

#[test]
fn bind() {
    let q = Any.bind(|ch: char| ch);
    t(&q, "", Err((0, Error::Any)));
    t(&q, "π", Err((2, Error::Char('π'))));
    t(&q, "πr", Err((2, Error::Char('π'))));
    t(&q, "ππ", Ok((4, 'π')));
    t(&q, "ππr", Ok((4, 'π')));
    let q = Any.bind(|a: char| std::char::from_u32(a as u32 + 1).unwrap().map(move |b: char| (a, b)));
    t(&q, "", Err((0, Error::Any)));
    t(&q, "π", Err((2, Error::Char('ρ'))));
    t(&q, "πr", Err((2, Error::Char('ρ'))));
    t(&q, "πρ", Ok((4, ('π', 'ρ'))));
    t(&q, "πρς", Ok((4, ('π', 'ρ'))));
}

#[derive(Debug, PartialEq)]
enum GuardError {
    NotANumber,
    Huge,
    Negative,
    Odd,
}

#[test]
fn guard() {
    let q = P(|input: &'static str, from: usize| -> Outcome<i32, GuardError> {
        let (from, str) = Capture((Optional('-'), TakeWhile1(|ch: char| ch.is_digit(10))))
            .map_err(|_| GuardError::NotANumber)
            .parse(input, from)?;
        let n: i32 = str.parse().unwrap();
        let (from, _) = Guard(|| n <= 255, || GuardError::Huge).parse(input, from)?;
        let (from, _) = Guard(|| n >= 0, || GuardError::Negative).parse(input, from)?;
        let (from, _) = Guard(|| n % 2 == 0, || GuardError::Odd).parse(input, from)?;
        Ok((from, n))
    });
    t(&q, "0", Ok((1, 0)));
    t(&q, "12", Ok((2, 12)));
    t(&q, "124", Ok((3, 124)));
    t(&q, "abc", Err((0, GuardError::NotANumber)));
    t(&q, "1234", Err((4, GuardError::Huge)));
    t(&q, "-12", Err((3, GuardError::Negative)));
    t(&q, "123", Err((3, GuardError::Odd)));
}

#[test]
fn succeed() {
    let q = Succeed::<_, ()>(|| '✓');
    t(&q, "", Ok((0, '✓')));
    t(&q, "π", Ok((0, '✓')));
}

#[test]
fn fail() {
    let q = Fail(|| '✗');
    t(&q, "", Err((0, '✗')));
    t(&q, "π", Err((0, '✗')));
}

fn cycle(i: usize) -> String {
    "πr²".chars().cycle().take(i).collect::<String>()
}

fn repeat_with<R: Range + Clone>(range: R) {
    let (min, max) = (range.min(), range.max());
    let p1 = ('π', 'r', '²').repeat(range.clone());
    let p2 = (Try(('π', 'r')), '²')
        .map(|((a, b), c): ((char, char), char)| (a, b, c))
        .repeat(range);
    for i in 0..36 {
        let string = cycle(i);
        let r1 = p1.parse(string.as_str(), 0);
        let r2 = p2.parse(string.as_str(), 0);
        let complete = i / 3;
        let cmp = match max {
            _ if complete < min => Less,
            Some(max) if complete >= max => Greater,
            _ => Equal,
        };
        match (i % 3, cmp) {
            (0, Less) => {
                assert_eq!(r1, Err((complete * 5, Error::Char('π'))));
                assert_eq!(r2, Err((complete * 5, Error::Char('π'))));
            }
            (1, Less) => {
                assert_eq!(r1, Err((complete * 5 + 2, Error::Char('r'))));
                assert_eq!(r2, Err((complete * 5, Error::Char('r'))));
            }
            (1, Equal) => {
                assert_eq!(r1, Err((complete * 5 + 2, Error::Char('r'))));
                assert_eq!(r2, Ok((complete * 5, vec![('π', 'r', '²'); complete])));
            }
            (2, Less) | (2, Equal) => {
                assert_eq!(r1, Err((complete * 5 + 3, Error::Char('²'))));
                assert_eq!(r2, Err((complete * 5 + 3, Error::Char('²'))));
            }
            (0, Equal) | (_, Greater) => {
                let done = match max {
                    Some(max) => std::cmp::min(complete, max),
                    None => complete,
                };
                assert_eq!(r1, Ok((done * 5, vec![('π', 'r', '²'); done])));
                assert_eq!(r2, Ok((done * 5, vec![('π', 'r', '²'); done])));
            }
            _ => unreachable!(),
        }
    }
}

#[test]
fn repeat() {
    repeat_with(..);
    for i in 0..10usize {
        repeat_with(i);
        repeat_with(..i);
        repeat_with(i..);
        for j in i..10 {
            repeat_with(i..j);
        }
    }
}

#[test]
fn collect() {
    let q = (Any.p() << ':', Any).repeat(..).collect::<HashMap<char, char>>();
    t(&q, "", Ok((0, HashMap::new())));
    t(&q, "π:r²:h", Ok((8, [('π', 'r'), ('²', 'h')].iter().cloned().collect())));
}

fn fold_with<R: Range + Clone>(range: R) {
    let p1 = ('π', 'r', '²').repeat(range.clone());
    let p1f = p1.clone().fold(Vec::new, |mut acc: Vec<(char, char, char)>, x: (char, char, char)| {
        acc.push(x);
        acc
    });

    let flatten = |((a, b), c): ((char, char), char)| (a, b, c);
    let p2 = (Try(('π', 'r')), '²').map(&flatten).repeat(range);
    let p2f = p2.clone().fold(Vec::new, |mut acc: Vec<(char, char, char)>, x: (char, char, char)| {
        acc.push(x);
        acc
    });

    for i in 0..36 {
        let string = cycle(i);
        assert_eq!(p1.parse(string.as_str(), 0), p1f.parse(string.as_str(), 0));
        assert_eq!(p2.parse(string.as_str(), 0), p2f.parse(string.as_str(), 0));
    }
}

#[test]
fn fold() {
    fold_with(..);
    for i in 0..10usize {
        fold_with(i);
        fold_with(..i);
        fold_with(i..);
        for j in i..10 {
            fold_with(i..j);
        }
    }
}

fn join_with<R: Range + Clone>(range: R) {
    let (min, max) = (range.min(), range.max());
    let p1 = 'π'.repeat(range.clone()).join(('r', '²'));
    let p2 = 'π'.repeat(range).join(Try(('r', '²')));
    for i in 0..36 {
        let string = cycle(i);
        let r1 = p1.parse(string.as_str(), 0);
        let r2 = p2.parse(string.as_str(), 0);
        let complete = (i + 2) / 3;
        let cmp = match max {
            _ if complete < min => Less,
            Some(max) if complete >= max => Greater,
            _ => Equal,
        };

        if i == 0 || (min, max) == (0, Some(0)) {
            match cmp {
                Less => {
                    assert_eq!(r1, Err((0, Error::Char('π'))));
                    assert_eq!(r2, Err((0, Error::Char('π'))));
                }
                Equal | Greater => {
                    assert_eq!(r1, Ok((0, vec![])));
                    assert_eq!(r2, Ok((0, vec![])));
                }
            }
        } else {
            match ((i - 1) % 3, cmp) {
                (0, Less) => {
                    assert_eq!(r1, Err((complete * 5 - 3, Error::Char('r'))));
                    assert_eq!(r2, Err((complete * 5 - 3, Error::Char('r'))));
                }
                (1, Less) => {
                    assert_eq!(r1, Err((complete * 5 - 2, Error::Char('²'))));
                    assert_eq!(r2, Err((complete * 5 - 3, Error::Char('²'))));
                }
                (1, Equal) => {
                    assert_eq!(r1, Err((complete * 5 - 2, Error::Char('²'))));
                    assert_eq!(r2, Ok((complete * 5 - 3, vec!['π'; complete])));
                }
                (2, Less) | (2, Equal) => {
                    assert_eq!(r1, Err((complete * 5, Error::Char('π'))));
                    assert_eq!(r2, Err((complete * 5, Error::Char('π'))));
                }
                (0, Equal) | (_, Greater) => {
                    let done = match max {
                        Some(max) => std::cmp::min(complete, max),
                        None => complete,
                    };
                    assert_eq!(r1, Ok((done * 5 - 3, vec!['π'; done])));
                    assert_eq!(r2, Ok((done * 5 - 3, vec!['π'; done])));
                }
                _ => unreachable!(),
            }
        }
    }
}

#[test]
fn join() {
    join_with(..);
    for i in 0..10usize {
        join_with(i);
        join_with(..i);
        join_with(i..);
        for j in i..10 {
            join_with(i..j);
        }
    }
}

fn join_fold_with<R: Range + Clone>(range: R) {
    let first = |mut vec: Vec<char>, output: char| {
        vec.push(output);
        vec
    };
    let rest = |mut vec: Vec<char>, separator: (char, char), output: char| {
        assert_eq!(separator, ('r', '²'));
        vec.push(output);
        vec
    };
    let p1 = 'π'.repeat(range.clone()).join(('r', '²'));
    let p1f = p1.clone().fold(Vec::new, &first, &rest);
    let p2 = 'π'.repeat(range).join(Try(('r', '²')));
    let p2f = p2.clone().fold(Vec::new, &first, &rest);
    for i in 0..36 {
        let string = cycle(i);
        assert_eq!(p1.parse(string.as_str(), 0), p1f.parse(string.as_str(), 0));
        assert_eq!(p2.parse(string.as_str(), 0), p2f.parse(string.as_str(), 0));
    }
}

#[test]
fn join_fold() {
    join_fold_with(..);
    for i in 0..10usize {
        join_fold_with(i);
        join_fold_with(..i);
        join_fold_with(i..);
        for j in i..10 {
            join_fold_with(i..j);
        }
    }
}

#[test]
fn position() {
    let p = |input: &'static str, from: usize| -> Outcome<(usize, &'static str, usize), Error<'static>> {
        let (from, _) = TakeWhile(char::is_whitespace).parse(input, from)?;
        let (from, lo) = Position::<&'static str, Error<'static>>.parse(input, from)?;
        let (from, word) = TakeWhile1(|ch: char| !ch.is_whitespace()).parse(input, from)?;
        let (from, hi) = Position::<&'static str, Error<'static>>.parse(input, from)?;
        let (from, _) = TakeWhile(char::is_whitespace).parse(input, from)?;
        Ok((from, (lo, word, hi)))
    };

    assert_eq!(p.parse("", 0), Err((0, Error::TakeWhile1)));
    assert_eq!(p.parse("  ", 0), Err((2, Error::TakeWhile1)));
    assert_eq!(p.parse("π", 0), Ok((2, (0, "π", 2))));
    assert_eq!(p.parse("πr²", 0), Ok((5, (0, "πr²", 5))));
    assert_eq!(p.parse("  π", 0), Ok((4, (2, "π", 4))));
    assert_eq!(p.parse("  πr²", 0), Ok((7, (2, "πr²", 7))));
    assert_eq!(p.parse("  π  ", 0), Ok((6, (2, "π", 4))));
    assert_eq!(p.parse("  πr²  ", 0), Ok((9, (2, "πr²", 7))));
    assert_eq!(p.parse("  π  h", 0), Ok((6, (2, "π", 4))));
    assert_eq!(p.parse("  πr²  h", 0), Ok((9, (2, "πr²", 7))));
}
