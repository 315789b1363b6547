use munch::byte::{BigEndian, LittleEndian, Take};
use munch::error::{BinaryType, Endianness, Error};
use munch::str::{Capture, End, Peek, TakeWhile, TakeWhile1};
use munch::{Optional, Parser, Try};

#[derive(Debug, PartialEq)]
enum IpError {
    Munch(Error<'static>),
    Overflow,
}

fn octet(input: &str, from: usize) -> munch::Outcome<u8, IpError> {
    TakeWhile1(|ch: char| ch.is_ascii_digit())
        .map_err(IpError::Munch)
        .and_then(|digits: &str| digits.parse::<u8>().map_err(|_| IpError::Overflow))
        .parse(input, from)
}

fn dot(input: &str, from: usize) -> munch::Outcome<char, IpError> {
    '.'.map_err(IpError::Munch).parse(input, from)
}

fn end(input: &str, from: usize) -> munch::Outcome<(), IpError> {
    End.map_err(IpError::Munch).parse(input, from)
}

#[test]
fn four_octets() {
    let ip = (octet, dot, octet, dot, octet, dot, octet, end)
        .map(|(a, _, b, _, c, _, d, _): (u8, char, u8, char, u8, char, u8, ())| (a, b, c, d));
    assert_eq!(ip.parse("0.0.0.0", 0), Ok((7, (0, 0, 0, 0))));
    assert_eq!(ip.parse("0.0.0.256", 0), Err((9, IpError::Overflow)));
    assert_eq!(ip.parse("10.20.30.40", 0), Ok((11, (10, 20, 30, 40))));
    assert_eq!(ip.parse("1.2.3", 0), Err((5, IpError::Munch(Error::Char('.')))));
}

#[test]
fn digits_run() {
    let p = TakeWhile1(|ch: char| ch.is_ascii_digit());
    assert_eq!(p.parse("", 0), Err((0, Error::TakeWhile1)));
    assert_eq!(p.parse("12a", 0), Ok((2, "12")));
}

#[test]
fn little_endian_u16_field() {
    let bytes: &[u8] = &[148, 213];
    assert_eq!(LittleEndian::u16(bytes, 0), Ok((2, 54676)));
    assert_eq!(LittleEndian::u16(&bytes[..1], 0), Err((0, Error::Binary(Endianness::Little, BinaryType::u16))));
    assert_eq!(LittleEndian::u16(bytes, 1), Err((1, Error::Binary(Endianness::Little, BinaryType::u16))));
}

fn number(input: &str, from: usize) -> munch::Outcome<i64, Error<'static>> {
    (TakeWhile(char::is_whitespace).p()
        >> TakeWhile1(|ch: char| ch.is_ascii_digit()).map(|digits: &str| digits.parse::<i64>().unwrap())
        << TakeWhile(char::is_whitespace))
        .parse(input, from)
}

fn term(input: &str, from: usize) -> munch::Outcome<i64, Error<'static>> {
    number
        .repeat(1..)
        .join('*'.or('/'))
        .fold(|| 0, |_: i64, x: i64| x, |acc: i64, op: char, x: i64| if op == '*' { acc * x } else { acc / x })
        .parse(input, from)
}

fn expr(input: &str, from: usize) -> munch::Outcome<i64, Error<'static>> {
    term.repeat(1..)
        .join('+'.or('-'))
        .fold(|| 0, |_: i64, x: i64| x, |acc: i64, op: char, x: i64| if op == '+' { acc + x } else { acc - x })
        .parse(input, from)
}

#[test]
fn arithmetic_fold() {
    assert_eq!(expr("1 + 2 * 3/4", 0), Ok((11, 2)));
    assert_eq!(expr("7 - 2 - 1", 0), Ok((9, 4)));
    assert_eq!(expr("8 / 2 / 2", 0), Ok((9, 2)));
}

#[test]
fn join_multibyte() {
    let p = 'π'.repeat(..).join(('r', '²'));
    assert_eq!(p.parse("πr²π", 0), Ok((7, vec!['π', 'π'])));
    assert_eq!(p.parse("πr²πr²", 0), Err((10, Error::Char('π'))));
    let q = ('π', ('r', '²')).repeat(..);
    assert_eq!(q.parse("πr²πr²", 0), Ok((10, vec![('π', ('r', '²')), ('π', ('r', '²'))])));
}

#[test]
fn or_backtracks_only_without_consumption() {
    let a = '2'.and('π');
    let b = 'π'.and('r');
    assert_eq!(a.parse("πr", 0), Err((0, Error::Char('2'))));
    assert_eq!('2'.and('π').or('π'.and('r')).parse("πr", 0), b.parse("πr", 0));
    let committed = 'π'.and('2');
    assert_eq!(committed.parse("πr", 0), Err((2, Error::Char('2'))));
    assert_eq!('π'.and('2').or('π'.and('r')).parse("πr", 0), Err((2, Error::Char('2'))));
}

#[test]
fn try_reports_start_offset() {
    let p = ('π', 'r', '²');
    assert_eq!(p.parse("πrx", 0), Err((3, Error::Char('²'))));
    assert_eq!(Try(('π', 'r', '²')).parse("πrx", 0), Err((0, Error::Char('²'))));
    assert_eq!(Try(('π', 'r', '²')).parse("xπr²πrx", 6), Err((6, Error::Char('²'))));
}

#[test]
fn optional_fails_only_when_committed() {
    let p = Optional(('π', 'r'));
    assert_eq!(p.parse("x", 0), Ok((0, None)));
    assert_eq!(p.parse("", 0), Ok((0, None)));
    assert_eq!(p.parse("πx", 0), Err((2, Error::Char('r'))));
    assert_eq!(p.parse("πr", 0), Ok((3, Some(('π', 'r')))));
}

#[test]
fn repeat_bounds() {
    let p = 'a'.repeat(1..3);
    assert_eq!(p.parse("aaaaa", 0), Ok((3, vec!['a', 'a', 'a'])));
    assert_eq!(p.parse("", 0), Err((0, Error::Char('a'))));
    let q = 'a'.repeat(2..);
    assert_eq!(q.parse("ab", 0), Err((1, Error::Char('a'))));
    assert_eq!(q.parse("aab", 0), Ok((2, vec!['a', 'a'])));
    let none = 'a'.repeat(0);
    assert_eq!(none.parse("aaa", 0), Ok((0, vec![])));
}

#[test]
fn join_counts_separators() {
    let elements = 'a'.repeat(..).join(',');
    assert_eq!(elements.parse("a,a,a;", 0), Ok((5, vec!['a', 'a', 'a'])));
    let separators = 'a'
        .repeat(..)
        .join(',')
        .fold(|| (0usize, 0usize), |(n, s): (usize, usize), _: char| (n + 1, s), |(n, s): (usize, usize), _: char, _: char| (n + 1, s + 1));
    assert_eq!(separators.parse("a,a,a;", 0), Ok((5, (3, 2))));
    assert_eq!(separators.parse(";", 0), Ok((0, (0, 0))));
    let at_least_one = 'a'.repeat(1..).join(',');
    assert_eq!(at_least_one.parse(";", 0), Err((0, Error::Char('a'))));
    assert_eq!(at_least_one.parse("a,;", 0), Err((2, Error::Char('a'))));
}

#[test]
fn capture_is_the_consumed_slice() {
    let inner = (TakeWhile1(char::is_alphabetic), TakeWhile(char::is_numeric));
    let input = "x πr2² y";
    let (to, _) = inner.parse(input, 2).unwrap();
    assert_eq!(Capture(inner).parse(input, 2), Ok((to, &input[2..to])));
    assert_eq!(Capture(inner).parse(input, 2), Ok((8, "πr2²")));
    assert_eq!(Capture(inner).parse(input, 0), Ok((1, "x")));
}

#[test]
fn text_peek_and_end() {
    assert_eq!(Peek.parse("", 0), Err((0, Error::Peek)));
    assert_eq!(Peek.parse("²x", 0), Ok((0, '²')));
    assert_eq!(Peek.parse("²x", 2), Ok((2, 'x')));
    assert_eq!(End.parse("²", 2), Ok((2, ())));
    assert_eq!(End.parse("²", 0), Err((0, Error::End)));
}

#[test]
fn take_largest_count() {
    let input: &[u8] = b"abc";
    assert_eq!(Take(usize::MAX).parse(input, 1), Err((1, Error::Take(usize::MAX))));
    assert_eq!(Take(2).parse(input, 1), Ok((3, b"bc".as_ref())));
    assert_eq!(Take(0).parse(input, 3), Ok((3, b"".as_ref())));
}

#[test]
fn big_endian_fields_at_offset() {
    let bytes: &[u8] = &[0, 1, 2, 3, 4, 5, 6, 7, 8];
    assert_eq!(BigEndian::u32(bytes, 1), Ok((5, 0x01020304)));
    assert_eq!(LittleEndian::u32(bytes, 1), Ok((5, 0x04030201)));
    assert_eq!(BigEndian::u64(bytes, 1), Ok((9, 0x0102030405060708)));
    assert_eq!(BigEndian::u64(bytes, 2), Err((2, Error::Binary(Endianness::Big, BinaryType::u64))));
    assert_eq!(BigEndian::i16(&[0xFF, 0xFE], 0), Ok((2, -2)));
}
