use munch::byte::{Any, BigEndian, Capture, End, LittleEndian, Peek, Satisfy, Take, TakeWhile, TakeWhile1};
use munch::error::{BinaryType, Endianness, Error};
use munch::{Outcome, Parser};
use std::fmt::Debug;

fn check_bytes<'a, P>(p: &P, input: &'a [u8], expected: Outcome<P::Output, P::Error>)
where
    P: Parser<&'a [u8]>,
    P::Output: PartialEq + Debug,
    P::Error: PartialEq + Debug,
{
    assert_eq!(p.parse(input, 0), expected);
    let shifted: &'static [u8] = Box::leak(["🐱".as_bytes(), input].concat().into_boxed_slice());
    let r = match p.parse(shifted, 4) {
        Ok((from, output)) => Ok((from - 4, output)),
        Err((from, error)) => Err((from - 4, error)),
    };
    assert_eq!(r, expected);
}

fn is_alphabetic(b: u8) -> bool {
    match b {
        b'a'..=b'z' | b'A'..=b'Z' => true,
        _ => false,
    }
}

fn is_alphanumeric(b: u8) -> bool {
    is_alphabetic(b)
        || match b {
            b'0'..=b'9' => true,
            _ => false,
        }
}

const BUFFER: [u8; 9] = [148, 213, 176, 241, 166, 150, 135, 255, 183];

#[test]
fn byte() {
    let p = b'p';
    check_bytes(&p, b"", Err((0, Error::Byte(b'p'))));
    check_bytes(&p, b"p", Ok((1, b'p')));
    check_bytes(&p, b"pr", Ok((1, b'p')));
    check_bytes(&p, b"pr2", Ok((1, b'p')));
    let p: u8 = 207;
    check_bytes(&p, "π".as_bytes(), Ok((1, 207)));
}

#[test]
fn bytes() {
    let p: &[u8] = b"pr";
    check_bytes(&p, b"", Err((0, Error::Bytes(b"pr"))));
    check_bytes(&p, b"p", Err((0, Error::Bytes(b"pr"))));
    check_bytes(&p, b"pr", Ok((2, b"pr".as_ref())));
    check_bytes(&p, b"pr2", Ok((2, b"pr".as_ref())));
}

#[test]
fn byte_satisfy() {
    let p = Satisfy(is_alphabetic);
    check_bytes(&p, b"", Err((0, Error::Satisfy)));
    check_bytes(&p, b"p", Ok((1, b'p')));
    check_bytes(&p, b"pr", Ok((1, b'p')));
}

#[test]
fn byte_take_while() {
    let p = TakeWhile(is_alphabetic);
    check_bytes(&p, b"", Ok((0, b"".as_ref())));
    check_bytes(&p, b"p", Ok((1, b"p".as_ref())));
    check_bytes(&p, b"pr", Ok((2, b"pr".as_ref())));
    check_bytes(&p, b"pr2", Ok((2, b"pr".as_ref())));
    check_bytes(&p, b"pr2h", Ok((2, b"pr".as_ref())));
}

#[test]
fn byte_take_while1() {
    let p = TakeWhile1(is_alphabetic);
    check_bytes(&p, b"", Err((0, Error::TakeWhile1)));
    check_bytes(&p, b"p", Ok((1, b"p".as_ref())));
    check_bytes(&p, b"pr", Ok((2, b"pr".as_ref())));
    check_bytes(&p, b"pr2", Ok((2, b"pr".as_ref())));
    check_bytes(&p, b"pr2h", Ok((2, b"pr".as_ref())));
}

#[test]
fn byte_capture() {
    let p = Capture((Satisfy(is_alphabetic), TakeWhile(is_alphanumeric)));
    check_bytes(&p, b"1", Err((0, Error::Satisfy)));
    check_bytes(&p, b"p", Ok((1, b"p".as_ref())));
    check_bytes(&p, b"pr", Ok((2, b"pr".as_ref())));
    check_bytes(&p, b"pr2", Ok((3, b"pr2".as_ref())));
    check_bytes(&p, b"prr", Ok((3, b"prr".as_ref())));
    check_bytes(&p, b"prrh", Ok((4, b"prrh".as_ref())));
}

#[test]
fn byte_any() {
    let p = Any;
    check_bytes(&p, b"", Err((0, Error::Any)));
    check_bytes(&p, b"p", Ok((1, b'p')));
    check_bytes(&p, b"pr", Ok((1, b'p')));
}

#[test]
fn peek() {
    let p = Peek;
    check_bytes(&p, b"", Err((0, Error::Peek)));
    check_bytes(&p, b"p", Ok((0, b'p')));
    check_bytes(&p, b"pr", Ok((0, b'p')));
}

#[test]
fn take() {
    let p = Take(0);
    check_bytes(&p, b"", Ok((0, b"".as_ref())));
    check_bytes(&p, b"p", Ok((0, b"".as_ref())));
    check_bytes(&p, b"pr", Ok((0, b"".as_ref())));
    let p = Take(2);
    check_bytes(&p, b"", Err((0, Error::Take(2))));
    check_bytes(&p, b"p", Err((0, Error::Take(2))));
    check_bytes(&p, b"pr", Ok((2, b"pr".as_ref())));
    check_bytes(&p, b"pr2", Ok((2, b"pr".as_ref())));
}

#[test]
fn end() {
    let p = End;
    check_bytes(&p, b"", Ok((0, ())));
    check_bytes(&p, b"p", Err((0, Error::End)));
    check_bytes(&p, b"pr", Err((0, Error::End)));
    let p = (b'p', End);
    check_bytes(&p, b"", Err((0, Error::Byte(b'p'))));
    check_bytes(&p, b"p", Ok((1, (b'p', ()))));
    check_bytes(&p, b"pr", Err((1, Error::End)));
}

fn s(n: usize) -> &'static [u8] {
    let buffer: &'static [u8; 9] = Box::leak(Box::new(BUFFER));
    &buffer[..n]
}

#[test]
fn little_endian() {
    let e = |ty| Error::Binary(Endianness::Little, ty);
    let p = LittleEndian::u8;
    check_bytes(&p, s(0), Err((0, e(BinaryType::u8))));
    check_bytes(&p, s(1), Ok((1, 148)));
    check_bytes(&p, s(2), Ok((1, 148)));
    let p = LittleEndian::u16;
    check_bytes(&p, s(0), Err((0, e(BinaryType::u16))));
    check_bytes(&p, s(1), Err((0, e(BinaryType::u16))));
    check_bytes(&p, s(2), Ok((2, 54676)));
    check_bytes(&p, s(3), Ok((2, 54676)));
    let p = LittleEndian::u32;
    for n in 0..4 {
        check_bytes(&p, s(n), Err((0, e(BinaryType::u32))));
    }
    check_bytes(&p, s(4), Ok((4, 4054898068)));
    check_bytes(&p, s(5), Ok((4, 4054898068)));
    let p = LittleEndian::u64;
    for n in 0..8 {
        check_bytes(&p, s(n), Err((0, e(BinaryType::u64))));
    }
    check_bytes(&p, s(8), Ok((8, 18412851245291197844)));
    check_bytes(&p, s(9), Ok((8, 18412851245291197844)));
    let p = LittleEndian::i8;
    check_bytes(&p, s(0), Err((0, e(BinaryType::i8))));
    check_bytes(&p, s(1), Ok((1, -108)));
    check_bytes(&p, s(2), Ok((1, -108)));
    let p = LittleEndian::i16;
    check_bytes(&p, s(0), Err((0, e(BinaryType::i16))));
    check_bytes(&p, s(1), Err((0, e(BinaryType::i16))));
    check_bytes(&p, s(2), Ok((2, -10860)));
    check_bytes(&p, s(3), Ok((2, -10860)));
    let p = LittleEndian::i32;
    for n in 0..4 {
        check_bytes(&p, s(n), Err((0, e(BinaryType::i32))));
    }
    check_bytes(&p, s(4), Ok((4, -240069228)));
    check_bytes(&p, s(5), Ok((4, -240069228)));
    let p = LittleEndian::i64;
    for n in 0..8 {
        check_bytes(&p, s(n), Err((0, e(BinaryType::i64))));
    }
    check_bytes(&p, s(8), Ok((8, -33892828418353772)));
    check_bytes(&p, s(9), Ok((8, -33892828418353772)));
    let p = |input: &'static [u8], from: usize| {
        LittleEndian::f32_bits(input, from).map(|(to, bits)| (to, f32::from_bits(bits)))
    };
    for n in 0..4 {
        check_bytes(&p, s(n), Err((0, e(BinaryType::F32))));
    }
    check_bytes(&p, s(4), Ok((4, -1.7512819788279716e30)));
    check_bytes(&p, s(5), Ok((4, -1.7512819788279716e30)));
    let p = |input: &'static [u8], from: usize| {
        LittleEndian::f64_bits(input, from).map(|(to, bits)| (to, f64::from_bits(bits)))
    };
    for n in 0..8 {
        check_bytes(&p, s(n), Err((0, e(BinaryType::F64))));
    }
    check_bytes(&p, s(8), Ok((8, -2.070549673017168e306)));
    check_bytes(&p, s(9), Ok((8, -2.070549673017168e306)));
}

#[test]
fn big_endian() {
    let e = |ty| Error::Binary(Endianness::Big, ty);
    let p = BigEndian::u8;
    check_bytes(&p, s(0), Err((0, e(BinaryType::u8))));
    check_bytes(&p, s(1), Ok((1, 148)));
    check_bytes(&p, s(2), Ok((1, 148)));
    let p = BigEndian::u16;
    check_bytes(&p, s(0), Err((0, e(BinaryType::u16))));
    check_bytes(&p, s(1), Err((0, e(BinaryType::u16))));
    check_bytes(&p, s(2), Ok((2, 38101)));
    check_bytes(&p, s(3), Ok((2, 38101)));
    let p = BigEndian::u32;
    for n in 0..4 {
        check_bytes(&p, s(n), Err((0, e(BinaryType::u32))));
    }
    check_bytes(&p, s(4), Ok((4, 2497032433)));
    check_bytes(&p, s(5), Ok((4, 2497032433)));
    let p = BigEndian::u64;
    for n in 0..8 {
        check_bytes(&p, s(n), Err((0, e(BinaryType::u64))));
    }
    check_bytes(&p, s(8), Ok((8, 10724672639581194239)));
    check_bytes(&p, s(9), Ok((8, 10724672639581194239)));
    let p = BigEndian::i8;
    check_bytes(&p, s(0), Err((0, e(BinaryType::i8))));
    check_bytes(&p, s(1), Ok((1, -108)));
    check_bytes(&p, s(2), Ok((1, -108)));
    let p = BigEndian::i16;
    check_bytes(&p, s(0), Err((0, e(BinaryType::i16))));
    check_bytes(&p, s(1), Err((0, e(BinaryType::i16))));
    check_bytes(&p, s(2), Ok((2, -27435)));
    check_bytes(&p, s(3), Ok((2, -27435)));
    let p = BigEndian::i32;
    for n in 0..4 {
        check_bytes(&p, s(n), Err((0, e(BinaryType::i32))));
    }
    check_bytes(&p, s(4), Ok((4, -1797934863)));
    check_bytes(&p, s(5), Ok((4, -1797934863)));
    let p = BigEndian::i64;
    for n in 0..8 {
        check_bytes(&p, s(n), Err((0, e(BinaryType::i64))));
    }
    check_bytes(&p, s(8), Ok((8, -7722071434128357377)));
    check_bytes(&p, s(9), Ok((8, -7722071434128357377)));
    let p = |input: &'static [u8], from: usize| {
        BigEndian::f32_bits(input, from).map(|(to, bits)| (to, f32::from_bits(bits)))
    };
    for n in 0..4 {
        check_bytes(&p, s(n), Err((0, e(BinaryType::F32))));
    }
    check_bytes(&p, s(4), Ok((4, -2.1577294798898393e-26)));
    check_bytes(&p, s(5), Ok((4, -2.1577294798898393e-26)));
    let p = |input: &'static [u8], from: usize| {
        BigEndian::f64_bits(input, from).map(|(to, bits)| (to, f64::from_bits(bits)))
    };
    for n in 0..8 {
        check_bytes(&p, s(n), Err((0, e(BinaryType::F64))));
    }
    check_bytes(&p, s(8), Ok((8, -2.6391637269993256e-208)));
    check_bytes(&p, s(9), Ok((8, -2.6391637269993256e-208)));
}
