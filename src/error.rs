//! Why a leaf parser failed.
use vstd::prelude::*;

verus! {

/// The error a leaf parser reports.
#[derive(Copy, Clone, Debug, PartialEq)]
pub enum Error<'a> {
    /// No unit was left to read.
    Any,
    /// An ASCII leaf failed.
    Ascii(Ascii),
    /// Too few bytes were left for a fixed-width field of this type.
    Binary(Endianness, BinaryType),
    /// This byte was expected.
    Byte(u8),
    /// These bytes were expected.
    Bytes(&'a [u8]),
    /// This character was expected.
    Char(char),
    /// The end of the input was expected.
    End,
    /// No unit was left to look at.
    Peek,
    /// The next unit did not pass the check, or none was left.
    Satisfy,
    /// This text was expected.
    Str(&'a str),
    /// This many units were expected.
    Take(usize),
    /// A run of units that pass the check was expected, and none came.
    TakeWhile1,
}

/// The byte order of a fixed-width field.
#[derive(Copy, Clone, Debug, PartialEq)]
pub enum Endianness {
    Little,
    Big,
}

/// The type of a fixed-width field.
#[derive(Copy, Clone, Debug, PartialEq)]
#[allow(non_camel_case_types)]
pub enum BinaryType {
    u8,
    u16,
    u32,
    u64,
    i8,
    i16,
    i32,
    i64,
    /// A 32-bit IEEE 754 floating-point number.
    F32,
    /// A 64-bit IEEE 754 floating-point number.
    F64,
}

/// Why an ASCII leaf failed.
#[derive(Copy, Clone, Debug, PartialEq)]
pub enum Ascii {
    Satisfy,
    TakeWhile1,
}

} // verus!
