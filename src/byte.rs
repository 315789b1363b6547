//! Leaf parsers over raw bytes, and fixed-width binary numbers.
use vstd::prelude::*;

use crate::error::{BinaryType, Endianness, Error};
use crate::{Outcome, Parser};

verus! {

/// `lit` occurs in `input` at offset `from`.
pub open spec fn occurs_at(input: Seq<u8>, from: int, lit: Seq<u8>) -> bool {
    from + lit.len() <= input.len() && input.subrange(from, from + lit.len()) == lit
}

/// Whether `lit` occurs in `input` at offset `from`.
pub fn bytes_at(input: &[u8], from: usize, lit: &[u8]) -> (b: bool)
    requires
        from <= input@.len(),
    ensures
        b == occurs_at(input@, from as int, lit@),
        b ==> from + lit@.len() <= input.len(),
{
    let n = input.len();
    if n - from < lit.len() {
        return false;
    }
    let mut k: usize = 0;
    while k < lit.len()
        invariant
            n == input@.len(),
            from + lit@.len() <= n,
            k <= lit@.len(),
            forall|j: int| 0 <= j < k ==> input@[from + j] == lit@[j],
        decreases lit@.len() - k,
    {
        if input[from + k] != lit[k] {
            proof {
                assert(input@.subrange(from as int, from + lit@.len())[k as int] != lit@[k as int]);
            }
            return false;
        }
        k = k + 1;
    }
    proof {
        assert(input@.subrange(from as int, from + lit@.len()) =~= lit@);
    }
    true
}

/// A byte matches itself.
impl<'a> Parser<&'a [u8]> for u8 {
    type Output = u8;

    type Error = Error<'static>;

    open spec fn wf(&self) -> bool {
        true
    }

    open spec fn produces(&self, input: &'a [u8], from: usize, r: Outcome<u8, Error<'static>>) -> bool {
        r == if from < input@.len() && input@[from as int] == *self {
            Ok::<(usize, u8), (usize, Error<'static>)>(((from + 1) as usize, *self))
        } else {
            Err((from, Error::Byte(*self)))
        }
    }

    fn parse(&self, input: &'a [u8], from: usize) -> (r: Outcome<u8, Error<'static>>) {
        if from < input.len() && input[from] == *self {
            Ok((from + 1, *self))
        } else {
            Err((from, Error::Byte(*self)))
        }
    }
}

/// A byte string matches itself and gives the matched part of the input.
impl<'a, 'tmp> Parser<&'a [u8]> for &'tmp [u8] {
    type Output = &'a [u8];

    type Error = Error<'tmp>;

    open spec fn wf(&self) -> bool {
        true
    }

    open spec fn produces(&self, input: &'a [u8], from: usize, r: Outcome<&'a [u8], Error<'tmp>>) -> bool {
        if occurs_at(input@, from as int, self@) {
            r is Ok && r->Ok_0.0 == from + self@.len() && r->Ok_0.1@ == self@
        } else {
            r == Err::<(usize, &'a [u8]), (usize, Error<'tmp>)>((from, Error::Bytes(*self)))
        }
    }

    fn parse(&self, input: &'a [u8], from: usize) -> (r: Outcome<&'a [u8], Error<'tmp>>) {
        if bytes_at(input, from, self) {
            let to = from + self.len();
            Ok((to, &input[from..to]))
        } else {
            Err((from, Error::Bytes(*self)))
        }
    }
}

/// Matches one byte that passes the check `F`.
#[derive(Copy, Clone, Debug, PartialEq)]
pub struct Satisfy<F>(pub F) where F: Fn(u8) -> bool;

impl<'a, F: Fn(u8) -> bool> Parser<&'a [u8]> for Satisfy<F> {
    type Output = u8;

    type Error = Error<'static>;

    open spec fn wf(&self) -> bool {
        forall|b: u8| #[trigger] self.0.requires((b,))
    }

    open spec fn produces(&self, input: &'a [u8], from: usize, r: Outcome<u8, Error<'static>>) -> bool {
        ||| from < input@.len() && self.0.ensures((input@[from as int],), true)
            && r == Ok::<(usize, u8), (usize, Error<'static>)>(((from + 1) as usize, input@[from as int]))
        ||| (from >= input@.len() || self.0.ensures((input@[from as int],), false))
            && r == Err::<(usize, u8), (usize, Error<'static>)>((from, Error::Satisfy))
    }

    fn parse(&self, input: &'a [u8], from: usize) -> (r: Outcome<u8, Error<'static>>) {
        if from < input.len() {
            let byte = input[from];
            if (self.0)(byte) {
                return Ok((from + 1, byte));
            }
        }
        Err((from, Error::Satisfy))
    }
}

/// `input[from..to]` is the longest run of bytes from `from` that pass `f`.
pub open spec fn longest_run<F: Fn(u8) -> bool>(f: F, input: Seq<u8>, from: int, to: int) -> bool {
    &&& from <= to <= input.len()
    &&& forall|k: int| from <= k < to ==> #[trigger] f.ensures((input[k],), true)
    &&& to < input.len() ==> f.ensures((input[to],), false)
}

/// Where the run of bytes from `from` that pass `f` ends.
pub fn run_end<F: Fn(u8) -> bool>(f: &F, input: &[u8], from: usize) -> (to: usize)
    requires
        from <= input@.len(),
        forall|b: u8| #[trigger] f.requires((b,)),
    ensures
        longest_run(*f, input@, from as int, to as int),
{
    let mut to = from;
    while to < input.len()
        invariant
            from <= to <= input@.len(),
            forall|b: u8| #[trigger] f.requires((b,)),
            forall|k: int| from <= k < to ==> #[trigger] f.ensures((input@[k],), true),
        decreases input@.len() - to,
    {
        if !f(input[to]) {
            return to;
        }
        to = to + 1;
    }
    to
}

/// Matches the longest run of bytes that pass `F`, which may be empty, and gives it.
#[derive(Copy, Clone, Debug, PartialEq)]
pub struct TakeWhile<F>(pub F) where F: Fn(u8) -> bool;

impl<'a, F: Fn(u8) -> bool> Parser<&'a [u8]> for TakeWhile<F> {
    type Output = &'a [u8];

    type Error = Error<'static>;

    open spec fn wf(&self) -> bool {
        forall|b: u8| #[trigger] self.0.requires((b,))
    }

    open spec fn produces(&self, input: &'a [u8], from: usize, r: Outcome<&'a [u8], Error<'static>>) -> bool {
        &&& r is Ok
        &&& longest_run(self.0, input@, from as int, r->Ok_0.0 as int)
        &&& r->Ok_0.1@ == input@.subrange(from as int, r->Ok_0.0 as int)
    }

    fn parse(&self, input: &'a [u8], from: usize) -> (r: Outcome<&'a [u8], Error<'static>>) {
        let to = run_end(&self.0, input, from);
        Ok((to, &input[from..to]))
    }
}

/// Matches the longest run of bytes that pass `F`, and fails where that run is empty.
#[derive(Copy, Clone, Debug, PartialEq)]
pub struct TakeWhile1<F>(pub F) where F: Fn(u8) -> bool;

impl<'a, F: Fn(u8) -> bool> Parser<&'a [u8]> for TakeWhile1<F> {
    type Output = &'a [u8];

    type Error = Error<'static>;

    open spec fn wf(&self) -> bool {
        forall|b: u8| #[trigger] self.0.requires((b,))
    }

    open spec fn produces(&self, input: &'a [u8], from: usize, r: Outcome<&'a [u8], Error<'static>>) -> bool {
        ||| r is Ok && from < r->Ok_0.0 && longest_run(self.0, input@, from as int, r->Ok_0.0 as int)
            && r->Ok_0.1@ == input@.subrange(from as int, r->Ok_0.0 as int)
        ||| longest_run(self.0, input@, from as int, from as int)
            && r == Err::<(usize, &'a [u8]), (usize, Error<'static>)>((from, Error::TakeWhile1))
    }

    fn parse(&self, input: &'a [u8], from: usize) -> (r: Outcome<&'a [u8], Error<'static>>) {
        let to = run_end(&self.0, input, from);
        if to == from {
            Err((from, Error::TakeWhile1))
        } else {
            Ok((to, &input[from..to]))
        }
    }
}

/// Runs `P` and gives the part of the input it consumed instead of its output.
#[derive(Copy, Clone, Debug, PartialEq)]
pub struct Capture<P>(pub P);

impl<'a, P: Parser<&'a [u8]>> Parser<&'a [u8]> for Capture<P> {
    type Output = &'a [u8];

    type Error = P::Error;

    open spec fn wf(&self) -> bool {
        self.0.wf()
    }

    open spec fn produces(&self, input: &'a [u8], from: usize, r: Outcome<&'a [u8], P::Error>) -> bool {
        ||| exists|to: usize, x: P::Output|
            #[trigger] self.0.produces(input, from, Ok((to, x))) && r is Ok && r->Ok_0.0 == to
                && r->Ok_0.1@ == input@.subrange(from as int, to as int)
        ||| exists|e: (usize, P::Error)|
            #[trigger] self.0.produces(input, from, Err(e)) && r == Err::<(usize, &'a [u8]), (usize, P::Error)>(e)
    }

    fn parse(&self, input: &'a [u8], from: usize) -> (r: Outcome<&'a [u8], P::Error>) {
        match self.0.parse(input, from) {
            Ok((to, x)) => {
                proof {
                    assert(self.0.produces(input, from, Ok((to, x))));
                }
                Ok((to, &input[from..to]))
            },
            Err(e) => {
                proof {
                    assert(self.0.produces(input, from, Err(e)));
                }
                Err(e)
            },
        }
    }
}

/// Matches any one byte.
#[derive(Copy, Clone, Debug, PartialEq)]
pub struct Any;

impl<'a> Parser<&'a [u8]> for Any {
    type Output = u8;

    type Error = Error<'static>;

    open spec fn wf(&self) -> bool {
        true
    }

    open spec fn produces(&self, input: &'a [u8], from: usize, r: Outcome<u8, Error<'static>>) -> bool {
        r == if from < input@.len() {
            Ok::<(usize, u8), (usize, Error<'static>)>(((from + 1) as usize, input@[from as int]))
        } else {
            Err((from, Error::Any))
        }
    }

    fn parse(&self, input: &'a [u8], from: usize) -> (r: Outcome<u8, Error<'static>>) {
        if from < input.len() {
            Ok((from + 1, input[from]))
        } else {
            Err((from, Error::Any))
        }
    }
}

/// Gives the next byte without consuming it.
#[derive(Copy, Clone, Debug, PartialEq)]
pub struct Peek;

impl<'a> Parser<&'a [u8]> for Peek {
    type Output = u8;

    type Error = Error<'static>;

    open spec fn wf(&self) -> bool {
        true
    }

    open spec fn produces(&self, input: &'a [u8], from: usize, r: Outcome<u8, Error<'static>>) -> bool {
        r == if from < input@.len() {
            Ok::<(usize, u8), (usize, Error<'static>)>((from, input@[from as int]))
        } else {
            Err((from, Error::Peek))
        }
    }

    fn parse(&self, input: &'a [u8], from: usize) -> (r: Outcome<u8, Error<'static>>) {
        if from < input.len() {
            Ok((from, input[from]))
        } else {
            Err((from, Error::Peek))
        }
    }
}

/// Matches exactly this many bytes, whatever they are, and gives them.
#[derive(Copy, Clone, Debug, PartialEq)]
pub struct Take(pub usize);

impl<'a> Parser<&'a [u8]> for Take {
    type Output = &'a [u8];

    type Error = Error<'static>;

    open spec fn wf(&self) -> bool {
        true
    }

    open spec fn produces(&self, input: &'a [u8], from: usize, r: Outcome<&'a [u8], Error<'static>>) -> bool {
        if from + self.0 <= input@.len() {
            r is Ok && r->Ok_0.0 == from + self.0
                && r->Ok_0.1@ == input@.subrange(from as int, from + self.0)
        } else {
            r == Err::<(usize, &'a [u8]), (usize, Error<'static>)>((from, Error::Take(self.0)))
        }
    }

    fn parse(&self, input: &'a [u8], from: usize) -> (r: Outcome<&'a [u8], Error<'static>>) {
        if input.len() - from >= self.0 {
            let to = from + self.0;
            Ok((to, &input[from..to]))
        } else {
            Err((from, Error::Take(self.0)))
        }
    }
}

/// Matches the end of the input.
#[derive(Copy, Clone, Debug, PartialEq)]
pub struct End;

impl<'a> Parser<&'a [u8]> for End {
    type Output = ();

    type Error = Error<'static>;

    open spec fn wf(&self) -> bool {
        true
    }

    open spec fn produces(&self, input: &'a [u8], from: usize, r: Outcome<(), Error<'static>>) -> bool {
        r == if from == input@.len() {
            Ok::<(usize, ()), (usize, Error<'static>)>((from, ()))
        } else {
            Err((from, Error::End))
        }
    }

    fn parse(&self, input: &'a [u8], from: usize) -> (r: Outcome<(), Error<'static>>) {
        if input.len() == from {
            Ok((from, ()))
        } else {
            Err((from, Error::End))
        }
    }
}

} // verus!

verus! {

/// The value of `b` read as an unsigned little-endian number.
pub open spec fn le_value(b: Seq<u8>) -> nat
    decreases b.len(),
{
    if b.len() == 0 {
        0
    } else {
        b[0] as nat + 256 * le_value(b.drop_first())
    }
}

/// The value of `b` read as an unsigned big-endian number.
pub open spec fn be_value(b: Seq<u8>) -> nat
    decreases b.len(),
{
    if b.len() == 0 {
        0
    } else {
        be_value(b.drop_last()) * 256 + b.last() as nat
    }
}

/// The value of `b` read in the byte order `order`.
pub open spec fn field_value(order: Endianness, b: Seq<u8>) -> nat {
    match order {
        Endianness::Little => le_value(b),
        Endianness::Big => be_value(b),
    }
}

/// `256` to the power `k`.
pub open spec fn pow256(k: nat) -> nat
    decreases k,
{
    if k == 0 {
        1
    } else {
        256 * pow256((k - 1) as nat)
    }
}

proof fn lemma_pow256_mono(j: nat, k: nat)
    requires
        j <= k,
    ensures
        pow256(j) <= pow256(k),
    decreases k,
{
    if j < k {
        lemma_pow256_mono(j, (k - 1) as nat);
    }
}

/// The `width` bytes at `from`, read in the byte order `order`, or `None` where fewer are left.
fn field(input: &[u8], from: usize, width: usize, order: Endianness) -> (r: Option<u64>)
    requires
        from <= input@.len(),
        width <= 8,
    ensures
        r == if from + width <= input@.len() {
            Some(field_value(order, input@.subrange(from as int, from + width)) as u64)
        } else {
            None
        },
        r is Some ==> r->0 as nat == field_value(order, input@.subrange(from as int, from + width)),
        r is Some ==> r->0 < pow256(width as nat),
        r is Some ==> from + width <= input.len(),
{
    let n = input.len();
    if n - from < width {
        return None;
    }
    let ghost b = input@.subrange(from as int, from + width);
    let mut v: u64 = 0;
    let mut i: usize = 0;
    proof {
        reveal_with_fuel(pow256, 9);
    }
    while i < width
        invariant
            n == input@.len(),
            from + width <= n,
            width <= 8,
            i <= width,
            b == input@.subrange(from as int, from + width),
            order == Endianness::Little ==> v == le_value(b.subrange(width - i, width as int)),
            order == Endianness::Big ==> v == be_value(b.subrange(0, i as int)),
            v < pow256(i as nat),
        decreases width - i,
    {
        proof {
            lemma_pow256_mono(i as nat, 7);
            reveal_with_fuel(pow256, 9);
        }
        match order {
            Endianness::Little => {
                let byte = input[from + width - 1 - i];
                proof {
                    let s = b.subrange(width - i - 1, width as int);
                    assert(s.drop_first() =~= b.subrange(width - i, width as int));
                    assert(s[0] == byte);
                }
                v = v * 256 + byte as u64;
            },
            Endianness::Big => {
                let byte = input[from + i];
                proof {
                    let s = b.subrange(0, i + 1);
                    assert(s.drop_last() =~= b.subrange(0, i as int));
                    assert(s.last() == byte);
                }
                v = v * 256 + byte as u64;
            },
        }
        i = i + 1;
    }
    proof {
        assert(b.subrange(0, width as int) =~= b);
        assert(b.subrange(width - width, width as int) =~= b);
    }
    Some(v)
}

} // verus!

verus! {
/// Fixed-width numbers stored little-endian: each reader takes the field at `from`, and fails at
/// `from` where fewer bytes are left than the field needs.
pub struct LittleEndian;

impl LittleEndian {
    /// An unsigned 8-bit integer.
    pub fn u8(input: &[u8], from: usize) -> (r: Outcome<u8, Error<'static>>)
        requires
            from <= input@.len(),
        ensures
            r == if from + 1 <= input@.len() {
                Ok::<(usize, u8), (usize, Error<'static>)>(((from + 1) as usize, le_value(input@.subrange(from as int, from + 1)) as u8))
            } else {
                Err((from, Error::Binary(Endianness::Little, BinaryType::u8)))
            },
    {
        proof {
            reveal_with_fuel(pow256, 9);
        }
        match field(input, from, 1, Endianness::Little) {
            Some(v) => Ok((from + 1, v as u8)),
            None => Err((from, Error::Binary(Endianness::Little, BinaryType::u8))),
        }
    }

    /// An unsigned 16-bit integer.
    pub fn u16(input: &[u8], from: usize) -> (r: Outcome<u16, Error<'static>>)
        requires
            from <= input@.len(),
        ensures
            r == if from + 2 <= input@.len() {
                Ok::<(usize, u16), (usize, Error<'static>)>(((from + 2) as usize, le_value(input@.subrange(from as int, from + 2)) as u16))
            } else {
                Err((from, Error::Binary(Endianness::Little, BinaryType::u16)))
            },
    {
        proof {
            reveal_with_fuel(pow256, 9);
        }
        match field(input, from, 2, Endianness::Little) {
            Some(v) => Ok((from + 2, v as u16)),
            None => Err((from, Error::Binary(Endianness::Little, BinaryType::u16))),
        }
    }

    /// An unsigned 32-bit integer.
    pub fn u32(input: &[u8], from: usize) -> (r: Outcome<u32, Error<'static>>)
        requires
            from <= input@.len(),
        ensures
            r == if from + 4 <= input@.len() {
                Ok::<(usize, u32), (usize, Error<'static>)>(((from + 4) as usize, le_value(input@.subrange(from as int, from + 4)) as u32))
            } else {
                Err((from, Error::Binary(Endianness::Little, BinaryType::u32)))
            },
    {
        proof {
            reveal_with_fuel(pow256, 9);
        }
        match field(input, from, 4, Endianness::Little) {
            Some(v) => Ok((from + 4, v as u32)),
            None => Err((from, Error::Binary(Endianness::Little, BinaryType::u32))),
        }
    }

    /// An unsigned 64-bit integer.
    pub fn u64(input: &[u8], from: usize) -> (r: Outcome<u64, Error<'static>>)
        requires
            from <= input@.len(),
        ensures
            r == if from + 8 <= input@.len() {
                Ok::<(usize, u64), (usize, Error<'static>)>(((from + 8) as usize, le_value(input@.subrange(from as int, from + 8)) as u64))
            } else {
                Err((from, Error::Binary(Endianness::Little, BinaryType::u64)))
            },
    {
        proof {
            reveal_with_fuel(pow256, 9);
        }
        match field(input, from, 8, Endianness::Little) {
            Some(v) => Ok((from + 8, v as u64)),
            None => Err((from, Error::Binary(Endianness::Little, BinaryType::u64))),
        }
    }

    /// A signed 8-bit integer in two's complement.
    pub fn i8(input: &[u8], from: usize) -> (r: Outcome<i8, Error<'static>>)
        requires
            from <= input@.len(),
        ensures
            r == if from + 1 <= input@.len() {
                Ok::<(usize, i8), (usize, Error<'static>)>(((from + 1) as usize, (le_value(input@.subrange(from as int, from + 1)) as u8) as i8))
            } else {
                Err((from, Error::Binary(Endianness::Little, BinaryType::i8)))
            },
    {
        proof {
            reveal_with_fuel(pow256, 9);
        }
        match field(input, from, 1, Endianness::Little) {
            Some(v) => Ok((from + 1, #[verifier::truncate] ((v as u8) as i8))),
            None => Err((from, Error::Binary(Endianness::Little, BinaryType::i8))),
        }
    }

    /// A signed 16-bit integer in two's complement.
    pub fn i16(input: &[u8], from: usize) -> (r: Outcome<i16, Error<'static>>)
        requires
            from <= input@.len(),
        ensures
            r == if from + 2 <= input@.len() {
                Ok::<(usize, i16), (usize, Error<'static>)>(((from + 2) as usize, (le_value(input@.subrange(from as int, from + 2)) as u16) as i16))
            } else {
                Err((from, Error::Binary(Endianness::Little, BinaryType::i16)))
            },
    {
        proof {
            reveal_with_fuel(pow256, 9);
        }
        match field(input, from, 2, Endianness::Little) {
            Some(v) => Ok((from + 2, #[verifier::truncate] ((v as u16) as i16))),
            None => Err((from, Error::Binary(Endianness::Little, BinaryType::i16))),
        }
    }

    /// A signed 32-bit integer in two's complement.
    pub fn i32(input: &[u8], from: usize) -> (r: Outcome<i32, Error<'static>>)
        requires
            from <= input@.len(),
        ensures
            r == if from + 4 <= input@.len() {
                Ok::<(usize, i32), (usize, Error<'static>)>(((from + 4) as usize, (le_value(input@.subrange(from as int, from + 4)) as u32) as i32))
            } else {
                Err((from, Error::Binary(Endianness::Little, BinaryType::i32)))
            },
    {
        proof {
            reveal_with_fuel(pow256, 9);
        }
        match field(input, from, 4, Endianness::Little) {
            Some(v) => Ok((from + 4, #[verifier::truncate] ((v as u32) as i32))),
            None => Err((from, Error::Binary(Endianness::Little, BinaryType::i32))),
        }
    }

    /// A signed 64-bit integer in two's complement.
    pub fn i64(input: &[u8], from: usize) -> (r: Outcome<i64, Error<'static>>)
        requires
            from <= input@.len(),
        ensures
            r == if from + 8 <= input@.len() {
                Ok::<(usize, i64), (usize, Error<'static>)>(((from + 8) as usize, (le_value(input@.subrange(from as int, from + 8)) as u64) as i64))
            } else {
                Err((from, Error::Binary(Endianness::Little, BinaryType::i64)))
            },
    {
        proof {
            reveal_with_fuel(pow256, 9);
        }
        match field(input, from, 8, Endianness::Little) {
            Some(v) => Ok((from + 8, #[verifier::truncate] ((v as u64) as i64))),
            None => Err((from, Error::Binary(Endianness::Little, BinaryType::i64))),
        }
    }

    /// The bits of a 32-bit floating-point number, as an unsigned integer.
    pub fn f32_bits(input: &[u8], from: usize) -> (r: Outcome<u32, Error<'static>>)
        requires
            from <= input@.len(),
        ensures
            r == if from + 4 <= input@.len() {
                Ok::<(usize, u32), (usize, Error<'static>)>(((from + 4) as usize, le_value(input@.subrange(from as int, from + 4)) as u32))
            } else {
                Err((from, Error::Binary(Endianness::Little, BinaryType::F32)))
            },
    {
        proof {
            reveal_with_fuel(pow256, 9);
        }
        match field(input, from, 4, Endianness::Little) {
            Some(v) => Ok((from + 4, v as u32)),
            None => Err((from, Error::Binary(Endianness::Little, BinaryType::F32))),
        }
    }

    /// The bits of a 64-bit floating-point number, as an unsigned integer.
    pub fn f64_bits(input: &[u8], from: usize) -> (r: Outcome<u64, Error<'static>>)
        requires
            from <= input@.len(),
        ensures
            r == if from + 8 <= input@.len() {
                Ok::<(usize, u64), (usize, Error<'static>)>(((from + 8) as usize, le_value(input@.subrange(from as int, from + 8)) as u64))
            } else {
                Err((from, Error::Binary(Endianness::Little, BinaryType::F64)))
            },
    {
        proof {
            reveal_with_fuel(pow256, 9);
        }
        match field(input, from, 8, Endianness::Little) {
            Some(v) => Ok((from + 8, v as u64)),
            None => Err((from, Error::Binary(Endianness::Little, BinaryType::F64))),
        }
    }
}

/// Fixed-width numbers stored big-endian: each reader takes the field at `from`, and fails at
/// `from` where fewer bytes are left than the field needs.
pub struct BigEndian;

impl BigEndian {
    /// An unsigned 8-bit integer.
    pub fn u8(input: &[u8], from: usize) -> (r: Outcome<u8, Error<'static>>)
        requires
            from <= input@.len(),
        ensures
            r == if from + 1 <= input@.len() {
                Ok::<(usize, u8), (usize, Error<'static>)>(((from + 1) as usize, be_value(input@.subrange(from as int, from + 1)) as u8))
            } else {
                Err((from, Error::Binary(Endianness::Big, BinaryType::u8)))
            },
    {
        proof {
            reveal_with_fuel(pow256, 9);
        }
        match field(input, from, 1, Endianness::Big) {
            Some(v) => Ok((from + 1, v as u8)),
            None => Err((from, Error::Binary(Endianness::Big, BinaryType::u8))),
        }
    }

    /// An unsigned 16-bit integer.
    pub fn u16(input: &[u8], from: usize) -> (r: Outcome<u16, Error<'static>>)
        requires
            from <= input@.len(),
        ensures
            r == if from + 2 <= input@.len() {
                Ok::<(usize, u16), (usize, Error<'static>)>(((from + 2) as usize, be_value(input@.subrange(from as int, from + 2)) as u16))
            } else {
                Err((from, Error::Binary(Endianness::Big, BinaryType::u16)))
            },
    {
        proof {
            reveal_with_fuel(pow256, 9);
        }
        match field(input, from, 2, Endianness::Big) {
            Some(v) => Ok((from + 2, v as u16)),
            None => Err((from, Error::Binary(Endianness::Big, BinaryType::u16))),
        }
    }

    /// An unsigned 32-bit integer.
    pub fn u32(input: &[u8], from: usize) -> (r: Outcome<u32, Error<'static>>)
        requires
            from <= input@.len(),
        ensures
            r == if from + 4 <= input@.len() {
                Ok::<(usize, u32), (usize, Error<'static>)>(((from + 4) as usize, be_value(input@.subrange(from as int, from + 4)) as u32))
            } else {
                Err((from, Error::Binary(Endianness::Big, BinaryType::u32)))
            },
    {
        proof {
            reveal_with_fuel(pow256, 9);
        }
        match field(input, from, 4, Endianness::Big) {
            Some(v) => Ok((from + 4, v as u32)),
            None => Err((from, Error::Binary(Endianness::Big, BinaryType::u32))),
        }
    }

    /// An unsigned 64-bit integer.
    pub fn u64(input: &[u8], from: usize) -> (r: Outcome<u64, Error<'static>>)
        requires
            from <= input@.len(),
        ensures
            r == if from + 8 <= input@.len() {
                Ok::<(usize, u64), (usize, Error<'static>)>(((from + 8) as usize, be_value(input@.subrange(from as int, from + 8)) as u64))
            } else {
                Err((from, Error::Binary(Endianness::Big, BinaryType::u64)))
            },
    {
        proof {
            reveal_with_fuel(pow256, 9);
        }
        match field(input, from, 8, Endianness::Big) {
            Some(v) => Ok((from + 8, v as u64)),
            None => Err((from, Error::Binary(Endianness::Big, BinaryType::u64))),
        }
    }

    /// A signed 8-bit integer in two's complement.
    pub fn i8(input: &[u8], from: usize) -> (r: Outcome<i8, Error<'static>>)
        requires
            from <= input@.len(),
        ensures
            r == if from + 1 <= input@.len() {
                Ok::<(usize, i8), (usize, Error<'static>)>(((from + 1) as usize, (be_value(input@.subrange(from as int, from + 1)) as u8) as i8))
            } else {
                Err((from, Error::Binary(Endianness::Big, BinaryType::i8)))
            },
    {
        proof {
            reveal_with_fuel(pow256, 9);
        }
        match field(input, from, 1, Endianness::Big) {
            Some(v) => Ok((from + 1, #[verifier::truncate] ((v as u8) as i8))),
            None => Err((from, Error::Binary(Endianness::Big, BinaryType::i8))),
        }
    }

    /// A signed 16-bit integer in two's complement.
    pub fn i16(input: &[u8], from: usize) -> (r: Outcome<i16, Error<'static>>)
        requires
            from <= input@.len(),
        ensures
            r == if from + 2 <= input@.len() {
                Ok::<(usize, i16), (usize, Error<'static>)>(((from + 2) as usize, (be_value(input@.subrange(from as int, from + 2)) as u16) as i16))
            } else {
                Err((from, Error::Binary(Endianness::Big, BinaryType::i16)))
            },
    {
        proof {
            reveal_with_fuel(pow256, 9);
        }
        match field(input, from, 2, Endianness::Big) {
            Some(v) => Ok((from + 2, #[verifier::truncate] ((v as u16) as i16))),
            None => Err((from, Error::Binary(Endianness::Big, BinaryType::i16))),
        }
    }

    /// A signed 32-bit integer in two's complement.
    pub fn i32(input: &[u8], from: usize) -> (r: Outcome<i32, Error<'static>>)
        requires
            from <= input@.len(),
        ensures
            r == if from + 4 <= input@.len() {
                Ok::<(usize, i32), (usize, Error<'static>)>(((from + 4) as usize, (be_value(input@.subrange(from as int, from + 4)) as u32) as i32))
            } else {
                Err((from, Error::Binary(Endianness::Big, BinaryType::i32)))
            },
    {
        proof {
            reveal_with_fuel(pow256, 9);
        }
        match field(input, from, 4, Endianness::Big) {
            Some(v) => Ok((from + 4, #[verifier::truncate] ((v as u32) as i32))),
            None => Err((from, Error::Binary(Endianness::Big, BinaryType::i32))),
        }
    }

    /// A signed 64-bit integer in two's complement.
    pub fn i64(input: &[u8], from: usize) -> (r: Outcome<i64, Error<'static>>)
        requires
            from <= input@.len(),
        ensures
            r == if from + 8 <= input@.len() {
                Ok::<(usize, i64), (usize, Error<'static>)>(((from + 8) as usize, (be_value(input@.subrange(from as int, from + 8)) as u64) as i64))
            } else {
                Err((from, Error::Binary(Endianness::Big, BinaryType::i64)))
            },
    {
        proof {
            reveal_with_fuel(pow256, 9);
        }
        match field(input, from, 8, Endianness::Big) {
            Some(v) => Ok((from + 8, #[verifier::truncate] ((v as u64) as i64))),
            None => Err((from, Error::Binary(Endianness::Big, BinaryType::i64))),
        }
    }

    /// The bits of a 32-bit floating-point number, as an unsigned integer.
    pub fn f32_bits(input: &[u8], from: usize) -> (r: Outcome<u32, Error<'static>>)
        requires
            from <= input@.len(),
        ensures
            r == if from + 4 <= input@.len() {
                Ok::<(usize, u32), (usize, Error<'static>)>(((from + 4) as usize, be_value(input@.subrange(from as int, from + 4)) as u32))
            } else {
                Err((from, Error::Binary(Endianness::Big, BinaryType::F32)))
            },
    {
        proof {
            reveal_with_fuel(pow256, 9);
        }
        match field(input, from, 4, Endianness::Big) {
            Some(v) => Ok((from + 4, v as u32)),
            None => Err((from, Error::Binary(Endianness::Big, BinaryType::F32))),
        }
    }

    /// The bits of a 64-bit floating-point number, as an unsigned integer.
    pub fn f64_bits(input: &[u8], from: usize) -> (r: Outcome<u64, Error<'static>>)
        requires
            from <= input@.len(),
        ensures
            r == if from + 8 <= input@.len() {
                Ok::<(usize, u64), (usize, Error<'static>)>(((from + 8) as usize, be_value(input@.subrange(from as int, from + 8)) as u64))
            } else {
                Err((from, Error::Binary(Endianness::Big, BinaryType::F64)))
            },
    {
        proof {
            reveal_with_fuel(pow256, 9);
        }
        match field(input, from, 8, Endianness::Big) {
            Some(v) => Ok((from + 8, v as u64)),
            None => Err((from, Error::Binary(Endianness::Big, BinaryType::F64))),
        }
    }
}

} // verus!
