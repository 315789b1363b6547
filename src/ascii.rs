//! Leaf parsers that read ASCII out of bytes or text: they reject every unit at or above
//! `0x80`, so what they match is always valid text.
use vstd::prelude::*;
use vstd::string::StringSliceAdditionalSpecFns;
use vstd::utf8::*;

use crate::error::{Ascii, Error};
use crate::text::{at_boundary, lemma_shift, lemma_text, slice};
use crate::{Outcome, Parser};

verus! {

/// `b` holds ASCII bytes only.
pub open spec fn all_ascii(b: Seq<u8>) -> bool {
    forall|k: int| 0 <= k < b.len() ==> #[trigger] b[k] <= 0x7F
}

/// `bytes[from..to]` is the longest run of ASCII bytes from `from` that pass `f`; `f` is not
/// asked about a byte at or above `0x80`.
pub open spec fn ascii_run<F: Fn(u8) -> bool>(f: F, bytes: Seq<u8>, from: int, to: int) -> bool {
    &&& from <= to <= bytes.len()
    &&& forall|k: int| from <= k < to ==> #[trigger] bytes[k] <= 0x7F && f.ensures((bytes[k],), true)
    &&& to < bytes.len() ==> (bytes[to] > 0x7F || f.ensures((bytes[to],), false))
}

/// ASCII bytes are valid UTF-8.
proof fn lemma_ascii_valid(b: Seq<u8>)
    requires
        all_ascii(b),
    ensures
        valid_utf8(b),
    decreases b.len(),
{
    if b.len() > 0 {
        assert(b[0] <= 0x7F);
        let rest = pop_first_scalar(b);
        assert(rest =~= b.subrange(1, b.len() as int));
        assert(all_ascii(rest)) by {
            assert forall|k: int| 0 <= k < rest.len() implies #[trigger] rest[k] <= 0x7F by {
                assert(rest[k] == b[k + 1]);
            }
        }
        lemma_ascii_valid(rest);
    }
}

/// An ASCII byte at a boundary of a string is followed by another boundary.
proof fn lemma_ascii_step(s: &str, pos: int)
    requires
        at_boundary(s, pos),
        pos < s.spec_bytes().len(),
        s.spec_bytes()[pos] <= 0x7F,
    ensures
        at_boundary(s, pos + 1),
{
    let bytes = s.spec_bytes();
    lemma_text(s);
    lemma_shift(bytes, pos, pos);
    let rb = bytes.subrange(pos, bytes.len() as int);
    assert(rb[0] == bytes[pos]);
    let rest = pop_first_scalar(rb);
    assert(rest =~= bytes.subrange(pos + 1, bytes.len() as int));
    if pos + 1 < bytes.len() {
        assert(valid_utf8(rest));
        assert(rest[0] == bytes[pos + 1]);
        is_char_boundary_iff_not_is_continuation_byte(bytes, pos + 1);
    }
}

/// After a boundary, a run of ASCII bytes ends at a boundary.
proof fn lemma_ascii_boundary(s: &str, from: int, to: int)
    requires
        at_boundary(s, from),
        from <= to <= s.spec_bytes().len(),
        forall|k: int| from <= k < to ==> #[trigger] s.spec_bytes()[k] <= 0x7F,
    ensures
        at_boundary(s, to),
    decreases to - from,
{
    if from < to {
        lemma_ascii_step(s, from);
        lemma_ascii_boundary(s, from + 1, to);
    }
}

/// Where the run of ASCII bytes from `from` that pass `f` ends.
fn ascii_run_end<F: Fn(u8) -> bool>(f: &F, bytes: &[u8], from: usize) -> (to: usize)
    requires
        from <= bytes@.len(),
        forall|b: u8| #[trigger] f.requires((b,)),
    ensures
        ascii_run(*f, bytes@, from as int, to as int),
{
    let mut to = from;
    while to < bytes.len()
        invariant
            from <= to <= bytes@.len(),
            forall|b: u8| #[trigger] f.requires((b,)),
            forall|k: int| from <= k < to ==> #[trigger] bytes@[k] <= 0x7F && f.ensures((bytes@[k],), true),
        decreases bytes@.len() - to,
    {
        let b = bytes[to];
        if b > 0x7F || !f(b) {
            return to;
        }
        to = to + 1;
    }
    to
}

/// Relies on `std::str::from_utf8`: it gives the text whose bytes are `b` where `b` is valid
/// UTF-8, and an error otherwise.
#[verifier::external_body]
fn utf8_text(b: &[u8]) -> (r: Option<&str>)
    ensures
        r is Some <==> valid_utf8(b@),
        r is Some ==> r->0.spec_bytes() == b@,
{
    std::str::from_utf8(b).ok()
}

/// The run `bytes[from..to]` of ASCII bytes, as text.
fn ascii_text<'a>(bytes: &'a [u8], from: usize, to: usize) -> (r: &'a str)
    requires
        from <= to <= bytes@.len(),
        all_ascii(bytes@.subrange(from as int, to as int)),
    ensures
        r.spec_bytes() == bytes@.subrange(from as int, to as int),
{
    proof {
        lemma_ascii_valid(bytes@.subrange(from as int, to as int));
    }
    match utf8_text(&bytes[from..to]) {
        Some(text) => text,
        None => "",
    }
}

/// Matches one ASCII unit that passes the check `F`.
#[derive(Copy, Clone, Debug, PartialEq)]
pub struct Satisfy<F>(pub F) where F: Fn(u8) -> bool;

/// Matches the longest run of ASCII units that pass `F`, which may be empty, and gives it as
/// text.
#[derive(Copy, Clone, Debug, PartialEq)]
pub struct TakeWhile<F>(pub F) where F: Fn(u8) -> bool;

/// Matches the longest run of ASCII units that pass `F`, and fails where that run is empty.
#[derive(Copy, Clone, Debug, PartialEq)]
pub struct TakeWhile1<F>(pub F) where F: Fn(u8) -> bool;

/// What `Satisfy(f)` gives on `bytes` from `from`.
pub open spec fn satisfy_outcome<F: Fn(u8) -> bool>(f: F, bytes: Seq<u8>, from: usize, r: Outcome<u8, Error<'static>>) -> bool {
    ||| from < bytes.len() && bytes[from as int] <= 0x7F && f.ensures((bytes[from as int],), true)
        && r == Ok::<(usize, u8), (usize, Error<'static>)>(((from + 1) as usize, bytes[from as int]))
    ||| (from >= bytes.len() || bytes[from as int] > 0x7F || f.ensures((bytes[from as int],), false))
        && r == Err::<(usize, u8), (usize, Error<'static>)>((from, Error::Ascii(Ascii::Satisfy)))
}

fn satisfy<F: Fn(u8) -> bool>(f: &F, bytes: &[u8], from: usize) -> (r: Outcome<u8, Error<'static>>)
    requires
        from <= bytes@.len(),
        forall|b: u8| #[trigger] f.requires((b,)),
    ensures
        satisfy_outcome(*f, bytes@, from, r),
        r is Ok ==> r->Ok_0.0 == from + 1 && from < bytes@.len(),
        r is Err ==> r->Err_0.0 == from,
{
    if from < bytes.len() {
        let b = bytes[from];
        if b <= 0x7F && f(b) {
            return Ok((from + 1, b));
        }
    }
    Err((from, Error::Ascii(Ascii::Satisfy)))
}

impl<'a, F: Fn(u8) -> bool> Parser<&'a [u8]> for Satisfy<F> {
    type Output = u8;

    type Error = Error<'static>;

    open spec fn wf(&self) -> bool {
        forall|b: u8| #[trigger] self.0.requires((b,))
    }

    open spec fn produces(&self, input: &'a [u8], from: usize, r: Outcome<u8, Error<'static>>) -> bool {
        satisfy_outcome(self.0, input@, from, r)
    }

    fn parse(&self, input: &'a [u8], from: usize) -> (r: Outcome<u8, Error<'static>>) {
        satisfy(&self.0, input, from)
    }
}

impl<'a, F: Fn(u8) -> bool> Parser<&'a str> for Satisfy<F> {
    type Output = u8;

    type Error = Error<'static>;

    open spec fn wf(&self) -> bool {
        forall|b: u8| #[trigger] self.0.requires((b,))
    }

    open spec fn produces(&self, input: &'a str, from: usize, r: Outcome<u8, Error<'static>>) -> bool {
        satisfy_outcome(self.0, input.spec_bytes(), from, r)
    }

    fn parse(&self, input: &'a str, from: usize) -> (r: Outcome<u8, Error<'static>>) {
        proof {
            lemma_text(input);
            lemma_shift(input.spec_bytes(), from as int, from as int);
        }
        let r = satisfy(&self.0, input.as_bytes(), from);
        proof {
            if r is Ok {
                lemma_ascii_step(input, from as int);
            }
        }
        r
    }
}

impl<'a, F: Fn(u8) -> bool> Parser<&'a [u8]> for TakeWhile<F> {
    type Output = &'a str;

    type Error = Error<'static>;

    open spec fn wf(&self) -> bool {
        forall|b: u8| #[trigger] self.0.requires((b,))
    }

    open spec fn produces(&self, input: &'a [u8], from: usize, r: Outcome<&'a str, Error<'static>>) -> bool {
        &&& r is Ok
        &&& ascii_run(self.0, input@, from as int, r->Ok_0.0 as int)
        &&& r->Ok_0.1.spec_bytes() == input@.subrange(from as int, r->Ok_0.0 as int)
    }

    fn parse(&self, input: &'a [u8], from: usize) -> (r: Outcome<&'a str, Error<'static>>) {
        let to = ascii_run_end(&self.0, input, from);
        proof {
            assert forall|k: int| 0 <= k < to - from implies #[trigger] input@.subrange(from as int, to as int)[k] <= 0x7F by {
                assert(input@.subrange(from as int, to as int)[k] == input@[from + k]);
            }
        }
        Ok((to, ascii_text(input, from, to)))
    }
}

impl<'a, F: Fn(u8) -> bool> Parser<&'a str> for TakeWhile<F> {
    type Output = &'a str;

    type Error = Error<'static>;

    open spec fn wf(&self) -> bool {
        forall|b: u8| #[trigger] self.0.requires((b,))
    }

    open spec fn produces(&self, input: &'a str, from: usize, r: Outcome<&'a str, Error<'static>>) -> bool {
        &&& r is Ok
        &&& ascii_run(self.0, input.spec_bytes(), from as int, r->Ok_0.0 as int)
        &&& r->Ok_0.1.spec_bytes() == input.spec_bytes().subrange(from as int, r->Ok_0.0 as int)
    }

    fn parse(&self, input: &'a str, from: usize) -> (r: Outcome<&'a str, Error<'static>>) {
        proof {
            lemma_text(input);
            lemma_shift(input.spec_bytes(), from as int, from as int);
        }
        let to = ascii_run_end(&self.0, input.as_bytes(), from);
        proof {
            lemma_ascii_boundary(input, from as int, to as int);
        }
        Ok((to, slice(input, from, to)))
    }
}

impl<'a, F: Fn(u8) -> bool> Parser<&'a [u8]> for TakeWhile1<F> {
    type Output = &'a str;

    type Error = Error<'static>;

    open spec fn wf(&self) -> bool {
        forall|b: u8| #[trigger] self.0.requires((b,))
    }

    open spec fn produces(&self, input: &'a [u8], from: usize, r: Outcome<&'a str, Error<'static>>) -> bool {
        ||| r is Ok && from < r->Ok_0.0 && ascii_run(self.0, input@, from as int, r->Ok_0.0 as int)
            && r->Ok_0.1.spec_bytes() == input@.subrange(from as int, r->Ok_0.0 as int)
        ||| ascii_run(self.0, input@, from as int, from as int)
            && r == Err::<(usize, &'a str), (usize, Error<'static>)>((from, Error::Ascii(Ascii::TakeWhile1)))
    }

    fn parse(&self, input: &'a [u8], from: usize) -> (r: Outcome<&'a str, Error<'static>>) {
        let to = ascii_run_end(&self.0, input, from);
        if to == from {
            return Err((from, Error::Ascii(Ascii::TakeWhile1)));
        }
        proof {
            assert forall|k: int| 0 <= k < to - from implies #[trigger] input@.subrange(from as int, to as int)[k] <= 0x7F by {
                assert(input@.subrange(from as int, to as int)[k] == input@[from + k]);
            }
        }
        Ok((to, ascii_text(input, from, to)))
    }
}

impl<'a, F: Fn(u8) -> bool> Parser<&'a str> for TakeWhile1<F> {
    type Output = &'a str;

    type Error = Error<'static>;

    open spec fn wf(&self) -> bool {
        forall|b: u8| #[trigger] self.0.requires((b,))
    }

    open spec fn produces(&self, input: &'a str, from: usize, r: Outcome<&'a str, Error<'static>>) -> bool {
        ||| r is Ok && from < r->Ok_0.0 && ascii_run(self.0, input.spec_bytes(), from as int, r->Ok_0.0 as int)
            && r->Ok_0.1.spec_bytes() == input.spec_bytes().subrange(from as int, r->Ok_0.0 as int)
        ||| ascii_run(self.0, input.spec_bytes(), from as int, from as int)
            && r == Err::<(usize, &'a str), (usize, Error<'static>)>((from, Error::Ascii(Ascii::TakeWhile1)))
    }

    fn parse(&self, input: &'a str, from: usize) -> (r: Outcome<&'a str, Error<'static>>) {
        proof {
            lemma_text(input);
            lemma_shift(input.spec_bytes(), from as int, from as int);
        }
        let to = ascii_run_end(&self.0, input.as_bytes(), from);
        if to == from {
            return Err((from, Error::Ascii(Ascii::TakeWhile1)));
        }
        proof {
            lemma_ascii_boundary(input, from as int, to as int);
        }
        Ok((to, slice(input, from, to)))
    }
}

} // verus!
