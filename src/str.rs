//! Leaf parsers over UTF-8 text. Offsets are byte offsets, and a match never splits the
//! encoding of a character.
use vstd::prelude::*;
use vstd::string::StringSliceAdditionalSpecFns;

use crate::byte::{bytes_at, occurs_at};
use crate::error::Error;
use crate::text::{
    at_boundary, char_run, char_run_end, lemma_cancel, lemma_first, lemma_prefix, next_char,
    run_chars, slice, text_after, width,
};
use crate::{Outcome, Parser};

verus! {

/// A character matches itself.
impl<'a> Parser<&'a str> for char {
    type Output = char;

    type Error = Error<'static>;

    open spec fn wf(&self) -> bool {
        true
    }

    open spec fn produces(&self, input: &'a str, from: usize, r: Outcome<char, Error<'static>>) -> bool {
        r == if text_after(input, from as int).len() > 0 && text_after(input, from as int)[0] == *self {
            Ok::<(usize, char), (usize, Error<'static>)>(((from + width(*self)) as usize, *self))
        } else {
            Err((from, Error::Char(*self)))
        }
    }

    fn parse(&self, input: &'a str, from: usize) -> (r: Outcome<char, Error<'static>>) {
        match next_char(input, from) {
            Some((c, next)) => {
                if c == *self {
                    Ok((next, c))
                } else {
                    Err((from, Error::Char(*self)))
                }
            },
            None => Err((from, Error::Char(*self))),
        }
    }
}

/// A string matches itself and gives the matched part of the input.
impl<'a, 'tmp> Parser<&'a str> for &'tmp str {
    type Output = &'a str;

    type Error = Error<'tmp>;

    open spec fn wf(&self) -> bool {
        true
    }

    open spec fn produces(&self, input: &'a str, from: usize, r: Outcome<&'a str, Error<'tmp>>) -> bool {
        if occurs_at(input.spec_bytes(), from as int, self.spec_bytes()) {
            r is Ok && r->Ok_0.0 == from + self.spec_bytes().len() && r->Ok_0.1@ == self@
        } else {
            r == Err::<(usize, &'a str), (usize, Error<'tmp>)>((from, Error::Str(*self)))
        }
    }

    fn parse(&self, input: &'a str, from: usize) -> (r: Outcome<&'a str, Error<'tmp>>) {
        let bytes = input.as_bytes();
        let lit = self.as_bytes();
        proof {
            lemma_first(input, from as int);
        }
        if bytes_at(bytes, from, lit) {
            let to = from + lit.len();
            proof {
                lemma_prefix(input, from as int, self@);
            }
            let out = slice(input, from, to);
            proof {
                lemma_cancel(out@, self@, text_after(input, to as int));
            }
            Ok((to, out))
        } else {
            Err((from, Error::Str(*self)))
        }
    }
}

/// Matches one character that passes the check `F`.
#[derive(Copy, Clone, Debug, PartialEq)]
pub struct Satisfy<F>(pub F) where F: Fn(char) -> bool;

impl<'a, F: Fn(char) -> bool> Parser<&'a str> for Satisfy<F> {
    type Output = char;

    type Error = Error<'static>;

    open spec fn wf(&self) -> bool {
        forall|c: char| #[trigger] self.0.requires((c,))
    }

    open spec fn produces(&self, input: &'a str, from: usize, r: Outcome<char, Error<'static>>) -> bool {
        let t = text_after(input, from as int);
        ||| t.len() > 0 && self.0.ensures((t[0],), true)
            && r == Ok::<(usize, char), (usize, Error<'static>)>(((from + width(t[0])) as usize, t[0]))
        ||| (t.len() == 0 || self.0.ensures((t[0],), false))
            && r == Err::<(usize, char), (usize, Error<'static>)>((from, Error::Satisfy))
    }

    fn parse(&self, input: &'a str, from: usize) -> (r: Outcome<char, Error<'static>>) {
        if let Some((c, next)) = next_char(input, from) {
            if (self.0)(c) {
                return Ok((next, c));
            }
        }
        Err((from, Error::Satisfy))
    }
}

/// Matches the longest run of characters that pass `F`, which may be empty, and gives it.
#[derive(Copy, Clone, Debug, PartialEq)]
pub struct TakeWhile<F>(pub F) where F: Fn(char) -> bool;

impl<'a, F: Fn(char) -> bool> Parser<&'a str> for TakeWhile<F> {
    type Output = &'a str;

    type Error = Error<'static>;

    open spec fn wf(&self) -> bool {
        forall|c: char| #[trigger] self.0.requires((c,))
    }

    open spec fn produces(&self, input: &'a str, from: usize, r: Outcome<&'a str, Error<'static>>) -> bool {
        &&& r is Ok
        &&& char_run(self.0, input, from as int, r->Ok_0.0 as int)
        &&& r->Ok_0.1@ == run_chars(input, from as int, r->Ok_0.0 as int)
    }

    fn parse(&self, input: &'a str, from: usize) -> (r: Outcome<&'a str, Error<'static>>) {
        let to = char_run_end(&self.0, input, from);
        let out = slice(input, from, to);
        proof {
            lemma_cancel(out@, run_chars(input, from as int, to as int), text_after(input, to as int));
        }
        Ok((to, out))
    }
}

/// Matches the longest run of characters that pass `F`, and fails where that run is empty.
#[derive(Copy, Clone, Debug, PartialEq)]
pub struct TakeWhile1<F>(pub F) where F: Fn(char) -> bool;

impl<'a, F: Fn(char) -> bool> Parser<&'a str> for TakeWhile1<F> {
    type Output = &'a str;

    type Error = Error<'static>;

    open spec fn wf(&self) -> bool {
        forall|c: char| #[trigger] self.0.requires((c,))
    }

    open spec fn produces(&self, input: &'a str, from: usize, r: Outcome<&'a str, Error<'static>>) -> bool {
        ||| r is Ok && from < r->Ok_0.0 && char_run(self.0, input, from as int, r->Ok_0.0 as int)
            && r->Ok_0.1@ == run_chars(input, from as int, r->Ok_0.0 as int)
        ||| char_run(self.0, input, from as int, from as int)
            && r == Err::<(usize, &'a str), (usize, Error<'static>)>((from, Error::TakeWhile1))
    }

    fn parse(&self, input: &'a str, from: usize) -> (r: Outcome<&'a str, Error<'static>>) {
        let to = char_run_end(&self.0, input, from);
        if to == from {
            return Err((from, Error::TakeWhile1));
        }
        let out = slice(input, from, to);
        proof {
            lemma_cancel(out@, run_chars(input, from as int, to as int), text_after(input, to as int));
        }
        Ok((to, out))
    }
}

/// Runs `P` and gives the part of the input it consumed instead of its output.
#[derive(Copy, Clone, Debug, PartialEq)]
pub struct Capture<P>(pub P);

impl<'a, P: Parser<&'a str>> Parser<&'a str> for Capture<P> {
    type Output = &'a str;

    type Error = P::Error;

    open spec fn wf(&self) -> bool {
        self.0.wf()
    }

    open spec fn produces(&self, input: &'a str, from: usize, r: Outcome<&'a str, P::Error>) -> bool {
        ||| exists|to: usize, x: P::Output|
            #[trigger] self.0.produces(input, from, Ok((to, x))) && r is Ok && r->Ok_0.0 == to
                && r->Ok_0.1@ == run_chars(input, from as int, to as int)
        ||| exists|e: (usize, P::Error)|
            #[trigger] self.0.produces(input, from, Err(e)) && r == Err::<(usize, &'a str), (usize, P::Error)>(e)
    }

    fn parse(&self, input: &'a str, from: usize) -> (r: Outcome<&'a str, P::Error>) {
        match self.0.parse(input, from) {
            Ok((to, x)) => {
                proof {
                    assert(self.0.produces(input, from, Ok((to, x))));
                }
                let out = slice(input, from, to);
                proof {
                    let t = text_after(input, from as int);
                    assert(out@ =~= t.subrange(0, t.len() - text_after(input, to as int).len()));
                }
                Ok((to, out))
            },
            Err(e) => {
                proof {
                    assert(self.0.produces(input, from, Err(e)));
                }
                Err(e)
            },
        }
    }
}

/// Matches any one character.
#[derive(Copy, Clone, Debug, PartialEq)]
pub struct Any;

impl<'a> Parser<&'a str> for Any {
    type Output = char;

    type Error = Error<'static>;

    open spec fn wf(&self) -> bool {
        true
    }

    open spec fn produces(&self, input: &'a str, from: usize, r: Outcome<char, Error<'static>>) -> bool {
        let t = text_after(input, from as int);
        r == if t.len() > 0 {
            Ok::<(usize, char), (usize, Error<'static>)>(((from + width(t[0])) as usize, t[0]))
        } else {
            Err((from, Error::Any))
        }
    }

    fn parse(&self, input: &'a str, from: usize) -> (r: Outcome<char, Error<'static>>) {
        match next_char(input, from) {
            Some((c, next)) => Ok((next, c)),
            None => Err((from, Error::Any)),
        }
    }
}

/// Gives the next character without consuming it.
#[derive(Copy, Clone, Debug, PartialEq)]
pub struct Peek;

impl<'a> Parser<&'a str> for Peek {
    type Output = char;

    type Error = Error<'static>;

    open spec fn wf(&self) -> bool {
        true
    }

    open spec fn produces(&self, input: &'a str, from: usize, r: Outcome<char, Error<'static>>) -> bool {
        let t = text_after(input, from as int);
        r == if t.len() > 0 {
            Ok::<(usize, char), (usize, Error<'static>)>((from, t[0]))
        } else {
            Err((from, Error::Peek))
        }
    }

    fn parse(&self, input: &'a str, from: usize) -> (r: Outcome<char, Error<'static>>) {
        match next_char(input, from) {
            Some((c, _)) => Ok((from, c)),
            None => Err((from, Error::Peek)),
        }
    }
}

/// Matches the end of the input.
#[derive(Copy, Clone, Debug, PartialEq)]
pub struct End;

impl<'a> Parser<&'a str> for End {
    type Output = ();

    type Error = Error<'static>;

    open spec fn wf(&self) -> bool {
        true
    }

    open spec fn produces(&self, input: &'a str, from: usize, r: Outcome<(), Error<'static>>) -> bool {
        r == if from == input.spec_bytes().len() {
            Ok::<(usize, ()), (usize, Error<'static>)>((from, ()))
        } else {
            Err((from, Error::End))
        }
    }

    fn parse(&self, input: &'a str, from: usize) -> (r: Outcome<(), Error<'static>>) {
        if input.as_bytes().len() == from {
            Ok((from, ()))
        } else {
            Err((from, Error::End))
        }
    }
}

} // verus!
