//! Changing what a parser gives, and parsers that read nothing.
use vstd::prelude::*;

use crate::{Input, Outcome, Parser};

verus! {

/// Applies `F` to the output of a success; failures pass unchanged.
#[derive(Copy, Clone, Debug, PartialEq)]
pub struct MapOutput<A, F>(pub A, pub F);

impl<I: Input, A: Parser<I>, O, F: Fn(A::Output) -> O> Parser<I> for MapOutput<A, F> {
    type Output = O;

    type Error = A::Error;

    open spec fn wf(&self) -> bool {
        self.0.wf() && forall|x: A::Output| #[trigger] self.1.requires((x,))
    }

    open spec fn produces(&self, input: I, from: usize, r: Outcome<O, A::Error>) -> bool {
        ||| exists|p: usize, x: A::Output, y: O|
            r == Ok::<_, (usize, A::Error)>((p, y)) && #[trigger] self.0.produces(input, from, Ok((p, x)))
                && #[trigger] self.1.ensures((x,), y)
        ||| exists|e: (usize, A::Error)| (r is Err && r->Err_0 == e) && #[trigger] self.0.produces(input, from, Err(e))
    }

    fn parse(&self, input: I, from: usize) -> (r: Outcome<O, A::Error>) {
        match self.0.parse(input, from) {
            Ok((p, x)) => {
                assert(self.0.produces(input, from, Ok((p, x))));
                Ok((p, (self.1)(x)))
            },
            Err(e) => Err(e),
        }
    }
}

/// Applies `F` to the error of a failure, at the same offset; successes pass unchanged.
#[derive(Copy, Clone, Debug, PartialEq)]
pub struct MapErr<A, F>(pub A, pub F);

impl<I: Input, A: Parser<I>, E, F: Fn(A::Error) -> E> Parser<I> for MapErr<A, F> {
    type Output = A::Output;

    type Error = E;

    open spec fn wf(&self) -> bool {
        self.0.wf() && forall|e: A::Error| #[trigger] self.1.requires((e,))
    }

    open spec fn produces(&self, input: I, from: usize, r: Outcome<A::Output, E>) -> bool {
        ||| exists|x: (usize, A::Output)| (r is Ok && r->Ok_0 == x) && #[trigger] self.0.produces(input, from, Ok(x))
        ||| exists|p: usize, e0: A::Error, e: E|
            r == Err::<(usize, A::Output), _>((p, e)) && #[trigger] self.0.produces(input, from, Err((p, e0)))
                && #[trigger] self.1.ensures((e0,), e)
    }

    fn parse(&self, input: I, from: usize) -> (r: Outcome<A::Output, E>) {
        match self.0.parse(input, from) {
            Ok(x) => Ok(x),
            Err((p, e)) => {
                assert(self.0.produces(input, from, Err((p, e))));
                Err((p, (self.1)(e)))
            },
        }
    }
}

/// Hands the output of a success to `F`, which accepts it with a new output or rejects it with
/// an error; a rejection is reported where `A` stopped, as a committed failure.
#[derive(Copy, Clone, Debug, PartialEq)]
pub struct AndThen<A, F>(pub A, pub F);

impl<
    I: Input,
    A: Parser<I>,
    O,
    F: Fn(A::Output) -> core::result::Result<O, A::Error>,
> Parser<I> for AndThen<A, F> {
    type Output = O;

    type Error = A::Error;

    open spec fn wf(&self) -> bool {
        self.0.wf() && forall|x: A::Output| #[trigger] self.1.requires((x,))
    }

    open spec fn produces(&self, input: I, from: usize, r: Outcome<O, A::Error>) -> bool {
        ||| exists|p: usize, x: A::Output, y: O|
            r == Ok::<_, (usize, A::Error)>((p, y)) && #[trigger] self.0.produces(input, from, Ok((p, x)))
                && #[trigger] self.1.ensures((x,), Ok::<O, A::Error>(y))
        ||| exists|e: (usize, A::Error)| (r is Err && r->Err_0 == e) && #[trigger] self.0.produces(input, from, Err(e))
        ||| exists|p: usize, x: A::Output, e: A::Error|
            r == Err::<(usize, O), _>((p, e)) && #[trigger] self.0.produces(input, from, Ok((p, x)))
                && #[trigger] self.1.ensures((x,), Err::<O, A::Error>(e))
    }

    fn parse(&self, input: I, from: usize) -> (r: Outcome<O, A::Error>) {
        match self.0.parse(input, from) {
            Ok((p, x)) => {
                assert(self.0.produces(input, from, Ok((p, x))));
                match (self.1)(x) {
                    Ok(y) => Ok((p, y)),
                    Err(e) => Err((p, e)),
                }
            },
            Err(e) => Err(e),
        }
    }
}

/// Reads nothing: succeeds where the check `F` passes, else fails with the error that `E`
/// makes, at the current offset.
#[derive(Copy, Clone, Debug, PartialEq)]
pub struct Guard<F, E>(pub F, pub E);

impl<I: Input, Error, F: Fn() -> bool, E: Fn() -> Error> Parser<I> for Guard<F, E> {
    type Output = ();

    type Error = Error;

    open spec fn wf(&self) -> bool {
        self.0.requires(()) && self.1.requires(())
    }

    open spec fn produces(&self, input: I, from: usize, r: Outcome<(), Error>) -> bool {
        ||| r == Ok::<_, (usize, Error)>((from, ())) && self.0.ensures((), true)
        ||| exists|e: Error|
            r == Err::<(usize, ()), _>((from, e)) && self.0.ensures((), false) && #[trigger] self.1.ensures((), e)
    }

    fn parse(&self, _input: I, from: usize) -> (r: Outcome<(), Error>) {
        if (self.0)() {
            Ok((from, ()))
        } else {
            Err((from, (self.1)()))
        }
    }
}

/// Reads nothing and succeeds with what `f` makes.
#[derive(Debug)]
pub struct Succeed<F, E> {
    pub f: F,
    pub e: core::marker::PhantomData<E>,
}

/// A parser that reads nothing and succeeds with what `f` makes; its error type is `E`.
#[allow(non_snake_case)]
pub fn Succeed<F, E>(f: F) -> (r: Succeed<F, E>)
    ensures
        r.f == f,
{
    Succeed { f, e: core::marker::PhantomData }
}

impl<I: Input, O, E, F: Fn() -> O> Parser<I> for Succeed<F, E> {
    type Output = O;

    type Error = E;

    open spec fn wf(&self) -> bool {
        self.f.requires(())
    }

    open spec fn produces(&self, input: I, from: usize, r: Outcome<O, E>) -> bool {
        exists|x: O| r == Ok::<_, (usize, E)>((from, x)) && #[trigger] self.f.ensures((), x)
    }

    fn parse(&self, _input: I, from: usize) -> (r: Outcome<O, E>) {
        Ok((from, (self.f)()))
    }
}

/// Reads nothing and fails, at the current offset, with the error that `F` makes.
#[derive(Copy, Clone, Debug, PartialEq)]
pub struct Fail<F>(pub F);

impl<I: Input, E, F: Fn() -> E> Parser<I> for Fail<F> {
    type Output = ();

    type Error = E;

    open spec fn wf(&self) -> bool {
        self.0.requires(())
    }

    open spec fn produces(&self, input: I, from: usize, r: Outcome<(), E>) -> bool {
        exists|e: E| r == Err::<(usize, ()), _>((from, e)) && #[trigger] self.0.ensures((), e)
    }

    fn parse(&self, _input: I, from: usize) -> (r: Outcome<(), E>) {
        Err((from, (self.0)()))
    }
}

/// Reads nothing and gives the current offset as its output.
#[allow(non_snake_case)]
pub fn Position<I, E>(_input: I, from: usize) -> (r: Outcome<usize, E>)
    ensures
        r == Ok::<(usize, usize), (usize, E)>((from, from)),
{
    Ok((from, from))
}

} // verus!
