//! Running parsers one after another, and choosing between them.
use vstd::prelude::*;

use crate::{Input, Outcome, Parser};

verus! {

/// Runs `A` and then `B` where `A` stopped; gives both outputs.
#[derive(Copy, Clone, Debug, PartialEq)]
pub struct And<A, B>(pub A, pub B);

impl<I: Input, A: Parser<I>, B: Parser<I, Error = A::Error>> Parser<I> for And<A, B> {
    type Output = (A::Output, B::Output);

    type Error = A::Error;

    open spec fn wf(&self) -> bool {
        self.0.wf() && self.1.wf()
    }

    open spec fn produces(&self, input: I, from: usize, r: Outcome<Self::Output, A::Error>) -> bool {
        ||| exists|p: usize, x: A::Output, q: usize, y: B::Output|
            r == Ok::<_, (usize, A::Error)>((q, (x, y))) && #[trigger] self.0.produces(input, from, Ok((p, x)))
                && #[trigger] self.1.produces(input, p, Ok((q, y)))
        ||| exists|e: (usize, A::Error)| (r is Err && r->Err_0 == e) && #[trigger] self.0.produces(input, from, Err(e))
        ||| exists|p: usize, x: A::Output, e: (usize, A::Error)|
            (r is Err && r->Err_0 == e) && #[trigger] self.0.produces(input, from, Ok((p, x)))
                && #[trigger] self.1.produces(input, p, Err(e))
    }

    fn parse(&self, input: I, from: usize) -> (r: Outcome<Self::Output, A::Error>) {
        let (p, x) = self.0.parse(input, from)?;
        assert(self.0.produces(input, from, Ok((p, x))));
        let (q, y) = self.1.parse(input, p)?;
        Ok((q, (x, y)))
    }
}

/// Runs `A` and then `B`; keeps the output of `A` only.
#[derive(Copy, Clone, Debug, PartialEq)]
pub struct AndSkip<A, B>(pub A, pub B);

impl<I: Input, A: Parser<I>, B: Parser<I, Error = A::Error>> Parser<I> for AndSkip<A, B> {
    type Output = A::Output;

    type Error = A::Error;

    open spec fn wf(&self) -> bool {
        self.0.wf() && self.1.wf()
    }

    open spec fn produces(&self, input: I, from: usize, r: Outcome<A::Output, A::Error>) -> bool {
        ||| exists|p: usize, x: A::Output, q: usize, y: B::Output|
            r == Ok::<_, (usize, A::Error)>((q, x)) && #[trigger] self.0.produces(input, from, Ok((p, x)))
                && #[trigger] self.1.produces(input, p, Ok((q, y)))
        ||| r is Err && self.0.produces(input, from, r)
        ||| exists|p: usize, x: A::Output, e: (usize, A::Error)|
            (r is Err && r->Err_0 == e) && #[trigger] self.0.produces(input, from, Ok((p, x)))
                && #[trigger] self.1.produces(input, p, Err(e))
    }

    fn parse(&self, input: I, from: usize) -> (r: Outcome<A::Output, A::Error>) {
        let (p, x) = self.0.parse(input, from)?;
        assert(self.0.produces(input, from, Ok((p, x))));
        let (q, y) = self.1.parse(input, p)?;
        assert(self.1.produces(input, p, Ok((q, y))));
        Ok((q, x))
    }
}

/// Runs `A` and then `B`; keeps the output of `B` only.
#[derive(Copy, Clone, Debug, PartialEq)]
pub struct SkipAnd<A, B>(pub A, pub B);

impl<I: Input, A: Parser<I>, B: Parser<I, Error = A::Error>> Parser<I> for SkipAnd<A, B> {
    type Output = B::Output;

    type Error = A::Error;

    open spec fn wf(&self) -> bool {
        self.0.wf() && self.1.wf()
    }

    open spec fn produces(&self, input: I, from: usize, r: Outcome<B::Output, A::Error>) -> bool {
        ||| exists|e: (usize, A::Error)| (r is Err && r->Err_0 == e) && #[trigger] self.0.produces(input, from, Err(e))
        ||| exists|p: usize, x: A::Output|
            #[trigger] self.0.produces(input, from, Ok((p, x))) && self.1.produces(input, p, r)
    }

    fn parse(&self, input: I, from: usize) -> (r: Outcome<B::Output, A::Error>) {
        let (p, x) = self.0.parse(input, from)?;
        assert(self.0.produces(input, from, Ok((p, x))));
        self.1.parse(input, p)
    }
}

/// Tries `A`; where `A` fails without consuming anything, tries `B` at the same offset.
/// A failure of `A` past the start offset is committed: `B` is not tried.
#[derive(Copy, Clone, Debug, PartialEq)]
pub struct Or<A, B>(pub A, pub B);

impl<I: Input, A: Parser<I>, B: Parser<I, Output = A::Output, Error = A::Error>> Parser<I> for Or<A, B> {
    type Output = A::Output;

    type Error = A::Error;

    open spec fn wf(&self) -> bool {
        self.0.wf() && self.1.wf()
    }

    open spec fn produces(&self, input: I, from: usize, r: Outcome<A::Output, A::Error>) -> bool {
        ||| self.0.produces(input, from, r) && (r is Ok || crate::position(r) != from)
        ||| exists|e: A::Error|
            #[trigger] self.0.produces(input, from, Err((from, e))) && self.1.produces(input, from, r)
    }

    fn parse(&self, input: I, from: usize) -> (r: Outcome<A::Output, A::Error>) {
        match self.0.parse(input, from) {
            Ok((p, x)) => Ok((p, x)),
            Err((p, e)) => {
                if p == from {
                    assert(self.0.produces(input, from, Err((from, e))));
                    self.1.parse(input, from)
                } else {
                    Err((p, e))
                }
            },
        }
    }
}

/// Runs `A`, and reports any failure at the start offset, so that an alternative may follow
/// even where `A` consumed input before it failed.
#[derive(Copy, Clone, Debug, PartialEq)]
pub struct Try<A>(pub A);

impl<I: Input, A: Parser<I>> Parser<I> for Try<A> {
    type Output = A::Output;

    type Error = A::Error;

    open spec fn wf(&self) -> bool {
        self.0.wf()
    }

    open spec fn produces(&self, input: I, from: usize, r: Outcome<A::Output, A::Error>) -> bool {
        ||| r is Ok && self.0.produces(input, from, r)
        ||| exists|q: usize, e: A::Error|
            r == Err::<(usize, A::Output), _>((from, e)) && #[trigger] self.0.produces(input, from, Err((q, e)))
    }

    fn parse(&self, input: I, from: usize) -> (r: Outcome<A::Output, A::Error>) {
        match self.0.parse(input, from) {
            Ok(x) => Ok(x),
            Err((q, e)) => {
                proof {
                    assert(self.0.produces(input, from, Err((q, e))));
                }
                Err((from, e))
            },
        }
    }
}

/// Runs `A`; a success gives `Some`, a failure at the start offset gives `None` there, and a
/// committed failure is passed on.
#[derive(Copy, Clone, Debug, PartialEq)]
pub struct Optional<A>(pub A);

impl<I: Input, A: Parser<I>> Parser<I> for Optional<A> {
    type Output = Option<A::Output>;

    type Error = A::Error;

    open spec fn wf(&self) -> bool {
        self.0.wf()
    }

    open spec fn produces(&self, input: I, from: usize, r: Outcome<Option<A::Output>, A::Error>) -> bool {
        ||| exists|p: usize, x: A::Output|
            r == Ok::<_, (usize, A::Error)>((p, Some(x))) && #[trigger] self.0.produces(input, from, Ok((p, x)))
        ||| r == Ok::<_, (usize, A::Error)>((from, None::<A::Output>))
            && exists|e: A::Error| #[trigger] self.0.produces(input, from, Err((from, e)))
        ||| exists|e: (usize, A::Error)| (r is Err && r->Err_0 == e) && e.0 != from && #[trigger] self.0.produces(input, from, Err(e))
    }

    fn parse(&self, input: I, from: usize) -> (r: Outcome<Option<A::Output>, A::Error>) {
        match self.0.parse(input, from) {
            Ok((p, x)) => Ok((p, Some(x))),
            Err((p, e)) => {
                if p == from {
                    assert(self.0.produces(input, from, Err((from, e))));
                    Ok((from, None))
                } else {
                    Err((p, e))
                }
            },
        }
    }
}

/// Runs `A`, hands its output to `f`, and runs the parser that `f` returns where `A` stopped.
#[derive(Copy, Clone, Debug, PartialEq)]
pub struct Bind<A, F>(pub A, pub F);

impl<I: Input, A: Parser<I>, B: Parser<I, Error = A::Error>, F: Fn(A::Output) -> B> Parser<I> for Bind<A, F> {
    type Output = B::Output;

    type Error = A::Error;

    open spec fn wf(&self) -> bool {
        &&& self.0.wf()
        &&& forall|x: A::Output| #[trigger] self.1.requires((x,))
        &&& forall|x: A::Output, b: B| #[trigger] self.1.ensures((x,), b) ==> b.wf()
    }

    open spec fn produces(&self, input: I, from: usize, r: Outcome<B::Output, A::Error>) -> bool {
        ||| exists|e: (usize, A::Error)| (r is Err && r->Err_0 == e) && #[trigger] self.0.produces(input, from, Err(e))
        ||| exists|p: usize, x: A::Output, b: B|
            #[trigger] self.0.produces(input, from, Ok((p, x))) && #[trigger] self.1.ensures((x,), b)
                && b.produces(input, p, r)
    }

    fn parse(&self, input: I, from: usize) -> (r: Outcome<B::Output, A::Error>) {
        match self.0.parse(input, from) {
            Ok((p, x)) => {
                assert(self.0.produces(input, from, Ok((p, x))));
                let b = (self.1)(x);
                b.parse(input, p)
            },
            Err(e) => Err(e),
        }
    }
}

} // verus!

verus! {
/// Runs the parsers in order, each where the one before stopped, and gives all outputs.
impl<I: Input, A: Parser<I>> Parser<I> for (A,) {
    type Output = (A::Output,);

    type Error = A::Error;

    open spec fn wf(&self) -> bool {
        self.0.wf()
    }

    open spec fn produces(&self, input: I, from: usize, r: Outcome<(A::Output,), A::Error>) -> bool {
        ||| exists|p1: usize, x0: A::Output|
            #![trigger self.0.produces(input, from, Ok((p1, x0)))]
            r == Ok::<_, (usize, A::Error)>((p1, (x0,)))
                && self.0.produces(input, from, Ok((p1, x0)))
        ||| exists|e: (usize, A::Error)|
            #![trigger self.0.produces(input, from, Err(e))]
            (r is Err && r->Err_0 == e)
                && self.0.produces(input, from, Err(e))
    }

    fn parse(&self, input: I, from: usize) -> (r: Outcome<(A::Output,), A::Error>) {
        let (p1, x0) = self.0.parse(input, from)?;
        proof {
            assert(self.0.produces(input, from, Ok((p1, x0))));
        }
        Ok((p1, (x0,)))
    }
}

/// Runs the parsers in order, each where the one before stopped, and gives all outputs.
impl<I: Input, A: Parser<I>, B: Parser<I, Error = A::Error>> Parser<I> for (A, B) {
    type Output = (A::Output, B::Output);

    type Error = A::Error;

    open spec fn wf(&self) -> bool {
        self.0.wf() && self.1.wf()
    }

    open spec fn produces(&self, input: I, from: usize, r: Outcome<(A::Output, B::Output), A::Error>) -> bool {
        ||| exists|p1: usize, x0: A::Output, p2: usize, x1: B::Output|
            #![trigger self.0.produces(input, from, Ok((p1, x0))), self.1.produces(input, p1, Ok((p2, x1)))]
            r == Ok::<_, (usize, A::Error)>((p2, (x0, x1)))
                && self.0.produces(input, from, Ok((p1, x0)))
                && self.1.produces(input, p1, Ok((p2, x1)))
        ||| exists|e: (usize, A::Error)|
            #![trigger self.0.produces(input, from, Err(e))]
            (r is Err && r->Err_0 == e)
                && self.0.produces(input, from, Err(e))
        ||| exists|p1: usize, x0: A::Output, e: (usize, A::Error)|
            #![trigger self.0.produces(input, from, Ok((p1, x0))), self.1.produces(input, p1, Err(e))]
            (r is Err && r->Err_0 == e)
                && self.0.produces(input, from, Ok((p1, x0)))
                && self.1.produces(input, p1, Err(e))
    }

    fn parse(&self, input: I, from: usize) -> (r: Outcome<(A::Output, B::Output), A::Error>) {
        let (p1, x0) = self.0.parse(input, from)?;
        proof {
            assert(self.0.produces(input, from, Ok((p1, x0))));
        }
        let (p2, x1) = self.1.parse(input, p1)?;
        proof {
            assert(self.1.produces(input, p1, Ok((p2, x1))));
        }
        Ok((p2, (x0, x1)))
    }
}

/// Runs the parsers in order, each where the one before stopped, and gives all outputs.
impl<I: Input, A: Parser<I>, B: Parser<I, Error = A::Error>, C: Parser<I, Error = A::Error>> Parser<I> for (A, B, C) {
    type Output = (A::Output, B::Output, C::Output);

    type Error = A::Error;

    open spec fn wf(&self) -> bool {
        self.0.wf() && self.1.wf() && self.2.wf()
    }

    open spec fn produces(&self, input: I, from: usize, r: Outcome<(A::Output, B::Output, C::Output), A::Error>) -> bool {
        ||| exists|p1: usize, x0: A::Output, p2: usize, x1: B::Output, p3: usize, x2: C::Output|
            #![trigger self.0.produces(input, from, Ok((p1, x0))), self.1.produces(input, p1, Ok((p2, x1))), self.2.produces(input, p2, Ok((p3, x2)))]
            r == Ok::<_, (usize, A::Error)>((p3, (x0, x1, x2)))
                && self.0.produces(input, from, Ok((p1, x0)))
                && self.1.produces(input, p1, Ok((p2, x1)))
                && self.2.produces(input, p2, Ok((p3, x2)))
        ||| exists|e: (usize, A::Error)|
            #![trigger self.0.produces(input, from, Err(e))]
            (r is Err && r->Err_0 == e)
                && self.0.produces(input, from, Err(e))
        ||| exists|p1: usize, x0: A::Output, e: (usize, A::Error)|
            #![trigger self.0.produces(input, from, Ok((p1, x0))), self.1.produces(input, p1, Err(e))]
            (r is Err && r->Err_0 == e)
                && self.0.produces(input, from, Ok((p1, x0)))
                && self.1.produces(input, p1, Err(e))
        ||| exists|p1: usize, x0: A::Output, p2: usize, x1: B::Output, e: (usize, A::Error)|
            #![trigger self.0.produces(input, from, Ok((p1, x0))), self.1.produces(input, p1, Ok((p2, x1))), self.2.produces(input, p2, Err(e))]
            (r is Err && r->Err_0 == e)
                && self.0.produces(input, from, Ok((p1, x0)))
                && self.1.produces(input, p1, Ok((p2, x1)))
                && self.2.produces(input, p2, Err(e))
    }

    fn parse(&self, input: I, from: usize) -> (r: Outcome<(A::Output, B::Output, C::Output), A::Error>) {
        let (p1, x0) = self.0.parse(input, from)?;
        proof {
            assert(self.0.produces(input, from, Ok((p1, x0))));
        }
        let (p2, x1) = self.1.parse(input, p1)?;
        proof {
            assert(self.1.produces(input, p1, Ok((p2, x1))));
        }
        let (p3, x2) = self.2.parse(input, p2)?;
        proof {
            assert(self.2.produces(input, p2, Ok((p3, x2))));
        }
        Ok((p3, (x0, x1, x2)))
    }
}

/// Runs the parsers in order, each where the one before stopped, and gives all outputs.
impl<I: Input, A: Parser<I>, B: Parser<I, Error = A::Error>, C: Parser<I, Error = A::Error>, D: Parser<I, Error = A::Error>> Parser<I> for (A, B, C, D) {
    type Output = (A::Output, B::Output, C::Output, D::Output);

    type Error = A::Error;

    open spec fn wf(&self) -> bool {
        self.0.wf() && self.1.wf() && self.2.wf() && self.3.wf()
    }

    open spec fn produces(&self, input: I, from: usize, r: Outcome<(A::Output, B::Output, C::Output, D::Output), A::Error>) -> bool {
        ||| exists|p1: usize, x0: A::Output, p2: usize, x1: B::Output, p3: usize, x2: C::Output, p4: usize, x3: D::Output|
            #![trigger self.0.produces(input, from, Ok((p1, x0))), self.1.produces(input, p1, Ok((p2, x1))), self.2.produces(input, p2, Ok((p3, x2))), self.3.produces(input, p3, Ok((p4, x3)))]
            r == Ok::<_, (usize, A::Error)>((p4, (x0, x1, x2, x3)))
                && self.0.produces(input, from, Ok((p1, x0)))
                && self.1.produces(input, p1, Ok((p2, x1)))
                && self.2.produces(input, p2, Ok((p3, x2)))
                && self.3.produces(input, p3, Ok((p4, x3)))
        ||| exists|e: (usize, A::Error)|
            #![trigger self.0.produces(input, from, Err(e))]
            (r is Err && r->Err_0 == e)
                && self.0.produces(input, from, Err(e))
        ||| exists|p1: usize, x0: A::Output, e: (usize, A::Error)|
            #![trigger self.0.produces(input, from, Ok((p1, x0))), self.1.produces(input, p1, Err(e))]
            (r is Err && r->Err_0 == e)
                && self.0.produces(input, from, Ok((p1, x0)))
                && self.1.produces(input, p1, Err(e))
        ||| exists|p1: usize, x0: A::Output, p2: usize, x1: B::Output, e: (usize, A::Error)|
            #![trigger self.0.produces(input, from, Ok((p1, x0))), self.1.produces(input, p1, Ok((p2, x1))), self.2.produces(input, p2, Err(e))]
            (r is Err && r->Err_0 == e)
                && self.0.produces(input, from, Ok((p1, x0)))
                && self.1.produces(input, p1, Ok((p2, x1)))
                && self.2.produces(input, p2, Err(e))
        ||| exists|p1: usize, x0: A::Output, p2: usize, x1: B::Output, p3: usize, x2: C::Output, e: (usize, A::Error)|
            #![trigger self.0.produces(input, from, Ok((p1, x0))), self.1.produces(input, p1, Ok((p2, x1))), self.2.produces(input, p2, Ok((p3, x2))), self.3.produces(input, p3, Err(e))]
            (r is Err && r->Err_0 == e)
                && self.0.produces(input, from, Ok((p1, x0)))
                && self.1.produces(input, p1, Ok((p2, x1)))
                && self.2.produces(input, p2, Ok((p3, x2)))
                && self.3.produces(input, p3, Err(e))
    }

    fn parse(&self, input: I, from: usize) -> (r: Outcome<(A::Output, B::Output, C::Output, D::Output), A::Error>) {
        let (p1, x0) = self.0.parse(input, from)?;
        proof {
            assert(self.0.produces(input, from, Ok((p1, x0))));
        }
        let (p2, x1) = self.1.parse(input, p1)?;
        proof {
            assert(self.1.produces(input, p1, Ok((p2, x1))));
        }
        let (p3, x2) = self.2.parse(input, p2)?;
        proof {
            assert(self.2.produces(input, p2, Ok((p3, x2))));
        }
        let (p4, x3) = self.3.parse(input, p3)?;
        proof {
            assert(self.3.produces(input, p3, Ok((p4, x3))));
        }
        Ok((p4, (x0, x1, x2, x3)))
    }
}

/// Runs the parsers in order, each where the one before stopped, and gives all outputs.
impl<I: Input, A: Parser<I>, B: Parser<I, Error = A::Error>, C: Parser<I, Error = A::Error>, D: Parser<I, Error = A::Error>, E: Parser<I, Error = A::Error>> Parser<I> for (A, B, C, D, E) {
    type Output = (A::Output, B::Output, C::Output, D::Output, E::Output);

    type Error = A::Error;

    open spec fn wf(&self) -> bool {
        self.0.wf() && self.1.wf() && self.2.wf() && self.3.wf() && self.4.wf()
    }

    open spec fn produces(&self, input: I, from: usize, r: Outcome<(A::Output, B::Output, C::Output, D::Output, E::Output), A::Error>) -> bool {
        ||| exists|p1: usize, x0: A::Output, p2: usize, x1: B::Output, p3: usize, x2: C::Output, p4: usize, x3: D::Output, p5: usize, x4: E::Output|
            #![trigger self.0.produces(input, from, Ok((p1, x0))), self.1.produces(input, p1, Ok((p2, x1))), self.2.produces(input, p2, Ok((p3, x2))), self.3.produces(input, p3, Ok((p4, x3))), self.4.produces(input, p4, Ok((p5, x4)))]
            r == Ok::<_, (usize, A::Error)>((p5, (x0, x1, x2, x3, x4)))
                && self.0.produces(input, from, Ok((p1, x0)))
                && self.1.produces(input, p1, Ok((p2, x1)))
                && self.2.produces(input, p2, Ok((p3, x2)))
                && self.3.produces(input, p3, Ok((p4, x3)))
                && self.4.produces(input, p4, Ok((p5, x4)))
        ||| exists|e: (usize, A::Error)|
            #![trigger self.0.produces(input, from, Err(e))]
            (r is Err && r->Err_0 == e)
                && self.0.produces(input, from, Err(e))
        ||| exists|p1: usize, x0: A::Output, e: (usize, A::Error)|
            #![trigger self.0.produces(input, from, Ok((p1, x0))), self.1.produces(input, p1, Err(e))]
            (r is Err && r->Err_0 == e)
                && self.0.produces(input, from, Ok((p1, x0)))
                && self.1.produces(input, p1, Err(e))
        ||| exists|p1: usize, x0: A::Output, p2: usize, x1: B::Output, e: (usize, A::Error)|
            #![trigger self.0.produces(input, from, Ok((p1, x0))), self.1.produces(input, p1, Ok((p2, x1))), self.2.produces(input, p2, Err(e))]
            (r is Err && r->Err_0 == e)
                && self.0.produces(input, from, Ok((p1, x0)))
                && self.1.produces(input, p1, Ok((p2, x1)))
                && self.2.produces(input, p2, Err(e))
        ||| exists|p1: usize, x0: A::Output, p2: usize, x1: B::Output, p3: usize, x2: C::Output, e: (usize, A::Error)|
            #![trigger self.0.produces(input, from, Ok((p1, x0))), self.1.produces(input, p1, Ok((p2, x1))), self.2.produces(input, p2, Ok((p3, x2))), self.3.produces(input, p3, Err(e))]
            (r is Err && r->Err_0 == e)
                && self.0.produces(input, from, Ok((p1, x0)))
                && self.1.produces(input, p1, Ok((p2, x1)))
                && self.2.produces(input, p2, Ok((p3, x2)))
                && self.3.produces(input, p3, Err(e))
        ||| exists|p1: usize, x0: A::Output, p2: usize, x1: B::Output, p3: usize, x2: C::Output, p4: usize, x3: D::Output, e: (usize, A::Error)|
            #![trigger self.0.produces(input, from, Ok((p1, x0))), self.1.produces(input, p1, Ok((p2, x1))), self.2.produces(input, p2, Ok((p3, x2))), self.3.produces(input, p3, Ok((p4, x3))), self.4.produces(input, p4, Err(e))]
            (r is Err && r->Err_0 == e)
                && self.0.produces(input, from, Ok((p1, x0)))
                && self.1.produces(input, p1, Ok((p2, x1)))
                && self.2.produces(input, p2, Ok((p3, x2)))
                && self.3.produces(input, p3, Ok((p4, x3)))
                && self.4.produces(input, p4, Err(e))
    }

    fn parse(&self, input: I, from: usize) -> (r: Outcome<(A::Output, B::Output, C::Output, D::Output, E::Output), A::Error>) {
        let (p1, x0) = self.0.parse(input, from)?;
        proof {
            assert(self.0.produces(input, from, Ok((p1, x0))));
        }
        let (p2, x1) = self.1.parse(input, p1)?;
        proof {
            assert(self.1.produces(input, p1, Ok((p2, x1))));
        }
        let (p3, x2) = self.2.parse(input, p2)?;
        proof {
            assert(self.2.produces(input, p2, Ok((p3, x2))));
        }
        let (p4, x3) = self.3.parse(input, p3)?;
        proof {
            assert(self.3.produces(input, p3, Ok((p4, x3))));
        }
        let (p5, x4) = self.4.parse(input, p4)?;
        proof {
            assert(self.4.produces(input, p4, Ok((p5, x4))));
        }
        Ok((p5, (x0, x1, x2, x3, x4)))
    }
}

/// Runs the parsers in order, each where the one before stopped, and gives all outputs.
impl<I: Input, A: Parser<I>, B: Parser<I, Error = A::Error>, C: Parser<I, Error = A::Error>, D: Parser<I, Error = A::Error>, E: Parser<I, Error = A::Error>, F: Parser<I, Error = A::Error>> Parser<I> for (A, B, C, D, E, F) {
    type Output = (A::Output, B::Output, C::Output, D::Output, E::Output, F::Output);

    type Error = A::Error;

    open spec fn wf(&self) -> bool {
        self.0.wf() && self.1.wf() && self.2.wf() && self.3.wf() && self.4.wf() && self.5.wf()
    }

    open spec fn produces(&self, input: I, from: usize, r: Outcome<(A::Output, B::Output, C::Output, D::Output, E::Output, F::Output), A::Error>) -> bool {
        ||| exists|p1: usize, x0: A::Output, p2: usize, x1: B::Output, p3: usize, x2: C::Output, p4: usize, x3: D::Output, p5: usize, x4: E::Output, p6: usize, x5: F::Output|
            #![trigger self.0.produces(input, from, Ok((p1, x0))), self.1.produces(input, p1, Ok((p2, x1))), self.2.produces(input, p2, Ok((p3, x2))), self.3.produces(input, p3, Ok((p4, x3))), self.4.produces(input, p4, Ok((p5, x4))), self.5.produces(input, p5, Ok((p6, x5)))]
            r == Ok::<_, (usize, A::Error)>((p6, (x0, x1, x2, x3, x4, x5)))
                && self.0.produces(input, from, Ok((p1, x0)))
                && self.1.produces(input, p1, Ok((p2, x1)))
                && self.2.produces(input, p2, Ok((p3, x2)))
                && self.3.produces(input, p3, Ok((p4, x3)))
                && self.4.produces(input, p4, Ok((p5, x4)))
                && self.5.produces(input, p5, Ok((p6, x5)))
        ||| exists|e: (usize, A::Error)|
            #![trigger self.0.produces(input, from, Err(e))]
            (r is Err && r->Err_0 == e)
                && self.0.produces(input, from, Err(e))
        ||| exists|p1: usize, x0: A::Output, e: (usize, A::Error)|
            #![trigger self.0.produces(input, from, Ok((p1, x0))), self.1.produces(input, p1, Err(e))]
            (r is Err && r->Err_0 == e)
                && self.0.produces(input, from, Ok((p1, x0)))
                && self.1.produces(input, p1, Err(e))
        ||| exists|p1: usize, x0: A::Output, p2: usize, x1: B::Output, e: (usize, A::Error)|
            #![trigger self.0.produces(input, from, Ok((p1, x0))), self.1.produces(input, p1, Ok((p2, x1))), self.2.produces(input, p2, Err(e))]
            (r is Err && r->Err_0 == e)
                && self.0.produces(input, from, Ok((p1, x0)))
                && self.1.produces(input, p1, Ok((p2, x1)))
                && self.2.produces(input, p2, Err(e))
        ||| exists|p1: usize, x0: A::Output, p2: usize, x1: B::Output, p3: usize, x2: C::Output, e: (usize, A::Error)|
            #![trigger self.0.produces(input, from, Ok((p1, x0))), self.1.produces(input, p1, Ok((p2, x1))), self.2.produces(input, p2, Ok((p3, x2))), self.3.produces(input, p3, Err(e))]
            (r is Err && r->Err_0 == e)
                && self.0.produces(input, from, Ok((p1, x0)))
                && self.1.produces(input, p1, Ok((p2, x1)))
                && self.2.produces(input, p2, Ok((p3, x2)))
                && self.3.produces(input, p3, Err(e))
        ||| exists|p1: usize, x0: A::Output, p2: usize, x1: B::Output, p3: usize, x2: C::Output, p4: usize, x3: D::Output, e: (usize, A::Error)|
            #![trigger self.0.produces(input, from, Ok((p1, x0))), self.1.produces(input, p1, Ok((p2, x1))), self.2.produces(input, p2, Ok((p3, x2))), self.3.produces(input, p3, Ok((p4, x3))), self.4.produces(input, p4, Err(e))]
            (r is Err && r->Err_0 == e)
                && self.0.produces(input, from, Ok((p1, x0)))
                && self.1.produces(input, p1, Ok((p2, x1)))
                && self.2.produces(input, p2, Ok((p3, x2)))
                && self.3.produces(input, p3, Ok((p4, x3)))
                && self.4.produces(input, p4, Err(e))
        ||| exists|p1: usize, x0: A::Output, p2: usize, x1: B::Output, p3: usize, x2: C::Output, p4: usize, x3: D::Output, p5: usize, x4: E::Output, e: (usize, A::Error)|
            #![trigger self.0.produces(input, from, Ok((p1, x0))), self.1.produces(input, p1, Ok((p2, x1))), self.2.produces(input, p2, Ok((p3, x2))), self.3.produces(input, p3, Ok((p4, x3))), self.4.produces(input, p4, Ok((p5, x4))), self.5.produces(input, p5, Err(e))]
            (r is Err && r->Err_0 == e)
                && self.0.produces(input, from, Ok((p1, x0)))
                && self.1.produces(input, p1, Ok((p2, x1)))
                && self.2.produces(input, p2, Ok((p3, x2)))
                && self.3.produces(input, p3, Ok((p4, x3)))
                && self.4.produces(input, p4, Ok((p5, x4)))
                && self.5.produces(input, p5, Err(e))
    }

    fn parse(&self, input: I, from: usize) -> (r: Outcome<(A::Output, B::Output, C::Output, D::Output, E::Output, F::Output), A::Error>) {
        let (p1, x0) = self.0.parse(input, from)?;
        proof {
            assert(self.0.produces(input, from, Ok((p1, x0))));
        }
        let (p2, x1) = self.1.parse(input, p1)?;
        proof {
            assert(self.1.produces(input, p1, Ok((p2, x1))));
        }
        let (p3, x2) = self.2.parse(input, p2)?;
        proof {
            assert(self.2.produces(input, p2, Ok((p3, x2))));
        }
        let (p4, x3) = self.3.parse(input, p3)?;
        proof {
            assert(self.3.produces(input, p3, Ok((p4, x3))));
        }
        let (p5, x4) = self.4.parse(input, p4)?;
        proof {
            assert(self.4.produces(input, p4, Ok((p5, x4))));
        }
        let (p6, x5) = self.5.parse(input, p5)?;
        proof {
            assert(self.5.produces(input, p5, Ok((p6, x5))));
        }
        Ok((p6, (x0, x1, x2, x3, x4, x5)))
    }
}

/// Runs the parsers in order, each where the one before stopped, and gives all outputs.
impl<I: Input, A: Parser<I>, B: Parser<I, Error = A::Error>, C: Parser<I, Error = A::Error>, D: Parser<I, Error = A::Error>, E: Parser<I, Error = A::Error>, F: Parser<I, Error = A::Error>, G: Parser<I, Error = A::Error>> Parser<I> for (A, B, C, D, E, F, G) {
    type Output = (A::Output, B::Output, C::Output, D::Output, E::Output, F::Output, G::Output);

    type Error = A::Error;

    open spec fn wf(&self) -> bool {
        self.0.wf() && self.1.wf() && self.2.wf() && self.3.wf() && self.4.wf() && self.5.wf() && self.6.wf()
    }

    open spec fn produces(&self, input: I, from: usize, r: Outcome<(A::Output, B::Output, C::Output, D::Output, E::Output, F::Output, G::Output), A::Error>) -> bool {
        ||| exists|p1: usize, x0: A::Output, p2: usize, x1: B::Output, p3: usize, x2: C::Output, p4: usize, x3: D::Output, p5: usize, x4: E::Output, p6: usize, x5: F::Output, p7: usize, x6: G::Output|
            #![trigger self.0.produces(input, from, Ok((p1, x0))), self.1.produces(input, p1, Ok((p2, x1))), self.2.produces(input, p2, Ok((p3, x2))), self.3.produces(input, p3, Ok((p4, x3))), self.4.produces(input, p4, Ok((p5, x4))), self.5.produces(input, p5, Ok((p6, x5))), self.6.produces(input, p6, Ok((p7, x6)))]
            r == Ok::<_, (usize, A::Error)>((p7, (x0, x1, x2, x3, x4, x5, x6)))
                && self.0.produces(input, from, Ok((p1, x0)))
                && self.1.produces(input, p1, Ok((p2, x1)))
                && self.2.produces(input, p2, Ok((p3, x2)))
                && self.3.produces(input, p3, Ok((p4, x3)))
                && self.4.produces(input, p4, Ok((p5, x4)))
                && self.5.produces(input, p5, Ok((p6, x5)))
                && self.6.produces(input, p6, Ok((p7, x6)))
        ||| exists|e: (usize, A::Error)|
            #![trigger self.0.produces(input, from, Err(e))]
            (r is Err && r->Err_0 == e)
                && self.0.produces(input, from, Err(e))
        ||| exists|p1: usize, x0: A::Output, e: (usize, A::Error)|
            #![trigger self.0.produces(input, from, Ok((p1, x0))), self.1.produces(input, p1, Err(e))]
            (r is Err && r->Err_0 == e)
                && self.0.produces(input, from, Ok((p1, x0)))
                && self.1.produces(input, p1, Err(e))
        ||| exists|p1: usize, x0: A::Output, p2: usize, x1: B::Output, e: (usize, A::Error)|
            #![trigger self.0.produces(input, from, Ok((p1, x0))), self.1.produces(input, p1, Ok((p2, x1))), self.2.produces(input, p2, Err(e))]
            (r is Err && r->Err_0 == e)
                && self.0.produces(input, from, Ok((p1, x0)))
                && self.1.produces(input, p1, Ok((p2, x1)))
                && self.2.produces(input, p2, Err(e))
        ||| exists|p1: usize, x0: A::Output, p2: usize, x1: B::Output, p3: usize, x2: C::Output, e: (usize, A::Error)|
            #![trigger self.0.produces(input, from, Ok((p1, x0))), self.1.produces(input, p1, Ok((p2, x1))), self.2.produces(input, p2, Ok((p3, x2))), self.3.produces(input, p3, Err(e))]
            (r is Err && r->Err_0 == e)
                && self.0.produces(input, from, Ok((p1, x0)))
                && self.1.produces(input, p1, Ok((p2, x1)))
                && self.2.produces(input, p2, Ok((p3, x2)))
                && self.3.produces(input, p3, Err(e))
        ||| exists|p1: usize, x0: A::Output, p2: usize, x1: B::Output, p3: usize, x2: C::Output, p4: usize, x3: D::Output, e: (usize, A::Error)|
            #![trigger self.0.produces(input, from, Ok((p1, x0))), self.1.produces(input, p1, Ok((p2, x1))), self.2.produces(input, p2, Ok((p3, x2))), self.3.produces(input, p3, Ok((p4, x3))), self.4.produces(input, p4, Err(e))]
            (r is Err && r->Err_0 == e)
                && self.0.produces(input, from, Ok((p1, x0)))
                && self.1.produces(input, p1, Ok((p2, x1)))
                && self.2.produces(input, p2, Ok((p3, x2)))
                && self.3.produces(input, p3, Ok((p4, x3)))
                && self.4.produces(input, p4, Err(e))
        ||| exists|p1: usize, x0: A::Output, p2: usize, x1: B::Output, p3: usize, x2: C::Output, p4: usize, x3: D::Output, p5: usize, x4: E::Output, e: (usize, A::Error)|
            #![trigger self.0.produces(input, from, Ok((p1, x0))), self.1.produces(input, p1, Ok((p2, x1))), self.2.produces(input, p2, Ok((p3, x2))), self.3.produces(input, p3, Ok((p4, x3))), self.4.produces(input, p4, Ok((p5, x4))), self.5.produces(input, p5, Err(e))]
            (r is Err && r->Err_0 == e)
                && self.0.produces(input, from, Ok((p1, x0)))
                && self.1.produces(input, p1, Ok((p2, x1)))
                && self.2.produces(input, p2, Ok((p3, x2)))
                && self.3.produces(input, p3, Ok((p4, x3)))
                && self.4.produces(input, p4, Ok((p5, x4)))
                && self.5.produces(input, p5, Err(e))
        ||| exists|p1: usize, x0: A::Output, p2: usize, x1: B::Output, p3: usize, x2: C::Output, p4: usize, x3: D::Output, p5: usize, x4: E::Output, p6: usize, x5: F::Output, e: (usize, A::Error)|
            #![trigger self.0.produces(input, from, Ok((p1, x0))), self.1.produces(input, p1, Ok((p2, x1))), self.2.produces(input, p2, Ok((p3, x2))), self.3.produces(input, p3, Ok((p4, x3))), self.4.produces(input, p4, Ok((p5, x4))), self.5.produces(input, p5, Ok((p6, x5))), self.6.produces(input, p6, Err(e))]
            (r is Err && r->Err_0 == e)
                && self.0.produces(input, from, Ok((p1, x0)))
                && self.1.produces(input, p1, Ok((p2, x1)))
                && self.2.produces(input, p2, Ok((p3, x2)))
                && self.3.produces(input, p3, Ok((p4, x3)))
                && self.4.produces(input, p4, Ok((p5, x4)))
                && self.5.produces(input, p5, Ok((p6, x5)))
                && self.6.produces(input, p6, Err(e))
    }

    fn parse(&self, input: I, from: usize) -> (r: Outcome<(A::Output, B::Output, C::Output, D::Output, E::Output, F::Output, G::Output), A::Error>) {
        let (p1, x0) = self.0.parse(input, from)?;
        proof {
            assert(self.0.produces(input, from, Ok((p1, x0))));
        }
        let (p2, x1) = self.1.parse(input, p1)?;
        proof {
            assert(self.1.produces(input, p1, Ok((p2, x1))));
        }
        let (p3, x2) = self.2.parse(input, p2)?;
        proof {
            assert(self.2.produces(input, p2, Ok((p3, x2))));
        }
        let (p4, x3) = self.3.parse(input, p3)?;
        proof {
            assert(self.3.produces(input, p3, Ok((p4, x3))));
        }
        let (p5, x4) = self.4.parse(input, p4)?;
        proof {
            assert(self.4.produces(input, p4, Ok((p5, x4))));
        }
        let (p6, x5) = self.5.parse(input, p5)?;
        proof {
            assert(self.5.produces(input, p5, Ok((p6, x5))));
        }
        let (p7, x6) = self.6.parse(input, p6)?;
        proof {
            assert(self.6.produces(input, p6, Ok((p7, x6))));
        }
        Ok((p7, (x0, x1, x2, x3, x4, x5, x6)))
    }
}

/// Runs the parsers in order, each where the one before stopped, and gives all outputs.
impl<I: Input, A: Parser<I>, B: Parser<I, Error = A::Error>, C: Parser<I, Error = A::Error>, D: Parser<I, Error = A::Error>, E: Parser<I, Error = A::Error>, F: Parser<I, Error = A::Error>, G: Parser<I, Error = A::Error>, H: Parser<I, Error = A::Error>> Parser<I> for (A, B, C, D, E, F, G, H) {
    type Output = (A::Output, B::Output, C::Output, D::Output, E::Output, F::Output, G::Output, H::Output);

    type Error = A::Error;

    open spec fn wf(&self) -> bool {
        self.0.wf() && self.1.wf() && self.2.wf() && self.3.wf() && self.4.wf() && self.5.wf() && self.6.wf() && self.7.wf()
    }

    open spec fn produces(&self, input: I, from: usize, r: Outcome<(A::Output, B::Output, C::Output, D::Output, E::Output, F::Output, G::Output, H::Output), A::Error>) -> bool {
        ||| exists|p1: usize, x0: A::Output, p2: usize, x1: B::Output, p3: usize, x2: C::Output, p4: usize, x3: D::Output, p5: usize, x4: E::Output, p6: usize, x5: F::Output, p7: usize, x6: G::Output, p8: usize, x7: H::Output|
            #![trigger self.0.produces(input, from, Ok((p1, x0))), self.1.produces(input, p1, Ok((p2, x1))), self.2.produces(input, p2, Ok((p3, x2))), self.3.produces(input, p3, Ok((p4, x3))), self.4.produces(input, p4, Ok((p5, x4))), self.5.produces(input, p5, Ok((p6, x5))), self.6.produces(input, p6, Ok((p7, x6))), self.7.produces(input, p7, Ok((p8, x7)))]
            r == Ok::<_, (usize, A::Error)>((p8, (x0, x1, x2, x3, x4, x5, x6, x7)))
                && self.0.produces(input, from, Ok((p1, x0)))
                && self.1.produces(input, p1, Ok((p2, x1)))
                && self.2.produces(input, p2, Ok((p3, x2)))
                && self.3.produces(input, p3, Ok((p4, x3)))
                && self.4.produces(input, p4, Ok((p5, x4)))
                && self.5.produces(input, p5, Ok((p6, x5)))
                && self.6.produces(input, p6, Ok((p7, x6)))
                && self.7.produces(input, p7, Ok((p8, x7)))
        ||| exists|e: (usize, A::Error)|
            #![trigger self.0.produces(input, from, Err(e))]
            (r is Err && r->Err_0 == e)
                && self.0.produces(input, from, Err(e))
        ||| exists|p1: usize, x0: A::Output, e: (usize, A::Error)|
            #![trigger self.0.produces(input, from, Ok((p1, x0))), self.1.produces(input, p1, Err(e))]
            (r is Err && r->Err_0 == e)
                && self.0.produces(input, from, Ok((p1, x0)))
                && self.1.produces(input, p1, Err(e))
        ||| exists|p1: usize, x0: A::Output, p2: usize, x1: B::Output, e: (usize, A::Error)|
            #![trigger self.0.produces(input, from, Ok((p1, x0))), self.1.produces(input, p1, Ok((p2, x1))), self.2.produces(input, p2, Err(e))]
            (r is Err && r->Err_0 == e)
                && self.0.produces(input, from, Ok((p1, x0)))
                && self.1.produces(input, p1, Ok((p2, x1)))
                && self.2.produces(input, p2, Err(e))
        ||| exists|p1: usize, x0: A::Output, p2: usize, x1: B::Output, p3: usize, x2: C::Output, e: (usize, A::Error)|
            #![trigger self.0.produces(input, from, Ok((p1, x0))), self.1.produces(input, p1, Ok((p2, x1))), self.2.produces(input, p2, Ok((p3, x2))), self.3.produces(input, p3, Err(e))]
            (r is Err && r->Err_0 == e)
                && self.0.produces(input, from, Ok((p1, x0)))
                && self.1.produces(input, p1, Ok((p2, x1)))
                && self.2.produces(input, p2, Ok((p3, x2)))
                && self.3.produces(input, p3, Err(e))
        ||| exists|p1: usize, x0: A::Output, p2: usize, x1: B::Output, p3: usize, x2: C::Output, p4: usize, x3: D::Output, e: (usize, A::Error)|
            #![trigger self.0.produces(input, from, Ok((p1, x0))), self.1.produces(input, p1, Ok((p2, x1))), self.2.produces(input, p2, Ok((p3, x2))), self.3.produces(input, p3, Ok((p4, x3))), self.4.produces(input, p4, Err(e))]
            (r is Err && r->Err_0 == e)
                && self.0.produces(input, from, Ok((p1, x0)))
                && self.1.produces(input, p1, Ok((p2, x1)))
                && self.2.produces(input, p2, Ok((p3, x2)))
                && self.3.produces(input, p3, Ok((p4, x3)))
                && self.4.produces(input, p4, Err(e))
        ||| exists|p1: usize, x0: A::Output, p2: usize, x1: B::Output, p3: usize, x2: C::Output, p4: usize, x3: D::Output, p5: usize, x4: E::Output, e: (usize, A::Error)|
            #![trigger self.0.produces(input, from, Ok((p1, x0))), self.1.produces(input, p1, Ok((p2, x1))), self.2.produces(input, p2, Ok((p3, x2))), self.3.produces(input, p3, Ok((p4, x3))), self.4.produces(input, p4, Ok((p5, x4))), self.5.produces(input, p5, Err(e))]
            (r is Err && r->Err_0 == e)
                && self.0.produces(input, from, Ok((p1, x0)))
                && self.1.produces(input, p1, Ok((p2, x1)))
                && self.2.produces(input, p2, Ok((p3, x2)))
                && self.3.produces(input, p3, Ok((p4, x3)))
                && self.4.produces(input, p4, Ok((p5, x4)))
                && self.5.produces(input, p5, Err(e))
        ||| exists|p1: usize, x0: A::Output, p2: usize, x1: B::Output, p3: usize, x2: C::Output, p4: usize, x3: D::Output, p5: usize, x4: E::Output, p6: usize, x5: F::Output, e: (usize, A::Error)|
            #![trigger self.0.produces(input, from, Ok((p1, x0))), self.1.produces(input, p1, Ok((p2, x1))), self.2.produces(input, p2, Ok((p3, x2))), self.3.produces(input, p3, Ok((p4, x3))), self.4.produces(input, p4, Ok((p5, x4))), self.5.produces(input, p5, Ok((p6, x5))), self.6.produces(input, p6, Err(e))]
            (r is Err && r->Err_0 == e)
                && self.0.produces(input, from, Ok((p1, x0)))
                && self.1.produces(input, p1, Ok((p2, x1)))
                && self.2.produces(input, p2, Ok((p3, x2)))
                && self.3.produces(input, p3, Ok((p4, x3)))
                && self.4.produces(input, p4, Ok((p5, x4)))
                && self.5.produces(input, p5, Ok((p6, x5)))
                && self.6.produces(input, p6, Err(e))
        ||| exists|p1: usize, x0: A::Output, p2: usize, x1: B::Output, p3: usize, x2: C::Output, p4: usize, x3: D::Output, p5: usize, x4: E::Output, p6: usize, x5: F::Output, p7: usize, x6: G::Output, e: (usize, A::Error)|
            #![trigger self.0.produces(input, from, Ok((p1, x0))), self.1.produces(input, p1, Ok((p2, x1))), self.2.produces(input, p2, Ok((p3, x2))), self.3.produces(input, p3, Ok((p4, x3))), self.4.produces(input, p4, Ok((p5, x4))), self.5.produces(input, p5, Ok((p6, x5))), self.6.produces(input, p6, Ok((p7, x6))), self.7.produces(input, p7, Err(e))]
            (r is Err && r->Err_0 == e)
                && self.0.produces(input, from, Ok((p1, x0)))
                && self.1.produces(input, p1, Ok((p2, x1)))
                && self.2.produces(input, p2, Ok((p3, x2)))
                && self.3.produces(input, p3, Ok((p4, x3)))
                && self.4.produces(input, p4, Ok((p5, x4)))
                && self.5.produces(input, p5, Ok((p6, x5)))
                && self.6.produces(input, p6, Ok((p7, x6)))
                && self.7.produces(input, p7, Err(e))
    }

    fn parse(&self, input: I, from: usize) -> (r: Outcome<(A::Output, B::Output, C::Output, D::Output, E::Output, F::Output, G::Output, H::Output), A::Error>) {
        let (p1, x0) = self.0.parse(input, from)?;
        proof {
            assert(self.0.produces(input, from, Ok((p1, x0))));
        }
        let (p2, x1) = self.1.parse(input, p1)?;
        proof {
            assert(self.1.produces(input, p1, Ok((p2, x1))));
        }
        let (p3, x2) = self.2.parse(input, p2)?;
        proof {
            assert(self.2.produces(input, p2, Ok((p3, x2))));
        }
        let (p4, x3) = self.3.parse(input, p3)?;
        proof {
            assert(self.3.produces(input, p3, Ok((p4, x3))));
        }
        let (p5, x4) = self.4.parse(input, p4)?;
        proof {
            assert(self.4.produces(input, p4, Ok((p5, x4))));
        }
        let (p6, x5) = self.5.parse(input, p5)?;
        proof {
            assert(self.5.produces(input, p5, Ok((p6, x5))));
        }
        let (p7, x6) = self.6.parse(input, p6)?;
        proof {
            assert(self.6.produces(input, p6, Ok((p7, x6))));
        }
        let (p8, x7) = self.7.parse(input, p7)?;
        proof {
            assert(self.7.produces(input, p7, Ok((p8, x7))));
        }
        Ok((p8, (x0, x1, x2, x3, x4, x5, x6, x7)))
    }
}

/// Runs the parsers in order, each where the one before stopped, and gives all outputs.
impl<I: Input, A: Parser<I>, B: Parser<I, Error = A::Error>, C: Parser<I, Error = A::Error>, D: Parser<I, Error = A::Error>, E: Parser<I, Error = A::Error>, F: Parser<I, Error = A::Error>, G: Parser<I, Error = A::Error>, H: Parser<I, Error = A::Error>, J: Parser<I, Error = A::Error>> Parser<I> for (A, B, C, D, E, F, G, H, J) {
    type Output = (A::Output, B::Output, C::Output, D::Output, E::Output, F::Output, G::Output, H::Output, J::Output);

    type Error = A::Error;

    open spec fn wf(&self) -> bool {
        self.0.wf() && self.1.wf() && self.2.wf() && self.3.wf() && self.4.wf() && self.5.wf() && self.6.wf() && self.7.wf() && self.8.wf()
    }

    open spec fn produces(&self, input: I, from: usize, r: Outcome<(A::Output, B::Output, C::Output, D::Output, E::Output, F::Output, G::Output, H::Output, J::Output), A::Error>) -> bool {
        ||| exists|p1: usize, x0: A::Output, p2: usize, x1: B::Output, p3: usize, x2: C::Output, p4: usize, x3: D::Output, p5: usize, x4: E::Output, p6: usize, x5: F::Output, p7: usize, x6: G::Output, p8: usize, x7: H::Output, p9: usize, x8: J::Output|
            #![trigger self.0.produces(input, from, Ok((p1, x0))), self.1.produces(input, p1, Ok((p2, x1))), self.2.produces(input, p2, Ok((p3, x2))), self.3.produces(input, p3, Ok((p4, x3))), self.4.produces(input, p4, Ok((p5, x4))), self.5.produces(input, p5, Ok((p6, x5))), self.6.produces(input, p6, Ok((p7, x6))), self.7.produces(input, p7, Ok((p8, x7))), self.8.produces(input, p8, Ok((p9, x8)))]
            r == Ok::<_, (usize, A::Error)>((p9, (x0, x1, x2, x3, x4, x5, x6, x7, x8)))
                && self.0.produces(input, from, Ok((p1, x0)))
                && self.1.produces(input, p1, Ok((p2, x1)))
                && self.2.produces(input, p2, Ok((p3, x2)))
                && self.3.produces(input, p3, Ok((p4, x3)))
                && self.4.produces(input, p4, Ok((p5, x4)))
                && self.5.produces(input, p5, Ok((p6, x5)))
                && self.6.produces(input, p6, Ok((p7, x6)))
                && self.7.produces(input, p7, Ok((p8, x7)))
                && self.8.produces(input, p8, Ok((p9, x8)))
        ||| exists|e: (usize, A::Error)|
            #![trigger self.0.produces(input, from, Err(e))]
            (r is Err && r->Err_0 == e)
                && self.0.produces(input, from, Err(e))
        ||| exists|p1: usize, x0: A::Output, e: (usize, A::Error)|
            #![trigger self.0.produces(input, from, Ok((p1, x0))), self.1.produces(input, p1, Err(e))]
            (r is Err && r->Err_0 == e)
                && self.0.produces(input, from, Ok((p1, x0)))
                && self.1.produces(input, p1, Err(e))
        ||| exists|p1: usize, x0: A::Output, p2: usize, x1: B::Output, e: (usize, A::Error)|
            #![trigger self.0.produces(input, from, Ok((p1, x0))), self.1.produces(input, p1, Ok((p2, x1))), self.2.produces(input, p2, Err(e))]
            (r is Err && r->Err_0 == e)
                && self.0.produces(input, from, Ok((p1, x0)))
                && self.1.produces(input, p1, Ok((p2, x1)))
                && self.2.produces(input, p2, Err(e))
        ||| exists|p1: usize, x0: A::Output, p2: usize, x1: B::Output, p3: usize, x2: C::Output, e: (usize, A::Error)|
            #![trigger self.0.produces(input, from, Ok((p1, x0))), self.1.produces(input, p1, Ok((p2, x1))), self.2.produces(input, p2, Ok((p3, x2))), self.3.produces(input, p3, Err(e))]
            (r is Err && r->Err_0 == e)
                && self.0.produces(input, from, Ok((p1, x0)))
                && self.1.produces(input, p1, Ok((p2, x1)))
                && self.2.produces(input, p2, Ok((p3, x2)))
                && self.3.produces(input, p3, Err(e))
        ||| exists|p1: usize, x0: A::Output, p2: usize, x1: B::Output, p3: usize, x2: C::Output, p4: usize, x3: D::Output, e: (usize, A::Error)|
            #![trigger self.0.produces(input, from, Ok((p1, x0))), self.1.produces(input, p1, Ok((p2, x1))), self.2.produces(input, p2, Ok((p3, x2))), self.3.produces(input, p3, Ok((p4, x3))), self.4.produces(input, p4, Err(e))]
            (r is Err && r->Err_0 == e)
                && self.0.produces(input, from, Ok((p1, x0)))
                && self.1.produces(input, p1, Ok((p2, x1)))
                && self.2.produces(input, p2, Ok((p3, x2)))
                && self.3.produces(input, p3, Ok((p4, x3)))
                && self.4.produces(input, p4, Err(e))
        ||| exists|p1: usize, x0: A::Output, p2: usize, x1: B::Output, p3: usize, x2: C::Output, p4: usize, x3: D::Output, p5: usize, x4: E::Output, e: (usize, A::Error)|
            #![trigger self.0.produces(input, from, Ok((p1, x0))), self.1.produces(input, p1, Ok((p2, x1))), self.2.produces(input, p2, Ok((p3, x2))), self.3.produces(input, p3, Ok((p4, x3))), self.4.produces(input, p4, Ok((p5, x4))), self.5.produces(input, p5, Err(e))]
            (r is Err && r->Err_0 == e)
                && self.0.produces(input, from, Ok((p1, x0)))
                && self.1.produces(input, p1, Ok((p2, x1)))
                && self.2.produces(input, p2, Ok((p3, x2)))
                && self.3.produces(input, p3, Ok((p4, x3)))
                && self.4.produces(input, p4, Ok((p5, x4)))
                && self.5.produces(input, p5, Err(e))
        ||| exists|p1: usize, x0: A::Output, p2: usize, x1: B::Output, p3: usize, x2: C::Output, p4: usize, x3: D::Output, p5: usize, x4: E::Output, p6: usize, x5: F::Output, e: (usize, A::Error)|
            #![trigger self.0.produces(input, from, Ok((p1, x0))), self.1.produces(input, p1, Ok((p2, x1))), self.2.produces(input, p2, Ok((p3, x2))), self.3.produces(input, p3, Ok((p4, x3))), self.4.produces(input, p4, Ok((p5, x4))), self.5.produces(input, p5, Ok((p6, x5))), self.6.produces(input, p6, Err(e))]
            (r is Err && r->Err_0 == e)
                && self.0.produces(input, from, Ok((p1, x0)))
                && self.1.produces(input, p1, Ok((p2, x1)))
                && self.2.produces(input, p2, Ok((p3, x2)))
                && self.3.produces(input, p3, Ok((p4, x3)))
                && self.4.produces(input, p4, Ok((p5, x4)))
                && self.5.produces(input, p5, Ok((p6, x5)))
                && self.6.produces(input, p6, Err(e))
        ||| exists|p1: usize, x0: A::Output, p2: usize, x1: B::Output, p3: usize, x2: C::Output, p4: usize, x3: D::Output, p5: usize, x4: E::Output, p6: usize, x5: F::Output, p7: usize, x6: G::Output, e: (usize, A::Error)|
            #![trigger self.0.produces(input, from, Ok((p1, x0))), self.1.produces(input, p1, Ok((p2, x1))), self.2.produces(input, p2, Ok((p3, x2))), self.3.produces(input, p3, Ok((p4, x3))), self.4.produces(input, p4, Ok((p5, x4))), self.5.produces(input, p5, Ok((p6, x5))), self.6.produces(input, p6, Ok((p7, x6))), self.7.produces(input, p7, Err(e))]
            (r is Err && r->Err_0 == e)
                && self.0.produces(input, from, Ok((p1, x0)))
                && self.1.produces(input, p1, Ok((p2, x1)))
                && self.2.produces(input, p2, Ok((p3, x2)))
                && self.3.produces(input, p3, Ok((p4, x3)))
                && self.4.produces(input, p4, Ok((p5, x4)))
                && self.5.produces(input, p5, Ok((p6, x5)))
                && self.6.produces(input, p6, Ok((p7, x6)))
                && self.7.produces(input, p7, Err(e))
        ||| exists|p1: usize, x0: A::Output, p2: usize, x1: B::Output, p3: usize, x2: C::Output, p4: usize, x3: D::Output, p5: usize, x4: E::Output, p6: usize, x5: F::Output, p7: usize, x6: G::Output, p8: usize, x7: H::Output, e: (usize, A::Error)|
            #![trigger self.0.produces(input, from, Ok((p1, x0))), self.1.produces(input, p1, Ok((p2, x1))), self.2.produces(input, p2, Ok((p3, x2))), self.3.produces(input, p3, Ok((p4, x3))), self.4.produces(input, p4, Ok((p5, x4))), self.5.produces(input, p5, Ok((p6, x5))), self.6.produces(input, p6, Ok((p7, x6))), self.7.produces(input, p7, Ok((p8, x7))), self.8.produces(input, p8, Err(e))]
            (r is Err && r->Err_0 == e)
                && self.0.produces(input, from, Ok((p1, x0)))
                && self.1.produces(input, p1, Ok((p2, x1)))
                && self.2.produces(input, p2, Ok((p3, x2)))
                && self.3.produces(input, p3, Ok((p4, x3)))
                && self.4.produces(input, p4, Ok((p5, x4)))
                && self.5.produces(input, p5, Ok((p6, x5)))
                && self.6.produces(input, p6, Ok((p7, x6)))
                && self.7.produces(input, p7, Ok((p8, x7)))
                && self.8.produces(input, p8, Err(e))
    }

    fn parse(&self, input: I, from: usize) -> (r: Outcome<(A::Output, B::Output, C::Output, D::Output, E::Output, F::Output, G::Output, H::Output, J::Output), A::Error>) {
        let (p1, x0) = self.0.parse(input, from)?;
        proof {
            assert(self.0.produces(input, from, Ok((p1, x0))));
        }
        let (p2, x1) = self.1.parse(input, p1)?;
        proof {
            assert(self.1.produces(input, p1, Ok((p2, x1))));
        }
        let (p3, x2) = self.2.parse(input, p2)?;
        proof {
            assert(self.2.produces(input, p2, Ok((p3, x2))));
        }
        let (p4, x3) = self.3.parse(input, p3)?;
        proof {
            assert(self.3.produces(input, p3, Ok((p4, x3))));
        }
        let (p5, x4) = self.4.parse(input, p4)?;
        proof {
            assert(self.4.produces(input, p4, Ok((p5, x4))));
        }
        let (p6, x5) = self.5.parse(input, p5)?;
        proof {
            assert(self.5.produces(input, p5, Ok((p6, x5))));
        }
        let (p7, x6) = self.6.parse(input, p6)?;
        proof {
            assert(self.6.produces(input, p6, Ok((p7, x6))));
        }
        let (p8, x7) = self.7.parse(input, p7)?;
        proof {
            assert(self.7.produces(input, p7, Ok((p8, x7))));
        }
        let (p9, x8) = self.8.parse(input, p8)?;
        proof {
            assert(self.8.produces(input, p8, Ok((p9, x8))));
        }
        Ok((p9, (x0, x1, x2, x3, x4, x5, x6, x7, x8)))
    }
}

/// Runs the parsers in order, each where the one before stopped, and gives all outputs.
impl<I: Input, A: Parser<I>, B: Parser<I, Error = A::Error>, C: Parser<I, Error = A::Error>, D: Parser<I, Error = A::Error>, E: Parser<I, Error = A::Error>, F: Parser<I, Error = A::Error>, G: Parser<I, Error = A::Error>, H: Parser<I, Error = A::Error>, J: Parser<I, Error = A::Error>, K: Parser<I, Error = A::Error>> Parser<I> for (A, B, C, D, E, F, G, H, J, K) {
    type Output = (A::Output, B::Output, C::Output, D::Output, E::Output, F::Output, G::Output, H::Output, J::Output, K::Output);

    type Error = A::Error;

    open spec fn wf(&self) -> bool {
        self.0.wf() && self.1.wf() && self.2.wf() && self.3.wf() && self.4.wf() && self.5.wf() && self.6.wf() && self.7.wf() && self.8.wf() && self.9.wf()
    }

    open spec fn produces(&self, input: I, from: usize, r: Outcome<(A::Output, B::Output, C::Output, D::Output, E::Output, F::Output, G::Output, H::Output, J::Output, K::Output), A::Error>) -> bool {
        ||| exists|p1: usize, x0: A::Output, p2: usize, x1: B::Output, p3: usize, x2: C::Output, p4: usize, x3: D::Output, p5: usize, x4: E::Output, p6: usize, x5: F::Output, p7: usize, x6: G::Output, p8: usize, x7: H::Output, p9: usize, x8: J::Output, p10: usize, x9: K::Output|
            #![trigger self.0.produces(input, from, Ok((p1, x0))), self.1.produces(input, p1, Ok((p2, x1))), self.2.produces(input, p2, Ok((p3, x2))), self.3.produces(input, p3, Ok((p4, x3))), self.4.produces(input, p4, Ok((p5, x4))), self.5.produces(input, p5, Ok((p6, x5))), self.6.produces(input, p6, Ok((p7, x6))), self.7.produces(input, p7, Ok((p8, x7))), self.8.produces(input, p8, Ok((p9, x8))), self.9.produces(input, p9, Ok((p10, x9)))]
            r == Ok::<_, (usize, A::Error)>((p10, (x0, x1, x2, x3, x4, x5, x6, x7, x8, x9)))
                && self.0.produces(input, from, Ok((p1, x0)))
                && self.1.produces(input, p1, Ok((p2, x1)))
                && self.2.produces(input, p2, Ok((p3, x2)))
                && self.3.produces(input, p3, Ok((p4, x3)))
                && self.4.produces(input, p4, Ok((p5, x4)))
                && self.5.produces(input, p5, Ok((p6, x5)))
                && self.6.produces(input, p6, Ok((p7, x6)))
                && self.7.produces(input, p7, Ok((p8, x7)))
                && self.8.produces(input, p8, Ok((p9, x8)))
                && self.9.produces(input, p9, Ok((p10, x9)))
        ||| exists|e: (usize, A::Error)|
            #![trigger self.0.produces(input, from, Err(e))]
            (r is Err && r->Err_0 == e)
                && self.0.produces(input, from, Err(e))
        ||| exists|p1: usize, x0: A::Output, e: (usize, A::Error)|
            #![trigger self.0.produces(input, from, Ok((p1, x0))), self.1.produces(input, p1, Err(e))]
            (r is Err && r->Err_0 == e)
                && self.0.produces(input, from, Ok((p1, x0)))
                && self.1.produces(input, p1, Err(e))
        ||| exists|p1: usize, x0: A::Output, p2: usize, x1: B::Output, e: (usize, A::Error)|
            #![trigger self.0.produces(input, from, Ok((p1, x0))), self.1.produces(input, p1, Ok((p2, x1))), self.2.produces(input, p2, Err(e))]
            (r is Err && r->Err_0 == e)
                && self.0.produces(input, from, Ok((p1, x0)))
                && self.1.produces(input, p1, Ok((p2, x1)))
                && self.2.produces(input, p2, Err(e))
        ||| exists|p1: usize, x0: A::Output, p2: usize, x1: B::Output, p3: usize, x2: C::Output, e: (usize, A::Error)|
            #![trigger self.0.produces(input, from, Ok((p1, x0))), self.1.produces(input, p1, Ok((p2, x1))), self.2.produces(input, p2, Ok((p3, x2))), self.3.produces(input, p3, Err(e))]
            (r is Err && r->Err_0 == e)
                && self.0.produces(input, from, Ok((p1, x0)))
                && self.1.produces(input, p1, Ok((p2, x1)))
                && self.2.produces(input, p2, Ok((p3, x2)))
                && self.3.produces(input, p3, Err(e))
        ||| exists|p1: usize, x0: A::Output, p2: usize, x1: B::Output, p3: usize, x2: C::Output, p4: usize, x3: D::Output, e: (usize, A::Error)|
            #![trigger self.0.produces(input, from, Ok((p1, x0))), self.1.produces(input, p1, Ok((p2, x1))), self.2.produces(input, p2, Ok((p3, x2))), self.3.produces(input, p3, Ok((p4, x3))), self.4.produces(input, p4, Err(e))]
            (r is Err && r->Err_0 == e)
                && self.0.produces(input, from, Ok((p1, x0)))
                && self.1.produces(input, p1, Ok((p2, x1)))
                && self.2.produces(input, p2, Ok((p3, x2)))
                && self.3.produces(input, p3, Ok((p4, x3)))
                && self.4.produces(input, p4, Err(e))
        ||| exists|p1: usize, x0: A::Output, p2: usize, x1: B::Output, p3: usize, x2: C::Output, p4: usize, x3: D::Output, p5: usize, x4: E::Output, e: (usize, A::Error)|
            #![trigger self.0.produces(input, from, Ok((p1, x0))), self.1.produces(input, p1, Ok((p2, x1))), self.2.produces(input, p2, Ok((p3, x2))), self.3.produces(input, p3, Ok((p4, x3))), self.4.produces(input, p4, Ok((p5, x4))), self.5.produces(input, p5, Err(e))]
            (r is Err && r->Err_0 == e)
                && self.0.produces(input, from, Ok((p1, x0)))
                && self.1.produces(input, p1, Ok((p2, x1)))
                && self.2.produces(input, p2, Ok((p3, x2)))
                && self.3.produces(input, p3, Ok((p4, x3)))
                && self.4.produces(input, p4, Ok((p5, x4)))
                && self.5.produces(input, p5, Err(e))
        ||| exists|p1: usize, x0: A::Output, p2: usize, x1: B::Output, p3: usize, x2: C::Output, p4: usize, x3: D::Output, p5: usize, x4: E::Output, p6: usize, x5: F::Output, e: (usize, A::Error)|
            #![trigger self.0.produces(input, from, Ok((p1, x0))), self.1.produces(input, p1, Ok((p2, x1))), self.2.produces(input, p2, Ok((p3, x2))), self.3.produces(input, p3, Ok((p4, x3))), self.4.produces(input, p4, Ok((p5, x4))), self.5.produces(input, p5, Ok((p6, x5))), self.6.produces(input, p6, Err(e))]
            (r is Err && r->Err_0 == e)
                && self.0.produces(input, from, Ok((p1, x0)))
                && self.1.produces(input, p1, Ok((p2, x1)))
                && self.2.produces(input, p2, Ok((p3, x2)))
                && self.3.produces(input, p3, Ok((p4, x3)))
                && self.4.produces(input, p4, Ok((p5, x4)))
                && self.5.produces(input, p5, Ok((p6, x5)))
                && self.6.produces(input, p6, Err(e))
        ||| exists|p1: usize, x0: A::Output, p2: usize, x1: B::Output, p3: usize, x2: C::Output, p4: usize, x3: D::Output, p5: usize, x4: E::Output, p6: usize, x5: F::Output, p7: usize, x6: G::Output, e: (usize, A::Error)|
            #![trigger self.0.produces(input, from, Ok((p1, x0))), self.1.produces(input, p1, Ok((p2, x1))), self.2.produces(input, p2, Ok((p3, x2))), self.3.produces(input, p3, Ok((p4, x3))), self.4.produces(input, p4, Ok((p5, x4))), self.5.produces(input, p5, Ok((p6, x5))), self.6.produces(input, p6, Ok((p7, x6))), self.7.produces(input, p7, Err(e))]
            (r is Err && r->Err_0 == e)
                && self.0.produces(input, from, Ok((p1, x0)))
                && self.1.produces(input, p1, Ok((p2, x1)))
                && self.2.produces(input, p2, Ok((p3, x2)))
                && self.3.produces(input, p3, Ok((p4, x3)))
                && self.4.produces(input, p4, Ok((p5, x4)))
                && self.5.produces(input, p5, Ok((p6, x5)))
                && self.6.produces(input, p6, Ok((p7, x6)))
                && self.7.produces(input, p7, Err(e))
        ||| exists|p1: usize, x0: A::Output, p2: usize, x1: B::Output, p3: usize, x2: C::Output, p4: usize, x3: D::Output, p5: usize, x4: E::Output, p6: usize, x5: F::Output, p7: usize, x6: G::Output, p8: usize, x7: H::Output, e: (usize, A::Error)|
            #![trigger self.0.produces(input, from, Ok((p1, x0))), self.1.produces(input, p1, Ok((p2, x1))), self.2.produces(input, p2, Ok((p3, x2))), self.3.produces(input, p3, Ok((p4, x3))), self.4.produces(input, p4, Ok((p5, x4))), self.5.produces(input, p5, Ok((p6, x5))), self.6.produces(input, p6, Ok((p7, x6))), self.7.produces(input, p7, Ok((p8, x7))), self.8.produces(input, p8, Err(e))]
            (r is Err && r->Err_0 == e)
                && self.0.produces(input, from, Ok((p1, x0)))
                && self.1.produces(input, p1, Ok((p2, x1)))
                && self.2.produces(input, p2, Ok((p3, x2)))
                && self.3.produces(input, p3, Ok((p4, x3)))
                && self.4.produces(input, p4, Ok((p5, x4)))
                && self.5.produces(input, p5, Ok((p6, x5)))
                && self.6.produces(input, p6, Ok((p7, x6)))
                && self.7.produces(input, p7, Ok((p8, x7)))
                && self.8.produces(input, p8, Err(e))
        ||| exists|p1: usize, x0: A::Output, p2: usize, x1: B::Output, p3: usize, x2: C::Output, p4: usize, x3: D::Output, p5: usize, x4: E::Output, p6: usize, x5: F::Output, p7: usize, x6: G::Output, p8: usize, x7: H::Output, p9: usize, x8: J::Output, e: (usize, A::Error)|
            #![trigger self.0.produces(input, from, Ok((p1, x0))), self.1.produces(input, p1, Ok((p2, x1))), self.2.produces(input, p2, Ok((p3, x2))), self.3.produces(input, p3, Ok((p4, x3))), self.4.produces(input, p4, Ok((p5, x4))), self.5.produces(input, p5, Ok((p6, x5))), self.6.produces(input, p6, Ok((p7, x6))), self.7.produces(input, p7, Ok((p8, x7))), self.8.produces(input, p8, Ok((p9, x8))), self.9.produces(input, p9, Err(e))]
            (r is Err && r->Err_0 == e)
                && self.0.produces(input, from, Ok((p1, x0)))
                && self.1.produces(input, p1, Ok((p2, x1)))
                && self.2.produces(input, p2, Ok((p3, x2)))
                && self.3.produces(input, p3, Ok((p4, x3)))
                && self.4.produces(input, p4, Ok((p5, x4)))
                && self.5.produces(input, p5, Ok((p6, x5)))
                && self.6.produces(input, p6, Ok((p7, x6)))
                && self.7.produces(input, p7, Ok((p8, x7)))
                && self.8.produces(input, p8, Ok((p9, x8)))
                && self.9.produces(input, p9, Err(e))
    }

    fn parse(&self, input: I, from: usize) -> (r: Outcome<(A::Output, B::Output, C::Output, D::Output, E::Output, F::Output, G::Output, H::Output, J::Output, K::Output), A::Error>) {
        let (p1, x0) = self.0.parse(input, from)?;
        proof {
            assert(self.0.produces(input, from, Ok((p1, x0))));
        }
        let (p2, x1) = self.1.parse(input, p1)?;
        proof {
            assert(self.1.produces(input, p1, Ok((p2, x1))));
        }
        let (p3, x2) = self.2.parse(input, p2)?;
        proof {
            assert(self.2.produces(input, p2, Ok((p3, x2))));
        }
        let (p4, x3) = self.3.parse(input, p3)?;
        proof {
            assert(self.3.produces(input, p3, Ok((p4, x3))));
        }
        let (p5, x4) = self.4.parse(input, p4)?;
        proof {
            assert(self.4.produces(input, p4, Ok((p5, x4))));
        }
        let (p6, x5) = self.5.parse(input, p5)?;
        proof {
            assert(self.5.produces(input, p5, Ok((p6, x5))));
        }
        let (p7, x6) = self.6.parse(input, p6)?;
        proof {
            assert(self.6.produces(input, p6, Ok((p7, x6))));
        }
        let (p8, x7) = self.7.parse(input, p7)?;
        proof {
            assert(self.7.produces(input, p7, Ok((p8, x7))));
        }
        let (p9, x8) = self.8.parse(input, p8)?;
        proof {
            assert(self.8.produces(input, p8, Ok((p9, x8))));
        }
        let (p10, x9) = self.9.parse(input, p9)?;
        proof {
            assert(self.9.produces(input, p9, Ok((p10, x9))));
        }
        Ok((p10, (x0, x1, x2, x3, x4, x5, x6, x7, x8, x9)))
    }
}

/// Runs the parsers in order, each where the one before stopped, and gives all outputs.
impl<I: Input, A: Parser<I>, B: Parser<I, Error = A::Error>, C: Parser<I, Error = A::Error>, D: Parser<I, Error = A::Error>, E: Parser<I, Error = A::Error>, F: Parser<I, Error = A::Error>, G: Parser<I, Error = A::Error>, H: Parser<I, Error = A::Error>, J: Parser<I, Error = A::Error>, K: Parser<I, Error = A::Error>, L: Parser<I, Error = A::Error>> Parser<I> for (A, B, C, D, E, F, G, H, J, K, L) {
    type Output = (A::Output, B::Output, C::Output, D::Output, E::Output, F::Output, G::Output, H::Output, J::Output, K::Output, L::Output);

    type Error = A::Error;

    open spec fn wf(&self) -> bool {
        self.0.wf() && self.1.wf() && self.2.wf() && self.3.wf() && self.4.wf() && self.5.wf() && self.6.wf() && self.7.wf() && self.8.wf() && self.9.wf() && self.10.wf()
    }

    open spec fn produces(&self, input: I, from: usize, r: Outcome<(A::Output, B::Output, C::Output, D::Output, E::Output, F::Output, G::Output, H::Output, J::Output, K::Output, L::Output), A::Error>) -> bool {
        ||| exists|p1: usize, x0: A::Output, p2: usize, x1: B::Output, p3: usize, x2: C::Output, p4: usize, x3: D::Output, p5: usize, x4: E::Output, p6: usize, x5: F::Output, p7: usize, x6: G::Output, p8: usize, x7: H::Output, p9: usize, x8: J::Output, p10: usize, x9: K::Output, p11: usize, x10: L::Output|
            #![trigger self.0.produces(input, from, Ok((p1, x0))), self.1.produces(input, p1, Ok((p2, x1))), self.2.produces(input, p2, Ok((p3, x2))), self.3.produces(input, p3, Ok((p4, x3))), self.4.produces(input, p4, Ok((p5, x4))), self.5.produces(input, p5, Ok((p6, x5))), self.6.produces(input, p6, Ok((p7, x6))), self.7.produces(input, p7, Ok((p8, x7))), self.8.produces(input, p8, Ok((p9, x8))), self.9.produces(input, p9, Ok((p10, x9))), self.10.produces(input, p10, Ok((p11, x10)))]
            r == Ok::<_, (usize, A::Error)>((p11, (x0, x1, x2, x3, x4, x5, x6, x7, x8, x9, x10)))
                && self.0.produces(input, from, Ok((p1, x0)))
                && self.1.produces(input, p1, Ok((p2, x1)))
                && self.2.produces(input, p2, Ok((p3, x2)))
                && self.3.produces(input, p3, Ok((p4, x3)))
                && self.4.produces(input, p4, Ok((p5, x4)))
                && self.5.produces(input, p5, Ok((p6, x5)))
                && self.6.produces(input, p6, Ok((p7, x6)))
                && self.7.produces(input, p7, Ok((p8, x7)))
                && self.8.produces(input, p8, Ok((p9, x8)))
                && self.9.produces(input, p9, Ok((p10, x9)))
                && self.10.produces(input, p10, Ok((p11, x10)))
        ||| exists|e: (usize, A::Error)|
            #![trigger self.0.produces(input, from, Err(e))]
            (r is Err && r->Err_0 == e)
                && self.0.produces(input, from, Err(e))
        ||| exists|p1: usize, x0: A::Output, e: (usize, A::Error)|
            #![trigger self.0.produces(input, from, Ok((p1, x0))), self.1.produces(input, p1, Err(e))]
            (r is Err && r->Err_0 == e)
                && self.0.produces(input, from, Ok((p1, x0)))
                && self.1.produces(input, p1, Err(e))
        ||| exists|p1: usize, x0: A::Output, p2: usize, x1: B::Output, e: (usize, A::Error)|
            #![trigger self.0.produces(input, from, Ok((p1, x0))), self.1.produces(input, p1, Ok((p2, x1))), self.2.produces(input, p2, Err(e))]
            (r is Err && r->Err_0 == e)
                && self.0.produces(input, from, Ok((p1, x0)))
                && self.1.produces(input, p1, Ok((p2, x1)))
                && self.2.produces(input, p2, Err(e))
        ||| exists|p1: usize, x0: A::Output, p2: usize, x1: B::Output, p3: usize, x2: C::Output, e: (usize, A::Error)|
            #![trigger self.0.produces(input, from, Ok((p1, x0))), self.1.produces(input, p1, Ok((p2, x1))), self.2.produces(input, p2, Ok((p3, x2))), self.3.produces(input, p3, Err(e))]
            (r is Err && r->Err_0 == e)
                && self.0.produces(input, from, Ok((p1, x0)))
                && self.1.produces(input, p1, Ok((p2, x1)))
                && self.2.produces(input, p2, Ok((p3, x2)))
                && self.3.produces(input, p3, Err(e))
        ||| exists|p1: usize, x0: A::Output, p2: usize, x1: B::Output, p3: usize, x2: C::Output, p4: usize, x3: D::Output, e: (usize, A::Error)|
            #![trigger self.0.produces(input, from, Ok((p1, x0))), self.1.produces(input, p1, Ok((p2, x1))), self.2.produces(input, p2, Ok((p3, x2))), self.3.produces(input, p3, Ok((p4, x3))), self.4.produces(input, p4, Err(e))]
            (r is Err && r->Err_0 == e)
                && self.0.produces(input, from, Ok((p1, x0)))
                && self.1.produces(input, p1, Ok((p2, x1)))
                && self.2.produces(input, p2, Ok((p3, x2)))
                && self.3.produces(input, p3, Ok((p4, x3)))
                && self.4.produces(input, p4, Err(e))
        ||| exists|p1: usize, x0: A::Output, p2: usize, x1: B::Output, p3: usize, x2: C::Output, p4: usize, x3: D::Output, p5: usize, x4: E::Output, e: (usize, A::Error)|
            #![trigger self.0.produces(input, from, Ok((p1, x0))), self.1.produces(input, p1, Ok((p2, x1))), self.2.produces(input, p2, Ok((p3, x2))), self.3.produces(input, p3, Ok((p4, x3))), self.4.produces(input, p4, Ok((p5, x4))), self.5.produces(input, p5, Err(e))]
            (r is Err && r->Err_0 == e)
                && self.0.produces(input, from, Ok((p1, x0)))
                && self.1.produces(input, p1, Ok((p2, x1)))
                && self.2.produces(input, p2, Ok((p3, x2)))
                && self.3.produces(input, p3, Ok((p4, x3)))
                && self.4.produces(input, p4, Ok((p5, x4)))
                && self.5.produces(input, p5, Err(e))
        ||| exists|p1: usize, x0: A::Output, p2: usize, x1: B::Output, p3: usize, x2: C::Output, p4: usize, x3: D::Output, p5: usize, x4: E::Output, p6: usize, x5: F::Output, e: (usize, A::Error)|
            #![trigger self.0.produces(input, from, Ok((p1, x0))), self.1.produces(input, p1, Ok((p2, x1))), self.2.produces(input, p2, Ok((p3, x2))), self.3.produces(input, p3, Ok((p4, x3))), self.4.produces(input, p4, Ok((p5, x4))), self.5.produces(input, p5, Ok((p6, x5))), self.6.produces(input, p6, Err(e))]
            (r is Err && r->Err_0 == e)
                && self.0.produces(input, from, Ok((p1, x0)))
                && self.1.produces(input, p1, Ok((p2, x1)))
                && self.2.produces(input, p2, Ok((p3, x2)))
                && self.3.produces(input, p3, Ok((p4, x3)))
                && self.4.produces(input, p4, Ok((p5, x4)))
                && self.5.produces(input, p5, Ok((p6, x5)))
                && self.6.produces(input, p6, Err(e))
        ||| exists|p1: usize, x0: A::Output, p2: usize, x1: B::Output, p3: usize, x2: C::Output, p4: usize, x3: D::Output, p5: usize, x4: E::Output, p6: usize, x5: F::Output, p7: usize, x6: G::Output, e: (usize, A::Error)|
            #![trigger self.0.produces(input, from, Ok((p1, x0))), self.1.produces(input, p1, Ok((p2, x1))), self.2.produces(input, p2, Ok((p3, x2))), self.3.produces(input, p3, Ok((p4, x3))), self.4.produces(input, p4, Ok((p5, x4))), self.5.produces(input, p5, Ok((p6, x5))), self.6.produces(input, p6, Ok((p7, x6))), self.7.produces(input, p7, Err(e))]
            (r is Err && r->Err_0 == e)
                && self.0.produces(input, from, Ok((p1, x0)))
                && self.1.produces(input, p1, Ok((p2, x1)))
                && self.2.produces(input, p2, Ok((p3, x2)))
                && self.3.produces(input, p3, Ok((p4, x3)))
                && self.4.produces(input, p4, Ok((p5, x4)))
                && self.5.produces(input, p5, Ok((p6, x5)))
                && self.6.produces(input, p6, Ok((p7, x6)))
                && self.7.produces(input, p7, Err(e))
        ||| exists|p1: usize, x0: A::Output, p2: usize, x1: B::Output, p3: usize, x2: C::Output, p4: usize, x3: D::Output, p5: usize, x4: E::Output, p6: usize, x5: F::Output, p7: usize, x6: G::Output, p8: usize, x7: H::Output, e: (usize, A::Error)|
            #![trigger self.0.produces(input, from, Ok((p1, x0))), self.1.produces(input, p1, Ok((p2, x1))), self.2.produces(input, p2, Ok((p3, x2))), self.3.produces(input, p3, Ok((p4, x3))), self.4.produces(input, p4, Ok((p5, x4))), self.5.produces(input, p5, Ok((p6, x5))), self.6.produces(input, p6, Ok((p7, x6))), self.7.produces(input, p7, Ok((p8, x7))), self.8.produces(input, p8, Err(e))]
            (r is Err && r->Err_0 == e)
                && self.0.produces(input, from, Ok((p1, x0)))
                && self.1.produces(input, p1, Ok((p2, x1)))
                && self.2.produces(input, p2, Ok((p3, x2)))
                && self.3.produces(input, p3, Ok((p4, x3)))
                && self.4.produces(input, p4, Ok((p5, x4)))
                && self.5.produces(input, p5, Ok((p6, x5)))
                && self.6.produces(input, p6, Ok((p7, x6)))
                && self.7.produces(input, p7, Ok((p8, x7)))
                && self.8.produces(input, p8, Err(e))
        ||| exists|p1: usize, x0: A::Output, p2: usize, x1: B::Output, p3: usize, x2: C::Output, p4: usize, x3: D::Output, p5: usize, x4: E::Output, p6: usize, x5: F::Output, p7: usize, x6: G::Output, p8: usize, x7: H::Output, p9: usize, x8: J::Output, e: (usize, A::Error)|
            #![trigger self.0.produces(input, from, Ok((p1, x0))), self.1.produces(input, p1, Ok((p2, x1))), self.2.produces(input, p2, Ok((p3, x2))), self.3.produces(input, p3, Ok((p4, x3))), self.4.produces(input, p4, Ok((p5, x4))), self.5.produces(input, p5, Ok((p6, x5))), self.6.produces(input, p6, Ok((p7, x6))), self.7.produces(input, p7, Ok((p8, x7))), self.8.produces(input, p8, Ok((p9, x8))), self.9.produces(input, p9, Err(e))]
            (r is Err && r->Err_0 == e)
                && self.0.produces(input, from, Ok((p1, x0)))
                && self.1.produces(input, p1, Ok((p2, x1)))
                && self.2.produces(input, p2, Ok((p3, x2)))
                && self.3.produces(input, p3, Ok((p4, x3)))
                && self.4.produces(input, p4, Ok((p5, x4)))
                && self.5.produces(input, p5, Ok((p6, x5)))
                && self.6.produces(input, p6, Ok((p7, x6)))
                && self.7.produces(input, p7, Ok((p8, x7)))
                && self.8.produces(input, p8, Ok((p9, x8)))
                && self.9.produces(input, p9, Err(e))
        ||| exists|p1: usize, x0: A::Output, p2: usize, x1: B::Output, p3: usize, x2: C::Output, p4: usize, x3: D::Output, p5: usize, x4: E::Output, p6: usize, x5: F::Output, p7: usize, x6: G::Output, p8: usize, x7: H::Output, p9: usize, x8: J::Output, p10: usize, x9: K::Output, e: (usize, A::Error)|
            #![trigger self.0.produces(input, from, Ok((p1, x0))), self.1.produces(input, p1, Ok((p2, x1))), self.2.produces(input, p2, Ok((p3, x2))), self.3.produces(input, p3, Ok((p4, x3))), self.4.produces(input, p4, Ok((p5, x4))), self.5.produces(input, p5, Ok((p6, x5))), self.6.produces(input, p6, Ok((p7, x6))), self.7.produces(input, p7, Ok((p8, x7))), self.8.produces(input, p8, Ok((p9, x8))), self.9.produces(input, p9, Ok((p10, x9))), self.10.produces(input, p10, Err(e))]
            (r is Err && r->Err_0 == e)
                && self.0.produces(input, from, Ok((p1, x0)))
                && self.1.produces(input, p1, Ok((p2, x1)))
                && self.2.produces(input, p2, Ok((p3, x2)))
                && self.3.produces(input, p3, Ok((p4, x3)))
                && self.4.produces(input, p4, Ok((p5, x4)))
                && self.5.produces(input, p5, Ok((p6, x5)))
                && self.6.produces(input, p6, Ok((p7, x6)))
                && self.7.produces(input, p7, Ok((p8, x7)))
                && self.8.produces(input, p8, Ok((p9, x8)))
                && self.9.produces(input, p9, Ok((p10, x9)))
                && self.10.produces(input, p10, Err(e))
    }

    fn parse(&self, input: I, from: usize) -> (r: Outcome<(A::Output, B::Output, C::Output, D::Output, E::Output, F::Output, G::Output, H::Output, J::Output, K::Output, L::Output), A::Error>) {
        let (p1, x0) = self.0.parse(input, from)?;
        proof {
            assert(self.0.produces(input, from, Ok((p1, x0))));
        }
        let (p2, x1) = self.1.parse(input, p1)?;
        proof {
            assert(self.1.produces(input, p1, Ok((p2, x1))));
        }
        let (p3, x2) = self.2.parse(input, p2)?;
        proof {
            assert(self.2.produces(input, p2, Ok((p3, x2))));
        }
        let (p4, x3) = self.3.parse(input, p3)?;
        proof {
            assert(self.3.produces(input, p3, Ok((p4, x3))));
        }
        let (p5, x4) = self.4.parse(input, p4)?;
        proof {
            assert(self.4.produces(input, p4, Ok((p5, x4))));
        }
        let (p6, x5) = self.5.parse(input, p5)?;
        proof {
            assert(self.5.produces(input, p5, Ok((p6, x5))));
        }
        let (p7, x6) = self.6.parse(input, p6)?;
        proof {
            assert(self.6.produces(input, p6, Ok((p7, x6))));
        }
        let (p8, x7) = self.7.parse(input, p7)?;
        proof {
            assert(self.7.produces(input, p7, Ok((p8, x7))));
        }
        let (p9, x8) = self.8.parse(input, p8)?;
        proof {
            assert(self.8.produces(input, p8, Ok((p9, x8))));
        }
        let (p10, x9) = self.9.parse(input, p9)?;
        proof {
            assert(self.9.produces(input, p9, Ok((p10, x9))));
        }
        let (p11, x10) = self.10.parse(input, p10)?;
        proof {
            assert(self.10.produces(input, p10, Ok((p11, x10))));
        }
        Ok((p11, (x0, x1, x2, x3, x4, x5, x6, x7, x8, x9, x10)))
    }
}

/// Runs the parsers in order, each where the one before stopped, and gives all outputs.
impl<I: Input, A: Parser<I>, B: Parser<I, Error = A::Error>, C: Parser<I, Error = A::Error>, D: Parser<I, Error = A::Error>, E: Parser<I, Error = A::Error>, F: Parser<I, Error = A::Error>, G: Parser<I, Error = A::Error>, H: Parser<I, Error = A::Error>, J: Parser<I, Error = A::Error>, K: Parser<I, Error = A::Error>, L: Parser<I, Error = A::Error>, M: Parser<I, Error = A::Error>> Parser<I> for (A, B, C, D, E, F, G, H, J, K, L, M) {
    type Output = (A::Output, B::Output, C::Output, D::Output, E::Output, F::Output, G::Output, H::Output, J::Output, K::Output, L::Output, M::Output);

    type Error = A::Error;

    open spec fn wf(&self) -> bool {
        self.0.wf() && self.1.wf() && self.2.wf() && self.3.wf() && self.4.wf() && self.5.wf() && self.6.wf() && self.7.wf() && self.8.wf() && self.9.wf() && self.10.wf() && self.11.wf()
    }

    open spec fn produces(&self, input: I, from: usize, r: Outcome<(A::Output, B::Output, C::Output, D::Output, E::Output, F::Output, G::Output, H::Output, J::Output, K::Output, L::Output, M::Output), A::Error>) -> bool {
        ||| exists|p1: usize, x0: A::Output, p2: usize, x1: B::Output, p3: usize, x2: C::Output, p4: usize, x3: D::Output, p5: usize, x4: E::Output, p6: usize, x5: F::Output, p7: usize, x6: G::Output, p8: usize, x7: H::Output, p9: usize, x8: J::Output, p10: usize, x9: K::Output, p11: usize, x10: L::Output, p12: usize, x11: M::Output|
            #![trigger self.0.produces(input, from, Ok((p1, x0))), self.1.produces(input, p1, Ok((p2, x1))), self.2.produces(input, p2, Ok((p3, x2))), self.3.produces(input, p3, Ok((p4, x3))), self.4.produces(input, p4, Ok((p5, x4))), self.5.produces(input, p5, Ok((p6, x5))), self.6.produces(input, p6, Ok((p7, x6))), self.7.produces(input, p7, Ok((p8, x7))), self.8.produces(input, p8, Ok((p9, x8))), self.9.produces(input, p9, Ok((p10, x9))), self.10.produces(input, p10, Ok((p11, x10))), self.11.produces(input, p11, Ok((p12, x11)))]
            r == Ok::<_, (usize, A::Error)>((p12, (x0, x1, x2, x3, x4, x5, x6, x7, x8, x9, x10, x11)))
                && self.0.produces(input, from, Ok((p1, x0)))
                && self.1.produces(input, p1, Ok((p2, x1)))
                && self.2.produces(input, p2, Ok((p3, x2)))
                && self.3.produces(input, p3, Ok((p4, x3)))
                && self.4.produces(input, p4, Ok((p5, x4)))
                && self.5.produces(input, p5, Ok((p6, x5)))
                && self.6.produces(input, p6, Ok((p7, x6)))
                && self.7.produces(input, p7, Ok((p8, x7)))
                && self.8.produces(input, p8, Ok((p9, x8)))
                && self.9.produces(input, p9, Ok((p10, x9)))
                && self.10.produces(input, p10, Ok((p11, x10)))
                && self.11.produces(input, p11, Ok((p12, x11)))
        ||| exists|e: (usize, A::Error)|
            #![trigger self.0.produces(input, from, Err(e))]
            (r is Err && r->Err_0 == e)
                && self.0.produces(input, from, Err(e))
        ||| exists|p1: usize, x0: A::Output, e: (usize, A::Error)|
            #![trigger self.0.produces(input, from, Ok((p1, x0))), self.1.produces(input, p1, Err(e))]
            (r is Err && r->Err_0 == e)
                && self.0.produces(input, from, Ok((p1, x0)))
                && self.1.produces(input, p1, Err(e))
        ||| exists|p1: usize, x0: A::Output, p2: usize, x1: B::Output, e: (usize, A::Error)|
            #![trigger self.0.produces(input, from, Ok((p1, x0))), self.1.produces(input, p1, Ok((p2, x1))), self.2.produces(input, p2, Err(e))]
            (r is Err && r->Err_0 == e)
                && self.0.produces(input, from, Ok((p1, x0)))
                && self.1.produces(input, p1, Ok((p2, x1)))
                && self.2.produces(input, p2, Err(e))
        ||| exists|p1: usize, x0: A::Output, p2: usize, x1: B::Output, p3: usize, x2: C::Output, e: (usize, A::Error)|
            #![trigger self.0.produces(input, from, Ok((p1, x0))), self.1.produces(input, p1, Ok((p2, x1))), self.2.produces(input, p2, Ok((p3, x2))), self.3.produces(input, p3, Err(e))]
            (r is Err && r->Err_0 == e)
                && self.0.produces(input, from, Ok((p1, x0)))
                && self.1.produces(input, p1, Ok((p2, x1)))
                && self.2.produces(input, p2, Ok((p3, x2)))
                && self.3.produces(input, p3, Err(e))
        ||| exists|p1: usize, x0: A::Output, p2: usize, x1: B::Output, p3: usize, x2: C::Output, p4: usize, x3: D::Output, e: (usize, A::Error)|
            #![trigger self.0.produces(input, from, Ok((p1, x0))), self.1.produces(input, p1, Ok((p2, x1))), self.2.produces(input, p2, Ok((p3, x2))), self.3.produces(input, p3, Ok((p4, x3))), self.4.produces(input, p4, Err(e))]
            (r is Err && r->Err_0 == e)
                && self.0.produces(input, from, Ok((p1, x0)))
                && self.1.produces(input, p1, Ok((p2, x1)))
                && self.2.produces(input, p2, Ok((p3, x2)))
                && self.3.produces(input, p3, Ok((p4, x3)))
                && self.4.produces(input, p4, Err(e))
        ||| exists|p1: usize, x0: A::Output, p2: usize, x1: B::Output, p3: usize, x2: C::Output, p4: usize, x3: D::Output, p5: usize, x4: E::Output, e: (usize, A::Error)|
            #![trigger self.0.produces(input, from, Ok((p1, x0))), self.1.produces(input, p1, Ok((p2, x1))), self.2.produces(input, p2, Ok((p3, x2))), self.3.produces(input, p3, Ok((p4, x3))), self.4.produces(input, p4, Ok((p5, x4))), self.5.produces(input, p5, Err(e))]
            (r is Err && r->Err_0 == e)
                && self.0.produces(input, from, Ok((p1, x0)))
                && self.1.produces(input, p1, Ok((p2, x1)))
                && self.2.produces(input, p2, Ok((p3, x2)))
                && self.3.produces(input, p3, Ok((p4, x3)))
                && self.4.produces(input, p4, Ok((p5, x4)))
                && self.5.produces(input, p5, Err(e))
        ||| exists|p1: usize, x0: A::Output, p2: usize, x1: B::Output, p3: usize, x2: C::Output, p4: usize, x3: D::Output, p5: usize, x4: E::Output, p6: usize, x5: F::Output, e: (usize, A::Error)|
            #![trigger self.0.produces(input, from, Ok((p1, x0))), self.1.produces(input, p1, Ok((p2, x1))), self.2.produces(input, p2, Ok((p3, x2))), self.3.produces(input, p3, Ok((p4, x3))), self.4.produces(input, p4, Ok((p5, x4))), self.5.produces(input, p5, Ok((p6, x5))), self.6.produces(input, p6, Err(e))]
            (r is Err && r->Err_0 == e)
                && self.0.produces(input, from, Ok((p1, x0)))
                && self.1.produces(input, p1, Ok((p2, x1)))
                && self.2.produces(input, p2, Ok((p3, x2)))
                && self.3.produces(input, p3, Ok((p4, x3)))
                && self.4.produces(input, p4, Ok((p5, x4)))
                && self.5.produces(input, p5, Ok((p6, x5)))
                && self.6.produces(input, p6, Err(e))
        ||| exists|p1: usize, x0: A::Output, p2: usize, x1: B::Output, p3: usize, x2: C::Output, p4: usize, x3: D::Output, p5: usize, x4: E::Output, p6: usize, x5: F::Output, p7: usize, x6: G::Output, e: (usize, A::Error)|
            #![trigger self.0.produces(input, from, Ok((p1, x0))), self.1.produces(input, p1, Ok((p2, x1))), self.2.produces(input, p2, Ok((p3, x2))), self.3.produces(input, p3, Ok((p4, x3))), self.4.produces(input, p4, Ok((p5, x4))), self.5.produces(input, p5, Ok((p6, x5))), self.6.produces(input, p6, Ok((p7, x6))), self.7.produces(input, p7, Err(e))]
            (r is Err && r->Err_0 == e)
                && self.0.produces(input, from, Ok((p1, x0)))
                && self.1.produces(input, p1, Ok((p2, x1)))
                && self.2.produces(input, p2, Ok((p3, x2)))
                && self.3.produces(input, p3, Ok((p4, x3)))
                && self.4.produces(input, p4, Ok((p5, x4)))
                && self.5.produces(input, p5, Ok((p6, x5)))
                && self.6.produces(input, p6, Ok((p7, x6)))
                && self.7.produces(input, p7, Err(e))
        ||| exists|p1: usize, x0: A::Output, p2: usize, x1: B::Output, p3: usize, x2: C::Output, p4: usize, x3: D::Output, p5: usize, x4: E::Output, p6: usize, x5: F::Output, p7: usize, x6: G::Output, p8: usize, x7: H::Output, e: (usize, A::Error)|
            #![trigger self.0.produces(input, from, Ok((p1, x0))), self.1.produces(input, p1, Ok((p2, x1))), self.2.produces(input, p2, Ok((p3, x2))), self.3.produces(input, p3, Ok((p4, x3))), self.4.produces(input, p4, Ok((p5, x4))), self.5.produces(input, p5, Ok((p6, x5))), self.6.produces(input, p6, Ok((p7, x6))), self.7.produces(input, p7, Ok((p8, x7))), self.8.produces(input, p8, Err(e))]
            (r is Err && r->Err_0 == e)
                && self.0.produces(input, from, Ok((p1, x0)))
                && self.1.produces(input, p1, Ok((p2, x1)))
                && self.2.produces(input, p2, Ok((p3, x2)))
                && self.3.produces(input, p3, Ok((p4, x3)))
                && self.4.produces(input, p4, Ok((p5, x4)))
                && self.5.produces(input, p5, Ok((p6, x5)))
                && self.6.produces(input, p6, Ok((p7, x6)))
                && self.7.produces(input, p7, Ok((p8, x7)))
                && self.8.produces(input, p8, Err(e))
        ||| exists|p1: usize, x0: A::Output, p2: usize, x1: B::Output, p3: usize, x2: C::Output, p4: usize, x3: D::Output, p5: usize, x4: E::Output, p6: usize, x5: F::Output, p7: usize, x6: G::Output, p8: usize, x7: H::Output, p9: usize, x8: J::Output, e: (usize, A::Error)|
            #![trigger self.0.produces(input, from, Ok((p1, x0))), self.1.produces(input, p1, Ok((p2, x1))), self.2.produces(input, p2, Ok((p3, x2))), self.3.produces(input, p3, Ok((p4, x3))), self.4.produces(input, p4, Ok((p5, x4))), self.5.produces(input, p5, Ok((p6, x5))), self.6.produces(input, p6, Ok((p7, x6))), self.7.produces(input, p7, Ok((p8, x7))), self.8.produces(input, p8, Ok((p9, x8))), self.9.produces(input, p9, Err(e))]
            (r is Err && r->Err_0 == e)
                && self.0.produces(input, from, Ok((p1, x0)))
                && self.1.produces(input, p1, Ok((p2, x1)))
                && self.2.produces(input, p2, Ok((p3, x2)))
                && self.3.produces(input, p3, Ok((p4, x3)))
                && self.4.produces(input, p4, Ok((p5, x4)))
                && self.5.produces(input, p5, Ok((p6, x5)))
                && self.6.produces(input, p6, Ok((p7, x6)))
                && self.7.produces(input, p7, Ok((p8, x7)))
                && self.8.produces(input, p8, Ok((p9, x8)))
                && self.9.produces(input, p9, Err(e))
        ||| exists|p1: usize, x0: A::Output, p2: usize, x1: B::Output, p3: usize, x2: C::Output, p4: usize, x3: D::Output, p5: usize, x4: E::Output, p6: usize, x5: F::Output, p7: usize, x6: G::Output, p8: usize, x7: H::Output, p9: usize, x8: J::Output, p10: usize, x9: K::Output, e: (usize, A::Error)|
            #![trigger self.0.produces(input, from, Ok((p1, x0))), self.1.produces(input, p1, Ok((p2, x1))), self.2.produces(input, p2, Ok((p3, x2))), self.3.produces(input, p3, Ok((p4, x3))), self.4.produces(input, p4, Ok((p5, x4))), self.5.produces(input, p5, Ok((p6, x5))), self.6.produces(input, p6, Ok((p7, x6))), self.7.produces(input, p7, Ok((p8, x7))), self.8.produces(input, p8, Ok((p9, x8))), self.9.produces(input, p9, Ok((p10, x9))), self.10.produces(input, p10, Err(e))]
            (r is Err && r->Err_0 == e)
                && self.0.produces(input, from, Ok((p1, x0)))
                && self.1.produces(input, p1, Ok((p2, x1)))
                && self.2.produces(input, p2, Ok((p3, x2)))
                && self.3.produces(input, p3, Ok((p4, x3)))
                && self.4.produces(input, p4, Ok((p5, x4)))
                && self.5.produces(input, p5, Ok((p6, x5)))
                && self.6.produces(input, p6, Ok((p7, x6)))
                && self.7.produces(input, p7, Ok((p8, x7)))
                && self.8.produces(input, p8, Ok((p9, x8)))
                && self.9.produces(input, p9, Ok((p10, x9)))
                && self.10.produces(input, p10, Err(e))
        ||| exists|p1: usize, x0: A::Output, p2: usize, x1: B::Output, p3: usize, x2: C::Output, p4: usize, x3: D::Output, p5: usize, x4: E::Output, p6: usize, x5: F::Output, p7: usize, x6: G::Output, p8: usize, x7: H::Output, p9: usize, x8: J::Output, p10: usize, x9: K::Output, p11: usize, x10: L::Output, e: (usize, A::Error)|
            #![trigger self.0.produces(input, from, Ok((p1, x0))), self.1.produces(input, p1, Ok((p2, x1))), self.2.produces(input, p2, Ok((p3, x2))), self.3.produces(input, p3, Ok((p4, x3))), self.4.produces(input, p4, Ok((p5, x4))), self.5.produces(input, p5, Ok((p6, x5))), self.6.produces(input, p6, Ok((p7, x6))), self.7.produces(input, p7, Ok((p8, x7))), self.8.produces(input, p8, Ok((p9, x8))), self.9.produces(input, p9, Ok((p10, x9))), self.10.produces(input, p10, Ok((p11, x10))), self.11.produces(input, p11, Err(e))]
            (r is Err && r->Err_0 == e)
                && self.0.produces(input, from, Ok((p1, x0)))
                && self.1.produces(input, p1, Ok((p2, x1)))
                && self.2.produces(input, p2, Ok((p3, x2)))
                && self.3.produces(input, p3, Ok((p4, x3)))
                && self.4.produces(input, p4, Ok((p5, x4)))
                && self.5.produces(input, p5, Ok((p6, x5)))
                && self.6.produces(input, p6, Ok((p7, x6)))
                && self.7.produces(input, p7, Ok((p8, x7)))
                && self.8.produces(input, p8, Ok((p9, x8)))
                && self.9.produces(input, p9, Ok((p10, x9)))
                && self.10.produces(input, p10, Ok((p11, x10)))
                && self.11.produces(input, p11, Err(e))
    }

    fn parse(&self, input: I, from: usize) -> (r: Outcome<(A::Output, B::Output, C::Output, D::Output, E::Output, F::Output, G::Output, H::Output, J::Output, K::Output, L::Output, M::Output), A::Error>) {
        let (p1, x0) = self.0.parse(input, from)?;
        proof {
            assert(self.0.produces(input, from, Ok((p1, x0))));
        }
        let (p2, x1) = self.1.parse(input, p1)?;
        proof {
            assert(self.1.produces(input, p1, Ok((p2, x1))));
        }
        let (p3, x2) = self.2.parse(input, p2)?;
        proof {
            assert(self.2.produces(input, p2, Ok((p3, x2))));
        }
        let (p4, x3) = self.3.parse(input, p3)?;
        proof {
            assert(self.3.produces(input, p3, Ok((p4, x3))));
        }
        let (p5, x4) = self.4.parse(input, p4)?;
        proof {
            assert(self.4.produces(input, p4, Ok((p5, x4))));
        }
        let (p6, x5) = self.5.parse(input, p5)?;
        proof {
            assert(self.5.produces(input, p5, Ok((p6, x5))));
        }
        let (p7, x6) = self.6.parse(input, p6)?;
        proof {
            assert(self.6.produces(input, p6, Ok((p7, x6))));
        }
        let (p8, x7) = self.7.parse(input, p7)?;
        proof {
            assert(self.7.produces(input, p7, Ok((p8, x7))));
        }
        let (p9, x8) = self.8.parse(input, p8)?;
        proof {
            assert(self.8.produces(input, p8, Ok((p9, x8))));
        }
        let (p10, x9) = self.9.parse(input, p9)?;
        proof {
            assert(self.9.produces(input, p9, Ok((p10, x9))));
        }
        let (p11, x10) = self.10.parse(input, p10)?;
        proof {
            assert(self.10.produces(input, p10, Ok((p11, x10))));
        }
        let (p12, x11) = self.11.parse(input, p11)?;
        proof {
            assert(self.11.produces(input, p11, Ok((p12, x11))));
        }
        Ok((p12, (x0, x1, x2, x3, x4, x5, x6, x7, x8, x9, x10, x11)))
    }
}

} // verus!
