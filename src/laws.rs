//! Laws that hold of the combinators, proved from their definitions.
use vstd::prelude::*;

use crate::repeat::{chain, join_chain, Join, Range, Repeat};
use crate::sequence::{Optional, Or, Try};
use crate::text::run_chars;
use crate::{Input, Outcome, Parser};

verus! {

/// `r` is the one outcome that `p` may give on `input` from `from`.
pub open spec fn gives<I: Input, A: Parser<I>>(p: A, input: I, from: usize, r: Outcome<A::Output, A::Error>) -> bool {
    &&& p.produces(input, from, r)
    &&& forall|r2: Outcome<A::Output, A::Error>| #[trigger] p.produces(input, from, r2) ==> r2 == r
}

/// Alternation retries only after a failure that consumed nothing. Where `a` fails at the
/// start offset, `a | b` gives exactly what `b` alone gives there; where `a` fails past the
/// start offset, `a | b` gives that failure, unchanged, and `b` is not consulted.
pub proof fn law_or_backtrack<I: Input, A: Parser<I>, B: Parser<I, Output = A::Output, Error = A::Error>>(
    a: A,
    b: B,
    input: I,
    from: usize,
    e: (usize, A::Error),
)
    requires
        gives(a, input, from, Err(e)),
    ensures
        e.0 == from ==> forall|r: Outcome<A::Output, A::Error>|
            #[trigger] Or(a, b).produces(input, from, r) <==> b.produces(input, from, r),
        e.0 != from ==> gives(Or(a, b), input, from, Err(e)),
{
    if e.0 == from {
        assert forall|r: Outcome<A::Output, A::Error>|
            #[trigger] Or(a, b).produces(input, from, r) <==> b.produces(input, from, r) by {
            if b.produces(input, from, r) {
                assert(a.produces(input, from, Err((from, e.1))));
            }
        }
    } else {
        assert forall|r2: Outcome<A::Output, A::Error>| #[trigger] Or(a, b).produces(input, from, r2) implies r2 == Err::<(usize, A::Output), (usize, A::Error)>(e) by {
            if exists|e2: A::Error| #[trigger] a.produces(input, from, Err((from, e2))) {
                let e2 = choose|e2: A::Error| #[trigger] a.produces(input, from, Err((from, e2)));
                assert(Err::<(usize, A::Output), (usize, A::Error)>((from, e2)) == Err::<(usize, A::Output), (usize, A::Error)>(e));
            }
        }
    }
}

/// `Try` makes a committed failure recoverable: where `p` fails past the start offset, `Try(p)`
/// fails with the same error at the start offset.
pub proof fn law_try_restores<I: Input, A: Parser<I>>(p: A, input: I, from: usize, q: usize, e: A::Error)
    requires
        gives(p, input, from, Err((q, e))),
        from < q,
    ensures
        gives(Try(p), input, from, Err((from, e))),
{
    assert(Try(p).0 == p);
    assert(Try(p).0.produces(input, from, Err((q, e))));
    assert(Try(p).produces(input, from, Err((from, e))));
    assert forall|r2: Outcome<A::Output, A::Error>| #[trigger] Try(p).produces(input, from, r2) implies r2 == Err::<(usize, A::Output), (usize, A::Error)>((from, e)) by {
        if r2 is Err {
            let (q2, e2) = choose|q2: usize, e2: A::Error|
                r2 == Err::<(usize, A::Output), _>((from, e2)) && #[trigger] p.produces(input, from, Err((q2, e2)));
            assert(Err::<(usize, A::Output), (usize, A::Error)>((q2, e2)) == Err::<(usize, A::Output), (usize, A::Error)>((q, e)));
        }
    }
}

/// `Optional(p)` fails only by passing on a failure of `p` past the start offset; a failure
/// of `p` at the start offset becomes a success with `None` there.
pub proof fn law_optional_total<I: Input, A: Parser<I>>(p: A, input: I, from: usize)
    ensures
        forall|r: Outcome<Option<A::Output>, A::Error>|
            #[trigger] Optional(p).produces(input, from, r) && r is Err ==> r->Err_0.0 != from
                && p.produces(input, from, Err(r->Err_0)),
        forall|e: A::Error|
            #[trigger] p.produces(input, from, Err((from, e))) ==> Optional(p).produces(
                input,
                from,
                Ok((from, None)),
            ),
{
    assert(Optional(p).0 == p);
    assert forall|e: A::Error| #[trigger] p.produces(input, from, Err((from, e))) implies Optional(p).produces(
        input,
        from,
        Ok((from, None)),
    ) by {
        assert(Optional(p).0.produces(input, from, Err((from, e))));
    }
}

/// A repetition within `min..max` never gives more than `max` outputs, and a success gives at
/// least `min` (where `min <= max`).
pub proof fn law_repeat_bound<I: Input, A: Parser<I>, R: Range>(p: A, range: R, input: I, from: usize)
    requires
        range.spec_max() is Some ==> range.spec_min() <= range.spec_max()->0,
    ensures
        forall|r: Outcome<Vec<A::Output>, A::Error>|
            #[trigger] Repeat(p, range).produces(input, from, r) && r is Ok ==> {
                &&& range.spec_min() <= r->Ok_0.1@.len()
                &&& range.spec_max() is Some ==> r->Ok_0.1@.len() <= range.spec_max()->0
            },
{
    let min = range.spec_min();
    let max = range.spec_max();
    assert forall|r: Outcome<Vec<A::Output>, A::Error>|
        #[trigger] Repeat(p, range).produces(input, from, r) && r is Ok implies {
            &&& min <= r->Ok_0.1@.len()
            &&& max is Some ==> r->Ok_0.1@.len() <= max->0
        } by {
        let (pos, outs, end) = choose|pos: Seq<usize>, outs: Seq<A::Output>, end: Outcome<(), A::Error>|
            #[trigger] crate::repeat::repeat_run(p, input, from, min, max, pos, outs, end) && match end {
                Ok((at, _)) => r is Ok && r->Ok_0.0 == at && r->Ok_0.1@ == outs,
                Err(e) => r == Err::<(usize, Vec<A::Output>), (usize, A::Error)>(e),
            };
        if max is Some && outs.len() > max->0 {
            assert(!crate::repeat::reached(max, max->0 as int));
        }
    }
}

/// A join that gives `n` elements rests on exactly `n` successes of the element parser and
/// `n - 1` successes of the separator between them, starting at `from` and ending where the
/// join ends.
pub proof fn law_join_arity<I: Input, A: Parser<I>, B: Parser<I, Error = A::Error>, R: Range>(
    a: A,
    b: B,
    range: R,
    input: I,
    from: usize,
    to: usize,
    v: Vec<A::Output>,
)
    requires
        Join(a, b, range).produces(input, from, Ok((to, v))),
        v@.len() > 0,
    ensures
        exists|starts: Seq<usize>, ends: Seq<usize>, seps: Seq<B::Output>|
            #[trigger] join_chain(a, b, input, starts, ends, v@, seps) && seps.len() == v@.len() - 1
                && starts[0] == from && ends.last() == to,
{
    let (starts, ends, outs, seps, end) = choose|
        starts: Seq<usize>,
        ends: Seq<usize>,
        outs: Seq<A::Output>,
        seps: Seq<B::Output>,
        end: Outcome<(), A::Error>,
    |
        #[trigger] crate::repeat::join_run(a, b, input, from, range.spec_min(), range.spec_max(), starts, ends, outs, seps, end)
            && match end {
            Ok((at, _)) => Ok::<(usize, Vec<A::Output>), (usize, A::Error)>((to, v)) is Ok && to == at && v@ == outs,
            Err(e) => Ok::<(usize, Vec<A::Output>), (usize, A::Error)>((to, v)) == Err::<(usize, Vec<A::Output>), (usize, A::Error)>(e),
        };
    assert(join_chain(a, b, input, starts, ends, v@, seps));
}

/// Capturing over bytes gives exactly the bytes from `from` to where `p` alone stops.
pub proof fn law_capture_bytes<'a, P: Parser<&'a [u8]>>(p: P, input: &'a [u8], from: usize)
    ensures
        forall|r: Outcome<&'a [u8], P::Error>|
            #[trigger] crate::byte::Capture(p).produces(input, from, r) && r is Ok ==> {
                &&& exists|x: P::Output| #[trigger] p.produces(input, from, Ok((r->Ok_0.0, x)))
                &&& r->Ok_0.1@ == input@.subrange(from as int, r->Ok_0.0 as int)
            },
{
}

/// Capturing over text gives exactly the characters from `from` to where `p` alone stops.
pub proof fn law_capture_text<'a, P: Parser<&'a str>>(p: P, input: &'a str, from: usize)
    ensures
        forall|r: Outcome<&'a str, P::Error>|
            #[trigger] crate::str::Capture(p).produces(input, from, r) && r is Ok ==> {
                &&& exists|x: P::Output| #[trigger] p.produces(input, from, Ok((r->Ok_0.0, x)))
                &&& r->Ok_0.1@ == run_chars(input, from as int, r->Ok_0.0 as int)
            },
{
}

} // verus!
