//! Bounded repetition of a parser: collecting, folding and joining with a separator.
use vstd::prelude::*;

use crate::{Input, Outcome, P, Parser};

verus! {

/// A bound on how many times a parser is repeated: a minimum, and a maximum or none.
pub trait Range {
    spec fn spec_min(&self) -> usize;

    spec fn spec_max(&self) -> Option<usize>;

    fn min(&self) -> (r: usize)
        ensures
            r == self.spec_min(),
    ;

    fn max(&self) -> (r: Option<usize>)
        ensures
            r == self.spec_max(),
    ;
}

/// Exactly `n` times.
impl Range for usize {
    open spec fn spec_min(&self) -> usize {
        *self
    }

    open spec fn spec_max(&self) -> Option<usize> {
        Some(*self)
    }

    fn min(&self) -> (r: usize) {
        *self
    }

    fn max(&self) -> (r: Option<usize>) {
        Some(*self)
    }
}

// The range types of std, declared with their public fields so that a bound can read them.
#[verifier::external_type_specification]
pub struct ExRangeFull(core::ops::RangeFull);

#[verifier::external_type_specification]
pub struct ExRangeTo<Idx>(core::ops::RangeTo<Idx>);

#[verifier::external_type_specification]
pub struct ExRangeFrom<Idx>(core::ops::RangeFrom<Idx>);

/// Any number of times.
impl Range for core::ops::RangeFull {
    open spec fn spec_min(&self) -> usize {
        0
    }

    open spec fn spec_max(&self) -> Option<usize> {
        None
    }

    fn min(&self) -> (r: usize) {
        0
    }

    fn max(&self) -> (r: Option<usize>) {
        None
    }
}

/// At most `end` times.
impl Range for core::ops::RangeTo<usize> {
    open spec fn spec_min(&self) -> usize {
        0
    }

    open spec fn spec_max(&self) -> Option<usize> {
        Some(self.end)
    }

    fn min(&self) -> (r: usize) {
        0
    }

    fn max(&self) -> (r: Option<usize>) {
        Some(self.end)
    }
}

/// At least `start` times.
impl Range for core::ops::RangeFrom<usize> {
    open spec fn spec_min(&self) -> usize {
        self.start
    }

    open spec fn spec_max(&self) -> Option<usize> {
        None
    }

    fn min(&self) -> (r: usize) {
        self.start
    }

    fn max(&self) -> (r: Option<usize>) {
        None
    }
}

/// At least `start` and at most `end` times.
impl Range for core::ops::Range<usize> {
    open spec fn spec_min(&self) -> usize {
        self.start
    }

    open spec fn spec_max(&self) -> Option<usize> {
        Some(self.end)
    }

    fn min(&self) -> (r: usize) {
        self.start
    }

    fn max(&self) -> (r: Option<usize>) {
        Some(self.end)
    }
}

} // verus!

verus! {

/// The bound `max`, where there is one, is `n`.
pub open spec fn reached(max: Option<usize>, n: int) -> bool {
    max is Some && max->0 as int == n
}

/// Every success of `p` consumes at least one unit.
pub open spec fn progresses<I: Input, A: Parser<I>>(p: A) -> bool {
    forall|input: I, from: usize, q: usize, x: A::Output|
        input.boundary(from) && #[trigger] p.produces(input, from, Ok((q, x))) ==> from < q
}

/// `outs.len()` successes of `p` one after another: the `k`-th goes from `pos[k]` to
/// `pos[k + 1]` and gives `outs[k]`.
pub open spec fn chain<I: Input, A: Parser<I>>(
    p: A,
    input: I,
    pos: Seq<usize>,
    outs: Seq<A::Output>,
) -> bool {
    &&& pos.len() == outs.len() + 1
    &&& forall|k: int|
        0 <= k < outs.len() ==> #[trigger] p.produces(input, pos[k], Ok((pos[k + 1], outs[k])))
}

/// How a repetition stops after `n` successes, at offset `at`: it stops with success where the
/// maximum is reached; else `p` is tried once more and fails, and that failure gives success at
/// `at` where it consumed nothing and the minimum is met, and is passed on otherwise.
pub open spec fn repeat_end<I: Input, A: Parser<I>>(
    p: A,
    input: I,
    at: usize,
    n: int,
    min: usize,
    max: Option<usize>,
    end: Outcome<(), A::Error>,
) -> bool {
    if reached(max, n) {
        end == Ok::<(usize, ()), (usize, A::Error)>((at, ()))
    } else {
        exists|q: usize, e: A::Error|
            #[trigger] p.produces(input, at, Err((q, e))) && end == (if q == at && n >= min {
                Ok::<(usize, ()), (usize, A::Error)>((at, ()))
            } else {
                Err((q, e))
            })
    }
}

/// One way that repeating `p` between `min` and `max` times from `from` can go: the successes
/// in `pos` and `outs`, and the end in `end`.
pub open spec fn repeat_run<I: Input, A: Parser<I>>(
    p: A,
    input: I,
    from: usize,
    min: usize,
    max: Option<usize>,
    pos: Seq<usize>,
    outs: Seq<A::Output>,
    end: Outcome<(), A::Error>,
) -> bool {
    &&& chain(p, input, pos, outs)
    &&& pos[0] == from
    &&& forall|k: int| 0 <= k < outs.len() ==> !#[trigger] reached(max, k)
    &&& repeat_end(p, input, pos.last(), outs.len() as int, min, max, end)
}

/// `r` is the outcome that a run with end `end` gives when its output is `out`.
pub open spec fn finish<O, E>(end: Outcome<(), E>, out: O, r: Outcome<O, E>) -> bool {
    match end {
        Ok((at, _)) => r == Ok::<(usize, O), (usize, E)>((at, out)),
        Err(e) => r == Err::<(usize, O), (usize, E)>(e),
    }
}

/// What every repetition needs of its parser: it may run, and where no maximum bounds it,
/// each of its successes consumes input.
pub open spec fn repeatable<I: Input, A: Parser<I>, R: Range>(p: A, range: R) -> bool {
    &&& p.wf()
    &&& range.spec_max() is None ==> progresses(p)
}

/// Repeats `A` within the bound `R` and gives the outputs in order.
#[derive(Copy, Clone, Debug, PartialEq)]
pub struct Repeat<A, R>(pub A, pub R);

impl<I: Input, A: Parser<I>, R: Range> Parser<I> for Repeat<A, R> {
    type Output = Vec<A::Output>;

    type Error = A::Error;

    open spec fn wf(&self) -> bool {
        repeatable(self.0, self.1)
    }

    open spec fn produces(&self, input: I, from: usize, r: Outcome<Vec<A::Output>, A::Error>) -> bool {
        exists|pos: Seq<usize>, outs: Seq<A::Output>, end: Outcome<(), A::Error>|
            #[trigger] repeat_run(self.0, input, from, self.1.spec_min(), self.1.spec_max(), pos, outs, end)
                && match end {
                Ok((at, _)) => r is Ok && r->Ok_0.0 == at && r->Ok_0.1@ == outs,
                Err(e) => r == Err::<(usize, Vec<A::Output>), (usize, A::Error)>(e),
            }
    }

    fn parse(&self, input: I, from: usize) -> (r: Outcome<Vec<A::Output>, A::Error>) {
        let min = self.1.min();
        let max = self.1.max();
        let mut items: Vec<A::Output> = Vec::new();
        let mut at = from;
        let mut done: usize = 0;
        let ghost mut pos: Seq<usize> = seq![from];
        loop
            invariant
                self.wf(),
                min == self.1.spec_min(),
                max == self.1.spec_max(),
                input.boundary(from),
                input.boundary(at),
                from <= at,
                done == items@.len(),
                chain(self.0, input, pos, items@),
                pos[0] == from,
                pos.last() == at,
                forall|k: int| 0 <= k < done ==> !#[trigger] reached(max, k),
                max is Some ==> done <= max->0,
                max is None ==> done <= at - from,
            decreases
                if max is Some { max->0 - done } else { input.size() - at },
        {
            if let Some(m) = max {
                if m == done {
                    proof {
                        let end = Ok::<(usize, ()), (usize, A::Error)>((at, ()));
                        assert(repeat_run(self.0, input, from, min, max, pos, items@, end));
                    }
                    return Ok((at, items));
                }
            }
            match self.0.parse(input, at) {
                Ok((q, x)) => {
                    proof {
                        input.lemma_boundary(q);
                        let old_pos = pos;
                        let old_outs = items@;
                        pos = pos.push(q);
                        assert forall|k: int| 0 <= k < old_outs.len() + 1 implies #[trigger]
                            self.0.produces(input, pos[k], Ok((pos[k + 1], old_outs.push(x)[k]))) by {
                            if k < old_outs.len() {
                                assert(old_pos[k] == pos[k] && old_pos[k + 1] == pos[k + 1]);
                            }
                        }
                    }
                    items.push(x);
                    at = q;
                    done = done + 1;
                },
                Err((q, e)) => {
                    proof {
                        assert(self.0.produces(input, at, Err((q, e))));
                    }
                    if q == at && done >= min {
                        proof {
                            let end = Ok::<(usize, ()), (usize, A::Error)>((at, ()));
                            assert(repeat_run(self.0, input, from, min, max, pos, items@, end));
                        }
                        return Ok((at, items));
                    }
                    proof {
                        let end = Err::<(usize, ()), (usize, A::Error)>((q, e));
                        assert(repeat_run(self.0, input, from, min, max, pos, items@, end));
                    }
                    return Err((q, e));
                },
            }
        }
    }
}

} // verus!

verus! {

/// A function that folds one more value into an accumulator.
pub trait Combine<O, X> {
    spec fn callable(&self, acc: O, x: X) -> bool;

    spec fn combines(&self, acc: O, x: X, r: O) -> bool;

    fn combine(&self, acc: O, x: X) -> (r: O)
        requires
            self.callable(acc, x),
        ensures
            self.combines(acc, x, r),
    ;
}

impl<O, X, F: Fn(O, X) -> O> Combine<O, X> for F {
    open spec fn callable(&self, acc: O, x: X) -> bool {
        self.requires((acc, x))
    }

    open spec fn combines(&self, acc: O, x: X, r: O) -> bool {
        self.ensures((acc, x), r)
    }

    fn combine(&self, acc: O, x: X) -> (r: O) {
        self(acc, x)
    }
}

/// A function that folds a separator and the value after it into an accumulator.
pub trait CombineJoined<O, Y, X> {
    spec fn callable(&self, acc: O, y: Y, x: X) -> bool;

    spec fn combines(&self, acc: O, y: Y, x: X, r: O) -> bool;

    fn combine(&self, acc: O, y: Y, x: X) -> (r: O)
        requires
            self.callable(acc, y, x),
        ensures
            self.combines(acc, y, x, r),
    ;
}

impl<O, Y, X, F: Fn(O, Y, X) -> O> CombineJoined<O, Y, X> for F {
    open spec fn callable(&self, acc: O, y: Y, x: X) -> bool {
        self.requires((acc, y, x))
    }

    open spec fn combines(&self, acc: O, y: Y, x: X, r: O) -> bool {
        self.ensures((acc, y, x), r)
    }

    fn combine(&self, acc: O, y: Y, x: X) -> (r: O) {
        self(acc, y, x)
    }
}

} // verus!

verus! {

/// `accs` are the values a fold goes through: `seed` makes the first, and `f` makes each next
/// one from the previous one and the next output.
pub open spec fn fold_chain<X, O, S: Fn() -> O, F: Combine<O, X>>(
    seed: S,
    f: F,
    outs: Seq<X>,
    accs: Seq<O>,
) -> bool {
    &&& accs.len() == outs.len() + 1
    &&& seed.ensures((), accs[0])
    &&& forall|k: int| 0 <= k < outs.len() ==> #[trigger] f.combines(accs[k], outs[k], accs[k + 1])
}

/// Repeats `A` within the bound `R` like `Repeat`, and folds the outputs: `S` makes the first
/// value, and `F` combines it with each output in turn.
#[derive(Copy, Clone, Debug, PartialEq)]
pub struct Fold<A, R, S, F>(pub A, pub R, pub S, pub F);

impl<I: Input, A: Parser<I>, R: Range, O, S: Fn() -> O, F: Combine<O, A::Output>> Parser<I> for Fold<A, R, S, F> {
    type Output = O;

    type Error = A::Error;

    open spec fn wf(&self) -> bool {
        &&& repeatable(self.0, self.1)
        &&& self.2.requires(())
        &&& forall|acc: O, x: A::Output| #[trigger] self.3.callable(acc, x)
    }

    open spec fn produces(&self, input: I, from: usize, r: Outcome<O, A::Error>) -> bool {
        exists|pos: Seq<usize>, outs: Seq<A::Output>, end: Outcome<(), A::Error>, accs: Seq<O>|
            #[trigger] repeat_run(self.0, input, from, self.1.spec_min(), self.1.spec_max(), pos, outs, end)
                && #[trigger] fold_chain(self.2, self.3, outs, accs) && finish(end, accs.last(), r)
    }

    fn parse(&self, input: I, from: usize) -> (r: Outcome<O, A::Error>) {
        let min = self.1.min();
        let max = self.1.max();
        let mut acc = (self.2)();
        let mut at = from;
        let mut done: usize = 0;
        let ghost mut pos: Seq<usize> = seq![from];
        let ghost mut outs: Seq<A::Output> = seq![];
        let ghost mut accs: Seq<O> = seq![acc];
        loop
            invariant
                self.wf(),
                min == self.1.spec_min(),
                max == self.1.spec_max(),
                input.boundary(from),
                input.boundary(at),
                from <= at,
                done == outs.len(),
                chain(self.0, input, pos, outs),
                fold_chain(self.2, self.3, outs, accs),
                accs.last() == acc,
                pos[0] == from,
                pos.last() == at,
                forall|k: int| 0 <= k < done ==> !#[trigger] reached(max, k),
                max is Some ==> done <= max->0,
                max is None ==> done <= at - from,
            decreases
                if max is Some { max->0 - done } else { input.size() - at },
        {
            if let Some(m) = max {
                if m == done {
                    proof {
                        let end = Ok::<(usize, ()), (usize, A::Error)>((at, ()));
                        assert(repeat_run(self.0, input, from, min, max, pos, outs, end));
                    }
                    return Ok((at, acc));
                }
            }
            match self.0.parse(input, at) {
                Ok((q, x)) => {
                    let ghost old_pos = pos;
                    let ghost old_outs = outs;
                    let ghost old_accs = accs;
                    proof {
                        input.lemma_boundary(q);
                        pos = pos.push(q);
                        outs = outs.push(x);
                    }
                    acc = self.3.combine(acc, x);
                    proof {
                        accs = accs.push(acc);
                        assert forall|k: int| 0 <= k < outs.len() implies #[trigger]
                            self.0.produces(input, pos[k], Ok((pos[k + 1], outs[k]))) by {
                            if k < old_outs.len() {
                                assert(old_pos[k] == pos[k] && old_pos[k + 1] == pos[k + 1]);
                                assert(old_outs[k] == outs[k]);
                            }
                        }
                        assert forall|k: int| 0 <= k < outs.len() implies #[trigger]
                            self.3.combines(accs[k], outs[k], accs[k + 1]) by {
                            if k < old_outs.len() {
                                assert(old_accs[k] == accs[k] && old_accs[k + 1] == accs[k + 1]);
                                assert(old_outs[k] == outs[k]);
                            }
                        }
                    }
                    at = q;
                    done = done + 1;
                },
                Err((q, e)) => {
                    proof {
                        assert(self.0.produces(input, at, Err((q, e))));
                    }
                    if q == at && done >= min {
                        proof {
                            let end = Ok::<(usize, ()), (usize, A::Error)>((at, ()));
                            assert(repeat_run(self.0, input, from, min, max, pos, outs, end));
                        }
                        return Ok((at, acc));
                    }
                    proof {
                        let end = Err::<(usize, ()), (usize, A::Error)>((q, e));
                        assert(repeat_run(self.0, input, from, min, max, pos, outs, end));
                    }
                    return Err((q, e));
                },
            }
        }
    }
}

} // verus!

verus! {

/// A container that outputs can be gathered into, one after another.
pub trait Collection<T>: Sized {
    /// `self` is what adding `items`, in order, to an empty container gives.
    spec fn holds(&self, items: Seq<T>) -> bool;

    fn empty() -> (r: Self)
        ensures
            r.holds(Seq::empty()),
    ;

    fn add(&mut self, item: T)
        ensures
            forall|items: Seq<T>| old(self).holds(items) ==> #[trigger] final(self).holds(items.push(item)),
    ;
}

impl<T> Collection<T> for Vec<T> {
    open spec fn holds(&self, items: Seq<T>) -> bool {
        self@ == items
    }

    fn empty() -> (r: Vec<T>) {
        Vec::new()
    }

    fn add(&mut self, item: T) {
        self.push(item);
    }
}

/// The map that inserting `pairs` in order into an empty map gives: a later pair wins over an
/// earlier one with the same key.
pub open spec fn inserted<K, V>(pairs: Seq<(K, V)>) -> Map<K, V>
    decreases pairs.len(),
{
    if pairs.len() == 0 {
        Map::empty()
    } else {
        inserted(pairs.drop_last()).insert(pairs.last().0, pairs.last().1)
    }
}

impl<K: core::hash::Hash + Eq, V> Collection<(K, V)> for std::collections::HashMap<K, V> {
    open spec fn holds(&self, items: Seq<(K, V)>) -> bool {
        vstd::std_specs::hash::obeys_key_model::<K>() ==> self@ == inserted(items)
    }

    fn empty() -> (r: std::collections::HashMap<K, V>) {
        std::collections::HashMap::new()
    }

    fn add(&mut self, item: (K, V)) {
        proof {
            broadcast use vstd::std_specs::hash::group_hash_axioms;
        }
        let ghost before = *self;
        let (k, v) = item;
        self.insert(k, v);
        proof {
            assert forall|items: Seq<(K, V)>| before.holds(items) implies #[trigger] self.holds(items.push(item)) by {
                assert(items.push(item).drop_last() == items);
            }
        }
    }
}

/// Repeats `A` within the bound `R` like `Repeat`, and gathers the outputs into a `C`.
#[derive(Debug)]
pub struct Collect<A, R, C>(pub A, pub R, pub core::marker::PhantomData<C>);

impl<I: Input, A: Parser<I>, R: Range, C: Collection<A::Output>> Parser<I> for Collect<A, R, C> {
    type Output = C;

    type Error = A::Error;

    open spec fn wf(&self) -> bool {
        repeatable(self.0, self.1)
    }

    open spec fn produces(&self, input: I, from: usize, r: Outcome<C, A::Error>) -> bool {
        exists|pos: Seq<usize>, outs: Seq<A::Output>, end: Outcome<(), A::Error>|
            #[trigger] repeat_run(self.0, input, from, self.1.spec_min(), self.1.spec_max(), pos, outs, end)
                && match end {
                Ok((at, _)) => r is Ok && r->Ok_0.0 == at && r->Ok_0.1.holds(outs),
                Err(e) => r == Err::<(usize, C), (usize, A::Error)>(e),
            }
    }

    fn parse(&self, input: I, from: usize) -> (r: Outcome<C, A::Error>) {
        let min = self.1.min();
        let max = self.1.max();
        let mut c = C::empty();
        let mut at = from;
        let mut done: usize = 0;
        let ghost mut pos: Seq<usize> = seq![from];
        let ghost mut outs: Seq<A::Output> = seq![];
        loop
            invariant
                self.wf(),
                min == self.1.spec_min(),
                max == self.1.spec_max(),
                input.boundary(from),
                input.boundary(at),
                from <= at,
                done == outs.len(),
                chain(self.0, input, pos, outs),
                c.holds(outs),
                pos[0] == from,
                pos.last() == at,
                forall|k: int| 0 <= k < done ==> !#[trigger] reached(max, k),
                max is Some ==> done <= max->0,
                max is None ==> done <= at - from,
            decreases
                if max is Some { max->0 - done } else { input.size() - at },
        {
            if let Some(m) = max {
                if m == done {
                    proof {
                        let end = Ok::<(usize, ()), (usize, A::Error)>((at, ()));
                        assert(repeat_run(self.0, input, from, min, max, pos, outs, end));
                    }
                    return Ok((at, c));
                }
            }
            match self.0.parse(input, at) {
                Ok((q, x)) => {
                    let ghost old_pos = pos;
                    let ghost old_outs = outs;
                    proof {
                        input.lemma_boundary(q);
                        pos = pos.push(q);
                        outs = outs.push(x);
                        assert forall|k: int| 0 <= k < outs.len() implies #[trigger]
                            self.0.produces(input, pos[k], Ok((pos[k + 1], outs[k]))) by {
                            if k < old_outs.len() {
                                assert(old_pos[k] == pos[k] && old_pos[k + 1] == pos[k + 1]);
                                assert(old_outs[k] == outs[k]);
                            }
                        }
                    }
                    c.add(x);
                    at = q;
                    done = done + 1;
                },
                Err((q, e)) => {
                    proof {
                        assert(self.0.produces(input, at, Err((q, e))));
                    }
                    if q == at && done >= min {
                        proof {
                            let end = Ok::<(usize, ()), (usize, A::Error)>((at, ()));
                            assert(repeat_run(self.0, input, from, min, max, pos, outs, end));
                        }
                        return Ok((at, c));
                    }
                    proof {
                        let end = Err::<(usize, ()), (usize, A::Error)>((q, e));
                        assert(repeat_run(self.0, input, from, min, max, pos, outs, end));
                    }
                    return Err((q, e));
                },
            }
        }
    }
}

} // verus!

verus! {

/// Each separator of `b` followed by an element of `a` consumes input.
pub open spec fn pair_progresses<I: Input, A: Parser<I>, B: Parser<I>>(a: A, b: B) -> bool {
    forall|input: I, from: usize, s: usize, y: B::Output, q: usize, x: A::Output|
        input.boundary(from) && #[trigger] b.produces(input, from, Ok((s, y)))
            && #[trigger] a.produces(input, s, Ok((q, x))) ==> from < q
}

/// What every join needs of its parsers: they may run, and where no maximum bounds the
/// repetition, each separator and element after it consume input together.
pub open spec fn joinable<I: Input, A: Parser<I>, B: Parser<I>, R: Range>(a: A, b: B, range: R) -> bool {
    &&& a.wf()
    &&& b.wf()
    &&& range.spec_max() is None ==> pair_progresses(a, b)
}

/// `outs.len()` elements of `a` joined by successes of `b`: element `k` runs from `starts[k]`
/// to `ends[k]` and gives `outs[k]`, and separator `k` runs from `ends[k]` to `starts[k + 1]`
/// and gives `seps[k]`.
pub open spec fn join_chain<I: Input, A: Parser<I>, B: Parser<I>>(
    a: A,
    b: B,
    input: I,
    starts: Seq<usize>,
    ends: Seq<usize>,
    outs: Seq<A::Output>,
    seps: Seq<B::Output>,
) -> bool {
    &&& starts.len() == outs.len()
    &&& ends.len() == outs.len()
    &&& seps.len() == (if outs.len() == 0 { 0 } else { outs.len() - 1 })
    &&& forall|k: int|
        0 <= k < outs.len() ==> #[trigger] a.produces(input, starts[k], Ok((ends[k], outs[k])))
    &&& forall|k: int|
        0 <= k < seps.len() ==> #[trigger] b.produces(input, ends[k], Ok((starts[k + 1], seps[k])))
}

/// How a join stops after `n` elements, the last of which ended at `at`: with success where
/// the maximum is reached; else, with no element yet, the first element fails, and that gives
/// success at `from` where it consumed nothing and the minimum is zero; else the separator
/// fails, and that gives success at `at` where it consumed nothing and the minimum is met; or
/// the separator succeeds and the element after it fails, which is passed on.
pub open spec fn join_end<I: Input, A: Parser<I>, B: Parser<I, Error = A::Error>>(
    a: A,
    b: B,
    input: I,
    from: usize,
    n: int,
    at: usize,
    min: usize,
    max: Option<usize>,
    end: Outcome<(), A::Error>,
) -> bool {
    if reached(max, n) {
        end == Ok::<(usize, ()), (usize, A::Error)>((at, ()))
    } else if n == 0 {
        exists|q: usize, e: A::Error|
            #[trigger] a.produces(input, from, Err((q, e))) && end == (if q == from && min == 0 {
                Ok::<(usize, ()), (usize, A::Error)>((from, ()))
            } else {
                Err((q, e))
            })
    } else {
        ||| exists|q: usize, e: A::Error|
            #[trigger] b.produces(input, at, Err((q, e))) && end == (if q == at && n >= min {
                Ok::<(usize, ()), (usize, A::Error)>((at, ()))
            } else {
                Err((q, e))
            })
        ||| exists|s: usize, y: B::Output, e: (usize, A::Error)|
            #[trigger] b.produces(input, at, Ok((s, y))) && #[trigger] a.produces(input, s, Err(e))
                && end == Err::<(usize, ()), (usize, A::Error)>(e)
    }
}

/// One way that joining `a` by `b` between `min` and `max` times from `from` can go.
pub open spec fn join_run<I: Input, A: Parser<I>, B: Parser<I, Error = A::Error>>(
    a: A,
    b: B,
    input: I,
    from: usize,
    min: usize,
    max: Option<usize>,
    starts: Seq<usize>,
    ends: Seq<usize>,
    outs: Seq<A::Output>,
    seps: Seq<B::Output>,
    end: Outcome<(), A::Error>,
) -> bool {
    &&& join_chain(a, b, input, starts, ends, outs, seps)
    &&& outs.len() > 0 ==> starts[0] == from
    &&& forall|k: int| 0 <= k < outs.len() ==> !#[trigger] reached(max, k)
    &&& join_end(a, b, input, from, outs.len() as int, if outs.len() == 0 { from } else { ends.last() }, min, max, end)
}

/// Parses `A (B A)*` within the bound `R` on the number of `A`s, and gives the outputs of `A`.
#[derive(Copy, Clone, Debug, PartialEq)]
pub struct Join<A, B, R>(pub A, pub B, pub R);

impl<I: Input, A: Parser<I>, B: Parser<I, Error = A::Error>, R: Range> Parser<I> for Join<A, B, R> {
    type Output = Vec<A::Output>;

    type Error = A::Error;

    open spec fn wf(&self) -> bool {
        joinable(self.0, self.1, self.2)
    }

    open spec fn produces(&self, input: I, from: usize, r: Outcome<Vec<A::Output>, A::Error>) -> bool {
        exists|
            starts: Seq<usize>,
            ends: Seq<usize>,
            outs: Seq<A::Output>,
            seps: Seq<B::Output>,
            end: Outcome<(), A::Error>,
        |
            #[trigger] join_run(self.0, self.1, input, from, self.2.spec_min(), self.2.spec_max(), starts, ends, outs, seps, end)
                && match end {
                Ok((at, _)) => r is Ok && r->Ok_0.0 == at && r->Ok_0.1@ == outs,
                Err(e) => r == Err::<(usize, Vec<A::Output>), (usize, A::Error)>(e),
            }
    }

    fn parse(&self, input: I, from: usize) -> (r: Outcome<Vec<A::Output>, A::Error>) {
        let min = self.2.min();
        let max = self.2.max();
        let mut items: Vec<A::Output> = Vec::new();
        if let Some(m) = max {
            if m == 0 {
                proof {
                    let end = Ok::<(usize, ()), (usize, A::Error)>((from, ()));
                    assert(join_run(self.0, self.1, input, from, min, max, seq![], seq![], items@, seq![], end));
                }
                return Ok((from, items));
            }
        }
        let mut at = match self.0.parse(input, from) {
            Ok((q, x)) => {
                items.push(x);
                q
            },
            Err((q, e)) => {
                proof {
                    assert(self.0.produces(input, from, Err((q, e))));
                }
                if q == from && min == 0 {
                    proof {
                        let end = Ok::<(usize, ()), (usize, A::Error)>((from, ()));
                        assert(join_run(self.0, self.1, input, from, min, max, seq![], seq![], items@, seq![], end));
                    }
                    return Ok((from, items));
                }
                proof {
                    let end = Err::<(usize, ()), (usize, A::Error)>((q, e));
                    assert(join_run(self.0, self.1, input, from, min, max, seq![], seq![], items@, seq![], end));
                }
                return Err((q, e));
            },
        };
        let ghost mut starts: Seq<usize> = seq![from];
        let ghost mut ends: Seq<usize> = seq![at];
        let ghost mut seps: Seq<B::Output> = seq![];
        loop
            invariant
                self.wf(),
                min == self.2.spec_min(),
                max == self.2.spec_max(),
                input.boundary(from),
                input.boundary(at),
                from <= at,
                items@.len() >= 1,
                join_chain(self.0, self.1, input, starts, ends, items@, seps),
                starts[0] == from,
                ends.last() == at,
                forall|k: int| 0 <= k < items@.len() - 1 ==> !#[trigger] reached(max, k),
                !reached(max, 0),
                max is Some ==> items@.len() <= max->0,
            decreases
                if max is Some { max->0 - items@.len() } else { input.size() - at },
        {
            let done = items.len();
            if let Some(m) = max {
                if m == done {
                    proof {
                        let end = Ok::<(usize, ()), (usize, A::Error)>((at, ()));
                        assert(join_run(self.0, self.1, input, from, min, max, starts, ends, items@, seps, end));
                    }
                    return Ok((at, items));
                }
            }
            let (s, y) = match self.1.parse(input, at) {
                Ok(v) => v,
                Err((q, e)) => {
                    proof {
                        assert(self.1.produces(input, at, Err((q, e))));
                    }
                    if q == at && done >= min {
                        proof {
                            let end = Ok::<(usize, ()), (usize, A::Error)>((at, ()));
                            assert(join_run(self.0, self.1, input, from, min, max, starts, ends, items@, seps, end));
                        }
                        return Ok((at, items));
                    }
                    proof {
                        let end = Err::<(usize, ()), (usize, A::Error)>((q, e));
                        assert(join_run(self.0, self.1, input, from, min, max, starts, ends, items@, seps, end));
                    }
                    return Err((q, e));
                },
            };
            proof {
                assert(self.1.produces(input, at, Ok((s, y))));
            }
            match self.0.parse(input, s) {
                Ok((q, x)) => {
                    let ghost old_starts = starts;
                    let ghost old_ends = ends;
                    let ghost old_outs = items@;
                    let ghost old_seps = seps;
                    proof {
                        input.lemma_boundary(q);
                        starts = starts.push(s);
                        ends = ends.push(q);
                        seps = seps.push(y);
                        let outs = old_outs.push(x);
                        assert forall|k: int| 0 <= k < outs.len() implies #[trigger]
                            self.0.produces(input, starts[k], Ok((ends[k], outs[k]))) by {
                            if k < old_outs.len() {
                                assert(old_starts[k] == starts[k] && old_ends[k] == ends[k]);
                                assert(old_outs[k] == outs[k]);
                            }
                        }
                        assert forall|k: int| 0 <= k < seps.len() implies #[trigger]
                            self.1.produces(input, ends[k], Ok((starts[k + 1], seps[k]))) by {
                            if k < old_seps.len() {
                                assert(old_ends[k] == ends[k] && old_starts[k + 1] == starts[k + 1]);
                                assert(old_seps[k] == seps[k]);
                            }
                        }
                    }
                    items.push(x);
                    at = q;
                },
                Err(e) => {
                    proof {
                        assert(self.0.produces(input, s, Err(e)));
                        let end = Err::<(usize, ()), (usize, A::Error)>(e);
                        assert(join_run(self.0, self.1, input, from, min, max, starts, ends, items@, seps, end));
                    }
                    return Err(e);
                },
            }
        }
    }
}

} // verus!

verus! {

/// `accs` are the values a joined fold goes through: `init` makes the first, `first` folds in
/// the first element, and `rest` folds in each later element with the separator before it.
pub open spec fn join_fold_chain<X, Y, O, S: Fn() -> O, F: Combine<O, X>, G: CombineJoined<O, Y, X>>(
    init: S,
    first: F,
    rest: G,
    outs: Seq<X>,
    seps: Seq<Y>,
    accs: Seq<O>,
) -> bool {
    &&& accs.len() == outs.len() + 1
    &&& init.ensures((), accs[0])
    &&& outs.len() > 0 ==> first.combines(accs[0], outs[0], accs[1])
    &&& forall|k: int|
        1 <= k < outs.len() ==> #[trigger] rest.combines(accs[k], seps[k - 1], outs[k], accs[k + 1])
}

/// Joins `A` by `B` within the bound `R` like `Join`, and folds as it goes: `S` makes the first
/// value, `F` folds in the first element, and `G` each later one with the separator before it.
#[derive(Copy, Clone, Debug, PartialEq)]
pub struct JoinFold<A, B, R, S, F, G>(pub A, pub B, pub R, pub S, pub F, pub G);

impl<
    I: Input,
    A: Parser<I>,
    B: Parser<I, Error = A::Error>,
    R: Range,
    O,
    S: Fn() -> O,
    F: Combine<O, A::Output>,
    G: CombineJoined<O, B::Output, A::Output>,
> Parser<I> for JoinFold<A, B, R, S, F, G> {
    type Output = O;

    type Error = A::Error;

    open spec fn wf(&self) -> bool {
        &&& joinable(self.0, self.1, self.2)
        &&& self.3.requires(())
        &&& forall|acc: O, x: A::Output| #[trigger] self.4.callable(acc, x)
        &&& forall|acc: O, y: B::Output, x: A::Output| #[trigger] self.5.callable(acc, y, x)
    }

    open spec fn produces(&self, input: I, from: usize, r: Outcome<O, A::Error>) -> bool {
        exists|
            starts: Seq<usize>,
            ends: Seq<usize>,
            outs: Seq<A::Output>,
            seps: Seq<B::Output>,
            end: Outcome<(), A::Error>,
            accs: Seq<O>,
        |
            #[trigger] join_run(self.0, self.1, input, from, self.2.spec_min(), self.2.spec_max(), starts, ends, outs, seps, end)
                && #[trigger] join_fold_chain(self.3, self.4, self.5, outs, seps, accs)
                && finish(end, accs.last(), r)
    }

    fn parse(&self, input: I, from: usize) -> (r: Outcome<O, A::Error>) {
        let min = self.2.min();
        let max = self.2.max();
        let mut acc = (self.3)();
        let ghost mut accs: Seq<O> = seq![acc];
        if let Some(m) = max {
            if m == 0 {
                proof {
                    let end = Ok::<(usize, ()), (usize, A::Error)>((from, ()));
                    assert(join_run(self.0, self.1, input, from, min, max, seq![], seq![], seq![], seq![], end));
                    assert(join_fold_chain(self.3, self.4, self.5, seq![], seq![], accs));
                }
                return Ok((from, acc));
            }
        }
        let ghost mut outs: Seq<A::Output> = seq![];
        let mut at = match self.0.parse(input, from) {
            Ok((q, x)) => {
                proof {
                    outs = seq![x];
                }
                acc = self.4.combine(acc, x);
                proof {
                    accs = accs.push(acc);
                }
                q
            },
            Err((q, e)) => {
                proof {
                    assert(self.0.produces(input, from, Err((q, e))));
                    assert(join_fold_chain(self.3, self.4, self.5, seq![], seq![], accs));
                }
                if q == from && min == 0 {
                    proof {
                        let end = Ok::<(usize, ()), (usize, A::Error)>((from, ()));
                        assert(join_run(self.0, self.1, input, from, min, max, seq![], seq![], seq![], seq![], end));
                    }
                    return Ok((from, acc));
                }
                proof {
                    let end = Err::<(usize, ()), (usize, A::Error)>((q, e));
                    assert(join_run(self.0, self.1, input, from, min, max, seq![], seq![], seq![], seq![], end));
                }
                return Err((q, e));
            },
        };
        let mut done: usize = 1;
        let ghost mut starts: Seq<usize> = seq![from];
        let ghost mut ends: Seq<usize> = seq![at];
        let ghost mut seps: Seq<B::Output> = seq![];
        loop
            invariant
                self.wf(),
                min == self.2.spec_min(),
                max == self.2.spec_max(),
                input.boundary(from),
                input.boundary(at),
                from <= at,
                outs.len() >= 1,
                done as int == if outs.len() < usize::MAX { outs.len() as int } else { usize::MAX as int },
                join_chain(self.0, self.1, input, starts, ends, outs, seps),
                join_fold_chain(self.3, self.4, self.5, outs, seps, accs),
                accs.last() == acc,
                starts[0] == from,
                ends.last() == at,
                forall|k: int| 0 <= k < outs.len() - 1 ==> !#[trigger] reached(max, k),
                !reached(max, 0),
                max is Some ==> outs.len() <= max->0,
            decreases
                if max is Some { max->0 - outs.len() } else { input.size() - at },
        {
            if let Some(m) = max {
                if m == done {
                    proof {
                        let end = Ok::<(usize, ()), (usize, A::Error)>((at, ()));
                        assert(join_run(self.0, self.1, input, from, min, max, starts, ends, outs, seps, end));
                    }
                    return Ok((at, acc));
                }
            }
            let (s, y) = match self.1.parse(input, at) {
                Ok(v) => v,
                Err((q, e)) => {
                    proof {
                        assert(self.1.produces(input, at, Err((q, e))));
                    }
                    if q == at && done >= min {
                        proof {
                            let end = Ok::<(usize, ()), (usize, A::Error)>((at, ()));
                            assert(join_run(self.0, self.1, input, from, min, max, starts, ends, outs, seps, end));
                        }
                        return Ok((at, acc));
                    }
                    proof {
                        let end = Err::<(usize, ()), (usize, A::Error)>((q, e));
                        assert(join_run(self.0, self.1, input, from, min, max, starts, ends, outs, seps, end));
                    }
                    return Err((q, e));
                },
            };
            proof {
                assert(self.1.produces(input, at, Ok((s, y))));
            }
            match self.0.parse(input, s) {
                Ok((q, x)) => {
                    let ghost old_starts = starts;
                    let ghost old_ends = ends;
                    let ghost old_outs = outs;
                    let ghost old_seps = seps;
                    let ghost old_accs = accs;
                    proof {
                        input.lemma_boundary(q);
                        starts = starts.push(s);
                        ends = ends.push(q);
                        seps = seps.push(y);
                        outs = outs.push(x);
                    }
                    acc = self.5.combine(acc, y, x);
                    proof {
                        accs = accs.push(acc);
                        assert forall|k: int| 0 <= k < outs.len() implies #[trigger]
                            self.0.produces(input, starts[k], Ok((ends[k], outs[k]))) by {
                            if k < old_outs.len() {
                                assert(old_starts[k] == starts[k] && old_ends[k] == ends[k]);
                                assert(old_outs[k] == outs[k]);
                            }
                        }
                        assert forall|k: int| 0 <= k < seps.len() implies #[trigger]
                            self.1.produces(input, ends[k], Ok((starts[k + 1], seps[k]))) by {
                            if k < old_seps.len() {
                                assert(old_ends[k] == ends[k] && old_starts[k + 1] == starts[k + 1]);
                                assert(old_seps[k] == seps[k]);
                            }
                        }
                        assert forall|k: int| 1 <= k < outs.len() implies #[trigger]
                            self.5.combines(accs[k], seps[k - 1], outs[k], accs[k + 1]) by {
                            if k < old_outs.len() {
                                assert(old_accs[k] == accs[k] && old_accs[k + 1] == accs[k + 1]);
                                assert(old_seps[k - 1] == seps[k - 1] && old_outs[k] == outs[k]);
                            }
                        }
                        assert(accs[0] == old_accs[0] && accs[1] == old_accs[1] && outs[0] == old_outs[0]);
                    }
                    at = q;
                    done = done.saturating_add(1);
                },
                Err(e) => {
                    proof {
                        assert(self.0.produces(input, s, Err(e)));
                        let end = Err::<(usize, ()), (usize, A::Error)>(e);
                        assert(join_run(self.0, self.1, input, from, min, max, starts, ends, outs, seps, end));
                    }
                    return Err(e);
                },
            }
        }
    }
}

impl<A, R> P<Repeat<A, R>> {
    /// Gathers the outputs into a container of type `C` instead of a `Vec`.
    pub fn collect<C>(self) -> (r: P<Collect<A, R, C>>)
        ensures
            r.0.0 == self.0.0,
            r.0.1 == self.0.1,
    {
        P(Collect(self.0.0, self.0.1, core::marker::PhantomData))
    }

    /// Puts a separator `b` between the repeated elements.
    pub fn join<B>(self, b: B) -> (r: P<Join<A, B, R>>)
        ensures
            r.0.0 == self.0.0,
            r.0.1 == b,
            r.0.2 == self.0.1,
    {
        P(Join(self.0.0, b, self.0.1))
    }

    /// Folds the outputs, from the value `seed` makes, with `f`.
    pub fn fold<S, F>(self, seed: S, f: F) -> (r: P<Fold<A, R, S, F>>)
        ensures
            r.0.0 == self.0.0,
            r.0.1 == self.0.1,
            r.0.2 == seed,
            r.0.3 == f,
    {
        P(Fold(self.0.0, self.0.1, seed, f))
    }
}

impl<A, B, R> P<Join<A, B, R>> {
    /// Folds the joined elements: `init` makes the first value, `first` folds in the first
    /// element, and `rest` each later one with the separator before it.
    pub fn fold<S, F, G>(self, init: S, first: F, rest: G) -> (r: P<JoinFold<A, B, R, S, F, G>>)
        ensures
            r.0.0 == self.0.0,
            r.0.1 == self.0.1,
            r.0.2 == self.0.2,
            r.0.3 == init,
            r.0.4 == first,
            r.0.5 == rest,
    {
        P(JoinFold(self.0.0, self.0.1, self.0.2, init, first, rest))
    }
}

} // verus!
