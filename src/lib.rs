//! Parser combinators over text and byte buffers.
//!
//! A parser looks at an input from a starting offset and gives back either the offset after
//! what it matched together with an output, or the offset where it stopped together with an
//! error. A failure reported at the starting offset consumed nothing and may be recovered from
//! by an alternative; a failure reported further on is committed and travels up unchanged.
use vstd::prelude::*;
use vstd::string::StringSliceAdditionalSpecFns;

pub mod ascii;
pub mod byte;
pub mod error;
pub mod laws;
pub mod repeat;
pub mod sequence;
pub mod str;
pub mod text;
pub mod transform;

pub use crate::repeat::{
    Collect, Collection, Combine, CombineJoined, Fold, Join, JoinFold, Range, Repeat,
};
pub use crate::sequence::{And, AndSkip, Bind, Optional, Or, SkipAnd, Try};
pub use crate::transform::{AndThen, Fail, Guard, MapErr, MapOutput, Position, Succeed};

verus! {

/// What one parse step gives: the offset after the match and the output, or the offset of the
/// mismatch and the error.
pub type Outcome<O, E> = core::result::Result<(usize, O), (usize, E)>;

/// The offset an outcome reports, whether it is a success or a failure.
pub open spec fn position<O, E>(r: Outcome<O, E>) -> usize {
    match r {
        Ok((p, _)) => p,
        Err((p, _)) => p,
    }
}

/// A buffer that parsers can read: it has a length in units and a set of offsets at which a
/// parse may start or stop.
pub trait Input: Copy {
    spec fn size(&self) -> nat;

    spec fn boundary(&self, pos: usize) -> bool;

    proof fn lemma_boundary(&self, pos: usize)
        requires
            self.boundary(pos),
        ensures
            pos <= self.size(),
    ;
}

impl<'a> Input for &'a [u8] {
    open spec fn size(&self) -> nat {
        self@.len()
    }

    open spec fn boundary(&self, pos: usize) -> bool {
        pos <= self@.len()
    }

    proof fn lemma_boundary(&self, pos: usize) {
    }
}

impl<'a> Input for &'a str {
    open spec fn size(&self) -> nat {
        self.spec_bytes().len()
    }

    open spec fn boundary(&self, pos: usize) -> bool {
        crate::text::at_boundary(*self, pos as int)
    }

    proof fn lemma_boundary(&self, pos: usize) {
        broadcast use vstd::utf8::encode_utf8_valid_utf8;

    }
}

/// The capability every parser has: parse `input` from offset `from`.
///
/// What a parse may give is stated by `produces`, a relation rather than a function: a parser
/// that holds functions of its caller knows them only through their contracts. Every outcome
/// reports an offset at or after `from`, at a boundary of the input.
pub trait Parser<I: Input> {
    type Output;

    type Error;

    /// Holds when the parser may run: every function it holds may be called on any argument
    /// and, where it is itself a parser, gives offsets that respect the input's boundaries; a
    /// repetition without a maximum also needs each round to consume input.
    spec fn wf(&self) -> bool;

    /// `r` is an outcome that parsing `input` from `from` may give.
    spec fn produces(&self, input: I, from: usize, r: Outcome<Self::Output, Self::Error>) -> bool;

    fn parse(&self, input: I, from: usize) -> (r: Outcome<Self::Output, Self::Error>)
        requires
            self.wf(),
            input.boundary(from),
        ensures
            self.produces(input, from, r),
            from <= position(r),
            input.boundary(position(r)),
    ;

    /// Wraps the parser in `P`, which gives it the operators `|`, `<<` and `>>`.
    fn p(self) -> (r: P<Self>) where Self: Sized
        ensures
            r.0 == self,
    {
        P(self)
    }

    /// Borrows the parser, so that a combinator can use it without taking it over.
    fn by_ref(&self) -> (r: P<ByRef<'_, Self>>) where Self: Sized
        ensures
            *r.0.0 == *self,
    {
        P(ByRef(self))
    }

    /// This parser, then `b`; gives both outputs.
    fn and<B>(self, b: B) -> (r: P<And<Self, B>>) where Self: Sized
        ensures
            r.0.0 == self,
            r.0.1 == b,
    {
        P(And(self, b))
    }

    /// This parser, then `b`; gives the output of this one.
    fn and_skip<B>(self, b: B) -> (r: P<AndSkip<Self, B>>) where Self: Sized
        ensures
            r.0.0 == self,
            r.0.1 == b,
    {
        P(AndSkip(self, b))
    }

    /// This parser, then `b`; gives the output of `b`.
    fn skip_and<B>(self, b: B) -> (r: P<SkipAnd<Self, B>>) where Self: Sized
        ensures
            r.0.0 == self,
            r.0.1 == b,
    {
        P(SkipAnd(self, b))
    }

    /// This parser or, where it fails without consuming input, `b`.
    fn or<B>(self, b: B) -> (r: P<Or<Self, B>>) where Self: Sized
        ensures
            r.0.0 == self,
            r.0.1 == b,
    {
        P(Or(self, b))
    }

    /// Applies `f` to the output of a success.
    fn map<F, O>(self, f: F) -> (r: P<MapOutput<Self, F>>) where Self: Sized, F: Fn(Self::Output) -> O
        ensures
            r.0.0 == self,
            r.0.1 == f,
    {
        P(MapOutput(self, f))
    }

    /// Applies `f` to the error of a failure.
    fn map_err<F, E>(self, f: F) -> (r: P<MapErr<Self, F>>) where Self: Sized, F: Fn(Self::Error) -> E
        ensures
            r.0.0 == self,
            r.0.1 == f,
    {
        P(MapErr(self, f))
    }

    /// Checks the output of a success with `f`, which may turn it into an error.
    fn and_then<F, O>(self, f: F) -> (r: P<AndThen<Self, F>>) where
        Self: Sized,
        F: Fn(Self::Output) -> core::result::Result<O, Self::Error>,
        ensures
            r.0.0 == self,
            r.0.1 == f,
    {
        P(AndThen(self, f))
    }

    /// Makes a failure at the start offset a success with `None`.
    fn optional(self) -> (r: P<Optional<Self>>) where Self: Sized
        ensures
            r.0.0 == self,
    {
        P(Optional(self))
    }

    /// Runs the parser that `f` makes of this one's output, where this one stopped.
    fn bind<B, F>(self, f: F) -> (r: P<Bind<Self, F>>) where Self: Sized, F: Fn(Self::Output) -> B
        ensures
            r.0.0 == self,
            r.0.1 == f,
    {
        P(Bind(self, f))
    }

    /// Repeats the parser within the bound `range`.
    fn repeat<R>(self, range: R) -> (r: P<Repeat<Self, R>>) where Self: Sized
        ensures
            r.0.0 == self,
            r.0.1 == range,
    {
        P(Repeat(self, range))
    }
}

/// A function from an input and an offset to an outcome is a parser.
impl<I: Input, O, E, F: Fn(I, usize) -> Outcome<O, E>> Parser<I> for F {
    type Output = O;

    type Error = E;

    open spec fn wf(&self) -> bool {
        &&& forall|i: I, from: usize| i.boundary(from) ==> #[trigger] self.requires((i, from))
        &&& forall|i: I, from: usize, r: Outcome<O, E>| i.boundary(from) && #[trigger]
            self.ensures((i, from), r) ==> from <= position(r) && i.boundary(position(r))
    }

    open spec fn produces(&self, input: I, from: usize, r: Outcome<O, E>) -> bool {
        self.ensures((input, from), r)
    }

    fn parse(&self, input: I, from: usize) -> (r: Outcome<O, E>) {
        self(input, from)
    }
}

/// A plain wrapper that gives any parser the combinator methods and operators.
#[derive(Copy, Clone, Debug, PartialEq)]
pub struct P<A>(pub A);

impl<I: Input, A: Parser<I>> Parser<I> for P<A> {
    type Output = A::Output;

    type Error = A::Error;

    open spec fn wf(&self) -> bool {
        self.0.wf()
    }

    open spec fn produces(&self, input: I, from: usize, r: Outcome<A::Output, A::Error>) -> bool {
        self.0.produces(input, from, r)
    }

    fn parse(&self, input: I, from: usize) -> (r: Outcome<A::Output, A::Error>) {
        self.0.parse(input, from)
    }
}

/// Lets a combinator use a parser without taking it over.
#[derive(Debug, PartialEq)]
pub struct ByRef<'a, A>(pub &'a A);

impl<'a, I: Input, A: Parser<I>> Parser<I> for ByRef<'a, A> {
    type Output = A::Output;

    type Error = A::Error;

    open spec fn wf(&self) -> bool {
        self.0.wf()
    }

    open spec fn produces(&self, input: I, from: usize, r: Outcome<A::Output, A::Error>) -> bool {
        self.0.produces(input, from, r)
    }

    fn parse(&self, input: I, from: usize) -> (r: Outcome<A::Output, A::Error>) {
        self.0.parse(input, from)
    }
}

/// A function that also reads a value of its own: `Pack(f, a)` parses with `f(input, from, &a)`.
#[derive(Copy, Clone, Debug, PartialEq)]
pub struct Pack<F, A>(pub F, pub A);

impl<I: Input, A, O, E, F: Fn(I, usize, &A) -> Outcome<O, E>> Parser<I> for Pack<F, A> {
    type Output = O;

    type Error = E;

    open spec fn wf(&self) -> bool {
        &&& forall|i: I, from: usize| i.boundary(from) ==> #[trigger] self.0.requires((i, from, &self.1))
        &&& forall|i: I, from: usize, r: Outcome<O, E>| i.boundary(from) && #[trigger]
            self.0.ensures((i, from, &self.1), r) ==> from <= position(r) && i.boundary(position(r))
    }

    open spec fn produces(&self, input: I, from: usize, r: Outcome<O, E>) -> bool {
        self.0.ensures((input, from, &self.1), r)
    }

    fn parse(&self, input: I, from: usize) -> (r: Outcome<O, E>) {
        (self.0)(input, from, &self.1)
    }
}

impl<A, B> core::ops::BitOr<B> for P<A> {
    type Output = P<Or<A, B>>;

    fn bitor(self, b: B) -> (r: P<Or<A, B>>)
        ensures
            r.0.0 == self.0,
            r.0.1 == b,
    {
        P(Or(self.0, b))
    }
}

impl<A, B> vstd::std_specs::ops::BitOrSpecImpl<B> for P<A> {
    open spec fn obeys_bitor_spec() -> bool {
        true
    }

    open spec fn bitor_req(self, b: B) -> bool {
        true
    }

    open spec fn bitor_spec(self, b: B) -> P<Or<A, B>> {
        P(Or(self.0, b))
    }
}

impl<A, B> core::ops::Shl<B> for P<A> {
    type Output = P<AndSkip<A, B>>;

    fn shl(self, b: B) -> (r: P<AndSkip<A, B>>)
        ensures
            r.0.0 == self.0,
            r.0.1 == b,
    {
        P(AndSkip(self.0, b))
    }
}

impl<A, B> vstd::std_specs::ops::ShlSpecImpl<B> for P<A> {
    open spec fn obeys_shl_spec() -> bool {
        true
    }

    open spec fn shl_req(self, b: B) -> bool {
        true
    }

    open spec fn shl_spec(self, b: B) -> P<AndSkip<A, B>> {
        P(AndSkip(self.0, b))
    }
}

impl<A, B> core::ops::Shr<B> for P<A> {
    type Output = P<SkipAnd<A, B>>;

    fn shr(self, b: B) -> (r: P<SkipAnd<A, B>>)
        ensures
            r.0.0 == self.0,
            r.0.1 == b,
    {
        P(SkipAnd(self.0, b))
    }
}

impl<A, B> vstd::std_specs::ops::ShrSpecImpl<B> for P<A> {
    open spec fn obeys_shr_spec() -> bool {
        true
    }

    open spec fn shr_req(self, b: B) -> bool {
        true
    }

    open spec fn shr_spec(self, b: B) -> P<SkipAnd<A, B>> {
        P(SkipAnd(self.0, b))
    }
}

} // verus!
