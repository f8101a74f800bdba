use vstd::prelude::*;

verus! {

/// The capability contract that every component of the library offers:
/// stages, sequential pipelines, fan-out groups and replication groups all
/// implement these four operations, so any of them can stand wherever a
/// single stage could.
///
/// Each implementor names a mathematical `Model` of its state and gives the
/// four operations as functions on that model; the executable methods
/// promise to move the state exactly as the model functions say.
pub trait ChainLink: Sized {
    /// What a caller pushes in.
    type TInput;

    /// What `try_pop` hands back out.
    type TOutput;

    /// The mathematical model of this component's state.
    type Model;

    /// The model of the current state.
    spec fn model(self) -> Self::Model;

    /// What `push` does to the model.
    spec fn push_spec(m: Self::Model, input: Self::TInput) -> Self::Model;

    /// What `push_if_empty` does to the model.
    spec fn push_if_empty_spec(m: Self::Model, input: Self::TInput) -> Self::Model;

    /// What `try_pop` does to the model.
    spec fn pop_spec(m: Self::Model) -> Self::Model;

    /// What `try_pop` returns.
    spec fn popped(m: Self::Model) -> Option<Self::TOutput>;

    /// What `process` does to the model.
    spec fn process_spec(m: Self::Model) -> Self::Model;

    /// Whether `process` reports that it produced at least one unit of work.
    spec fn progressed(m: Self::Model) -> bool;

    /// Enqueue one input; never blocks and enforces no upper bound.
    fn push(&mut self, input: Self::TInput)
        ensures
            final(self).model() == Self::push_spec(old(self).model(), input),
    ;

    /// Enqueue one input only when no input is already pending, so that a
    /// driver polling faster than the component drains cannot build up a
    /// backlog.
    fn push_if_empty(&mut self, input: Self::TInput)
        ensures
            final(self).model() == Self::push_if_empty_spec(old(self).model(), input),
    ;

    /// Remove the next completed output if one exists; never blocks
    /// waiting for future output.
    fn try_pop(&mut self) -> (popped: Option<Self::TOutput>)
        ensures
            final(self).model() == Self::pop_spec(old(self).model()),
            popped == Self::popped(old(self).model()),
    ;

    /// Drive one round of work; the result says whether at least one unit
    /// of work was produced, so a caller can detect quiescence.
    fn process(&mut self) -> (made: bool)
        ensures
            final(self).model() == Self::process_spec(old(self).model()),
            made == Self::progressed(old(self).model()),
    ;
}

/// A component with a bound on how much work it can still do before it
/// needs new input from outside.
///
/// The sequential pipeline repeats its propagation loop as long as its
/// upstream member reports progress; these two laws are what guarantee
/// that the loop always comes to rest.
pub trait Measured: ChainLink {
    /// An upper bound on the work this component can still perform
    /// without receiving a new `push`.
    spec fn measure(m: Self::Model) -> nat;

    /// A `process` call that reports progress consumes part of the
    /// measure, and one that reports none never grows it.
    proof fn process_reduces_measure(m: Self::Model)
        ensures
            Self::progressed(m) ==> Self::measure(Self::process_spec(m)) < Self::measure(m),
            !Self::progressed(m) ==> Self::measure(Self::process_spec(m)) <= Self::measure(m),
    ;

    /// A `try_pop` call never grows the measure, and one that yields an
    /// output strictly shrinks it.
    proof fn pop_reduces_measure(m: Self::Model)
        ensures
            Self::popped(m) is Some ==> Self::measure(Self::pop_spec(m)) < Self::measure(m),
            Self::popped(m) is None ==> Self::measure(Self::pop_spec(m)) <= Self::measure(m),
    ;
}

} // verus!
