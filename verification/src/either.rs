use vstd::prelude::*;

use crate::chain::{ChainLink, Measured};

verus! {

/// A tagged choice between two component kinds with the same input and
/// output types: with it a group or pipeline slot can hold members of
/// different shapes (a stage beside a nested pipeline, say), one variant
/// each.
pub enum Either<A, B> {
    First(A),
    Second(B),
}

/// The model of an [`Either`] member: the model of whichever component it
/// holds.
pub enum EitherModel<MA, MB> {
    First(MA),
    Second(MB),
}

impl<A: ChainLink, B: ChainLink<TInput = A::TInput, TOutput = A::TOutput>> ChainLink for Either<
    A,
    B,
> {
    type TInput = A::TInput;

    type TOutput = A::TOutput;

    type Model = EitherModel<A::Model, B::Model>;

    closed spec fn model(self) -> EitherModel<A::Model, B::Model> {
        match self {
            Either::First(link) => EitherModel::First(link.model()),
            Either::Second(link) => EitherModel::Second(link.model()),
        }
    }

    open spec fn push_spec(m: EitherModel<A::Model, B::Model>, input: A::TInput) -> EitherModel<
        A::Model,
        B::Model,
    > {
        match m {
            EitherModel::First(link) => EitherModel::First(A::push_spec(link, input)),
            EitherModel::Second(link) => EitherModel::Second(B::push_spec(link, input)),
        }
    }

    open spec fn push_if_empty_spec(
        m: EitherModel<A::Model, B::Model>,
        input: A::TInput,
    ) -> EitherModel<A::Model, B::Model> {
        match m {
            EitherModel::First(link) => EitherModel::First(A::push_if_empty_spec(link, input)),
            EitherModel::Second(link) => EitherModel::Second(B::push_if_empty_spec(link, input)),
        }
    }

    open spec fn pop_spec(m: EitherModel<A::Model, B::Model>) -> EitherModel<A::Model, B::Model> {
        match m {
            EitherModel::First(link) => EitherModel::First(A::pop_spec(link)),
            EitherModel::Second(link) => EitherModel::Second(B::pop_spec(link)),
        }
    }

    open spec fn popped(m: EitherModel<A::Model, B::Model>) -> Option<A::TOutput> {
        match m {
            EitherModel::First(link) => A::popped(link),
            EitherModel::Second(link) => B::popped(link),
        }
    }

    open spec fn process_spec(m: EitherModel<A::Model, B::Model>) -> EitherModel<
        A::Model,
        B::Model,
    > {
        match m {
            EitherModel::First(link) => EitherModel::First(A::process_spec(link)),
            EitherModel::Second(link) => EitherModel::Second(B::process_spec(link)),
        }
    }

    open spec fn progressed(m: EitherModel<A::Model, B::Model>) -> bool {
        match m {
            EitherModel::First(link) => A::progressed(link),
            EitherModel::Second(link) => B::progressed(link),
        }
    }

    fn push(&mut self, input: A::TInput) {
        match self {
            Either::First(link) => link.push(input),
            Either::Second(link) => link.push(input),
        }
    }

    fn push_if_empty(&mut self, input: A::TInput) {
        match self {
            Either::First(link) => link.push_if_empty(input),
            Either::Second(link) => link.push_if_empty(input),
        }
    }

    fn try_pop(&mut self) -> (popped: Option<A::TOutput>) {
        match self {
            Either::First(link) => link.try_pop(),
            Either::Second(link) => link.try_pop(),
        }
    }

    fn process(&mut self) -> (made: bool) {
        match self {
            Either::First(link) => link.process(),
            Either::Second(link) => link.process(),
        }
    }
}

impl<A: Measured, B: Measured<TInput = A::TInput, TOutput = A::TOutput>> Measured for Either<
    A,
    B,
> {
    open spec fn measure(m: EitherModel<A::Model, B::Model>) -> nat {
        match m {
            EitherModel::First(link) => A::measure(link),
            EitherModel::Second(link) => B::measure(link),
        }
    }

    proof fn process_reduces_measure(m: EitherModel<A::Model, B::Model>) {
        match m {
            EitherModel::First(link) => A::process_reduces_measure(link),
            EitherModel::Second(link) => B::process_reduces_measure(link),
        }
    }

    proof fn pop_reduces_measure(m: EitherModel<A::Model, B::Model>) {
        match m {
            EitherModel::First(link) => A::pop_reduces_measure(link),
            EitherModel::Second(link) => B::pop_reduces_measure(link),
        }
    }
}

} // verus!
