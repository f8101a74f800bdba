use vstd::prelude::*;

use crate::chain::{ChainLink, Measured};

verus! {

/// The model of a sequential pipeline: the models of its two members.
#[verifier::ext_equal]
pub struct PipelineModel<FM, LM> {
    pub first: FM,
    pub last: LM,
}

/// A sequential chain: `push` feeds the upstream member, `try_pop` drains
/// the downstream one, and `process` ripples work from front to back until
/// the downstream member produces or nothing moves any more.
///
/// Longer chains are built by nesting, with a further pipeline as the
/// downstream member; the upstream member must be `Measured`, which is
/// what bounds the propagation loop.
pub struct Pipeline<A: Measured, B: ChainLink<TInput = A::TOutput>> {
    first: A,
    last: B,
}

/// One full run of the propagation loop, on models: process the upstream
/// member, move its output (if any) downstream, process the downstream
/// member, and repeat while the upstream member reports progress and the
/// downstream member has not yet produced. The third component of the
/// result says whether the downstream member produced.
///
/// The run always comes to rest: every repetition needs upstream progress,
/// which by the `Measured` laws spends the upstream member's finite
/// measure.
pub open spec fn propagate<A: Measured, B: ChainLink<TInput = A::TOutput>>(
    f: A::Model,
    l: B::Model,
) -> (A::Model, B::Model, bool)
    decreases A::measure(f),
{
    let f_res = A::progressed(f);
    let f_processed = A::process_spec(f);
    let moved = A::popped(f_processed);
    let f_drained = A::pop_spec(f_processed);
    let l_fed = match moved {
        Some(v) => B::push_spec(l, v),
        None => l,
    };
    let l_res = B::progressed(l_fed);
    let l_processed = B::process_spec(l_fed);
    if f_res && !l_res {
        proof {
            A::process_reduces_measure(f);
            A::pop_reduces_measure(f_processed);
        }
        propagate::<A, B>(f_drained, l_processed)
    } else {
        (f_drained, l_processed, l_res)
    }
}

impl<A: Measured, B: ChainLink<TInput = A::TOutput>> Pipeline<A, B> {
    /// Chain `first` into `last`.
    pub fn new(first: A, last: B) -> (pipeline: Self)
        ensures
            pipeline.model() == (PipelineModel { first: first.model(), last: last.model() }),
    {
        Pipeline { first, last }
    }
}

impl<A: Measured, B: ChainLink<TInput = A::TOutput>> ChainLink for Pipeline<A, B> {
    type TInput = A::TInput;

    type TOutput = B::TOutput;

    type Model = PipelineModel<A::Model, B::Model>;

    closed spec fn model(self) -> Self::Model {
        PipelineModel { first: self.first.model(), last: self.last.model() }
    }

    open spec fn push_spec(m: Self::Model, input: A::TInput) -> Self::Model {
        PipelineModel { first: A::push_spec(m.first, input), ..m }
    }

    open spec fn push_if_empty_spec(m: Self::Model, input: A::TInput) -> Self::Model {
        PipelineModel { first: A::push_if_empty_spec(m.first, input), ..m }
    }

    open spec fn pop_spec(m: Self::Model) -> Self::Model {
        PipelineModel { last: B::pop_spec(m.last), ..m }
    }

    open spec fn popped(m: Self::Model) -> Option<B::TOutput> {
        B::popped(m.last)
    }

    open spec fn process_spec(m: Self::Model) -> Self::Model {
        let run = propagate::<A, B>(m.first, m.last);
        PipelineModel { first: run.0, last: run.1 }
    }

    open spec fn progressed(m: Self::Model) -> bool {
        propagate::<A, B>(m.first, m.last).2
    }

    fn push(&mut self, input: A::TInput) {
        self.first.push(input);
    }

    fn push_if_empty(&mut self, input: A::TInput) {
        self.first.push_if_empty(input);
    }

    fn try_pop(&mut self) -> (popped: Option<B::TOutput>) {
        self.last.try_pop()
    }

    fn process(&mut self) -> (made: bool) {
        let ghost orig_first = self.first.model();
        let ghost orig_last = self.last.model();
        #[verifier::loop_isolation(false)]
        loop
            invariant
                propagate::<A, B>(self.first.model(), self.last.model()) == propagate::<A, B>(
                    orig_first,
                    orig_last,
                ),
            decreases A::measure(self.first.model()),
        {
            let ghost f_entry = self.first.model();
            let first_made = self.first.process();
            let ghost f_processed = self.first.model();
            let moved = self.first.try_pop();
            if let Some(v) = moved {
                self.last.push(v);
            }
            let last_made = self.last.process();
            if !(first_made && !last_made) {
                return last_made;
            }
            proof {
                A::process_reduces_measure(f_entry);
                A::pop_reduces_measure(f_processed);
            }
        }
    }
}

} // verus!
