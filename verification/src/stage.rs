use vstd::prelude::*;

use crate::chain::{ChainLink, Measured};
use crate::queue::Queue;
use crate::transform::{Transform, continuation_runs, lemma_settled, settled};

verus! {

/// The model of a stage: its configuration together with the contents of
/// its two queues.
#[verifier::ext_equal]
pub struct StageModel<T: Transform> {
    pub config: T,
    pub inputs: Seq<T::Input>,
    pub outputs: Seq<T::Output>,
}

/// The atomic unit of processing: a user-supplied transform with its
/// configuration, an input queue of pending inputs and an output queue of
/// produced outputs.
pub struct Stage<T: Transform> {
    config: T,
    input_queue: Queue<T::Input>,
    output_queue: Queue<T::Output>,
}

/// The total work still buffered in a stage whose configuration is `t` and
/// whose pending inputs are `inputs`: the outputs the continuation can
/// still stream, plus, for each queued input, its consumption and
/// everything it lets the continuation stream afterwards.
pub open spec fn drain<T: Transform>(t: T, inputs: Seq<T::Input>) -> nat
    decreases inputs.len(),
{
    if inputs.len() == 0 {
        continuation_runs(t)
    } else {
        continuation_runs(t) + 1 + drain(settled(t).step_spec(Some(inputs[0])), inputs.drop_first())
    }
}

/// A continuation call that produces output lowers `drain` by exactly one,
/// whatever is queued behind it.
pub proof fn lemma_drain_continuation<T: Transform>(t: T, inputs: Seq<T::Input>)
    requires
        t.output_spec(None) is Some,
    ensures
        drain(t.step_spec(None), inputs) + 1 == drain(t, inputs),
{
    lemma_settled(t);
}

impl<T: Transform> Stage<T> {
    /// A fresh stage around `config`, with both queues empty.
    pub fn new(config: T) -> (stage: Self)
        ensures
            stage.model() == (StageModel {
                config,
                inputs: Seq::<T::Input>::empty(),
                outputs: Seq::<T::Output>::empty(),
            }),
    {
        Stage { config, input_queue: Queue::new(), output_queue: Queue::new() }
    }
}

impl<T: Transform> ChainLink for Stage<T> {
    type TInput = T::Input;

    type TOutput = T::Output;

    type Model = StageModel<T>;

    closed spec fn model(self) -> StageModel<T> {
        StageModel { config: self.config, inputs: self.input_queue@, outputs: self.output_queue@ }
    }

    open spec fn push_spec(m: StageModel<T>, input: T::Input) -> StageModel<T> {
        StageModel { inputs: m.inputs.push(input), ..m }
    }

    open spec fn push_if_empty_spec(m: StageModel<T>, input: T::Input) -> StageModel<T> {
        if m.inputs.len() == 0 {
            StageModel { inputs: seq![input], ..m }
        } else {
            m
        }
    }

    open spec fn pop_spec(m: StageModel<T>) -> StageModel<T> {
        if m.outputs.len() == 0 {
            m
        } else {
            StageModel { outputs: m.outputs.drop_first(), ..m }
        }
    }

    open spec fn popped(m: StageModel<T>) -> Option<T::Output> {
        if m.outputs.len() == 0 {
            None
        } else {
            Some(m.outputs[0])
        }
    }

    open spec fn process_spec(m: StageModel<T>) -> StageModel<T> {
        match m.config.output_spec(None) {
            Some(out) => StageModel {
                config: m.config.step_spec(None),
                inputs: m.inputs,
                outputs: m.outputs.push(out),
            },
            None => {
                if m.inputs.len() == 0 {
                    m
                } else {
                    let next_config = m.config.step_spec(Some(m.inputs[0]));
                    match m.config.output_spec(Some(m.inputs[0])) {
                        Some(out) => StageModel {
                            config: next_config,
                            inputs: m.inputs.drop_first(),
                            outputs: m.outputs.push(out),
                        },
                        None => StageModel {
                            config: next_config,
                            inputs: m.inputs.drop_first(),
                            outputs: m.outputs,
                        },
                    }
                }
            },
        }
    }

    open spec fn progressed(m: StageModel<T>) -> bool {
        m.config.output_spec(None) is Some || (m.inputs.len() > 0
            && m.config.output_spec(Some(m.inputs[0])) is Some)
    }

    fn push(&mut self, input: T::Input) {
        self.input_queue.push(input);
    }

    fn push_if_empty(&mut self, input: T::Input) {
        self.input_queue.push_if_empty(input);
    }

    fn try_pop(&mut self) -> (popped: Option<T::Output>) {
        self.output_queue.try_pop()
    }

    fn process(&mut self) -> (made: bool) {
        let continued = self.config.apply(None);
        match continued {
            Some(out) => {
                self.output_queue.push(out);
                true
            },
            None => {
                proof {
                    old(self).model().config.barren_continuation_is_pure();
                }
                match self.input_queue.try_pop() {
                    Some(input) => {
                        let produced = self.config.apply(Some(input));
                        match produced {
                            Some(out) => {
                                self.output_queue.push(out);
                                true
                            },
                            None => false,
                        }
                    },
                    None => false,
                }
            },
        }
    }
}

impl<T: Transform> Measured for Stage<T> {
    open spec fn measure(m: StageModel<T>) -> nat {
        2 * drain(m.config, m.inputs) + m.outputs.len()
    }

    proof fn process_reduces_measure(m: StageModel<T>) {
        if m.config.output_spec(None) is Some {
            lemma_drain_continuation(m.config, m.inputs);
        } else {
            lemma_settled(m.config);
        }
    }

    proof fn pop_reduces_measure(m: StageModel<T>) {
    }
}

} // verus!
