use vstd::prelude::*;

verus! {

/// The one place user logic enters the library: a stage's transform.
///
/// `apply` is called once per `process` attempt, first with no input (a
/// "continuation" call, which may produce output purely from state the
/// configuration accumulated earlier, such as lines buffered from a file)
/// and, if that yields nothing, once more with one dequeued input bound.
/// The implementing type is the stage's configuration: `apply` may mutate
/// it, and the two spec functions say exactly how.
///
/// Two laws keep a stage's work finite. A continuation call that produces
/// nothing must leave the configuration untouched — "no progress, no
/// effect" — and every continuation call that does produce output spends
/// part of a finite charge, so a configuration can only stream finitely
/// many outputs before it needs new input again.
pub trait Transform: Sized {
    /// What the transform consumes.
    type Input;

    /// What the transform produces.
    type Output;

    /// The configuration after one call of the transform.
    spec fn step_spec(self, input: Option<Self::Input>) -> Self;

    /// What one call of the transform produces, if anything.
    spec fn output_spec(self, input: Option<Self::Input>) -> Option<Self::Output>;

    /// An upper bound on how many more outputs continuation calls alone
    /// can still produce from this configuration.
    spec fn charge(self) -> nat;

    /// A continuation call that produces nothing changes nothing.
    proof fn barren_continuation_is_pure(self)
        ensures
            self.output_spec(None) is None ==> self.step_spec(None) == self,
    ;

    /// A continuation call that produces output spends charge.
    proof fn continuation_spends_charge(self)
        ensures
            self.output_spec(None) is Some ==> self.step_spec(None).charge() < self.charge(),
    ;

    /// Run the transform once, with either the next dequeued input or no
    /// input at all (a continuation call).
    fn apply(&mut self, input: Option<Self::Input>) -> (produced: Option<Self::Output>)
        ensures
            *final(self) == old(self).step_spec(input),
            produced == old(self).output_spec(input),
    ;
}

/// How many outputs continuation calls alone can still produce from `t`:
/// the number of times the transform answers a no-input call with output
/// before it first answers with none.
pub open spec fn continuation_runs<T: Transform>(t: T) -> nat
    decreases t.charge(),
{
    if t.output_spec(None) is None {
        0
    } else {
        proof {
            t.continuation_spends_charge();
        }
        1 + continuation_runs(t.step_spec(None))
    }
}

/// The configuration once its continuation has nothing more to give: the
/// first state from which a no-input call produces nothing.
pub open spec fn settled<T: Transform>(t: T) -> T
    decreases t.charge(),
{
    if t.output_spec(None) is None {
        t
    } else {
        proof {
            t.continuation_spends_charge();
        }
        settled(t.step_spec(None))
    }
}

/// A settled configuration answers a no-input call with nothing, and
/// settling a configuration that still produces is settling its successor.
pub proof fn lemma_settled<T: Transform>(t: T)
    ensures
        settled(t).output_spec(None) is None,
        continuation_runs(settled(t)) == 0,
        t.output_spec(None) is Some ==> settled(t) == settled(t.step_spec(None))
            && continuation_runs(t) == 1 + continuation_runs(t.step_spec(None)),
        t.output_spec(None) is None ==> settled(t) == t && continuation_runs(t) == 0,
    decreases t.charge(),
{
    if t.output_spec(None) is Some {
        t.continuation_spends_charge();
        lemma_settled(t.step_spec(None));
    }
}

} // verus!
