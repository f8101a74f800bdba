use vstd::prelude::*;

use crate::chain::ChainLink;
use crate::group::{clear_indices, launch_plan, launch_step, rr_pop, scan_unique, GroupModel};
use crate::pipeline::{propagate, Pipeline, PipelineModel};
use crate::stage::{Stage, StageModel};
use crate::transform::Transform;

verus! {

/// A stage model with configuration `config` and empty queues: what
/// [`Stage::new`] builds.
pub open spec fn fresh_stage<T: Transform>(config: T) -> StageModel<T> {
    StageModel { config, inputs: Seq::empty(), outputs: Seq::empty() }
}

/// Round trip through a two-stage pipeline: pushing one value and driving
/// one `process` call hands `try_pop` exactly what composing the two
/// transforms on that value gives, and the call reports progress exactly
/// when the composition produces a value. Stated for stages whose
/// configurations answer continuation calls with nothing, before and after
/// the first transform consumes the value.
pub proof fn round_trip_two_stage_pipeline<F: Transform, G: Transform<Input = F::Output>>(
    cf: F,
    cg: G,
    v: F::Input,
)
    requires
        cf.output_spec(None) is None,
        cg.output_spec(None) is None,
        cf.step_spec(Some(v)).output_spec(None) is None,
        cf.output_spec(Some(v)) matches Some(mid) ==> cg.step_spec(
            Some(mid),
        ).output_spec(None) is None,
    ensures
        ({
            let start = PipelineModel {
                first: fresh_stage(cf),
                last: fresh_stage(cg),
            };
            let pushed = <Pipeline<Stage<F>, Stage<G>> as ChainLink>::push_spec(start, v);
            let processed = <Pipeline<Stage<F>, Stage<G>> as ChainLink>::process_spec(pushed);
            let reported = <Pipeline<Stage<F>, Stage<G>> as ChainLink>::progressed(pushed);
            let outcome = <Pipeline<Stage<F>, Stage<G>> as ChainLink>::popped(processed);
            match cf.output_spec(Some(v)) {
                Some(mid) => outcome == cg.output_spec(Some(mid)) && reported == (cg.output_spec(
                    Some(mid),
                ) is Some),
                None => outcome is None && !reported,
            }
        }),
{
    let start = PipelineModel { first: fresh_stage(cf), last: fresh_stage(cg) };
    let pushed = <Pipeline<Stage<F>, Stage<G>> as ChainLink>::push_spec(start, v);
    let f = pushed.first;
    let l = pushed.last;
    assert(f.inputs =~= seq![v]);
    assert(f.inputs.drop_first() =~= Seq::<F::Input>::empty());
    let f1 = <Stage<F> as ChainLink>::process_spec(f);
    match cf.output_spec(Some(v)) {
        Some(mid) => {
            assert(f1.outputs =~= seq![mid]);
            assert(f1.outputs.drop_first() =~= Seq::<F::Output>::empty());
            let f2 = <Stage<F> as ChainLink>::pop_spec(f1);
            let l1 = <Stage<G> as ChainLink>::push_spec(l, mid);
            assert(l1.inputs =~= seq![mid]);
            assert(l1.inputs.drop_first() =~= Seq::<G::Input>::empty());
            let l2 = <Stage<G> as ChainLink>::process_spec(l1);
            if cg.output_spec(Some(mid)) is Some {
                assert(propagate::<Stage<F>, Stage<G>>(f, l) == (f2, l2, true));
            } else {
                assert(propagate::<Stage<F>, Stage<G>>(f, l) == propagate::<Stage<F>, Stage<G>>(
                    f2,
                    l2,
                ));
                assert(!<Stage<F> as ChainLink>::progressed(f2));
                assert(!<Stage<G> as ChainLink>::progressed(l2));
                assert(<Stage<F> as ChainLink>::process_spec(f2) == f2);
                assert(<Stage<G> as ChainLink>::process_spec(l2) == l2);
                assert(propagate::<Stage<F>, Stage<G>>(f2, l2) == (f2, l2, false));
            }
        },
        None => {
            assert(propagate::<Stage<F>, Stage<G>>(f, l).2 == false);
        },
    }
}

/// What a pipeline's `process` report means at a terminal stage: the call
/// reports progress exactly when it put one more value into the terminal
/// stage's output queue, and a call that reports none leaves that queue as
/// it was. Together with the termination measure carried by the
/// propagation loop itself, this is why one `process` call suffices to
/// know whether anything reached the end.
pub proof fn pipeline_report_names_terminal_output<A: crate::chain::Measured, G: Transform>(
    f: A::Model,
    l: StageModel<G>,
)
    where A: ChainLink<TOutput = G::Input>
    ensures
        ({
            let run = propagate::<A, Stage<G>>(f, l);
            &&& (run.2 ==> run.1.outputs.len() == l.outputs.len() + 1)
            &&& (!run.2 ==> run.1.outputs == l.outputs)
        }),
    decreases A::measure(f),
{
    let f_res = A::progressed(f);
    let f_processed = A::process_spec(f);
    let moved = A::popped(f_processed);
    let f_drained = A::pop_spec(f_processed);
    let l_fed = match moved {
        Some(v) => <Stage<G> as ChainLink>::push_spec(l, v),
        None => l,
    };
    let l_res = <Stage<G> as ChainLink>::progressed(l_fed);
    let l_processed = <Stage<G> as ChainLink>::process_spec(l_fed);
    assert(l_fed.outputs == l.outputs);
    if l_res {
        assert(l_processed.outputs.len() == l.outputs.len() + 1);
    } else {
        assert(l_processed.outputs == l.outputs);
    }
    if f_res && !l_res {
        A::process_reduces_measure(f);
        A::pop_reduces_measure(f_processed);
        pipeline_report_names_terminal_output::<A, G>(f_drained, l_processed);
        assert(propagate::<A, Stage<G>>(f, l) == propagate::<A, Stage<G>>(f_drained, l_processed));
    } else {
        assert(propagate::<A, Stage<G>>(f, l) == (f_drained, l_processed, l_res));
    }
}

/// The same, one nesting level deeper: in a chain whose downstream member
/// is itself a pipeline ending in a stage (a three-stage chain, say), the
/// `process` report still names exactly whether one more value reached the
/// terminal stage's output queue.
pub proof fn pipeline_report_reaches_nested_terminal<
    A: crate::chain::Measured,
    C: crate::chain::Measured,
    G: Transform,
>(
    f: A::Model,
    l: PipelineModel<C::Model, StageModel<G>>,
)
    where A: ChainLink<TOutput = C::TInput>, C: ChainLink<TOutput = G::Input>
    ensures
        ({
            let run = propagate::<A, Pipeline<C, Stage<G>>>(f, l);
            &&& (run.2 ==> run.1.last.outputs.len() == l.last.outputs.len() + 1)
            &&& (!run.2 ==> run.1.last.outputs == l.last.outputs)
        }),
    decreases A::measure(f),
{
    let f_res = A::progressed(f);
    let f_processed = A::process_spec(f);
    let moved = A::popped(f_processed);
    let f_drained = A::pop_spec(f_processed);
    let l_fed = match moved {
        Some(v) => <Pipeline<C, Stage<G>> as ChainLink>::push_spec(l, v),
        None => l,
    };
    let l_res = <Pipeline<C, Stage<G>> as ChainLink>::progressed(l_fed);
    let l_processed = <Pipeline<C, Stage<G>> as ChainLink>::process_spec(l_fed);
    pipeline_report_names_terminal_output::<C, G>(l_fed.first, l_fed.last);
    if f_res && !l_res {
        A::process_reduces_measure(f);
        A::pop_reduces_measure(f_processed);
        pipeline_report_reaches_nested_terminal::<A, C, G>(f_drained, l_processed);
    }
}

/// One round-robin collection that finds an output at the cursor: it
/// drains exactly that member, advances the cursor past it, and returns
/// its output.
proof fn lemma_rr_pop_hit<L: ChainLink>(members: Seq<L::Model>, cursor: nat)
    requires
        members.len() == 3,
        cursor < 3,
        L::popped(members[cursor as int]) is Some,
    ensures
        rr_pop::<L>(members, cursor, 3) == (
            members.update(cursor as int, L::pop_spec(members[cursor as int])),
            ((cursor + 1) % 3) as nat,
            L::popped(members[cursor as int]),
        ),
{
    assert(cursor % 3 == cursor);
    if cursor + 1 == 3 {
        assert(((cursor + 1) % 3) as nat == 0);
    } else {
        assert(((cursor + 1) % 3) as nat == cursor + 1);
    }
}

/// A round-robin collection over three members none of which has an
/// output signals exhaustion.
#[verifier::rlimit(50)]
proof fn lemma_rr_pop_exhausted3<L: ChainLink>(members: Seq<L::Model>, cursor: nat)
    requires
        members.len() == 3,
        cursor < 3,
        forall|i: int| 0 <= i < 3 ==> L::popped(#[trigger] members[i]) is None,
    ensures
        rr_pop::<L>(members, cursor, 3).2 is None,
{
    reveal_with_fuel(rr_pop, 5);
    if cursor == 0 {
        let once = members.update(0, L::pop_spec(members[0]));
        let twice = once.update(1, L::pop_spec(once[1]));
        assert(once[1] == members[1] && once[2] == members[2]);
        assert(twice[2] == members[2]);
        assert(rr_pop::<L>(members, 0, 3).2 is None);
    } else if cursor == 1 {
        let once = members.update(1, L::pop_spec(members[1]));
        let twice = once.update(2, L::pop_spec(once[2]));
        assert(once[2] == members[2] && once[0] == members[0]);
        assert(twice[0] == members[0]);
        assert(rr_pop::<L>(members, 1, 3).2 is None);
    } else {
        assert(cursor == 2);
        let once = members.update(2, L::pop_spec(members[2]));
        let twice = once.update(0, L::pop_spec(once[0]));
        assert(once[0] == members[0] && once[1] == members[1]);
        assert(twice[1] == members[1]);
        assert(rr_pop::<L>(members, 2, 3).2 is None);
    }
}

/// Round-robin collection is fair: in a three-member group where every
/// member has an output buffered, three consecutive collections return
/// each member's output exactly once, in round-robin order from the
/// cursor; and when every member had exactly one buffered, a fourth
/// collection signals exhaustion.
pub proof fn fan_out_pop_round_robin<L: ChainLink>(members: Seq<L::Model>, cursor: nat)
    requires
        members.len() == 3,
        cursor < 3,
        forall|i: int| 0 <= i < 3 ==> L::popped(#[trigger] members[i]) is Some,
        forall|i: int| 0 <= i < 3 ==> L::popped(L::pop_spec(#[trigger] members[i])) is None,
    ensures
        ({
            let first = rr_pop::<L>(members, cursor, 3);
            let second = rr_pop::<L>(first.0, first.1, 3);
            let third = rr_pop::<L>(second.0, second.1, 3);
            let fourth = rr_pop::<L>(third.0, third.1, 3);
            &&& first.2 == L::popped(members[cursor as int])
            &&& second.2 == L::popped(members[((cursor + 1) % 3) as int])
            &&& third.2 == L::popped(members[((cursor + 2) % 3) as int])
            &&& fourth.2 is None
        }),
{
    let first = rr_pop::<L>(members, cursor, 3);
    let second = rr_pop::<L>(first.0, first.1, 3);
    let third = rr_pop::<L>(second.0, second.1, 3);
    let fourth = rr_pop::<L>(third.0, third.1, 3);
    let c0 = cursor as int;
    let c1 = ((cursor + 1) % 3) as int;
    let c2 = ((cursor + 2) % 3) as int;
    assert(c1 == (c0 + 1) % 3 && c2 == (c0 + 2) % 3 && 0 <= c1 < 3 && 0 <= c2 < 3 && c0 != c1
        && c1 != c2 && c0 != c2);
    lemma_rr_pop_hit::<L>(members, cursor);
    assert(first.0[c1] == members[c1] && first.0[c2] == members[c2] && first.0[c0]
        == L::pop_spec(members[c0]));
    lemma_rr_pop_hit::<L>(first.0, first.1);
    assert(second.1 == c2 as nat) by {
        assert(first.1 == c1 as nat);
        assert(((c1 + 1) % 3) as int == c2);
    }
    assert(second.0[c2] == members[c2] && second.0[c0] == L::pop_spec(members[c0]) && second.0[c1]
        == L::pop_spec(members[c1]));
    lemma_rr_pop_hit::<L>(second.0, second.1);
    assert(forall|i: int| 0 <= i < 3 ==> L::popped(#[trigger] third.0[i]) is None);
    lemma_rr_pop_exhausted3::<L>(third.0, third.1);
}

/// The indices that a launch over all members hands out are exactly the
/// members whose flag is clear.
proof fn lemma_clear_indices_members(running: Seq<bool>, k: nat)
    requires
        k <= running.len(),
        running.len() <= usize::MAX,
    ensures
        forall|u: usize|
            #[trigger] clear_indices(running, k).contains(u) <==> u < k && !running[u as int],
    decreases k,
{
    if k > 0 {
        lemma_clear_indices_members(running, (k - 1) as nat);
        let prev = clear_indices(running, (k - 1) as nat);
        if !running[k - 1] {
            let grown = prev.push((k - 1) as usize);
            assert(clear_indices(running, k) == grown);
            assert forall|u: usize| #[trigger] clear_indices(running, k).contains(u) implies u < k
                && !running[u as int] by {
                vstd::seq_lib::lemma_seq_contains_after_push(prev, (k - 1) as usize, u);
            }
            assert forall|u: usize| u < k && !running[u as int] implies #[trigger] clear_indices(
                running,
                k,
            ).contains(u) by {
                vstd::seq_lib::lemma_seq_contains_after_push(prev, (k - 1) as usize, u);
            }
        } else {
            assert(clear_indices(running, k) == prev);
        }
    }
}

/// What a round-robin search for a clear flag does: a found member was
/// clear and is the only flag the search sets.
proof fn lemma_scan_unique_marks(running: Seq<bool>, cursor: nat, attempts: nat)
    requires
        running.len() <= usize::MAX,
    ensures
        ({
            let scan = scan_unique(running, cursor, attempts);
            &&& (scan.2 matches Some(u) ==> u < running.len() && !running[u as int] && scan.0
                == running.update(u as int, true))
            &&& (scan.2 is None ==> scan.0 == running)
        }),
    decreases attempts,
{
    if attempts > 0 && running.len() > 0 {
        let idx = cursor % running.len();
        let advanced: nat = if idx + 1 == running.len() {
            0
        } else {
            idx + 1
        };
        if running[idx as int] {
            lemma_scan_unique_marks(running, advanced, (attempts - 1) as nat);
        }
    }
}

/// The `unique` discipline never hands the same member out twice without
/// an intervening completion: a member in one launch plan is marked
/// running by that same call, and the next planning call leaves it out.
pub proof fn unique_launch_not_repeated<L: ChainLink>(m: GroupModel<L::Model>, member: usize)
    requires
        m.discipline is Unique,
        m.running.len() <= usize::MAX,
        launch_plan::<L>(m).contains(member),
    ensures
        launch_step::<L>(m).running[member as int],
        !launch_plan::<L>(launch_step::<L>(m)).contains(member),
{
    let stepped = launch_step::<L>(m);
    match m.policy {
        crate::group::Policy::All => {
            lemma_clear_indices_members(m.running, m.running.len());
            assert(member < m.running.len());
            lemma_clear_indices_members(stepped.running, stepped.running.len());
        },
        crate::group::Policy::One => {
            let scan = scan_unique(m.running, m.process_cursor, m.running.len());
            lemma_scan_unique_marks(m.running, m.process_cursor, m.running.len());
            assert(launch_plan::<L>(m)[0] == member);
            let scan2 = scan_unique(stepped.running, stepped.process_cursor, stepped.running.len());
            lemma_scan_unique_marks(stepped.running, stepped.process_cursor, stepped.running.len());
            if scan2.2 is Some {
                assert(!launch_plan::<L>(stepped).contains(member));
            } else {
                assert(launch_plan::<L>(stepped) =~= Seq::<usize>::empty());
            }
        },
    }
}

/// Collecting from a stage with nothing queued gives nothing and changes
/// nothing, however often it is tried.
pub proof fn stage_try_pop_empty_is_pure<T: Transform>(m: StageModel<T>)
    requires
        m.outputs.len() == 0,
    ensures
        <Stage<T> as ChainLink>::popped(m) is None,
        <Stage<T> as ChainLink>::pop_spec(m) == m,
{
}

/// Driving a stage with nothing queued and nothing its continuation can
/// give reports no progress and changes nothing.
pub proof fn stage_process_empty_is_pure<T: Transform>(m: StageModel<T>)
    requires
        m.inputs.len() == 0,
        m.config.output_spec(None) is None,
    ensures
        !<Stage<T> as ChainLink>::progressed(m),
        <Stage<T> as ChainLink>::process_spec(m) == m,
{
}

} // verus!
