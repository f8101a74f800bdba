use vstd::prelude::*;

use crate::chain::{ChainLink, Measured};
use crate::group::{
    broadcast_push, broadcast_push_if_empty, clear_indices, lemma_processed_prefix_measure,
    lemma_rr_pop_measure, processed_prefix, pushed_if_empty_prefix, pushed_prefix, rr_pop,
    total_measure, Discipline,
};
use crate::stage::{Stage, StageModel};
use crate::transform::Transform;

verus! {

/// The model of a replication group: the models of its interchangeable
/// members, the round-robin collection cursor, and one is-running flag per
/// member.
#[verifier::ext_equal]
pub struct ReplicationModel<M> {
    pub members: Seq<M>,
    pub pop_cursor: nat,
    pub running: Seq<bool>,
    pub discipline: Discipline,
}

/// What one `process` call does to a replication group: since the members
/// are interchangeable, every call targets all of them. Under `join` they
/// are processed synchronously, in order; under `free` nothing changes
/// here (all members are handed out); under `unique` the members not
/// already running are handed out and marked.
pub open spec fn replication_process<L: ChainLink>(m: ReplicationModel<L::Model>) -> (
    ReplicationModel<L::Model>,
    bool,
) {
    match m.discipline {
        Discipline::Join => {
            let run = processed_prefix::<L>(m.members, m.members.len());
            (ReplicationModel { members: run.0, ..m }, run.1)
        },
        Discipline::Free => (m, false),
        Discipline::Unique => (
            ReplicationModel { running: Seq::new(m.running.len(), |j: int| true), ..m },
            false,
        ),
    }
}

/// What planning launches does to a replication group's state: nothing
/// under `join` (join work happens synchronously inside `process`) and
/// under `free`; under `unique` every member not already running is handed
/// out and marked.
pub open spec fn replication_launch_step<L: ChainLink>(m: ReplicationModel<L::Model>) -> ReplicationModel<L::Model> {
    match m.discipline {
        Discipline::Join => m,
        Discipline::Free => m,
        Discipline::Unique => ReplicationModel {
            running: Seq::new(m.running.len(), |j: int| true),
            ..m
        },
    }
}

/// Which member indices planning launches hands out: all of them under
/// `free`, the ones not already running under `unique`, none under `join`.
pub open spec fn replication_launch_plan<L: ChainLink>(m: ReplicationModel<L::Model>) -> Seq<
    usize,
> {
    match m.discipline {
        Discipline::Join => Seq::empty(),
        Discipline::Free => Seq::new(m.members.len(), |j: int| j as usize),
        Discipline::Unique => clear_indices(m.running, m.running.len()),
    }
}

/// N interchangeable copies of one component, all wired to the same input
/// broadcast and polled round-robin: horizontal scale-out of one stage or
/// pipeline.
pub struct Replication<M: ChainLink> {
    members: Vec<M>,
    pop_cursor: usize,
    running: Vec<bool>,
    discipline: Discipline,
}

impl<M: ChainLink> Replication<M> where M::TInput: Copy {
    /// Group the given copies; the caller supplies them already built, one
    /// per replica.
    pub fn new(members: Vec<M>, discipline: Discipline) -> (replication: Self)
        requires
            members@.len() >= 1,
        ensures
            replication.model() == (ReplicationModel {
                members: members@.map_values(|m: M| m.model()),
                pop_cursor: 0nat,
                running: Seq::new(members@.len(), |j: int| false),
                discipline,
            }),
    {
        let n = members.len();
        let mut running: Vec<bool> = Vec::new();
        let mut i: usize = 0;
        while i < n
            invariant
                i <= n,
                running@ =~= Seq::new(i as nat, |j: int| false),
            decreases n - i,
        {
            running.push(false);
            i += 1;
        }
        let replication = Replication { members, pop_cursor: 0, running, discipline };
        proof {
            assert(replication.model().running =~= Seq::new(
                replication.model().members.len(),
                |j: int| false,
            ));
        }
        replication
    }

    /// How many replicas the group holds.
    pub fn member_count(&self) -> (n: usize)
        ensures
            n == self.model().members.len(),
    {
        self.members.len()
    }

    /// Drive one replica synchronously; what an independent execution
    /// context does for a replica handed out by a launch plan.
    pub fn process_member(&mut self, index: usize) -> (made: bool)
        requires
            index < old(self).model().members.len(),
        ensures
            final(self).model() == (ReplicationModel {
                members: old(self).model().members.update(
                    index as int,
                    M::process_spec(old(self).model().members[index as int]),
                ),
                ..old(self).model()
            }),
            made == M::progressed(old(self).model().members[index as int]),
    {
        let made = self.members[index].process();
        proof {
            assert(self.members@.map_values(|m: M| m.model()) =~= old(
                self,
            ).model().members.update(
                index as int,
                M::process_spec(old(self).model().members[index as int]),
            ));
        }
        made
    }

    /// Record that the independent execution context driving `index` has
    /// finished, clearing its is-running flag.
    pub fn finish_member(&mut self, index: usize)
        requires
            index < old(self).model().running.len(),
        ensures
            final(self).model() == (ReplicationModel {
                running: old(self).model().running.update(index as int, false),
                ..old(self).model()
            }),
    {
        self.running[index] = false;
        proof {
            assert(self.model() =~= (ReplicationModel {
                running: old(self).model().running.update(index as int, false),
                ..old(self).model()
            }));
        }
    }

    /// Plan which replicas to hand to independent execution contexts,
    /// marking them as running where the discipline is `unique`.
    pub fn plan_launches(&mut self) -> (plan: Vec<usize>)
        ensures
            final(self).model() == replication_launch_step::<M>(old(self).model()),
            plan@ == replication_launch_plan::<M>(old(self).model()),
    {
        match self.discipline {
            Discipline::Join => Vec::new(),
            Discipline::Free => {
                let n = self.members.len();
                let mut plan: Vec<usize> = Vec::new();
                let mut i: usize = 0;
                while i < n
                    invariant
                        i <= n,
                        plan@ =~= Seq::new(i as nat, |j: int| j as usize),
                    decreases n - i,
                {
                    plan.push(i);
                    i += 1;
                }
                proof {
                    assert(plan@ =~= replication_launch_plan::<M>(old(self).model()));
                }
                plan
            },
            Discipline::Unique => {
                let n = self.running.len();
                let mut plan: Vec<usize> = Vec::new();
                let mut i: usize = 0;
                while i < n
                    invariant
                        i <= n,
                        n == self.running@.len(),
                        self.members == old(self).members,
                        self.pop_cursor == old(self).pop_cursor,
                        self.discipline == old(self).discipline,
                        self.discipline is Unique,
                        old(self).running@.len() == n,
                        plan@ == clear_indices(old(self).running@, i as nat),
                        self.running@ =~= Seq::new(
                            n as nat,
                            |j: int| if j < i { true } else { old(self).running@[j] },
                        ),
                    decreases n - i,
                {
                    if !self.running[i] {
                        plan.push(i);
                    }
                    self.running[i] = true;
                    proof {
                        assert(self.running@ =~= Seq::new(
                            n as nat,
                            |j: int| if j < i + 1 { true } else { old(self).running@[j] },
                        ));
                    }
                    i += 1;
                }
                proof {
                    assert(self.running@ =~= Seq::new(n as nat, |j: int| true));
                    assert(self.model() =~= replication_launch_step::<M>(old(self).model()));
                }
                plan
            },
        }
    }
}

impl<T: Transform + Copy> Replication<Stage<T>> where T::Input: Copy {
    /// Build `count` fresh replicas of a stage around copies of one
    /// configuration: construction from one initializer and a replication
    /// count.
    pub fn replicate(config: T, count: usize, discipline: Discipline) -> (replication: Self)
        requires
            count >= 1,
        ensures
            replication.model().members.len() == count,
            forall|j: int| #![all_triggers]
                0 <= j < count ==> replication.model().members[j] == (StageModel {
                    config,
                    inputs: Seq::<T::Input>::empty(),
                    outputs: Seq::<T::Output>::empty(),
                }),
            replication.model().pop_cursor == 0nat,
            replication.model().running == Seq::new(count as nat, |j: int| false),
            replication.model().discipline == discipline,
    {
        let mut members: Vec<Stage<T>> = Vec::new();
        let mut i: usize = 0;
        while i < count
            invariant
                i <= count,
                members@.len() == i,
                forall|j: int| #![all_triggers]
                    0 <= j < i ==> members@[j].model() == (StageModel {
                        config,
                        inputs: Seq::<T::Input>::empty(),
                        outputs: Seq::<T::Output>::empty(),
                    }),
            decreases count - i,
        {
            members.push(Stage::new(config));
            i += 1;
        }
        Replication::new(members, discipline)
    }
}

impl<M: ChainLink> ChainLink for Replication<M> where M::TInput: Copy {
    type TInput = M::TInput;

    type TOutput = M::TOutput;

    type Model = ReplicationModel<M::Model>;

    closed spec fn model(self) -> ReplicationModel<M::Model> {
        ReplicationModel {
            members: self.members@.map_values(|m: M| m.model()),
            pop_cursor: self.pop_cursor as nat,
            running: self.running@,
            discipline: self.discipline,
        }
    }

    open spec fn push_spec(m: ReplicationModel<M::Model>, input: M::TInput) -> ReplicationModel<
        M::Model,
    > {
        ReplicationModel { members: broadcast_push::<M>(m.members, input), ..m }
    }

    open spec fn push_if_empty_spec(
        m: ReplicationModel<M::Model>,
        input: M::TInput,
    ) -> ReplicationModel<M::Model> {
        ReplicationModel { members: broadcast_push_if_empty::<M>(m.members, input), ..m }
    }

    open spec fn pop_spec(m: ReplicationModel<M::Model>) -> ReplicationModel<M::Model> {
        let run = rr_pop::<M>(m.members, m.pop_cursor, m.members.len());
        ReplicationModel { members: run.0, pop_cursor: run.1, ..m }
    }

    open spec fn popped(m: ReplicationModel<M::Model>) -> Option<M::TOutput> {
        rr_pop::<M>(m.members, m.pop_cursor, m.members.len()).2
    }

    open spec fn process_spec(m: ReplicationModel<M::Model>) -> ReplicationModel<M::Model> {
        replication_process::<M>(m).0
    }

    open spec fn progressed(m: ReplicationModel<M::Model>) -> bool {
        replication_process::<M>(m).1
    }

    fn push(&mut self, input: M::TInput) {
        let ghost orig = self.model();
        let n = self.members.len();
        let mut i: usize = 0;
        while i < n
            invariant
                i <= n,
                n == self.members@.len(),
                self.running == old(self).running,
                self.pop_cursor == old(self).pop_cursor,
                self.discipline == old(self).discipline,
                orig == old(self).model(),
                orig.members.len() == n,
                self.members@.map_values(|m: M| m.model()) =~= pushed_prefix::<M>(
                    orig.members,
                    input,
                    i as int,
                ),
            decreases n - i,
        {
            let ghost pre = self.members@;
            self.members[i].push(input);
            proof {
                assert forall|j: int| 0 <= j < n implies self.members@.map_values(
                    |m: M| m.model(),
                )[j] == #[trigger] pushed_prefix::<M>(orig.members, input, i + 1)[j] by {
                    assert(pre.map_values(|m: M| m.model())[j] == pushed_prefix::<M>(
                        orig.members,
                        input,
                        i as int,
                    )[j]);
                }
                assert(self.members@.map_values(|m: M| m.model()) =~= pushed_prefix::<M>(
                    orig.members,
                    input,
                    i + 1,
                ));
            }
            i += 1;
        }
        proof {
            assert(pushed_prefix::<M>(orig.members, input, n as int) =~= broadcast_push::<M>(
                orig.members,
                input,
            ));
            assert(self.model() =~= Self::push_spec(orig, input));
        }
    }

    fn push_if_empty(&mut self, input: M::TInput) {
        let ghost orig = self.model();
        let n = self.members.len();
        let mut i: usize = 0;
        while i < n
            invariant
                i <= n,
                n == self.members@.len(),
                self.running == old(self).running,
                self.pop_cursor == old(self).pop_cursor,
                self.discipline == old(self).discipline,
                orig == old(self).model(),
                orig.members.len() == n,
                self.members@.map_values(|m: M| m.model()) =~= pushed_if_empty_prefix::<M>(
                    orig.members,
                    input,
                    i as int,
                ),
            decreases n - i,
        {
            let ghost pre = self.members@;
            self.members[i].push_if_empty(input);
            proof {
                assert forall|j: int| 0 <= j < n implies self.members@.map_values(
                    |m: M| m.model(),
                )[j] == #[trigger] pushed_if_empty_prefix::<M>(orig.members, input, i + 1)[j] by {
                    assert(pre.map_values(|m: M| m.model())[j] == pushed_if_empty_prefix::<M>(
                        orig.members,
                        input,
                        i as int,
                    )[j]);
                }
                assert(self.members@.map_values(|m: M| m.model()) =~= pushed_if_empty_prefix::<M>(
                    orig.members,
                    input,
                    i + 1,
                ));
            }
            i += 1;
        }
        proof {
            assert(pushed_if_empty_prefix::<M>(orig.members, input, n as int)
                =~= broadcast_push_if_empty::<M>(orig.members, input));
            assert(self.model() =~= Self::push_if_empty_spec(orig, input));
        }
    }

    fn try_pop(&mut self) -> (popped: Option<M::TOutput>) {
        let ghost orig = self.model();
        let n = self.members.len();
        if n == 0 {
            return None;
        }
        let mut attempts: usize = 0;
        while attempts < n
            invariant
                attempts <= n,
                n == self.members@.len(),
                n > 0,
                self.running == old(self).running,
                self.discipline == old(self).discipline,
                orig == old(self).model(),
                orig.members.len() == n,
                rr_pop::<M>(
                    self.members@.map_values(|m: M| m.model()),
                    self.pop_cursor as nat,
                    (n - attempts) as nat,
                ) == rr_pop::<M>(orig.members, orig.pop_cursor, n as nat),
            decreases n - attempts,
        {
            let ghost entry_members = self.members@.map_values(|m: M| m.model());
            let idx = self.pop_cursor % n;
            if idx + 1 == n {
                self.pop_cursor = 0;
            } else {
                self.pop_cursor = idx + 1;
            }
            let out = self.members[idx].try_pop();
            proof {
                assert(self.members@.map_values(|m: M| m.model()) =~= entry_members.update(
                    idx as int,
                    M::pop_spec(entry_members[idx as int]),
                ));
            }
            if out.is_some() {
                proof {
                    assert(self.model() =~= Self::pop_spec(orig));
                }
                return out;
            }
            attempts += 1;
        }
        proof {
            assert(self.model() =~= Self::pop_spec(orig));
        }
        None
    }

    fn process(&mut self) -> (made: bool) {
        let ghost orig = self.model();
        match self.discipline {
            Discipline::Join => {
                let n = self.members.len();
                let mut any_made = false;
                let mut i: usize = 0;
                while i < n
                    invariant
                        i <= n,
                        n == self.members@.len(),
                        self.running == old(self).running,
                        self.pop_cursor == old(self).pop_cursor,
                        self.discipline == old(self).discipline,
                        self.discipline is Join,
                        orig == old(self).model(),
                        orig.members.len() == n,
                        self.members@.map_values(|m: M| m.model()) =~= processed_prefix::<M>(
                            orig.members,
                            i as nat,
                        ).0,
                        any_made == processed_prefix::<M>(orig.members, i as nat).1,
                    decreases n - i,
                {
                    let ghost entry_members = self.members@.map_values(|m: M| m.model());
                    let made_here = self.members[i].process();
                    any_made = any_made || made_here;
                    proof {
                        assert(self.members@.map_values(|m: M| m.model()) =~= entry_members.update(
                            i as int,
                            M::process_spec(entry_members[i as int]),
                        ));
                        assert(self.members@.map_values(|m: M| m.model()) =~= processed_prefix::<
                            M,
                        >(orig.members, (i + 1) as nat).0);
                    }
                    i += 1;
                }
                proof {
                    assert(self.model() =~= Self::process_spec(orig));
                }
                any_made
            },
            Discipline::Free => {
                let _plan = self.plan_launches();
                false
            },
            Discipline::Unique => {
                let _plan = self.plan_launches();
                proof {
                    assert(self.model() =~= Self::process_spec(orig));
                }
                false
            },
        }
    }
}

impl<M: Measured> Measured for Replication<M> where M::TInput: Copy {
    open spec fn measure(m: ReplicationModel<M::Model>) -> nat {
        total_measure::<M>(m.members)
    }

    proof fn process_reduces_measure(m: ReplicationModel<M::Model>) {
        match m.discipline {
            Discipline::Join => {
                lemma_processed_prefix_measure::<M>(m.members, m.members.len());
            },
            Discipline::Free => {},
            Discipline::Unique => {},
        }
    }

    proof fn pop_reduces_measure(m: ReplicationModel<M::Model>) {
        lemma_rr_pop_measure::<M>(m.members, m.pop_cursor, m.members.len());
    }
}

} // verus!
