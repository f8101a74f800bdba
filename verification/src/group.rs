use vstd::prelude::*;

use crate::chain::{ChainLink, Measured};

verus! {

/// How a group's `process` call relates to its members' work: wait for the
/// driven members to finish, hand every driven member to an independent
/// execution context, or hand out only members that are not already
/// running in one.
#[derive(Clone, Copy, PartialEq, Eq, Structural, Debug)]
pub enum Discipline {
    Join,
    Free,
    Unique,
}

/// Which members one `process` call drives: every member, or exactly one,
/// cycled round-robin across calls. A uniformly random choice is offered
/// separately by [`FanOut::process_random`] and
/// [`FanOut::plan_random_launch`], since a drawn member cannot be a
/// deterministic function of the group's state.
#[derive(Clone, Copy, PartialEq, Eq, Structural, Debug)]
pub enum Policy {
    All,
    One,
}

/// The model of a fan-out group: the models of its members, the two
/// round-robin cursors, and one is-running flag per member.
#[verifier::ext_equal]
pub struct GroupModel<M> {
    pub members: Seq<M>,
    pub pop_cursor: nat,
    pub process_cursor: nat,
    pub running: Seq<bool>,
    pub discipline: Discipline,
    pub policy: Policy,
}

/// What broadcasting one input to every member does to the member models.
pub open spec fn broadcast_push<L: ChainLink>(
    members: Seq<L::Model>,
    input: L::TInput,
) -> Seq<L::Model> {
    members.map_values(|m: L::Model| L::push_spec(m, input))
}

/// What broadcasting one input under `push_if_empty` does.
pub open spec fn broadcast_push_if_empty<L: ChainLink>(
    members: Seq<L::Model>,
    input: L::TInput,
) -> Seq<L::Model> {
    members.map_values(|m: L::Model| L::push_if_empty_spec(m, input))
}

/// The members after the first `k` of them were pushed `input`; the rest
/// still stand as they were.
pub open spec fn pushed_prefix<L: ChainLink>(
    members: Seq<L::Model>,
    input: L::TInput,
    k: int,
) -> Seq<L::Model> {
    Seq::new(
        members.len(),
        |j: int| if j < k { L::push_spec(members[j], input) } else { members[j] },
    )
}

/// As [`pushed_prefix`], for `push_if_empty`.
pub open spec fn pushed_if_empty_prefix<L: ChainLink>(
    members: Seq<L::Model>,
    input: L::TInput,
    k: int,
) -> Seq<L::Model> {
    Seq::new(
        members.len(),
        |j: int| if j < k { L::push_if_empty_spec(members[j], input) } else { members[j] },
    )
}

/// Round-robin collection: starting at `cursor`, try up to `attempts`
/// members in order, advancing the cursor past each one tried, and stop at
/// the first that yields an output. Yields the drained members, the final
/// cursor, and the output found, if any.
pub open spec fn rr_pop<L: ChainLink>(
    members: Seq<L::Model>,
    cursor: nat,
    attempts: nat,
) -> (Seq<L::Model>, nat, Option<L::TOutput>)
    decreases attempts,
{
    if attempts == 0 || members.len() == 0 {
        (members, cursor, None)
    } else {
        let idx = cursor % members.len();
        let advanced: nat = if idx + 1 == members.len() {
            0
        } else {
            idx + 1
        };
        let out = L::popped(members[idx as int]);
        let drained = members.update(idx as int, L::pop_spec(members[idx as int]));
        if out is Some {
            (drained, advanced, out)
        } else {
            rr_pop::<L>(drained, advanced, (attempts - 1) as nat)
        }
    }
}

/// The members after the first `k` of them were processed, in order,
/// together with whether any of them reported progress.
pub open spec fn processed_prefix<L: ChainLink>(
    members: Seq<L::Model>,
    k: nat,
) -> (Seq<L::Model>, bool)
    decreases k,
{
    if k == 0 || k > members.len() {
        (members, false)
    } else {
        let prev = processed_prefix::<L>(members, (k - 1) as nat);
        let idx = k - 1;
        (prev.0.update(idx, L::process_spec(prev.0[idx])), prev.1 || L::progressed(prev.0[idx]))
    }
}

/// The indices below `k` whose flag is clear: the members a `unique`
/// launch over all members would hand out.
pub open spec fn clear_indices(running: Seq<bool>, k: nat) -> Seq<usize>
    decreases k,
{
    if k == 0 || k > running.len() {
        Seq::empty()
    } else {
        let prev = clear_indices(running, (k - 1) as nat);
        if !running[k - 1] {
            prev.push((k - 1) as usize)
        } else {
            prev
        }
    }
}

/// Round-robin search for one member that is not already running: advance
/// the cursor past each member tried, mark the first clear flag, and give
/// up after `attempts` tries. Yields the flags, the final cursor, and the
/// marked index, if any.
pub open spec fn scan_unique(running: Seq<bool>, cursor: nat, attempts: nat) -> (
    Seq<bool>,
    nat,
    Option<usize>,
)
    decreases attempts,
{
    if attempts == 0 || running.len() == 0 {
        (running, cursor, None)
    } else {
        let idx = cursor % running.len();
        let advanced: nat = if idx + 1 == running.len() {
            0
        } else {
            idx + 1
        };
        if running[idx as int] {
            scan_unique(running, advanced, (attempts - 1) as nat)
        } else {
            (running.update(idx as int, true), advanced, Some(idx as usize))
        }
    }
}

/// What planning launches does to the group state. Under `join` nothing is
/// handed out, so nothing changes. Under `free`, driving all members
/// changes nothing and driving one advances the process cursor. Under
/// `unique`, the members handed out have their flags set, and a member
/// already running is passed over.
pub open spec fn launch_step<L: ChainLink>(m: GroupModel<L::Model>) -> GroupModel<L::Model> {
    match m.discipline {
        Discipline::Join => m,
        Discipline::Free => match m.policy {
            Policy::All => m,
            Policy::One => {
                if m.members.len() == 0 {
                    m
                } else {
                    let idx = m.process_cursor % m.members.len();
                    let advanced: nat = if idx + 1 == m.members.len() {
                        0
                    } else {
                        idx + 1
                    };
                    GroupModel { process_cursor: advanced, ..m }
                }
            },
        },
        Discipline::Unique => match m.policy {
            Policy::All => GroupModel { running: Seq::new(m.running.len(), |j: int| true), ..m },
            Policy::One => {
                let scan = scan_unique(m.running, m.process_cursor, m.running.len());
                GroupModel { running: scan.0, process_cursor: scan.1, ..m }
            },
        },
    }
}

/// Which member indices planning launches hands out to independent
/// execution contexts.
pub open spec fn launch_plan<L: ChainLink>(m: GroupModel<L::Model>) -> Seq<usize> {
    match m.discipline {
        Discipline::Join => Seq::empty(),
        Discipline::Free => match m.policy {
            Policy::All => Seq::new(m.members.len(), |j: int| j as usize),
            Policy::One => {
                if m.members.len() == 0 {
                    Seq::empty()
                } else {
                    seq![(m.process_cursor % m.members.len()) as usize]
                }
            },
        },
        Discipline::Unique => match m.policy {
            Policy::All => clear_indices(m.running, m.running.len()),
            Policy::One => {
                let scan = scan_unique(m.running, m.process_cursor, m.running.len());
                match scan.2 {
                    Some(idx) => seq![idx],
                    None => Seq::empty(),
                }
            },
        },
    }
}

/// What one `process` call does to the group. Under `join` the driven
/// members are processed synchronously, in order, and the call reports
/// whether any of them progressed; under `free` and `unique` the call only
/// plans launches and always reports no synchronous progress.
pub open spec fn group_process<L: ChainLink>(m: GroupModel<L::Model>) -> (
    GroupModel<L::Model>,
    bool,
) {
    match m.discipline {
        Discipline::Join => match m.policy {
            Policy::All => {
                let run = processed_prefix::<L>(m.members, m.members.len());
                (GroupModel { members: run.0, ..m }, run.1)
            },
            Policy::One => {
                if m.members.len() == 0 {
                    (m, false)
                } else {
                    let idx = m.process_cursor % m.members.len();
                    let advanced: nat = if idx + 1 == m.members.len() {
                        0
                    } else {
                        idx + 1
                    };
                    (
                        GroupModel {
                            members: m.members.update(
                                idx as int,
                                L::process_spec(m.members[idx as int]),
                            ),
                            process_cursor: advanced,
                            ..m
                        },
                        L::progressed(m.members[idx as int]),
                    )
                }
            },
        },
        Discipline::Free => (launch_step::<L>(m), false),
        Discipline::Unique => (launch_step::<L>(m), false),
    }
}

/// What the state and the handed-out plan become when one randomly drawn
/// member `i` is offered for launching: under `join` nothing is handed
/// out, under `free` the member is handed out as it is, and under `unique`
/// it is handed out and marked only if it is not already running.
pub open spec fn random_launch_step<L: ChainLink>(m: GroupModel<L::Model>, i: int) -> (
    GroupModel<L::Model>,
    Seq<usize>,
) {
    match m.discipline {
        Discipline::Join => (m, Seq::empty()),
        Discipline::Free => (m, seq![i as usize]),
        Discipline::Unique => {
            if 0 <= i < m.running.len() && !m.running[i] {
                (GroupModel { running: m.running.update(i, true), ..m }, seq![i as usize])
            } else {
                (m, Seq::empty())
            }
        },
    }
}

/// Relies on rand::Rng::gen_range over the range 0..bound: the draw is
/// uniform, and all that is stated here is that it lands in the range.
#[verifier::external_body]
fn random_below(bound: usize) -> (drawn: usize)
    requires
        bound > 0,
    ensures
        drawn < bound,
{
    rand::Rng::gen_range(&mut rand::thread_rng(), 0..bound)
}

/// A parallel composition: every push is broadcast to all members, outputs
/// are collected round-robin, and `process` drives members according to
/// the configured discipline and policy.
pub struct FanOut<M: ChainLink> {
    members: Vec<M>,
    pop_cursor: usize,
    process_cursor: usize,
    running: Vec<bool>,
    discipline: Discipline,
    policy: Policy,
}

impl<M: ChainLink> FanOut<M> where M::TInput: Copy {
    /// Group `members` under the given discipline and selection policy. A
    /// group of fewer than two members is a composition error.
    pub fn new(members: Vec<M>, discipline: Discipline, policy: Policy) -> (group: Self)
        requires
            members@.len() >= 2,
        ensures
            group.model() == (GroupModel {
                members: members@.map_values(|m: M| m.model()),
                pop_cursor: 0nat,
                process_cursor: 0nat,
                running: Seq::new(members@.len(), |j: int| false),
                discipline,
                policy,
            }),
    {
        let n = members.len();
        let mut running: Vec<bool> = Vec::new();
        let mut i: usize = 0;
        while i < n
            invariant
                i <= n,
                running@ =~= Seq::new(i as nat, |j: int| false),
            decreases n - i,
        {
            running.push(false);
            i += 1;
        }
        let group = FanOut { members, pop_cursor: 0, process_cursor: 0, running, discipline, policy };
        proof {
            assert(group.model().running =~= Seq::new(group.model().members.len(), |j: int| false));
        }
        group
    }

    /// How many members the group holds.
    pub fn member_count(&self) -> (n: usize)
        ensures
            n == self.model().members.len(),
    {
        self.members.len()
    }

    /// Drive one member synchronously; what a `join` call does for each
    /// driven member, and what an independent execution context does for a
    /// member handed out by a launch plan.
    pub fn process_member(&mut self, index: usize) -> (made: bool)
        requires
            index < old(self).model().members.len(),
        ensures
            final(self).model() == (GroupModel {
                members: old(self).model().members.update(
                    index as int,
                    M::process_spec(old(self).model().members[index as int]),
                ),
                ..old(self).model()
            }),
            made == M::progressed(old(self).model().members[index as int]),
    {
        let made = self.members[index].process();
        proof {
            assert(self.members@.map_values(|m: M| m.model()) =~= old(
                self,
            ).model().members.update(
                index as int,
                M::process_spec(old(self).model().members[index as int]),
            ));
            assert(self.model() =~= (GroupModel {
                members: old(self).model().members.update(
                    index as int,
                    M::process_spec(old(self).model().members[index as int]),
                ),
                ..old(self).model()
            }));
        }
        made
    }

    /// Record that the independent execution context driving `index` has
    /// finished, clearing its is-running flag so `unique` may hand the
    /// member out again.
    pub fn finish_member(&mut self, index: usize)
        requires
            index < old(self).model().running.len(),
        ensures
            final(self).model() == (GroupModel {
                running: old(self).model().running.update(index as int, false),
                ..old(self).model()
            }),
    {
        self.running[index] = false;
        proof {
            assert(self.model() =~= (GroupModel {
                running: old(self).model().running.update(index as int, false),
                ..old(self).model()
            }));
        }
    }

    /// Plan which members to hand to independent execution contexts, per
    /// the configured discipline and policy, marking them as running where
    /// the discipline is `unique`. Under `join` the plan is always empty:
    /// join work happens synchronously inside `process`.
    pub fn plan_launches(&mut self) -> (plan: Vec<usize>)
        ensures
            final(self).model() == launch_step::<M>(old(self).model()),
            plan@ == launch_plan::<M>(old(self).model()),
    {
        match self.discipline {
            Discipline::Join => Vec::new(),
            Discipline::Free => match self.policy {
                Policy::All => {
                    let n = self.members.len();
                    let mut plan: Vec<usize> = Vec::new();
                    let mut i: usize = 0;
                    while i < n
                        invariant
                            i <= n,
                            plan@ =~= Seq::new(i as nat, |j: int| j as usize),
                        decreases n - i,
                    {
                        plan.push(i);
                        i += 1;
                    }
                    proof {
                        assert(plan@ =~= launch_plan::<M>(old(self).model()));
                    }
                    plan
                },
                Policy::One => {
                    let n = self.members.len();
                    if n == 0 {
                        Vec::new()
                    } else {
                        let idx = self.process_cursor % n;
                        if idx + 1 == n {
                            self.process_cursor = 0;
                        } else {
                            self.process_cursor = idx + 1;
                        }
                        let mut plan: Vec<usize> = Vec::new();
                        plan.push(idx);
                        proof {
                            assert(plan@ =~= launch_plan::<M>(old(self).model()));
                        }
                        plan
                    }
                },
            },
            Discipline::Unique => match self.policy {
                Policy::All => {
                    let n = self.running.len();
                    let mut plan: Vec<usize> = Vec::new();
                    let mut i: usize = 0;
                    while i < n
                        invariant
                            i <= n,
                            n == self.running@.len(),
                            self.members == old(self).members,
                            self.pop_cursor == old(self).pop_cursor,
                            self.process_cursor == old(self).process_cursor,
                            self.discipline == old(self).discipline,
                            self.policy == old(self).policy,
                            self.discipline is Unique,
                            self.policy is All,
                            old(self).running@.len() == n,
                            plan@ == clear_indices(old(self).running@, i as nat),
                            self.running@ =~= Seq::new(
                                n as nat,
                                |j: int| if j < i { true } else { old(self).running@[j] },
                            ),
                        decreases n - i,
                    {
                        if !self.running[i] {
                            plan.push(i);
                        }
                        self.running[i] = true;
                        proof {
                            assert(self.running@ =~= Seq::new(
                                n as nat,
                                |j: int| if j < i + 1 { true } else { old(self).running@[j] },
                            ));
                        }
                        i += 1;
                    }
                    proof {
                        assert(self.running@ =~= Seq::new(n as nat, |j: int| true));
                        assert(self.model() =~= launch_step::<M>(old(self).model()));
                    }
                    plan
                },
                Policy::One => {
                    let n = self.running.len();
                    let ghost orig = self.model();
                    let mut attempts: usize = 0;
                    while attempts < n
                        invariant
                            attempts <= n,
                            n == self.running@.len(),
                            self.members == old(self).members,
                            self.pop_cursor == old(self).pop_cursor,
                            self.discipline == old(self).discipline,
                            self.policy == old(self).policy,
                            self.discipline is Unique,
                            self.policy is One,
                            orig == old(self).model(),
                            orig.running.len() == n,
                            scan_unique(
                                self.running@,
                                self.process_cursor as nat,
                                (n - attempts) as nat,
                            ) == scan_unique(orig.running, orig.process_cursor, n as nat),
                        decreases n - attempts,
                    {
                        let idx = self.process_cursor % n;
                        if idx + 1 == n {
                            self.process_cursor = 0;
                        } else {
                            self.process_cursor = idx + 1;
                        }
                        if !self.running[idx] {
                            self.running[idx] = true;
                            let mut plan: Vec<usize> = Vec::new();
                            plan.push(idx);
                            proof {
                                assert(plan@ =~= launch_plan::<M>(orig));
                                assert(self.model() =~= launch_step::<M>(orig));
                            }
                            return plan;
                        }
                        attempts += 1;
                    }
                    proof {
                        assert(self.model() =~= launch_step::<M>(orig));
                        assert(Seq::<usize>::empty() =~= launch_plan::<M>(orig));
                    }
                    Vec::new()
                },
            },
        }
    }

    /// Drive one uniformly drawn member synchronously and report its
    /// result: the randomized counterpart of a `join` `process` call. Which
    /// member runs is chance; what holds of every outcome is stated here.
    pub fn process_random(&mut self) -> (made: bool)
        ensures
            old(self).model().members.len() == 0 ==> *final(self) == *old(self) && !made,
            old(self).model().members.len() > 0 ==> exists|i: int|
                0 <= i < old(self).model().members.len() && final(self).model() == (GroupModel {
                    members: old(self).model().members.update(
                        i,
                        M::process_spec(#[trigger] old(self).model().members[i]),
                    ),
                    ..old(self).model()
                }) && made == M::progressed(old(self).model().members[i]),
    {
        let n = self.members.len();
        if n == 0 {
            return false;
        }
        let drawn = random_below(n);
        let made = self.process_member(drawn);
        proof {
            assert(0 <= drawn < old(self).model().members.len() && self.model() == (GroupModel {
                members: old(self).model().members.update(
                    drawn as int,
                    M::process_spec(old(self).model().members[drawn as int]),
                ),
                ..old(self).model()
            }) && made == M::progressed(old(self).model().members[drawn as int]));
        }
        made
    }

    /// Offer one uniformly drawn member for launching in an independent
    /// execution context: the randomized counterpart of `plan_launches`.
    /// Under `unique` a drawn member that is already running is passed
    /// over, so the plan may come back empty.
    pub fn plan_random_launch(&mut self) -> (plan: Vec<usize>)
        ensures
            old(self).model().members.len() == 0 ==> *final(self) == *old(self) && plan@
                == Seq::<usize>::empty(),
            old(self).model().members.len() > 0 ==> exists|i: int|
                0 <= i < old(self).model().members.len() && final(self).model() == (
                #[trigger] random_launch_step::<M>(old(self).model(), i)).0 && plan@
                    == random_launch_step::<M>(old(self).model(), i).1,
    {
        let n = self.members.len();
        if n == 0 {
            return Vec::new();
        }
        let drawn = random_below(n);
        let ghost orig = self.model();
        match self.discipline {
            Discipline::Join => {
                let plan: Vec<usize> = Vec::new();
                proof {
                    assert(self.model() == random_launch_step::<M>(orig, drawn as int).0 && plan@
                        =~= random_launch_step::<M>(orig, drawn as int).1);
                }
                plan
            },
            Discipline::Free => {
                let mut plan: Vec<usize> = Vec::new();
                plan.push(drawn);
                proof {
                    assert(self.model() == random_launch_step::<M>(orig, drawn as int).0 && plan@
                        =~= random_launch_step::<M>(orig, drawn as int).1);
                }
                plan
            },
            Discipline::Unique => {
                let mut plan: Vec<usize> = Vec::new();
                let launchable = drawn < self.running.len() && !self.running[drawn];
                if launchable {
                    self.running[drawn] = true;
                    plan.push(drawn);
                }
                proof {
                    assert(self.model() =~= random_launch_step::<M>(orig, drawn as int).0);
                    assert(plan@ =~= random_launch_step::<M>(orig, drawn as int).1);
                }
                plan
            },
        }
    }
}

impl<M: ChainLink> ChainLink for FanOut<M> where M::TInput: Copy {
    type TInput = M::TInput;

    type TOutput = M::TOutput;

    type Model = GroupModel<M::Model>;

    closed spec fn model(self) -> GroupModel<M::Model> {
        GroupModel {
            members: self.members@.map_values(|m: M| m.model()),
            pop_cursor: self.pop_cursor as nat,
            process_cursor: self.process_cursor as nat,
            running: self.running@,
            discipline: self.discipline,
            policy: self.policy,
        }
    }

    open spec fn push_spec(m: GroupModel<M::Model>, input: M::TInput) -> GroupModel<M::Model> {
        GroupModel { members: broadcast_push::<M>(m.members, input), ..m }
    }

    open spec fn push_if_empty_spec(m: GroupModel<M::Model>, input: M::TInput) -> GroupModel<
        M::Model,
    > {
        GroupModel { members: broadcast_push_if_empty::<M>(m.members, input), ..m }
    }

    open spec fn pop_spec(m: GroupModel<M::Model>) -> GroupModel<M::Model> {
        let run = rr_pop::<M>(m.members, m.pop_cursor, m.members.len());
        GroupModel { members: run.0, pop_cursor: run.1, ..m }
    }

    open spec fn popped(m: GroupModel<M::Model>) -> Option<M::TOutput> {
        rr_pop::<M>(m.members, m.pop_cursor, m.members.len()).2
    }

    open spec fn process_spec(m: GroupModel<M::Model>) -> GroupModel<M::Model> {
        group_process::<M>(m).0
    }

    open spec fn progressed(m: GroupModel<M::Model>) -> bool {
        group_process::<M>(m).1
    }

    fn push(&mut self, input: M::TInput) {
        let ghost orig = self.model();
        let n = self.members.len();
        let mut i: usize = 0;
        while i < n
            invariant
                i <= n,
                n == self.members@.len(),
                self.running == old(self).running,
                self.pop_cursor == old(self).pop_cursor,
                self.process_cursor == old(self).process_cursor,
                self.discipline == old(self).discipline,
                self.policy == old(self).policy,
                orig == old(self).model(),
                orig.members.len() == n,
                self.members@.map_values(|m: M| m.model()) =~= pushed_prefix::<M>(
                    orig.members,
                    input,
                    i as int,
                ),
            decreases n - i,
        {
            let ghost pre = self.members@;
            self.members[i].push(input);
            proof {
                assert forall|j: int| 0 <= j < n implies self.members@.map_values(
                    |m: M| m.model(),
                )[j] == #[trigger] pushed_prefix::<M>(orig.members, input, i + 1)[j] by {
                    assert(pre.map_values(|m: M| m.model())[j] == pushed_prefix::<M>(
                        orig.members,
                        input,
                        i as int,
                    )[j]);
                }
                assert(self.members@.map_values(|m: M| m.model()) =~= pushed_prefix::<M>(
                    orig.members,
                    input,
                    i + 1,
                ));
            }
            i += 1;
        }
        proof {
            assert(pushed_prefix::<M>(orig.members, input, n as int) =~= broadcast_push::<M>(
                orig.members,
                input,
            ));
            assert(self.model() =~= Self::push_spec(orig, input));
        }
    }

    fn push_if_empty(&mut self, input: M::TInput) {
        let ghost orig = self.model();
        let n = self.members.len();
        let mut i: usize = 0;
        while i < n
            invariant
                i <= n,
                n == self.members@.len(),
                self.running == old(self).running,
                self.pop_cursor == old(self).pop_cursor,
                self.process_cursor == old(self).process_cursor,
                self.discipline == old(self).discipline,
                self.policy == old(self).policy,
                orig == old(self).model(),
                orig.members.len() == n,
                self.members@.map_values(|m: M| m.model()) =~= pushed_if_empty_prefix::<M>(
                    orig.members,
                    input,
                    i as int,
                ),
            decreases n - i,
        {
            let ghost pre = self.members@;
            self.members[i].push_if_empty(input);
            proof {
                assert forall|j: int| 0 <= j < n implies self.members@.map_values(
                    |m: M| m.model(),
                )[j] == #[trigger] pushed_if_empty_prefix::<M>(orig.members, input, i + 1)[j] by {
                    assert(pre.map_values(|m: M| m.model())[j] == pushed_if_empty_prefix::<M>(
                        orig.members,
                        input,
                        i as int,
                    )[j]);
                }
                assert(self.members@.map_values(|m: M| m.model()) =~= pushed_if_empty_prefix::<M>(
                    orig.members,
                    input,
                    i + 1,
                ));
            }
            i += 1;
        }
        proof {
            assert(pushed_if_empty_prefix::<M>(orig.members, input, n as int)
                =~= broadcast_push_if_empty::<M>(orig.members, input));
            assert(self.model() =~= Self::push_if_empty_spec(orig, input));
        }
    }

    fn try_pop(&mut self) -> (popped: Option<M::TOutput>) {
        let ghost orig = self.model();
        let n = self.members.len();
        if n == 0 {
            return None;
        }
        let mut attempts: usize = 0;
        while attempts < n
            invariant
                attempts <= n,
                n == self.members@.len(),
                n > 0,
                self.running == old(self).running,
                self.process_cursor == old(self).process_cursor,
                self.discipline == old(self).discipline,
                self.policy == old(self).policy,
                orig == old(self).model(),
                orig.members.len() == n,
                rr_pop::<M>(
                    self.members@.map_values(|m: M| m.model()),
                    self.pop_cursor as nat,
                    (n - attempts) as nat,
                ) == rr_pop::<M>(orig.members, orig.pop_cursor, n as nat),
            decreases n - attempts,
        {
            let ghost entry_members = self.members@.map_values(|m: M| m.model());
            let idx = self.pop_cursor % n;
            if idx + 1 == n {
                self.pop_cursor = 0;
            } else {
                self.pop_cursor = idx + 1;
            }
            let out = self.members[idx].try_pop();
            proof {
                assert(self.members@.map_values(|m: M| m.model()) =~= entry_members.update(
                    idx as int,
                    M::pop_spec(entry_members[idx as int]),
                ));
            }
            if out.is_some() {
                proof {
                    assert(self.model() =~= Self::pop_spec(orig));
                }
                return out;
            }
            attempts += 1;
        }
        proof {
            assert(self.model() =~= Self::pop_spec(orig));
        }
        None
    }

    fn process(&mut self) -> (made: bool) {
        let ghost orig = self.model();
        match self.discipline {
            Discipline::Join => match self.policy {
                Policy::All => {
                    let n = self.members.len();
                    let mut any_made = false;
                    let mut i: usize = 0;
                    while i < n
                        invariant
                            i <= n,
                            n == self.members@.len(),
                            self.running == old(self).running,
                            self.pop_cursor == old(self).pop_cursor,
                            self.process_cursor == old(self).process_cursor,
                            self.discipline == old(self).discipline,
                            self.policy == old(self).policy,
                            self.discipline is Join,
                            self.policy is All,
                            orig == old(self).model(),
                            orig.members.len() == n,
                            self.members@.map_values(|m: M| m.model()) =~= processed_prefix::<M>(
                                orig.members,
                                i as nat,
                            ).0,
                            any_made == processed_prefix::<M>(orig.members, i as nat).1,
                        decreases n - i,
                    {
                        let ghost entry_members = self.members@.map_values(|m: M| m.model());
                        let made_here = self.members[i].process();
                        any_made = any_made || made_here;
                        proof {
                            assert(self.members@.map_values(|m: M| m.model())
                                =~= entry_members.update(
                                i as int,
                                M::process_spec(entry_members[i as int]),
                            ));
                            assert(self.members@.map_values(|m: M| m.model())
                                =~= processed_prefix::<M>(orig.members, (i + 1) as nat).0);
                        }
                        i += 1;
                    }
                    proof {
                        assert(self.model() =~= Self::process_spec(orig));
                    }
                    any_made
                },
                Policy::One => {
                    let n = self.members.len();
                    if n == 0 {
                        return false;
                    }
                    let idx = self.process_cursor % n;
                    if idx + 1 == n {
                        self.process_cursor = 0;
                    } else {
                        self.process_cursor = idx + 1;
                    }
                    let ghost entry_members = self.members@.map_values(|m: M| m.model());
                    let made = self.members[idx].process();
                    proof {
                        assert(self.members@.map_values(|m: M| m.model()) =~= entry_members.update(
                            idx as int,
                            M::process_spec(entry_members[idx as int]),
                        ));
                        assert(self.model() =~= Self::process_spec(orig));
                    }
                    made
                },
            },
            Discipline::Free => {
                let _plan = self.plan_launches();
                false
            },
            Discipline::Unique => {
                let _plan = self.plan_launches();
                false
            },
        }
    }
}

/// The combined measure of a group's members.
pub open spec fn total_measure<L: Measured>(members: Seq<L::Model>) -> nat
    decreases members.len(),
{
    if members.len() == 0 {
        0
    } else {
        L::measure(members[0]) + total_measure::<L>(members.drop_first())
    }
}

/// Replacing one member changes the combined measure by exactly that
/// member's difference.
pub(crate) proof fn lemma_total_measure_update<L: Measured>(
    members: Seq<L::Model>,
    i: int,
    replacement: L::Model,
)
    requires
        0 <= i < members.len(),
    ensures
        total_measure::<L>(members.update(i, replacement)) + L::measure(members[i])
            == total_measure::<L>(members) + L::measure(replacement),
    decreases members.len(),
{
    if i == 0 {
        assert(members.update(0, replacement).drop_first() =~= members.drop_first());
    } else {
        lemma_total_measure_update::<L>(members.drop_first(), i - 1, replacement);
        assert(members.update(i, replacement).drop_first() =~= members.drop_first().update(
            i - 1,
            replacement,
        ));
    }
}

/// Processing a prefix of the members never grows the combined measure,
/// and shrinks it when any of them progressed.
pub(crate) proof fn lemma_processed_prefix_measure<L: Measured>(members: Seq<L::Model>, k: nat)
    ensures
        processed_prefix::<L>(members, k).0.len() == members.len(),
        total_measure::<L>(processed_prefix::<L>(members, k).0) <= total_measure::<L>(members),
        processed_prefix::<L>(members, k).1 ==> total_measure::<L>(
            processed_prefix::<L>(members, k).0,
        ) < total_measure::<L>(members),
    decreases k,
{
    if !(k == 0 || k > members.len()) {
        lemma_processed_prefix_measure::<L>(members, (k - 1) as nat);
        let prev = processed_prefix::<L>(members, (k - 1) as nat);
        let idx = k - 1;
        L::process_reduces_measure(prev.0[idx]);
        lemma_total_measure_update::<L>(prev.0, idx, L::process_spec(prev.0[idx]));
    }
}

/// Round-robin collection never grows the combined measure, and shrinks
/// it when it yields an output.
pub(crate) proof fn lemma_rr_pop_measure<L: Measured>(
    members: Seq<L::Model>,
    cursor: nat,
    attempts: nat,
)
    ensures
        total_measure::<L>(rr_pop::<L>(members, cursor, attempts).0) <= total_measure::<L>(
            members,
        ),
        rr_pop::<L>(members, cursor, attempts).2 is Some ==> total_measure::<L>(
            rr_pop::<L>(members, cursor, attempts).0,
        ) < total_measure::<L>(members),
    decreases attempts,
{
    if !(attempts == 0 || members.len() == 0) {
        let idx = cursor % members.len();
        let advanced: nat = if idx + 1 == members.len() {
            0
        } else {
            idx + 1
        };
        let drained = members.update(idx as int, L::pop_spec(members[idx as int]));
        L::pop_reduces_measure(members[idx as int]);
        lemma_total_measure_update::<L>(members, idx as int, L::pop_spec(members[idx as int]));
        if L::popped(members[idx as int]) is None {
            lemma_rr_pop_measure::<L>(drained, advanced, (attempts - 1) as nat);
        }
    }
}

impl<M: Measured> Measured for FanOut<M> where M::TInput: Copy {
    open spec fn measure(m: GroupModel<M::Model>) -> nat {
        total_measure::<M>(m.members)
    }

    proof fn process_reduces_measure(m: GroupModel<M::Model>) {
        match m.discipline {
            Discipline::Join => match m.policy {
                Policy::All => {
                    lemma_processed_prefix_measure::<M>(m.members, m.members.len());
                },
                Policy::One => {
                    if m.members.len() > 0 {
                        let idx = m.process_cursor % m.members.len();
                        M::process_reduces_measure(m.members[idx as int]);
                        lemma_total_measure_update::<M>(
                            m.members,
                            idx as int,
                            M::process_spec(m.members[idx as int]),
                        );
                    }
                },
            },
            Discipline::Free => {},
            Discipline::Unique => {},
        }
    }

    proof fn pop_reduces_measure(m: GroupModel<M::Model>) {
        lemma_rr_pop_measure::<M>(m.members, m.pop_cursor, m.members.len());
    }
}

} // verus!
