use chain_link::chain::ChainLink;
use chain_link::either::Either;
use chain_link::group::{Discipline, FanOut, Policy};
use chain_link::pipeline::Pipeline;
use chain_link::queue::Queue;
use chain_link::samples::{
    EnumTally, EnumText, FixedText, LineSource, SomeInput, TextEnum, TextNumber, TextTally,
};
use chain_link::stage::Stage;

#[test]
fn round_trip_matches_composed_transforms() {
    // Both transforms produce: the pipeline hands back exactly the
    // composition of the two on the pushed value.
    let mut pipeline = Pipeline::new(Stage::new(EnumText::new()), Stage::new(TextEnum::new()));
    pipeline.push(SomeInput::First);
    assert!(pipeline.process());
    assert_eq!(Some(SomeInput::First), pipeline.try_pop());

    // The downstream transform drops its input: the pipeline hands back
    // nothing, exactly as the composition gives nothing.
    let mut dropping = Pipeline::new(
        Stage::new(FixedText { text: String::from("unparsable") }),
        Stage::new(TextEnum::new()),
    );
    dropping.push(());
    assert!(!dropping.process());
    assert_eq!(None, dropping.try_pop());
}

#[test]
fn single_process_call_reports_terminal_output() {
    // Three pure stages: one push, one process call; the report is true
    // exactly because a value reached the terminal output queue.
    let mut pipeline = Pipeline::new(
        Stage::new(EnumText::new()),
        Pipeline::new(Stage::new(TextEnum::new()), Stage::new(EnumText::new())),
    );
    pipeline.push(SomeInput::Second);
    assert!(pipeline.process());
    assert_eq!("second", pipeline.try_pop().expect("terminal output").as_str());
    // Quiescent afterwards: no report, no output.
    assert!(!pipeline.process());
    assert_eq!(None, pipeline.try_pop());
}

#[test]
fn fan_out_try_pop_cycles_members_fairly() {
    // Three members, each with exactly one buffered output after one
    // process call: three pops return each member's output once, in
    // round-robin order from the cursor, and a fourth signals exhaustion.
    let mut group = FanOut::new(
        vec![
            Either::First(Stage::new(TextNumber { pattern: String::from("hit") })),
            Either::First(Stage::new(TextNumber { pattern: String::from("miss") })),
            Either::Second(Stage::new(TextTally { seen: 0 })),
        ],
        Discipline::Join,
        Policy::All,
    );
    group.push("hit");
    assert!(group.process());
    assert_eq!(Some(1), group.try_pop());
    assert_eq!(Some(2), group.try_pop());
    assert_eq!(Some(0), group.try_pop());
    assert_eq!(None, group.try_pop());
}

#[test]
fn unique_discipline_never_launches_twice() {
    let mut group = FanOut::new(
        vec![
            Either::First(Stage::new(TextNumber { pattern: String::from("slow") })),
            Either::Second(Stage::new(TextTally { seen: 0 })),
        ],
        Discipline::Unique,
        Policy::All,
    );
    group.push("slow");
    // The first planning call hands out both members and marks them.
    let first_plan = group.plan_launches();
    assert_eq!(vec![0, 1], first_plan);
    // Called again in quick succession, nothing is handed out: both are
    // still running.
    let second_plan = group.plan_launches();
    assert!(second_plan.is_empty());
    // Once one member's execution context reports completion, only that
    // member may be handed out again.
    group.finish_member(1);
    let third_plan = group.plan_launches();
    assert_eq!(vec![1], third_plan);
}

#[test]
fn unique_one_policy_skips_running_member() {
    let mut group = FanOut::new(
        vec![
            Either::First(Stage::new(TextNumber { pattern: String::from("slow") })),
            Either::Second(Stage::new(TextTally { seen: 0 })),
        ],
        Discipline::Unique,
        Policy::One,
    );
    assert_eq!(vec![0], group.plan_launches());
    // The round-robin search passes over the running member and hands out
    // the other.
    assert_eq!(vec![1], group.plan_launches());
    // With both running, the search comes back empty-handed.
    assert!(group.plan_launches().is_empty());
    group.finish_member(0);
    assert_eq!(vec![0], group.plan_launches());
}

#[test]
fn empty_stage_is_idle_without_side_effects() {
    let mut stage = Stage::new(TextEnum::new());
    // Nothing queued, nothing the continuation can give: repeatedly idle.
    assert_eq!(None, stage.try_pop());
    assert_eq!(None, stage.try_pop());
    assert!(!stage.process());
    assert!(!stage.process());
    // The idle calls changed nothing: the stage still works as fresh.
    stage.push(String::from("second"));
    assert!(stage.process());
    assert_eq!(Some(SomeInput::Second), stage.try_pop());
}

#[test]
fn push_if_empty_keeps_first_and_fills_after_pop() {
    let mut queue: Queue<i32> = Queue::new();
    // Pushing A then offering B to a non-empty queue keeps only A.
    queue.push(1);
    queue.push_if_empty(2);
    assert_eq!(Some(1), queue.try_pop());
    assert_eq!(None, queue.try_pop());
    // After A is popped, the offer lands.
    queue.push(1);
    assert_eq!(Some(1), queue.try_pop());
    queue.push_if_empty(2);
    assert_eq!(Some(2), queue.try_pop());
}

#[test]
fn queue_is_first_in_first_out() {
    let mut queue: Queue<&str> = Queue::default();
    assert!(queue.is_empty());
    queue.push("a");
    queue.push("b");
    queue.push("c");
    assert_eq!(3, queue.len());
    assert_eq!(Some("a"), queue.try_pop());
    assert_eq!(Some("b"), queue.try_pop());
    assert_eq!(Some("c"), queue.try_pop());
    assert_eq!(None, queue.try_pop());
}

#[test]
fn three_line_source_sinks_exactly_three_records() {
    // A three-line source piped through a parse stage into a counting
    // sink: pushing the path and then driving process/try_pop until
    // exhaustion sinks exactly three records.
    let lines = vec![
        String::from("first"),
        String::from("second"),
        String::from("first"),
    ];
    let mut pipeline = Pipeline::new(
        Stage::new(LineSource::new(lines)),
        Pipeline::new(Stage::new(TextEnum::new()), Stage::new(EnumTally { seen: 0 })),
    );
    pipeline.push(String::from("records.txt"));
    let mut sunk: Vec<u64> = Vec::new();
    loop {
        pipeline.process();
        match pipeline.try_pop() {
            Some(count) => sunk.push(count),
            None => break,
        }
    }
    assert_eq!(vec![1, 2, 3], sunk);
    // Exhausted for good: further driving yields nothing.
    assert!(!pipeline.process());
    assert_eq!(None, pipeline.try_pop());
}

#[test]
fn random_member_is_always_in_range() {
    // The randomized selection draws a member index from the underlying
    // generator; whatever it draws, exactly one existing member is driven
    // and its report handed back.
    let mut group = FanOut::new(
        vec![
            Either::First(Stage::new(TextNumber { pattern: String::from("x") })),
            Either::Second(Stage::new(TextTally { seen: 0 })),
        ],
        Discipline::Join,
        Policy::All,
    );
    group.push("x");
    for _ in 0..32 {
        group.process_random();
    }
    // Whatever the draws were, mop up with one full round; after it both
    // members have certainly consumed their one input.
    group.process();
    let mut outputs = vec![group.try_pop(), group.try_pop()];
    outputs.sort();
    assert_eq!(vec![Some(0), Some(1)], outputs);
    assert_eq!(None, group.try_pop());

    // The randomized launch planner never hands out an index beyond the
    // member count.
    let mut free_group = FanOut::new(
        vec![
            Either::First(Stage::new(TextNumber { pattern: String::from("x") })),
            Either::Second(Stage::new(TextTally { seen: 0 })),
        ],
        Discipline::Free,
        Policy::All,
    );
    for _ in 0..32 {
        for index in free_group.plan_random_launch() {
            assert!(index < 2);
        }
    }
}

#[test]
fn groups_can_feed_pipelines() {
    // A fan-out group as the upstream member of a pipeline: its collected
    // outputs ripple into the downstream stage within one process call.
    let mut grouped_front = Pipeline::new(
        FanOut::new(
            vec![Stage::new(EnumText::new()), Stage::new(EnumText::new())],
            Discipline::Join,
            Policy::All,
        ),
        Stage::new(TextEnum::new()),
    );
    grouped_front.push(SomeInput::First);
    assert!(grouped_front.process());
    assert_eq!(Some(SomeInput::First), grouped_front.try_pop());

    // The same with a replication group up front.
    let mut replicated_front = Pipeline::new(
        chain_link::replication::Replication::new(
            vec![Stage::new(EnumText::new()), Stage::new(EnumText::new())],
            Discipline::Join,
        ),
        Stage::new(TextEnum::new()),
    );
    replicated_front.push(SomeInput::Second);
    assert!(replicated_front.process());
    assert_eq!(Some(SomeInput::Second), replicated_front.try_pop());
}
