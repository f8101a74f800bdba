use chain_link::chain::ChainLink;
use chain_link::either::Either;
use chain_link::group::{Discipline, FanOut, Policy};
use chain_link::pipeline::Pipeline;
use chain_link::replication::Replication;
use chain_link::samples::{CaseProbe, EnumText, FixedText, SomeInput, TextEnum, TextNumber, TextTally};
use chain_link::stage::Stage;

#[test]
fn chain_link_enum_to_string() {
    let mut test = Stage::new(EnumText::new());
    test.push(SomeInput::Second);
    test.process();
    let response = test.try_pop();
    match response {
        Some(response) => {
            assert_eq!("second", response.as_str());
        },
        None => {
            panic!("Unexpected None response.");
        },
    }
}

#[test]
fn chain_link_using_initializer() {
    let mut test = Stage::new(FixedText { text: String::from("test") });
    test.push(());
    test.process();
    let response = test.try_pop();
    match response {
        Some(response) => {
            assert_eq!("test", response.as_str());
        },
        None => {
            panic!("Unexpected None response.");
        },
    }
}

#[test]
fn chain_enum_to_enum() {
    let mut chain_test = Pipeline::new(Stage::new(EnumText::new()), Stage::new(TextEnum::new()));
    chain_test.push(SomeInput::Second);
    chain_test.process();
    let response = chain_test.try_pop();
    match response {
        Some(response) => {
            assert_eq!(SomeInput::Second, response);
        },
        None => {
            panic!("Unexpected None response.");
        },
    }
}

#[test]
fn chain_enum_to_string_to_enum() {
    let mut triple_test = Pipeline::new(
        Stage::new(EnumText::new()),
        Pipeline::new(Stage::new(TextEnum::new()), Stage::new(EnumText::new())),
    );
    triple_test.push(SomeInput::First);
    triple_test.process();
    let response = triple_test.try_pop();
    match response {
        Some(response) => {
            assert_eq!("first", response.as_str());
        },
        None => {
            panic!("Unexpected None response.");
        },
    }
}

#[test]
fn chain_to_chain() {
    // A chain of two chains, laid out as one nested pipeline: the two
    // stages of the first chain ahead of the three of the second.
    let mut test = Pipeline::new(
        Stage::new(EnumText::new()),
        Pipeline::new(
            Stage::new(TextEnum::new()),
            Pipeline::new(
                Stage::new(EnumText::new()),
                Pipeline::new(Stage::new(TextEnum::new()), Stage::new(EnumText::new())),
            ),
        ),
    );
    test.push(SomeInput::First);
    test.process();
    let response = test.try_pop();
    match response {
        Some(response) => {
            assert_eq!("first", response.as_str());
        },
        None => {
            panic!("Unexpected None response.");
        },
    }
}

#[test]
fn chain_to_chain_to_chain_link() {
    let mut test = Pipeline::new(
        Stage::new(EnumText::new()),
        Pipeline::new(
            Stage::new(TextEnum::new()),
            Pipeline::new(
                Stage::new(EnumText::new()),
                Pipeline::new(
                    Stage::new(TextEnum::new()),
                    Pipeline::new(Stage::new(EnumText::new()), Stage::new(TextEnum::new())),
                ),
            ),
        ),
    );
    test.push(SomeInput::Second);
    test.process();
    let response = test.try_pop();
    match response {
        Some(response) => {
            assert_eq!(SomeInput::Second, response);
        },
        None => {
            panic!("Unexpected None response.");
        },
    }
}

type ScoreOrTally = Either<Stage<TextNumber>, Stage<TextTally>>;

fn score_member(pattern: &str) -> ScoreOrTally {
    Either::First(Stage::new(TextNumber { pattern: String::from(pattern) }))
}

fn tally_member() -> ScoreOrTally {
    Either::Second(Stage::new(TextTally { seen: 0 }))
}

#[test]
fn split_to_two_chain_links() {
    let mut test = FanOut::new(
        vec![score_member("test"), tally_member()],
        Discipline::Join,
        Policy::All,
    );
    test.push("test");
    test.process();
    let response = test.try_pop();
    match response {
        Some(response) => {
            assert_eq!(1, response);
        },
        None => {
            panic!("Unexpected None response.");
        },
    }
    test.process();
    let response = test.try_pop();
    match response {
        Some(response) => {
            assert_eq!(0, response);
        },
        None => {
            panic!("Unexpected None response.");
        },
    }
    test.process();
    let response = test.try_pop();
    match response {
        Some(response) => {
            panic!("Unexpected Some response with value {}.", response);
        },
        None => {
            // expected path
        },
    }
}

#[test]
fn split_to_two_chain_links_round_robin_finds_flushed_chainlink() {
    let inner = FanOut::new(
        vec![score_member("test"), tally_member()],
        Discipline::Join,
        Policy::All,
    );
    let mut test = FanOut::new(
        vec![
            Either::First(Stage::new(TextNumber { pattern: String::from("test") })),
            Either::Second(Either::First(inner)),
            Either::Second(Either::Second(Stage::new(TextTally { seen: 0 }))),
        ],
        Discipline::Join,
        Policy::All,
    );
    test.push("test");
    test.process();
    let response = test.try_pop();
    match response {
        Some(response) => {
            assert_eq!(1, response);
        },
        None => {
            panic!("Unexpected None response.");
        },
    }
    test.process();
    let response = test.try_pop();
    match response {
        Some(response) => {
            assert_eq!(1, response);
        },
        None => {
            panic!("Unexpected None response.");
        },
    }
    test.process();
    let response = test.try_pop();
    match response {
        Some(response) => {
            assert_eq!(0, response);
        },
        None => {
            panic!("Unexpected None response.");
        },
    }
    test.process();
    let response = test.try_pop();
    match response {
        Some(response) => {
            assert_eq!(0, response);
        },
        None => {
            panic!("Unexpected None response.");
        },
    }
    test.process();
    let response = test.try_pop();
    match response {
        Some(response) => {
            panic!("Unexpected Some response with value {}.", response);
        },
        None => {
            // expected path
        },
    }
}

#[test]
fn duplicate_locking() {
    let mut dup = Replication::replicate(CaseProbe {}, 2, Discipline::Join);

    dup.push("test");
    dup.push("TEST");

    dup.process();
    dup.process();

    let output = dup.try_pop();
    assert!(output.is_some());

    let output = dup.try_pop();
    assert!(output.is_some());
}

#[test]
fn new_chain() {
    // Every composition shape the library offers, driven briefly: solo
    // stages, nested chains, splits of stages and of chains, and each
    // discipline and selection policy, including the randomized one.
    let mut solo = Stage::new(TextNumber { pattern: String::from("test") });
    solo.push("test");
    solo.process();
    solo.try_pop();

    let mut two_chain = Pipeline::new(Stage::new(EnumText::new()), Stage::new(TextEnum::new()));
    two_chain.push_if_empty(SomeInput::First);
    two_chain.process();
    two_chain.try_pop();

    for discipline in [Discipline::Join, Discipline::Free, Discipline::Unique] {
        for policy in [Policy::All, Policy::One] {
            let mut split = FanOut::new(
                vec![score_member("a"), score_member("b"), tally_member()],
                discipline,
                policy,
            );
            split.push("a");
            split.process();
            split.try_pop();
            split.plan_launches();
            split.process_random();
            split.plan_random_launch();

            let mut split_of_chains = FanOut::new(
                vec![
                    Pipeline::new(Stage::new(EnumText::new()), Stage::new(TextEnum::new())),
                    Pipeline::new(Stage::new(EnumText::new()), Stage::new(TextEnum::new())),
                ],
                discipline,
                policy,
            );
            split_of_chains.push(SomeInput::First);
            split_of_chains.process();
            split_of_chains.try_pop();
        }

        let mut replicas = Replication::replicate(CaseProbe {}, 3, discipline);
        replicas.push("SHOUT");
        replicas.process();
        replicas.try_pop();
        replicas.plan_launches();
    }
}
