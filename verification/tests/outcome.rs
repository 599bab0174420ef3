use std::str::FromStr;

use payment_gateway::dice::generator;
use payment_gateway::gateway::config::Config;
use payment_gateway::gateway::outcome::{Draws, Outcome, Plan, Scenario};
use rand::distr::Bernoulli;
use rand::rngs::StdRng;
use rand::SeedableRng;

fn self_test_config() -> Config {
    Config::for_self_test("sqlite://:memory:".to_owned())
}

fn plan(scenario: Scenario) -> Plan {
    let config = self_test_config();
    let mut rng = StdRng::seed_from_u64(7);
    Plan::resolve(scenario, &config, &mut rng)
}

const ALL: [Scenario; 7] = [
    Scenario::Random,
    Scenario::Success,
    Scenario::Failure,
    Scenario::Lost,
    Scenario::Duplicate,
    Scenario::LateSuccess,
    Scenario::Instant,
];

#[test]
fn forced_scenarios_are_deterministic() {
    assert_eq!(plan(Scenario::Success).outcome, Outcome::Success);
    assert_eq!(plan(Scenario::Failure).outcome, Outcome::Failed);
    assert!(plan(Scenario::Failure).failure_reason.is_some());
    assert!(!plan(Scenario::Lost).deliver_webhook);
    assert_eq!(plan(Scenario::Duplicate).deliveries, 2);
    assert!(plan(Scenario::LateSuccess).deliver_after_ms > 0);
    assert_eq!(plan(Scenario::Instant).decide_after_ms, 0);
}

#[test]
fn lost_and_duplicate_are_mutually_exclusive() {
    // A webhook that is never delivered cannot also be delivered twice.
    let mut config = self_test_config();
    config.lost_webhook_rate = Bernoulli::new(1.0).unwrap();
    config.duplicate_rate = Bernoulli::new(1.0).unwrap();
    let mut rng = StdRng::seed_from_u64(1);

    let plan = Plan::resolve(Scenario::Random, &config, &mut rng);
    assert!(!plan.deliver_webhook);
    assert_eq!(plan.deliveries, 1);
}

#[test]
fn scenario_parsing_accepts_aliases_and_rejects_junk() {
    assert_eq!("FAILURE".parse::<Scenario>().unwrap(), Scenario::Failure);
    assert_eq!("fail".parse::<Scenario>().unwrap(), Scenario::Failure);
    assert!("nonsense".parse::<Scenario>().is_err());
}

#[test]
fn every_canonical_name_reads_back() {
    for scenario in ALL {
        assert_eq!(Scenario::from_str(scenario.as_str()), Ok(scenario));
    }
}

#[test]
fn names_are_read_leniently() {
    assert_eq!(Scenario::from_str("  Late-Success\t"), Ok(Scenario::LateSuccess));
    assert_eq!(Scenario::from_str("LATE"), Ok(Scenario::LateSuccess));
    assert_eq!(Scenario::from_str("failed"), Ok(Scenario::Failure));
    assert_eq!(Scenario::from_str("\u{3000}instant\u{a0}"), Ok(Scenario::Instant));
    assert!(Scenario::from_str("late success").is_err());
}

#[test]
fn an_unknown_name_is_quoted_as_it_was_read() {
    let message = Scenario::from_str(" Non-\"Sense\" ").unwrap_err();
    assert_eq!(
        message,
        "unknown scenario \"non_\\\"sense\\\"\"; expected one of: random, success, failure, lost, \
         duplicate, late_success, instant"
    );
}

#[test]
fn outcomes_have_names() {
    assert_eq!(Outcome::Success.as_str(), "SUCCESS");
    assert_eq!(Outcome::Failed.as_str(), "FAILED");
}

#[test]
fn draws_decide_a_random_plan() {
    let mut config = self_test_config();
    config.late_webhook_delay_ms = 45_000;
    let draws = Draws {
        decide_after_ms: 1_234,
        succeeds: false,
        reason: 2,
        lost: false,
        late: true,
        duplicate: true,
    };
    let plan = Plan::from_draws(Scenario::Random, &config, &draws);
    assert_eq!(plan.outcome, Outcome::Failed);
    assert_eq!(plan.failure_reason, Some("issuer_unavailable"));
    assert_eq!(plan.decide_after_ms, 1_234);
    assert!(plan.deliver_webhook);
    assert_eq!(plan.deliver_after_ms, 45_000);
    assert_eq!(plan.deliveries, 2);

    let lost = Draws { lost: true, succeeds: true, ..draws };
    let plan = Plan::from_draws(Scenario::Random, &config, &lost);
    assert_eq!(plan.outcome, Outcome::Success);
    assert_eq!(plan.failure_reason, None);
    assert!(!plan.deliver_webhook);
    assert_eq!(plan.deliver_after_ms, 0);
    assert_eq!(plan.deliveries, 1);
}

#[test]
fn the_forced_failure_gives_the_first_reason() {
    assert_eq!(plan(Scenario::Failure).failure_reason, Some("insufficient_funds"));
    assert_eq!(plan(Scenario::LateSuccess).deliver_after_ms, 1_000);
}

#[test]
fn plans_are_consistent() {
    let mut config = self_test_config();
    config.success_rate = Bernoulli::new(0.5).unwrap();
    config.duplicate_rate = Bernoulli::new(0.5).unwrap();
    config.lost_webhook_rate = Bernoulli::new(0.5).unwrap();
    config.late_webhook_rate = Bernoulli::new(0.5).unwrap();
    config.outcome_delay_ms_min = 10;
    config.outcome_delay_ms_max = 20;
    let mut rng = StdRng::seed_from_u64(3);
    let (mut failed, mut lost, mut late, mut twice) = (0, 0, 0, 0);

    for _ in 0..400 {
        let plan = Plan::resolve(Scenario::Random, &config, &mut rng);
        assert_eq!(plan.failure_reason.is_some(), plan.outcome == Outcome::Failed);
        assert!((10..=20).contains(&plan.decide_after_ms));
        if !plan.deliver_webhook {
            assert_eq!((plan.deliveries, plan.deliver_after_ms), (1, 0));
        }
        failed += i32::from(plan.outcome == Outcome::Failed);
        lost += i32::from(!plan.deliver_webhook);
        late += i32::from(plan.deliver_after_ms > 0);
        twice += i32::from(plan.deliveries == 2);
    }
    for seen in [failed, lost, late, twice] {
        assert!((40..360).contains(&seen));
    }
}

#[test]
fn extreme_rates_leave_nothing_to_chance() {
    let mut config = self_test_config();
    config.success_rate = Bernoulli::new(0.0).unwrap();
    config.late_webhook_rate = Bernoulli::new(1.0).unwrap();
    config.duplicate_rate = Bernoulli::new(1.0).unwrap();
    let mut rng = StdRng::seed_from_u64(9);
    for _ in 0..50 {
        let plan = Plan::resolve(Scenario::Random, &config, &mut rng);
        assert_eq!(plan.outcome, Outcome::Failed);
        assert!(plan.deliver_webhook);
        assert_eq!(plan.deliver_after_ms, 1_000);
        assert_eq!(plan.deliveries, 2);
    }
}

#[test]
fn a_seeded_session_replays() {
    let mut config = self_test_config();
    config.success_rate = Bernoulli::new(0.7).unwrap();
    config.duplicate_rate = Bernoulli::new(0.2).unwrap();
    config.lost_webhook_rate = Bernoulli::new(0.05).unwrap();
    config.late_webhook_rate = Bernoulli::new(0.05).unwrap();
    config.outcome_delay_ms_max = 5_000;
    let session = |seed: Option<u64>| -> String {
        let mut rng = generator(seed);
        let mut seen = String::new();
        for scenario in ALL.iter().cycle().take(70) {
            seen.push_str(&format!("{:?}\n", Plan::resolve(*scenario, &config, &mut rng)));
        }
        seen
    };
    assert_eq!(session(Some(42)), session(Some(42)));
    assert_ne!(session(Some(42)), session(Some(43)));
    assert_ne!(session(None), session(None));
}

#[test]
fn a_seed_makes_the_generator_that_rand_makes_of_it() {
    assert_eq!(generator(Some(42)), StdRng::seed_from_u64(42));
    assert_ne!(generator(None), generator(None));
}

#[test]
fn forced_scenarios_draw_nothing_but_the_thinking_time() {
    let mut config = self_test_config();
    let mut rng = StdRng::seed_from_u64(5);
    for scenario in ALL.into_iter().filter(|s| *s != Scenario::Random) {
        Plan::resolve(scenario, &config, &mut rng);
    }
    assert_eq!(rng, StdRng::seed_from_u64(5), "the bounds leave no choice");
    config.outcome_delay_ms_max = 9;
    Plan::resolve(Scenario::Instant, &config, &mut rng);
    assert_ne!(rng, StdRng::seed_from_u64(5));
}
