//! Deciding what will happen to a payment.
//!
//! The whole plan — outcome, timing, whether the webhook is delivered at all, how many
//! times — is resolved **once**, when the payment is accepted, and then persisted. Two
//! consequences worth knowing:
//!
//!   * Restarting the gateway never re-rolls the dice. A payment that was going to fail
//!     still fails; a webhook that was going to be delivered twice still is.
//!   * With `RNG_SEED` set, an entire session replays identically.

use rand::rngs::StdRng;
use std::str::FromStr;
use vstd::prelude::*;

use crate::dice::{
    between_draw, certain, chance_draw, draw_between, draw_chance, draw_index, generator_state,
    impossible, index_draw, rate_weight, seeded_state,
};
use crate::gateway::config::Config;
use crate::text::{
    ascii_lower, ascii_upper, debug_quoted, join3, lemma_trimmed_map, lemma_trimmed_twice, lowered,
    quote, replace, replaced, same, to_ascii_lowercase, trim, trimmed, trimmed_start, uppered,
};

verus! {

/// The outcome the gateway will report.
#[derive(Debug, Clone, Copy, PartialEq, Eq, Structural)]
pub enum Outcome {
    Success,
    Failed,
}

impl Outcome {
    /// The outcome as it is stored and reported.
    pub open spec fn label(self) -> Seq<char> {
        match self {
            Outcome::Success => "SUCCESS"@,
            Outcome::Failed => "FAILED"@,
        }
    }

    /// The outcome as it is stored and reported.
    pub fn as_str(self) -> (s: &'static str)
        ensures
            s@ == self.label(),
    {
        match self {
            Outcome::Success => "SUCCESS",
            Outcome::Failed => "FAILED",
        }
    }
}

/// Value of the `X-Force-Scenario` request header.
///
/// Use these when you want a specific failure mode instead of waiting for one to happen.
#[derive(Debug, Clone, Copy, PartialEq, Eq, Structural)]
pub enum Scenario {
    /// Roll the dice using the configured rates. The default.
    Random,
    /// Succeeds, webhook delivered once, promptly.
    Success,
    /// Fails, webhook delivered once, promptly. Seats must be released.
    Failure,
    /// Succeeds, but the webhook is **never delivered**. The money is taken and your
    /// service is never told. Only polling `GET /v1/payments/{id}` finds this.
    Lost,
    /// Succeeds, and the same `event_id` is delivered twice — **concurrently**.
    Duplicate,
    /// Succeeds, but the webhook arrives long after the outcome was decided.
    LateSuccess,
    /// Succeeds and is decided immediately, with no thinking time at all. Makes the webhook
    /// race the response to the call that created the payment.
    Instant,
}

/// How a scenario's name is read: without the white space around it, in lower case, with `_`
/// for `-`.
pub open spec fn normalised(raw: Seq<char>) -> Seq<char> {
    replaced(lowered(trimmed(raw)), '-', '_')
}

/// The scenario that a normalised name stands for.
pub open spec fn named_scenario(name: Seq<char>) -> Option<Scenario> {
    if name == "random"@ {
        Some(Scenario::Random)
    } else if name == "success"@ {
        Some(Scenario::Success)
    } else if name == "failure"@ || name == "failed"@ || name == "fail"@ {
        Some(Scenario::Failure)
    } else if name == "lost"@ {
        Some(Scenario::Lost)
    } else if name == "duplicate"@ {
        Some(Scenario::Duplicate)
    } else if name == "late_success"@ || name == "late"@ {
        Some(Scenario::LateSuccess)
    } else if name == "instant"@ {
        Some(Scenario::Instant)
    } else {
        None
    }
}

/// What is answered to a normalised name that stands for no scenario.
pub open spec fn unknown_scenario(name: Seq<char>) -> Seq<char> {
    "unknown scenario "@ + debug_quoted(name)
        + "; expected one of: random, success, failure, lost, duplicate, late_success, instant"@
}

impl Scenario {
    /// The scenario's canonical name.
    pub open spec fn label(self) -> Seq<char> {
        match self {
            Scenario::Random => "random"@,
            Scenario::Success => "success"@,
            Scenario::Failure => "failure"@,
            Scenario::Lost => "lost"@,
            Scenario::Duplicate => "duplicate"@,
            Scenario::LateSuccess => "late_success"@,
            Scenario::Instant => "instant"@,
        }
    }

    /// The canonical spelling, matching what `X-Force-Scenario` accepts.
    pub fn as_str(self) -> (s: &'static str)
        ensures
            s@ == self.label(),
    {
        match self {
            Scenario::Random => "random",
            Scenario::Success => "success",
            Scenario::Failure => "failure",
            Scenario::Lost => "lost",
            Scenario::Duplicate => "duplicate",
            Scenario::LateSuccess => "late_success",
            Scenario::Instant => "instant",
        }
    }
}

impl FromStr for Scenario {
    type Err = String;

    fn from_str(raw: &str) -> (r: Result<Self, Self::Err>)
        ensures
            match r {
                Ok(scenario) => named_scenario(normalised(raw@)) == Some(scenario),
                Err(message) => {
                    &&& named_scenario(normalised(raw@)) is None
                    &&& message@ == unknown_scenario(normalised(raw@))
                },
            },
    {
        let lower = to_ascii_lowercase(trim(raw).as_str());
        let owned = replace(lower.as_str(), '-', '_');
        let name = owned.as_str();
        if same(name, "random") {
            Ok(Scenario::Random)
        } else if same(name, "success") {
            Ok(Scenario::Success)
        } else if same(name, "failure") || same(name, "failed") || same(name, "fail") {
            Ok(Scenario::Failure)
        } else if same(name, "lost") {
            Ok(Scenario::Lost)
        } else if same(name, "duplicate") {
            Ok(Scenario::Duplicate)
        } else if same(name, "late_success") || same(name, "late") {
            Ok(Scenario::LateSuccess)
        } else if same(name, "instant") {
            Ok(Scenario::Instant)
        } else {
            Err(
                join3(
                    "unknown scenario ",
                    quote(name).as_str(),
                    "; expected one of: random, success, failure, lost, duplicate, late_success, instant",
                ),
            )
        }
    }
}

/// Everything the gateway has decided about a payment, up front.
#[derive(Debug, Clone, Copy)]
pub struct Plan {
    pub outcome: Outcome,
    pub failure_reason: Option<&'static str>,
    /// Milliseconds to wait before the outcome becomes known.
    pub decide_after_ms: u64,
    /// Whether a webhook is ever sent.
    pub deliver_webhook: bool,
    /// Extra delay between deciding the outcome and the first delivery attempt.
    pub deliver_after_ms: u64,
    /// How many successful acknowledgements the gateway insists on. `2` means your
    /// endpoint sees the same `event_id` twice.
    pub deliveries: i64,
}

/// What a plan says.
pub struct PlanView {
    pub outcome: Outcome,
    pub failure_reason: Option<Seq<char>>,
    pub decide_after_ms: int,
    pub deliver_webhook: bool,
    pub deliver_after_ms: int,
    pub deliveries: int,
}

impl View for Plan {
    type V = PlanView;

    open spec fn view(&self) -> PlanView {
        PlanView {
            outcome: self.outcome,
            failure_reason: match self.failure_reason {
                Some(reason) => Some(reason@),
                None => None,
            },
            decide_after_ms: self.decide_after_ms as int,
            deliver_webhook: self.deliver_webhook,
            deliver_after_ms: self.deliver_after_ms as int,
            deliveries: self.deliveries as int,
        }
    }
}

/// How many reasons there are for a payment to fail.
pub const FAILURE_REASONS: usize = 4;

/// The reasons for a payment to fail.
pub open spec fn failure_reason_at(i: int) -> Seq<char> {
    if i == 0 {
        "insufficient_funds"@
    } else if i == 1 {
        "card_declined"@
    } else if i == 2 {
        "issuer_unavailable"@
    } else {
        "risk_check_failed"@
    }
}

/// The reason at a position in the list of reasons for a payment to fail.
pub fn failure_reason(i: usize) -> (s: &'static str)
    requires
        i < FAILURE_REASONS,
    ensures
        s@ == failure_reason_at(i as int),
{
    if i == 0 {
        "insufficient_funds"
    } else if i == 1 {
        "card_declined"
    } else if i == 2 {
        "issuer_unavailable"
    } else {
        "risk_check_failed"
    }
}

/// Everything that is left to chance when a plan is made.
#[derive(Debug, Clone, Copy)]
pub struct Draws {
    /// The thinking time.
    pub decide_after_ms: u64,
    /// Whether the payment succeeds.
    pub succeeds: bool,
    /// The position of the reason for which it fails, if it does.
    pub reason: usize,
    /// Whether the webhook is lost.
    pub lost: bool,
    /// Whether a webhook that is not lost comes late.
    pub late: bool,
    /// Whether a webhook that is not lost is sent twice.
    pub duplicate: bool,
}

impl Draws {
    /// Whether these draws can come up under the settings.
    pub open spec fn possible(self, config: Config) -> bool {
        &&& config.outcome_delay_ms_min <= self.decide_after_ms <= config.outcome_delay_ms_max
        &&& self.reason < FAILURE_REASONS
        &&& certain(config.success_rate) ==> self.succeeds
        &&& impossible(config.success_rate) ==> !self.succeeds
        &&& certain(config.lost_webhook_rate) ==> self.lost
        &&& impossible(config.lost_webhook_rate) ==> !self.lost
        &&& certain(config.late_webhook_rate) && !self.lost ==> self.late
        &&& impossible(config.late_webhook_rate) ==> !self.late
        &&& certain(config.duplicate_rate) && !self.lost ==> self.duplicate
        &&& impossible(config.duplicate_rate) ==> !self.duplicate
    }
}

/// The plan of a payment that succeeds and is reported once, promptly.
pub open spec fn prompt_success(decide_after_ms: int) -> PlanView {
    PlanView {
        outcome: Outcome::Success,
        failure_reason: None,
        decide_after_ms,
        deliver_webhook: true,
        deliver_after_ms: 0,
        deliveries: 1,
    }
}

/// The plan for a scenario, given what was left to chance.
pub open spec fn planned(scenario: Scenario, config: Config, draws: Draws) -> PlanView {
    let succeeds = prompt_success(draws.decide_after_ms as int);
    match scenario {
        Scenario::Success => succeeds,
        Scenario::Failure => PlanView {
            outcome: Outcome::Failed,
            failure_reason: Some(failure_reason_at(0)),
            ..succeeds
        },
        Scenario::Lost => PlanView { deliver_webhook: false, ..succeeds },
        Scenario::Duplicate => PlanView { deliveries: 2, ..succeeds },
        Scenario::LateSuccess => PlanView {
            deliver_after_ms: config.late_webhook_delay_ms as int,
            ..succeeds
        },
        Scenario::Instant => PlanView { decide_after_ms: 0, ..succeeds },
        Scenario::Random => PlanView {
            outcome: if draws.succeeds {
                Outcome::Success
            } else {
                Outcome::Failed
            },
            failure_reason: if draws.succeeds {
                None
            } else {
                Some(failure_reason_at(draws.reason as int))
            },
            decide_after_ms: draws.decide_after_ms as int,
            deliver_webhook: !draws.lost,
            deliver_after_ms: if !draws.lost && draws.late {
                config.late_webhook_delay_ms as int
            } else {
                0
            },
            deliveries: if !draws.lost && draws.duplicate {
                2
            } else {
                1
            },
        },
    }
}

/// Whether `plan` is one that the scenario can lead to under the settings.
pub open spec fn plannable(scenario: Scenario, config: Config, plan: PlanView) -> bool {
    exists|draws: Draws| #[trigger]
        draws.possible(config) && plan == planned(scenario, config, draws)
}

/// The thinking time that is drawn in a given state, and the state after it. There is nothing
/// to draw where the bounds leave no choice.
pub open spec fn time_drawn(config: Config, state: Seq<u8>) -> (u64, Seq<u8>) {
    if config.outcome_delay_ms_max == config.outcome_delay_ms_min {
        (config.outcome_delay_ms_min, state)
    } else {
        between_draw(state, config.outcome_delay_ms_min, config.outcome_delay_ms_max)
    }
}

/// The outcome of a payment and the fate of its webhook, as they are drawn in a given state,
/// and the state after that. Whether a webhook comes late or twice is drawn only where it is
/// not lost, and a reason only where the payment fails.
pub open spec fn fate_drawn(config: Config, decide_after_ms: u64, state: Seq<u8>) -> (
    Draws,
    Seq<u8>,
) {
    let (succeeds, s1) = chance_draw(state, rate_weight(config.success_rate));
    let (reason, s2) = if succeeds {
        (0usize, s1)
    } else {
        index_draw(s1, FAILURE_REASONS)
    };
    let (lost, s3) = chance_draw(s2, rate_weight(config.lost_webhook_rate));
    let (late, s4) = if lost {
        (false, s3)
    } else {
        chance_draw(s3, rate_weight(config.late_webhook_rate))
    };
    let (duplicate, s5) = if lost {
        (false, s4)
    } else {
        chance_draw(s4, rate_weight(config.duplicate_rate))
    };
    (Draws { decide_after_ms, succeeds, reason, lost, late, duplicate }, s5)
}

/// What is drawn for a scenario in a given state, and the state after that. A forced scenario
/// draws nothing but the thinking time.
pub open spec fn drawn(scenario: Scenario, config: Config, state: Seq<u8>) -> (Draws, Seq<u8>) {
    let (decide_after_ms, s) = time_drawn(config, state);
    if scenario is Random {
        fate_drawn(config, decide_after_ms, s)
    } else {
        (
            Draws {
                decide_after_ms,
                succeeds: true,
                reason: 0,
                lost: false,
                late: false,
                duplicate: false,
            },
            s,
        )
    }
}

/// The plan that is made for a scenario in a given state, and the state after that.
pub open spec fn resolved(scenario: Scenario, config: Config, state: Seq<u8>) -> (
    PlanView,
    Seq<u8>,
) {
    let (draws, s) = drawn(scenario, config, state);
    (planned(scenario, config, draws), s)
}

impl Plan {
    /// The plan for a scenario, given what was left to chance.
    pub fn from_draws(scenario: Scenario, config: &Config, draws: &Draws) -> (plan: Self)
        requires
            draws.reason < FAILURE_REASONS,
        ensures
            plan@ == planned(scenario, *config, *draws),
    {
        // The happy path, which most forced scenarios are a small variation on.
        let succeeds = Plan {
            outcome: Outcome::Success,
            failure_reason: None,
            decide_after_ms: draws.decide_after_ms,
            deliver_webhook: true,
            deliver_after_ms: 0,
            deliveries: 1,
        };
        match scenario {
            Scenario::Success => succeeds,
            Scenario::Failure => Plan {
                outcome: Outcome::Failed,
                failure_reason: Some(failure_reason(0)),
                ..succeeds
            },
            Scenario::Lost => Plan { deliver_webhook: false, ..succeeds },
            Scenario::Duplicate => Plan { deliveries: 2, ..succeeds },
            Scenario::LateSuccess => Plan {
                deliver_after_ms: config.late_webhook_delay_ms,
                ..succeeds
            },
            Scenario::Instant => Plan { decide_after_ms: 0, ..succeeds },
            Scenario::Random => Plan {
                outcome: if draws.succeeds {
                    Outcome::Success
                } else {
                    Outcome::Failed
                },
                failure_reason: if draws.succeeds {
                    None
                } else {
                    Some(failure_reason(draws.reason))
                },
                decide_after_ms: draws.decide_after_ms,
                deliver_webhook: !draws.lost,
                deliver_after_ms: if !draws.lost && draws.late {
                    config.late_webhook_delay_ms
                } else {
                    0
                },
                deliveries: if !draws.lost && draws.duplicate {
                    2
                } else {
                    1
                },
            },
        }
    }

    /// Makes the plan for a scenario, drawing what is left to chance.
    pub fn resolve(scenario: Scenario, config: &Config, rng: &mut StdRng) -> (plan: Self)
        requires
            config.wf(),
        ensures
            plannable(scenario, *config, plan@),
            (plan@, generator_state(*final(rng))) == resolved(
                scenario,
                *config,
                generator_state(*old(rng)),
            ),
    {
        let decide_after_ms = if config.outcome_delay_ms_max == config.outcome_delay_ms_min {
            config.outcome_delay_ms_min
        } else {
            draw_between(rng, config.outcome_delay_ms_min, config.outcome_delay_ms_max)
        };
        let draws = match scenario {
            Scenario::Random => draw_outcome(decide_after_ms, config, rng),
            _ => Draws {
                decide_after_ms,
                succeeds: true,
                reason: 0,
                lost: false,
                late: false,
                duplicate: false,
            },
        };
        let plan = Plan::from_draws(scenario, config, &draws);
        proof {
            // Of a forced scenario's draws, only the thinking time counts.
            let lost = certain(config.lost_webhook_rate);
            let likely = Draws {
                decide_after_ms,
                succeeds: certain(config.success_rate),
                reason: 0,
                lost,
                late: !lost && certain(config.late_webhook_rate),
                duplicate: !lost && certain(config.duplicate_rate),
            };
            assert(likely.possible(*config));
            assert(plan@ == planned(scenario, *config, draws));
            assert(scenario !is Random ==> plan@ == planned(scenario, *config, likely));
        }
        plan
    }
}

/// Draws the outcome of a payment and the fate of its webhook.
fn draw_outcome(decide_after_ms: u64, config: &Config, rng: &mut StdRng) -> (draws: Draws)
    requires
        config.outcome_delay_ms_min <= decide_after_ms <= config.outcome_delay_ms_max,
    ensures
        draws.possible(*config),
        (draws, generator_state(*final(rng))) == fate_drawn(
            *config,
            decide_after_ms,
            generator_state(*old(rng)),
        ),
{
    let succeeds = draw_chance(rng, &config.success_rate);
    let reason = if succeeds {
        0
    } else {
        draw_index(rng, FAILURE_REASONS)
    };
    let lost = draw_chance(rng, &config.lost_webhook_rate);
    let late = !lost && draw_chance(rng, &config.late_webhook_rate);
    let duplicate = !lost && draw_chance(rng, &config.duplicate_rate);
    Draws { decide_after_ms, succeeds, reason, lost, late, duplicate }
}

// ----------------------------------------------------------------------------------------
// Laws
// ----------------------------------------------------------------------------------------

/// Every scenario's canonical name is read back as that scenario.
pub proof fn canonical_name_is_accepted(scenario: Scenario)
    ensures
        named_scenario(normalised(scenario.label())) == Some(scenario),
{
    reveal_scenario_names();
    let label = scenario.label();
    assert(trimmed_start(label) == label);
    assert(trimmed(label) == label);
    assert(normalised(label) == label);
}

/// The letter case of a scenario's name and its choice between `-` and `_` do not matter, nor
/// does white space around it.
pub proof fn name_reading_is_lenient(raw: Seq<char>)
    ensures
        normalised(lowered(raw)) == normalised(raw),
        normalised(uppered(raw)) == normalised(raw),
        normalised(replaced(raw, '-', '_')) == normalised(raw),
        normalised(trimmed(raw)) == normalised(raw),
{
    lemma_trimmed_map(raw, |c: char| ascii_lower(c));
    lemma_trimmed_map(raw, |c: char| ascii_upper(c));
    let underscored = |c: char| if c == '-' { '_' } else { c };
    lemma_trimmed_map(raw, underscored);
    assert(replaced(raw, '-', '_') =~= raw.map_values(underscored));
    lemma_trimmed_twice(raw);
    assert(normalised(lowered(raw)) =~= normalised(raw));
    assert(normalised(uppered(raw)) =~= normalised(raw));
    assert(normalised(replaced(raw, '-', '_')) =~= normalised(raw));
}

/// A plan gives a reason exactly when the payment fails, and asks for one delivery or two. A
/// webhook that is never delivered is neither delivered twice nor delivered late.
pub proof fn plan_is_consistent(scenario: Scenario, config: Config, plan: PlanView)
    requires
        plannable(scenario, config, plan),
    ensures
        plan.failure_reason is Some <==> plan.outcome is Failed,
        plan.deliveries == 1 || plan.deliveries == 2,
        !plan.deliver_webhook ==> plan.deliveries == 1 && plan.deliver_after_ms == 0,
        plan.deliver_after_ms == 0 || plan.deliver_after_ms == config.late_webhook_delay_ms,
        scenario is Instant ==> plan.decide_after_ms == 0,
        scenario !is Instant ==> config.outcome_delay_ms_min <= plan.decide_after_ms
            <= config.outcome_delay_ms_max,
{
}

/// The plans of a session: one scenario after another, from a given state on.
pub open spec fn session(scenarios: Seq<Scenario>, config: Config, state: Seq<u8>) -> (
    Seq<PlanView>,
    Seq<u8>,
)
    decreases scenarios.len(),
{
    if scenarios.len() == 0 {
        (Seq::empty(), state)
    } else {
        let (plans, s) = session(scenarios.drop_last(), config, state);
        let (plan, t) = resolved(scenarios.last(), config, s);
        (plans.push(plan), t)
    }
}

/// With a seed, an entire session replays identically: two generators that were made from one
/// seed lead to the same plans for the same scenarios, and are in the same state afterwards.
/// Of the settings only the bounds on the thinking time, the probabilities and the delay of a
/// late webhook have a say.
pub proof fn seeded_session_replays(
    scenarios: Seq<Scenario>,
    config: Config,
    later_config: Config,
    seed: u64,
    rng: StdRng,
    later_rng: StdRng,
)
    requires
        generator_state(rng) == seeded_state(seed),
        generator_state(later_rng) == seeded_state(seed),
        config.outcome_delay_ms_min == later_config.outcome_delay_ms_min,
        config.outcome_delay_ms_max == later_config.outcome_delay_ms_max,
        config.late_webhook_delay_ms == later_config.late_webhook_delay_ms,
        rate_weight(config.success_rate) == rate_weight(later_config.success_rate),
        rate_weight(config.lost_webhook_rate) == rate_weight(later_config.lost_webhook_rate),
        rate_weight(config.late_webhook_rate) == rate_weight(later_config.late_webhook_rate),
        rate_weight(config.duplicate_rate) == rate_weight(later_config.duplicate_rate),
    ensures
        session(scenarios, config, generator_state(rng)) == session(
            scenarios,
            later_config,
            generator_state(later_rng),
        ),
    decreases scenarios.len(),
{
    if scenarios.len() > 0 {
        seeded_session_replays(
            scenarios.drop_last(),
            config,
            later_config,
            seed,
            rng,
            later_rng,
        );
    }
}

/// Draws that come up again give the same plan again: only the draws that the scenario looks
/// at have a say in it, and of the settings only the delay of a late webhook.
pub proof fn repeated_draws_replay_the_plan(
    scenario: Scenario,
    config: Config,
    later_config: Config,
    draws: Draws,
    later: Draws,
)
    requires
        config.late_webhook_delay_ms == later_config.late_webhook_delay_ms,
        scenario !is Instant ==> draws.decide_after_ms == later.decide_after_ms,
        scenario is Random ==> {
            &&& draws.succeeds == later.succeeds
            &&& !draws.succeeds ==> draws.reason == later.reason
            &&& draws.lost == later.lost
            &&& !draws.lost ==> draws.late == later.late && draws.duplicate == later.duplicate
        },
    ensures
        planned(scenario, config, draws) == planned(scenario, later_config, later),
{
}

/// A forced scenario leaves nothing to chance but the thinking time.
pub proof fn forced_plan_is_deterministic(
    scenario: Scenario,
    config: Config,
    a: PlanView,
    b: PlanView,
)
    requires
        scenario !is Random,
        plannable(scenario, config, a),
        plannable(scenario, config, b),
    ensures
        b == (PlanView { decide_after_ms: b.decide_after_ms, ..a }),
        config.outcome_delay_ms_min == config.outcome_delay_ms_max ==> a == b,
{
}

/// There is a plan for every scenario, whatever the settings.
pub proof fn every_scenario_has_a_plan(scenario: Scenario, config: Config) -> (plan: PlanView)
    requires
        config.wf(),
    ensures
        plannable(scenario, config, plan),
{
    let draws = Draws {
        decide_after_ms: config.outcome_delay_ms_min,
        succeeds: certain(config.success_rate),
        reason: 0,
        lost: certain(config.lost_webhook_rate),
        late: certain(config.late_webhook_rate),
        duplicate: certain(config.duplicate_rate),
    };
    assert(draws.possible(config));
    planned(scenario, config, draws)
}

/// The probabilities one and zero leave nothing to chance.
pub proof fn extreme_rates_decide(config: Config, plan: PlanView)
    requires
        plannable(Scenario::Random, config, plan),
    ensures
        certain(config.success_rate) ==> plan.outcome is Success,
        impossible(config.success_rate) ==> plan.outcome is Failed,
        certain(config.lost_webhook_rate) ==> !plan.deliver_webhook,
        impossible(config.lost_webhook_rate) ==> plan.deliver_webhook,
        certain(config.duplicate_rate) && plan.deliver_webhook ==> plan.deliveries == 2,
        impossible(config.duplicate_rate) ==> plan.deliveries == 1,
        certain(config.late_webhook_rate) && plan.deliver_webhook ==> plan.deliver_after_ms
            == config.late_webhook_delay_ms,
        impossible(config.late_webhook_rate) ==> plan.deliver_after_ms == 0,
{
}

pub(crate) proof fn reveal_scenario_names()
    ensures
        "random"@ == seq!['r', 'a', 'n', 'd', 'o', 'm'],
        "success"@ == seq!['s', 'u', 'c', 'c', 'e', 's', 's'],
        "failure"@ == seq!['f', 'a', 'i', 'l', 'u', 'r', 'e'],
        "failed"@ == seq!['f', 'a', 'i', 'l', 'e', 'd'],
        "fail"@ == seq!['f', 'a', 'i', 'l'],
        "lost"@ == seq!['l', 'o', 's', 't'],
        "duplicate"@ == seq!['d', 'u', 'p', 'l', 'i', 'c', 'a', 't', 'e'],
        "late_success"@ == seq!['l', 'a', 't', 'e', '_', 's', 'u', 'c', 'c', 'e', 's', 's'],
        "late"@ == seq!['l', 'a', 't', 'e'],
        "instant"@ == seq!['i', 'n', 's', 't', 'a', 'n', 't'],
{
    reveal_strlit("random");
    reveal_strlit("success");
    reveal_strlit("failure");
    reveal_strlit("failed");
    reveal_strlit("fail");
    reveal_strlit("lost");
    reveal_strlit("duplicate");
    reveal_strlit("late_success");
    reveal_strlit("late");
    reveal_strlit("instant");
}

/// A forced scenario decides everything but the thinking time: only `failure` fails, and for
/// want of funds; only `lost` is never delivered, only `duplicate` is delivered twice and only
/// `late_success` is delivered late; `instant` takes no time to think, and every other scenario
/// takes the time that is drawn between the two bounds.
pub proof fn forced_scenario_decides(scenario: Scenario, config: Config, state: Seq<u8>)
    requires
        scenario !is Random,
    ensures
        ({
            let (plan, later) = resolved(scenario, config, state);
            let min = config.outcome_delay_ms_min;
            let max = config.outcome_delay_ms_max;
            let (time, drawn) = if min == max {
                (min, state)
            } else {
                between_draw(state, min, max)
            };
            &&& later == drawn
            &&& plan.outcome is Failed <==> scenario is Failure
            &&& plan.failure_reason == if scenario is Failure {
                Some("insufficient_funds"@)
            } else {
                None
            }
            &&& plan.deliver_webhook <==> scenario !is Lost
            &&& plan.deliveries == if scenario is Duplicate {
                2int
            } else {
                1
            }
            &&& plan.deliver_after_ms == if scenario is LateSuccess {
                config.late_webhook_delay_ms as int
            } else {
                0
            }
            &&& plan.decide_after_ms == if scenario is Instant {
                0int
            } else {
                time as int
            }
        }),
{
}

/// Where nothing is forced, the dice decide, each time with the probability that is set for it:
/// first how long it takes, then whether the payment succeeds, for which of four reasons it
/// fails if it does, whether its webhook is lost, and if not, whether it comes late and whether
/// it comes twice.
pub proof fn dice_decide(config: Config, state: Seq<u8>)
    ensures
        ({
            let (plan, later) = resolved(Scenario::Random, config, state);
            let min = config.outcome_delay_ms_min;
            let max = config.outcome_delay_ms_max;
            let (time, s0) = if min == max {
                (min, state)
            } else {
                between_draw(state, min, max)
            };
            let (succeeds, s1) = chance_draw(s0, rate_weight(config.success_rate));
            let (reason, s2) = index_draw(s1, 4);
            let (lost, s3) = chance_draw(
                if succeeds {
                    s1
                } else {
                    s2
                },
                rate_weight(config.lost_webhook_rate),
            );
            let (late, s4) = chance_draw(s3, rate_weight(config.late_webhook_rate));
            let (twice, s5) = chance_draw(s4, rate_weight(config.duplicate_rate));
            &&& plan.decide_after_ms == time
            &&& plan.outcome is Success <==> succeeds
            &&& succeeds ==> plan.failure_reason is None
            &&& !succeeds && reason == 0 ==> plan.failure_reason == Some("insufficient_funds"@)
            &&& !succeeds && reason == 1 ==> plan.failure_reason == Some("card_declined"@)
            &&& !succeeds && reason == 2 ==> plan.failure_reason == Some("issuer_unavailable"@)
            &&& !succeeds && reason == 3 ==> plan.failure_reason == Some("risk_check_failed"@)
            &&& plan.deliver_webhook <==> !lost
            &&& lost ==> later == s3 && plan.deliveries == 1 && plan.deliver_after_ms == 0
            &&& !lost ==> {
                &&& later == s5
                &&& plan.deliver_after_ms == if late {
                    config.late_webhook_delay_ms as int
                } else {
                    0
                }
                &&& plan.deliveries == if twice {
                    2int
                } else {
                    1
                }
            }
        }),
{
}

} // verus!
