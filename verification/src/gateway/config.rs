//! Gateway configuration and chaos knobs.
//!
//! Everything here is read once at startup. The defaults are tuned to be *annoying but
//! survivable*: most payments succeed, a fifth get delivered twice, a few vanish.

use rand::distr::Bernoulli;
use vstd::prelude::*;

use crate::dice::{certain, impossible, rate_of, rate_weight, ratio_weight};
use crate::environment::{
    number_or, readable_of, string_or, var_of, Environment, ValueView, Vars,
};
use crate::text::{blank, decimal, join, join3, parsed, to_decimal, trimmed};

verus! {

/// The gateway's settings.
pub struct Config {
    pub port: u16,
    pub database_url: String,
    pub webhook_secret: String,
    /// Probability a payment is decided SUCCESS rather than FAILED.
    pub success_rate: Bernoulli,
    /// Probability a decided payment is delivered twice (same `event_id`).
    pub duplicate_rate: Bernoulli,
    /// Probability the outcome is reached but the webhook is *never* delivered. Only
    /// polling `GET /v1/payments/{id}` will reveal it.
    pub lost_webhook_rate: Bernoulli,
    /// Probability the webhook is delivered long after the outcome was decided.
    pub late_webhook_rate: Bernoulli,
    /// How long "long after" means.
    pub late_webhook_delay_ms: u64,
    /// Bounds on how long the gateway "thinks" before deciding an outcome.
    ///
    /// The minimum defaults to **zero**, on purpose: a webhook can then land before the call
    /// that created the payment has even returned.
    pub outcome_delay_ms_min: u64,
    pub outcome_delay_ms_max: u64,
    /// First retry waits this long; each subsequent attempt doubles it, capped below.
    pub webhook_backoff_base_ms: u64,
    pub webhook_backoff_max_ms: u64,
    /// Fixing this makes an entire session reproducible. Unset means OS randomness.
    pub rng_seed: Option<u64>,
}

/// A setting that cannot be used.
#[derive(Debug)]
pub struct ConfigError {
    pub name: &'static str,
    pub value: String,
}

impl ConfigError {
    /// What the error says.
    pub open spec fn said(self) -> Seq<char> {
        "invalid value for environment variable "@ + self.name@ + ": "@ + self.value@
    }

    /// The error as a message.
    pub fn message(&self) -> (s: String)
        ensures
            s@ == self.said(),
    {
        let start = join3("invalid value for environment variable ", self.name, ": ");
        join(start.as_str(), self.value.as_str())
    }
}

/// What a variable that holds a probability was found to hold.
pub enum RateReading {
    /// It is not set, or blank.
    Unset,
    /// It is no number; the value as it was given.
    Malformed(String),
    /// It is a number outside the range from zero to one; the number as it is written.
    OutOfRange(String),
    /// It is a probability.
    Rate(Bernoulli),
}

/// The four probabilities, as the environment gives them.
pub struct RateReadings {
    pub success: RateReading,
    pub duplicate: RateReading,
    pub lost_webhook: RateReading,
    pub late_webhook: RateReading,
}

/// The weight of a probability that may be left to its default.
pub open spec fn reading_weight(reading: RateReading, numerator: u32, denominator: u32) -> u64 {
    match reading {
        RateReading::Rate(rate) => rate_weight(rate),
        _ => ratio_weight(numerator, denominator),
    }
}

/// The name of a setting and the value that it cannot have.
pub type Fault = (Seq<char>, Seq<char>);

/// The fault of a variable that should hold a number.
pub open spec fn number_fault(
    vars: Vars,
    name: Seq<char>,
    max: int,
) -> Option<Fault> {
    match number_or(vars, name, 0, max) {
        Ok(_) => None,
        Err(value) => Some((name, value)),
    }
}

/// The fault of a variable that should hold a probability and holds no number.
pub open spec fn malformed_rate(reading: RateReading, name: Seq<char>) -> Option<Fault> {
    match reading {
        RateReading::Malformed(value) => Some((name, value@)),
        _ => None,
    }
}

/// The fault of a probability that is not between zero and one.
pub open spec fn unlikely_rate(reading: RateReading, name: Seq<char>) -> Option<Fault> {
    match reading {
        RateReading::OutOfRange(value) => Some(
            (name, value@ + " (must be between 0.0 and 1.0)"@),
        ),
        _ => None,
    }
}

/// `a`, or `b` where there is no `a`.
pub open spec fn or_fault(a: Option<Fault>, b: Option<Fault>) -> Option<Fault> {
    if a is Some {
        a
    } else {
        b
    }
}

/// The fault of bounds on the thinking time that are the wrong way round.
pub open spec fn delay_fault(vars: Vars) -> Option<Fault> {
    match (
        number_or(vars, "OUTCOME_DELAY_MS_MIN"@, 0, u64::MAX as int),
        number_or(vars, "OUTCOME_DELAY_MS_MAX"@, 5_000, u64::MAX as int),
    ) {
        (Ok(min), Ok(max)) => if min > max {
            Some(
                (
                    "OUTCOME_DELAY_MS_MIN"@,
                    decimal(min as nat) + " exceeds OUTCOME_DELAY_MS_MAX ("@ + decimal(max as nat)
                        + ")"@,
                ),
            )
        } else {
            None
        },
        _ => None,
    }
}

/// The first of the variables read after the probabilities that should hold a number and
/// holds none.
pub open spec fn number_faults(vars: Vars) -> Option<Fault> {
    let u64_max = u64::MAX as int;
    or_fault(
        number_fault(vars, "LATE_WEBHOOK_DELAY_MS"@, u64_max),
        or_fault(
            number_fault(vars, "OUTCOME_DELAY_MS_MIN"@, u64_max),
            or_fault(
                number_fault(vars, "OUTCOME_DELAY_MS_MAX"@, u64_max),
                or_fault(
                    number_fault(vars, "WEBHOOK_BACKOFF_BASE_MS"@, u64_max),
                    or_fault(
                        number_fault(vars, "WEBHOOK_BACKOFF_MAX_MS"@, u64_max),
                        number_fault(vars, "RNG_SEED"@, u64_max),
                    ),
                ),
            ),
        ),
    )
}

/// The first setting that cannot be used: first those that cannot be read, in the order in
/// which they are read, then the probabilities out of range, then the thinking time.
pub open spec fn first_fault(
    vars: Vars,
    rates: RateReadings,
) -> Option<Fault> {
    let u64_max = u64::MAX as int;
    let reading = or_fault(
        number_fault(vars, "GATEWAY_PORT"@, u16::MAX as int),
        or_fault(
            malformed_rate(rates.success, "SUCCESS_RATE"@),
            or_fault(
                malformed_rate(rates.duplicate, "DUPLICATE_RATE"@),
                or_fault(
                    malformed_rate(rates.lost_webhook, "LOST_WEBHOOK_RATE"@),
                    or_fault(
                        malformed_rate(rates.late_webhook, "LATE_WEBHOOK_RATE"@),
                        number_faults(vars),
                    ),
                ),
            ),
        ),
    );
    let range = or_fault(
        unlikely_rate(rates.success, "SUCCESS_RATE"@),
        or_fault(
            unlikely_rate(rates.duplicate, "DUPLICATE_RATE"@),
            or_fault(
                unlikely_rate(rates.lost_webhook, "LOST_WEBHOOK_RATE"@),
                unlikely_rate(rates.late_webhook, "LATE_WEBHOOK_RATE"@),
            ),
        ),
    );
    or_fault(reading, or_fault(range, delay_fault(vars)))
}

/// Whether `config` holds what the environment sets, and the default of everything else.
pub open spec fn configured(
    config: Config,
    vars: Vars,
    rates: RateReadings,
) -> bool {
    let u64_max = u64::MAX as int;
    &&& number_or(vars, "GATEWAY_PORT"@, 9090, u16::MAX as int) == Ok::<int, Seq<char>>(
        config.port as int,
    )
    &&& config.database_url@ == string_or(
        vars,
        "GATEWAY_DATABASE_URL"@,
        "sqlite://data/gateway.db?mode=rwc"@,
    )
    &&& config.webhook_secret@ == string_or(
        vars,
        "PAYMENT_WEBHOOK_SECRET"@,
        "dev-webhook-secret"@,
    )
    &&& rate_weight(config.success_rate) == reading_weight(rates.success, 7, 10)
    &&& rate_weight(config.duplicate_rate) == reading_weight(rates.duplicate, 2, 10)
    &&& rate_weight(config.lost_webhook_rate) == reading_weight(rates.lost_webhook, 5, 100)
    &&& rate_weight(config.late_webhook_rate) == reading_weight(rates.late_webhook, 5, 100)
    &&& number_or(vars, "LATE_WEBHOOK_DELAY_MS"@, 45_000, u64_max) == Ok::<int, Seq<char>>(
        config.late_webhook_delay_ms as int,
    )
    &&& number_or(vars, "OUTCOME_DELAY_MS_MIN"@, 0, u64_max) == Ok::<int, Seq<char>>(
        config.outcome_delay_ms_min as int,
    )
    &&& number_or(vars, "OUTCOME_DELAY_MS_MAX"@, 5_000, u64_max) == Ok::<int, Seq<char>>(
        config.outcome_delay_ms_max as int,
    )
    &&& number_or(vars, "WEBHOOK_BACKOFF_BASE_MS"@, 1_000, u64_max) == Ok::<int, Seq<char>>(
        config.webhook_backoff_base_ms as int,
    )
    &&& number_or(vars, "WEBHOOK_BACKOFF_MAX_MS"@, 30_000, u64_max) == Ok::<int, Seq<char>>(
        config.webhook_backoff_max_ms as int,
    )
    &&& match readable_of(vars, "RNG_SEED"@) {
        Some(_) => config.rng_seed is Some && number_or(vars, "RNG_SEED"@, 0, u64_max) == Ok::<
            int,
            Seq<char>,
        >(config.rng_seed->0 as int),
        None => config.rng_seed is None,
    }
}

impl Config {
    /// Whether the bounds on the thinking time are the right way round.
    pub open spec fn wf(self) -> bool {
        self.outcome_delay_ms_min <= self.outcome_delay_ms_max
    }

    /// Reads the settings from the environment.
    pub fn from_env(env: &Environment, rates: RateReadings) -> (r: Result<Self, ConfigError>)
        ensures
            match r {
                Ok(config) => {
                    &&& first_fault(env@, rates) is None
                    &&& configured(config, env@, rates)
                    &&& config.wf()
                },
                Err(e) => first_fault(env@, rates) == Some((e.name@, e.value@)),
            },
    {
        let port = parse_env(env, "GATEWAY_PORT", 9090, 65_535)?;
        let database_url = env.string_env_or(
            "GATEWAY_DATABASE_URL",
            "sqlite://data/gateway.db?mode=rwc",
        );
        let webhook_secret = env.string_env_or("PAYMENT_WEBHOOK_SECRET", "dev-webhook-secret");
        if let RateReading::Malformed(value) = rates.success {
            return Err(ConfigError { name: "SUCCESS_RATE", value });
        }
        if let RateReading::Malformed(value) = rates.duplicate {
            return Err(ConfigError { name: "DUPLICATE_RATE", value });
        }
        if let RateReading::Malformed(value) = rates.lost_webhook {
            return Err(ConfigError { name: "LOST_WEBHOOK_RATE", value });
        }
        if let RateReading::Malformed(value) = rates.late_webhook {
            return Err(ConfigError { name: "LATE_WEBHOOK_RATE", value });
        }
        let late_webhook_delay_ms = parse_env(env, "LATE_WEBHOOK_DELAY_MS", 45_000, u64::MAX)?;
        let outcome_delay_ms_min = parse_env(env, "OUTCOME_DELAY_MS_MIN", 0, u64::MAX)?;
        let outcome_delay_ms_max = parse_env(env, "OUTCOME_DELAY_MS_MAX", 5_000, u64::MAX)?;
        let webhook_backoff_base_ms = parse_env(env, "WEBHOOK_BACKOFF_BASE_MS", 1_000, u64::MAX)?;
        let webhook_backoff_max_ms = parse_env(env, "WEBHOOK_BACKOFF_MAX_MS", 30_000, u64::MAX)?;
        let seed = parse_env(env, "RNG_SEED", 0, u64::MAX)?;
        let rng_seed = match env.readable("RNG_SEED") {
            Some(_) => Some(seed),
            None => None,
        };
        let success_rate = usable_rate("SUCCESS_RATE", rates.success, 7, 10)?;
        let duplicate_rate = usable_rate("DUPLICATE_RATE", rates.duplicate, 2, 10)?;
        let lost_webhook_rate = usable_rate("LOST_WEBHOOK_RATE", rates.lost_webhook, 5, 100)?;
        let late_webhook_rate = usable_rate("LATE_WEBHOOK_RATE", rates.late_webhook, 5, 100)?;
        if outcome_delay_ms_min > outcome_delay_ms_max {
            let start = join(
                to_decimal(outcome_delay_ms_min).as_str(),
                " exceeds OUTCOME_DELAY_MS_MAX (",
            );
            return Err(
                ConfigError {
                    name: "OUTCOME_DELAY_MS_MIN",
                    value: join3(start.as_str(), to_decimal(outcome_delay_ms_max).as_str(), ")"),
                },
            );
        }
        Ok(
            Config {
                port: port as u16,
                database_url,
                webhook_secret,
                success_rate,
                duplicate_rate,
                lost_webhook_rate,
                late_webhook_rate,
                late_webhook_delay_ms,
                outcome_delay_ms_min,
                outcome_delay_ms_max,
                webhook_backoff_base_ms,
                webhook_backoff_max_ms,
                rng_seed,
            },
        )
    }

    /// Config used by `self-test`: deterministic, and fast enough to assert on.
    pub fn for_self_test(database_url: String) -> (config: Self)
        ensures
            config.port == 0,
            config.database_url == database_url,
            config.webhook_secret@ == "self-test-secret"@,
            certain(config.success_rate),
            impossible(config.duplicate_rate),
            impossible(config.lost_webhook_rate),
            impossible(config.late_webhook_rate),
            config.late_webhook_delay_ms == 1_000,
            config.outcome_delay_ms_min == 0,
            config.outcome_delay_ms_max == 0,
            config.webhook_backoff_base_ms == 50,
            config.webhook_backoff_max_ms == 200,
            config.rng_seed == Some(42u64),
            config.wf(),
    {
        Config {
            port: 0,
            database_url,
            webhook_secret: "self-test-secret".to_owned(),
            success_rate: rate_of(1, 1),
            duplicate_rate: rate_of(0, 1),
            lost_webhook_rate: rate_of(0, 1),
            late_webhook_rate: rate_of(0, 1),
            late_webhook_delay_ms: 1_000,
            outcome_delay_ms_min: 0,
            outcome_delay_ms_max: 0,
            webhook_backoff_base_ms: 50,
            webhook_backoff_max_ms: 200,
            rng_seed: Some(42),
        }
    }
}

impl Clone for Config {
    fn clone(&self) -> (config: Self)
        ensures
            config == *self,
    {
        Config {
            port: self.port,
            database_url: self.database_url.clone(),
            webhook_secret: self.webhook_secret.clone(),
            success_rate: self.success_rate,
            duplicate_rate: self.duplicate_rate,
            lost_webhook_rate: self.lost_webhook_rate,
            late_webhook_rate: self.late_webhook_rate,
            late_webhook_delay_ms: self.late_webhook_delay_ms,
            outcome_delay_ms_min: self.outcome_delay_ms_min,
            outcome_delay_ms_max: self.outcome_delay_ms_max,
            webhook_backoff_base_ms: self.webhook_backoff_base_ms,
            webhook_backoff_max_ms: self.webhook_backoff_max_ms,
            rng_seed: self.rng_seed,
        }
    }
}

/// The number that a variable sets, or `default`.
fn parse_env(env: &Environment, name: &'static str, default: u64, max: u64) -> (r: Result<
    u64,
    ConfigError,
>)
    requires
        default <= max,
    ensures
        match r {
            Ok(n) => {
                &&& number_or(env@, name@, default as int, max as int) == Ok::<int, Seq<char>>(
                    n as int,
                )
                &&& number_fault(env@, name@, max as int) is None
                &&& n <= max
            },
            Err(e) => number_fault(env@, name@, max as int) == Some((e.name@, e.value@)),
        },
{
    match env.number_env_or(name, default, max) {
        Ok(n) => Ok(n),
        Err(value) => Err(ConfigError { name, value }),
    }
}

/// The probability that a variable sets, or `numerator / denominator`.
fn usable_rate(
    name: &'static str,
    reading: RateReading,
    numerator: u32,
    denominator: u32,
) -> (r: Result<Bernoulli, ConfigError>)
    requires
        reading !is Malformed,
        numerator <= denominator,
        0 < denominator,
    ensures
        match r {
            Ok(rate) => {
                &&& rate_weight(rate) == reading_weight(reading, numerator, denominator)
                &&& unlikely_rate(reading, name@) is None
            },
            Err(e) => unlikely_rate(reading, name@) == Some((e.name@, e.value@)),
        },
{
    match reading {
        RateReading::Rate(rate) => Ok(rate),
        RateReading::OutOfRange(value) => Err(
            ConfigError { name, value: join(value.as_str(), " (must be between 0.0 and 1.0)") },
        ),
        _ => Ok(rate_of(numerator, denominator)),
    }
}

/// Whether a text cannot be read as the setting that it is, a probability is not between zero
/// and one, or the bounds on the thinking time are the wrong way round.
pub open spec fn unusable(vars: Vars, rates: RateReadings) -> bool {
    ||| rates.success is Malformed || rates.success is OutOfRange
    ||| rates.duplicate is Malformed || rates.duplicate is OutOfRange
    ||| rates.lost_webhook is Malformed || rates.lost_webhook is OutOfRange
    ||| rates.late_webhook is Malformed || rates.late_webhook is OutOfRange
    ||| number_fault(vars, "GATEWAY_PORT"@, u16::MAX as int) is Some
    ||| number_faults(vars) is Some
    ||| delay_fault(vars) is Some
}

/// What cannot be used is an error, whatever else is set.
pub proof fn unusable_settings_are_refused(
    vars: Vars,
    rates: RateReadings,
)
    requires
        unusable(vars, rates),
    ensures
        first_fault(vars, rates) is Some,
{
}

/// Whether `text` is what a variable sets: its value, or `default` where there is none, it is
/// blank, or it is no text.
pub open spec fn text_set(
    vars: Vars,
    name: Seq<char>,
    default: Seq<char>,
    text: Seq<char>,
) -> bool {
    match var_of(vars, name) {
        Some(ValueView::Text(value)) => text == if blank(value) {
            default
        } else {
            value
        },
        _ => text == default,
    }
}

/// Whether `n` is what a variable sets: the number that its value spells, or `default` where
/// there is none, it is blank, or it is no text.
pub open spec fn number_set(vars: Vars, name: Seq<char>, default: int, max: int, n: int) -> bool {
    match var_of(vars, name) {
        Some(ValueView::Text(value)) => if blank(value) {
            n == default
        } else {
            parsed(trimmed(value), max) == Some(n)
        },
        _ => n == default,
    }
}

/// Whether a probability is the one that was read, or `numerator` in `denominator`.
pub open spec fn rate_set(
    reading: RateReading,
    numerator: u32,
    denominator: u32,
    rate: Bernoulli,
) -> bool {
    match reading {
        RateReading::Rate(read) => rate_weight(rate) == rate_weight(read),
        RateReading::Unset => rate_weight(rate) == ratio_weight(numerator, denominator),
        _ => false,
    }
}

/// Every setting is what its variable sets, and its default otherwise.
pub proof fn settings_are_what_was_set(config: Config, vars: Vars, rates: RateReadings)
    requires
        first_fault(vars, rates) is None,
        configured(config, vars, rates),
    ensures
        number_set(vars, "GATEWAY_PORT"@, 9_090, 65_535, config.port as int),
        text_set(
            vars,
            "GATEWAY_DATABASE_URL"@,
            "sqlite://data/gateway.db?mode=rwc"@,
            config.database_url@,
        ),
        text_set(
            vars,
            "PAYMENT_WEBHOOK_SECRET"@,
            "dev-webhook-secret"@,
            config.webhook_secret@,
        ),
        rate_set(rates.success, 7, 10, config.success_rate),
        rate_set(rates.duplicate, 2, 10, config.duplicate_rate),
        rate_set(rates.lost_webhook, 5, 100, config.lost_webhook_rate),
        rate_set(rates.late_webhook, 5, 100, config.late_webhook_rate),
        ({
            let max = u64::MAX as int;
            &&& number_set(
                vars,
                "LATE_WEBHOOK_DELAY_MS"@,
                45_000,
                max,
                config.late_webhook_delay_ms as int,
            )
            &&& number_set(
                vars,
                "OUTCOME_DELAY_MS_MIN"@,
                0,
                max,
                config.outcome_delay_ms_min as int,
            )
            &&& number_set(
                vars,
                "OUTCOME_DELAY_MS_MAX"@,
                5_000,
                max,
                config.outcome_delay_ms_max as int,
            )
            &&& number_set(
                vars,
                "WEBHOOK_BACKOFF_BASE_MS"@,
                1_000,
                max,
                config.webhook_backoff_base_ms as int,
            )
            &&& number_set(
                vars,
                "WEBHOOK_BACKOFF_MAX_MS"@,
                30_000,
                max,
                config.webhook_backoff_max_ms as int,
            )
            &&& match config.rng_seed {
                Some(seed) => (var_of(vars, "RNG_SEED"@) matches Some(ValueView::Text(value))
                    && !blank(value) && parsed(trimmed(value), max) == Some(seed as int)),
                None => !(var_of(vars, "RNG_SEED"@) matches Some(ValueView::Text(value)) && !blank(
                    value,
                )),
            }
        }),
        config.outcome_delay_ms_min <= config.outcome_delay_ms_max,
{
}

/// Whether a variable sets a number up to `max`, or leaves it to its default.
pub open spec fn is_number(vars: Vars, name: Seq<char>, max: int) -> bool {
    match var_of(vars, name) {
        Some(ValueView::Text(value)) => blank(value) || parsed(trimmed(value), max) is Some,
        _ => true,
    }
}

/// The settings are refused only if one of them cannot be read, if a probability is not between
/// zero and one, or if the bounds on the thinking time are the wrong way round.
pub proof fn usable_settings_are_taken(vars: Vars, rates: RateReadings, min: int, max: int)
    requires
        is_number(vars, "GATEWAY_PORT"@, 65_535),
        is_number(vars, "LATE_WEBHOOK_DELAY_MS"@, u64::MAX as int),
        number_set(vars, "OUTCOME_DELAY_MS_MIN"@, 0, u64::MAX as int, min),
        number_set(vars, "OUTCOME_DELAY_MS_MAX"@, 5_000, u64::MAX as int, max),
        min <= max,
        is_number(vars, "WEBHOOK_BACKOFF_BASE_MS"@, u64::MAX as int),
        is_number(vars, "WEBHOOK_BACKOFF_MAX_MS"@, u64::MAX as int),
        is_number(vars, "RNG_SEED"@, u64::MAX as int),
        rates.success is Unset || rates.success is Rate,
        rates.duplicate is Unset || rates.duplicate is Rate,
        rates.lost_webhook is Unset || rates.lost_webhook is Rate,
        rates.late_webhook is Unset || rates.late_webhook is Rate,
    ensures
        first_fault(vars, rates) is None,
{
}

/// What is wrong with the settings is said by name: the variable and the value that it cannot
/// have.
pub proof fn fault_names_the_setting(vars: Vars, rates: RateReadings)
    ensures
        !is_number(vars, "GATEWAY_PORT"@, 65_535) ==> first_fault(vars, rates) == Some(
            ("GATEWAY_PORT"@, var_of(vars, "GATEWAY_PORT"@)->0->Text_0),
        ),
        is_number(vars, "GATEWAY_PORT"@, 65_535) ==> {
            &&& rates.success matches RateReading::Malformed(value) ==> first_fault(vars, rates)
                == Some(("SUCCESS_RATE"@, value@))
            &&& first_fault(vars, rates) matches Some(fault) ==> {
                ||| fault.0 == "SUCCESS_RATE"@ && (rates.success is Malformed || rates.success
                    is OutOfRange)
                ||| fault.0 == "DUPLICATE_RATE"@ && (rates.duplicate is Malformed
                    || rates.duplicate is OutOfRange)
                ||| fault.0 == "LOST_WEBHOOK_RATE"@ && (rates.lost_webhook is Malformed
                    || rates.lost_webhook is OutOfRange)
                ||| fault.0 == "LATE_WEBHOOK_RATE"@ && (rates.late_webhook is Malformed
                    || rates.late_webhook is OutOfRange)
                ||| is_misread(vars, "LATE_WEBHOOK_DELAY_MS"@, fault)
                ||| is_misread(vars, "OUTCOME_DELAY_MS_MIN"@, fault)
                ||| is_misread(vars, "OUTCOME_DELAY_MS_MAX"@, fault)
                ||| is_misread(vars, "WEBHOOK_BACKOFF_BASE_MS"@, fault)
                ||| is_misread(vars, "WEBHOOK_BACKOFF_MAX_MS"@, fault)
                ||| is_misread(vars, "RNG_SEED"@, fault)
                ||| exists|min: int, max: int|
                    {
                        &&& number_set(vars, "OUTCOME_DELAY_MS_MIN"@, 0, u64::MAX as int, min)
                        &&& number_set(vars, "OUTCOME_DELAY_MS_MAX"@, 5_000, u64::MAX as int, max)
                        &&& min > max
                        &&& fault.0 == "OUTCOME_DELAY_MS_MIN"@
                        &&& fault.1 == #[trigger] decimal(min as nat)
                            + " exceeds OUTCOME_DELAY_MS_MAX ("@ + #[trigger] decimal(max as nat)
                            + ")"@
                    }
            }
        },
{
    if delay_fault(vars) is Some {
        let min = number_or(vars, "OUTCOME_DELAY_MS_MIN"@, 0, u64::MAX as int)->Ok_0;
        let max = number_or(vars, "OUTCOME_DELAY_MS_MAX"@, 5_000, u64::MAX as int)->Ok_0;
        assert(number_set(vars, "OUTCOME_DELAY_MS_MIN"@, 0, u64::MAX as int, min));
        assert(number_set(vars, "OUTCOME_DELAY_MS_MAX"@, 5_000, u64::MAX as int, max));
        assert(decimal(min as nat).len() >= 0 && decimal(max as nat).len() >= 0);
    }
}

/// Whether a fault is that a variable should hold a number of 64 bits and holds none.
pub open spec fn is_misread(vars: Vars, name: Seq<char>, fault: Fault) -> bool {
    &&& !is_number(vars, name, u64::MAX as int)
    &&& fault == (name, var_of(vars, name)->0->Text_0)
}

/// A setting that cannot be used is named together with its value.
pub proof fn config_error_names_the_setting(e: ConfigError)
    ensures
        e.said() == "invalid value for environment variable "@ + e.name@ + ": "@ + e.value@,
{
}

} // verus!
