use payment_gateway::booking::config as booking;
use payment_gateway::environment::{EnvValue, Environment, Variable};
use payment_gateway::gateway::cli::{
    Cli, Command, DEFAULT_AMOUNT_MINOR, DEFAULT_BOOKING_REFERENCE, DEFAULT_STATUS, DEFAULT_URL,
};
use payment_gateway::gateway::config::{Config, RateReading, RateReadings};
use rand::distr::Bernoulli;

fn environment(vars: &[(&str, &str)]) -> Environment {
    Environment {
        vars: vars
            .iter()
            .map(|(n, v)| Variable {
                name: (*n).to_owned(),
                value: EnvValue::Text((*v).to_owned()),
            })
            .collect(),
    }
}

fn unset() -> RateReadings {
    RateReadings {
        success: RateReading::Unset,
        duplicate: RateReading::Unset,
        lost_webhook: RateReading::Unset,
        late_webhook: RateReading::Unset,
    }
}

fn fault(env: &Environment, rates: RateReadings) -> (&'static str, String) {
    match Config::from_env(env, rates) {
        Ok(_) => panic!("expected a fault"),
        Err(e) => (e.name, e.value),
    }
}

#[test]
fn gateway_defaults() {
    let config = match Config::from_env(&environment(&[]), unset()) {
        Ok(config) => config,
        Err(e) => panic!("{}", e.message()),
    };
    assert_eq!(config.port, 9090);
    assert_eq!(config.database_url, "sqlite://data/gateway.db?mode=rwc");
    assert_eq!(config.webhook_secret, "dev-webhook-secret");
    assert_eq!(config.success_rate, Bernoulli::new(0.7).unwrap());
    assert_eq!(config.duplicate_rate, Bernoulli::new(0.2).unwrap());
    assert_eq!(config.lost_webhook_rate, Bernoulli::new(0.05).unwrap());
    assert_eq!(config.late_webhook_rate, Bernoulli::new(0.05).unwrap());
    assert_eq!(config.late_webhook_delay_ms, 45_000);
    assert_eq!((config.outcome_delay_ms_min, config.outcome_delay_ms_max), (0, 5_000));
    assert_eq!(config.webhook_backoff_base_ms, 1_000);
    assert_eq!(config.webhook_backoff_max_ms, 30_000);
    assert_eq!(config.rng_seed, None);
}

#[test]
fn gateway_settings_are_read() {
    let env = environment(&[
        ("GATEWAY_PORT", " 1234 "),
        ("GATEWAY_DATABASE_URL", "sqlite://x.db"),
        ("PAYMENT_WEBHOOK_SECRET", "s"),
        ("LATE_WEBHOOK_DELAY_MS", "1"),
        ("OUTCOME_DELAY_MS_MIN", "2"),
        ("OUTCOME_DELAY_MS_MAX", "3"),
        ("WEBHOOK_BACKOFF_BASE_MS", "4"),
        ("WEBHOOK_BACKOFF_MAX_MS", "5"),
        ("RNG_SEED", "42"),
    ]);
    let rates = RateReadings {
        success: RateReading::Rate(Bernoulli::new(0.25).unwrap()),
        ..unset()
    };
    let config = match Config::from_env(&env, rates) {
        Ok(config) => config,
        Err(e) => panic!("{}", e.message()),
    };
    assert_eq!(config.port, 1234);
    assert_eq!(config.database_url, "sqlite://x.db");
    assert_eq!(config.webhook_secret, "s");
    assert_eq!(config.success_rate, Bernoulli::new(0.25).unwrap());
    assert_eq!(config.late_webhook_delay_ms, 1);
    assert_eq!((config.outcome_delay_ms_min, config.outcome_delay_ms_max), (2, 3));
    assert_eq!((config.webhook_backoff_base_ms, config.webhook_backoff_max_ms), (4, 5));
    assert_eq!(config.rng_seed, Some(42));
    assert_eq!(config.clone().success_rate, config.success_rate);
}

#[test]
fn gateway_faults_come_in_the_order_of_reading() {
    assert_eq!(
        fault(&environment(&[("GATEWAY_PORT", "65536"), ("RNG_SEED", "x")]), unset()),
        ("GATEWAY_PORT", "65536".to_owned())
    );
    assert_eq!(
        fault(
            &environment(&[("RNG_SEED", " -1 ")]),
            RateReadings { success: RateReading::OutOfRange("1.5".to_owned()), ..unset() }
        ),
        ("RNG_SEED", " -1 ".to_owned())
    );
    assert_eq!(
        fault(
            &environment(&[("LATE_WEBHOOK_DELAY_MS", "soon")]),
            RateReadings { late_webhook: RateReading::Malformed("often".to_owned()), ..unset() }
        ),
        ("LATE_WEBHOOK_RATE", "often".to_owned())
    );
    assert_eq!(
        fault(
            &environment(&[("OUTCOME_DELAY_MS_MIN", "6000")]),
            RateReadings { duplicate: RateReading::OutOfRange("-0.1".to_owned()), ..unset() }
        ),
        ("DUPLICATE_RATE", "-0.1 (must be between 0.0 and 1.0)".to_owned())
    );
}

#[test]
fn gateway_thinking_time_bounds_must_be_the_right_way_round() {
    let env = environment(&[("OUTCOME_DELAY_MS_MIN", "6000")]);
    match Config::from_env(&env, unset()) {
        Ok(_) => panic!("expected a fault"),
        Err(e) => assert_eq!(
            e.message(),
            "invalid value for environment variable OUTCOME_DELAY_MS_MIN: \
             6000 exceeds OUTCOME_DELAY_MS_MAX (5000)"
        ),
    }
}

#[test]
fn self_test_settings() {
    let config = Config::for_self_test("sqlite://t.db".to_owned());
    assert_eq!(config.database_url, "sqlite://t.db");
    assert_eq!(config.webhook_secret, "self-test-secret");
    assert_eq!(config.success_rate, Bernoulli::new(1.0).unwrap());
    assert_eq!(config.duplicate_rate, Bernoulli::new(0.0).unwrap());
    assert_eq!((config.webhook_backoff_base_ms, config.webhook_backoff_max_ms), (50, 200));
    assert_eq!(config.rng_seed, Some(42));
}

#[test]
fn booking_defaults_and_settings() {
    let config = booking::Config::from_env(&environment(&[])).unwrap();
    assert_eq!(config.port, 8080);
    assert_eq!(config.database_url, "sqlite://data/booking.db?mode=rwc");
    assert_eq!(config.migrations_dir, "./migrations");
    assert_eq!(config.payment_gateway_url, "http://127.0.0.1:9090");
    assert_eq!(config.webhook_callback_url, "http://127.0.0.1:8080/webhooks/payments");
    assert_eq!(config.webhook_secret, "dev-webhook-secret");
    assert_eq!(config.booking_hold_ttl_seconds, 120);

    let env = environment(&[
        ("PAYMENT_GATEWAY_URL", "http://gateway:1//"),
        ("BOOKING_HOLD_TTL_SECONDS", "60"),
    ]);
    let config = booking::Config::from_env(&env).unwrap();
    assert_eq!(config.payment_gateway_url, "http://gateway:1");
    assert_eq!(config.booking_hold_ttl_seconds, 60);
}

#[test]
fn booking_faults_quote_the_value() {
    let env = environment(&[("BOOKING_HOLD_TTL_SECONDS", "2 \"min\""), ("PORT", "80")]);
    assert_eq!(
        booking::Config::from_env(&env).unwrap_err().message(),
        "invalid value for environment variable BOOKING_HOLD_TTL_SECONDS: \"2 \\\"min\\\"\""
    );
    let env = environment(&[("BOOKING_HOLD_TTL_SECONDS", "x"), ("PORT", "http")]);
    assert_eq!(booking::Config::from_env(&env).unwrap_err().name, "PORT");
}

fn malformed(name: &str) -> Environment {
    Environment {
        vars: vec![Variable {
            name: name.to_owned(),
            value: EnvValue::Malformed("\u{fffd}".to_owned()),
        }],
    }
}

#[test]
fn the_booking_service_refuses_values_that_are_no_text() {
    for name in [
        "PORT",
        "DATABASE_URL",
        "MIGRATIONS_DIR",
        "PAYMENT_GATEWAY_URL",
        "WEBHOOK_CALLBACK_URL",
        "PAYMENT_WEBHOOK_SECRET",
        "BOOKING_HOLD_TTL_SECONDS",
    ] {
        let e = booking::Config::from_env(&malformed(name)).unwrap_err();
        assert_eq!((e.name, e.value.as_str()), (name, "\u{fffd}"));
    }
}

#[test]
fn the_gateway_falls_back_on_values_that_are_no_text() {
    for name in [
        "GATEWAY_PORT",
        "GATEWAY_DATABASE_URL",
        "PAYMENT_WEBHOOK_SECRET",
        "LATE_WEBHOOK_DELAY_MS",
        "OUTCOME_DELAY_MS_MIN",
        "OUTCOME_DELAY_MS_MAX",
        "WEBHOOK_BACKOFF_BASE_MS",
        "WEBHOOK_BACKOFF_MAX_MS",
        "RNG_SEED",
    ] {
        let config = match Config::from_env(&malformed(name), unset()) {
            Ok(config) => config,
            Err(e) => panic!("{}", e.message()),
        };
        assert_eq!(config.port, 9090);
        assert_eq!(config.database_url, "sqlite://data/gateway.db?mode=rwc");
        assert_eq!(config.webhook_secret, "dev-webhook-secret");
        assert_eq!(config.late_webhook_delay_ms, 45_000);
        assert_eq!((config.outcome_delay_ms_min, config.outcome_delay_ms_max), (0, 5_000));
        assert_eq!(config.webhook_backoff_base_ms, 1_000);
        assert_eq!(config.webhook_backoff_max_ms, 30_000);
        assert_eq!(config.rng_seed, None);
    }
}

#[test]
fn migrating_only_can_be_asked_for_in_two_ways() {
    let args = |list: &[&str]| -> Vec<String> { list.iter().map(|a| (*a).to_owned()).collect() };
    assert!(booking::migrate_only(&args(&["api", "--migrate-only"]), &environment(&[])));
    assert!(booking::migrate_only(&args(&["api"]), &environment(&[("MIGRATE_ONLY", "1")])));
    assert!(booking::migrate_only(&args(&["api"]), &environment(&[("MIGRATE_ONLY", " ")])));
    assert!(booking::migrate_only(&args(&["api"]), &malformed("MIGRATE_ONLY")));
    assert!(!booking::migrate_only(&args(&["api"]), &environment(&[("MIGRATE_ONLY", "")])));
    assert!(!booking::migrate_only(&args(&["api"]), &environment(&[])));
    assert!(!booking::migrate_only(&args(&["api", "--migrate"]), &environment(&[])));
}

#[test]
fn serving_is_the_default_command() {
    assert!(matches!(Cli { command: None }.chosen(), Command::Serve));
    assert!(matches!(Cli { command: Some(Command::SelfTest) }.chosen(), Command::SelfTest));
    assert_eq!(Command::Serve.log_filter(), "payment_gateway=info");
    assert_eq!(Command::SelfTest.log_filter(), "warn");
    assert_eq!(DEFAULT_URL, "http://127.0.0.1:8080/webhooks/payments");
    assert_eq!((DEFAULT_STATUS, DEFAULT_BOOKING_REFERENCE), ("SUCCESS", "bkg_manual_test"));
    assert_eq!(DEFAULT_AMOUNT_MINOR, 20_000);
}
