//! Configuration, read from the environment with sane defaults.

use vstd::prelude::*;

use crate::environment::{is_filled, number_of, setting_of, string_of, Environment, Vars};
use crate::text::{
    debug_quoted, join, join3, lemma_trimmed_end_of, quote, same, trim_end_matches, trimmed_end_of,
};

verus! {

/// The booking service's settings.
#[derive(Debug)]
pub struct Config {
    /// Port this API listens on.
    pub port: u16,
    /// Connection string of the database. The parent directory is created automatically.
    pub database_url: String,
    /// Directory holding `*.sql` migrations, resolved relative to the working directory.
    pub migrations_dir: String,
    /// Base URL of the mock payment gateway, e.g. `http://127.0.0.1:9090`.
    pub payment_gateway_url: String,
    /// The URL handed to the gateway so it knows where to deliver webhooks.
    pub webhook_callback_url: String,
    /// Shared secret the gateway signs webhook bodies with, in `X-Payment-Signature`.
    pub webhook_secret: String,
    /// How long a booking may hold seats before it is considered abandoned, in seconds.
    pub booking_hold_ttl_seconds: u64,
}

/// A setting that cannot be used.
#[derive(Debug)]
pub struct ConfigError {
    pub name: &'static str,
    pub value: String,
}

impl ConfigError {
    /// What the error says.
    pub open spec fn said(self) -> Seq<char> {
        "invalid value for environment variable "@ + self.name@ + ": "@ + debug_quoted(self.value@)
    }

    /// The error as a message.
    pub fn message(&self) -> (s: String)
        ensures
            s@ == self.said(),
    {
        let start = join3("invalid value for environment variable ", self.name, ": ");
        let quoted = quote(self.value.as_str());
        join(start.as_str(), quoted.as_str())
    }
}

/// The text that a variable sets, or `default`, or nothing where its value is no text.
pub open spec fn text_of(vars: Vars, name: Seq<char>, default: Seq<char>) -> Option<Seq<char>> {
    match string_of(vars, name, default) {
        Ok(s) => Some(s),
        Err(_) => None,
    }
}

/// Whether `config` holds what the environment sets, and the default of everything else.
pub open spec fn configured(config: Config, vars: Vars) -> bool {
    let gateway = text_of(vars, "PAYMENT_GATEWAY_URL"@, "http://127.0.0.1:9090"@);
    let callback = "http://127.0.0.1:8080/webhooks/payments"@;
    &&& number_of(vars, "PORT"@, 8080, u16::MAX as int) == Ok::<int, Seq<char>>(
        config.port as int,
    )
    &&& text_of(vars, "DATABASE_URL"@, "sqlite://data/booking.db?mode=rwc"@) == Some(
        config.database_url@,
    )
    &&& text_of(vars, "MIGRATIONS_DIR"@, "./migrations"@) == Some(config.migrations_dir@)
    &&& gateway is Some
    &&& config.payment_gateway_url@ == trimmed_end_of(gateway->0, '/')
    &&& text_of(vars, "WEBHOOK_CALLBACK_URL"@, callback) == Some(config.webhook_callback_url@)
    &&& text_of(vars, "PAYMENT_WEBHOOK_SECRET"@, "dev-webhook-secret"@) == Some(
        config.webhook_secret@,
    )
    &&& number_of(vars, "BOOKING_HOLD_TTL_SECONDS"@, 120, u64::MAX as int) == Ok::<
        int,
        Seq<char>,
    >(config.booking_hold_ttl_seconds as int)
}

/// The name of a setting and the value that it cannot have.
pub type Fault = (Seq<char>, Seq<char>);

/// The fault of a variable that should hold a text.
pub open spec fn string_fault(vars: Vars, name: Seq<char>) -> Option<Fault> {
    match setting_of(vars, name) {
        Ok(_) => None,
        Err(shown) => Some((name, shown)),
    }
}

/// The fault of a variable that should hold a number.
pub open spec fn number_fault(vars: Vars, name: Seq<char>, max: int) -> Option<Fault> {
    match number_of(vars, name, 0, max) {
        Ok(_) => None,
        Err(value) => Some((name, value)),
    }
}

/// The first of some faults.
pub open spec fn first_of(faults: Seq<Option<Fault>>) -> Option<Fault>
    decreases faults.len(),
{
    if faults.len() == 0 {
        None
    } else if faults.first() is Some {
        faults.first()
    } else {
        first_of(faults.drop_first())
    }
}

/// The faults of all settings, in the order in which they are read.
pub open spec fn faults(vars: Vars) -> Seq<Option<Fault>> {
    seq![
        number_fault(vars, "PORT"@, u16::MAX as int),
        string_fault(vars, "DATABASE_URL"@),
        string_fault(vars, "MIGRATIONS_DIR"@),
        string_fault(vars, "PAYMENT_GATEWAY_URL"@),
        string_fault(vars, "WEBHOOK_CALLBACK_URL"@),
        string_fault(vars, "PAYMENT_WEBHOOK_SECRET"@),
        number_fault(vars, "BOOKING_HOLD_TTL_SECONDS"@, u64::MAX as int),
    ]
}

proof fn lemma_first_of(faults: Seq<Option<Fault>>, i: int)
    requires
        0 <= i <= faults.len(),
        forall|k: int| 0 <= k < i ==> #[trigger] faults[k] is None,
    ensures
        i < faults.len() && faults[i] is Some ==> first_of(faults) == faults[i],
        i == faults.len() ==> first_of(faults) is None,
    decreases faults.len(),
{
    if i > 0 {
        assert(faults[0] is None);
        let rest = faults.drop_first();
        assert forall|k: int| 0 <= k < i - 1 implies #[trigger] rest[k] is None by {
            assert(rest[k] == faults[k + 1]);
        }
        lemma_first_of(rest, i - 1);
    }
}

/// The text that a variable sets, or `default`.
fn string_env(env: &Environment, name: &'static str, default: &str) -> (r: Result<
    String,
    ConfigError,
>)
    ensures
        match r {
            Ok(s) => {
                &&& text_of(env@, name@, default@) == Some(s@)
                &&& string_fault(env@, name@) is None
            },
            Err(e) => string_fault(env@, name@) == Some((e.name@, e.value@)),
        },
{
    match env.string_env(name, default) {
        Ok(s) => Ok(s),
        Err(value) => Err(ConfigError { name, value }),
    }
}

/// The number that a variable sets, or `default`.
fn parse_env(env: &Environment, name: &'static str, default: u64, max: u64) -> (r: Result<
    u64,
    ConfigError,
>)
    requires
        default <= max,
    ensures
        match r {
            Ok(n) => {
                &&& number_of(env@, name@, default as int, max as int) == Ok::<int, Seq<char>>(
                    n as int,
                )
                &&& number_fault(env@, name@, max as int) is None
                &&& n <= max
            },
            Err(e) => number_fault(env@, name@, max as int) == Some((e.name@, e.value@)),
        },
{
    match env.number_env(name, default, max) {
        Ok(n) => Ok(n),
        Err(value) => Err(ConfigError { name, value }),
    }
}

impl Config {
    /// Reads configuration from the environment.
    ///
    /// Malformed values are a hard error rather than a silent fallback to the default:
    /// a typo in `BOOKING_HOLD_TTL_SECONDS` should not look like it worked.
    pub fn from_env(env: &Environment) -> (r: Result<Self, ConfigError>)
        ensures
            match r {
                Ok(config) => first_of(faults(env@)) is None && configured(config, env@),
                Err(e) => first_of(faults(env@)) == Some((e.name@, e.value@)),
            },
    {
        proof {
            lemma_first_faults(faults(env@));
        }
        let port = parse_env(env, "PORT", 8080, 65_535)?;
        let database_url = string_env(env, "DATABASE_URL", "sqlite://data/booking.db?mode=rwc")?;
        let migrations_dir = string_env(env, "MIGRATIONS_DIR", "./migrations")?;
        let gateway = string_env(env, "PAYMENT_GATEWAY_URL", "http://127.0.0.1:9090")?;
        let webhook_callback_url = string_env(
            env,
            "WEBHOOK_CALLBACK_URL",
            "http://127.0.0.1:8080/webhooks/payments",
        )?;
        let webhook_secret = string_env(env, "PAYMENT_WEBHOOK_SECRET", "dev-webhook-secret")?;
        let booking_hold_ttl_seconds = parse_env(
            env,
            "BOOKING_HOLD_TTL_SECONDS",
            120,
            u64::MAX,
        )?;
        Ok(
            Config {
                port: port as u16,
                database_url,
                migrations_dir,
                payment_gateway_url: trim_end_matches(gateway.as_str(), '/'),
                webhook_callback_url,
                webhook_secret,
                booking_hold_ttl_seconds,
            },
        )
    }
}

pub(crate) proof fn lemma_first_faults(f: Seq<Option<Fault>>)
    requires
        f.len() == 7,
    ensures
        first_of(f) == if f[0] is Some {
            f[0]
        } else if f[1] is Some {
            f[1]
        } else if f[2] is Some {
            f[2]
        } else if f[3] is Some {
            f[3]
        } else if f[4] is Some {
            f[4]
        } else if f[5] is Some {
            f[5]
        } else {
            f[6]
        },
{
    let i: int = if f[0] is Some {
        0
    } else if f[1] is Some {
        1
    } else if f[2] is Some {
        2
    } else if f[3] is Some {
        3
    } else if f[4] is Some {
        4
    } else if f[5] is Some {
        5
    } else if f[6] is Some {
        6
    } else {
        7
    };
    lemma_first_of(f, i);
}

/// Whether a list of arguments holds a text.
pub open spec fn mentions(args: Seq<String>, text: Seq<char>) -> bool {
    exists|i: int| 0 <= i < args.len() && (#[trigger] args[i])@ == text
}

/// True when invoked as `--migrate-only`, or with `MIGRATE_ONLY` set to anything non-empty.
pub fn migrate_only(args: &Vec<String>, env: &Environment) -> (r: bool)
    ensures
        r == (mentions(args@, "--migrate-only"@) || is_filled(env@, "MIGRATE_ONLY"@)),
{
    let mut i: usize = 0;
    while i < args.len()
        invariant
            i <= args@.len(),
            forall|j: int| 0 <= j < i ==> (#[trigger] args@[j])@ != "--migrate-only"@,
        decreases args@.len() - i,
    {
        if same(args[i].as_str(), "--migrate-only") {
            return true;
        }
        i += 1;
    }
    env.is_set("MIGRATE_ONLY")
}

/// However it was given, the gateway's base URL does not end in a slash, so that a path can be
/// put behind it.
pub proof fn gateway_url_has_no_trailing_slash(config: Config, vars: Vars)
    requires
        configured(config, vars),
        config.payment_gateway_url@.len() > 0,
    ensures
        config.payment_gateway_url@.last() != '/',
{
    let gateway = text_of(vars, "PAYMENT_GATEWAY_URL"@, "http://127.0.0.1:9090"@);
    lemma_trimmed_end_of(gateway->0, '/');
}

/// A setting that cannot be read is an error, whatever the others say: it never falls back to
/// the default in silence.
pub proof fn malformed_settings_are_refused(vars: Vars, i: int)
    requires
        0 <= i < faults(vars).len(),
        faults(vars)[i] is Some,
    ensures
        first_of(faults(vars)) is Some,
{
    lemma_first_faults(faults(vars));
}

} // verus!
