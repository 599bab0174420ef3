//! The command line.

use vstd::prelude::*;

verus! {

/// The endpoint to which `fire-webhook` posts, where none is named.
pub const DEFAULT_URL: &'static str = "http://127.0.0.1:8080/webhooks/payments";

/// The status that `fire-webhook` reports, where none is named.
pub const DEFAULT_STATUS: &'static str = "SUCCESS";

/// The booking that `fire-webhook` speaks of, where none is named.
pub const DEFAULT_BOOKING_REFERENCE: &'static str = "bkg_manual_test";

/// The amount that `fire-webhook` speaks of, where none is named.
pub const DEFAULT_AMOUNT_MINOR: i64 = 20_000;

/// What was asked for on the command line.
#[derive(Debug)]
pub struct Cli {
    pub command: Option<Command>,
}

/// A subcommand.
#[derive(Debug)]
pub enum Command {
    /// Run the gateway (the default if no subcommand is given).
    Serve,
    /// Send a single webhook by hand, without creating a payment first.
    FireWebhook {
        /// The webhook endpoint.
        url: String,
        /// SUCCESS or FAILED.
        status: String,
        /// Defaults to a fresh random id.
        transaction_id: Option<String>,
        /// Defaults to a fresh random id. Pass the same value twice to test idempotency.
        event_id: Option<String>,
        booking_reference: String,
        amount_minor: i64,
        /// Send the identical request twice in a row.
        duplicate: bool,
    },
    /// Verify the gateway's own retry, duplicate and suppression behaviour.
    SelfTest,
}

impl Cli {
    /// What to do: the subcommand that was given, or else to run the gateway.
    pub fn chosen(self) -> (command: Command)
        ensures
            command == (match self.command {
                Some(c) => c,
                None => Command::Serve,
            }),
    {
        match self.command {
            Some(command) => command,
            None => Command::Serve,
        }
    }
}

impl Command {
    /// What is logged under this subcommand, where nothing else is asked for.
    pub fn log_filter(&self) -> (s: &'static str)
        ensures
            s@ == (match self {
                Command::Serve => "payment_gateway=info"@,
                Command::FireWebhook { .. } => "info"@,
                Command::SelfTest => "warn"@,
            }),
    {
        match self {
            Command::Serve => "payment_gateway=info",
            Command::FireWebhook { .. } => "info",
            Command::SelfTest => "warn",
        }
    }
}

} // verus!
