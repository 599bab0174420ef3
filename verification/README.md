# payment_gateway

The core of a deliberately unreliable mock payment gateway, and of the theatre booking service
that talks to it, written in [Verus](https://github.com/verus-lang/verus): the functions in `src/`
carry contracts, and all but the few named at the end are proved to meet them.

The gateway accepts a payment, answers at once with a transaction id and the status `PENDING`,
and decides `SUCCESS` or `FAILED` some time later. Then it calls the webhook that it was given,
with exponential backoff, until it receives a 2xx. Some webhooks are delivered twice, and some
never. All of it can be forced with the header `X-Force-Scenario`: `random`, `success`,
`failure`, `lost`, `duplicate`, `late_success` or `instant`.

## Layout

- `src/gateway/` — the gateway: settings (`config`), plans (`outcome`), the tables and what may be
  done to them (`records`, `store`, `schedule`), the HTTP API (`server`), webhooks (`delivery`,
  `signature`), the tools on the command line (`cli`, `probe`, `selftest`).
  `laws` states what holds of the book-keeping as a whole.
- `src/booking/` — the booking service: settings, errors, the call that starts a payment, and the
  webhook that resolves a booking together with its seats.
- `src/text.rs`, `json.rs`, `clock.rs`, `ids.rs`, `dice.rs`, `environment.rs` — what both share.
- `app/` — the program around the library: servers, databases, HTTP clients, the command line.
- `tests/` — tests of the library.

## What is trusted

A few functions call other crates and are believed rather than proved: the HMAC (`hmac`, `sha2`),
random numbers (`rand`), fresh identifiers (`uuid`), the calendar (`chrono`), the syntax of URLs
(`reqwest`), and two functions of the standard library. Each says in its doc comment what it
claims.
