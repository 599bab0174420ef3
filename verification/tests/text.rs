use payment_gateway::clock::{iso, Timestamp, FIRST_MILLIS, LAST_MILLIS};
use payment_gateway::environment::{EnvValue, Environment, Variable};
use payment_gateway::ids::{
    new_delivery_id, new_event_id, new_refund_id, new_transaction_id,
};
use payment_gateway::text::{
    is_blank, is_whitespace, parse_unsigned, replace, split_filled, to_ascii_lowercase,
    to_ascii_uppercase, to_decimal, to_signed_decimal, trim, trim_end_matches,
};

#[test]
fn white_space_is_what_std_says_it_is() {
    for n in 0..=0x10_ffff_u32 {
        if let Some(c) = char::from_u32(n) {
            assert_eq!(is_whitespace(c), c.is_whitespace(), "U+{n:04X}");
        }
    }
}

#[test]
fn text_operations_agree_with_std() {
    for s in [
        "",
        " ",
        "abc",
        "  a b\t",
        "\u{2003}x\u{85}",
        "Grüße - ÄÖÜ",
        "///",
        "http://h//",
        "a-b-c",
        "\u{feff}a",
    ] {
        assert_eq!(trim(s), s.trim());
        assert_eq!(is_blank(s), s.trim().is_empty());
        assert_eq!(to_ascii_lowercase(s), s.to_ascii_lowercase());
        assert_eq!(to_ascii_uppercase(s), s.to_ascii_uppercase());
        assert_eq!(replace(s, '-', '_'), s.replace('-', "_"));
        assert_eq!(trim_end_matches(s, '/'), s.trim_end_matches('/'));
    }
}

#[test]
fn statements_are_split_and_blank_ones_dropped() {
    assert_eq!(split_filled("a; b;\n ;c;", ';'), vec!["a", " b", "c"]);
    assert!(split_filled(" ;; ", ';').is_empty());
}

#[test]
fn numbers_are_written_and_read_like_std_does() {
    for n in [0, 1, 9, 10, 42, 65_535, u64::MAX] {
        assert_eq!(to_decimal(n), n.to_string());
        assert_eq!(parse_unsigned(&n.to_string(), u64::MAX), Some(n));
    }
    for n in [i64::MIN, -1, 0, 7, i64::MAX] {
        assert_eq!(to_signed_decimal(n), n.to_string());
    }
    for s in ["", "+", "-1", "+7", "007", "1 ", "0x1", "18446744073709551616", "٣"] {
        assert_eq!(parse_unsigned(s, u64::MAX), s.parse::<u64>().ok(), "{s:?}");
        assert_eq!(parse_unsigned(s, 65_535), s.parse::<u16>().ok().map(u64::from), "{s:?}");
    }
    assert_eq!(parse_unsigned("65536", 65_535), None);
}

#[test]
fn points_in_time_are_written_in_iso_8601() {
    assert_eq!(iso(Timestamp { millis: 0 }), "1970-01-01T00:00:00.000Z");
    assert_eq!(iso(Timestamp { millis: 1_700_000_000_123 }), "2023-11-14T22:13:20.123Z");
    assert_eq!(iso(Timestamp { millis: -1 }), "1969-12-31T23:59:59.999Z");
    assert_eq!(iso(Timestamp { millis: LAST_MILLIS }), "+262142-12-31T23:59:59.999Z");
    assert_eq!(iso(Timestamp { millis: FIRST_MILLIS }), "-262143-01-01T00:00:00.000Z");
}

#[test]
fn the_calendar_ends() {
    let end = Timestamp { millis: LAST_MILLIS };
    assert!(end.is_valid());
    assert!(end.checked_plus(1).is_none());
    assert!(end.checked_plus(i64::MAX).is_none());
    assert_eq!(end.checked_plus(-1), Some(Timestamp { millis: LAST_MILLIS - 1 }));
    assert!(!Timestamp { millis: FIRST_MILLIS - 1 }.is_valid());
    assert_eq!(Timestamp { millis: 5 }.plus(7), Timestamp { millis: 12 });
}

#[test]
fn identifiers_have_their_prefix_and_differ() {
    for (make, prefix) in [
        (new_transaction_id as fn() -> String, "txn_"),
        (new_event_id, "evt_"),
        (new_delivery_id, "dlv_"),
        (new_refund_id, "rfnd_"),
    ] {
        let (a, b) = (make(), make());
        assert_ne!(a, b);
        let rest = a.strip_prefix(prefix).unwrap();
        assert_eq!(rest.len(), 32);
        assert!(rest.chars().all(|c| c.is_ascii_digit() || ('a'..='f').contains(&c)));
        assert_eq!(&rest[12..13], "4");
    }
}

fn environment(vars: &[(&str, &str)]) -> Environment {
    Environment {
        vars: vars
            .iter()
            .map(|(n, v)| Variable {
                name: (*n).to_owned(),
                value: EnvValue::Text((*v).to_owned()),
            })
            .collect(),
    }
}

#[test]
fn blank_variables_count_as_unset() {
    let env = environment(&[("A", " \t"), ("B", " x "), ("N", " 12 "), ("N", "13"), ("M", "x")]);
    assert!(matches!(env.var("A"), Some(EnvValue::Text(s)) if s == " \t"));
    assert_eq!(env.setting("A"), Ok(None));
    assert_eq!(env.string_env("A", "d"), Ok("d".to_owned()));
    assert_eq!(env.string_env("B", "d"), Ok(" x ".to_owned()));
    assert!(env.is_set("A"));
    assert!(!env.is_set("Z"));
    assert_eq!(env.number_env("N", 5, 100), Ok(12));
    assert_eq!(env.number_env("A", 5, 100), Ok(5));
    assert_eq!(env.number_env("Z", 5, 100), Ok(5));
    assert_eq!(env.number_env("M", 5, 100), Err("x".to_owned()));
    assert_eq!(env.number_env("N", 5, 11), Err(" 12 ".to_owned()));
}

#[test]
fn a_value_that_is_no_text_is_not_taken_for_unset() {
    let env = Environment {
        vars: vec![Variable {
            name: "A".to_owned(),
            value: EnvValue::Malformed("\u{fffd}".to_owned()),
        }],
    };
    assert_eq!(env.setting("A"), Err("\u{fffd}".to_owned()));
    assert_eq!(env.string_env("A", "d"), Err("\u{fffd}".to_owned()));
    assert_eq!(env.number_env("A", 1, 9), Err("\u{fffd}".to_owned()));
    assert_eq!(env.readable("A"), None);
    assert_eq!(env.string_env_or("A", "d"), "d");
    assert_eq!(env.number_env_or("A", 1, 9), Ok(1));
    assert!(env.is_set("A"));
}
