use scheduler::parse::{first_token, parse_policy, parse_quantum};
use scheduler::Policy;

#[test]
fn policy_names_parse_exactly() {
    assert_eq!(parse_policy("FCFS"), Some(Policy::Fcfs));
    assert_eq!(parse_policy("RR"), Some(Policy::Rr));
    assert_eq!(parse_policy("XYZ"), None);
    assert_eq!(parse_policy(""), None);
    assert_eq!(parse_policy("fcfs"), None);
    assert_eq!(parse_policy("RRR"), None);
    assert_eq!(parse_policy("FCFS "), None);
}

#[test]
fn invalid_policy_schedules_nothing() {
    // the driver only builds an engine for a recognized policy; an invalid
    // name is reported and no record is ever created or started
    match parse_policy("XYZ") {
        Some(_) => panic!("an invalid policy name must not parse"),
        None => {}
    }
}

#[test]
fn quantum_parses_decimal_milliseconds() {
    assert_eq!(parse_quantum("50"), Some(50));
    assert_eq!(parse_quantum("0"), Some(0));
    assert_eq!(parse_quantum("007"), Some(7));
    assert_eq!(parse_quantum("1000"), Some(1000));
    assert_eq!(parse_quantum("18446744073709551615"), Some(u64::MAX));
}

#[test]
fn quantum_rejects_bad_input() {
    assert_eq!(parse_quantum(""), None);
    assert_eq!(parse_quantum("12a"), None);
    assert_eq!(parse_quantum("-5"), None);
    assert_eq!(parse_quantum(" 5"), None);
    assert_eq!(parse_quantum("5 "), None);
    assert_eq!(parse_quantum("18446744073709551616"), None);
    assert_eq!(parse_quantum("99999999999999999999999"), None);
}

#[test]
fn first_token_takes_first_word() {
    assert_eq!(first_token("sleep 0"), Some("sleep".to_string()));
    assert_eq!(first_token("  true"), Some("true".to_string()));
    assert_eq!(first_token("prog"), Some("prog".to_string()));
    assert_eq!(first_token("a b c"), Some("a".to_string()));
    assert_eq!(first_token("\tbin\targ"), Some("bin".to_string()));
    assert_eq!(first_token("prog\r"), Some("prog".to_string()));
}

#[test]
fn first_token_of_blank_line_is_none() {
    assert_eq!(first_token(""), None);
    assert_eq!(first_token("   "), None);
    assert_eq!(first_token(" \t \r"), None);
}
