use sampler_core::error::AgentError;
use sampler_core::parse::{lookup, parse};

#[test]
fn two_line_input_parses() {
    let input = b"Tcp: ActiveOpens PassiveOpens\nTcp: 5 3\n".to_vec();
    let secs = parse(&input).unwrap();
    assert_eq!(secs.len(), 1);
    assert_eq!(secs[0].name, b"Tcp".to_vec());
    assert_eq!(secs[0].columns.len(), 2);
    assert_eq!(secs[0].columns[0], (b"ActiveOpens".to_vec(), 5));
    assert_eq!(secs[0].columns[1], (b"PassiveOpens".to_vec(), 3));
}

#[test]
fn lookup_finds_value() {
    let input = b"Tcp: ActiveOpens PassiveOpens\nTcp: 5 3\n".to_vec();
    let secs = parse(&input).unwrap();
    assert_eq!(lookup(&secs, b"Tcp", b"ActiveOpens"), Some(5));
    assert_eq!(lookup(&secs, b"Tcp", b"PassiveOpens"), Some(3));
    assert_eq!(lookup(&secs, b"Tcp", b"RetransSegs"), None);
    assert_eq!(lookup(&secs, b"Udp", b"ActiveOpens"), None);
}

#[test]
fn several_sections_parse() {
    let input = b"Tcp: A B\nTcp: 1 2\nTcpExt: ListenDrops\nTcpExt: 9\n".to_vec();
    let secs = parse(&input).unwrap();
    assert_eq!(secs.len(), 2);
    assert_eq!(lookup(&secs, b"TcpExt", b"ListenDrops"), Some(9));
    assert_eq!(lookup(&secs, b"Tcp", b"B"), Some(2));
}

#[test]
fn repeated_section_keeps_later() {
    let input = b"Tcp: A\nTcp: 1\nTcp: A\nTcp: 7\n".to_vec();
    let secs = parse(&input).unwrap();
    assert_eq!(lookup(&secs, b"Tcp", b"A"), Some(7));
}

#[test]
fn empty_input_is_empty() {
    let secs = parse(&[]).unwrap();
    assert_eq!(secs.len(), 0);
}

#[test]
fn unpaired_line_is_malformed() {
    let input = b"Tcp: A B\nTcp: 1 2\nTcp: C\n".to_vec();
    assert_eq!(parse(&input).unwrap_err(), AgentError::ParseMalformed);
}

#[test]
fn missing_colon_is_malformed() {
    let input = b"Tcp A\nTcp 1\n".to_vec();
    assert_eq!(parse(&input).unwrap_err(), AgentError::ParseMalformed);
}

#[test]
fn mismatched_names_are_malformed() {
    let input = b"Tcp: A\nUdp: 1\n".to_vec();
    assert_eq!(parse(&input).unwrap_err(), AgentError::ParseMalformed);
}

#[test]
fn non_numeric_value_drops_column() {
    let input = b"Tcp: A B\nTcp: x 2\n".to_vec();
    let secs = parse(&input).unwrap();
    assert_eq!(secs[0].columns.len(), 1);
    assert_eq!(lookup(&secs, b"Tcp", b"A"), None);
    assert_eq!(lookup(&secs, b"Tcp", b"B"), Some(2));
}

#[test]
fn largest_value_parses_and_overflow_drops() {
    let input = b"Tcp: A B\nTcp: 18446744073709551615 18446744073709551616\n".to_vec();
    let secs = parse(&input).unwrap();
    assert_eq!(lookup(&secs, b"Tcp", b"A"), Some(u64::MAX));
    assert_eq!(lookup(&secs, b"Tcp", b"B"), None);
}

#[test]
fn extra_value_columns_are_ignored() {
    let input = b"Tcp: A\nTcp: 1 2 3\n".to_vec();
    let secs = parse(&input).unwrap();
    assert_eq!(secs[0].columns.len(), 1);
    assert_eq!(lookup(&secs, b"Tcp", b"A"), Some(1));
}
