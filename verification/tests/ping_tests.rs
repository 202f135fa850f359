use uup::ping::PingUup;

#[test]
fn sequence_numbers_increment_from_zero() {
    let mut backend = PingUup::new();
    for expected in 0u16..=1000 {
        let prep = backend.prepare_check(None);
        assert_eq!(prep.sequence_number, expected);
    }
}

#[test]
fn sequence_numbers_distinct_until_wrap() {
    let mut backend = PingUup::new();
    let mut seen = vec![false; 65536];
    for _ in 0..65536usize {
        let prep = backend.prepare_check(None);
        assert!(!seen[prep.sequence_number as usize]);
        seen[prep.sequence_number as usize] = true;
    }
    let wrapped = backend.prepare_check(None);
    assert_eq!(wrapped.sequence_number, 0);
}

#[test]
fn unsupported_port_warns_once_and_still_succeeds() {
    let mut backend = PingUup::new();
    let prep = backend.prepare_check(Some(443));
    assert_eq!(
        prep.port_warning.as_deref(),
        Some("WARNING: Ignoring port assignment; not supported for ping")
    );
    let result = PingUup::complete_check(
        Some(String::from("0.5")),
        prep.sequence_number,
        String::from("10.0.0.1"),
    );
    assert!(result.up);

    let no_port = backend.prepare_check(None);
    assert!(no_port.port_warning.is_none());
}

#[test]
fn reply_yields_up_result() {
    let result = PingUup::complete_check(
        Some(String::from("0.0123")),
        7,
        String::from("10.0.0.1"),
    );
    assert!(result.up);
    assert!(result.context.up);
    assert_eq!(
        result.context.get_context_str(false),
        "Ping 10.0.0.1 responded in 0.0123 s (sequence_number=7)"
    );
}

#[test]
fn timeout_yields_down_result_not_error() {
    let result = PingUup::complete_check(None, 8, String::from("10.0.0.1"));
    assert!(!result.up);
    assert!(!result.context.up);
    assert_eq!(result.context.duration, "-1");
    assert_eq!(
        result.context.get_context_str(false),
        "Ping 10.0.0.1 timed out (sequence_number=8)"
    );
}

#[test]
fn default_backend_name_is_ping() {
    assert_eq!(uup::get_type_default(), "ping");
}
