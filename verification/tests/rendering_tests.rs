use uup::context::UupCheckResultContext;

#[test]
fn human_rendering_up() {
    let c = UupCheckResultContext::new(
        true,
        String::from("0.0123"),
        String::from("s"),
        7,
        String::from("10.0.0.1"),
    );
    assert_eq!(
        c.get_context_str(false),
        "Ping 10.0.0.1 responded in 0.0123 s (sequence_number=7)"
    );
}

#[test]
fn human_rendering_down() {
    let c = UupCheckResultContext::new(
        false,
        String::from("-1"),
        String::from("s"),
        8,
        String::from("10.0.0.1"),
    );
    assert_eq!(
        c.get_context_str(false),
        "Ping 10.0.0.1 timed out (sequence_number=8)"
    );
}

#[test]
fn json_rendering_up() {
    let c = UupCheckResultContext::new(
        true,
        String::from("0.0123"),
        String::from("s"),
        7,
        String::from("10.0.0.1"),
    );
    assert_eq!(
        c.get_context_str(true),
        "{\"address\":\"10.0.0.1\",\"duration\":0.0123,\"sequence_number\":7,\"unit\":\"s\",\"up\":true}"
    );
}

#[test]
fn json_rendering_down() {
    let c = UupCheckResultContext::new(
        false,
        String::from("-1"),
        String::from("s"),
        0,
        String::from("::1"),
    );
    assert_eq!(
        c.get_context_str(true),
        "{\"address\":\"::1\",\"duration\":-1,\"sequence_number\":0,\"unit\":\"s\",\"up\":false}"
    );
}

#[test]
fn json_rendering_escapes_address() {
    let c = UupCheckResultContext::new(
        false,
        String::from("-1"),
        String::from("s"),
        1,
        String::from("a\"b\\c\nd\u{1}e"),
    );
    assert_eq!(
        c.get_context_str(true),
        "{\"address\":\"a\\\"b\\\\c\\nd\\u0001e\",\"duration\":-1,\"sequence_number\":1,\"unit\":\"s\",\"up\":false}"
    );
}

#[test]
fn decimal_rendering_extremes() {
    let c = UupCheckResultContext::new(
        false,
        String::from("-1"),
        String::from("s"),
        65535,
        String::from("10.0.0.1"),
    );
    assert_eq!(
        c.get_context_str(false),
        "Ping 10.0.0.1 timed out (sequence_number=65535)"
    );
    let c0 = UupCheckResultContext::new(
        false,
        String::from("-1"),
        String::from("s"),
        10,
        String::from("10.0.0.1"),
    );
    assert_eq!(
        c0.get_context_str(false),
        "Ping 10.0.0.1 timed out (sequence_number=10)"
    );
}
