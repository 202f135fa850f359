use uup::ipv4::is_ipv4_address;

#[test]
fn test_is_ipv4_address() {
    for _ in 0..100 {
        let ipv4_addr = format!(
            "{}.{}.{}.{}",
            rand::random::<u8>(),
            rand::random::<u8>(),
            rand::random::<u8>(),
            rand::random::<u8>()
        );
        assert!(is_ipv4_address(&ipv4_addr))
    }

    assert!(!is_ipv4_address("-192.168.1.1"));
    assert!(!is_ipv4_address("192.168.1.1d"));
    assert!(!is_ipv4_address("192.168.1"));
    assert!(!is_ipv4_address("not even close"));
}

#[test]
fn ipv4_bounds_and_zeroes() {
    assert!(is_ipv4_address("0.0.0.0"));
    assert!(is_ipv4_address("255.255.255.255"));
    assert!(is_ipv4_address("10.0.0.1"));
    assert!(!is_ipv4_address("256.1.1.1"));
    assert!(!is_ipv4_address("1.2.3.256"));
    assert!(!is_ipv4_address("01.2.3.4"));
    assert!(!is_ipv4_address("1.2.3.04"));
    assert!(!is_ipv4_address("1.2.3.4.5"));
    assert!(!is_ipv4_address("1..2.3"));
    assert!(!is_ipv4_address(".1.2.3"));
    assert!(!is_ipv4_address("1.2.3."));
    assert!(!is_ipv4_address(""));
    assert!(!is_ipv4_address("1234.1.1.1"));
}
