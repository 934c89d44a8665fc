use masterserver::ipv4::parse_ipv4;

#[test]
fn accepts_dotted_quads() {
    assert_eq!(parse_ipv4("127.0.0.1"), Some((127, 0, 0, 1)));
    assert_eq!(parse_ipv4("0.0.0.0"), Some((0, 0, 0, 0)));
    assert_eq!(parse_ipv4("255.255.255.255"), Some((255, 255, 255, 255)));
    assert_eq!(parse_ipv4("10.20.30.40"), Some((10, 20, 30, 40)));
}

#[test]
fn rejects_what_std_rejects() {
    for s in [
        "", "1.2.3", "1.2.3.4.5", "256.1.1.1", "1.2.3.999", "01.2.3.4", "1.2.3.04", "1..3.4",
        ".1.2.3", "1.2.3.", "1.2.3.4 ", " 1.2.3.4", "a.b.c.d", "1.2.3.-4", "1234.1.1.1",
        "::1", "1.2.3.4:80", "१.2.3.4",
    ] {
        assert_eq!(parse_ipv4(s), None, "{:?}", s);
    }
}

#[test]
fn reads_each_octet() {
    assert_eq!(parse_ipv4("192.168.1.1"), Some((192, 168, 1, 1)));
    assert_eq!(parse_ipv4("9.99.199.249"), Some((9, 99, 199, 249)));
    assert_eq!(parse_ipv4("100.64.0.0"), Some((100, 64, 0, 0)));
}
