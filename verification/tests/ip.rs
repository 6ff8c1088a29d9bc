use cloudflare_ddns::errors::DdnsError;
use cloudflare_ddns::ip::{ip_from_text, Ipv4};

fn ip(a: u8, b: u8, c: u8, d: u8) -> Ipv4 {
    Ipv4 { a, b, c, d }
}

#[test]
fn format_simple() {
    assert_eq!(ip(1, 2, 3, 4).format(), "1.2.3.4");
}

#[test]
fn format_all_widths() {
    assert_eq!(ip(0, 10, 100, 255).format(), "0.10.100.255");
    assert_eq!(ip(255, 255, 255, 255).format(), "255.255.255.255");
    assert_eq!(ip(0, 0, 0, 0).format(), "0.0.0.0");
}

#[test]
fn parse_simple() {
    assert_eq!(Ipv4::parse("1.2.3.4"), Some(ip(1, 2, 3, 4)));
    assert_eq!(Ipv4::parse("10.0.0.1"), Some(ip(10, 0, 0, 1)));
    assert_eq!(Ipv4::parse("255.255.255.255"), Some(ip(255, 255, 255, 255)));
}

#[test]
fn parse_rejects_out_of_range_octet() {
    assert_eq!(Ipv4::parse("256.1.1.1"), None);
    assert_eq!(Ipv4::parse("1.1.1.999"), None);
}

#[test]
fn parse_rejects_leading_zeros() {
    assert_eq!(Ipv4::parse("01.2.3.4"), None);
    assert_eq!(Ipv4::parse("1.2.3.04"), None);
    assert_eq!(Ipv4::parse("00.0.0.0"), None);
}

#[test]
fn parse_rejects_wrong_shape() {
    assert_eq!(Ipv4::parse(""), None);
    assert_eq!(Ipv4::parse("1.2.3"), None);
    assert_eq!(Ipv4::parse("1.2.3.4.5"), None);
    assert_eq!(Ipv4::parse("1..2.3"), None);
    assert_eq!(Ipv4::parse("1.2.3."), None);
    assert_eq!(Ipv4::parse(".1.2.3.4"), None);
    assert_eq!(Ipv4::parse("a.b.c.d"), None);
    assert_eq!(Ipv4::parse(" 1.2.3.4"), None);
    assert_eq!(Ipv4::parse("1.2.3.4 "), None);
    assert_eq!(Ipv4::parse("1.2.3.4\n"), None);
    assert_eq!(Ipv4::parse("1234"), None);
}

#[test]
fn parse_format_round_trip() {
    let cases = [
        ip(0, 0, 0, 0),
        ip(1, 2, 3, 4),
        ip(9, 10, 99, 100),
        ip(127, 0, 0, 1),
        ip(203, 0, 113, 7),
        ip(255, 255, 255, 255),
    ];
    for c in cases {
        assert_eq!(Ipv4::parse(&c.format()), Some(c));
    }
}

#[test]
fn ip_from_text_success_and_parse_error() {
    assert_eq!(ip_from_text("93.184.216.34"), Ok(ip(93, 184, 216, 34)));
    assert_eq!(ip_from_text("not an address"), Err(DdnsError::Parse));
    assert_eq!(ip_from_text("2001:db8::1"), Err(DdnsError::Parse));
}
