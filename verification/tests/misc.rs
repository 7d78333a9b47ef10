use toki::realip::{real_ip_from, IpConnectInfo};
use toki::{not_found_error, now};

#[test]
fn now_is_monotonic_enough() {
    let a = now();
    let b = now();
    assert!(a <= b);
}

#[test]
fn not_found_is_always_an_error() {
    assert!(not_found_error().is_err());
}

#[test]
fn real_ip_prefers_the_header() {
    let conn = IpConnectInfo { ip: "10.0.0.1".to_string(), port: 443 };
    let r = real_ip_from(Some("203.0.113.9".to_string()), &conn);
    assert_eq!(r.0, "203.0.113.9");
}

#[test]
fn real_ip_falls_back_to_the_connection() {
    let conn = IpConnectInfo { ip: "10.0.0.1".to_string(), port: 443 };
    let r = real_ip_from(None, &conn);
    assert_eq!(r.0, "10.0.0.1");
}
