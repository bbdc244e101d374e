use relay_utils::host::{classify_host, HostKind};

#[test]
fn classifies_dotted_quads() {
    assert_eq!(classify_host("127.0.0.1"), Some(HostKind::V4));
    assert_eq!(classify_host("0.0.0.0"), Some(HostKind::V4));
    assert_eq!(classify_host("255.255.255.255"), Some(HostKind::V4));
    assert_eq!(classify_host("10.0.200.3"), Some(HostKind::V4));
}

#[test]
fn rejects_bad_dotted_quads() {
    assert_eq!(classify_host(""), None);
    assert_eq!(classify_host("256.0.0.1"), None);
    assert_eq!(classify_host("01.2.3.4"), None);
    assert_eq!(classify_host("1.2.3"), None);
    assert_eq!(classify_host("1.2.3.4.5"), None);
    assert_eq!(classify_host("1..2.3"), None);
    assert_eq!(classify_host("1.2.3.4."), None);
    assert_eq!(classify_host(".1.2.3.4"), None);
    assert_eq!(classify_host("1.2.3.1000"), None);
    assert_eq!(classify_host("localhost"), None);
    assert_eq!(classify_host("not-an-ip"), None);
}

#[test]
fn classifies_colon_groups() {
    assert_eq!(classify_host("::"), Some(HostKind::V6));
    assert_eq!(classify_host("::1"), Some(HostKind::V6));
    assert_eq!(classify_host("fe80::"), Some(HostKind::V6));
    assert_eq!(classify_host("2001:db8::8a2e:370:7334"), Some(HostKind::V6));
    assert_eq!(classify_host("1:2:3:4:5:6:7:8"), Some(HostKind::V6));
    assert_eq!(classify_host("0:0:0:0:0:0:0:1"), Some(HostKind::V6));
    assert_eq!(classify_host("ABCD:ef01:2345:6789:abcd:EF01:2345:6789"), Some(HostKind::V6));
}

#[test]
fn classifies_colon_groups_with_embedded_dotted_quads() {
    assert_eq!(classify_host("::ffff:127.0.0.1"), Some(HostKind::V6));
    assert_eq!(classify_host("::ffff:1.2.3.4"), Some(HostKind::V6));
    assert_eq!(classify_host("::1.2.3.4"), Some(HostKind::V6));
    assert_eq!(classify_host("::0.0.0.0"), Some(HostKind::V6));
    assert_eq!(classify_host("1:2:3:4:5:6:1.2.3.4"), Some(HostKind::V6));
    assert_eq!(classify_host("1:2:3:4:5:6:255.255.255.255"), Some(HostKind::V6));
    assert_eq!(classify_host("1::2.3.4.5"), Some(HostKind::V6));
    assert_eq!(classify_host("1:2:3:4:5::6.7.8.9"), Some(HostKind::V6));
}

#[test]
fn rejects_bad_embedded_dotted_quads() {
    assert_eq!(classify_host("1:2:3:4:5:6:7:1.2.3.4"), None);
    assert_eq!(classify_host("1:2:3:4:5:6::7.8.9.1"), None);
    assert_eq!(classify_host("1:2:3:4:5:1.2.3.4"), None);
    assert_eq!(classify_host("::ffff:1.2.3"), None);
    assert_eq!(classify_host("::ffff:1.2.3.4.5"), None);
    assert_eq!(classify_host("::ffff:01.2.3.4"), None);
    assert_eq!(classify_host("::ffff:1.02.3.4"), None);
    assert_eq!(classify_host("::ffff:1.2.3.400"), None);
    assert_eq!(classify_host("::ffff:1.2.3.4."), None);
    assert_eq!(classify_host("::ffff:1.2.3.4:5"), None);
    assert_eq!(classify_host("::ffff:a.2.3.4"), None);
    assert_eq!(classify_host("1.2.3.4::"), None);
}

#[test]
fn rejects_bad_colon_groups() {
    assert_eq!(classify_host(":"), None);
    assert_eq!(classify_host(":::"), None);
    assert_eq!(classify_host(":1:2:3:4:5:6:7"), None);
    assert_eq!(classify_host("1:2:3:4:5:6:7"), None);
    assert_eq!(classify_host("1:2:3:4:5:6:7:8:9"), None);
    assert_eq!(classify_host("1::2::3"), None);
    assert_eq!(classify_host("1:2:3:4:5:6:7:8::"), None);
    assert_eq!(classify_host("1:2:3:4:5:6:7:"), None);
    assert_eq!(classify_host("12345::"), None);
    assert_eq!(classify_host("g::1"), None);
}
