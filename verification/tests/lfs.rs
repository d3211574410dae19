use hgclient_conf::lfs::{lfs_url, lfs_url_for, lfs_url_from_header};

#[test]
fn lfs_url_over_tls() {
    let u = lfs_url(Some("example.com:8443"), true).unwrap();
    assert!(u.https);
    assert_eq!(u.authority, "example.com:8443");
}

#[test]
fn lfs_url_without_tls() {
    let u = lfs_url(Some("localhost"), false).unwrap();
    assert!(!u.https);
    assert_eq!(u.authority, "localhost");
}

#[test]
fn lfs_url_needs_a_valid_host() {
    assert!(lfs_url(None, true).is_none());
    assert!(lfs_url(Some("not a host"), false).is_none());
    assert!(lfs_url(Some(""), true).is_none());
}

#[test]
fn lfs_url_for_given_validity() {
    let u = lfs_url_for("example.com:8443", true, true).unwrap();
    assert!(u.https);
    assert_eq!(u.authority, "example.com:8443");
    assert!(lfs_url_for("example.com:8443", false, true).is_none());
}

#[test]
fn lfs_url_from_header_bytes() {
    let u = lfs_url_from_header(Some(b"example.com:8443"), true).unwrap();
    assert!(u.https);
    assert_eq!(u.authority, "example.com:8443");
    assert!(lfs_url_from_header(None, true).is_none());
    assert!(lfs_url_from_header(Some(b"caf\xc3\xa9.example"), false).is_none());
    assert!(lfs_url_from_header(Some(b"bad\x7fhost"), false).is_none());
}
