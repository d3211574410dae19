use hgclient_conf::revision::decode_revision;

#[test]
fn decodes_percent_escapes() {
    assert_eq!(decode_revision("abc%20def"), "abc def");
    assert_eq!(decode_revision("%41%62"), "Ab");
    assert_eq!(decode_revision("master%2Fbranch"), "master/branch");
}

#[test]
fn keeps_incomplete_escapes() {
    assert_eq!(decode_revision("100%"), "100%");
    assert_eq!(decode_revision("%G1x"), "%G1x");
    assert_eq!(decode_revision("%4"), "%4");
    assert_eq!(decode_revision(""), "");
}

#[test]
fn decodes_utf8_lossily() {
    assert_eq!(decode_revision("%C3%A9t%C3%A9"), "été");
    assert_eq!(decode_revision("a%FFb"), "a\u{FFFD}b");
}
