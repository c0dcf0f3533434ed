use did_resolution::did::CoreDid;
use did_resolution::error::Error;

#[test]
fn parses_method_and_identifier() {
    let d = CoreDid::parse("did:example:123456789abcdefghi").unwrap();
    assert_eq!(d.method(), "example");
    assert_eq!(d.method_id(), "123456789abcdefghi");
    assert_eq!(d.as_string(), "did:example:123456789abcdefghi");
}

#[test]
fn identifier_may_hold_colons() {
    let d = CoreDid::parse("did:iota:smr:0xabc").unwrap();
    assert_eq!(d.method(), "iota");
    assert_eq!(d.method_id(), "smr:0xabc");
}

#[test]
fn malformed_dids_are_syntax_errors() {
    for s in ["", "did", "did:", "did:key", "did:key:", "did::x", "did:Key:x", "dad:key:x", "did:key:x:", "did:key:a b"] {
        assert_eq!(CoreDid::parse(s).unwrap_err(), Error::DidSyntaxError, "{}", s);
    }
}

#[test]
fn same_as_compares_method_and_identifier() {
    let a = CoreDid::parse("did:key:1").unwrap();
    assert!(a.same_as(&CoreDid::parse("did:key:1").unwrap()));
    assert!(!a.same_as(&CoreDid::parse("did:key:2").unwrap()));
    assert!(!a.same_as(&CoreDid::parse("did:web:1").unwrap()));
}
