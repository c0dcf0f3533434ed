use did_resolution::error::Error;
use did_resolution::registry::{InteroperableResolver, Resolver, Sealed};

fn two_methods() -> Resolver<u32> {
    let mut reg: Resolver<u32> = Resolver::new();
    reg.register_method("example".to_string(), 10).unwrap();
    reg.register_method("key".to_string(), 20).unwrap();
    reg
}

#[test]
fn registered_method_dispatches_to_its_resolver() {
    let reg = two_methods();
    let t = reg.route("did:key:z6Mkf").unwrap();
    assert_eq!(*reg.delegate(t.delegate), 20);
    assert_eq!(t.did.method_id(), "z6Mkf");
    let t = reg.route("did:example:1").unwrap();
    assert_eq!(*reg.delegate(t.delegate), 10);
}

#[test]
fn unregistered_method_is_unsupported() {
    let reg = two_methods();
    assert_eq!(reg.route("did:web:example.com").unwrap_err(), Error::UnsupportedMethod);
    assert_eq!(reg.route("did:web:a:b%20c").unwrap_err(), Error::UnsupportedMethod);
    let empty: Resolver<u32> = Resolver::new();
    assert_eq!(empty.route("did:key:1").unwrap_err(), Error::UnsupportedMethod);
}

#[test]
fn malformed_did_is_a_syntax_error() {
    let reg = two_methods();
    assert_eq!(reg.route("key:1").unwrap_err(), Error::DidSyntaxError);
}

#[test]
fn duplicate_registration_is_refused() {
    let mut reg = two_methods();
    assert_eq!(reg.register_method("key".to_string(), 30), Err(Error::DuplicateMethod));
    assert_eq!(reg.len(), 2);
    let t = reg.route("did:key:1").unwrap();
    assert_eq!(*reg.delegate(t.delegate), 20);
}

#[test]
fn batch_fetches_a_repeated_did_once() {
    let reg = two_methods();
    let dids = vec!["did:key:a".to_string(), "did:example:1".to_string(), "did:key:a".to_string()];
    let b = reg.plan_batch(&dids).unwrap();
    assert_eq!(b.fetches.len(), 2);
    assert_eq!(b.positions, vec![0, 1, 0]);
    assert_eq!(b.fetches[0].did.as_string(), "did:key:a");
    assert_eq!(*reg.delegate(b.fetches[1].delegate), 10);
    let docs = vec!["doc-a".to_string(), "doc-1".to_string()];
    assert_eq!(b.fan_out(&docs), vec!["doc-a", "doc-1", "doc-a"]);
}

#[test]
fn empty_batch_fetches_nothing() {
    let reg = two_methods();
    let b = reg.plan_batch(&Vec::new()).unwrap();
    assert!(b.fetches.is_empty());
    assert!(b.positions.is_empty());
}

#[test]
fn batch_fails_on_first_unresolvable_did() {
    let reg = two_methods();
    let dids = vec!["did:key:a".to_string(), "did:web:x".to_string(), "bad".to_string()];
    assert_eq!(reg.plan_batch(&dids).unwrap_err(), Error::UnsupportedMethod);
    let dids = vec!["bad".to_string(), "did:web:x".to_string()];
    assert_eq!(reg.plan_batch(&dids).unwrap_err(), Error::DidSyntaxError);
}

#[test]
fn resolver_failure_names_the_method() {
    let reg = two_methods();
    let t = reg.route("did:key:a").unwrap();
    assert_eq!(t.settle::<u8>(Ok(7)), Ok(7));
    assert_eq!(
        t.settle::<u8>(Err("timeout".to_string())),
        Err(Error::ResolutionFailed { method: "key".to_string(), cause: "timeout".to_string() })
    );
}

struct Named(&'static str, u32);

impl Sealed for Named {}

impl InteroperableResolver for Named {
    fn method(&self) -> String {
        self.0.to_string()
    }
}

#[test]
fn register_keys_by_reported_method() {
    let mut reg: Resolver<Named> = Resolver::new();
    reg.register(Named("key", 1)).unwrap();
    assert_eq!(reg.register(Named("key", 2)), Err(Error::DuplicateMethod));
    assert_eq!(reg.len(), 1);
    let t = reg.route("did:key:abc").unwrap();
    assert_eq!(reg.delegate(t.delegate).1, 1);
    assert_eq!(reg.route("did:example:abc").unwrap_err(), Error::UnsupportedMethod);
}
