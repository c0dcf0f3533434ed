use did_resolution::error::Error;
use did_resolution::presentation::{
    extract_credential_issuer, extract_presentation_holder, extract_presentation_issuers,
    validation_outcome, Credential, Presentation,
};
use did_resolution::registry::Resolver;
use std::cell::Cell;

/// A resolver that answers from a fixed table of DID documents, here a key per DID, and
/// counts its calls.
struct TableResolver {
    table: Vec<(String, String)>,
    calls: Cell<usize>,
}

impl TableResolver {
    fn new(table: &[(&str, &str)]) -> TableResolver {
        TableResolver {
            table: table.iter().map(|(d, k)| (d.to_string(), k.to_string())).collect(),
            calls: Cell::new(0),
        }
    }

    fn resolve(&self, did: &str) -> Result<String, String> {
        self.calls.set(self.calls.get() + 1);
        self.table.iter().find(|(d, _)| d == did).map(|(_, k)| k.clone()).ok_or_else(|| "not found".to_string())
    }
}

fn presentation(holder: &str, issuers: &[&str]) -> Presentation {
    Presentation {
        holder: Some(holder.to_string()),
        verifiable_credential: issuers.iter().map(|i| Credential { issuer: Some(i.to_string()) }).collect(),
    }
}

/// Stands for the validation primitive: the holder's key must sign the presentation and
/// each issuer's key its credential.
fn validate(holder_key: &str, issuer_keys: &[String], proof_key: &str, credential_key: &str, calls: &Cell<usize>) -> Result<(), Vec<String>> {
    calls.set(calls.get() + 1);
    let mut failures = Vec::new();
    if holder_key != proof_key {
        failures.push("presentation proof".to_string());
    }
    if issuer_keys.iter().any(|k| k != credential_key) {
        failures.push("credential proof".to_string());
    }
    if failures.is_empty() { Ok(()) } else { Err(failures) }
}

/// Runs the whole verification with nothing supplied: plan, resolve, validate.
fn verify_end_to_end(reg: &Resolver<TableResolver>, p: &Presentation, proof_key: &str, credential_key: &str, validations: &Cell<usize>) -> Result<(), Error> {
    let plan = reg.plan_presentation(p, false, false)?;
    let h = plan.holder.unwrap();
    let holder_key = h.settle(reg.delegate(h.delegate).resolve(&h.did.as_string()))?;
    let mut issuer_keys = Vec::new();
    for t in plan.issuers.unwrap() {
        issuer_keys.push(t.settle(reg.delegate(t.delegate).resolve(&t.did.as_string()))?);
    }
    validation_outcome(validate(&holder_key, &issuer_keys, proof_key, credential_key, validations))
}

fn example_and_key(holder_key: &str) -> Resolver<TableResolver> {
    let mut reg = Resolver::new();
    reg.register_method("example".to_string(), TableResolver::new(&[("did:example:1", holder_key)])).unwrap();
    reg.register_method("key".to_string(), TableResolver::new(&[("did:key:2", "issuer-key")])).unwrap();
    reg
}

#[test]
fn supplied_documents_need_no_resolver() {
    let reg = example_and_key("holder-key");
    let p = presentation("did:example:1", &["did:key:2"]);
    let plan = reg.plan_presentation(&p, true, true).unwrap();
    assert!(plan.holder.is_none());
    assert!(plan.issuers.is_none());
    assert_eq!(reg.delegate(0).calls.get(), 0);
    assert_eq!(reg.delegate(1).calls.get(), 0);
    let nothing: Resolver<TableResolver> = Resolver::new();
    assert!(nothing.plan_presentation(&presentation("bad", &["bad"]), true, true).is_ok());
}

#[test]
fn one_side_supplied_plans_the_other() {
    let reg = example_and_key("holder-key");
    let p = presentation("did:example:1", &["did:key:2"]);
    let plan = reg.plan_presentation(&p, true, false).unwrap();
    assert!(plan.holder.is_none());
    assert_eq!(plan.issuers.unwrap().len(), 1);
    let plan = reg.plan_presentation(&p, false, true).unwrap();
    assert_eq!(plan.holder.unwrap().delegate, 0);
    assert!(plan.issuers.is_none());
}

#[test]
fn no_credentials_no_issuers() {
    let p = presentation("did:example:1", &[]);
    assert!(extract_presentation_issuers(&p).unwrap().is_empty());
    let reg = example_and_key("holder-key");
    assert!(reg.plan_presentation_issuers(&p).unwrap().is_empty());
}

#[test]
fn issuers_are_deduplicated() {
    let p = presentation("did:example:1", &["did:key:2", "did:example:9", "did:key:2"]);
    let v = extract_presentation_issuers(&p).unwrap();
    let texts: Vec<String> = v.iter().map(|d| d.as_string()).collect();
    assert_eq!(texts, vec!["did:key:2", "did:example:9"]);
}

#[test]
fn extraction_failures() {
    assert_eq!(extract_credential_issuer(&Credential { issuer: None }).unwrap_err(), Error::MissingOrMalformedIssuer);
    assert_eq!(extract_credential_issuer(&Credential { issuer: Some("x".to_string()) }).unwrap_err(), Error::MissingOrMalformedIssuer);
    let p = Presentation { holder: None, verifiable_credential: Vec::new() };
    assert_eq!(extract_presentation_holder(&p).unwrap_err(), Error::MissingOrMalformedHolder);
    assert_eq!(extract_presentation_issuers(&presentation("did:example:1", &["did:key:2", "oops"])).unwrap_err(), Error::MissingOrMalformedIssuer);
    let reg = example_and_key("k");
    assert_eq!(reg.plan_presentation(&p, false, false).unwrap_err(), Error::MissingOrMalformedHolder);
    assert_eq!(reg.plan_credential_issuer(&Credential { issuer: Some("did:web:x".to_string()) }).unwrap_err(), Error::UnsupportedMethod);
    assert_eq!(reg.plan_credential_issuer(&Credential { issuer: Some("did:key:2".to_string()) }).unwrap().delegate, 1);
}

#[test]
fn end_to_end_succeeds_with_matching_keys() {
    let reg = example_and_key("holder-key");
    let p = presentation("did:example:1", &["did:key:2"]);
    let validations = Cell::new(0);
    assert_eq!(verify_end_to_end(&reg, &p, "holder-key", "issuer-key", &validations), Ok(()));
    assert_eq!(validations.get(), 1);
}

#[test]
fn end_to_end_fails_validation_on_holder_key_mismatch() {
    let reg = example_and_key("another-key");
    let p = presentation("did:example:1", &["did:key:2"]);
    let validations = Cell::new(0);
    assert_eq!(
        verify_end_to_end(&reg, &p, "holder-key", "issuer-key", &validations),
        Err(Error::ValidationFailed { details: vec!["presentation proof".to_string()] })
    );
}

#[test]
fn unregistered_issuer_method_fails_before_validation() {
    let mut reg = Resolver::new();
    reg.register_method("example".to_string(), TableResolver::new(&[("did:example:1", "holder-key")])).unwrap();
    let p = presentation("did:example:1", &["did:key:2"]);
    let validations = Cell::new(0);
    assert_eq!(verify_end_to_end(&reg, &p, "holder-key", "issuer-key", &validations), Err(Error::UnsupportedIssuerMethod));
    assert_eq!(validations.get(), 0);
    assert_eq!(reg.delegate(0).calls.get(), 0);
}

#[test]
fn resolution_failure_pre_empts_validation() {
    let mut reg = Resolver::new();
    reg.register_method("example".to_string(), TableResolver::new(&[])).unwrap();
    reg.register_method("key".to_string(), TableResolver::new(&[("did:key:2", "issuer-key")])).unwrap();
    let p = presentation("did:example:1", &["did:key:2"]);
    let validations = Cell::new(0);
    assert_eq!(
        verify_end_to_end(&reg, &p, "holder-key", "issuer-key", &validations),
        Err(Error::ResolutionFailed { method: "example".to_string(), cause: "not found".to_string() })
    );
    assert_eq!(validations.get(), 0);
}
