use crate::error::Error;
use jsonprooftoken::jwp::header::PresentationProtectedHeader;
use jsonprooftoken::jwp::issued::JwpIssued;
use jsonprooftoken::jwp::presented::JwpPresentedBuilder;
use vstd::prelude::*;
use vstd::string::*;

verus! {

#[verifier::external_type_specification]
#[verifier::external_body]
pub struct ExJwpIssued(JwpIssued);

#[verifier::external_type_specification]
#[verifier::external_body]
pub struct ExJwpPresentedBuilder(JwpPresentedBuilder);

#[verifier::external_type_specification]
#[verifier::external_body]
pub struct ExPresentationProtectedHeader(PresentationProtectedHeader);

/// Relies on `JwpPresentedBuilder::new`: a presentation builder over the claims, payloads
/// and proof of an issued JWP.
pub assume_specification[ JwpPresentedBuilder::new ](issued_jwp: &JwpIssued) -> JwpPresentedBuilder;

/// Relies on `JwpPresentedBuilder::set_undisclosed`: marks the payload of the claim named
/// `claim` undisclosed, and fails when the issuer header lists no such claim.
#[verifier::external_body]
fn set_undisclosed(builder: &mut JwpPresentedBuilder, claim: &str) -> (r: bool) {
    builder.set_undisclosed(claim).is_ok()
}

/// Relies on `JwpPresentedBuilder::set_presentation_protected_header`: stores the header.
#[verifier::external_body]
fn set_presentation_protected_header(
    builder: &mut JwpPresentedBuilder,
    header: PresentationProtectedHeader,
) {
    builder.set_presentation_protected_header(header);
}

/// The prefix of the claims inside the credential subject.
pub open spec fn subject_prefix() -> Seq<char> {
    "vc.credentialSubject."@
}

/// The prefix of the claims inside the evidence.
pub open spec fn evidence_prefix() -> Seq<char> {
    "vc.evidence."@
}

/// The claims that a new presentation conceals, in the order they are concealed: those
/// that identify the credential or make presentations linkable.
pub open spec fn default_concealed() -> Seq<Seq<char>> {
    seq![
        "jti"@,
        "issuanceDate"@,
        "nbf"@,
        "expirationDate"@,
        "exp"@,
        "termsOfUse"@,
        "vc.credentialStatus.revocationBitmapIndex"@,
        "vc.credentialSubject.id"@,
        "sub"@,
    ]
}

/// A presentation under construction from an issued JSON web proof, in which chosen
/// claims are concealed.
pub struct SelectiveDisclosurePresentation {
    jwp_builder: JwpPresentedBuilder,
    concealed: Ghost<Seq<Seq<char>>>,
}

/// The claim path `prefix` followed by `path`.
fn claim_path(prefix: &str, path: &str) -> (r: String)
    ensures
        r@ == prefix@ + path@,
{
    String::from_str(prefix).concat(path)
}

impl SelectiveDisclosurePresentation {
    /// The claims handed to the builder to be concealed, in order.
    pub closed spec fn concealed(&self) -> Seq<Seq<char>> {
        self.concealed@
    }

    /// Starts a presentation from an issued JWP, with the claims of `default_concealed`
    /// concealed.
    pub fn new(issued_jwp: &JwpIssued) -> (r: SelectiveDisclosurePresentation)
        ensures
            r.concealed() == default_concealed(),
    {
        let mut jwp_builder = JwpPresentedBuilder::new(issued_jwp);
        set_undisclosed(&mut jwp_builder, "jti");
        set_undisclosed(&mut jwp_builder, "issuanceDate");
        set_undisclosed(&mut jwp_builder, "nbf");
        set_undisclosed(&mut jwp_builder, "expirationDate");
        set_undisclosed(&mut jwp_builder, "exp");
        set_undisclosed(&mut jwp_builder, "termsOfUse");
        set_undisclosed(&mut jwp_builder, "vc.credentialStatus.revocationBitmapIndex");
        set_undisclosed(&mut jwp_builder, "vc.credentialSubject.id");
        set_undisclosed(&mut jwp_builder, "sub");
        SelectiveDisclosurePresentation { jwp_builder, concealed: Ghost(default_concealed()) }
    }

    /// Conceals the claim at `path` inside the credential subject (`degree.name`,
    /// `mainCourses[1]`). A path that the credential does not have is passed over.
    pub fn conceal_in_subject(&mut self, path: &str) -> (r: Result<(), Error>)
        ensures
            r is Ok,
            final(self).concealed() == old(self).concealed().push(subject_prefix() + path@),
    {
        let claim = claim_path("vc.credentialSubject.", path);
        set_undisclosed(&mut self.jwp_builder, claim.as_str());
        proof {
            reveal_strlit("vc.credentialSubject.");
        }
        self.concealed = Ghost(self.concealed@.push(claim@));
        Ok(())
    }

    /// Conceals the claim at `path` inside the evidence. A path that the credential does
    /// not have is passed over.
    pub fn conceal_in_evidence(&mut self, path: &str) -> (r: Result<(), Error>)
        ensures
            r is Ok,
            final(self).concealed() == old(self).concealed().push(evidence_prefix() + path@),
    {
        let claim = claim_path("vc.evidence.", path);
        set_undisclosed(&mut self.jwp_builder, claim.as_str());
        proof {
            reveal_strlit("vc.evidence.");
        }
        self.concealed = Ghost(self.concealed@.push(claim@));
        Ok(())
    }

    /// Sets the protected header of the presentation.
    pub fn set_presentation_header(&mut self, ph: PresentationProtectedHeader)
        ensures
            final(self).concealed() == old(self).concealed(),
    {
        set_presentation_protected_header(&mut self.jwp_builder, ph);
    }

    /// The builder, with the concealed claims marked.
    pub fn builder(&self) -> &JwpPresentedBuilder {
        &self.jwp_builder
    }
}

} // verus!
