use crate::did::{did_id_of, did_method_of, is_did, CoreDid};
use crate::error::Error;
use crate::registry::{Resolver, Route};
use vstd::prelude::*;

verus! {

/// What the verification reads of a credential: its issuer, if it names one.
#[derive(Debug, Clone)]
pub struct Credential {
    pub issuer: Option<String>,
}

/// What the verification reads of a presentation: its holder, if it names one, and the
/// credentials embedded in it.
#[derive(Debug, Clone)]
pub struct Presentation {
    pub holder: Option<String>,
    pub verifiable_credential: Vec<Credential>,
}

/// The method and identifier of the DID string `s`.
pub open spec fn did_view_of(s: Seq<char>) -> (Seq<char>, Seq<char>) {
    (did_method_of(s), did_id_of(s))
}

/// The field `f` holds a DID.
pub open spec fn names_did(f: Option<String>) -> bool {
    f matches Some(s) && is_did(s@)
}

/// The DID that the issuer of `c` names.
pub open spec fn issuer_did(c: Credential) -> (Seq<char>, Seq<char>) {
    did_view_of(c.issuer->Some_0@)
}

/// The issuer of `c` is a DID.
pub open spec fn issuer_named(c: Credential) -> bool {
    names_did(c.issuer)
}

pub open spec fn all_issuers_named(creds: Seq<Credential>) -> bool {
    forall|k: int| 0 <= k < creds.len() ==> #[trigger] issuer_named(creds[k])
}

/// The issuers of the first `n` credentials of `creds`.
pub open spec fn issuers_upto(creds: Seq<Credential>, n: int) -> Set<(Seq<char>, Seq<char>)> {
    Set::new(|x: (Seq<char>, Seq<char>)| exists|k: int| 0 <= k < n && issuer_did(creds[k]) == x)
}

/// The issuers of the credentials `creds`, as a set.
pub open spec fn issuer_set(creds: Seq<Credential>) -> Set<(Seq<char>, Seq<char>)> {
    issuers_upto(creds, creds.len() as int)
}

/// The DIDs in `v`, as a set.
pub open spec fn did_set(v: Seq<CoreDid>) -> Set<(Seq<char>, Seq<char>)> {
    Set::new(|x: (Seq<char>, Seq<char>)| exists|i: int| 0 <= i < v.len() && v[i].view() == x)
}

/// No DID stands twice in `v`.
pub open spec fn distinct_dids(v: Seq<CoreDid>) -> bool {
    forall|i: int, j: int| 0 <= i < j < v.len() ==> v[i].view() != v[j].view()
}

/// The DIDs that the routes `v` fetch.
pub open spec fn route_dids(v: Seq<Route>) -> Seq<CoreDid> {
    v.map_values(|t: Route| t.did)
}

/// What must be fetched before a presentation can be validated: the holder's document
/// unless it was supplied, and the issuers' documents unless they were supplied.
#[derive(Debug, Clone)]
pub struct PresentationPlan {
    pub holder: Option<Route>,
    pub issuers: Option<Vec<Route>>,
}

/// The DID that the issuer field of a credential names.
pub fn extract_credential_issuer(credential: &Credential) -> (r: Result<CoreDid, Error>)
    ensures
        match r {
            Ok(d) => names_did(credential.issuer) && d.view() == issuer_did(*credential),
            Err(e) => !names_did(credential.issuer) && e == Error::MissingOrMalformedIssuer,
        },
{
    match &credential.issuer {
        Some(s) => match CoreDid::parse(s.as_str()) {
            Ok(d) => Ok(d),
            Err(_) => Err(Error::MissingOrMalformedIssuer),
        },
        None => Err(Error::MissingOrMalformedIssuer),
    }
}

/// The DID that the holder field of a presentation names.
pub fn extract_presentation_holder(presentation: &Presentation) -> (r: Result<CoreDid, Error>)
    ensures
        match r {
            Ok(d) => names_did(presentation.holder) && d.view() == did_view_of(
                presentation.holder->Some_0@,
            ),
            Err(e) => !names_did(presentation.holder) && e == Error::MissingOrMalformedHolder,
        },
{
    match &presentation.holder {
        Some(s) => match CoreDid::parse(s.as_str()) {
            Ok(d) => Ok(d),
            Err(_) => Err(Error::MissingOrMalformedHolder),
        },
        None => Err(Error::MissingOrMalformedHolder),
    }
}

/// The issuers of the credentials embedded in a presentation, each once, in the order of
/// their first appearance. No credential gives an empty list.
pub fn extract_presentation_issuers(presentation: &Presentation) -> (r: Result<Vec<CoreDid>, Error>)
    ensures
        match r {
            Ok(v) => all_issuers_named(presentation.verifiable_credential@) && distinct_dids(v@)
                && did_set(v@) == issuer_set(presentation.verifiable_credential@),
            Err(e) => !all_issuers_named(presentation.verifiable_credential@) && e
                == Error::MissingOrMalformedIssuer,
        },
{
    let creds = &presentation.verifiable_credential;
    let mut out: Vec<CoreDid> = Vec::new();
    let mut k: usize = 0;
    while k < creds.len()
        invariant
            creds@ == presentation.verifiable_credential@,
            k <= creds@.len(),
            forall|j: int| 0 <= j < k ==> #[trigger] issuer_named(creds@[j]),
            distinct_dids(out@),
            did_set(out@) == issuers_upto(creds@, k as int),
        decreases creds@.len() - k,
    {
        let d = match extract_credential_issuer(&creds[k]) {
            Ok(d) => d,
            Err(e) => {
                assert(!issuer_named(creds@[k as int]));
                return Err(e);
            },
        };
        let mut f: usize = 0;
        while f < out.len() && !out[f].same_as(&d)
            invariant
                f <= out@.len(),
                forall|i: int| 0 <= i < f ==> out@[i].view() != d.view(),
            decreases out@.len() - f,
        {
            f = f + 1;
        }
        let ghost old_out = out@;
        if f == out.len() {
            out.push(d);
        }
        proof {
            let x = issuer_did(creds@[k as int]);
            assert(d.view() == x);
            assert(did_set(out@) =~= issuers_upto(creds@, k + 1)) by {
                assert forall|y: (Seq<char>, Seq<char>)|
                    did_set(out@).contains(y) implies #[trigger] issuers_upto(
                    creds@,
                    k + 1,
                ).contains(y) by {
                    let i = choose|i: int| 0 <= i < out@.len() && out@[i].view() == y;
                    if i < old_out.len() {
                        assert(did_set(old_out).contains(y));
                        assert(issuers_upto(creds@, k as int).contains(y));
                        let j = choose|j: int| 0 <= j < k && issuer_did(creds@[j]) == y;
                    } else {
                        assert(issuer_did(creds@[k as int]) == y);
                    }
                }
                assert forall|y: (Seq<char>, Seq<char>)|
                    issuers_upto(creds@, k + 1).contains(y) implies #[trigger] did_set(
                    out@,
                ).contains(y) by {
                    let j = choose|j: int| 0 <= j < k + 1 && issuer_did(creds@[j]) == y;
                    if j < k {
                        assert(issuers_upto(creds@, k as int).contains(y));
                        assert(did_set(old_out).contains(y));
                        let i = choose|i: int| 0 <= i < old_out.len() && old_out[i].view() == y;
                        assert(out@[i].view() == y);
                    } else if f < old_out.len() {
                        assert(out@[f as int].view() == y);
                    } else {
                        assert(out@[f as int].view() == y);
                    }
                }
            }
        }
        k = k + 1;
    }
    proof {
        assert(issuers_upto(creds@, k as int) == issuer_set(creds@));
    }
    Ok(out)
}

/// The result of a validation, as a verification outcome: its failures, if any, become
/// `ValidationFailed` unchanged.
pub fn validation_outcome(outcome: Result<(), Vec<String>>) -> (r: Result<(), Error>)
    ensures
        match outcome {
            Ok(()) => r is Ok,
            Err(details) => r == Err::<(), Error>(Error::ValidationFailed { details }),
        },
{
    match outcome {
        Ok(()) => Ok(()),
        Err(details) => Err(Error::ValidationFailed { details }),
    }
}

/// A presentation with no embedded credential has no issuer to extract.
pub proof fn lemma_no_credentials_no_issuers(v: Seq<CoreDid>)
    requires
        did_set(v) == issuer_set(Seq::<Credential>::empty()),
    ensures
        v.len() == 0,
{
    if v.len() > 0 {
        assert(did_set(v).contains(v[0].view()));
    }
}

impl<R> Resolver<R> {
    /// Why the DID in the field `f` cannot be resolved, if it cannot: `missing` where the
    /// field holds no DID, else the failure of its dispatch.
    pub open spec fn field_error(&self, f: Option<String>, missing: Error) -> Option<Error> {
        if !names_did(f) {
            Some(missing)
        } else {
            match self.dispatch(f->Some_0@) {
                Ok(_) => None,
                Err(e) => Some(e),
            }
        }
    }

    /// Why the holder of `p` cannot be resolved, if it cannot.
    pub open spec fn holder_error(&self, p: Presentation) -> Option<Error> {
        self.field_error(p.holder, Error::MissingOrMalformedHolder)
    }

    /// Why the issuers of the credentials `creds` cannot be resolved, if they cannot. All
    /// issuers are extracted before any method is looked up.
    pub open spec fn issuers_error(&self, creds: Seq<Credential>) -> Option<Error> {
        if !all_issuers_named(creds) {
            Some(Error::MissingOrMalformedIssuer)
        } else if exists|k: int|
            0 <= k < creds.len() && !self.has_method(#[trigger] issuer_did(creds[k]).0) {
            Some(Error::UnsupportedIssuerMethod)
        } else {
            None
        }
    }

    /// `v` fetches each issuer of `creds` once, each from the resolver of its method.
    pub open spec fn routes_issuers(&self, v: Seq<Route>, creds: Seq<Credential>) -> bool {
        &&& distinct_dids(route_dids(v))
        &&& did_set(route_dids(v)) == issuer_set(creds)
        &&& forall|i: int| 0 <= i < v.len() ==> self.serves(#[trigger] v[i])
    }

    fn plan_field(&self, f: &Option<String>, missing: Error) -> (r: Result<Route, Error>)
        ensures
            match r {
                Ok(t) => self.field_error(*f, missing) is None && self.routes(t, f->Some_0@),
                Err(e) => self.field_error(*f, missing) == Some(e),
            },
    {
        proof {
            use_type_invariant(self);
        }
        match f {
            Some(s) => match CoreDid::parse(s.as_str()) {
                Ok(_) => self.route(s.as_str()),
                Err(_) => Err(missing),
            },
            None => Err(missing),
        }
    }

    /// Decides how the holder of a presentation is resolved.
    pub fn plan_presentation_holder(&self, presentation: &Presentation) -> (r: Result<Route, Error>)
        ensures
            match r {
                Ok(t) => self.holder_error(*presentation) is None && self.routes(
                    t,
                    presentation.holder->Some_0@,
                ),
                Err(e) => self.holder_error(*presentation) == Some(e),
            },
    {
        self.plan_field(&presentation.holder, Error::MissingOrMalformedHolder)
    }

    /// Decides how the issuer of a credential is resolved.
    pub fn plan_credential_issuer(&self, credential: &Credential) -> (r: Result<Route, Error>)
        ensures
            match r {
                Ok(t) => self.field_error(credential.issuer, Error::MissingOrMalformedIssuer) is None
                    && self.routes(t, credential.issuer->Some_0@),
                Err(e) => self.field_error(credential.issuer, Error::MissingOrMalformedIssuer)
                    == Some(e),
            },
    {
        self.plan_field(&credential.issuer, Error::MissingOrMalformedIssuer)
    }

    /// Decides how the issuers of a presentation are resolved: every issuer is extracted,
    /// and every issuer's method must have a resolver, before anything is fetched.
    pub fn plan_presentation_issuers(&self, presentation: &Presentation) -> (r: Result<
        Vec<Route>,
        Error,
    >)
        ensures
            match r {
                Ok(v) => self.issuers_error(presentation.verifiable_credential@) is None
                    && self.routes_issuers(v@, presentation.verifiable_credential@),
                Err(e) => self.issuers_error(presentation.verifiable_credential@) == Some(e),
            },
    {
        proof {
            use_type_invariant(self);
        }
        let ghost creds = presentation.verifiable_credential@;
        let mut rest = extract_presentation_issuers(presentation)?;
        let ghost all = rest@;
        let mut routes: Vec<Route> = Vec::new();
        while rest.len() > 0
            invariant
                creds == presentation.verifiable_credential@,
                all_issuers_named(creds),
                distinct_dids(all),
                did_set(all) == issuer_set(creds),
                route_dids(routes@) + rest@ == all,
                forall|i: int| 0 <= i < routes@.len() ==> self.serves(#[trigger] routes@[i]),
            decreases rest@.len(),
        {
            let ghost at = routes@.len();
            let ghost before_rest = rest@;
            let d = rest.remove(0);
            assert(all[at as int] == d) by {
                assert((route_dids(routes@) + before_rest)[at as int] == before_rest[0]);
            }
            match self.find(d.method()) {
                Some(i) => {
                    let ghost before = routes@;
                    routes.push(Route { delegate: i, did: d });
                    assert(route_dids(routes@) + rest@ =~= all) by {
                        assert(route_dids(routes@) =~= route_dids(before).push(d));
                        assert(rest@ =~= before_rest.subrange(1, before_rest.len() as int));
                    }
                },
                None => {
                    proof {
                        assert(did_set(all).contains(d.view()));
                        let k = choose|k: int|
                            0 <= k < creds.len() && issuer_did(creds[k]) == d.view();
                        assert(!self.has_method(issuer_did(creds[k]).0));
                    }
                    return Err(Error::UnsupportedIssuerMethod);
                },
            }
        }
        proof {
            assert(route_dids(routes@) =~= all);
            assert forall|k: int| 0 <= k < creds.len() implies self.has_method(
                #[trigger] issuer_did(creds[k]).0,
            ) by {
                assert(issuer_set(creds).contains(issuer_did(creds[k])));
                let i = choose|i: int| 0 <= i < all.len() && all[i].view() == issuer_did(creds[k]);
                assert(self.serves(routes@[i]));
            }
        }
        Ok(routes)
    }

    /// Decides what must be resolved before a presentation can be validated: the holder
    /// unless its document is supplied, the issuers unless their documents are supplied.
    /// With both supplied nothing is resolved. The holder is looked at first.
    pub fn plan_presentation(
        &self,
        presentation: &Presentation,
        holder_supplied: bool,
        issuers_supplied: bool,
    ) -> (r: Result<PresentationPlan, Error>)
        ensures
            match r {
                Ok(plan) => {
                    &&& holder_supplied ==> plan.holder is None
                    &&& !holder_supplied ==> self.holder_error(*presentation) is None && (
                    plan.holder matches Some(t) && self.routes(t, presentation.holder->Some_0@))
                    &&& issuers_supplied ==> plan.issuers is None
                    &&& !issuers_supplied ==> self.issuers_error(
                        presentation.verifiable_credential@,
                    ) is None && (plan.issuers matches Some(v) && self.routes_issuers(
                        v@,
                        presentation.verifiable_credential@,
                    ))
                },
                Err(e) => if !holder_supplied && self.holder_error(*presentation) is Some {
                    self.holder_error(*presentation) == Some(e)
                } else {
                    !issuers_supplied && self.issuers_error(presentation.verifiable_credential@)
                        == Some(e)
                },
            },
    {
        let holder = if holder_supplied {
            None
        } else {
            Some(self.plan_presentation_holder(presentation)?)
        };
        let issuers = if issuers_supplied {
            None
        } else {
            Some(self.plan_presentation_issuers(presentation)?)
        };
        Ok(PresentationPlan { holder, issuers })
    }
}

} // verus!
