use crate::did::{
    did_id_of, did_method_of, did_text, is_did, lemma_did_text_parts, valid_method_id,
    valid_method_name, CoreDid,
};
use crate::error::Error;
use vstd::pervasive::cloned;
use vstd::prelude::*;

verus! {

/// Where one DID goes: the index of the resolver registered for its method, and the DID.
#[derive(Debug, Clone)]
pub struct Route {
    pub delegate: usize,
    pub did: CoreDid,
}

/// The work of resolving a list of DID strings: one fetch for each distinct DID, and for
/// each input the index of the fetch that serves it.
#[derive(Debug, Clone)]
pub struct Batch {
    pub fetches: Vec<Route>,
    pub positions: Vec<usize>,
}

/// Marks the types that are meant to serve as resolvers.
pub trait Sealed {
}

/// A resolver of the DID documents of one DID method.
pub trait InteroperableResolver: Sealed {
    /// The name of the DID method that this resolver serves.
    fn method(&self) -> String;
}

/// A registry that maps DID method names to resolvers of type `R`, at most one per name.
pub struct Resolver<R> {
    methods: Vec<String>,
    delegates: Vec<R>,
}

impl<R: InteroperableResolver> Resolver<R> {
    /// Registers `resolver` under the method name that it reports. A method that has a
    /// resolver already is refused, and the registry is left as it was.
    pub fn register(&mut self, resolver: R) -> (r: Result<(), Error>)
        ensures
            r is Err ==> r == Err::<(), Error>(Error::DuplicateMethod) && final(self).methods()
                == old(self).methods() && final(self).delegates() == old(self).delegates(),
            r is Ok ==> {
                &&& !old(self).has_method(final(self).methods().last())
                &&& final(self).methods() == old(self).methods().push(final(self).methods().last())
                &&& final(self).delegates() == old(self).delegates().push(resolver)
            },
    {
        let method = resolver.method();
        self.register_method(method, resolver)
    }
}

/// Some one of the first `n` inputs is served by fetch `i`.
pub open spec fn serves_input(positions: Seq<usize>, n: int, i: int) -> bool {
    exists|k: int| 0 <= k < n && positions[k] == i
}

impl Route {
    /// Turns what the resolver of this route returned into the result of a resolution:
    /// a failure of the resolver becomes `ResolutionFailed` naming the method.
    pub fn settle<D>(&self, outcome: Result<D, String>) -> (r: Result<D, Error>)
        ensures
            match outcome {
                Ok(d) => r == Ok::<D, Error>(d),
                Err(c) => r == Err::<D, Error>(
                    Error::ResolutionFailed { method: self.did.method_string(), cause: c },
                ),
            },
    {
        match outcome {
            Ok(d) => Ok(d),
            Err(cause) => Err(Error::ResolutionFailed { method: self.did.method().clone(), cause }),
        }
    }
}

impl Batch {
    /// The indices into `fetches` are in range.
    pub open spec fn positions_in_range(&self) -> bool {
        forall|k: int|
            0 <= k < self.positions@.len() ==> #[trigger] self.positions@[k] < self.fetches@.len()
    }

    /// Hands the document fetched for each distinct DID to every input position that
    /// asked for it, in input order.
    pub fn fan_out<D: Clone>(&self, docs: &Vec<D>) -> (r: Vec<D>)
        requires
            self.positions_in_range(),
            docs@.len() == self.fetches@.len(),
        ensures
            r@.len() == self.positions@.len(),
            forall|k: int|
                0 <= k < r@.len() ==> cloned(docs@[#[trigger] self.positions@[k] as int], r@[k]),
    {
        let mut r: Vec<D> = Vec::new();
        let mut k: usize = 0;
        while k < self.positions.len()
            invariant
                self.positions_in_range(),
                docs@.len() == self.fetches@.len(),
                k <= self.positions@.len(),
                r@.len() == k,
                forall|j: int|
                    0 <= j < k ==> cloned(docs@[#[trigger] self.positions@[j] as int], r@[j]),
            decreases self.positions@.len() - k,
        {
            let p = self.positions[k];
            let d = docs[p].clone();
            r.push(d);
            k = k + 1;
        }
        r
    }
}

impl<R> Resolver<R> {
    /// The registered method names, in the order of registration.
    pub closed spec fn methods(&self) -> Seq<Seq<char>> {
        self.methods@.map_values(|m: String| m@)
    }

    /// The registered resolvers, each at the index of its method name.
    pub closed spec fn delegates(&self) -> Seq<R> {
        self.delegates@
    }

    /// Every registry value is well formed.
    #[verifier::type_invariant]
    pub closed spec fn inv(&self) -> bool {
        self.well_formed()
    }

    /// One resolver per method name, and no name twice.
    pub open spec fn well_formed(&self) -> bool {
        &&& self.methods().len() == self.delegates().len()
        &&& forall|i: int, j: int|
            0 <= i < j < self.methods().len() ==> self.methods()[i] != self.methods()[j]
    }

    pub open spec fn has_method(&self, m: Seq<char>) -> bool {
        exists|i: int| 0 <= i < self.methods().len() && self.methods()[i] == m
    }

    /// The index of the resolver that a DID string goes to, or why it goes nowhere.
    pub open spec fn dispatch(&self, s: Seq<char>) -> Result<int, Error> {
        if !is_did(s) {
            Err(Error::DidSyntaxError)
        } else if !self.has_method(did_method_of(s)) {
            Err(Error::UnsupportedMethod)
        } else {
            Ok(choose|i: int| 0 <= i < self.methods().len() && self.methods()[i] == did_method_of(s))
        }
    }

    /// `t` goes to the resolver registered for the method of its DID.
    pub open spec fn serves(&self, t: Route) -> bool {
        &&& 0 <= t.delegate < self.methods().len()
        &&& self.methods()[t.delegate as int] == t.did.view().0
    }

    /// `t` is the route of the DID string `s`.
    pub open spec fn routes(&self, t: Route, s: Seq<char>) -> bool {
        &&& self.dispatch(s) == Ok::<int, Error>(t.delegate as int)
        &&& t.did.view() == (did_method_of(s), did_id_of(s))
    }

    /// `b` resolves the DID strings `ds`: every input is served by the fetch of its DID,
    /// no DID is fetched twice, and every fetch serves an input.
    pub open spec fn plans(&self, ds: Seq<Seq<char>>, b: Batch) -> bool {
        &&& b.positions@.len() == ds.len()
        &&& b.positions_in_range()
        &&& forall|k: int|
            0 <= k < ds.len() ==> self.routes(b.fetches@[#[trigger] b.positions@[k] as int], ds[k])
        &&& forall|i: int, j: int|
            0 <= i < j < b.fetches@.len() ==> b.fetches@[i].did.view() != b.fetches@[j].did.view()
        &&& forall|i: int|
            0 <= i < b.fetches@.len() ==> #[trigger] serves_input(b.positions@, ds.len() as int, i)
    }

    pub fn new() -> (r: Resolver<R>)
        ensures
            r.methods().len() == 0,
            r.delegates().len() == 0,
    {
        Resolver { methods: Vec::new(), delegates: Vec::new() }
    }

    /// Registers `delegate` as the resolver of the DID method `method`. A method that has
    /// a resolver already is refused, and the registry is left as it was.
    pub fn register_method(&mut self, method: String, delegate: R) -> (r: Result<(), Error>)
        ensures
            old(self).has_method(method@) ==> r == Err::<(), Error>(Error::DuplicateMethod)
                && final(self).methods() == old(self).methods() && final(self).delegates() == old(
                self,
            ).delegates(),
            !old(self).has_method(method@) ==> r is Ok && final(self).methods() == old(
                self,
            ).methods().push(method@) && final(self).delegates() == old(self).delegates().push(
                delegate,
            ),
    {
        proof {
            use_type_invariant(&*self);
        }
        if let Some(_) = self.find(&method) {
            return Err(Error::DuplicateMethod);
        }
        let ghost m = method@;
        let mut taken: Resolver<R> = Resolver::new();
        std::mem::swap(self, &mut taken);
        let Resolver { mut methods, mut delegates } = taken;
        methods.push(method);
        delegates.push(delegate);
        proof {
            assert(methods@.map_values(|s: String| s@) =~= old(self).methods().push(m));
            assert(delegates@ =~= old(self).delegates().push(delegate));
        }
        let mut grown = Resolver { methods, delegates };
        std::mem::swap(self, &mut grown);
        Ok(())
    }

    /// The index of the resolver registered for `method`, if there is one.
    pub fn find(&self, method: &String) -> (r: Option<usize>)
        ensures
            match r {
                Some(i) => i < self.methods().len() && self.methods()[i as int] == method@,
                None => !self.has_method(method@),
            },
    {
        proof {
            use_type_invariant(self);
        }
        let mut i: usize = 0;
        while i < self.methods.len()
            invariant
                self.well_formed(),
                i <= self.methods@.len(),
                forall|j: int| 0 <= j < i ==> self.methods()[j] != method@,
            decreases self.methods@.len() - i,
        {
            if self.methods[i] == *method {
                return Some(i);
            }
            i = i + 1;
        }
        None
    }

    /// The number of registered resolvers.
    pub fn len(&self) -> (r: usize)
        ensures
            r == self.methods().len(),
    {
        proof {
            use_type_invariant(self);
        }
        self.methods.len()
    }

    /// The resolver at index `i`.
    pub fn delegate(&self, i: usize) -> (r: &R)
        requires
            i < self.methods().len(),
        ensures
            *r == self.delegates()[i as int],
    {
        proof {
            use_type_invariant(self);
        }
        &self.delegates[i]
    }

    /// Decides where the DID string `did` is resolved: it must be a DID, and its method
    /// must have a resolver. Nothing is fetched on a failure.
    pub fn route(&self, did: &str) -> (r: Result<Route, Error>)
        ensures
            match r {
                Ok(t) => self.routes(t, did@),
                Err(e) => self.dispatch(did@) == Err::<int, Error>(e),
            },
    {
        proof {
            use_type_invariant(self);
        }
        let d = CoreDid::parse(did)?;
        let m = d.method();
        match self.find(m) {
            Some(i) => {
                let ghost c = choose|j: int|
                    0 <= j < self.methods().len() && self.methods()[j] == did_method_of(did@);
                assert(c == i);
                Ok(Route { delegate: i, did: d })
            },
            None => Err(Error::UnsupportedMethod),
        }
    }

    /// Plans the resolution of a list of DID strings: every string must route, the first
    /// that does not decides the error, and each distinct DID is fetched once.
    pub fn plan_batch(&self, dids: &Vec<String>) -> (r: Result<Batch, Error>)
        ensures
            match r {
                Ok(b) => (forall|k: int| 0 <= k < dids@.len() ==> #[trigger] self.dispatch(dids@[k]@) is Ok)
                    && self.plans(dids@.map_values(|d: String| d@), b),
                Err(e) => exists|k: int|
                    0 <= k < dids@.len() && (forall|j: int|
                        0 <= j < k ==> #[trigger] self.dispatch(dids@[j]@) is Ok) && self.dispatch(
                        dids@[k]@,
                    ) == Err::<int, Error>(e),
            },
    {
        proof {
            use_type_invariant(self);
        }
        let ghost ds = dids@.map_values(|d: String| d@);
        let mut fetches: Vec<Route> = Vec::new();
        let mut positions: Vec<usize> = Vec::new();
        let mut k: usize = 0;
        while k < dids.len()
            invariant
                self.well_formed(),
                ds == dids@.map_values(|d: String| d@),
                k <= dids@.len(),
                positions@.len() == k,
                forall|j: int| 0 <= j < k ==> #[trigger] self.dispatch(dids@[j]@) is Ok,
                forall|j: int| 0 <= j < k ==> #[trigger] positions@[j] < fetches@.len(),
                forall|j: int|
                    0 <= j < k ==> self.routes(fetches@[#[trigger] positions@[j] as int], ds[j]),
                forall|i: int, j: int|
                    0 <= i < j < fetches@.len() ==> fetches@[i].did.view()
                        != fetches@[j].did.view(),
                forall|i: int|
                    0 <= i < fetches@.len() ==> #[trigger] serves_input(positions@, k as int, i),
            decreases dids@.len() - k,
        {
            let t = match self.route(dids[k].as_str()) {
                Ok(t) => t,
                Err(e) => {
                    assert(forall|j: int| 0 <= j < k ==> #[trigger] self.dispatch(dids@[j]@) is Ok);
                    return Err(e);
                },
            };
            let mut f: usize = 0;
            while f < fetches.len() && !fetches[f].did.same_as(&t.did)
                invariant
                    f <= fetches@.len(),
                    forall|i: int| 0 <= i < f ==> fetches@[i].did.view() != t.did.view(),
                decreases fetches@.len() - f,
            {
                f = f + 1;
            }
            let ghost old_positions = positions@;
            let ghost old_len = fetches@.len();
            if f == fetches.len() {
                fetches.push(t);
            }
            positions.push(f);
            proof {
                assert(ds[k as int] == dids@[k as int]@);
                assert forall|i: int|
                    0 <= i < fetches@.len() implies #[trigger] serves_input(
                    positions@,
                    k + 1,
                    i,
                ) by {
                    if i < old_len {
                        assert(serves_input(old_positions, k as int, i));
                        let j = choose|j: int| 0 <= j < k && #[trigger] old_positions[j] == i;
                        assert(positions@[j] == i);
                    } else {
                        assert(positions@[k as int] == i);
                    }
                }
                assert forall|j: int|
                    0 <= j < k + 1 implies self.routes(
                    fetches@[#[trigger] positions@[j] as int],
                    ds[j],
                ) by {
                    if j < k {
                        assert(positions@[j] == old_positions[j]);
                    } else {
                        assert(fetches@[f as int].did.view() == t.did.view());
                        assert(self.dispatch(ds[j]) == Ok::<int, Error>(t.delegate as int));
                        assert(self.dispatch(ds[j]) == Ok::<int, Error>(
                            fetches@[f as int].delegate as int,
                        )) by {
                            if f < old_len {
                                assert(serves_input(old_positions, k as int, f as int));
                                let j0 = choose|j0: int| 0 <= j0 < k && #[trigger] old_positions[j0] == f;
                                assert(self.routes(fetches@[old_positions[j0] as int], ds[j0]));
                                crate::did::lemma_did_text_of_parts(ds[j0]);
                                crate::did::lemma_did_text_of_parts(ds[j]);
                            }
                        }
                    }
                }
            }
            k = k + 1;
        }
        let b = Batch { fetches, positions };
        proof {
            assert(ds.len() == k);
        }
        Ok(b)
    }
}

/// A DID whose method name is registered goes to the resolver registered under that
/// name, whatever its method-specific identifier.
pub proof fn lemma_registered_method_dispatches<R>(reg: Resolver<R>, i: int, id: Seq<char>)
    requires
        reg.well_formed(),
        0 <= i < reg.methods().len(),
        valid_method_name(reg.methods()[i]),
        valid_method_id(id),
    ensures
        reg.dispatch(did_text(reg.methods()[i], id)) == Ok::<int, Error>(i),
{
    let m = reg.methods()[i];
    lemma_did_text_parts(m, id);
    assert(reg.has_method(m));
    let c = choose|j: int| 0 <= j < reg.methods().len() && reg.methods()[j] == m;
    assert(c == i);
}

/// A DID whose method name has no registered resolver fails with `UnsupportedMethod`,
/// whatever its method-specific identifier.
pub proof fn lemma_unregistered_method_unsupported<R>(reg: Resolver<R>, m: Seq<char>, id: Seq<char>)
    requires
        valid_method_name(m),
        valid_method_id(id),
        !reg.has_method(m),
    ensures
        reg.dispatch(did_text(m, id)) == Err::<int, Error>(Error::UnsupportedMethod),
{
    lemma_did_text_parts(m, id);
}

/// In a planned batch, two inputs with the same DID string are served by one fetch.
pub proof fn lemma_batch_fetches_once<R>(reg: Resolver<R>, ds: Seq<Seq<char>>, b: Batch, a: int, c: int)
    requires
        reg.plans(ds, b),
        0 <= a < ds.len(),
        0 <= c < ds.len(),
        ds[a] == ds[c],
    ensures
        b.positions@[a] == b.positions@[c],
{
    let pa = b.positions@[a] as int;
    let pc = b.positions@[c] as int;
    assert(reg.routes(b.fetches@[pa], ds[a]));
    assert(reg.routes(b.fetches@[pc], ds[c]));
    if pa < pc {
        assert(b.fetches@[pa].did.view() != b.fetches@[pc].did.view());
    } else if pc < pa {
        assert(b.fetches@[pc].did.view() != b.fetches@[pa].did.view());
    }
}

/// After a registration of the method name `m` succeeds, `m` is registered: the condition
/// under which `register_method` refuses `m`, returns `DuplicateMethod` and changes nothing.
pub proof fn lemma_registered_method_refused_again<R>(
    before: Resolver<R>,
    after: Resolver<R>,
    m: Seq<char>,
)
    requires
        after.methods() == before.methods().push(m),
    ensures
        after.has_method(m),
{
    assert(after.methods()[before.methods().len() as int] == m);
}

} // verus!
