use crate::error::Error;
use vstd::prelude::*;
use vstd::string::*;

verus! {

/// A character allowed in a DID method name: a lowercase ASCII letter or a digit.
pub open spec fn is_method_char(c: char) -> bool {
    ('a' <= c && c <= 'z') || ('0' <= c && c <= '9')
}

/// A character allowed in a method-specific identifier.
pub open spec fn is_id_char(c: char) -> bool {
    ('a' <= c && c <= 'z') || ('A' <= c && c <= 'Z') || ('0' <= c && c <= '9') || c == '.'
        || c == '-' || c == '_' || c == ':' || c == '%'
}

/// The scheme that starts every DID.
pub open spec fn did_scheme() -> Seq<char> {
    seq!['d', 'i', 'd', ':']
}

/// The index of the first `sep` in `s` at or after `from`, or `s.len()` if there is none.
pub open spec fn next_sep(s: Seq<char>, from: int, sep: char) -> int
    decreases s.len() - from,
{
    if from < 0 || from >= s.len() {
        s.len() as int
    } else if s[from] == sep {
        from
    } else {
        next_sep(s, from + 1, sep)
    }
}

/// The method name of a DID string: what stands between the scheme and the next colon.
pub open spec fn did_method_of(s: Seq<char>) -> Seq<char> {
    s.subrange(4, next_sep(s, 4, ':'))
}

/// The method-specific identifier of a DID string: everything after the method's colon.
pub open spec fn did_id_of(s: Seq<char>) -> Seq<char> {
    s.subrange(next_sep(s, 4, ':') + 1, s.len() as int)
}

pub open spec fn valid_method_name(m: Seq<char>) -> bool {
    &&& m.len() > 0
    &&& forall|i: int| 0 <= i < m.len() ==> is_method_char(#[trigger] m[i])
}

pub open spec fn valid_method_id(id: Seq<char>) -> bool {
    &&& id.len() > 0
    &&& forall|i: int| 0 <= i < id.len() ==> is_id_char(#[trigger] id[i])
    &&& id[id.len() - 1] != ':'
}

/// `s` is a DID: `did:<method>:<method-specific-id>`.
pub open spec fn is_did(s: Seq<char>) -> bool {
    &&& s.len() >= 4
    &&& s.subrange(0, 4) == did_scheme()
    &&& next_sep(s, 4, ':') < s.len()
    &&& valid_method_name(did_method_of(s))
    &&& valid_method_id(did_id_of(s))
}

/// The text of the DID with method `m` and method-specific identifier `id`.
pub open spec fn did_text(m: Seq<char>, id: Seq<char>) -> Seq<char> {
    did_scheme() + m + seq![':'] + id
}

/// Where no `sep` stands in `s[from..to]`, the search from `from` goes on from `to`.
pub proof fn lemma_next_sep_skip(s: Seq<char>, from: int, to: int, sep: char)
    requires
        0 <= from <= to <= s.len(),
        forall|j: int| from <= j < to ==> s[j] != sep,
    ensures
        next_sep(s, from, sep) == next_sep(s, to, sep),
    decreases to - from,
{
    if from < to {
        lemma_next_sep_skip(s, from + 1, to, sep);
    }
}

/// The text of a DID parses back to its method and identifier.
pub proof fn lemma_did_text_parts(m: Seq<char>, id: Seq<char>)
    requires
        valid_method_name(m),
        valid_method_id(id),
    ensures
        is_did(did_text(m, id)),
        did_method_of(did_text(m, id)) == m,
        did_id_of(did_text(m, id)) == id,
{
    let s = did_text(m, id);
    let p: int = 4 + m.len() as int;
    assert forall|j: int| 4 <= j < p implies s[j] != ':' by {
        assert(s[j] == m[j - 4]);
        assert(is_method_char(m[j - 4]));
    }
    lemma_next_sep_skip(s, 4, p, ':');
    assert(s[p] == ':');
    assert(next_sep(s, 4, ':') == p);
    assert(s.subrange(0, 4) =~= did_scheme());
    assert(did_method_of(s) =~= m);
    assert(did_id_of(s) =~= id);
}

/// The search for `sep` stops at a `sep`, or at the end, and skips no `sep`.
pub proof fn lemma_next_sep_found(s: Seq<char>, from: int, sep: char)
    requires
        0 <= from <= s.len(),
    ensures
        from <= next_sep(s, from, sep) <= s.len(),
        next_sep(s, from, sep) < s.len() ==> s[next_sep(s, from, sep)] == sep,
        forall|j: int| from <= j < next_sep(s, from, sep) ==> s[j] != sep,
    decreases s.len() - from,
{
    if from < s.len() && s[from] != sep {
        lemma_next_sep_found(s, from + 1, sep);
    }
}

/// A DID whose text is its method and identifier, in the order they stand.
pub proof fn lemma_did_text_of_parts(s: Seq<char>)
    requires
        is_did(s),
    ensures
        s == did_text(did_method_of(s), did_id_of(s)),
{
    lemma_next_sep_found(s, 4, ':');
    assert(s =~= did_text(did_method_of(s), did_id_of(s)));
}

/// A parsed DID: a method name and a method-specific identifier.
#[derive(Debug, Clone, PartialEq, Eq, Hash)]
pub struct CoreDid {
    method: String,
    method_id: String,
}

impl CoreDid {
    /// The method name and the identifier, as character sequences.
    pub closed spec fn view(&self) -> (Seq<char>, Seq<char>) {
        (self.method@, self.method_id@)
    }

    pub open spec fn wf(&self) -> bool {
        valid_method_name(self.view().0) && valid_method_id(self.view().1)
    }

    /// Parses `did:<method>:<method-specific-id>`; anything else is a syntax error.
    pub fn parse(s: &str) -> (r: Result<CoreDid, Error>)
        ensures
            match r {
                Ok(d) => is_did(s@) && d.view() == (did_method_of(s@), did_id_of(s@)) && d.wf(),
                Err(e) => !is_did(s@) && e == Error::DidSyntaxError,
            },
    {
        let n = s.unicode_len();
        if n < 5 || s.get_char(0) != 'd' || s.get_char(1) != 'i' || s.get_char(2) != 'd'
            || s.get_char(3) != ':' {
            proof {
                if n >= 4 {
                    assert(s@.subrange(0, 4)[0] == s@[0]);
                    assert(s@.subrange(0, 4)[1] == s@[1]);
                    assert(s@.subrange(0, 4)[2] == s@[2]);
                    assert(s@.subrange(0, 4)[3] == s@[3]);
                }
                if n == 4 {
                    assert(next_sep(s@, 4, ':') == 4);
                }
            }
            return Err(Error::DidSyntaxError);
        }
        assert(s@.subrange(0, 4) =~= did_scheme());
        let mut p: usize = 4;
        while p < n && s.get_char(p) != ':'
            invariant
                4 <= p <= n,
                n == s@.len(),
                next_sep(s@, 4, ':') == next_sep(s@, p as int, ':'),
            decreases n - p,
        {
            p = p + 1;
        }
        assert(next_sep(s@, 4, ':') == p);
        if p == n || p == 4 || !chars_in_class(s, 4, p, true) || p + 1 == n
            || !chars_in_class(s, p + 1, n, false) || s.get_char(n - 1) == ':' {
            proof {
                if p < n {
                    assert(did_method_of(s@).len() == p - 4);
                    assert(did_id_of(s@).len() == n - p - 1);
                    assert forall|j: int| 4 <= j < p implies s@[j] == did_method_of(s@)[j - 4] by {}
                    assert forall|j: int| p + 1 <= j < n implies s@[j] == did_id_of(s@)[j - p - 1] by {}
                    if !chars_in_class_spec(s@, 4, p as int, true) {
                        let j = choose|j: int| 4 <= j < p && !is_method_char(s@[j]);
                        assert(!is_method_char(did_method_of(s@)[j - 4]));
                    }
                    if p + 1 < n && !chars_in_class_spec(s@, p + 1, n as int, false) {
                        let j = choose|j: int| p + 1 <= j < n && !is_id_char(s@[j]);
                        assert(!is_id_char(did_id_of(s@)[j - p - 1]));
                    }
                }
            }
            return Err(Error::DidSyntaxError);
        }
        let method = String::from_str(s.substring_char(4, p));
        let method_id = String::from_str(s.substring_char(p + 1, n));
        let d = CoreDid { method, method_id };
        proof {
            assert forall|j: int| 0 <= j < d.method@.len() implies is_method_char(
                #[trigger] d.method@[j],
            ) by {
                assert(d.method@[j] == s@[j + 4]);
            }
            assert forall|j: int| 0 <= j < d.method_id@.len() implies is_id_char(
                #[trigger] d.method_id@[j],
            ) by {
                assert(d.method_id@[j] == s@[j + p + 1]);
            }
        }
        Ok(d)
    }

    /// The method name, as a `String` value.
    pub closed spec fn method_string(&self) -> String {
        self.method
    }

    /// The method name.
    pub fn method(&self) -> (r: &String)
        ensures
            r@ == self.view().0,
            *r == self.method_string(),
    {
        &self.method
    }

    /// The method-specific identifier.
    pub fn method_id(&self) -> (r: &String)
        ensures
            r@ == self.view().1,
    {
        &self.method_id
    }

    /// Whether two DIDs have the same method and identifier.
    pub fn same_as(&self, other: &CoreDid) -> (r: bool)
        ensures
            r == (self.view() == other.view()),
    {
        self.method == other.method && self.method_id == other.method_id
    }

    /// The DID as text, `did:<method>:<method-specific-id>`.
    pub fn as_string(&self) -> (r: String)
        ensures
            r@ == did_text(self.view().0, self.view().1),
    {
        let r = String::from_str("did:").concat(self.method.as_str()).concat(":").concat(
            self.method_id.as_str(),
        );
        proof {
            reveal_strlit("did:");
            reveal_strlit(":");
            assert(r@ =~= did_text(self.view().0, self.view().1));
        }
        r
    }
}

/// The index of the first `sep` in `s` at or after `from`, or the length of `s`.
pub(crate) fn find_sep(s: &str, from: usize, sep: char) -> (r: usize)
    requires
        from <= s@.len(),
    ensures
        r == next_sep(s@, from as int, sep),
{
    let n = s.unicode_len();
    let mut i: usize = from;
    while i < n && s.get_char(i) != sep
        invariant
            from <= i <= n,
            n == s@.len(),
            next_sep(s@, from as int, sep) == next_sep(s@, i as int, sep),
        decreases n - i,
    {
        i = i + 1;
    }
    i
}

/// Every character of `s[from..to]` is a method character (`method`) or an identifier character.
pub open spec fn chars_in_class_spec(s: Seq<char>, from: int, to: int, method: bool) -> bool {
    forall|j: int|
        from <= j < to ==> if method {
            is_method_char(#[trigger] s[j])
        } else {
            is_id_char(s[j])
        }
}

fn chars_in_class(s: &str, from: usize, to: usize, method: bool) -> (r: bool)
    requires
        from <= to <= s@.len(),
    ensures
        r == chars_in_class_spec(s@, from as int, to as int, method),
{
    let mut i: usize = from;
    while i < to
        invariant
            from <= i <= to <= s@.len(),
            chars_in_class_spec(s@, from as int, i as int, method),
        decreases to - i,
    {
        let c = s.get_char(i);
        let ok = if method {
            ('a' <= c && c <= 'z') || ('0' <= c && c <= '9')
        } else {
            ('a' <= c && c <= 'z') || ('A' <= c && c <= 'Z') || ('0' <= c && c <= '9') || c
                == '.' || c == '-' || c == '_' || c == ':' || c == '%'
        };
        if !ok {
            return false;
        }
        i = i + 1;
    }
    true
}

} // verus!
