use crate::did::{find_sep, lemma_next_sep_found, next_sep};
use crate::error::Error;
use vstd::prelude::*;
use vstd::string::*;

verus! {

/// A character allowed in an endpoint's name or handler: an ASCII letter or `_`.
pub open spec fn is_segment_char(c: char) -> bool {
    ('a' <= c && c <= 'z') || ('A' <= c && c <= 'Z') || c == '_'
}

pub open spec fn valid_segment(s: Seq<char>) -> bool {
    &&& s.len() > 0
    &&& forall|i: int| 0 <= i < s.len() ==> is_segment_char(#[trigger] s[i])
}

pub open spec fn hook_word() -> Seq<char> {
    seq!['h', 'o', 'o', 'k']
}

/// The name, the handler and the hook flag that the string `s` denotes, if it has the
/// shape `name/handler` or `name/handler/hook`.
pub open spec fn endpoint_parts(s: Seq<char>) -> Option<(Seq<char>, Seq<char>, bool)> {
    let a = next_sep(s, 0, '/');
    let b = next_sep(s, a + 1, '/');
    let name = s.subrange(0, a);
    let handler = s.subrange(a + 1, b);
    if a >= s.len() || !valid_segment(name) || !valid_segment(handler) {
        None
    } else if b >= s.len() {
        Some((name, handler, false))
    } else if s.subrange(b + 1, s.len() as int) == hook_word() {
        Some((name, handler, true))
    } else {
        None
    }
}

/// The text of an endpoint: `name/handler`, followed by `/hook` for a hook.
pub open spec fn endpoint_text(name: Seq<char>, handler: Seq<char>, is_hook: bool) -> Seq<char> {
    if is_hook {
        name + seq!['/'] + handler + seq!['/'] + hook_word()
    } else {
        name + seq!['/'] + handler
    }
}

/// The address of a request handler of an actor: a name and a handler, and whether the
/// handler is a hook.
#[derive(Debug, Clone, PartialEq, Eq, Hash)]
pub struct Endpoint {
    name: String,
    handler: String,
    is_hook: bool,
}

fn segment_ok(s: &str, from: usize, to: usize) -> (r: bool)
    requires
        from <= to <= s@.len(),
    ensures
        r == valid_segment(s@.subrange(from as int, to as int)),
{
    if from == to {
        return false;
    }
    let mut i: usize = from;
    while i < to
        invariant
            from <= i <= to <= s@.len(),
            forall|j: int| from <= j < i ==> is_segment_char(#[trigger] s@[j]),
        decreases to - i,
    {
        let c = s.get_char(i);
        if !(('a' <= c && c <= 'z') || ('A' <= c && c <= 'Z') || c == '_') {
            assert(s@.subrange(from as int, to as int)[i - from] == c);
            return false;
        }
        i = i + 1;
    }
    assert forall|j: int| 0 <= j < to - from implies is_segment_char(
        #[trigger] s@.subrange(from as int, to as int)[j],
    ) by {
        assert(s@.subrange(from as int, to as int)[j] == s@[j + from]);
    }
    true
}

impl Endpoint {
    /// The name, the handler and the hook flag.
    pub closed spec fn view(&self) -> (Seq<char>, Seq<char>, bool) {
        (self.name@, self.handler@, self.is_hook)
    }

    /// Parses `name/handler` or `name/handler/hook`, where name and handler are non-empty
    /// words of ASCII letters and `_`.
    pub fn new(string: &str) -> (r: Result<Endpoint, Error>)
        ensures
            match r {
                Ok(e) => endpoint_parts(string@) == Some(e.view()),
                Err(e) => endpoint_parts(string@).is_none() && e == Error::InvalidEndpoint,
            },
    {
        let s = string;
        let n = s.unicode_len();
        let a = find_sep(s, 0, '/');
        proof {
            lemma_next_sep_found(s@, 0, '/');
        }
        if a >= n {
            return Err(Error::InvalidEndpoint);
        }
        let b = find_sep(s, a + 1, '/');
        proof {
            lemma_next_sep_found(s@, a + 1, '/');
        }
        if !segment_ok(s, 0, a) || !segment_ok(s, a + 1, b) {
            return Err(Error::InvalidEndpoint);
        }
        let mut is_hook = false;
        if b < n {
            let rest = s.substring_char(b + 1, n);
            let is_word = rest.unicode_len() == 4 && rest.get_char(0) == 'h' && rest.get_char(1)
                == 'o' && rest.get_char(2) == 'o' && rest.get_char(3) == 'k';
            if !is_word {
                proof {
                    if rest@ == hook_word() {
                        assert(rest@[0] == 'h' && rest@[1] == 'o' && rest@[2] == 'o' && rest@[3]
                            == 'k');
                    }
                }
                return Err(Error::InvalidEndpoint);
            }
            assert(rest@ =~= hook_word());
            is_hook = true;
        }
        let name = String::from_str(s.substring_char(0, a));
        let handler = String::from_str(s.substring_char(a + 1, b));
        Ok(Endpoint { name, handler, is_hook })
    }

    /// Parses as `new` does, and marks the endpoint as a hook.
    pub fn new_hook(string: &str) -> (r: Result<Endpoint, Error>)
        ensures
            match r {
                Ok(e) => endpoint_parts(string@) matches Some(p) && e.view() == (p.0, p.1, true),
                Err(e) => endpoint_parts(string@).is_none() && e == Error::InvalidEndpoint,
            },
    {
        let mut endpoint = Endpoint::new(string)?;
        endpoint.is_hook = true;
        Ok(endpoint)
    }

    pub fn set_is_hook(&mut self, is_hook: bool)
        ensures
            final(self).view() == (old(self).view().0, old(self).view().1, is_hook),
    {
        self.is_hook = is_hook;
    }

    /// The name of the actor part of the endpoint.
    pub fn name(&self) -> (r: &String)
        ensures
            r@ == self.view().0,
    {
        &self.name
    }

    /// The handler part of the endpoint.
    pub fn handler(&self) -> (r: &String)
        ensures
            r@ == self.view().1,
    {
        &self.handler
    }

    pub fn is_hook(&self) -> (r: bool)
        ensures
            r == self.view().2,
    {
        self.is_hook
    }

    /// The endpoint as text: `name/handler`, or `name/handler/hook` for a hook.
    pub fn to_string(&self) -> (r: String)
        ensures
            r@ == endpoint_text(self.view().0, self.view().1, self.view().2),
    {
        let r = self.name.clone().concat("/").concat(self.handler.as_str());
        let r = if self.is_hook {
            r.concat("/hook")
        } else {
            r
        };
        proof {
            reveal_strlit("/");
            reveal_strlit("/hook");
            assert(r@ =~= endpoint_text(self.view().0, self.view().1, self.view().2));
        }
        r
    }
}

} // verus!
