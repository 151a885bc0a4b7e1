use crate::text::{clone_texts, holds_text, texts};
use vstd::prelude::*;

verus! {

/// The cross-origin rules of one tenant, with the defaults filled in.
#[derive(Debug)]
pub struct CorsPolicy {
    /// The origins that may call, or `None` where every origin may.
    pub origins: Option<Vec<String>>,
    /// The methods that may be used.
    pub methods: Vec<String>,
    /// The request headers that may be sent; `*` stands for all of them.
    pub headers: Vec<String>,
}

/// A policy, with its lists taken by their views.
pub struct CorsPolicyView {
    pub origins: Option<Seq<Seq<char>>>,
    pub methods: Seq<Seq<char>>,
    pub headers: Seq<Seq<char>>,
}

impl View for CorsPolicy {
    type V = CorsPolicyView;

    open spec fn view(&self) -> CorsPolicyView {
        CorsPolicyView {
            origins: match self.origins {
                Some(list) => Some(texts(list@)),
                None => None,
            },
            methods: texts(self.methods@),
            headers: texts(self.headers@),
        }
    }
}

impl Clone for CorsPolicy {
    fn clone(&self) -> (copy: Self)
        ensures
            copy@ == self@,
    {
        CorsPolicy {
            origins: match &self.origins {
                Some(list) => Some(clone_texts(list)),
                None => None,
            },
            methods: clone_texts(&self.methods),
            headers: clone_texts(&self.headers),
        }
    }
}

/// The marker that allows every header.
pub open spec fn wildcard() -> Seq<char> {
    "*"@
}

/// The methods that a tenant without a list of its own allows.
pub open spec fn default_methods() -> Seq<Seq<char>> {
    seq!["GET"@, "POST"@]
}

/// The policy that three allow-lists stand for: no origin listed allows every origin, no
/// method listed allows `GET` and `POST`, no header listed allows every header.
pub open spec fn policy_of(
    origins: Seq<Seq<char>>,
    methods: Seq<Seq<char>>,
    headers: Seq<Seq<char>>,
) -> CorsPolicyView {
    CorsPolicyView {
        origins: if origins.len() == 0 {
            None
        } else {
            Some(origins)
        },
        methods: if methods.len() == 0 {
            default_methods()
        } else {
            methods
        },
        headers: if headers.len() == 0 {
            seq![wildcard()]
        } else {
            headers
        },
    }
}

impl CorsPolicyView {
    /// Every origin is allowed where none is listed; else the listed ones, by exact match.
    pub open spec fn allows_origin(self, origin: Seq<char>) -> bool {
        match self.origins {
            None => true,
            Some(list) => list.contains(origin),
        }
    }

    /// A method is allowed when it is listed.
    pub open spec fn allows_method(self, method: Seq<char>) -> bool {
        self.methods.contains(method)
    }

    /// A header is allowed when it or the wildcard is listed.
    pub open spec fn allows_header(self, header: Seq<char>) -> bool {
        self.headers.contains(wildcard()) || self.headers.contains(header)
    }

    /// A preflight passes when its origin, the method it asks for and each header it asks
    /// for are allowed.
    pub open spec fn allows_preflight(
        self,
        origin: Seq<char>,
        method: Seq<char>,
        headers: Seq<Seq<char>>,
    ) -> bool {
        &&& self.allows_origin(origin)
        &&& self.allows_method(method)
        &&& forall|i: int| 0 <= i < headers.len() ==> self.allows_header(#[trigger] headers[i])
    }
}

/// With nothing listed, a preflight passes from every origin, for `GET` and for `POST`,
/// whatever headers it asks for.
pub proof fn law_empty_lists_allow_all(
    origin: Seq<char>,
    method: Seq<char>,
    headers: Seq<Seq<char>>,
)
    requires
        method == "GET"@ || method == "POST"@,
    ensures
        policy_of(Seq::empty(), Seq::empty(), Seq::empty()).allows_preflight(
            origin,
            method,
            headers,
        ),
{
    let policy = policy_of(Seq::empty(), Seq::empty(), Seq::empty());
    assert(policy.methods[0] == "GET"@);
    assert(policy.methods[1] == "POST"@);
    assert(policy.headers[0] == wildcard());
}

/// Where origins are listed, a preflight from an origin that is not among them fails,
/// whatever it asks for.
pub proof fn law_unlisted_origin_is_rejected(
    origins: Seq<Seq<char>>,
    methods: Seq<Seq<char>>,
    allowed: Seq<Seq<char>>,
    origin: Seq<char>,
    method: Seq<char>,
    headers: Seq<Seq<char>>,
)
    requires
        origins.len() > 0,
        !origins.contains(origin),
    ensures
        !policy_of(origins, methods, allowed).allows_preflight(origin, method, headers),
{
}

impl CorsPolicy {
    /// Whether requests from `origin` are allowed: by exact match against the list.
    pub fn allows_origin(&self, origin: &str) -> (ok: bool)
        ensures
            ok == self@.allows_origin(origin@),
    {
        match &self.origins {
            None => true,
            Some(list) => holds_text(list, origin),
        }
    }

    /// Whether `method` is allowed.
    pub fn allows_method(&self, method: &str) -> (ok: bool)
        ensures
            ok == self@.allows_method(method@),
    {
        holds_text(&self.methods, method)
    }

    /// Whether the request header `header` is allowed.
    pub fn allows_header(&self, header: &str) -> (ok: bool)
        ensures
            ok == self@.allows_header(header@),
    {
        holds_text(&self.headers, "*") || holds_text(&self.headers, header)
    }

    /// Decides a preflight request that comes from `origin` and asks for `method` and
    /// `headers`.
    pub fn allows_preflight(&self, origin: &str, method: &str, headers: &Vec<String>) -> (ok: bool)
        ensures
            ok == self@.allows_preflight(origin@, method@, texts(headers@)),
    {
        if !self.allows_origin(origin) || !self.allows_method(method) {
            return false;
        }
        let mut i: usize = 0;
        while i < headers.len()
            invariant
                i <= headers.len(),
                forall|k: int| 0 <= k < i ==> self@.allows_header(#[trigger] texts(headers@)[k]),
            decreases headers.len() - i,
        {
            if !self.allows_header(headers[i].as_str()) {
                assert(!self@.allows_header(texts(headers@)[i as int]));
                return false;
            }
            i += 1;
        }
        true
    }
}

} // verus!
