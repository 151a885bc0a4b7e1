pub mod gate;
pub mod identity;

use crate::auth::clock::{in_clock_range, unix_now};
use crate::auth::jwt::{
    accepted, expiry_claim, hs256_claims, is_issued, is_token_char, issued, subject_claim,
    JwtAuth, TokenError, TOKEN_LIFETIME_SECS,
};
use crate::cors::{default_methods, policy_of, wildcard, CorsPolicy};
use crate::project::gate::{bearer_token, is_space, law_two_words, parse_bearer};
use crate::project::identity::{
    generate_secret_key, hyphenated, is_short_id_char, lemma_uuid_text_is_injective, random_id,
    secret_key_of, short_id_of, uuid_text, uuid_to_short_id,
};
use crate::text::{clone_texts, texts, with_text};
use vstd::prelude::*;

verus! {

/// A tenant: its identity, its metadata, its cross-origin allow-lists, the paths of its
/// routes and the token that was issued when it was created.
pub struct Project {
    id: [u8; 16],
    short_id: String,
    name: String,
    description: String,
    allowed_origins: Vec<String>,
    allowed_methods: Vec<String>,
    allowed_headers: Vec<String>,
    routes: Vec<String>,
    token: String,
}

/// What a project is to the contracts: its fields as plain sequences.
pub struct ProjectView {
    pub id: Seq<u8>,
    pub short_id: Seq<char>,
    pub name: Seq<char>,
    pub description: Seq<char>,
    pub allowed_origins: Seq<Seq<char>>,
    pub allowed_methods: Seq<Seq<char>>,
    pub allowed_headers: Seq<Seq<char>>,
    pub routes: Seq<Seq<char>>,
    pub token: Seq<char>,
}

/// The paths that every tenant serves from the start: root, ping and health.
pub open spec fn introspection_paths() -> Seq<Seq<char>> {
    seq!["/"@, "/ping"@, "/health"@]
}

/// What a tenant answers on one of its introspection paths.
pub open spec fn introspection_reply(path: Seq<char>) -> Option<Seq<char>> {
    if path == "/"@ {
        Some("Hello! this is inside project"@)
    } else if path == "/ping"@ {
        Some("pong"@)
    } else if path == "/health"@ {
        Some("OK"@)
    } else {
        None
    }
}

/// `token` is the token that was issued at the second `now` for the identifier `id`, in its
/// hyphenated form, under the signing key that belongs to `id`.
pub open spec fn is_own_token(id: Seq<u8>, token: Seq<char>, now: int) -> bool {
    is_issued(secret_key_of(id), uuid_text(id), now, token)
}

impl ProjectView {
    /// The token is the one that was issued at the second `now` for the identifier, in its
    /// hyphenated form, under the signing key that belongs to the identifier.
    pub open spec fn created_at(self, now: int) -> bool {
        is_own_token(self.id, self.token, now)
    }

    /// The token is one that was issued for the project itself.
    pub open spec fn holds_own_token(self) -> bool {
        exists|now: int| #[trigger] is_own_token(self.id, self.token, now)
    }

    /// The short identifier is the one that belongs to the identifier, and is made of one
    /// to twenty-two lower-case letters and digits; the token is the project's own.
    pub open spec fn wf(self) -> bool {
        &&& self.id.len() == 16
        &&& self.short_id == short_id_of(self.id)
        &&& 1 <= self.short_id.len() <= 22
        &&& forall|i: int|
            0 <= i < self.short_id.len() ==> is_short_id_char(#[trigger] self.short_id[i])
        &&& self.holds_own_token()
    }

    /// A project as it is right after creation, holding `token`.
    pub open spec fn fresh(
        id: Seq<u8>,
        name: Seq<char>,
        description: Seq<char>,
        token: Seq<char>,
    ) -> ProjectView {
        ProjectView {
            id,
            short_id: short_id_of(id),
            name,
            description,
            allowed_origins: Seq::empty(),
            allowed_methods: Seq::empty(),
            allowed_headers: Seq::empty(),
            routes: introspection_paths(),
            token,
        }
    }

    /// What creating a project with the identifier `id` at the second `now` gives: the
    /// fresh project with a token issued for `id` under its own key, or the reason for
    /// which no token was issued.
    pub open spec fn creation(
        id: Seq<u8>,
        name: Seq<char>,
        description: Seq<char>,
        now: int,
    ) -> Result<ProjectView, TokenError> {
        match issued(secret_key_of(id), uuid_text(id), now) {
            Ok(token) => Ok(ProjectView::fresh(id, name, description, token)),
            Err(e) => Err(e),
        }
    }

    /// Whether this project accepts `token` at the second `now`: its token service accepts
    /// it under the project's key, and the project that the token names is this one.
    pub open spec fn accepts(self, token: Seq<char>, now: int) -> bool {
        accepted(secret_key_of(self.id), token, now) matches Some(claims) && claims.project_id
            == uuid_text(self.id)
    }

    /// What the middleware does with a request at the second `now`: the cross-origin
    /// layer comes first and answers every `OPTIONS` request; the authentication gate
    /// comes second.
    pub open spec fn screens(
        self,
        method: Seq<char>,
        authorization: Option<Seq<char>>,
        now: int,
    ) -> Screening {
        if method == "OPTIONS"@ {
            Screening::Preflight
        } else if self.admits(authorization, now) {
            Screening::Forward
        } else {
            Screening::Unauthorized
        }
    }

    /// Whether the authentication gate lets a request with this `Authorization` header
    /// pass at the second `now`: the header is there, has the form `Bearer <token>`, and
    /// the token is accepted.
    pub open spec fn admits(self, authorization: Option<Seq<char>>, now: int) -> bool {
        match authorization {
            Some(header) => match bearer_token(header) {
                Some(token) => self.accepts(token, now),
                None => false,
            },
            None => false,
        }
    }
}

/// Whether a project is well-formed rests on its identifier, its short identifier and its
/// token alone.
proof fn lemma_wf_rests_on_identity(before: ProjectView)
    requires
        before.wf(),
    ensures
        forall|after: ProjectView|
            after.id == before.id && after.short_id == before.short_id && after.token
                == before.token ==> #[trigger] after.wf(),
{
    let now = choose|now: int| is_own_token(before.id, before.token, now);
    assert forall|after: ProjectView|
        after.id == before.id && after.short_id == before.short_id && after.token
            == before.token implies #[trigger] after.wf() by {
        assert(is_own_token(after.id, after.token, now));
    }
}

/// The `Authorization` header that carries `token` as a bearer token.
pub open spec fn bearer_header(token: Seq<char>) -> Seq<char> {
    "Bearer "@ + token
}

/// A header made of `Bearer`, a blank and a token carries that token.
pub proof fn lemma_bearer_header(token: Seq<char>)
    requires
        token.len() > 0,
        forall|i: int| 0 <= i < token.len() ==> is_token_char(#[trigger] token[i]),
    ensures
        bearer_token(bearer_header(token)) == Some(token),
{
    reveal_strlit("Bearer ");
    reveal_strlit("Bearer");
    let none = Seq::<char>::empty();
    let blank = seq![' '];
    assert forall|i: int| 0 <= i < token.len() implies !is_space(#[trigger] token[i]) by {
        assert(is_token_char(token[i]));
    }
    law_two_words(none, "Bearer"@, blank, token, none);
    assert(bearer_header(token) =~= none + "Bearer"@ + blank + token + none);
}

/// A project accepts the token it was created with at every instant before its creation
/// plus the lifetime, and its authentication gate admits the header that carries that
/// token; from that instant on it does neither.
pub proof fn law_own_token_is_admitted(project: ProjectView, now: int, then: int)
    requires
        project.created_at(now),
    ensures
        then < now + TOKEN_LIFETIME_SECS ==> project.accepts(project.token, then)
            && project.admits(Some(bearer_header(project.token)), then),
        then >= now + TOKEN_LIFETIME_SECS ==> !project.accepts(project.token, then)
            && !project.admits(Some(bearer_header(project.token)), then),
{
    lemma_bearer_header(project.token);
}

/// No project accepts the token that another project was created with, at any instant,
/// and its authentication gate does not admit the header that carries it.
pub proof fn law_token_of_another_project_is_rejected(
    project: ProjectView,
    other: ProjectView,
    created: int,
    now: int,
)
    requires
        project.id.len() == 16,
        other.id.len() == 16,
        project.id != other.id,
        other.created_at(created),
    ensures
        !project.accepts(other.token, now),
        !project.admits(Some(bearer_header(other.token)), now),
{
    lemma_bearer_header(other.token);
    if project.accepts(other.token, now) {
        assert(hs256_claims(
            secret_key_of(other.id),
            other.token,
            subject_claim(),
            expiry_claim(),
        ) is Some);
        lemma_uuid_text_is_injective(project.id, other.id);
    }
}

/// A token that names another project is not accepted, whatever key signed it.
pub proof fn law_other_subject_is_rejected(project: ProjectView, token: Seq<char>, now: int)
    requires
        accepted(secret_key_of(project.id), token, now) matches Some(claims) ==> claims.project_id
            != uuid_text(project.id),
    ensures
        !project.accepts(token, now),
{
}

/// What a tenant's middleware does with a request before any handler runs.
#[derive(Debug, Clone, Copy, PartialEq, Eq, Structural)]
pub enum Screening {
    /// A preflight: the cross-origin layer answers it, and no token is asked for.
    Preflight,
    /// The authentication gate stops the request.
    Unauthorized,
    /// The request goes on to the route table.
    Forward,
}

/// The result of a creation, with the project taken by its view.
pub open spec fn outcome(r: Result<Project, TokenError>) -> Result<ProjectView, TokenError> {
    match r {
        Ok(project) => Ok(project@),
        Err(e) => Err(e),
    }
}

/// The `Authorization` header of a request, if it has one, as a sequence of characters.
pub open spec fn header_text(authorization: Option<&str>) -> Option<Seq<char>> {
    match authorization {
        Some(header) => Some(header@),
        None => None,
    }
}

impl View for Project {
    type V = ProjectView;

    closed spec fn view(&self) -> ProjectView {
        ProjectView {
            id: self.id@,
            short_id: self.short_id@,
            name: self.name@,
            description: self.description@,
            allowed_origins: texts(self.allowed_origins@),
            allowed_methods: texts(self.allowed_methods@),
            allowed_headers: texts(self.allowed_headers@),
            routes: texts(self.routes@),
            token: self.token@,
        }
    }
}

impl Clone for Project {
    fn clone(&self) -> (copy: Self)
        ensures
            copy@ == self@,
    {
        proof {
            use_type_invariant(self);
            lemma_wf_rests_on_identity(self@);
        }
        Project {
            id: self.id,
            short_id: self.short_id.clone(),
            name: self.name.clone(),
            description: self.description.clone(),
            allowed_origins: clone_texts(&self.allowed_origins),
            allowed_methods: clone_texts(&self.allowed_methods),
            allowed_headers: clone_texts(&self.allowed_headers),
            routes: clone_texts(&self.routes),
            token: self.token.clone(),
        }
    }
}

impl Project {
    #[verifier::type_invariant]
    spec fn inv(self) -> bool {
        self@.wf()
    }

    /// Creates a project with a random identifier and issues its token against the clock.
    pub fn new(name: String, description: String) -> (r: Result<Project, TokenError>)
        ensures
            exists|id: [u8; 16], now: i64|
                in_clock_range(now as int) && outcome(r) == #[trigger] ProjectView::creation(
                    id@,
                    name@,
                    description@,
                    now as int,
                ) && (r matches Ok(project) ==> project@.created_at(now as int)),
            r matches Ok(project) ==> project@.wf(),
    {
        let id = random_id();
        let now: i64 = unix_now();
        Project::create(id, name, description, now)
    }

    /// Creates the project with the identifier `id` as of the second `now`.
    pub fn create(id: [u8; 16], name: String, description: String, now: i64) -> (r: Result<
        Project,
        TokenError,
    >)
        ensures
            outcome(r) == ProjectView::creation(id@, name@, description@, now as int),
            r matches Ok(project) ==> project@.wf() && project@.created_at(now as int),
    {
        let text = hyphenated(&id);
        let auth = JwtAuth::new(generate_secret_key(&id));
        let token = match auth.generate_token_at(text.as_str(), now) {
            Ok(token) => token,
            Err(e) => { return Err(e); },
        };
        let short_id = uuid_to_short_id(&id);
        proof {
            assert forall|made: ProjectView|
                made.id == id@ && made.short_id == short_id@ && made.token
                    == token@ implies #[trigger] made.wf() by {
                assert(is_own_token(made.id, made.token, now as int));
            }
        }
        let mut routes: Vec<String> = Vec::new();
        routes.push("/".to_string());
        routes.push("/ping".to_string());
        routes.push("/health".to_string());
        let project = Project {
            id,
            short_id,
            name,
            description,
            allowed_origins: Vec::new(),
            allowed_methods: Vec::new(),
            allowed_headers: Vec::new(),
            routes,
            token,
        };
        proof {
            assert(project@.routes =~= introspection_paths());
            assert(project@.allowed_origins =~= Seq::<Seq<char>>::empty());
            assert(project@.allowed_methods =~= Seq::<Seq<char>>::empty());
            assert(project@.allowed_headers =~= Seq::<Seq<char>>::empty());
        }
        Ok(project)
    }

    /// The identifier, as its sixteen bytes.
    pub fn id(&self) -> (id: &[u8; 16])
        ensures
            id@ == self@.id,
            self@.wf(),
    {
        proof {
            use_type_invariant(self);
        }
        &self.id
    }

    /// The short identifier, under which the gateway reaches the project.
    pub fn short_id(&self) -> (short_id: &str)
        ensures
            short_id@ == self@.short_id,
            self@.wf(),
    {
        proof {
            use_type_invariant(self);
        }
        self.short_id.as_str()
    }

    /// The name.
    pub fn name(&self) -> (name: &str)
        ensures
            name@ == self@.name,
    {
        self.name.as_str()
    }

    /// The description.
    pub fn description(&self) -> (description: &str)
        ensures
            description@ == self@.description,
    {
        self.description.as_str()
    }

    /// The token that was issued when the project was created.
    pub fn token(&self) -> (token: &str)
        ensures
            token@ == self@.token,
            self@.holds_own_token(),
    {
        proof {
            use_type_invariant(self);
        }
        self.token.as_str()
    }

    /// The paths of the project's routes, in the order in which they were registered.
    pub fn routes(&self) -> (routes: &Vec<String>)
        ensures
            texts(routes@) == self@.routes,
    {
        &self.routes
    }

    /// Appends `origin` to the allowed origins.
    pub fn allow_origin(&mut self, origin: &str)
        ensures
            final(self)@ == (ProjectView {
                allowed_origins: old(self)@.allowed_origins.push(origin@),
                ..old(self)@
            }),
    {
        proof {
            use_type_invariant(&*self);
            lemma_wf_rests_on_identity(self@);
        }
        let mut list: Vec<String> = Vec::new();
        core::mem::swap(&mut self.allowed_origins, &mut list);
        self.allowed_origins = with_text(list, origin);
    }

    /// Appends `method` to the allowed methods.
    pub fn allow_method(&mut self, method: &str)
        ensures
            final(self)@ == (ProjectView {
                allowed_methods: old(self)@.allowed_methods.push(method@),
                ..old(self)@
            }),
    {
        proof {
            use_type_invariant(&*self);
            lemma_wf_rests_on_identity(self@);
        }
        let mut list: Vec<String> = Vec::new();
        core::mem::swap(&mut self.allowed_methods, &mut list);
        self.allowed_methods = with_text(list, method);
    }

    /// Appends `header` to the allowed request headers.
    pub fn allow_header(&mut self, header: &str)
        ensures
            final(self)@ == (ProjectView {
                allowed_headers: old(self)@.allowed_headers.push(header@),
                ..old(self)@
            }),
    {
        proof {
            use_type_invariant(&*self);
            lemma_wf_rests_on_identity(self@);
        }
        let mut list: Vec<String> = Vec::new();
        core::mem::swap(&mut self.allowed_headers, &mut list);
        self.allowed_headers = with_text(list, header);
    }

    /// Registers the path pattern of one more route.
    pub fn add_route(&mut self, path: &str)
        ensures
            final(self)@ == (ProjectView { routes: old(self)@.routes.push(path@), ..old(self)@ }),
    {
        proof {
            use_type_invariant(&*self);
            lemma_wf_rests_on_identity(self@);
        }
        let mut list: Vec<String> = Vec::new();
        core::mem::swap(&mut self.routes, &mut list);
        self.routes = with_text(list, path);
    }

    /// Empties the allowed origins, so that every origin is allowed again.
    pub fn allow_all_origins(&mut self)
        ensures
            final(self)@ == (ProjectView { allowed_origins: Seq::empty(), ..old(self)@ }),
    {
        proof {
            use_type_invariant(&*self);
            lemma_wf_rests_on_identity(self@);
        }
        self.allowed_origins = Vec::new();
        proof {
            assert(texts(self.allowed_origins@) =~= Seq::<Seq<char>>::empty());
        }
    }

    /// Empties the allowed methods, so that the default methods are allowed again.
    pub fn allow_all_methods(&mut self)
        ensures
            final(self)@ == (ProjectView { allowed_methods: Seq::empty(), ..old(self)@ }),
    {
        proof {
            use_type_invariant(&*self);
            lemma_wf_rests_on_identity(self@);
        }
        self.allowed_methods = Vec::new();
        proof {
            assert(texts(self.allowed_methods@) =~= Seq::<Seq<char>>::empty());
        }
    }

    /// Replaces the allowed headers by the wildcard alone.
    pub fn allow_all_headers(&mut self)
        ensures
            final(self)@ == (ProjectView { allowed_headers: seq![wildcard()], ..old(self)@ }),
    {
        proof {
            use_type_invariant(&*self);
            lemma_wf_rests_on_identity(self@);
        }
        let mut list: Vec<String> = Vec::new();
        list.push("*".to_string());
        self.allowed_headers = list;
        proof {
            assert(texts(self.allowed_headers@) =~= seq![wildcard()]);
        }
    }

    /// Allows every origin, the default methods and every header.
    pub fn allow_defaults(&mut self)
        ensures
            final(self)@ == (ProjectView {
                allowed_origins: Seq::empty(),
                allowed_methods: Seq::empty(),
                allowed_headers: seq![wildcard()],
                ..old(self)@
            }),
    {
        self.allow_all_origins();
        self.allow_all_methods();
        self.allow_all_headers();
    }

    /// The cross-origin policy that the three allow-lists stand for.
    pub fn cors(&self) -> (policy: CorsPolicy)
        ensures
            policy@ == policy_of(
                self@.allowed_origins,
                self@.allowed_methods,
                self@.allowed_headers,
            ),
    {
        let origins = if self.allowed_origins.len() == 0 {
            None
        } else {
            Some(clone_texts(&self.allowed_origins))
        };
        let methods = if self.allowed_methods.len() == 0 {
            let mut defaults: Vec<String> = Vec::new();
            defaults.push("GET".to_string());
            defaults.push("POST".to_string());
            proof {
                assert(texts(defaults@) =~= default_methods());
            }
            defaults
        } else {
            clone_texts(&self.allowed_methods)
        };
        let headers = if self.allowed_headers.len() == 0 {
            let mut all: Vec<String> = Vec::new();
            all.push("*".to_string());
            proof {
                assert(texts(all@) =~= seq![wildcard()]);
            }
            all
        } else {
            clone_texts(&self.allowed_headers)
        };
        CorsPolicy { origins, methods, headers }
    }

    /// The signing key of this project.
    pub fn secret_key(&self) -> (key: String)
        ensures
            key@ == secret_key_of(self@.id),
    {
        generate_secret_key(&self.id)
    }

    /// Whether this project accepts `token` at the second `now`: the token is signed with
    /// the project's key, has not expired, and names this project.
    pub fn validate_token_at(&self, token: &str, now: i64) -> (ok: bool)
        ensures
            ok == self@.accepts(token@, now as int),
    {
        let auth = JwtAuth::new(self.secret_key());
        match auth.validate_token_at(token, now) {
            Ok(claims) => {
                let own = hyphenated(&self.id);
                claims.project_id.as_str().eq(own.as_str())
            },
            Err(_) => false,
        }
    }

    /// Whether this project accepts `token` now.
    pub fn validate_token(&self, token: &str) -> (ok: bool)
        ensures
            exists|now: i64|
                in_clock_range(now as int) && ok == #[trigger] self@.accepts(token@, now as int),
    {
        let now: i64 = unix_now();
        self.validate_token_at(token, now)
    }

    /// The authentication gate as of the second `now`: whether a request that carries
    /// this `Authorization` header, if any, goes on to its handler.
    pub fn authorize_at(&self, authorization: Option<&str>, now: i64) -> (ok: bool)
        ensures
            ok == self@.admits(header_text(authorization), now as int),
    {
        match authorization {
            None => false,
            Some(header) => match parse_bearer(header) {
                None => false,
                Some(token) => self.validate_token_at(token.as_str(), now),
            },
        }
    }

    /// The authentication gate, against the clock.
    pub fn authorize(&self, authorization: Option<&str>) -> (ok: bool)
        ensures
            exists|now: i64|
                in_clock_range(now as int) && ok == #[trigger] self@.admits(
                    header_text(authorization),
                    now as int,
                ),
    {
        let now: i64 = unix_now();
        self.authorize_at(authorization, now)
    }

    /// The middleware chain as of the second `now`: the cross-origin layer first, then
    /// the authentication gate.
    pub fn screen_at(&self, method: &str, authorization: Option<&str>, now: i64) -> (verdict:
        Screening)
        ensures
            verdict == self@.screens(method@, header_text(authorization), now as int),
    {
        if method.eq("OPTIONS") {
            Screening::Preflight
        } else if self.authorize_at(authorization, now) {
            Screening::Forward
        } else {
            Screening::Unauthorized
        }
    }

    /// The middleware chain, against the clock.
    pub fn screen(&self, method: &str, authorization: Option<&str>) -> (verdict: Screening)
        ensures
            exists|now: i64|
                in_clock_range(now as int) && verdict == #[trigger] self@.screens(
                    method@,
                    header_text(authorization),
                    now as int,
                ),
    {
        let now: i64 = unix_now();
        self.screen_at(method, authorization, now)
    }

    /// The answer of the introspection route at `path`, if `path` is one.
    pub fn static_reply(path: &str) -> (reply: Option<&'static str>)
        ensures
            match reply {
                Some(body) => introspection_reply(path@) == Some(body@),
                None => introspection_reply(path@) is None,
            },
    {
        if path.eq("/") {
            Some("Hello! this is inside project")
        } else if path.eq("/ping") {
            Some("pong")
        } else if path.eq("/health") {
            Some("OK")
        } else {
            None
        }
    }
}

} // verus!
