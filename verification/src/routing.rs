use crate::project::identity::is_short_id_char;
use crate::project::ProjectView;
use crate::registry::{has_short_id, is_reserved, lemma_position, position, registry_wf};
use crate::text::{chars_of, text_of};
use vstd::prelude::*;

verus! {

/// What the gateway does with a request path.
#[derive(Debug)]
pub enum Route {
    /// The gateway's own root.
    Welcome,
    /// The gateway's own ping.
    Ping,
    /// The gateway's own health check.
    Health,
    /// The directory of the registered projects.
    Projects,
    /// The request goes to the project at `index` of the registry, with the tenant prefix
    /// taken off its path.
    Tenant { index: usize, path: String },
    /// No global route and no project matches.
    NotFound,
}

/// A route, with the path taken by its view.
pub enum RouteView {
    Welcome,
    Ping,
    Health,
    Projects,
    Tenant { index: int, path: Seq<char> },
    NotFound,
}

impl View for Route {
    type V = RouteView;

    open spec fn view(&self) -> RouteView {
        match *self {
            Route::Welcome => RouteView::Welcome,
            Route::Ping => RouteView::Ping,
            Route::Health => RouteView::Health,
            Route::Projects => RouteView::Projects,
            Route::Tenant { index, path } => RouteView::Tenant { index: index as int, path: path@ },
            Route::NotFound => RouteView::NotFound,
        }
    }
}

/// The first index at or after `from` at which `path` has a slash, or its length.
pub open spec fn next_slash(path: Seq<char>, from: int) -> int
    decreases path.len() - from,
{
    if 0 <= from < path.len() && path[from] != '/' {
        next_slash(path, from + 1)
    } else {
        from
    }
}

/// The segment that names the tenant: what stands between the first slash of `path` and
/// the next one, or the end. It is empty where `path` has no slash.
pub open spec fn tenant_segment(path: Seq<char>) -> Seq<char> {
    let first = next_slash(path, 0);
    if first < path.len() {
        path.subrange(first + 1, next_slash(path, first + 1))
    } else {
        Seq::empty()
    }
}

/// The path that is handed on to the tenant: `path` without the leading slash and the
/// tenant segment. Where nothing is left, or `path` does not begin with the two, it is the
/// root path.
pub open spec fn forwarded_path(path: Seq<char>) -> Seq<char> {
    let prefix = seq!['/'] + tenant_segment(path);
    if prefix.is_prefix_of(path) && prefix.len() < path.len() {
        path.skip(prefix.len() as int)
    } else {
        seq!['/']
    }
}

/// The global route at `path`, if `path` is one.
pub open spec fn global_route(path: Seq<char>) -> Option<RouteView> {
    if path == "/"@ {
        Some(RouteView::Welcome)
    } else if path == "/ping"@ {
        Some(RouteView::Ping)
    } else if path == "/health"@ {
        Some(RouteView::Health)
    } else if path == "/projects"@ {
        Some(RouteView::Projects)
    } else {
        None
    }
}

/// Where a request for `path` goes when `list` is registered: the global routes come
/// first; then the project whose short identifier is the tenant segment; else nowhere.
pub open spec fn routed(list: Seq<ProjectView>, path: Seq<char>) -> RouteView {
    match global_route(path) {
        Some(route) => route,
        None => match position(list, tenant_segment(path)) {
            Some(index) => RouteView::Tenant { index, path: forwarded_path(path) },
            None => RouteView::NotFound,
        },
    }
}

/// The status and the body of the answer that the gateway gives by itself.
pub open spec fn fixed_reply(route: RouteView) -> Option<(u16, Seq<char>)> {
    match route {
        RouteView::Welcome => Some((200u16, "Welcome to BitSink"@)),
        RouteView::Ping => Some((200u16, "pong"@)),
        RouteView::Health => Some((200u16, "OK"@)),
        RouteView::NotFound => Some((404u16, "Project not found"@)),
        _ => None,
    }
}

/// `next_slash` lies between `from` and the end, at a slash unless it is the end, and no
/// slash stands before it.
pub proof fn lemma_next_slash(path: Seq<char>, from: int)
    requires
        0 <= from <= path.len(),
    ensures
        from <= next_slash(path, from) <= path.len(),
        next_slash(path, from) < path.len() ==> path[next_slash(path, from)] == '/',
        forall|k: int| from <= k < next_slash(path, from) ==> path[k] != '/',
    decreases path.len() - from,
{
    if from < path.len() && path[from] != '/' {
        lemma_next_slash(path, from + 1);
    }
}

/// `next_slash` is the only index that has a slash, or is the length, with no slash
/// between `from` and it.
proof fn lemma_next_slash_is(path: Seq<char>, from: int, at: int)
    requires
        0 <= from <= at <= path.len(),
        at < path.len() ==> path[at] == '/',
        forall|k: int| from <= k < at ==> path[k] != '/',
    ensures
        next_slash(path, from) == at,
    decreases at - from,
{
    if from < at {
        lemma_next_slash_is(path, from + 1, at);
    }
}

/// The global routes come first, whatever is registered.
pub proof fn law_global_routes_win(list: Seq<ProjectView>, path: Seq<char>)
    requires
        global_route(path) is Some,
    ensures
        routed(list, path) == global_route(path)->Some_0,
{
}

/// A path that is no global route and whose tenant segment names no registered project
/// is not found.
pub proof fn law_unregistered_is_not_found(list: Seq<ProjectView>, path: Seq<char>)
    requires
        global_route(path) is None,
        !has_short_id(list, tenant_segment(path)),
    ensures
        routed(list, path) == RouteView::NotFound,
{
    lemma_position(list, tenant_segment(path));
}

/// Every registered project is reached under its short identifier: a slash, the short
/// identifier and then nothing or a path of its own lead to it, and that path, or the
/// root path where there is none, is handed on.
pub proof fn law_registered_project_is_reached(list: Seq<ProjectView>, index: int, rest: Seq<char>)
    requires
        registry_wf(list),
        0 <= index < list.len(),
        rest.len() == 0 || rest[0] == '/',
    ensures
        routed(list, seq!['/'] + list[index].short_id + rest) == (RouteView::Tenant {
            index,
            path: if rest.len() == 0 {
                seq!['/']
            } else {
                rest
            },
        }),
{
    let short_id = list[index].short_id;
    let path = seq!['/'] + short_id + rest;
    let end = short_id.len() as int + 1;
    assert(list[index].wf());
    assert(!is_reserved(short_id));
    assert forall|k: int| 1 <= k < end implies path[k] != '/' by {
        assert(path[k] == short_id[k - 1]);
        assert(is_short_id_char(short_id[k - 1]));
    }
    assert(end < path.len() ==> path[end] == rest[0]);
    lemma_next_slash_is(path, 0, 0);
    lemma_next_slash_is(path, 1, end);
    assert(tenant_segment(path) =~= short_id);
    lemma_position(list, short_id);
    let prefix = seq!['/'] + tenant_segment(path);
    assert(prefix =~= path.subrange(0, end));
    assert(prefix.is_prefix_of(path));
    if rest.len() > 0 {
        assert(path.skip(prefix.len() as int) =~= rest);
    }
    assert(global_route(path) is None) by {
        reveal_strlit("/");
        reveal_strlit("/ping");
        reveal_strlit("/health");
        reveal_strlit("/projects");
        reveal_strlit("ping");
        reveal_strlit("health");
        reveal_strlit("projects");
        if path == "/ping"@ {
            assert("ping"@ =~= "/ping"@.subrange(1, next_slash("/ping"@, 1))) by {
                lemma_next_slash_is("/ping"@, 1, 5);
            }
        }
        if path == "/health"@ {
            assert("health"@ =~= "/health"@.subrange(1, next_slash("/health"@, 1))) by {
                lemma_next_slash_is("/health"@, 1, 7);
            }
        }
        if path == "/projects"@ {
            assert("projects"@ =~= "/projects"@.subrange(1, next_slash("/projects"@, 1))) by {
                lemma_next_slash_is("/projects"@, 1, 9);
            }
        }
    }
}

/// The index of the first slash of `chars` at or after `from`, or its length.
fn find_slash(chars: &Vec<char>, from: usize) -> (at: usize)
    requires
        from <= chars.len(),
    ensures
        at == next_slash(chars@, from as int),
        from <= at <= chars.len(),
{
    let mut i: usize = from;
    while i < chars.len() && chars[i] != '/'
        invariant
            from <= i <= chars.len(),
            next_slash(chars@, from as int) == next_slash(chars@, i as int),
        decreases chars.len() - i,
    {
        i += 1;
    }
    i
}

/// Splits a request path into the tenant segment and the path that is handed on.
pub fn split_tenant(path: &str) -> (parts: (String, String))
    ensures
        parts.0@ == tenant_segment(path@),
        parts.1@ == forwarded_path(path@),
{
    let chars = chars_of(path);
    let first = find_slash(&chars, 0);
    if first >= chars.len() {
        let segment = String::new();
        proof {
            let prefix = seq!['/'] + tenant_segment(path@);
            lemma_next_slash(path@, 0);
            if prefix.is_prefix_of(path@) {
                assert(path@[0] == prefix[0]);
            }
            reveal_strlit("/");
            assert("/"@ =~= seq!['/']);
        }
        return (segment, "/".to_string());
    }
    let end = find_slash(&chars, first + 1);
    let segment = text_of(&chars, first + 1, end);
    proof {
        reveal_strlit("/");
        assert("/"@ =~= seq!['/']);
        lemma_next_slash(path@, 0);
    }
    let ghost prefix = seq!['/'] + segment@;
    if first == 0 && end < chars.len() {
        let rest = text_of(&chars, end, chars.len());
        proof {
            assert(prefix =~= path@.subrange(0, end as int));
            assert(prefix.is_prefix_of(path@));
            assert(rest@ =~= path@.skip(prefix.len() as int));
        }
        (segment, rest)
    } else {
        proof {
            if first == 0 {
                assert(prefix.len() == path@.len());
            } else {
                if prefix.is_prefix_of(path@) {
                    assert(path@[0] == prefix[0]);
                }
            }
        }
        (segment, "/".to_string())
    }
}

impl Route {
    /// The status and the body of the answer that the gateway gives by itself; `None`
    /// for the directory, which depends on the registry, and for a tenant's request.
    pub fn fixed_reply(&self) -> (reply: Option<(u16, &'static str)>)
        ensures
            match reply {
                Some(answer) => fixed_reply(self@) == Some((answer.0, answer.1@)),
                None => fixed_reply(self@) is None,
            },
    {
        match self {
            Route::Welcome => Some((200, "Welcome to BitSink")),
            Route::Ping => Some((200, "pong")),
            Route::Health => Some((200, "OK")),
            Route::NotFound => Some((404, "Project not found")),
            _ => None,
        }
    }
}

} // verus!
