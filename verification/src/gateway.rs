use crate::auth::clock::{in_clock_range, unix_now};
use crate::auth::jwt::TOKEN_LIFETIME_SECS;
use crate::project::{
    bearer_header, header_text, introspection_reply, law_own_token_is_admitted,
    law_token_of_another_project_is_rejected, Project, ProjectView, Screening,
};
use crate::registry::{
    added, has_short_id, law_removed_is_not_listed, lemma_position, registry_wf, removed, views,
    ProjectRegistry, RegistryError,
};
use crate::routing::{
    fixed_reply, global_route, law_registered_project_is_reached, routed, split_tenant,
    tenant_segment, Route, RouteView,
};
use vstd::prelude::*;
use vstd::string::StringExecFns;

verus! {

/// The port on which a gateway listens unless told otherwise.
pub const DEFAULT_PORT: u16 = 3195;

/// The gateway: it owns the registry of projects and decides where each request goes.
pub struct BitSink {
    registry: ProjectRegistry,
    port: u16,
}

/// What becomes of a request before any handler of a tenant runs.
#[derive(Debug)]
pub enum Handling {
    /// The gateway, the authentication gate or an introspection route answers.
    Reply { status: u16, body: String },
    /// The directory of the registered projects is served.
    Directory,
    /// The cross-origin layer of the project at `index` answers the preflight.
    Preflight { index: usize },
    /// The request is authenticated and goes, with the path `path`, to the route table of
    /// the project at `index`.
    Forward { index: usize, path: String },
}

/// A handling, with its texts taken by their views.
pub enum HandlingView {
    Reply { status: u16, body: Seq<char> },
    Directory,
    Preflight { index: int },
    Forward { index: int, path: Seq<char> },
}

impl View for Handling {
    type V = HandlingView;

    open spec fn view(&self) -> HandlingView {
        match *self {
            Handling::Reply { status, body } => HandlingView::Reply { status, body: body@ },
            Handling::Directory => HandlingView::Directory,
            Handling::Preflight { index } => HandlingView::Preflight { index: index as int },
            Handling::Forward { index, path } => HandlingView::Forward {
                index: index as int,
                path: path@,
            },
        }
    }
}

/// What becomes of a request at the second `now` when `list` is registered. The global
/// routes come first; they answer every method, but for the directory, which is served on
/// `GET` and `HEAD` alone. A path that leads to no project is not found, whatever it
/// carries.
/// A request for a project passes that project's cross-origin layer, which answers every
/// preflight, then its authentication gate, which answers with 401 unless the
/// `Authorization` header holds a token that the project accepts; behind the two the
/// introspection routes answer, and every other path goes to the route table.
pub open spec fn handled(
    list: Seq<ProjectView>,
    method: Seq<char>,
    path: Seq<char>,
    authorization: Option<Seq<char>>,
    now: int,
) -> HandlingView {
    match routed(list, path) {
        RouteView::Projects => if method == "GET"@ || method == "HEAD"@ {
            HandlingView::Directory
        } else {
            HandlingView::Reply { status: 405, body: Seq::empty() }
        },
        RouteView::Tenant { index, path } => match list[index].screens(
            method,
            authorization,
            now,
        ) {
            Screening::Preflight => HandlingView::Preflight { index },
            Screening::Unauthorized => HandlingView::Reply { status: 401, body: Seq::empty() },
            Screening::Forward => match introspection_reply(path) {
                Some(body) => HandlingView::Reply { status: 200, body },
                None => HandlingView::Forward { index, path },
            },
        },
        route => match fixed_reply(route) {
            Some((status, body)) => HandlingView::Reply { status, body },
            None => HandlingView::Directory,
        },
    }
}

/// The path of the ping route of the project with the short identifier `short_id`.
pub open spec fn ping_path(short_id: Seq<char>) -> Seq<char> {
    seq!['/'] + short_id + "/ping"@
}

/// A request for the ping route of a registered project is answered with 200 and `pong`
/// where its `Authorization` header holds a token that the project accepts, and with 401
/// where it holds none or another; a preflight is left to the cross-origin layer.
pub proof fn law_ping_of_a_registered_project(
    list: Seq<ProjectView>,
    index: int,
    method: Seq<char>,
    authorization: Option<Seq<char>>,
    now: int,
)
    requires
        registry_wf(list),
        0 <= index < list.len(),
    ensures
        handled(list, method, ping_path(list[index].short_id), authorization, now) == (
        if method == "OPTIONS"@ {
            HandlingView::Preflight { index }
        } else if list[index].admits(authorization, now) {
            HandlingView::Reply { status: 200, body: "pong"@ }
        } else {
            HandlingView::Reply { status: 401, body: Seq::empty() }
        }),
        !list[index].admits(None, now),
{
    reveal_strlit("/ping");
    reveal_strlit("/");
    law_registered_project_is_reached(list, index, "/ping"@);
}

/// A request for the ping route of a registered project that carries, as a bearer token,
/// the token that the project was created with is answered with 200 and `pong` at every
/// instant before the project's creation plus the lifetime, and with 401 from then on.
pub proof fn law_ping_with_own_token(
    list: Seq<ProjectView>,
    index: int,
    method: Seq<char>,
    created: int,
    now: int,
)
    requires
        registry_wf(list),
        0 <= index < list.len(),
        list[index].created_at(created),
        method != "OPTIONS"@,
    ensures
        handled(
            list,
            method,
            ping_path(list[index].short_id),
            Some(bearer_header(list[index].token)),
            now,
        ) == (if now < created + TOKEN_LIFETIME_SECS {
            HandlingView::Reply { status: 200, body: "pong"@ }
        } else {
            HandlingView::Reply { status: 401, body: Seq::empty() }
        }),
{
    law_own_token_is_admitted(list[index], created, now);
    law_ping_of_a_registered_project(
        list,
        index,
        method,
        Some(bearer_header(list[index].token)),
        now,
    );
}

/// A request for the ping route of a registered project that carries, as a bearer token,
/// the token that another project was created with is answered with 401.
pub proof fn law_ping_with_token_of_another_project(
    list: Seq<ProjectView>,
    index: int,
    other: ProjectView,
    method: Seq<char>,
    created: int,
    now: int,
)
    requires
        registry_wf(list),
        0 <= index < list.len(),
        other.id.len() == 16,
        other.id != list[index].id,
        other.created_at(created),
        method != "OPTIONS"@,
    ensures
        handled(
            list,
            method,
            ping_path(list[index].short_id),
            Some(bearer_header(other.token)),
            now,
        ) == (HandlingView::Reply { status: 401, body: Seq::empty() }),
{
    assert(list[index].wf());
    law_token_of_another_project_is_rejected(list[index], other, created, now);
    law_ping_of_a_registered_project(
        list,
        index,
        method,
        Some(bearer_header(other.token)),
        now,
    );
}

/// A request whose path is no global route and names no registered project is answered
/// with 404, whatever its method and whatever token it carries.
pub proof fn law_unregistered_project_is_not_found(
    list: Seq<ProjectView>,
    method: Seq<char>,
    path: Seq<char>,
    authorization: Option<Seq<char>>,
    now: int,
)
    requires
        global_route(path) is None,
        !has_short_id(list, tenant_segment(path)),
    ensures
        handled(list, method, path, authorization, now) == (HandlingView::Reply {
            status: 404,
            body: "Project not found"@,
        }),
{
    lemma_position(list, tenant_segment(path));
}

/// Once a project is removed, every request for its short identifier is answered with
/// 404, whatever token it carries.
pub proof fn law_removed_project_is_not_found(
    list: Seq<ProjectView>,
    short_id: Seq<char>,
    method: Seq<char>,
    path: Seq<char>,
    authorization: Option<Seq<char>>,
    now: int,
)
    requires
        global_route(path) is None,
        tenant_segment(path) == short_id,
    ensures
        handled(removed(list, short_id), method, path, authorization, now) == (
        HandlingView::Reply { status: 404, body: "Project not found"@ }),
{
    law_removed_is_not_listed(list, short_id);
    law_unregistered_project_is_not_found(
        removed(list, short_id),
        method,
        path,
        authorization,
        now,
    );
}

/// The directory lists a project that was just registered last, on a line of its own
/// behind the entries that were there before.
pub proof fn law_directory_shows_added(list: Seq<ProjectView>, project: ProjectView)
    requires
        added(list, project) is Ok,
    ensures
        directory_entries(added(list, project)->Ok_0) == (if list.len() == 0 {
            directory_entry(project)
        } else {
            directory_entries(list) + "\n"@ + directory_entry(project)
        }),
{
    let after = list.push(project);
    assert(after.drop_last() =~= list);
    assert(after.last() == project);
    assert(after[0] == if list.len() == 0 { project } else { list[0] });
}

/// The entry of one project in the directory.
pub open spec fn directory_entry(project: ProjectView) -> Seq<char> {
    "<li><a href=\"/"@ + project.short_id + "\">"@ + project.name + "</a></li>"@
}

/// The entries of `list`, one per line.
pub open spec fn directory_entries(list: Seq<ProjectView>) -> Seq<char>
    decreases list.len(),
{
    if list.len() == 0 {
        Seq::empty()
    } else if list.len() == 1 {
        directory_entry(list[0])
    } else {
        directory_entries(list.drop_last()) + "\n"@ + directory_entry(list.last())
    }
}

/// What the directory page holds before its entries.
pub open spec fn directory_head() -> Seq<char> {
    "<!DOCTYPE html>\n        <html>\n            <head><title>Projects</title></head>\n            <body>\n                <h1>Projects</h1>\n                <ul>"@
}

/// What the directory page holds behind its entries.
pub open spec fn directory_tail() -> Seq<char> {
    "</ul>\n            </body>\n        </html>"@
}

/// The page that lists `list`: each project by name, linked to its short identifier.
pub open spec fn directory_page(list: Seq<ProjectView>) -> Seq<char> {
    directory_head() + directory_entries(list) + directory_tail()
}

/// What a gateway is to the contracts: its registered projects, in order, and its port.
pub struct BitSinkView {
    pub projects: Seq<ProjectView>,
    pub port: u16,
}

impl View for BitSink {
    type V = BitSinkView;

    closed spec fn view(&self) -> BitSinkView {
        BitSinkView { projects: self.registry@, port: self.port }
    }
}

impl BitSink {
    /// A gateway without projects, on the default port.
    pub fn new() -> (sink: Self)
        ensures
            sink@ == (BitSinkView { projects: Seq::empty(), port: DEFAULT_PORT }),
    {
        BitSink { registry: ProjectRegistry::new(), port: DEFAULT_PORT }
    }

    /// The port on which this gateway is to listen.
    pub fn port(&self) -> (port: u16)
        ensures
            port == self@.port,
    {
        self.port
    }

    /// The registry of this gateway.
    pub fn registry(&self) -> (registry: &ProjectRegistry)
        ensures
            registry@ == self@.projects,
    {
        &self.registry
    }

    /// A snapshot of the registered projects, in order.
    pub fn projects(&self) -> (snapshot: Vec<Project>)
        ensures
            views(snapshot@) == self@.projects,
            registry_wf(self@.projects),
    {
        self.registry.list()
    }

    /// Registers `project`, unless its short identifier is reserved or taken.
    pub fn add_project(&mut self, project: Project) -> (r: Result<(), RegistryError>)
        ensures
            match added(old(self)@.projects, project@) {
                Ok(list) => r is Ok && final(self)@ == (BitSinkView {
                    projects: list,
                    ..old(self)@
                }),
                Err(e) => r == Err::<(), RegistryError>(e) && final(self)@ == old(self)@,
            },
            registry_wf(final(self)@.projects),
    {
        self.registry.add(project)
    }

    /// Takes out the project with the short identifier `project_id`, if there is one.
    pub fn remove_project(&mut self, project_id: &str) -> (r: Result<(), RegistryError>)
        ensures
            r is Ok,
            final(self)@ == (BitSinkView {
                projects: removed(old(self)@.projects, project_id@),
                ..old(self)@
            }),
            registry_wf(final(self)@.projects),
    {
        self.registry.remove(project_id);
        Ok(())
    }

    /// Decides where a request for `path` goes.
    pub fn route(&self, path: &str) -> (route: Route)
        ensures
            route@ == routed(self@.projects, path@),
    {
        if path.eq("/") {
            return Route::Welcome;
        }
        if path.eq("/ping") {
            return Route::Ping;
        }
        if path.eq("/health") {
            return Route::Health;
        }
        if path.eq("/projects") {
            return Route::Projects;
        }
        let (segment, rest) = split_tenant(path);
        match self.registry.position(segment.as_str()) {
            Some(index) => Route::Tenant { index, path: rest },
            None => Route::NotFound,
        }
    }

    /// Decides what becomes of a request as of the second `now`.
    pub fn handle_at(
        &self,
        method: &str,
        path: &str,
        authorization: Option<&str>,
        now: i64,
    ) -> (handling: Handling)
        ensures
            handling@ == handled(
                self@.projects,
                method@,
                path@,
                header_text(authorization),
                now as int,
            ),
    {
        let route = self.route(path);
        match route {
            Route::Projects => if method.eq("GET") || method.eq("HEAD") {
                Handling::Directory
            } else {
                Handling::Reply { status: 405, body: String::new() }
            },
            Route::Tenant { index, path: rest } => {
                proof {
                    lemma_position(self@.projects, tenant_segment(path@));
                }
                let project = match self.registry.get(index) {
                    Some(project) => project,
                    None => { return Handling::Directory; },
                };
                match project.screen_at(method, authorization, now) {
                    Screening::Preflight => Handling::Preflight { index },
                    Screening::Unauthorized => Handling::Reply { status: 401, body: String::new() },
                    Screening::Forward => match Project::static_reply(rest.as_str()) {
                        Some(body) => Handling::Reply { status: 200, body: body.to_string() },
                        None => Handling::Forward { index, path: rest },
                    },
                }
            },
            route => match route.fixed_reply() {
                Some(answer) => Handling::Reply { status: answer.0, body: answer.1.to_string() },
                None => Handling::Directory,
            },
        }
    }

    /// Decides what becomes of a request, against the clock.
    pub fn handle(&self, method: &str, path: &str, authorization: Option<&str>) -> (handling:
        Handling)
        ensures
            exists|now: i64|
                in_clock_range(now as int) && handling@ == #[trigger] handled(
                    self@.projects,
                    method@,
                    path@,
                    header_text(authorization),
                    now as int,
                ),
    {
        let now: i64 = unix_now();
        self.handle_at(method, path, authorization, now)
    }

    /// Renders the directory of the registered projects.
    pub fn projects_page(&self) -> (page: String)
        ensures
            page@ == directory_page(self@.projects),
    {
        let n = self.registry.len();
        let mut page =
            "<!DOCTYPE html>\n        <html>\n            <head><title>Projects</title></head>\n            <body>\n                <h1>Projects</h1>\n                <ul>".to_string();
        let mut i: usize = 0;
        while i < n
            invariant
                i <= n,
                n == self@.projects.len(),
                page@ == directory_head() + directory_entries(self@.projects.take(i as int)),
            decreases n - i,
        {
            let project = match self.registry.get(i) {
                Some(project) => project,
                None => { return page; },
            };
            if i > 0 {
                page.append("\n");
            }
            page.append("<li><a href=\"/");
            page.append(project.short_id());
            page.append("\">");
            page.append(project.name());
            page.append("</a></li>");
            proof {
                let shown = self@.projects.take(i + 1);
                assert(shown.drop_last() =~= self@.projects.take(i as int));
                assert(shown.last() == self@.projects[i as int]);
                if i > 0 {
                    assert(page@ =~= directory_head() + (directory_entries(shown.drop_last())
                        + "\n"@ + directory_entry(shown.last())));
                } else {
                    assert(shown[0] == self@.projects[0]);
                    assert(page@ =~= directory_head() + directory_entry(shown[0]));
                }
            }
            i += 1;
        }
        page.append("</ul>\n            </body>\n        </html>");
        proof {
            assert(self@.projects.take(n as int) =~= self@.projects);
        }
        page
    }
}

} // verus!
