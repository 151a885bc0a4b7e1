use bitsink::gateway::{Handling, DEFAULT_PORT};
use bitsink::project::{Project, Screening};
use bitsink::registry::RegistryError;
use bitsink::routing::Route;
use bitsink::BitSink;
use std::sync::Arc;

fn project(seed: u8, name: &str) -> Project {
    Project::create([seed; 16], name.to_string(), "d".to_string(), 1000).unwrap()
}

fn status(sink: &BitSink, method: &str, path: &str, authorization: Option<&str>, now: i64) -> u16 {
    match sink.route(path) {
        Route::Tenant { index, path } => {
            let tenant = sink.registry().get(index).unwrap();
            match tenant.screen_at(method, authorization, now) {
                Screening::Preflight => 200,
                Screening::Unauthorized => 401,
                Screening::Forward => match Project::static_reply(&path) {
                    Some(_) => 200,
                    None => 404,
                },
            }
        }
        Route::Projects => 200,
        other => other.fixed_reply().unwrap().0,
    }
}

#[test]
fn new_gateway_is_empty_on_the_default_port() {
    let sink = BitSink::new();
    assert_eq!(sink.port(), 3195);
    assert_eq!(DEFAULT_PORT, 3195);
    assert!(sink.projects().is_empty());
    assert_eq!(sink.registry().len(), 0);
}

#[test]
fn global_routes_answer() {
    let sink = BitSink::new();
    assert_eq!(sink.route("/").fixed_reply(), Some((200, "Welcome to BitSink")));
    assert_eq!(sink.route("/ping").fixed_reply(), Some((200, "pong")));
    assert_eq!(sink.route("/health").fixed_reply(), Some((200, "OK")));
    assert!(matches!(sink.route("/projects"), Route::Projects));
    assert_eq!(sink.route("/projects").fixed_reply(), None);
    assert_eq!(sink.route("/nobody").fixed_reply(), Some((404, "Project not found")));
    assert!(matches!(sink.route("/ping/"), Route::NotFound));
    assert!(matches!(sink.route(""), Route::NotFound));
    assert!(matches!(sink.route("/projects/x"), Route::NotFound));
}

#[test]
fn tenant_requests_lose_their_prefix() {
    let mut sink = BitSink::new();
    sink.add_project(project(1, "one")).unwrap();
    sink.add_project(project(2, "two")).unwrap();
    let two = project(2, "two");
    let sid = two.short_id();
    for (path, rest) in [
        (format!("/{}/ping", sid), "/ping"),
        (format!("/{}", sid), "/"),
        (format!("/{}/", sid), "/"),
        (format!("/{}/test/anna", sid), "/test/anna"),
    ] {
        match sink.route(&path) {
            Route::Tenant { index, path } => {
                assert_eq!(index, 1);
                assert_eq!(path, rest);
                assert_eq!(sink.registry().get(index).unwrap().name(), "two");
            }
            other => panic!("{:?}", other),
        }
    }
    assert!(matches!(sink.route(&format!("/{}x/ping", sid)), Route::NotFound));
    assert!(matches!(sink.route(&format!("/x/{}", sid)), Route::NotFound));
    assert!(matches!(sink.route(&format!("/{}/ping", sid.to_uppercase())), Route::NotFound));
    assert_eq!(sink.route(&format!("/{}/health", sid)).fixed_reply(), None);
}

#[test]
fn dispatch_to_ping_of_a_project() {
    let mut sink = BitSink::new();
    let p = project(1, "p");
    let q = project(2, "q");
    let path = format!("/{}/ping", p.short_id());
    let ours = format!("Bearer {}", p.token());
    let theirs = format!("Bearer {}", q.token());
    let unregistered = format!("/{}/ping", project(3, "r").short_id());
    sink.add_project(p).unwrap();
    sink.add_project(q).unwrap();
    assert_eq!(status(&sink, "GET", &path, Some(&ours), 1000), 200);
    assert_eq!(status(&sink, "GET", &path, None, 1000), 401);
    assert_eq!(status(&sink, "GET", &path, Some(&theirs), 1000), 401);
    assert_eq!(status(&sink, "GET", &path, Some(&ours), 87_400), 401);
    assert_eq!(status(&sink, "OPTIONS", &path, None, 1000), 200);
    assert_eq!(status(&sink, "GET", &unregistered, Some(&ours), 1000), 404);
    assert_eq!(status(&sink, "GET", &unregistered, Some(&theirs), 1000), 404);
    assert_eq!(status(&sink, "GET", &unregistered, None, 1000), 404);
    assert_eq!(status(&sink, "GET", "/ping", None, 1000), 200);
    assert_eq!(status(&sink, "GET", "/projects", None, 1000), 200);
}

fn reply(handling: Handling) -> (u16, String) {
    match handling {
        Handling::Reply { status, body } => (status, body),
        other => panic!("{:?}", other),
    }
}

#[test]
fn handling_of_the_ping_route_of_a_project() {
    let mut sink = BitSink::new();
    let p = project(1, "p");
    let q = project(2, "q");
    let path = format!("/{}/ping", p.short_id());
    let ours = format!("Bearer {}", p.token());
    let theirs = format!("Bearer {}", q.token());
    let unregistered = format!("/{}/ping", project(3, "r").short_id());
    sink.add_project(p).unwrap();
    sink.add_project(q).unwrap();
    assert_eq!(reply(sink.handle_at("GET", &path, Some(&ours), 1000)), (200, "pong".to_string()));
    assert_eq!(reply(sink.handle_at("POST", &path, Some(&ours), 87_399)), (200, "pong".to_string()));
    assert_eq!(reply(sink.handle_at("GET", &path, None, 1000)), (401, String::new()));
    assert_eq!(reply(sink.handle_at("GET", &path, Some(&theirs), 1000)), (401, String::new()));
    assert_eq!(reply(sink.handle_at("GET", &path, Some(&ours), 87_400)), (401, String::new()));
    assert_eq!(reply(sink.handle_at("GET", &path, Some(p_token_only(&ours)), 1000)), (401, String::new()));
    for authorization in [None, Some(ours.as_str()), Some(theirs.as_str())] {
        assert_eq!(
            reply(sink.handle_at("GET", &unregistered, authorization, 1000)),
            (404, "Project not found".to_string())
        );
        assert_eq!(
            reply(sink.handle_at("OPTIONS", &unregistered, authorization, 1000)),
            (404, "Project not found".to_string())
        );
    }
    assert!(matches!(
        sink.handle_at("OPTIONS", &path, None, 1000),
        Handling::Preflight { index: 0 }
    ));
}

fn p_token_only(header: &str) -> &str {
    &header[7..]
}

#[test]
fn handling_of_the_other_routes() {
    let mut sink = BitSink::new();
    let p = project(1, "p");
    let sid = p.short_id().to_string();
    let ours = format!("Bearer {}", p.token());
    sink.add_project(p).unwrap();
    assert_eq!(
        reply(sink.handle_at("GET", "/", None, 0)),
        (200, "Welcome to BitSink".to_string())
    );
    assert_eq!(reply(sink.handle_at("DELETE", "/ping", None, 0)), (200, "pong".to_string()));
    assert_eq!(reply(sink.handle_at("OPTIONS", "/health", None, 0)), (200, "OK".to_string()));
    assert!(matches!(sink.handle_at("GET", "/projects", None, 0), Handling::Directory));
    assert!(matches!(sink.handle_at("HEAD", "/projects", None, 0), Handling::Directory));
    assert_eq!(reply(sink.handle_at("POST", "/projects", Some(&ours), 0)), (405, String::new()));
    assert_eq!(reply(sink.handle_at("OPTIONS", "/projects", None, 0)), (405, String::new()));
    assert_eq!(
        reply(sink.handle_at("GET", &format!("/{}", sid), Some(&ours), 1000)),
        (200, "Hello! this is inside project".to_string())
    );
    assert_eq!(
        reply(sink.handle_at("GET", &format!("/{}/health", sid), Some(&ours), 1000)),
        (200, "OK".to_string())
    );
    match sink.handle_at("GET", &format!("/{}/test/anna", sid), Some(&ours), 1000) {
        Handling::Forward { index, path } => {
            assert_eq!(index, 0);
            assert_eq!(path, "/test/anna");
        }
        other => panic!("{:?}", other),
    }
    assert_eq!(
        reply(sink.handle_at("GET", &format!("/{}/test/anna", sid), None, 1000)),
        (401, String::new())
    );
}

#[test]
fn handling_reads_the_clock() {
    let mut sink = BitSink::new();
    let fresh = Project::new("fresh".to_string(), "d".to_string()).unwrap();
    let stale = project(9, "stale");
    let fresh_path = format!("/{}/ping", fresh.short_id());
    let stale_path = format!("/{}/ping", stale.short_id());
    let fresh_header = format!("Bearer {}", fresh.token());
    let stale_header = format!("Bearer {}", stale.token());
    sink.add_project(fresh).unwrap();
    sink.add_project(stale).unwrap();
    assert_eq!(reply(sink.handle("GET", &fresh_path, Some(&fresh_header))), (200, "pong".to_string()));
    assert_eq!(reply(sink.handle("GET", &stale_path, Some(&stale_header))), (401, String::new()));
    assert_eq!(reply(sink.handle("GET", &fresh_path, None)), (401, String::new()));
    assert_eq!(reply(sink.handle("GET", "/nobody/ping", Some(&fresh_header))).0, 404);
}

#[test]
fn removed_project_is_not_found_although_its_token_is_valid() {
    let mut sink = BitSink::new();
    let p = project(1, "p");
    let path = format!("/{}/ping", p.short_id());
    let header = format!("Bearer {}", p.token());
    let sid = p.short_id().to_string();
    sink.add_project(p).unwrap();
    assert_eq!(status(&sink, "GET", &path, Some(&header), 1000), 200);
    assert_eq!(sink.remove_project(&sid), Ok(()));
    assert_eq!(status(&sink, "GET", &path, Some(&header), 1000), 404);
    assert!(project(1, "p").validate_token_at(&header[7..], 1000));
}

#[test]
fn add_project_reports_a_conflict() {
    let mut sink = BitSink::new();
    assert_eq!(sink.add_project(project(1, "one")), Ok(()));
    assert_eq!(sink.add_project(project(1, "one")), Err(RegistryError::Conflict));
    assert_eq!(sink.projects().len(), 1);
    assert_eq!(sink.port(), 3195);
}

#[test]
fn directory_of_no_project() {
    let sink = BitSink::new();
    assert_eq!(
        sink.projects_page(),
        "<!DOCTYPE html>\n        <html>\n            <head><title>Projects</title></head>\n            <body>\n                <h1>Projects</h1>\n                <ul></ul>\n            </body>\n        </html>"
    );
}

#[test]
fn directory_reflects_the_registry() {
    let mut sink = BitSink::new();
    let head = "<!DOCTYPE html>\n        <html>\n            <head><title>Projects</title></head>\n            <body>\n                <h1>Projects</h1>\n                <ul>";
    let tail = "</ul>\n            </body>\n        </html>";
    sink.add_project(project(0, "Project 1")).unwrap();
    assert_eq!(
        sink.projects_page(),
        format!("{}<li><a href=\"/aaaaaaaaaaaaaaaaaaaaaa\">Project 1</a></li>{}", head, tail)
    );
    sink.add_project(project(255, "Project <2>")).unwrap();
    assert_eq!(
        sink.projects_page(),
        format!(
            "{}<li><a href=\"/aaaaaaaaaaaaaaaaaaaaaa\">Project 1</a></li>\n<li><a href=\"/w\">Project <2></a></li>{}",
            head, tail
        )
    );
    let entries: Vec<String> = sink
        .projects()
        .iter()
        .map(|p| format!("<li><a href=\"/{}\">{}</a></li>", p.short_id(), p.name()))
        .collect();
    assert_eq!(sink.projects_page(), format!("{}{}{}", head, entries.join("\n"), tail));
    sink.remove_project("aaaaaaaaaaaaaaaaaaaaaa").unwrap();
    assert_eq!(
        sink.projects_page(),
        format!("{}<li><a href=\"/w\">Project <2></a></li>{}", head, tail)
    );
    assert!(!sink.projects_page().contains("Project 1"));
    sink.remove_project("w").unwrap();
    assert_eq!(sink.projects_page(), format!("{}{}", head, tail));
}

#[test]
fn concurrent_adds_and_removes_leave_the_registry_empty() {
    let runtime = tokio::runtime::Builder::new_multi_thread().worker_threads(4).build().unwrap();
    let sink = Arc::new(tokio::sync::RwLock::new(BitSink::new()));
    let count: u8 = 64;
    runtime.block_on(async {
        let mut tasks = Vec::new();
        for seed in 0..count {
            let sink = sink.clone();
            tasks.push(tokio::spawn(async move {
                let p = project(seed, "p");
                let listed = sink.read().await.projects().len();
                sink.write().await.add_project(p).unwrap();
                listed
            }));
        }
        for task in tasks {
            assert!(task.await.unwrap() < count as usize);
        }
        assert_eq!(sink.read().await.projects().len(), count as usize);
        let mut tasks = Vec::new();
        for seed in 0..count {
            let sink = sink.clone();
            tasks.push(tokio::spawn(async move {
                let sid = project(seed, "p").short_id().to_string();
                let _ = sink.read().await.projects_page();
                sink.write().await.remove_project(&sid).unwrap();
            }));
        }
        for task in tasks {
            task.await.unwrap();
        }
    });
    let sink = runtime.block_on(sink.read());
    assert!(sink.projects().is_empty());
    assert_eq!(sink.registry().len(), 0);
}
