use happe::server::{
    dispatch_request, dispatch_request_now, finish_query, handle_list_sessions, open_session,
    ping_response, request_kind, Dispatch, Request, RequestKind, ServerError,
};
use happe::session::SessionStore;

fn query(q: &str, id: Option<&str>) -> Request {
    Request { query: q.to_string(), session_id: id.map(|s| s.to_string()) }
}

#[test]
fn request_kinds_are_exact_matches() {
    assert_eq!(request_kind(&"__PING__".to_string()), RequestKind::Ping);
    assert_eq!(request_kind(&"__LIST_SESSIONS__".to_string()), RequestKind::ListSessions);
    assert_eq!(request_kind(&"__ping__".to_string()), RequestKind::Query);
    assert_eq!(request_kind(&" __PING__".to_string()), RequestKind::Query);
}

#[test]
fn ping_echoes_session_and_creates_nothing() {
    let mut store = SessionStore::new();
    match dispatch_request(&mut store, query("__PING__", Some("X")), 100, "fallback".to_string()) {
        Ok(Dispatch::Reply(r)) => {
            assert_eq!(r.response, "PONG");
            assert_eq!(r.session_id, Some("X".to_string()));
            assert_eq!(r.error, None);
        }
        _ => panic!("ping must be answered directly"),
    }
    assert!(store.list().is_empty());
    let r = ping_response(&query("__PING__", None));
    assert_eq!(r.session_id, None);
}

#[test]
fn unknown_id_creates_one_session_listed_afterwards() {
    let mut store = SessionStore::new();
    let now = 1_700_000_000;
    let pending = match dispatch_request(&mut store, query("hello", Some("s1")), now, "unused".to_string()) {
        Ok(Dispatch::Process(p)) => p,
        _ => panic!("a normal query goes to the coordinator"),
    };
    assert_eq!(pending.session_id, "s1");
    assert_eq!(pending.query, "hello");
    assert_eq!(pending.session.expires_at, now + 86400);
    assert_eq!(store.list().len(), 1);
    let resp = finish_query(&mut store, pending, Ok("hi".to_string()));
    assert_eq!(resp.response, "hi");
    assert_eq!(resp.session_id, Some("s1".to_string()));
    assert_eq!(resp.error, None);
    assert_eq!(store.get(&"s1".to_string()).unwrap().expires_at, now + 86400);
    let list = handle_list_sessions(&store);
    assert_eq!(list.response, "[\"s1\"]");
    assert_eq!(list.session_id, None);
    assert_eq!(list.error, None);
}

#[test]
fn list_sessions_of_empty_store_is_empty_array() {
    let mut store = SessionStore::new();
    match dispatch_request(&mut store, query("__LIST_SESSIONS__", Some("X")), 0, String::new()) {
        Ok(Dispatch::Reply(r)) => {
            assert_eq!(r.response, "[]");
            assert_eq!(r.session_id, None);
        }
        _ => panic!("list must be answered directly"),
    }
}

#[test]
fn query_without_id_uses_fallback_id() {
    let mut store = SessionStore::new();
    match dispatch_request(&mut store, query("q", None), 10, "generated".to_string()) {
        Ok(Dispatch::Process(p)) => {
            assert_eq!(p.session_id, "generated");
            assert_eq!(p.session.id, "generated");
        }
        _ => panic!("expected processing"),
    }
    assert!(store.get(&"generated".to_string()).is_some());
}

#[test]
fn query_without_id_gets_random_uuid_now() {
    let mut store = SessionStore::new();
    let a = match dispatch_request_now(&mut store, query("q", None)) {
        Ok(Dispatch::Process(p)) => p.session_id,
        _ => panic!("expected processing"),
    };
    let b = match dispatch_request_now(&mut store, query("q", None)) {
        Ok(Dispatch::Process(p)) => p.session_id,
        _ => panic!("expected processing"),
    };
    assert_eq!(a.len(), 36);
    assert_ne!(a, b);
    assert_eq!(store.list().len(), 2);
}

#[test]
fn dispatch_now_sets_expiry_a_day_ahead() {
    let mut store = SessionStore::new();
    let before = std::time::SystemTime::now().duration_since(std::time::UNIX_EPOCH).unwrap().as_secs() as i64;
    let p = match dispatch_request_now(&mut store, query("q", Some("day"))) {
        Ok(Dispatch::Process(p)) => p,
        _ => panic!("expected processing"),
    };
    assert_eq!(p.session_id, "day");
    assert!(p.session.expires_at >= before + 86400);
    assert!(p.session.expires_at <= before + 86400 + 5);
}

#[test]
fn coordinator_failure_is_reported_and_session_saved() {
    let mut store = SessionStore::new();
    let mut pending = match dispatch_request(&mut store, query("q", Some("s")), 50, String::new()) {
        Ok(Dispatch::Process(p)) => p,
        _ => panic!("expected processing"),
    };
    pending.session.history.push("partial".to_string());
    let resp = finish_query(&mut store, pending, Err("model unreachable".to_string()));
    assert_eq!(resp.response, "");
    assert_eq!(resp.session_id, Some("s".to_string()));
    assert_eq!(resp.error, Some("Failed to process query: model unreachable".to_string()));
    assert_eq!(store.get(&"s".to_string()).unwrap().history, vec!["partial".to_string()]);
}

#[test]
fn existing_session_is_reused_with_refreshed_expiry() {
    let mut store = SessionStore::new();
    store.create("s".to_string(), 0);
    let s = open_session(&mut store, &"s".to_string(), 1000);
    assert_eq!(s.expires_at, 1000 + 86400);
    assert_eq!(store.get(&"s".to_string()).unwrap().expires_at, 86400);
    assert_eq!(store.list().len(), 1);
}

#[test]
fn clock_out_of_range_is_an_error() {
    let mut store = SessionStore::new();
    let r = dispatch_request(&mut store, query("q", Some("s")), i64::MAX, String::new());
    assert!(matches!(r, Err(ServerError::ClockOutOfRange)));
    assert!(store.list().is_empty());
}

#[test]
fn distinct_sessions_do_not_interfere() {
    let mut store = SessionStore::new();
    let n = 16;
    let mut pendings = Vec::new();
    for i in 0..n {
        match dispatch_request(&mut store, query("q", Some(&format!("s{}", i))), 1000 + i as i64, String::new()) {
            Ok(Dispatch::Process(p)) => pendings.push(p),
            _ => panic!("expected processing"),
        }
    }
    for (i, mut p) in pendings.into_iter().enumerate().rev() {
        p.session.history.push(format!("turn {}", i));
        finish_query(&mut store, p, Ok(String::new()));
    }
    assert_eq!(store.list().len(), n);
    for i in 0..n {
        let s = store.get(&format!("s{}", i)).unwrap();
        assert_eq!(s.expires_at, 1000 + i as i64 + 86400);
        assert_eq!(s.history, vec![format!("turn {}", i)]);
    }
}

#[test]
fn list_sessions_encodes_every_id() {
    let mut store = SessionStore::new();
    store.create("a\"b".to_string(), 0);
    let list = handle_list_sessions(&store);
    assert_eq!(list.response, "[\"a\\\"b\"]");
    store.create("c".to_string(), 0);
    let list = handle_list_sessions(&store);
    let mut ids: Vec<String> = serde_json::from_str(&list.response).unwrap();
    ids.sort();
    assert_eq!(ids, vec!["a\"b".to_string(), "c".to_string()]);
}

#[test]
fn list_sessions_now_shows_new_session() {
    let mut store = SessionStore::new();
    let p = match dispatch_request_now(&mut store, query("q", Some("fresh"))) {
        Ok(Dispatch::Process(p)) => p,
        _ => panic!("expected processing"),
    };
    finish_query(&mut store, p, Ok("done".to_string()));
    match dispatch_request_now(&mut store, query("__LIST_SESSIONS__", None)) {
        Ok(Dispatch::Reply(r)) => assert_eq!(r.response, "[\"fresh\"]"),
        _ => panic!("list must be answered directly"),
    }
}
