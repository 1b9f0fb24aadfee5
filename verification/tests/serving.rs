use static_serve::config::default_config;
use static_serve::mounts::{
    dispatch, normalize_segments, plan_request, MountEntry, MountTable, MountTarget, Plan,
};
use static_serve::paths::{join_segments, split_segments};
use static_serve::respond::{finish_request, ReadOutcome, Status};

fn segs(parts: &[&str]) -> Vec<String> {
    parts.iter().map(|p| p.to_string()).collect()
}

#[test]
fn split_drops_slashes() {
    assert_eq!((split_segments("/index.html")), segs(&["index.html"]));
    assert_eq!((split_segments("a//b/")), segs(&["a", "b"]));
    assert_eq!((split_segments("")), segs(&[]));
    assert_eq!((split_segments("/")), segs(&[]));
    assert_eq!(
        (split_segments("/img/favicon.ico")),
        segs(&["img", "favicon.ico"])
    );
}

#[test]
fn join_inserts_separators() {
    assert_eq!(join_segments(&segs(&["a", "b"])), "a/b".to_string());
    assert_eq!(join_segments(&segs(&["index.html"])), "index.html".to_string());
    assert_eq!(join_segments(&segs(&[])), "".to_string());
}

#[test]
fn favicon_mount_wins_over_root() {
    let table = default_config();
    match plan_request(&table, &segs(&["favicon.ico"])) {
        Plan::Read { file } => {
            assert_eq!(file, segs(&["src", "www", "img", "favicon.ico"]));
        }
        Plan::NotFound => panic!("favicon request must resolve"),
    }
}

#[test]
fn favicon_mount_serves_only_its_file() {
    let table = default_config();
    match plan_request(&table, &segs(&["favicon.ico", "extra"])) {
        Plan::Read { .. } => panic!("path below the favicon file must not resolve"),
        Plan::NotFound => {}
    }
}

#[test]
fn root_mount_serves_site_files() {
    let table = default_config();
    match plan_request(&table, &segs(&["index.html"])) {
        Plan::Read { file } => {
            assert_eq!(file, segs(&["src", "www", "index.html"]));
        }
        Plan::NotFound => panic!("root request must resolve"),
    }
}

#[test]
fn traversal_is_rejected() {
    let table = default_config();
    match plan_request(&table, &segs(&["..", "etc", "passwd"])) {
        Plan::Read { .. } => panic!("a leading .. must not resolve"),
        Plan::NotFound => {}
    }
    match plan_request(&table, &segs(&["img", "..", "..", "secret"])) {
        Plan::Read { .. } => panic!("an inner .. must not resolve"),
        Plan::NotFound => {}
    }
}

#[test]
fn dot_segments_are_dropped() {
    let table = default_config();
    match plan_request(&table, &segs(&[".", "index.html"])) {
        Plan::Read { file } => {
            assert_eq!(file, segs(&["src", "www", "index.html"]));
        }
        Plan::NotFound => panic!("a . segment must be harmless"),
    }
}

#[test]
fn normalize_rejects_dotdot_only() {
    assert!(normalize_segments(&segs(&["a", "..", "b"])).is_none());
    let kept = normalize_segments(&segs(&["a", ".", "", "b"])).unwrap();
    assert_eq!(kept, segs(&["a", "b"]));
}

fn two_mount_table() -> MountTable {
    MountTable {
        entries: vec![
            MountEntry {
                prefix: segs(&[]),
                target: MountTarget::Dir { base: segs(&["www"]) },
            },
            MountEntry {
                prefix: segs(&["static"]),
                target: MountTarget::Dir { base: segs(&["assets"]) },
            },
        ],
        cache_secs: 0,
    }
}

#[test]
fn dispatch_prefers_longest_prefix() {
    let table = two_mount_table();
    assert_eq!(dispatch(&table, &segs(&["static", "app.js"])), Some(1));
    assert_eq!(dispatch(&table, &segs(&["other.html"])), Some(0));
}

#[test]
fn longest_prefix_mount_resolves() {
    let table = two_mount_table();
    match plan_request(&table, &segs(&["static", "app.js"])) {
        Plan::Read { file } => assert_eq!(file, segs(&["assets", "app.js"])),
        Plan::NotFound => panic!("static mount must resolve"),
    }
    match plan_request(&table, &segs(&["other.html"])) {
        Plan::Read { file } => assert_eq!(file, segs(&["www", "other.html"])),
        Plan::NotFound => panic!("root mount must resolve"),
    }
}

#[test]
fn unmatched_request_is_not_found() {
    let table = MountTable {
        entries: vec![MountEntry {
            prefix: segs(&["api"]),
            target: MountTarget::Dir { base: segs(&["data"]) },
        }],
        cache_secs: 0,
    };
    assert_eq!(dispatch(&table, &segs(&["other"])), None);
    match plan_request(&table, &segs(&["other"])) {
        Plan::Read { .. } => panic!("unmatched request must not resolve"),
        Plan::NotFound => {}
    }
}

#[test]
fn found_file_round_trips_bytes() {
    let table = default_config();
    let plan = plan_request(&table, &segs(&["index.html"]));
    let body = b"<h1>Hi</h1>".to_vec();
    let r = finish_request(&plan, ReadOutcome::Found(body.clone()), table.cache_secs);
    assert_eq!(r.status, Status::Okay);
    assert_eq!(r.body, body);
    assert_eq!(r.content_type, "text/html".to_string());
    assert_eq!(r.cache_max_age_secs, 0);
}

#[test]
fn missing_file_is_not_found() {
    let table = default_config();
    let plan = plan_request(&table, &segs(&["nonexistent"]));
    let r = finish_request(&plan, ReadOutcome::Missing, table.cache_secs);
    assert_eq!(r.status, Status::NotFound);
    assert!(r.body.is_empty());
    assert_ne!(r.status, Status::InternalError);
}

#[test]
fn unreadable_file_is_internal_error() {
    let table = default_config();
    let plan = plan_request(&table, &segs(&["locked.txt"]));
    let r = finish_request(&plan, ReadOutcome::Unreadable, table.cache_secs);
    assert_eq!(r.status, Status::InternalError);
    assert!(r.body.is_empty());
}

#[test]
fn distinct_requests_get_their_own_bytes() {
    let table = default_config();
    let plan_a = plan_request(&table, &segs(&["a.txt"]));
    let plan_b = plan_request(&table, &segs(&["b.txt"]));
    let ra = finish_request(&plan_a, ReadOutcome::Found(b"contents of a".to_vec()), 0);
    let rb = finish_request(&plan_b, ReadOutcome::Found(b"contents of b".to_vec()), 0);
    assert_eq!(ra.body, b"contents of a".to_vec());
    assert_eq!(rb.body, b"contents of b".to_vec());
    assert_ne!(ra.body, rb.body);
}
