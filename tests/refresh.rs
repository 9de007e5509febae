use cache_api::refresh::{
    bootstrap, perform, Action, BootstrapError, ErrorKind, Event, Listener, RefreshError, Stage,
};
use cache_api::snapshot::{Domain, SnapshotStore};
use cache_api::worlds::{gather_worlds, World};

fn world(id: i32) -> World {
    World {
        id,
        types: vec!["MEMBERS".to_string()],
        address: format!("oldschool{}.runescape.com", id),
        activity: "-".to_string(),
        location: 0,
        players: 100,
    }
}

fn encode_ids(worlds: &[World]) -> String {
    let ids: Vec<String> = worlds.iter().map(|w| w.id.to_string()).collect();
    format!("[{}]", ids.join(","))
}

#[test]
fn store_reads_what_was_installed() {
    let store = SnapshotStore::new("[1]".to_string(), "{\"worlds\":[]}".to_string());
    assert_eq!(store.read(Domain::Prices), "[1]");
    assert_eq!(store.read(Domain::Worlds), "{\"worlds\":[]}");
    store.replace(Domain::Prices, "[2]".to_string());
    assert_eq!(store.read(Domain::Prices), "[2]");
    assert_eq!(store.read(Domain::Worlds), "{\"worlds\":[]}");
}

#[test]
fn price_refresh_cycle_installs() {
    let store = SnapshotStore::new("old".to_string(), "worlds".to_string());
    let mut l = Listener::new(Domain::Prices);
    assert!(matches!(l.step(Event::Notified), Action::Fetch));
    assert!(matches!(l.step(Event::Fetched), Action::ApplyOverrides));
    assert_eq!(l.stage, Stage::Applying);
    assert!(matches!(l.step(Event::Applied), Action::Encode));
    let action = l.step(Event::Encoded("new".to_string()));
    assert_eq!(l.stage, Stage::Idle);
    assert!(perform(&store, Domain::Prices, action));
    assert_eq!(store.read(Domain::Prices), "new");
    assert_eq!(store.read(Domain::Worlds), "worlds");
}

#[test]
fn price_fetch_failure_leaves_both_snapshots() {
    let store = SnapshotStore::new("prices v1".to_string(), "worlds v1".to_string());
    let mut l = Listener::new(Domain::Prices);
    l.step(Event::Notified);
    let action = l.step(Event::Failed(ErrorKind::Fetch));
    match &action {
        Action::Report(e) => assert_eq!(
            *e,
            RefreshError { domain: Domain::Prices, stage: Stage::Fetching, kind: ErrorKind::Fetch }
        ),
        other => panic!("unexpected action {:?}", other),
    }
    assert!(!perform(&store, Domain::Prices, action));
    assert_eq!(l.stage, Stage::Idle);
    assert_eq!(store.read(Domain::Prices), "prices v1");
    assert_eq!(store.read(Domain::Worlds), "worlds v1");
    assert!(matches!(l.step(Event::Notified), Action::Fetch));
}

#[test]
fn malformed_world_member_keeps_previous_snapshot() {
    let store = SnapshotStore::new("[]".to_string(), "{\"worlds\":[301]}".to_string());
    let mut l = Listener::new(Domain::Worlds);
    assert!(matches!(l.step(Event::Notified), Action::Fetch));
    let members = vec![Some(world(302)), None, Some(world(303))];
    let event = match gather_worlds(members) {
        Ok(_) => Event::Fetched,
        Err(e) => {
            assert_eq!(e.kind, ErrorKind::Decode);
            Event::Failed(e.kind)
        }
    };
    let action = l.step(event);
    match &action {
        Action::Report(e) => {
            assert_eq!(e.kind, ErrorKind::Decode);
            assert_eq!(e.domain, Domain::Worlds);
        }
        other => panic!("unexpected action {:?}", other),
    }
    perform(&store, Domain::Worlds, action);
    assert_eq!(store.read(Domain::Worlds), "{\"worlds\":[301]}");
}

#[test]
fn world_refresh_cycle_skips_overrides() {
    let mut l = Listener::new(Domain::Worlds);
    l.step(Event::Notified);
    assert!(matches!(l.step(Event::Fetched), Action::Encode));
    assert_eq!(l.stage, Stage::Installed);
}

#[test]
fn gather_worlds_keeps_order() {
    let w = gather_worlds(vec![Some(world(302)), Some(world(301)), Some(world(420))]).unwrap();
    assert_eq!(encode_ids(&w.worlds), "[302,301,420]");
    let empty = gather_worlds(Vec::new()).unwrap();
    assert!(empty.worlds.is_empty());
}

#[test]
fn idle_listener_ignores_other_events() {
    let mut l = Listener::new(Domain::Prices);
    assert!(matches!(l.step(Event::Fetched), Action::Wait));
    assert!(matches!(l.step(Event::Failed(ErrorKind::Store)), Action::Wait));
    assert!(matches!(l.step(Event::Encoded("x".to_string())), Action::Wait));
    assert_eq!(l.stage, Stage::Idle);
}

#[test]
fn bootstrap_needs_both_domains() {
    let store = bootstrap(Ok("p".to_string()), Ok("w".to_string())).unwrap();
    assert_eq!(store.read(Domain::Prices), "p");
    assert_eq!(store.read(Domain::Worlds), "w");
    let fetch = RefreshError { domain: Domain::Prices, stage: Stage::Fetching, kind: ErrorKind::Fetch };
    let decode = RefreshError { domain: Domain::Worlds, stage: Stage::Fetching, kind: ErrorKind::Decode };
    match bootstrap(Err(fetch), Err(decode)) {
        Err(e) => assert_eq!(e, BootstrapError { cause: fetch }),
        Ok(_) => panic!("bootstrap succeeded"),
    }
    match bootstrap(Ok("p".to_string()), Err(decode)) {
        Err(e) => assert_eq!(e, BootstrapError { cause: decode }),
        Ok(_) => panic!("bootstrap succeeded"),
    }
}
