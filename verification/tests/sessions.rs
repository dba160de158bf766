use arrow_ctl::bridge::bridge_event;
use arrow_ctl::bridge::parse_notification;
use arrow_ctl::bridge::ChangedTable;
use arrow_ctl::config::DBConfiguration;
use arrow_ctl::encode::encode_ws_message;
use arrow_ctl::message::WSMessage;
use arrow_ctl::message::WSUpdate;
use arrow_ctl::models::Bow;
use arrow_ctl::registry::Registry;
use arrow_ctl::server::delete_client;
use arrow_ctl::server::new_client;
use arrow_ctl::server::ws_connect;
use arrow_ctl::server::Webserver;
use arrow_ctl::storage::ArrowDB;
use arrow_ctl::storage::MemoryDB;

fn bow(id: i32, name: &str, mdd: i64, ral: i64) -> Bow {
    Bow {
        id,
        name: name.to_string(),
        max_draw_distance: mdd,
        remainder_arrow_length: ral,
    }
}

#[test]
fn reserve_attach_detach_follow_the_registry_contract() {
    let mut r = Registry::new();
    let t1 = r.reserve(7);
    assert_eq!(t1, 7);
    assert!(r.contains(7));

    // A second reservation with the same seed still yields a fresh token.
    let t2 = r.reserve(7);
    assert_ne!(t2, t1);
    assert!(r.contains(t2));

    // Attaching to an unknown token is rejected.
    assert!(r.attach(999, 1).is_err());

    // Detaching is idempotent: the second call is a no-op, not an error.
    r.detach(t2);
    assert!(!r.contains(t2));
    r.detach(t2);
    assert!(!r.contains(t2));
    assert!(r.contains(t1));
}

#[test]
fn broadcast_snapshot_covers_live_channels_only() {
    let mut srv = Webserver::new(MemoryDB::new());
    let (_resp1, t1) = new_client(&mut srv);
    let (_resp2, t2) = new_client(&mut srv);
    let (_resp3, t3) = new_client(&mut srv);
    assert!(ws_connect(&mut srv, t1, 11).is_ok());
    assert!(ws_connect(&mut srv, t2, 22).is_ok());
    // The third session has reserved a token but no channel has attached yet.
    let (frame, targets) = srv.broadcast(&WSUpdate::Alive);
    assert_eq!(frame, encode_ws_message(&WSMessage::Update(WSUpdate::Alive)));
    let mut got = targets.clone();
    got.sort();
    assert_eq!(got, vec![11, 22]);

    // A session detached before the broadcast is not reached.
    delete_client(&mut srv, t1);
    let (_, after) = srv.broadcast(&WSUpdate::Alive);
    assert_eq!(after, vec![22]);
    let _ = t3;
}

#[test]
fn second_upgrade_supersedes_the_first_socket() {
    // Two sockets upgrade under one token in turn; a broadcast then reaches
    // only the second.
    let mut srv = Webserver::new(MemoryDB::new());
    let (_resp, t) = new_client(&mut srv);
    assert!(ws_connect(&mut srv, t, 1).is_ok());
    assert!(ws_connect(&mut srv, t, 2).is_ok());
    let (_, targets) = srv.broadcast(&WSUpdate::Alive);
    assert_eq!(targets, vec![2]);
}

#[test]
fn session_urls_carry_the_token() {
    let mut srv = Webserver::new(MemoryDB::new());
    let (resp, t) = new_client(&mut srv);
    assert_eq!(resp.url, format!("/ws/{}", t));
}

#[test]
fn notification_payloads_parse_as_table_and_ids() {
    let (t, ids) = parse_notification("bow,1,2,x,3").unwrap();
    assert_eq!(t, ChangedTable::Bow);
    assert_eq!(ids, vec![1, 2, 3]);

    let (t, ids) = parse_notification("measure_series,42").unwrap();
    assert_eq!(t, ChangedTable::MeasureSeries);
    assert_eq!(ids, vec![42]);

    assert!(parse_notification("unknown,1").is_none());
    assert!(parse_notification("bow").is_none());
}

#[test]
fn change_events_emit_the_re_read_rows() {
    let mut db = MemoryDB::new();
    let stored = db.add_bow(bow(-1, "Recurve", 850, 100)).unwrap();
    assert_eq!(stored.id, 1);

    // A concurrently connected second session receives the update without
    // having sent any request: the bridge re-reads the affected row.
    let update = bridge_event(&db, "bow,1").unwrap();
    assert_eq!(update, WSUpdate::BowList(vec![bow(1, "Recurve", 850, 100)]));

    // An event that names no stored row emits nothing.
    assert_eq!(bridge_event(&db, "bow,9"), None);
    // A malformed event emits nothing.
    assert_eq!(bridge_event(&db, "nonsense"), None);
}

#[test]
fn connection_text_of_default_coordinates() {
    let c = DBConfiguration::default();
    assert_eq!(c.conn_string(), "postgres://arrow@localhost:5432/arrow");
}
