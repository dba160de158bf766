use arrow_ctl::decode::decode_bow_body;
use arrow_ctl::decode::decode_ws_message;
use arrow_ctl::dispatch::handle_ws_message;
use arrow_ctl::encode::encode_frame;
use arrow_ctl::encode::encode_ws_message;
use arrow_ctl::message::MachineCommand;
use arrow_ctl::message::WSMessage;
use arrow_ctl::message::WSRequest;
use arrow_ctl::message::WSUpdate;
use arrow_ctl::models::invalid_id;
use arrow_ctl::models::Arrow;
use arrow_ctl::models::Bow;
use arrow_ctl::models::MachineStatus;
use arrow_ctl::models::Measure;
use arrow_ctl::models::MeasurePoint;
use arrow_ctl::models::MeasureSeries;
use arrow_ctl::storage::ArrowDB;
use arrow_ctl::storage::MemoryDB;

fn bow(id: i32, name: &str, mdd: i64, ral: i64) -> Bow {
    Bow {
        id,
        name: name.to_string(),
        max_draw_distance: mdd,
        remainder_arrow_length: ral,
    }
}

#[test]
fn controller_it_works() {
    assert_eq!(2 + 2, 4);
}

#[test]
fn lib_it_works() {
    assert_eq!(2 + 2, 4);
}

#[test]
fn test_list_bows() {
    let mut db = MemoryDB::new();
    let request = encode_ws_message(&WSMessage::Request(WSRequest::AddBow(bow(
        -1, "bow", 900, 100,
    ))));
    let _ = handle_ws_message(&mut db, &request).unwrap();

    let list = encode_ws_message(&WSMessage::Request(WSRequest::ListBows));
    let response = handle_ws_message(&mut db, &list).unwrap();
    let expected = encode_ws_message(&WSMessage::Response(WSUpdate::BowList(vec![bow(
        1, "bow", 900, 100,
    )])));
    assert_eq!(response, expected);
}

#[test]
fn round_trip_rich_envelope() {
    let env = WSMessage::Request(WSRequest::AddArrow(Arrow {
        id: -1,
        name: Some("cedar".to_string()),
        head_weight: Some(125),
        spline: None,
        feather_length: Some(-80),
        feather_type: None,
        length: 760,
        weight: 28_500,
        bow_id: 3,
    }));
    let text = encode_ws_message(&env);
    assert_eq!(decode_ws_message(&text), Some(env));
}

#[test]
fn round_trip_update_lists() {
    let env = WSMessage::Update(WSUpdate::MeasureList(vec![
        Measure {
            id: 4,
            measure_interval: 10,
            measure_series_id: 7,
            arrow_id: 2,
        },
        Measure {
            id: 5,
            measure_interval: 20,
            measure_series_id: 7,
            arrow_id: 2,
        },
    ]));
    let text = encode_ws_message(&env);
    assert_eq!(decode_ws_message(&text), Some(env));
}

#[test]
fn round_trip_status_and_command() {
    let s = WSMessage::Update(WSUpdate::Status(MachineStatus::Shooting));
    assert_eq!(decode_ws_message(&encode_ws_message(&s)), Some(s.clone()));
    let c = WSMessage::Request(WSRequest::Command(MachineCommand::Calibrate));
    assert_eq!(decode_ws_message(&encode_ws_message(&c)), Some(c.clone()));
    let a = WSMessage::Response(WSUpdate::Alive);
    assert_eq!(decode_ws_message(&encode_ws_message(&a)), Some(a.clone()));
}

#[test]
fn canonical_text_of_add_bow() {
    let env = WSMessage::Request(WSRequest::AddBow(bow(-1, "Recurve", 850, 100)));
    let text = encode_ws_message(&env);
    assert_eq!(
        text,
        "{\"request\":{\"addbow\":{\"id\":-1,\"name\":\"Recurve\",\
         \"max_draw_distance\":0.850,\"remainder_arrow_length\":0.100}}}"
    );
    assert_eq!(decode_ws_message(&text), Some(env));
}

#[test]
fn decode_rejects_malformed_frames() {
    assert_eq!(decode_ws_message(""), None);
    assert_eq!(decode_ws_message("not json"), None);
    assert_eq!(decode_ws_message("{\"request\":{\"unknowntag\":{}}}"), None);
    assert_eq!(decode_ws_message("{\"request\":{\"listbows\":{}}}extra"), None);
    assert_eq!(decode_ws_message("{\"request\":{\"listbows\":{}}"), None);
}

#[test]
fn add_bow_scenario_returns_persisted_record() {
    // A unit sent with the sentinel identity comes back persisted under 1.
    let mut db = MemoryDB::new();
    assert_eq!(invalid_id(), -1);
    let request = encode_ws_message(&WSMessage::Request(WSRequest::AddBow(bow(
        invalid_id(),
        "Recurve",
        850,
        100,
    ))));
    let response = handle_ws_message(&mut db, &request).unwrap();
    let expected = encode_ws_message(&WSMessage::Response(WSUpdate::BowList(vec![bow(
        1, "Recurve", 850, 100,
    )])));
    assert_eq!(response, expected);
}

#[test]
fn list_measures_of_series_without_runs_is_empty() {
    let mut db = MemoryDB::new();
    let request = encode_ws_message(&WSMessage::Request(WSRequest::ListMeasures {
        series_id: 7,
    }));
    let response = handle_ws_message(&mut db, &request).unwrap();
    let expected = encode_ws_message(&WSMessage::Response(WSUpdate::MeasureList(vec![])));
    assert_eq!(response, expected);
}

#[test]
fn unparseable_frame_answers_once_and_session_goes_on() {
    let mut db = MemoryDB::new();
    let response = handle_ws_message(&mut db, "garbage").unwrap();
    let expected = encode_ws_message(&WSMessage::Response(WSUpdate::Error(
        "error parsing message".to_string(),
    )));
    assert_eq!(response, expected);

    // The session stays usable: a valid request still answers.
    let list = encode_ws_message(&WSMessage::Request(WSRequest::ListBows));
    let ok = handle_ws_message(&mut db, &list).unwrap();
    let expected_ok = encode_ws_message(&WSMessage::Response(WSUpdate::BowList(vec![])));
    assert_eq!(ok, expected_ok);
}

#[test]
fn series_without_target_is_rejected_before_storage() {
    let mut db = MemoryDB::new();
    let series = MeasureSeries {
        id: -1,
        name: "warmup".to_string(),
        rest_position: 0,
        draw_distance: None,
        draw_force: None,
        time: 1_600_000_000,
        bow_id: 1,
    };
    let request = encode_ws_message(&WSMessage::Request(WSRequest::NewMeasureSeries(series)));
    let response = handle_ws_message(&mut db, &request).unwrap();
    let expected = encode_ws_message(&WSMessage::Response(WSUpdate::Error(
        "either draw_distance or draw_force must be set".to_string(),
    )));
    assert_eq!(response, expected);

    // Storage was never reached: the series list stays empty.
    let list = encode_ws_message(&WSMessage::Request(WSRequest::ListMeasureSeries {
        bow_id: 1,
    }));
    let listed = handle_ws_message(&mut db, &list).unwrap();
    let expected_list =
        encode_ws_message(&WSMessage::Response(WSUpdate::MeasureSeriesList(vec![])));
    assert_eq!(listed, expected_list);
}

#[test]
fn series_with_draw_force_reaches_storage() {
    let mut db = MemoryDB::new();
    let series = MeasureSeries {
        id: -1,
        name: "strong".to_string(),
        rest_position: 120,
        draw_distance: None,
        draw_force: Some(30_000),
        time: 1_600_000_000,
        bow_id: 1,
    };
    let request = encode_ws_message(&WSMessage::Request(WSRequest::NewMeasureSeries(
        series.clone(),
    )));
    let response = handle_ws_message(&mut db, &request).unwrap();
    let expected = encode_ws_message(&WSMessage::Response(WSUpdate::MeasureSeriesList(vec![
        MeasureSeries { id: 1, ..series },
    ])));
    assert_eq!(response, expected);
}

#[test]
fn update_and_delete_of_bows() {
    let mut db = MemoryDB::new();
    assert!(db.add_bow(bow(-1, "one", 700, 50)).is_ok());
    assert!(db.add_bow(bow(-1, "two", 800, 60)).is_ok());
    let changed = db.update_bow(bow(1, "one-b", 710, 50)).unwrap();
    assert_eq!(changed, bow(1, "one-b", 710, 50));
    let listed = db.list_bows().unwrap();
    assert_eq!(listed, vec![bow(1, "one-b", 710, 50), bow(2, "two", 800, 60)]);
    assert!(db.update_bow(bow(9, "missing", 1, 1)).is_err());
    let removed = db.delete_bow(1).unwrap();
    assert_eq!(removed, 1);
    assert_eq!(db.list_bows().unwrap(), vec![bow(2, "two", 800, 60)]);
}

#[test]
fn commands_are_acknowledged_alive() {
    let mut db = MemoryDB::new();
    let request = encode_ws_message(&WSMessage::Request(WSRequest::Command(
        MachineCommand::Shutdown,
    )));
    let response = handle_ws_message(&mut db, &request).unwrap();
    let expected = encode_ws_message(&WSMessage::Response(WSUpdate::Alive));
    assert_eq!(response, expected);
}

#[test]
fn non_request_envelopes_are_ignored() {
    let mut db = MemoryDB::new();
    let update = encode_ws_message(&WSMessage::Update(WSUpdate::Alive));
    assert_eq!(handle_ws_message(&mut db, &update), None);
    let response = encode_ws_message(&WSMessage::Response(WSUpdate::Alive));
    assert_eq!(handle_ws_message(&mut db, &response), None);
}

#[test]
fn round_trip_point_list_and_errors() {
    let env = WSMessage::Update(WSUpdate::MeasurePointList(vec![MeasurePoint {
        id: 1,
        time: 1_600_000_000,
        draw_distance: 412,
        force: -27_350,
        measure_id: 9,
    }]));
    let text = encode_ws_message(&env);
    assert!(text.contains("0.412"));
    assert!(text.contains("-27.350"));
    assert_eq!(decode_ws_message(&text), Some(env));

    let err = WSMessage::Response(WSUpdate::Error("storage backend failure".to_string()));
    assert_eq!(decode_ws_message(&encode_ws_message(&err)), Some(err.clone()));

    let empty = WSMessage::Update(WSUpdate::ArrowList(vec![]));
    let text = encode_ws_message(&empty);
    assert!(text.contains("[]"));
    assert_eq!(decode_ws_message(&text), Some(empty));
}

#[test]
fn record_bodies_decode_with_range_checks() {
    let body = "{\"id\":2147483647,\"name\":\"edge\",\"max_draw_distance\":0.000,\
                \"remainder_arrow_length\":9000000000000.000}";
    let b = decode_bow_body(body).unwrap();
    assert_eq!(b.id, i32::MAX);
    assert_eq!(b.max_draw_distance, 0);
    assert_eq!(b.remainder_arrow_length, 9_000_000_000_000_000);

    // An identity beyond the machine range is rejected, not wrapped.
    let too_big = "{\"id\":9999999999,\"name\":\"x\",\"max_draw_distance\":0.000,\
                   \"remainder_arrow_length\":0.000}";
    assert!(decode_bow_body(too_big).is_none());

    // A quantity needs exactly three fraction digits on the wire.
    let short_frac = "{\"id\":1,\"name\":\"x\",\"max_draw_distance\":0.5,\
                      \"remainder_arrow_length\":0.000}";
    assert!(decode_bow_body(short_frac).is_none());
}

#[test]
fn frame_production_never_fails() {
    // A wire-valid envelope encodes canonically.
    let ok = WSMessage::Request(WSRequest::ListBows);
    assert_eq!(encode_frame(&ok), encode_ws_message(&ok));

    // A name holding a quote does not fit the escape-free wire; the frame
    // falls back to the one error response instead of failing.
    let bad = WSMessage::Update(WSUpdate::BowList(vec![bow(1, "say \"hi\"", 1, 1)]));
    let fallback = encode_ws_message(&WSMessage::Response(WSUpdate::Error(
        "error serializing update".to_string(),
    )));
    assert_eq!(encode_frame(&bad), fallback);
}

#[test]
fn storage_failures_carry_their_fixed_words() {
    let mut db = MemoryDB::new();
    // Updating an identity that was never persisted is a storage failure
    // with the not-found account.
    let request = encode_ws_message(&WSMessage::Request(WSRequest::AddBow(bow(
        9, "ghost", 1, 1,
    ))));
    let response = handle_ws_message(&mut db, &request).unwrap();
    let expected = encode_ws_message(&WSMessage::Response(WSUpdate::Error(
        "no such record".to_string(),
    )));
    assert_eq!(response, expected);
}
