use dcs_tetrad::dcs::{
    parse_object_row, DcsWorldObject, DcsWorldUnit, Field, HostRecord, Loggable, RecordError,
};
use dcs_tetrad::session::Session;
use dcs_tetrad::worker::{log_frame, parse_frame_row, FrameRow, FrameSnapshot, Logger, Message};
use std::sync::Arc;

fn record(name: &str) -> HostRecord {
    HostRecord {
        name: Some(name.as_bytes().to_vec()),
        country: Some(2),
        coalition: Some(b"Enemies".to_vec()),
        coalition_id: Some(1),
        lat: Some(4_150_000_000),
        lon: Some(-225_000_000),
        alt: Some(100_000_000_000),
        heading: Some(314_159_265),
        pitch: Some(0),
        bank: Some(-5_000_000),
        x: Some(1),
        y: Some(-2),
        z: Some(300_000_000),
        unit_name: Some(b"Viper 1".to_vec()),
        group_name: Some(b"Group A".to_vec()),
    }
}

fn units(n: usize) -> Vec<DcsWorldUnit> {
    (0..n)
        .map(|i| DcsWorldUnit::from_lua_with_id(i as i32, record("F-16")).unwrap())
        .collect()
}

fn text(v: &[u8]) -> String {
    String::from_utf8(v.to_vec()).unwrap()
}

#[test]
fn object_from_complete_record() {
    let o = DcsWorldObject::from_lua_with_id(7, record("F-16")).unwrap();
    assert_eq!(o.id, 7);
    assert_eq!(o.name, b"F-16".to_vec());
    assert_eq!(o.country, 2);
    assert_eq!(o.coalition_id, 1);
    assert_eq!(o.lat_lon_alt.lat, 4_150_000_000);
    assert_eq!(o.position.z, 300_000_000);
}

#[test]
fn object_missing_name_is_an_error() {
    let mut r = record("F-16");
    r.name = None;
    assert_eq!(
        DcsWorldObject::from_lua_with_id(1, r).unwrap_err(),
        RecordError::MissingField(Field::Name)
    );
}

#[test]
fn object_missing_last_coordinate_is_an_error() {
    let mut r = record("F-16");
    r.z = None;
    assert_eq!(
        DcsWorldObject::from_lua_with_id(1, r).unwrap_err(),
        RecordError::MissingField(Field::Z)
    );
}

#[test]
fn unit_without_unit_name_gets_sentinel() {
    let mut r = record("F-16");
    r.unit_name = None;
    let u = DcsWorldUnit::from_lua_with_id(3, r).unwrap();
    assert_eq!(u.unit_name, b"NoName".to_vec());
    assert_eq!(u.group_name, b"Group A".to_vec());
    assert_eq!(u.object.id, 3);
}

#[test]
fn unit_without_group_name_gets_sentinel() {
    let mut r = record("F-16");
    r.group_name = None;
    let u = DcsWorldUnit::from_lua_with_id(3, r).unwrap();
    assert_eq!(u.group_name, b"NoName".to_vec());
}

#[test]
fn unit_missing_required_field_is_an_error() {
    let mut r = record("F-16");
    r.heading = None;
    assert_eq!(
        DcsWorldUnit::from_lua_with_id(3, r).unwrap_err(),
        RecordError::MissingField(Field::Heading)
    );
}

#[test]
fn unit_row_exact_text() {
    let u = DcsWorldUnit::from_lua_with_id(7, record("F-16")).unwrap();
    let row = u.log_as_csv(3, 100_000_000, 200_000_005);
    assert_eq!(
        text(&row),
        "3,1.00000000,2.00000005,Viper 1,Group A,7,F-16,2,Enemies,1,41.50000000,-2.25000000,\
         1000.00000000,3.14159265,0.00000000,-0.05000000,0.00000001,-0.00000002,3.00000000\n"
    );
}

#[test]
fn ballistic_row_has_empty_names() {
    let o = DcsWorldObject::from_lua_with_id(9, record("AIM-120")).unwrap();
    let row = o.log_as_csv(0, 0, 0);
    assert!(text(&row).starts_with("0,0.00000000,0.00000000,,,9,AIM-120,2,Enemies,1,"));
}

#[test]
fn name_with_comma_is_quoted() {
    let mut r = record("F-16");
    r.unit_name = Some(b"Viper, 1".to_vec());
    let u = DcsWorldUnit::from_lua_with_id(7, r).unwrap();
    let row = text(&u.log_as_csv(3, 0, 0));
    assert!(row.starts_with("3,0.00000000,0.00000000,\"Viper, 1\",Group A,7,"));
}

#[test]
fn frame_row_exact_text() {
    let s = FrameSnapshot {
        frame_number: 12,
        game_time: 1_600_000,
        real_time: -150_000_000,
        units: units(2),
        ballistics: vec![],
    };
    assert_eq!(text(&log_frame(&s)), "12,0.01600000,-1.50000000,2,0\n");
}

#[test]
fn frame_row_parses_back() {
    let s = FrameSnapshot {
        frame_number: u64::MAX,
        game_time: i64::MIN,
        real_time: i64::MAX,
        units: units(1),
        ballistics: vec![],
    };
    let row = log_frame(&s);
    assert_eq!(
        parse_frame_row(&row),
        Some(FrameRow {
            frame_number: u64::MAX,
            game_time: i64::MIN,
            real_time: i64::MAX,
            num_units: 1,
            num_ballistics: 0,
        })
    );
}

#[test]
fn malformed_frame_rows_are_rejected() {
    assert_eq!(parse_frame_row(&b"1,0.00000000,0.00000000,1\n".to_vec()), None);
    assert_eq!(parse_frame_row(&b"1,0.0,0.00000000,1,0\n".to_vec()), None);
    assert_eq!(parse_frame_row(&b"1,0.00000000,0.00000000,1,0".to_vec()), None);
    assert_eq!(parse_frame_row(&b"x,0.00000000,0.00000000,1,0\n".to_vec()), None);
}

#[test]
fn compressed_frame_log_round_trip() {
    let mut session = Session::new();
    let mut logger = Logger::new(true, false);
    let mut plain: Vec<u8> = Vec::new();
    let times = [0i64, 1_600_000, 3_300_000];
    for (k, t) in times.iter().enumerate() {
        let snap = session
            .on_frame_begin(false, *t, 10 * *t, units(k), vec![])
            .unwrap();
        let out = logger.handle_message(&Message::Update(snap));
        for row in out.frame_rows {
            plain.extend_from_slice(&row);
        }
    }
    let compressed = zstd::encode_all(&plain[..], 10).unwrap();
    let restored = zstd::decode_all(&compressed[..]).unwrap();
    assert_eq!(restored, plain);
    let rows: Vec<Vec<u8>> = restored
        .split_inclusive(|b| *b == b'\n')
        .map(|r| r.to_vec())
        .collect();
    assert_eq!(rows.len(), 3);
    for (k, row) in rows.iter().enumerate() {
        let parsed = parse_frame_row(row).unwrap();
        assert_eq!(parsed.frame_number, k as u64);
        assert_eq!(parsed.game_time, times[k]);
        assert_eq!(parsed.real_time, 10 * times[k]);
        assert_eq!(parsed.num_units, k as u64);
    }
}

#[test]
fn n_updates_then_stop_give_n_increasing_rows() {
    let mut session = Session::new();
    let mut logger = Logger::new(true, true);
    let mut frame_rows: Vec<Vec<u8>> = Vec::new();
    let mut finishes = 0;
    for k in 0..5 {
        let snap = session
            .on_frame_begin(false, k * 1_000_000, k * 1_000_000, units(1), vec![])
            .unwrap();
        let out = logger.handle_message(&Message::Update(snap));
        frame_rows.extend(out.frame_rows);
        assert!(!out.finish);
    }
    let stop = session.stop().unwrap();
    let out = logger.handle_message(&stop);
    assert!(out.frame_rows.is_empty());
    if out.finish {
        finishes += 1;
    }
    assert_eq!(frame_rows.len(), 5);
    assert_eq!(finishes, 1);
    let numbers: Vec<u64> = frame_rows
        .iter()
        .map(|r| parse_frame_row(r).unwrap().frame_number)
        .collect();
    assert_eq!(numbers, vec![0, 1, 2, 3, 4]);
}

#[test]
fn object_rows_per_update() {
    let mut logger = Logger::new(false, true);
    let snap = FrameSnapshot {
        frame_number: 0,
        game_time: 0,
        real_time: 0,
        units: units(3),
        ballistics: vec![DcsWorldObject::from_lua_with_id(50, record("AIM-9")).unwrap()],
    };
    let out = logger.handle_message(&Message::Update(Arc::new(snap)));
    assert_eq!(out.object_rows.len(), 4);
    assert!(out.frame_rows.is_empty());
    assert!(text(&out.object_rows[3]).contains(",,50,AIM-9,"));
}

#[test]
fn frame_log_only_session_with_three_frames() {
    let mut session = Session::new();
    let mut logger = Logger::new(true, false);
    let mut frame_bytes: Vec<u8> = Vec::new();
    let mut object_bytes: Vec<u8> = Vec::new();
    let counts = [1usize, 2, 0];
    let times = [0i64, 1_600_000, 3_300_000];
    for k in 0..3 {
        let snap = session
            .on_frame_begin(false, times[k], times[k], units(counts[k]), vec![])
            .unwrap();
        let out = logger.handle_message(&Message::Update(snap));
        for r in out.frame_rows {
            frame_bytes.extend_from_slice(&r);
        }
        for r in out.object_rows {
            object_bytes.extend_from_slice(&r);
        }
    }
    let out = logger.handle_message(&session.stop().unwrap());
    assert!(out.finish);
    assert_eq!(
        text(&frame_bytes),
        "0,0.00000000,0.00000000,1,0\n1,0.01600000,0.01600000,2,0\n2,0.03300000,0.03300000,0,0\n"
    );
    assert!(object_bytes.is_empty());
}

#[test]
fn stopping_twice_finishes_once() {
    let mut logger = Logger::new(true, true);
    let first = logger.handle_message(&Message::Stop);
    let second = logger.handle_message(&Message::Stop);
    assert!(first.finish);
    assert!(!second.finish);
    assert!(second.frame_rows.is_empty() && second.object_rows.is_empty());
    assert!(!logger.is_open());
    let mut session = Session::new();
    assert!(matches!(session.stop(), Some(Message::Stop)));
    assert!(session.stop().is_none());
}

#[test]
fn closed_logger_ignores_updates() {
    let mut logger = Logger::new(true, true);
    logger.handle_message(&Message::Stop);
    let snap = FrameSnapshot { frame_number: 0, game_time: 0, real_time: 0, units: units(2), ballistics: vec![] };
    let out = logger.handle_message(&Message::Update(Arc::new(snap)));
    assert!(out.frame_rows.is_empty() && out.object_rows.is_empty() && !out.finish);
}

#[test]
fn paused_tick_emits_nothing() {
    let mut session = Session::new();
    let mut logger = Logger::new(true, true);
    assert!(session.on_frame_begin(false, 0, 0, units(1), vec![]).is_some());
    assert!(session.on_frame_begin(true, 1, 1, units(1), vec![]).is_none());
    assert_eq!(session.frames_emitted(), 1);
    let snap = session.on_frame_begin(false, 2, 2, units(1), vec![]).unwrap();
    assert_eq!(snap.frame_number, 1);
    let out = logger.handle_message(&Message::Update(snap));
    assert_eq!(parse_frame_row(&out.frame_rows[0]).unwrap().frame_number, 1);
}

#[test]
fn stopped_session_emits_nothing() {
    let mut session = Session::new();
    session.stop();
    assert!(session.on_frame_begin(false, 0, 0, vec![], vec![]).is_none());
    assert_eq!(session.frames_emitted(), 0);
}

#[test]
fn compressed_object_log_round_trip() {
    let mut session = Session::new();
    let mut logger = Logger::new(false, true);
    let ballistic = DcsWorldObject::from_lua_with_id(77, record("AIM-120")).unwrap();
    let snap = session
        .on_frame_begin(false, 123_456_789, 987_654_321, units(2), vec![ballistic])
        .unwrap();
    let out = logger.handle_message(&Message::Update(snap));
    let mut plain: Vec<u8> = Vec::new();
    for r in &out.object_rows {
        plain.extend_from_slice(r);
    }
    let restored = zstd::decode_all(&zstd::encode_all(&plain[..], 10).unwrap()[..]).unwrap();
    let rows: Vec<Vec<u8>> = restored.split_inclusive(|b| *b == b'\n').map(|r| r.to_vec()).collect();
    assert_eq!(rows.len(), 3);
    let first = parse_object_row(&rows[0]).unwrap();
    assert_eq!(first.frame_number, 0);
    assert_eq!(first.game_time, 123_456_789);
    assert_eq!(first.real_time, 987_654_321);
    assert_eq!(first.unit_name, b"Viper 1".to_vec());
    assert_eq!(first.group_name, b"Group A".to_vec());
    assert_eq!(first.object.id, 0);
    assert_eq!(first.object.name, b"F-16".to_vec());
    assert_eq!(first.object.coalition, b"Enemies".to_vec());
    assert_eq!(first.object.lat_lon_alt.lat, 4_150_000_000);
    assert_eq!(first.object.lat_lon_alt.lon, -225_000_000);
    assert_eq!(first.object.heading, 314_159_265);
    assert_eq!(first.object.bank, -5_000_000);
    assert_eq!(first.object.position.y, -2);
    let last = parse_object_row(&rows[2]).unwrap();
    assert_eq!(last.unit_name, Vec::<u8>::new());
    assert_eq!(last.object.id, 77);
    assert_eq!(last.object.name, b"AIM-120".to_vec());
}

#[test]
fn malformed_object_rows_are_rejected() {
    assert!(parse_object_row(&b"1,2,3\n".to_vec()).is_none());
    let u = DcsWorldUnit::from_lua_with_id(1, record("F-16")).unwrap();
    let mut row = u.log_as_csv(0, 0, 0);
    row.pop();
    assert!(parse_object_row(&row).is_none());
}
