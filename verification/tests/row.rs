use rusqlite::types::{Value, ValueRef};
use rusqlite::Connection;
use sentryusb::row::{
    ColumnKind, DecodedBlobs, EncodedBlobs, GearRun, Real, Real32, Route, RouteAggregates,
    RouteRow, RowError, SqlCell, SqlParam, COLUMNS, COLUMN_COUNT, COLUMN_KINDS,
};
use sentryusb::store_codec::next_route;

fn r64(x: f64) -> Real {
    Real { bits: x.to_bits() }
}

fn r32(x: f32) -> Real32 {
    Real32 { bits: x.to_bits() }
}

fn table() -> Connection {
    let columns: Vec<String> = COLUMNS
        .iter()
        .zip(COLUMN_KINDS.iter())
        .map(|(name, kind)| {
            let ty = match kind {
                ColumnKind::Text | ColumnKind::OptText => "TEXT",
                ColumnKind::Integer | ColumnKind::OptInteger => "INTEGER",
                ColumnKind::Real | ColumnKind::OptReal => "REAL",
                ColumnKind::OptBlob => "BLOB",
            };
            let key = if *name == "file" { " PRIMARY KEY" } else { "" };
            format!("{} {}{}", name, ty, key)
        })
        .collect();
    let conn = Connection::open_in_memory().unwrap();
    conn.execute(&format!("CREATE TABLE routes ({})", columns.join(", ")), [])
        .unwrap();
    conn
}

fn value(p: &SqlParam) -> Value {
    match p {
        SqlParam::Null => Value::Null,
        SqlParam::Integer(n) => Value::Integer(*n),
        SqlParam::Real(r) => Value::Real(f64::from_bits(r.bits)),
        SqlParam::Text(s) => Value::Text(s.clone()),
        SqlParam::Blob(b) => Value::Blob(b.clone()),
    }
}

fn cell(v: ValueRef<'_>) -> SqlCell {
    match v {
        ValueRef::Null => SqlCell::Null,
        ValueRef::Integer(n) => SqlCell::Integer { value: n, as_real: r64(n as f64) },
        ValueRef::Real(x) => SqlCell::Real(r64(x)),
        ValueRef::Text(t) => match std::str::from_utf8(t) {
            Ok(s) => SqlCell::Text(s.to_string()),
            Err(_) => SqlCell::BadText,
        },
        ValueRef::Blob(b) => SqlCell::Blob(b.to_vec()),
    }
}

fn insert(conn: &Connection, row: &RouteRow) -> usize {
    let stmt = row.bind_insert();
    conn.execute(&stmt.sql, rusqlite::params_from_iter(stmt.params.iter().map(value)))
        .unwrap()
}

fn select(conn: &Connection) -> Vec<RouteRow> {
    let mut stmt = conn.prepare(&RouteRow::select_sql()).unwrap();
    let mut rows = stmt.query([]).unwrap();
    let mut out = Vec::new();
    while let Some(r) = rows.next().unwrap() {
        let cells: Vec<SqlCell> = (0..COLUMN_COUNT).map(|i| cell(r.get_ref(i).unwrap())).collect();
        out.push(RouteRow::from_row(&cells).unwrap());
    }
    out
}

fn aggregates() -> RouteAggregates {
    RouteAggregates {
        distance_m: r64(14241.5),
        max_speed_mps: r64(21.0),
        avg_speed_mps: r64(20.5),
        speed_sample_count: 2,
        valid_point_count: 2,
        fsd_engaged_ms: 500,
        autosteer_engaged_ms: 0,
        tacc_engaged_ms: 0,
        fsd_distance_m: r64(7000.25),
        autosteer_distance_m: r64(0.0),
        tacc_distance_m: r64(0.0),
        assisted_distance_m: r64(7000.25),
        fsd_disengagements: 1,
        fsd_accel_pushes: 3,
        start_lat: Some(r64(37.5)),
        start_lng: Some(r64(-122.1)),
        end_lat: Some(r64(37.6)),
        end_lng: Some(r64(-122.2)),
    }
}

fn route() -> Route {
    Route {
        file: "2025-01-15_10-00-00/clip-front.mp4".to_string(),
        date: "2025-01-15".to_string(),
        points: vec![[r64(37.5), r64(-122.1)], [r64(37.6), r64(-122.2)]],
        gear_states: vec![4, 4],
        autopilot_states: vec![1, 0],
        speeds: vec![r32(20.0), r32(21.0)],
        accel_positions: vec![r32(0.1), r32(0.2)],
        raw_park_count: 0,
        raw_frame_count: 2,
        gear_runs: vec![GearRun { gear: 4, frames: 2 }],
        source: Some("sei".to_string()),
        external_signature: None,
        tessie_autopilot_percent: None,
        battery_pct_start: Some(r64(80.0)),
        battery_pct_end: None,
        interior_temp_min: None,
        interior_temp_max: None,
        exterior_temp_avg: None,
        hvac_runtime_s: None,
        tire_fl_psi: None,
        tire_fr_psi: None,
        tire_rl_psi: None,
        tire_rr_psi: None,
        odometer_mi_start: None,
        odometer_mi_end: None,
        location_name_start: None,
        location_name_end: None,
    }
}

fn encoded() -> EncodedBlobs {
    EncodedBlobs {
        points: Some(vec![1, 2, 3]),
        gear_states: Some(vec![4, 4]),
        ap_states: Some(vec![1, 0]),
        speeds: Some(vec![20, 21]),
        accel: None,
        gear_runs: Some(vec![4, 2]),
    }
}

fn decoded() -> DecodedBlobs {
    DecodedBlobs {
        points: Ok(Some(route().points)),
        gear_states: Some(vec![4, 4]),
        ap_states: Some(vec![1, 0]),
        speeds: Ok(Some(route().speeds)),
        accel: Ok(Some(route().accel_positions)),
        gear_runs: Ok(Some(route().gear_runs)),
    }
}

#[test]
fn row_insert_select_roundtrips() {
    let conn = table();
    let r = route();
    let row = RouteRow::from_route(&r, &aggregates(), r.file.clone(), encoded(), 1_736_935_200);
    assert_eq!(insert(&conn, &row), 1);

    let got = select(&conn);
    assert_eq!(got.len(), 1);
    assert_eq!(got[0], row);

    let back = got[0].to_route(decoded()).unwrap();
    assert_eq!(back.points, r.points);
    assert_eq!(back.gear_states, vec![4, 4]);
    assert_eq!(back.speeds, vec![r32(20.0), r32(21.0)]);
    assert_eq!(back.battery_pct_start, Some(r64(80.0)));
    assert_eq!(back.battery_pct_end, None);
    assert_eq!(back, r);
}

#[test]
fn insert_replaces_the_row_of_the_file() {
    let conn = table();
    let r = route();
    let mut row = RouteRow::from_route(&r, &aggregates(), "a.mp4".to_string(), encoded(), 1);
    insert(&conn, &row);
    row.software_version = Some("2025.2".to_string());
    insert(&conn, &row);
    let got = select(&conn);
    assert_eq!(got, vec![row]);
}

#[test]
fn row_of_a_route() {
    let row = RouteRow::from_route(&route(), &aggregates(), "n.mp4".to_string(), encoded(), 7);
    assert_eq!(row.file, "n.mp4");
    assert_eq!(row.date_dir, "2025-01-15");
    assert_eq!(row.point_count, 2);
    assert_eq!(row.first_lat, Some(r64(37.5)));
    assert_eq!(row.first_lon, Some(r64(-122.1)));
    assert_eq!(row.updated_at, 7);
    assert_eq!(row.start_ts, None);
    assert_eq!(row.cloud_uploaded_at, None);
    assert_eq!(row.fsd_accel_pushes, Some(3));
    assert_eq!(row.end_lon, Some(r64(-122.2)));
    assert_eq!(row.battery_temp_avg, None);
    let mut empty = route();
    empty.points = Vec::new();
    let row = RouteRow::from_route(&empty, &aggregates(), "n.mp4".to_string(), encoded(), 7);
    assert_eq!(row.point_count, 0);
    assert_eq!(row.first_lat, None);
}

#[test]
fn columns_are_distinct_and_placeholders_numbered() {
    let mut sorted = COLUMNS.to_vec();
    sorted.sort();
    sorted.dedup();
    assert_eq!(sorted.len(), COLUMN_COUNT);
    assert_eq!(COLUMNS[0], "file");
    assert_eq!(COLUMNS[54], "location_name_end");
    let select = RouteRow::select_sql();
    assert!(select.starts_with("SELECT file, date_dir, point_count, "));
    assert!(select.ends_with(", location_name_end FROM routes ORDER BY file"));
    let insert =
        RouteRow::from_route(&route(), &aggregates(), String::new(), encoded(), 0).bind_insert();
    assert!(insert.sql.starts_with("INSERT OR REPLACE INTO routes (file, date_dir, "));
    assert!(insert.sql.contains("location_name_end) VALUES (?1, ?2, "));
    assert!(insert.sql.ends_with(", ?54, ?55)"));
    assert_eq!(insert.params.len(), 55);
}

fn cells() -> Vec<SqlCell> {
    RouteRow::from_route(&route(), &aggregates(), "f".to_string(), encoded(), 0)
        .values()
        .iter()
        .map(|p| match p {
            SqlParam::Null => SqlCell::Null,
            SqlParam::Integer(n) => SqlCell::Integer { value: *n, as_real: r64(*n as f64) },
            SqlParam::Real(r) => SqlCell::Real(*r),
            SqlParam::Text(s) => SqlCell::Text(s.clone()),
            SqlParam::Blob(b) => SqlCell::Blob(b.clone()),
        })
        .collect()
}

#[test]
fn first_bad_column_is_the_error() {
    let mut c = cells();
    c[2] = SqlCell::Text("x".to_string());
    c[9] = SqlCell::Blob(Vec::new());
    assert_eq!(RouteRow::from_row(&c), Err(RowError::WrongType(2)));
    let mut c = cells();
    c[0] = SqlCell::Null;
    assert_eq!(RouteRow::from_row(&c), Err(RowError::WrongType(0)));
    let mut c = cells();
    c[36] = SqlCell::BadText;
    assert_eq!(RouteRow::from_row(&c), Err(RowError::BadText(36)));
    let mut c = cells();
    c[37] = SqlCell::BadText;
    c.truncate(54);
    assert_eq!(RouteRow::from_row(&c), Err(RowError::BadText(37)));
    let mut c = cells();
    c.truncate(54);
    assert_eq!(RouteRow::from_row(&c), Err(RowError::MissingColumn(54)));
}

#[test]
fn integer_stands_for_a_real() {
    let mut c = cells();
    c[7] = SqlCell::Integer { value: 3, as_real: r64(3.0) };
    assert_eq!(RouteRow::from_row(&c).unwrap().distance_m, r64(3.0));
}

#[test]
fn undecodable_blobs_are_named() {
    let row = RouteRow::from_route(&route(), &aggregates(), "f.mp4".to_string(), encoded(), 0);
    let mut d = decoded();
    d.gear_runs = Err("short".to_string());
    d.speeds = Err("odd length".to_string());
    let err = row.to_route(d).unwrap_err();
    assert_eq!(err.context, "decode speeds f.mp4");
    assert_eq!(err.cause, "odd length");
    let mut d = decoded();
    d.points = Err("bad".to_string());
    assert_eq!(row.to_route(d).unwrap_err().context, "decode points f.mp4");
    let mut d = decoded();
    d.accel = Err("bad".to_string());
    assert_eq!(row.to_route(d).unwrap_err().context, "decode accel f.mp4");
    let mut d = decoded();
    d.gear_runs = Err("bad".to_string());
    assert_eq!(row.to_route(d).unwrap_err().context, "decode gear_runs f.mp4");
}

#[test]
fn counts_are_cut_to_32_bits() {
    let mut row = RouteRow::from_route(&route(), &aggregates(), "f".to_string(), encoded(), 0);
    row.raw_park_count = (1 << 32) + 5;
    row.raw_frame_count = -1;
    let mut d = decoded();
    d.points = Ok(None);
    let back = row.to_route(d).unwrap();
    assert_eq!(back.raw_park_count, 5);
    assert_eq!(back.raw_frame_count, u32::MAX);
    assert!(back.points.is_empty());
}

#[test]
fn stored_route_is_read_back() {
    let back = next_route(&cells(), |r: &RouteRow| {
        assert_eq!(r.points_blob, encoded().points);
        assert_eq!(r.gear_runs_blob, encoded().gear_runs);
        decoded()
    });
    assert_eq!(back, Ok(Route { file: "f".to_string(), ..route() }));
}

#[test]
fn aggregates_leave_no_trace_in_the_route() {
    let mut other = aggregates();
    other.distance_m = r64(1e9);
    other.fsd_engaged_ms += 1;
    other.start_lat = None;
    let x = RouteRow::from_route(&route(), &aggregates(), "f".to_string(), encoded(), 1);
    let y = RouteRow::from_route(&route(), &other, "f".to_string(), encoded(), 2);
    assert_ne!(x, y);
    assert_eq!(x.points_blob, y.points_blob);
    assert_eq!(x.to_route(decoded()), y.to_route(decoded()));
}
