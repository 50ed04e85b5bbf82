use sentryusb::row::{
    DecodedBlobs, Real, RouteRow, RowError, SqlCell, COLUMN_KINDS, ColumnKind,
};
use sentryusb::store_codec::{
    envelope, export_outcome, group_drive_tags, next_route, select_codec, sort_processed_files,
    Codec, DriveTags, ExportError, JsonCompatCodec, StreamError, TypedCodec,
};

fn pair(k: &str, t: &str) -> (String, String) {
    (k.to_string(), t.to_string())
}

fn group(k: &str, tags: &[&str]) -> DriveTags {
    DriveTags {
        drive_key: k.to_string(),
        tags: tags.iter().map(|s| s.to_string()).collect(),
    }
}

#[test]
fn flag_picks_the_codec() {
    assert_eq!(select_codec(true), Codec::Typed(TypedCodec));
    assert_eq!(select_codec(false), Codec::JsonCompat(JsonCompatCodec));
}

#[test]
fn tags_group_by_drive_in_key_order() {
    let rows = vec![
        pair("2025-02-01", "Work"),
        pair("2025-01-15", "Commute"),
        pair("2025-02-01", "Home"),
        pair("2025-01-15", "Work"),
        pair("2024-12-31", "Trip"),
    ];
    assert_eq!(
        group_drive_tags(&rows),
        vec![
            group("2024-12-31", &["Trip"]),
            group("2025-01-15", &["Commute", "Work"]),
            group("2025-02-01", &["Work", "Home"]),
        ]
    );
}

#[test]
fn envelope_leaves_empty_tags_out() {
    let files = vec!["b.mp4".to_string(), "a.mp4".to_string()];
    let e = envelope(&files, &Vec::new());
    assert_eq!(e.processed_files, vec!["a.mp4", "b.mp4"]);
    assert_eq!(e.drive_tags, None);
    let e = envelope(&Vec::new(), &vec![pair("k", "t")]);
    assert_eq!(e.drive_tags, Some(vec![group("k", &["t"])]));
    assert_eq!(sort_processed_files(&files), vec!["a.mp4", "b.mp4"]);
}

fn cells() -> Vec<SqlCell> {
    COLUMN_KINDS
        .iter()
        .map(|k| match k {
            ColumnKind::Text => SqlCell::Text("x".to_string()),
            ColumnKind::Integer => SqlCell::Integer { value: 1, as_real: Real { bits: 0 } },
            ColumnKind::Real => SqlCell::Real(Real { bits: 0 }),
            _ => SqlCell::Null,
        })
        .collect()
}

fn nothing(_: &RouteRow) -> DecodedBlobs {
    DecodedBlobs {
        points: Ok(None),
        gear_states: None,
        ap_states: None,
        speeds: Ok(None),
        accel: Ok(None),
        gear_runs: Ok(None),
    }
}

#[test]
fn next_route_reads_a_row() {
    let route = next_route(&cells(), nothing).unwrap();
    assert_eq!(route.file, "x");
    assert_eq!(route.raw_frame_count, 1);
    assert!(route.points.is_empty() && route.gear_states.is_empty());
}

#[test]
fn next_route_stops_at_the_first_failure() {
    let mut c = cells();
    c[1] = SqlCell::Null;
    assert_eq!(
        next_route(&c, |_: &RouteRow| -> DecodedBlobs { panic!("not asked") }),
        Err(StreamError::Row(RowError::WrongType(1)))
    );
    match next_route(&cells(), |r: &RouteRow| DecodedBlobs {
        points: Err("bad".to_string()),
        ..nothing(r)
    }) {
        Err(StreamError::Blob(e)) => {
            assert_eq!(e.context, "decode points x");
            assert_eq!(e.cause, "bad");
        }
        other => panic!("{:?}", other),
    }
}

#[test]
fn failed_read_is_told_before_the_serialiser() {
    assert_eq!(export_outcome(None, Ok(())), Ok(()));
    assert_eq!(
        export_outcome(None, Err("disk full".to_string())),
        Err(ExportError {
            context: "serialize JSON".to_string(),
            cause: "disk full".to_string(),
        })
    );
    for serialised in [Ok(()), Err("io error".to_string())] {
        assert_eq!(
            export_outcome(Some("no such column".to_string()), serialised),
            Err(ExportError {
                context: "export_typed: streaming route read failed".to_string(),
                cause: "no such column".to_string(),
            })
        );
    }
}
