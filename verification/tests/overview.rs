use sentryusb::overview::{
    config_part, get_overview, join_part, part_from_tuple, refuse_overview, ErrorBody,
    ErrorRecord, Parts, CACHE_CONTROL,
};
use serde_json::Value;

fn object(key: &str, value: Value) -> Value {
    let mut fields = serde_json::Map::new();
    fields.insert(key.to_string(), value);
    Value::Object(fields)
}

#[test]
fn part_from_tuple_isolates_failures() {
    let ok = part_from_tuple(200, object("a", Value::from(1)));
    assert_eq!(ok.body, Some(object("a", Value::from(1))));
    assert!(ok.error.is_none());

    let bad = part_from_tuple(500, object("error", Value::from("boom")));
    assert_eq!(bad.body, None);
    let err = bad.error.expect("failed part records an error");
    assert_eq!(err.status, 500);
    assert_eq!(
        err.body,
        ErrorBody::Answered(object("error", Value::from("boom")))
    );
}

#[test]
fn success_is_the_two_hundreds() {
    for (status, good) in [(199, false), (200, true), (299, true), (300, false), (404, false)] {
        assert_eq!(part_from_tuple(status, ()).error.is_none(), good);
    }
}

#[test]
fn unfinished_task_and_unreadable_config_are_500s() {
    let p = join_part::<u8>(Err("task 3 panicked".to_string()));
    assert_eq!(p.body, None);
    assert_eq!(
        p.error,
        Some(ErrorRecord {
            status: 500,
            body: ErrorBody::Message("handler did not complete: task 3 panicked".to_string()),
        })
    );
    let p = config_part::<u8>(Err("no file".to_string()));
    assert_eq!(
        p.error,
        Some(ErrorRecord {
            status: 500,
            body: ErrorBody::Message("Failed to read config: no file".to_string()),
        })
    );
    assert_eq!(config_part(Ok(4u8)).body, Some(4));
    assert_eq!(join_part(Ok((200, 5u8))).body, Some(5));
}

#[test]
fn one_failed_part_leaves_the_others() {
    let page = get_overview(Parts {
        status: part_from_tuple(200, 1),
        storage: part_from_tuple(503, 2),
        drive_stats: part_from_tuple(200, 3),
        drive_status: part_from_tuple(200, 4),
        config: config_part(Ok(5)),
        update_status: join_part(Err("gone".to_string())),
    });
    assert_eq!(page.status, 200);
    assert_eq!(page.cache_control, CACHE_CONTROL);
    assert_eq!(
        page.envelope.parts,
        vec![
            ("status", Some(1)),
            ("storageBreakdown", None),
            ("driveStats", Some(3)),
            ("driveStatus", Some(4)),
            ("config", Some(5)),
            ("updateStatus", None),
        ]
    );
    assert_eq!(
        page.envelope.errors,
        vec![
            (
                "storageBreakdown",
                ErrorRecord { status: 503, body: ErrorBody::Answered(2) }
            ),
            (
                "updateStatus",
                ErrorRecord {
                    status: 500,
                    body: ErrorBody::Message("handler did not complete: gone".to_string()),
                }
            ),
        ]
    );
}

#[test]
fn overview_is_off_without_the_flag() {
    let refusal = refuse_overview(false).expect("refused");
    assert_eq!(refusal.status, 404);
    assert_eq!(refusal.error, "experimental overview disabled");
    assert!(refuse_overview(true).is_none());
    assert_eq!(CACHE_CONTROL, "private, max-age=2, stale-while-revalidate=8");
}
