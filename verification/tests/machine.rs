use avc::machine::{check_answer, job_from_answers, job_from_machine, Json};

fn obj(entries: Vec<(&str, Json)>) -> Json {
    Json::Object(entries.into_iter().map(|(k, v)| (k.to_string(), v)).collect())
}

fn s(t: &str) -> Json {
    Json::Str(t.to_string())
}

fn job_info(payload: Json) -> Json {
    obj(vec![("code", Json::PosInt(0)), ("payload", payload)])
}

fn project_info(pinfo: Json) -> Json {
    obj(vec![("payload", obj(vec![("pinfo", pinfo)]))])
}

/// The job payload with `key` changed: removed where `value` is `None`.
fn job_payload_with(key: &str, value: Option<Json>) -> Json {
    let mut entries = vec![
        ("rowid", Json::PosInt(42)),
        ("qty", Json::PosInt(5990)),
        ("start_at", s("2019-11-30 13:10:00")),
        ("stop_at", s("2019-11-30 19:48:16")),
    ];
    entries.retain(|(k, _)| *k != key);
    if let Some(v) = value {
        entries.push((key, v));
    }
    obj(entries)
}

/// The project description with `key` changed: removed where `value` is `None`.
fn pinfo_with(key: &str, value: Option<Json>) -> Json {
    let mut entries = vec![
        ("device", s("A502000699-1")),
        ("checksum", s("7AF")),
        ("vendor", s("ALLEGRO")),
        ("part_type", s("A5931GES")),
    ];
    entries.retain(|(k, _)| *k != key);
    if let Some(v) = value {
        entries.push((key, v));
    }
    obj(entries)
}

fn good_job_info() -> Json {
    job_info(job_payload_with("", None))
}

fn good_project_info() -> Json {
    project_info(pinfo_with("", None))
}

fn err(ji: &Json, pi: &Json) -> String {
    job_from_machine(ji, pi, "24/01/02").unwrap_err()
}

#[test]
fn job_is_read_from_the_status_answers() {
    let j = job_from_machine(&good_job_info(), &good_project_info(), "24/01/02").unwrap();
    assert_eq!(j.jid, 42);
    assert_eq!(j.qty, 5990);
    assert_eq!(j.part, "A502000699-1");
    assert_eq!(j.start, "2019-11-30 13:10:00");
    assert_eq!(j.stop, "2019-11-30 19:48:16");
    assert_eq!(j.checksum, "7AF");
    assert_eq!(j.vendor, "ALLEGRO");
    assert_eq!(j.part_type, "A5931GES");
    assert_eq!(j.date, "24/01/02");
    assert!(j.job.is_empty() && j.chip.is_empty() && j.lot.is_empty() && j.user.is_empty());
}

#[test]
fn vendor_and_type_have_defaults() {
    let pinfo = obj(vec![("device", s("D")), ("checksum", s("C"))]);
    let j = job_from_machine(&good_job_info(), &project_info(pinfo), "d").unwrap();
    assert_eq!(j.vendor, "no vendor");
    assert_eq!(j.part_type, "no part_type");
}

#[test]
fn negative_quantity_wraps() {
    let payload = obj(vec![
        ("rowid", Json::NegInt(-1)),
        ("qty", Json::NegInt(-1)),
        ("start_at", s("a")),
        ("stop_at", s("b")),
    ]);
    let j = job_from_machine(&job_info(payload), &good_project_info(), "d").unwrap();
    assert_eq!(j.jid, -1);
    assert_eq!(j.qty, u64::MAX);
}

#[test]
fn integers_beyond_i64_are_invalid() {
    let big = job_info(job_payload_with("rowid", Some(Json::PosInt(1u64 << 63))));
    assert_eq!(err(&big, &good_project_info()), "invalid rowid");
    let edge = job_info(job_payload_with("rowid", Some(Json::PosInt(i64::MAX as u64))));
    assert_eq!(job_from_machine(&edge, &good_project_info(), "d").unwrap().jid, i64::MAX);
    let float = job_info(job_payload_with("qty", Some(Json::Float)));
    assert_eq!(err(&float, &good_project_info()), "invalid qty");
}

#[test]
fn first_entry_of_a_key_is_read() {
    let payload = obj(vec![
        ("rowid", Json::PosInt(1)),
        ("rowid", Json::PosInt(2)),
        ("qty", Json::PosInt(3)),
        ("start_at", s("a")),
        ("stop_at", s("b")),
    ]);
    let j = job_from_machine(&job_info(payload), &good_project_info(), "d").unwrap();
    assert_eq!(j.jid, 1);
}

#[test]
fn each_lookup_reports_its_error() {
    let gj = good_job_info();
    let gp = good_project_info();
    assert_eq!(err(&gj, &Json::Null), "no payload");
    assert_eq!(err(&gj, &obj(vec![("payload", s("x"))])), "invalid payload");
    assert_eq!(err(&obj(vec![]), &gp), "no payload");
    assert_eq!(err(&job_info(Json::Array(vec![])), &gp), "invalid payload");
    assert_eq!(err(&gj, &obj(vec![("payload", obj(vec![]))])), "no pinfo");
    assert_eq!(err(&gj, &project_info(Json::Bool(true))), "invalid pinfo");

    for key in ["rowid", "qty", "start_at", "stop_at"] {
        let missing = job_info(job_payload_with(key, None));
        assert_eq!(err(&missing, &gp), format!("no {}", key));
        let wrong = if key == "rowid" || key == "qty" { s("7") } else { Json::PosInt(7) };
        let invalid = job_info(job_payload_with(key, Some(wrong)));
        assert_eq!(err(&invalid, &gp), format!("invalid {}", key));
    }
    for key in ["device", "checksum"] {
        assert_eq!(err(&gj, &project_info(pinfo_with(key, None))), format!("no {}", key));
        assert_eq!(
            err(&gj, &project_info(pinfo_with(key, Some(Json::Null)))),
            format!("invalid {}", key)
        );
    }
    for key in ["vendor", "part_type"] {
        assert_eq!(
            err(&gj, &project_info(pinfo_with(key, Some(Json::PosInt(1))))),
            format!("invalid {}", key)
        );
    }
}

#[test]
fn errors_come_in_lookup_order() {
    // Both the project's payload and the job's payload are missing: the
    // project's is looked up first.
    assert_eq!(err(&obj(vec![]), &obj(vec![])), "no payload");
    // The job id is looked up before the device.
    let ji = job_info(job_payload_with("rowid", None));
    let pi = project_info(pinfo_with("device", None));
    assert_eq!(err(&ji, &pi), "no rowid");
    // The device before the quantity.
    let ji = job_info(job_payload_with("qty", None));
    assert_eq!(err(&ji, &pi), "no device");
}

#[test]
fn json_accessors() {
    let v = obj(vec![("a", Json::PosInt(1)), ("b", s("x"))]);
    assert!(v.is_object());
    assert!(!s("x").is_object());
    assert!(matches!(v.get("a"), Some(Json::PosInt(1))));
    assert!(v.get("c").is_none());
    assert!(s("x").get("a").is_none());
    assert_eq!(Json::PosInt(5).as_i64(), Some(5));
    assert_eq!(Json::NegInt(-5).as_i64(), Some(-5));
    assert_eq!(Json::PosInt(u64::MAX).as_i64(), None);
    assert_eq!(s("q").as_str(), Some("q"));
    assert_eq!(Json::Null.as_str(), None);
}

const JOB_INFO: &str = r#"{"code":0,"payload":{"rowid":42,"qty":5990,"start_at":"2019-11-30 13:10:00","stop_at":"2019-11-30 19:48:16"}}"#;
const PROJECT_INFO: &str = r#"{"payload":{"pinfo":{"device":"A502000699-1","checksum":"7AF","vendor":"ALLEGRO"}}}"#;

#[test]
fn job_is_read_from_the_raw_answers() {
    let j = job_from_answers(b"{}", JOB_INFO.as_bytes(), PROJECT_INFO.as_bytes(), b"[1, 2.5]", "24/01/02").unwrap();
    assert_eq!(j.jid, 42);
    assert_eq!(j.qty, 5990);
    assert_eq!(j.part, "A502000699-1");
    assert_eq!(j.start, "2019-11-30 13:10:00");
    assert_eq!(j.stop, "2019-11-30 19:48:16");
    assert_eq!(j.checksum, "7AF");
    assert_eq!(j.vendor, "ALLEGRO");
    assert_eq!(j.part_type, "no part_type");
    assert_eq!(j.date, "24/01/02");
}

#[test]
fn an_answer_that_is_not_json_stops_the_print() {
    let parse_error = |bytes: &[u8]| serde_json::from_slice::<serde_json::Value>(bytes).unwrap_err().to_string();
    let e = job_from_answers(b"not json", JOB_INFO.as_bytes(), PROJECT_INFO.as_bytes(), b"{}", "d").unwrap_err();
    assert_eq!(e, parse_error(b"not json"));
    let e = job_from_answers(b"{}", b"{", b"]", b"{}", "d").unwrap_err();
    assert_eq!(e, parse_error(b"{"));
    let e = job_from_answers(b"{}", JOB_INFO.as_bytes(), b"]", b"x", "d").unwrap_err();
    assert_eq!(e, parse_error(b"]"));
    let e = job_from_answers(b"{}", JOB_INFO.as_bytes(), PROJECT_INFO.as_bytes(), b"x", "d").unwrap_err();
    assert_eq!(e, parse_error(b"x"));
    // Parsed answers that lack what the job needs report the lookup.
    let e = job_from_answers(b"{}", b"{}", PROJECT_INFO.as_bytes(), b"{}", "d").unwrap_err();
    assert_eq!(e, "no payload");
}

#[test]
fn json_numbers_keep_their_kind() {
    let ji = r#"{"payload":{"rowid":-3,"qty":18446744073709551615,"start_at":"a","stop_at":"b"}}"#;
    let e = job_from_answers(b"{}", ji.as_bytes(), PROJECT_INFO.as_bytes(), b"{}", "d").unwrap_err();
    assert_eq!(e, "invalid qty");
    let ji = r#"{"payload":{"rowid":-3,"qty":1.5,"start_at":"a","stop_at":"b"}}"#;
    let e = job_from_answers(b"{}", ji.as_bytes(), PROJECT_INFO.as_bytes(), b"{}", "d").unwrap_err();
    assert_eq!(e, "invalid qty");
    let ji = r#"{"payload":{"rowid":-3,"qty":7,"start_at":"a","stop_at":"b"}}"#;
    let j = job_from_answers(b"{}", ji.as_bytes(), PROJECT_INFO.as_bytes(), b"{}", "d").unwrap();
    assert_eq!(j.jid, -3);
    assert_eq!(j.qty, 7);
}

#[test]
fn answers_are_checked_one_by_one() {
    assert_eq!(check_answer(b"{}"), Ok(()));
    assert_eq!(check_answer(JOB_INFO.as_bytes()), Ok(()));
    let e = check_answer(b"nope").unwrap_err();
    assert_eq!(e, serde_json::from_slice::<serde_json::Value>(b"nope").unwrap_err().to_string());
}
