use pm_ingest::decimal::Decimal;
use pm_ingest::limiter::Limiter;
use pm_ingest::normalize::{normalize, NormalizedReading};
use pm_ingest::payload::UpstreamPayload;
use pm_ingest::pipeline::{
    aggregate, assemble_response, decide_fetch, decide_fetch_at, decide_write, fatal_response,
    unit_failure, FetchEvent, SuccessRecord, Target, UnitDecision, UnitOutput, UnitResult,
    WriteEvent,
};
use pm_ingest::store::Store;
use pm_ingest::time::CivilDateTime;

fn civil(year: u16, month: u8, day: u8, hour: u8, minute: u8) -> CivilDateTime {
    CivilDateTime { year, month, day, hour, minute }
}

fn target() -> Target {
    Target { sub_region_id: 3, pm_station: "seoul-1".to_string() }
}

fn now() -> CivilDateTime {
    civil(2026, 5, 4, 12, 30)
}

const GOOD_BODY: &str = r#"{"response":{"header":{"resultCode":"00","resultMsg":"NORMAL_CODE"},"body":{"items":[{"pm10Value":"35","pm25Value":"-","dataTime":"2024-03-01 14:37"}]}}}"#;

fn response_event(status: u16, status_display: &str, body: Result<&str, &str>) -> FetchEvent {
    FetchEvent::Response {
        status,
        status_display: status_display.to_string(),
        headers_debug: "{}".to_string(),
        body: body.map(str::to_string).map_err(str::to_string),
    }
}

#[test]
fn unit_persists_valid_payload() {
    let d = decide_fetch_at(&target(), &response_event(200, "200 OK", Ok(GOOD_BODY)), now());
    match d {
        UnitDecision::Write(n) => {
            assert_eq!(n.sub_region_id, 3);
            assert_eq!(n.pm10, Some(Decimal { neg: false, mantissa: 35, scale: 0 }));
            assert_eq!(n.pm25, None);
            // 14:37 KST is 05:37 UTC, bucketed to the top of the hour
            assert_eq!(n.recorded_at, civil(2024, 3, 1, 5, 0));
        }
        UnitDecision::Fail(d) => panic!("expected a write, got: {}", d),
    }
}

#[test]
fn clock_is_only_a_fallback() {
    // with a parseable upstream timestamp the decision is the same whatever
    // instant the clock reads
    let d = decide_fetch(&target(), &response_event(200, "200 OK", Ok(GOOD_BODY)));
    match d {
        UnitDecision::Write(n) => {
            assert_eq!(n.recorded_at, civil(2024, 3, 1, 5, 0));
            assert_eq!(n.pm10, Some(Decimal { neg: false, mantissa: 35, scale: 0 }));
        }
        UnitDecision::Fail(d) => panic!("expected a write, got: {}", d),
    }
}

#[test]
fn unit_accepts_payload_without_header() {
    let body = r#"{"response":{"body":{"items":[{"pm10Value":"12.5","pm25Value":"8","dataTime":"2024-03-01 23:10"}]}}}"#;
    let d = decide_fetch_at(&target(), &response_event(200, "200 OK", Ok(body)), now());
    match d {
        UnitDecision::Write(n) => {
            assert_eq!(n.pm10, Some(Decimal { neg: false, mantissa: 125, scale: 1 }));
            assert_eq!(n.pm25, Some(Decimal { neg: false, mantissa: 8, scale: 0 }));
            assert_eq!(n.recorded_at, civil(2024, 3, 1, 14, 0));
        }
        UnitDecision::Fail(d) => panic!("expected a write, got: {}", d),
    }
}

#[test]
fn unit_falls_back_to_now_on_bad_timestamp() {
    let body = r#"{"response":{"body":{"items":[{"pm10Value":"1","dataTime":"soon"}]}}}"#;
    let d = decide_fetch_at(&target(), &response_event(200, "200 OK", Ok(body)), now());
    match d {
        UnitDecision::Write(n) => {
            assert_eq!(n.recorded_at, civil(2026, 5, 4, 12, 0));
        }
        UnitDecision::Fail(d) => panic!("expected a write, got: {}", d),
    }
}

#[test]
fn unit_fails_on_empty_item_list() {
    let body = r#"{"response":{"header":{"resultMsg":"NORMAL_CODE"},"body":{"items":[]}}}"#;
    let d = decide_fetch_at(&target(), &response_event(200, "200 OK", Ok(body)), now());
    match d {
        UnitDecision::Write(_) => panic!("expected a failure"),
        UnitDecision::Fail(d) => {
            assert_eq!(d, "seoul-1 : No data available in API response.");
        }
    }
}

#[test]
fn unit_fails_on_upstream_error_message() {
    let body = r#"{"response":{"header":{"resultMsg":"SERVICE_KEY_IS_NOT_REGISTERED_ERROR"},"body":{"items":[]}}}"#;
    let d = decide_fetch_at(&target(), &response_event(200, "200 OK", Ok(body)), now());
    match d {
        UnitDecision::Write(_) => panic!("expected a failure"),
        UnitDecision::Fail(d) => {
            assert_eq!(d, "seoul-1 : API returned an error: SERVICE_KEY_IS_NOT_REGISTERED_ERROR");
        }
    }
}

#[test]
fn unit_fails_on_malformed_json() {
    let d = decide_fetch_at(&target(), &response_event(200, "200 OK", Ok("not json")), now());
    match d {
        UnitDecision::Write(_) => panic!("expected a failure"),
        UnitDecision::Fail(d) => {
            assert!(d.starts_with("seoul-1 : Failed to parse JSON response: "));
            assert!(d.ends_with("\nResponse text: not json"));
        }
    }
}

#[test]
fn unit_fails_on_non_success_status() {
    let ev = response_event(503, "503 Service Unavailable", Ok("overloaded"));
    let d = decide_fetch_at(&target(), &ev, now());
    match d {
        UnitDecision::Write(_) => panic!("expected a failure"),
        UnitDecision::Fail(d) => {
            assert_eq!(
                d,
                "seoul-1 : Received non-success status code: 503 Service Unavailable\nHeaders: {}\nResponse text: overloaded"
            );
        }
    }
}

#[test]
fn unit_fails_on_unreadable_body() {
    let d = decide_fetch_at(&target(), &response_event(200, "200 OK", Err("read boom")), now());
    match d {
        UnitDecision::Write(_) => panic!("expected a failure"),
        UnitDecision::Fail(d) => {
            assert_eq!(d, "seoul-1 : Failed to read response text: read boom");
        }
    }
}

#[test]
fn unit_fails_on_transport_error() {
    let ev = FetchEvent::Transport { error_debug: "connection refused".to_string() };
    let d = decide_fetch_at(&target(), &ev, now());
    match d {
        UnitDecision::Write(_) => panic!("expected a failure"),
        UnitDecision::Fail(d) => {
            assert_eq!(d, "seoul-1 : Request failed: connection refused");
        }
    }
}

#[test]
fn unit_fails_on_missing_db_client() {
    let ev = FetchEvent::DbClientFailed { error_debug: "pool timed out".to_string() };
    let d = decide_fetch_at(&target(), &ev, now());
    match d {
        UnitDecision::Write(_) => panic!("expected a failure"),
        UnitDecision::Fail(d) => {
            assert_eq!(d, "seoul-1 : Failed to get db client: pool timed out");
        }
    }
}

#[test]
fn write_outcome_stored() {
    let ev = WriteEvent::Stored {
        pm10: Some(Decimal { neg: false, mantissa: 35, scale: 0 }),
        pm25: None,
        recorded_at: civil(2024, 3, 1, 5, 0),
        updated_at: civil(2026, 5, 4, 12, 31),
    };
    let out = decide_write(&target(), ev);
    assert_eq!(out.errors.len(), 0);
    assert_eq!(out.records.len(), 1);
    let rec = &out.records[0];
    assert_eq!(rec.station_name, "seoul-1");
    assert_eq!(rec.pm10, Some(Decimal { neg: false, mantissa: 35, scale: 0 }));
    assert_eq!(rec.pm25, None);
    assert_eq!(rec.data_time, civil(2024, 3, 1, 5, 0));
    assert_eq!(rec.requested_time, civil(2026, 5, 4, 12, 31));
}

#[test]
fn write_outcome_failed() {
    let ev = WriteEvent::Failed { error_debug: "deadlock".to_string() };
    let out = decide_write(&target(), ev);
    assert_eq!(out.records.len(), 0);
    assert_eq!(out.errors, vec!["seoul-1 : Database query failed: deadlock".to_string()]);
}

#[test]
fn failed_unit_yields_exactly_one_diagnostic() {
    let out = unit_failure("seoul-1 : No data available in API response.".to_string());
    assert_eq!(out.records.len(), 0);
    assert_eq!(out.errors.len(), 1);
    assert_eq!(out.errors[0], "seoul-1 : No data available in API response.");
}

fn record(station: &str) -> SuccessRecord {
    SuccessRecord {
        station_name: station.to_string(),
        pm10: Some(Decimal { neg: false, mantissa: 35, scale: 0 }),
        pm25: None,
        data_time: civil(2024, 3, 1, 5, 0),
        requested_time: civil(2026, 5, 4, 12, 31),
    }
}

#[test]
fn one_failure_does_not_hide_other_results() {
    let ok_unit = UnitOutput { records: vec![record("seoul-1")], errors: vec![] };
    let bad_unit = UnitOutput {
        records: vec![],
        errors: vec!["busan-2 : Request failed: connection refused".to_string()],
    };
    let results = vec![
        UnitResult::Finished(ok_unit),
        UnitResult::Finished(bad_unit),
        UnitResult::Fault { error_debug: "panicked".to_string() },
    ];
    let (records, errors) = aggregate(results);
    assert_eq!(records.len(), 1);
    assert_eq!(records[0].station_name, "seoul-1");
    assert_eq!(
        errors,
        vec![
            "busan-2 : Request failed: connection refused".to_string(),
            "Task failed: panicked".to_string(),
        ]
    );
}

#[test]
fn upsert_is_idempotent_but_refreshes_update_instant() {
    let mut store = Store::new();
    let reading = NormalizedReading {
        sub_region_id: 3,
        pm10: Some(Decimal { neg: false, mantissa: 35, scale: 0 }),
        pm25: None,
        recorded_at: civil(2024, 3, 1, 5, 0),
    };
    let other = NormalizedReading {
        sub_region_id: 9,
        pm10: None,
        pm25: Some(Decimal { neg: false, mantissa: 8, scale: 0 }),
        recorded_at: civil(2024, 3, 1, 6, 0),
    };
    let first = store.upsert(&reading, civil(2026, 5, 4, 12, 31));
    let _ = store.upsert(&other, civil(2026, 5, 4, 12, 31));
    let second = store.upsert(&reading, civil(2026, 5, 4, 13, 31));
    assert_eq!(second.pm10, first.pm10);
    assert_eq!(second.pm25, first.pm25);
    assert_eq!(second.recorded_at, first.recorded_at);
    assert_eq!(second.updated_at, civil(2026, 5, 4, 13, 31));
    // one row per key: the second write replaced, the other row is intact
    assert_eq!(store.rows.len(), 2);
    assert_eq!(store.rows.iter().filter(|r| r.sub_region_id == 3).count(), 1);
    let kept = store.rows.iter().find(|r| r.sub_region_id == 9).unwrap();
    assert_eq!(kept.recorded_at, civil(2024, 3, 1, 6, 0));
}

#[test]
fn limiter_admits_at_most_ten() {
    let mut limiter = Limiter::new(10);
    let mut granted = 0;
    let mut peak = 0;
    for _ in 0..12 {
        if limiter.try_acquire() {
            granted += 1;
        }
        peak = peak.max(limiter.in_use);
    }
    assert_eq!(granted, 10);
    assert_eq!(peak, 10);
    limiter.release();
    assert!(limiter.in_use <= 10);
    assert!(limiter.try_acquire());
    assert_eq!(limiter.in_use, 10);
}

#[test]
fn limiter_slots_return_on_release() {
    let mut limiter = Limiter::new(2);
    assert!(limiter.try_acquire());
    assert!(limiter.try_acquire());
    assert!(!limiter.try_acquire());
    limiter.release();
    assert!(limiter.try_acquire());
    limiter.release();
    limiter.release();
    assert_eq!(limiter.in_use, 0);
}

#[test]
fn response_wraps_batch() {
    let records = vec![record("seoul-1"), record("busan-2"), record("daegu-3")];
    let errors = vec!["incheon-4 : Request failed: timed out".to_string()];
    let report = assemble_response(records, errors, "1.2s".to_string());
    assert_eq!(report.status_code, 200);
    assert_eq!(report.message, "SUCCESS: 3");
    assert_eq!(report.response_data.len(), 3);
    assert_eq!(report.error_list.len(), 1);
    assert_eq!(report.time_taken, "1.2s");
}

#[test]
fn response_for_empty_batch() {
    let report = assemble_response(vec![], vec![], "0s".to_string());
    assert_eq!(report.status_code, 200);
    assert_eq!(report.message, "SUCCESS: 0");
}

#[test]
fn fatal_setup_failure_response() {
    let report = fatal_response();
    assert_eq!(report.status_code, 500);
    assert_eq!(report.message, "Internal Server Error");
    assert_eq!(report.response_data.len(), 0);
    assert_eq!(report.error_list.len(), 0);
}

#[test]
fn normalize_reads_all_fields() {
    let payload = UpstreamPayload {
        result_msg: Some("NORMAL_CODE".to_string()),
        has_item: true,
        pm10_value: Some("35".to_string()),
        pm25_value: Some("-".to_string()),
        data_time: Some("2024-03-01 14:37".to_string()),
    };
    let n = normalize(3, &payload, now());
    assert_eq!(n.sub_region_id, 3);
    assert_eq!(n.pm10, Some(Decimal { neg: false, mantissa: 35, scale: 0 }));
    assert_eq!(n.pm25, None);
    assert_eq!(n.recorded_at, civil(2024, 3, 1, 5, 0));
}

#[test]
fn normalize_missing_fields_are_absent() {
    let payload = UpstreamPayload {
        result_msg: None,
        has_item: true,
        pm10_value: None,
        pm25_value: Some("n/a".to_string()),
        data_time: None,
    };
    let n = normalize(3, &payload, now());
    assert_eq!(n.pm10, None);
    assert_eq!(n.pm25, None);
    assert_eq!(n.recorded_at, civil(2026, 5, 4, 12, 0));
}
