//! The bounded fan-out pipeline's decisions.
//!
//! For every target the orchestrator runs one unit of work: fetch the
//! station's readings, normalize the most recent one, upsert it. The
//! outside calls — HTTP, the storage pool, the upsert — happen in the
//! surrounding runtime, which hands their outcomes in as plain events;
//! every decision between two such calls is a function here, with a
//! contract. A unit never escalates: each failure becomes exactly one
//! diagnostic string, prefixed with the station's name, and the batch
//! aggregates all units' records and diagnostics in completion order.

use vstd::prelude::*;
use vstd::string::*;

use crate::decimal::{spec_nat_string, u64_to_string, Decimal};
use crate::normalize::{normalize, spec_field_time, spec_field_value, NormalizedReading};
use crate::payload::{parse_upstream, upstream_parse, UpstreamPayloadView};
use crate::time::{spec_truncate_to_hour, utc_now_civil, CivilDateTime};

verus! {

/// One monitoring station to poll: its region key, and the station name
/// the upstream service knows it by.
pub struct Target {
    pub sub_region_id: i32,
    pub pm_station: String,
}

/// What one unit of work observed of its outside calls up to and including
/// the fetch, handed in by the surrounding runtime as plain values.
pub enum FetchEvent {
    /// No storage handle could be drawn from the pool; the error, rendered.
    DbClientFailed { error_debug: String },
    /// The request could not be sent or completed; the error, rendered.
    Transport { error_debug: String },
    /// An HTTP response arrived: its status code, the status and headers
    /// rendered for diagnostics, and the body text (`Err` holds a rendered
    /// body-read error).
    Response {
        status: u16,
        status_display: String,
        headers_debug: String,
        body: Result<String, String>,
    },
}

/// What one unit decides after its fetch: persist a normalized reading, or
/// end the unit with exactly one diagnostic.
pub enum UnitDecision {
    Write(NormalizedReading),
    Fail(String),
}

/// The body text used in a non-success diagnostic: read leniently, an
/// unreadable body stands as empty text.
pub open spec fn spec_lenient_body(body: Result<String, String>) -> Seq<char> {
    match body {
        Result::Ok(t) => t@,
        Result::Err(_) => Seq::<char>::empty(),
    }
}

pub open spec fn diag_db_client(station: Seq<char>, e: Seq<char>) -> Seq<char> {
    station + " : Failed to get db client: "@ + e
}

pub open spec fn diag_transport(station: Seq<char>, e: Seq<char>) -> Seq<char> {
    station + " : Request failed: "@ + e
}

pub open spec fn diag_status(
    station: Seq<char>,
    status_display: Seq<char>,
    headers: Seq<char>,
    body: Seq<char>,
) -> Seq<char> {
    station + " : Received non-success status code: "@ + status_display + "\nHeaders: "@ + headers
        + "\nResponse text: "@ + body
}

pub open spec fn diag_body_read(station: Seq<char>, e: Seq<char>) -> Seq<char> {
    station + " : Failed to read response text: "@ + e
}

pub open spec fn diag_malformed(station: Seq<char>, e: Seq<char>, body: Seq<char>) -> Seq<char> {
    station + " : Failed to parse JSON response: "@ + e + "\nResponse text: "@ + body
}

pub open spec fn diag_api_error(station: Seq<char>, msg: Seq<char>) -> Seq<char> {
    station + " : API returned an error: "@ + msg
}

pub open spec fn diag_no_data(station: Seq<char>) -> Seq<char> {
    station + " : No data available in API response."@
}

pub open spec fn diag_db_write(station: Seq<char>, e: Seq<char>) -> Seq<char> {
    station + " : Database query failed: "@ + e
}

pub open spec fn diag_task_fault(e: Seq<char>) -> Seq<char> {
    "Task failed: "@ + e
}

fn concat2(a: &str, b: &str) -> (r: String)
    ensures
        r@ == a@ + b@,
{
    let mut s = String::from_str(a);
    s.append(b);
    s
}

fn concat3(a: &str, b: &str, c: &str) -> (r: String)
    ensures
        r@ == a@ + b@ + c@,
{
    let mut s = String::from_str(a);
    s.append(b);
    s.append(c);
    s
}

fn concat5(a: &str, b: &str, c: &str, d: &str, e: &str) -> (r: String)
    ensures
        r@ == a@ + b@ + c@ + d@ + e@,
{
    let mut s = String::from_str(a);
    s.append(b);
    s.append(c);
    s.append(d);
    s.append(e);
    s
}

fn concat7(a: &str, b: &str, c: &str, d: &str, e: &str, f: &str, g: &str) -> (r: String)
    ensures
        r@ == a@ + b@ + c@ + d@ + e@ + f@ + g@,
{
    let mut s = String::from_str(a);
    s.append(b);
    s.append(c);
    s.append(d);
    s.append(e);
    s.append(f);
    s.append(g);
    s
}

/// What a normalized reading must look like for a payload, as
/// [`crate::normalize::normalize`] promises it.
pub open spec fn normalized_post(
    id: int,
    p: UpstreamPayloadView,
    now_utc: CivilDateTime,
    n: NormalizedReading,
) -> bool {
    &&& n.sub_region_id as int == id
    &&& n.pm10 == spec_field_value(p.pm10_value)
    &&& n.pm25 == spec_field_value(p.pm25_value)
    &&& n.recorded_at.wf()
    &&& n.recorded_at.minute == 0
    &&& (match spec_field_time(p.data_time) {
        Option::Some(t) => n.recorded_at.minutes() == t.minutes() - 540 - t.minute,
        Option::None => n.recorded_at == spec_truncate_to_hour(now_utc),
    })
}

/// The decision owed once a payload is in hand: an upstream-reported error
/// message other than the success sentinel fails the unit, an empty item
/// list fails it with exactly one "no data" diagnostic and no write, and
/// otherwise the most recent item is normalized for writing.
pub open spec fn decide_items_post(
    target: Target,
    p: UpstreamPayloadView,
    now_utc: CivilDateTime,
    r: UnitDecision,
) -> bool {
    let proceed = match p.result_msg {
        Option::Some(m) => m == "NORMAL_CODE"@,
        Option::None => true,
    };
    if !proceed {
        match p.result_msg {
            Option::Some(m) => r matches UnitDecision::Fail(d) && d@ == diag_api_error(
                target.pm_station@,
                m,
            ),
            Option::None => false,
        }
    } else if !p.has_item {
        r matches UnitDecision::Fail(d) && d@ == diag_no_data(target.pm_station@)
    } else {
        r matches UnitDecision::Write(n) && normalized_post(
            target.sub_region_id as int,
            p,
            now_utc,
            n,
        )
    }
}

/// The decision owed for a readable success body: a body that serde_json
/// refuses fails the unit with the parse diagnostic, and otherwise the
/// typed payload decides, as [`decide_items_post`] says.
pub open spec fn decide_parsed_post(
    target: Target,
    text: Seq<char>,
    now_utc: CivilDateTime,
    r: UnitDecision,
) -> bool {
    match upstream_parse(text) {
        Result::Err(e) => r matches UnitDecision::Fail(d) && d@ == diag_malformed(
            target.pm_station@,
            e,
            text,
        ),
        Result::Ok(p) => decide_items_post(target, p, now_utc, r),
    }
}

/// The whole decision owed for one fetch event. Every failure is exactly
/// one diagnostic carrying the station's name; only a well-formed success
/// response with an item yields a reading to write.
pub open spec fn decide_fetch_post(
    target: Target,
    ev: FetchEvent,
    now_utc: CivilDateTime,
    r: UnitDecision,
) -> bool {
    match ev {
        FetchEvent::DbClientFailed { error_debug } => r matches UnitDecision::Fail(d) && d@
            == diag_db_client(target.pm_station@, error_debug@),
        FetchEvent::Transport { error_debug } => r matches UnitDecision::Fail(d) && d@
            == diag_transport(target.pm_station@, error_debug@),
        FetchEvent::Response { status, status_display, headers_debug, body } => {
            if !(200 <= status && status < 300) {
                r matches UnitDecision::Fail(d) && d@ == diag_status(
                    target.pm_station@,
                    status_display@,
                    headers_debug@,
                    spec_lenient_body(body),
                )
            } else {
                match body {
                    Result::Err(e) => r matches UnitDecision::Fail(d) && d@ == diag_body_read(
                        target.pm_station@,
                        e@,
                    ),
                    Result::Ok(text) => decide_parsed_post(target, text@, now_utc, r),
                }
            }
        },
    }
}

/// Decides one unit of work from its fetch event, with the fallback
/// instant for unparsable timestamps passed in.
pub fn decide_fetch_at(target: &Target, ev: &FetchEvent, now_utc: CivilDateTime) -> (r:
    UnitDecision)
    requires
        now_utc.wf(),
    ensures
        decide_fetch_post(*target, *ev, now_utc, r),
{
    match ev {
        FetchEvent::DbClientFailed { error_debug } => UnitDecision::Fail(
            concat3(
                target.pm_station.as_str(),
                " : Failed to get db client: ",
                error_debug.as_str(),
            ),
        ),
        FetchEvent::Transport { error_debug } => UnitDecision::Fail(
            concat3(target.pm_station.as_str(), " : Request failed: ", error_debug.as_str()),
        ),
        FetchEvent::Response { status, status_display, headers_debug, body } => {
            if !(200 <= *status && *status < 300) {
                let lenient: &str = match body {
                    Result::Ok(t) => t.as_str(),
                    Result::Err(_) => "",
                };
                proof {
                    reveal_strlit("");
                    assert(""@ =~= Seq::<char>::empty());
                }
                UnitDecision::Fail(
                    concat7(
                        target.pm_station.as_str(),
                        " : Received non-success status code: ",
                        status_display.as_str(),
                        "\nHeaders: ",
                        headers_debug.as_str(),
                        "\nResponse text: ",
                        lenient,
                    ),
                )
            } else {
                match body {
                    Result::Err(e) => UnitDecision::Fail(
                        concat3(
                            target.pm_station.as_str(),
                            " : Failed to read response text: ",
                            e.as_str(),
                        ),
                    ),
                    Result::Ok(text) => {
                        match parse_upstream(text.as_str()) {
                            Result::Err(e) => UnitDecision::Fail(
                                concat5(
                                    target.pm_station.as_str(),
                                    " : Failed to parse JSON response: ",
                                    e.as_str(),
                                    "\nResponse text: ",
                                    text.as_str(),
                                ),
                            ),
                            Result::Ok(p) => {
                                let failed_msg: Option<&String> = match &p.result_msg {
                                    Option::Some(m) => {
                                        let normal = String::from_str("NORMAL_CODE");
                                        if !(*m == normal) {
                                            Option::Some(m)
                                        } else {
                                            Option::None
                                        }
                                    },
                                    Option::None => Option::None,
                                };
                                match failed_msg {
                                    Option::Some(m) => UnitDecision::Fail(
                                        concat3(
                                            target.pm_station.as_str(),
                                            " : API returned an error: ",
                                            m.as_str(),
                                        ),
                                    ),
                                    Option::None => {
                                        if !p.has_item {
                                            UnitDecision::Fail(
                                                concat2(
                                                    target.pm_station.as_str(),
                                                    " : No data available in API response.",
                                                ),
                                            )
                                        } else {
                                            UnitDecision::Write(
                                                normalize(target.sub_region_id, &p, now_utc),
                                            )
                                        }
                                    },
                                }
                            },
                        }
                    },
                }
            }
        },
    }
}

/// One persisted result as echoed to the caller: the row's measurement
/// fields, its hour bucket, the server-assigned update instant, and the
/// station's name.
pub struct SuccessRecord {
    pub station_name: String,
    pub pm10: Option<Decimal>,
    pub pm25: Option<Decimal>,
    pub data_time: CivilDateTime,
    pub requested_time: CivilDateTime,
}

impl Clone for SuccessRecord {
    fn clone(&self) -> (r: Self)
        ensures
            r == *self,
    {
        let r = SuccessRecord {
            station_name: self.station_name.clone(),
            pm10: self.pm10,
            pm25: self.pm25,
            data_time: self.data_time,
            requested_time: self.requested_time,
        };
        r
    }
}

/// What the runtime observed of one upsert, handed back as plain values.
pub enum WriteEvent {
    /// The row as stored: its fields, and the server-assigned update instant.
    Stored {
        pm10: Option<Decimal>,
        pm25: Option<Decimal>,
        recorded_at: CivilDateTime,
        updated_at: CivilDateTime,
    },
    /// The upsert failed; the error, rendered.
    Failed { error_debug: String },
}

/// What one finished unit hands to the orchestrator: zero or one success
/// record, and zero or more diagnostics.
pub struct UnitOutput {
    pub records: Vec<SuccessRecord>,
    pub errors: Vec<String>,
}

/// The output owed for one write event: the stored row echoed as one
/// record, or the write failure as one diagnostic with the station's name.
pub open spec fn decide_write_post(target: Target, ev: WriteEvent, r: UnitOutput) -> bool {
    match ev {
        WriteEvent::Stored { pm10, pm25, recorded_at, updated_at } => {
            &&& r.errors@.len() == 0
            &&& r.records@.len() == 1
            &&& r.records@[0].station_name@ == target.pm_station@
            &&& r.records@[0].pm10 == pm10
            &&& r.records@[0].pm25 == pm25
            &&& r.records@[0].data_time == recorded_at
            &&& r.records@[0].requested_time == updated_at
        },
        WriteEvent::Failed { error_debug } => {
            &&& r.records@.len() == 0
            &&& r.errors@.len() == 1
            &&& r.errors@[0]@ == diag_db_write(target.pm_station@, error_debug@)
        },
    }
}

/// Folds the write outcome for one target into that unit's output.
pub fn decide_write(target: &Target, ev: WriteEvent) -> (r: UnitOutput)
    ensures
        decide_write_post(*target, ev, r),
{
    match ev {
        WriteEvent::Stored { pm10, pm25, recorded_at, updated_at } => {
            let record = SuccessRecord {
                station_name: target.pm_station.clone(),
                pm10,
                pm25,
                data_time: recorded_at,
                requested_time: updated_at,
            };
            let mut records: Vec<SuccessRecord> = Vec::new();
            records.push(record);
            UnitOutput { records, errors: Vec::new() }
        },
        WriteEvent::Failed { error_debug } => {
            let diag = concat3(
                target.pm_station.as_str(),
                " : Database query failed: ",
                error_debug.as_str(),
            );
            let mut errors: Vec<String> = Vec::new();
            errors.push(diag);
            UnitOutput { records: Vec::new(), errors }
        },
    }
}

/// The output of a unit that ended on a failed decision: no record, and
/// exactly the decision's one diagnostic.
pub fn unit_failure(diag: String) -> (r: UnitOutput)
    ensures
        r.records@.len() == 0,
        r.errors@.len() == 1,
        r.errors@[0] == diag,
{
    let mut errors: Vec<String> = Vec::new();
    errors.push(diag);
    UnitOutput { records: Vec::new(), errors }
}

/// How one launched unit came back to the orchestrator.
pub enum UnitResult {
    /// The unit ran to its own end and handed its output back.
    Finished(UnitOutput),
    /// The unit ended abnormally instead of returning; the fault, rendered.
    Fault { error_debug: String },
}

/// Every success record of a batch, in completion order: each finished
/// unit's records in turn, a faulted unit contributing none.
pub open spec fn spec_batch_records(rs: Seq<UnitResult>) -> Seq<SuccessRecord>
    decreases rs.len(),
{
    if rs.len() == 0 {
        Seq::empty()
    } else {
        spec_batch_records(rs.drop_last()) + (match rs.last() {
            UnitResult::Finished(u) => u.records@,
            UnitResult::Fault { .. } => Seq::empty(),
        })
    }
}

/// Every diagnostic of a batch, by value and in completion order: each
/// finished unit's diagnostics in turn, each faulted unit as one generic
/// task-failure diagnostic (distinguishable by lacking a station name).
pub open spec fn spec_batch_errors(rs: Seq<UnitResult>) -> Seq<Seq<char>>
    decreases rs.len(),
{
    if rs.len() == 0 {
        Seq::empty()
    } else {
        spec_batch_errors(rs.drop_last()) + (match rs.last() {
            UnitResult::Finished(u) => u.errors@.map_values(|s: String| s@),
            UnitResult::Fault { error_debug } => seq![diag_task_fault(error_debug@)],
        })
    }
}

/// Collects every unit's outcome into the batch's records and diagnostics.
/// No unit's result is dropped and no unit's failure removes another's
/// records: the output is exactly the concatenation, in completion order.
pub fn aggregate(results: Vec<UnitResult>) -> (r: (Vec<SuccessRecord>, Vec<String>))
    ensures
        r.0@ == spec_batch_records(results@),
        r.1@.map_values(|s: String| s@) == spec_batch_errors(results@),
{
    let mut records: Vec<SuccessRecord> = Vec::new();
    let mut errors: Vec<String> = Vec::new();
    proof {
        assert(results@.take(0) =~= Seq::<UnitResult>::empty());
        assert(errors@.map_values(|s: String| s@) =~= Seq::<Seq<char>>::empty());
    }
    let mut i: usize = 0;
    while i < results.len()
        invariant
            i <= results.len(),
            records@ == spec_batch_records(results@.take(i as int)),
            errors@.map_values(|s: String| s@) == spec_batch_errors(results@.take(i as int)),
        decreases results.len() - i,
    {
        match &results[i] {
            UnitResult::Finished(u) => {
                let ghost recs0 = records@;
                let mut j: usize = 0;
                while j < u.records.len()
                    invariant
                        j <= u.records.len(),
                        records@ == recs0 + u.records@.take(j as int),
                    decreases u.records.len() - j,
                {
                    records.push(u.records[j].clone());
                    proof {
                        assert(recs0 + u.records@.take(j + 1) =~= (recs0 + u.records@.take(
                            j as int,
                        )).push(u.records@[j as int]));
                    }
                    j += 1;
                }
                let ghost errs0 = errors@;
                let mut k: usize = 0;
                while k < u.errors.len()
                    invariant
                        k <= u.errors.len(),
                        errors@ == errs0 + u.errors@.take(k as int),
                    decreases u.errors.len() - k,
                {
                    errors.push(u.errors[k].clone());
                    proof {
                        assert(errs0 + u.errors@.take(k + 1) =~= (errs0 + u.errors@.take(
                            k as int,
                        )).push(u.errors@[k as int]));
                    }
                    k += 1;
                }
                proof {
                    assert(u.records@.take(u.records@.len() as int) =~= u.records@);
                    assert(u.errors@.take(u.errors@.len() as int) =~= u.errors@);
                }
            },
            UnitResult::Fault { error_debug } => {
                errors.push(concat2("Task failed: ", error_debug.as_str()));
            },
        }
        proof {
            let pre = results@.take(i as int);
            let now = results@.take(i + 1);
            assert(now.drop_last() =~= pre);
            assert(now.last() == results@[i as int]);
            match results@[i as int] {
                UnitResult::Finished(u) => {
                    assert(errors@.map_values(|s: String| s@) =~= spec_batch_errors(pre) + (
                    u.errors@.map_values(|s: String| s@)));
                },
                UnitResult::Fault { error_debug } => {
                    assert(errors@.map_values(|s: String| s@) =~= spec_batch_errors(pre) + seq![
                        diag_task_fault(error_debug@),
                    ]);
                    assert(records@ == spec_batch_records(now));
                },
            }
        }
        i += 1;
    }
    proof {
        assert(results@.take(results@.len() as int) =~= results@);
    }
    (records, errors)
}

/// The final reply shape of one batch.
pub struct BatchReport {
    pub status_code: u16,
    pub message: String,
    pub response_data: Vec<SuccessRecord>,
    pub error_list: Vec<String>,
    pub time_taken: String,
}

/// Wraps a finished batch: always status 200 — per-target failures are
/// reported in the error list, never as a batch failure — with the message
/// `"SUCCESS: "` followed by the count of stored records, and every record
/// and diagnostic as collected.
pub fn assemble_response(
    records: Vec<SuccessRecord>,
    errors: Vec<String>,
    time_taken: String,
) -> (r: BatchReport)
    ensures
        r.status_code == 200,
        r.message@ == "SUCCESS: "@ + spec_nat_string(records@.len()),
        r.response_data == records,
        r.error_list == errors,
        r.time_taken == time_taken,
{
    let count: u64 = records.len() as u64;
    let num = u64_to_string(count);
    let message = concat2("SUCCESS: ", num.as_str());
    BatchReport { status_code: 200, message, response_data: records, error_list: errors, time_taken }
}

/// The reply for a fatal setup failure — a missing configuration value or
/// an unreachable worklist: status 500 with the fixed body text, before any
/// unit of work has run.
pub fn fatal_response() -> (r: BatchReport)
    ensures
        r.status_code == 500,
        r.message@ == "Internal Server Error"@,
        r.response_data@.len() == 0,
        r.error_list@.len() == 0,
        r.time_taken@.len() == 0,
{
    BatchReport {
        status_code: 500,
        message: String::from_str("Internal Server Error"),
        response_data: Vec::new(),
        error_list: Vec::new(),
        time_taken: String::new(),
    }
}

/// Decides one unit of work from its fetch event, reading the current
/// instant itself for the timestamp fallback. Whatever instant the clock
/// returns, the decision is the one owed for that instant.
pub fn decide_fetch(target: &Target, ev: &FetchEvent) -> (r: UnitDecision)
    ensures
        exists|now_utc: CivilDateTime| now_utc.wf() && decide_fetch_post(*target, *ev, now_utc, r),
{
    let now_utc = utc_now_civil();
    decide_fetch_at(target, ev, now_utc)
}

} // verus!
