//! Cross-module laws of the pipeline, stated and proved once.

use vstd::prelude::*;

use crate::decimal::Decimal;
use crate::normalize::spec_field_value;
use crate::payload::UpstreamPayloadView;
use crate::pipeline::{
    decide_items_post, diag_api_error, diag_body_read, diag_db_client, diag_db_write,
    diag_malformed, diag_no_data, diag_status, diag_task_fault, diag_transport,
    spec_batch_errors, spec_batch_records, Target, UnitDecision, UnitResult,
};
use crate::store::{spec_upserted_row, PersistedRow};
use crate::time::CivilDateTime;

verus! {

/// A well-formed payload with an item persists exactly its parsed values:
/// the decision is a write, and the row that upserting the written reading
/// stores carries the decimals its numeric fields denote — absent where a
/// field was missing, the sentinel, or non-numeric — under an hour bucket
/// with zero minutes.
pub proof fn lemma_valid_item_persists(
    target: Target,
    p: UpstreamPayloadView,
    now_utc: CivilDateTime,
    r: UnitDecision,
    m: Map<int, PersistedRow>,
    write_instant: CivilDateTime,
)
    requires
        decide_items_post(target, p, now_utc, r),
        match p.result_msg {
            Option::Some(msg) => msg == "NORMAL_CODE"@,
            Option::None => true,
        },
        p.has_item,
    ensures
        r matches UnitDecision::Write(n) && ({
            let key = target.sub_region_id as int;
            let stored = m.insert(key, spec_upserted_row(n, write_instant));
            &&& stored[key].pm10 == spec_field_value(p.pm10_value)
            &&& stored[key].pm25 == spec_field_value(p.pm25_value)
            &&& stored[key].recorded_at == n.recorded_at
            &&& stored[key].recorded_at.wf()
            &&& stored[key].recorded_at.minute == 0
        }),
{
}

/// The sentinel `"-"` and an absent field both normalize to an absent
/// value — not to zero, and not to an error.
pub proof fn lemma_sentinel_is_absent()
    ensures
        spec_field_value(Option::Some("-"@)) == Option::<Decimal>::None,
        spec_field_value(Option::None) == Option::<Decimal>::None,
{
    reveal_strlit("-");
    let s = "-"@;
    assert(s.len() == 1 && s[0] == '-');
    let rest = s.skip(1);
    assert(rest.len() == 0);
}

/// One unit's outcome stands in the batch whatever the other units did: a
/// finished unit's records and diagnostics all appear in the aggregate,
/// and a faulted unit appears as its generic task-failure diagnostic.
pub proof fn lemma_failure_isolation(rs: Seq<UnitResult>, j: int)
    requires
        0 <= j < rs.len(),
    ensures
        rs[j] matches UnitResult::Finished(u) ==> (forall|k: int|
            0 <= k < u.records@.len() ==> spec_batch_records(rs).contains(
                #[trigger] u.records@[k],
            )),
        rs[j] matches UnitResult::Finished(u) ==> (forall|k: int|
            0 <= k < u.errors@.len() ==> spec_batch_errors(rs).contains(
                (#[trigger] u.errors@[k])@,
            )),
        rs[j] matches UnitResult::Fault { error_debug } ==> spec_batch_errors(rs).contains(
            diag_task_fault(error_debug@),
        ),
    decreases rs.len(),
{
    let dl = rs.drop_last();
    if j == rs.len() - 1 {
        match rs[j] {
            UnitResult::Finished(u) => {
                let off_r = spec_batch_records(dl).len() as int;
                assert forall|k: int| 0 <= k < u.records@.len() implies spec_batch_records(
                    rs,
                ).contains(#[trigger] u.records@[k]) by {
                    assert(spec_batch_records(rs)[off_r + k] == u.records@[k]);
                }
                let off_e = spec_batch_errors(dl).len() as int;
                assert forall|k: int| 0 <= k < u.errors@.len() implies spec_batch_errors(
                    rs,
                ).contains((#[trigger] u.errors@[k])@) by {
                    assert(spec_batch_errors(rs)[off_e + k] == u.errors@.map_values(
                        |s: String| s@,
                    )[k]);
                }
            },
            UnitResult::Fault { error_debug } => {
                let off_e = spec_batch_errors(dl).len() as int;
                assert(spec_batch_errors(rs)[off_e] == diag_task_fault(error_debug@));
            },
        }
    } else {
        lemma_failure_isolation(dl, j);
        assert(dl[j] == rs[j]);
        match rs[j] {
            UnitResult::Finished(u) => {
                assert forall|k: int| 0 <= k < u.records@.len() implies spec_batch_records(
                    rs,
                ).contains(#[trigger] u.records@[k]) by {
                    let w = choose|w: int|
                        0 <= w < spec_batch_records(dl).len() && spec_batch_records(dl)[w]
                            == u.records@[k];
                    assert(spec_batch_records(rs)[w] == u.records@[k]);
                }
                assert forall|k: int| 0 <= k < u.errors@.len() implies spec_batch_errors(
                    rs,
                ).contains((#[trigger] u.errors@[k])@) by {
                    let w = choose|w: int|
                        0 <= w < spec_batch_errors(dl).len() && spec_batch_errors(dl)[w] == (
                        u.errors@[k])@;
                    assert(spec_batch_errors(rs)[w] == (u.errors@[k])@);
                }
            },
            UnitResult::Fault { error_debug } => {
                let w = choose|w: int|
                    0 <= w < spec_batch_errors(dl).len() && spec_batch_errors(dl)[w]
                        == diag_task_fault(error_debug@);
                assert(spec_batch_errors(rs)[w] == diag_task_fault(error_debug@));
            },
        }
    }
}

/// Every per-target diagnostic opens with the station's name, so a failing
/// target is identifiable in the batch's error list.
pub proof fn lemma_diag_carries_station(station: Seq<char>, a: Seq<char>, b: Seq<char>, c: Seq<
    char>)
    ensures
        diag_db_client(station, a).subrange(0, station.len() as int) == station,
        diag_transport(station, a).subrange(0, station.len() as int) == station,
        diag_status(station, a, b, c).subrange(0, station.len() as int) == station,
        diag_body_read(station, a).subrange(0, station.len() as int) == station,
        diag_malformed(station, a, b).subrange(0, station.len() as int) == station,
        diag_api_error(station, a).subrange(0, station.len() as int) == station,
        diag_no_data(station).subrange(0, station.len() as int) == station,
        diag_db_write(station, a).subrange(0, station.len() as int) == station,
{
    let n = station.len() as int;
    assert(diag_db_client(station, a).subrange(0, n) =~= station);
    assert(diag_transport(station, a).subrange(0, n) =~= station);
    assert(diag_status(station, a, b, c).subrange(0, n) =~= station);
    assert(diag_body_read(station, a).subrange(0, n) =~= station);
    assert(diag_malformed(station, a, b).subrange(0, n) =~= station);
    assert(diag_api_error(station, a).subrange(0, n) =~= station);
    assert(diag_no_data(station).subrange(0, n) =~= station);
    assert(diag_db_write(station, a).subrange(0, n) =~= station);
}

} // verus!
