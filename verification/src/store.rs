//! The upsert store, modeled.
//!
//! The persisted table holds at most one row per region key: an upsert
//! inserts the first row for a key and afterwards replaces that row's
//! measurement fields and hour bucket, refreshing the server-assigned
//! update instant on every write. This model carries the semantics the
//! pipeline relies on; the live table behind the storage pool is written by
//! the surrounding runtime with the same keyed-replace contract.

use vstd::prelude::*;

use crate::decimal::Decimal;
use crate::normalize::NormalizedReading;
use crate::time::CivilDateTime;

verus! {

/// One stored row.
#[derive(Clone, Copy, PartialEq, Eq, Structural, Debug)]
pub struct PersistedRow {
    pub sub_region_id: i32,
    pub pm10: Option<Decimal>,
    pub pm25: Option<Decimal>,
    pub recorded_at: CivilDateTime,
    pub updated_at: CivilDateTime,
}

/// The row an upsert stores for a reading written at `now`.
pub open spec fn spec_upserted_row(reading: NormalizedReading, now: CivilDateTime) -> PersistedRow {
    PersistedRow {
        sub_region_id: reading.sub_region_id,
        pm10: reading.pm10,
        pm25: reading.pm25,
        recorded_at: reading.recorded_at,
        updated_at: now,
    }
}

/// The rows as a table keyed by region.
pub open spec fn row_map(rows: Seq<PersistedRow>) -> Map<int, PersistedRow>
    decreases rows.len(),
{
    if rows.len() == 0 {
        Map::empty()
    } else {
        row_map(rows.drop_last()).insert(rows.last().sub_region_id as int, rows.last())
    }
}

/// The readings table.
pub struct Store {
    pub rows: Vec<PersistedRow>,
}

impl View for Store {
    type V = Map<int, PersistedRow>;

    open spec fn view(&self) -> Map<int, PersistedRow> {
        row_map(self.rows@)
    }
}

proof fn lemma_row_map_absent(rows: Seq<PersistedRow>, key: int)
    requires
        forall|i: int| 0 <= i < rows.len() ==> (#[trigger] rows[i]).sub_region_id as int != key,
    ensures
        !row_map(rows).contains_key(key),
    decreases rows.len(),
{
    if rows.len() > 0 {
        lemma_row_map_absent(rows.drop_last(), key);
    }
}

proof fn lemma_row_map_update(rows: Seq<PersistedRow>, i: int, row: PersistedRow)
    requires
        0 <= i < rows.len(),
        row.sub_region_id == rows[i].sub_region_id,
        forall|a: int, b: int|
            0 <= a < b < rows.len() ==> (#[trigger] rows[a]).sub_region_id != (
            #[trigger] rows[b]).sub_region_id,
    ensures
        row_map(rows.update(i, row)) == row_map(rows).insert(row.sub_region_id as int, row),
    decreases rows.len(),
{
    let key = row.sub_region_id as int;
    if i == rows.len() - 1 {
        assert(rows.update(i, row).drop_last() =~= rows.drop_last());
        assert(row_map(rows.update(i, row)) =~= row_map(rows).insert(key, row));
    } else {
        let dl = rows.drop_last();
        assert(rows.update(i, row).drop_last() =~= dl.update(i, row));
        lemma_row_map_update(dl, i, row);
        let last = rows.last();
        assert(rows.update(i, row).last() == last);
        assert(last.sub_region_id as int != key);
        assert(row_map(rows.update(i, row)) =~= row_map(rows).insert(key, row));
    }
}

impl Store {
    /// At most one row per region key.
    pub open spec fn wf(self) -> bool {
        forall|a: int, b: int|
            0 <= a < b < self.rows@.len() ==> (#[trigger] self.rows@[a]).sub_region_id != (
            #[trigger] self.rows@[b]).sub_region_id
    }

    /// An empty table.
    pub fn new() -> (r: Store)
        ensures
            r.wf(),
            r@ == Map::<int, PersistedRow>::empty(),
    {
        Store { rows: Vec::new() }
    }

    /// Inserts or replaces the row for the reading's region key: the stored
    /// measurement fields and hour bucket are the reading's, the update
    /// instant is refreshed to `now`, and every other key's row is
    /// untouched. Returns the row as stored.
    pub fn upsert(&mut self, reading: &NormalizedReading, now: CivilDateTime) -> (row:
        PersistedRow)
        requires
            old(self).wf(),
        ensures
            final(self).wf(),
            row == spec_upserted_row(*reading, now),
            final(self)@ == old(self)@.insert(reading.sub_region_id as int, row),
    {
        let new_row = PersistedRow {
            sub_region_id: reading.sub_region_id,
            pm10: reading.pm10,
            pm25: reading.pm25,
            recorded_at: reading.recorded_at,
            updated_at: now,
        };
        let n = self.rows.len();
        let mut i: usize = 0;
        while i < n
            invariant
                i <= n,
                n == self.rows@.len(),
                *self == *old(self),
                old(self).wf(),
                new_row == spec_upserted_row(*reading, now),
                forall|k: int|
                    0 <= k < i ==> (#[trigger] self.rows@[k]).sub_region_id
                        != new_row.sub_region_id,
            decreases n - i,
        {
            if self.rows[i].sub_region_id == new_row.sub_region_id {
                self.rows.set(i, new_row);
                proof {
                    lemma_row_map_update(old(self).rows@, i as int, new_row);
                }
                return new_row;
            }
            i += 1;
        }
        self.rows.push(new_row);
        proof {
            lemma_row_map_absent(old(self).rows@, new_row.sub_region_id as int);
            assert(self.rows@.drop_last() =~= old(self).rows@);
            assert(forall|a: int, b: int|
                0 <= a < b < self.rows@.len() ==> (#[trigger] self.rows@[a]).sub_region_id != (
                #[trigger] self.rows@[b]).sub_region_id);
        }
        new_row
    }
}

/// Re-running an upsert for the same reading replaces the row with the
/// same measurement fields and hour bucket — only the server-assigned
/// update instant moves — and leaves every other key's row as it was.
pub proof fn lemma_upsert_idempotent(
    m: Map<int, PersistedRow>,
    reading: NormalizedReading,
    t1: CivilDateTime,
    t2: CivilDateTime,
)
    ensures
        ({
            let key = reading.sub_region_id as int;
            let once = m.insert(key, spec_upserted_row(reading, t1));
            let twice = once.insert(key, spec_upserted_row(reading, t2));
            &&& twice[key].pm10 == once[key].pm10
            &&& twice[key].pm25 == once[key].pm25
            &&& twice[key].recorded_at == once[key].recorded_at
            &&& twice[key].updated_at == t2
            &&& twice.dom() == once.dom()
            &&& (forall|other: int|
                other != key && once.contains_key(other) ==> twice[other] == once[other])
        }),
{
    let key = reading.sub_region_id as int;
    let once = m.insert(key, spec_upserted_row(reading, t1));
    let twice = once.insert(key, spec_upserted_row(reading, t2));
    assert(twice.dom() =~= once.dom());
}

} // verus!
