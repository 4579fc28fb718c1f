//! The coordinator's shard catalog: an append-only registry keyed by shard id.
use vstd::prelude::*;
use crate::shard::ShardMetadata;
use crate::target::same_text;

verus! {

/// Query time window: shards created within the last hour are searched.
pub const DEFAULT_WINDOW_SECS: i64 = 3600;

/// No two records share an id.
pub open spec fn unique_ids(rows: Seq<ShardMetadata>) -> bool {
    forall|i: int, j: int|
        0 <= i < rows.len() && 0 <= j < rows.len() && i != j ==> rows[i].id@ != rows[j].id@
}

/// Some record has id `id`.
pub open spec fn has_id(rows: Seq<ShardMetadata>, id: Seq<char>) -> bool {
    exists|i: int| 0 <= i < rows.len() && rows[i].id@ == id
}

/// The records after registering `m`: unchanged where its id is known,
/// otherwise with `m` appended.
pub open spec fn upserted(rows: Seq<ShardMetadata>, m: ShardMetadata) -> Seq<ShardMetadata> {
    if has_id(rows, m.id@) {
        rows
    } else {
        rows.push(m)
    }
}

/// The records after registering each of `ms` in turn into `start`.
pub open spec fn replay(start: Seq<ShardMetadata>, ms: Seq<ShardMetadata>) -> Seq<ShardMetadata>
    decreases ms.len(),
{
    if ms.len() == 0 {
        start
    } else {
        upserted(replay(start, ms.drop_last()), ms.last())
    }
}

/// The records of `rows` named `name` and created after `since`, in order.
pub open spec fn in_window(rows: Seq<ShardMetadata>, name: Seq<char>, since: int) -> Seq<
    ShardMetadata,
>
    decreases rows.len(),
{
    if rows.len() == 0 {
        Seq::empty()
    } else {
        let prior = in_window(rows.drop_last(), name, since);
        if rows.last().name@ == name && rows.last().timestamp > since {
            prior.push(rows.last())
        } else {
            prior
        }
    }
}

/// The registry of known shards.
pub struct ShardCatalog {
    rows: Vec<ShardMetadata>,
}

impl View for ShardCatalog {
    type V = Seq<ShardMetadata>;

    closed spec fn view(&self) -> Seq<ShardMetadata> {
        self.rows@
    }
}

impl ShardCatalog {
    pub open spec fn wf(&self) -> bool {
        unique_ids(self@)
    }

    /// An empty catalog.
    pub fn new() -> (r: ShardCatalog)
        ensures
            r@ == Seq::<ShardMetadata>::empty(),
            r.wf(),
    {
        ShardCatalog { rows: Vec::new() }
    }

    /// Number of records.
    pub fn len(&self) -> (r: usize)
        ensures
            r == self@.len(),
    {
        self.rows.len()
    }

    /// Whether a record with id `id` is known.
    pub fn contains(&self, id: &str) -> (r: bool)
        ensures
            r == has_id(self@, id@),
    {
        let mut i: usize = 0;
        while i < self.rows.len()
            invariant
                i <= self@.len(),
                forall|k: int| 0 <= k < i ==> self@[k].id@ != id@,
            decreases self@.len() - i,
        {
            if same_text(self.rows[i].id.as_str(), id) {
                return true;
            }
            i = i + 1;
        }
        false
    }

    /// Registers `m` unless a record with its id is already known. Returns
    /// whether it was added.
    pub fn upsert(&mut self, m: ShardMetadata) -> (added: bool)
        requires
            old(self).wf(),
        ensures
            final(self).wf(),
            final(self)@ == upserted(old(self)@, m),
            added == !has_id(old(self)@, m.id@),
    {
        if self.contains(m.id.as_str()) {
            return false;
        }
        self.rows.push(m);
        true
    }

    /// The records named `name` whose creation is later than `since`, in
    /// registration order.
    pub fn select_by_name_and_window(&self, name: &str, since: i64) -> (r: Vec<ShardMetadata>)
        ensures
            r@ == in_window(self@, name@, since as int),
    {
        self.select_after(name, since as i128)
    }

    fn select_after(&self, name: &str, since: i128) -> (r: Vec<ShardMetadata>)
        ensures
            r@ == in_window(self@, name@, since as int),
    {
        let mut out: Vec<ShardMetadata> = Vec::new();
        let mut i: usize = 0;
        while i < self.rows.len()
            invariant
                i <= self@.len(),
                out@ == in_window(self@.subrange(0, i as int), name@, since as int),
            decreases self@.len() - i,
        {
            let row = &self.rows[i];
            assert(self@.subrange(0, i + 1).drop_last() =~= self@.subrange(0, i as int));
            if same_text(row.name.as_str(), name) && (row.timestamp as i128) > since {
                out.push(row.clone());
            }
            i = i + 1;
        }
        assert(self@.subrange(0, self@.len() as int) =~= self@);
        out
    }

    /// The candidate shards of a query on `name` issued at `now`: those
    /// created less than `window` seconds before it.
    pub fn candidates(&self, name: &str, now: i64, window: i64) -> (r: Vec<ShardMetadata>)
        ensures
            r@ == in_window(self@, name@, now - window),
    {
        self.select_after(name, now as i128 - window as i128)
    }
}

/// Registering any sequence of records, one after another, into a catalog
/// whose ids are unique leaves exactly one record per distinct id: ids stay
/// unique, the records already there stay as they were, and an id is known
/// exactly when it was known before or some registered record carried it.
pub proof fn lemma_catalog_dedup(start: Seq<ShardMetadata>, ms: Seq<ShardMetadata>)
    requires
        unique_ids(start),
    ensures
        unique_ids(replay(start, ms)),
        replay(start, ms).len() >= start.len(),
        replay(start, ms).subrange(0, start.len() as int) == start,
        forall|id: Seq<char>|
            has_id(replay(start, ms), id) <==> (has_id(start, id) || exists|k: int|
                0 <= k < ms.len() && ms[k].id@ == id),
    decreases ms.len(),
{
    if ms.len() == 0 {
        assert(start.subrange(0, start.len() as int) =~= start);
    } else {
        let prior = ms.drop_last();
        lemma_catalog_dedup(start, prior);
        let r0 = replay(start, prior);
        let m = ms.last();
        let r = replay(start, ms);
        if !has_id(r0, m.id@) {
            assert(r.subrange(0, start.len() as int) =~= r0.subrange(0, start.len() as int));
        }
        assert forall|id: Seq<char>|
            has_id(r, id) <==> (has_id(start, id) || exists|k: int|
                0 <= k < ms.len() && ms[k].id@ == id) by {
            if has_id(r, id) {
                if has_id(r0, id) {
                    if !has_id(start, id) {
                        let k = choose|k: int| 0 <= k < prior.len() && prior[k].id@ == id;
                        assert(ms[k].id@ == id);
                    }
                } else {
                    assert(id == m.id@);
                    assert(ms[ms.len() - 1].id@ == id);
                }
            }
            if has_id(start, id) {
                assert(has_id(r0, id));
                let i = choose|i: int| 0 <= i < r0.len() && r0[i].id@ == id;
                assert(r[i].id@ == id);
            }
            if exists|k: int| 0 <= k < ms.len() && ms[k].id@ == id {
                let k = choose|k: int| 0 <= k < ms.len() && ms[k].id@ == id;
                if k < ms.len() - 1 {
                    assert(prior[k].id@ == id);
                    assert(has_id(r0, id));
                    let i = choose|i: int| 0 <= i < r0.len() && r0[i].id@ == id;
                    assert(r[i].id@ == id);
                } else {
                    if has_id(r0, id) {
                        let i = choose|i: int| 0 <= i < r0.len() && r0[i].id@ == id;
                        assert(r[i].id@ == id);
                    } else {
                        assert(r[r0.len() as int].id@ == id);
                    }
                }
            }
        }
    }
}

} // verus!
