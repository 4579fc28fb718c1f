//! Scatter-gather search: one request per candidate shard, responses
//! correlated by request id and merged until all arrive or the deadline passes.
use vstd::prelude::*;
use crate::catalog::{in_window, ShardCatalog};
use crate::target::same_text;
use crate::message::{Message, MessageSearchRequest, QueryResults, Row};
use crate::pending::PendingResponses;
use crate::queue::CommandQueue;
use crate::shard::{is_uuid_v4_text, new_id, ShardMetadata};

verus! {

/// A query gives up on missing responses this long after it was scheduled.
pub const DEADLINE_MS: u64 = 5000;

/// How often the coordinator polls for responses.
pub const POLL_INTERVAL_MS: u64 = 50;

/// No two request ids are the same text.
pub open spec fn distinct_ids(ids: Seq<String>) -> bool {
    forall|i: int, j: int| 0 <= i < ids.len() && 0 <= j < ids.len() && i != j ==> ids[i]@ != ids[j]@
}

/// Milliseconds from `started` to `now`; zero if the clock reads earlier.
pub open spec fn elapsed(now: u64, started: u64) -> int {
    if now >= started {
        now - started
    } else {
        0
    }
}

/// `m` asks for `query` to run on `shard` under request id `id`.
pub open spec fn is_request(m: Message, shard: ShardMetadata, query: Seq<char>, id: Seq<char>) -> bool {
    m matches Message::SearchRequest(r) && r.shard == shard && r.query@ == query && r.id@ == id
}

/// The rows a poll gathers from `pend` over the first `k` requests: for each
/// request not yet answered whose response waits, that response's rows.
pub open spec fn gathered(
    ids: Seq<String>,
    done: Seq<bool>,
    pend: Map<Seq<char>, crate::message::MessageSearchResponse>,
    k: nat,
) -> Seq<Row>
    decreases k,
{
    if k == 0 {
        Seq::empty()
    } else {
        let before = gathered(ids, done, pend, (k - 1) as nat);
        if !done[k - 1] && pend.contains_key(ids[k - 1]@) {
            before + pend[ids[k - 1]@].payload@
        } else {
            before
        }
    }
}

/// The request ids of `ids` still unanswered according to `done`.
pub open spec fn outstanding(ids: Seq<String>, done: Seq<bool>) -> Set<Seq<char>> {
    outstanding_upto(ids, done, ids.len() as int)
}

/// The request ids among the first `n` of `ids` still unanswered according to `done`.
pub open spec fn outstanding_upto(ids: Seq<String>, done: Seq<bool>, n: int) -> Set<Seq<char>> {
    Set::new(|x: Seq<char>| exists|k: int| 0 <= k < n && !done[k] && ids[k]@ == x)
}

/// One query in flight.
pub struct QueryRun {
    ids: Vec<String>,
    done: Vec<bool>,
    rows: QueryResults,
    started_ms: u64,
}

impl QueryRun {
    /// The request ids, one per dispatched shard.
    pub closed spec fn ids(&self) -> Seq<String> {
        self.ids@
    }

    /// Which requests have been answered.
    pub closed spec fn done(&self) -> Seq<bool> {
        self.done@
    }

    /// The rows gathered so far.
    pub closed spec fn rows(&self) -> Seq<Row> {
        self.rows@
    }

    /// When the query was scheduled, in milliseconds.
    pub closed spec fn started(&self) -> u64 {
        self.started_ms
    }

    pub open spec fn wf(&self) -> bool {
        &&& self.ids().len() == self.done().len()
        &&& distinct_ids(self.ids())
    }

    /// Every request has been answered.
    pub open spec fn complete(&self) -> bool {
        forall|k: int| 0 <= k < self.done().len() ==> self.done()[k]
    }

    /// Whether every request has been answered.
    pub fn is_complete(&self) -> (r: bool)
        ensures
            r == self.complete(),
    {
        let mut k: usize = 0;
        while k < self.done.len()
            invariant
                k <= self.done@.len(),
                forall|j: int| 0 <= j < k ==> self.done@[j],
            decreases self.done@.len() - k,
        {
            if !self.done[k] {
                assert(!self.done()[k as int]);
                return false;
            }
            k = k + 1;
        }
        true
    }

    /// Number of requests dispatched.
    pub fn request_count(&self) -> (r: usize)
        ensures
            r == self.ids().len(),
    {
        self.ids.len()
    }

    /// The rows gathered, ending the query.
    pub fn into_rows(self) -> (r: QueryResults)
        ensures
            r@ == self.rows(),
    {
        self.rows
    }

    /// Collects every waiting response to an unanswered request of this query,
    /// appending its rows, and tells whether the query is over: all requests
    /// answered, or the deadline reached at `now_ms`.
    pub fn poll(&mut self, pending: &mut PendingResponses, now_ms: u64) -> (finished: bool)
        requires
            old(self).wf(),
            old(pending).wf(),
        ensures
            final(self).wf(),
            final(pending).wf(),
            final(self).ids() == old(self).ids(),
            final(self).started() == old(self).started(),
            forall|k: int|
                0 <= k < old(self).ids().len() ==> final(self).done()[k] == (old(self).done()[k]
                    || old(pending)@.contains_key(old(self).ids()[k]@)),
            forall|k: int|
                0 <= k < final(self).ids().len() && !final(self).done()[k]
                    ==> !final(pending)@.contains_key(final(self).ids()[k]@),
            final(self).rows() == old(self).rows() + gathered(
                old(self).ids(),
                old(self).done(),
                old(pending)@,
                old(self).ids().len(),
            ),
            final(pending)@ == old(pending)@.remove_keys(
                outstanding(old(self).ids(), old(self).done()),
            ),
            finished == (final(self).complete() || elapsed(now_ms, old(self).started())
                >= DEADLINE_MS),
    {
        let ghost ids0 = self.ids@;
        let ghost done0 = self.done@;
        let ghost pend0 = pending@;
        let n = self.ids.len();
        let mut k: usize = 0;
        while k < n
            invariant
                n == ids0.len(),
                n == done0.len(),
                self.ids@ == ids0,
                self.done@.len() == n,
                distinct_ids(ids0),
                self.started_ms == old(self).started_ms,
                pending.wf(),
                k <= n,
                forall|j: int|
                    #![trigger self.done@[j]]
                    0 <= j < k ==> self.done@[j] == (done0[j] || pend0.contains_key(ids0[j]@)),
                forall|j: int| #![trigger self.done@[j]] k <= j < n ==> self.done@[j] == done0[j],
                self.rows@ == old(self).rows@ + gathered(ids0, done0, pend0, k as nat),
                pending@ == pend0.remove_keys(outstanding_upto(ids0, done0, k as int)),
            decreases n - k,
        {
            let ghost before = pending@;
            let ghost key = ids0[k as int]@;
            let ghost done_before = self.done@;
            let ghost rows_before = self.rows@;
            proof {
                assert(!outstanding_upto(ids0, done0, k as int).contains(key)) by {
                    if outstanding_upto(ids0, done0, k as int).contains(key) {
                        let j = choose|j: int| 0 <= j < k && !done0[j] && ids0[j]@ == key;
                        assert(ids0[j]@ != ids0[k as int]@);
                    }
                }
                assert(before.contains_key(key) == pend0.contains_key(key));
                if pend0.contains_key(key) {
                    assert(before[key] == pend0[key]);
                }
            }
            if !self.done[k] {
                match pending.take(self.ids[k].as_str()) {
                    Some(resp) => {
                        let mut payload = resp.payload;
                        self.rows.append(&mut payload);
                        self.done.set(k, true);
                    },
                    None => {},
                }
            }
            proof {
                let next = outstanding_upto(ids0, done0, k + 1);
                if done0[k as int] {
                    assert(next =~= outstanding_upto(ids0, done0, k as int));
                    assert(self.rows@ =~= rows_before);
                } else {
                    assert(next =~= outstanding_upto(ids0, done0, k as int).insert(key));
                    assert(pending@ =~= before.remove(key));
                    if pend0.contains_key(key) {
                        assert(self.rows@ =~= old(self).rows@ + gathered(ids0, done0, pend0, (k + 1) as nat));
                    } else {
                        assert(self.rows@ =~= rows_before);
                    }
                }
                assert(pending@ =~= pend0.remove_keys(next));
                assert(self.done@[k as int] == (done0[k as int] || pend0.contains_key(key)));
                assert forall|j: int| 0 <= j < k + 1 implies self.done@[j] == (done0[j]
                    || pend0.contains_key(ids0[j]@)) by {
                    if j < k {
                        assert(self.done@[j] == done_before[j]);
                        assert(done_before[j] == (done0[j] || pend0.contains_key(ids0[j]@)));
                    }
                }
            }
            k = k + 1;
        }
        assert(outstanding_upto(ids0, done0, n as int) =~= outstanding(ids0, done0));
        assert forall|j: int| 0 <= j < n && !self.done@[j] implies !pending@.contains_key(
            self.ids@[j]@,
        ) by {
            assert(outstanding(ids0, done0).contains(ids0[j]@));
        }
        let complete = self.is_complete();
        let spent: u64 = if now_ms >= self.started_ms {
            now_ms - self.started_ms
        } else {
            0
        };
        complete || spent >= DEADLINE_MS
    }
}

/// Deadline bound: when a query is polled from its start on at most one poll
/// period apart, some poll no later than the deadline plus one poll period
/// finds the deadline reached, and `poll` then reports the query finished
/// whatever the workers did.
pub proof fn lemma_deadline_bound(started: u64, times: Seq<u64>)
    requires
        times.len() > 0,
        started <= times[0] <= started + DEADLINE_MS,
        forall|i: int|
            0 <= i < times.len() - 1 ==> #[trigger] times[i] <= times[i + 1] <= times[i] + POLL_INTERVAL_MS,
        times.last() >= started + DEADLINE_MS,
    ensures
        exists|i: int|
            0 <= i < times.len() && elapsed(#[trigger] times[i], started) >= DEADLINE_MS && times[i]
                <= started + DEADLINE_MS + POLL_INTERVAL_MS,
    decreases times.len(),
{
    if times[0] >= started + DEADLINE_MS {
        assert(elapsed(times[0], started) >= DEADLINE_MS);
    } else if times[1] >= started + DEADLINE_MS {
        assert(times.len() > 1);
        assert(times[0] <= times[1] <= times[0] + POLL_INTERVAL_MS);
        assert(elapsed(times[1], started) >= DEADLINE_MS);
    } else {
        assert(times.len() > 1);
        let rest = times.drop_first();
        assert(rest[0] == times[1]);
        assert(rest.last() == times.last());
        assert forall|i: int| 0 <= i < rest.len() - 1 implies #[trigger] rest[i] <= rest[i + 1] <= rest[i]
            + POLL_INTERVAL_MS by {
            assert(rest[i] == times[i + 1]);
            assert(rest[i + 1] == times[i + 2]);
        }
        lemma_deadline_bound(started, rest);
        let i = choose|i: int|
            0 <= i < rest.len() && elapsed(#[trigger] rest[i], started) >= DEADLINE_MS && rest[i]
                <= started + DEADLINE_MS + POLL_INTERVAL_MS;
        assert(times[i + 1] == rest[i]);
    }
}

/// Enqueues one search request per shard of `shards`, the `k`-th under
/// `ids[k]`, and returns the run that awaits their responses.
pub fn dispatch(
    queue: &mut CommandQueue,
    shards: &Vec<ShardMetadata>,
    query: &str,
    ids: Vec<String>,
    started_ms: u64,
) -> (run: QueryRun)
    requires
        old(queue).wf(),
        ids@.len() == shards@.len(),
        distinct_ids(ids@),
    ensures
        final(queue).wf(),
        final(queue).delivered() == old(queue).delivered(),
        final(queue).enqueued().len() == old(queue).enqueued().len() + shards@.len(),
        final(queue).enqueued().subrange(0, old(queue).enqueued().len() as int) == old(
            queue,
        ).enqueued(),
        forall|k: int|
            0 <= k < shards@.len() ==> is_request(
                #[trigger] final(queue).enqueued()[old(queue).enqueued().len() + k],
                shards@[k],
                query@,
                ids@[k]@,
            ),
        run.wf(),
        run.ids() == ids@,
        forall|k: int| 0 <= k < ids@.len() ==> !run.done()[k],
        run.rows() == Seq::<Row>::empty(),
        run.started() == started_ms,
{
    let ghost e0 = queue.enqueued();
    let mut done: Vec<bool> = Vec::new();
    let mut k: usize = 0;
    while k < shards.len()
        invariant
            ids@.len() == shards@.len(),
            k <= shards@.len(),
            queue.wf(),
            queue.delivered() == old(queue).delivered(),
            queue.enqueued().len() == e0.len() + k,
            queue.enqueued().subrange(0, e0.len() as int) == e0,
            e0 == old(queue).enqueued(),
            done@.len() == k,
            forall|j: int| 0 <= j < k ==> !done@[j],
            forall|j: int|
                0 <= j < k ==> is_request(
                    #[trigger] queue.enqueued()[e0.len() + j],
                    shards@[j],
                    query@,
                    ids@[j]@,
                ),
        decreases shards@.len() - k,
    {
        let request = MessageSearchRequest {
            query: String::from_str(query),
            id: ids[k].clone(),
            shard: shards[k].clone(),
        };
        let ghost q0 = queue.enqueued();
        queue.push(Message::SearchRequest(request));
        assert(queue.enqueued().subrange(0, e0.len() as int) =~= q0.subrange(0, e0.len() as int));
        assert forall|j: int| 0 <= j < k + 1 implies is_request(
            #[trigger] queue.enqueued()[e0.len() + j],
            shards@[j],
            query@,
            ids@[j]@,
        ) by {
            if j < k {
                assert(queue.enqueued()[e0.len() + j] == q0[e0.len() + j]);
            }
        }
        done.push(false);
        k = k + 1;
    }
    QueryRun { ids, done, rows: Vec::new(), started_ms }
}

/// Whether `id` is the text of one of `ids`.
fn id_taken(ids: &Vec<String>, id: &String) -> (r: bool)
    ensures
        r == exists|k: int| 0 <= k < ids@.len() && ids@[k]@ == id@,
{
    let mut k: usize = 0;
    while k < ids.len()
        invariant
            k <= ids@.len(),
            forall|j: int| 0 <= j < k ==> ids@[j]@ != id@,
        decreases ids@.len() - k,
    {
        if same_text(ids[k].as_str(), id.as_str()) {
            return true;
        }
        k = k + 1;
    }
    false
}

/// Schedules `query` on the shards named `pattern` that were created less
/// than `window` seconds before `now` (seconds since the epoch): mints a fresh
/// request id per candidate, enqueues one search request per candidate, the
/// `k`-th for the `k`-th candidate, and returns the run, started at
/// `started_ms`. Should a minted id repeat an earlier one of this query, it is
/// extended by the longest earlier id, which makes it unique.
pub fn schedule_query(
    catalog: &ShardCatalog,
    queue: &mut CommandQueue,
    pattern: &str,
    query: &str,
    now: i64,
    window: i64,
    started_ms: u64,
) -> (run: QueryRun)
    requires
        old(queue).wf(),
    ensures
        final(queue).wf(),
        final(queue).delivered() == old(queue).delivered(),
        run.ids().len() == in_window(catalog@, pattern@, now - window).len(),
        final(queue).enqueued().len() == old(queue).enqueued().len() + run.ids().len(),
        final(queue).enqueued().subrange(0, old(queue).enqueued().len() as int) == old(
            queue,
        ).enqueued(),
        forall|k: int|
            0 <= k < run.ids().len() ==> is_request(
                #[trigger] final(queue).enqueued()[old(queue).enqueued().len() + k],
                in_window(catalog@, pattern@, now - window)[k],
                query@,
                run.ids()[k]@,
            ),
        forall|k: int|
            0 <= k < run.ids().len() ==> (#[trigger] run.ids()[k])@.len() >= 36 && is_uuid_v4_text(
                run.ids()[k]@.subrange(0, 36),
            ),
        run.wf(),
        forall|k: int| 0 <= k < run.ids().len() ==> !run.done()[k],
        run.rows() == Seq::<Row>::empty(),
        run.started() == started_ms,
{
    let candidates = catalog.candidates(pattern, now, window);
    let mut ids: Vec<String> = Vec::new();
    let mut longest = String::new();
    let mut k: usize = 0;
    while k < candidates.len()
        invariant
            k <= candidates@.len(),
            ids@.len() == k,
            distinct_ids(ids@),
            forall|j: int| 0 <= j < k ==> (#[trigger] ids@[j])@.len() <= longest@.len(),
            forall|j: int|
                0 <= j < k ==> (#[trigger] ids@[j])@.len() >= 36 && is_uuid_v4_text(
                    ids@[j]@.subrange(0, 36),
                ),
        decreases candidates@.len() - k,
    {
        let minted = new_id();
        let ghost m = minted@;
        let id = if id_taken(&ids, &minted) {
            let mut extended = minted;
            extended.append("-");
            extended.append(longest.as_str());
            extended
        } else {
            minted
        };
        assert(id@.subrange(0, 36) =~= m);
        let ghost before = ids@;
        assert forall|j: int| 0 <= j < k implies before[j]@ != id@ by {
            if id@.len() == 36 {
                assert(id@ == m);
            } else {
                assert(before[j]@.len() < id@.len());
            }
        }
        if id.unicode_len() > longest.unicode_len() {
            longest = id.clone();
        }
        ids.push(id);
        assert forall|a: int, b: int|
            0 <= a < ids@.len() && 0 <= b < ids@.len() && a != b implies ids@[a]@ != ids@[b]@ by {
            if a < k && b < k {
                assert(ids@[a] == before[a] && ids@[b] == before[b]);
            }
        }
        k = k + 1;
    }
    dispatch(queue, &candidates, query, ids, started_ms)
}

} // verus!
