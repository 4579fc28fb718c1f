//! Responses received from workers and not yet collected by a query,
//! keyed by request id.
use vstd::prelude::*;
use crate::target::same_text;
use crate::message::MessageSearchResponse;

verus! {

/// Some entry answers request `id`.
pub open spec fn answers(entries: Seq<MessageSearchResponse>, id: Seq<char>) -> bool {
    exists|i: int| 0 <= i < entries.len() && entries[i].id@ == id
}

/// The entry that answers request `id`.
pub open spec fn answer_for(entries: Seq<MessageSearchResponse>, id: Seq<char>) -> MessageSearchResponse {
    entries[choose|i: int| 0 <= i < entries.len() && entries[i].id@ == id]
}

/// No two entries answer the same request.
pub open spec fn distinct_answers(entries: Seq<MessageSearchResponse>) -> bool {
    forall|i: int, j: int|
        0 <= i < entries.len() && 0 <= j < entries.len() && i != j ==> entries[i].id@ != entries[j].id@
}

/// The table of responses waiting to be collected.
pub struct PendingResponses {
    entries: Vec<MessageSearchResponse>,
}

impl View for PendingResponses {
    type V = Map<Seq<char>, MessageSearchResponse>;

    closed spec fn view(&self) -> Map<Seq<char>, MessageSearchResponse> {
        Map::new(|id: Seq<char>| answers(self.entries@, id), |id: Seq<char>| answer_for(self.entries@, id))
    }
}

impl PendingResponses {
    pub closed spec fn wf(&self) -> bool {
        distinct_answers(self.entries@)
    }

    /// An empty table.
    pub fn new() -> (r: PendingResponses)
        ensures
            r.wf(),
            r@ == Map::<Seq<char>, MessageSearchResponse>::empty(),
    {
        let r = PendingResponses { entries: Vec::new() };
        assert(r@ =~= Map::<Seq<char>, MessageSearchResponse>::empty());
        r
    }

    /// Number of waiting responses.
    pub fn len(&self) -> (r: usize)
        requires
            self.wf(),
        ensures
            r == self@.len(),
    {
        proof {
            self.lemma_dom_len();
        }
        self.entries.len()
    }

    proof fn lemma_dom_len(&self)
        requires
            self.wf(),
        ensures
            self@.dom().finite(),
            self@.dom().len() == self.entries@.len(),
        decreases self.entries@.len(),
    {
        let e = self.entries@;
        let ids = e.map_values(|r: MessageSearchResponse| r.id@);
        assert(self@.dom() =~= ids.to_set()) by {
            assert forall|id: Seq<char>| self@.dom().contains(id) <==> ids.to_set().contains(id) by {
                if self@.dom().contains(id) {
                    let i = choose|i: int| 0 <= i < e.len() && e[i].id@ == id;
                    assert(ids[i] == id);
                }
                if ids.to_set().contains(id) {
                    let i = choose|i: int| 0 <= i < ids.len() && ids[i] == id;
                    assert(e[i].id@ == id);
                }
            }
        }
        assert(ids.no_duplicates());
        ids.unique_seq_to_set();
    }

    /// Position of the entry answering `id`, if any.
    fn position(&self, id: &str) -> (r: Option<usize>)
        requires
            self.wf(),
        ensures
            r matches Some(i) ==> i < self.entries@.len() && self.entries@[i as int].id@ == id@,
            r is None ==> !answers(self.entries@, id@),
    {
        let mut i: usize = 0;
        while i < self.entries.len()
            invariant
                i <= self.entries@.len(),
                forall|k: int| 0 <= k < i ==> self.entries@[k].id@ != id@,
            decreases self.entries@.len() - i,
        {
            if same_text(self.entries[i].id.as_str(), id) {
                return Some(i);
            }
            i = i + 1;
        }
        None
    }

    /// Whether a response to `id` waits.
    pub fn contains(&self, id: &str) -> (r: bool)
        requires
            self.wf(),
        ensures
            r == self@.contains_key(id@),
    {
        self.position(id).is_some()
    }

    /// Records `resp`, replacing any earlier response to the same request.
    pub fn insert(&mut self, resp: MessageSearchResponse)
        requires
            old(self).wf(),
        ensures
            final(self).wf(),
            final(self)@ == old(self)@.insert(resp.id@, resp),
    {
        let ghost rid = resp.id@;
        let ghost mut at: int = self.entries@.len() as int;
        match self.position(resp.id.as_str()) {
            Some(i) => {
                self.entries.set(i, resp);
                proof {
                    at = i as int;
                }
            },
            None => {
                self.entries.push(resp);
            },
        }
        let ghost e = self.entries@;
        let ghost o = old(self).entries@;
        assert forall|k: int| 0 <= k < e.len() && e[k].id@ != rid implies o[k] == e[k] by {}
        assert(0 <= at < e.len() && e[at] == resp);
        assert forall|k: int| 0 <= k < e.len() && e[k].id@ == rid implies k == at by {
            if k != at {
                assert(o[k].id@ == rid);
            }
        }
        assert(self@ =~= old(self)@.insert(rid, resp)) by {
            assert forall|id: Seq<char>| #[trigger] self@.contains_key(id) == old(self)@.insert(
                rid,
                resp,
            ).contains_key(id) by {
                if id != rid && answers(e, id) {
                    let k = choose|k: int| 0 <= k < e.len() && e[k].id@ == id;
                    assert(o[k].id@ == id);
                }
                if id != rid && answers(o, id) {
                    let k = choose|k: int| 0 <= k < o.len() && o[k].id@ == id;
                    assert(e[k].id@ == id);
                }
                if id == rid {
                    assert(e[at].id@ == rid);
                }
            }
            assert forall|id: Seq<char>| #[trigger] self@.contains_key(id) implies self@[id]
                == old(self)@.insert(rid, resp)[id] by {
                let k = choose|k: int| 0 <= k < e.len() && e[k].id@ == id;
                if id != rid {
                    let j = choose|j: int| 0 <= j < o.len() && o[j].id@ == id;
                    assert(o[k].id@ == id);
                    assert(j == k);
                } else {
                    assert(k == at);
                }
            }
        }
    }

    /// Removes and returns the response to `id`, if one waits.
    pub fn take(&mut self, id: &str) -> (r: Option<MessageSearchResponse>)
        requires
            old(self).wf(),
        ensures
            final(self).wf(),
            final(self)@ == old(self)@.remove(id@),
            old(self)@.contains_key(id@) ==> r == Some(old(self)@[id@]),
            !old(self)@.contains_key(id@) ==> r is None,
    {
        match self.position(id) {
            None => {
                assert(self@ =~= old(self)@.remove(id@));
                None
            },
            Some(i) => {
                let resp = self.entries.remove(i);
                let ghost e = self.entries@;
                let ghost o = old(self).entries@;
                assert(e =~= o.remove(i as int));
                assert forall|k: int| 0 <= k < o.len() && o[k].id@ == id@ implies k == i by {}
                assert forall|x: Seq<char>| #[trigger] self@.contains_key(x) == old(self)@.remove(
                    id@,
                ).contains_key(x) by {
                    if answers(e, x) {
                        let k = choose|k: int| 0 <= k < e.len() && e[k].id@ == x;
                        if k < i {
                            assert(o[k].id@ == x);
                        } else {
                            assert(o[k + 1].id@ == x);
                        }
                    }
                    if x != id@ && answers(o, x) {
                        let k = choose|k: int| 0 <= k < o.len() && o[k].id@ == x;
                        if k < i {
                            assert(e[k].id@ == x);
                        } else {
                            assert(e[k - 1].id@ == x);
                        }
                    }
                }
                assert forall|x: Seq<char>| #[trigger] self@.contains_key(x) implies self@[x]
                    == old(self)@.remove(id@)[x] by {
                    let k = choose|k: int| 0 <= k < e.len() && e[k].id@ == x;
                    let j = choose|j: int| 0 <= j < o.len() && o[j].id@ == x;
                    if k < i {
                        assert(o[k].id@ == x);
                        assert(j == k);
                    } else {
                        assert(o[k + 1].id@ == x);
                        assert(j == k + 1);
                    }
                }
                assert(self@ =~= old(self)@.remove(id@));
                Some(resp)
            },
        }
    }
}

} // verus!
