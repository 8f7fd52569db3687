//! The read cache's message-summary store. A passthrough cache (co-located
//! with its authority) retains nothing; a retaining cache (remote) keeps the
//! summaries that flow back from point reads and query pages, and the
//! down-channel evicts a message's entry when the authority says it changed,
//! so a cached summary is never stale.
use vstd::prelude::*;

use crate::keyed::{
    keyed_map, keys_unique, lemma_keyed_at, lemma_keyed_push, lemma_keyed_remove,
    lemma_keyed_update,
};
use crate::links::spec_id_set;
use crate::text::str_eq;

verus! {

/// A message's summary (JSON text) as the cache holds it.
#[derive(Debug)]
pub struct CachedSummary {
    pub message_id: String,
    pub summary: String,
}

/// Summaries are found by message id.
pub open spec fn summary_key() -> spec_fn(CachedSummary) -> Seq<char> {
    |c: CachedSummary| c.message_id@
}

/// What a read of `message_id` finds in a cache holding `entries`.
pub open spec fn spec_lookup(entries: Map<Seq<char>, CachedSummary>, message_id: Seq<char>) -> Option<
    Seq<char>,
> {
    if entries.contains_key(message_id) {
        Some(entries[message_id].summary@)
    } else {
        None
    }
}

/// The store of a read cache.
#[derive(Debug)]
pub struct SummaryCache {
    retaining: bool,
    entries: Vec<CachedSummary>,
}

impl SummaryCache {
    /// Each message is held once, and a passthrough cache holds nothing.
    pub closed spec fn wf(&self) -> bool {
        &&& keys_unique(self.entries@, summary_key())
        &&& (!self.retaining ==> self.entries@.len() == 0)
    }

    /// Whether the cache keeps what flows back.
    pub closed spec fn retains(&self) -> bool {
        self.retaining
    }

    /// The held summaries by message id.
    pub closed spec fn entries(&self) -> Map<Seq<char>, CachedSummary> {
        keyed_map(self.entries@, summary_key())
    }

    /// A passthrough cache: it retains nothing.
    pub fn passthrough() -> (r: Self)
        ensures
            r.wf(),
            !r.retains(),
            r.entries() == Map::<Seq<char>, CachedSummary>::empty(),
    {
        let r = SummaryCache { retaining: false, entries: Vec::new() };
        assert(r.entries() =~= Map::<Seq<char>, CachedSummary>::empty());
        r
    }

    /// A retaining cache, empty.
    pub fn retaining() -> (r: Self)
        ensures
            r.wf(),
            r.retains(),
            r.entries() == Map::<Seq<char>, CachedSummary>::empty(),
    {
        let r = SummaryCache { retaining: true, entries: Vec::new() };
        assert(r.entries() =~= Map::<Seq<char>, CachedSummary>::empty());
        r
    }

    fn find(&self, message_id: &str) -> (r: Option<usize>)
        requires
            self.wf(),
        ensures
            match r {
                Some(i) => i < self.entries@.len() && self.entries@[i as int].message_id@
                    == message_id@ && self.entries().contains_key(message_id@)
                    && self.entries()[message_id@] == self.entries@[i as int],
                None => !self.entries().contains_key(message_id@),
            },
    {
        let mut i: usize = 0;
        while i < self.entries.len()
            invariant
                self.wf(),
                i <= self.entries@.len(),
                forall|j: int| 0 <= j < i ==> (#[trigger] self.entries@[j]).message_id@ != message_id@,
            decreases self.entries@.len() - i,
        {
            if str_eq(self.entries[i].message_id.as_str(), message_id) {
                proof {
                    lemma_keyed_at(self.entries@, summary_key(), i as int);
                }
                return Some(i);
            }
            i = i + 1;
        }
        proof {
            if self.entries().contains_key(message_id@) {
                let j = choose|j: int|
                    0 <= j < self.entries@.len() && summary_key()(#[trigger] self.entries@[j])
                        == message_id@;
                assert(self.entries@[j].message_id@ == message_id@);
            }
        }
        None
    }

    /// The summary held for `message_id`, if any: a hit serves the read
    /// without asking the authority.
    pub fn lookup(&self, message_id: &str) -> (r: Option<String>)
        requires
            self.wf(),
        ensures
            match r {
                Some(s) => spec_lookup(self.entries(), message_id@) == Some(s@),
                None => spec_lookup(self.entries(), message_id@) is None,
            },
    {
        match self.find(message_id) {
            Some(i) => Some(self.entries[i].summary.clone()),
            None => None,
        }
    }

    /// Keep `entry` after a read brought it back, in place of what was held
    /// for its message; a passthrough cache keeps nothing.
    pub fn record(&mut self, entry: CachedSummary)
        requires
            old(self).wf(),
        ensures
            final(self).wf(),
            final(self).retains() == old(self).retains(),
            final(self).entries() == if old(self).retains() {
                old(self).entries().insert(entry.message_id@, entry)
            } else {
                old(self).entries()
            },
    {
        if !self.retaining {
            return;
        }
        match self.find(entry.message_id.as_str()) {
            Some(i) => {
                proof {
                    lemma_keyed_update(self.entries@, summary_key(), i as int, entry);
                }
                let ghost before = self.entries@;
                self.entries.remove(i);
                self.entries.insert(i, entry);
                assert(self.entries@ =~= before.update(i as int, entry));
            },
            None => {
                proof {
                    lemma_keyed_push(self.entries@, summary_key(), entry);
                }
                self.entries.push(entry);
            },
        }
    }

    /// Keep the messages a query page returned (a list read warms the
    /// cache), in page order: a later entry for the same message wins.
    pub fn warm(&mut self, page: Vec<CachedSummary>)
        requires
            old(self).wf(),
        ensures
            final(self).wf(),
            final(self).retains() == old(self).retains(),
            final(self).entries() == if old(self).retains() {
                spec_warmed(old(self).entries(), page@)
            } else {
                old(self).entries()
            },
    {
        let ghost original = page@;
        let mut rest = page;
        let mut k: usize = 0;
        let n = rest.len();
        while rest.len() > 0
            invariant
                self.wf(),
                self.retains() == old(self).retains(),
                rest@.len() + k == n,
                n == original.len(),
                rest@ =~= original.subrange(k as int, n as int),
                self.entries() == if old(self).retains() {
                    spec_warmed(old(self).entries(), original.subrange(0, k as int))
                } else {
                    old(self).entries()
                },
            decreases rest@.len(),
        {
            let entry = rest.remove(0);
            proof {
                assert(entry == original[k as int]);
                assert(original.subrange(0, k + 1).drop_last() =~= original.subrange(0, k as int));
                assert(original.subrange(0, k + 1).last() == original[k as int]);
            }
            self.record(entry);
            k = k + 1;
        }
        assert(original.subrange(0, n as int) =~= original);
    }

    /// Drop what is held for `message_id` (it changed authoritatively).
    pub fn evict(&mut self, message_id: &str)
        requires
            old(self).wf(),
        ensures
            final(self).wf(),
            final(self).retains() == old(self).retains(),
            final(self).entries() == old(self).entries().remove(message_id@),
    {
        match self.find(message_id) {
            Some(i) => {
                proof {
                    lemma_keyed_remove(self.entries@, summary_key(), i as int);
                }
                self.entries.remove(i);
            },
            None => {
                assert(old(self).entries().remove(message_id@) =~= old(self).entries());
            },
        }
    }

    /// Drop everything held: the down channel reported a gap it could not
    /// replay.
    pub fn evict_all(&mut self)
        requires
            old(self).wf(),
        ensures
            final(self).wf(),
            final(self).retains() == old(self).retains(),
            final(self).entries() == Map::<Seq<char>, CachedSummary>::empty(),
    {
        self.entries = Vec::new();
        assert(self.entries() =~= Map::<Seq<char>, CachedSummary>::empty());
    }

    /// Keep the cache coherent with a down-channel base frame: drop every
    /// message it asserts (present or removed).
    pub fn apply_coherence(&mut self, asserted: &Vec<String>)
        requires
            old(self).wf(),
        ensures
            final(self).wf(),
            final(self).retains() == old(self).retains(),
            final(self).entries().dom() == old(self).entries().dom().difference(spec_id_set(asserted@)),
            forall|k: Seq<char>| #[trigger] final(self).entries().contains_key(k) ==> final(self).entries()[k]
                == old(self).entries()[k],
    {
        let mut i: usize = 0;
        while i < asserted.len()
            invariant
                self.wf(),
                self.retains() == old(self).retains(),
                i <= asserted@.len(),
                self.entries().dom() == old(self).entries().dom().difference(
                    spec_id_set(asserted@.subrange(0, i as int)),
                ),
                forall|k: Seq<char>| #[trigger] self.entries().contains_key(k) ==> self.entries()[k]
                    == old(self).entries()[k],
            decreases asserted@.len() - i,
        {
            self.evict(asserted[i].as_str());
            proof {
                let before = spec_id_set(asserted@.subrange(0, i as int));
                let after = spec_id_set(asserted@.subrange(0, i + 1));
                assert forall|k: Seq<char>| #[trigger] after.contains(k) <==> before.insert(asserted@[i as int]@).contains(k) by {
                    if after.contains(k) {
                        let j = choose|j: int| 0 <= j < i + 1 && (#[trigger] asserted@.subrange(0, i + 1)[j])@ == k;
                        if j < i {
                            assert(asserted@.subrange(0, i as int)[j] == asserted@.subrange(0, i + 1)[j]);
                        }
                    }
                    if before.contains(k) {
                        let j = choose|j: int| 0 <= j < i && (#[trigger] asserted@.subrange(0, i as int)[j])@ == k;
                        assert(asserted@.subrange(0, i + 1)[j] == asserted@.subrange(0, i as int)[j]);
                    }
                    if k == asserted@[i as int]@ {
                        assert(asserted@.subrange(0, i + 1)[i as int] == asserted@[i as int]);
                    }
                }
                assert(after =~= before.insert(asserted@[i as int]@));
                assert(self.entries().dom() =~= old(self).entries().dom().difference(after));
            }
            i = i + 1;
        }
        assert(asserted@.subrange(0, asserted@.len() as int) =~= asserted@);
    }
}

/// The entries after warming `entries` with `page`, in page order.
pub open spec fn spec_warmed(entries: Map<Seq<char>, CachedSummary>, page: Seq<CachedSummary>) -> Map<
    Seq<char>,
    CachedSummary,
>
    decreases page.len(),
{
    if page.len() == 0 {
        entries
    } else {
        spec_warmed(entries, page.drop_last()).insert(page.last().message_id@, page.last())
    }
}

/// A read after a record of a retaining cache gives back the recorded
/// summary; reads of other messages are untouched; after an eviction the
/// read misses (and goes through to the authority).
pub proof fn law_read_gives_back_the_recorded_summary(
    entries: Map<Seq<char>, CachedSummary>,
    entry: CachedSummary,
    other: Seq<char>,
)
    requires
        other != entry.message_id@,
    ensures
        spec_lookup(entries.insert(entry.message_id@, entry), entry.message_id@) == Some(entry.summary@),
        spec_lookup(entries.insert(entry.message_id@, entry), other) == spec_lookup(entries, other),
        spec_lookup(entries.remove(entry.message_id@), entry.message_id@) is None,
        spec_lookup(entries.remove(entry.message_id@), other) == spec_lookup(entries, other),
{
}

/// A read asks the authority exactly when the cache misses, and a read that
/// asked records what came back. So reading a message twice asks the
/// authority twice through a passthrough cache (which holds nothing) and
/// once through a retaining cache (the second read is served from the
/// cache, with the recorded summary); once a coherence frame asserts the
/// message, the next read asks again.
pub proof fn law_authority_calls_of_repeated_reads(
    retaining: bool,
    entries: Map<Seq<char>, CachedSummary>,
    fetched: CachedSummary,
    asserted: Set<Seq<char>>,
)
    requires
        !retaining ==> entries.dom().is_empty(),
        spec_lookup(entries, fetched.message_id@) is None,
    ensures
        ({
            let m = fetched.message_id@;
            let after_read = if retaining {
                entries.insert(m, fetched)
            } else {
                entries
            };
            &&& spec_lookup(after_read, m) is None <==> !retaining
            &&& retaining ==> spec_lookup(after_read, m) == Some(fetched.summary@)
            &&& asserted.contains(m) ==> spec_lookup(after_read.remove_keys(asserted), m) is None
        }),
{
}

} // verus!
