//! The bounded resource cache: for each key, the most recent samples in the
//! order they came, at most `history` of them; and at most `limit` keys.
use vstd::prelude::*;
use std::collections::VecDeque;
use crate::keyexpr::{key_expr_matches, key_matches};

verus! {

/// One observed publication.
#[derive(Debug, Clone, PartialEq, Eq)]
pub struct Sample {
    pub key: String,
    pub payload: Vec<u8>,
    pub timestamp: u64,
}

pub struct SampleView {
    pub key: Seq<char>,
    pub payload: Seq<u8>,
    pub timestamp: u64,
}

impl View for Sample {
    type V = SampleView;

    open spec fn view(&self) -> SampleView {
        SampleView { key: self.key@, payload: self.payload@, timestamp: self.timestamp }
    }
}

impl Sample {
    pub fn new(key: String, payload: Vec<u8>, timestamp: u64) -> (r: Sample)
        ensures
            r@ == (SampleView { key: key@, payload: payload@, timestamp }),
    {
        Sample { key, payload, timestamp }
    }

    /// A copy of this sample, equal to it in every field.
    pub fn duplicate(&self) -> (r: Sample)
        ensures
            r@ == self@,
    {
        let payload = self.payload.clone();
        assert(payload@ =~= self.payload@);
        Sample { key: self.key.clone(), payload, timestamp: self.timestamp }
    }
}

/// A cached key with its samples, oldest first.
pub type EntryView = (Seq<char>, Seq<SampleView>);

pub struct CacheView {
    pub entries: Seq<EntryView>,
    pub history: nat,
    pub limit: nat,
}

pub open spec fn sample_views(q: Seq<Sample>) -> Seq<SampleView> {
    q.map_values(|s: Sample| s@)
}

/// The index of the entry for `key` (the last one, should there be two), or -1.
pub open spec fn position(e: Seq<EntryView>, key: Seq<char>) -> int
    decreases e.len(),
{
    if e.len() == 0 {
        -1
    } else if e.last().0 == key {
        e.len() - 1
    } else {
        position(e.drop_last(), key)
    }
}

/// The samples held under `key`, oldest first; empty where the key is absent.
pub open spec fn history_of(e: Seq<EntryView>, key: Seq<char>) -> Seq<SampleView> {
    let p = position(e, key);
    if p >= 0 {
        e[p].1
    } else {
        Seq::empty()
    }
}

/// `q` with `s` appended, the oldest sample dropped first where `q` already
/// holds `h` samples or more.
pub open spec fn pushed(q: Seq<SampleView>, s: SampleView, h: nat) -> Seq<SampleView> {
    if q.len() >= h && q.len() > 0 {
        q.drop_first().push(s)
    } else {
        q.push(s)
    }
}

/// The cache after a publication of `s` under `key`: appended to the key's
/// queue if the key is present, a new queue if there is room for one more key,
/// and the cache unchanged otherwise.
pub open spec fn recorded(c: CacheView, key: Seq<char>, s: SampleView) -> CacheView {
    let p = position(c.entries, key);
    if p >= 0 {
        CacheView {
            entries: c.entries.update(p, (key, pushed(c.entries[p].1, s, c.history))),
            ..c
        }
    } else if c.entries.len() < c.limit {
        CacheView { entries: c.entries.push((key, seq![s])), ..c }
    } else {
        c
    }
}

/// The samples of every entry whose key `pattern` matches, entry by entry in
/// the cache's order, each entry's samples oldest first.
pub open spec fn matching(e: Seq<EntryView>, pattern: Seq<char>) -> Seq<SampleView>
    decreases e.len(),
{
    if e.len() == 0 {
        Seq::empty()
    } else {
        matching(e.drop_last(), pattern) + (if key_matches(pattern, e.last().0) {
            e.last().1
        } else {
            Seq::empty()
        })
    }
}

pub proof fn lemma_position_absent(e: Seq<EntryView>, key: Seq<char>, i: int)
    requires
        position(e, key) == -1,
        0 <= i < e.len(),
    ensures
        e[i].0 != key,
    decreases e.len(),
{
    if i < e.len() - 1 {
        lemma_position_absent(e.drop_last(), key, i);
    }
}

pub proof fn lemma_position_bounds(e: Seq<EntryView>, key: Seq<char>)
    ensures
        -1 <= position(e, key) < e.len(),
        position(e, key) >= 0 ==> e[position(e, key)].0 == key,
    decreases e.len(),
{
    if e.len() > 0 {
        lemma_position_bounds(e.drop_last(), key);
    }
}

pub open spec fn keys_unique(e: Seq<EntryView>) -> bool {
    forall|i: int, j: int| 0 <= i < j < e.len() ==> e[i].0 != e[j].0
}

/// The cache's invariant: distinct keys, at most `limit` of them, and each
/// queue holding between one and `max(history, 1)` samples.
pub open spec fn cache_wf(c: CacheView) -> bool {
    &&& keys_unique(c.entries)
    &&& c.entries.len() <= c.limit
    &&& forall|i: int|
        0 <= i < c.entries.len() ==> {
            let n = (#[trigger] c.entries[i]).1.len();
            0 < n && (n <= c.history || n == 1)
        }
}

pub struct CacheEntry {
    key: String,
    samples: VecDeque<Sample>,
}

impl View for CacheEntry {
    type V = EntryView;

    closed spec fn view(&self) -> EntryView {
        (self.key@, sample_views(self.samples@))
    }
}

pub struct ResourceCache {
    entries: Vec<CacheEntry>,
    history: usize,
    limit: usize,
}

impl View for ResourceCache {
    type V = CacheView;

    closed spec fn view(&self) -> CacheView {
        CacheView {
            entries: self.entries@.map_values(|e: CacheEntry| e@),
            history: self.history as nat,
            limit: self.limit as nat,
        }
    }
}

impl ResourceCache {
    pub open spec fn wf(&self) -> bool {
        cache_wf(self@)
    }

    /// An empty cache keeping `history` samples per key and at most
    /// `resources_limit` keys (no bound but the machine's where it is `None`).
    pub fn new(history: usize, resources_limit: Option<usize>) -> (r: ResourceCache)
        ensures
            r.wf(),
            r@.entries == Seq::<EntryView>::empty(),
            r@.history == history,
            r@.limit == match resources_limit {
                Some(l) => l as nat,
                None => usize::MAX as nat,
            },
    {
        let limit = match resources_limit {
            Some(l) => l,
            None => usize::MAX,
        };
        let r = ResourceCache { entries: Vec::new(), history, limit };
        assert(r@.entries =~= Seq::<EntryView>::empty());
        r
    }

    fn find(&self, key: &String) -> (r: Option<usize>)
        ensures
            match r {
                Some(i) => i < self@.entries.len() && position(self@.entries, key@) == i,
                None => position(self@.entries, key@) == -1,
            },
    {
        let ghost e = self@.entries;
        let mut found: Option<usize> = None;
        let mut i: usize = 0;
        while i < self.entries.len()
            invariant
                e == self@.entries,
                i <= e.len(),
                match found {
                    Some(f) => f < i && position(e.take(i as int), key@) == f,
                    None => position(e.take(i as int), key@) == -1,
                },
            decreases self.entries.len() - i,
        {
            assert(e.take(i + 1).drop_last() =~= e.take(i as int));
            assert(e[i as int] == self.entries@[i as int]@);
            if self.entries[i].key == *key {
                found = Some(i);
            }
            i = i + 1;
        }
        assert(e.take(i as int) =~= e);
        found
    }

    fn append_copies(out: &mut Vec<Sample>, q: &VecDeque<Sample>)
        ensures
            sample_views(final(out)@) == sample_views(old(out)@) + sample_views(q@),
    {
        let ghost base = sample_views(out@);
        let mut i: usize = 0;
        while i < q.len()
            invariant
                i <= q@.len(),
                sample_views(out@) == base + sample_views(q@.take(i as int)),
            decreases q.len() - i,
        {
            let ghost before = sample_views(out@);
            out.push(q[i].duplicate());
            assert(sample_views(out@) =~= before.push(q@[i as int]@));
            assert(sample_views(q@.take(i + 1)) =~= sample_views(q@.take(i as int)).push(
                q@[i as int]@,
            ));
            i = i + 1;
        }
        assert(q@.take(i as int) =~= q@);
    }

    /// The samples stored under exactly `key`, oldest first; empty if none.
    pub fn lookup_exact(&self, key: &String) -> (r: Vec<Sample>)
        ensures
            sample_views(r@) == history_of(self@.entries, key@),
    {
        let mut out: Vec<Sample> = Vec::new();
        proof {
            lemma_position_bounds(self@.entries, key@);
        }
        match self.find(key) {
            Some(i) => {
                Self::append_copies(&mut out, &self.entries[i].samples);
                assert(sample_views(out@) =~= history_of(self@.entries, key@));
            },
            None => {
                assert(sample_views(out@) =~= history_of(self@.entries, key@));
            },
        }
        out
    }

    /// The samples of every stored key that `pattern` matches, key by key in
    /// the cache's order, each key's samples oldest first.
    pub fn lookup_matching(&self, pattern: &String) -> (r: Vec<Sample>)
        ensures
            sample_views(r@) == matching(self@.entries, pattern@),
    {
        let ghost e = self@.entries;
        let mut out: Vec<Sample> = Vec::new();
        let mut i: usize = 0;
        assert(sample_views(out@) =~= matching(e.take(0), pattern@));
        while i < self.entries.len()
            invariant
                e == self@.entries,
                i <= e.len(),
                sample_views(out@) == matching(e.take(i as int), pattern@),
            decreases self.entries.len() - i,
        {
            assert(e.take(i + 1).drop_last() =~= e.take(i as int));
            assert(e[i as int] == self.entries@[i as int]@);
            if key_expr_matches(pattern, &self.entries[i].key) {
                Self::append_copies(&mut out, &self.entries[i].samples);
            } else {
                assert(sample_views(out@) =~= sample_views(out@) + Seq::<SampleView>::empty());
            }
            i = i + 1;
        }
        assert(e.take(i as int) =~= e);
        out
    }

    /// Stores `sample` under `key`, as `recorded` says; returns whether it was
    /// kept (false only for a new key when the cache already holds `limit` keys).
    pub fn record(&mut self, key: String, sample: Sample) -> (kept: bool)
        requires
            old(self).wf(),
        ensures
            final(self).wf(),
            final(self)@ == recorded(old(self)@, key@, sample@),
            kept == (position(old(self)@.entries, key@) >= 0 || old(self)@.entries.len()
                < old(self)@.limit),
    {
        let ghost c = self@;
        let ghost s = sample@;
        match self.find(&key) {
            Some(i) => {
                proof {
                    lemma_position_bounds(c.entries, key@);
                }
                let ghost q = self.entries@[i as int].samples@;
                assert(self.entries@[i as int]@.0 == key@);
                assert(sample_views(q) == c.entries[i as int].1);
                let mut entry = self.entries.remove(i);
                if entry.samples.len() >= self.history && entry.samples.len() > 0 {
                    entry.samples.pop_front();
                }
                entry.samples.push_back(sample);
                let ghost nq = entry.samples@;
                assert(entry.key@ == key@);
                assert(sample_views(nq) =~= pushed(sample_views(q), s, c.history));
                self.entries.insert(i, entry);
                proof {
                    let ne = c.entries.update(i as int, (key@, pushed(c.entries[i as int].1, s, c.history)));
                    assert(self@.entries =~= ne);
                    assert forall|a: int, b: int| 0 <= a < b < ne.len() implies ne[a].0 != ne[b].0 by {
                        assert(c.entries[a].0 != c.entries[b].0);
                    }
                    assert forall|a: int| 0 <= a < ne.len() implies {
                        let n = (#[trigger] ne[a]).1.len();
                        0 < n && (n <= c.history || n == 1)
                    } by {
                        assert(c.entries[a].1.len() > 0);
                    }
                }
                true
            },
            None => {
                if self.entries.len() < self.limit {
                    let mut samples: VecDeque<Sample> = VecDeque::new();
                    samples.push_back(sample);
                    let entry = CacheEntry { key, samples };
                    assert(entry@.1 =~= seq![s]);
                    self.entries.push(entry);
                    proof {
                        let ne = c.entries.push((key@, seq![s]));
                        assert(self@.entries =~= ne);
                        assert forall|a: int, b: int| 0 <= a < b < ne.len() implies ne[a].0
                            != ne[b].0 by {
                            if b == c.entries.len() {
                                lemma_position_absent(c.entries, key@, a);
                            } else {
                                assert(c.entries[a].0 != c.entries[b].0);
                            }
                        }
                        assert forall|a: int| 0 <= a < ne.len() implies {
                            let n = (#[trigger] ne[a]).1.len();
                            0 < n && (n <= c.history || n == 1)
                        } by {
                            if a < c.entries.len() {
                                assert(c.entries[a].1.len() > 0);
                            }
                        }
                    }
                    true
                } else {
                    false
                }
            },
        }
    }
}

} // verus!
