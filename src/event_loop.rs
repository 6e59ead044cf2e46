//! The decisions of the cache's event loop: one event in, the new state and
//! the replies to send out. The loop itself (waiting on the three sources,
//! sending the replies) runs around `CacheLoop::handle`.
use vstd::prelude::*;
use crate::cache::{
    history_of, matching, recorded, sample_views, CacheView, ResourceCache, Sample, SampleView,
};
use crate::keyexpr::{contains_wildcard, has_wildcard, join_key_expr, joined};

verus! {

/// One ready event of the loop.
pub enum CacheEvent {
    /// A sample seen by the local subscription.
    Publication(Sample),
    /// A query, by the key expression of its selector.
    Query(String),
    /// The stop signal, or the control channel closing.
    Stop,
}

pub enum EventView {
    Publication(SampleView),
    Query(Seq<char>),
    Stop,
}

impl View for CacheEvent {
    type V = EventView;

    open spec fn view(&self) -> EventView {
        match self {
            CacheEvent::Publication(s) => EventView::Publication(s@),
            CacheEvent::Query(k) => EventView::Query(k@),
            CacheEvent::Stop => EventView::Stop,
        }
    }
}

pub struct LoopView {
    pub cache: CacheView,
    pub prefix: Option<Seq<char>>,
    pub running: bool,
}

/// The key under which a sample published under `key` is addressed by queries.
pub open spec fn cache_key(prefix: Option<Seq<char>>, key: Seq<char>) -> Seq<char> {
    match prefix {
        Some(p) => joined(p, key),
        None => key,
    }
}

/// What a query on `selector` is answered with: the exact key's samples when
/// the selector has no wildcard, else those of every key that it matches.
pub open spec fn query_replies(c: CacheView, selector: Seq<char>) -> Seq<SampleView> {
    if has_wildcard(selector) {
        matching(c.entries, selector)
    } else {
        history_of(c.entries, selector)
    }
}

/// One event handled: the next state and the replies issued.
pub open spec fn step(s: LoopView, e: EventView) -> (LoopView, Seq<SampleView>) {
    if !s.running {
        (s, Seq::empty())
    } else {
        match e {
            EventView::Publication(x) => (
                LoopView { cache: recorded(s.cache, cache_key(s.prefix, x.key), x), ..s },
                Seq::empty(),
            ),
            EventView::Query(sel) => (s, query_replies(s.cache, sel)),
            EventView::Stop => (LoopView { running: false, ..s }, Seq::empty()),
        }
    }
}

/// Events handled in turn: the final state and all replies, in order.
pub open spec fn run(s: LoopView, events: Seq<EventView>) -> (LoopView, Seq<SampleView>)
    decreases events.len(),
{
    if events.len() == 0 {
        (s, Seq::empty())
    } else {
        let (s1, r1) = step(s, events[0]);
        let (s2, r2) = run(s1, events.drop_first());
        (s2, r1 + r2)
    }
}

/// The state owned by one running cache loop.
pub struct CacheLoop {
    cache: ResourceCache,
    prefix: Option<String>,
    running: bool,
}

impl View for CacheLoop {
    type V = LoopView;

    closed spec fn view(&self) -> LoopView {
        LoopView {
            cache: self.cache@,
            prefix: match self.prefix {
                Some(p) => Some(p@),
                None => None,
            },
            running: self.running,
        }
    }
}

impl CacheLoop {
    pub closed spec fn wf(&self) -> bool {
        self.cache.wf()
    }

    /// A running loop over an empty cache.
    pub fn new(history: usize, resources_limit: Option<usize>, prefix: Option<String>) -> (r:
        CacheLoop)
        ensures
            r.wf(),
            r@.running,
            r@.cache.entries == Seq::<(Seq<char>, Seq<SampleView>)>::empty(),
            r@.cache.history == history,
            r@.cache.limit == match resources_limit {
                Some(l) => l as nat,
                None => usize::MAX as nat,
            },
            r@.prefix == match prefix {
                Some(p) => Some(p@),
                None => None::<Seq<char>>,
            },
    {
        CacheLoop { cache: ResourceCache::new(history, resources_limit), prefix, running: true }
    }

    pub fn is_running(&self) -> (r: bool)
        ensures
            r == self@.running,
    {
        self.running
    }

    /// Handles one event and returns the samples to reply with, in order.
    pub fn handle(&mut self, event: CacheEvent) -> (replies: Vec<Sample>)
        requires
            old(self).wf(),
        ensures
            final(self).wf(),
            (final(self)@, sample_views(replies@)) == step(old(self)@, event@),
    {
        let ghost e = event@;
        if !self.running {
            let r: Vec<Sample> = Vec::new();
            assert(sample_views(r@) =~= Seq::<SampleView>::empty());
            return r;
        }
        match event {
            CacheEvent::Publication(sample) => {
                let key = match &self.prefix {
                    Some(p) => join_key_expr(p, &sample.key),
                    None => sample.key.clone(),
                };
                let _kept = self.cache.record(key, sample);
                let r: Vec<Sample> = Vec::new();
                assert(sample_views(r@) =~= Seq::<SampleView>::empty());
                r
            },
            CacheEvent::Query(selector) => {
                if contains_wildcard(&selector) {
                    self.cache.lookup_matching(&selector)
                } else {
                    self.cache.lookup_exact(&selector)
                }
            },
            CacheEvent::Stop => {
                self.running = false;
                let r: Vec<Sample> = Vec::new();
                assert(sample_views(r@) =~= Seq::<SampleView>::empty());
                r
            },
        }
    }
}

} // verus!
