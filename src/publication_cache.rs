//! Building and closing a publication cache. The registrations with the
//! session are made outside; what is declared, in which order, what is rolled
//! back and what the build returns is decided here, one outcome at a time.
use vstd::prelude::*;
use crate::event_loop::CacheLoop;
use crate::keyexpr::{is_valid_key_expr, join_key_expr, joined, valid_key_expr};

verus! {

/// Whose queries (or publications) a registration accepts.
#[derive(Debug, Clone, Copy, PartialEq, Eq, Structural)]
pub enum Locality {
    SessionLocal,
    Remote,
    Any,
}

/// Why building a publication cache failed.
#[derive(Debug, Clone, PartialEq, Eq)]
pub enum BuildError {
    /// The target key expression is malformed.
    InvalidKeyExpr,
    /// The queryable prefix is malformed.
    InvalidPrefix,
    /// The session does not stamp its publications.
    MissingTimestamps,
    /// The session refused the local subscription, with its message.
    SubscriberRefused(String),
    /// The session refused the queryable, with its message.
    QueryableRefused(String),
}

pub enum BuildErrorView {
    InvalidKeyExpr,
    InvalidPrefix,
    MissingTimestamps,
    SubscriberRefused(Seq<char>),
    QueryableRefused(Seq<char>),
}

impl View for BuildError {
    type V = BuildErrorView;

    open spec fn view(&self) -> BuildErrorView {
        match self {
            BuildError::InvalidKeyExpr => BuildErrorView::InvalidKeyExpr,
            BuildError::InvalidPrefix => BuildErrorView::InvalidPrefix,
            BuildError::MissingTimestamps => BuildErrorView::MissingTimestamps,
            BuildError::SubscriberRefused(m) => BuildErrorView::SubscriberRefused(m@),
            BuildError::QueryableRefused(m) => BuildErrorView::QueryableRefused(m@),
        }
    }
}

/// The configuration of a publication cache; nothing is checked until `begin`.
pub struct PublicationCacheBuilder {
    pub_key_expr: String,
    queryable_prefix: Option<String>,
    queryable_origin: Locality,
    history: usize,
    resources_limit: Option<usize>,
}

pub struct BuilderView {
    pub key_expr: Seq<char>,
    pub prefix: Option<Seq<char>>,
    pub origin: Locality,
    pub history: nat,
    pub resources_limit: Option<usize>,
}

pub open spec fn opt_view(o: Option<String>) -> Option<Seq<char>> {
    match o {
        Some(s) => Some(s@),
        None => None,
    }
}

impl View for PublicationCacheBuilder {
    type V = BuilderView;

    closed spec fn view(&self) -> BuilderView {
        BuilderView {
            key_expr: self.pub_key_expr@,
            prefix: opt_view(self.queryable_prefix),
            origin: self.queryable_origin,
            history: self.history as nat,
            resources_limit: self.resources_limit,
        }
    }
}

/// The key expression of the queryable: the target, under the prefix if any.
pub open spec fn queryable_key(b: BuilderView) -> Seq<char> {
    match b.prefix {
        Some(p) => joined(p, b.key_expr),
        None => b.key_expr,
    }
}

/// The first error that a build meets before registering anything, if any:
/// the target, then the prefix, then the session's timestamps.
pub open spec fn config_error(b: BuilderView, has_timestamps: bool) -> Option<BuildErrorView> {
    if !valid_key_expr(b.key_expr) {
        Some(BuildErrorView::InvalidKeyExpr)
    } else if b.prefix is Some && !valid_key_expr(b.prefix->0) {
        Some(BuildErrorView::InvalidPrefix)
    } else if !has_timestamps {
        Some(BuildErrorView::MissingTimestamps)
    } else {
        None
    }
}

impl PublicationCacheBuilder {
    /// A configuration caching `pub_key_expr`, with no prefix, queries of any
    /// origin, a history of one sample and no limit on keys.
    pub fn new(pub_key_expr: String) -> (r: PublicationCacheBuilder)
        ensures
            r@ == (BuilderView {
                key_expr: pub_key_expr@,
                prefix: None,
                origin: Locality::Any,
                history: 1,
                resources_limit: None,
            }),
    {
        PublicationCacheBuilder {
            pub_key_expr,
            queryable_prefix: None,
            queryable_origin: Locality::Any,
            history: 1,
            resources_limit: None,
        }
    }

    /// Changes the prefix used for the queryable.
    pub fn queryable_prefix(self, queryable_prefix: String) -> (r: PublicationCacheBuilder)
        ensures
            r@ == (BuilderView { prefix: Some(queryable_prefix@), ..self@ }),
    {
        PublicationCacheBuilder { queryable_prefix: Some(queryable_prefix), ..self }
    }

    /// Restricts the queries answered to those of the given origin.
    pub fn queryable_allowed_origin(self, origin: Locality) -> (r: PublicationCacheBuilder)
        ensures
            r@ == (BuilderView { origin, ..self@ }),
    {
        PublicationCacheBuilder { queryable_origin: origin, ..self }
    }

    /// Changes the number of samples kept for each key.
    pub fn history(self, history: usize) -> (r: PublicationCacheBuilder)
        ensures
            r@ == (BuilderView { history: history as nat, ..self@ }),
    {
        PublicationCacheBuilder { history, ..self }
    }

    /// Changes the limit on the number of cached keys.
    pub fn resources_limit(self, limit: usize) -> (r: PublicationCacheBuilder)
        ensures
            r@ == (BuilderView { resources_limit: Some(limit), ..self@ }),
    {
        PublicationCacheBuilder { resources_limit: Some(limit), ..self }
    }
}

/// A built publication cache: what its loop and its registrations were made
/// with.
pub struct PublicationCache {
    key_expr: String,
    queryable_key_expr: String,
    prefix: Option<String>,
    history: usize,
    resources_limit: Option<usize>,
}

pub struct PublicationCacheView {
    pub key_expr: Seq<char>,
    pub queryable_key_expr: Seq<char>,
    pub prefix: Option<Seq<char>>,
    pub history: nat,
    pub resources_limit: Option<usize>,
}

impl View for PublicationCache {
    type V = PublicationCacheView;

    closed spec fn view(&self) -> PublicationCacheView {
        PublicationCacheView {
            key_expr: self.key_expr@,
            queryable_key_expr: self.queryable_key_expr@,
            prefix: opt_view(self.prefix),
            history: self.history as nat,
            resources_limit: self.resources_limit,
        }
    }
}

/// The cache that a valid configuration builds.
pub open spec fn planned(b: BuilderView) -> PublicationCacheView {
    PublicationCacheView {
        key_expr: b.key_expr,
        queryable_key_expr: queryable_key(b),
        prefix: b.prefix,
        history: b.history,
        resources_limit: b.resources_limit,
    }
}

/// The first error among `first` and `second`, in that order.
pub open spec fn first_error(first: Option<Seq<char>>, second: Option<Seq<char>>) -> Option<
    Seq<char>,
> {
    if first is Some {
        first
    } else {
        second
    }
}

pub open spec fn outcome_view(o: Result<(), String>) -> Option<Seq<char>> {
    match o {
        Ok(_) => None,
        Err(m) => Some(m@),
    }
}

impl PublicationCache {
    pub fn key_expr(&self) -> (r: &String)
        ensures
            r@ == self@.key_expr,
    {
        &self.key_expr
    }

    pub fn queryable_key_expr(&self) -> (r: &String)
        ensures
            r@ == self@.queryable_key_expr,
    {
        &self.queryable_key_expr
    }

    /// The state of a fresh loop for this cache.
    pub fn cache_loop(&self) -> (r: CacheLoop)
        ensures
            r.wf(),
            r@.running,
            r@.cache.entries.len() == 0,
            r@.cache.history == self@.history,
            r@.cache.limit == match self@.resources_limit {
                Some(l) => l as nat,
                None => usize::MAX as nat,
            },
            r@.prefix == self@.prefix,
    {
        let prefix = match &self.prefix {
            Some(p) => Some(p.clone()),
            None => None,
        };
        CacheLoop::new(self.history, self.resources_limit, prefix)
    }

    /// Closes the cache, given how undeclaring the queryable and then the
    /// subscription went (both are attempted, in that order, before the loop
    /// is stopped): the first error, if any.
    pub fn close(self, queryable_undeclared: Result<(), String>, subscriber_undeclared: Result<
        (),
        String,
    >) -> (r: Result<(), String>)
        ensures
            outcome_view(r) == first_error(
                outcome_view(queryable_undeclared),
                outcome_view(subscriber_undeclared),
            ),
    {
        match queryable_undeclared {
            Err(e) => Err(e),
            Ok(()) => subscriber_undeclared,
        }
    }
}

/// Where a build stands.
#[derive(Debug, Clone, Copy, PartialEq, Eq, Structural)]
pub enum BuildStage {
    /// The local subscription was asked for.
    Subscribing,
    /// The subscription is held; the queryable was asked for.
    Exposing,
    /// The queryable was refused; the subscription is being undeclared.
    RollingBack,
    /// The build returned.
    Done,
}

/// What the session is to do next.
pub enum BuildAction {
    /// Declare a subscription on this key, for this session's publications only.
    DeclareSubscriber(String),
    /// Declare a queryable on this key, for queries of this origin.
    DeclareQueryable(String, Locality),
    /// Undeclare the subscription declared before.
    UndeclareSubscriber,
    /// The build is over, with this result.
    Finish(Result<PublicationCache, BuildError>),
}

pub enum ActionView {
    DeclareSubscriber(Seq<char>),
    DeclareQueryable(Seq<char>, Locality),
    UndeclareSubscriber,
    Finish(Result<PublicationCacheView, BuildErrorView>),
}

impl View for BuildAction {
    type V = ActionView;

    open spec fn view(&self) -> ActionView {
        match self {
            BuildAction::DeclareSubscriber(k) => ActionView::DeclareSubscriber(k@),
            BuildAction::DeclareQueryable(k, o) => ActionView::DeclareQueryable(k@, *o),
            BuildAction::UndeclareSubscriber => ActionView::UndeclareSubscriber,
            BuildAction::Finish(Ok(c)) => ActionView::Finish(Ok(c@)),
            BuildAction::Finish(Err(e)) => ActionView::Finish(Err(e@)),
        }
    }
}

/// A build in progress.
pub struct BuildMachine {
    plan: PublicationCache,
    origin: Locality,
    stage: BuildStage,
    error: Option<BuildError>,
}

pub struct MachineView {
    pub plan: PublicationCacheView,
    pub origin: Locality,
    pub stage: BuildStage,
    pub error: Option<BuildErrorView>,
}

impl View for BuildMachine {
    type V = MachineView;

    closed spec fn view(&self) -> MachineView {
        MachineView {
            plan: self.plan@,
            origin: self.origin,
            stage: self.stage,
            error: match self.error {
                Some(e) => Some(e@),
                None => None,
            },
        }
    }
}

/// The registrations held at a stage: (subscription, queryable).
pub open spec fn held(m: MachineView) -> (bool, bool) {
    match m.stage {
        BuildStage::Subscribing => (false, false),
        BuildStage::Exposing => (true, false),
        BuildStage::RollingBack => (true, false),
        BuildStage::Done => if m.error is None {
            (true, true)
        } else {
            (false, false)
        },
    }
}

/// The start of a build of `b`: the first error of the configuration ends it
/// at once, else the subscription is asked for.
pub open spec fn begin_spec(b: BuilderView, has_timestamps: bool) -> (MachineView, ActionView) {
    let m = MachineView { plan: planned(b), origin: b.origin, stage: BuildStage::Subscribing, error: None };
    match config_error(b, has_timestamps) {
        Some(e) => (
            MachineView { stage: BuildStage::Done, error: Some(e), ..m },
            ActionView::Finish(Err(e)),
        ),
        None => (m, ActionView::DeclareSubscriber(b.key_expr)),
    }
}

/// The next step of a build, given how the action asked for went.
pub open spec fn advance_spec(m: MachineView, outcome: Option<Seq<char>>) -> (MachineView, ActionView) {
    match m.stage {
        BuildStage::Subscribing => match outcome {
            None => (
                MachineView { stage: BuildStage::Exposing, ..m },
                ActionView::DeclareQueryable(m.plan.queryable_key_expr, m.origin),
            ),
            Some(msg) => {
                let e = BuildErrorView::SubscriberRefused(msg);
                (MachineView { stage: BuildStage::Done, error: Some(e), ..m }, ActionView::Finish(Err(e)))
            },
        },
        BuildStage::Exposing => match outcome {
            None => (MachineView { stage: BuildStage::Done, ..m }, ActionView::Finish(Ok(m.plan))),
            Some(msg) => (
                MachineView {
                    stage: BuildStage::RollingBack,
                    error: Some(BuildErrorView::QueryableRefused(msg)),
                    ..m
                },
                ActionView::UndeclareSubscriber,
            ),
        },
        _ => (MachineView { stage: BuildStage::Done, ..m }, ActionView::Finish(Err(m.error->0))),
    }
}

impl PublicationCacheBuilder {
    /// Starts building: checks the configuration against the session's
    /// timestamp support and says what to do first.
    pub fn begin(self, has_timestamps: bool) -> (r: (BuildMachine, BuildAction))
        ensures
            r.0.wf(),
            (r.0@, r.1@) == begin_spec(self@, has_timestamps),
    {
        let ghost b = self@;
        let key_ok = is_valid_key_expr(&self.pub_key_expr);
        let prefix_ok = match &self.queryable_prefix {
            Some(p) => is_valid_key_expr(p),
            None => true,
        };
        let queryable_key_expr = match &self.queryable_prefix {
            Some(p) => join_key_expr(p, &self.pub_key_expr),
            None => self.pub_key_expr.clone(),
        };
        let key = self.pub_key_expr.clone();
        let plan = PublicationCache {
            key_expr: self.pub_key_expr,
            queryable_key_expr,
            prefix: self.queryable_prefix,
            history: self.history,
            resources_limit: self.resources_limit,
        };
        assert(plan@ == planned(b));
        let error = if !key_ok {
            Some(BuildError::InvalidKeyExpr)
        } else if !prefix_ok {
            Some(BuildError::InvalidPrefix)
        } else if !has_timestamps {
            Some(BuildError::MissingTimestamps)
        } else {
            None
        };
        match error {
            Some(e) => {
                let action = BuildAction::Finish(Err(e.clone_error()));
                (BuildMachine { plan, origin: self.queryable_origin, stage: BuildStage::Done, error: Some(e) }, action)
            },
            None => (
                BuildMachine { plan, origin: self.queryable_origin, stage: BuildStage::Subscribing, error: None },
                BuildAction::DeclareSubscriber(key),
            ),
        }
    }
}

impl BuildError {
    /// A copy of this error.
    pub fn clone_error(&self) -> (r: BuildError)
        ensures
            r@ == self@,
    {
        match self {
            BuildError::InvalidKeyExpr => BuildError::InvalidKeyExpr,
            BuildError::InvalidPrefix => BuildError::InvalidPrefix,
            BuildError::MissingTimestamps => BuildError::MissingTimestamps,
            BuildError::SubscriberRefused(m) => BuildError::SubscriberRefused(m.clone()),
            BuildError::QueryableRefused(m) => BuildError::QueryableRefused(m.clone()),
        }
    }
}

impl BuildMachine {
    /// Whether a queryable that was refused left an error to report.
    pub closed spec fn wf(&self) -> bool {
        self.stage == BuildStage::RollingBack ==> self.error is Some
    }

    pub fn stage(&self) -> (r: BuildStage)
        ensures
            r == self@.stage,
    {
        self.stage
    }

    /// Takes the outcome of the last action (`Err` with the session's message
    /// when it was refused) and says what to do next.
    pub fn advance(&mut self, outcome: Result<(), String>) -> (action: BuildAction)
        requires
            old(self).wf(),
            old(self)@.stage != BuildStage::Done,
        ensures
            final(self).wf(),
            (final(self)@, action@) == advance_spec(old(self)@, outcome_view(outcome)),
    {
        match self.stage {
            BuildStage::Subscribing => match outcome {
                Ok(()) => {
                    self.stage = BuildStage::Exposing;
                    BuildAction::DeclareQueryable(self.plan.queryable_key_expr.clone(), self.origin)
                },
                Err(m) => {
                    let e = BuildError::SubscriberRefused(m);
                    self.stage = BuildStage::Done;
                    self.error = Some(e.clone_error());
                    BuildAction::Finish(Err(e))
                },
            },
            BuildStage::Exposing => match outcome {
                Ok(()) => {
                    self.stage = BuildStage::Done;
                    BuildAction::Finish(Ok(self.plan.duplicate()))
                },
                Err(m) => {
                    self.stage = BuildStage::RollingBack;
                    self.error = Some(BuildError::QueryableRefused(m));
                    BuildAction::UndeclareSubscriber
                },
            },
            _ => {
                self.stage = BuildStage::Done;
                let e = match &self.error {
                    Some(e) => e.clone_error(),
                    None => {
                        // only `RollingBack` reaches here, and it always holds an error
                        assert(false);
                        BuildError::MissingTimestamps
                    },
                };
                BuildAction::Finish(Err(e))
            },
        }
    }
}

impl PublicationCache {
    fn duplicate(&self) -> (r: PublicationCache)
        ensures
            r@ == self@,
    {
        PublicationCache {
            key_expr: self.key_expr.clone(),
            queryable_key_expr: self.queryable_key_expr.clone(),
            prefix: match &self.prefix {
                Some(p) => Some(p.clone()),
                None => None,
            },
            history: self.history,
            resources_limit: self.resources_limit,
        }
    }
}

} // verus!
