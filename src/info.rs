//! What a session can tell of itself: its own id, and the ids of the routers
//! and peers it is connected to.
use vstd::prelude::*;

verus! {

/// The identifier of a node.
#[derive(Debug, Clone, Copy, PartialEq, Eq, Structural, Hash)]
pub struct ZenohId(pub u128);

/// The role of a node.
#[derive(Debug, Clone, Copy, PartialEq, Eq, Structural, Hash)]
pub enum WhatAmI {
    Router,
    Peer,
    Client,
}

/// What is known of one transport: the role and the id of the node at its
/// other end, each `None` where reading it failed (the transport closed).
#[derive(Debug, Clone, Copy, PartialEq, Eq, Structural)]
pub struct TransportInfo {
    pub whatami: Option<WhatAmI>,
    pub zid: Option<ZenohId>,
}

/// The ids of the nodes of role `role` among `ts`, in order, leaving out
/// those whose role or id could not be read.
pub open spec fn zids_of(ts: Seq<TransportInfo>, role: WhatAmI) -> Seq<ZenohId>
    decreases ts.len(),
{
    if ts.len() == 0 {
        Seq::empty()
    } else {
        let t = ts.last();
        zids_of(ts.drop_last(), role) + if t.whatami == Some(role) && t.zid is Some {
            seq![t.zid->0]
        } else {
            Seq::empty()
        }
    }
}

/// A snapshot of a session: its id and its transports.
pub struct SessionRef {
    zid: ZenohId,
    transports: Vec<TransportInfo>,
}

impl SessionRef {
    pub closed spec fn spec_zid(&self) -> ZenohId {
        self.zid
    }

    pub closed spec fn spec_transports(&self) -> Seq<TransportInfo> {
        self.transports@
    }

    pub fn new(zid: ZenohId, transports: Vec<TransportInfo>) -> (r: SessionRef)
        ensures
            r.spec_zid() == zid,
            r.spec_transports() == transports@,
    {
        SessionRef { zid, transports }
    }

    fn copy(&self) -> (r: SessionRef)
        ensures
            r.spec_zid() == self.spec_zid(),
            r.spec_transports() == self.spec_transports(),
    {
        let mut ts: Vec<TransportInfo> = Vec::new();
        let mut i: usize = 0;
        while i < self.transports.len()
            invariant
                i <= self.transports@.len(),
                ts@ == self.transports@.take(i as int),
            decreases self.transports.len() - i,
        {
            ts.push(self.transports[i]);
            assert(ts@ =~= self.transports@.take(i + 1));
            i = i + 1;
        }
        assert(self.transports@.take(i as int) =~= self.transports@);
        SessionRef { zid: self.zid, transports: ts }
    }

    fn zids_with_role(&self, role: WhatAmI) -> (r: Vec<ZenohId>)
        ensures
            r@ == zids_of(self.spec_transports(), role),
    {
        let ghost ts = self.transports@;
        let mut out: Vec<ZenohId> = Vec::new();
        let mut i: usize = 0;
        while i < self.transports.len()
            invariant
                ts == self.transports@,
                i <= ts.len(),
                out@ == zids_of(ts.take(i as int), role),
            decreases self.transports.len() - i,
        {
            assert(ts.take(i + 1).drop_last() =~= ts.take(i as int));
            let t = self.transports[i];
            let ghost before = out@;
            match (t.whatami, t.zid) {
                (Some(w), Some(z)) => {
                    if w == role {
                        out.push(z);
                        assert(out@ =~= before + seq![z]);
                    } else {
                        assert(out@ =~= before + Seq::<ZenohId>::empty());
                    }
                },
                _ => {
                    assert(out@ =~= before + Seq::<ZenohId>::empty());
                },
            }
            i = i + 1;
        }
        assert(ts.take(i as int) =~= ts);
        out
    }
}

/// Gives the id of the session.
pub struct ZidBuilder {
    session: SessionRef,
}

/// Gives the ids of the routers the session is connected to.
pub struct RoutersZidBuilder {
    session: SessionRef,
}

/// Gives the ids of the peers the session is connected to.
pub struct PeersZidBuilder {
    session: SessionRef,
}

impl ZidBuilder {
    pub closed spec fn spec_session(&self) -> SessionRef {
        self.session
    }

    pub fn wait(self) -> (r: ZenohId)
        ensures
            r == self.spec_session().spec_zid(),
    {
        self.session.zid
    }
}

impl RoutersZidBuilder {
    pub closed spec fn spec_session(&self) -> SessionRef {
        self.session
    }

    pub fn wait(self) -> (r: Vec<ZenohId>)
        ensures
            r@ == zids_of(self.spec_session().spec_transports(), WhatAmI::Router),
    {
        self.session.zids_with_role(WhatAmI::Router)
    }
}

impl PeersZidBuilder {
    pub closed spec fn spec_session(&self) -> SessionRef {
        self.session
    }

    pub fn wait(self) -> (r: Vec<ZenohId>)
        ensures
            r@ == zids_of(self.spec_session().spec_transports(), WhatAmI::Peer),
    {
        self.session.zids_with_role(WhatAmI::Peer)
    }
}

/// Access to what a session can tell of itself.
pub struct SessionInfo {
    session: SessionRef,
}

impl SessionInfo {
    pub closed spec fn spec_session(&self) -> SessionRef {
        self.session
    }

    pub fn new(session: SessionRef) -> (r: SessionInfo)
        ensures
            r.spec_session() == session,
    {
        SessionInfo { session }
    }

    /// The id of the session.
    pub fn zid(&self) -> (r: ZidBuilder)
        ensures
            r.spec_session().spec_zid() == self.spec_session().spec_zid(),
            r.spec_session().spec_transports() == self.spec_session().spec_transports(),
    {
        ZidBuilder { session: self.session.copy() }
    }

    /// The ids of the routers the session is connected to.
    pub fn routers_zid(&self) -> (r: RoutersZidBuilder)
        ensures
            r.spec_session().spec_zid() == self.spec_session().spec_zid(),
            r.spec_session().spec_transports() == self.spec_session().spec_transports(),
    {
        RoutersZidBuilder { session: self.session.copy() }
    }

    /// The ids of the peers the session is connected to.
    pub fn peers_zid(&self) -> (r: PeersZidBuilder)
        ensures
            r.spec_session().spec_zid() == self.spec_session().spec_zid(),
            r.spec_session().spec_transports() == self.spec_session().spec_transports(),
    {
        PeersZidBuilder { session: self.session.copy() }
    }
}

} // verus!
