use zenoh_ext::info::{SessionInfo, SessionRef, TransportInfo, WhatAmI, ZenohId};

fn t(w: Option<WhatAmI>, z: Option<u128>) -> TransportInfo {
    TransportInfo { whatami: w, zid: z.map(ZenohId) }
}

fn info() -> SessionInfo {
    SessionInfo::new(SessionRef::new(
        ZenohId(1),
        vec![
            t(Some(WhatAmI::Router), Some(10)),
            t(Some(WhatAmI::Peer), Some(20)),
            t(Some(WhatAmI::Router), None),
            t(None, Some(30)),
            t(Some(WhatAmI::Client), Some(40)),
            t(Some(WhatAmI::Router), Some(50)),
            t(Some(WhatAmI::Peer), Some(60)),
        ],
    ))
}

#[test]
fn zid_is_the_session_id() {
    assert_eq!(info().zid().wait(), ZenohId(1));
}

#[test]
fn routers_zid_lists_routers_in_order() {
    assert_eq!(info().routers_zid().wait(), vec![ZenohId(10), ZenohId(50)]);
}

#[test]
fn peers_zid_lists_peers_in_order() {
    assert_eq!(info().peers_zid().wait(), vec![ZenohId(20), ZenohId(60)]);
}

#[test]
fn no_transports_no_ids() {
    let i = SessionInfo::new(SessionRef::new(ZenohId(7), Vec::new()));
    assert!(i.routers_zid().wait().is_empty());
    assert!(i.peers_zid().wait().is_empty());
}
