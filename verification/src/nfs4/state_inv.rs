//! Every operation keeps the invariant of the state.

use vstd::prelude::*;

use crate::nfs4::state_spec::{
    ClientView, KindView, Minor, OpenView, Other, OwnerReply, OwnerSeq, OwnerSeqid, OwnerView, Res, SlotView, StateRef,
    StateView, other_than, state_ref, without_id,
};
use crate::nfs4::{clientid4, fileid4, nfsstat4, seqid4, sequenceid4, sessionid4, stateid4, verifier4};
use crate::vfs::OpenMode;

verus! {

/// A state that remembers nobody is sound.
pub proof fn empty_is_sound<H>(lease: u64, epoch: u32)
    ensures
        StateView::<H>::empty(lease, epoch).inv(),
{
}

/// Clients can go, with everything they own.
pub proof fn without_clients_is_sound<H>(s: StateView<H>, gone: Set<clientid4>)
    requires
        s.inv(),
    ensures
        s.without_clients(gone).inv(),
{
    let t = s.without_clients(gone);
    assert(t.opens_indexed()) by {
        assert forall|other: Other| #[trigger] t.opens.contains_key(other) implies t.open_indexed(other) by {
            assert(s.opens.contains_key(other));
        }
    }
    assert(t.index_points_to_opens()) by {
        assert forall|key: (clientid4, Seq<u8>, fileid4)| #[trigger] t.open_index.contains_key(key)
            implies t.key_leads_to_open(key) by {
            assert(s.open_index.contains_key(key));
        }
    }
    assert(t.sessions_owned()) by {
        assert forall|id: sessionid4| #[trigger] t.sessions.contains_key(id) implies t.session_owned(id) by {
            assert(s.sessions.contains_key(id));
        }
    }
    assert(t.register_points_to_clients()) by {
        assert forall|owner: (Minor, Seq<u8>)| #[trigger] t.by_owner.contains_key(owner)
            implies t.owner_leads_to_client(owner) by {
            assert(s.by_owner.contains_key(owner));
        }
    }
    assert(t.clients_sound()) by {
        assert forall|cid: clientid4| #[trigger] t.clients.contains_key(cid) implies t.client_sound(cid) by {
            assert(s.clients.contains_key(cid));
            assert(s.client_sound(cid));
        }
    }
    assert(t.tombstones_owned()) by {
        assert forall|other: Other| #[trigger] t.retired.contains_key(other) implies t.tombstone_owned(other) by {
            assert(s.retired.contains_key(other));
        }
    }
    assert(t.tombstones_listed()) by {
        assert forall|cid: clientid4, owner: Seq<u8>|
            t.clients.contains_key(cid) && #[trigger] t.clients[cid].open_owners.contains_key(owner)
                implies t.tombstone_listed(cid, owner) by {
            assert(s.clients[cid].open_owners.contains_key(owner));
        }
    }
}

/// A client's record may change in everything that no other record refers to.
pub proof fn with_client_is_sound<H>(s: StateView<H>, cid: clientid4, c: ClientView)
    requires
        s.inv(),
        s.clients.contains_key(cid),
        c.owner == s.clients[cid].owner,
        c.made == s.clients[cid].made,
        match (s.clients[cid].kind, c.kind) {
            (KindView::V40 { .. }, KindView::V40 { .. }) => true,
            (KindView::V41 { sessions: a, .. }, KindView::V41 { sessions: b, .. }) => a == b && c.open_owners
                == s.clients[cid].open_owners,
            _ => false,
        },
        forall|owner: Seq<u8>| #[trigger]
            c.open_owner(owner).retired == s.clients[cid].open_owner(owner).retired,
    ensures
        s.with_client(cid, c).inv(),
{
    let t = s.with_client(cid, c);
    let c0 = s.clients[cid];
    assert(s.client_sound(cid));
    assert(t.clients_sound()) by {
        assert forall|x: clientid4| #[trigger] t.clients.contains_key(x) implies t.client_sound(x) by {
            assert(s.clients.contains_key(x));
            assert(s.client_sound(x));
        }
    }
    assert(t.opens_indexed()) by {
        assert forall|other: Other| #[trigger] t.opens.contains_key(other) implies t.open_indexed(other) by {
            assert(s.opens.contains_key(other));
        }
    }
    assert(t.sessions_owned()) by {
        assert forall|id: sessionid4| #[trigger] t.sessions.contains_key(id) implies t.session_owned(id) by {
            assert(s.sessions.contains_key(id));
        }
    }
    assert(t.register_points_to_clients()) by {
        assert forall|owner: (Minor, Seq<u8>)| #[trigger] t.by_owner.contains_key(owner)
            implies t.owner_leads_to_client(owner) by {
            assert(s.by_owner.contains_key(owner));
        }
    }
    assert(t.tombstones_owned()) by {
        assert forall|other: Other| #[trigger] t.retired.contains_key(other) implies t.tombstone_owned(other) by {
            assert(s.retired.contains_key(other));
            let (x, owner) = s.retired[other];
            if x == cid {
                assert(c.open_owner(owner).retired == c0.open_owner(owner).retired);
            }
        }
    }
    assert(t.tombstones_listed()) by {
        assert forall|x: clientid4, owner: Seq<u8>|
            t.clients.contains_key(x) && #[trigger] t.clients[x].open_owners.contains_key(owner)
                implies t.tombstone_listed(x, owner) by {
            if x == cid {
                assert(c.open_owner(owner).retired == c0.open_owner(owner).retired);
                if c.open_owners[owner].retired is Some {
                    assert(c0.open_owners.contains_key(owner));
                    assert(s.clients[cid].open_owners.contains_key(owner));
                }
            } else {
                assert(s.clients[x].open_owners.contains_key(owner));
            }
        }
    }
}

pub proof fn renewed_is_sound<H>(s: StateView<H>, cid: clientid4, now: u64)
    requires
        s.inv(),
        s.clients.contains_key(cid),
    ensures
        s.renewed(cid, now).inv(),
{
    with_client_is_sound(s, cid, ClientView { last_renewed: now, ..s.clients[cid] });
}

pub proof fn looked_up_is_sound<H>(s: StateView<H>, cid: clientid4, now: u64)
    requires
        s.inv(),
    ensures
        s.looked_up(cid, now).inv(),
{
    without_clients_is_sound(s, set![cid]);
}

pub proof fn replied_is_sound<H>(s: StateView<H>, cid: clientid4, owner: Seq<u8>, seqid: OwnerSeqid, reply: OwnerReply)
    requires
        s.inv(),
    ensures
        s.replied(cid, owner, seqid, reply).inv(),
{
    let t = s.replied(cid, owner, seqid, reply);
    if s.clients.contains_key(cid) && s.clients[cid].kind.minor() == Minor::V40 {
        if let OwnerSeqid::V40(q) = seqid {
            let c = s.clients[cid];
            let d = c.with_open_owner(owner, OwnerView { last: Some((q, reply)), ..c.open_owner(owner) });
            with_client_is_sound(s, cid, d);
        }
    }
}

pub proof fn owner_confirmed_is_sound<H>(s: StateView<H>, cid: clientid4, owner: Seq<u8>)
    requires
        s.inv(),
        s.clients.contains_key(cid),
        s.clients[cid].kind.minor() == Minor::V40,
    ensures
        s.owner_confirmed(cid, owner).inv(),
{
    let c = s.clients[cid];
    with_client_is_sound(s, cid, c.with_open_owner(owner, OwnerView { confirmed: true, ..c.open_owner(owner) }));
}

/// A client of a fresh id can be installed.
pub proof fn installed_is_sound<H>(
    s: StateView<H>,
    owner: (Minor, Seq<u8>),
    verifier: verifier4,
    kind: KindView,
    now: u64,
    cid: clientid4,
)
    requires
        s.inv(),
        s.fresh_clientid(cid),
        owner.0 == kind.minor(),
        kind matches KindView::V41 { sessions, .. } ==> sessions.len() == 0,
    ensures
        s.installed(owner, verifier, kind, now, cid).inv(),
{
    let a = s.without_owner(owner);
    if s.by_owner.contains_key(owner) {
        without_clients_is_sound(s, set![s.by_owner[owner]]);
    }
    assert(a.inv());
    assert(!a.clients.contains_key(cid));
    assert(!a.by_owner.contains_key(owner));
    let t = s.installed(owner, verifier, kind, now, cid);
    assert(t.clients_sound()) by {
        assert forall|x: clientid4| #[trigger] t.clients.contains_key(x) implies t.client_sound(x) by {
            if x != cid {
                assert(a.clients.contains_key(x));
                assert(a.client_sound(x));
            }
        }
    }
    assert(t.opens_indexed()) by {
        assert forall|other: Other| #[trigger] t.opens.contains_key(other) implies t.open_indexed(other) by {
            assert(a.opens.contains_key(other));
        }
    }
    assert(t.sessions_owned()) by {
        assert forall|id: sessionid4| #[trigger] t.sessions.contains_key(id) implies t.session_owned(id) by {
            assert(a.sessions.contains_key(id));
        }
    }
    assert(t.tombstones_owned()) by {
        assert forall|other: Other| #[trigger] t.retired.contains_key(other) implies t.tombstone_owned(other) by {
            assert(a.retired.contains_key(other));
        }
    }
    assert(t.tombstones_listed()) by {
        assert forall|x: clientid4, o: Seq<u8>|
            t.clients.contains_key(x) && #[trigger] t.clients[x].open_owners.contains_key(o)
                implies t.tombstone_listed(x, o) by {
            assert(x != cid);
            assert(a.clients[x].open_owners.contains_key(o));
        }
    }
}

/// An open-owner can be forgotten, with its tombstone.
pub proof fn without_open_owner_is_sound<H>(s: StateView<H>, cid: clientid4, owner: Seq<u8>)
    requires
        s.inv(),
        s.clients.contains_key(cid),
        s.clients[cid].kind.minor() == Minor::V40,
    ensures
        s.without_open_owner(cid, owner).inv(),
{
    let t = s.without_open_owner(cid, owner);
    let c = s.clients[cid];
    assert(s.client_sound(cid));
    assert(t.clients_sound()) by {
        assert forall|x: clientid4| #[trigger] t.clients.contains_key(x) implies t.client_sound(x) by {
            assert(s.clients.contains_key(x));
            assert(s.client_sound(x));
        }
    }
    assert(t.opens_indexed()) by {
        assert forall|other: Other| #[trigger] t.opens.contains_key(other) implies t.open_indexed(other) by {
            assert(s.opens.contains_key(other));
        }
    }
    assert(t.sessions_owned()) by {
        assert forall|id: sessionid4| #[trigger] t.sessions.contains_key(id) implies t.session_owned(id) by {
            assert(s.sessions.contains_key(id));
        }
    }
    assert(t.register_points_to_clients()) by {
        assert forall|o: (Minor, Seq<u8>)| #[trigger] t.by_owner.contains_key(o) implies t.owner_leads_to_client(o) by {
            assert(s.by_owner.contains_key(o));
        }
    }
    assert(t.tombstones_owned()) by {
        assert forall|other: Other| #[trigger] t.retired.contains_key(other) implies t.tombstone_owned(other) by {
            assert(s.retired.contains_key(other));
            let (x, o) = s.retired[other];
            if x == cid && o == owner {
                assert(c.open_owner(owner).retired == Some(other));
            }
        }
    }
    assert(t.tombstones_listed()) by {
        assert forall|x: clientid4, o: Seq<u8>|
            t.clients.contains_key(x) && #[trigger] t.clients[x].open_owners.contains_key(o)
                implies t.tombstone_listed(x, o) by {
            assert(s.clients[x].open_owners.contains_key(o));
            if let Some(other) = s.clients[x].open_owners[o].retired {
                if c.open_owner(owner).retired == Some(other) {
                    assert(s.clients[cid].open_owners.contains_key(owner));
                }
            }
        }
    }
}

pub proof fn owner_checked_is_sound<H>(s: StateView<H>, cid: clientid4, owner: Seq<u8>, seqid: OwnerSeqid)
    requires
        s.inv(),
    ensures
        s.owner_checked(cid, owner, seqid).inv(),
{
    if s.owner_check(cid, owner, seqid) == Err::<OwnerSeq, nfsstat4>(nfsstat4::NFS4ERR_BAD_SEQID) {
        without_open_owner_is_sound(s, cid, owner);
    }
}

/// An open state may change in everything but whose it is and of which file.
pub proof fn with_open_is_sound<H>(s: StateView<H>, other: Other, o: OpenView<H>)
    requires
        s.inv(),
        s.opens.contains_key(other),
        o.clientid == s.opens[other].clientid,
        o.owner == s.opens[other].owner,
        o.fileid == s.opens[other].fileid,
        o.seqid != 0,
    ensures
        (StateView { opens: s.opens.insert(other, o), ..s }).inv(),
{
    let t = StateView { opens: s.opens.insert(other, o), ..s };
    assert(t.opens_indexed()) by {
        assert forall|x: Other| #[trigger] t.opens.contains_key(x) implies t.open_indexed(x) by {
            assert(s.opens.contains_key(x));
        }
    }
    assert(t.index_points_to_opens()) by {
        assert forall|key: (clientid4, Seq<u8>, fileid4)| #[trigger] t.open_index.contains_key(key)
            implies t.key_leads_to_open(key) by {
            assert(s.open_index.contains_key(key));
        }
    }
    assert(t.clients_sound()) by {
        assert forall|x: clientid4| #[trigger] t.clients.contains_key(x) implies t.client_sound(x) by {
            assert(s.clients.contains_key(x));
            assert(s.client_sound(x));
        }
    }
    assert(t.tombstones_owned()) by {
        assert forall|x: Other| #[trigger] t.retired.contains_key(x) implies t.tombstone_owned(x) by {
            assert(s.retired.contains_key(x));
        }
    }
}

pub proof fn bumped_open_is_sound<H>(s: StateView<H>, other: Other)
    requires
        s.inv(),
        s.opens.contains_key(other),
    ensures
        s.bumped_open(other).inv(),
{
    let o = s.opens[other];
    with_open_is_sound(s, other, OpenView { seqid: crate::nfs4::state_spec::bumped(o.seqid), ..o });
}

pub proof fn upgraded_is_sound<H>(s: StateView<H>, other: Other, mode: OpenMode, fh: H)
    requires
        s.inv(),
        s.opens.contains_key(other),
    ensures
        s.upgraded(other, mode, fh).inv(),
        s.upgraded(other, mode, fh).opens.contains_key(other),
{
    let o = s.opens[other];
    assert(o.seqid != 0);
    if o.mode.serves(mode) {
        with_open_is_sound(s, other, o);
    } else {
        with_open_is_sound(s, other, OpenView { mode, fh, ..o });
    }
}

/// A file that an open-owner has not open can be opened under a fresh `other`.
pub proof fn opened_is_sound<H>(
    s: StateView<H>,
    cid: clientid4,
    owner: Seq<u8>,
    fileid: fileid4,
    mode: OpenMode,
    fh: H,
    other: Other,
)
    requires
        s.inv(),
        s.clients.contains_key(cid),
        !s.open_index.contains_key((cid, owner, fileid)),
        s.fresh_other(other),
    ensures
        s.opened(cid, owner, fileid, mode, fh, other).inv(),
{
    let t = s.opened(cid, owner, fileid, mode, fh, other);
    assert(t.opens_indexed()) by {
        assert forall|x: Other| #[trigger] t.opens.contains_key(x) implies t.open_indexed(x) by {
            if x != other {
                assert(s.opens.contains_key(x));
            }
        }
    }
    assert(t.index_points_to_opens()) by {
        assert forall|key: (clientid4, Seq<u8>, fileid4)| #[trigger] t.open_index.contains_key(key)
            implies t.key_leads_to_open(key) by {
            if key != (cid, owner, fileid) {
                assert(s.open_index.contains_key(key));
            }
        }
    }
    assert(t.clients_sound()) by {
        assert forall|x: clientid4| #[trigger] t.clients.contains_key(x) implies t.client_sound(x) by {
            assert(s.clients.contains_key(x));
            assert(s.client_sound(x));
        }
    }
    assert(t.tombstones_owned()) by {
        assert forall|x: Other| #[trigger] t.retired.contains_key(x) implies t.tombstone_owned(x) by {
            assert(s.retired.contains_key(x));
        }
    }
}

pub proof fn without_open_is_sound<H>(s: StateView<H>, other: Other)
    requires
        s.inv(),
        s.opens.contains_key(other),
    ensures
        s.without_open(other).inv(),
{
    let t = s.without_open(other);
    assert(t.opens_indexed()) by {
        assert forall|x: Other| #[trigger] t.opens.contains_key(x) implies t.open_indexed(x) by {
            assert(s.opens.contains_key(x));
            assert(s.opens.contains_key(other));
        }
    }
    assert(t.index_points_to_opens()) by {
        assert forall|key: (clientid4, Seq<u8>, fileid4)| #[trigger] t.open_index.contains_key(key)
            implies t.key_leads_to_open(key) by {
            assert(s.open_index.contains_key(key));
        }
    }
    assert(t.clients_sound()) by {
        assert forall|x: clientid4| #[trigger] t.clients.contains_key(x) implies t.client_sound(x) by {
            assert(s.clients.contains_key(x));
            assert(s.client_sound(x));
        }
    }
    assert(t.tombstones_owned()) by {
        assert forall|x: Other| #[trigger] t.retired.contains_key(x) implies t.tombstone_owned(x) by {
            assert(s.retired.contains_key(x));
        }
    }
}

pub proof fn retired_open_is_sound<H>(s: StateView<H>, cid: clientid4, owner: Seq<u8>, other: Other)
    requires
        s.inv(),
        s.fresh_other(other),
    ensures
        s.retired_open(cid, owner, other).inv(),
{
    if s.clients.contains_key(cid) && s.clients[cid].kind.minor() == Minor::V40 {
        let t = s.retired_open(cid, owner, other);
        let c = s.clients[cid];
        let r = c.open_owner(owner);
        assert(s.client_sound(cid));
        assert(t.clients_sound()) by {
            assert forall|x: clientid4| #[trigger] t.clients.contains_key(x) implies t.client_sound(x) by {
                assert(s.clients.contains_key(x));
                assert(s.client_sound(x));
            }
        }
        assert(t.opens_indexed()) by {
            assert forall|x: Other| #[trigger] t.opens.contains_key(x) implies t.open_indexed(x) by {
                assert(s.opens.contains_key(x));
            }
        }
        assert(t.sessions_owned()) by {
            assert forall|id: sessionid4| #[trigger] t.sessions.contains_key(id) implies t.session_owned(id) by {
                assert(s.sessions.contains_key(id));
            }
        }
        assert(t.register_points_to_clients()) by {
            assert forall|o: (Minor, Seq<u8>)| #[trigger] t.by_owner.contains_key(o)
                implies t.owner_leads_to_client(o) by {
                assert(s.by_owner.contains_key(o));
            }
        }
        assert(t.tombstones_owned()) by {
            assert forall|y: Other| #[trigger] t.retired.contains_key(y) implies t.tombstone_owned(y) by {
                if y != other {
                    assert(s.retired.contains_key(y));
                    let (x, o) = s.retired[y];
                    if x == cid && o == owner {
                        assert(r.retired == Some(y));
                    }
                }
            }
        }
        assert(t.tombstones_listed()) by {
            assert forall|x: clientid4, o: Seq<u8>|
                t.clients.contains_key(x) && #[trigger] t.clients[x].open_owners.contains_key(o)
                    implies t.tombstone_listed(x, o) by {
                if x == cid && o == owner {
                } else {
                    assert(s.clients[x].open_owners.contains_key(o));
                    if let Some(previous) = r.retired {
                        assert(s.clients[cid].open_owners.contains_key(owner));
                    }
                }
            }
        }
    }
}

/// A session under a fresh id can be made for a 4.1 client.
pub proof fn session_made_is_sound<H>(s: StateView<H>, cid: clientid4, slots: u32, max_cached: u32, id: sessionid4)
    requires
        s.inv(),
        s.clients.contains_key(cid),
        s.clients[cid].kind.minor() == Minor::V41,
        s.fresh_sessionid(id),
    ensures
        s.session_made(cid, slots, max_cached, id).inv(),
{
    let t = s.session_made(cid, slots, max_cached, id);
    assert(s.client_sound(cid));
    let ids = match s.clients[cid].kind {
        KindView::V41 { sessions, .. } => sessions,
        KindView::V40 { .. } => Seq::empty(),
    };
    assert(t.clients_sound()) by {
        assert forall|x: clientid4| #[trigger] t.clients.contains_key(x) implies t.client_sound(x) by {
            assert(s.clients.contains_key(x));
            assert(s.client_sound(x));
            if x == cid {
                let ids2 = ids.push(id);
                assert(ids2[ids.len() as int] == id);
                assert(ids2.no_duplicates()) by {
                    assert forall|i: int, j: int| 0 <= i < ids2.len() && 0 <= j < ids2.len() && i != j implies ids2[i]
                        != ids2[j] by {
                        if i < ids.len() {
                            assert(s.sessions.contains_key(ids[i]));
                        }
                        if j < ids.len() {
                            assert(s.sessions.contains_key(ids[j]));
                        }
                    }
                }
            }
        }
    }
    assert(t.opens_indexed()) by {
        assert forall|x: Other| #[trigger] t.opens.contains_key(x) implies t.open_indexed(x) by {
            assert(s.opens.contains_key(x));
        }
    }
    assert(t.sessions_owned()) by {
        assert forall|i: sessionid4| #[trigger] t.sessions.contains_key(i) implies t.session_owned(i) by {
            let ids2 = ids.push(id);
            assert(ids2[ids.len() as int] == id);
            if i != id {
                assert(s.sessions.contains_key(i));
                if s.sessions[i].clientid == cid {
                    let k = choose|k: int| 0 <= k < ids.len() && ids[k] == i;
                    assert(ids2[k] == i);
                }
            }
        }
    }
    assert(t.register_points_to_clients()) by {
        assert forall|o: (Minor, Seq<u8>)| #[trigger] t.by_owner.contains_key(o) implies t.owner_leads_to_client(o) by {
            assert(s.by_owner.contains_key(o));
        }
    }
    assert(t.tombstones_owned()) by {
        assert forall|other: Other| #[trigger] t.retired.contains_key(other) implies t.tombstone_owned(other) by {
            assert(s.retired.contains_key(other));
        }
    }
    assert(t.tombstones_listed()) by {
        assert forall|x: clientid4, o: Seq<u8>|
            t.clients.contains_key(x) && #[trigger] t.clients[x].open_owners.contains_key(o)
                implies t.tombstone_listed(x, o) by {
            assert(s.clients[x].open_owners.contains_key(o));
        }
    }
}

pub proof fn with_slot_is_sound<H>(s: StateView<H>, id: sessionid4, slot: int, v: SlotView)
    requires
        s.inv(),
        s.sessions.contains_key(id),
        0 <= slot < s.sessions[id].slots.len(),
    ensures
        s.with_slot(id, slot, v).inv(),
{
    let t = s.with_slot(id, slot, v);
    assert(t.sessions_owned()) by {
        assert forall|i: sessionid4| #[trigger] t.sessions.contains_key(i) implies t.session_owned(i) by {
            assert(s.sessions.contains_key(i));
        }
    }
    assert(t.clients_sound()) by {
        assert forall|x: clientid4| #[trigger] t.clients.contains_key(x) implies t.client_sound(x) by {
            assert(s.clients.contains_key(x));
            assert(s.client_sound(x));
        }
    }
}

/// Filtering leaves the elements that pass, and repeats none that was not
/// repeated before.
pub proof fn filter_keeps_order<A>(s: Seq<A>, p: spec_fn(A) -> bool)
    ensures
        forall|a: A| #[trigger] s.filter(p).contains(a) <==> s.contains(a) && p(a),
        forall|i: int| 0 <= i < s.filter(p).len() ==> s.contains(#[trigger] s.filter(p)[i]) && p(s.filter(p)[i]),
        s.no_duplicates() ==> s.filter(p).no_duplicates(),
    decreases s.len(),
{
    reveal(Seq::filter);
    let f = s.filter(p);
    if s.len() > 0 {
        let front = s.drop_last();
        let g = front.filter(p);
        filter_keeps_order(front, p);
        assert forall|a: A| #[trigger] f.contains(a) <==> s.contains(a) && p(a) by {
            if f.contains(a) {
                let i = choose|i: int| 0 <= i < f.len() && f[i] == a;
                if i < g.len() {
                    assert(g.contains(a));
                    let j = choose|j: int| 0 <= j < front.len() && front[j] == a;
                    assert(s[j] == a);
                } else {
                    assert(s[s.len() - 1] == a);
                }
            }
            if s.contains(a) && p(a) {
                let j = choose|j: int| 0 <= j < s.len() && s[j] == a;
                if j < front.len() {
                    assert(front[j] == a);
                    assert(g.contains(a));
                    let i = choose|i: int| 0 <= i < g.len() && g[i] == a;
                    assert(f[i] == a);
                } else {
                    assert(f[f.len() - 1] == a);
                }
            }
        }
        assert forall|i: int| 0 <= i < f.len() implies s.contains(#[trigger] f[i]) && p(f[i]) by {
            assert(f.contains(f[i]));
        }
        if s.no_duplicates() {
            assert forall|i: int, j: int| 0 <= i < f.len() && 0 <= j < f.len() && i != j implies f[i] != f[j] by {
                if i < g.len() {
                    assert(g.contains(g[i]));
                    let k = choose|k: int| 0 <= k < front.len() && front[k] == g[i];
                    assert(s[k] == g[i]);
                }
                if j < g.len() {
                    assert(g.contains(g[j]));
                    let k = choose|k: int| 0 <= k < front.len() && front[k] == g[j];
                    assert(s[k] == g[j]);
                }
            }
        }
    }
}

pub proof fn destroy_session_is_sound<H>(s: StateView<H>, id: sessionid4)
    requires
        s.inv(),
    ensures
        s.destroy_session(id).0.inv(),
{
    if s.sessions.contains_key(id) {
        let t = s.destroy_session(id).0;
        let cid = s.sessions[id].clientid;
        assert(s.client_sound(cid));
        let ids = match s.clients[cid].kind {
            KindView::V41 { sessions, .. } => sessions,
            KindView::V40 { .. } => Seq::empty(),
        };
        let left = without_id(ids, id);
        filter_keeps_order(ids, other_than(id));
        assert(forall|i: sessionid4| left.contains(i) <==> ids.contains(i) && i != id);
        assert forall|i: int| 0 <= i < left.len() implies ids.contains(#[trigger] left[i]) && left[i] != id by {
            assert(left.contains(left[i]));
        }
        assert(t.clients_sound()) by {
            assert forall|x: clientid4| #[trigger] t.clients.contains_key(x) implies t.client_sound(x) by {
                assert(s.clients.contains_key(x));
                assert(s.client_sound(x));
            }
        }
        assert(t.opens_indexed()) by {
            assert forall|x: Other| #[trigger] t.opens.contains_key(x) implies t.open_indexed(x) by {
                assert(s.opens.contains_key(x));
            }
        }
        assert(t.sessions_owned()) by {
            assert forall|i: sessionid4| #[trigger] t.sessions.contains_key(i) implies t.session_owned(i) by {
                assert(s.sessions.contains_key(i));
            }
        }
    }
}

// ---------------------------------------------------------------- operations

pub proof fn swept_is_sound<H>(s: StateView<H>, now: u64)
    requires
        s.inv(),
    ensures
        s.swept(now).inv(),
{
    without_clients_is_sound(s, s.lapsed(now));
}

pub proof fn renew_is_sound<H>(s: StateView<H>, cid: clientid4, now: u64)
    requires
        s.inv(),
    ensures
        s.renew(cid, now).0.inv(),
{
    looked_up_is_sound(s, cid, now);
    if s.clients.contains_key(cid) {
        renewed_is_sound(s, cid, now);
    }
}

pub proof fn reclaim_complete_is_sound<H>(s: StateView<H>, id: sessionid4, now: u64)
    requires
        s.inv(),
    ensures
        s.reclaim_complete(id, now).0.inv(),
{
    if let Ok(cid) = s.session_client(id) {
        renew_is_sound(s, cid, now);
    }
}

pub proof fn owner_rejection_is_sound<H>(
    s: StateView<H>,
    cid: clientid4,
    owner: Seq<u8>,
    seqid: OwnerSeqid,
    status: nfsstat4,
    now: u64,
)
    requires
        s.inv(),
    ensures
        s.owner_rejection(cid, owner, seqid, status, now).0.inv(),
{
    looked_up_is_sound(s, cid, now);
    replied_is_sound(s, cid, owner, seqid, Err(status));
    owner_checked_is_sound(s, cid, owner, seqid);
}

pub proof fn open_finished_is_sound<H>(
    s: StateView<H>,
    cid: clientid4,
    owner: Seq<u8>,
    seqid: OwnerSeqid,
    stateid: stateid4,
)
    requires
        s.inv(),
    ensures
        s.open_finished(cid, owner, seqid, stateid).0.inv(),
{
    replied_is_sound(s, cid, owner, seqid, Ok(stateid));
}

pub proof fn open_planned_is_sound<H>(
    s: StateView<H>,
    cid: clientid4,
    owner: Seq<u8>,
    seqid: OwnerSeqid,
    fileid: fileid4,
    mode: OpenMode,
)
    requires
        s.inv(),
    ensures
        s.open_planned(cid, owner, seqid, fileid, mode).0.inv(),
{
    owner_checked_is_sound(s, cid, owner, seqid);
    let key = (cid, owner, fileid);
    if s.open_index.contains_key(key) {
        let other = s.open_index[key];
        bumped_open_is_sound(s, other);
        let t = s.bumped_open(other);
        open_finished_is_sound(t, cid, owner, seqid, t.current_stateid(other));
    }
}

pub proof fn open_plan_is_sound<H>(
    s: StateView<H>,
    cid: clientid4,
    owner: Seq<u8>,
    seqid: OwnerSeqid,
    fileid: fileid4,
    mode: OpenMode,
    now: u64,
)
    requires
        s.inv(),
    ensures
        s.open_plan(cid, owner, seqid, fileid, mode, now).0.inv(),
{
    looked_up_is_sound(s, cid, now);
    if s.clients.contains_key(cid) {
        renewed_is_sound(s, cid, now);
        open_planned_is_sound(s.renewed(cid, now), cid, owner, seqid, fileid, mode);
    }
}

pub proof fn open_commit_is_sound<H>(
    s: StateView<H>,
    cid: clientid4,
    owner: Seq<u8>,
    seqid: OwnerSeqid,
    fileid: fileid4,
    mode: OpenMode,
    fh: H,
    now: u64,
    drawn: Res<Other>,
)
    requires
        s.inv(),
        drawn matches Ok(other) ==> s.fresh_other(other),
    ensures
        s.open_commit(cid, owner, seqid, fileid, mode, fh, now, drawn).0.inv(),
{
    looked_up_is_sound(s, cid, now);
    let key = (cid, owner, fileid);
    if s.open_index.contains_key(key) {
        let other = s.open_index[key];
        upgraded_is_sound(s, other, mode, fh);
        let a = s.upgraded(other, mode, fh);
        bumped_open_is_sound(a, other);
        let b = a.bumped_open(other);
        open_finished_is_sound(b, cid, owner, seqid, b.current_stateid(other));
    } else if s.client_status(cid, now) is Ok {
        if let Ok(other) = drawn {
            opened_is_sound(s, cid, owner, fileid, mode, fh, other);
            let a = s.opened(cid, owner, fileid, mode, fh, other);
            open_finished_is_sound(a, cid, owner, seqid, a.current_stateid(other));
        }
    }
}

pub proof fn open_finish_is_sound<H>(
    s: StateView<H>,
    cid: clientid4,
    owner: Seq<u8>,
    seqid: OwnerSeqid,
    fileid: fileid4,
    mode: OpenMode,
    handle: Res<H>,
    now: u64,
    drawn: Res<Other>,
)
    requires
        s.inv(),
        drawn matches Ok(other) ==> s.fresh_other(other),
    ensures
        s.open_finish(cid, owner, seqid, fileid, mode, handle, now, drawn).0.inv(),
{
    match handle {
        Err(e) => {
            replied_is_sound(s, cid, owner, seqid, Err(e));
        },
        Ok(fh) => {
            open_commit_is_sound(s, cid, owner, seqid, fileid, mode, fh, now, drawn);
            let (t, r) = s.open_commit(cid, owner, seqid, fileid, mode, fh, now, drawn);
            if let Err(e) = r {
                replied_is_sound(t, cid, owner, seqid, Err(e));
            }
        },
    }
}

pub proof fn open_confirm_is_sound<H>(s: StateView<H>, sid: stateid4, seqid: seqid4, now: u64)
    requires
        s.inv(),
    ensures
        s.open_confirm(sid, seqid, now).0.inv(),
{
    if let StateRef::Open { other, seqid: version } = state_ref(sid) {
        if s.opens.contains_key(other) {
            let cid = s.opens[other].clientid;
            let owner = s.opens[other].owner;
            looked_up_is_sound(s, cid, now);
            renewed_is_sound(s, cid, now);
            let a = s.renewed(cid, now);
            let q = OwnerSeqid::V40(seqid);
            owner_checked_is_sound(a, cid, owner, q);
            bumped_open_is_sound(a, other);
            let b = a.bumped_open(other);
            if s.clients[cid].kind.minor() == Minor::V40 {
                owner_confirmed_is_sound(b, cid, owner);
                let (t, reply) = a.confirmed_fresh(other, version);
                replied_is_sound(t, cid, owner, q, reply);
            }
        }
    }
}

pub proof fn close_is_sound<H>(s: StateView<H>, sid: stateid4, seqid: OwnerSeqid, now: u64)
    requires
        s.inv(),
    ensures
        s.close(sid, seqid, now).0.inv(),
{
    if let StateRef::Open { other, seqid: version } = state_ref(sid) {
        if let Some((cid, owner)) = s.holder(other) {
            looked_up_is_sound(s, cid, now);
            renewed_is_sound(s, cid, now);
            let a = s.renewed(cid, now);
            owner_checked_is_sound(a, cid, owner, seqid);
            if a.opens.contains_key(other) {
                without_open_is_sound(a, other);
                retired_open_is_sound(a.without_open(other), cid, owner, other);
            }
            let (t, reply) = a.closed_fresh(cid, owner, other, version);
            replied_is_sound(t, cid, owner, seqid, reply);
        }
    }
}

pub proof fn exchange_id_is_sound<H>(
    s: StateView<H>,
    ownerid: Seq<u8>,
    verifier: verifier4,
    now: u64,
    drawn: Res<clientid4>,
)
    requires
        s.inv(),
        drawn matches Ok(cid) ==> s.fresh_clientid(cid),
    ensures
        s.exchange_id(ownerid, verifier, now, drawn).0.inv(),
{
    if let Ok(cid) = drawn {
        let kind = KindView::V41 { create_session_seq: 1, sessions: Seq::empty() };
        installed_is_sound(s, (Minor::V41, ownerid), verifier, kind, now, cid);
    }
}

pub proof fn create_session_is_sound<H>(
    s: StateView<H>,
    cid: clientid4,
    sequence: sequenceid4,
    slots: u32,
    max_cached: u32,
    now: u64,
    drawn: Res<sessionid4>,
)
    requires
        s.inv(),
        drawn matches Ok(id) ==> s.fresh_sessionid(id),
    ensures
        s.create_session(cid, sequence, slots, max_cached, now, drawn).0.inv(),
{
    looked_up_is_sound(s, cid, now);
    if s.clients.contains_key(cid) {
        renewed_is_sound(s, cid, now);
        if s.clients[cid].kind.minor() == Minor::V41 {
            if let Ok(id) = drawn {
                session_made_is_sound(s.renewed(cid, now), cid, slots, max_cached, id);
            }
        }
    }
}

pub proof fn sequence_is_sound<H>(s: StateView<H>, id: sessionid4, slot: u32, seqid: sequenceid4, now: u64)
    requires
        s.inv(),
    ensures
        s.sequence(id, slot, seqid, now).0.inv(),
{
    if s.sessions.contains_key(id) {
        let cid = s.sessions[id].clientid;
        looked_up_is_sound(s, cid, now);
        renewed_is_sound(s, cid, now);
        if slot < s.sessions[id].slots.len() {
            let v = SlotView { last_seqid: seqid, cached: None };
            with_slot_is_sound(s, id, slot as int, v);
            renewed_is_sound(s.with_slot(id, slot as int, v), cid, now);
        }
    }
}

pub proof fn reply_cached_is_sound<H>(s: StateView<H>, id: sessionid4, slot: u32, seqid: sequenceid4, reply: Seq<u8>)
    requires
        s.inv(),
    ensures
        s.reply_cached(id, slot, seqid, reply).inv(),
{
    if s.sessions.contains_key(id) && slot < s.sessions[id].slots.len() {
        with_slot_is_sound(s, id, slot as int, SlotView { last_seqid: seqid, cached: Some(reply) });
    }
}

pub proof fn destroy_clientid_is_sound<H>(s: StateView<H>, cid: clientid4)
    requires
        s.inv(),
    ensures
        s.destroy_clientid(cid).0.inv(),
{
    without_clients_is_sound(s, set![cid]);
}

pub proof fn setclientid_is_sound<H>(
    s: StateView<H>,
    ownerid: Seq<u8>,
    verifier: verifier4,
    now: u64,
    cid: clientid4,
    confirm: verifier4,
)
    requires
        s.inv(),
        s.fresh_clientid(cid),
    ensures
        s.setclientid(ownerid, verifier, now, cid, confirm).inv(),
{
    let kind = KindView::V40 { confirm_verifier: confirm, confirmed: false };
    installed_is_sound(s, (Minor::V40, ownerid), verifier, kind, now, cid);
}

pub proof fn setclientid_confirm_is_sound<H>(s: StateView<H>, cid: clientid4, confirm: verifier4, now: u64)
    requires
        s.inv(),
    ensures
        s.setclientid_confirm(cid, confirm, now).0.inv(),
{
    looked_up_is_sound(s, cid, now);
    if s.clients.contains_key(cid) {
        if let KindView::V40 { confirm_verifier, .. } = s.clients[cid].kind {
            let c = ClientView {
                kind: KindView::V40 { confirm_verifier, confirmed: true },
                last_renewed: now,
                ..s.clients[cid]
            };
            with_client_is_sound(s, cid, c);
        }
    }
}

} // verus!
