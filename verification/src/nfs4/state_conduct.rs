//! What each request makes of the server's state: which record it changes, to what, and
//! what it leaves alone.

use vstd::prelude::*;

use crate::nfs4::state_spec::{
    bumped, retains_seqid, seqid_status, state_ref, ClientView, CreateSession, KindView, Minor, OpenPlan, OpenView,
    Opened, Other, OwnerReply, OwnerSeq, OwnerSeqid, OwnerView, Res, ResolvedView, SequenceView, SessionView, SlotView,
    StateRef, StateView,
};
use crate::nfs4::{clientid4, fileid4, nfsstat4, seqid4, sequenceid4, sessionid4, stateid4, verifier4};
use crate::vfs::OpenMode;

verus! {

/// The same but for one client's record, which is this one now.
pub open spec fn but_for_client<H>(s: StateView<H>, t: StateView<H>, cid: clientid4, c: ClientView) -> bool {
    &&& t.clients.contains_key(cid)
    &&& t.clients[cid] == c
    &&& forall|k: clientid4| k != cid ==> #[trigger] t.clients.contains_key(k) == s.clients.contains_key(k)
    &&& forall|k: clientid4| k != cid && s.clients.contains_key(k) ==> #[trigger] t.clients[k] == s.clients[k]
}

/// Nothing but clients is touched.
pub open spec fn only_clients<H>(s: StateView<H>, t: StateView<H>) -> bool {
    &&& t.lease == s.lease
    &&& t.epoch == s.epoch
    &&& t.by_owner == s.by_owner
    &&& t.sessions == s.sessions
    &&& t.opens == s.opens
    &&& t.open_index == s.open_index
    &&& t.retired == s.retired
}

/// The client was heard of at this time, and nothing else changed.
pub open spec fn heard_of<H>(s: StateView<H>, t: StateView<H>, cid: clientid4, now: u64) -> bool {
    &&& but_for_client(s, t, cid, ClientView { last_renewed: now, ..s.clients[cid] })
    &&& only_clients(s, t)
}

/// The successor of a 32-bit counter, which starts over at 0.
pub open spec fn follows(next: u32, last: u32) -> bool {
    next == (last + 1) % 0x1_0000_0000
}

// ---------------------------------------------------------------- leases

/// A client is live if it is known and was heard of less than a lease ago. An unknown one
/// is stale, and one whose lease has lapsed has expired.
pub proof fn a_client_lives_for_its_lease<H>(s: StateView<H>, cid: clientid4, now: u64)
    ensures
        s.client_status(cid, now) == (if !s.clients.contains_key(cid) {
            Err::<(), nfsstat4>(nfsstat4::NFS4ERR_STALE_CLIENTID)
        } else if s.lease > 0 && now < s.clients[cid].last_renewed + s.lease {
            Ok(())
        } else {
            Err(nfsstat4::NFS4ERR_EXPIRED)
        }),
{
}

/// Every SEQUENCE that a slot accepts as new renews its client's lease: from then on the
/// client lives for exactly the length of its lease.
pub proof fn a_new_request_renews_the_lease<H>(
    s: StateView<H>,
    id: sessionid4,
    slot: u32,
    seqid: sequenceid4,
    now: u64,
    later: u64,
)
    requires
        s.sequence(id, slot, seqid, now).1 == Ok::<SequenceView, nfsstat4>(SequenceView::New),
        now <= later,
    ensures
        s.sequence(id, slot, seqid, now).0.client_status(s.sessions[id].clientid, later) is Ok <==> later - now
            < s.lease,
{
}

/// So does the retransmit of a request, whether or not its reply is cached.
pub proof fn a_retransmit_renews_the_lease<H>(
    s: StateView<H>,
    id: sessionid4,
    slot: u32,
    seqid: sequenceid4,
    now: u64,
    later: u64,
)
    requires
        s.sequence(id, slot, seqid, now).1 is Ok,
        now <= later,
    ensures
        s.sequence(id, slot, seqid, now).0.client_status(s.sessions[id].clientid, later) is Ok <==> later - now
            < s.lease,
        s.sequence(id, slot, seqid, now).0.clients[s.sessions[id].clientid].last_renewed == now,
{
}

/// A request that is refused renews nothing: the client lives as long as it would have.
pub proof fn a_refused_request_renews_nothing<H>(
    s: StateView<H>,
    id: sessionid4,
    slot: u32,
    seqid: sequenceid4,
    now: u64,
)
    requires
        s.sequence(id, slot, seqid, now).1 is Err,
        s.client_status(s.sessions[id].clientid, now) is Ok,
    ensures
        s.sequence(id, slot, seqid, now).0 == s,
{
}

/// RENEW of a live client renews its lease and touches nothing else. RENEW of an unknown
/// one touches nothing at all.
pub proof fn renew_renews<H>(s: StateView<H>, cid: clientid4, now: u64)
    ensures
        match s.client_status(cid, now) {
            Ok(_) => s.renew(cid, now).1 is Ok && heard_of(s, s.renew(cid, now).0, cid, now),
            Err(e) => {
                &&& s.renew(cid, now).1 == Err::<(), nfsstat4>(e)
                &&& e == nfsstat4::NFS4ERR_STALE_CLIENTID ==> s.renew(cid, now).0 == s
                &&& e == nfsstat4::NFS4ERR_EXPIRED ==> !s.renew(cid, now).0.clients.contains_key(cid)
            },
        },
{
}

/// RECLAIM_COMPLETE renews the lease of the client whose session it is.
pub proof fn reclaim_complete_renews<H>(s: StateView<H>, id: sessionid4, now: u64)
    ensures
        !s.sessions.contains_key(id) ==> s.reclaim_complete(id, now) == (
            s,
            Err::<(), nfsstat4>(nfsstat4::NFS4ERR_BADSESSION),
        ),
        s.sessions.contains_key(id) ==> match s.client_status(s.sessions[id].clientid, now) {
            Ok(_) => {
                &&& s.reclaim_complete(id, now).1 is Ok
                &&& heard_of(s, s.reclaim_complete(id, now).0, s.sessions[id].clientid, now)
            },
            Err(e) => s.reclaim_complete(id, now).1 == Err::<(), nfsstat4>(e),
        },
{
}

/// OPEN, OPEN_CONFIRM, CLOSE and CREATE_SESSION of a live client renew its lease, whatever
/// else becomes of them.
pub proof fn requests_of_a_client_renew_its_lease<H>(
    s: StateView<H>,
    cid: clientid4,
    owner: Seq<u8>,
    seqid: OwnerSeqid,
    fileid: fileid4,
    mode: OpenMode,
    sid: stateid4,
    confirm: seqid4,
    sequence: sequenceid4,
    slots: u32,
    max_cached: u32,
    drawn: Res<sessionid4>,
    now: u64,
)
    requires
        s.client_status(cid, now) is Ok,
    ensures
        s.clients[cid].is_confirmed() ==> s.open_plan(cid, owner, seqid, fileid, mode, now).0.clients[cid].last_renewed
            == now,
        !s.clients[cid].is_confirmed() ==> s.open_plan(cid, owner, seqid, fileid, mode, now).0 == s,
        s.create_session(cid, sequence, slots, max_cached, now, drawn).0.clients[cid].last_renewed == now,
        state_ref(sid) is Open && (s.holder(sid.other) matches Some((c, _)) && c == cid) ==> s.close(
            sid,
            seqid,
            now,
        ).0.clients[cid].last_renewed == now,
        state_ref(sid) is Open && s.opens.contains_key(sid.other) && s.opens[sid.other].clientid == cid
            && s.clients[cid].kind is V40 ==> s.open_confirm(sid, confirm, now).0.clients[cid].last_renewed == now,
{
}

// ---------------------------------------------------------------- SEQUENCE

/// What SEQUENCE answers, and which slot it changes to what. A slot takes the request after
/// its last one, answers its last one again, and refuses any other.
pub proof fn sequence_goes_by_the_slot<H>(
    s: StateView<H>,
    id: sessionid4,
    slot: u32,
    seqid: sequenceid4,
    now: u64,
    v: SlotView,
)
    requires
        s.sessions.contains_key(id),
        s.client_status(s.sessions[id].clientid, now) is Ok,
        slot < s.sessions[id].slots.len(),
        v == s.sessions[id].slots[slot as int],
    ensures
        ({
            let (t, r) = s.sequence(id, slot, seqid, now);
            let cid = s.sessions[id].clientid;
            let slots = s.sessions[id].slots;
            if seqid == v.last_seqid {
                &&& r == (match v.cached {
                    Some(reply) => Ok::<SequenceView, nfsstat4>(SequenceView::Replay(reply)),
                    None => Ok(SequenceView::RetryUncached),
                })
                &&& heard_of(s, t, cid, now)
            } else if follows(seqid, v.last_seqid) {
                &&& r == Ok::<SequenceView, nfsstat4>(SequenceView::New)
                &&& t.sessions == s.sessions.insert(
                    id,
                    SessionView {
                        slots: slots.update(slot as int, SlotView { last_seqid: seqid, cached: None }),
                        ..s.sessions[id]
                    },
                )
                &&& but_for_client(s, t, cid, ClientView { last_renewed: now, ..s.clients[cid] })
                &&& t.opens == s.opens
                &&& t.open_index == s.open_index
                &&& t.retired == s.retired
                &&& t.by_owner == s.by_owner
                &&& t.lease == s.lease
                &&& t.epoch == s.epoch
            } else {
                t == s && r == Err::<SequenceView, nfsstat4>(nfsstat4::NFS4ERR_SEQ_MISORDERED)
            }
        }),
{
}

/// SEQUENCE in a session that is not known, or whose client's lease has lapsed, is in a bad
/// session, and one on a slot that the session does not have is on a bad slot.
pub proof fn sequence_needs_a_session_and_a_slot<H>(
    s: StateView<H>,
    id: sessionid4,
    slot: u32,
    seqid: sequenceid4,
    now: u64,
)
    ensures
        !s.sessions.contains_key(id) ==> s.sequence(id, slot, seqid, now) == (
            s,
            Err::<SequenceView, nfsstat4>(nfsstat4::NFS4ERR_BADSESSION),
        ),
        s.sessions.contains_key(id) && s.client_status(s.sessions[id].clientid, now) is Err ==> s.sequence(
            id,
            slot,
            seqid,
            now,
        ).1 == Err::<SequenceView, nfsstat4>(nfsstat4::NFS4ERR_BADSESSION),
        s.sessions.contains_key(id) && s.client_status(s.sessions[id].clientid, now) is Ok && slot
            >= s.sessions[id].slots.len() ==> s.sequence(id, slot, seqid, now) == (
            s,
            Err::<SequenceView, nfsstat4>(nfsstat4::NFS4ERR_BADSLOT),
        ),
{
}

/// A reply is kept in the slot whose last request it answers, if it is not too large for
/// the session, and nowhere else.
pub proof fn a_reply_is_kept_in_its_slot<H>(
    s: StateView<H>,
    id: sessionid4,
    slot: u32,
    seqid: sequenceid4,
    reply: Seq<u8>,
)
    ensures
        ({
            let t = s.reply_cached(id, slot, seqid, reply);
            let kept = s.sessions.contains_key(id) && slot < s.sessions[id].slots.len()
                && s.sessions[id].slots[slot as int].last_seqid == seqid && reply.len() <= s.sessions[id].max_cached;
            &&& !kept ==> t == s
            &&& kept ==> {
                &&& t.sessions == s.sessions.insert(
                    id,
                    SessionView {
                        slots: s.sessions[id].slots.update(
                            slot as int,
                            SlotView { last_seqid: seqid, cached: Some(reply) },
                        ),
                        ..s.sessions[id]
                    },
                )
                &&& t.clients == s.clients
                &&& t.by_owner == s.by_owner
                &&& t.opens == s.opens
                &&& t.open_index == s.open_index
                &&& t.retired == s.retired
            }
        }),
{
}

// ---------------------------------------------------------------- clients

/// A client that registers gets a record of its own under the id that was drawn: its owner,
/// its verifier, the time, and no open-owners. The record that its owner had before is
/// gone, with all that it owned, and nothing else is.
pub proof fn a_registered_client_has_a_fresh_record<H>(
    s: StateView<H>,
    owner: (Minor, Seq<u8>),
    verifier: verifier4,
    kind: KindView,
    now: u64,
    cid: clientid4,
    other: clientid4,
    id: sessionid4,
    open: Other,
)
    requires
        s.inv(),
        s.fresh_clientid(cid),
        other != cid,
    ensures
        ({
            let t = s.installed(owner, verifier, kind, now, cid);
            let gone = |c: clientid4| s.by_owner.contains_key(owner) && s.by_owner[owner] == c;
            let c = ClientView { owner, verifier, last_renewed: now, kind, made: None, open_owners: Map::empty() };
            &&& t.clients.contains_key(cid)
            &&& t.clients[cid] == c
            &&& t.by_owner.contains_key(owner)
            &&& t.by_owner[owner] == cid
            &&& t.clients.contains_key(other) <==> s.clients.contains_key(other) && !gone(other)
            &&& t.clients.contains_key(other) ==> t.clients[other] == s.clients[other]
            &&& t.sessions.contains_key(id) <==> s.sessions.contains_key(id) && !gone(s.sessions[id].clientid)
            &&& t.sessions.contains_key(id) ==> t.sessions[id] == s.sessions[id]
            &&& t.opens.contains_key(open) <==> s.opens.contains_key(open) && !gone(s.opens[open].clientid)
            &&& t.opens.contains_key(open) ==> t.opens[open] == s.opens[open]
            &&& t.retired.contains_key(open) <==> s.retired.contains_key(open) && !gone(s.retired[open].0)
            &&& t.retired.contains_key(open) ==> t.retired[open] == s.retired[open]
            &&& t.lease == s.lease
            &&& t.epoch == s.epoch
        }),
{
}

/// EXCHANGE_ID of a live registration with the same verifier repeats it and changes
/// nothing. Any other one registers the client anew, unconfirmed, and the first
/// CREATE_SESSION is expected to have the sequence 1.
pub proof fn exchange_id_registers<H>(
    s: StateView<H>,
    ownerid: Seq<u8>,
    verifier: verifier4,
    now: u64,
    cid: clientid4,
)
    requires
        s.inv(),
        s.fresh_clientid(cid),
    ensures
        ({
            let (t, r) = s.exchange_id(ownerid, verifier, now, Ok(cid));
            let owner = (Minor::V41, ownerid);
            let known = s.by_owner[owner];
            let repeated = s.by_owner.contains_key(owner) && s.clients[known].verifier == verifier && s.client_status(
                known,
                now,
            ) is Ok;
            &&& repeated ==> {
                &&& t == s
                &&& s.clients[known].kind matches KindView::V41 { create_session_seq, .. } && r == Ok::<
                    (clientid4, sequenceid4),
                    nfsstat4,
                >((known, create_session_seq))
            }
            &&& !repeated ==> {
                &&& r == Ok::<(clientid4, sequenceid4), nfsstat4>((cid, 1))
                &&& t.by_owner[owner] == cid
                &&& t.clients[cid].owner == owner
                &&& t.clients[cid].verifier == verifier
                &&& t.clients[cid].last_renewed == now
                &&& t.clients[cid].kind == (KindView::V41 { create_session_seq: 1, sessions: Seq::empty() })
                &&& t.clients[cid].made is None
                &&& !t.clients[cid].is_confirmed()
                &&& s.by_owner.contains_key(owner) ==> !t.clients.contains_key(known)
            }
        }),
{
    let owner = (Minor::V41, ownerid);
    if s.by_owner.contains_key(owner) {
        assert(s.owner_leads_to_client(owner));
        assert(s.client_sound(s.by_owner[owner]));
    }
}

/// An EXCHANGE_ID for which no id could be drawn registers nobody.
pub proof fn exchange_id_without_an_id_fails<H>(
    s: StateView<H>,
    ownerid: Seq<u8>,
    verifier: verifier4,
    now: u64,
    e: nfsstat4,
)
    requires
        !s.by_owner.contains_key((Minor::V41, ownerid)),
    ensures
        s.exchange_id(ownerid, verifier, now, Err(e)) == (s, Err::<(clientid4, sequenceid4), nfsstat4>(e)),
{
}

/// SETCLIENTID registers the client anew, whatever it was before. It is confirmed only by
/// the verifier that it was given.
pub proof fn setclientid_registers<H>(
    s: StateView<H>,
    ownerid: Seq<u8>,
    verifier: verifier4,
    now: u64,
    cid: clientid4,
    confirm: verifier4,
    wrong: verifier4,
)
    requires
        s.inv(),
        s.lease > 0,
        s.fresh_clientid(cid),
        wrong != confirm,
    ensures
        ({
            let t = s.setclientid(ownerid, verifier, now, cid, confirm);
            let owner = (Minor::V40, ownerid);
            &&& t.by_owner[owner] == cid
            &&& t.clients[cid].owner == owner
            &&& t.clients[cid].verifier == verifier
            &&& t.clients[cid].last_renewed == now
            &&& !t.clients[cid].is_confirmed()
            &&& s.by_owner.contains_key(owner) ==> !t.clients.contains_key(s.by_owner[owner])
            &&& t.setclientid_confirm(cid, confirm, now).1 is Ok
            &&& t.setclientid_confirm(cid, confirm, now).0.clients[cid].is_confirmed()
            &&& t.setclientid_confirm(cid, wrong, now) == (t, Err::<(), nfsstat4>(nfsstat4::NFS4ERR_CLID_INUSE))
        }),
{
    let owner = (Minor::V40, ownerid);
    if s.by_owner.contains_key(owner) {
        assert(s.owner_leads_to_client(owner));
    }
}

/// SETCLIENTID_CONFIRM of a live 4.0 client by its verifier confirms it and renews its
/// lease. By another verifier it is refused, as is that of a 4.1 client.
pub proof fn setclientid_confirm_confirms<H>(s: StateView<H>, cid: clientid4, confirm: verifier4, now: u64)
    ensures
        ({
            let (t, r) = s.setclientid_confirm(cid, confirm, now);
            match s.client_status(cid, now) {
                Err(e) => r == Err::<(), nfsstat4>(e),
                Ok(_) => match s.clients[cid].kind {
                    KindView::V41 { .. } => t == s && r == Err::<(), nfsstat4>(nfsstat4::NFS4ERR_STALE_CLIENTID),
                    KindView::V40 { confirm_verifier, .. } => if confirm != confirm_verifier {
                        t == s && r == Err::<(), nfsstat4>(nfsstat4::NFS4ERR_CLID_INUSE)
                    } else {
                        &&& r is Ok
                        &&& but_for_client(
                            s,
                            t,
                            cid,
                            ClientView {
                                last_renewed: now,
                                kind: KindView::V40 { confirm_verifier, confirmed: true },
                                ..s.clients[cid]
                            },
                        )
                        &&& only_clients(s, t)
                    },
                },
            }
        }),
{
}

/// DESTROY_CLIENTID takes a client and all that it owns, unless it is unknown, or is a 4.1
/// client with sessions.
pub proof fn destroy_clientid_takes_everything<H>(
    s: StateView<H>,
    cid: clientid4,
    other: clientid4,
    id: sessionid4,
    open: Other,
)
    requires
        s.inv(),
    ensures
        ({
            let (t, r) = s.destroy_clientid(cid);
            let busy = s.clients[cid].kind matches KindView::V41 { sessions, .. } && sessions.len() > 0;
            if !s.clients.contains_key(cid) {
                t == s && r == Err::<(), nfsstat4>(nfsstat4::NFS4ERR_STALE_CLIENTID)
            } else if busy {
                t == s && r == Err::<(), nfsstat4>(nfsstat4::NFS4ERR_CLIENTID_BUSY)
            } else {
                &&& r is Ok
                &&& t.clients.contains_key(other) <==> s.clients.contains_key(other) && other != cid
                &&& t.clients.contains_key(other) ==> t.clients[other] == s.clients[other]
                &&& t.sessions.contains_key(id) <==> s.sessions.contains_key(id) && s.sessions[id].clientid != cid
                &&& t.sessions.contains_key(id) ==> t.sessions[id] == s.sessions[id]
                &&& t.opens.contains_key(open) <==> s.opens.contains_key(open) && s.opens[open].clientid != cid
                &&& t.opens.contains_key(open) ==> t.opens[open] == s.opens[open]
                &&& t.retired.contains_key(open) <==> s.retired.contains_key(open) && s.retired[open].0 != cid
                &&& t.lease == s.lease
                &&& t.epoch == s.epoch
            }
        }),
{
}

// ---------------------------------------------------------------- sessions

/// CREATE_SESSION with the sequence that is expected makes a session of the client, with one
/// slot that has not been used and a reply cache of the size that was asked for, and expects
/// the next sequence from then on. With the sequence before it, it names the session that
/// was made last, while that lives. Any other sequence is out of order.
pub proof fn create_session_makes_a_session<H>(
    s: StateView<H>,
    cid: clientid4,
    sequence: sequenceid4,
    slots: u32,
    max_cached: u32,
    now: u64,
    id: sessionid4,
    expected: sequenceid4,
    ids: Seq<sessionid4>,
)
    requires
        s.client_status(cid, now) is Ok,
        s.clients[cid].kind == (KindView::V41 { create_session_seq: expected, sessions: ids }),
    ensures
        ({
            let (t, r) = s.create_session(cid, sequence, slots, max_cached, now, Ok(id));
            if sequence == expected {
                &&& r == Ok::<CreateSession, nfsstat4>(CreateSession::New(id))
                &&& t.sessions == s.sessions.insert(
                    id,
                    SessionView {
                        clientid: cid,
                        slots: seq![SlotView { last_seqid: 0, cached: None }],
                        max_cached,
                    },
                )
                &&& exists|next: u32| #[trigger]
                    follows(next, expected) && but_for_client(
                        s,
                        t,
                        cid,
                        ClientView {
                            last_renewed: now,
                            kind: KindView::V41 { create_session_seq: next, sessions: ids.push(id) },
                            made: Some(id),
                            ..s.clients[cid]
                        },
                    )
                &&& t.opens == s.opens
                &&& t.open_index == s.open_index
                &&& t.retired == s.retired
                &&& t.by_owner == s.by_owner
            } else {
                &&& heard_of(s, t, cid, now)
                &&& r == (if follows(expected, sequence) && s.clients[cid].made is Some {
                    Ok::<CreateSession, nfsstat4>(CreateSession::Replay(s.clients[cid].made->0))
                } else {
                    Err(nfsstat4::NFS4ERR_SEQ_MISORDERED)
                })
            }
        }),
{
    let (t, r) = s.create_session(cid, sequence, slots, max_cached, now, Ok(id));
    if sequence == expected {
        let next: u32 = if expected == u32::MAX { 0 } else { (expected + 1) as u32 };
        assert(follows(next, expected));
        assert(t.sessions[id].slots =~= seq![SlotView { last_seqid: 0, cached: None }]);
        assert(t.clients[cid] == (ClientView {
            last_renewed: now,
            kind: KindView::V41 { create_session_seq: next, sessions: ids.push(id) },
            made: Some(id),
            ..s.clients[cid]
        }));
    }
}

/// CREATE_SESSION of a client that is not live says why, and a 4.0 client has no sessions.
/// Where no id could be drawn, no session is made.
pub proof fn create_session_needs_a_41_client<H>(
    s: StateView<H>,
    cid: clientid4,
    sequence: sequenceid4,
    slots: u32,
    max_cached: u32,
    now: u64,
    drawn: Res<sessionid4>,
)
    ensures
        ({
            let (t, r) = s.create_session(cid, sequence, slots, max_cached, now, drawn);
            match s.client_status(cid, now) {
                Err(e) => r == Err::<CreateSession, nfsstat4>(e),
                Ok(_) => {
                    &&& s.clients[cid].kind is V40 ==> r == Err::<CreateSession, nfsstat4>(
                        nfsstat4::NFS4ERR_STALE_CLIENTID,
                    ) && heard_of(s, t, cid, now)
                    &&& drawn is Err ==> t.sessions == s.sessions && !(r matches Ok(CreateSession::New(_)))
                },
            }
        }),
{
}

/// DESTROY_SESSION takes the session, and takes it from its client's list, and touches no
/// other session and no open state.
pub proof fn destroy_session_takes_the_session<H>(s: StateView<H>, id: sessionid4)
    requires
        s.inv(),
        s.sessions.contains_key(id),
    ensures
        ({
            let (t, r) = s.destroy_session(id);
            let cid = s.sessions[id].clientid;
            &&& r is Ok
            &&& t.sessions == s.sessions.remove(id)
            &&& t.opens == s.opens
            &&& t.open_index == s.open_index
            &&& t.retired == s.retired
            &&& t.by_owner == s.by_owner
            &&& t.clients.dom() == s.clients.dom()
            &&& t.clients[cid].last_renewed == s.clients[cid].last_renewed
            &&& t.clients[cid].made == (if s.clients[cid].made == Some(id) { None } else { s.clients[cid].made })
            &&& t.clients[cid].kind matches KindView::V41 { create_session_seq, sessions }
                && s.clients[cid].kind matches KindView::V41 { create_session_seq: before, sessions: ids }
                && create_session_seq == before && !sessions.contains(id) && (forall|other: sessionid4|
                other != id ==> #[trigger] sessions.contains(other) == ids.contains(other))
            &&& forall|c: clientid4|
                c != cid && s.clients.contains_key(c) ==> #[trigger] t.clients[c] == s.clients[c]
        }),
{
    let cid = s.sessions[id].clientid;
    assert(s.session_owned(id));
    let t = s.destroy_session(id).0;
    assert(t.clients.dom() =~= s.clients.dom());
    if let KindView::V41 { sessions: ids, .. } = s.clients[cid].kind {
        crate::nfs4::state_inv::filter_keeps_order(ids, crate::nfs4::state_spec::other_than(id));
    }
}

// ---------------------------------------------------------------- open-owners

/// The sequence check goes by the client's record. A 4.1 client's requests are all fresh.
/// Of a 4.0 open-owner, the seqid of the last request repeats it, the one after it is
/// fresh, and any other breaks the sequence. An owner that has not been heard of may begin
/// anywhere.
pub proof fn the_sequence_check_goes_by_the_last_seqid<H>(
    s: StateView<H>,
    cid: clientid4,
    owner: Seq<u8>,
    seqid: seqid4,
)
    requires
        s.clients.contains_key(cid),
    ensures
        ({
            let r = s.owner_check(cid, owner, OwnerSeqid::V40(seqid));
            let record = s.clients[cid].open_owners[owner];
            if s.clients[cid].kind is V41 {
                r == Ok::<OwnerSeq, nfsstat4>(OwnerSeq::Fresh)
            } else if !s.clients[cid].open_owners.contains_key(owner) {
                r == Ok::<OwnerSeq, nfsstat4>(OwnerSeq::Fresh)
            } else {
                match record.last {
                    None => r == Ok::<OwnerSeq, nfsstat4>(OwnerSeq::Fresh),
                    Some((last, reply)) => if seqid == last {
                        r == Ok::<OwnerSeq, nfsstat4>(OwnerSeq::Replay(reply))
                    } else if follows(seqid, last) {
                        r == Ok::<OwnerSeq, nfsstat4>(OwnerSeq::Fresh)
                    } else {
                        r == Err::<OwnerSeq, nfsstat4>(nfsstat4::NFS4ERR_BAD_SEQID)
                    },
                }
            }
        }),
        s.clients[cid].kind is V41 ==> s.owner_check(cid, owner, OwnerSeqid::V41) == Ok::<OwnerSeq, nfsstat4>(
            OwnerSeq::Fresh,
        ),
        s.clients[cid].kind is V40 ==> s.owner_check(cid, owner, OwnerSeqid::V41) == Err::<OwnerSeq, nfsstat4>(
            nfsstat4::NFS4ERR_INVAL,
        ),
{
}

/// The requests of a client that is not known are not checked against anything.
pub proof fn the_sequence_check_needs_a_client<H>(s: StateView<H>, cid: clientid4, owner: Seq<u8>, seqid: OwnerSeqid)
    requires
        !s.clients.contains_key(cid),
    ensures
        s.owner_check(cid, owner, seqid) == Err::<OwnerSeq, nfsstat4>(nfsstat4::NFS4ERR_STALE_CLIENTID),
        s.owner_checked(cid, owner, seqid) == s,
{
}

/// A broken sequence makes the server forget the open-owner and its tombstone, and nothing
/// else. A sequence that holds makes it forget nothing.
pub proof fn a_broken_sequence_forgets_the_owner<H>(
    s: StateView<H>,
    cid: clientid4,
    owner: Seq<u8>,
    seqid: OwnerSeqid,
)
    requires
        s.clients.contains_key(cid),
    ensures
        ({
            let t = s.owner_checked(cid, owner, seqid);
            let c = s.clients[cid];
            if s.owner_check(cid, owner, seqid) == Err::<OwnerSeq, nfsstat4>(nfsstat4::NFS4ERR_BAD_SEQID) {
                &&& but_for_client(s, t, cid, ClientView { open_owners: c.open_owners.remove(owner), ..c })
                &&& t.retired == (match c.open_owners[owner].retired {
                    Some(other) => s.retired.remove(other),
                    None => s.retired,
                })
                &&& t.opens == s.opens
                &&& t.open_index == s.open_index
                &&& t.sessions == s.sessions
                &&& t.by_owner == s.by_owner
            } else {
                t == s
            }
        }),
{
}

/// A reply is booked in the record of its open-owner, with the seqid that it answers. What
/// else the record says stays. A status that consumes no seqid is not booked, nor is
/// anything for a 4.1 client or an unknown one.
pub proof fn a_reply_is_booked_with_its_owner<H>(
    s: StateView<H>,
    cid: clientid4,
    owner: Seq<u8>,
    seqid: seqid4,
    reply: OwnerReply,
)
    ensures
        ({
            let t = s.replied(cid, owner, OwnerSeqid::V40(seqid), reply);
            let c = s.clients[cid];
            let booked = s.clients.contains_key(cid) && c.kind is V40 && !(reply matches Err(e) && retains_seqid(e));
            let before = if c.open_owners.contains_key(owner) {
                c.open_owners[owner]
            } else {
                OwnerView { last: None, confirmed: false, retired: None }
            };
            &&& !booked ==> t == s
            &&& booked ==> {
                &&& only_clients(s, t)
                &&& but_for_client(
                    s,
                    t,
                    cid,
                    ClientView {
                        open_owners: c.open_owners.insert(
                            owner,
                            OwnerView { last: Some((seqid, reply)), ..before },
                        ),
                        ..c
                    },
                )
            }
        }),
        s.replied(cid, owner, OwnerSeqid::V41, reply) == s,
{
}

/// The statuses that consume no seqid, by their numbers.
pub proof fn eight_statuses_consume_no_seqid(status: nfsstat4)
    ensures
        retains_seqid(status) <==> {
            let n = status.number();
            n == 10018 || n == 10019 || n == 10020 || n == 10022 || n == 10023 || n == 10025 || n == 10026 || n == 10036
        },
{
}

/// A rejection of a live 4.0 client's request is booked if the request is fresh, and its
/// status is the answer. The retransmit of a request that failed gets that failure, and a
/// broken sequence is told as such. Of a client that is not live nothing is booked.
pub proof fn a_rejection_is_booked<H>(
    s: StateView<H>,
    cid: clientid4,
    owner: Seq<u8>,
    seqid: seqid4,
    status: nfsstat4,
    now: u64,
)
    ensures
        ({
            let (t, r) = s.owner_rejection(cid, owner, OwnerSeqid::V40(seqid), status, now);
            match s.client_status(cid, now) {
                Err(_) => r == status,
                Ok(_) => match s.owner_check(cid, owner, OwnerSeqid::V40(seqid)) {
                    Ok(OwnerSeq::Fresh) => r == status && t == s.replied(
                        cid,
                        owner,
                        OwnerSeqid::V40(seqid),
                        Err(status),
                    ),
                    Ok(OwnerSeq::Replay(Err(cached))) => t == s && r == cached,
                    Ok(OwnerSeq::Replay(Ok(_))) => t == s && r == status,
                    Err(e) => r == e,
                },
            }
        }),
        ({
            let (t, r) = s.owner_rejection(cid, owner, OwnerSeqid::V40(seqid), status, now);
            t.opens == s.opens || s.client_status(cid, now) == Err::<(), nfsstat4>(nfsstat4::NFS4ERR_EXPIRED)
        }),
{
}

// ---------------------------------------------------------------- OPEN

/// An OPEN of a file that its owner has not open, or has open in too weak a mode, needs a
/// handle in the mode that was asked for, and opens nothing yet.
pub proof fn an_open_asks_for_the_mode_it_needs<H>(
    s: StateView<H>,
    cid: clientid4,
    owner: Seq<u8>,
    seqid: OwnerSeqid,
    fileid: fileid4,
    mode: OpenMode,
    now: u64,
)
    requires
        s.client_status(cid, now) is Ok,
        s.clients[cid].is_confirmed(),
        s.owner_check(cid, owner, seqid) == Ok::<OwnerSeq, nfsstat4>(OwnerSeq::Fresh),
    ensures
        ({
            let (t, r) = s.open_plan(cid, owner, seqid, fileid, mode, now);
            let key = (cid, owner, fileid);
            let other = s.open_index[key];
            let o = s.opens[other];
            if !s.open_index.contains_key(key) || o.mode == OpenMode::ReadOnly && mode == OpenMode::ReadWrite {
                &&& r == Ok::<OpenPlan, nfsstat4>(OpenPlan::NeedHandle(mode))
                &&& heard_of(s, t, cid, now)
            } else {
                &&& r matches Ok(OpenPlan::Done(opened))
                &&& opened.stateid == (stateid4 { seqid: bumped(o.seqid), other })
                &&& t.opens == s.opens.insert(other, OpenView { seqid: bumped(o.seqid), ..o })
                &&& t.open_index == s.open_index
                &&& t.retired == s.retired
                &&& t.sessions == s.sessions
            }
        }),
{
    let u = s.renewed(cid, now);
    assert(u.clients[cid].open_owner(owner) == s.clients[cid].open_owner(owner));
    assert(u.owner_check(cid, owner, seqid) == s.owner_check(cid, owner, seqid));
}

/// An OPEN that is not fresh opens nothing: a retransmit gets the reply of the first one,
/// and a broken sequence is told as such.
pub proof fn an_open_that_is_not_fresh_opens_nothing<H>(
    s: StateView<H>,
    cid: clientid4,
    owner: Seq<u8>,
    seqid: OwnerSeqid,
    fileid: fileid4,
    mode: OpenMode,
    now: u64,
)
    requires
        s.client_status(cid, now) is Ok,
        s.clients[cid].is_confirmed(),
    ensures
        ({
            let (t, r) = s.open_plan(cid, owner, seqid, fileid, mode, now);
            match s.owner_check(cid, owner, seqid) {
                Ok(OwnerSeq::Fresh) => true,
                Ok(OwnerSeq::Replay(Ok(stateid))) => {
                    &&& heard_of(s, t, cid, now)
                    &&& r == Ok::<OpenPlan, nfsstat4>(
                        OpenPlan::Done(
                            Opened {
                                stateid,
                                confirm_required: s.clients[cid].kind is V40 && !s.clients[cid].open_owner(
                                    owner,
                                ).confirmed,
                            },
                        ),
                    )
                },
                Ok(OwnerSeq::Replay(Err(e))) => heard_of(s, t, cid, now) && r == Err::<OpenPlan, nfsstat4>(e),
                Err(e) => t.opens == s.opens && r == Err::<OpenPlan, nfsstat4>(e),
            }
        }),
{
    let u = s.renewed(cid, now);
    assert(u.clients[cid].open_owner(owner) == s.clients[cid].open_owner(owner));
    assert(u.owner_check(cid, owner, seqid) == s.owner_check(cid, owner, seqid));
}

/// A handle that was opened for a file becomes its open state: a new one under the `other`
/// that was drawn, with the seqid 1, or the one that the owner has, whose seqid is the next
/// one and whose mode and handle are the stronger ones. The stateid that comes back names
/// it, and the client must confirm its owner if it is a 4.0 client whose owner is not
/// confirmed.
pub proof fn a_handle_becomes_the_open_state<H>(
    s: StateView<H>,
    cid: clientid4,
    owner: Seq<u8>,
    seqid: OwnerSeqid,
    fileid: fileid4,
    mode: OpenMode,
    fh: H,
    now: u64,
    drawn: Other,
)
    requires
        s.client_status(cid, now) is Ok,
    ensures
        ({
            let (t, r) = s.open_commit(cid, owner, seqid, fileid, mode, fh, now, Ok(drawn));
            let key = (cid, owner, fileid);
            let fresh = !s.open_index.contains_key(key);
            let other = if fresh { drawn } else { s.open_index[key] };
            let o = s.opens[other];
            let weak = o.mode == OpenMode::ReadOnly && mode == OpenMode::ReadWrite;
            let state = if fresh {
                OpenView { clientid: cid, owner, fileid, seqid: 1, mode, fh }
            } else {
                OpenView {
                    seqid: bumped(o.seqid),
                    mode: if weak { mode } else { o.mode },
                    fh: if weak { fh } else { o.fh },
                    ..o
                }
            };
            &&& t.opens == s.opens.insert(other, state)
            &&& t.open_index == s.open_index.insert(key, other)
            &&& t.retired == s.retired
            &&& t.sessions == s.sessions
            &&& t.by_owner == s.by_owner
            &&& t.clients[cid].last_renewed == s.clients[cid].last_renewed
            &&& r == Ok::<Opened, nfsstat4>(
                Opened {
                    stateid: stateid4 { seqid: state.seqid, other },
                    confirm_required: s.clients[cid].kind is V40 && !s.clients[cid].open_owner(owner).confirmed,
                },
            )
        }),
{
    let (t, r) = s.open_commit(cid, owner, seqid, fileid, mode, fh, now, Ok(drawn));
    let key = (cid, owner, fileid);
    if s.open_index.contains_key(key) {
        assert(t.open_index =~= s.open_index.insert(key, s.open_index[key]));
    }
}

/// An OPEN that gets no handle, or whose handle finds no place, opens nothing, and its
/// failure is the owner's reply. A handle of a client that is no longer live is not kept.
pub proof fn an_open_without_a_handle_opens_nothing<H>(
    s: StateView<H>,
    cid: clientid4,
    owner: Seq<u8>,
    seqid: OwnerSeqid,
    fileid: fileid4,
    mode: OpenMode,
    fh: H,
    e: nfsstat4,
    now: u64,
    drawn: Res<Other>,
)
    ensures
        s.open_finish(cid, owner, seqid, fileid, mode, Err(e), now, drawn) == (
            s.replied(cid, owner, seqid, Err(e)),
            Err::<Opened, nfsstat4>(e),
        ),
        s.client_status(cid, now) matches Err(x) ==> s.open_finish(
            cid,
            owner,
            seqid,
            fileid,
            mode,
            Ok(fh),
            now,
            drawn,
        ).1 == Err::<Opened, nfsstat4>(x),
        s.client_status(cid, now) is Ok && !s.open_index.contains_key((cid, owner, fileid)) && drawn is Err
            ==> s.open_finish(cid, owner, seqid, fileid, mode, Ok(fh), now, drawn) == (
            s.replied(cid, owner, seqid, Err(drawn->Err_0)),
            Err::<Opened, nfsstat4>(drawn->Err_0),
        ),
        s.client_status(cid, now) is Ok && drawn is Ok ==> s.open_finish(
            cid,
            owner,
            seqid,
            fileid,
            mode,
            Ok(fh),
            now,
            drawn,
        ) == s.open_commit(cid, owner, seqid, fileid, mode, fh, now, drawn),
{
}

// ---------------------------------------------------------------- stateids

/// A stateid of nothing but zeros or of nothing but ones names no open state. Any other one
/// names the state of its `other`, in the version that its seqid says, 0 being the current
/// one. An older version is old, and one that has not been yet is bad, as is the stateid of
/// a state that is not there.
pub proof fn a_stateid_resolves_by_its_version<H>(s: StateView<H>, sid: stateid4)
    ensures
        ({
            let zeros = forall|i: int| 0 <= i < 12 ==> #[trigger] sid.other@[i] == 0;
            let ones = forall|i: int| 0 <= i < 12 ==> #[trigger] sid.other@[i] == 0xff;
            let o = s.opens[sid.other];
            if zeros {
                s.resolve(sid) == Ok::<ResolvedView<H>, nfsstat4>(ResolvedView::Anonymous)
            } else if ones {
                s.resolve(sid) == Ok::<ResolvedView<H>, nfsstat4>(ResolvedView::Bypass)
            } else if !s.opens.contains_key(sid.other) || sid.seqid > o.seqid {
                s.resolve(sid) == Err::<ResolvedView<H>, nfsstat4>(nfsstat4::NFS4ERR_BAD_STATEID)
            } else if 0 < sid.seqid < o.seqid {
                s.resolve(sid) == Err::<ResolvedView<H>, nfsstat4>(nfsstat4::NFS4ERR_OLD_STATEID)
            } else {
                s.resolve(sid) == Ok::<ResolvedView<H>, nfsstat4>(
                    ResolvedView::Open { fileid: o.fileid, fh: o.fh, mode: o.mode },
                )
            }
        }),
{
}

/// The seqid of a stateid counts up, and leaves out 0.
pub proof fn a_stateid_counts_up(v: u32)
    ensures
        v < u32::MAX ==> bumped(v) == v + 1,
        bumped(u32::MAX) == 1,
{
}

// ---------------------------------------------------------------- OPEN_CONFIRM

/// A fresh OPEN_CONFIRM of the current version of a state confirms its owner: the state's
/// seqid is the next one, and the new stateid is the owner's reply. What else the record of
/// the owner says stays.
pub proof fn open_confirm_confirms_the_owner<H>(s: StateView<H>, sid: stateid4, seqid: seqid4, now: u64)
    requires
        state_ref(sid) is Open,
        s.opens.contains_key(sid.other),
        s.client_status(s.opens[sid.other].clientid, now) is Ok,
        s.clients[s.opens[sid.other].clientid].kind is V40,
        s.owner_check(s.opens[sid.other].clientid, s.opens[sid.other].owner, OwnerSeqid::V40(seqid)) == Ok::<
            OwnerSeq,
            nfsstat4,
        >(OwnerSeq::Fresh),
    ensures
        ({
            let (t, r) = s.open_confirm(sid, seqid, now);
            let o = s.opens[sid.other];
            let next = stateid4 { seqid: bumped(o.seqid), other: sid.other };
            let c = s.clients[o.clientid];
            if sid.seqid == 0 || sid.seqid == o.seqid {
                &&& r == Ok::<stateid4, nfsstat4>(next)
                &&& t.opens == s.opens.insert(sid.other, OpenView { seqid: bumped(o.seqid), ..o })
                &&& t.open_index == s.open_index
                &&& t.retired == s.retired
                &&& t.sessions == s.sessions
                &&& but_for_client(
                    s,
                    t,
                    o.clientid,
                    ClientView {
                        last_renewed: now,
                        open_owners: c.open_owners.insert(
                            o.owner,
                            OwnerView {
                                last: Some((seqid, Ok(next))),
                                confirmed: true,
                                retired: c.open_owner(o.owner).retired,
                            },
                        ),
                        ..c
                    },
                )
            } else {
                &&& t.opens == s.opens
                &&& r == Err::<stateid4, nfsstat4>(
                    if sid.seqid < o.seqid {
                        nfsstat4::NFS4ERR_OLD_STATEID
                    } else {
                        nfsstat4::NFS4ERR_BAD_STATEID
                    },
                )
            }
        }),
{
    let o = s.opens[sid.other];
    let u = s.renewed(o.clientid, now);
    assert(u.clients[o.clientid].open_owner(o.owner) == s.clients[o.clientid].open_owner(o.owner));
    assert(u.owner_check(o.clientid, o.owner, OwnerSeqid::V40(seqid)) == s.owner_check(
        o.clientid,
        o.owner,
        OwnerSeqid::V40(seqid),
    ));
    let t = s.open_confirm(sid, seqid, now).0;
    let c = s.clients[o.clientid];
    if sid.seqid == 0 || sid.seqid == o.seqid {
        let next = stateid4 { seqid: bumped(o.seqid), other: sid.other };
        let record = OwnerView {
            last: Some((seqid, Ok(next))),
            confirmed: true,
            retired: c.open_owner(o.owner).retired,
        };
        assert(t.clients[o.clientid].open_owners =~= c.open_owners.insert(o.owner, record));
    }
}

/// An OPEN_CONFIRM that is not fresh, or of a stateid that is not there, confirms nobody.
pub proof fn open_confirm_needs_a_fresh_request<H>(s: StateView<H>, sid: stateid4, seqid: seqid4, now: u64)
    ensures
        !(state_ref(sid) is Open) || !s.opens.contains_key(sid.other) ==> s.open_confirm(sid, seqid, now) == (
            s,
            Err::<stateid4, nfsstat4>(nfsstat4::NFS4ERR_BAD_STATEID),
        ),
        state_ref(sid) is Open && s.opens.contains_key(sid.other) ==> {
            let o = s.opens[sid.other];
            let (t, r) = s.open_confirm(sid, seqid, now);
            match s.client_status(o.clientid, now) {
                Err(e) => r == Err::<stateid4, nfsstat4>(e),
                Ok(_) => {
                    &&& s.clients[o.clientid].kind is V41 ==> t == s && r == Err::<stateid4, nfsstat4>(
                        nfsstat4::NFS4ERR_STALE_CLIENTID,
                    )
                    &&& s.clients[o.clientid].kind is V40 ==> match s.owner_check(
                        o.clientid,
                        o.owner,
                        OwnerSeqid::V40(seqid),
                    ) {
                        Ok(OwnerSeq::Replay(reply)) => r == reply && heard_of(s, t, o.clientid, now),
                        Ok(OwnerSeq::Fresh) => true,
                        Err(e) => r == Err::<stateid4, nfsstat4>(e) && t.opens == s.opens,
                    }
                },
            }
        },
{
    if state_ref(sid) is Open && s.opens.contains_key(sid.other) {
        let o = s.opens[sid.other];
        let u = s.renewed(o.clientid, now);
        assert(u.clients[o.clientid].open_owner(o.owner) == s.clients[o.clientid].open_owner(o.owner));
        assert(s.clients.contains_key(o.clientid) ==> u.owner_check(o.clientid, o.owner, OwnerSeqid::V40(seqid))
            == s.owner_check(o.clientid, o.owner, OwnerSeqid::V40(seqid)));
    }
}

// ---------------------------------------------------------------- CLOSE

/// A fresh CLOSE of the current version of a state takes the state, and answers with the
/// stateid that it would have had next. Of a 4.0 owner the reply is booked, and the state is
/// the owner's tombstone from then on, in place of the one that it had.
pub proof fn close_takes_the_state<H>(s: StateView<H>, sid: stateid4, seqid: seqid4, now: u64)
    requires
        state_ref(sid) is Open,
        s.opens.contains_key(sid.other),
        s.client_status(s.opens[sid.other].clientid, now) is Ok,
        s.owner_check(s.opens[sid.other].clientid, s.opens[sid.other].owner, OwnerSeqid::V40(seqid)) == Ok::<
            OwnerSeq,
            nfsstat4,
        >(OwnerSeq::Fresh),
    ensures
        ({
            let (t, r) = s.close(sid, OwnerSeqid::V40(seqid), now);
            let o = s.opens[sid.other];
            let c = s.clients[o.clientid];
            let next = stateid4 { seqid: bumped(o.seqid), other: sid.other };
            let record = c.open_owner(o.owner);
            let left = match record.retired {
                Some(previous) => s.retired.remove(previous),
                None => s.retired,
            };
            if sid.seqid == 0 || sid.seqid == o.seqid {
                &&& r == Ok::<stateid4, nfsstat4>(next)
                &&& t.opens == s.opens.remove(sid.other)
                &&& t.open_index == s.open_index.remove((o.clientid, o.owner, o.fileid))
                &&& t.sessions == s.sessions
                &&& t.by_owner == s.by_owner
                &&& c.kind is V41 ==> t.retired == s.retired && but_for_client(
                    s,
                    t,
                    o.clientid,
                    ClientView { last_renewed: now, ..c },
                )
                &&& c.kind is V40 ==> t.retired == left.insert(sid.other, (o.clientid, o.owner)) && but_for_client(
                    s,
                    t,
                    o.clientid,
                    ClientView {
                        last_renewed: now,
                        open_owners: c.open_owners.insert(
                            o.owner,
                            OwnerView {
                                last: Some((seqid, Ok(next))),
                                confirmed: record.confirmed,
                                retired: Some(sid.other),
                            },
                        ),
                        ..c
                    },
                )
            } else {
                &&& t.opens == s.opens
                &&& t.open_index == s.open_index
                &&& r == Err::<stateid4, nfsstat4>(
                    if sid.seqid < o.seqid {
                        nfsstat4::NFS4ERR_OLD_STATEID
                    } else {
                        nfsstat4::NFS4ERR_BAD_STATEID
                    },
                )
            }
        }),
{
    let o = s.opens[sid.other];
    let q = OwnerSeqid::V40(seqid);
    let u = s.renewed(o.clientid, now);
    assert(u.clients[o.clientid].open_owner(o.owner) == s.clients[o.clientid].open_owner(o.owner));
    assert(u.owner_check(o.clientid, o.owner, q) == s.owner_check(o.clientid, o.owner, q));
    let t = s.close(sid, q, now).0;
    let c = s.clients[o.clientid];
    if (sid.seqid == 0 || sid.seqid == o.seqid) && c.kind is V40 {
        let next = stateid4 { seqid: bumped(o.seqid), other: sid.other };
        let record = OwnerView {
            last: Some((seqid, Ok(next))),
            confirmed: c.open_owner(o.owner).confirmed,
            retired: Some(sid.other),
        };
        assert(t.clients[o.clientid].open_owners =~= c.open_owners.insert(o.owner, record));
    }
}

/// A CLOSE that is not fresh, or of a stateid that is not there, takes nothing: a retransmit
/// gets the reply of the first one, and a broken sequence is told as such.
pub proof fn close_needs_a_fresh_request<H>(s: StateView<H>, sid: stateid4, seqid: OwnerSeqid, now: u64)
    ensures
        !(state_ref(sid) is Open) ==> s.close(sid, seqid, now) == (
            s,
            Err::<stateid4, nfsstat4>(nfsstat4::NFS4ERR_BAD_STATEID),
        ),
        state_ref(sid) is Open ==> match s.holder(sid.other) {
            None => s.close(sid, seqid, now) == (s, Err::<stateid4, nfsstat4>(nfsstat4::NFS4ERR_BAD_STATEID)),
            Some((cid, owner)) => {
                let (t, r) = s.close(sid, seqid, now);
                match s.client_status(cid, now) {
                    Err(e) => r == Err::<stateid4, nfsstat4>(e),
                    Ok(_) => match s.owner_check(cid, owner, seqid) {
                        Ok(OwnerSeq::Replay(reply)) => r == reply && heard_of(s, t, cid, now),
                        Ok(OwnerSeq::Fresh) => !s.opens.contains_key(sid.other) ==> r == Err::<stateid4, nfsstat4>(
                            nfsstat4::NFS4ERR_BAD_STATEID,
                        ),
                        Err(e) => r == Err::<stateid4, nfsstat4>(e) && t.opens == s.opens,
                    },
                }
            },
        },
{
    if let Some((cid, owner)) = s.holder(sid.other) {
        let u = s.renewed(cid, now);
        assert(u.clients[cid].open_owner(owner) == s.clients[cid].open_owner(owner));
        assert(s.clients.contains_key(cid) ==> u.owner_check(cid, owner, seqid) == s.owner_check(cid, owner, seqid));
    }
}

/// A state is its client's and owner's; one that was just closed was theirs.
pub proof fn a_state_has_a_holder<H>(s: StateView<H>, other: Other)
    ensures
        s.opens.contains_key(other) ==> s.holder(other) == Some((s.opens[other].clientid, s.opens[other].owner)),
        !s.opens.contains_key(other) && s.retired.contains_key(other) ==> s.holder(other) == Some(s.retired[other]),
        !s.opens.contains_key(other) && !s.retired.contains_key(other) ==> s.holder(other) is None,
{
}

// ---------------------------------------------------------------- expiry

/// A client whose lease has lapsed is gone as soon as it is looked for, and a sweep takes
/// every such client: each with its sessions, states, tombstones and registration, and
/// nothing else.
pub proof fn expiry_takes_what_lapsed<H>(
    s: StateView<H>,
    cid: clientid4,
    now: u64,
    c: clientid4,
    owner: (Minor, Seq<u8>),
    id: sessionid4,
    other: Other,
    key: (clientid4, Seq<u8>, fileid4),
)
    ensures
        ({
            let expired = Err::<(), nfsstat4>(nfsstat4::NFS4ERR_EXPIRED);
            let t = s.looked_up(cid, now);
            let gone = |k: clientid4| k == cid && s.client_status(cid, now) == expired;
            &&& t.clients.contains_key(c) <==> s.clients.contains_key(c) && !gone(c)
            &&& t.by_owner.contains_key(owner) <==> s.by_owner.contains_key(owner) && !gone(s.by_owner[owner])
            &&& t.sessions.contains_key(id) <==> s.sessions.contains_key(id) && !gone(s.sessions[id].clientid)
            &&& t.opens.contains_key(other) <==> s.opens.contains_key(other) && !gone(s.opens[other].clientid)
            &&& t.open_index.contains_key(key) <==> s.open_index.contains_key(key) && !gone(key.0)
            &&& t.retired.contains_key(other) <==> s.retired.contains_key(other) && !gone(s.retired[other].0)
        }),
        ({
            let expired = Err::<(), nfsstat4>(nfsstat4::NFS4ERR_EXPIRED);
            let t = s.swept(now);
            let gone = |k: clientid4| s.client_status(k, now) == expired;
            &&& t.clients.contains_key(c) <==> s.clients.contains_key(c) && !gone(c)
            &&& t.clients.contains_key(c) ==> t.clients[c] == s.clients[c]
            &&& t.by_owner.contains_key(owner) <==> s.by_owner.contains_key(owner) && !gone(s.by_owner[owner])
            &&& t.by_owner.contains_key(owner) ==> t.by_owner[owner] == s.by_owner[owner]
            &&& t.sessions.contains_key(id) <==> s.sessions.contains_key(id) && !gone(s.sessions[id].clientid)
            &&& t.sessions.contains_key(id) ==> t.sessions[id] == s.sessions[id]
            &&& t.opens.contains_key(other) <==> s.opens.contains_key(other) && !gone(s.opens[other].clientid)
            &&& t.opens.contains_key(other) ==> t.opens[other] == s.opens[other]
            &&& t.open_index.contains_key(key) <==> s.open_index.contains_key(key) && !gone(key.0)
            &&& t.open_index.contains_key(key) ==> t.open_index[key] == s.open_index[key]
            &&& t.retired.contains_key(other) <==> s.retired.contains_key(other) && !gone(s.retired[other].0)
            &&& t.retired.contains_key(other) ==> t.retired[other] == s.retired[other]
            &&& t.lease == s.lease
            &&& t.epoch == s.epoch
        }),
{
}

// ---------------------------------------------------------------- ids

/// A clientid is this boot's epoch and what was drawn, in that order, unless a client has
/// it. A session id and the `other` of a stateid are what was drawn, unless they are taken,
/// the latter by a state that is open or was just closed.
pub proof fn ids_are_what_was_drawn<H>(s: StateView<H>, low: u32, cid: clientid4, id: sessionid4, other: Other)
    requires
        cid == s.epoch * 0x1_0000_0000 + low,
    ensures
        s.clientid_drawn(low) == (if s.clients.contains_key(cid) { None } else { Some(cid) }),
        s.clientid_drawn(low) matches Some(c) ==> s.fresh_clientid(c),
        s.sessionid_drawn(id) == (if s.sessions.contains_key(id) { None } else { Some(id) }),
        s.other_drawn(other) == (if s.opens.contains_key(other) || s.retired.contains_key(other) {
            None
        } else {
            Some(other)
        }),
        s.fresh_clientid(cid) <==> !s.clients.contains_key(cid),
        s.fresh_sessionid(id) <==> !s.sessions.contains_key(id),
        s.fresh_other(other) <==> !s.opens.contains_key(other) && !s.retired.contains_key(other),
{
}

// ---------------------------------------------------------------- small parts

/// A server that has just started knows nobody.
pub proof fn a_fresh_server_knows_nobody<H>(
    lease: u64,
    epoch: u32,
    cid: clientid4,
    owner: (Minor, Seq<u8>),
    id: sessionid4,
    other: Other,
    key: (clientid4, Seq<u8>, fileid4),
)
    ensures
        ({
            let s = StateView::<H>::empty(lease, epoch);
            &&& s.lease == lease
            &&& s.epoch == epoch
            &&& !s.clients.contains_key(cid)
            &&& !s.by_owner.contains_key(owner)
            &&& !s.sessions.contains_key(id)
            &&& !s.opens.contains_key(other)
            &&& !s.open_index.contains_key(key)
            &&& !s.retired.contains_key(other)
        }),
{
}

/// A stateid of nothing but zeros is anonymous, one of nothing but ones bypasses, whatever
/// its seqid. Any other one names the state of its `other`, and a seqid of 0 its current
/// version.
pub proof fn a_stateid_refers_to_a_state(sid: stateid4)
    ensures
        ({
            let zeros = forall|i: int| 0 <= i < 12 ==> #[trigger] sid.other@[i] == 0;
            let ones = forall|i: int| 0 <= i < 12 ==> #[trigger] sid.other@[i] == 0xff;
            state_ref(sid) == (if zeros {
                StateRef::Anonymous
            } else if ones {
                StateRef::Bypass
            } else {
                StateRef::Open { other: sid.other, seqid: if sid.seqid == 0 { None } else { Some(sid.seqid) } }
            })
        }),
{
}

/// A version is current if it is not given or is the one that the state has; an earlier one
/// is old, and a later one is bad.
pub proof fn a_version_is_current_old_or_bad(current: u32, version: u32)
    ensures
        seqid_status(current, None) is Ok,
        seqid_status(current, Some(current)) is Ok,
        version < current ==> seqid_status(current, Some(version)) == Err::<(), nfsstat4>(
            nfsstat4::NFS4ERR_OLD_STATEID,
        ),
        version > current ==> seqid_status(current, Some(version)) == Err::<(), nfsstat4>(
            nfsstat4::NFS4ERR_BAD_STATEID,
        ),
{
}

/// A session is its client's, and one that is not there is nobody's.
pub proof fn a_session_has_a_client<H>(s: StateView<H>, id: sessionid4)
    ensures
        s.session_client(id) == (if s.sessions.contains_key(id) {
            Ok::<clientid4, nfsstat4>(s.sessions[id].clientid)
        } else {
            Err(nfsstat4::NFS4ERR_BADSESSION)
        }),
{
}

/// Only a 4.0 open-owner that has not been confirmed needs to be.
pub proof fn confirmation_is_for_40_owners<H>(s: StateView<H>, cid: clientid4, owner: Seq<u8>)
    ensures
        s.confirm_needed(cid, owner) <==> {
            &&& s.clients.contains_key(cid)
            &&& s.clients[cid].kind is V40
            &&& !(s.clients[cid].open_owners.contains_key(owner) && s.clients[cid].open_owners[owner].confirmed)
        },
        s.clients.contains_key(cid) ==> (s.clients[cid].is_confirmed() <==> match s.clients[cid].kind {
            KindView::V40 { confirmed, .. } => confirmed,
            KindView::V41 { sessions, .. } => sessions.len() > 0,
        }),
{
}

/// An open state that goes takes its entry in the index with it, and nothing else.
pub proof fn a_state_goes_with_its_entry<H>(s: StateView<H>, other: Other)
    ensures
        ({
            let t = s.without_open(other);
            let o = s.opens[other];
            &&& t.opens == s.opens.remove(other)
            &&& t.open_index == s.open_index.remove((o.clientid, o.owner, o.fileid))
            &&& t.clients == s.clients
            &&& t.sessions == s.sessions
            &&& t.retired == s.retired
            &&& t.by_owner == s.by_owner
        }),
{
}

/// A client that goes takes all that it owns with it, and nothing else.
pub proof fn a_client_goes_with_all_it_owns<H>(
    s: StateView<H>,
    cid: clientid4,
    c: clientid4,
    owner: (Minor, Seq<u8>),
    id: sessionid4,
    other: Other,
    key: (clientid4, Seq<u8>, fileid4),
)
    ensures
        ({
            let t = s.without_client(cid);
            &&& t.clients.contains_key(c) <==> s.clients.contains_key(c) && c != cid
            &&& t.clients.contains_key(c) ==> t.clients[c] == s.clients[c]
            &&& t.by_owner.contains_key(owner) <==> s.by_owner.contains_key(owner) && s.by_owner[owner] != cid
            &&& t.sessions.contains_key(id) <==> s.sessions.contains_key(id) && s.sessions[id].clientid != cid
            &&& t.sessions.contains_key(id) ==> t.sessions[id] == s.sessions[id]
            &&& t.opens.contains_key(other) <==> s.opens.contains_key(other) && s.opens[other].clientid != cid
            &&& t.opens.contains_key(other) ==> t.opens[other] == s.opens[other]
            &&& t.open_index.contains_key(key) <==> s.open_index.contains_key(key) && key.0 != cid
            &&& t.retired.contains_key(other) <==> s.retired.contains_key(other) && s.retired[other].0 != cid
        }),
{
}

/// The seqid of a request counts for a 4.0 client only. A 4.0 client without one is invalid.
pub proof fn a_seqid_counts_for_40_clients<H>(s: StateView<H>, cid: clientid4, seqid: seqid4)
    ensures
        ({
            let given = s.owner_seqid_for(cid, OwnerSeqid::V40(seqid));
            let none = s.owner_seqid_for(cid, OwnerSeqid::V41);
            if !s.clients.contains_key(cid) {
                &&& given == Err::<Option<seqid4>, nfsstat4>(nfsstat4::NFS4ERR_STALE_CLIENTID)
                &&& none == given
            } else if s.clients[cid].kind is V40 {
                &&& given == Ok::<Option<seqid4>, nfsstat4>(Some(seqid))
                &&& none == Err::<Option<seqid4>, nfsstat4>(nfsstat4::NFS4ERR_INVAL)
            } else {
                &&& given == Ok::<Option<seqid4>, nfsstat4>(None)
                &&& none == given
            }
        }),
{
}

} // verus!
