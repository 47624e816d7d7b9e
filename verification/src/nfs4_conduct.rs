//! What the operations of the server that speaks sessions only are for: what each one makes
//! of the state, and what it answers, byte by byte.

use vstd::prelude::*;

use crate::model::Model;
use crate::nfs4::compound::SequenceContext;
use crate::nfs4::handlers::session_ops::{server_major_id, server_scope};
use crate::nfs4::handlers::standing::{channel, channel_bytes, lesser};
use crate::nfs4::handlers::wire::{channel_asked, number_42, number_43, number_44, number_53, number_57};
use crate::nfs4::session::{
    channel_attrs4, CREATE_SESSION4args, CREATE_SESSION4resok, DESTROY_CLIENTID4args, DESTROY_SESSION4args,
    EXCHANGE_ID4args, EXCHANGE_ID4resok, SEQUENCE4args, SEQUENCE4resok,
};
use crate::nfs4::{clientid4, nfs_opnum4, nfsstat4, sequenceid4, sessionid4, slotid4, stateid4, verifier4};
use crate::nfs4_handlers::{answer, compounds, effect, reads, run_one, Draws, Outcome, Run};
use crate::nfs4_state::{
    ClientView, CloseOutcome, CreateSessionOutcome, DestroyClientIdOutcome, ExchangeIdResult, OpenOutcome, OpenView,
    Other, ResolveStateid, SequenceView, SessionView, SlotView, StateView,
};
use crate::word::{be32, be32_len};
use crate::xdr::{be64, XdrError, XDR};

verus! {

broadcast use be32_len;

/// The same but for one owner's client, which is this one now.
pub open spec fn but_for_owner(s: StateView, t: StateView, owner: Seq<u8>, c: ClientView) -> bool {
    &&& t.clients == s.clients.insert(owner, c)
    &&& t.lease == s.lease
    &&& t.boot_verifier == s.boot_verifier
    &&& t.index == s.index
    &&& t.opens == s.opens
    &&& t.owners == s.owners
}

/// The successor of a 32-bit counter, which starts over at 0.
pub open spec fn comes_next(next: u32, last: u32) -> bool {
    next == (last + 1) % 0x1_0000_0000
}

// ---------------------------------------------------------------- the state

/// EXCHANGE_ID of a client that is known by its verifier repeats what it was told, and
/// changes nothing. Any other one is registered anew under the id that was drawn, with a
/// lease from now on, and the sessions of its last life are gone.
pub proof fn exchange_id_registers(
    s: StateView,
    owner: Seq<u8>,
    verifier: verifier4,
    now: u64,
    cid: clientid4,
    id: sessionid4,
)
    requires
        s.inv(),
        s.fresh_clientid(cid),
        now + s.lease <= u64::MAX,
    ensures
        ({
            let (t, r) = s.exchange_id(owner, verifier, now, Some(cid));
            let c = s.clients[owner];
            if s.clients.contains_key(owner) && c.verifier == verifier {
                &&& t == s
                &&& r == Some(ExchangeIdResult { clientid: c.clientid, seqid: c.seqid })
            } else {
                &&& r == Some(ExchangeIdResult { clientid: cid, seqid: 1 })
                &&& t.clients == s.clients.insert(
                    owner,
                    ClientView {
                        clientid: cid,
                        verifier,
                        seqid: 1,
                        confirmed: false,
                        sessions: Seq::empty(),
                        made: None,
                        expires: (now + s.lease) as u64,
                        reclaim_complete: false,
                    },
                )
                &&& t.index.contains_key(cid)
                &&& t.index[cid] == owner
                &&& s.clients.contains_key(owner) ==> !t.index.contains_key(c.clientid)
                &&& t.sessions.contains_key(id) <==> s.sessions.contains_key(id) && !(s.clients.contains_key(owner)
                    && s.sessions[id].clientid == c.clientid)
                &&& t.sessions.contains_key(id) ==> t.sessions[id] == s.sessions[id]
                &&& t.opens == s.opens
                &&& t.owners == s.owners
            }
        }),
        !s.clients.contains_key(owner) ==> s.exchange_id(owner, verifier, now, None) == (
            s,
            None::<ExchangeIdResult>,
        ),
{
    let (t, r) = s.exchange_id(owner, verifier, now, Some(cid));
    if s.clients.contains_key(owner) && s.clients[owner].verifier != verifier {
        assert(t.clients =~= s.clients.insert(owner, t.clients[owner]));
    }
}

/// CREATE_SESSION with the sequence that is expected makes a session of the client, with as
/// many unused slots as were asked for, at least one, and expects the next sequence from
/// then on. With the sequence before it, it names the session that was made last, while
/// that lives, and changes nothing. Any other sequence is out of order.
pub proof fn create_session_makes_a_session(
    s: StateView,
    cid: clientid4,
    sequence: sequenceid4,
    slots: u32,
    fore: <channel_attrs4 as Model>::M,
    back: <channel_attrs4 as Model>::M,
    id: sessionid4,
)
    ensures
        ({
            let (t, r) = s.create_session(cid, sequence, slots, fore, back, Some(id));
            let c = s.clients[s.index[cid]];
            let made = t.sessions[id];
            if !s.index.contains_key(cid) {
                t == s && r == Some(CreateSessionOutcome::StaleClientId)
            } else if sequence == c.seqid {
                &&& r == Some(CreateSessionOutcome::Created { sessionid: id })
                &&& t.sessions == s.sessions.insert(id, made)
                &&& made.clientid == cid
                &&& made.fore == fore
                &&& made.back == back
                &&& made.slots.len() == (if slots == 0 { 1 } else { slots as int })
                &&& forall|i: int|
                    0 <= i < made.slots.len() ==> #[trigger] made.slots[i] == (SlotView {
                        last_seqid: 0,
                        cached: None,
                    })
                &&& exists|next: u32| #[trigger]
                    comes_next(next, c.seqid) && but_for_owner(
                        s,
                        t,
                        s.index[cid],
                        ClientView {
                            confirmed: true,
                            seqid: next,
                            sessions: c.sessions.push(id),
                            made: Some(id),
                            ..c
                        },
                    )
            } else if comes_next(c.seqid, sequence) && c.made is Some {
                t == s && r == Some(CreateSessionOutcome::Replay { sessionid: c.made->0 })
            } else {
                t == s && r == Some(CreateSessionOutcome::SeqMisordered)
            }
        }),
        s.index.contains_key(cid) && sequence == s.clients[s.index[cid]].seqid ==> s.create_session(
            cid,
            sequence,
            slots,
            fore,
            back,
            None,
        ) == (s, None::<CreateSessionOutcome>),
{
    let c = s.clients[s.index[cid]];
    let next: u32 = if c.seqid == u32::MAX { 0 } else { (c.seqid + 1) as u32 };
    assert(comes_next(next, c.seqid));
}

/// SEQUENCE goes by the slot: the request after its last one is new, its last one is a
/// retransmit, and any other is out of order. What is accepted, new or not, renews the
/// lease of the client whose session it is.
pub proof fn sequence_goes_by_the_slot(
    s: StateView,
    id: sessionid4,
    slot: slotid4,
    seqid: sequenceid4,
    now: u64,
    cid: clientid4,
    v: SlotView,
)
    requires
        s.inv(),
        now + s.lease <= u64::MAX,
        s.sessions.contains_key(id),
        cid == s.sessions[id].clientid,
        s.clients[s.index[cid]].expires >= now,
        slot < s.sessions[id].slots.len(),
        v == s.sessions[id].slots[slot as int],
    ensures
        ({
            let (t, r) = s.sequence_check(id, slot, seqid, now);
            let owner = s.index[cid];
            let heard = ClientView { expires: (now + s.lease) as u64, ..s.clients[owner] };
            if seqid == v.last_seqid {
                &&& match v.cached {
                    Some(reply) => r == SequenceView::Replay(reply),
                    None => r == SequenceView::RetryUncached,
                }
                &&& but_for_owner(s, t, owner, heard)
                &&& t.sessions == s.sessions
            } else if comes_next(seqid, v.last_seqid) {
                &&& r == SequenceView::New
                &&& but_for_owner(s, t, owner, heard)
                &&& t.sessions == s.sessions.insert(
                    id,
                    SessionView {
                        slots: s.sessions[id].slots.update(slot as int, SlotView { last_seqid: seqid, cached: None }),
                        ..s.sessions[id]
                    },
                )
            } else {
                t == s && r == SequenceView::Misordered
            }
        }),
{
}

/// A client whose request was accepted lives for a lease from then on, and no longer: its
/// next request within the lease finds its session, and one after it does not.
pub proof fn an_accepted_request_renews_the_lease(
    s: StateView,
    id: sessionid4,
    slot: slotid4,
    seqid: sequenceid4,
    now: u64,
    later: u64,
)
    requires
        s.inv(),
        now + s.lease <= u64::MAX,
        now <= later,
        s.sequence_check(id, slot, seqid, now).1 is New || s.sequence_check(id, slot, seqid, now).1 is Replay
            || s.sequence_check(id, slot, seqid, now).1 is RetryUncached,
    ensures
        s.sequence_check(id, slot, seqid, now).0.sequence_check(id, slot, seqid, later).1 is BadSession <==> later
            > now + s.lease,
{
}

/// SEQUENCE in a session that is not known, or whose client's lease has run out, is in a bad
/// session, and one on a slot that the session does not have is on a bad slot. A client
/// whose lease has run out is gone, with its sessions and opens.
pub proof fn sequence_needs_a_session_and_a_slot(
    s: StateView,
    id: sessionid4,
    slot: slotid4,
    seqid: sequenceid4,
    now: u64,
    other: sessionid4,
    open: Other,
)
    requires
        s.inv(),
    ensures
        ({
            let (t, r) = s.sequence_check(id, slot, seqid, now);
            let cid = s.sessions[id].clientid;
            let owner = s.index[cid];
            if !s.sessions.contains_key(id) {
                t == s && r == SequenceView::BadSession
            } else if s.clients[owner].expires < now {
                &&& r == SequenceView::BadSession
                &&& !t.clients.contains_key(owner)
                &&& !t.index.contains_key(cid)
                &&& t.sessions.contains_key(other) <==> s.sessions.contains_key(other) && s.sessions[other].clientid
                    != cid
                &&& t.opens.contains_key(open) <==> s.opens.contains_key(open) && s.opens[open].clientid != cid
            } else {
                slot >= s.sessions[id].slots.len() ==> t == s && r == SequenceView::BadSlot
            }
        }),
{
}

/// A reply is kept in the slot whose last request it answers, and nowhere else.
pub proof fn a_reply_is_kept_in_its_slot(
    s: StateView,
    id: sessionid4,
    slot: slotid4,
    seqid: sequenceid4,
    reply: Seq<u8>,
)
    ensures
        ({
            let t = s.reply_cached(id, slot, seqid, reply);
            let kept = s.sessions.contains_key(id) && slot < s.sessions[id].slots.len()
                && s.sessions[id].slots[slot as int].last_seqid == seqid;
            &&& !kept ==> t == s
            &&& kept ==> t.sessions == s.sessions.insert(
                id,
                SessionView {
                    slots: s.sessions[id].slots.update(
                        slot as int,
                        SlotView { last_seqid: seqid, cached: Some(reply) },
                    ),
                    ..s.sessions[id]
                },
            ) && t.clients == s.clients && t.index == s.index && t.opens == s.opens && t.owners == s.owners
        }),
{
}

/// DESTROY_SESSION takes that session, also from its client's list, and nothing else.
pub proof fn destroy_session_takes_the_session(s: StateView, id: sessionid4, other: sessionid4)
    requires
        s.inv(),
        other != id,
    ensures
        ({
            let t = s.without_session(id);
            let cid = s.sessions[id].clientid;
            let owner = s.index[cid];
            let c = s.clients[owner];
            &&& !s.sessions.contains_key(id) ==> t == s
            &&& s.sessions.contains_key(id) ==> {
                &&& t.sessions == s.sessions.remove(id)
                &&& t.clients[owner].sessions.contains(other) == c.sessions.contains(other)
                &&& !t.clients[owner].sessions.contains(id)
                &&& but_for_owner(
                    s,
                    t,
                    owner,
                    ClientView {
                        sessions: t.clients[owner].sessions,
                        made: if c.made == Some(id) { None } else { c.made },
                        ..c
                    },
                )
            }
        }),
{
    if s.sessions.contains_key(id) {
        let c = s.clients[s.index[s.sessions[id].clientid]];
        crate::nfs4::state_inv::filter_keeps_order(c.sessions, crate::nfs4::state_spec::other_than(id));
    }
}

/// DESTROY_CLIENTID takes a client with all that it owns, unless it is unknown or has a
/// session.
pub proof fn destroy_clientid_takes_everything(
    s: StateView,
    cid: clientid4,
    owner: Seq<u8>,
    id: sessionid4,
    open: Other,
)
    requires
        s.inv(),
    ensures
        ({
            let (t, r) = s.destroy_clientid(cid);
            if !s.index.contains_key(cid) {
                t == s && r == DestroyClientIdOutcome::StaleClientId
            } else if s.clients[s.index[cid]].sessions.len() > 0 {
                t == s && r == DestroyClientIdOutcome::Busy
            } else {
                &&& r == DestroyClientIdOutcome::Destroyed
                &&& !t.index.contains_key(cid)
                &&& t.clients.contains_key(owner) <==> s.clients.contains_key(owner) && owner != s.index[cid]
                &&& t.clients.contains_key(owner) ==> t.clients[owner] == s.clients[owner]
                &&& t.sessions.contains_key(id) <==> s.sessions.contains_key(id) && s.sessions[id].clientid != cid
                &&& t.opens.contains_key(open) <==> s.opens.contains_key(open) && !(s.opens[open].clientid == cid)
            }
        }),
{
    let (t, r) = s.destroy_clientid(cid);
    if s.index.contains_key(cid) && s.sessions.contains_key(id) {
        assert(s.index.contains_key(s.sessions[id].clientid));
    }
}

/// RECLAIM_COMPLETE marks the client of that session, and nothing else.
pub proof fn reclaim_complete_marks_the_client(s: StateView, id: sessionid4)
    ensures
        !s.sessions.contains_key(id) ==> s.reclaimed(id) == s,
        s.sessions.contains_key(id) ==> {
            let owner = s.index[s.sessions[id].clientid];
            &&& but_for_owner(s, s.reclaimed(id), owner, ClientView { reclaim_complete: true, ..s.clients[owner] })
            &&& s.reclaimed(id).sessions == s.sessions
        },
{
}

/// OPEN gives a new stateid of that file for that client, owner and shares, with the seqid
/// 1, and keeps the owner's seqid.
pub proof fn open_makes_a_state(
    s: StateView,
    cid: clientid4,
    owner: Seq<u8>,
    owner_seqid: u32,
    fileid: u64,
    share_access: u32,
    share_deny: u32,
    other: Other,
)
    ensures
        ({
            let (t, r) = s.open(cid, owner, owner_seqid, fileid, share_access, share_deny, Some(other));
            if !s.index.contains_key(cid) {
                t == s && r == Some(OpenOutcome::StaleClientId)
            } else {
                &&& r == Some(OpenOutcome::Opened { stateid: stateid4 { seqid: 1, other } })
                &&& t.opens == s.opens.insert(
                    other,
                    OpenView { clientid: cid, owner, fileid, seqid: 1, share_access, share_deny },
                )
                &&& t.owners == s.owners.insert((cid, owner), owner_seqid)
                &&& t.clients == s.clients
                &&& t.sessions == s.sessions
                &&& t.index == s.index
            }
        }),
        s.index.contains_key(cid) ==> s.open(cid, owner, owner_seqid, fileid, share_access, share_deny, None) == (
            s,
            None::<OpenOutcome>,
        ),
{
}

/// A stateid of nothing but zeros or ones is special, one that is open resolves to its file
/// and its share, and any other is bad.
pub proof fn a_stateid_resolves(s: StateView, sid: stateid4)
    ensures
        ({
            let zeros = forall|i: int| 0 <= i < 12 ==> #[trigger] sid.other@[i] == 0;
            let ones = forall|i: int| 0 <= i < 12 ==> #[trigger] sid.other@[i] == 0xff;
            let o = s.opens[sid.other];
            s.resolve_stateid(sid) == (if zeros || ones {
                ResolveStateid::Special
            } else if s.opens.contains_key(sid.other) {
                ResolveStateid::Open { fileid: o.fileid, share_access: o.share_access }
            } else {
                ResolveStateid::Bad
            })
        }),
{
}

/// CLOSE takes the open of that stateid and nothing else, and answers with the stateid that
/// it would have had next.
pub proof fn close_takes_the_open(s: StateView, sid: stateid4)
    ensures
        ({
            let (t, r) = s.close(sid);
            if s.opens.contains_key(sid.other) {
                &&& r matches CloseOutcome::Closed { stateid } && stateid.other == sid.other && comes_next(
                    stateid.seqid,
                    s.opens[sid.other].seqid,
                )
                &&& t.opens == s.opens.remove(sid.other)
                &&& t.clients == s.clients
                &&& t.sessions == s.sessions
                &&& t.index == s.index
                &&& t.owners == s.owners
            } else {
                t == s && r == CloseOutcome::Bad
            }
        }),
{
}

/// A lease that has run out takes its client with all that is its own, and no other.
pub proof fn a_sweep_takes_what_lapsed(
    s: StateView,
    now: u64,
    owner: Seq<u8>,
    cid: clientid4,
    id: sessionid4,
    open: Other,
    key: (clientid4, Seq<u8>),
)
    requires
        s.inv(),
    ensures
        ({
            let t = s.without(s.lapsed(now));
            let gone = |c: clientid4| s.index.contains_key(c) && s.clients[s.index[c]].expires < now;
            &&& t.clients.contains_key(owner) <==> s.clients.contains_key(owner) && s.clients[owner].expires >= now
            &&& t.clients.contains_key(owner) ==> t.clients[owner] == s.clients[owner]
            &&& t.index.contains_key(cid) <==> s.index.contains_key(cid) && !gone(cid)
            &&& t.sessions.contains_key(id) <==> s.sessions.contains_key(id) && !gone(s.sessions[id].clientid)
            &&& t.sessions.contains_key(id) ==> t.sessions[id] == s.sessions[id]
            &&& t.opens.contains_key(open) <==> s.opens.contains_key(open) && !gone(s.opens[open].clientid)
            &&& t.opens.contains_key(open) ==> t.opens[open] == s.opens[open]
            &&& t.owners.contains_key(key) <==> s.owners.contains_key(key) && !gone(key.0)
            &&& t.lease == s.lease
            &&& t.boot_verifier == s.boot_verifier
        }),
{
}

/// An owner that is made to expire takes its client with all that is its own, and no other.
pub proof fn an_expired_owner_takes_all_it_owns(
    s: StateView,
    gone: Seq<u8>,
    owner: Seq<u8>,
    cid: clientid4,
    id: sessionid4,
    open: Other,
    key: (clientid4, Seq<u8>),
)
    ensures
        ({
            let t = s.without(set![gone]);
            let its = |c: clientid4| s.index.contains_key(c) && s.index[c] == gone;
            &&& t.clients.contains_key(owner) <==> s.clients.contains_key(owner) && owner != gone
            &&& t.clients.contains_key(owner) ==> t.clients[owner] == s.clients[owner]
            &&& t.index.contains_key(cid) <==> s.index.contains_key(cid) && !its(cid)
            &&& t.sessions.contains_key(id) <==> s.sessions.contains_key(id) && !its(s.sessions[id].clientid)
            &&& t.sessions.contains_key(id) ==> t.sessions[id] == s.sessions[id]
            &&& t.opens.contains_key(open) <==> s.opens.contains_key(open) && !its(s.opens[open].clientid)
            &&& t.opens.contains_key(open) ==> t.opens[open] == s.opens[open]
            &&& t.owners.contains_key(key) <==> s.owners.contains_key(key) && !its(key.0)
        }),
{
}

/// A server that has just started knows nobody.
pub proof fn a_fresh_server_knows_nobody(
    lease: u64,
    boot_verifier: u32,
    owner: Seq<u8>,
    cid: clientid4,
    id: sessionid4,
    open: Other,
)
    ensures
        ({
            let s = StateView::empty(lease, boot_verifier);
            &&& s.lease == lease
            &&& s.boot_verifier == boot_verifier
            &&& !s.clients.contains_key(owner)
            &&& !s.index.contains_key(cid)
            &&& !s.sessions.contains_key(id)
            &&& !s.opens.contains_key(open)
        }),
{
}

/// An id is this boot's verifier and what was drawn, or what was drawn, unless it is taken.
pub proof fn ids_are_what_was_drawn(s: StateView, low: u32, cid: clientid4, id: sessionid4, other: Other)
    requires
        cid == s.boot_verifier * 0x1_0000_0000 + low,
    ensures
        s.clientid_drawn(low) == (if s.index.contains_key(cid) { None } else { Some(cid) }),
        s.clientid_drawn(low) matches Some(c) ==> s.fresh_clientid(c),
        s.sessionid_drawn(id) == (if s.sessions.contains_key(id) { None } else { Some(id) }),
        s.other_drawn(other) == (if s.opens.contains_key(other) { None } else { Some(other) }),
{
}

// ---------------------------------------------------------------- the answers

/// The COMPOUND has come past an operation of this number, which took that many bytes of
/// arguments, with this status and result.
pub open spec fn went_on(
    o: Outcome,
    run: Run,
    opnum: u32,
    taken: nat,
    session: Option<SequenceContext>,
    st: StateView,
    status: nfsstat4,
    result: Seq<u8>,
) -> bool {
    o == Outcome::Going(
        Run {
            pos: run.pos + 4 + taken,
            session,
            rescount: run.rescount + 1,
            results: run.results + be32(opnum) + (be32(status.number()) + result),
            last_status: status,
        },
        st,
    )
}

proof fn number_read(before: Seq<u8>, opnum: u32, args: Seq<u8>, rest: Seq<u8>)
    ensures
        ({
            let input = before + (be32(opnum) + (args + rest));
            &&& u32::decode(input.skip(before.len() as int)) == Ok::<(u32, nat), XdrError>((opnum, 4))
            &&& input.skip((before.len() + 4) as int) == args + rest
        }),
{
    let input = before + (be32(opnum) + (args + rest));
    assert(input.skip(before.len() as int) =~= be32(opnum) + (args + rest));
    u32::round_trip(opnum, args + rest);
    assert(input.skip((before.len() + 4) as int) =~= args + rest);
}

/// SEQUENCE, first in a COMPOUND: what the slot says is what is answered. A new request runs
/// in its slot from then on, and a retransmit is answered by what was cached.
pub proof fn sequence_is_answered(
    run: Run,
    st: StateView,
    before: Seq<u8>,
    id: sessionid4,
    seqid: u32,
    slot: u32,
    highest: u32,
    cache_this: bool,
    rest: Seq<u8>,
    port: u16,
    now: u64,
    d: Draws,
)
    requires
        run.pos == before.len(),
    ensures
        ({
            let args = id@ + be32(seqid) + be32(slot) + be32(highest) + be32(if cache_this { 1 } else { 0 });
            let o = run_one(run, st, before + (be32(53) + (args + rest)), port, now, d);
            let (t, r) = st.sequence_check(id, slot, seqid, now);
            let fails = |st: StateView, status: nfsstat4|
                went_on(o, run, 53, 32, run.session, st, status, Seq::empty());
            if run.rescount != 0 {
                fails(st, nfsstat4::NFS4ERR_SEQUENCE_POS)
            } else {
                match r {
                    SequenceView::New => went_on(
                        o,
                        run,
                        53,
                        32,
                        Some(SequenceContext { sessionid: id, slotid: slot, sequenceid: seqid, cache_this }),
                        t,
                        nfsstat4::NFS4_OK,
                        id@ + be32(seqid) + be32(slot) + be32(0) + be32(0) + be32(0),
                    ),
                    SequenceView::Replay(b) => o == Outcome::Replayed(b, t),
                    SequenceView::RetryUncached => fails(t, nfsstat4::NFS4ERR_RETRY_UNCACHED_REP),
                    SequenceView::Misordered => fails(t, nfsstat4::NFS4ERR_SEQ_MISORDERED),
                    SequenceView::BadSession => fails(t, nfsstat4::NFS4ERR_BADSESSION),
                    SequenceView::BadSlot => fails(t, nfsstat4::NFS4ERR_BADSLOT),
                }
            }
        }),
{
    let args = id@ + be32(seqid) + be32(slot) + be32(highest) + be32(if cache_this { 1 } else { 0 });
    let m = (id, (seqid, (slot, (highest, cache_this))));
    number_read(before, 53, args, rest);
    number_53();
    assert(SEQUENCE4args::encode(m) =~= args);
    SEQUENCE4args::round_trip(m, rest);
    reveal(reads);
    reveal(effect);
    bare_statuses();
    assert(SEQUENCE4resok::encode((id, (seqid, (slot, (0u32, (0u32, 0u32)))))) =~= id@ + be32(seqid) + be32(slot)
        + be32(0) + be32(0) + be32(0));
}

proof fn bare_statuses()
    ensures
        forall|s: nfsstat4| #[trigger] be32(s.number()) + Seq::<u8>::empty() == be32(s.number()),
{
    assert forall|s: nfsstat4| #[trigger] be32(s.number()) + Seq::<u8>::empty() == be32(s.number()) by {
        assert(be32(s.number()) + Seq::<u8>::empty() =~= be32(s.number()));
    }
}

/// DESTROY_SESSION destroys that session. A COMPOUND that runs in it runs in none from then
/// on.
pub proof fn destroy_session_is_answered(
    run: Run,
    st: StateView,
    before: Seq<u8>,
    id: sessionid4,
    rest: Seq<u8>,
    port: u16,
    now: u64,
    d: Draws,
)
    requires
        run.pos == before.len(),
    ensures
        ({
            let o = run_one(run, st, before + (be32(44) + (id@ + rest)), port, now, d);
            let session = match run.session {
                Some(c) => if c.sessionid == id { None } else { Some(c) },
                None => None,
            };
            if st.sessions.contains_key(id) {
                went_on(o, run, 44, 16, session, st.without_session(id), nfsstat4::NFS4_OK, Seq::empty())
            } else {
                went_on(o, run, 44, 16, session, st, nfsstat4::NFS4ERR_BADSESSION, Seq::empty())
            }
        }),
{
    number_read(before, 44, id@, rest);
    number_44();
    assert(DESTROY_SESSION4args::encode(id) =~= id@);
    DESTROY_SESSION4args::round_trip(id, rest);
    reveal(reads);
    reveal(effect);
    bare_statuses();
}

/// DESTROY_CLIENTID destroys that client, or says why it cannot.
pub proof fn destroy_clientid_is_answered(
    run: Run,
    st: StateView,
    before: Seq<u8>,
    cid: clientid4,
    rest: Seq<u8>,
    port: u16,
    now: u64,
    d: Draws,
)
    requires
        run.pos == before.len(),
    ensures
        ({
            let o = run_one(run, st, before + (be32(57) + (be64(cid) + rest)), port, now, d);
            let (t, r) = st.destroy_clientid(cid);
            went_on(
                o,
                run,
                57,
                8,
                run.session,
                t,
                match r {
                    DestroyClientIdOutcome::Destroyed => nfsstat4::NFS4_OK,
                    DestroyClientIdOutcome::StaleClientId => nfsstat4::NFS4ERR_STALE_CLIENTID,
                    DestroyClientIdOutcome::Busy => nfsstat4::NFS4ERR_CLIENTID_BUSY,
                },
                Seq::empty(),
            )
        }),
{
    number_read(before, 57, be64(cid), rest);
    number_57();
    assert(DESTROY_CLIENTID4args::encode(cid) =~= be64(cid));
    DESTROY_CLIENTID4args::round_trip(cid, rest);
    reveal(reads);
    reveal(effect);
    bare_statuses();
}

/// EXCHANGE_ID without state protection answers with the client's id, the sequence of its
/// next CREATE_SESSION, that the server does no parallel access, and who the server is.
pub proof fn exchange_id_is_answered(
    run: Run,
    st: StateView,
    before: Seq<u8>,
    verifier: verifier4,
    owner: Seq<u8>,
    flags: u32,
    rest: Seq<u8>,
    port: u16,
    now: u64,
    d: Draws,
)
    requires
        run.pos == before.len(),
        owner.len() <= u32::MAX,
    ensures
        ({
            let args = verifier@ + Vec::<u8>::encode(owner) + be32(flags) + be32(0) + be32(0);
            let o = run_one(run, st, before + (be32(42) + (args + rest)), port, now, d);
            let (t, r) = st.exchange_id(owner, verifier, now, d.clientid);
            match r {
                None => went_on(
                    o,
                    run,
                    42,
                    args.len(),
                    run.session,
                    t,
                    nfsstat4::NFS4ERR_SERVERFAULT,
                    Seq::empty(),
                ),
                Some(x) => went_on(
                    o,
                    run,
                    42,
                    args.len(),
                    run.session,
                    t,
                    nfsstat4::NFS4_OK,
                    be64(x.clientid) + be32(x.seqid) + be32(0x1_0000) + be32(0) + be64(0) + Vec::<u8>::encode(
                        server_major_id(port),
                    ) + Vec::<u8>::encode(server_scope()) + be32(0),
                ),
            }
        }),
{
    let args = verifier@ + Vec::<u8>::encode(owner) + be32(flags) + be32(0) + be32(0);
    let m = (
        (verifier, owner),
        (flags, ((crate::nfs4::session::state_protect_how4::SP4_NONE, None, None), None)),
    );
    number_read(before, 42, args, rest);
    number_42();
    assert(EXCHANGE_ID4args::encode(m) =~= args);
    EXCHANGE_ID4args::round_trip(m, rest);
    let (t, r) = st.exchange_id(owner, verifier, now, d.clientid);
    if let Some(x) = r {
        let e = crate::nfs4::handlers::session_ops::exchange_id_result(x.clientid, x.seqid, port);
        assert(EXCHANGE_ID4resok::encode(e) =~= be64(x.clientid) + be32(x.seqid) + be32(0x1_0000) + be32(0) + be64(0)
            + Vec::<u8>::encode(server_major_id(port)) + Vec::<u8>::encode(server_scope()) + be32(0));
    }
    reveal(reads);
    reveal(effect);
    bare_statuses();
}

/// An operation that is not there is answered as an illegal one, and one that is not
/// implemented as not supported; neither reads arguments or changes anything.
pub proof fn other_operations_are_refused(
    run: Run,
    st: StateView,
    before: Seq<u8>,
    op: nfs_opnum4,
    opnum: u32,
    rest: Seq<u8>,
    port: u16,
    now: u64,
    d: Draws,
)
    requires
        run.pos == before.len(),
        nfs_opnum4::of_number(opnum) is None || nfs_opnum4::of_number(opnum) == Some(op) && op.number() != 42
            && op.number() != 43 && op.number() != 44 && op.number() != 53 && op.number() != 57 && op.number()
            != 10044,
    ensures
        ({
            let o = run_one(run, st, before + (be32(opnum) + rest), port, now, d);
            if nfs_opnum4::of_number(opnum) is None {
                went_on(o, run, 10044, 0, run.session, st, nfsstat4::NFS4ERR_OP_ILLEGAL, Seq::empty())
            } else {
                went_on(o, run, opnum, 0, run.session, st, nfsstat4::NFS4ERR_NOTSUPP, Seq::empty())
            }
        }),
{
    number_read(before, opnum, Seq::empty(), rest);
    assert(Seq::<u8>::empty() + rest =~= rest);
    reveal(effect);
    bare_statuses();
}

/// The answer of a COMPOUND is the last status, its tag, how many results there are, and the
/// results. It is cached as such in the slot that the COMPOUND ran in, if SEQUENCE asked for
/// it. A retransmit is answered by what was cached.
pub proof fn the_answer_is_status_tag_and_results(xid: u32, tag: Seq<u8>, run: Run, st: StateView, b: Seq<u8>)
    requires
        run.rescount <= u32::MAX,
    ensures
        ({
            let front = be32(xid) + be32(1) + be32(0) + be32(0) + be32(0) + be32(0);
            let body = be32(run.last_status.number()) + Vec::<u8>::encode(tag) + be32(run.rescount as u32)
                + run.results;
            let (t, r) = answer(xid, tag, Outcome::Going(run, st));
            &&& r == Ok::<Seq<u8>, XdrError>(front + body)
            &&& t == (match run.session {
                Some(c) => if c.cache_this {
                    st.reply_cached(c.sessionid, c.slotid, c.sequenceid, body)
                } else {
                    st
                },
                None => st,
            })
            &&& answer(xid, tag, Outcome::Replayed(b, st)) == (
                st,
                Ok::<Seq<u8>, XdrError>(front + b),
            )
        }),
{
}

/// CREATE_SESSION asks the state for a session with one slot, and answers with what is
/// granted: requests and replies of at most a mebibyte, at most 8 operations, one request at
/// a time, and no back channel.
pub proof fn create_session_is_answered(
    run: Run,
    st: StateView,
    before: Seq<u8>,
    cid: clientid4,
    sequence: u32,
    flags: u32,
    fore: (u32, (u32, (u32, (u32, (u32, (u32, Seq<u32>)))))),
    back: (u32, (u32, (u32, (u32, (u32, (u32, Seq<u32>)))))),
    program: u32,
    rest: Seq<u8>,
    port: u16,
    now: u64,
    d: Draws,
)
    requires
        run.pos == before.len(),
        fore.1.1.1.1.1.1.len() <= u32::MAX,
        back.1.1.1.1.1.1.len() <= u32::MAX,
    ensures
        ({
            let args = be64(cid) + be32(sequence) + be32(flags) + channel_asked(fore) + channel_asked(back) + be32(
                program,
            ) + be32(1) + be32(0);
            let o = run_one(run, st, before + (be32(43) + (args + rest)), port, now, d);
            let (_, (request, (response, (cached, (ops, (requests, _)))))) = fore;
            let mib: u32 = 1048576;
            let most: u32 = if ops == 0 { 1 } else { lesser(ops, 8) };
            let granted = (
                0u32,
                (
                    lesser(request, mib),
                    (lesser(response, mib), (lesser(cached, mib), (most, (1u32, Seq::<u32>::empty())))),
                ),
            );
            let none = (0u32, (0u32, (0u32, (0u32, (0u32, (0u32, Seq::<u32>::empty()))))));
            let (t, r) = st.create_session(cid, sequence, 1, granted, none, d.sessionid);
            let fails = |status: nfsstat4| went_on(o, run, 43, args.len(), run.session, t, status, Seq::empty());
            let made = |id: sessionid4|
                went_on(
                    o,
                    run,
                    43,
                    args.len(),
                    run.session,
                    t,
                    nfsstat4::NFS4_OK,
                    id@ + be32(sequence) + be32(0) + channel(
                        0,
                        lesser(request, mib),
                        lesser(response, mib),
                        lesser(cached, mib),
                        most,
                        1,
                    ) + channel(0, 0, 0, 0, 0, 0),
                );
            match r {
                None => fails(nfsstat4::NFS4ERR_SERVERFAULT),
                Some(CreateSessionOutcome::StaleClientId) => fails(nfsstat4::NFS4ERR_STALE_CLIENTID),
                Some(CreateSessionOutcome::SeqMisordered) => fails(nfsstat4::NFS4ERR_SEQ_MISORDERED),
                Some(CreateSessionOutcome::Created { sessionid }) => made(sessionid),
                Some(CreateSessionOutcome::Replay { sessionid }) => made(sessionid),
            }
        }),
{
    let args = be64(cid) + be32(sequence) + be32(flags) + channel_asked(fore) + channel_asked(back) + be32(program)
        + be32(1) + be32(0);
    let sec = seq![(0u32, None::<(u32, (Seq<u8>, (u32, (u32, Seq<u32>))))>, None::<Seq<u8>>)];
    let m = (cid, (sequence, (flags, (fore, (back, (program, sec))))));
    number_read(before, 43, args, rest);
    number_43();
    crate::nfs4::handlers::wire::create_session_bytes(cid, sequence, flags, fore, back, program);
    CREATE_SESSION4args::round_trip(m, rest);
    assert(reads::<CREATE_SESSION4args>(args + rest) == Ok::<
        (<CREATE_SESSION4args as Model>::M, nat),
        XdrError,
    >((m, args.len()))) by {
        reveal(reads);
    }
    created(st, m, d);
    reveal(effect);
    bare_statuses();
}

proof fn created(st: StateView, m: <CREATE_SESSION4args as Model>::M, d: Draws)
    ensures
        ({
            let (cid, (sequence, (_, (fore, _)))) = m;
            let (_, (request, (response, (cached, (ops, (requests, _)))))) = fore;
            let mib: u32 = 1048576;
            let most: u32 = if ops == 0 { 1 } else { lesser(ops, 8) };
            let granted = (
                0u32,
                (
                    lesser(request, mib),
                    (lesser(response, mib), (lesser(cached, mib), (most, (1u32, Seq::<u32>::empty())))),
                ),
            );
            let none = (0u32, (0u32, (0u32, (0u32, (0u32, (0u32, Seq::<u32>::empty()))))));
            let (t, r) = st.create_session(cid, sequence, 1, granted, none, d.sessionid);
            let (u, end) = crate::nfs4_handlers::create_session(st, m, d);
            let made = |id: sessionid4|
                crate::nfs4_handlers::EndView::Status(
                    nfsstat4::NFS4_OK,
                    be32(0) + (id@ + be32(sequence) + be32(0) + channel(
                        0,
                        lesser(request, mib),
                        lesser(response, mib),
                        lesser(cached, mib),
                        most,
                        1,
                    ) + channel(0, 0, 0, 0, 0, 0)),
                );
            let fails = |status: nfsstat4| crate::nfs4_handlers::EndView::Status(status, be32(status.number()));
            &&& u == t
            &&& end == (match r {
                None => fails(nfsstat4::NFS4ERR_SERVERFAULT),
                Some(CreateSessionOutcome::StaleClientId) => fails(nfsstat4::NFS4ERR_STALE_CLIENTID),
                Some(CreateSessionOutcome::SeqMisordered) => fails(nfsstat4::NFS4ERR_SEQ_MISORDERED),
                Some(CreateSessionOutcome::Created { sessionid }) => made(sessionid),
                Some(CreateSessionOutcome::Replay { sessionid }) => made(sessionid),
            })
        }),
{
    let (cid, (sequence, (_, (fore, _)))) = m;
    let (_, (request, (response, (cached, (ops, (requests, _)))))) = fore;
    let mib: u32 = 1048576;
    let most: u32 = if ops == 0 { 1 } else { lesser(ops, 8) };
    channel_bytes(0, lesser(request, mib), lesser(response, mib), lesser(cached, mib), most, 1);
    channel_bytes(0, 0, 0, 0, 0, 0);
    assert forall|id: sessionid4| #[trigger] id@.len() == 16 implies CREATE_SESSION4resok::encode(
        crate::nfs4::handlers::session_ops::create_session_result(id, sequence, fore, 8),
    ) == id@ + be32(sequence) + be32(0) + channel(
        0,
        lesser(request, mib),
        lesser(response, mib),
        lesser(cached, mib),
        most,
        1,
    ) + channel(0, 0, 0, 0, 0, 0) by {
        let r = crate::nfs4::handlers::session_ops::create_session_result(id, sequence, fore, 8);
        assert(CREATE_SESSION4resok::encode(r) =~= id@ + be32(sequence) + be32(0) + channel(
            0,
            lesser(request, mib),
            lesser(response, mib),
            lesser(cached, mib),
            most,
            1,
        ) + channel(0, 0, 0, 0, 0, 0));
    }
}

/// A COMPOUND of any minor version but 1 is answered with that it is not spoken, its tag, and
/// no results, and changes nothing.
pub proof fn only_one_minor_version_is_spoken(
    xid: u32,
    tag: Seq<u8>,
    minor: u32,
    num_ops: u32,
    rest: Seq<u8>,
    port: u16,
    now: u64,
    before: StateView,
    after: StateView,
    r: Result<Vec<u8>, XdrError>,
)
    requires
        tag.len() <= u32::MAX,
        minor != 1,
        compounds(
            xid,
            Vec::<u8>::encode(tag) + be32(minor) + be32(num_ops) + rest,
            port,
            now,
            before,
            after,
            r,
        ),
    ensures
        after == before,
        r matches Ok(b) && b@ == be32(xid) + be32(1) + be32(0) + be32(0) + be32(0) + be32(0) + be32(10021) + Vec::<
            u8,
        >::encode(tag) + be32(0),
{
    crate::nfs4::handlers::framing::header_reads(tag, minor, num_ops, rest);
}

} // verus!
