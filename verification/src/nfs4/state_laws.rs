//! What holds of the server's state as a whole.

use vstd::prelude::*;

use crate::nfs4::state_spec::{
    bumped, retains_seqid, state_ref, wrap_next, CreateSession, KindView, Minor, OpenPlan, Opened, Other, OwnerReply,
    OwnerSeq, OwnerSeqid, OwnerView, Res, ResolvedView, SequenceView, StateRef, StateView,
};
use crate::nfs4::{clientid4, fileid4, nfsstat4, seqid4, sequenceid4, sessionid4, stateid4, verifier4};
use crate::vfs::OpenMode;

verus! {

// ---------------------------------------------------------------- identity

/// A clientid that another boot issued is stale.
pub proof fn clientid_of_another_boot_is_stale<H>(s: StateView<H>, cid: clientid4, now: u64)
    requires
        s.inv(),
        cid / 0x1_0000_0000 != s.epoch,
    ensures
        s.client_status(cid, now) == Err::<(), nfsstat4>(nfsstat4::NFS4ERR_STALE_CLIENTID),
{
    if s.clients.contains_key(cid) {
        assert(s.client_sound(cid));
    }
}

/// There is one open state per client, open-owner and file.
pub proof fn one_state_per_owner_and_file<H>(s: StateView<H>, a: Other, b: Other)
    requires
        s.inv(),
        s.opens.contains_key(a),
        s.opens.contains_key(b),
        s.opens[a].clientid == s.opens[b].clientid,
        s.opens[a].owner == s.opens[b].owner,
        s.opens[a].fileid == s.opens[b].fileid,
    ensures
        a == b,
{
}

/// An open-owner has at most one tombstone.
pub proof fn one_tombstone_per_owner<H>(s: StateView<H>, a: Other, b: Other)
    requires
        s.inv(),
        s.retired.contains_key(a),
        s.retired.contains_key(b),
        s.retired[a] == s.retired[b],
    ensures
        a == b,
{
}

/// Owner ids of the two minor versions are unrelated: registering one leaves
/// every client of another owner alone.
pub proof fn versions_do_not_share_owners<H>(
    s: StateView<H>,
    owner: (Minor, Seq<u8>),
    verifier: verifier4,
    kind: KindView,
    now: u64,
    cid: clientid4,
    bystander: clientid4,
)
    requires
        s.inv(),
        s.fresh_clientid(cid),
        s.clients.contains_key(bystander),
        s.clients[bystander].owner != owner,
    ensures
        s.installed(owner, verifier, kind, now, cid).clients.contains_key(bystander),
        s.installed(owner, verifier, kind, now, cid).clients[bystander] == s.clients[bystander],
{
    assert(s.client_sound(bystander));
}

// ---------------------------------------------------------------- leases

/// Expiry purges everything the client owned, and nothing else.
pub proof fn expiry_purges_everything<H>(s: StateView<H>, cid: clientid4, now: u64)
    requires
        s.inv(),
        s.client_status(cid, now) == Err::<(), nfsstat4>(nfsstat4::NFS4ERR_EXPIRED),
    ensures
        ({
            let t = s.looked_up(cid, now);
            &&& !t.clients.contains_key(cid)
            &&& forall|o: (Minor, Seq<u8>)| #[trigger] t.by_owner.contains_key(o) ==> t.by_owner[o] != cid
            &&& forall|i: sessionid4| #[trigger] t.sessions.contains_key(i) ==> t.sessions[i].clientid != cid
            &&& forall|o: Other| #[trigger] t.opens.contains_key(o) ==> t.opens[o].clientid != cid
            &&& forall|k: (clientid4, Seq<u8>, fileid4)| #[trigger] t.open_index.contains_key(k) ==> k.0 != cid
            &&& forall|o: Other| #[trigger] t.retired.contains_key(o) ==> t.retired[o].0 != cid
            &&& forall|c: clientid4|
                c != cid && s.clients.contains_key(c) ==> #[trigger] t.clients.contains_key(c) && t.clients[c]
                    == s.clients[c]
            &&& forall|i: sessionid4|
                s.sessions.contains_key(i) && s.sessions[i].clientid != cid ==> #[trigger] t.sessions.contains_key(i)
                    && t.sessions[i] == s.sessions[i]
            &&& forall|o: Other|
                s.opens.contains_key(o) && s.opens[o].clientid != cid ==> #[trigger] t.opens.contains_key(o)
                    && t.opens[o] == s.opens[o]
        }),
{
}

/// A sweep leaves exactly the clients whose lease has not lapsed, untouched.
pub proof fn sweep_leaves_the_living<H>(s: StateView<H>, now: u64, cid: clientid4)
    requires
        s.inv(),
    ensures
        s.swept(now).clients.contains_key(cid) <==> s.client_status(cid, now) is Ok,
        s.swept(now).clients.contains_key(cid) ==> s.swept(now).clients[cid] == s.clients[cid],
{
}

/// A renewed client stays live for the length of its lease, and no longer.
pub proof fn a_lease_lasts<H>(s: StateView<H>, cid: clientid4, now: u64, later: u64)
    requires
        s.client_status(cid, now) is Ok,
        now <= later,
    ensures
        s.renew(cid, now).1 is Ok,
        s.renew(cid, now).0.client_status(cid, later) is Ok <==> later - now < s.lease,
{
}

// ---------------------------------------------------------------- open-owners

/// A request of a 4.0 open-owner that failed consumed its seqid: the next one
/// is in sequence, and a retransmit gets the same failure.
pub proof fn a_failed_request_consumes_the_seqid<H>(
    s: StateView<H>,
    cid: clientid4,
    owner: Seq<u8>,
    seqid: seqid4,
    status: nfsstat4,
)
    requires
        s.clients.contains_key(cid),
        s.clients[cid].kind.minor() == Minor::V40,
        !retains_seqid(status),
    ensures
        ({
            let t = s.replied(cid, owner, OwnerSeqid::V40(seqid), Err(status));
            &&& t.owner_check(cid, owner, OwnerSeqid::V40(wrap_next(seqid))) == Ok::<OwnerSeq, nfsstat4>(
                OwnerSeq::Fresh,
            )
            &&& t.owner_check(cid, owner, OwnerSeqid::V40(seqid)) == Ok::<OwnerSeq, nfsstat4>(
                OwnerSeq::Replay(Err(status)),
            )
        }),
{
}

/// The statuses that leave the seqid alone consume none.
pub proof fn a_retained_status_consumes_no_seqid<H>(
    s: StateView<H>,
    cid: clientid4,
    owner: Seq<u8>,
    seqid: OwnerSeqid,
    status: nfsstat4,
)
    requires
        retains_seqid(status),
    ensures
        s.replied(cid, owner, seqid, Err(status)) == s,
{
}

/// A 4.1 client has no open-owner records: no request of it is ever a replay,
/// and none leaves a record.
pub proof fn v41_keeps_no_open_owner_state<H>(
    s: StateView<H>,
    cid: clientid4,
    owner: Seq<u8>,
    seqid: OwnerSeqid,
    reply: OwnerReply,
)
    requires
        s.inv(),
        s.clients.contains_key(cid),
        s.clients[cid].kind.minor() == Minor::V41,
    ensures
        s.clients[cid].open_owners == Map::<Seq<u8>, OwnerView>::empty(),
        s.owner_check(cid, owner, seqid) == Ok::<OwnerSeq, nfsstat4>(OwnerSeq::Fresh),
        s.replied(cid, owner, seqid, reply) == s,
        !s.confirm_needed(cid, owner),
{
    assert(s.client_sound(cid));
}

/// An open-owner whose sequence broke starts over.
pub proof fn a_broken_sequence_starts_over<H>(
    s: StateView<H>,
    cid: clientid4,
    owner: Seq<u8>,
    seqid: OwnerSeqid,
    next: seqid4,
)
    requires
        s.owner_check(cid, owner, seqid) == Err::<OwnerSeq, nfsstat4>(nfsstat4::NFS4ERR_BAD_SEQID),
    ensures
        s.owner_checked(cid, owner, seqid).owner_check(cid, owner, OwnerSeqid::V40(next)) == Ok::<OwnerSeq, nfsstat4>(
            OwnerSeq::Fresh,
        ),
{
}

/// Rejecting an op is idempotent under retransmit: the same answer, booked once.
pub proof fn a_rejected_op_replays<H>(
    s: StateView<H>,
    cid: clientid4,
    owner: Seq<u8>,
    seqid: seqid4,
    status: nfsstat4,
    now: u64,
)
    requires
        s.client_status(cid, now) is Ok,
        s.clients[cid].kind.minor() == Minor::V40,
        s.owner_check(cid, owner, OwnerSeqid::V40(seqid)) == Ok::<OwnerSeq, nfsstat4>(OwnerSeq::Fresh),
        !retains_seqid(status),
    ensures
        ({
            let (t, r) = s.owner_rejection(cid, owner, OwnerSeqid::V40(seqid), status, now);
            &&& r == status
            &&& t.owner_rejection(cid, owner, OwnerSeqid::V40(seqid), status, now) == (t, status)
            &&& t.owner_check(cid, owner, OwnerSeqid::V40(wrap_next(seqid))) == Ok::<OwnerSeq, nfsstat4>(
                OwnerSeq::Fresh,
            )
        }),
{
}

// ---------------------------------------------------------------- OPEN

/// The state after an OPEN that had its handle, and the stateid it gave out.
pub open spec fn opened_ok<H>(
    s: StateView<H>,
    cid: clientid4,
    owner: Seq<u8>,
    seqid: OwnerSeqid,
    fileid: fileid4,
    mode: OpenMode,
    fh: H,
    now: u64,
    drawn: Res<Other>,
    t: StateView<H>,
    opened: Opened,
) -> bool {
    s.open_commit(cid, owner, seqid, fileid, mode, fh, now, drawn) == (t, Ok::<Opened, nfsstat4>(opened))
}

/// The stateid that an OPEN gives out resolves to the file that was opened, in
/// a mode that serves what was asked for. Random bytes that spell one of the
/// two special stateids are the exception: those resolve to no open state.
pub proof fn an_opened_stateid_resolves<H>(
    s: StateView<H>,
    cid: clientid4,
    owner: Seq<u8>,
    seqid: OwnerSeqid,
    fileid: fileid4,
    mode: OpenMode,
    fh: H,
    now: u64,
    drawn: Res<Other>,
    t: StateView<H>,
    opened: Opened,
)
    requires
        s.inv(),
        opened_ok(s, cid, owner, seqid, fileid, mode, fh, now, drawn, t, opened),
        state_ref(opened.stateid) is Open,
    ensures
        t.resolve(opened.stateid) matches Ok(ResolvedView::Open { fileid: f, mode: m, .. }) && f == fileid && m.serves(
            mode,
        ),
        !s.open_index.contains_key((cid, owner, fileid)) ==> t.resolve(opened.stateid) == Ok::<
            ResolvedView<H>,
            nfsstat4,
        >(ResolvedView::Open { fileid, fh, mode }),
{
}

/// An OPEN changes no open state but that of its own client, owner and file.
pub proof fn open_leaves_other_states_alone<H>(
    s: StateView<H>,
    cid: clientid4,
    owner: Seq<u8>,
    seqid: OwnerSeqid,
    fileid: fileid4,
    mode: OpenMode,
    fh: H,
    now: u64,
    drawn: Res<Other>,
    t: StateView<H>,
    opened: Opened,
    other: Other,
)
    requires
        s.inv(),
        drawn matches Ok(o) ==> s.fresh_other(o),
        opened_ok(s, cid, owner, seqid, fileid, mode, fh, now, drawn, t, opened),
        s.opens.contains_key(other),
        (s.opens[other].clientid, s.opens[other].owner, s.opens[other].fileid) != (cid, owner, fileid),
    ensures
        t.opens.contains_key(other),
        t.opens[other] == s.opens[other],
{
}

/// Opening a file again upgrades its one state in place: the stateid keeps its
/// bytes and gets the next seqid, and the mode never weakens.
pub proof fn a_repeated_open_upgrades_one_state<H>(
    s: StateView<H>,
    cid: clientid4,
    owner: Seq<u8>,
    seqid: OwnerSeqid,
    fileid: fileid4,
    mode: OpenMode,
    fh: H,
    now: u64,
    drawn: Res<Other>,
    t: StateView<H>,
    opened: Opened,
)
    requires
        s.inv(),
        s.open_index.contains_key((cid, owner, fileid)),
        opened_ok(s, cid, owner, seqid, fileid, mode, fh, now, drawn, t, opened),
    ensures
        ({
            let other = s.open_index[(cid, owner, fileid)];
            &&& opened.stateid == (stateid4 { seqid: bumped(s.opens[other].seqid), other })
            &&& t.opens.dom() == s.opens.dom()
            &&& t.opens[other].mode.serves(s.opens[other].mode)
            &&& t.opens[other].mode.serves(mode)
            &&& s.opens[other].mode.serves(mode) ==> t.opens[other].fh == s.opens[other].fh
        }),
{
    let other = s.open_index[(cid, owner, fileid)];
    assert(s.opens.contains_key(other));
    assert(t.opens.dom() =~= s.opens.dom());
}

/// A retransmitted OPEN of a 4.0 client gets the stateid of the first one, and
/// opens nothing.
pub proof fn an_open_retransmit_replays<H>(
    s: StateView<H>,
    cid: clientid4,
    owner: Seq<u8>,
    seqid: seqid4,
    fileid: fileid4,
    mode: OpenMode,
    fh: H,
    now: u64,
    drawn: Res<Other>,
    t: StateView<H>,
    opened: Opened,
    later: u64,
)
    requires
        s.inv(),
        opened_ok(s, cid, owner, OwnerSeqid::V40(seqid), fileid, mode, fh, now, drawn, t, opened),
        s.clients[cid].kind.minor() == Minor::V40,
        s.clients[cid].is_confirmed(),
        s.client_status(cid, later) is Ok,
    ensures
        t.open_plan(cid, owner, OwnerSeqid::V40(seqid), fileid, mode, later) == (
            t.renewed(cid, later),
            Ok::<OpenPlan, nfsstat4>(OpenPlan::Done(opened)),
        ),
{
    let u = t.renewed(cid, later);
    assert(u.clients[cid].open_owner(owner) == t.clients[cid].open_owner(owner));
}

/// A 4.1 client's OPENs are never taken for replays, whatever seqid they carry:
/// a second file gets a state of its own.
pub proof fn v41_open_of_a_second_file_is_not_a_replay<H>(
    s: StateView<H>,
    cid: clientid4,
    owner: Seq<u8>,
    seqid: OwnerSeqid,
    fileid: fileid4,
    mode: OpenMode,
    now: u64,
)
    requires
        s.inv(),
        s.client_status(cid, now) is Ok,
        s.clients[cid].kind.minor() == Minor::V41,
        s.clients[cid].is_confirmed(),
        !s.open_index.contains_key((cid, owner, fileid)),
    ensures
        s.open_plan(cid, owner, seqid, fileid, mode, now) == (
            s.renewed(cid, now),
            Ok::<OpenPlan, nfsstat4>(OpenPlan::NeedHandle(mode)),
        ),
{
}

/// A file already open in a mode that serves the request needs no second handle.
pub proof fn a_strong_enough_open_needs_no_handle<H>(
    s: StateView<H>,
    cid: clientid4,
    owner: Seq<u8>,
    seqid: OwnerSeqid,
    fileid: fileid4,
    mode: OpenMode,
    now: u64,
)
    requires
        s.inv(),
        s.client_status(cid, now) is Ok,
        s.clients[cid].is_confirmed(),
        s.owner_check(cid, owner, seqid) == Ok::<OwnerSeq, nfsstat4>(OwnerSeq::Fresh),
        s.open_index.contains_key((cid, owner, fileid)),
        s.opens[s.open_index[(cid, owner, fileid)]].mode.serves(mode),
    ensures
        s.open_plan(cid, owner, seqid, fileid, mode, now).1 matches Ok(OpenPlan::Done(o)) && o.stateid.other
            == s.open_index[(cid, owner, fileid)],
{
    let u = s.renewed(cid, now);
    assert(u.clients[cid].open_owner(owner) == s.clients[cid].open_owner(owner));
    assert(u.owner_check(cid, owner, seqid) == s.owner_check(cid, owner, seqid));
}

// ---------------------------------------------------------------- OPEN_CONFIRM

/// OPEN_CONFIRM is asked for once per open-owner: afterwards no OPEN asks again.
pub proof fn open_confirm_marks_the_owner<H>(s: StateView<H>, sid: stateid4, seqid: seqid4, now: u64)
    requires
        s.inv(),
        state_ref(sid) matches StateRef::Open { other, .. } && s.opens.contains_key(other) && s.owner_check(
            s.opens[other].clientid,
            s.opens[other].owner,
            OwnerSeqid::V40(seqid),
        ) == Ok::<OwnerSeq, nfsstat4>(OwnerSeq::Fresh),
        s.open_confirm(sid, seqid, now).1 is Ok,
    ensures
        ({
            let t = s.open_confirm(sid, seqid, now).0;
            let o = s.opens[sid.other];
            &&& !t.confirm_needed(o.clientid, o.owner)
            &&& s.open_confirm(sid, seqid, now).1 == Ok::<stateid4, nfsstat4>(
                stateid4 { seqid: bumped(o.seqid), other: sid.other },
            )
        }),
{
    let o = s.opens[sid.other];
    let u = s.renewed(o.clientid, now);
    assert(u.clients[o.clientid].open_owner(o.owner) == s.clients[o.clientid].open_owner(o.owner));
    assert(u.owner_check(o.clientid, o.owner, OwnerSeqid::V40(seqid)) == s.owner_check(
        o.clientid,
        o.owner,
        OwnerSeqid::V40(seqid),
    ));
}

/// A retransmitted OPEN_CONFIRM gets the reply of the first one, though the
/// stateid that it carries is superseded by then.
pub proof fn an_open_confirm_retransmit_replays<H>(s: StateView<H>, sid: stateid4, seqid: seqid4, now: u64, later: u64)
    requires
        s.inv(),
        s.open_confirm(sid, seqid, now).1 is Ok || s.open_confirm(sid, seqid, now).1 == Err::<stateid4, nfsstat4>(
            nfsstat4::NFS4ERR_OLD_STATEID,
        ),
        s.open_confirm(sid, seqid, now).0.client_status(s.opens[sid.other].clientid, later) is Ok,
    ensures
        ({
            let (t, reply) = s.open_confirm(sid, seqid, now);
            t.open_confirm(sid, seqid, later) == (t.renewed(s.opens[sid.other].clientid, later), reply)
        }),
{
    let o = s.opens[sid.other];
    let (t, reply) = s.open_confirm(sid, seqid, now);
    let u = t.renewed(o.clientid, later);
    assert(u.clients[o.clientid].open_owner(o.owner) == t.clients[o.clientid].open_owner(o.owner));
}

/// There is no OPEN_CONFIRM in 4.1.
pub proof fn v41_cannot_open_confirm<H>(s: StateView<H>, sid: stateid4, seqid: seqid4, now: u64)
    requires
        s.inv(),
        state_ref(sid) is Open,
        s.opens.contains_key(sid.other),
        s.client_status(s.opens[sid.other].clientid, now) is Ok,
        s.clients[s.opens[sid.other].clientid].kind.minor() == Minor::V41,
    ensures
        s.open_confirm(sid, seqid, now) == (s, Err::<stateid4, nfsstat4>(nfsstat4::NFS4ERR_STALE_CLIENTID)),
{
}

// ---------------------------------------------------------------- CLOSE

/// A CLOSE that is not a replay releases the whole open state and nothing else.
pub proof fn close_releases_the_state<H>(s: StateView<H>, sid: stateid4, seqid: OwnerSeqid, now: u64)
    requires
        s.inv(),
        state_ref(sid) is Open,
        s.opens.contains_key(sid.other),
        s.owner_check(s.opens[sid.other].clientid, s.opens[sid.other].owner, seqid) == Ok::<OwnerSeq, nfsstat4>(
            OwnerSeq::Fresh,
        ),
        s.close(sid, seqid, now).1 is Ok,
    ensures
        ({
            let t = s.close(sid, seqid, now).0;
            let o = s.opens[sid.other];
            &&& t.opens == s.opens.remove(sid.other)
            &&& t.open_index == s.open_index.remove((o.clientid, o.owner, o.fileid))
            &&& t.sessions == s.sessions
            &&& s.close(sid, seqid, now).1 == Ok::<stateid4, nfsstat4>(
                stateid4 { seqid: bumped(o.seqid), other: sid.other },
            )
        }),
{
    let o = s.opens[sid.other];
    let u = s.renewed(o.clientid, now);
    assert(u.clients[o.clientid].open_owner(o.owner) == s.clients[o.clientid].open_owner(o.owner));
    assert(u.owner_check(o.clientid, o.owner, seqid) == s.owner_check(o.clientid, o.owner, seqid));
}

/// A 4.1 CLOSE releases the state whatever open-owner seqid is forwarded with
/// it, and leaves no tombstone.
pub proof fn v41_close_releases_despite_a_stale_seqid<H>(s: StateView<H>, sid: stateid4, seqid: OwnerSeqid, now: u64)
    requires
        s.inv(),
        state_ref(sid) is Open,
        s.opens.contains_key(sid.other),
        s.client_status(s.opens[sid.other].clientid, now) is Ok,
        s.clients[s.opens[sid.other].clientid].kind.minor() == Minor::V41,
        sid.seqid == 0 || sid.seqid == s.opens[sid.other].seqid,
    ensures
        ({
            let (t, r) = s.close(sid, seqid, now);
            &&& r == Ok::<stateid4, nfsstat4>(stateid4 { seqid: bumped(s.opens[sid.other].seqid), other: sid.other })
            &&& !t.opens.contains_key(sid.other)
            &&& t.retired == s.retired
        }),
{
}

/// A retransmitted 4.0 CLOSE gets the reply of the first one, and closes nothing.
pub proof fn a_close_retransmit_replays<H>(s: StateView<H>, sid: stateid4, seqid: seqid4, now: u64, later: u64)
    requires
        s.inv(),
        state_ref(sid) is Open,
        s.opens.contains_key(sid.other),
        s.clients[s.opens[sid.other].clientid].kind.minor() == Minor::V40,
        s.close(sid, OwnerSeqid::V40(seqid), now).1 is Ok,
        s.close(sid, OwnerSeqid::V40(seqid), now).0.client_status(s.opens[sid.other].clientid, later) is Ok,
    ensures
        ({
            let (t, reply) = s.close(sid, OwnerSeqid::V40(seqid), now);
            t.close(sid, OwnerSeqid::V40(seqid), later) == (t.renewed(s.opens[sid.other].clientid, later), reply)
        }),
{
    let o = s.opens[sid.other];
    let (t, reply) = s.close(sid, OwnerSeqid::V40(seqid), now);
    let u = t.renewed(o.clientid, later);
    assert(u.clients[o.clientid].open_owner(o.owner) == t.clients[o.clientid].open_owner(o.owner));
}

/// After a 4.0 CLOSE the next request on the closed stateid finds nothing to
/// release, and consumes no seqid.
pub proof fn a_second_close_finds_nothing<H>(s: StateView<H>, sid: stateid4, seqid: seqid4, now: u64, later: u64)
    requires
        s.inv(),
        state_ref(sid) is Open,
        s.opens.contains_key(sid.other),
        s.clients[s.opens[sid.other].clientid].kind.minor() == Minor::V40,
        s.owner_check(s.opens[sid.other].clientid, s.opens[sid.other].owner, OwnerSeqid::V40(seqid)) == Ok::<
            OwnerSeq,
            nfsstat4,
        >(OwnerSeq::Fresh),
        s.close(sid, OwnerSeqid::V40(seqid), now).1 is Ok,
        s.close(sid, OwnerSeqid::V40(seqid), now).0.client_status(s.opens[sid.other].clientid, later) is Ok,
    ensures
        ({
            let t = s.close(sid, OwnerSeqid::V40(seqid), now).0;
            t.close(sid, OwnerSeqid::V40(wrap_next(seqid)), later) == (
                t.renewed(s.opens[sid.other].clientid, later),
                Err::<stateid4, nfsstat4>(nfsstat4::NFS4ERR_BAD_STATEID),
            )
        }),
{
    close_releases_the_state(s, sid, OwnerSeqid::V40(seqid), now);
    let o = s.opens[sid.other];
    let v = s.renewed(o.clientid, now);
    assert(v.clients[o.clientid].open_owner(o.owner) == s.clients[o.clientid].open_owner(o.owner));
    let t = s.close(sid, OwnerSeqid::V40(seqid), now).0;
    let u = t.renewed(o.clientid, later);
    assert(u.clients[o.clientid].open_owner(o.owner) == t.clients[o.clientid].open_owner(o.owner));
}

/// A CLOSE of a stateid that nobody has or had changes nothing.
pub proof fn close_of_an_unknown_stateid_records_nothing<H>(s: StateView<H>, sid: stateid4, seqid: OwnerSeqid, now: u64)
    requires
        !s.opens.contains_key(sid.other),
        !s.retired.contains_key(sid.other),
    ensures
        s.close(sid, seqid, now) == (s, Err::<stateid4, nfsstat4>(nfsstat4::NFS4ERR_BAD_STATEID)),
{
}

/// No stateid that a fresh OPEN, OPEN_CONFIRM or CLOSE gives out has the seqid
/// 0, which on the wire means "the current one".
pub proof fn a_bumped_seqid_is_never_zero(v: u32)
    ensures
        bumped(v) != 0,
{
}

// ---------------------------------------------------------------- sessions

/// EXCHANGE_ID is idempotent: a client that repeats it within its lease gets
/// the same answer, and nothing changes.
pub proof fn exchange_id_is_idempotent<H>(
    s: StateView<H>,
    ownerid: Seq<u8>,
    verifier: verifier4,
    now: u64,
    drawn: Res<clientid4>,
    later: u64,
    drawn_later: Res<clientid4>,
)
    requires
        s.inv(),
        s.exchange_id(ownerid, verifier, now, drawn).1 matches Ok((cid, _)) && s.exchange_id(
            ownerid,
            verifier,
            now,
            drawn,
        ).0.client_status(cid, later) is Ok,
    ensures
        ({
            let (t, r) = s.exchange_id(ownerid, verifier, now, drawn);
            t.exchange_id(ownerid, verifier, later, drawn_later) == (t, r)
        }),
{
}

/// A client that comes back with another verifier has rebooted: it gets a new
/// id, and everything it owned is gone.
pub proof fn a_rebooted_client_starts_over<H>(
    s: StateView<H>,
    ownerid: Seq<u8>,
    verifier: verifier4,
    now: u64,
    cid: clientid4,
)
    requires
        s.inv(),
        s.fresh_clientid(cid),
        s.by_owner.contains_key((Minor::V41, ownerid)),
        s.clients[s.by_owner[(Minor::V41, ownerid)]].verifier != verifier,
    ensures
        ({
            let old_cid = s.by_owner[(Minor::V41, ownerid)];
            let (t, r) = s.exchange_id(ownerid, verifier, now, Ok(cid));
            &&& r == Ok::<(clientid4, sequenceid4), nfsstat4>((cid, 1))
            &&& !t.clients.contains_key(old_cid)
            &&& forall|o: Other| #[trigger] t.opens.contains_key(o) ==> t.opens[o].clientid != old_cid
            &&& forall|i: sessionid4| #[trigger] t.sessions.contains_key(i) ==> t.sessions[i].clientid != old_cid
        }),
{
}

/// A retransmitted CREATE_SESSION gets the session that the first one made, or, once
/// that session is gone, nothing: in every later state, however it was reached, as
/// long as the client lives and has made no other session.
pub proof fn create_session_replays<H>(
    s: StateView<H>,
    cid: clientid4,
    sequence: sequenceid4,
    slots: u32,
    max_cached: u32,
    now: u64,
    id: sessionid4,
    t: StateView<H>,
    later: u64,
    drawn: Res<sessionid4>,
)
    requires
        s.create_session(cid, sequence, slots, max_cached, now, Ok(id)).1 == Ok::<CreateSession, nfsstat4>(
            CreateSession::New(id),
        ),
        leaves_replays(s.create_session(cid, sequence, slots, max_cached, now, Ok(id)).0, t),
        t.client_status(cid, later) is Ok,
    ensures
        s.create_session(cid, sequence, slots, max_cached, now, Ok(id)).0.clients[cid].made == Some(id),
        t.create_session(cid, sequence, slots, max_cached, later, drawn) == (
            t.renewed(cid, later),
            if t.clients[cid].made is Some {
                Ok::<CreateSession, nfsstat4>(CreateSession::Replay(id))
            } else {
                Err(nfsstat4::NFS4ERR_SEQ_MISORDERED)
            },
        ),
{
    assert(s.create_session(cid, sequence, slots, max_cached, now, Ok(id)).0.clients.contains_key(cid));
}

/// Of every state: what CREATE_SESSION replays is the session that the client's last
/// CREATE_SESSION made, which is one of its sessions.
pub proof fn a_replay_names_what_was_made<H>(
    s: StateView<H>,
    cid: clientid4,
    sequence: sequenceid4,
    slots: u32,
    max_cached: u32,
    now: u64,
    drawn: Res<sessionid4>,
    id: sessionid4,
)
    requires
        s.inv(),
        s.create_session(cid, sequence, slots, max_cached, now, drawn).1 == Ok::<CreateSession, nfsstat4>(
            CreateSession::Replay(id),
        ),
    ensures
        s.clients[cid].made == Some(id),
        s.session_client(id) == Ok::<clientid4, nfsstat4>(cid),
        s.create_session(cid, sequence, slots, max_cached, now, drawn).0 == s.renewed(cid, now),
{
    assert(s.client_sound(cid));
}

/// Nothing but its own end takes a session out of the replay.
pub proof fn another_session_ends_no_replay<H>(s: StateView<H>, cid: clientid4, id: sessionid4, other: sessionid4)
    requires
        s.clients.contains_key(cid),
        s.clients[cid].made == Some(id),
        other != id,
    ensures
        s.destroy_session(other).0.clients[cid].made == Some(id),
{
}

/// A session confirms its client, and belongs to it.
pub proof fn a_session_confirms_its_client<H>(
    s: StateView<H>,
    cid: clientid4,
    sequence: sequenceid4,
    slots: u32,
    max_cached: u32,
    now: u64,
    id: sessionid4,
)
    requires
        s.create_session(cid, sequence, slots, max_cached, now, Ok(id)).1 == Ok::<CreateSession, nfsstat4>(
            CreateSession::New(id),
        ),
    ensures
        ({
            let t = s.create_session(cid, sequence, slots, max_cached, now, Ok(id)).0;
            &&& t.clients[cid].is_confirmed()
            &&& t.session_client(id) == Ok::<clientid4, nfsstat4>(cid)
        }),
{
}

/// A client that has a session cannot be destroyed; without one it can.
pub proof fn a_client_with_sessions_is_busy<H>(s: StateView<H>, id: sessionid4)
    requires
        s.inv(),
        s.sessions.contains_key(id),
    ensures
        s.destroy_clientid(s.sessions[id].clientid) == (s, Err::<(), nfsstat4>(nfsstat4::NFS4ERR_CLIENTID_BUSY)),
{
}

/// A session that was destroyed is unknown.
pub proof fn a_destroyed_session_is_unknown<H>(s: StateView<H>, id: sessionid4, slot: u32, seqid: sequenceid4, now: u64)
    requires
        s.sessions.contains_key(id),
    ensures
        ({
            let (t, r) = s.destroy_session(id);
            &&& r is Ok
            &&& t.sequence(id, slot, seqid, now) == (t, Err::<SequenceView, nfsstat4>(nfsstat4::NFS4ERR_BADSESSION))
            &&& t.destroy_session(id) == (t, Err::<(), nfsstat4>(nfsstat4::NFS4ERR_BADSESSION))
        }),
{
}

/// Exactly once: a request that a slot accepted is not accepted again. Without
/// a cached reply its retransmit is told so.
pub proof fn a_slot_accepts_a_request_once<H>(
    s: StateView<H>,
    id: sessionid4,
    slot: u32,
    seqid: sequenceid4,
    now: u64,
    later: u64,
)
    requires
        s.inv(),
        s.sequence(id, slot, seqid, now).1 == Ok::<SequenceView, nfsstat4>(SequenceView::New),
        s.sequence(id, slot, seqid, now).0.client_status(s.sessions[id].clientid, later) is Ok,
    ensures
        ({
            let t = s.sequence(id, slot, seqid, now).0;
            t.sequence(id, slot, seqid, later) == (
                t.renewed(s.sessions[id].clientid, later),
                Ok::<SequenceView, nfsstat4>(SequenceView::RetryUncached),
            )
        }),
{
}

/// Exactly once: the retransmit of a request whose reply was cached gets that
/// reply, byte for byte.
pub proof fn a_cached_reply_is_replayed<H>(
    s: StateView<H>,
    id: sessionid4,
    slot: u32,
    seqid: sequenceid4,
    now: u64,
    reply: Seq<u8>,
    later: u64,
)
    requires
        s.inv(),
        s.sequence(id, slot, seqid, now).1 == Ok::<SequenceView, nfsstat4>(SequenceView::New),
        s.sequence(id, slot, seqid, now).0.client_status(s.sessions[id].clientid, later) is Ok,
        reply.len() <= s.sessions[id].max_cached,
    ensures
        s.sequence(id, slot, seqid, now).0.reply_cached(id, slot, seqid, reply).sequence(id, slot, seqid, later).1
            == Ok::<SequenceView, nfsstat4>(SequenceView::Replay(reply)),
{
}

/// The request after the last accepted one is accepted.
pub proof fn a_slot_accepts_the_next_request<H>(
    s: StateView<H>,
    id: sessionid4,
    slot: u32,
    seqid: sequenceid4,
    now: u64,
    later: u64,
)
    requires
        s.inv(),
        s.sequence(id, slot, seqid, now).1 == Ok::<SequenceView, nfsstat4>(SequenceView::New),
        s.sequence(id, slot, seqid, now).0.client_status(s.sessions[id].clientid, later) is Ok,
    ensures
        s.sequence(id, slot, seqid, now).0.sequence(id, slot, wrap_next(seqid), later).1 == Ok::<
            SequenceView,
            nfsstat4,
        >(SequenceView::New),
{
}

/// SETCLIENTID_CONFIRM confirms a client, and repeating it changes nothing.
pub proof fn setclientid_confirm_is_idempotent<H>(s: StateView<H>, cid: clientid4, confirm: verifier4, now: u64)
    requires
        s.setclientid_confirm(cid, confirm, now).1 is Ok,
    ensures
        ({
            let t = s.setclientid_confirm(cid, confirm, now).0;
            &&& t.clients[cid].is_confirmed()
            &&& t.setclientid_confirm(cid, confirm, now) == (t, Ok::<(), nfsstat4>(()))
        }),
{
    let t = s.setclientid_confirm(cid, confirm, now).0;
    assert(t.setclientid_confirm(cid, confirm, now).0 =~= t);
}

// ---------------------------------------------------------------- what is left alone

/// Every session that was there is as it was, slots and all, or is gone.
pub open spec fn leaves_sessions<H>(s: StateView<H>, t: StateView<H>) -> bool {
    forall|id: sessionid4| #[trigger]
        t.sessions.contains_key(id) && s.sessions.contains_key(id) ==> t.sessions[id] == s.sessions[id]
}

/// Two kinds of client expect the same CREATE_SESSION next.
pub open spec fn expect_alike(a: KindView, b: KindView) -> bool {
    match (a, b) {
        (KindView::V40 { .. }, KindView::V40 { .. }) => true,
        (KindView::V41 { create_session_seq: x, .. }, KindView::V41 { create_session_seq: y, .. }) => x == y,
        _ => false,
    }
}

/// Every client that was there and still is expects the same CREATE_SESSION next, and
/// replays the same session, or none any more.
pub open spec fn leaves_replays<H>(s: StateView<H>, t: StateView<H>) -> bool {
    forall|cid: clientid4| #[trigger]
        t.clients.contains_key(cid) && s.clients.contains_key(cid) ==> expect_alike(
            s.clients[cid].kind,
            t.clients[cid].kind,
        ) && (t.clients[cid].made == s.clients[cid].made || t.clients[cid].made is None)
}

/// Neither sessions nor replays are touched.
pub open spec fn leaves_both<H>(s: StateView<H>, t: StateView<H>) -> bool {
    leaves_sessions(s, t) && leaves_replays(s, t)
}

/// Removing clients and renewing leases touches nothing else.
pub proof fn lookups_leave_both<H>(s: StateView<H>, cid: clientid4, now: u64, gone: Set<clientid4>)
    ensures
        leaves_both(s, s.without_clients(gone)),
        leaves_both(s, s.looked_up(cid, now)),
        s.clients.contains_key(cid) ==> leaves_both(s, s.renewed(cid, now)),
{
}

/// So does registering a client under a fresh id.
pub proof fn installing_leaves_both<H>(
    s: StateView<H>,
    owner: (Minor, Seq<u8>),
    verifier: verifier4,
    kind: KindView,
    now: u64,
    cid: clientid4,
)
    requires
        s.fresh_clientid(cid),
    ensures
        leaves_both(s, s.installed(owner, verifier, kind, now, cid)),
{
}

/// So do EXCHANGE_ID and SETCLIENTID.
pub proof fn registering_leaves_both<H>(
    s: StateView<H>,
    ownerid: Seq<u8>,
    verifier: verifier4,
    confirm: verifier4,
    drawn: Res<clientid4>,
    now: u64,
)
    requires
        s.fair_clientid(drawn),
    ensures
        leaves_both(s, s.exchange_id(ownerid, verifier, now, drawn).0),
        drawn matches Ok(cid) ==> leaves_both(s, s.setclientid(ownerid, verifier, now, cid, confirm)),
{
    if let Ok(cid) = drawn {
        installing_leaves_both(
            s,
            (Minor::V41, ownerid),
            verifier,
            KindView::V41 { create_session_seq: 1, sessions: Seq::empty() },
            now,
            cid,
        );
        installing_leaves_both(
            s,
            (Minor::V40, ownerid),
            verifier,
            KindView::V40 { confirm_verifier: confirm, confirmed: false },
            now,
            cid,
        );
    }
}

/// So does every operation on a client that is there, but for CREATE_SESSION, which
/// touches the replay of its own client.
pub proof fn client_operations_leave_both<H>(s: StateView<H>, cid: clientid4, now: u64)
    ensures
        forall|confirm: verifier4| leaves_both(s, (#[trigger] s.setclientid_confirm(cid, confirm, now)).0),
        leaves_both(s, s.destroy_clientid(cid).0),
        leaves_both(s, s.renew(cid, now).0),
{
    lookups_leave_both(s, cid, now, set![cid]);
}

/// The end of one session leaves the others alone.
pub proof fn session_operations_leave_both<H>(s: StateView<H>, id: sessionid4, now: u64)
    ensures
        leaves_both(s, s.destroy_session(id).0),
        leaves_both(s, s.reclaim_complete(id, now).0),
{
    if let Ok(cid) = s.session_client(id) {
        lookups_leave_both(s, cid, now, set![cid]);
    }
}

/// A session under a fresh id leaves every other as it was.
pub proof fn create_session_leaves_sessions<H>(
    s: StateView<H>,
    cid: clientid4,
    sequence: sequenceid4,
    slots: u32,
    max_cached: u32,
    now: u64,
    drawn: Res<sessionid4>,
)
    requires
        s.fair_sessionid(drawn),
    ensures
        leaves_sessions(s, s.create_session(cid, sequence, slots, max_cached, now, drawn).0),
{
    lookups_leave_both(s, cid, now, set![cid]);
}

/// A reply of an open-owner is booked in its record alone.
pub proof fn booking_leaves_both<H>(
    s: StateView<H>,
    cid: clientid4,
    owner: Seq<u8>,
    seqid: OwnerSeqid,
    reply: OwnerReply,
    status: nfsstat4,
    now: u64,
)
    ensures
        leaves_both(s, s.replied(cid, owner, seqid, reply)),
        s.clients.contains_key(cid) ==> leaves_both(s, s.owner_checked(cid, owner, seqid)),
        leaves_both(s, s.owner_rejection(cid, owner, seqid, status, now).0),
{
    lookups_leave_both(s, cid, now, set![cid]);
}

/// So are sessions and replays untouched by OPEN,
pub proof fn opening_leaves_both<H>(
    s: StateView<H>,
    cid: clientid4,
    owner: Seq<u8>,
    seqid: OwnerSeqid,
    fileid: fileid4,
    mode: OpenMode,
    handle: Res<H>,
    now: u64,
    drawn: Res<Other>,
)
    ensures
        leaves_both(s, s.open_plan(cid, owner, seqid, fileid, mode, now).0),
        leaves_both(s, s.open_finish(cid, owner, seqid, fileid, mode, handle, now, drawn).0),
{
    lookups_leave_both(s, cid, now, set![cid]);
}

/// and by OPEN_CONFIRM and CLOSE.
pub proof fn closing_leaves_both<H>(s: StateView<H>, sid: stateid4, confirm: seqid4, seqid: OwnerSeqid, now: u64)
    ensures
        leaves_both(s, s.open_confirm(sid, confirm, now).0),
        leaves_both(s, s.close(sid, seqid, now).0),
{
    if let StateRef::Open { other, .. } = state_ref(sid) {
        if let Some((cid, owner)) = s.holder(other) {
            lookups_leave_both(s, cid, now, set![cid]);
        }
    }
}

} // verus!
