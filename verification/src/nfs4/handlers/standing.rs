//! What the operations on clients, sessions and open state are for: what each one hands to
//! the server's state, and what it answers on the wire.

use vstd::prelude::*;

use crate::context::RPCContext;
use crate::model::Model;
use crate::nfs4::args::LockerView;
use crate::nfs4::compound::{CompoundView, SequenceContext, StepView, World};
use crate::nfs4::handlers::conduct::{gives, refuses};
use crate::nfs4::handlers::session_ops::{decimal, server_major_id, server_scope, stateid_status, Draws};
use crate::nfs4::handlers::{start, ArgsView};
use crate::nfs4::session::{
    callback_sec_parms4, channel_attrs4, state_protect4_a, state_protect_how4, CREATE_SESSION4resok, EXCHANGE_ID4resok,
    SEQUENCE4resok,
};
use crate::nfs4::state_spec::{state_ref, CreateSession, OwnerSeqid, SequenceView, StateRef};
use crate::nfs4::{clientid4, nfsstat4, seqid4, sequenceid4, sessionid4, stateid4, verifier4};
use crate::word::{be32, be32_len};
use crate::xdr::{be64, XDR};

verus! {

broadcast use be32_len;

// ---------------------------------------------------------------- parts of answers

/// A channel: padding, the largest request, reply and cached reply, how many operations and
/// how many requests at a time, and no RDMA.
pub open spec fn channel(pad: u32, request: u32, response: u32, cached: u32, ops: u32, requests: u32) -> Seq<u8> {
    be32(pad) + be32(request) + be32(response) + be32(cached) + be32(ops) + be32(requests) + be32(0)
}

/// A channel without RDMA on the wire.
pub proof fn channel_bytes(pad: u32, request: u32, response: u32, cached: u32, ops: u32, requests: u32)
    ensures
        channel_attrs4::encode((pad, (request, (response, (cached, (ops, (requests, Seq::empty()))))))) == channel(
            pad,
            request,
            response,
            cached,
            ops,
            requests,
        ),
{
    reveal_with_fuel(crate::xdr::encode_items, 1);
    assert(channel_attrs4::encode((pad, (request, (response, (cached, (ops, (requests, Seq::empty())))))))
        =~= channel(pad, request, response, cached, ops, requests));
}

/// The number that decimal digits spell.
pub open spec fn number_of(digits: Seq<u8>) -> int
    decreases digits.len(),
{
    if digits.len() == 0 {
        0
    } else {
        number_of(digits.drop_last()) * 10 + (digits.last() - 0x30)
    }
}

/// The decimal digits of a number spell it, are digits, and have no zero in front.
pub proof fn decimal_digits_spell_the_number(n: nat)
    ensures
        number_of(decimal(n)) == n,
        decimal(n).len() > 0,
        forall|i: int| 0 <= i < decimal(n).len() ==> 0x30 <= #[trigger] decimal(n)[i] <= 0x39,
        n > 0 ==> decimal(n)[0] != 0x30,
    decreases n,
{
    if n < 10 {
        let d = decimal(n);
        assert(d.drop_last() =~= Seq::empty());
        assert(number_of(d.drop_last()) == 0);
    } else {
        decimal_digits_spell_the_number(n / 10);
        assert(decimal(n).drop_last() =~= decimal(n / 10));
    }
}

/// The server names itself `nfs4-server:` and its port, and its scope `nfs4-server-scope`.
pub proof fn the_server_has_a_name(port: u16)
    ensures
        ({
            let prefix = seq![
                0x6eu8, 0x66u8, 0x73u8, 0x34u8, 0x2du8, 0x73u8, 0x65u8, 0x72u8, 0x76u8, 0x65u8, 0x72u8,
            ];
            &&& server_major_id(port) == prefix + seq![0x3au8] + decimal(port as nat)
            &&& server_scope() == prefix + seq![0x2du8, 0x73u8, 0x63u8, 0x6fu8, 0x70u8, 0x65u8]
        }),
{
    let prefix = seq![0x6eu8, 0x66u8, 0x73u8, 0x34u8, 0x2du8, 0x73u8, 0x65u8, 0x72u8, 0x76u8, 0x65u8, 0x72u8];
    assert(server_major_id(port) =~= prefix + seq![0x3au8] + decimal(port as nat));
    assert(server_scope() =~= prefix + seq![0x2du8, 0x73u8, 0x63u8, 0x6fu8, 0x70u8, 0x65u8]);
}

/// The smaller of two.
pub open spec fn lesser(a: u32, b: u32) -> u32 {
    if a < b {
        a
    } else {
        b
    }
}

// ---------------------------------------------------------------- EXCHANGE_ID

/// EXCHANGE_ID registers the owner with its verifier. The answer is the client's id, the
/// sequence of its next CREATE_SESSION, that the server does no parallel access, no state
/// protection, and the server's name and scope. The connection speaks for the client from
/// then on. State protection is not supported.
pub proof fn exchange_id_answers_with_the_client<H>(
    w: World<H>,
    verifier: verifier4,
    ownerid: Seq<u8>,
    flags: u32,
    protect: <state_protect4_a as Model>::M,
    id: Option<(Seq<u8>, (Seq<u8>, (i64, u32)))>,
    now: u64,
    d: Draws,
)
    ensures
        ({
            let x = start(w, ArgsView::ExchangeId(((verifier, ownerid), (flags, (protect, id)))), now, d);
            let (st, r) = w.st.exchange_id(ownerid, verifier, now, d.clientid);
            if protect.0 != state_protect_how4::SP4_NONE {
                refuses(x, w, nfsstat4::NFS4ERR_NOTSUPP)
            } else {
                match r {
                    Err(e) => refuses(x, World { st, ..w }, e),
                    Ok((cid, seq)) => gives(
                        x,
                        World { st, ctx: RPCContext { client_id: Some(cid), ..w.ctx }, ..w },
                        be64(cid) + be32(seq) + be32(0x1_0000) + be32(0) + be64(0) + Vec::<u8>::encode(
                            server_major_id(w.ctx.local_port),
                        ) + Vec::<u8>::encode(server_scope()) + be32(0),
                    ),
                }
            }
        }),
{
    reveal(start);
    let (st, r) = w.st.exchange_id(ownerid, verifier, now, d.clientid);
    if let Ok((cid, seq)) = r {
        let port = w.ctx.local_port;
        assert(EXCHANGE_ID4resok::encode(
            crate::nfs4::handlers::session_ops::exchange_id_result(cid, seq, port),
        ) =~= be64(cid) + be32(seq) + be32(0x1_0000) + be32(0) + be64(0) + Vec::<u8>::encode(server_major_id(port))
            + Vec::<u8>::encode(server_scope()) + be32(0));
    }
}

// ---------------------------------------------------------------- CREATE_SESSION

/// CREATE_SESSION asks the state for a session with one slot and a reply cache of at most a
/// mebibyte. The answer is the session, the sequence that was sent, no flags, what is
/// granted of the fore channel, and no back channel: requests and replies of at most a
/// mebibyte, at most 16 operations, one request at a time.
pub proof fn create_session_grants_one_slot<H>(
    w: World<H>,
    cid: clientid4,
    sequence: sequenceid4,
    flags: u32,
    fore: <channel_attrs4 as Model>::M,
    back: <channel_attrs4 as Model>::M,
    program: u32,
    sec: Seq<<callback_sec_parms4 as Model>::M>,
    now: u64,
    d: Draws,
)
    ensures
        ({
            let x = start(
                w,
                ArgsView::CreateSession((cid, (sequence, (flags, (fore, (back, (program, sec))))))),
                now,
                d,
            );
            let (_, (request, (response, (cached, (ops, (requests, _)))))) = fore;
            let mib: u32 = 1048576;
            let (st, r) = w.st.create_session(cid, sequence, 1, lesser(cached, mib), now, d.sessionid);
            match r {
                Err(e) => refuses(x, World { st, ..w }, e),
                Ok(made) => {
                    let id = match made {
                        CreateSession::New(id) => id,
                        CreateSession::Replay(id) => id,
                    };
                    gives(
                        x,
                        World { st, ..w },
                        id@ + be32(sequence) + be32(0) + channel(
                            0,
                            lesser(request, mib),
                            lesser(response, mib),
                            lesser(cached, mib),
                            if ops == 0 { 1 } else { lesser(ops, 16) },
                            1,
                        ) + channel(0, 0, 0, 0, 0, 0),
                    )
                },
            }
        }),
{
    reveal(start);
    let (_, (request, (response, (cached, (ops, (requests, _)))))) = fore;
    let mib: u32 = 1048576;
    let most: u32 = if ops == 0 { 1 } else { lesser(ops, 16) };
    channel_bytes(0, lesser(request, mib), lesser(response, mib), lesser(cached, mib), most, 1);
    channel_bytes(0, 0, 0, 0, 0, 0);
    let (st, r) = w.st.create_session(cid, sequence, 1, lesser(cached, mib), now, d.sessionid);
    if let Ok(made) = r {
        let id = match made {
            CreateSession::New(id) => id,
            CreateSession::Replay(id) => id,
        };
        let m = crate::nfs4::handlers::session_ops::create_session_result(id, sequence, fore, 16);
        assert(CREATE_SESSION4resok::encode(m) =~= id@ + be32(sequence) + be32(0) + channel(
            0,
            lesser(request, mib),
            lesser(response, mib),
            lesser(cached, mib),
            most,
            1,
        ) + channel(0, 0, 0, 0, 0, 0));
    }
}

// ---------------------------------------------------------------- DESTROY_*

/// DESTROY_SESSION destroys that session, for a connection that speaks for a client. A
/// COMPOUND that runs in it runs in none from then on.
pub proof fn destroy_session_destroys_it<H>(w: World<H>, id: sessionid4, now: u64, d: Draws)
    ensures
        ({
            let x = start(w, ArgsView::DestroySession(id), now, d);
            let session = match w.cs.session {
                Some(c) => if c.sessionid == id { None } else { Some(c) },
                None => None,
            };
            let left = World { cs: CompoundView { session, ..w.cs }, ..w };
            let (st, r) = w.st.destroy_session(id);
            if w.ctx.client_id is None {
                refuses(x, left, nfsstat4::NFS4ERR_BAD_STATEID)
            } else {
                match r {
                    Ok(_) => gives(x, World { st, ..left }, Seq::empty()),
                    Err(e) => refuses(x, World { st, ..left }, e),
                }
            }
        }),
{
    reveal(start);
}

/// DESTROY_CLIENTID destroys that client, and the connection speaks for nobody from then on.
pub proof fn destroy_clientid_destroys_it<H>(w: World<H>, cid: clientid4, now: u64, d: Draws)
    ensures
        ({
            let x = start(w, ArgsView::DestroyClientid(cid), now, d);
            let (st, r) = w.st.destroy_clientid(cid);
            match r {
                Ok(_) => gives(
                    x,
                    World { st, ctx: RPCContext { client_id: None, ..w.ctx }, ..w },
                    Seq::empty(),
                ),
                Err(e) => refuses(x, World { st, ..w }, e),
            }
        }),
{
    reveal(start);
}

// ---------------------------------------------------------------- SEQUENCE

/// SEQUENCE comes first, on a connection that speaks for a client. A new request runs in its
/// session, slot and sequence from then on, and is cached if the client asked for it. The
/// answer repeats the three, and that slot 0 is the highest there is. A retransmit is
/// answered by what was cached, or is told that nothing was.
pub proof fn sequence_binds_the_compound<H>(
    w: World<H>,
    id: sessionid4,
    seqid: sequenceid4,
    slot: u32,
    highest: u32,
    cache_this: bool,
    now: u64,
    d: Draws,
)
    ensures
        ({
            let x = start(w, ArgsView::Sequence((id, (seqid, (slot, (highest, cache_this))))), now, d);
            let (st, r) = w.st.sequence(id, slot, seqid, now);
            if w.cs.opcount != 0 {
                refuses(x, w, nfsstat4::NFS4ERR_SEQUENCE_POS)
            } else if w.ctx.client_id is None {
                refuses(x, w, nfsstat4::NFS4ERR_BAD_STATEID)
            } else {
                match r {
                    Err(e) => refuses(x, World { st, ..w }, e),
                    Ok(SequenceView::Replay(reply)) => x == (World { st, ..w }, StepView::<H>::Replay(reply)),
                    Ok(SequenceView::RetryUncached) => refuses(
                        x,
                        World { st, ..w },
                        nfsstat4::NFS4ERR_RETRY_UNCACHED_REP,
                    ),
                    Ok(SequenceView::New) => gives(
                        x,
                        World {
                            st,
                            cs: CompoundView {
                                session: Some(
                                    SequenceContext { sessionid: id, slotid: slot, sequenceid: seqid, cache_this },
                                ),
                                ..w.cs
                            },
                            ..w
                        },
                        id@ + be32(seqid) + be32(slot) + be32(0) + be32(0) + be32(0),
                    ),
                }
            }
        }),
{
    reveal(start);
    assert(SEQUENCE4resok::encode((id, (seqid, (slot, (0u32, (0u32, 0u32)))))) =~= id@ + be32(seqid) + be32(slot)
        + be32(0) + be32(0) + be32(0));
}

/// A COMPOUND that begins with a new request keeps its client alive for a lease from then
/// on.
pub proof fn a_sequence_keeps_its_client_alive<H>(
    w: World<H>,
    id: sessionid4,
    seqid: sequenceid4,
    slot: u32,
    highest: u32,
    cache_this: bool,
    now: u64,
    later: u64,
    d: Draws,
)
    requires
        w.cs.opcount == 0,
        w.ctx.client_id is Some,
        start(w, ArgsView::Sequence((id, (seqid, (slot, (highest, cache_this))))), now, d).1 matches StepView::Done(
            status,
            _,
        ) && status == nfsstat4::NFS4_OK,
        now <= later,
    ensures
        start(
            w,
            ArgsView::Sequence((id, (seqid, (slot, (highest, cache_this))))),
            now,
            d,
        ).0.st.client_status(w.st.sessions[id].clientid, later) is Ok <==> later - now < w.st.lease,
{
    reveal(start);
}

/// RECLAIM_COMPLETE is acknowledged: in 4.1, where it belongs to a session, the client of
/// that session is heard of.
pub proof fn reclaim_complete_is_acknowledged<H>(w: World<H>, one_fs: bool, now: u64, d: Draws)
    requires
        w.cs.minorversion == 0 || w.cs.session is Some,
    ensures
        ({
            let x = start(w, ArgsView::ReclaimComplete(one_fs), now, d);
            match w.cs.session {
                None => gives(x, w, Seq::empty()),
                Some(c) => if w.ctx.client_id is None {
                    refuses(x, w, nfsstat4::NFS4ERR_BAD_STATEID)
                } else {
                    let (st, r) = w.st.reclaim_complete(c.sessionid, now);
                    match r {
                        Ok(_) => gives(x, World { st, ..w }, Seq::empty()),
                        Err(e) => refuses(x, World { st, ..w }, e),
                    }
                },
            }
        }),
{
    reveal(start);
}

// ---------------------------------------------------------------- NFSv4.0 clients

/// SETCLIENTID registers the client under the id and with the verifier that were drawn, and
/// answers with the two. Where either could not be drawn, nothing is registered.
pub proof fn setclientid_answers_with_the_client<H>(
    w: World<H>,
    verifier: verifier4,
    id: Seq<u8>,
    callback: ((u32, (Seq<u8>, Seq<u8>)), u32),
    now: u64,
    d: Draws,
)
    ensures
        ({
            let x = start(w, ArgsView::SetClientid(((verifier, id), callback)), now, d);
            match (d.clientid, d.confirm) {
                (Ok(cid), Ok(confirm)) => gives(
                    x,
                    World { st: w.st.setclientid(id, verifier, now, cid, confirm), ..w },
                    be64(cid) + confirm@,
                ),
                _ => refuses(x, w, nfsstat4::NFS4ERR_SERVERFAULT),
            }
        }),
{
    reveal(start);
}

/// SETCLIENTID_CONFIRM confirms the client, and the connection speaks for it from then on.
pub proof fn setclientid_confirm_binds_the_connection<H>(
    w: World<H>,
    cid: clientid4,
    confirm: verifier4,
    now: u64,
    d: Draws,
)
    ensures
        ({
            let x = start(w, ArgsView::SetClientidConfirm((cid, confirm)), now, d);
            let (st, r) = w.st.setclientid_confirm(cid, confirm, now);
            match r {
                Ok(_) => gives(
                    x,
                    World { st, ctx: RPCContext { client_id: Some(cid), ..w.ctx }, ..w },
                    Seq::empty(),
                ),
                Err(e) => refuses(x, World { st, ..w }, e),
            }
        }),
{
    reveal(start);
}

/// RENEW of a client renews its lease.
pub proof fn renew_is_acknowledged<H>(w: World<H>, cid: clientid4, now: u64, d: Draws)
    ensures
        ({
            let x = start(w, ArgsView::Renew(cid), now, d);
            match w.st.client_status(cid, now) {
                Ok(_) => {
                    &&& gives(x, World { st: x.0.st, ..w }, Seq::empty())
                    &&& x.0.st.clients[cid].last_renewed == now
                },
                Err(e) => refuses(x, World { st: x.0.st, ..w }, e),
            }
        }),
{
    reveal(start);
}

/// RELEASE_LOCKOWNER has nothing to release. What is not supported and what is no operation
/// say so, and touch nothing.
pub proof fn some_operations_do_nothing<H>(w: World<H>, owner: (u64, Seq<u8>), now: u64, d: Draws)
    ensures
        gives(start(w, ArgsView::ReleaseLockowner(owner), now, d), w, Seq::empty()),
        refuses(start(w, ArgsView::NotSupported, now, d), w, nfsstat4::NFS4ERR_NOTSUPP),
        refuses(start(w, ArgsView::Illegal, now, d), w, nfsstat4::NFS4ERR_OP_ILLEGAL),
{
    reveal(start);
}

// ---------------------------------------------------------------- open state

/// OPEN_CONFIRM confirms by that stateid and seqid, with a filehandle and on a connection
/// that speaks for a client, and answers with the new stateid.
pub proof fn open_confirm_answers_with_the_stateid<H>(w: World<H>, sid: stateid4, seqid: seqid4, now: u64, d: Draws)
    ensures
        ({
            let x = start(w, ArgsView::OpenConfirm((sid.model(), seqid)), now, d);
            let (st, r) = w.st.open_confirm(sid, seqid, now);
            if w.cs.current_fh is None {
                refuses(x, w, nfsstat4::NFS4ERR_NOFILEHANDLE)
            } else if w.ctx.client_id is None {
                refuses(x, w, nfsstat4::NFS4ERR_BAD_STATEID)
            } else {
                match r {
                    Ok(next) => gives(x, World { st, ..w }, be32(next.seqid) + next.other@),
                    Err(e) => refuses(x, World { st, ..w }, e),
                }
            }
        }),
{
    reveal(start);
}

/// CLOSE closes by that stateid, and in 4.0 by that seqid, with a filehandle and on a
/// connection that speaks for a client, and answers with the stateid that comes next.
pub proof fn close_answers_with_the_stateid<H>(w: World<H>, seqid: seqid4, sid: stateid4, now: u64, d: Draws)
    requires
        w.cs.minorversion == 0 || w.cs.session is Some,
    ensures
        ({
            let x = start(w, ArgsView::Close((seqid, sid.model())), now, d);
            let q = if w.cs.minorversion == 0 {
                OwnerSeqid::V40(seqid)
            } else {
                OwnerSeqid::V41
            };
            let (st, r) = w.st.close(sid, q, now);
            if w.cs.current_fh is None {
                refuses(x, w, nfsstat4::NFS4ERR_NOFILEHANDLE)
            } else if w.ctx.client_id is None {
                refuses(x, w, nfsstat4::NFS4ERR_BAD_STATEID)
            } else {
                match r {
                    Ok(next) => gives(x, World { st, ..w }, be32(next.seqid) + next.other@),
                    Err(e) => refuses(x, World { st, ..w }, e),
                }
            }
        }),
{
    reveal(start);
}

/// The statuses of some stateids, one word each, in their order.
pub open spec fn statuses_in_order(statuses: Seq<nfsstat4>) -> Seq<u8>
    decreases statuses.len(),
{
    if statuses.len() == 0 {
        Seq::empty()
    } else {
        statuses_in_order(statuses.drop_last()) + be32(statuses.last().number())
    }
}

/// TEST_STATEID says of each stateid, in order, whether it resolves and if not why.
pub proof fn test_stateid_tests_each<H>(
    w: World<H>,
    sids: Seq<(u32, [u8; 12])>,
    statuses: Seq<nfsstat4>,
    now: u64,
    d: Draws,
)
    requires
        w.cs.minorversion == 0 || w.cs.session is Some,
        sids.len() <= u32::MAX,
        statuses.len() == sids.len(),
        forall|i: int|
            #![trigger statuses[i]]
            0 <= i < sids.len() ==> match w.st.resolve(stateid4 { seqid: sids[i].0, other: sids[i].1 }) {
                Ok(_) => statuses[i] == nfsstat4::NFS4_OK,
                Err(e) => statuses[i] == e,
            },
    ensures
        ({
            let x = start(w, ArgsView::TestStateid(sids), now, d);
            if w.ctx.client_id is None {
                refuses(x, w, nfsstat4::NFS4ERR_BAD_STATEID)
            } else {
                gives(x, w, be32(sids.len() as u32) + statuses_in_order(statuses))
            }
        }),
{
    reveal(start);
    let all = Seq::new(sids.len(), |i: int| crate::nfs4::handlers::stateid_of(sids[i]));
    let codes = Seq::new(all.len(), |i: int| stateid_status(w.st, all[i]));
    assert(codes =~= statuses);
    statuses_listed(statuses);
}

proof fn statuses_listed(s: Seq<nfsstat4>)
    ensures
        crate::xdr::encode_items::<nfsstat4>(s) == statuses_in_order(s),
    decreases s.len(),
{
    if s.len() > 0 {
        statuses_listed(s.drop_last());
        crate::xdr::items_snoc::<nfsstat4>(s.drop_last(), s.last());
        assert(s.drop_last().push(s.last()) =~= s);
    }
}

/// OPEN_DOWNGRADE, and a LOCK that opens a lock-owner, are not supported. In 4.0 they name an
/// open-owner by a stateid, and the rejection is that owner's reply: booked under the seqid
/// that came with it.
pub proof fn unsupported_owner_requests_are_booked<H>(
    w: World<H>,
    sid: stateid4,
    seqid: seqid4,
    share: (u32, u32),
    lock: (u32, (bool, (u64, u64))),
    lock_owner: (u32, (u64, Seq<u8>)),
    existing: ((u32, [u8; 12]), u32),
    now: u64,
    d: Draws,
)
    ensures
        ({
            let x = start(w, ArgsView::OpenDowngrade((sid.model(), (seqid, share))), now, d);
            let (kind, (reclaim, (offset, length))) = lock;
            let opening = LockerView::New((seqid, (sid.model(), lock_owner)));
            let y = start(w, ArgsView::Lock((kind, (reclaim, (offset, (length, opening))))), now, d);
            let q = if w.cs.minorversion == 0 {
                OwnerSeqid::V40(seqid)
            } else {
                OwnerSeqid::V41
            };
            let not = nfsstat4::NFS4ERR_NOTSUPP;
            &&& y == x
            &&& match (state_ref(sid), w.st.holder(sid.other)) {
                (StateRef::Open { .. }, Some((cid, owner))) => {
                    let (st, r) = w.st.owner_rejection(cid, owner, q, not, now);
                    refuses(x, World { st, ..w }, r)
                },
                _ => refuses(x, w, not),
            }
            &&& refuses(
                start(
                    w,
                    ArgsView::Lock((kind, (reclaim, (offset, (length, LockerView::Existing(existing)))))),
                    now,
                    d,
                ),
                w,
                not,
            )
        }),
{
    reveal(start);
}

} // verus!
