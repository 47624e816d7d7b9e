//! Operations on clients, sessions and open state that ask nothing of the file
//! system.

use vstd::prelude::*;

use crate::context::RPCContext;
use crate::model::{models, same_bytes, Model};
use crate::nfs4::args::{
    CLOSE4args, OPEN_CONFIRM4args, OPEN_CONFIRM4resok, RECLAIM_COMPLETE4args, RELEASE_LOCKOWNER4args, RENEW4args,
    SETCLIENTID4args, SETCLIENTID4resok, SETCLIENTID_CONFIRM4args, TEST_STATEID4args, TEST_STATEID4resok,
};
use crate::nfs4::compound::{
    answered, failed, fails, succeeded, succeeds, CompoundState, CompoundView, SequenceContext, Step, StepView, World,
};
use crate::nfs4::session::{
    channel_attrs4, impl_id_optional, server_owner4, state_protect4_r, state_protect_how4, CREATE_SESSION4args,
    CREATE_SESSION4resok, DESTROY_CLIENTID4args, DESTROY_SESSION4args, EXCHANGE_ID4args, EXCHANGE_ID4resok,
    SEQUENCE4args, SEQUENCE4resok, EXCHGID4_FLAG_USE_NON_PNFS,
};
use crate::nfs4::state::{NFS4State, Sequence};
use crate::nfs4::state_spec::{CreateSession, Other, Res, SequenceView, StateRef, StateView};
use crate::nfs4::state_spec::state_ref;
use crate::nfs4::{clientid4, nfsstat4, seqid4, sessionid4, stateid4, verifier4};
use crate::xdr::XDR;

verus! {

/// Most operations that a COMPOUND may hold.
pub const MAX_COMPOUND_OPS: u32 = 16;

/// Largest request that a session takes: 1 MiB.
pub const MAX_REQUEST_SIZE: u32 = 0x10_0000;

/// Largest reply that a session gives: 1 MiB.
pub const MAX_RESPONSE_SIZE: u32 = 0x10_0000;

/// Requests that a session has in flight.
pub const MAX_REQUESTS: u32 = 1;

/// The world that the parts make up.
pub open spec fn world<H>(cs: CompoundState, st: NFS4State<H>, ctx: RPCContext) -> World<H> {
    World { cs: cs@, st: st@, ctx }
}

/// What the system's generator gives while an operation runs, as far as the
/// operation draws.
#[derive(Copy, Clone, Debug, PartialEq, Eq)]
pub struct Draws {
    pub clientid: Res<clientid4>,
    pub confirm: Res<verifier4>,
    pub sessionid: Res<sessionid4>,
    pub other: Res<Other>,
}

/// What is drawn is fresh; what cannot be drawn fails the operation.
pub open spec fn fair<H>(st: StateView<H>, d: Draws) -> bool {
    &&& st.fair_clientid(d.clientid)
    &&& d.confirm matches Err(e) ==> e == nfsstat4::NFS4ERR_SERVERFAULT
    &&& st.fair_sessionid(d.sessionid)
    &&& st.fair_other(d.other)
}

/// The generator gives nothing.
pub open spec fn no_draws() -> Draws {
    Draws {
        clientid: Err(nfsstat4::NFS4ERR_SERVERFAULT),
        confirm: Err(nfsstat4::NFS4ERR_SERVERFAULT),
        sessionid: Err(nfsstat4::NFS4ERR_SERVERFAULT),
        other: Err(nfsstat4::NFS4ERR_SERVERFAULT),
    }
}

/// The generator gives nothing.
pub fn nothing_drawn() -> (d: Draws)
    ensures
        d == no_draws(),
{
    Draws {
        clientid: Err(nfsstat4::NFS4ERR_SERVERFAULT),
        confirm: Err(nfsstat4::NFS4ERR_SERVERFAULT),
        sessionid: Err(nfsstat4::NFS4ERR_SERVERFAULT),
        other: Err(nfsstat4::NFS4ERR_SERVERFAULT),
    }
}

// ---------------------------------------------------------------- EXCHANGE_ID

/// The decimal digits of a number, in ASCII.
pub open spec fn decimal(n: nat) -> Seq<u8>
    decreases n,
{
    if n < 10 {
        seq![(0x30 + n) as u8]
    } else {
        decimal(n / 10).push((0x30 + n % 10) as u8)
    }
}

fn push_decimal(out: &mut Vec<u8>, n: u16)
    ensures
        final(out)@ == old(out)@ + decimal(n as nat),
    decreases n,
{
    if n >= 10 {
        push_decimal(out, n / 10);
    }
    out.push(0x30 + (n % 10) as u8);
    assert(out@ =~= old(out)@ + decimal(n as nat));
}

/// `nfs4-server:` and the port that the server listens on.
pub open spec fn server_major_id(port: u16) -> Seq<u8> {
    seq![0x6eu8, 0x66u8, 0x73u8, 0x34u8, 0x2du8, 0x73u8, 0x65u8, 0x72u8, 0x76u8, 0x65u8, 0x72u8, 0x3au8] + decimal(
        port as nat,
    )
}

/// `nfs4-server-scope`.
pub open spec fn server_scope() -> Seq<u8> {
    seq![
        0x6eu8,
        0x66u8,
        0x73u8,
        0x34u8,
        0x2du8,
        0x73u8,
        0x65u8,
        0x72u8,
        0x76u8,
        0x65u8,
        0x72u8,
        0x2du8,
        0x73u8,
        0x63u8,
        0x6fu8,
        0x70u8,
        0x65u8,
    ]
}

/// `nfs4-server:` and the port that the server listens on.
pub fn major_id(port: u16) -> (v: Vec<u8>)
    ensures
        v@ == server_major_id(port),
{
    let mut v: Vec<u8> = vec![0x6e, 0x66, 0x73, 0x34, 0x2d, 0x73, 0x65, 0x72, 0x76, 0x65, 0x72, 0x3a];
    push_decimal(&mut v, port);
    assert(v@ =~= server_major_id(port));
    v
}

/// `nfs4-server-scope`.
pub fn scope() -> (v: Vec<u8>)
    ensures
        v@ == server_scope(),
{
    let v: Vec<u8> = vec![
        0x6e,
        0x66,
        0x73,
        0x34,
        0x2d,
        0x73,
        0x65,
        0x72,
        0x76,
        0x65,
        0x72,
        0x2d,
        0x73,
        0x63,
        0x6f,
        0x70,
        0x65,
    ];
    assert(v@ =~= server_scope());
    v
}

/// What EXCHANGE_ID answers a client that has this id.
pub open spec fn exchange_id_result(cid: clientid4, seq: u32, port: u16) -> <EXCHANGE_ID4resok as Model>::M {
    (
        cid,
        (
            seq,
            (
                EXCHGID4_FLAG_USE_NON_PNFS,
                (state_protect_how4::SP4_NONE, ((0u64, server_major_id(port)), (server_scope(), None))),
            ),
        ),
    )
}

/// What EXCHANGE_ID answers a client that has this id.
pub fn exchange_id_answer(cid: clientid4, seq: u32, port: u16) -> (r: EXCHANGE_ID4resok)
    ensures
        r.model() == exchange_id_result(cid, seq, port),
{
    EXCHANGE_ID4resok {
        eir_clientid: cid,
        eir_sequenceid: seq,
        eir_flags: EXCHGID4_FLAG_USE_NON_PNFS,
        eir_state_protect: state_protect4_r { spr_how: state_protect_how4::SP4_NONE },
        eir_server_owner: server_owner4 { so_minor_id: 0, so_major_id: major_id(port) },
        eir_server_scope: scope(),
        eir_server_impl_id: impl_id_optional(None),
    }
}

/// EXCHANGE_ID: no state protection, no pNFS.
pub open spec fn exchange_id<H>(
    w: World<H>,
    ownerid: Seq<u8>,
    verifier: verifier4,
    how: state_protect_how4,
    now: u64,
    d: Draws,
) -> (World<H>, StepView<H>) {
    if how != state_protect_how4::SP4_NONE {
        (w, fails(nfsstat4::NFS4ERR_NOTSUPP))
    } else {
        let (st, r) = w.st.exchange_id(ownerid, verifier, now, d.clientid);
        match r {
            Err(e) => (w.with_st(st), fails(e)),
            Ok((cid, seq)) => (
                World { st, ctx: RPCContext { client_id: Some(cid), ..w.ctx }, ..w },
                succeeds(EXCHANGE_ID4resok::encode(exchange_id_result(cid, seq, w.ctx.local_port))),
            ),
        }
    }
}

/// Run EXCHANGE_ID. SP4_NONE only, non-pNFS.
pub fn op_exchange_id<H>(
    args: EXCHANGE_ID4args,
    cs: &mut CompoundState,
    st: &mut NFS4State<H>,
    ctx: &mut RPCContext,
    now: u64,
    d: Draws,
) -> (s: Step<H>)
    requires
        old(st).wf(),
        fair(old(st)@, d),
    ensures
        final(st).wf(),
        (world(*final(cs), *final(st), *final(ctx)), s.model()) == exchange_id(
            world(*old(cs), *old(st), *old(ctx)),
            args.eia_clientowner.co_ownerid@,
            args.eia_clientowner.co_verifier,
            args.eia_state_protect.spa_how,
            now,
            d,
        ),
{
    if args.eia_state_protect.spa_how != state_protect_how4::SP4_NONE {
        return failed(nfsstat4::NFS4ERR_NOTSUPP);
    }
    let owner = &args.eia_clientowner;
    match st.exchange_id_as(&owner.co_ownerid, &owner.co_verifier, now, d.clientid) {
        Err(e) => failed(e),
        Ok((cid, seq)) => {
            ctx.set_client_id(cid);
            answered(&exchange_id_answer(cid, seq, ctx.local_port))
        },
    }
}

// ---------------------------------------------------------------- CREATE_SESSION

/// The smaller of two words.
pub open spec fn least(a: u32, b: u32) -> u32 {
    if a <= b {
        a
    } else {
        b
    }
}

fn min32(a: u32, b: u32) -> (r: u32)
    ensures
        r == least(a, b),
{
    if a <= b {
        a
    } else {
        b
    }
}

/// At least one.
pub open spec fn some(a: u32) -> u32 {
    if a == 0 {
        1
    } else {
        a
    }
}

fn at_least_one(a: u32) -> (r: u32)
    ensures
        r == some(a),
{
    if a == 0 {
        1
    } else {
        a
    }
}

/// The fore channel that is granted: a single slot, no padding, and no more of
/// anything than the server has.
pub open spec fn fore_channel(asked: <channel_attrs4 as Model>::M, max_ops: u32) -> <channel_attrs4 as Model>::M {
    let (_, (request, (response, (cached, (ops, (requests, _)))))) = asked;
    (
        0u32,
        (
            least(request, MAX_REQUEST_SIZE),
            (
                least(response, MAX_RESPONSE_SIZE),
                (
                    least(cached, MAX_RESPONSE_SIZE),
                    (some(least(ops, max_ops)), (some(least(requests, MAX_REQUESTS)), Seq::empty())),
                ),
            ),
        ),
    )
}

/// The fore channel that is granted.
pub fn negotiate_fore(asked: &channel_attrs4, max_ops: u32) -> (r: channel_attrs4)
    ensures
        r.model() == fore_channel(asked.model(), max_ops),
{
    channel_attrs4 {
        ca_headerpadsize: 0,
        ca_maxrequestsize: min32(asked.ca_maxrequestsize, MAX_REQUEST_SIZE),
        ca_maxresponsesize: min32(asked.ca_maxresponsesize, MAX_RESPONSE_SIZE),
        ca_maxresponsesize_cached: min32(asked.ca_maxresponsesize_cached, MAX_RESPONSE_SIZE),
        ca_maxoperations: at_least_one(min32(asked.ca_maxoperations, max_ops)),
        ca_maxrequests: at_least_one(min32(asked.ca_maxrequests, MAX_REQUESTS)),
        ca_rdma_ird: Vec::new(),
    }
}

/// The back channel that is granted: none.
pub open spec fn back_channel() -> <channel_attrs4 as Model>::M {
    (0u32, (0u32, (0u32, (0u32, (0u32, (0u32, Seq::empty()))))))
}

/// The back channel that is granted: none.
pub fn no_back_channel() -> (r: channel_attrs4)
    ensures
        r.model() == back_channel(),
{
    channel_attrs4 {
        ca_headerpadsize: 0,
        ca_maxrequestsize: 0,
        ca_maxresponsesize: 0,
        ca_maxresponsesize_cached: 0,
        ca_maxoperations: 0,
        ca_maxrequests: 0,
        ca_rdma_ird: Vec::new(),
    }
}

/// What CREATE_SESSION answers: the session, and what was granted.
pub open spec fn create_session_result(
    id: sessionid4,
    sequence: u32,
    asked: <channel_attrs4 as Model>::M,
    max_ops: u32,
) -> <CREATE_SESSION4resok as Model>::M {
    (id, (sequence, (0u32, (fore_channel(asked, max_ops), back_channel()))))
}

/// CREATE_SESSION: a single-slot fore channel, no back channel, no persistence.
pub open spec fn create_session<H>(w: World<H>, args: <CREATE_SESSION4args as Model>::M, now: u64, d: Draws) -> (
    World<H>,
    StepView<H>,
) {
    let (cid, (sequence, (_, (asked, _)))) = args;
    let (_, (_, (_, (cached, (_, (requests, _)))))) = asked;
    let (st, r) = w.st.create_session(
        cid,
        sequence,
        some(least(requests, MAX_REQUESTS)),
        least(cached, MAX_RESPONSE_SIZE),
        now,
        d.sessionid,
    );
    let result = |id: sessionid4|
        CREATE_SESSION4resok::encode(create_session_result(id, sequence, asked, MAX_COMPOUND_OPS));
    match r {
        Err(e) => (w.with_st(st), fails(e)),
        Ok(CreateSession::New(id)) => (w.with_st(st), succeeds(result(id))),
        Ok(CreateSession::Replay(id)) => (w.with_st(st), succeeds(result(id))),
    }
}

/// Run CREATE_SESSION.
pub fn op_create_session<H>(
    args: CREATE_SESSION4args,
    cs: &mut CompoundState,
    st: &mut NFS4State<H>,
    ctx: &mut RPCContext,
    now: u64,
    d: Draws,
) -> (s: Step<H>)
    requires
        old(st).wf(),
        fair(old(st)@, d),
    ensures
        final(st).wf(),
        (world(*final(cs), *final(st), *final(ctx)), s.model()) == create_session(
            world(*old(cs), *old(st), *old(ctx)),
            args.model(),
            now,
            d,
        ),
{
    let fore = negotiate_fore(&args.csa_fore_chan_attrs, MAX_COMPOUND_OPS);
    let slots: u32 = fore.ca_maxrequests;
    let cached: u32 = fore.ca_maxresponsesize_cached;
    match st.create_session_as(args.csa_clientid, args.csa_sequence, slots, cached, now, d.sessionid) {
        Err(e) => failed(e),
        Ok(CreateSession::New(id)) | Ok(CreateSession::Replay(id)) => answered(
            &CREATE_SESSION4resok {
                csr_sessionid: id,
                csr_sequence: args.csa_sequence,
                csr_flags: 0,
                csr_fore_chan_attrs: fore,
                csr_back_chan_attrs: no_back_channel(),
            },
        ),
    }
}

// ---------------------------------------------------------------- DESTROY_*

/// DESTROY_SESSION. A COMPOUND that destroys the session it runs in runs in none
/// from then on.
pub open spec fn destroy_session<H>(w: World<H>, id: sessionid4) -> (World<H>, StepView<H>) {
    let left = match w.cs.session {
        Some(c) if c.sessionid == id => World { cs: CompoundView { session: None, ..w.cs }, ..w },
        _ => w,
    };
    match w.ctx.client_id {
        None => (left, fails(nfsstat4::NFS4ERR_BAD_STATEID)),
        Some(_) => {
            let (st, r) = w.st.destroy_session(id);
            match r {
                Err(e) => (left.with_st(st), fails(e)),
                Ok(_) => (left.with_st(st), succeeds(Seq::empty())),
            }
        },
    }
}

/// Run DESTROY_SESSION.
pub fn op_destroy_session<H>(
    args: DESTROY_SESSION4args,
    cs: &mut CompoundState,
    st: &mut NFS4State<H>,
    ctx: &mut RPCContext,
) -> (s: Step<H>)
    requires
        old(st).wf(),
    ensures
        final(st).wf(),
        (world(*final(cs), *final(st), *final(ctx)), s.model()) == destroy_session(
            world(*old(cs), *old(st), *old(ctx)),
            args.dsa_sessionid,
        ),
{
    let current: bool = match &cs.session {
        Some(c) => same_bytes(&c.sessionid, &args.dsa_sessionid),
        None => false,
    };
    if current {
        cs.session = None;
    }
    if ctx.client_id().is_none() {
        return failed(nfsstat4::NFS4ERR_BAD_STATEID);
    }
    match st.destroy_session(&args.dsa_sessionid) {
        Err(e) => failed(e),
        Ok(_) => succeeded(),
    }
}

/// DESTROY_CLIENTID. The connection speaks for nobody from then on.
pub open spec fn destroy_clientid<H>(w: World<H>, cid: clientid4) -> (World<H>, StepView<H>) {
    let (st, r) = w.st.destroy_clientid(cid);
    match r {
        Err(e) => (w.with_st(st), fails(e)),
        Ok(_) => (World { st, ctx: RPCContext { client_id: None, ..w.ctx }, ..w }, succeeds(Seq::empty())),
    }
}

/// Run DESTROY_CLIENTID.
pub fn op_destroy_clientid<H>(
    args: DESTROY_CLIENTID4args,
    cs: &mut CompoundState,
    st: &mut NFS4State<H>,
    ctx: &mut RPCContext,
) -> (s: Step<H>)
    requires
        old(st).wf(),
    ensures
        final(st).wf(),
        (world(*final(cs), *final(st), *final(ctx)), s.model()) == destroy_clientid(
            world(*old(cs), *old(st), *old(ctx)),
            args.dca_clientid,
        ),
{
    match st.destroy_clientid(args.dca_clientid) {
        Err(e) => failed(e),
        Ok(_) => {
            ctx.clear_client_id();
            succeeded()
        },
    }
}

// ---------------------------------------------------------------- SEQUENCE

/// SEQUENCE. It must come first; a retransmit is answered as a whole.
pub open spec fn sequence<H>(w: World<H>, args: <SEQUENCE4args as Model>::M, now: u64) -> (World<H>, StepView<H>) {
    let (sessionid, (sequenceid, (slotid, (_, cache_this)))) = args;
    if w.cs.opcount != 0 {
        (w, fails(nfsstat4::NFS4ERR_SEQUENCE_POS))
    } else if w.ctx.client_id is None {
        (w, fails(nfsstat4::NFS4ERR_BAD_STATEID))
    } else {
        let (st, r) = w.st.sequence(sessionid, slotid, sequenceid, now);
        match r {
            Err(e) => (w.with_st(st), fails(e)),
            Ok(SequenceView::Replay(cached)) => (w.with_st(st), StepView::Replay(cached)),
            Ok(SequenceView::RetryUncached) => (w.with_st(st), fails(nfsstat4::NFS4ERR_RETRY_UNCACHED_REP)),
            Ok(SequenceView::New) => (
                World {
                    st,
                    cs: CompoundView {
                        session: Some(SequenceContext { sessionid, slotid, sequenceid, cache_this }),
                        ..w.cs
                    },
                    ..w
                },
                succeeds(SEQUENCE4resok::encode((sessionid, (sequenceid, (slotid, (0u32, (0u32, 0u32))))))),
            ),
        }
    }
}

/// Run SEQUENCE.
pub fn op_sequence<H>(
    args: SEQUENCE4args,
    cs: &mut CompoundState,
    st: &mut NFS4State<H>,
    ctx: &mut RPCContext,
    now: u64,
) -> (s: Step<H>)
    requires
        old(st).wf(),
    ensures
        final(st).wf(),
        (world(*final(cs), *final(st), *final(ctx)), s.model()) == sequence(
            world(*old(cs), *old(st), *old(ctx)),
            args.model(),
            now,
        ),
{
    if cs.opcount != 0 {
        return failed(nfsstat4::NFS4ERR_SEQUENCE_POS);
    }
    if ctx.client_id().is_none() {
        return failed(nfsstat4::NFS4ERR_BAD_STATEID);
    }
    match st.sequence(&args.sa_sessionid, args.sa_slotid, args.sa_sequenceid, now) {
        Err(e) => failed(e),
        Ok(Sequence::Replay(cached)) => Step::Replay(cached),
        Ok(Sequence::RetryUncached) => failed(nfsstat4::NFS4ERR_RETRY_UNCACHED_REP),
        Ok(Sequence::New) => {
            cs.session = Some(
                SequenceContext {
                    sessionid: args.sa_sessionid,
                    slotid: args.sa_slotid,
                    sequenceid: args.sa_sequenceid,
                    cache_this: args.sa_cachethis,
                },
            );
            answered(
                &SEQUENCE4resok {
                    sr_sessionid: args.sa_sessionid,
                    sr_sequenceid: args.sa_sequenceid,
                    sr_slotid: args.sa_slotid,
                    sr_highest_slotid: 0,
                    sr_target_highest_slotid: 0,
                    sr_status_flags: 0,
                },
            )
        },
    }
}

/// RECLAIM_COMPLETE. The server holds no persistent state and grants no
/// delegations, so this is an acknowledgement.
pub open spec fn reclaim_complete<H>(w: World<H>, now: u64) -> (World<H>, StepView<H>) {
    match w.cs.require_session() {
        Err(e) => (w, fails(e)),
        Ok(_) => match w.cs.session {
            None => (w, succeeds(Seq::empty())),
            Some(c) => if w.ctx.client_id is None {
                (w, fails(nfsstat4::NFS4ERR_BAD_STATEID))
            } else {
                let (st, r) = w.st.reclaim_complete(c.sessionid, now);
                match r {
                    Err(e) => (w.with_st(st), fails(e)),
                    Ok(_) => (w.with_st(st), succeeds(Seq::empty())),
                }
            },
        },
    }
}

/// Run RECLAIM_COMPLETE.
pub fn op_reclaim_complete<H>(
    args: RECLAIM_COMPLETE4args,
    cs: &mut CompoundState,
    st: &mut NFS4State<H>,
    ctx: &mut RPCContext,
    now: u64,
) -> (s: Step<H>)
    requires
        old(st).wf(),
    ensures
        final(st).wf(),
        (world(*final(cs), *final(st), *final(ctx)), s.model()) == reclaim_complete(
            world(*old(cs), *old(st), *old(ctx)),
            now,
        ),
{
    if let Err(e) = cs.require_session() {
        return failed(e);
    }
    match &cs.session {
        None => succeeded(),
        Some(c) => {
            if ctx.client_id().is_none() {
                return failed(nfsstat4::NFS4ERR_BAD_STATEID);
            }
            match st.reclaim_complete(&c.sessionid, now) {
                Err(e) => failed(e),
                Ok(_) => succeeded(),
            }
        },
    }
}

// ---------------------------------------------------------------- NFSv4.0 clients

/// SETCLIENTID: an unconfirmed clientid.
pub open spec fn setclientid<H>(w: World<H>, ownerid: Seq<u8>, verifier: verifier4, now: u64, d: Draws) -> (
    World<H>,
    StepView<H>,
) {
    match (d.clientid, d.confirm) {
        (Ok(cid), Ok(confirm)) => (
            w.with_st(w.st.setclientid(ownerid, verifier, now, cid, confirm)),
            succeeds(SETCLIENTID4resok::encode((cid, confirm))),
        ),
        _ => (w, fails(nfsstat4::NFS4ERR_SERVERFAULT)),
    }
}

/// Run SETCLIENTID (NFSv4.0). Callback data is decoded and ignored: no delegations
/// are granted, so there is nothing to call back for.
pub fn op_setclientid<H>(
    args: SETCLIENTID4args,
    cs: &mut CompoundState,
    st: &mut NFS4State<H>,
    ctx: &mut RPCContext,
    now: u64,
    d: Draws,
) -> (s: Step<H>)
    requires
        old(st).wf(),
        fair(old(st)@, d),
    ensures
        final(st).wf(),
        (world(*final(cs), *final(st), *final(ctx)), s.model()) == setclientid(
            world(*old(cs), *old(st), *old(ctx)),
            args.client.id@,
            args.client.verifier,
            now,
            d,
        ),
{
    match (d.clientid, d.confirm) {
        (Ok(clientid), Ok(setclientid_confirm)) => {
            st.setclientid_as(&args.client.id, &args.client.verifier, now, clientid, &setclientid_confirm);
            answered(&SETCLIENTID4resok { clientid, setclientid_confirm })
        },
        _ => failed(nfsstat4::NFS4ERR_SERVERFAULT),
    }
}

/// SETCLIENTID_CONFIRM. The connection speaks for the client from then on.
pub open spec fn setclientid_confirm<H>(w: World<H>, cid: clientid4, confirm: verifier4, now: u64) -> (
    World<H>,
    StepView<H>,
) {
    let (st, r) = w.st.setclientid_confirm(cid, confirm, now);
    match r {
        Err(e) => (w.with_st(st), fails(e)),
        Ok(_) => (World { st, ctx: RPCContext { client_id: Some(cid), ..w.ctx }, ..w }, succeeds(Seq::empty())),
    }
}

/// OP_SETCLIENTID_CONFIRM (NFSv4.0).
pub fn op_setclientid_confirm<H>(
    args: SETCLIENTID_CONFIRM4args,
    cs: &mut CompoundState,
    st: &mut NFS4State<H>,
    ctx: &mut RPCContext,
    now: u64,
) -> (s: Step<H>)
    requires
        old(st).wf(),
    ensures
        final(st).wf(),
        (world(*final(cs), *final(st), *final(ctx)), s.model()) == setclientid_confirm(
            world(*old(cs), *old(st), *old(ctx)),
            args.clientid,
            args.setclientid_confirm,
            now,
        ),
{
    match st.setclientid_confirm(args.clientid, &args.setclientid_confirm, now) {
        Err(e) => failed(e),
        Ok(_) => {
            ctx.set_client_id(args.clientid);
            succeeded()
        },
    }
}

/// RENEW: the client is heard of.
pub open spec fn renew<H>(w: World<H>, cid: clientid4, now: u64) -> (World<H>, StepView<H>) {
    let (st, r) = w.st.renew(cid, now);
    match r {
        Err(e) => (w.with_st(st), fails(e)),
        Ok(_) => (w.with_st(st), succeeds(Seq::empty())),
    }
}

/// OP_RENEW (NFSv4.0).
pub fn op_renew<H>(
    args: RENEW4args,
    cs: &mut CompoundState,
    st: &mut NFS4State<H>,
    ctx: &mut RPCContext,
    now: u64,
) -> (s: Step<H>)
    requires
        old(st).wf(),
    ensures
        final(st).wf(),
        (world(*final(cs), *final(st), *final(ctx)), s.model()) == renew(
            world(*old(cs), *old(st), *old(ctx)),
            args.clientid,
            now,
        ),
{
    match st.renew(args.clientid, now) {
        Err(e) => failed(e),
        Ok(_) => succeeded(),
    }
}

/// OP_RELEASE_LOCKOWNER (NFSv4.0). Locking is not supported, so
/// there are never any locks held for an owner. Acknowledge unconditionally.
pub fn op_release_lockowner<H>(args: RELEASE_LOCKOWNER4args) -> (s: Step<H>)
    ensures
        s.model() == succeeds::<H>(Seq::empty()),
{
    succeeded()
}

// ---------------------------------------------------------------- open state

/// OPEN_CONFIRM. There must be a current filehandle.
pub open spec fn open_confirm<H>(w: World<H>, sid: stateid4, seqid: seqid4, now: u64) -> (World<H>, StepView<H>) {
    if w.cs.current_fh is None {
        (w, fails(nfsstat4::NFS4ERR_NOFILEHANDLE))
    } else if w.ctx.client_id is None {
        (w, fails(nfsstat4::NFS4ERR_BAD_STATEID))
    } else {
        let (st, r) = w.st.open_confirm(sid, seqid, now);
        match r {
            Err(e) => (w.with_st(st), fails(e)),
            Ok(stateid) => (w.with_st(st), succeeds(OPEN_CONFIRM4resok::encode(stateid.model()))),
        }
    }
}

/// OP_OPEN_CONFIRM (NFSv4.0). Confirms the open owner
/// established by a preceding OPEN with OPEN4_RESULT_CONFIRM set.
pub fn op_open_confirm<H>(
    args: OPEN_CONFIRM4args,
    cs: &mut CompoundState,
    st: &mut NFS4State<H>,
    ctx: &mut RPCContext,
    now: u64,
) -> (s: Step<H>)
    requires
        old(st).wf(),
    ensures
        final(st).wf(),
        (world(*final(cs), *final(st), *final(ctx)), s.model()) == open_confirm(
            world(*old(cs), *old(st), *old(ctx)),
            args.open_stateid,
            args.seqid,
            now,
        ),
{
    if cs.current_fh.is_none() {
        return failed(nfsstat4::NFS4ERR_NOFILEHANDLE);
    }
    if ctx.client_id().is_none() {
        return failed(nfsstat4::NFS4ERR_BAD_STATEID);
    }
    match st.open_confirm(&args.open_stateid, args.seqid, now) {
        Err(e) => failed(e),
        Ok(open_stateid) => answered(&OPEN_CONFIRM4resok { open_stateid }),
    }
}

/// CLOSE. There must be a current filehandle.
pub open spec fn close<H>(w: World<H>, sid: stateid4, seqid: seqid4, now: u64) -> (World<H>, StepView<H>) {
    match w.cs.require_session() {
        Err(e) => (w, fails(e)),
        Ok(_) => if w.cs.current_fh is None {
            (w, fails(nfsstat4::NFS4ERR_NOFILEHANDLE))
        } else if w.ctx.client_id is None {
            (w, fails(nfsstat4::NFS4ERR_BAD_STATEID))
        } else {
            let (st, r) = w.st.close(sid, w.cs.owner_seqid(seqid), now);
            match r {
                Err(e) => (w.with_st(st), fails(e)),
                Ok(stateid) => (w.with_st(st), succeeds(stateid4::encode(stateid.model()))),
            }
        },
    }
}

/// Run CLOSE.
pub fn op_close<H>(
    args: CLOSE4args,
    cs: &mut CompoundState,
    st: &mut NFS4State<H>,
    ctx: &mut RPCContext,
    now: u64,
) -> (s: Step<H>)
    requires
        old(st).wf(),
    ensures
        final(st).wf(),
        (world(*final(cs), *final(st), *final(ctx)), s.model()) == close(
            world(*old(cs), *old(st), *old(ctx)),
            args.open_stateid,
            args.seqid,
            now,
        ),
{
    if let Err(e) = cs.require_session() {
        return failed(e);
    }
    if cs.current_fh.is_none() {
        return failed(nfsstat4::NFS4ERR_NOFILEHANDLE);
    }
    if ctx.client_id().is_none() {
        return failed(nfsstat4::NFS4ERR_BAD_STATEID);
    }
    match st.close(&args.open_stateid, cs.owner_seqid(args.seqid), now) {
        Err(e) => failed(e),
        Ok(stateid) => answered(&stateid),
    }
}

/// The status of a stateid.
pub open spec fn stateid_status<H>(st: StateView<H>, sid: stateid4) -> nfsstat4 {
    match st.resolve(sid) {
        Ok(_) => nfsstat4::NFS4_OK,
        Err(e) => e,
    }
}

/// TEST_STATEID: the status of each stateid, in order.
pub open spec fn test_stateid<H>(w: World<H>, sids: Seq<stateid4>) -> (World<H>, StepView<H>) {
    match w.cs.require_session() {
        Err(e) => (w, fails(e)),
        Ok(_) => if w.ctx.client_id is None {
            (w, fails(nfsstat4::NFS4ERR_BAD_STATEID))
        } else {
            (
                w,
                succeeds(
                    TEST_STATEID4resok::encode(Seq::new(sids.len(), |i: int| stateid_status(w.st, sids[i]))),
                ),
            )
        },
    }
}

/// OP_TEST_STATEID. The op's own status is NFS4_OK;
/// per-stateid results are in the array.
pub fn op_test_stateid<H>(
    args: TEST_STATEID4args,
    cs: &mut CompoundState,
    st: &mut NFS4State<H>,
    ctx: &mut RPCContext,
) -> (s: Step<H>)
    requires
        old(st).wf(),
    ensures
        final(st).wf(),
        (world(*final(cs), *final(st), *final(ctx)), s.model()) == test_stateid(
            world(*old(cs), *old(st), *old(ctx)),
            args.ts_stateids@,
        ),
{
    if let Err(e) = cs.require_session() {
        return failed(e);
    }
    if ctx.client_id().is_none() {
        return failed(nfsstat4::NFS4ERR_BAD_STATEID);
    }
    let mut codes: Vec<nfsstat4> = Vec::new();
    let mut i: usize = 0;
    while i < args.ts_stateids.len()
        invariant
            st.wf(),
            i <= args.ts_stateids@.len(),
            codes@.len() == i,
            forall|j: int| 0 <= j < i ==> #[trigger] codes@[j] == stateid_status(st@, args.ts_stateids@[j]),
        decreases args.ts_stateids@.len() - i,
    {
        codes.push(st.test_stateid(&args.ts_stateids[i]));
        i += 1;
    }
    proof {
        let sids = args.ts_stateids@;
        assert(models(codes@) =~= Seq::new(sids.len(), |i: int| stateid_status(st@, sids[i])));
    }
    answered(&TEST_STATEID4resok { tsr_status_codes: codes })
}

/// An op that names an open-owner, by a stateid of it, but is not supported. In
/// 4.0 the rejection consumes the open-owner's seqid like any other reply.
pub open spec fn reject_owner_op<H>(w: World<H>, sid: stateid4, seqid: seqid4, now: u64) -> (World<H>, StepView<H>) {
    let status = nfsstat4::NFS4ERR_NOTSUPP;
    match state_ref(sid) {
        StateRef::Open { other, .. } => match w.st.holder(other) {
            None => (w, fails(status)),
            Some((cid, owner)) => {
                let (st, s) = w.st.owner_rejection(cid, owner, w.cs.owner_seqid(seqid), status, now);
                (w.with_st(st), fails(s))
            },
        },
        _ => (w, fails(status)),
    }
}

/// Reject OPEN_DOWNGRADE, or LOCK's `open_to_lock_owner4`. NFS4ERR_NOTSUPP is no
/// status that leaves the seqid alone, so the client advances its open-owner seqid
/// anyway, and a server that does not follow suit answers the client's next OPEN
/// or CLOSE with NFS4ERR_BAD_SEQID.
pub fn op_reject_owner_op<H>(
    sid: &stateid4,
    seqid: seqid4,
    cs: &mut CompoundState,
    st: &mut NFS4State<H>,
    ctx: &mut RPCContext,
    now: u64,
) -> (s: Step<H>)
    requires
        old(st).wf(),
    ensures
        final(st).wf(),
        (world(*final(cs), *final(st), *final(ctx)), s.model()) == reject_owner_op(
            world(*old(cs), *old(st), *old(ctx)),
            *sid,
            seqid,
            now,
        ),
{
    match st.holder(sid) {
        None => failed(nfsstat4::NFS4ERR_NOTSUPP),
        Some((cid, owner)) => failed(
            st.note_owner_rejection(cid, &owner, cs.owner_seqid(seqid), nfsstat4::NFS4ERR_NOTSUPP, now),
        ),
    }
}

} // verus!
