//! The procedures of a server that speaks sessions only: NULL, and a COMPOUND of
//! the operations that make, use and end sessions.

use vstd::prelude::*;

use crate::model::{same_bytes, Model};
use crate::nfs::nfsstring;
use crate::nfs4::compound::SequenceContext;
use crate::nfs4::handlers::session_ops::{
    back_channel, create_session_result, exchange_id_answer, exchange_id_result, fore_channel, negotiate_fore,
    no_back_channel,
};
use crate::nfs4::handlers::{compound_header, mismatch_reply};
use crate::nfs4::session::{
    state_protect_how4, CREATE_SESSION4args, CREATE_SESSION4resok, DESTROY_CLIENTID4args, DESTROY_SESSION4args,
    EXCHANGE_ID4args, EXCHANGE_ID4resok, SEQUENCE4args, SEQUENCE4resok,
};
use crate::nfs4::{clientid4, nfs_opnum4, nfsstat4, sessionid4};
use crate::nfs4_state::{
    leaves_sessions, CreateSessionOutcome, DestroyClientIdOutcome, NFS4State, SequenceOutcome, SequenceView, SlotView,
    StateView,
};
use crate::rpc::{make_success_reply, proc_unavail_reply_message, reply_header, PROC_UNAVAIL, SUCCESS};
use crate::word::{be32, be32_len};
use crate::xdr::{append, Reader, XdrError, XDR};

verus! {

broadcast use be32_len;

/// Most operations that a session takes in one COMPOUND.
pub const MAX_OPS: u32 = 8;

/// What the system's generator gives while an operation runs, as far as the
/// operation draws.
#[derive(Copy, Clone, Debug, PartialEq, Eq)]
pub struct Draws {
    pub clientid: Option<clientid4>,
    pub sessionid: Option<sessionid4>,
}

/// What is drawn is fresh.
pub open spec fn fair(st: StateView, d: Draws) -> bool {
    st.fair_clientid(d.clientid) && st.fair_sessionid(d.sessionid)
}

/// How an operation ends.
pub enum DispatchResult {
    /// With a status, and the bytes that answer it: the status and what follows.
    Status(nfsstat4, Vec<u8>),
    /// SEQUENCE detected a replay; carries the cached body.
    Replay(Vec<u8>),
}

/// What the end of an operation stands for.
pub enum EndView {
    Status(nfsstat4, Seq<u8>),
    Replay(Seq<u8>),
}

impl DispatchResult {
    pub open spec fn view(&self) -> EndView {
        match self {
            DispatchResult::Status(s, b) => EndView::Status(*s, b@),
            DispatchResult::Replay(b) => EndView::Replay(b@),
        }
    }

    /// The status of the operation. A replay is no failure.
    pub fn status(&self) -> (s: nfsstat4)
        ensures
            s == match self@ {
                EndView::Status(s, _) => s,
                EndView::Replay(_) => nfsstat4::NFS4_OK,
            },
    {
        match self {
            DispatchResult::Status(s, _) => *s,
            DispatchResult::Replay(_) => nfsstat4::NFS4_OK,
        }
    }
}

/// An operation that ends with a status and a result.
pub open spec fn ends(status: nfsstat4, result: Seq<u8>) -> EndView {
    EndView::Status(status, nfsstat4::encode(status) + result)
}

/// An operation that ends with a status alone.
pub open spec fn ends_bare(status: nfsstat4) -> EndView {
    EndView::Status(status, nfsstat4::encode(status))
}

fn end_bare(status: nfsstat4) -> (r: DispatchResult)
    ensures
        r@ == ends_bare(status),
{
    let mut out: Vec<u8> = Vec::new();
    status.serialize(&mut out);
    assert(out@ =~= nfsstat4::encode(status));
    DispatchResult::Status(status, out)
}

fn end_with<T: XDR>(result: &T) -> (r: DispatchResult)
    requires
        T::encodable(result.model()),
    ensures
        r@ == ends(nfsstat4::NFS4_OK, T::encode(result.model())),
{
    let mut out: Vec<u8> = Vec::new();
    nfsstat4::NFS4_OK.serialize(&mut out);
    result.serialize(&mut out);
    assert(out@ =~= nfsstat4::encode(nfsstat4::NFS4_OK) + T::encode(result.model()));
    DispatchResult::Status(nfsstat4::NFS4_OK, out)
}

// ---------------------------------------------------------------- operations

/// EXCHANGE_ID: no state protection, no pNFS.
pub open spec fn exchange_id(st: StateView, args: <EXCHANGE_ID4args as Model>::M, port: u16, now: u64, d: Draws) -> (
    StateView,
    EndView,
) {
    let ((verifier, owner), (_, ((how, _, _), _))) = args;
    if how != state_protect_how4::SP4_NONE {
        (st, ends_bare(nfsstat4::NFS4ERR_NOTSUPP))
    } else {
        let (t, r) = st.exchange_id(owner, verifier, now, d.clientid);
        match r {
            None => (t, ends_bare(nfsstat4::NFS4ERR_SERVERFAULT)),
            Some(x) => (
                t,
                ends(nfsstat4::NFS4_OK, EXCHANGE_ID4resok::encode(exchange_id_result(x.clientid, x.seqid, port))),
            ),
        }
    }
}

/// Run EXCHANGE_ID, with what was drawn for it. SP4_NONE only, non-pNFS.
pub fn op_exchange_id(args: EXCHANGE_ID4args, st: &mut NFS4State, port: u16, now: u64, d: Draws) -> (r: DispatchResult)
    requires
        old(st).wf(),
        fair(old(st)@, d),
        now + old(st)@.lease <= u64::MAX,
    ensures
        final(st).wf(),
        (final(st)@, r@) == exchange_id(old(st)@, args.model(), port, now, d),
{
    if args.eia_state_protect.spa_how != state_protect_how4::SP4_NONE {
        return end_bare(nfsstat4::NFS4ERR_NOTSUPP);
    }
    let owner = &args.eia_clientowner;
    match st.exchange_id_as(&owner.co_ownerid, &owner.co_verifier, now, d.clientid) {
        None => end_bare(nfsstat4::NFS4ERR_SERVERFAULT),
        Some(x) => end_with(&exchange_id_answer(x.clientid, x.seqid, port)),
    }
}

/// CREATE_SESSION: a single-slot fore channel, no back channel, no persistence.
pub open spec fn create_session(st: StateView, args: <CREATE_SESSION4args as Model>::M, d: Draws) -> (
    StateView,
    EndView,
) {
    let (cid, (sequence, (_, (asked, _)))) = args;
    let fore = fore_channel(asked, MAX_OPS);
    let (_, (_, (_, (_, (_, (slots, _)))))) = fore;
    let (t, r) = st.create_session(cid, sequence, slots, fore, back_channel(), d.sessionid);
    let result = |id: sessionid4|
        ends(
            nfsstat4::NFS4_OK,
            CREATE_SESSION4resok::encode(create_session_result(id, sequence, asked, MAX_OPS)),
        );
    match r {
        None => (t, ends_bare(nfsstat4::NFS4ERR_SERVERFAULT)),
        Some(CreateSessionOutcome::StaleClientId) => (t, ends_bare(nfsstat4::NFS4ERR_STALE_CLIENTID)),
        Some(CreateSessionOutcome::SeqMisordered) => (t, ends_bare(nfsstat4::NFS4ERR_SEQ_MISORDERED)),
        Some(CreateSessionOutcome::Created { sessionid }) => (t, result(sessionid)),
        Some(CreateSessionOutcome::Replay { sessionid }) => (t, result(sessionid)),
    }
}

/// Run CREATE_SESSION, with what was drawn for it.
pub fn op_create_session(args: CREATE_SESSION4args, st: &mut NFS4State, d: Draws) -> (r: DispatchResult)
    requires
        old(st).wf(),
        fair(old(st)@, d),
    ensures
        final(st).wf(),
        (final(st)@, r@) == create_session(old(st)@, args.model(), d),
{
    let fore = negotiate_fore(&args.csa_fore_chan_attrs, MAX_OPS);
    let num_slots: u32 = fore.ca_maxrequests;
    let outcome = st.create_session_as(
        args.csa_clientid,
        args.csa_sequence,
        num_slots,
        negotiate_fore(&args.csa_fore_chan_attrs, MAX_OPS),
        no_back_channel(),
        d.sessionid,
    );
    match outcome {
        None => end_bare(nfsstat4::NFS4ERR_SERVERFAULT),
        Some(CreateSessionOutcome::StaleClientId) => end_bare(nfsstat4::NFS4ERR_STALE_CLIENTID),
        Some(CreateSessionOutcome::SeqMisordered) => end_bare(nfsstat4::NFS4ERR_SEQ_MISORDERED),
        Some(CreateSessionOutcome::Created { sessionid })
        | Some(CreateSessionOutcome::Replay { sessionid }) => end_with(
            &CREATE_SESSION4resok {
                csr_sessionid: sessionid,
                csr_sequence: args.csa_sequence,
                csr_flags: 0,
                csr_fore_chan_attrs: fore,
                csr_back_chan_attrs: no_back_channel(),
            },
        ),
    }
}

/// What is left of a COMPOUND's session once a session is destroyed.
pub open spec fn left_session(session: Option<SequenceContext>, id: sessionid4) -> Option<SequenceContext> {
    match session {
        Some(c) if c.sessionid == id => None,
        _ => session,
    }
}

/// DESTROY_SESSION, if there is such a session.
pub open spec fn destroy_session(st: StateView, id: sessionid4) -> (StateView, EndView) {
    if st.sessions.contains_key(id) {
        (st.without_session(id), ends_bare(nfsstat4::NFS4_OK))
    } else {
        (st, ends_bare(nfsstat4::NFS4ERR_BADSESSION))
    }
}

/// Run DESTROY_SESSION. A COMPOUND that destroys the session it
/// runs in runs in none from then on, so that nothing is cached in a dead slot.
pub fn op_destroy_session(
    args: DESTROY_SESSION4args,
    session: &mut Option<SequenceContext>,
    st: &mut NFS4State,
) -> (r: DispatchResult)
    requires
        old(st).wf(),
    ensures
        final(st).wf(),
        *final(session) == left_session(*old(session), args.dsa_sessionid),
        (final(st)@, r@) == destroy_session(old(st)@, args.dsa_sessionid),
{
    let current: bool = match &*session {
        Some(c) => same_bytes(&c.sessionid, &args.dsa_sessionid),
        None => false,
    };
    if current {
        *session = None;
    }
    if st.destroy_session(&args.dsa_sessionid) {
        end_bare(nfsstat4::NFS4_OK)
    } else {
        end_bare(nfsstat4::NFS4ERR_BADSESSION)
    }
}

/// DESTROY_CLIENTID, unless the client has sessions.
pub open spec fn destroy_clientid(st: StateView, cid: clientid4) -> (StateView, EndView) {
    let (t, r) = st.destroy_clientid(cid);
    (
        t,
        ends_bare(
            match r {
                DestroyClientIdOutcome::Destroyed => nfsstat4::NFS4_OK,
                DestroyClientIdOutcome::StaleClientId => nfsstat4::NFS4ERR_STALE_CLIENTID,
                DestroyClientIdOutcome::Busy => nfsstat4::NFS4ERR_CLIENTID_BUSY,
            },
        ),
    )
}

/// Run DESTROY_CLIENTID.
pub fn op_destroy_clientid(args: DESTROY_CLIENTID4args, st: &mut NFS4State) -> (r: DispatchResult)
    requires
        old(st).wf(),
    ensures
        final(st).wf(),
        (final(st)@, r@) == destroy_clientid(old(st)@, args.dca_clientid),
{
    match st.destroy_clientid(args.dca_clientid) {
        DestroyClientIdOutcome::Destroyed => end_bare(nfsstat4::NFS4_OK),
        DestroyClientIdOutcome::StaleClientId => end_bare(nfsstat4::NFS4ERR_STALE_CLIENTID),
        DestroyClientIdOutcome::Busy => end_bare(nfsstat4::NFS4ERR_CLIENTID_BUSY),
    }
}

/// SEQUENCE. It must come first; a retransmit is answered as a whole.
pub open spec fn sequence(
    st: StateView,
    session: Option<SequenceContext>,
    first: bool,
    args: <SEQUENCE4args as Model>::M,
    now: u64,
) -> (StateView, Option<SequenceContext>, EndView) {
    let (sessionid, (sequenceid, (slotid, (_, cache_this)))) = args;
    if !first {
        (st, session, ends_bare(nfsstat4::NFS4ERR_SEQUENCE_POS))
    } else {
        let (t, r) = st.sequence_check(sessionid, slotid, sequenceid, now);
        match r {
            SequenceView::New => (
                t,
                Some(SequenceContext { sessionid, slotid, sequenceid, cache_this }),
                ends(
                    nfsstat4::NFS4_OK,
                    SEQUENCE4resok::encode((sessionid, (sequenceid, (slotid, (0u32, (0u32, 0u32)))))),
                ),
            ),
            SequenceView::Replay(b) => (t, session, EndView::Replay(b)),
            SequenceView::RetryUncached => (t, session, ends_bare(nfsstat4::NFS4ERR_RETRY_UNCACHED_REP)),
            SequenceView::Misordered => (t, session, ends_bare(nfsstat4::NFS4ERR_SEQ_MISORDERED)),
            SequenceView::BadSession => (t, session, ends_bare(nfsstat4::NFS4ERR_BADSESSION)),
            SequenceView::BadSlot => (t, session, ends_bare(nfsstat4::NFS4ERR_BADSLOT)),
        }
    }
}

/// Run SEQUENCE. Must be the first op in the compound.
/// Establishes the session binding, enforces exactly-once semantics via the
/// per-slot reply cache, and implicitly renews the lease.
pub fn op_sequence(
    args: SEQUENCE4args,
    session: &mut Option<SequenceContext>,
    first: bool,
    st: &mut NFS4State,
    now: u64,
) -> (r: DispatchResult)
    requires
        old(st).wf(),
        now + old(st)@.lease <= u64::MAX,
    ensures
        final(st).wf(),
        (final(st)@, *final(session), r@) == sequence(old(st)@, *old(session), first, args.model(), now),
{
    if !first {
        return end_bare(nfsstat4::NFS4ERR_SEQUENCE_POS);
    }
    match st.sequence_check(&args.sa_sessionid, args.sa_slotid, args.sa_sequenceid, now) {
        SequenceOutcome::New => {
            *session = Some(
                SequenceContext {
                    sessionid: args.sa_sessionid,
                    slotid: args.sa_slotid,
                    sequenceid: args.sa_sequenceid,
                    cache_this: args.sa_cachethis,
                },
            );
            end_with(
                &SEQUENCE4resok {
                    sr_sessionid: args.sa_sessionid,
                    sr_sequenceid: args.sa_sequenceid,
                    sr_slotid: args.sa_slotid,
                    sr_highest_slotid: 0,
                    sr_target_highest_slotid: 0,
                    sr_status_flags: 0,
                },
            )
        },
        SequenceOutcome::Replay(b) => DispatchResult::Replay(b),
        SequenceOutcome::RetryUncached => end_bare(nfsstat4::NFS4ERR_RETRY_UNCACHED_REP),
        SequenceOutcome::Misordered => end_bare(nfsstat4::NFS4ERR_SEQ_MISORDERED),
        SequenceOutcome::BadSession => end_bare(nfsstat4::NFS4ERR_BADSESSION),
        SequenceOutcome::BadSlot => end_bare(nfsstat4::NFS4ERR_BADSLOT),
    }
}

/// What the front of a byte string reads as.
#[verifier::opaque]
pub open spec fn reads<T: XDR>(b: Seq<u8>) -> Result<(T::M, nat), XdrError> {
    T::decode(b)
}

fn read<T: XDR>(src: &mut Reader) -> (r: Result<T, XdrError>)
    requires
        old(src).wf(),
    ensures
        final(src).wf(),
        final(src).buf == old(src).buf,
        match reads::<T>(old(src).rest()) {
            Ok((m, n)) => {
                &&& r matches Ok(v)
                &&& v.model() == m
                &&& n <= old(src).rest().len()
                &&& final(src).rest() == old(src).rest().skip(n as int)
            },
            Err(e) => r matches Err(x) && x == e,
        },
{
    proof {
        reveal(reads);
        T::decode_within(src.rest());
    }
    T::deserialize(src)
}

/// What one operation does: how many bytes of arguments it takes, the session and
/// the state it leaves, and how it ends.
pub struct Effect {
    pub taken: nat,
    pub session: Option<SequenceContext>,
    pub st: StateView,
    pub end: EndView,
}

/// The effect of an operation whose arguments stand at the front of some bytes.
/// The arguments of an operation that is not implemented are not read.
#[verifier::opaque]
pub open spec fn effect(
    op: nfs_opnum4,
    b: Seq<u8>,
    session: Option<SequenceContext>,
    first: bool,
    st: StateView,
    port: u16,
    now: u64,
    d: Draws,
) -> Result<Effect, XdrError> {
    match op {
        nfs_opnum4::OP_EXCHANGE_ID => match reads::<EXCHANGE_ID4args>(b) {
            Err(e) => Err(e),
            Ok((m, n)) => {
                let (t, end) = exchange_id(st, m, port, now, d);
                Ok(Effect { taken: n, session, st: t, end })
            },
        },
        nfs_opnum4::OP_CREATE_SESSION => match reads::<CREATE_SESSION4args>(b) {
            Err(e) => Err(e),
            Ok((m, n)) => {
                let (t, end) = create_session(st, m, d);
                Ok(Effect { taken: n, session, st: t, end })
            },
        },
        nfs_opnum4::OP_DESTROY_SESSION => match reads::<DESTROY_SESSION4args>(b) {
            Err(e) => Err(e),
            Ok((id, n)) => {
                let (t, end) = destroy_session(st, id);
                Ok(Effect { taken: n, session: left_session(session, id), st: t, end })
            },
        },
        nfs_opnum4::OP_DESTROY_CLIENTID => match reads::<DESTROY_CLIENTID4args>(b) {
            Err(e) => Err(e),
            Ok((cid, n)) => {
                let (t, end) = destroy_clientid(st, cid);
                Ok(Effect { taken: n, session, st: t, end })
            },
        },
        nfs_opnum4::OP_SEQUENCE => match reads::<SEQUENCE4args>(b) {
            Err(e) => Err(e),
            Ok((m, n)) => {
                let (t, bound, end) = sequence(st, session, first, m, now);
                Ok(Effect { taken: n, session: bound, st: t, end })
            },
        },
        nfs_opnum4::OP_ILLEGAL => Ok(
            Effect { taken: 0, session, st, end: ends_bare(nfsstat4::NFS4ERR_OP_ILLEGAL) },
        ),
        _ => Ok(Effect { taken: 0, session, st, end: ends_bare(nfsstat4::NFS4ERR_NOTSUPP) }),
    }
}

/// Dispatch a single operation, whose number has been read already.
pub fn dispatch_op(
    op: nfs_opnum4,
    src: &mut Reader,
    session: &mut Option<SequenceContext>,
    first: bool,
    st: &mut NFS4State,
    port: u16,
    now: u64,
) -> (r: Result<DispatchResult, XdrError>)
    requires
        old(src).wf(),
        old(st).wf(),
        now + old(st)@.lease <= u64::MAX,
    ensures
        final(src).wf(),
        final(src).buf == old(src).buf,
        final(st).wf(),
        exists|d: Draws|
            {
                &&& fair(old(st)@, d)
                &&& match #[trigger] effect(op, old(src).rest(), *old(session), first, old(st)@, port, now, d) {
                    Err(e) => r == Err::<DispatchResult, XdrError>(e) && final(st)@ == old(st)@,
                    Ok(x) => {
                        &&& r matches Ok(end)
                        &&& end@ == x.end
                        &&& final(st)@ == x.st
                        &&& *final(session) == x.session
                        &&& x.taken <= old(src).rest().len()
                        &&& final(src).rest() == old(src).rest().skip(x.taken as int)
                    },
                }
            },
{
    let ghost b = src.rest();
    let ghost s = st@;
    let ghost c = *session;
    proof {
        reveal(effect);
        assert(b.skip(0) =~= b);
        let none = Draws { clientid: None, sessionid: None };
        assert(fair(s, none));
        let x = effect(op, b, c, first, s, port, now, none);
    }
    match op {
        nfs_opnum4::OP_EXCHANGE_ID => match read::<EXCHANGE_ID4args>(src) {
            Err(e) => Err(e),
            Ok(args) => {
                let d = Draws { clientid: st.fresh_clientid(), sessionid: None };
                let end = op_exchange_id(args, st, port, now, d);
                proof {
                    assert(fair(s, d));
                    let x = effect(op, b, c, first, s, port, now, d);
                }
                Ok(end)
            },
        },
        nfs_opnum4::OP_CREATE_SESSION => match read::<CREATE_SESSION4args>(src) {
            Err(e) => Err(e),
            Ok(args) => {
                let d = Draws { clientid: None, sessionid: st.fresh_sessionid() };
                let end = op_create_session(args, st, d);
                proof {
                    assert(fair(s, d));
                    let x = effect(op, b, c, first, s, port, now, d);
                }
                Ok(end)
            },
        },
        nfs_opnum4::OP_DESTROY_SESSION => match read::<DESTROY_SESSION4args>(src) {
            Err(e) => Err(e),
            Ok(args) => Ok(op_destroy_session(args, session, st)),
        },
        nfs_opnum4::OP_DESTROY_CLIENTID => match read::<DESTROY_CLIENTID4args>(src) {
            Err(e) => Err(e),
            Ok(args) => Ok(op_destroy_clientid(args, st)),
        },
        nfs_opnum4::OP_SEQUENCE => match read::<SEQUENCE4args>(src) {
            Err(e) => Err(e),
            Ok(args) => Ok(op_sequence(args, session, first, st, now)),
        },
        nfs_opnum4::OP_ILLEGAL => Ok(end_bare(nfsstat4::NFS4ERR_OP_ILLEGAL)),
        _ => Ok(end_bare(nfsstat4::NFS4ERR_NOTSUPP)),
    }
}

// ---------------------------------------------------------------- COMPOUND

/// A COMPOUND between two operations.
#[verifier::ext_equal]
pub struct Run {
    /// How much of the call has been read.
    pub pos: nat,
    pub session: Option<SequenceContext>,
    pub rescount: nat,
    pub results: Seq<u8>,
    pub last_status: nfsstat4,
}

impl Run {
    /// Before the first operation.
    pub open spec fn begun(pos: nat) -> Run {
        Run { pos, session: None, rescount: 0, results: Seq::empty(), last_status: nfsstat4::NFS4_OK }
    }

    /// All operations have run, or one has failed: COMPOUND stops at the first
    /// error.
    pub open spec fn over(self, num_ops: u32) -> bool {
        self.rescount >= num_ops || self.last_status != nfsstat4::NFS4_OK
    }

    /// The body of the reply: the last status, the tag, and the results.
    pub open spec fn body(self, tag: Seq<u8>) -> Seq<u8> {
        nfsstat4::encode(self.last_status) + nfsstring::encode(tag) + be32(self.rescount as u32) + self.results
    }
}

/// Where a COMPOUND has come to.
pub enum Outcome {
    /// Between two operations, or past the last one.
    Going(Run, StateView),
    /// It is a retransmit, and this is the body that answers it.
    Replayed(Seq<u8>, StateView),
    /// The call cannot be read on.
    Unreadable(XdrError, StateView),
}

/// One operation of a COMPOUND. The result of a number that is no operation's
/// begins with OP_ILLEGAL, any other with the number itself.
pub open spec fn run_one(
    run: Run,
    st: StateView,
    input: Seq<u8>,
    port: u16,
    now: u64,
    d: Draws,
) -> Outcome {
    match u32::decode(input.skip(run.pos as int)) {
        Err(e) => Outcome::Unreadable(e, st),
        Ok((opnum, _)) => match nfs_opnum4::of_number(opnum) {
            None => Outcome::Going(
                Run {
                    pos: run.pos + 4,
                    rescount: run.rescount + 1,
                    results: run.results + be32(nfs_opnum4::OP_ILLEGAL.number()) + nfsstat4::encode(
                        nfsstat4::NFS4ERR_OP_ILLEGAL,
                    ),
                    last_status: nfsstat4::NFS4ERR_OP_ILLEGAL,
                    ..run
                },
                st,
            ),
            Some(op) => match effect(
                op,
                input.skip((run.pos + 4) as int),
                run.session,
                run.rescount == 0,
                st,
                port,
                now,
                d,
            ) {
                Err(e) => Outcome::Unreadable(e, st),
                Ok(x) => match x.end {
                    EndView::Replay(b) => Outcome::Replayed(b, x.st),
                    EndView::Status(status, bytes) => Outcome::Going(
                        Run {
                            pos: run.pos + 4 + x.taken,
                            session: x.session,
                            rescount: run.rescount + 1,
                            results: run.results + be32(opnum) + bytes,
                            last_status: status,
                        },
                        x.st,
                    ),
                },
            },
        },
    }
}

/// A COMPOUND as it stands in a call.
pub struct Call {
    pub input: Seq<u8>,
    pub start: nat,
    pub num_ops: u32,
    pub port: u16,
    pub now: u64,
}

/// Where a COMPOUND has come to with these draws, one for each operation.
pub open spec fn trace(call: Call, st: StateView, ds: Seq<Draws>) -> Outcome
    decreases ds.len(),
{
    if ds.len() == 0 {
        Outcome::Going(Run::begun(call.start), st)
    } else {
        match trace(call, st, ds.drop_last()) {
            Outcome::Going(run, s) if !run.over(call.num_ops) => run_one(
                run,
                s,
                call.input,
                call.port,
                call.now,
                ds.last(),
            ),
            x => x,
        }
    }
}

/// Every draw is fair to the state in which it is used.
pub open spec fn fair_trace(call: Call, st: StateView, ds: Seq<Draws>) -> bool
    decreases ds.len(),
{
    ds.len() == 0 || {
        &&& fair_trace(call, st, ds.drop_last())
        &&& match trace(call, st, ds.drop_last()) {
            Outcome::Going(run, s) if !run.over(call.num_ops) => fair(s, ds.last()),
            _ => true,
        }
    }
}

/// There is nothing left to run.
pub open spec fn ended(o: Outcome, num_ops: u32) -> bool {
    match o {
        Outcome::Going(run, _) => run.over(num_ops),
        _ => true,
    }
}

/// What an ended COMPOUND leaves and answers. Where SEQUENCE asked for it, the
/// body is cached for a retransmit.
pub open spec fn answer(xid: u32, tag: Seq<u8>, o: Outcome) -> (StateView, Result<Seq<u8>, XdrError>) {
    match o {
        Outcome::Unreadable(e, st) => (st, Err(e)),
        Outcome::Replayed(b, st) => (st, Ok(reply_header(xid, SUCCESS) + b)),
        Outcome::Going(run, st) => {
            let body = run.body(tag);
            (
                match run.session {
                    Some(c) if c.cache_this => st.reply_cached(c.sessionid, c.slotid, c.sequenceid, body),
                    _ => st,
                },
                Ok(reply_header(xid, SUCCESS) + body),
            )
        },
    }
}

/// These are the bytes, or the error.
pub open spec fn gives(r: Result<Vec<u8>, XdrError>, m: Result<Seq<u8>, XdrError>) -> bool {
    match m {
        Ok(b) => r matches Ok(v) && v@ == b,
        Err(e) => r matches Err(x) && x == e,
    }
}

/// What the COMPOUND procedure may come to: only minor version 1 is spoken.
pub open spec fn compounds(
    xid: u32,
    input: Seq<u8>,
    port: u16,
    now: u64,
    before: StateView,
    after: StateView,
    r: Result<Vec<u8>, XdrError>,
) -> bool {
    match compound_header(input) {
        Err(e) => gives(r, Err(e)) && after == before,
        Ok(((tag, (minor, num_ops)), n)) => if minor != 1 {
            gives(r, Ok(mismatch_reply(xid, tag))) && after == before
        } else {
            may_end(xid, tag, Call { input, start: n, num_ops, port, now }, before, after, r)
        },
    }
}

/// There are draws with which a COMPOUND leaves and answers this.
pub open spec fn may_end(
    xid: u32,
    tag: Seq<u8>,
    call: Call,
    before: StateView,
    after: StateView,
    r: Result<Vec<u8>, XdrError>,
) -> bool {
    exists|ds: Seq<Draws>| #[trigger] ends_so(xid, tag, call, before, ds, after, r)
}

/// With these draws a COMPOUND ends, and this is what it leaves and answers.
pub open spec fn ends_so(
    xid: u32,
    tag: Seq<u8>,
    call: Call,
    before: StateView,
    ds: Seq<Draws>,
    after: StateView,
    r: Result<Vec<u8>, XdrError>,
) -> bool {
    let o = trace(call, before, ds);
    &&& fair_trace(call, before, ds)
    &&& ended(o, call.num_ops)
    &&& after == answer(xid, tag, o).0
    &&& gives(r, answer(xid, tag, o).1)
}

/// A way to end is what the procedure may come to.
proof fn so_compounds(
    xid: u32,
    tag: Seq<u8>,
    call: Call,
    before: StateView,
    ds: Seq<Draws>,
    after: StateView,
    r: Result<Vec<u8>, XdrError>,
)
    requires
        compound_header(call.input) == Ok::<((Seq<u8>, (u32, u32)), nat), XdrError>(
            ((tag, (1u32, call.num_ops)), call.start),
        ),
        ends_so(xid, tag, call, before, ds, after, r),
    ensures
        compounds(xid, call.input, call.port, call.now, before, after, r),
{
    let again = Call {
        input: call.input,
        start: call.start,
        num_ops: call.num_ops,
        port: call.port,
        now: call.now,
    };
    assert(call == again);
    assert(may_end(xid, tag, call, before, after, r));
    assert(may_end(xid, tag, again, before, after, r));
}

/// No operation changes how long a lease runs.
proof fn effect_keeps_lease(
    op: nfs_opnum4,
    b: Seq<u8>,
    session: Option<SequenceContext>,
    first: bool,
    st: StateView,
    port: u16,
    now: u64,
    d: Draws,
)
    ensures
        effect(op, b, session, first, st, port, now, d) matches Ok(x) ==> x.st.lease == st.lease,
{
    reveal(effect);
}

/// The COMPOUND procedure.
pub fn nfsproc4_compound(xid: u32, input: &Vec<u8>, st: &mut NFS4State, port: u16, now: u64) -> (r: Result<
    Vec<u8>,
    XdrError,
>)
    requires
        old(st).wf(),
        now + old(st)@.lease <= u64::MAX,
    ensures
        final(st).wf(),
        compounds(xid, input@, port, now, old(st)@, final(st)@, r),
{
    let ghost before = st@;
    let mut src = Reader::new(input.as_slice());
    proof {
        <(nfsstring, (u32, u32)) as XDR>::decode_within(input@);
    }
    let (tag, (minor, num_ops)) = match <(nfsstring, (u32, u32)) as XDR>::deserialize(&mut src) {
        Ok(v) => v,
        Err(e) => return Err(e),
    };
    if minor != 1 {
        let mut out: Vec<u8> = make_success_reply(xid);
        nfsstat4::NFS4ERR_MINOR_VERS_MISMATCH.serialize(&mut out);
        tag.serialize(&mut out);
        0u32.serialize(&mut out);
        assert(out@ =~= mismatch_reply(xid, tag.model()));
        return Ok(out);
    }
    let ghost call = Call { input: input@, start: src.pos as nat, num_ops, port, now };
    proof {
        if let Ok((_, n)) = compound_header(input@) {
            assert(input@.skip(src.pos as int).len() == input@.skip(n as int).len());
            assert(call.start == n);
        }
    }
    let mut session: Option<SequenceContext> = None;
    let mut results: Vec<u8> = Vec::new();
    let mut rescount: u32 = 0;
    let mut last_status = nfsstat4::NFS4_OK;
    let ghost mut ds: Seq<Draws> = Seq::empty();
    while rescount < num_ops && last_status == nfsstat4::NFS4_OK
        invariant
            src.wf(),
            src.buf@ == input@,
            before == old(st)@,
            st.wf(),
            st@.lease == before.lease,
            now + before.lease <= u64::MAX,
            call == (Call { input: input@, start: call.start, num_ops, port, now }),
            compound_header(input@) == Ok::<((Seq<u8>, (u32, u32)), nat), XdrError>(
                ((tag.model(), (1u32, num_ops)), call.start),
            ),
            rescount <= num_ops,
            fair_trace(call, before, ds),
            trace(call, before, ds) == Outcome::Going(
                Run { pos: src.pos as nat, session, rescount: rescount as nat, results: results@, last_status },
                st@,
            ),
        decreases num_ops - rescount,
    {
        let ghost run = Run {
            pos: src.pos as nat,
            session,
            rescount: rescount as nat,
            results: results@,
            last_status,
        };
        let ghost s = st@;
        let ghost rest = src.rest();
        let opnum: u32 = match u32::deserialize(&mut src) {
            Ok(v) => v,
            Err(e) => {
                proof {
                    let d = Draws { clientid: None, sessionid: None };
                    let more = ds.push(d);
                    assert(more.drop_last() =~= ds);
                    so_compounds(xid, tag.model(), call, before, more, st@, Err(e));
                }
                return Err(e);
            },
        };
        assert(src.rest() =~= input@.skip((run.pos + 4) as int));
        assert(src.rest().len() == input@.len() - src.pos);
        assert(src.pos == run.pos + 4);
        match nfs_opnum4::from_u32(opnum) {
            None => {
                nfs_opnum4::OP_ILLEGAL.to_u32().serialize(&mut results);
                nfsstat4::NFS4ERR_OP_ILLEGAL.serialize(&mut results);
                last_status = nfsstat4::NFS4ERR_OP_ILLEGAL;
                proof {
                    let d = Draws { clientid: None, sessionid: None };
                    let more = ds.push(d);
                    assert(more.drop_last() =~= ds);
                    assert(fair(s, d));
                    ds = more;
                }
            },
            Some(op) => {
                let ghost args = src.rest();
                let first: bool = rescount == 0;
                let end = dispatch_op(op, &mut src, &mut session, first, st, port, now);
                let ghost d = choose|d: Draws|
                    {
                        &&& fair(s, d)
                        &&& match #[trigger] effect(op, args, run.session, first, s, port, now, d) {
                            Err(e) => end == Err::<DispatchResult, XdrError>(e) && st@ == s,
                            Ok(x) => {
                                &&& end matches Ok(y)
                                &&& y@ == x.end
                                &&& st@ == x.st
                                &&& session == x.session
                                &&& x.taken <= args.len()
                                &&& src.rest() == args.skip(x.taken as int)
                            },
                        }
                    };
                proof {
                    let more = ds.push(d);
                    assert(more.drop_last() =~= ds);
                    effect_keeps_lease(op, args, run.session, first, s, port, now, d);
                    ds = more;
                }
                match end {
                    Err(e) => {
                        proof {
                            so_compounds(xid, tag.model(), call, before, ds, st@, Err(e));
                        }
                        return Err(e);
                    },
                    Ok(DispatchResult::Replay(b)) => {
                        let mut out: Vec<u8> = make_success_reply(xid);
                        append(&mut out, &b);
                        proof {
                            so_compounds(xid, tag.model(), call, before, ds, st@, Ok(out));
                        }
                        return Ok(out);
                    },
                    Ok(DispatchResult::Status(status, bytes)) => {
                        opnum.serialize(&mut results);
                        append(&mut results, &bytes);
                        last_status = status;
                        assert(src.rest().len() == input@.len() - src.pos);
                    },
                }
            },
        }
        rescount = rescount + 1;
    }
    let ghost o = trace(call, before, ds);
    let mut body: Vec<u8> = Vec::new();
    last_status.serialize(&mut body);
    tag.serialize(&mut body);
    rescount.serialize(&mut body);
    append(&mut body, &results);
    let mut out: Vec<u8> = make_success_reply(xid);
    append(&mut out, &body);
    proof {
        assert(ended(o, num_ops));
        let run = o->Going_0;
        assert(body@ =~= run.body(tag.model()));
    }
    if let Some(c) = &session {
        if c.cache_this {
            st.cache_reply(&c.sessionid, c.slotid, c.sequenceid, body);
        }
    }
    proof {
        so_compounds(xid, tag.model(), call, before, ds, st@, Ok(out));
    }
    Ok(out)
}

/// Answer a call: procedure 0 does nothing, procedure 1 is COMPOUND, and there are
/// no others.
pub fn handle_nfs(xid: u32, proc_number: u32, input: &Vec<u8>, st: &mut NFS4State, port: u16, now: u64) -> (r: Result<
    Vec<u8>,
    XdrError,
>)
    requires
        old(st).wf(),
        now + old(st)@.lease <= u64::MAX,
    ensures
        final(st).wf(),
        if proc_number == 0 {
            gives(r, Ok(reply_header(xid, SUCCESS))) && *final(st) == *old(st)
        } else if proc_number == 1 {
            compounds(xid, input@, port, now, old(st)@, final(st)@, r)
        } else {
            gives(r, Ok(reply_header(xid, PROC_UNAVAIL))) && *final(st) == *old(st)
        },
{
    if proc_number == 0 {
        Ok(make_success_reply(xid))
    } else if proc_number == 1 {
        nfsproc4_compound(xid, input, st, port, now)
    } else {
        Ok(proc_unavail_reply_message(xid))
    }
}

// ---------------------------------------------------------------- laws

/// COMPOUND stops at the first error: once an operation has failed, no further
/// draw changes anything.
pub proof fn compound_stops_at_the_first_error(call: Call, st: StateView, ds: Seq<Draws>, more: Seq<Draws>)
    requires
        ended(trace(call, st, ds), call.num_ops),
    ensures
        trace(call, st, ds + more) == trace(call, st, ds),
    decreases more.len(),
{
    if more.len() == 0 {
        assert(ds + more =~= ds);
    } else {
        assert((ds + more).drop_last() =~= ds + more.drop_last());
        compound_stops_at_the_first_error(call, st, ds, more.drop_last());
    }
}

/// A COMPOUND that begins with the SEQUENCE of a request whose reply is cached is
/// answered by that reply, verbatim, and runs nothing.
pub proof fn a_retransmit_gets_the_cached_reply(
    xid: u32,
    tag: Seq<u8>,
    call: Call,
    st: StateView,
    d: Draws,
    args: <SEQUENCE4args as Model>::M,
    taken: nat,
    reply: Seq<u8>,
)
    requires
        call.num_ops > 0,
        u32::decode(call.input.skip(call.start as int)) matches Ok((n, _)) && n == nfs_opnum4::OP_SEQUENCE.number(),
        SEQUENCE4args::decode(call.input.skip((call.start + 4) as int)) == Ok::<
            (<SEQUENCE4args as Model>::M, nat),
            XdrError,
        >((args, taken)),
        st.sequence_check(args.0, args.1.1.0, args.1.0, call.now).1 == SequenceView::Replay(reply),
    ensures
        ended(trace(call, st, seq![d]), call.num_ops),
        answer(xid, tag, trace(call, st, seq![d])) == (
            st.sequence_check(args.0, args.1.1.0, args.1.0, call.now).0,
            Ok::<Seq<u8>, XdrError>(reply_header(xid, SUCCESS) + reply),
        ),
{
    reveal(effect);
    reveal(reads);
    assert(seq![d].drop_last() =~= Seq::<Draws>::empty());
    reveal_with_fuel(trace, 2);
    let run = Run::begun(call.start);
    assert(nfs_opnum4::of_number(nfs_opnum4::OP_SEQUENCE.number()) == Some(nfs_opnum4::OP_SEQUENCE));
    assert(trace(call, st, seq![d]) == run_one(run, st, call.input, call.port, call.now, d));
}

/// The reply of a COMPOUND that ran in a session and was to be cached is what a
/// retransmit finds in the slot, if the slot still stands at the request.
pub proof fn a_cached_reply_is_what_was_answered(xid: u32, tag: Seq<u8>, run: Run, st: StateView, c: SequenceContext)
    requires
        run.session == Some(c),
        c.cache_this,
        st.sessions.contains_key(c.sessionid),
        c.slotid < st.sessions[c.sessionid].slots.len(),
        st.sessions[c.sessionid].slots[c.slotid as int].last_seqid == c.sequenceid,
    ensures
        ({
            let (t, r) = answer(xid, tag, Outcome::Going(run, st));
            let cached = t.sessions[c.sessionid].slots[c.slotid as int].cached;
            cached matches Some(b) && r == Ok::<Seq<u8>, XdrError>(reply_header(xid, SUCCESS) + b)
        }),
{
}

/// Whatever an operation that is not the first of its COMPOUND does, every slot of
/// every session is left as it was, unless the session goes. The COMPOUND stays in its
/// session, or leaves it for none.
pub proof fn operations_leave_slots_alone(
    op: nfs_opnum4,
    b: Seq<u8>,
    session: Option<SequenceContext>,
    st: StateView,
    port: u16,
    now: u64,
    d: Draws,
)
    requires
        fair(st, d),
    ensures
        effect(op, b, session, false, st, port, now, d) matches Ok(x) ==> {
            &&& leaves_sessions(st, x.st)
            &&& x.session == session || x.session is None
            &&& x.end is Status
        },
{
    reveal(effect);
}

/// The session is there wherever the COMPOUND comes to.
pub open spec fn keeps_session(call: Call, st: StateView, ds: Seq<Draws>, id: sessionid4) -> bool
    decreases ds.len(),
{
    ds.len() == 0 || {
        &&& keeps_session(call, st, ds.drop_last(), id)
        &&& trace(call, st, ds) matches Outcome::Going(_, s) ==> s.sessions.contains_key(id)
    }
}

/// The slot stands at the request, and the COMPOUND is in no other.
pub open spec fn in_slot(run: Run, s: StateView, c: SequenceContext) -> bool {
    &&& run.session == Some(c) || run.session is None
    &&& run.rescount >= 1
    &&& s.sessions.contains_key(c.sessionid)
    &&& c.slotid < s.sessions[c.sessionid].slots.len()
    &&& s.sessions[c.sessionid].slots[c.slotid as int].last_seqid == c.sequenceid
}

/// The call begins with this SEQUENCE.
pub open spec fn begins_with(call: Call, args: <SEQUENCE4args as Model>::M, taken: nat) -> bool {
    &&& call.num_ops > 0
    &&& u32::decode(call.input.skip(call.start as int)) matches Ok((n, _)) && n == nfs_opnum4::OP_SEQUENCE.number()
    &&& SEQUENCE4args::decode(call.input.skip((call.start + 4) as int)) == Ok::<
        (<SEQUENCE4args as Model>::M, nat),
        XdrError,
    >((args, taken))
}

/// The slot that a SEQUENCE puts its COMPOUND in.
pub open spec fn slot_of(args: <SEQUENCE4args as Model>::M) -> SequenceContext {
    SequenceContext { sessionid: args.0, slotid: args.1.1.0, sequenceid: args.1.0, cache_this: args.1.1.1.1 }
}

proof fn first_operation(call: Call, st: StateView, d: Draws, args: <SEQUENCE4args as Model>::M, taken: nat)
    requires
        begins_with(call, args, taken),
        st.sequence_check(args.0, args.1.1.0, args.1.0, call.now).1 is New,
    ensures
        trace(call, st, seq![d]) matches Outcome::Going(run, s) && in_slot(run, s, slot_of(args)),
{
    reveal(effect);
    reveal(reads);
    assert(seq![d].drop_last() =~= Seq::<Draws>::empty());
    reveal_with_fuel(trace, 2);
    assert(nfs_opnum4::of_number(nfs_opnum4::OP_SEQUENCE.number()) == Some(nfs_opnum4::OP_SEQUENCE));
    assert(trace(call, st, seq![d]) == run_one(Run::begun(call.start), st, call.input, call.port, call.now, d));
}

proof fn run_stays_in_slot(
    call: Call,
    st: StateView,
    ds: Seq<Draws>,
    args: <SEQUENCE4args as Model>::M,
    taken: nat,
)
    requires
        begins_with(call, args, taken),
        st.sequence_check(args.0, args.1.1.0, args.1.0, call.now).1 is New,
        ds.len() > 0,
        fair_trace(call, st, ds),
        keeps_session(call, st, ds, args.0),
    ensures
        trace(call, st, ds) matches Outcome::Going(run, s) ==> in_slot(run, s, slot_of(args)),
        !(trace(call, st, ds) is Replayed),
    decreases ds.len(),
{
    if ds.len() == 1 {
        assert(ds =~= seq![ds[0]]);
        first_operation(call, st, ds[0], args, taken);
    } else {
        let before = ds.drop_last();
        run_stays_in_slot(call, st, before, args, taken);
        if let Outcome::Going(run, s) = trace(call, st, before) {
            if !run.over(call.num_ops) {
                if let Ok((opnum, _)) = u32::decode(call.input.skip(run.pos as int)) {
                    if let Some(op) = nfs_opnum4::of_number(opnum) {
                        operations_leave_slots_alone(
                            op,
                            call.input.skip((run.pos + 4) as int),
                            run.session,
                            s,
                            call.port,
                            call.now,
                            ds.last(),
                        );
                    }
                }
            }
        }
    }
}

/// Exactly once. A COMPOUND begins with a SEQUENCE that is new and asks for the reply
/// to be cached, and runs to its end in its session. Then it is sent again, to a state
/// where the slot is still as it was left, within the lease: the answer is the first
/// body, byte for byte, and nothing runs a second time.
pub proof fn a_compound_runs_once(
    xid: u32,
    tag: Seq<u8>,
    call: Call,
    st: StateView,
    ds: Seq<Draws>,
    args: <SEQUENCE4args as Model>::M,
    taken: nat,
    xid_again: u32,
    call_again: Call,
    st_again: StateView,
    d_again: Draws,
)
    requires
        begins_with(call, args, taken),
        // It is new, and to be cached.
        args.1.1.1.1,
        st.sequence_check(args.0, args.1.1.0, args.1.0, call.now).1 is New,
        // It runs to its end.
        ds.len() > 0,
        fair_trace(call, st, ds),
        keeps_session(call, st, ds, args.0),
        trace(call, st, ds) matches Outcome::Going(run, _) && run.over(call.num_ops) && run.session is Some,
        // It is sent again.
        call_again.input == call.input,
        call_again.start == call.start,
        call_again.num_ops == call.num_ops,
        ({
            let t = answer(xid, tag, trace(call, st, ds)).0;
            &&& st_again.sessions.contains_key(args.0)
            &&& st_again.sessions[args.0] == t.sessions[args.0]
        }),
        st_again.client(st_again.sessions[args.0].clientid).expires >= call_again.now,
    ensures
        ({
            let body = trace(call, st, ds)->Going_0.body(tag);
            let o = trace(call_again, st_again, seq![d_again]);
            &&& answer(xid, tag, trace(call, st, ds)).1 == Ok::<Seq<u8>, XdrError>(reply_header(xid, SUCCESS) + body)
            &&& ended(o, call_again.num_ops)
            &&& answer(xid_again, tag, o) == (
                st_again.renewed(st_again.sessions[args.0].clientid, call_again.now),
                Ok::<Seq<u8>, XdrError>(reply_header(xid_again, SUCCESS) + body),
            )
        }),
{
    run_stays_in_slot(call, st, ds, args, taken);
    let c = slot_of(args);
    let body = trace(call, st, ds)->Going_0.body(tag);
    let t = answer(xid, tag, trace(call, st, ds)).0;
    assert(t.sessions[c.sessionid].slots[c.slotid as int] == SlotView {
        last_seqid: c.sequenceid,
        cached: Some(body),
    });
    a_retransmit_gets_the_cached_reply(xid_again, tag, call_again, st_again, d_again, args, taken, body);
}

} // verus!
