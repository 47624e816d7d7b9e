//! Exactly once: a COMPOUND that is sent twice on one slot runs once, and is answered
//! alike.

use vstd::prelude::*;

use crate::context::RPCContext;
use crate::model::Model;
use crate::nfs4::args::LockerView;
use crate::nfs4::compound::{handle_in, CompoundView, OpenRequest, Pending, PendingView, SequenceContext, World};
use crate::nfs4::handlers::open_ops::{open_failed, request_of};
use crate::nfs4::handlers::session_ops::{
    fair, least, reject_owner_op, some, Draws, MAX_COMPOUND_OPS, MAX_REQUESTS, MAX_RESPONSE_SIZE,
};
use crate::nfs4::handlers::{
    finished, op_at, resumed, run_on, run_op, start, stateid_of, ArgsView, ProgressView, RunView,
};
use crate::nfs4::session::SEQUENCE4args;
use crate::nfs4::state_laws::{
    booking_leaves_both, client_operations_leave_both, closing_leaves_both, create_session_leaves_sessions,
    leaves_replays, leaves_sessions, opening_leaves_both, registering_leaves_both, session_operations_leave_both,
};
use crate::nfs4::state_spec::{state_ref, SequenceView, StateRef, StateView};
use crate::nfs4::{nfs_opnum4, nfsstat4, seqid4, sessionid4, stateid4};
use crate::rpc::{reply_header, SUCCESS};
use crate::vfs::ReplyView;
use crate::xdr::XdrError;

verus! {

// ---------------------------------------------------------------- one operation

/// A COMPOUND stays in its session or leaves it for none, and counts as before.
pub open spec fn stays(a: CompoundView, b: CompoundView) -> bool {
    &&& b.session == a.session || b.session is None
    &&& b.opcount == a.opcount
    &&& b.minorversion == a.minorversion
}

/// Whatever an operation that is not the first of its COMPOUND does, every slot of
/// every session is left as it was, unless the session goes. But for CREATE_SESSION,
/// what a client replays is left alone too.
pub proof fn operations_leave_slots_alone<H>(w: World<H>, args: ArgsView, now: u64, d: Draws)
    requires
        w.cs.opcount != 0,
        fair(w.st, d),
    ensures
        leaves_sessions(w.st, start(w, args, now, d).0.st),
        !(args is CreateSession) ==> leaves_replays(w.st, start(w, args, now, d).0.st),
        stays(w.cs, start(w, args, now, d).0.cs),
{
    reveal(start);
    let s = w.st;
    match args {
        ArgsView::ExchangeId(((verifier, ownerid), _)) => {
            registering_leaves_both(s, ownerid, verifier, verifier, d.clientid, now);
        },
        ArgsView::SetClientid(((verifier, id), _)) => {
            if let Ok(confirm) = d.confirm {
                registering_leaves_both(s, id, verifier, confirm, d.clientid, now);
            }
        },
        ArgsView::CreateSession((cid, (sequence, (_, (asked, _))))) => {
            let (_, (_, (_, (cached, (_, (requests, _)))))) = asked;
            create_session_leaves_sessions(
                s,
                cid,
                sequence,
                some(least(requests, MAX_REQUESTS)),
                least(cached, MAX_RESPONSE_SIZE),
                now,
                d.sessionid,
            );
        },
        ArgsView::DestroySession(id) => {
            session_operations_leave_both(s, id, now);
        },
        ArgsView::ReclaimComplete(_) => {
            if let Some(c) = w.cs.session {
                session_operations_leave_both(s, c.sessionid, now);
            }
        },
        ArgsView::DestroyClientid(cid) => {
            client_operations_leave_both(s, cid, now);
        },
        ArgsView::SetClientidConfirm((cid, _)) => {
            client_operations_leave_both(s, cid, now);
        },
        ArgsView::Renew(cid) => {
            client_operations_leave_both(s, cid, now);
        },
        ArgsView::Open(a) => {
            failing_leaves_slots_alone(s, request_of(w.cs, a), now);
        },
        ArgsView::Close((seqid, sid)) => {
            closing_leaves_both(s, stateid_of(sid), seqid, w.cs.owner_seqid(seqid), now);
        },
        ArgsView::OpenConfirm((sid, seqid)) => {
            closing_leaves_both(s, stateid_of(sid), seqid, w.cs.owner_seqid(seqid), now);
        },
        ArgsView::OpenDowngrade((sid, (seqid, _))) => {
            rejecting_leaves_slots_alone(w, stateid_of(sid), seqid, now);
        },
        ArgsView::Lock((_, (_, (_, (_, locker))))) => {
            if let LockerView::New((seqid, (sid, _))) = locker {
                rejecting_leaves_slots_alone(w, stateid_of(sid), seqid, now);
            }
        },
        _ => {},
    }
}

proof fn rejecting_leaves_slots_alone<H>(w: World<H>, sid: stateid4, seqid: seqid4, now: u64)
    ensures
        leaves_sessions(w.st, reject_owner_op(w, sid, seqid, now).0.st),
        leaves_replays(w.st, reject_owner_op(w, sid, seqid, now).0.st),
{
    if let StateRef::Open { other, .. } = state_ref(sid) {
        if let Some((cid, owner)) = w.st.holder(other) {
            let status = nfsstat4::NFS4ERR_NOTSUPP;
            booking_leaves_both(w.st, cid, owner, w.cs.owner_seqid(seqid), Err(status), status, now);
        }
    }
}

/// The same of an operation that goes on with the file system's answer.
pub proof fn resumed_operations_leave_slots_alone<H>(
    w: World<H>,
    p: PendingView<H>,
    r: ReplyView<H>,
    now: u64,
    d: Draws,
)
    ensures
        leaves_sessions(w.st, resumed(w, p, r, now, d).0.st),
        leaves_replays(w.st, resumed(w, p, r, now, d).0.st),
        stays(w.cs, resumed(w, p, r, now, d).0.cs),
{
    reveal(resumed);
    let s = w.st;
    match p {
        Pending::OpenDir { open, .. } => {
            failing_leaves_slots_alone(s, open, now);
        },
        Pending::OpenLookup { open, .. } => {
            failing_leaves_slots_alone(s, open, now);
        },
        Pending::OpenCreate { open, .. } => {
            failing_leaves_slots_alone(s, open, now);
        },
        Pending::OpenTarget { open, file, .. } => {
            failing_leaves_slots_alone(s, open, now);
            opening_leaves_both(
                s,
                open.clientid,
                open.owner,
                open.seqid,
                file,
                open.mode,
                handle_in(r),
                now,
                d.other,
            );
        },
        Pending::OpenHandle { open, file, .. } => {
            opening_leaves_both(
                s,
                open.clientid,
                open.owner,
                open.seqid,
                file,
                open.mode,
                handle_in(r),
                now,
                d.other,
            );
        },
        _ => {},
    }
}

proof fn failing_leaves_slots_alone<H>(s: StateView<H>, open: OpenRequest<Seq<u8>>, now: u64)
    ensures
        forall|status: nfsstat4|
            #![trigger open_failed(s, open, status, now)]
            leaves_sessions(s, open_failed(s, open, status, now).0) && leaves_replays(
                s,
                open_failed(s, open, status, now).0,
            ),
{
    assert forall|status: nfsstat4|
        #![trigger open_failed(s, open, status, now)]
        leaves_sessions(s, open_failed(s, open, status, now).0) && leaves_replays(
            s,
            open_failed(s, open, status, now).0,
        ) by {
        booking_leaves_both(s, open.clientid, open.owner, open.seqid, Err(status), status, now);
    }
}

// ---------------------------------------------------------------- a whole COMPOUND

/// A COMPOUND at some moment: between two operations, or in one that waits for the
/// file system.
pub struct Moment<H> {
    pub run: RunView,
    pub pending: Option<PendingView<H>>,
    pub st: StateView<H>,
    pub ctx: RPCContext,
}

/// The moment that progress leads to. A whole reply ends the COMPOUND.
pub open spec fn moment_after<H>(run: RunView, p: ProgressView<H>, st: StateView<H>, ctx: RPCContext) -> Option<
    Moment<H>,
> {
    match p {
        ProgressView::Next => Some(Moment { run, pending: None, st, ctx }),
        ProgressView::Ask(_, q) => Some(Moment { run, pending: Some(q), st, ctx }),
        ProgressView::Reply(_) => None,
    }
}

/// The moment after the next operation was run, or the current one went on, at some
/// time, with some draws and some answer of the file system.
pub open spec fn worked<H>(input: Seq<u8>, a: Moment<H>, now: u64, d: Draws, r: ReplyView<H>) -> Option<Moment<H>> {
    match a.pending {
        None => if a.run.over() {
            None
        } else {
            match op_at(input, a.run) {
                Err(_) => None,
                Ok((opnum, args, pos)) => {
                    let (run, p, st, ctx) = run_op(a.run, a.st, a.ctx, opnum, args, pos, now, d);
                    moment_after(run, p, st, ctx)
                },
            }
        },
        Some(q) => {
            let (run, p, st) = run_on(a.run, a.st, a.ctx, q, r, now, d);
            moment_after(run, p, st, a.ctx)
        },
    }
}

/// The session is there, and as it was.
pub open spec fn same_session<H>(s: StateView<H>, t: StateView<H>, id: sessionid4) -> bool {
    t.sessions.contains_key(id) && t.sessions[id] == s.sessions[id]
}

/// One moment of a COMPOUND leads to another: it did some work itself, or others
/// worked on the state meanwhile, and left the session alone.
pub open spec fn leads_to<H>(input: Seq<u8>, id: sessionid4, a: Moment<H>, b: Moment<H>) -> bool {
    ||| exists|now: u64, d: Draws, r: ReplyView<H>|
        fair(a.st, d) && #[trigger] worked(input, a, now, d, r) == Some(b)
    ||| b.run == a.run && b.pending == a.pending && same_session(a.st, b.st, id)
}

/// What holds of a COMPOUND at every moment after its SEQUENCE, as long as the session
/// is there: the slot stands at the request, and the COMPOUND is in no other.
pub open spec fn in_slot<H>(m: Moment<H>, first: RunView, c: SequenceContext, max_cached: u32) -> bool {
    &&& m.run.cs.session == Some(c) || m.run.cs.session is None
    &&& m.run.xid == first.xid
    &&& m.run.tag == first.tag
    &&& m.run.num_ops == first.num_ops
    &&& 1 <= m.run.rescount <= m.run.num_ops
    &&& m.run.num_ops <= MAX_COMPOUND_OPS
    &&& m.run.cs.opcount == m.run.rescount
    &&& m.pending is Some ==> m.run.rescount < m.run.num_ops
    &&& m.st.sessions.contains_key(c.sessionid)
    &&& c.slotid < m.st.sessions[c.sessionid].slots.len()
    &&& m.st.sessions[c.sessionid].slots[c.slotid as int].last_seqid == c.sequenceid
    &&& m.st.sessions[c.sessionid].max_cached == max_cached
}

proof fn work_stays_in_slot<H>(
    input: Seq<u8>,
    a: Moment<H>,
    b: Moment<H>,
    first: RunView,
    c: SequenceContext,
    max_cached: u32,
    now: u64,
    d: Draws,
    r: ReplyView<H>,
)
    requires
        in_slot(a, first, c, max_cached),
        fair(a.st, d),
        worked(input, a, now, d, r) == Some(b),
        b.st.sessions.contains_key(c.sessionid),
    ensures
        in_slot(b, first, c, max_cached),
{
    let w = World { cs: a.run.cs, st: a.st, ctx: a.ctx };
    match a.pending {
        None => {
            if let Ok((_, args, _)) = op_at(input, a.run) {
                operations_leave_slots_alone(w, args, now, d);
            }
        },
        Some(q) => {
            resumed_operations_leave_slots_alone(w, q, r, now, d);
        },
    }
}

proof fn moments_stay_in_slot<H>(
    input: Seq<u8>,
    ms: Seq<Moment<H>>,
    first: RunView,
    c: SequenceContext,
    max_cached: u32,
    i: int,
)
    requires
        0 <= i < ms.len(),
        in_slot(ms[0], first, c, max_cached),
        forall|j: int| 0 <= j < ms.len() - 1 ==> leads_to(input, c.sessionid, #[trigger] ms[j], ms[j + 1]),
        forall|j: int| 0 <= j < ms.len() ==> (#[trigger] ms[j]).st.sessions.contains_key(c.sessionid),
    ensures
        in_slot(ms[i], first, c, max_cached),
    decreases i,
{
    if i > 0 {
        moments_stay_in_slot(input, ms, first, c, max_cached, i - 1);
        let a = ms[i - 1];
        let b = ms[i];
        assert(leads_to(input, c.sessionid, ms[i - 1], ms[i - 1 + 1]));
        if exists|now: u64, d: Draws, r: ReplyView<H>|
            fair(a.st, d) && #[trigger] worked(input, a, now, d, r) == Some(b) {
            let (now, d, r) = choose|now: u64, d: Draws, r: ReplyView<H>|
                fair(a.st, d) && #[trigger] worked(input, a, now, d, r) == Some(b);
            work_stays_in_slot(input, a, b, first, c, max_cached, now, d, r);
        }
    }
}

/// Exactly once. A COMPOUND of 4.1 begins with a SEQUENCE that is new and asks for the
/// reply to be cached. It runs to its end, moment by moment, with whatever the file
/// system answers and whatever others do meanwhile, as long as its session is there
/// and its slot is its own. Its body is no larger than the session caches. Then it is
/// sent again, to a state where the slot is still as it was left, within the lease:
/// the answer is the first body, byte for byte, and it is the whole answer, so that no
/// operation runs a second time.
pub proof fn a_compound_runs_once<H>(
    input: Seq<u8>,
    xid: u32,
    tag: Seq<u8>,
    num_ops: u32,
    at: nat,
    args: <SEQUENCE4args as Model>::M,
    pos: nat,
    st: StateView<H>,
    ctx: RPCContext,
    now: u64,
    d: Draws,
    ms: Seq<Moment<H>>,
    xid_again: u32,
    st_again: StateView<H>,
    ctx_again: RPCContext,
    now_again: u64,
    d_again: Draws,
)
    requires
        1 <= num_ops <= MAX_COMPOUND_OPS,
        op_at(input, RunView::begun(xid, tag, 1, num_ops, at)) == Ok::<(u32, ArgsView, nat), XdrError>(
            (nfs_opnum4::OP_SEQUENCE.number(), ArgsView::Sequence(args), pos),
        ),
        // It is new, and to be cached.
        args.1.1.1.1,
        ctx.client_id is Some,
        st.sequence(args.0, args.1.1.0, args.1.0, now).1 == Ok::<SequenceView, nfsstat4>(SequenceView::New),
        // It runs to its end.
        ms.len() > 0,
        ({
            let (run, p, s, c) = run_op(
                RunView::begun(xid, tag, 1, num_ops, at),
                st,
                ctx,
                nfs_opnum4::OP_SEQUENCE.number(),
                ArgsView::Sequence(args),
                pos,
                now,
                d,
            );
            moment_after(run, p, s, c) == Some(ms[0])
        }),
        forall|i: int| 0 <= i < ms.len() - 1 ==> leads_to(input, args.0, #[trigger] ms[i], ms[i + 1]),
        forall|i: int| 0 <= i < ms.len() ==> (#[trigger] ms[i]).st.sessions.contains_key(args.0),
        ms.last().pending is None,
        ms.last().run.over(),
        ms.last().run.cs.session is Some,
        ms.last().ctx.client_id is Some,
        ms.last().run.body().len() <= ms.last().st.sessions[args.0].max_cached,
        // It is sent again.
        finished(ms.last().run, ms.last().st, ms.last().ctx) matches Some((t, _)) && same_session(
            t,
            st_again,
            args.0,
        ),
        st_again.client_status(st_again.sessions[args.0].clientid, now_again) is Ok,
        ctx_again.client_id is Some,
    ensures
        finished(ms.last().run, ms.last().st, ms.last().ctx) matches Some((_, reply)) && reply == reply_header(
            xid,
            SUCCESS,
        ) + ms.last().run.body(),
        op_at(input, RunView::begun(xid_again, tag, 1, num_ops, at)) == op_at(
            input,
            RunView::begun(xid, tag, 1, num_ops, at),
        ),
        ({
            let (_, p, s, c) = run_op(
                RunView::begun(xid_again, tag, 1, num_ops, at),
                st_again,
                ctx_again,
                nfs_opnum4::OP_SEQUENCE.number(),
                ArgsView::Sequence(args),
                pos,
                now_again,
                d_again,
            );
            &&& p == ProgressView::<H>::Reply(reply_header(xid_again, SUCCESS) + ms.last().run.body())
            &&& s == st_again.renewed(st_again.sessions[args.0].clientid, now_again)
            &&& c == ctx_again
        }),
{
    let first = ms[0].run;
    let c = SequenceContext {
        sessionid: args.0,
        slotid: args.1.1.0,
        sequenceid: args.1.0,
        cache_this: true,
    };
    reveal(start);
    let max_cached = st.sessions[args.0].max_cached;
    assert(in_slot(ms[0], first, c, max_cached));
    moments_stay_in_slot(input, ms, first, c, max_cached, ms.len() - 1);
    let last = ms.last();
    assert(in_slot(last, first, c, max_cached));
    let (t, reply) = finished(last.run, last.st, last.ctx)->0;
    assert(t.sessions[args.0].slots[c.slotid as int].cached == Some(last.run.body()));
}

} // verus!
