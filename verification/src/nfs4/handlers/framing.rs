//! What a COMPOUND is answered, byte by byte, and what is handed to and fro while it runs.

use vstd::prelude::*;

use crate::context::RPCContext;
use crate::model::Model;
use crate::nfs4::compound::{CompoundView, PendingView, Reply, Step, StepView, World};
use crate::nfs4::handlers::session_ops::Draws;
use crate::nfs4::handlers::{
    begins, compound_header, decode_args, finished, op_at, resumed, resumed_keeps_count, run_on, run_op, start,
    start_keeps_count, ArgsView, Begun, ProgressView, RunView,
};
use crate::nfs4::state::ManagedFileHandle;
use crate::nfs4::state_spec::StateView;
use crate::nfs4::nfsstat4;
use crate::vfs::{CallView, OpenMode, ReplyView, VfsCall, VfsReply};
use crate::word::{be32, be32_len};
use crate::xdr::{XdrError, XDR};

verus! {

broadcast use be32_len;

/// The front of every reply: the call's id, that it is a reply, that the call was accepted,
/// an empty verifier, and how the call went.
pub open spec fn accepted_reply(xid: u32, stat: u32) -> Seq<u8> {
    be32(xid) + be32(1) + be32(0) + be32(0) + be32(0) + be32(stat)
}

/// A procedure is answered under the id of its call: the first one with nothing, any that
/// there is not with that there is none.
pub proof fn other_procedures_are_answered_at_once(xid: u32, n: u32, input: Seq<u8>, r: Result<Begun, XdrError>)
    requires
        begins(xid, n, input, r),
        n != 1,
    ensures
        r matches Ok(Begun::Reply(b)) && b@ == accepted_reply(xid, if n == 0 { 0 } else { 3 }),
{
}

/// A COMPOUND begins with its tag, its minor version, and how many operations it has. One of
/// a minor version that is not spoken, and one of more than 16 operations, is answered with
/// why, its tag, and no results. Any other one runs from its first operation on.
pub proof fn a_compound_begins_with_its_header(
    xid: u32,
    tag: Seq<u8>,
    minor: u32,
    num_ops: u32,
    rest: Seq<u8>,
    r: Result<Begun, XdrError>,
)
    requires
        tag.len() <= u32::MAX,
        begins(xid, 1, Vec::<u8>::encode(tag) + be32(minor) + be32(num_ops) + rest, r),
    ensures
        ({
            let front = Vec::<u8>::encode(tag) + be32(minor) + be32(num_ops);
            let refused = |status: u32| accepted_reply(xid, 0) + be32(status) + Vec::<u8>::encode(tag) + be32(0);
            if minor > 1 {
                r matches Ok(Begun::Reply(b)) && b@ == refused(10021)
            } else if num_ops > 16 {
                r matches Ok(Begun::Reply(b)) && b@ == refused(10070)
            } else {
                r matches Ok(Begun::Run(c)) && c@ == (RunView {
                    xid,
                    tag,
                    num_ops,
                    pos: front.len(),
                    opnum: 0,
                    rescount: 0,
                    results: Seq::empty(),
                    last_status: nfsstat4::NFS4_OK,
                    cs: CompoundView {
                        minorversion: minor,
                        current_fh: None,
                        saved_fh: None,
                        session: None,
                        opcount: 0,
                    },
                })
            }
        }),
{
    header_reads(tag, minor, num_ops, rest);
}

/// The header of a COMPOUND reads as what it says.
pub proof fn header_reads(tag: Seq<u8>, minor: u32, num_ops: u32, rest: Seq<u8>)
    requires
        tag.len() <= u32::MAX,
    ensures
        ({
            let front = Vec::<u8>::encode(tag) + be32(minor) + be32(num_ops);
            compound_header(front + rest) == Ok::<((Seq<u8>, (u32, u32)), nat), XdrError>(
                ((tag, (minor, num_ops)), front.len()),
            )
        }),
{
    let front = Vec::<u8>::encode(tag) + be32(minor) + be32(num_ops);
    assert(<(crate::nfs::nfsstring, (u32, u32)) as XDR>::encode((tag, (minor, num_ops))) =~= front);
    <(crate::nfs::nfsstring, (u32, u32)) as XDR>::round_trip((tag, (minor, num_ops)), rest);
}

/// The next operation is read where the last one ended: its number, and its arguments behind
/// it.
pub proof fn an_operation_is_read_where_the_last_ended(run: RunView, before: Seq<u8>, opnum: u32, rest: Seq<u8>)
    requires
        run.pos == before.len(),
    ensures
        op_at(before + (be32(opnum) + rest), run) == (match decode_args(opnum, run.cs.minorversion, rest) {
            Ok((args, n)) => Ok::<(u32, ArgsView, nat), XdrError>((opnum, args, before.len() + 4 + n)),
            Err(e) => Err(e),
        }),
{
    let input = before + (be32(opnum) + rest);
    assert(input.skip(before.len() as int) =~= be32(opnum) + rest);
    u32::round_trip(opnum, rest);
    assert(input.skip((before.len() + 4) as int) =~= rest);
}

/// An operation that is done adds its number, its status and its result to the answer, in
/// that order and behind those before it. One more has run, and its status is the last.
pub proof fn a_result_is_added_to_the_answer<H>(
    run: RunView,
    st: StateView<H>,
    ctx: RPCContext,
    opnum: u32,
    args: ArgsView,
    pos: nat,
    now: u64,
    d: Draws,
)
    requires
        run.rescount < u32::MAX,
        run.cs.opcount < u32::MAX,
    ensures
        ({
            let (w, step) = start(World { cs: run.cs, st, ctx }, args, now, d);
            let (next, progress, s, c) = run_op(run, st, ctx, opnum, args, pos, now, d);
            let number: u32 = if args is Illegal { 10044 } else { opnum };
            &&& s == w.st
            &&& c == w.ctx
            &&& next.pos == pos
            &&& next.xid == run.xid
            &&& next.tag == run.tag
            &&& next.num_ops == run.num_ops
            &&& next.cs.current_fh == w.cs.current_fh
            &&& next.cs.saved_fh == w.cs.saved_fh
            &&& next.cs.session == w.cs.session
            &&& match step {
                StepView::Done(status, body) => {
                    &&& progress is Next
                    &&& next.results == run.results + be32(number) + body
                    &&& next.rescount == run.rescount + 1
                    &&& next.last_status == status
                    &&& next.cs.opcount == w.cs.opcount + 1
                },
                StepView::Replay(body) => {
                    &&& progress == ProgressView::<H>::Reply(accepted_reply(run.xid, 0) + body)
                    &&& next.results == run.results
                },
                StepView::Ask(call, p) => {
                    &&& progress == ProgressView::<H>::Ask(call, p)
                    &&& next.results == run.results
                    &&& next.rescount == run.rescount
                    &&& next.opnum == number
                },
            }
        }),
{
    start_keeps_count(World { cs: run.cs, st, ctx }, args, now, d);
}

/// An operation that was suspended adds its result when it is done, under the number that it
/// began with.
pub proof fn a_resumed_result_is_added_to_the_answer<H>(
    run: RunView,
    st: StateView<H>,
    ctx: RPCContext,
    p: PendingView<H>,
    r: ReplyView<H>,
    now: u64,
    d: Draws,
)
    requires
        run.rescount < u32::MAX,
        run.cs.opcount < u32::MAX,
    ensures
        ({
            let (w, step) = resumed(World { cs: run.cs, st, ctx }, p, r, now, d);
            let (next, progress, s) = run_on(run, st, ctx, p, r, now, d);
            &&& s == w.st
            &&& next.cs.current_fh == w.cs.current_fh
            &&& next.cs.saved_fh == w.cs.saved_fh
            &&& next.pos == run.pos
            &&& match step {
                StepView::Done(status, body) => {
                    &&& progress is Next
                    &&& next.results == run.results + be32(run.opnum) + body
                    &&& next.rescount == run.rescount + 1
                    &&& next.last_status == status
                },
                StepView::Replay(body) => progress is Reply,
                StepView::Ask(call, q) => {
                    &&& progress == ProgressView::<H>::Ask(call, q)
                    &&& next.results == run.results
                    &&& next.opnum == run.opnum
                },
            }
        }),
{
    resumed_keeps_count(World { cs: run.cs, st, ctx }, p, r, now, d);
}

/// A COMPOUND is over when all its operations have run, or when one has failed.
pub proof fn a_compound_ends(run: RunView)
    ensures
        run.over() <==> run.rescount >= run.num_ops || run.last_status.number() != 0,
{
}

/// The answer of a COMPOUND is the last status, its tag, how many results there are, and the
/// results. It is cached as such in the slot that the COMPOUND ran in, if SEQUENCE asked for
/// it, which takes a connection that speaks for a client.
pub proof fn the_answer_is_status_tag_and_results<H>(run: RunView, st: StateView<H>, ctx: RPCContext)
    ensures
        ({
            let body = be32(run.last_status.number()) + Vec::<u8>::encode(run.tag) + be32(run.rescount) + run.results;
            let reply = accepted_reply(run.xid, 0) + body;
            match run.cs.session {
                None => finished(run, st, ctx) == Some((st, reply)),
                Some(c) => if !c.cache_this {
                    finished(run, st, ctx) == Some((st, reply))
                } else if ctx.client_id is None {
                    finished(run, st, ctx) is None
                } else {
                    finished(run, st, ctx) == Some(
                        (st.reply_cached(c.sessionid, c.slotid, c.sequenceid, body), reply),
                    )
                },
            }
        }),
{
}

// ---------------------------------------------------------------- to and from the file system

/// What is asked of the file system is what the call says, field by field.
pub proof fn a_call_says_what_it_stands_for<H>(call: VfsCall<Vec<u8>, ManagedFileHandle<H>>)
    ensures
        (match call {
            VfsCall::Attributes { id } => call.model() == (CallView::<H>::Attributes { id }),
            VfsCall::Getattr { id } => call.model() == (CallView::<H>::Getattr { id }),
            VfsCall::FsInfo { id } => call.model() == (CallView::<H>::FsInfo { id }),
            VfsCall::Lookup { dir, name } => call.model() == (CallView::<H>::Lookup { dir, name: name@ }),
            VfsCall::Create { dir, name } => call.model() == (CallView::<H>::Create { dir, name: name@ }),
            VfsCall::Mkdir { dir, name } => call.model() == (CallView::<H>::Mkdir { dir, name: name@ }),
            VfsCall::Symlink { dir, name, target } => call.model() == (CallView::<H>::Symlink {
                dir,
                name: name@,
                target: target@,
            }),
            VfsCall::Remove { dir, name } => call.model() == (CallView::<H>::Remove { dir, name: name@ }),
            VfsCall::Rename { from, old_name, to, new_name } => call.model() == (CallView::<H>::Rename {
                from,
                old_name: old_name@,
                to,
                new_name: new_name@,
            }),
            VfsCall::Readdir { dir, start_after, max_entries } => call.model() == (CallView::<H>::Readdir {
                dir,
                start_after,
                max_entries,
            }),
            VfsCall::Open { id, mode } => call.model() == (CallView::<H>::Open { id, mode }),
            VfsCall::Read { fh, id, offset, count } => call.model() == (CallView::<H>::Read {
                fh: fh@,
                id,
                offset,
                count,
            }),
            VfsCall::Write { fh, id, offset, data } => call.model() == (CallView::<H>::Write {
                fh: fh@,
                id,
                offset,
                data: data@,
            }),
            VfsCall::Setattr { id, attr } => call.model() == (CallView::<H>::Setattr { id, attr }),
            VfsCall::Readlink { id } => call.model() == (CallView::<H>::Readlink { id }),
        }),
{
}

/// What the file system answers is taken as it is.
pub proof fn a_reply_says_what_it_stands_for<H>(r: Reply<H>)
    ensures
        (match r {
            VfsReply::Failed(e) => r.model() == ReplyView::<H>::Failed(e),
            VfsReply::Attributes(a) => r.model() == ReplyView::<H>::Attributes(a),
            VfsReply::File(id) => r.model() == ReplyView::<H>::File(id),
            VfsReply::Done => r.model() == ReplyView::<H>::Done,
            VfsReply::Listing(l) => r.model() matches ReplyView::<H>::Listing(m) && m.end == l.end && m.entries.len()
                == l.entries@.len() && forall|i: int|
                0 <= i < m.entries.len() ==> (#[trigger] m.entries[i]).fileid == l.entries@[i].fileid
                    && m.entries[i].name == l.entries@[i].name@ && m.entries[i].attr == l.entries@[i].attr,
            VfsReply::Handle(h) => r.model() == ReplyView::<H>::Handle(h),
            VfsReply::Data(b, eof) => r.model() == ReplyView::<H>::Data(b@, eof),
            VfsReply::Target(b) => r.model() == ReplyView::<H>::Target(b@),
        }),
{
}

/// A step says what it stands for.
pub proof fn a_step_says_what_it_stands_for<H>(s: Step<H>)
    ensures
        (match s {
            Step::Done(status, b) => s.model() == StepView::<H>::Done(status, b@),
            Step::Replay(b) => s.model() == StepView::<H>::Replay(b@),
            Step::Ask(c, p) => s.model() == StepView::<H>::Ask(c.model(), p.model()),
        }),
{
}

/// A handle for writing serves readers and writers, one for reading serves readers.
pub proof fn a_mode_serves_what_is_no_stronger(have: OpenMode, want: OpenMode)
    ensures
        have.serves(want) <==> !(have == OpenMode::ReadOnly && want == OpenMode::ReadWrite),
{
}

} // verus!
