//! What holds of a COMPOUND as a whole.

use vstd::prelude::*;

use crate::context::RPCContext;
use crate::model::Model;
use crate::nfs::handle_of;
use crate::nfs3::{fattr3, ftype3, nfsstat3};
use crate::nfs4::args::OpenClaimView;
use crate::nfs4::compound::{
    fails, succeeds, typed_in, CompoundView, OpenRequest, Pending, SequenceContext, StepView, World,
};
use crate::nfs4::handlers::data_ops::{read_handle, read_type, write_handle, write_type};
use crate::nfs4::handlers::dir_ops::{rename_from, rename_to};
use crate::nfs4::handlers::file_ops::{
    entry_bytes, fitting, getfh, putfh, putrootfh, readdir_dir, readdir_info, restorefh, savefh, READDIR_OVERHEAD,
};
use crate::nfs4::handlers::open_ops::{
    open_create, open_dir, open_failed, open_lookup, open_target, start_open, wants_write, OPEN4_SHARE_ACCESS_BOTH,
};
use crate::nfs4::handlers::session_ops::{sequence, Draws};
use crate::nfs4::handlers::{
    decode_args, decode_op, decode_op40, finished, run_op, start, v41_only, ArgsView, ProgressView, RunView,
};
use crate::nfs4::session::SEQUENCE4args;
use crate::nfs4::state_spec::{retains_seqid, wrap_next, Minor, OwnerSeq, OwnerSeqid, SequenceView, StateView};
use crate::nfs4::{changeid4, fileid4, nfs_fh4, nfs_opnum4, nfs_opnum40, nfsstat4, seqid4};
use crate::rpc::{reply_header, SUCCESS};
use crate::vfs::{DirEntry, ListingView, ReplyView, VFSCapabilities, VfsCall, VfsReply};
use crate::word::{be32, be32_len};
use crate::xdr::{XdrError, XDR};

verus! {

broadcast use be32_len;

/// COMPOUND stops at the first error.
pub proof fn compound_stops_at_the_first_error(run: RunView, status: nfsstat4, body: Seq<u8>)
    requires
        status != nfsstat4::NFS4_OK,
    ensures
        run.with_result(status, body).over(),
        run.with_result(status, body).last_status == status,
{
}

/// A number that is no operation's, and that of OP_ILLEGAL itself, is answered as
/// OP_ILLEGAL, reads no arguments, touches nothing and ends the COMPOUND.
pub proof fn an_unknown_number_is_illegal<H>(
    run: RunView,
    st: StateView<H>,
    ctx: RPCContext,
    opnum: u32,
    b: Seq<u8>,
    now: u64,
    d: Draws,
)
    requires
        opnum == nfs_opnum4::OP_ILLEGAL.number() || (nfs_opnum4::of_number(opnum) is None && nfs_opnum40::of_number(
            opnum,
        ) is None),
    ensures
        decode_args(opnum, run.cs.minorversion, b) == Ok::<(ArgsView, nat), XdrError>((ArgsView::Illegal, 0)),
        ({
            let (next, progress, s, c) = run_op(run, st, ctx, opnum, ArgsView::Illegal, run.pos + 4, now, d);
            &&& next.results == run.results + be32(nfs_opnum4::OP_ILLEGAL.number()) + nfsstat4::encode(
                nfsstat4::NFS4ERR_OP_ILLEGAL,
            )
            &&& next.over()
            &&& progress is Next
            &&& s == st
            &&& c == ctx
        }),
{
    reveal(start);
    reveal(decode_op);
    assert(nfsstat4::encode(nfsstat4::NFS4ERR_OP_ILLEGAL) + Seq::<u8>::empty() =~= nfsstat4::encode(
        nfsstat4::NFS4ERR_OP_ILLEGAL,
    ));
}

/// What only the other minor version has is not supported, and its arguments are
/// not read.
pub proof fn versions_keep_their_operations(op: nfs_opnum4, op40: nfs_opnum40, minor: u32, b: Seq<u8>)
    ensures
        minor != 1 && v41_only(op) ==> decode_op(op, minor, b) == Ok::<(ArgsView, nat), XdrError>(
            (ArgsView::NotSupported, 0),
        ),
        minor != 0 ==> decode_op40(op40, minor, b) == Ok::<(ArgsView, nat), XdrError>((ArgsView::NotSupported, 0)),
{
    reveal(decode_op);
}

/// SEQUENCE anywhere but in the first place is refused, and touches nothing.
pub proof fn sequence_comes_first<H>(w: World<H>, args: <SEQUENCE4args as Model>::M, now: u64)
    requires
        w.cs.opcount != 0,
    ensures
        sequence(w, args, now) == (w, fails::<H>(nfsstat4::NFS4ERR_SEQUENCE_POS)),
{
}

/// Operations of 4.1 that need a session.
pub open spec fn needs_session(args: ArgsView) -> bool {
    match args {
        ArgsView::Illegal => false,
        ArgsView::NotSupported => false,
        ArgsView::ExchangeId(_) => false,
        ArgsView::CreateSession(_) => false,
        ArgsView::DestroySession(_) => false,
        ArgsView::DestroyClientid(_) => false,
        ArgsView::Sequence(_) => false,
        ArgsView::OpenDowngrade(_) => false,
        ArgsView::Lock(_) => false,
        ArgsView::SetClientid(_) => false,
        ArgsView::SetClientidConfirm(_) => false,
        ArgsView::Renew(_) => false,
        ArgsView::OpenConfirm(_) => false,
        ArgsView::ReleaseLockowner(_) => false,
        _ => true,
    }
}

/// In 4.1, an operation that needs a session fails without one, and touches
/// nothing.
pub proof fn operations_need_a_session<H>(w: World<H>, args: ArgsView, now: u64, d: Draws)
    requires
        w.cs.minorversion != 0,
        w.cs.session is None,
        needs_session(args),
    ensures
        start(w, args, now, d).0 == w,
        start(w, args, now, d).1 matches StepView::Done(status, _) && status == nfsstat4::NFS4ERR_OP_NOT_IN_SESSION,
{
    reveal(start);
    assert(w.cs.require_session() == Err::<(), nfsstat4>(nfsstat4::NFS4ERR_OP_NOT_IN_SESSION));
}

/// A COMPOUND that begins with the SEQUENCE of a request whose reply is cached is
/// answered by that reply, verbatim.
pub proof fn a_retransmit_gets_the_cached_reply<H>(
    run: RunView,
    st: StateView<H>,
    ctx: RPCContext,
    args: <SEQUENCE4args as Model>::M,
    pos: nat,
    now: u64,
    d: Draws,
    reply: Seq<u8>,
)
    requires
        run.cs.opcount == 0,
        ctx.client_id is Some,
        st.sequence(args.0, args.1.1.0, args.1.0, now).1 == Ok::<SequenceView, nfsstat4>(SequenceView::Replay(reply)),
    ensures
        run_op(run, st, ctx, nfs_opnum4::OP_SEQUENCE.number(), ArgsView::Sequence(args), pos, now, d).1
            == ProgressView::<H>::Reply(reply_header(run.xid, SUCCESS) + reply),
{
    reveal(start);
}

/// The reply of a COMPOUND that was to be cached is what a retransmit finds in the
/// slot, if the slot still stands at the request and the body is not too large
/// for it.
pub proof fn a_cached_reply_is_what_was_answered<H>(run: RunView, st: StateView<H>, ctx: RPCContext, c: SequenceContext)
    requires
        run.cs.session == Some(c),
        c.cache_this,
        ctx.client_id is Some,
        st.sessions.contains_key(c.sessionid),
        c.slotid < st.sessions[c.sessionid].slots.len(),
        st.sessions[c.sessionid].slots[c.slotid as int].last_seqid == c.sequenceid,
        run.body().len() <= st.sessions[c.sessionid].max_cached,
    ensures
        finished(run, st, ctx) matches Some((t, reply)) && {
            let cached = t.sessions[c.sessionid].slots[c.slotid as int].cached;
            cached matches Some(b) && reply == reply_header(run.xid, SUCCESS) + b
        },
{
}

/// GETFH gives what PUTFH or PUTROOTFH put.
pub proof fn getfh_gives_what_was_put<H>(cs: CompoundView, ctx: RPCContext, fh: Seq<u8>)
    ensures
        ({
            let (t, s) = putfh::<H>(cs, ctx, fh);
            s == succeeds::<H>(Seq::empty()) ==> getfh::<H>(t, ctx) == (t, succeeds::<H>(nfs_fh4::encode(fh)))
        }),
        ({
            let (t, s) = putrootfh::<H>(cs, ctx);
            s == succeeds::<H>(Seq::empty()) ==> getfh::<H>(t, ctx) == (
                t,
                succeeds::<H>(nfs_fh4::encode(handle_of(ctx.epoch, ctx.root_dir))),
            )
        }),
{
}

/// RESTOREFH brings back what SAVEFH saved, whatever became the current
/// filehandle in between.
pub proof fn restorefh_brings_back_what_was_saved<H>(cs: CompoundView, ctx: RPCContext, between: Option<Seq<u8>>)
    requires
        cs.require_session() is Ok,
        cs.current_fh is Some,
    ensures
        ({
            let (saved, s) = savefh::<H>(cs, ctx);
            let (t, r) = restorefh::<H>(saved.with_current(between), ctx);
            &&& s == succeeds::<H>(Seq::empty())
            &&& r == succeeds::<H>(Seq::empty())
            &&& t.current_fh == cs.current_fh
        }),
{
}

/// Entries that fit take no more than the budget leaves them.
proof fn fitting_fits(epoch: u32, entries: Seq<DirEntry<Seq<u8>>>, request: Seq<u32>, used: int, budget: int)
    requires
        used <= budget,
    ensures
        used + fitting(epoch, entries, request, used, budget).0.len() <= budget,
    decreases entries.len(),
{
    if entries.len() > 0 {
        let e = entry_bytes(epoch, entries.first(), request);
        if used + e.len() <= budget {
            fitting_fits(epoch, entries.drop_first(), request, used + e.len(), budget);
        }
    }
}

/// READDIR honors `maxcount` as a hard byte budget on its result.
pub proof fn readdir_keeps_to_its_budget<H>(
    ctx: RPCContext,
    maxcount: u32,
    request: Seq<u32>,
    listing: ListingView,
    r: ReplyView<H>,
    result: Seq<u8>,
)
    requires
        r is Done,
        readdir_info(ctx, maxcount, request, listing, r) == StepView::<H>::Done(nfsstat4::NFS4_OK, result),
    ensures
        result.len() <= maxcount,
{
    let bytes = fitting(ctx.epoch, listing.entries, request, READDIR_OVERHEAD as int, maxcount as int).0;
    fitting_fits(ctx.epoch, listing.entries, request, READDIR_OVERHEAD as int, maxcount as int);
    assert(result.len() == 4 + 8 + bytes.len() + 4 + 4);
}

/// An OPEN that reclaims state is refused: there is none that could be reclaimed.
/// In 4.0 the refusal is booked for the open-owner.
pub proof fn reclaims_are_refused<H>(
    cs: CompoundView,
    st: StateView<H>,
    ctx: RPCContext,
    open: OpenRequest<Seq<u8>>,
    share_access: u32,
    kind: u32,
    now: u64,
)
    requires
        cs.require_session() is Ok,
        share_access & OPEN4_SHARE_ACCESS_BOTH != 0,
        !(ctx.capabilities == VFSCapabilities::ReadOnly && (wants_write(share_access) || open.creating)),
    ensures
        start_open(cs, st, ctx, open, share_access, OpenClaimView::CLAIM_PREVIOUS(kind), now) == open_failed(
            st,
            open,
            nfsstat4::NFS4ERR_NO_GRACE,
            now,
        ),
{
}

/// A 4.0 OPEN that fails before the open state is asked consumes its open-owner's
/// seqid, unless the status says otherwise: the same seqid replays the failure, and
/// the next one is fresh.
pub proof fn a_failed_open_consumes_the_seqid<H>(
    st: StateView<H>,
    open: OpenRequest<Seq<u8>>,
    seqid: seqid4,
    status: nfsstat4,
    now: u64,
)
    requires
        open.seqid == OwnerSeqid::V40(seqid),
        st.client_status(open.clientid, now) is Ok,
        st.clients[open.clientid].kind.minor() == Minor::V40,
        st.owner_check(open.clientid, open.owner, open.seqid) == Ok::<OwnerSeq, nfsstat4>(OwnerSeq::Fresh),
        !retains_seqid(status),
    ensures
        open_failed(st, open, status, now).1 == fails::<H>(status),
        ({
            let t = open_failed(st, open, status, now).0;
            &&& t.owner_check(open.clientid, open.owner, open.seqid) == Ok::<OwnerSeq, nfsstat4>(
                OwnerSeq::Replay(Err(status)),
            )
            &&& t.owner_check(open.clientid, open.owner, OwnerSeqid::V40(wrap_next(seqid))) == Ok::<OwnerSeq, nfsstat4>(
                OwnerSeq::Fresh,
            )
            &&& open_failed(t, open, status, now) == (t, fails::<H>(status))
        }),
{
}

/// A step of an OPEN goes on and changes nothing, or is a failure that is booked.
pub open spec fn booked<H>(
    st: StateView<H>,
    open: OpenRequest<Seq<u8>>,
    now: u64,
    x: (StateView<H>, StepView<H>),
) -> bool {
    ||| x.0 == st && x.1 is Ask
    ||| exists|status: nfsstat4| x == #[trigger] open_failed(st, open, status, now)
}

/// Every failure of an OPEN before the open state is asked is booked, whatever the
/// step that finds it.
pub proof fn open_failures_are_booked<H>(
    cs: CompoundView,
    st: StateView<H>,
    ctx: RPCContext,
    open: OpenRequest<Seq<u8>>,
    share_access: u32,
    claim: OpenClaimView,
    dir: fileid4,
    file: fileid4,
    name: Seq<u8>,
    before: changeid4,
    after: changeid4,
    now: u64,
    r: ReplyView<H>,
)
    ensures
        booked(st, open, now, start_open(cs, st, ctx, open, share_access, claim, now)),
        booked(st, open, now, open_dir(st, open, dir, name, now, r)),
        booked(st, open, now, open_lookup(st, open, dir, name, before, now, r)),
        booked(st, open, now, open_create(st, open, dir, before, now, r)),
        typed_in(r, ftype3::NF3REG, nfsstat4::NFS4ERR_SYMLINK) matches Err(e) ==> {
            let (c, t, s) = open_target(cs, st, ctx, open, file, before, after, now, r);
            c == cs && (t, s) == open_failed(st, open, e, now)
        },
{
}

// ---------------------------------------------------------------- single steps

/// Where the LOOKUP of an OPEN finds the file, the OPEN goes on with that file, whether or
/// not it may create: the state is left alone, and the directory has not changed.
pub proof fn an_open_takes_the_file_it_finds<H>(
    st: StateView<H>,
    open: OpenRequest<Seq<u8>>,
    dir: fileid4,
    name: Seq<u8>,
    before: changeid4,
    now: u64,
    file: fileid4,
)
    ensures
        open_lookup(st, open, dir, name, before, now, VfsReply::File(file)) == (
            st,
            StepView::<H>::Ask(
                VfsCall::Attributes { id: file },
                Pending::OpenTarget { open, file, before, after: before },
            ),
        ),
        open_lookup(st, OpenRequest { creating: true, ..open }, dir, name, before, now, VfsReply::File(file)).1
            is Ask,
        open_lookup(st, OpenRequest { creating: false, ..open }, dir, name, before, now, VfsReply::File(file)).1
            is Ask,
{
}

/// Where it finds none, an OPEN that may create makes the file, and one that may not fails.
pub proof fn an_open_makes_the_file_it_does_not_find<H>(
    st: StateView<H>,
    open: OpenRequest<Seq<u8>>,
    dir: fileid4,
    name: Seq<u8>,
    before: changeid4,
    now: u64,
)
    ensures
        ({
            let x = open_lookup(st, open, dir, name, before, now, VfsReply::Failed(nfsstat3::NFS3ERR_NOENT));
            &&& open.creating ==> x.0 == st && (x.1 matches StepView::Ask(c, _) && c == VfsCall::<Seq<u8>, H>::Create {
                dir,
                name,
            })
            &&& !open.creating ==> x.1 is Done
        }),
{
}

/// READDIR goes on after the entry that the cookie names, whatever the cookie: two READDIRs
/// that differ in their cookies ask for different parts of the directory.
pub proof fn a_cookie_says_where_to_go_on<H>(
    dir: fileid4,
    cookie: u64,
    other: u64,
    maxcount: u32,
    request: Seq<u32>,
    a: fattr3,
)
    requires
        a.ftype == ftype3::NF3DIR,
        maxcount != 0,
    ensures
        readdir_dir::<H>(dir, cookie, maxcount, request, VfsReply::Attributes(a)) matches StepView::Ask(
            VfsCall::Readdir { dir: d, start_after, max_entries },
            _,
        ) && d == dir && start_after == cookie && max_entries == 256,
        cookie != other ==> readdir_dir::<H>(dir, cookie, maxcount, request, VfsReply::Attributes(a)) != readdir_dir::<
            H,
        >(dir, other, maxcount, request, VfsReply::Attributes(a)),
{
}

/// RENAME moves from where it was asked to move from, to where it was asked to move to.
pub proof fn a_rename_has_a_direction<H>(
    from: fileid4,
    old_name: Seq<u8>,
    to: fileid4,
    new_name: Seq<u8>,
    src_before: changeid4,
    a: fattr3,
)
    requires
        a.ftype == ftype3::NF3DIR,
    ensures
        rename_to::<H>(from, old_name, to, new_name, src_before, VfsReply::Attributes(a)) matches StepView::Ask(c, _)
            && c == (VfsCall::<Seq<u8>, H>::Rename { from, old_name, to, new_name }),
        rename_from::<H>(from, old_name, to, new_name, VfsReply::Attributes(a)) matches StepView::Ask(
            c,
            Pending::RenameTo { from: f, old_name: o, to: t, new_name: n, .. },
        ) && c == (VfsCall::<Seq<u8>, H>::Attributes { id: to }) && (f, o, t, n) == (from, old_name, to, new_name),
{
}

/// READ reads through the handle that it has, from where it was asked and as much.
pub proof fn a_read_reads_where_it_was_asked<H>(h: H, file: fileid4, offset: u64, count: u32, a: fattr3)
    requires
        a.ftype == ftype3::NF3REG,
    ensures
        read_type(Some(h), file, offset, count, VfsReply::Attributes(a)) matches StepView::Ask(c, _) && c
            == (VfsCall::<Seq<u8>, H>::Read { fh: h, id: file, offset, count }),
        read_handle(file, offset, count, VfsReply::Handle(h)) matches StepView::Ask(c, _) && c == (VfsCall::<
            Seq<u8>,
            H,
        >::Read { fh: h, id: file, offset, count }),
{
}

/// WRITE writes through the handle that it has, to where it was asked and all of it.
pub proof fn a_write_writes_where_it_was_asked<H>(h: H, file: fileid4, offset: u64, data: Seq<u8>, a: fattr3)
    requires
        a.ftype == ftype3::NF3REG,
    ensures
        write_type(Some(h), file, offset, data, VfsReply::Attributes(a)) matches StepView::Ask(c, _) && c
            == (VfsCall::<Seq<u8>, H>::Write { fh: h, id: file, offset, data }),
        write_handle(file, offset, data, VfsReply::Handle(h)) matches StepView::Ask(c, _) && c == (VfsCall::<
            Seq<u8>,
            H,
        >::Write { fh: h, id: file, offset, data }),
{
}

} // verus!
