//! OPEN, from the name of a file to its state.

use vstd::prelude::*;

use crate::context::RPCContext;
use crate::model::Model;
use crate::nfs::{handle_of, id_to_fh};
use crate::nfs3::ftype3;
use crate::nfs4::args::{
    change_info4, open_claim4, openflag4, OPEN4args, OPEN4resok, OpenClaimView, OPEN4_RESULT_CONFIRM,
    OPEN4_SHARE_ACCESS_WRITE, OPEN_DELEGATE_NONE,
};
use crate::nfs4::compound::{
    answered, change_after, change_in, change_of, dir_in, failed, fails, file_found, file_in, handle_in, require_dir,
    require_openable, succeeds, take_file, take_handle, typed_in, CompoundState, CompoundView, OpenRequest, Pending,
    Reply, Step, StepView,
};
use crate::nfs4::handlers::file_ops::copied;
use crate::nfs4::handlers::session_ops::{fair, Draws};
use crate::nfs4::state::NFS4State;
use crate::nfs4::state_spec::{OpenPlan, Opened, OwnerSeqid, StateView};
use crate::nfs4::{changeid4, fileid4, nfsstat4};
use crate::vfs::{OpenMode, ReplyView, VFSCapabilities, VfsCall};
use crate::xdr::XDR;

verus! {

/// The part of `share_access` that asks for reading and writing; the rest are
/// wishes for delegations.
pub const OPEN4_SHARE_ACCESS_BOTH: u32 = 0x00000003;

/// Does an OPEN ask for write access?
pub open spec fn wants_write(share_access: u32) -> bool {
    (share_access & OPEN4_SHARE_ACCESS_BOTH) & OPEN4_SHARE_ACCESS_WRITE != 0
}

/// The mode that a file is opened in.
pub open spec fn open_mode(share_access: u32, creating: bool) -> OpenMode {
    if wants_write(share_access) || creating {
        OpenMode::ReadWrite
    } else {
        OpenMode::ReadOnly
    }
}

/// An OPEN that fails before the open state is asked. It names an open-owner, so in
/// 4.0 the failure is that owner's reply: it consumes the seqid, and a retransmit
/// gets it again.
pub open spec fn open_failed<H>(st: StateView<H>, open: OpenRequest<Seq<u8>>, status: nfsstat4, now: u64) -> (
    StateView<H>,
    StepView<H>,
) {
    match open.seqid {
        OwnerSeqid::V40(_) => {
            let (t, s) = st.owner_rejection(open.clientid, open.owner, open.seqid, status, now);
            (t, fails(s))
        },
        OwnerSeqid::V41 => (st, fails(status)),
    }
}

fn fail_open<H>(st: &mut NFS4State<H>, open: &OpenRequest<Vec<u8>>, status: nfsstat4, now: u64) -> (s: Step<H>)
    requires
        old(st).wf(),
    ensures
        final(st).wf(),
        (final(st)@, s.model()) == open_failed(old(st)@, open.model(), status, now),
{
    match open.seqid {
        OwnerSeqid::V40(_) => failed(st.note_owner_rejection(open.clientid, &open.owner, open.seqid, status, now)),
        OwnerSeqid::V41 => failed(status),
    }
}

/// OPEN begins with the directory, or with the file that the current filehandle
/// names.
pub open spec fn start_open<H>(
    cs: CompoundView,
    st: StateView<H>,
    ctx: RPCContext,
    open: OpenRequest<Seq<u8>>,
    share_access: u32,
    claim: OpenClaimView,
    now: u64,
) -> (StateView<H>, StepView<H>) {
    match cs.require_session() {
        Err(e) => open_failed(st, open, e, now),
        Ok(_) => if share_access & OPEN4_SHARE_ACCESS_BOTH == 0 {
            open_failed(st, open, nfsstat4::NFS4ERR_INVAL, now)
        } else if ctx.capabilities == VFSCapabilities::ReadOnly && (wants_write(share_access) || open.creating) {
            open_failed(st, open, nfsstat4::NFS4ERR_ROFS, now)
        } else {
            match claim {
                OpenClaimView::CLAIM_NULL(name) => match file_in(cs.current_fh, ctx.epoch) {
                    Err(e) => open_failed(st, open, e, now),
                    Ok(dir) => (
                        st,
                        StepView::Ask(VfsCall::Attributes { id: dir }, Pending::OpenDir { open, dir, name }),
                    ),
                },
                OpenClaimView::CLAIM_FH => if open.creating {
                    open_failed(st, open, nfsstat4::NFS4ERR_INVAL, now)
                } else {
                    match file_in(cs.current_fh, ctx.epoch) {
                        Err(e) => open_failed(st, open, e, now),
                        Ok(file) => (
                            st,
                            StepView::Ask(
                                VfsCall::Attributes { id: file },
                                Pending::OpenTarget { open, file, before: 0, after: 0 },
                            ),
                        ),
                    }
                },
                // There is no state that could be reclaimed after a restart.
                OpenClaimView::CLAIM_PREVIOUS(_) => open_failed(st, open, nfsstat4::NFS4ERR_NO_GRACE, now),
                _ => open_failed(st, open, nfsstat4::NFS4ERR_NOTSUPP, now),
            }
        },
    }
}

/// What an OPEN asks for, by its arguments.
pub open spec fn request_of(cs: CompoundView, args: <OPEN4args as Model>::M) -> OpenRequest<Seq<u8>> {
    let (seqid, (access, (_, ((clientid, owner), (how, _))))) = args;
    let creating = how is OPEN4_CREATE;
    OpenRequest { clientid, owner, seqid: cs.owner_seqid(seqid), mode: open_mode(access, creating), creating }
}

/// OP_OPEN. CLAIM_NULL and CLAIM_FH only, always-grant shares, never delegates.
/// Every way to create a file is taken as UNCHECKED4.
pub fn op_open<H>(
    args: OPEN4args,
    cs: &CompoundState,
    st: &mut NFS4State<H>,
    ctx: &RPCContext,
    now: u64,
) -> (s: Step<H>)
    requires
        old(st).wf(),
    ensures
        final(st).wf(),
        (final(st)@, s.model()) == start_open::<H>(
            cs@,
            old(st)@,
            *ctx,
            request_of(cs@, args.model()),
            args.share_access,
            args.claim.model(),
            now,
        ),
{
    let acc: u32 = args.share_access & OPEN4_SHARE_ACCESS_BOTH;
    let write: bool = acc & OPEN4_SHARE_ACCESS_WRITE != 0;
    let creating: bool = match &args.openhow {
        openflag4::OPEN4_CREATE(_) => true,
        openflag4::OPEN4_NOCREATE => false,
    };
    let open = OpenRequest {
        clientid: args.owner.clientid,
        owner: args.owner.owner,
        seqid: cs.owner_seqid(args.seqid),
        mode: if write || creating {
            OpenMode::ReadWrite
        } else {
            OpenMode::ReadOnly
        },
        creating,
    };
    if let Err(e) = cs.require_session() {
        return fail_open(st, &open, e, now);
    }
    if acc == 0 {
        return fail_open(st, &open, nfsstat4::NFS4ERR_INVAL, now);
    }
    if write || creating {
        if let VFSCapabilities::ReadOnly = ctx.capabilities {
            return fail_open(st, &open, nfsstat4::NFS4ERR_ROFS, now);
        }
    }
    match args.claim {
        open_claim4::CLAIM_NULL(name) => match cs.current_file(ctx.epoch) {
            Err(e) => fail_open(st, &open, e, now),
            Ok(dir) => Step::Ask(VfsCall::Attributes { id: dir }, Pending::OpenDir { open, dir, name: name.0 }),
        },
        open_claim4::CLAIM_FH => {
            if creating {
                return fail_open(st, &open, nfsstat4::NFS4ERR_INVAL, now);
            }
            match cs.current_file(ctx.epoch) {
                Err(e) => fail_open(st, &open, e, now),
                Ok(file) => Step::Ask(
                    VfsCall::Attributes { id: file },
                    Pending::OpenTarget { open, file, before: 0, after: 0 },
                ),
            }
        },
        open_claim4::CLAIM_PREVIOUS(_) => fail_open(st, &open, nfsstat4::NFS4ERR_NO_GRACE, now),
        _ => fail_open(st, &open, nfsstat4::NFS4ERR_NOTSUPP, now),
    }
}

/// OPEN goes on with the name.
pub open spec fn open_dir<H>(
    st: StateView<H>,
    open: OpenRequest<Seq<u8>>,
    dir: fileid4,
    name: Seq<u8>,
    now: u64,
    r: ReplyView<H>,
) -> (StateView<H>, StepView<H>) {
    match dir_in(r) {
        Err(e) => open_failed(st, open, e, now),
        Ok(a) => if name.len() == 0 {
            open_failed(st, open, nfsstat4::NFS4ERR_INVAL, now)
        } else {
            (
                st,
                StepView::Ask(
                    VfsCall::Lookup { dir, name },
                    Pending::OpenLookup { open, dir, name, before: change_of(a) },
                ),
            )
        },
    }
}

pub fn then_open_dir<H>(
    st: &mut NFS4State<H>,
    open: OpenRequest<Vec<u8>>,
    dir: fileid4,
    name: Vec<u8>,
    now: u64,
    r: Reply<H>,
) -> (s: Step<H>)
    requires
        old(st).wf(),
    ensures
        final(st).wf(),
        (final(st)@, s.model()) == open_dir::<H>(old(st)@, open.model(), dir, name@, now, r.model()),
{
    match require_dir(r) {
        Err(e) => fail_open(st, &open, e, now),
        Ok(a) => {
            if name.len() == 0 {
                return fail_open(st, &open, nfsstat4::NFS4ERR_INVAL, now);
            }
            let wanted = copied(&name);
            Step::Ask(
                VfsCall::Lookup { dir, name: wanted },
                Pending::OpenLookup { open, dir, name, before: a.ctime.seconds as changeid4 },
            )
        },
    }
}

/// OPEN goes on with the file, or with making it where it is not there and may
/// be made.
pub open spec fn open_lookup<H>(
    st: StateView<H>,
    open: OpenRequest<Seq<u8>>,
    dir: fileid4,
    name: Seq<u8>,
    before: changeid4,
    now: u64,
    r: ReplyView<H>,
) -> (StateView<H>, StepView<H>) {
    match file_found(r) {
        Ok(file) => (
            st,
            StepView::Ask(
                VfsCall::Attributes { id: file },
                Pending::OpenTarget { open, file, before, after: before },
            ),
        ),
        Err(e) => if e == nfsstat4::NFS4ERR_NOENT && open.creating {
            (st, StepView::Ask(VfsCall::Create { dir, name }, Pending::OpenCreate { open, dir, before }))
        } else {
            open_failed(st, open, e, now)
        },
    }
}

pub fn then_open_lookup<H>(
    st: &mut NFS4State<H>,
    open: OpenRequest<Vec<u8>>,
    dir: fileid4,
    name: Vec<u8>,
    before: changeid4,
    now: u64,
    r: Reply<H>,
) -> (s: Step<H>)
    requires
        old(st).wf(),
    ensures
        final(st).wf(),
        (final(st)@, s.model()) == open_lookup::<H>(old(st)@, open.model(), dir, name@, before, now, r.model()),
{
    match take_file(r) {
        Ok(file) => Step::Ask(
            VfsCall::Attributes { id: file },
            Pending::OpenTarget { open, file, before, after: before },
        ),
        Err(e) => if e == nfsstat4::NFS4ERR_NOENT && open.creating {
            Step::Ask(VfsCall::Create { dir, name }, Pending::OpenCreate { open, dir, before })
        } else {
            fail_open(st, &open, e, now)
        },
    }
}

/// OPEN goes on with the directory after the file was made.
pub open spec fn open_create<H>(
    st: StateView<H>,
    open: OpenRequest<Seq<u8>>,
    dir: fileid4,
    before: changeid4,
    now: u64,
    r: ReplyView<H>,
) -> (StateView<H>, StepView<H>) {
    match file_found(r) {
        Err(e) => open_failed(st, open, e, now),
        Ok(file) => (
            st,
            StepView::Ask(VfsCall::Getattr { id: dir }, Pending::OpenAfter { open, file, before }),
        ),
    }
}

pub fn then_open_create<H>(
    st: &mut NFS4State<H>,
    open: OpenRequest<Vec<u8>>,
    dir: fileid4,
    before: changeid4,
    now: u64,
    r: Reply<H>,
) -> (s: Step<H>)
    requires
        old(st).wf(),
    ensures
        final(st).wf(),
        (final(st)@, s.model()) == open_create::<H>(old(st)@, open.model(), dir, before, now, r.model()),
{
    match take_file(r) {
        Err(e) => fail_open(st, &open, e, now),
        Ok(file) => Step::Ask(VfsCall::Getattr { id: dir }, Pending::OpenAfter { open, file, before }),
    }
}

/// OPEN goes on with the file that was made.
pub open spec fn open_after<H>(
    open: OpenRequest<Seq<u8>>,
    file: fileid4,
    before: changeid4,
    r: ReplyView<H>,
) -> StepView<H> {
    StepView::Ask(
        VfsCall::Attributes { id: file },
        Pending::OpenTarget { open, file, before, after: change_in(r, before) },
    )
}

pub fn then_open_after<H>(open: OpenRequest<Vec<u8>>, file: fileid4, before: changeid4, r: Reply<H>) -> (s: Step<H>)
    ensures
        s.model() == open_after::<H>(open.model(), file, before, r.model()),
{
    let after: changeid4 = change_after(r, before);
    Step::Ask(VfsCall::Attributes { id: file }, Pending::OpenTarget { open, file, before, after })
}

/// The end of an OPEN: the file is the current filehandle. A fresh 4.0 open-owner
/// is told that it must be confirmed.
pub open spec fn open_end<H>(
    cs: CompoundView,
    ctx: RPCContext,
    file: fileid4,
    before: changeid4,
    after: changeid4,
    opened: Opened,
) -> (CompoundView, StepView<H>) {
    let rflags = if cs.minorversion == 0 && opened.confirm_required {
        OPEN4_RESULT_CONFIRM
    } else {
        0
    };
    (
        cs.with_current(Some(handle_of(ctx.epoch, file))),
        succeeds(
            OPEN4resok::encode(
                (
                    opened.stateid.model(),
                    ((false, (before, after)), (rflags, (Seq::empty(), OPEN_DELEGATE_NONE))),
                ),
            ),
        ),
    )
}

fn end_open<H>(
    cs: &mut CompoundState,
    ctx: &RPCContext,
    file: fileid4,
    before: changeid4,
    after: changeid4,
    opened: Opened,
) -> (s: Step<H>)
    ensures
        (final(cs)@, s.model()) == open_end::<H>(old(cs)@, *ctx, file, before, after, opened),
{
    let rflags: u32 = if cs.minorversion == 0 && opened.confirm_required {
        OPEN4_RESULT_CONFIRM
    } else {
        0
    };
    cs.current_fh = Some(id_to_fh(ctx.epoch, file));
    answered(
        &OPEN4resok {
            stateid: opened.stateid,
            cinfo: change_info4 { atomic: false, before, after },
            rflags,
            attrset: Vec::new(),
            delegation: OPEN_DELEGATE_NONE,
        },
    )
}

/// OPEN goes on with the state of what must be a regular file: it is done, or it
/// needs a handle.
pub open spec fn open_target<H>(
    cs: CompoundView,
    st: StateView<H>,
    ctx: RPCContext,
    open: OpenRequest<Seq<u8>>,
    file: fileid4,
    before: changeid4,
    after: changeid4,
    now: u64,
    r: ReplyView<H>,
) -> (CompoundView, StateView<H>, StepView<H>) {
    match typed_in(r, ftype3::NF3REG, nfsstat4::NFS4ERR_SYMLINK) {
        Err(e) => {
            let (t, step) = open_failed(st, open, e, now);
            (cs, t, step)
        },
        Ok(_) => {
            let (t, plan) = st.open_plan(open.clientid, open.owner, open.seqid, file, open.mode, now);
            match plan {
                Err(e) => (cs, t, fails(e)),
                Ok(OpenPlan::Done(opened)) => {
                    let (c, step) = open_end(cs, ctx, file, before, after, opened);
                    (c, t, step)
                },
                Ok(OpenPlan::NeedHandle(mode)) => (
                    cs,
                    t,
                    StepView::Ask(
                        VfsCall::Open { id: file, mode },
                        Pending::OpenHandle { open, file, before, after },
                    ),
                ),
            }
        },
    }
}

pub fn then_open_target<H>(
    cs: &mut CompoundState,
    st: &mut NFS4State<H>,
    ctx: &RPCContext,
    open: OpenRequest<Vec<u8>>,
    file: fileid4,
    before: changeid4,
    after: changeid4,
    now: u64,
    r: Reply<H>,
) -> (s: Step<H>)
    requires
        old(st).wf(),
    ensures
        final(st).wf(),
        (final(cs)@, final(st)@, s.model()) == open_target::<H>(
            old(cs)@,
            old(st)@,
            *ctx,
            open.model(),
            file,
            before,
            after,
            now,
            r.model(),
        ),
{
    if let Err(e) = require_openable(r) {
        return fail_open(st, &open, e, now);
    }
    match st.open_plan(open.clientid, &open.owner, open.seqid, file, open.mode, now) {
        Err(e) => failed(e),
        Ok(OpenPlan::Done(opened)) => end_open(cs, ctx, file, before, after, opened),
        Ok(OpenPlan::NeedHandle(mode)) => Step::Ask(
            VfsCall::Open { id: file, mode },
            Pending::OpenHandle { open, file, before, after },
        ),
    }
}

/// OPEN ends with the handle, or with the failure to get one, which consumes the
/// open-owner's seqid all the same.
pub open spec fn open_handle<H>(
    cs: CompoundView,
    st: StateView<H>,
    ctx: RPCContext,
    open: OpenRequest<Seq<u8>>,
    file: fileid4,
    before: changeid4,
    after: changeid4,
    now: u64,
    d: Draws,
    r: ReplyView<H>,
) -> (CompoundView, StateView<H>, StepView<H>) {
    let (t, result) = st.open_finish(
        open.clientid,
        open.owner,
        open.seqid,
        file,
        open.mode,
        handle_in(r),
        now,
        d.other,
    );
    match result {
        Err(e) => (cs, t, fails(e)),
        Ok(opened) => {
            let (c, step) = open_end(cs, ctx, file, before, after, opened);
            (c, t, step)
        },
    }
}

pub fn then_open_handle<H>(
    cs: &mut CompoundState,
    st: &mut NFS4State<H>,
    ctx: &RPCContext,
    open: OpenRequest<Vec<u8>>,
    file: fileid4,
    before: changeid4,
    after: changeid4,
    now: u64,
    d: Draws,
    r: Reply<H>,
) -> (s: Step<H>)
    requires
        old(st).wf(),
        fair(old(st)@, d),
    ensures
        final(st).wf(),
        (final(cs)@, final(st)@, s.model()) == open_handle::<H>(
            old(cs)@,
            old(st)@,
            *ctx,
            open.model(),
            file,
            before,
            after,
            now,
            d,
            r.model(),
        ),
{
    let handle = take_handle(r);
    match st.open_finish_as(open.clientid, &open.owner, open.seqid, file, open.mode, handle, now, d.other) {
        Err(e) => failed(e),
        Ok(opened) => end_open(cs, ctx, file, before, after, opened),
    }
}

} // verus!
