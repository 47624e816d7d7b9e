//! READ and WRITE, and what a stateid must be good for.

use vstd::prelude::*;

use crate::context::RPCContext;
use crate::model::Model;
use crate::nfs::{verifier_of, write_verifier};
use crate::nfs3::{fattr3, ftype3};
use crate::nfs4::args::{stable_how4, READ4args, READ4resok, WRITE4args, WRITE4resok};
use crate::nfs4::compound::{
    answered, failed, fails, file_in, handle_in, handle_seen, require_reg, require_writable, succeeds, take_done,
    take_handle, typed_in, was_done, CompoundState, CompoundView, Pending, Reply, Step, StepView,
};
use crate::nfs4::handlers::file_ops::current_in_session;
use crate::nfs4::state::{ManagedFileHandle, NFS4State, Resolved};
use crate::nfs4::state_spec::{state_ref, Res, ResolvedView, StateView};
use crate::nfs4::{fileid4, nfsstat4, stateid4, status_of};
use crate::vfs::{OpenMode, ReplyView, VFSCapabilities, VfsCall, VfsReply};
use crate::word::{be32, be32_len};
use crate::xdr::XDR;

verus! {

broadcast use be32_len;

/// What a stateid is good for on the current file: special stateids are always
/// allowed, and name no handle; open stateids must match the file and carry the
/// needed access.
pub open spec fn stateid_access<H>(
    st: StateView<H>,
    ctx: RPCContext,
    sid: stateid4,
    file: fileid4,
    need: OpenMode,
) -> Res<Option<H>> {
    if ctx.client_id is None {
        Err(nfsstat4::NFS4ERR_BAD_STATEID)
    } else {
        match st.resolve(sid) {
            Err(e) => Err(e),
            Ok(ResolvedView::Anonymous) => Ok(None),
            Ok(ResolvedView::Bypass) => Ok(None),
            Ok(ResolvedView::Open { fileid, fh, mode }) => if fileid != file {
                Err(nfsstat4::NFS4ERR_BAD_STATEID)
            } else if !mode.serves(need) {
                Err(nfsstat4::NFS4ERR_OPENMODE)
            } else {
                Ok(Some(fh))
            },
        }
    }
}

/// Validate a stateid against the current file.
pub fn check_stateid<H>(st: &NFS4State<H>, ctx: &RPCContext, sid: &stateid4, file: fileid4, need: OpenMode) -> (r: Res<
    Option<ManagedFileHandle<H>>,
>)
    requires
        st.wf(),
    ensures
        match r {
            Ok(fh) => stateid_access(st@, *ctx, *sid, file, need) == Ok::<Option<H>, nfsstat4>(handle_seen(fh)),
            Err(e) => stateid_access(st@, *ctx, *sid, file, need) == Err::<Option<H>, nfsstat4>(e),
        },
{
    if ctx.client_id().is_none() {
        return Err(nfsstat4::NFS4ERR_BAD_STATEID);
    }
    match st.resolve(sid) {
        Err(e) => Err(e),
        Ok(Resolved::Anonymous) => Ok(None),
        Ok(Resolved::Bypass) => Ok(None),
        Ok(Resolved::Open { fileid, fh, mode }) => {
            if fileid != file {
                return Err(nfsstat4::NFS4ERR_BAD_STATEID);
            }
            if !mode.covers(need) {
                return Err(nfsstat4::NFS4ERR_OPENMODE);
            }
            Ok(Some(fh))
        },
    }
}

// ---------------------------------------------------------------- READ

/// READ begins with the type of the file.
pub open spec fn start_read<H>(
    cs: CompoundView,
    st: StateView<H>,
    ctx: RPCContext,
    sid: stateid4,
    offset: u64,
    count: u32,
) -> StepView<H> {
    match cs.require_session() {
        Err(e) => fails(e),
        Ok(_) => match file_in(cs.current_fh, ctx.epoch) {
            Err(e) => fails(e),
            Ok(file) => match stateid_access(st, ctx, sid, file, OpenMode::ReadOnly) {
                Err(e) => fails(e),
                Ok(fh) => StepView::Ask(
                    VfsCall::Attributes { id: file },
                    Pending::ReadType { fh, file, offset, count },
                ),
            },
        },
    }
}

/// Run READ.
pub fn op_read<H>(args: READ4args, cs: &CompoundState, st: &NFS4State<H>, ctx: &RPCContext) -> (s: Step<H>)
    requires
        st.wf(),
    ensures
        s.model() == start_read(cs@, st@, *ctx, args.stateid, args.offset, args.count),
{
    let file: fileid4 = match current_in_session(cs, ctx) {
        Err(e) => return failed(e),
        Ok(id) => id,
    };
    match check_stateid(st, ctx, &args.stateid, file, OpenMode::ReadOnly) {
        Err(e) => failed(e),
        Ok(fh) => Step::Ask(
            VfsCall::Attributes { id: file },
            Pending::ReadType { fh, file, offset: args.offset, count: args.count },
        ),
    }
}

/// READ goes on with the data of what must be a regular file. Where the stateid is
/// special, the file is first opened for this one READ.
pub open spec fn read_type<H>(fh: Option<H>, file: fileid4, offset: u64, count: u32, r: ReplyView<H>) -> StepView<H> {
    match typed_in(r, ftype3::NF3REG, nfsstat4::NFS4ERR_INVAL) {
        Err(e) => fails(e),
        Ok(_) => match fh {
            Some(fh) => StepView::Ask(VfsCall::Read { fh, id: file, offset, count }, Pending::ReadData),
            None => StepView::Ask(
                VfsCall::Open { id: file, mode: OpenMode::ReadOnly },
                Pending::ReadHandle { file, offset, count },
            ),
        },
    }
}

pub fn then_read_type<H>(
    fh: Option<ManagedFileHandle<H>>,
    file: fileid4,
    offset: u64,
    count: u32,
    r: Reply<H>,
) -> (s: Step<H>)
    ensures
        s.model() == read_type::<H>(handle_seen(fh), file, offset, count, r.model()),
{
    match require_reg(r) {
        Err(e) => failed(e),
        Ok(_) => match fh {
            Some(fh) => Step::Ask(VfsCall::Read { fh, id: file, offset, count }, Pending::ReadData),
            None => Step::Ask(
                VfsCall::Open { id: file, mode: OpenMode::ReadOnly },
                Pending::ReadHandle { file, offset, count },
            ),
        },
    }
}

/// READ goes on with the data, through a handle of its own. Nothing keeps the
/// handle beyond the call.
pub open spec fn read_handle<H>(file: fileid4, offset: u64, count: u32, r: ReplyView<H>) -> StepView<H> {
    match handle_in(r) {
        Err(e) => fails(e),
        Ok(fh) => StepView::Ask(VfsCall::Read { fh, id: file, offset, count }, Pending::ReadData),
    }
}

pub fn then_read_handle<H>(file: fileid4, offset: u64, count: u32, r: Reply<H>) -> (s: Step<H>)
    ensures
        s.model() == read_handle::<H>(file, offset, count, r.model()),
{
    match take_handle(r) {
        Err(e) => failed(e),
        Ok(h) => {
            let fh = ManagedFileHandle::new(h);
            Step::Ask(VfsCall::Read { fh, id: file, offset, count }, Pending::ReadData)
        },
    }
}

/// READ ends with the data.
pub open spec fn read_data<H>(r: ReplyView<H>) -> StepView<H> {
    match r {
        VfsReply::Data(data, eof) => succeeds(READ4resok::encode((eof, data))),
        VfsReply::Failed(e) => fails(status_of(e)),
        _ => fails(nfsstat4::NFS4ERR_SERVERFAULT),
    }
}

pub fn then_read_data<H>(r: Reply<H>) -> (s: Step<H>)
    ensures
        s.model() == read_data::<H>(r.model()),
{
    match r {
        VfsReply::Data(data, eof) => answered(&READ4resok { eof, data }),
        VfsReply::Failed(e) => failed(nfsstat4::from(e)),
        _ => failed(nfsstat4::NFS4ERR_SERVERFAULT),
    }
}

// ---------------------------------------------------------------- WRITE

/// WRITE begins with the type of the file.
pub open spec fn start_write<H>(
    cs: CompoundView,
    st: StateView<H>,
    ctx: RPCContext,
    sid: stateid4,
    offset: u64,
    data: Seq<u8>,
) -> StepView<H> {
    match cs.require_session() {
        Err(e) => fails(e),
        Ok(_) => match file_in(cs.current_fh, ctx.epoch) {
            Err(e) => fails(e),
            Ok(file) => if ctx.capabilities == VFSCapabilities::ReadOnly {
                fails(nfsstat4::NFS4ERR_ROFS)
            } else {
                match stateid_access(st, ctx, sid, file, OpenMode::ReadWrite) {
                    Err(e) => fails(e),
                    Ok(fh) => StepView::Ask(
                        VfsCall::Attributes { id: file },
                        Pending::WriteType { fh, file, offset, data },
                    ),
                }
            },
        },
    }
}

/// Run WRITE.
pub fn op_write<H>(args: WRITE4args, cs: &CompoundState, st: &NFS4State<H>, ctx: &RPCContext) -> (s: Step<H>)
    requires
        st.wf(),
    ensures
        s.model() == start_write(cs@, st@, *ctx, args.stateid, args.offset, args.data@),
{
    let file: fileid4 = match current_in_session(cs, ctx) {
        Err(e) => return failed(e),
        Ok(id) => id,
    };
    if let Err(e) = require_writable(ctx) {
        return failed(e);
    }
    match check_stateid(st, ctx, &args.stateid, file, OpenMode::ReadWrite) {
        Err(e) => failed(e),
        Ok(fh) => Step::Ask(
            VfsCall::Attributes { id: file },
            Pending::WriteType { fh, file, offset: args.offset, data: args.data },
        ),
    }
}

/// WRITE puts the data through a handle.
pub open spec fn write_through<H>(fh: H, file: fileid4, offset: u64, data: Seq<u8>) -> StepView<H> {
    StepView::Ask(VfsCall::Write { fh, id: file, offset, data }, Pending::WriteDone { count: data.len() as u32 })
}

fn put_through<H>(fh: ManagedFileHandle<H>, file: fileid4, offset: u64, data: Vec<u8>) -> (s: Step<H>)
    ensures
        s.model() == write_through::<H>(fh@, file, offset, data@),
{
    let count: u32 = data.len() as u32;
    Step::Ask(VfsCall::Write { fh, id: file, offset, data }, Pending::WriteDone { count })
}

/// WRITE goes on with the data, into what must be a regular file. Where the stateid
/// is special, the file is first opened for this one WRITE.
pub open spec fn write_type<H>(fh: Option<H>, file: fileid4, offset: u64, data: Seq<u8>, r: ReplyView<H>) -> StepView<
    H,
> {
    match typed_in(r, ftype3::NF3REG, nfsstat4::NFS4ERR_INVAL) {
        Err(e) => fails(e),
        Ok(_) => match fh {
            Some(fh) => write_through(fh, file, offset, data),
            None => StepView::Ask(
                VfsCall::Open { id: file, mode: OpenMode::ReadWrite },
                Pending::WriteHandle { file, offset, data },
            ),
        },
    }
}

pub fn then_write_type<H>(
    fh: Option<ManagedFileHandle<H>>,
    file: fileid4,
    offset: u64,
    data: Vec<u8>,
    r: Reply<H>,
) -> (s: Step<H>)
    ensures
        s.model() == write_type::<H>(handle_seen(fh), file, offset, data@, r.model()),
{
    match require_reg(r) {
        Err(e) => failed(e),
        Ok(_) => match fh {
            Some(fh) => put_through(fh, file, offset, data),
            None => Step::Ask(
                VfsCall::Open { id: file, mode: OpenMode::ReadWrite },
                Pending::WriteHandle { file, offset, data },
            ),
        },
    }
}

/// WRITE goes on with the data, through a handle of its own. Nothing keeps the
/// handle beyond the call.
pub open spec fn write_handle<H>(file: fileid4, offset: u64, data: Seq<u8>, r: ReplyView<H>) -> StepView<H> {
    match handle_in(r) {
        Err(e) => fails(e),
        Ok(fh) => write_through(fh, file, offset, data),
    }
}

pub fn then_write_handle<H>(file: fileid4, offset: u64, data: Vec<u8>, r: Reply<H>) -> (s: Step<H>)
    ensures
        s.model() == write_handle::<H>(file, offset, data@, r.model()),
{
    match take_handle(r) {
        Err(e) => failed(e),
        Ok(h) => put_through(ManagedFileHandle::new(h), file, offset, data),
    }
}

/// WRITE ends with how much was written: all of it, and durably, so no COMMIT is
/// required.
pub open spec fn write_done<H>(ctx: RPCContext, count: u32, r: ReplyView<H>) -> StepView<H> {
    match was_done(r) {
        Err(e) => fails(e),
        Ok(_) => succeeds(be32(count) + stable_how4::encode(stable_how4::FILE_SYNC4) + verifier_of(ctx.epoch)),
    }
}

pub fn then_write_done<H>(ctx: &RPCContext, count: u32, r: Reply<H>) -> (s: Step<H>)
    ensures
        s.model() == write_done::<H>(*ctx, count, r.model()),
{
    match take_done(r) {
        Err(e) => failed(e),
        Ok(_) => {
            let res = WRITE4resok {
                count,
                committed: stable_how4::FILE_SYNC4,
                writeverf: write_verifier(ctx.epoch),
            };
            assert(WRITE4resok::encode(res.model()) =~= be32(count) + stable_how4::encode(stable_how4::FILE_SYNC4)
                + verifier_of(ctx.epoch));
            answered(&res)
        },
    }
}

/// A handle that was opened for writing serves reading too.
pub proof fn write_access_carries_read_access<H>(st: StateView<H>, ctx: RPCContext, sid: stateid4, file: fileid4)
    requires
        stateid_access(st, ctx, sid, file, OpenMode::ReadWrite) is Ok,
    ensures
        stateid_access(st, ctx, sid, file, OpenMode::ReadOnly) == stateid_access(
            st,
            ctx,
            sid,
            file,
            OpenMode::ReadWrite,
        ),
{
}

/// Special stateids are always allowed, on any file and for any access: READ and
/// WRITE go on with the type of the file as they do for an open one.
pub proof fn special_stateids_are_allowed<H>(
    cs: CompoundView,
    st: StateView<H>,
    ctx: RPCContext,
    sid: stateid4,
    file: fileid4,
    need: OpenMode,
    offset: u64,
    count: u32,
    data: Seq<u8>,
)
    requires
        ctx.client_id is Some,
        !(state_ref(sid) is Open),
    ensures
        stateid_access(st, ctx, sid, file, need) == Ok::<Option<H>, nfsstat4>(None),
        cs.require_session() is Ok && file_in(cs.current_fh, ctx.epoch) == Ok::<fileid4, nfsstat4>(file) ==> {
            &&& start_read(cs, st, ctx, sid, offset, count) == StepView::<H>::Ask(
                VfsCall::Attributes { id: file },
                Pending::ReadType { fh: None, file, offset, count },
            )
            &&& ctx.capabilities == VFSCapabilities::ReadWrite ==> start_write(cs, st, ctx, sid, offset, data)
                == StepView::<H>::Ask(
                VfsCall::Attributes { id: file },
                Pending::WriteType { fh: None, file, offset, data },
            )
        },
{
}

/// What a READ through a handle of its own answers is what the file system read.
pub proof fn an_anonymous_read_gives_the_data<H>(
    file: fileid4,
    offset: u64,
    count: u32,
    a: fattr3,
    h: H,
    data: Seq<u8>,
    eof: bool,
)
    requires
        a.ftype == ftype3::NF3REG,
    ensures
        read_type::<H>(None, file, offset, count, VfsReply::Attributes(a)) == StepView::<H>::Ask(
            VfsCall::Open { id: file, mode: OpenMode::ReadOnly },
            Pending::ReadHandle { file, offset, count },
        ),
        read_handle::<H>(file, offset, count, VfsReply::Handle(h)) == StepView::<H>::Ask(
            VfsCall::Read { fh: h, id: file, offset, count },
            Pending::ReadData,
        ),
        read_data::<H>(VfsReply::Data(data, eof)) == succeeds::<H>(READ4resok::encode((eof, data))),
{
}

} // verus!
