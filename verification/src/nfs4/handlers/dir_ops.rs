//! Operations that change directories and attributes: REMOVE, CREATE, RENAME,
//! SETATTR, and READLINK and COMMIT.

use vstd::prelude::*;

use crate::context::RPCContext;
use crate::model::Model;
use crate::nfs::{handle_of, id_to_fh, verifier_of, write_verifier};
use crate::nfs3::{ftype3, sattr3};
use crate::nfs4::args::{
    change_info4, createtype4, COMMIT4args, COMMIT4resok, CREATE4args, CREATE4resok, CreateTypeView, READLINK4resok,
    REMOVE4args, REMOVE4resok, RENAME4args, RENAME4resok, SETATTR4args,
};
use crate::nfs4::attr::{first_unsettable, mask_of, settings_of, AttrView};
use crate::nfs4::compound::{
    answered, change_after, change_in, change_of, dir_in, failed, fails, file_found, file_in, require_dir, require_reg,
    require_symlink, require_writable, succeeds, take_done, take_file, typed_in, was_done, CompoundState, CompoundView,
    Made, Pending, Reply, Step, StepView,
};
use crate::nfs4::handlers::data_ops::{check_stateid, stateid_access};
use crate::nfs4::handlers::file_ops::{current_in_session, named_in_dir, start_in_dir, start_with_attrs};
use crate::nfs4::state::NFS4State;
use crate::nfs4::state_spec::{Res, StateView};
use crate::nfs4::{bitmap4, changeid4, fileid4, nfsstat4, stateid4, status_of};
use crate::nfs::nfsstring;
use crate::vfs::{OpenMode, ReplyView, VFSCapabilities, VfsCall, VfsReply};
use crate::word::be32_len;
use crate::xdr::XDR;

verus! {

broadcast use be32_len;

/// What an operation that changes the current directory begins with.
pub open spec fn start_change(cs: CompoundView, ctx: RPCContext, name: Seq<u8>) -> Res<fileid4> {
    match cs.require_session() {
        Err(e) => Err(e),
        Ok(_) => if ctx.capabilities == VFSCapabilities::ReadOnly {
            Err(nfsstat4::NFS4ERR_ROFS)
        } else {
            start_in_dir(cs, ctx, name)
        },
    }
}

fn changed_dir(cs: &CompoundState, ctx: &RPCContext, name: &nfsstring) -> (r: Res<fileid4>)
    ensures
        r == start_change(cs@, *ctx, name.model()),
{
    if let Err(e) = cs.require_session() {
        return Err(e);
    }
    if let Err(e) = require_writable(ctx) {
        return Err(e);
    }
    named_in_dir(cs, ctx, name)
}

// ---------------------------------------------------------------- REMOVE

/// REMOVE begins with the directory.
pub open spec fn start_remove<H>(cs: CompoundView, ctx: RPCContext, name: Seq<u8>) -> StepView<H> {
    match start_change(cs, ctx, name) {
        Err(e) => fails(e),
        Ok(dir) => StepView::Ask(VfsCall::Attributes { id: dir }, Pending::RemoveDir { dir, name }),
    }
}

/// OP_REMOVE. The file system removes both files and empty
/// directories.
pub fn op_remove<H>(args: REMOVE4args, cs: &CompoundState, ctx: &RPCContext) -> (s: Step<H>)
    ensures
        s.model() == start_remove::<H>(cs@, *ctx, args.target.model()),
{
    match changed_dir(cs, ctx, &args.target) {
        Err(e) => failed(e),
        Ok(dir) => Step::Ask(VfsCall::Attributes { id: dir }, Pending::RemoveDir { dir, name: args.target.0 }),
    }
}

/// REMOVE goes on with the name.
pub open spec fn remove_dir<H>(dir: fileid4, name: Seq<u8>, r: ReplyView<H>) -> StepView<H> {
    match dir_in(r) {
        Err(e) => fails(e),
        Ok(a) => StepView::Ask(VfsCall::Remove { dir, name }, Pending::RemoveDone { dir, before: change_of(a) }),
    }
}

pub fn then_remove_dir<H>(dir: fileid4, name: Vec<u8>, r: Reply<H>) -> (s: Step<H>)
    ensures
        s.model() == remove_dir::<H>(dir, name@, r.model()),
{
    match require_dir(r) {
        Err(e) => failed(e),
        Ok(a) => Step::Ask(
            VfsCall::Remove { dir, name },
            Pending::RemoveDone { dir, before: a.ctime.seconds as changeid4 },
        ),
    }
}

/// REMOVE goes on with the directory afterwards.
pub open spec fn remove_done<H>(dir: fileid4, before: changeid4, r: ReplyView<H>) -> StepView<H> {
    match was_done(r) {
        Err(e) => fails(e),
        Ok(_) => StepView::Ask(VfsCall::Getattr { id: dir }, Pending::RemoveAfter { before }),
    }
}

pub fn then_remove_done<H>(dir: fileid4, before: changeid4, r: Reply<H>) -> (s: Step<H>)
    ensures
        s.model() == remove_done::<H>(dir, before, r.model()),
{
    match take_done(r) {
        Err(e) => failed(e),
        Ok(_) => Step::Ask(VfsCall::Getattr { id: dir }, Pending::RemoveAfter { before }),
    }
}

/// REMOVE ends with how the directory changed.
pub open spec fn remove_after<H>(before: changeid4, r: ReplyView<H>) -> StepView<H> {
    succeeds(REMOVE4resok::encode((false, (before, change_in(r, before)))))
}

pub fn then_remove_after<H>(before: changeid4, r: Reply<H>) -> (s: Step<H>)
    ensures
        s.model() == remove_after::<H>(before, r.model()),
{
    let after: changeid4 = change_after(r, before);
    answered(&REMOVE4resok { cinfo: change_info4 { atomic: false, before, after } })
}

// ---------------------------------------------------------------- CREATE

/// What a CREATE of this type is to make.
pub open spec fn made_of(t: CreateTypeView) -> Made<Seq<u8>> {
    match t {
        CreateTypeView::Directory => Made::Directory,
        CreateTypeView::Link(target) => Made::Link(target),
        _ => Made::Other,
    }
}

/// CREATE begins with the directory.
pub open spec fn start_create<H>(cs: CompoundView, ctx: RPCContext, name: Seq<u8>, what: Made<Seq<u8>>) -> StepView<H> {
    match start_change(cs, ctx, name) {
        Err(e) => fails(e),
        Ok(dir) => StepView::Ask(VfsCall::Attributes { id: dir }, Pending::CreateDir { dir, name, what }),
    }
}

/// OP_CREATE. Creates a non-regular object in the current
/// directory; regular files are created via OPEN. Directories and symbolic links
/// are supported; other types return NFS4ERR_NOTSUPP.
pub fn op_create<H>(args: CREATE4args, cs: &CompoundState, ctx: &RPCContext) -> (s: Step<H>)
    ensures
        s.model() == start_create::<H>(cs@, *ctx, args.objname.model(), made_of(args.objtype.model())),
{
    let what = match args.objtype {
        createtype4::Directory => Made::Directory,
        createtype4::Link(target) => Made::Link(target.0),
        _ => Made::Other,
    };
    match changed_dir(cs, ctx, &args.objname) {
        Err(e) => failed(e),
        Ok(dir) => Step::Ask(VfsCall::Attributes { id: dir }, Pending::CreateDir { dir, name: args.objname.0, what }),
    }
}

/// CREATE goes on with the object.
pub open spec fn create_dir<H>(dir: fileid4, name: Seq<u8>, what: Made<Seq<u8>>, r: ReplyView<H>) -> StepView<H> {
    match dir_in(r) {
        Err(e) => fails(e),
        Ok(a) => {
            let next = Pending::CreateDone { dir, before: change_of(a) };
            match what {
                Made::Directory => StepView::Ask(VfsCall::Mkdir { dir, name }, next),
                Made::Link(target) => StepView::Ask(VfsCall::Symlink { dir, name, target }, next),
                Made::Other => fails(nfsstat4::NFS4ERR_NOTSUPP),
            }
        },
    }
}

pub fn then_create_dir<H>(dir: fileid4, name: Vec<u8>, what: Made<Vec<u8>>, r: Reply<H>) -> (s: Step<H>)
    ensures
        s.model() == create_dir::<H>(dir, name@, what.model(), r.model()),
{
    match require_dir(r) {
        Err(e) => failed(e),
        Ok(a) => {
            let before: changeid4 = a.ctime.seconds as changeid4;
            match what {
                Made::Directory => Step::Ask(VfsCall::Mkdir { dir, name }, Pending::CreateDone { dir, before }),
                Made::Link(target) => Step::Ask(
                    VfsCall::Symlink { dir, name, target },
                    Pending::CreateDone { dir, before },
                ),
                Made::Other => failed(nfsstat4::NFS4ERR_NOTSUPP),
            }
        },
    }
}

/// CREATE goes on with the directory afterwards; the object is the current
/// filehandle.
pub open spec fn create_done<H>(
    cs: CompoundView,
    ctx: RPCContext,
    dir: fileid4,
    before: changeid4,
    r: ReplyView<H>,
) -> (CompoundView, StepView<H>) {
    match file_found(r) {
        Err(e) => (cs, fails(e)),
        Ok(id) => (
            cs.with_current(Some(handle_of(ctx.epoch, id))),
            StepView::Ask(VfsCall::Getattr { id: dir }, Pending::CreateAfter { before }),
        ),
    }
}

pub fn then_create_done<H>(
    cs: &mut CompoundState,
    ctx: &RPCContext,
    dir: fileid4,
    before: changeid4,
    r: Reply<H>,
) -> (s: Step<H>)
    ensures
        (final(cs)@, s.model()) == create_done::<H>(old(cs)@, *ctx, dir, before, r.model()),
{
    match take_file(r) {
        Err(e) => failed(e),
        Ok(id) => {
            cs.current_fh = Some(id_to_fh(ctx.epoch, id));
            Step::Ask(VfsCall::Getattr { id: dir }, Pending::CreateAfter { before })
        },
    }
}

/// CREATE ends with how the directory changed.
pub open spec fn create_after<H>(before: changeid4, r: ReplyView<H>) -> StepView<H> {
    succeeds(CREATE4resok::encode(((false, (before, change_in(r, before))), Seq::empty())))
}

pub fn then_create_after<H>(before: changeid4, r: Reply<H>) -> (s: Step<H>)
    ensures
        s.model() == create_after::<H>(before, r.model()),
{
    let after: changeid4 = change_after(r, before);
    answered(&CREATE4resok { cinfo: change_info4 { atomic: false, before, after }, attrset: Vec::new() })
}

// ---------------------------------------------------------------- RENAME

/// RENAME begins with the source directory. The source directory is the saved
/// filehandle, the target directory the current one.
pub open spec fn start_rename<H>(
    cs: CompoundView,
    ctx: RPCContext,
    old_name: Seq<u8>,
    new_name: Seq<u8>,
) -> StepView<H> {
    match cs.require_session() {
        Err(e) => fails(e),
        Ok(_) => if ctx.capabilities == VFSCapabilities::ReadOnly {
            fails(nfsstat4::NFS4ERR_ROFS)
        } else if old_name.len() == 0 || new_name.len() == 0 {
            fails(nfsstat4::NFS4ERR_INVAL)
        } else {
            match file_in(cs.saved_fh, ctx.epoch) {
                Err(e) => fails(e),
                Ok(from) => match file_in(cs.current_fh, ctx.epoch) {
                    Err(e) => fails(e),
                    Ok(to) => StepView::Ask(
                        VfsCall::Attributes { id: from },
                        Pending::RenameFrom { from, old_name, to, new_name },
                    ),
                },
            }
        },
    }
}

/// Run RENAME.
pub fn op_rename<H>(args: RENAME4args, cs: &CompoundState, ctx: &RPCContext) -> (s: Step<H>)
    ensures
        s.model() == start_rename::<H>(cs@, *ctx, args.oldname.model(), args.newname.model()),
{
    if let Err(e) = cs.require_session() {
        return failed(e);
    }
    if let Err(e) = require_writable(ctx) {
        return failed(e);
    }
    if args.oldname.is_empty() || args.newname.is_empty() {
        return failed(nfsstat4::NFS4ERR_INVAL);
    }
    let from: fileid4 = match cs.saved_file(ctx.epoch) {
        Err(e) => return failed(e),
        Ok(id) => id,
    };
    let to: fileid4 = match cs.current_file(ctx.epoch) {
        Err(e) => return failed(e),
        Ok(id) => id,
    };
    Step::Ask(
        VfsCall::Attributes { id: from },
        Pending::RenameFrom { from, old_name: args.oldname.0, to, new_name: args.newname.0 },
    )
}

/// RENAME goes on with the target directory.
pub open spec fn rename_from<H>(
    from: fileid4,
    old_name: Seq<u8>,
    to: fileid4,
    new_name: Seq<u8>,
    r: ReplyView<H>,
) -> StepView<H> {
    match dir_in(r) {
        Err(e) => fails(e),
        Ok(a) => StepView::Ask(
            VfsCall::Attributes { id: to },
            Pending::RenameTo { from, old_name, to, new_name, src_before: change_of(a) },
        ),
    }
}

pub fn then_rename_from<H>(
    from: fileid4,
    old_name: Vec<u8>,
    to: fileid4,
    new_name: Vec<u8>,
    r: Reply<H>,
) -> (s: Step<H>)
    ensures
        s.model() == rename_from::<H>(from, old_name@, to, new_name@, r.model()),
{
    match require_dir(r) {
        Err(e) => failed(e),
        Ok(a) => Step::Ask(
            VfsCall::Attributes { id: to },
            Pending::RenameTo { from, old_name, to, new_name, src_before: a.ctime.seconds as changeid4 },
        ),
    }
}

/// RENAME goes on with the name.
pub open spec fn rename_to<H>(
    from: fileid4,
    old_name: Seq<u8>,
    to: fileid4,
    new_name: Seq<u8>,
    src_before: changeid4,
    r: ReplyView<H>,
) -> StepView<H> {
    match dir_in(r) {
        Err(e) => fails(e),
        Ok(a) => StepView::Ask(
            VfsCall::Rename { from, old_name, to, new_name },
            Pending::RenameDone { from, to, src_before, tgt_before: change_of(a) },
        ),
    }
}

pub fn then_rename_to<H>(
    from: fileid4,
    old_name: Vec<u8>,
    to: fileid4,
    new_name: Vec<u8>,
    src_before: changeid4,
    r: Reply<H>,
) -> (s: Step<H>)
    ensures
        s.model() == rename_to::<H>(from, old_name@, to, new_name@, src_before, r.model()),
{
    match require_dir(r) {
        Err(e) => failed(e),
        Ok(a) => Step::Ask(
            VfsCall::Rename { from, old_name, to, new_name },
            Pending::RenameDone { from, to, src_before, tgt_before: a.ctime.seconds as changeid4 },
        ),
    }
}

/// RENAME goes on with the source directory afterwards.
pub open spec fn rename_done<H>(
    from: fileid4,
    to: fileid4,
    src_before: changeid4,
    tgt_before: changeid4,
    r: ReplyView<H>,
) -> StepView<H> {
    match was_done(r) {
        Err(e) => fails(e),
        Ok(_) => StepView::Ask(VfsCall::Getattr { id: from }, Pending::RenameSource { to, src_before, tgt_before }),
    }
}

pub fn then_rename_done<H>(from: fileid4, to: fileid4, src_before: changeid4, tgt_before: changeid4, r: Reply<H>) -> (s:
    Step<H>)
    ensures
        s.model() == rename_done::<H>(from, to, src_before, tgt_before, r.model()),
{
    match take_done(r) {
        Err(e) => failed(e),
        Ok(_) => Step::Ask(VfsCall::Getattr { id: from }, Pending::RenameSource { to, src_before, tgt_before }),
    }
}

/// RENAME goes on with the target directory afterwards.
pub open spec fn rename_source<H>(
    to: fileid4,
    src_before: changeid4,
    tgt_before: changeid4,
    r: ReplyView<H>,
) -> StepView<H> {
    StepView::Ask(
        VfsCall::Getattr { id: to },
        Pending::RenameTarget { src_before, src_after: change_in(r, src_before), tgt_before },
    )
}

pub fn then_rename_source<H>(to: fileid4, src_before: changeid4, tgt_before: changeid4, r: Reply<H>) -> (s: Step<H>)
    ensures
        s.model() == rename_source::<H>(to, src_before, tgt_before, r.model()),
{
    let src_after: changeid4 = change_after(r, src_before);
    Step::Ask(VfsCall::Getattr { id: to }, Pending::RenameTarget { src_before, src_after, tgt_before })
}

/// RENAME ends with how both directories changed.
pub open spec fn rename_target<H>(
    src_before: changeid4,
    src_after: changeid4,
    tgt_before: changeid4,
    r: ReplyView<H>,
) -> StepView<H> {
    succeeds(
        RENAME4resok::encode(((false, (src_before, src_after)), (false, (tgt_before, change_in(r, tgt_before))))),
    )
}

pub fn then_rename_target<H>(
    src_before: changeid4,
    src_after: changeid4,
    tgt_before: changeid4,
    r: Reply<H>,
) -> (s: Step<H>)
    ensures
        s.model() == rename_target::<H>(src_before, src_after, tgt_before, r.model()),
{
    let tgt_after: changeid4 = change_after(r, tgt_before);
    answered(
        &RENAME4resok {
            source_cinfo: change_info4 { atomic: false, before: src_before, after: src_after },
            target_cinfo: change_info4 { atomic: false, before: tgt_before, after: tgt_after },
        },
    )
}

// ---------------------------------------------------------------- SETATTR

/// The end of a SETATTR: a bitmap of what was set always follows the status.
pub open spec fn setattr_end<H>(status: nfsstat4, bits: Seq<u32>) -> StepView<H> {
    StepView::Done(status, nfsstat4::encode(status) + bitmap4::encode(bits))
}

fn end_setattr<H>(status: nfsstat4, bits: &bitmap4) -> (s: Step<H>)
    ensures
        s.model() == setattr_end::<H>(status, bits@),
{
    let mut body: Vec<u8> = Vec::new();
    status.serialize(&mut body);
    bits.serialize(&mut body);
    assert(body@ =~= nfsstat4::encode(status) + bitmap4::encode(bits@));
    Step::Done(status, body)
}

/// What SETATTR is to set, on which file.
pub open spec fn setattr_plan<H>(
    cs: CompoundView,
    st: StateView<H>,
    ctx: RPCContext,
    sid: stateid4,
    attrs: Map<nat, AttrView>,
) -> Res<fileid4> {
    match cs.require_session() {
        Err(e) => Err(e),
        Ok(_) => if ctx.capabilities == VFSCapabilities::ReadOnly {
            Err(nfsstat4::NFS4ERR_ROFS)
        } else {
            match file_in(cs.current_fh, ctx.epoch) {
                Err(e) => Err(e),
                Ok(id) => if attrs.contains_key(4) && stateid_access(st, ctx, sid, id, OpenMode::ReadWrite) is Err {
                    Err(stateid_access(st, ctx, sid, id, OpenMode::ReadWrite)->Err_0)
                } else if first_unsettable(attrs, 0) is Some {
                    Err(nfsstat4::NFS4ERR_ATTRNOTSUPP)
                } else {
                    Ok(id)
                },
            }
        },
    }
}

/// SETATTR begins with the attributes. Changing the size needs a stateid that
/// carries write access.
pub open spec fn start_setattr<H>(
    cs: CompoundView,
    st: StateView<H>,
    ctx: RPCContext,
    sid: stateid4,
    attrs: Map<nat, AttrView>,
) -> StepView<H> {
    match setattr_plan(cs, st, ctx, sid, attrs) {
        Err(e) => setattr_end(e, Seq::empty()),
        Ok(id) => StepView::Ask(
            VfsCall::Setattr {
                id,
                attr: sattr3 { mode: settings_of(attrs).1, uid: None, gid: None, size: settings_of(attrs).0 },
            },
            Pending::SetattrDone { bits: mask_of(attrs) },
        ),
    }
}

/// Run SETATTR.
pub fn op_setattr<H>(args: SETATTR4args, cs: &CompoundState, st: &NFS4State<H>, ctx: &RPCContext) -> (s: Step<H>)
    requires
        st.wf(),
    ensures
        s.model() == start_setattr(cs@, st@, *ctx, args.stateid, args.obj_attributes.model()),
{
    let none: bitmap4 = Vec::new();
    assert(none@ =~= Seq::empty());
    if let Err(e) = cs.require_session() {
        return end_setattr(e, &none);
    }
    if let Err(e) = require_writable(ctx) {
        return end_setattr(e, &none);
    }
    let id: fileid4 = match cs.current_file(ctx.epoch) {
        Err(e) => return end_setattr(e, &none),
        Ok(id) => id,
    };
    proof {
        let a = args.obj_attributes;
        assert(a.attr(4) is Some == a.size is Some);
        assert(a.model().contains_key(4) == (a.attr(4) is Some));
    }
    if args.obj_attributes.size.is_some() {
        if let Err(e) = check_stateid(st, ctx, &args.stateid, id, OpenMode::ReadWrite) {
            return end_setattr(e, &none);
        }
    }
    match args.obj_attributes.to_sattr3() {
        Err(_) => end_setattr(nfsstat4::NFS4ERR_ATTRNOTSUPP, &none),
        Ok((attr, bits)) => Step::Ask(VfsCall::Setattr { id, attr }, Pending::SetattrDone { bits }),
    }
}

/// SETATTR ends with the bitmap of what was set.
pub open spec fn setattr_done<H>(bits: Seq<u32>, r: ReplyView<H>) -> StepView<H> {
    match was_done(r) {
        Err(e) => setattr_end(e, Seq::empty()),
        Ok(_) => setattr_end(nfsstat4::NFS4_OK, bits),
    }
}

pub fn then_setattr_done<H>(bits: Vec<u32>, r: Reply<H>) -> (s: Step<H>)
    ensures
        s.model() == setattr_done::<H>(bits@, r.model()),
{
    match take_done(r) {
        Err(e) => {
            let none: bitmap4 = Vec::new();
            assert(none@ =~= Seq::empty());
            end_setattr(e, &none)
        },
        Ok(_) => end_setattr(nfsstat4::NFS4_OK, &bits),
    }
}

// ---------------------------------------------------------------- READLINK, COMMIT

/// READLINK begins with the attributes.
pub open spec fn start_readlink<H>(cs: CompoundView, ctx: RPCContext) -> StepView<H> {
    start_with_attrs(cs, ctx, |file: fileid4| Pending::ReadlinkType { file })
}

/// Run READLINK.
pub fn op_readlink<H>(cs: &CompoundState, ctx: &RPCContext) -> (s: Step<H>)
    ensures
        s.model() == start_readlink::<H>(cs@, *ctx),
{
    match current_in_session(cs, ctx) {
        Err(e) => failed(e),
        Ok(id) => Step::Ask(VfsCall::Attributes { id }, Pending::ReadlinkType { file: id }),
    }
}

/// READLINK goes on with the target of what must be a symbolic link.
pub open spec fn readlink_type<H>(file: fileid4, r: ReplyView<H>) -> StepView<H> {
    match typed_in(r, ftype3::NF3LNK, nfsstat4::NFS4ERR_INVAL) {
        Err(e) => fails(e),
        Ok(_) => StepView::Ask(VfsCall::Readlink { id: file }, Pending::ReadlinkTarget),
    }
}

pub fn then_readlink_type<H>(file: fileid4, r: Reply<H>) -> (s: Step<H>)
    ensures
        s.model() == readlink_type::<H>(file, r.model()),
{
    match require_symlink(r) {
        Err(e) => failed(e),
        Ok(_) => Step::Ask(VfsCall::Readlink { id: file }, Pending::ReadlinkTarget),
    }
}

/// READLINK ends with the target.
pub open spec fn readlink_target<H>(r: ReplyView<H>) -> StepView<H> {
    match r {
        VfsReply::Target(t) => succeeds(READLINK4resok::encode(t)),
        VfsReply::Failed(e) => fails(status_of(e)),
        _ => fails(nfsstat4::NFS4ERR_SERVERFAULT),
    }
}

pub fn then_readlink_target<H>(r: Reply<H>) -> (s: Step<H>)
    ensures
        s.model() == readlink_target::<H>(r.model()),
{
    match r {
        VfsReply::Target(t) => answered(&READLINK4resok { link: nfsstring(t) }),
        VfsReply::Failed(e) => failed(nfsstat4::from(e)),
        _ => failed(nfsstat4::NFS4ERR_SERVERFAULT),
    }
}

/// COMMIT begins with the attributes.
pub open spec fn start_commit<H>(cs: CompoundView, ctx: RPCContext) -> StepView<H> {
    start_with_attrs(cs, ctx, |file: fileid4| Pending::CommitType)
}

/// OP_COMMIT. WRITE always reports FILE_SYNC4, so there is
/// nothing to flush.
pub fn op_commit<H>(args: COMMIT4args, cs: &CompoundState, ctx: &RPCContext) -> (s: Step<H>)
    ensures
        s.model() == start_commit::<H>(cs@, *ctx),
{
    match current_in_session(cs, ctx) {
        Err(e) => failed(e),
        Ok(id) => Step::Ask(VfsCall::Attributes { id }, Pending::CommitType),
    }
}

/// COMMIT ends with the write verifier, if the file is a regular one.
pub open spec fn commit_type<H>(ctx: RPCContext, r: ReplyView<H>) -> StepView<H> {
    match typed_in(r, ftype3::NF3REG, nfsstat4::NFS4ERR_INVAL) {
        Err(e) => fails(e),
        Ok(_) => succeeds(verifier_of(ctx.epoch)),
    }
}

pub fn then_commit_type<H>(ctx: &RPCContext, r: Reply<H>) -> (s: Step<H>)
    ensures
        s.model() == commit_type::<H>(*ctx, r.model()),
{
    match require_reg(r) {
        Err(e) => failed(e),
        Ok(_) => answered(&COMMIT4resok { writeverf: write_verifier(ctx.epoch) }),
    }
}

} // verus!
