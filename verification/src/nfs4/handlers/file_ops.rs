//! Operations on filehandles, files and directories. Those that need the file
//! system are suspended while it answers: `start_..` says what an operation does
//! first, and each `.._then` what it does with an answer.

use vstd::prelude::*;
use vstd::slice::slice_to_vec;

use crate::context::RPCContext;
use crate::model::{models, Model};
use crate::nfs::{fh_to_id, handle_of, id_to_fh, nfs_fh, nfsstring};
use crate::nfs3::{fattr3, ftype3};
use crate::nfs4::args::{
    ACCESS4args, ACCESS4resok, GETATTR4args, LOOKUP4args, PUTFH4args, READDIR4args, SECINFO4args, SECINFO_NO_NAME4args,
    ACCESS4_DELETE, ACCESS4_EXECUTE, ACCESS4_EXTEND, ACCESS4_LOOKUP, ACCESS4_MODIFY, ACCESS4_READ,
};
use crate::nfs4::attr::{attrs_of, fattr4, requested, AttrView};
use crate::nfs4::compound::{
    answered, attrs_in, dir_in, failed, fails, file_found, file_in, require_dir, require_writable, succeeded, succeeds,
    take_attrs, take_done, take_file, was_done, CompoundState, CompoundView, Pending, PendingView, Reply, Step,
    StepView,
};
use crate::nfs4::session::{AUTH_NONE, AUTH_SYS};
use crate::nfs4::state_spec::Res;
use crate::nfs4::{bitmap4, fileid4, nfs_fh4, nfsstat4, status_of, NFS4_VERIFIER_SIZE};
use crate::vfs::{DirEntry, Listing, ListingView, ReplyView, VfsCall, VfsReply};
use crate::word::be32_len;
use crate::xdr::{append, be64, zeros, XDR};

verus! {

broadcast use be32_len;

/// A copy of some bytes.
pub(crate) fn copied(b: &[u8]) -> (v: Vec<u8>)
    ensures
        v@ == b@,
{
    slice_to_vec(b)
}

/// A copy of a filehandle.
fn same_handle(fh: &nfs_fh4) -> (r: nfs_fh4)
    ensures
        r.model() == fh.model(),
{
    nfs_fh { data: copied(&fh.data) }
}

// ---------------------------------------------------------------- filehandles

/// PUTROOTFH: the current filehandle is the root of the export.
pub open spec fn putrootfh<H>(cs: CompoundView, ctx: RPCContext) -> (CompoundView, StepView<H>) {
    match cs.require_session() {
        Err(e) => (cs, fails(e)),
        Ok(_) => (cs.with_current(Some(handle_of(ctx.epoch, ctx.root_dir))), succeeds(Seq::empty())),
    }
}

/// Run PUTROOTFH.
pub fn op_putrootfh<H>(cs: &mut CompoundState, ctx: &RPCContext) -> (s: Step<H>)
    ensures
        (final(cs)@, s.model()) == putrootfh::<H>(old(cs)@, *ctx),
{
    if let Err(e) = cs.require_session() {
        return failed(e);
    }
    cs.current_fh = Some(id_to_fh(ctx.epoch, ctx.root_dir));
    succeeded()
}

/// GETFH: the current filehandle.
pub open spec fn getfh<H>(cs: CompoundView, ctx: RPCContext) -> (CompoundView, StepView<H>) {
    match cs.require_session() {
        Err(e) => (cs, fails(e)),
        Ok(_) => match cs.current_fh {
            None => (cs, fails(nfsstat4::NFS4ERR_NOFILEHANDLE)),
            Some(fh) => (cs, succeeds(nfs_fh4::encode(fh))),
        },
    }
}

/// Run GETFH.
pub fn op_getfh<H>(cs: &mut CompoundState, ctx: &RPCContext) -> (s: Step<H>)
    ensures
        (final(cs)@, s.model()) == getfh::<H>(old(cs)@, *ctx),
{
    if let Err(e) = cs.require_session() {
        return failed(e);
    }
    match &cs.current_fh {
        None => failed(nfsstat4::NFS4ERR_NOFILEHANDLE),
        Some(fh) => answered(fh),
    }
}

/// PUTFH: the current filehandle is the one given, if it names a file.
pub open spec fn putfh<H>(cs: CompoundView, ctx: RPCContext, fh: Seq<u8>) -> (CompoundView, StepView<H>) {
    match cs.require_session() {
        Err(e) => (cs, fails(e)),
        Ok(_) => match file_in(Some(fh), ctx.epoch) {
            Err(e) => (cs, fails(e)),
            Ok(_) => (cs.with_current(Some(fh)), succeeds(Seq::empty())),
        },
    }
}

/// Run PUTFH.
pub fn op_putfh<H>(args: PUTFH4args, cs: &mut CompoundState, ctx: &RPCContext) -> (s: Step<
    H,
>)
    ensures
        (final(cs)@, s.model()) == putfh::<H>(old(cs)@, *ctx,
            args.object.model(),
        ),
{
    if let Err(e) = cs.require_session() {
        return failed(e);
    }
    // Validated now, rather than by whoever uses it.
    if let Err(e) = fh_to_id(ctx.epoch, &args.object) {
        return failed(nfsstat4::from(e));
    }
    cs.current_fh = Some(args.object);
    succeeded()
}

/// SAVEFH: the saved filehandle is the current one.
pub open spec fn savefh<H>(cs: CompoundView, ctx: RPCContext) -> (CompoundView, StepView<H>) {
    match cs.require_session() {
        Err(e) => (cs, fails(e)),
        Ok(_) => match cs.current_fh {
            None => (cs, fails(nfsstat4::NFS4ERR_NOFILEHANDLE)),
            Some(fh) => (CompoundView { saved_fh: Some(fh), ..cs }, succeeds(Seq::empty())),
        },
    }
}

/// Run SAVEFH.
pub fn op_savefh<H>(cs: &mut CompoundState, ctx: &RPCContext) -> (s: Step<H>)
    ensures
        (final(cs)@, s.model()) == savefh::<H>(old(cs)@, *ctx),
{
    if let Err(e) = cs.require_session() {
        return failed(e);
    }
    let fh = match &cs.current_fh {
        None => return failed(nfsstat4::NFS4ERR_NOFILEHANDLE),
        Some(fh) => same_handle(fh),
    };
    cs.saved_fh = Some(fh);
    succeeded()
}

/// RESTOREFH: the current filehandle is the saved one.
pub open spec fn restorefh<H>(cs: CompoundView, ctx: RPCContext) -> (CompoundView, StepView<H>) {
    match cs.require_session() {
        Err(e) => (cs, fails(e)),
        Ok(_) => match cs.saved_fh {
            None => (cs, fails(nfsstat4::NFS4ERR_RESTOREFH)),
            Some(fh) => (cs.with_current(Some(fh)), succeeds(Seq::empty())),
        },
    }
}

/// Run RESTOREFH.
pub fn op_restorefh<H>(cs: &mut CompoundState, ctx: &RPCContext) -> (s: Step<H>)
    ensures
        (final(cs)@, s.model()) == restorefh::<H>(old(cs)@, *ctx),
{
    if let Err(e) = cs.require_session() {
        return failed(e);
    }
    let fh = match &cs.saved_fh {
        None => return failed(nfsstat4::NFS4ERR_RESTOREFH),
        Some(fh) => same_handle(fh),
    };
    cs.current_fh = Some(fh);
    succeeded()
}

// ---------------------------------------------------------------- SECINFO

/// The security flavors that are supported, in the order of preference.
pub open spec fn flavors() -> Seq<u32> {
    seq![AUTH_SYS, AUTH_NONE]
}

fn supported_flavors<H>() -> (s: Step<H>)
    ensures
        s.model() == succeeds::<H>(Vec::<u32>::encode(flavors())),
{
    let v: Vec<u32> = vec![AUTH_SYS, AUTH_NONE];
    assert(v@ =~= flavors());
    answered(&v)
}

/// SECINFO_NO_NAME: the supported flavors. It consumes the current filehandle.
pub open spec fn secinfo_no_name<H>(cs: CompoundView, ctx: RPCContext) -> (CompoundView, StepView<H>) {
    match cs.require_session() {
        Err(e) => (cs, fails(e)),
        Ok(_) => match file_in(cs.current_fh, ctx.epoch) {
            Err(e) => (cs, fails(e)),
            Ok(_) => (cs.with_current(None), succeeds(Vec::<u32>::encode(flavors()))),
        },
    }
}

/// OP_SECINFO_NO_NAME. The current filehandle must be set
/// (both styles require it: CURRENT_FH uses it directly; PARENT requires it to
/// derive the parent).
pub fn op_secinfo_no_name<H>(
    args: SECINFO_NO_NAME4args,
    cs: &mut CompoundState, ctx: &RPCContext) -> (s: Step<H>)
    ensures
        (final(cs)@, s.model()) == secinfo_no_name::<H>(old(cs)@, *ctx,
        ),
{
    if let Err(e) = cs.require_session() {
        return failed(e);
    }
    if let Err(e) = cs.current_file(ctx.epoch) {
        return failed(e);
    }
    cs.current_fh = None;
    supported_flavors()
}

/// What an operation on a name in the current directory begins with: a name
/// that is not empty, and a current filehandle that names a file.
pub open spec fn start_in_dir(cs: CompoundView, ctx: RPCContext, name: Seq<u8>) -> Res<fileid4> {
    if name.len() == 0 {
        Err(nfsstat4::NFS4ERR_INVAL)
    } else {
        file_in(cs.current_fh, ctx.epoch)
    }
}

pub(crate) fn named_in_dir(cs: &CompoundState, ctx: &RPCContext, name: &nfsstring) -> (r: Res<fileid4>)
    ensures
        r == start_in_dir(cs@, *ctx, name.model()),
{
    if name.is_empty() {
        return Err(nfsstat4::NFS4ERR_INVAL);
    }
    cs.current_file(ctx.epoch)
}

/// SECINFO begins with the directory.
pub open spec fn start_secinfo<H>(cs: CompoundView, ctx: RPCContext, name: Seq<u8>) -> StepView<H> {
    match cs.require_session() {
        Err(e) => fails(e),
        Ok(_) => match start_in_dir(cs, ctx, name) {
            Err(e) => fails(e),
            Ok(dir) => StepView::Ask(VfsCall::Attributes { id: dir }, Pending::SecinfoDir { dir, name }),
        },
    }
}

/// OP_SECINFO. Looks up `name` in the current
/// directory and reports supported security flavors.
pub fn op_secinfo<H>(args: SECINFO4args, cs: &CompoundState, ctx: &RPCContext) -> (s: Step<H>)
    ensures
        s.model() == start_secinfo::<H>(cs@, *ctx, args.name.model()),
{
    if let Err(e) = cs.require_session() {
        return failed(e);
    }
    match named_in_dir(cs, ctx, &args.name) {
        Err(e) => failed(e),
        Ok(dir) => Step::Ask(VfsCall::Attributes { id: dir }, Pending::SecinfoDir { dir, name: args.name.0 }),
    }
}

/// SECINFO goes on with the name.
pub open spec fn secinfo_dir<H>(dir: fileid4, name: Seq<u8>, r: ReplyView<H>) -> StepView<H> {
    match dir_in(r) {
        Err(e) => fails(e),
        Ok(_) => StepView::Ask(VfsCall::Lookup { dir, name }, Pending::SecinfoName),
    }
}

pub fn then_secinfo_dir<H>(dir: fileid4, name: Vec<u8>, r: Reply<H>) -> (s: Step<H>)
    ensures
        s.model() == secinfo_dir::<H>(dir, name@, r.model()),
{
    match require_dir(r) {
        Err(e) => failed(e),
        Ok(_) => Step::Ask(VfsCall::Lookup { dir, name }, Pending::SecinfoName),
    }
}

/// SECINFO ends with the supported flavors, if the name is there. It consumes
/// the current filehandle.
pub open spec fn secinfo_name<H>(cs: CompoundView, r: ReplyView<H>) -> (CompoundView, StepView<H>) {
    match file_found(r) {
        Err(e) => (cs, fails(e)),
        Ok(_) => (cs.with_current(None), succeeds(Vec::<u32>::encode(flavors()))),
    }
}

pub fn then_secinfo_name<H>(cs: &mut CompoundState, r: Reply<H>) -> (s: Step<H>)
    ensures
        (final(cs)@, s.model()) == secinfo_name::<H>(old(cs)@, r.model()),
{
    match take_file(r) {
        Err(e) => failed(e),
        Ok(_) => {
            cs.current_fh = None;
            supported_flavors()
        },
    }
}

// ---------------------------------------------------------------- GETATTR, ACCESS

/// An operation on the current file that begins with its attributes.
pub open spec fn start_with_attrs<H>(
    cs: CompoundView,
    ctx: RPCContext,
    p: spec_fn(fileid4) -> PendingView<H>,
) -> StepView<H> {
    match cs.require_session() {
        Err(e) => fails(e),
        Ok(_) => match file_in(cs.current_fh, ctx.epoch) {
            Err(e) => fails(e),
            Ok(id) => StepView::Ask(VfsCall::Attributes { id }, p(id)),
        },
    }
}

/// The current file of an operation that needs a session and a filehandle.
pub(crate) fn current_in_session(cs: &CompoundState, ctx: &RPCContext) -> (r: Res<fileid4>)
    ensures
        r == (match cs@.require_session() {
            Err(e) => Err::<fileid4, nfsstat4>(e),
            Ok(_) => file_in(cs@.current_fh, ctx.epoch),
        }),
{
    match cs.require_session() {
        Err(e) => Err(e),
        Ok(_) => cs.current_file(ctx.epoch),
    }
}

/// GETATTR begins with the attributes.
pub open spec fn start_getattr<H>(cs: CompoundView, ctx: RPCContext, request: Seq<u32>) -> StepView<H> {
    start_with_attrs(cs, ctx, |id: fileid4| Pending::Getattr { request })
}

/// Run GETATTR.
pub fn op_getattr<H>(args: GETATTR4args, cs: &CompoundState, ctx: &RPCContext) -> (s: Step<H>)
    ensures
        s.model() == start_getattr::<H>(cs@, *ctx, args.attr_request@),
{
    match current_in_session(cs, ctx) {
        Err(e) => failed(e),
        Ok(id) => Step::Ask(VfsCall::Attributes { id }, Pending::Getattr { request: args.attr_request }),
    }
}

/// The attributes of a file that a client asked for: those of the file system,
/// and the filehandle.
pub open spec fn attrs_answered(a: fattr3, fh: Seq<u8>, request: Seq<u32>) -> Map<nat, AttrView> {
    requested(attrs_of(a).insert(19, AttrView::Bytes(fh)), request)
}

/// The attributes of a file that a client asked for.
fn answer_attrs(a: &fattr3, fh: nfs_fh4, request: &bitmap4) -> (r: fattr4)
    ensures
        r.model() == attrs_answered(*a, fh.model(), request@),
        fattr4::encodable(r.model()),
{
    let mut r = fattr4::from_fattr3(a);
    let ghost before = r;
    r.filehandle = Some(fh);
    assert forall|b: nat| r.attr(b) == (if b == 19 {
        Some(AttrView::Bytes(fh.model()))
    } else {
        before.attr(b)
    }) by {}
    proof {
        let m = attrs_of(*a).insert(19, AttrView::Bytes(fh.model()));
        assert forall|b: nat| before.attr(b) == (if attrs_of(*a).contains_key(b) {
            Some(attrs_of(*a)[b])
        } else {
            None
        }) by {
            assert(before.model().contains_key(b) == (before.attr(b) is Some));
        }
        assert(r.model() =~= m);
    }
    r.retain_requested(request);
    r
}

/// GETATTR ends with the attributes that were asked for.
pub open spec fn getattr_attrs<H>(cs: CompoundView, request: Seq<u32>, r: ReplyView<H>) -> StepView<H> {
    match attrs_in(r) {
        Err(e) => fails(e),
        Ok(a) => match cs.current_fh {
            None => fails(nfsstat4::NFS4ERR_NOFILEHANDLE),
            Some(fh) => succeeds(fattr4::encode(attrs_answered(a, fh, request))),
        },
    }
}

pub fn then_getattr<H>(cs: &CompoundState, request: Vec<u32>, r: Reply<H>) -> (s: Step<H>)
    ensures
        s.model() == getattr_attrs::<H>(cs@, request@, r.model()),
{
    match take_attrs(r) {
        Err(e) => failed(e),
        Ok(a) => match &cs.current_fh {
            None => failed(nfsstat4::NFS4ERR_NOFILEHANDLE),
            Some(fh) => answered(&answer_attrs(&a, same_handle(fh), &request)),
        },
    }
}

/// ACCESS begins with the attributes.
pub open spec fn start_access<H>(cs: CompoundView, ctx: RPCContext, access: u32) -> StepView<H> {
    start_with_attrs(cs, ctx, |id: fileid4| Pending::Access { access })
}

/// Run ACCESS.
pub fn op_access<H>(args: ACCESS4args, cs: &CompoundState, ctx: &RPCContext) -> (s: Step<H>)
    ensures
        s.model() == start_access::<H>(cs@, *ctx, args.access),
{
    match current_in_session(cs, ctx) {
        Err(e) => failed(e),
        Ok(id) => Step::Ask(VfsCall::Attributes { id }, Pending::Access { access: args.access }),
    }
}

/// The kinds of access that can be asked of a file, and those that are granted:
/// all of them, but for those that would change a read-only export.
pub open spec fn access_of(is_dir: bool, read_only: bool) -> (u32, u32) {
    let supported = if is_dir {
        ACCESS4_READ | ACCESS4_LOOKUP | ACCESS4_MODIFY | ACCESS4_EXTEND | ACCESS4_DELETE
    } else {
        ACCESS4_READ | ACCESS4_MODIFY | ACCESS4_EXTEND | ACCESS4_EXECUTE
    };
    let granted = if read_only {
        supported & !(ACCESS4_MODIFY | ACCESS4_EXTEND | ACCESS4_DELETE)
    } else {
        supported
    };
    (supported, granted)
}

/// A read-only export grants nothing that would change it.
pub proof fn read_only_grants_no_change(is_dir: bool, asked: u32)
    ensures
        (access_of(is_dir, true).1 & asked) & ACCESS4_MODIFY == 0,
        (access_of(is_dir, true).1 & asked) & ACCESS4_EXTEND == 0,
        (access_of(is_dir, true).1 & asked) & ACCESS4_DELETE == 0,
{
    let s = access_of(is_dir, true).0;
    assert(((s & !(4u32 | 8u32 | 16u32)) & asked) & 4u32 == 0) by (bit_vector);
    assert(((s & !(4u32 | 8u32 | 16u32)) & asked) & 8u32 == 0) by (bit_vector);
    assert(((s & !(4u32 | 8u32 | 16u32)) & asked) & 16u32 == 0) by (bit_vector);
}

/// ACCESS ends with what is supported and what is granted, of what was asked.
pub open spec fn access_attrs<H>(ctx: RPCContext, access: u32, r: ReplyView<H>) -> StepView<H> {
    match attrs_in(r) {
        Err(e) => fails(e),
        Ok(a) => {
            let read_only = ctx.capabilities == crate::vfs::VFSCapabilities::ReadOnly;
            let (supported, granted) = access_of(a.ftype == ftype3::NF3DIR, read_only);
            succeeds(ACCESS4resok::encode((supported & access, granted & access)))
        },
    }
}

pub fn then_access<H>(ctx: &RPCContext, access: u32, r: Reply<H>) -> (s: Step<H>)
    ensures
        s.model() == access_attrs::<H>(*ctx, access, r.model()),
{
    match take_attrs(r) {
        Err(e) => failed(e),
        Ok(a) => {
            let supported: u32 = if a.ftype == ftype3::NF3DIR {
                ACCESS4_READ | ACCESS4_LOOKUP | ACCESS4_MODIFY | ACCESS4_EXTEND | ACCESS4_DELETE
            } else {
                ACCESS4_READ | ACCESS4_MODIFY | ACCESS4_EXTEND | ACCESS4_EXECUTE
            };
            let granted: u32 = if require_writable(ctx).is_err() {
                supported & !(ACCESS4_MODIFY | ACCESS4_EXTEND | ACCESS4_DELETE)
            } else {
                supported
            };
            answered(&ACCESS4resok { supported: supported & access, access: granted & access })
        },
    }
}

// ---------------------------------------------------------------- LOOKUP

/// LOOKUP begins with the directory.
pub open spec fn start_lookup<H>(cs: CompoundView, ctx: RPCContext, name: Seq<u8>) -> StepView<H> {
    match cs.require_session() {
        Err(e) => fails(e),
        Ok(_) => match start_in_dir(cs, ctx, name) {
            Err(e) => fails(e),
            Ok(dir) => StepView::Ask(VfsCall::Attributes { id: dir }, Pending::LookupDir { dir, name }),
        },
    }
}

/// Run LOOKUP.
pub fn op_lookup<H>(args: LOOKUP4args, cs: &CompoundState, ctx: &RPCContext) -> (s: Step<H>)
    ensures
        s.model() == start_lookup::<H>(cs@, *ctx, args.objname.model()),
{
    if let Err(e) = cs.require_session() {
        return failed(e);
    }
    match named_in_dir(cs, ctx, &args.objname) {
        Err(e) => failed(e),
        Ok(dir) => Step::Ask(VfsCall::Attributes { id: dir }, Pending::LookupDir { dir, name: args.objname.0 }),
    }
}

/// LOOKUP goes on with the name.
pub open spec fn lookup_dir<H>(dir: fileid4, name: Seq<u8>, r: ReplyView<H>) -> StepView<H> {
    match dir_in(r) {
        Err(e) => fails(e),
        Ok(_) => StepView::Ask(VfsCall::Lookup { dir, name }, Pending::LookupName),
    }
}

pub fn then_lookup_dir<H>(dir: fileid4, name: Vec<u8>, r: Reply<H>) -> (s: Step<H>)
    ensures
        s.model() == lookup_dir::<H>(dir, name@, r.model()),
{
    match require_dir(r) {
        Err(e) => failed(e),
        Ok(_) => Step::Ask(VfsCall::Lookup { dir, name }, Pending::LookupName),
    }
}

/// LOOKUP ends with the file as the current filehandle.
pub open spec fn lookup_name<H>(cs: CompoundView, ctx: RPCContext, r: ReplyView<H>) -> (CompoundView, StepView<H>) {
    match file_found(r) {
        Err(e) => (cs, fails(e)),
        Ok(id) => (cs.with_current(Some(handle_of(ctx.epoch, id))), succeeds(Seq::empty())),
    }
}

pub fn then_lookup_name<H>(cs: &mut CompoundState, ctx: &RPCContext, r: Reply<H>) -> (s: Step<H>)
    ensures
        (final(cs)@, s.model()) == lookup_name::<H>(old(cs)@, *ctx, r.model()),
{
    match take_file(r) {
        Err(e) => failed(e),
        Ok(id) => {
            cs.current_fh = Some(id_to_fh(ctx.epoch, id));
            succeeded()
        },
    }
}

// ---------------------------------------------------------------- READDIR

/// How many entries the file system is asked for at a time.
pub const READDIR_ENTRIES: usize = 256;

/// What a READDIR reply takes besides its entries: status, verifier, end of
/// list, end of directory.
pub const READDIR_OVERHEAD: usize = 20;

/// READDIR begins with the directory.
pub open spec fn start_readdir<H>(
    cs: CompoundView,
    ctx: RPCContext,
    cookie: u64,
    maxcount: u32,
    request: Seq<u32>,
) -> StepView<H> {
    start_with_attrs(cs, ctx, |dir: fileid4| Pending::ReaddirDir { dir, cookie, maxcount, request })
}

/// OP_READDIR. The cookie is the fileid of the last entry that
/// was returned, or 0 to list from the start. No cookie verifier is used.
pub fn op_readdir<H>(args: READDIR4args, cs: &CompoundState, ctx: &RPCContext) -> (s: Step<H>)
    ensures
        s.model() == start_readdir::<H>(cs@, *ctx, args.cookie, args.maxcount, args.attr_request@),
{
    match current_in_session(cs, ctx) {
        Err(e) => failed(e),
        Ok(dir) => Step::Ask(
            VfsCall::Attributes { id: dir },
            Pending::ReaddirDir {
                dir,
                cookie: args.cookie,
                maxcount: args.maxcount,
                request: args.attr_request,
            },
        ),
    }
}

/// READDIR goes on with a part of the directory.
pub open spec fn readdir_dir<H>(
    dir: fileid4,
    cookie: u64,
    maxcount: u32,
    request: Seq<u32>,
    r: ReplyView<H>,
) -> StepView<H> {
    match dir_in(r) {
        Err(e) => fails(e),
        Ok(_) => if maxcount == 0 {
            fails(nfsstat4::NFS4ERR_TOOSMALL)
        } else {
            StepView::Ask(
                VfsCall::Readdir { dir, start_after: cookie, max_entries: READDIR_ENTRIES },
                Pending::ReaddirList { maxcount, request },
            )
        },
    }
}

pub fn then_readdir_dir<H>(dir: fileid4, cookie: u64, maxcount: u32, request: Vec<u32>, r: Reply<H>) -> (s: Step<H>)
    ensures
        s.model() == readdir_dir::<H>(dir, cookie, maxcount, request@, r.model()),
{
    match require_dir(r) {
        Err(e) => failed(e),
        Ok(_) => {
            if maxcount == 0 {
                return failed(nfsstat4::NFS4ERR_TOOSMALL);
            }
            Step::Ask(
                VfsCall::Readdir { dir, start_after: cookie, max_entries: READDIR_ENTRIES },
                Pending::ReaddirList { maxcount, request },
            )
        },
    }
}

/// READDIR goes on with the limits of the export.
pub open spec fn readdir_list<H>(ctx: RPCContext, maxcount: u32, request: Seq<u32>, r: ReplyView<H>) -> StepView<H> {
    match r {
        VfsReply::Listing(listing) => StepView::Ask(
            VfsCall::FsInfo { id: ctx.root_dir },
            Pending::ReaddirInfo { maxcount, request, listing },
        ),
        VfsReply::Failed(e) => fails(status_of(e)),
        _ => fails(nfsstat4::NFS4ERR_SERVERFAULT),
    }
}

pub fn then_readdir_list<H>(ctx: &RPCContext, maxcount: u32, request: Vec<u32>, r: Reply<H>) -> (s: Step<H>)
    ensures
        s.model() == readdir_list::<H>(*ctx, maxcount, request@, r.model()),
{
    match r {
        VfsReply::Listing(listing) => Step::Ask(
            VfsCall::FsInfo { id: ctx.root_dir },
            Pending::ReaddirInfo { maxcount, request, listing },
        ),
        VfsReply::Failed(e) => failed(nfsstat4::from(e)),
        _ => failed(nfsstat4::NFS4ERR_SERVERFAULT),
    }
}

/// The bytes of an entry: that there is one, its cookie, its name, and the
/// attributes that were asked for.
pub open spec fn entry_bytes(epoch: u32, e: DirEntry<Seq<u8>>, request: Seq<u32>) -> Seq<u8> {
    bool::encode(true) + be64(e.fileid) + nfsstring::encode(e.name) + fattr4::encode(
        attrs_answered(e.attr, handle_of(epoch, e.fileid), request),
    )
}

/// The bytes of as many entries as fit, and whether some did not.
pub open spec fn fitting(epoch: u32, entries: Seq<DirEntry<Seq<u8>>>, request: Seq<u32>, used: int, budget: int) -> (
    Seq<u8>,
    bool,
)
    decreases entries.len(),
{
    if entries.len() == 0 {
        (Seq::empty(), false)
    } else {
        let e = entry_bytes(epoch, entries.first(), request);
        if used + e.len() > budget {
            (Seq::empty(), true)
        } else {
            let (rest, truncated) = fitting(epoch, entries.drop_first(), request, used + e.len(), budget);
            (e + rest, truncated)
        }
    }
}

/// READDIR ends with the entries that fit the client's budget, which is a hard one.
/// Where there are entries and not even the first fits, or where the frame of the
/// reply alone does not fit, the budget is too small.
pub open spec fn readdir_info<H>(
    ctx: RPCContext,
    maxcount: u32,
    request: Seq<u32>,
    listing: ListingView,
    r: ReplyView<H>,
) -> StepView<H> {
    match was_done(r) {
        Err(e) => fails(e),
        Ok(_) => {
            let (bytes, truncated) = fitting(
                ctx.epoch,
                listing.entries,
                request,
                READDIR_OVERHEAD as int,
                maxcount as int,
            );
            if maxcount < READDIR_OVERHEAD || listing.entries.len() > 0 && bytes.len() == 0 {
                fails(nfsstat4::NFS4ERR_TOOSMALL)
            } else {
                succeeds(
                    zeros(NFS4_VERIFIER_SIZE as int) + bytes + bool::encode(false) + bool::encode(
                        listing.end && !truncated,
                    ),
                )
            }
        },
    }
}

fn put_entry(epoch: u32, e: &DirEntry<Vec<u8>>, request: &bitmap4) -> (out: Vec<u8>)
    ensures
        out@ == entry_bytes(epoch, e.model(), request@),
        out@.len() > 0,
{
    let mut out: Vec<u8> = Vec::new();
    true.serialize(&mut out);
    e.fileid.serialize(&mut out);
    e.name.serialize(&mut out);
    answer_attrs(&e.attr, id_to_fh(epoch, e.fileid), request).serialize(&mut out);
    assert(out@ =~= entry_bytes(epoch, e.model(), request@));
    out
}

/// The bytes of as many entries as fit, and whether some did not.
fn fit_entries(epoch: u32, entries: &Vec<DirEntry<Vec<u8>>>, request: &bitmap4, budget: usize) -> (r: (Vec<u8>, bool))
    ensures
        (r.0@, r.1) == fitting(epoch, models(entries@), request@, READDIR_OVERHEAD as int, budget as int),
{
    let ghost all = models(entries@);
    let mut out: Vec<u8> = Vec::new();
    let mut used: usize = READDIR_OVERHEAD;
    let mut i: usize = 0;
    let ghost whole = fitting(epoch, all, request@, READDIR_OVERHEAD as int, budget as int);
    proof {
        assert(all.skip(0) =~= all);
        assert(out@ + whole.0 =~= whole.0);
    }
    while i < entries.len()
        invariant
            i <= entries@.len(),
            all == models(entries@),
            whole == fitting(epoch, all, request@, READDIR_OVERHEAD as int, budget as int),
            ({
                let rest = fitting(epoch, all.skip(i as int), request@, used as int, budget as int);
                whole == (out@ + rest.0, rest.1)
            }),
        decreases entries@.len() - i,
    {
        let ghost rest = fitting(epoch, all.skip(i as int), request@, used as int, budget as int);
        let e = put_entry(epoch, &entries[i], request);
        proof {
            assert(all.skip(i as int).first() == entries@[i as int].model());
            assert(all.skip(i as int).drop_first() =~= all.skip(i + 1));
        }
        if used > budget || e.len() > budget - used {
            assert(out@ + Seq::<u8>::empty() =~= out@);
            return (out, true);
        }
        used = used + e.len();
        let ghost before = out@;
        append(&mut out, &e);
        proof {
            let next = fitting(epoch, all.skip(i + 1), request@, used as int, budget as int);
            assert(before + (e@ + next.0) =~= out@ + next.0);
        }
        i += 1;
    }
    assert(out@ + Seq::<u8>::empty() =~= out@);
    (out, false)
}

pub fn then_readdir_info<H>(
    ctx: &RPCContext,
    maxcount: u32,
    request: Vec<u32>,
    listing: Listing,
    r: Reply<H>,
) -> (s: Step<H>)
    ensures
        s.model() == readdir_info::<H>(*ctx, maxcount, request@, listing.model(), r.model()),
{
    if let Err(e) = take_done(r) {
        return failed(e);
    }
    let (bytes, truncated) = fit_entries(ctx.epoch, &listing.entries, &request, maxcount as usize);
    if (maxcount as usize) < READDIR_OVERHEAD || listing.entries.len() > 0 && bytes.len() == 0 {
        return failed(nfsstat4::NFS4ERR_TOOSMALL);
    }
    let eof: bool = listing.end && !truncated;
    let mut body: Vec<u8> = Vec::new();
    nfsstat4::NFS4_OK.serialize(&mut body);
    let verf: [u8; NFS4_VERIFIER_SIZE] = [0u8; NFS4_VERIFIER_SIZE];
    verf.serialize(&mut body);
    append(&mut body, &bytes);
    false.serialize(&mut body);
    eof.serialize(&mut body);
    proof {
        assert(verf@ =~= zeros(NFS4_VERIFIER_SIZE as int));
        assert(body@ =~= nfsstat4::encode(nfsstat4::NFS4_OK) + (zeros(NFS4_VERIFIER_SIZE as int) + bytes@
            + bool::encode(false) + bool::encode(eof)));
    }
    Step::Done(nfsstat4::NFS4_OK, body)
}

} // verus!
