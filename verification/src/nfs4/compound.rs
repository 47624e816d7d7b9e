//! What a COMPOUND carries from one operation to the next, and what an
//! operation leaves to be done.

use vstd::prelude::*;

use crate::context::RPCContext;
use crate::model::Model;
use crate::nfs::{fh_to_id, file_of};
use crate::nfs3::{fattr3, ftype3};
use crate::nfs4::state::ManagedFileHandle;
use crate::nfs4::state_spec::{OwnerSeqid, Res, StateView};
use crate::nfs4::{changeid4, clientid4, fileid4, nfs_fh4, nfsstat4, sequenceid4, sessionid4, slotid4, status_of};
use crate::vfs::{CallView, Listing, ListingView, OpenMode, ReplyView, VFSCapabilities, VfsCall, VfsReply};
use crate::xdr::XDR;

verus! {

/// The slot that a COMPOUND of 4.1 runs in.
#[derive(Copy, Clone, Debug, PartialEq, Eq)]
pub struct SequenceContext {
    pub sessionid: sessionid4,
    pub slotid: slotid4,
    pub sequenceid: sequenceid4,
    pub cache_this: bool,
}

/// Per-COMPOUND execution state.
pub struct CompoundState {
    pub minorversion: u32,
    pub current_fh: Option<nfs_fh4>,
    pub saved_fh: Option<nfs_fh4>,
    pub session: Option<SequenceContext>,
    /// How many operations have run.
    pub opcount: u32,
}

/// What the execution state stands for.
#[verifier::ext_equal]
pub struct CompoundView {
    pub minorversion: u32,
    pub current_fh: Option<Seq<u8>>,
    pub saved_fh: Option<Seq<u8>>,
    pub session: Option<SequenceContext>,
    pub opcount: u32,
}

/// The bytes of a filehandle that may not be there.
pub open spec fn handle_bytes(fh: Option<nfs_fh4>) -> Option<Seq<u8>> {
    match fh {
        Some(f) => Some(f.model()),
        None => None,
    }
}

impl CompoundState {
    pub open spec fn view(&self) -> CompoundView {
        CompoundView {
            minorversion: self.minorversion,
            current_fh: handle_bytes(self.current_fh),
            saved_fh: handle_bytes(self.saved_fh),
            session: self.session,
            opcount: self.opcount,
        }
    }

    pub fn new(minorversion: u32) -> (s: Self)
        ensures
            s@ == CompoundView::start(minorversion),
    {
        CompoundState { minorversion, current_fh: None, saved_fh: None, session: None, opcount: 0 }
    }

    /// In 4.0 there is no session, so this is a no-op. In 4.1 every op after
    /// SEQUENCE requires a bound session.
    pub fn require_session(&self) -> (r: Res<()>)
        ensures
            r == self@.require_session(),
    {
        if self.minorversion == 0 || self.session.is_some() {
            Ok(())
        } else {
            Err(nfsstat4::NFS4ERR_OP_NOT_IN_SESSION)
        }
    }

    /// The file that the current filehandle names.
    pub fn current_file(&self, epoch: u32) -> (r: Res<fileid4>)
        ensures
            r == file_in(self@.current_fh, epoch),
    {
        match &self.current_fh {
            None => Err(nfsstat4::NFS4ERR_NOFILEHANDLE),
            Some(fh) => match fh_to_id(epoch, fh) {
                Ok(id) => Ok(id),
                Err(e) => Err(nfsstat4::from(e)),
            },
        }
    }

    /// The file that the saved filehandle names.
    pub fn saved_file(&self, epoch: u32) -> (r: Res<fileid4>)
        ensures
            r == file_in(self@.saved_fh, epoch),
    {
        match &self.saved_fh {
            None => Err(nfsstat4::NFS4ERR_NOFILEHANDLE),
            Some(fh) => match fh_to_id(epoch, fh) {
                Ok(id) => Ok(id),
                Err(e) => Err(nfsstat4::from(e)),
            },
        }
    }

    /// The open-owner seqid of a request: only 4.0 goes by it.
    pub fn owner_seqid(&self, seqid: u32) -> (r: OwnerSeqid)
        ensures
            r == self@.owner_seqid(seqid),
    {
        if self.minorversion == 0 {
            OwnerSeqid::V40(seqid)
        } else {
            OwnerSeqid::V41
        }
    }
}

/// The file that a filehandle names, if there is one.
pub open spec fn file_in(fh: Option<Seq<u8>>, epoch: u32) -> Res<fileid4> {
    match fh {
        None => Err(nfsstat4::NFS4ERR_NOFILEHANDLE),
        Some(b) => match file_of(epoch, b) {
            Ok(id) => Ok(id),
            Err(e) => Err(status_of(e)),
        },
    }
}

impl CompoundView {
    /// Before the first operation.
    pub open spec fn start(minorversion: u32) -> CompoundView {
        CompoundView { minorversion, current_fh: None, saved_fh: None, session: None, opcount: 0 }
    }

    pub open spec fn require_session(self) -> Res<()> {
        if self.minorversion == 0 || self.session is Some {
            Ok(())
        } else {
            Err(nfsstat4::NFS4ERR_OP_NOT_IN_SESSION)
        }
    }

    pub open spec fn owner_seqid(self, seqid: u32) -> OwnerSeqid {
        if self.minorversion == 0 {
            OwnerSeqid::V40(seqid)
        } else {
            OwnerSeqid::V41
        }
    }

    pub open spec fn with_current(self, fh: Option<Seq<u8>>) -> CompoundView {
        CompoundView { current_fh: fh, ..self }
    }
}

/// What an operation works on: the COMPOUND it is part of, the server's state,
/// and the connection.
#[verifier::ext_equal]
pub struct World<H> {
    pub cs: CompoundView,
    pub st: StateView<H>,
    pub ctx: RPCContext,
}

impl<H> World<H> {
    pub open spec fn with_cs(self, cs: CompoundView) -> World<H> {
        World { cs, ..self }
    }

    pub open spec fn with_st(self, st: StateView<H>) -> World<H> {
        World { st, ..self }
    }
}

/// May the export be changed?
pub fn require_writable(ctx: &RPCContext) -> (r: Res<()>)
    ensures
        r == (if ctx.capabilities == VFSCapabilities::ReadOnly {
            Err::<(), nfsstat4>(nfsstat4::NFS4ERR_ROFS)
        } else {
            Ok(())
        }),
{
    match ctx.capabilities {
        VFSCapabilities::ReadOnly => Err(nfsstat4::NFS4ERR_ROFS),
        VFSCapabilities::ReadWrite => Ok(()),
    }
}

// ---------------------------------------------------------------- suspended operations

/// What an OPEN asks for. The owner is a byte string `B`.
pub struct OpenRequest<B> {
    pub clientid: clientid4,
    pub owner: B,
    pub seqid: OwnerSeqid,
    pub mode: OpenMode,
    /// Make the file if it is not there.
    pub creating: bool,
}

impl Model for OpenRequest<Vec<u8>> {
    type M = OpenRequest<Seq<u8>>;

    open spec fn model(&self) -> OpenRequest<Seq<u8>> {
        OpenRequest {
            clientid: self.clientid,
            owner: self.owner@,
            seqid: self.seqid,
            mode: self.mode,
            creating: self.creating,
        }
    }
}

/// What a CREATE is to make. The target of a link is a byte string `B`.
pub enum Made<B> {
    Directory,
    Link(B),
    /// Something that cannot be made.
    Other,
}

impl Model for Made<Vec<u8>> {
    type M = Made<Seq<u8>>;

    open spec fn model(&self) -> Made<Seq<u8>> {
        match self {
            Made::Directory => Made::Directory,
            Made::Link(t) => Made::Link(t@),
            Made::Other => Made::Other,
        }
    }
}

/// An operation that waits for the file system. Names and data are byte strings
/// `B`, bitmaps are `W`, listings are `L`, handles are `F`.
pub enum Pending<B, W, L, F> {
    /// GETATTR waits for the attributes.
    Getattr { request: W },
    /// ACCESS waits for the attributes.
    Access { access: u32 },
    /// LOOKUP waits for the attributes of the directory.
    LookupDir { dir: fileid4, name: B },
    /// LOOKUP waits for the file.
    LookupName,
    /// READDIR waits for the attributes of the directory.
    ReaddirDir { dir: fileid4, cookie: u64, maxcount: u32, request: W },
    /// READDIR waits for the listing.
    ReaddirList { maxcount: u32, request: W },
    /// READDIR waits for the limits of the export.
    ReaddirInfo { maxcount: u32, request: W, listing: L },
    /// OPEN waits for the attributes of the directory.
    OpenDir { open: OpenRequest<B>, dir: fileid4, name: B },
    /// OPEN waits for the file of the name.
    OpenLookup { open: OpenRequest<B>, dir: fileid4, name: B, before: changeid4 },
    /// OPEN waits for the file that is made.
    OpenCreate { open: OpenRequest<B>, dir: fileid4, before: changeid4 },
    /// OPEN waits for the directory after the file was made.
    OpenAfter { open: OpenRequest<B>, file: fileid4, before: changeid4 },
    /// OPEN waits for the attributes of the file.
    OpenTarget { open: OpenRequest<B>, file: fileid4, before: changeid4, after: changeid4 },
    /// OPEN waits for a handle.
    OpenHandle { open: OpenRequest<B>, file: fileid4, before: changeid4, after: changeid4 },
    /// READ waits for the attributes. It has no handle where the stateid is special.
    ReadType { fh: Option<F>, file: fileid4, offset: u64, count: u32 },
    /// READ waits for a handle of its own.
    ReadHandle { file: fileid4, offset: u64, count: u32 },
    /// READ waits for the data.
    ReadData,
    /// WRITE waits for the attributes. It has no handle where the stateid is special.
    WriteType { fh: Option<F>, file: fileid4, offset: u64, data: B },
    /// WRITE waits for a handle of its own.
    WriteHandle { file: fileid4, offset: u64, data: B },
    /// WRITE waits for the data to be written.
    WriteDone { count: u32 },
    /// REMOVE waits for the attributes of the directory.
    RemoveDir { dir: fileid4, name: B },
    /// REMOVE waits for the name to go.
    RemoveDone { dir: fileid4, before: changeid4 },
    /// REMOVE waits for the directory afterwards.
    RemoveAfter { before: changeid4 },
    /// CREATE waits for the attributes of the directory.
    CreateDir { dir: fileid4, name: B, what: Made<B> },
    /// CREATE waits for the object.
    CreateDone { dir: fileid4, before: changeid4 },
    /// CREATE waits for the directory afterwards.
    CreateAfter { before: changeid4 },
    /// RENAME waits for the attributes of the source directory.
    RenameFrom { from: fileid4, old_name: B, to: fileid4, new_name: B },
    /// RENAME waits for the attributes of the target directory.
    RenameTo { from: fileid4, old_name: B, to: fileid4, new_name: B, src_before: changeid4 },
    /// RENAME waits for the name to move.
    RenameDone { from: fileid4, to: fileid4, src_before: changeid4, tgt_before: changeid4 },
    /// RENAME waits for the source directory afterwards.
    RenameSource { to: fileid4, src_before: changeid4, tgt_before: changeid4 },
    /// RENAME waits for the target directory afterwards.
    RenameTarget { src_before: changeid4, src_after: changeid4, tgt_before: changeid4 },
    /// SETATTR waits for the attributes to be set.
    SetattrDone { bits: W },
    /// READLINK waits for the attributes.
    ReadlinkType { file: fileid4 },
    /// READLINK waits for the target.
    ReadlinkTarget,
    /// COMMIT waits for the attributes.
    CommitType,
    /// SECINFO waits for the attributes of the directory.
    SecinfoDir { dir: fileid4, name: B },
    /// SECINFO waits for the file of the name.
    SecinfoName,
}

/// What a handle that may not be there stands for.
pub open spec fn handle_seen<H>(fh: Option<ManagedFileHandle<H>>) -> Option<H> {
    match fh {
        Some(f) => Some(f@),
        None => None,
    }
}

/// What a suspended operation stands for.
pub type PendingView<H> = Pending<Seq<u8>, Seq<u32>, ListingView, H>;

/// A suspended operation as it is kept.
pub type PendingOp<H> = Pending<Vec<u8>, Vec<u32>, Listing, ManagedFileHandle<H>>;

impl<H> Model for Pending<Vec<u8>, Vec<u32>, Listing, ManagedFileHandle<H>> {
    type M = PendingView<H>;

    open spec fn model(&self) -> PendingView<H> {
        match self {
            Pending::Getattr { request } => Pending::Getattr { request: request@ },
            Pending::Access { access } => Pending::Access { access: *access },
            Pending::LookupDir { dir, name } => Pending::LookupDir { dir: *dir, name: name@ },
            Pending::LookupName => Pending::LookupName,
            Pending::ReaddirDir { dir, cookie, maxcount, request } => Pending::ReaddirDir {
                dir: *dir,
                cookie: *cookie,
                maxcount: *maxcount,
                request: request@,
            },
            Pending::ReaddirList { maxcount, request } => Pending::ReaddirList {
                maxcount: *maxcount,
                request: request@,
            },
            Pending::ReaddirInfo { maxcount, request, listing } => Pending::ReaddirInfo {
                maxcount: *maxcount,
                request: request@,
                listing: listing.model(),
            },
            Pending::OpenDir { open, dir, name } => Pending::OpenDir { open: open.model(), dir: *dir, name: name@ },
            Pending::OpenLookup { open, dir, name, before } => Pending::OpenLookup {
                open: open.model(),
                dir: *dir,
                name: name@,
                before: *before,
            },
            Pending::OpenCreate { open, dir, before } => Pending::OpenCreate {
                open: open.model(),
                dir: *dir,
                before: *before,
            },
            Pending::OpenAfter { open, file, before } => Pending::OpenAfter {
                open: open.model(),
                file: *file,
                before: *before,
            },
            Pending::OpenTarget { open, file, before, after } => Pending::OpenTarget {
                open: open.model(),
                file: *file,
                before: *before,
                after: *after,
            },
            Pending::OpenHandle { open, file, before, after } => Pending::OpenHandle {
                open: open.model(),
                file: *file,
                before: *before,
                after: *after,
            },
            Pending::ReadType { fh, file, offset, count } => Pending::ReadType {
                fh: handle_seen(*fh),
                file: *file,
                offset: *offset,
                count: *count,
            },
            Pending::ReadHandle { file, offset, count } => Pending::ReadHandle {
                file: *file,
                offset: *offset,
                count: *count,
            },
            Pending::ReadData => Pending::ReadData,
            Pending::WriteType { fh, file, offset, data } => Pending::WriteType {
                fh: handle_seen(*fh),
                file: *file,
                offset: *offset,
                data: data@,
            },
            Pending::WriteHandle { file, offset, data } => Pending::WriteHandle {
                file: *file,
                offset: *offset,
                data: data@,
            },
            Pending::WriteDone { count } => Pending::WriteDone { count: *count },
            Pending::RemoveDir { dir, name } => Pending::RemoveDir { dir: *dir, name: name@ },
            Pending::RemoveDone { dir, before } => Pending::RemoveDone { dir: *dir, before: *before },
            Pending::RemoveAfter { before } => Pending::RemoveAfter { before: *before },
            Pending::CreateDir { dir, name, what } => Pending::CreateDir { dir: *dir, name: name@, what: what.model() },
            Pending::CreateDone { dir, before } => Pending::CreateDone { dir: *dir, before: *before },
            Pending::CreateAfter { before } => Pending::CreateAfter { before: *before },
            Pending::RenameFrom { from, old_name, to, new_name } => Pending::RenameFrom {
                from: *from,
                old_name: old_name@,
                to: *to,
                new_name: new_name@,
            },
            Pending::RenameTo { from, old_name, to, new_name, src_before } => Pending::RenameTo {
                from: *from,
                old_name: old_name@,
                to: *to,
                new_name: new_name@,
                src_before: *src_before,
            },
            Pending::RenameDone { from, to, src_before, tgt_before } => Pending::RenameDone {
                from: *from,
                to: *to,
                src_before: *src_before,
                tgt_before: *tgt_before,
            },
            Pending::RenameSource { to, src_before, tgt_before } => Pending::RenameSource {
                to: *to,
                src_before: *src_before,
                tgt_before: *tgt_before,
            },
            Pending::RenameTarget { src_before, src_after, tgt_before } => Pending::RenameTarget {
                src_before: *src_before,
                src_after: *src_after,
                tgt_before: *tgt_before,
            },
            Pending::SetattrDone { bits } => Pending::SetattrDone { bits: bits@ },
            Pending::ReadlinkType { file } => Pending::ReadlinkType { file: *file },
            Pending::ReadlinkTarget => Pending::ReadlinkTarget,
            Pending::CommitType => Pending::CommitType,
            Pending::SecinfoDir { dir, name } => Pending::SecinfoDir { dir: *dir, name: name@ },
            Pending::SecinfoName => Pending::SecinfoName,
        }
    }
}

/// How far an operation has come.
pub enum Step<H> {
    /// It is done, with this status and these bytes behind its number.
    Done(nfsstat4, Vec<u8>),
    /// The whole COMPOUND is a retransmit: answer with this body.
    Replay(Vec<u8>),
    /// It waits for the file system.
    Ask(VfsCall<Vec<u8>, ManagedFileHandle<H>>, PendingOp<H>),
}

/// What a step stands for.
pub enum StepView<H> {
    Done(nfsstat4, Seq<u8>),
    Replay(Seq<u8>),
    Ask(CallView<H>, PendingView<H>),
}

impl<H> Model for Step<H> {
    type M = StepView<H>;

    open spec fn model(&self) -> StepView<H> {
        match self {
            Step::Done(s, b) => StepView::Done(*s, b@),
            Step::Replay(b) => StepView::Replay(b@),
            Step::Ask(c, p) => StepView::Ask(c.model(), p.model()),
        }
    }
}

/// The end of an operation that failed: its status is all it answers.
pub open spec fn fails<H>(status: nfsstat4) -> StepView<H> {
    StepView::Done(status, nfsstat4::encode(status))
}

/// The end of an operation that succeeded, with its result.
pub open spec fn succeeds<H>(result: Seq<u8>) -> StepView<H> {
    StepView::Done(nfsstat4::NFS4_OK, nfsstat4::encode(nfsstat4::NFS4_OK) + result)
}

/// The end of an operation that failed.
pub fn failed<H>(status: nfsstat4) -> (s: Step<H>)
    ensures
        s.model() == fails::<H>(status),
{
    let mut body: Vec<u8> = Vec::new();
    status.serialize(&mut body);
    assert(body@ =~= nfsstat4::encode(status));
    Step::Done(status, body)
}

/// The end of an operation that succeeded and answers nothing more.
pub fn succeeded<H>() -> (s: Step<H>)
    ensures
        s.model() == succeeds::<H>(Seq::empty()),
{
    let mut body: Vec<u8> = Vec::new();
    nfsstat4::NFS4_OK.serialize(&mut body);
    assert(body@ =~= nfsstat4::encode(nfsstat4::NFS4_OK) + Seq::empty());
    Step::Done(nfsstat4::NFS4_OK, body)
}

/// The end of an operation that succeeded, with its result.
pub fn answered<H, T: XDR>(result: &T) -> (s: Step<H>)
    requires
        T::encodable(result.model()),
    ensures
        s.model() == succeeds::<H>(T::encode(result.model())),
{
    let mut body: Vec<u8> = Vec::new();
    nfsstat4::NFS4_OK.serialize(&mut body);
    result.serialize(&mut body);
    assert(body@ =~= nfsstat4::encode(nfsstat4::NFS4_OK) + T::encode(result.model()));
    Step::Done(nfsstat4::NFS4_OK, body)
}

// ---------------------------------------------------------------- replies

/// A reply as it comes from the file system.
pub type Reply<H> = VfsReply<Vec<u8>, Listing, H>;

/// Attributes, or why there are none.
pub open spec fn attrs_in<H>(r: ReplyView<H>) -> Res<fattr3> {
    match r {
        VfsReply::Attributes(a) => Ok(a),
        VfsReply::Failed(e) => Err(status_of(e)),
        _ => Err(nfsstat4::NFS4ERR_SERVERFAULT),
    }
}

/// A file, or why there is none.
pub open spec fn file_found<H>(r: ReplyView<H>) -> Res<fileid4> {
    match r {
        VfsReply::File(id) => Ok(id),
        VfsReply::Failed(e) => Err(status_of(e)),
        _ => Err(nfsstat4::NFS4ERR_SERVERFAULT),
    }
}

/// Whether something was done, or why not.
pub open spec fn was_done<H>(r: ReplyView<H>) -> Res<()> {
    match r {
        VfsReply::Done => Ok(()),
        VfsReply::Failed(e) => Err(status_of(e)),
        _ => Err(nfsstat4::NFS4ERR_SERVERFAULT),
    }
}

/// A handle, or why there is none.
pub open spec fn handle_in<H>(r: ReplyView<H>) -> Res<H> {
    match r {
        VfsReply::Handle(h) => Ok(h),
        VfsReply::Failed(e) => Err(status_of(e)),
        _ => Err(nfsstat4::NFS4ERR_SERVERFAULT),
    }
}

/// The attributes of what must be a directory.
pub open spec fn dir_in<H>(r: ReplyView<H>) -> Res<fattr3> {
    match attrs_in(r) {
        Err(e) => Err(e),
        Ok(a) => if a.ftype == ftype3::NF3DIR {
            Ok(a)
        } else {
            Err(nfsstat4::NFS4ERR_NOTDIR)
        },
    }
}

/// The attributes of what must be of a type other than a directory.
pub open spec fn typed_in<H>(r: ReplyView<H>, want: ftype3, otherwise: nfsstat4) -> Res<fattr3> {
    match attrs_in(r) {
        Err(e) => Err(e),
        Ok(a) => if a.ftype == want {
            Ok(a)
        } else if a.ftype == ftype3::NF3DIR {
            Err(nfsstat4::NFS4ERR_ISDIR)
        } else {
            Err(otherwise)
        },
    }
}

/// The change attribute of a directory.
pub open spec fn change_of(a: fattr3) -> changeid4 {
    a.ctime.seconds as u64
}

/// The change attribute of a directory afterwards, or what it was before if it
/// cannot be had.
pub open spec fn change_in<H>(r: ReplyView<H>, before: changeid4) -> changeid4 {
    match attrs_in(r) {
        Ok(a) => change_of(a),
        Err(_) => before,
    }
}

/// Attributes, or why there are none.
pub fn take_attrs<H>(r: Reply<H>) -> (o: Res<fattr3>)
    ensures
        o == attrs_in(r.model()),
{
    match r {
        VfsReply::Attributes(a) => Ok(a),
        VfsReply::Failed(e) => Err(nfsstat4::from(e)),
        _ => Err(nfsstat4::NFS4ERR_SERVERFAULT),
    }
}

/// A file, or why there is none.
pub fn take_file<H>(r: Reply<H>) -> (o: Res<fileid4>)
    ensures
        o == file_found(r.model()),
{
    match r {
        VfsReply::File(id) => Ok(id),
        VfsReply::Failed(e) => Err(nfsstat4::from(e)),
        _ => Err(nfsstat4::NFS4ERR_SERVERFAULT),
    }
}

/// Whether something was done, or why not.
pub fn take_done<H>(r: Reply<H>) -> (o: Res<()>)
    ensures
        o == was_done(r.model()),
{
    match r {
        VfsReply::Done => Ok(()),
        VfsReply::Failed(e) => Err(nfsstat4::from(e)),
        _ => Err(nfsstat4::NFS4ERR_SERVERFAULT),
    }
}

/// A handle, or why there is none.
pub fn take_handle<H>(r: Reply<H>) -> (o: Res<H>)
    ensures
        o == handle_in(r.model()),
{
    match r {
        VfsReply::Handle(h) => Ok(h),
        VfsReply::Failed(e) => Err(nfsstat4::from(e)),
        _ => Err(nfsstat4::NFS4ERR_SERVERFAULT),
    }
}

/// The attributes of what must be a directory.
pub fn require_dir<H>(r: Reply<H>) -> (o: Res<fattr3>)
    ensures
        o == dir_in(r.model()),
{
    match take_attrs(r) {
        Err(e) => Err(e),
        Ok(a) => if a.ftype == ftype3::NF3DIR {
            Ok(a)
        } else {
            Err(nfsstat4::NFS4ERR_NOTDIR)
        },
    }
}

fn require_type<H>(r: Reply<H>, want: ftype3, otherwise: nfsstat4) -> (o: Res<fattr3>)
    ensures
        o == typed_in(r.model(), want, otherwise),
{
    match take_attrs(r) {
        Err(e) => Err(e),
        Ok(a) => if a.ftype == want {
            Ok(a)
        } else if a.ftype == ftype3::NF3DIR {
            Err(nfsstat4::NFS4ERR_ISDIR)
        } else {
            Err(otherwise)
        },
    }
}

/// The attributes of what must be a regular file.
pub fn require_reg<H>(r: Reply<H>) -> (o: Res<fattr3>)
    ensures
        o == typed_in(r.model(), ftype3::NF3REG, nfsstat4::NFS4ERR_INVAL),
{
    require_type(r, ftype3::NF3REG, nfsstat4::NFS4ERR_INVAL)
}

/// The attributes of what must be a symbolic link.
pub fn require_symlink<H>(r: Reply<H>) -> (o: Res<fattr3>)
    ensures
        o == typed_in(r.model(), ftype3::NF3LNK, nfsstat4::NFS4ERR_INVAL),
{
    require_type(r, ftype3::NF3LNK, nfsstat4::NFS4ERR_INVAL)
}

/// The attributes of what OPEN is to open: a regular file.
pub fn require_openable<H>(r: Reply<H>) -> (o: Res<fattr3>)
    ensures
        o == typed_in(r.model(), ftype3::NF3REG, nfsstat4::NFS4ERR_SYMLINK),
{
    require_type(r, ftype3::NF3REG, nfsstat4::NFS4ERR_SYMLINK)
}

/// The change attribute of a directory afterwards, or what it was before if it
/// cannot be had.
pub fn change_after<H>(r: Reply<H>, before: changeid4) -> (c: changeid4)
    ensures
        c == change_in(r.model(), before),
{
    match take_attrs(r) {
        Ok(a) => a.ctime.seconds as changeid4,
        Err(_) => before,
    }
}

} // verus!
