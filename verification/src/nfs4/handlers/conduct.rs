//! What each operation on files is for: what it asks of the file system, in which
//! order, and what it makes of the answers. Every law speaks of a whole operation, from
//! its arguments to its result on the wire.

use vstd::prelude::*;

use crate::model::Model;
use crate::nfs::{handle_of, verifier_of};
use crate::nfs3::{fattr3, ftype3, nfsstat3, sattr3};
use crate::nfs4::args::CreateTypeView;
use crate::nfs4::attr::{fattr4, first_unsettable, is_set, settings_mask, supported, AttrView};
use crate::nfs4::compound::{attrs_in, file_found, file_in, handle_in, was_done, CompoundView, StepView, World};
use crate::nfs4::handlers::file_ops::{attrs_answered, entry_bytes, fitting};
use crate::nfs4::handlers::laws::needs_session;
use crate::nfs4::handlers::session_ops::Draws;
use crate::nfs4::handlers::{resumed, start, ArgsView};
use crate::nfs4::state_spec::ResolvedView;
use crate::nfs4::{fileid4, ftype_of, nfsstat4, stateid4, status_of, verifier4};
use crate::vfs::{CallView, DirEntry, ListingView, OpenMode, ReplyView, VFSCapabilities, VfsCall, VfsReply};
use crate::word::{be32, be32_len};
use crate::xdr::{be64, zeros, XDR};

verus! {

broadcast use be32_len;

// ---------------------------------------------------------------- telling

/// The operation waits for the file system, and this is what it asks.
pub open spec fn asks<H>(x: (World<H>, StepView<H>), c: CallView<H>) -> bool {
    x.1 matches StepView::Ask(asked, _) && asked == c
}

/// The operation is told what the file system answers.
pub open spec fn told<H>(x: (World<H>, StepView<H>), r: ReplyView<H>, now: u64, d: Draws) -> (World<H>, StepView<H>) {
    match x.1 {
        StepView::Ask(_, p) => resumed(x.0, p, r, now, d),
        _ => x,
    }
}

/// The operation is done, and well: zero, and then its result.
pub open spec fn gives<H>(x: (World<H>, StepView<H>), w: World<H>, result: Seq<u8>) -> bool {
    x == (w, StepView::<H>::Done(nfsstat4::NFS4_OK, be32(0) + result))
}

/// The operation is done, and failed: the number of its status and nothing more.
pub open spec fn refuses<H>(x: (World<H>, StepView<H>), w: World<H>, status: nfsstat4) -> bool {
    x == (w, StepView::<H>::Done(status, be32(status.number())))
}

/// An operation on the file that is the current filehandle can begin.
pub open spec fn at<H>(w: World<H>, file: fileid4) -> bool {
    &&& w.cs.minorversion == 0 || w.cs.session is Some
    &&& w.cs.current_fh == Some(handle_of(w.ctx.epoch, file))
}

/// The same world with another current filehandle.
pub open spec fn with_fh<H>(w: World<H>, fh: Option<Seq<u8>>) -> World<H> {
    World { cs: CompoundView { current_fh: fh, ..w.cs }, ..w }
}

/// How a directory changed: not atomically, from one change attribute to another.
pub open spec fn changed(before: u32, after: u32) -> Seq<u8> {
    be32(0) + be64(before as u64) + be64(after as u64)
}

/// The file system's answer is attributes of a directory.
pub open spec fn is_dir(a: fattr3) -> bool {
    a.ftype == ftype3::NF3DIR
}

/// What an operation that wants a regular file says of another one.
pub open spec fn not_regular(a: fattr3, otherwise: nfsstat4) -> nfsstat4 {
    if is_dir(a) {
        nfsstat4::NFS4ERR_ISDIR
    } else {
        otherwise
    }
}

/// A filehandle of this boot names its file.
pub proof fn handles_read<H>(w: World<H>, file: fileid4)
    ensures
        file_in(Some(handle_of(w.ctx.epoch, file)), w.ctx.epoch) == Ok::<fileid4, nfsstat4>(file),
{
    crate::nfs::a_handle_names_its_file(w.ctx.epoch, file);
}

// ---------------------------------------------------------------- READ, WRITE

/// READ through an open: the file must be a regular one, and then what is asked of the
/// file system is what the client asked, through the handle of the open. What it reads
/// is what the client gets: whether the file ends there, and the data.
pub proof fn read_reads_what_was_asked<H>(
    w: World<H>,
    file: fileid4,
    sid: stateid4,
    offset: u64,
    count: u32,
    fh: H,
    mode: OpenMode,
    a: fattr3,
    data: Seq<u8>,
    eof: bool,
    e: nfsstat3,
    now: u64,
    d: Draws,
)
    requires
        at(w, file),
        w.ctx.client_id is Some,
        w.st.resolve(sid) == Ok::<ResolvedView<H>, nfsstat4>(ResolvedView::Open { fileid: file, fh, mode }),
        a.ftype == ftype3::NF3REG,
    ensures
        ({
            let x = start(w, ArgsView::Read((sid.model(), (offset, count))), now, d);
            let y = told(x, VfsReply::Attributes(a), now, d);
            &&& asks(x, VfsCall::Attributes { id: file })
            &&& asks(y, VfsCall::Read { fh, id: file, offset, count })
            &&& gives(
                told(y, VfsReply::Data(data, eof), now, d),
                w,
                be32(if eof { 1 } else { 0 }) + Vec::<u8>::encode(data),
            )
            &&& refuses(told(y, VfsReply::Failed(e), now, d), w, status_of(e))
        }),
{
    reveal(start);
    reveal(resumed);
    handles_read(w, file);
}

/// A stateid of nothing but zeros or of nothing but ones.
pub open spec fn special(sid: stateid4) -> bool {
    ||| forall|i: int| 0 <= i < 12 ==> #[trigger] sid.other@[i] == 0
    ||| forall|i: int| 0 <= i < 12 ==> #[trigger] sid.other@[i] == 0xff
}

/// READ with a special stateid opens the file for itself, for reading, and reads what
/// was asked through that handle.
pub proof fn read_without_an_open_opens_for_itself<H>(
    w: World<H>,
    file: fileid4,
    sid: stateid4,
    offset: u64,
    count: u32,
    fh: H,
    a: fattr3,
    data: Seq<u8>,
    eof: bool,
    e: nfsstat3,
    now: u64,
    d: Draws,
)
    requires
        at(w, file),
        w.ctx.client_id is Some,
        special(sid),
        a.ftype == ftype3::NF3REG,
    ensures
        ({
            let x = start(w, ArgsView::Read((sid.model(), (offset, count))), now, d);
            let y = told(x, VfsReply::Attributes(a), now, d);
            let z = told(y, VfsReply::Handle(fh), now, d);
            &&& asks(x, VfsCall::Attributes { id: file })
            &&& asks(y, VfsCall::Open { id: file, mode: OpenMode::ReadOnly })
            &&& asks(z, VfsCall::Read { fh, id: file, offset, count })
            &&& gives(
                told(z, VfsReply::Data(data, eof), now, d),
                w,
                be32(if eof { 1 } else { 0 }) + Vec::<u8>::encode(data),
            )
            &&& refuses(told(y, VfsReply::Failed(e), now, d), w, status_of(e))
        }),
{
    reveal(start);
    reveal(resumed);
    handles_read(w, file);
}

/// WRITE through an open for writing: the data goes where the client said, as it is, and
/// the reply says that all of it was written, durably, under the verifier of this boot.
pub proof fn write_writes_what_was_given<H>(
    w: World<H>,
    file: fileid4,
    sid: stateid4,
    offset: u64,
    stable: crate::nfs4::args::stable_how4,
    data: Seq<u8>,
    fh: H,
    a: fattr3,
    e: nfsstat3,
    now: u64,
    d: Draws,
)
    requires
        at(w, file),
        w.ctx.client_id is Some,
        w.ctx.capabilities == VFSCapabilities::ReadWrite,
        w.st.resolve(sid) == Ok::<ResolvedView<H>, nfsstat4>(
            ResolvedView::Open { fileid: file, fh, mode: OpenMode::ReadWrite },
        ),
        a.ftype == ftype3::NF3REG,
        data.len() <= u32::MAX,
    ensures
        ({
            let x = start(w, ArgsView::Write((sid.model(), (offset, (stable, data)))), now, d);
            let y = told(x, VfsReply::Attributes(a), now, d);
            &&& asks(x, VfsCall::Attributes { id: file })
            &&& asks(y, VfsCall::Write { fh, id: file, offset, data })
            &&& gives(
                told(y, VfsReply::Done, now, d),
                w,
                be32(data.len() as u32) + be32(2) + verifier_of(w.ctx.epoch),
            )
            &&& refuses(told(y, VfsReply::Failed(e), now, d), w, status_of(e))
        }),
{
    reveal(start);
    reveal(resumed);
    handles_read(w, file);
}

/// WRITE with a special stateid opens the file for itself, for writing.
pub proof fn write_without_an_open_opens_for_itself<H>(
    w: World<H>,
    file: fileid4,
    sid: stateid4,
    offset: u64,
    stable: crate::nfs4::args::stable_how4,
    data: Seq<u8>,
    fh: H,
    a: fattr3,
    e: nfsstat3,
    now: u64,
    d: Draws,
)
    requires
        at(w, file),
        w.ctx.client_id is Some,
        w.ctx.capabilities == VFSCapabilities::ReadWrite,
        special(sid),
        a.ftype == ftype3::NF3REG,
        data.len() <= u32::MAX,
    ensures
        ({
            let x = start(w, ArgsView::Write((sid.model(), (offset, (stable, data)))), now, d);
            let y = told(x, VfsReply::Attributes(a), now, d);
            let z = told(y, VfsReply::Handle(fh), now, d);
            &&& asks(x, VfsCall::Attributes { id: file })
            &&& asks(y, VfsCall::Open { id: file, mode: OpenMode::ReadWrite })
            &&& asks(z, VfsCall::Write { fh, id: file, offset, data })
            &&& gives(
                told(z, VfsReply::Done, now, d),
                w,
                be32(data.len() as u32) + be32(2) + verifier_of(w.ctx.epoch),
            )
            &&& refuses(told(y, VfsReply::Failed(e), now, d), w, status_of(e))
        }),
{
    reveal(start);
    reveal(resumed);
    handles_read(w, file);
}

/// A stateid that does not resolve fails READ and WRITE with what it resolves to. One
/// of another file is bad, and an open for reading does not serve WRITE. Without a
/// client no stateid is good.
pub proof fn data_needs_a_stateid_that_serves<H>(
    w: World<H>,
    file: fileid4,
    sid: stateid4,
    offset: u64,
    count: u32,
    stable: crate::nfs4::args::stable_how4,
    data: Seq<u8>,
    now: u64,
    d: Draws,
)
    requires
        at(w, file),
        w.ctx.capabilities == VFSCapabilities::ReadWrite,
    ensures
        ({
            let r = start(w, ArgsView::Read((sid.model(), (offset, count))), now, d);
            let x = start(w, ArgsView::Write((sid.model(), (offset, (stable, data)))), now, d);
            &&& w.ctx.client_id is None ==> refuses(r, w, nfsstat4::NFS4ERR_BAD_STATEID) && refuses(
                x,
                w,
                nfsstat4::NFS4ERR_BAD_STATEID,
            )
            &&& w.ctx.client_id is Some ==> match w.st.resolve(sid) {
                Err(e) => refuses(r, w, e) && refuses(x, w, e),
                Ok(ResolvedView::Open { fileid, mode, .. }) => {
                    &&& fileid != file ==> refuses(r, w, nfsstat4::NFS4ERR_BAD_STATEID) && refuses(
                        x,
                        w,
                        nfsstat4::NFS4ERR_BAD_STATEID,
                    )
                    &&& fileid == file && mode == OpenMode::ReadOnly ==> refuses(x, w, nfsstat4::NFS4ERR_OPENMODE)
                    &&& fileid == file ==> asks(r, VfsCall::Attributes { id: file })
                },
                Ok(_) => asks(r, VfsCall::Attributes { id: file }) && asks(x, VfsCall::Attributes { id: file }),
            }
        }),
{
    reveal(start);
    handles_read(w, file);
}

/// What is no regular file has no data: a directory is told as one, anything else is
/// invalid. The same goes for what cannot be looked at.
pub proof fn only_regular_files_have_data<H>(
    w: World<H>,
    file: fileid4,
    sid: stateid4,
    offset: u64,
    count: u32,
    stable: crate::nfs4::args::stable_how4,
    data: Seq<u8>,
    a: fattr3,
    e: nfsstat3,
    now: u64,
    d: Draws,
)
    requires
        at(w, file),
        a.ftype != ftype3::NF3REG,
    ensures
        ({
            let r = start(w, ArgsView::Read((sid.model(), (offset, count))), now, d);
            r.1 is Ask ==> refuses(
                told(r, VfsReply::Attributes(a), now, d),
                w,
                not_regular(a, nfsstat4::NFS4ERR_INVAL),
            ) && refuses(told(r, VfsReply::Failed(e), now, d), w, status_of(e))
        }),
        ({
            let x = start(w, ArgsView::Write((sid.model(), (offset, (stable, data)))), now, d);
            x.1 is Ask ==> refuses(
                told(x, VfsReply::Attributes(a), now, d),
                w,
                not_regular(a, nfsstat4::NFS4ERR_INVAL),
            ) && refuses(told(x, VfsReply::Failed(e), now, d), w, status_of(e))
        }),
        ({
            let c = start(w, ArgsView::Commit((offset, count)), now, d);
            &&& asks(c, VfsCall::Attributes { id: file })
            &&& refuses(told(c, VfsReply::Attributes(a), now, d), w, not_regular(a, nfsstat4::NFS4ERR_INVAL))
            &&& refuses(told(c, VfsReply::Failed(e), now, d), w, status_of(e))
        }),
{
    reveal(start);
    reveal(resumed);
    handles_read(w, file);
}

/// COMMIT has nothing to flush: it answers with the verifier that WRITE answers with.
pub proof fn commit_gives_the_write_verifier<H>(
    w: World<H>,
    file: fileid4,
    offset: u64,
    count: u32,
    a: fattr3,
    now: u64,
    d: Draws,
)
    requires
        at(w, file),
        a.ftype == ftype3::NF3REG,
    ensures
        ({
            let x = start(w, ArgsView::Commit((offset, count)), now, d);
            &&& asks(x, VfsCall::Attributes { id: file })
            &&& gives(told(x, VfsReply::Attributes(a), now, d), w, verifier_of(w.ctx.epoch))
        }),
{
    reveal(start);
    reveal(resumed);
    handles_read(w, file);
}

// ---------------------------------------------------------------- names

/// LOOKUP looks the name up in the current directory, and the file that is found
/// becomes the current filehandle.
pub proof fn lookup_goes_to_the_name<H>(
    w: World<H>,
    dir: fileid4,
    name: Seq<u8>,
    a: fattr3,
    file: fileid4,
    e: nfsstat3,
    now: u64,
    d: Draws,
)
    requires
        at(w, dir),
    ensures
        ({
            let x = start(w, ArgsView::Lookup(name), now, d);
            let y = told(x, VfsReply::Attributes(a), now, d);
            if name.len() == 0 {
                refuses(x, w, nfsstat4::NFS4ERR_INVAL)
            } else {
                &&& asks(x, VfsCall::Attributes { id: dir })
                &&& refuses(told(x, VfsReply::Failed(e), now, d), w, status_of(e))
                &&& !is_dir(a) ==> refuses(y, w, nfsstat4::NFS4ERR_NOTDIR)
                &&& is_dir(a) ==> {
                    &&& asks(y, VfsCall::Lookup { dir, name })
                    &&& gives(
                        told(y, VfsReply::File(file), now, d),
                        with_fh(w, Some(handle_of(w.ctx.epoch, file))),
                        Seq::empty(),
                    )
                    &&& refuses(told(y, VfsReply::Failed(e), now, d), w, status_of(e))
                }
            }
        }),
{
    reveal(start);
    reveal(resumed);
    handles_read(w, dir);
}

/// SECINFO looks the name up in the current directory, answers with AUTH_SYS and
/// AUTH_NONE, and leaves no current filehandle.
pub proof fn secinfo_lists_the_flavors<H>(
    w: World<H>,
    dir: fileid4,
    name: Seq<u8>,
    style: crate::nfs4::args::secinfo_style4,
    a: fattr3,
    file: fileid4,
    e: nfsstat3,
    now: u64,
    d: Draws,
)
    requires
        at(w, dir),
    ensures
        ({
            let x = start(w, ArgsView::Secinfo(name), now, d);
            let y = told(x, VfsReply::Attributes(a), now, d);
            if name.len() == 0 {
                refuses(x, w, nfsstat4::NFS4ERR_INVAL)
            } else {
                &&& asks(x, VfsCall::Attributes { id: dir })
                &&& refuses(told(x, VfsReply::Failed(e), now, d), w, status_of(e))
                &&& !is_dir(a) ==> refuses(y, w, nfsstat4::NFS4ERR_NOTDIR)
                &&& is_dir(a) ==> {
                    &&& asks(y, VfsCall::Lookup { dir, name })
                    &&& gives(
                        told(y, VfsReply::File(file), now, d),
                        with_fh(w, None),
                        be32(2) + be32(1) + be32(0),
                    )
                    &&& refuses(told(y, VfsReply::Failed(e), now, d), w, status_of(e))
                }
            }
        }),
        gives(
            start(w, ArgsView::SecinfoNoName(style), now, d),
            with_fh(w, None),
            be32(2) + be32(1) + be32(0),
        ),
{
    reveal(start);
    reveal(resumed);
    handles_read(w, dir);
    two_words(1, 0);
}

/// REMOVE takes the name out of the current directory, and tells how the directory
/// changed: from what it was before to what it is after, as far as that can be had.
pub proof fn remove_takes_the_name_out<H>(
    w: World<H>,
    dir: fileid4,
    name: Seq<u8>,
    before: fattr3,
    after: fattr3,
    e: nfsstat3,
    now: u64,
    d: Draws,
)
    requires
        at(w, dir),
        w.ctx.capabilities == VFSCapabilities::ReadWrite,
    ensures
        ({
            let x = start(w, ArgsView::Remove(name), now, d);
            let y = told(x, VfsReply::Attributes(before), now, d);
            let z = told(y, VfsReply::Done, now, d);
            if name.len() == 0 {
                refuses(x, w, nfsstat4::NFS4ERR_INVAL)
            } else {
                &&& asks(x, VfsCall::Attributes { id: dir })
                &&& refuses(told(x, VfsReply::Failed(e), now, d), w, status_of(e))
                &&& !is_dir(before) ==> refuses(y, w, nfsstat4::NFS4ERR_NOTDIR)
                &&& is_dir(before) ==> {
                    &&& asks(y, VfsCall::Remove { dir, name })
                    &&& refuses(told(y, VfsReply::Failed(e), now, d), w, status_of(e))
                    &&& asks(z, VfsCall::Getattr { id: dir })
                    &&& gives(
                        told(z, VfsReply::Attributes(after), now, d),
                        w,
                        changed(before.ctime.seconds, after.ctime.seconds),
                    )
                    &&& gives(
                        told(z, VfsReply::Failed(e), now, d),
                        w,
                        changed(before.ctime.seconds, before.ctime.seconds),
                    )
                }
            }
        }),
{
    reveal(start);
    reveal(resumed);
    handles_read(w, dir);
    change_info(before.ctime.seconds, after.ctime.seconds);
    change_info(before.ctime.seconds, before.ctime.seconds);
}

/// CREATE makes a directory or a link under the name in the current directory, which
/// becomes the current filehandle, and tells how the directory changed. Nothing else
/// can be made.
pub proof fn create_makes_the_object<H>(
    w: World<H>,
    dir: fileid4,
    kind: CreateTypeView,
    name: Seq<u8>,
    attrs: Map<nat, AttrView>,
    before: fattr3,
    file: fileid4,
    after: fattr3,
    e: nfsstat3,
    now: u64,
    d: Draws,
)
    requires
        at(w, dir),
        w.ctx.capabilities == VFSCapabilities::ReadWrite,
    ensures
        ({
            let x = start(w, ArgsView::Create((kind, (name, attrs))), now, d);
            let y = told(x, VfsReply::Attributes(before), now, d);
            let z = told(y, VfsReply::File(file), now, d);
            let made = with_fh(w, Some(handle_of(w.ctx.epoch, file)));
            if name.len() == 0 {
                refuses(x, w, nfsstat4::NFS4ERR_INVAL)
            } else {
                &&& asks(x, VfsCall::Attributes { id: dir })
                &&& refuses(told(x, VfsReply::Failed(e), now, d), w, status_of(e))
                &&& !is_dir(before) ==> refuses(y, w, nfsstat4::NFS4ERR_NOTDIR)
                &&& is_dir(before) ==> {
                    &&& match kind {
                        CreateTypeView::Directory => asks(y, VfsCall::Mkdir { dir, name }),
                        CreateTypeView::Link(target) => asks(y, VfsCall::Symlink { dir, name, target }),
                        _ => refuses(y, w, nfsstat4::NFS4ERR_NOTSUPP),
                    }
                    &&& y.1 is Ask ==> {
                        &&& refuses(told(y, VfsReply::Failed(e), now, d), w, status_of(e))
                        &&& asks(z, VfsCall::Getattr { id: dir })
                        &&& gives(
                            told(z, VfsReply::Attributes(after), now, d),
                            made,
                            changed(before.ctime.seconds, after.ctime.seconds) + be32(0),
                        )
                        &&& gives(
                            told(z, VfsReply::Failed(e), now, d),
                            made,
                            changed(before.ctime.seconds, before.ctime.seconds) + be32(0),
                        )
                    }
                }
            }
        }),
{
    reveal(start);
    reveal(resumed);
    handles_read(w, dir);
    change_info(before.ctime.seconds, after.ctime.seconds);
    change_info(before.ctime.seconds, before.ctime.seconds);
    no_words();
}

/// RENAME moves the old name of the saved directory to the new name of the current one,
/// never the other way round, and tells how both directories changed, the saved one
/// first.
pub proof fn rename_moves_from_saved_to_current<H>(
    w: World<H>,
    from: fileid4,
    to: fileid4,
    old_name: Seq<u8>,
    new_name: Seq<u8>,
    from_before: fattr3,
    to_before: fattr3,
    from_after: fattr3,
    to_after: fattr3,
    e: nfsstat3,
    now: u64,
    d: Draws,
)
    requires
        at(w, to),
        w.cs.saved_fh == Some(handle_of(w.ctx.epoch, from)),
        w.ctx.capabilities == VFSCapabilities::ReadWrite,
        old_name.len() > 0,
        new_name.len() > 0,
        is_dir(from_before),
        is_dir(to_before),
    ensures
        ({
            let x = start(w, ArgsView::Rename((old_name, new_name)), now, d);
            let y = told(x, VfsReply::Attributes(from_before), now, d);
            let z = told(y, VfsReply::Attributes(to_before), now, d);
            let u = told(z, VfsReply::Done, now, d);
            let v = told(u, VfsReply::Attributes(from_after), now, d);
            &&& asks(x, VfsCall::Attributes { id: from })
            &&& asks(y, VfsCall::Attributes { id: to })
            &&& asks(z, VfsCall::Rename { from, old_name, to, new_name })
            &&& refuses(told(z, VfsReply::Failed(e), now, d), w, status_of(e))
            &&& asks(u, VfsCall::Getattr { id: from })
            &&& asks(v, VfsCall::Getattr { id: to })
            &&& gives(
                told(v, VfsReply::Attributes(to_after), now, d),
                w,
                changed(from_before.ctime.seconds, from_after.ctime.seconds) + changed(
                    to_before.ctime.seconds,
                    to_after.ctime.seconds,
                ),
            )
            &&& gives(
                told(told(u, VfsReply::Failed(e), now, d), VfsReply::Failed(e), now, d),
                w,
                changed(from_before.ctime.seconds, from_before.ctime.seconds) + changed(
                    to_before.ctime.seconds,
                    to_before.ctime.seconds,
                ),
            )
        }),
{
    reveal(start);
    reveal(resumed);
    handles_read(w, from);
    handles_read(w, to);
    change_info(from_before.ctime.seconds, from_after.ctime.seconds);
    change_info(to_before.ctime.seconds, to_after.ctime.seconds);
    change_info(from_before.ctime.seconds, from_before.ctime.seconds);
    change_info(to_before.ctime.seconds, to_before.ctime.seconds);
}

/// RENAME needs two names, a saved and a current filehandle, and two directories.
pub proof fn rename_needs_two_directories<H>(
    w: World<H>,
    from: fileid4,
    to: fileid4,
    old_name: Seq<u8>,
    new_name: Seq<u8>,
    a: fattr3,
    b: fattr3,
    e: nfsstat3,
    now: u64,
    d: Draws,
)
    requires
        at(w, to),
        w.ctx.capabilities == VFSCapabilities::ReadWrite,
    ensures
        ({
            let x = start(w, ArgsView::Rename((old_name, new_name)), now, d);
            let y = told(x, VfsReply::Attributes(a), now, d);
            let z = told(y, VfsReply::Attributes(b), now, d);
            if old_name.len() == 0 || new_name.len() == 0 {
                refuses(x, w, nfsstat4::NFS4ERR_INVAL)
            } else {
                &&& w.cs.saved_fh is None ==> refuses(x, w, nfsstat4::NFS4ERR_NOFILEHANDLE)
                &&& w.cs.saved_fh == Some(handle_of(w.ctx.epoch, from)) ==> {
                    &&& refuses(told(x, VfsReply::Failed(e), now, d), w, status_of(e))
                    &&& !is_dir(a) ==> refuses(y, w, nfsstat4::NFS4ERR_NOTDIR)
                    &&& is_dir(a) ==> refuses(told(y, VfsReply::Failed(e), now, d), w, status_of(e))
                    &&& is_dir(a) && !is_dir(b) ==> refuses(z, w, nfsstat4::NFS4ERR_NOTDIR)
                }
            }
        }),
{
    reveal(start);
    reveal(resumed);
    handles_read(w, from);
    handles_read(w, to);
}

/// READLINK gives the target of the link that is the current filehandle.
pub proof fn readlink_gives_the_target<H>(
    w: World<H>,
    file: fileid4,
    a: fattr3,
    target: Seq<u8>,
    e: nfsstat3,
    now: u64,
    d: Draws,
)
    requires
        at(w, file),
    ensures
        ({
            let x = start(w, ArgsView::Readlink, now, d);
            let y = told(x, VfsReply::Attributes(a), now, d);
            &&& asks(x, VfsCall::Attributes { id: file })
            &&& refuses(told(x, VfsReply::Failed(e), now, d), w, status_of(e))
            &&& a.ftype != ftype3::NF3LNK ==> refuses(y, w, not_regular(a, nfsstat4::NFS4ERR_INVAL))
            &&& a.ftype == ftype3::NF3LNK ==> {
                &&& asks(y, VfsCall::Readlink { id: file })
                &&& gives(told(y, VfsReply::Target(target), now, d), w, Vec::<u8>::encode(target))
                &&& refuses(told(y, VfsReply::Failed(e), now, d), w, status_of(e))
            }
        }),
{
    reveal(start);
    reveal(resumed);
    handles_read(w, file);
}

// ---------------------------------------------------------------- GETATTR, ACCESS

/// GETATTR looks at the current file and gives what it has of the attributes that were
/// asked for, the filehandle among them.
pub proof fn getattr_gives_what_was_asked<H>(
    w: World<H>,
    file: fileid4,
    request: Seq<u32>,
    a: fattr3,
    e: nfsstat3,
    now: u64,
    d: Draws,
)
    requires
        at(w, file),
    ensures
        ({
            let x = start(w, ArgsView::Getattr(request), now, d);
            &&& asks(x, VfsCall::Attributes { id: file })
            &&& gives(
                told(x, VfsReply::Attributes(a), now, d),
                w,
                fattr4::encode(attrs_answered(a, handle_of(w.ctx.epoch, file), request)),
            )
            &&& refuses(told(x, VfsReply::Failed(e), now, d), w, status_of(e))
        }),
{
    reveal(start);
    reveal(resumed);
    handles_read(w, file);
}

/// An attribute is there if it is asked for, with this value.
pub open spec fn tells(m: Map<nat, AttrView>, request: Seq<u32>, bit: nat, v: AttrView) -> bool {
    is_set(request, bit) ==> m.contains_key(bit) && m[bit] == v
}

/// What a file has of the attributes that are asked for: each one that is asked for and
/// known, and no other. The filehandle is the one that was given, and the rest says what
/// the file system says.
pub proof fn attributes_say_what_the_file_system_says(a: fattr3, fh: Seq<u8>, request: Seq<u32>, bit: nat)
    ensures
        ({
            let m = attrs_answered(a, fh, request);
            &&& m.contains_key(bit) ==> is_set(request, bit)
            &&& tells(m, request, 0, AttrView::Bitmap(seq![0x0018_0fffu32, 0x0030_a23au32]))
            &&& tells(m, request, 1, AttrView::FileType(ftype_of(a.ftype)))
            &&& tells(m, request, 3, AttrView::Long(a.ctime.seconds as u64))
            &&& tells(m, request, 4, AttrView::Long(a.size))
            &&& tells(m, request, 8, AttrView::Fsid((a.fsid, 0u64)))
            &&& tells(m, request, 19, AttrView::Bytes(fh))
            &&& tells(m, request, 20, AttrView::Long(a.fileid))
            &&& tells(m, request, 33, AttrView::Word(a.mode))
            &&& tells(m, request, 35, AttrView::Word(a.nlink))
            &&& tells(m, request, 41, AttrView::Device((a.rdev.specdata1, a.rdev.specdata2)))
            &&& tells(m, request, 45, AttrView::Long(a.used))
            &&& tells(m, request, 47, AttrView::Time((a.atime.seconds as i64, a.atime.nseconds)))
            &&& tells(m, request, 52, AttrView::Time((a.ctime.seconds as i64, a.ctime.nseconds)))
            &&& tells(m, request, 53, AttrView::Time((a.mtime.seconds as i64, a.mtime.nseconds)))
            &&& m.contains_key(bit) ==> bit == 0 || bit == 1 || bit == 3 || bit == 4 || bit == 8 || bit == 19
                || bit == 20 || bit == 33 || bit == 35 || bit == 41 || bit == 45 || bit == 47 || bit == 52
                || bit == 53
        }),
{
    assert(seq![0x0018_0fffu32, 0x0030_a23au32] =~= supported());
}

/// ACCESS answers with what can be asked of a file of this kind and with what is granted,
/// of what the client asks: everything, but for changes to an export that is read-only.
/// Reading is bit 0, looking up bit 1, modifying bit 2, extending bit 3, deleting bit 4
/// and executing bit 5.
pub proof fn access_grants_all_but_changes<H>(
    w: World<H>,
    file: fileid4,
    access: u32,
    a: fattr3,
    e: nfsstat3,
    now: u64,
    d: Draws,
)
    requires
        at(w, file),
    ensures
        ({
            let x = start(w, ArgsView::Access(access), now, d);
            let y = told(x, VfsReply::Attributes(a), now, d);
            let supported: u32 = if is_dir(a) { 0x1f } else { 0x2d };
            let granted: u32 = if w.ctx.capabilities == VFSCapabilities::ReadWrite {
                supported
            } else if is_dir(a) {
                0x03
            } else {
                0x21
            };
            &&& asks(x, VfsCall::Attributes { id: file })
            &&& gives(y, w, be32(supported & access) + be32(granted & access))
            &&& refuses(told(x, VfsReply::Failed(e), now, d), w, status_of(e))
        }),
{
    reveal(start);
    reveal(resumed);
    handles_read(w, file);
    assert((1u32 | 2u32 | 4u32 | 8u32 | 16u32) == 0x1f && (1u32 | 4u32 | 8u32 | 32u32) == 0x2d && (0x1fu32 & !(4u32
        | 8u32 | 16u32)) == 0x03 && (0x2du32 & !(4u32 | 8u32 | 16u32)) == 0x21) by (bit_vector);
}

// ---------------------------------------------------------------- READDIR

/// The entries of a directory, one after the other: that there is one, its cookie, which
/// is the number of its file, its name, and the attributes that were asked for.
pub open spec fn entries_in_order(epoch: u32, entries: Seq<DirEntry<Seq<u8>>>, request: Seq<u32>) -> Seq<u8>
    decreases entries.len(),
{
    if entries.len() == 0 {
        Seq::empty()
    } else {
        let e = entries.last();
        entries_in_order(epoch, entries.drop_last(), request) + be32(1) + be64(e.fileid) + Vec::<u8>::encode(e.name)
            + fattr4::encode(attrs_answered(e.attr, handle_of(epoch, e.fileid), request))
    }
}

/// READDIR reads the current directory after the entry that the cookie names, up to 256
/// entries at a time.
pub proof fn readdir_goes_on_after_the_cookie<H>(
    w: World<H>,
    dir: fileid4,
    cookie: u64,
    verf: verifier4,
    dircount: u32,
    maxcount: u32,
    request: Seq<u32>,
    a: fattr3,
    listing: ListingView,
    e: nfsstat3,
    now: u64,
    d: Draws,
)
    requires
        at(w, dir),
    ensures
        ({
            let x = start(w, ArgsView::Readdir((cookie, (verf, (dircount, (maxcount, request))))), now, d);
            let y = told(x, VfsReply::Attributes(a), now, d);
            let z = told(y, VfsReply::Listing(listing), now, d);
            &&& asks(x, VfsCall::Attributes { id: dir })
            &&& refuses(told(x, VfsReply::Failed(e), now, d), w, status_of(e))
            &&& !is_dir(a) ==> refuses(y, w, nfsstat4::NFS4ERR_NOTDIR)
            &&& is_dir(a) && maxcount == 0 ==> refuses(y, w, nfsstat4::NFS4ERR_TOOSMALL)
            &&& is_dir(a) && maxcount != 0 ==> {
                &&& asks(y, VfsCall::Readdir { dir, start_after: cookie, max_entries: 256 })
                &&& refuses(told(y, VfsReply::Failed(e), now, d), w, status_of(e))
                &&& asks(z, VfsCall::FsInfo { id: w.ctx.root_dir })
                &&& refuses(told(z, VfsReply::Failed(e), now, d), w, status_of(e))
            }
        }),
{
    reveal(start);
    reveal(resumed);
    handles_read(w, dir);
}

/// READDIR gives as many of the entries, from the first one on and in their order, as the
/// client's budget holds, and says that the directory ends there only where it does. The
/// frame of the reply takes 20 bytes of the budget. Where it does not fit, or where there
/// are entries and not one fits, the budget is too small. Here `n` is how many fit.
pub proof fn readdir_gives_the_entries_that_fit<H>(
    w: World<H>,
    dir: fileid4,
    cookie: u64,
    verf: verifier4,
    dircount: u32,
    maxcount: u32,
    request: Seq<u32>,
    a: fattr3,
    listing: ListingView,
    n: int,
    now: u64,
    d: Draws,
)
    requires
        at(w, dir),
        is_dir(a),
        maxcount != 0,
        0 <= n <= listing.entries.len(),
        n > 0 ==> 20 + entries_in_order(w.ctx.epoch, listing.entries.take(n), request).len() <= maxcount,
        n < listing.entries.len() ==> 20 + entries_in_order(
            w.ctx.epoch,
            listing.entries.take(n + 1),
            request,
        ).len() > maxcount,
    ensures
        ({
            let x = start(w, ArgsView::Readdir((cookie, (verf, (dircount, (maxcount, request))))), now, d);
            let y = told(x, VfsReply::Attributes(a), now, d);
            let z = told(y, VfsReply::Listing(listing), now, d);
            let v = told(z, VfsReply::Done, now, d);
            if maxcount < 20 || listing.entries.len() > 0 && n == 0 {
                refuses(v, w, nfsstat4::NFS4ERR_TOOSMALL)
            } else {
                gives(
                    v,
                    w,
                    be64(0) + entries_in_order(w.ctx.epoch, listing.entries.take(n), request) + be32(0) + be32(
                        if listing.end && n == listing.entries.len() { 1 } else { 0 },
                    ),
                )
            }
        }),
{
    reveal(start);
    reveal(resumed);
    handles_read(w, dir);
    let entries = listing.entries;
    fitting_takes_the_first(w.ctx.epoch, entries, request, 20, maxcount as int, n);
    assert(entries.take(0) =~= Seq::empty());
    if n > 0 {
        let m = entries.take(n);
        assert(entries_in_order(w.ctx.epoch, m, request).len() >= 4);
    }
    assert(be64(0) =~= zeros(8)) by {
        reveal(be32);
    }
}

proof fn entries_from_the_front(epoch: u32, entries: Seq<DirEntry<Seq<u8>>>, request: Seq<u32>)
    requires
        entries.len() > 0,
    ensures
        entries_in_order(epoch, entries, request) == entry_bytes(epoch, entries.first(), request) + entries_in_order(
            epoch,
            entries.drop_first(),
            request,
        ),
    decreases entries.len(),
{
    let e = entries.last();
    if entries.len() == 1 {
        assert(entries.drop_last() =~= Seq::empty());
        assert(entries.drop_first() =~= Seq::empty());
        assert(entries_in_order(epoch, entries.drop_last(), request) =~= Seq::empty());
        assert(entries_in_order(epoch, entries, request) =~= entry_bytes(epoch, e, request));
        assert(entry_bytes(epoch, e, request) + Seq::<u8>::empty() =~= entry_bytes(epoch, e, request));
    } else {
        entries_from_the_front(epoch, entries.drop_last(), request);
        assert(entries.drop_last().drop_first() =~= entries.drop_first().drop_last());
        let head = entry_bytes(epoch, entries.first(), request);
        let mid = entries_in_order(epoch, entries.drop_first().drop_last(), request);
        let attrs = fattr4::encode(attrs_answered(e.attr, handle_of(epoch, e.fileid), request));
        assert(head + mid + be32(1) + be64(e.fileid) + Vec::<u8>::encode(e.name) + attrs =~= head + (mid + be32(1)
            + be64(e.fileid) + Vec::<u8>::encode(e.name) + attrs));
    }
}

proof fn fitting_takes_the_first(
    epoch: u32,
    entries: Seq<DirEntry<Seq<u8>>>,
    request: Seq<u32>,
    used: int,
    budget: int,
    n: int,
)
    requires
        0 <= n <= entries.len(),
        n > 0 ==> used + entries_in_order(epoch, entries.take(n), request).len() <= budget,
        n < entries.len() ==> used + entries_in_order(epoch, entries.take(n + 1), request).len() > budget,
    ensures
        fitting(epoch, entries, request, used, budget) == (
            entries_in_order(epoch, entries.take(n), request),
            n < entries.len(),
        ),
    decreases entries.len(),
{
    if entries.len() == 0 {
        assert(entries.take(n) =~= Seq::empty());
    } else {
        let e = entry_bytes(epoch, entries.first(), request);
        let rest = entries.drop_first();
        if n > 0 {
            entries_from_the_front(epoch, entries.take(n), request);
            assert(entries.take(n).drop_first() =~= rest.take(n - 1));
            assert(entries.take(n).first() == entries.first());
            if n < entries.len() {
                entries_from_the_front(epoch, entries.take(n + 1), request);
                assert(entries.take(n + 1).drop_first() =~= rest.take(n));
                assert(entries.take(n + 1).first() == entries.first());
            }
            fitting_takes_the_first(epoch, rest, request, used + e.len(), budget, n - 1);
        } else {
            entries_from_the_front(epoch, entries.take(1), request);
            assert(entries.take(1).drop_first() =~= Seq::empty());
            assert(entries.take(1).first() == entries.first());
            assert(entries.take(0) =~= Seq::empty());
            assert(e + Seq::<u8>::empty() =~= e);
        }
    }
}

// ---------------------------------------------------------------- SETATTR

/// SETATTR sets the size and the mode that were given, and nothing else, and answers with
/// the bitmap of what it set. Any other attribute cannot be set. A size needs a stateid
/// that carries write access. Every answer ends in a bitmap, which is empty where nothing
/// was set.
pub proof fn setattr_sets_size_and_mode<H>(
    w: World<H>,
    file: fileid4,
    sid: stateid4,
    size: Option<u64>,
    mode: Option<u32>,
    attrs: Map<nat, AttrView>,
    e: nfsstat3,
    now: u64,
    d: Draws,
)
    requires
        at(w, file),
        w.ctx.capabilities == VFSCapabilities::ReadWrite,
        forall|bit: nat| #[trigger] attrs.contains_key(bit) <==> (bit == 4 && size is Some
            || bit == 33 && mode is Some),
        size is Some ==> attrs[4] == AttrView::Long(size->0),
        mode is Some ==> attrs[33] == AttrView::Word(mode->0),
        size is Some ==> w.ctx.client_id is Some && (w.st.resolve(sid) matches Ok(r) && match r {
            ResolvedView::Open { fileid, mode: m, .. } => fileid == file && m == OpenMode::ReadWrite,
            _ => true,
        }),
    ensures
        ({
            let x = start(w, ArgsView::Setattr((sid.model(), attrs)), now, d);
            let low: u32 = if size is Some { 0x10 } else { 0 };
            let set = if mode is Some {
                be32(2) + be32(low) + be32(2)
            } else if size is Some {
                be32(1) + be32(low)
            } else {
                be32(0)
            };
            &&& asks(x, VfsCall::Setattr { id: file, attr: sattr3 { mode, uid: None, gid: None, size } })
            &&& gives(told(x, VfsReply::Done, now, d), w, set)
            &&& told(x, VfsReply::Failed(e), now, d) == (
                w,
                StepView::<H>::Done(status_of(e), be32(status_of(e).number()) + be32(0)),
            )
        }),
{
    reveal(start);
    reveal(resumed);
    handles_read(w, file);
    settable(attrs, 0);
    settings_mask(attrs);
    let low: u32 = if size is Some { 0x10 } else { 0 };
    two_words(low, 2);
    one_word(low);
    no_words();
    assert(be32(0) + (be32(2) + be32(low) + be32(2)) =~= be32(0) + be32(2) + be32(low) + be32(2));
}

/// SETATTR of an attribute that cannot be set sets nothing.
pub proof fn setattr_refuses_other_attributes<H>(
    w: World<H>,
    file: fileid4,
    sid: stateid4,
    attrs: Map<nat, AttrView>,
    bit: nat,
    now: u64,
    d: Draws,
)
    requires
        at(w, file),
        w.ctx.capabilities == VFSCapabilities::ReadWrite,
        bit < 56,
        bit != 4,
        bit != 33,
        attrs.contains_key(bit),
        !attrs.contains_key(4),
    ensures
        start(w, ArgsView::Setattr((sid.model(), attrs)), now, d) == (
            w,
            StepView::<H>::Done(
                nfsstat4::NFS4ERR_ATTRNOTSUPP,
                be32(nfsstat4::NFS4ERR_ATTRNOTSUPP.number()) + be32(0),
            ),
        ),
{
    reveal(start);
    handles_read(w, file);
    unsettable(attrs, 0, bit);
    no_words();
}

/// A size that is set through a stateid which does not resolve, is of another file or
/// does not carry write access is refused, and nothing is set.
pub proof fn a_size_needs_write_access<H>(
    w: World<H>,
    file: fileid4,
    sid: stateid4,
    attrs: Map<nat, AttrView>,
    now: u64,
    d: Draws,
)
    requires
        at(w, file),
        w.ctx.capabilities == VFSCapabilities::ReadWrite,
        attrs.contains_key(4),
    ensures
        ({
            let x = start(w, ArgsView::Setattr((sid.model(), attrs)), now, d);
            let ended = |status: nfsstat4|
                x == (w, StepView::<H>::Done(status, be32(status.number()) + be32(0)));
            &&& w.ctx.client_id is None ==> ended(nfsstat4::NFS4ERR_BAD_STATEID)
            &&& w.ctx.client_id is Some ==> match w.st.resolve(sid) {
                Err(e) => ended(e),
                Ok(ResolvedView::Open { fileid, mode, .. }) => {
                    &&& fileid != file ==> ended(nfsstat4::NFS4ERR_BAD_STATEID)
                    &&& fileid == file && mode == OpenMode::ReadOnly ==> ended(nfsstat4::NFS4ERR_OPENMODE)
                },
                Ok(_) => true,
            }
        }),
{
    reveal(start);
    handles_read(w, file);
    no_words();
}

proof fn settable(m: Map<nat, AttrView>, bit: nat)
    requires
        forall|b: nat| #[trigger] m.contains_key(b) ==> b == 4 || b == 33,
    ensures
        first_unsettable(m, bit) is None,
    decreases 56 - bit,
{
    if bit < 56 {
        settable(m, bit + 1);
    }
}

proof fn unsettable(m: Map<nat, AttrView>, from: nat, bit: nat)
    requires
        from <= bit < 56,
        bit != 4,
        bit != 33,
        m.contains_key(bit),
    ensures
        first_unsettable(m, from) is Some,
    decreases 56 - from,
{
    if from < bit {
        unsettable(m, from + 1, bit);
    }
}

// ---------------------------------------------------------------- filehandles

/// PUTROOTFH goes to the root of the export, PUTFH to what the handle names, SAVEFH and
/// RESTOREFH keep and bring back, and GETFH tells where the client is.
pub proof fn filehandles_go_where_they_say<H>(w: World<H>, file: fileid4, now: u64, d: Draws)
    requires
        w.cs.minorversion == 0 || w.cs.session is Some,
    ensures
        ({
            let root = handle_of(w.ctx.epoch, w.ctx.root_dir);
            let fh = handle_of(w.ctx.epoch, file);
            &&& gives(start(w, ArgsView::PutRootFh, now, d), with_fh(w, Some(root)), Seq::empty())
            &&& gives(start(w, ArgsView::PutFh(fh), now, d), with_fh(w, Some(fh)), Seq::empty())
            &&& match w.cs.current_fh {
                Some(here) => {
                    &&& gives(start(w, ArgsView::GetFh, now, d), w, Vec::<u8>::encode(here))
                    &&& gives(
                        start(w, ArgsView::SaveFh, now, d),
                        World { cs: CompoundView { saved_fh: Some(here), ..w.cs }, ..w },
                        Seq::empty(),
                    )
                },
                None => {
                    &&& refuses(start(w, ArgsView::GetFh, now, d), w, nfsstat4::NFS4ERR_NOFILEHANDLE)
                    &&& refuses(start(w, ArgsView::SaveFh, now, d), w, nfsstat4::NFS4ERR_NOFILEHANDLE)
                },
            }
            &&& match w.cs.saved_fh {
                Some(there) => gives(
                    start(w, ArgsView::RestoreFh, now, d),
                    with_fh(w, Some(there)),
                    Seq::empty(),
                ),
                None => refuses(start(w, ArgsView::RestoreFh, now, d), w, nfsstat4::NFS4ERR_RESTOREFH),
            }
        }),
{
    reveal(start);
    handles_read(w, file);
}

/// PUTFH refuses what is no handle: bytes of another length, or whose two halves of the
/// epoch differ, are bad, and a handle of another boot is stale.
pub proof fn putfh_refuses_foreign_handles<H>(
    w: World<H>,
    epoch: u32,
    file: fileid4,
    bytes: Seq<u8>,
    now: u64,
    d: Draws,
)
    requires
        w.cs.minorversion == 0 || w.cs.session is Some,
        epoch != w.ctx.epoch,
        bytes.len() != 16 || bytes.subrange(0, 4) != bytes.subrange(4, 8),
    ensures
        refuses(
            start(w, ArgsView::PutFh(handle_of(epoch, file)), now, d),
            w,
            nfsstat4::NFS4ERR_STALE,
        ),
        refuses(start(w, ArgsView::PutFh(bytes), now, d), w, nfsstat4::NFS4ERR_BADHANDLE),
{
    reveal(start);
    crate::nfs::a_handle_of_another_boot_is_stale(w.ctx.epoch, epoch, file);
    if bytes.len() == 16 {
        crate::nfs::words_differ(bytes);
    }
}

/// Operations that work on the current file.
pub open spec fn on_current_file(args: ArgsView) -> bool {
    match args {
        ArgsView::Getattr(_) => true,
        ArgsView::Access(_) => true,
        ArgsView::Lookup(_) => true,
        ArgsView::Readdir(_) => true,
        ArgsView::Read(_) => true,
        ArgsView::Write(_) => true,
        ArgsView::Remove(_) => true,
        ArgsView::Create(_) => true,
        ArgsView::Readlink => true,
        ArgsView::Commit(_) => true,
        ArgsView::Secinfo(_) => true,
        ArgsView::SecinfoNoName(_) => true,
        _ => false,
    }
}

/// The name that an operation is given, where it is given one.
pub open spec fn name_in(args: ArgsView) -> Option<Seq<u8>> {
    match args {
        ArgsView::Lookup(name) => Some(name),
        ArgsView::Remove(name) => Some(name),
        ArgsView::Create((_, (name, _))) => Some(name),
        ArgsView::Secinfo(name) => Some(name),
        _ => None,
    }
}

/// Operations that change the export.
pub open spec fn changes_the_export(args: ArgsView) -> bool {
    match args {
        ArgsView::Write(_) => true,
        ArgsView::Remove(_) => true,
        ArgsView::Create(_) => true,
        ArgsView::Rename(_) => true,
        _ => false,
    }
}

/// An operation on the current file needs a current filehandle.
pub proof fn files_need_a_filehandle<H>(w: World<H>, args: ArgsView, now: u64, d: Draws)
    requires
        w.cs.minorversion == 0 || w.cs.session is Some,
        w.cs.current_fh is None,
        w.ctx.capabilities == VFSCapabilities::ReadWrite,
        on_current_file(args),
        name_in(args) matches Some(name) ==> name.len() > 0,
    ensures
        refuses(start(w, args, now, d), w, nfsstat4::NFS4ERR_NOFILEHANDLE),
{
    reveal(start);
}

/// An operation on the current file looks at that file before anything else, and changes
/// nothing until then.
pub proof fn files_are_looked_at_first<H>(w: World<H>, file: fileid4, args: ArgsView, now: u64, d: Draws)
    requires
        at(w, file),
        on_current_file(args),
        start(w, args, now, d).1 is Ask,
    ensures
        start(w, args, now, d).0 == w,
        asks(start(w, args, now, d), VfsCall::Attributes { id: file }),
{
    reveal(start);
    handles_read(w, file);
}

/// In 4.1, an operation that needs a session says so where there is none, and touches
/// nothing.
pub proof fn a_session_is_asked_for<H>(
    w: World<H>,
    args: ArgsView,
    sid: stateid4,
    attrs: Map<nat, AttrView>,
    now: u64,
    d: Draws,
)
    requires
        w.cs.minorversion != 0,
        w.cs.session is None,
    ensures
        needs_session(args) && !(args is Setattr) ==> refuses(
            start(w, args, now, d),
            w,
            nfsstat4::NFS4ERR_OP_NOT_IN_SESSION,
        ),
        start(w, ArgsView::Setattr((sid.model(), attrs)), now, d) == (
            w,
            StepView::<H>::Done(
                nfsstat4::NFS4ERR_OP_NOT_IN_SESSION,
                be32(nfsstat4::NFS4ERR_OP_NOT_IN_SESSION.number()) + be32(0),
            ),
        ),
{
    reveal(start);
    no_words();
}

/// Whatever is asked, an answer of another kind is a fault of the server, and a failure is
/// passed on.
pub proof fn answers_are_of_the_kind_that_was_asked<H>(r: ReplyView<H>, e: nfsstat3)
    ensures
        !(r is Attributes) && !(r is Failed) ==> attrs_in(r) == Err::<fattr3, nfsstat4>(nfsstat4::NFS4ERR_SERVERFAULT),
        !(r is File) && !(r is Failed) ==> file_found(r) == Err::<fileid4, nfsstat4>(nfsstat4::NFS4ERR_SERVERFAULT),
        !(r is Done) && !(r is Failed) ==> was_done(r) == Err::<(), nfsstat4>(nfsstat4::NFS4ERR_SERVERFAULT),
        !(r is Handle) && !(r is Failed) ==> handle_in(r) == Err::<H, nfsstat4>(nfsstat4::NFS4ERR_SERVERFAULT),
        attrs_in::<H>(VfsReply::Failed(e)) == Err::<fattr3, nfsstat4>(status_of(e)),
        file_found::<H>(VfsReply::Failed(e)) == Err::<fileid4, nfsstat4>(status_of(e)),
        was_done::<H>(VfsReply::Failed(e)) == Err::<(), nfsstat4>(status_of(e)),
        handle_in::<H>(VfsReply::Failed(e)) == Err::<H, nfsstat4>(status_of(e)),
{
}

/// Nothing changes an export that is read-only.
pub proof fn a_read_only_export_is_not_changed<H>(
    w: World<H>,
    file: fileid4,
    args: ArgsView,
    sid: stateid4,
    attrs: Map<nat, AttrView>,
    now: u64,
    d: Draws,
)
    requires
        at(w, file),
        w.ctx.capabilities == VFSCapabilities::ReadOnly,
    ensures
        changes_the_export(args) ==> refuses(start(w, args, now, d), w, nfsstat4::NFS4ERR_ROFS),
        start(w, ArgsView::Setattr((sid.model(), attrs)), now, d) == (
            w,
            StepView::<H>::Done(nfsstat4::NFS4ERR_ROFS, be32(nfsstat4::NFS4ERR_ROFS.number()) + be32(0)),
        ),
{
    reveal(start);
    handles_read(w, file);
    no_words();
}

/// An answer of the file system that is no answer to what was asked is its fault, and
/// fails the operation.
pub proof fn a_stray_answer_is_a_fault<H>(
    w: World<H>,
    file: fileid4,
    args: ArgsView,
    r: ReplyView<H>,
    now: u64,
    d: Draws,
)
    requires
        at(w, file),
        on_current_file(args),
        start(w, args, now, d).1 is Ask,
        !(r is Attributes) && !(r is Failed),
    ensures
        refuses(told(start(w, args, now, d), r, now, d), w, nfsstat4::NFS4ERR_SERVERFAULT),
{
    reveal(start);
    reveal(resumed);
    handles_read(w, file);
}

// ---------------------------------------------------------------- small parts

proof fn change_info(before: u32, after: u32)
    ensures
        crate::nfs4::args::change_info4::encode((false, (before as u64, after as u64))) == changed(before, after),
{
    assert(crate::nfs4::args::change_info4::encode((false, (before as u64, after as u64))) =~= changed(before, after));
}

proof fn two_words(a: u32, b: u32)
    ensures
        Vec::<u32>::encode(seq![a, b]) == be32(2) + be32(a) + be32(b),
{
    let s = seq![a, b];
    assert(s.drop_last() =~= seq![a]);
    assert(seq![a].drop_last() =~= Seq::<u32>::empty());
    assert(s.drop_first() =~= seq![b]);
    assert(seq![b].drop_first() =~= Seq::<u32>::empty());
    reveal_with_fuel(crate::xdr::encode_items, 3);
    assert(Vec::<u32>::encode(s) =~= be32(2) + be32(a) + be32(b));
}

proof fn one_word(a: u32)
    ensures
        Vec::<u32>::encode(seq![a]) == be32(1) + be32(a),
{
    let s = seq![a];
    assert(s.drop_first() =~= Seq::<u32>::empty());
    reveal_with_fuel(crate::xdr::encode_items, 2);
    assert(Vec::<u32>::encode(s) =~= be32(1) + be32(a));
}

proof fn no_words()
    ensures
        Vec::<u32>::encode(Seq::empty()) == be32(0),
{
    reveal_with_fuel(crate::xdr::encode_items, 1);
    assert(Vec::<u32>::encode(Seq::empty()) =~= be32(0));
}

} // verus!
