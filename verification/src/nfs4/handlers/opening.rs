//! What OPEN is for: which file it opens, how, and what the client gets. Every law speaks
//! of an OPEN from its arguments on.

use vstd::prelude::*;

use crate::nfs::handle_of;
use crate::nfs3::{fattr3, ftype3, nfsstat3};
use crate::nfs4::args::{OpenClaimView, OpenFlagView};
use crate::nfs4::compound::{StepView, World};
use crate::nfs4::handlers::conduct::{asks, at, changed, gives, handles_read, is_dir, refuses, told, with_fh};
use crate::nfs4::handlers::session_ops::Draws;
use crate::nfs4::handlers::{resumed, start, ArgsView};
use crate::nfs4::state_spec::{bumped, KindView, OpenView, Other, OwnerSeq, OwnerSeqid, StateView};
use crate::nfs4::{clientid4, fileid4, nfsstat4, seqid4, stateid4, status_of};
use crate::vfs::{OpenMode, VFSCapabilities, VfsCall, VfsReply};
use crate::word::{be32, be32_len};
use crate::xdr::{be64, XDR};

verus! {

broadcast use be32_len;

/// An OPEN of a name, or of what the claim says.
pub open spec fn open_of(
    seqid: seqid4,
    access: u32,
    deny: u32,
    cid: clientid4,
    owner: Seq<u8>,
    how: OpenFlagView,
    claim: OpenClaimView,
) -> ArgsView {
    ArgsView::Open((seqid, (access, (deny, ((cid, owner), (how, claim))))))
}

/// The OPEN asks for some access, and for no more than the export gives.
pub open spec fn may_open<H>(w: World<H>, access: u32, how: OpenFlagView) -> bool {
    &&& access & 3 != 0
    &&& w.ctx.capabilities == VFSCapabilities::ReadWrite || access & 2 == 0 && how is OPEN4_NOCREATE
}

/// How the file is opened: for writing too where the client writes or may create.
pub open spec fn mode_of(access: u32, how: OpenFlagView) -> OpenMode {
    if access & 2 != 0 || how is OPEN4_CREATE {
        OpenMode::ReadWrite
    } else {
        OpenMode::ReadOnly
    }
}

/// The result of an OPEN: the stateid, how the directory changed, the flags, no attributes
/// that were set, and no delegation.
pub open spec fn open_result(seqid: u32, other: Other, change: Seq<u8>, rflags: u32) -> Seq<u8> {
    be32(seqid) + other@ + change + be32(rflags) + be32(0) + be32(0)
}

/// A 4.1 client that lives, is confirmed, and has heard of just now.
pub open spec fn v41_client<H>(st: StateView<H>, cid: clientid4, now: u64) -> bool {
    &&& st.client_status(cid, now) is Ok
    &&& st.clients[cid].kind matches KindView::V41 { sessions, .. } && sessions.len() > 0
}

proof fn write_bit(access: u32)
    ensures
        ((access & 3) & 2 != 0) == (access & 2 != 0),
        access & 2 != 0 ==> access & 3 != 0,
{
    assert(((access & 3) & 2) == (access & 2) && (access & 2 != 0 ==> access & 3 != 0)) by (bit_vector);
}

proof fn result_bytes(seqid: u32, other: Other, before: u64, after: u64, rflags: u32)
    ensures
        crate::nfs4::args::OPEN4resok::encode(
            ((seqid, other), ((false, (before, after)), (rflags, (Seq::<u32>::empty(), 0u32)))),
        ) == open_result(seqid, other, be32(0) + be64(before) + be64(after), rflags),
{
    reveal_with_fuel(crate::xdr::encode_items, 1);
    let none = Vec::<u32>::encode(Seq::empty());
    assert(none =~= be32(0));
    assert(crate::nfs4::args::OPEN4resok::encode(
        ((seqid, other), ((false, (before, after)), (rflags, (Seq::<u32>::empty(), 0u32)))),
    ) =~= be32(seqid) + other@ + (be32(0) + be64(before) + be64(after)) + be32(rflags) + none + be32(0));
}

// ---------------------------------------------------------------- which file

/// OPEN of a name looks the name up in the current directory. Where the file is there, the
/// OPEN goes on with that file, whether or not it may create: every way to create takes a
/// file that is already there.
pub proof fn open_goes_on_with_the_file_that_is_there<H>(
    w: World<H>,
    dir: fileid4,
    seqid: seqid4,
    access: u32,
    deny: u32,
    cid: clientid4,
    owner: Seq<u8>,
    how: OpenFlagView,
    name: Seq<u8>,
    before: fattr3,
    file: fileid4,
    now: u64,
    d: Draws,
)
    requires
        at(w, dir),
        may_open(w, access, how),
        name.len() > 0,
        is_dir(before),
    ensures
        ({
            let x = start(w, open_of(seqid, access, deny, cid, owner, how, OpenClaimView::CLAIM_NULL(name)), now, d);
            let y = told(x, VfsReply::Attributes(before), now, d);
            let z = told(y, VfsReply::File(file), now, d);
            &&& x.0 == w
            &&& asks(x, VfsCall::Attributes { id: dir })
            &&& y.0 == w
            &&& asks(y, VfsCall::Lookup { dir, name })
            &&& z.0 == w
            &&& asks(z, VfsCall::Attributes { id: file })
        }),
{
    reveal(start);
    reveal(resumed);
    handles_read(w, dir);
    write_bit(access);
}

/// Where the file is not there and the OPEN may create, it makes the file under that name
/// in that directory, looks at the directory again, and goes on with the file that was
/// made, whether or not the directory could be looked at.
pub proof fn open_makes_the_file_that_is_not_there<H>(
    w: World<H>,
    dir: fileid4,
    seqid: seqid4,
    access: u32,
    deny: u32,
    cid: clientid4,
    owner: Seq<u8>,
    how: OpenFlagView,
    name: Seq<u8>,
    before: fattr3,
    file: fileid4,
    after: fattr3,
    e: nfsstat3,
    now: u64,
    d: Draws,
)
    requires
        at(w, dir),
        may_open(w, access, how),
        how is OPEN4_CREATE,
        name.len() > 0,
        is_dir(before),
    ensures
        ({
            let x = start(w, open_of(seqid, access, deny, cid, owner, how, OpenClaimView::CLAIM_NULL(name)), now, d);
            let y = told(x, VfsReply::Attributes(before), now, d);
            let z = told(y, VfsReply::Failed(nfsstat3::NFS3ERR_NOENT), now, d);
            let u = told(z, VfsReply::File(file), now, d);
            &&& z.0 == w
            &&& asks(z, VfsCall::Create { dir, name })
            &&& u.0 == w
            &&& asks(u, VfsCall::Getattr { id: dir })
            &&& told(u, VfsReply::Attributes(after), now, d).0 == w
            &&& asks(told(u, VfsReply::Attributes(after), now, d), VfsCall::Attributes { id: file })
            &&& asks(told(u, VfsReply::Failed(e), now, d), VfsCall::Attributes { id: file })
        }),
{
    reveal(start);
    reveal(resumed);
    handles_read(w, dir);
    write_bit(access);
}

/// In 4.1, an OPEN that fails before the open state is asked says why and changes nothing:
/// where the file is not there and it may not create, where the directory or the file
/// cannot be looked at, where the directory is none, where the name is empty, where the
/// file is a directory or no regular file.
pub proof fn a_41_open_that_fails_changes_nothing<H>(
    w: World<H>,
    dir: fileid4,
    seqid: seqid4,
    access: u32,
    deny: u32,
    cid: clientid4,
    owner: Seq<u8>,
    how: OpenFlagView,
    name: Seq<u8>,
    a: fattr3,
    file: fileid4,
    b: fattr3,
    e: nfsstat3,
    now: u64,
    d: Draws,
)
    requires
        at(w, dir),
        w.cs.minorversion != 0,
        may_open(w, access, how),
    ensures
        ({
            let x = start(w, open_of(seqid, access, deny, cid, owner, how, OpenClaimView::CLAIM_NULL(name)), now, d);
            let y = told(x, VfsReply::Attributes(a), now, d);
            let z = told(y, VfsReply::File(file), now, d);
            let none = told(y, VfsReply::Failed(e), now, d);
            let made = told(y, VfsReply::Failed(nfsstat3::NFS3ERR_NOENT), now, d);
            &&& refuses(told(x, VfsReply::Failed(e), now, d), w, status_of(e))
            &&& !is_dir(a) ==> refuses(y, w, nfsstat4::NFS4ERR_NOTDIR)
            &&& is_dir(a) && name.len() == 0 ==> refuses(y, w, nfsstat4::NFS4ERR_INVAL)
            &&& is_dir(a) && name.len() > 0 ==> {
                &&& how is OPEN4_NOCREATE || status_of(e) != nfsstat4::NFS4ERR_NOENT ==> refuses(
                    none,
                    w,
                    status_of(e),
                )
                &&& how is OPEN4_CREATE ==> refuses(told(made, VfsReply::Failed(e), now, d), w, status_of(e))
                &&& refuses(told(z, VfsReply::Failed(e), now, d), w, status_of(e))
                &&& is_dir(b) ==> refuses(told(z, VfsReply::Attributes(b), now, d), w, nfsstat4::NFS4ERR_ISDIR)
                &&& !is_dir(b) && b.ftype != ftype3::NF3REG ==> refuses(
                    told(z, VfsReply::Attributes(b), now, d),
                    w,
                    nfsstat4::NFS4ERR_SYMLINK,
                )
            }
        }),
{
    reveal(start);
    reveal(resumed);
    handles_read(w, dir);
    write_bit(access);
}

/// An OPEN that asks for no access is invalid, one that would change a read-only export is
/// refused, and of the claims only a name and the current filehandle are taken: nothing can
/// be reclaimed, and there are no delegations.
pub proof fn open_takes_two_claims<H>(
    w: World<H>,
    file: fileid4,
    seqid: seqid4,
    access: u32,
    deny: u32,
    cid: clientid4,
    owner: Seq<u8>,
    how: OpenFlagView,
    claim: OpenClaimView,
    now: u64,
    d: Draws,
)
    requires
        at(w, file),
        w.cs.minorversion != 0,
    ensures
        ({
            let x = start(w, open_of(seqid, access, deny, cid, owner, how, claim), now, d);
            if access & 3 == 0 {
                refuses(x, w, nfsstat4::NFS4ERR_INVAL)
            } else if !may_open(w, access, how) {
                refuses(x, w, nfsstat4::NFS4ERR_ROFS)
            } else {
                match claim {
                    OpenClaimView::CLAIM_NULL(_) => asks(x, VfsCall::Attributes { id: file }),
                    OpenClaimView::CLAIM_FH => if how is OPEN4_CREATE {
                        refuses(x, w, nfsstat4::NFS4ERR_INVAL)
                    } else {
                        asks(x, VfsCall::Attributes { id: file })
                    },
                    OpenClaimView::CLAIM_PREVIOUS(_) => refuses(x, w, nfsstat4::NFS4ERR_NO_GRACE),
                    _ => refuses(x, w, nfsstat4::NFS4ERR_NOTSUPP),
                }
            }
        }),
{
    reveal(start);
    handles_read(w, file);
    write_bit(access);
}

// ---------------------------------------------------------------- its state

/// The first OPEN of a file by a 4.1 open-owner asks for a handle in the mode that was
/// asked for, and keeps it under a new stateid. The file becomes the current filehandle,
/// and the client's lease is renewed.
pub proof fn a_first_open_makes_a_state<H>(
    w: World<H>,
    dir: fileid4,
    seqid: seqid4,
    access: u32,
    deny: u32,
    cid: clientid4,
    owner: Seq<u8>,
    how: OpenFlagView,
    name: Seq<u8>,
    before: fattr3,
    file: fileid4,
    a: fattr3,
    fh: H,
    other: Other,
    e: nfsstat3,
    now: u64,
    d: Draws,
)
    requires
        at(w, dir),
        w.cs.minorversion != 0,
        may_open(w, access, how),
        name.len() > 0,
        is_dir(before),
        a.ftype == ftype3::NF3REG,
        w.st.lease > 0,
        v41_client(w.st, cid, now),
        !w.st.open_index.contains_key((cid, owner, file)),
        d.other == Ok::<Other, nfsstat4>(other),
    ensures
        ({
            let x = start(w, open_of(seqid, access, deny, cid, owner, how, OpenClaimView::CLAIM_NULL(name)), now, d);
            let y = told(x, VfsReply::Attributes(before), now, d);
            let z = told(y, VfsReply::File(file), now, d);
            let u = told(z, VfsReply::Attributes(a), now, d);
            let v = told(u, VfsReply::Handle(fh), now, d);
            let mode = mode_of(access, how);
            let state = OpenView { clientid: cid, owner, fileid: file, seqid: 1, mode, fh };
            let t = v.0.st;
            &&& asks(u, VfsCall::Open { id: file, mode })
            &&& refuses(told(u, VfsReply::Failed(e), now, d), u.0, status_of(e))
            &&& gives(
                v,
                World { st: t, ..with_fh(w, Some(handle_of(w.ctx.epoch, file))) },
                open_result(1, other, changed(before.ctime.seconds, before.ctime.seconds), 0),
            )
            &&& t.opens == w.st.opens.insert(other, state)
            &&& t.open_index == w.st.open_index.insert((cid, owner, file), other)
            &&& t.clients[cid].last_renewed == now
            &&& t.sessions == w.st.sessions
            &&& t.retired == w.st.retired
        }),
{
    reveal(start);
    reveal(resumed);
    handles_read(w, dir);
    write_bit(access);
    result_bytes(1, other, before.ctime.seconds as u64, before.ctime.seconds as u64, 0);
}

/// An OPEN of the file that is the current filehandle gives a state of that file. No
/// directory changed.
pub proof fn an_open_by_handle_opens_that_file<H>(
    w: World<H>,
    file: fileid4,
    seqid: seqid4,
    access: u32,
    deny: u32,
    cid: clientid4,
    owner: Seq<u8>,
    a: fattr3,
    fh: H,
    other: Other,
    now: u64,
    d: Draws,
)
    requires
        at(w, file),
        w.cs.minorversion != 0,
        may_open(w, access, OpenFlagView::OPEN4_NOCREATE),
        a.ftype == ftype3::NF3REG,
        w.st.lease > 0,
        v41_client(w.st, cid, now),
        !w.st.open_index.contains_key((cid, owner, file)),
        d.other == Ok::<Other, nfsstat4>(other),
    ensures
        ({
            let how = OpenFlagView::OPEN4_NOCREATE;
            let x = start(w, open_of(seqid, access, deny, cid, owner, how, OpenClaimView::CLAIM_FH), now, d);
            let u = told(x, VfsReply::Attributes(a), now, d);
            let v = told(u, VfsReply::Handle(fh), now, d);
            let mode = mode_of(access, how);
            let state = OpenView { clientid: cid, owner, fileid: file, seqid: 1, mode, fh };
            &&& asks(x, VfsCall::Attributes { id: file })
            &&& asks(u, VfsCall::Open { id: file, mode })
            &&& gives(v, World { st: v.0.st, ..w }, open_result(1, other, changed(0, 0), 0))
            &&& v.0.st.opens == w.st.opens.insert(other, state)
        }),
{
    reveal(start);
    reveal(resumed);
    handles_read(w, file);
    write_bit(access);
    result_bytes(1, other, 0, 0, 0);
}

/// An OPEN of a file that its open-owner has open in a mode that serves is done at once:
/// the stateid is the one that the owner has, with the next seqid.
pub proof fn an_open_of_an_open_file_needs_no_handle<H>(
    w: World<H>,
    file: fileid4,
    seqid: seqid4,
    access: u32,
    deny: u32,
    cid: clientid4,
    owner: Seq<u8>,
    a: fattr3,
    now: u64,
    d: Draws,
)
    requires
        at(w, file),
        w.cs.minorversion != 0,
        may_open(w, access, OpenFlagView::OPEN4_NOCREATE),
        a.ftype == ftype3::NF3REG,
        w.st.lease > 0,
        v41_client(w.st, cid, now),
        w.st.open_index.contains_key((cid, owner, file)),
        ({
            let mode = w.st.opens[w.st.open_index[(cid, owner, file)]].mode;
            mode == OpenMode::ReadWrite || access & 2 == 0
        }),
    ensures
        ({
            let how = OpenFlagView::OPEN4_NOCREATE;
            let x = start(w, open_of(seqid, access, deny, cid, owner, how, OpenClaimView::CLAIM_FH), now, d);
            let u = told(x, VfsReply::Attributes(a), now, d);
            let other = w.st.open_index[(cid, owner, file)];
            let next = bumped(w.st.opens[other].seqid);
            &&& gives(u, World { st: u.0.st, ..w }, open_result(next, other, changed(0, 0), 0))
            &&& u.0.st.opens == w.st.opens.insert(other, OpenView { seqid: next, ..w.st.opens[other] })
            &&& u.0.st.clients[cid].last_renewed == now
        }),
{
    reveal(start);
    reveal(resumed);
    handles_read(w, file);
    write_bit(access);
    let other = w.st.open_index[(cid, owner, file)];
    result_bytes(bumped(w.st.opens[other].seqid), other, 0, 0, 0);
}

/// A fresh OPEN of a 4.0 open-owner that has not been confirmed tells the client to confirm
/// it, and the OPEN of one that has been does not. Either way the stateid is the owner's
/// last reply from then on.
pub proof fn a_40_open_asks_for_confirmation_once<H>(
    w: World<H>,
    file: fileid4,
    seqid: seqid4,
    access: u32,
    deny: u32,
    cid: clientid4,
    owner: Seq<u8>,
    a: fattr3,
    fh: H,
    other: Other,
    now: u64,
    d: Draws,
)
    requires
        at(w, file),
        w.cs.minorversion == 0,
        may_open(w, access, OpenFlagView::OPEN4_NOCREATE),
        a.ftype == ftype3::NF3REG,
        w.st.lease > 0,
        w.st.client_status(cid, now) is Ok,
        w.st.clients[cid].kind matches KindView::V40 { confirmed, .. } && confirmed,
        w.st.owner_check(cid, owner, OwnerSeqid::V40(seqid)) == Ok::<OwnerSeq, nfsstat4>(OwnerSeq::Fresh),
        !w.st.open_index.contains_key((cid, owner, file)),
        d.other == Ok::<Other, nfsstat4>(other),
    ensures
        ({
            let how = OpenFlagView::OPEN4_NOCREATE;
            let x = start(w, open_of(seqid, access, deny, cid, owner, how, OpenClaimView::CLAIM_FH), now, d);
            let u = told(x, VfsReply::Attributes(a), now, d);
            let v = told(u, VfsReply::Handle(fh), now, d);
            let mode = mode_of(access, how);
            let record = w.st.clients[cid].open_owner(owner);
            let rflags: u32 = if record.confirmed { 0 } else { 2 };
            let after = v.0.st.clients[cid].open_owners[owner];
            &&& asks(u, VfsCall::Open { id: file, mode })
            &&& gives(v, World { st: v.0.st, ..w }, open_result(1, other, changed(0, 0), rflags))
            &&& v.0.st.opens == w.st.opens.insert(
                other,
                OpenView { clientid: cid, owner, fileid: file, seqid: 1, mode, fh },
            )
            &&& after.last == Some((seqid, Ok::<stateid4, nfsstat4>(stateid4 { seqid: 1, other })))
            &&& after.confirmed == record.confirmed
        }),
{
    reveal(start);
    reveal(resumed);
    handles_read(w, file);
    write_bit(access);
    let u = w.st.renewed(cid, now);
    assert(u.clients[cid].open_owner(owner) == w.st.clients[cid].open_owner(owner));
    assert(u.owner_check(cid, owner, OwnerSeqid::V40(seqid)) == w.st.owner_check(
        cid,
        owner,
        OwnerSeqid::V40(seqid),
    ));
    result_bytes(1, other, 0, 0, 0);
    result_bytes(1, other, 0, 0, 2);
}

/// An OPEN of a client that is not known, whose lease has lapsed, or that has not been
/// confirmed opens nothing.
pub proof fn open_needs_a_confirmed_client<H>(
    w: World<H>,
    file: fileid4,
    seqid: seqid4,
    access: u32,
    deny: u32,
    cid: clientid4,
    owner: Seq<u8>,
    a: fattr3,
    now: u64,
    d: Draws,
)
    requires
        at(w, file),
        may_open(w, access, OpenFlagView::OPEN4_NOCREATE),
        a.ftype == ftype3::NF3REG,
    ensures
        ({
            let how = OpenFlagView::OPEN4_NOCREATE;
            let x = start(w, open_of(seqid, access, deny, cid, owner, how, OpenClaimView::CLAIM_FH), now, d);
            let u = told(x, VfsReply::Attributes(a), now, d);
            &&& w.st.client_status(cid, now) matches Err(e) ==> u.1 == StepView::<H>::Done(e, be32(e.number()))
            &&& w.st.client_status(cid, now) is Ok && !w.st.clients[cid].is_confirmed() ==> refuses(
                u,
                w,
                nfsstat4::NFS4ERR_STALE_CLIENTID,
            )
        }),
{
    reveal(start);
    reveal(resumed);
    handles_read(w, file);
    write_bit(access);
}

/// In 4.0, an OPEN that fails before the open state is asked says why, and its failure is
/// its open-owner's reply from then on. Shown of an owner whose request is fresh; nothing is
/// opened.
pub proof fn a_40_open_that_fails_is_booked<H>(
    w: World<H>,
    dir: fileid4,
    seqid: seqid4,
    access: u32,
    deny: u32,
    cid: clientid4,
    owner: Seq<u8>,
    how: OpenFlagView,
    name: Seq<u8>,
    a: fattr3,
    file: fileid4,
    b: fattr3,
    e: nfsstat3,
    now: u64,
    d: Draws,
)
    requires
        at(w, dir),
        w.cs.minorversion == 0,
        may_open(w, access, how),
        w.st.client_status(cid, now) is Ok,
        w.st.owner_check(cid, owner, OwnerSeqid::V40(seqid)) == Ok::<OwnerSeq, nfsstat4>(OwnerSeq::Fresh),
    ensures
        ({
            let x = start(w, open_of(seqid, access, deny, cid, owner, how, OpenClaimView::CLAIM_NULL(name)), now, d);
            let y = told(x, VfsReply::Attributes(a), now, d);
            let z = told(y, VfsReply::File(file), now, d);
            let booked = |o: (World<H>, StepView<H>), status: nfsstat4|
                refuses(
                    o,
                    World { st: w.st.replied(cid, owner, OwnerSeqid::V40(seqid), Err(status)), ..w },
                    status,
                );
            &&& booked(told(x, VfsReply::Failed(e), now, d), status_of(e))
            &&& !is_dir(a) ==> booked(y, nfsstat4::NFS4ERR_NOTDIR)
            &&& is_dir(a) && name.len() == 0 ==> booked(y, nfsstat4::NFS4ERR_INVAL)
            &&& is_dir(a) && name.len() > 0 ==> {
                &&& how is OPEN4_NOCREATE || status_of(e) != nfsstat4::NFS4ERR_NOENT ==> booked(
                    told(y, VfsReply::Failed(e), now, d),
                    status_of(e),
                )
                &&& booked(told(z, VfsReply::Failed(e), now, d), status_of(e))
                &&& is_dir(b) ==> booked(told(z, VfsReply::Attributes(b), now, d), nfsstat4::NFS4ERR_ISDIR)
                &&& !is_dir(b) && b.ftype != ftype3::NF3REG ==> booked(
                    told(z, VfsReply::Attributes(b), now, d),
                    nfsstat4::NFS4ERR_SYMLINK,
                )
            }
        }),
{
    reveal(start);
    reveal(resumed);
    handles_read(w, dir);
    write_bit(access);
}

/// So are the refusals of a 4.0 OPEN that asks for no access, would change a read-only
/// export, or makes a claim that is not taken.
pub proof fn a_40_open_that_is_refused_is_booked<H>(
    w: World<H>,
    file: fileid4,
    seqid: seqid4,
    access: u32,
    deny: u32,
    cid: clientid4,
    owner: Seq<u8>,
    how: OpenFlagView,
    claim: OpenClaimView,
    now: u64,
    d: Draws,
)
    requires
        at(w, file),
        w.cs.minorversion == 0,
        w.st.client_status(cid, now) is Ok,
        w.st.owner_check(cid, owner, OwnerSeqid::V40(seqid)) == Ok::<OwnerSeq, nfsstat4>(OwnerSeq::Fresh),
    ensures
        ({
            let x = start(w, open_of(seqid, access, deny, cid, owner, how, claim), now, d);
            let booked = |status: nfsstat4|
                refuses(
                    x,
                    World { st: w.st.replied(cid, owner, OwnerSeqid::V40(seqid), Err(status)), ..w },
                    status,
                );
            if access & 3 == 0 {
                booked(nfsstat4::NFS4ERR_INVAL)
            } else if !may_open(w, access, how) {
                booked(nfsstat4::NFS4ERR_ROFS)
            } else {
                match claim {
                    OpenClaimView::CLAIM_NULL(_) => asks(x, VfsCall::Attributes { id: file }),
                    OpenClaimView::CLAIM_FH => if how is OPEN4_CREATE {
                        booked(nfsstat4::NFS4ERR_INVAL)
                    } else {
                        asks(x, VfsCall::Attributes { id: file })
                    },
                    OpenClaimView::CLAIM_PREVIOUS(_) => booked(nfsstat4::NFS4ERR_NO_GRACE),
                    _ => booked(nfsstat4::NFS4ERR_NOTSUPP),
                }
            }
        }),
{
    reveal(start);
    handles_read(w, file);
    write_bit(access);
}

/// An OPEN whose file was just made tells how the directory changed by that.
pub proof fn an_open_that_made_its_file_says_so<H>(
    w: World<H>,
    dir: fileid4,
    seqid: seqid4,
    access: u32,
    deny: u32,
    cid: clientid4,
    owner: Seq<u8>,
    how: OpenFlagView,
    name: Seq<u8>,
    before: fattr3,
    file: fileid4,
    after: fattr3,
    a: fattr3,
    fh: H,
    other: Other,
    now: u64,
    d: Draws,
)
    requires
        at(w, dir),
        w.cs.minorversion != 0,
        may_open(w, access, how),
        how is OPEN4_CREATE,
        name.len() > 0,
        is_dir(before),
        a.ftype == ftype3::NF3REG,
        w.st.lease > 0,
        v41_client(w.st, cid, now),
        !w.st.open_index.contains_key((cid, owner, file)),
        d.other == Ok::<Other, nfsstat4>(other),
    ensures
        ({
            let x = start(w, open_of(seqid, access, deny, cid, owner, how, OpenClaimView::CLAIM_NULL(name)), now, d);
            let y = told(x, VfsReply::Attributes(before), now, d);
            let z = told(y, VfsReply::Failed(nfsstat3::NFS3ERR_NOENT), now, d);
            let u = told(z, VfsReply::File(file), now, d);
            let v = told(u, VfsReply::Attributes(after), now, d);
            let q = told(v, VfsReply::Attributes(a), now, d);
            let end = told(q, VfsReply::Handle(fh), now, d);
            &&& asks(q, VfsCall::Open { id: file, mode: OpenMode::ReadWrite })
            &&& gives(
                end,
                World { st: end.0.st, ..with_fh(w, Some(handle_of(w.ctx.epoch, file))) },
                open_result(1, other, changed(before.ctime.seconds, after.ctime.seconds), 0),
            )
        }),
{
    reveal(start);
    reveal(resumed);
    handles_read(w, dir);
    write_bit(access);
    result_bytes(1, other, before.ctime.seconds as u64, after.ctime.seconds as u64, 0);
}

} // verus!
