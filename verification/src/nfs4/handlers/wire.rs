//! What calls and answers look like on the wire: which number stands for which operation,
//! and in which order its arguments come.

use vstd::prelude::*;

use crate::model::Model;
use crate::nfs3::{ftype3, nfsstat3};
use crate::nfs4::args::{
    createhow4, createtype4, open_claim4, openflag4, secinfo_style4, stable_how4, ACCESS4args, CLOSE4args, COMMIT4args,
    CREATE4args, CreateHowView, CreateTypeView, GETATTR4args, LOCK4args, LOOKUP4args, LockerView, OPEN4args,
    OPEN_CONFIRM4args, OPEN_DOWNGRADE4args, OpenClaimView, OpenFlagView, PUTFH4args, READ4args, READDIR4args,
    RECLAIM_COMPLETE4args, RELEASE_LOCKOWNER4args, REMOVE4args, RENAME4args, RENEW4args, SECINFO4args,
    SECINFO_NO_NAME4args, SETATTR4args, SETCLIENTID4args, SETCLIENTID_CONFIRM4args, TEST_STATEID4args, WRITE4args,
};
use crate::nfs4::attr::{fattr4, nfsace4, AttrView};
use crate::nfs4::handlers::{decode_args, decode_as, decode_op, decode_rejected, ArgsView, OpArgument};
use crate::nfs4::session::{
    callback_sec_parms4, cbsp_authsys, channel_attrs4, nfs_impl_id4, state_protect_how4, CREATE_SESSION4args,
    DESTROY_CLIENTID4args, DESTROY_SESSION4args, EXCHANGE_ID4args, SEQUENCE4args,
};
use crate::nfs4::{
    fsid4, ftype4, ftype_of, nfs_opnum4, nfs_opnum40, nfsstat4, nfstime4, sessionid4, specdata4, stateid4, status_of,
    verifier4,
};
use crate::word::{be32, be32_len};
use crate::xdr::{be64, encode_items, XdrError, XDR};

verus! {

broadcast use be32_len;

/// The call reads as this operation, and takes this many bytes behind its number.
pub open spec fn read(args: ArgsView, n: nat) -> Result<(ArgsView, nat), XdrError> {
    Ok((args, n))
}

/// Stateids, one after the other: the seqid, then the twelve bytes.
pub open spec fn stateids_in_order(sids: Seq<(u32, [u8; 12])>) -> Seq<u8>
    decreases sids.len(),
{
    if sids.len() == 0 {
        Seq::empty()
    } else {
        stateids_in_order(sids.drop_last()) + be32(sids.last().0) + sids.last().1@
    }
}

proof fn stateids_listed(s: Seq<(u32, [u8; 12])>)
    ensures
        encode_items::<stateid4>(s) == stateids_in_order(s),
    decreases s.len(),
{
    if s.len() > 0 {
        stateids_listed(s.drop_last());
        crate::xdr::items_snoc::<stateid4>(s.drop_last(), s.last());
        assert(s.drop_last().push(s.last()) =~= s);
        assert(encode_items::<stateid4>(s) =~= stateids_in_order(s));
    }
}

/// A channel: padding, the largest request, reply and cached reply, how many operations and
/// requests, and a list for RDMA.
pub open spec fn channel_asked(c: (u32, (u32, (u32, (u32, (u32, (u32, Seq<u32>))))))) -> Seq<u8> {
    be32(c.0) + be32(c.1.0) + be32(c.1.1.0) + be32(c.1.1.1.0) + be32(c.1.1.1.1.0) + be32(c.1.1.1.1.1.0) + Vec::<
        u32,
    >::encode(c.1.1.1.1.1.1)
}

proof fn one_flavor()
    ensures
        encode_items::<callback_sec_parms4>(seq![(0u32, None, None)]) == be32(0),
{
    let s = seq![(0u32, None::<(u32, (Seq<u8>, (u32, (u32, Seq<u32>))))>, None::<Seq<u8>>)];
    assert(s.drop_first() =~= Seq::empty());
    reveal_with_fuel(encode_items, 2);
    assert(encode_items::<callback_sec_parms4>(s) =~= be32(0));
}

proof fn reads_as<T: OpArgument>(m: T::M, rest: Seq<u8>)
    requires
        T::fits(m),
    ensures
        decode_as::<T>(T::encode(m) + rest) == read(T::op(m), T::encode(m).len()),
{
    reveal(decode_as);
    T::round_trip(m, rest);
}

proof fn channel_bytes(c: (u32, (u32, (u32, (u32, (u32, (u32, Seq<u32>)))))))
    ensures
        channel_attrs4::encode(c) == channel_asked(c),
{
    assert(channel_attrs4::encode(c) =~= channel_asked(c));
}

proof fn in_a_row(a: Seq<u8>, b: Seq<u8>, c: Seq<u8>, d: Seq<u8>, e: Seq<u8>, f: Seq<u8>, g: Seq<u8>)
    ensures
        a + (b + (c + (d + (e + (f + g))))) == a + b + c + d + e + f + g,
        a + (b + (c + ((d + e) + (f + g)))) == a + b + c + d + e + f + g,
{
    assert(a + (b + (c + (d + (e + (f + g))))) =~= a + b + c + d + e + f + g);
    assert(a + (b + (c + ((d + e) + (f + g)))) =~= a + b + c + d + e + f + g);
}

proof fn regrouped(h: Seq<u8>, a: Seq<u8>, b: Seq<u8>, c: Seq<u8>, d: Seq<u8>, e: Seq<u8>)
    ensures
        h + (a + (b + c)) + (d + e) == h + a + b + c + d + e,
{
    assert(h + (a + (b + c)) + (d + e) =~= h + a + b + c + d + e);
}

/// What an OPEN begins with: the seqid, both shares, the client and its owner.
pub open spec fn open_head(seqid: u32, access: u32, deny: u32, cid: u64, owner: Seq<u8>) -> Seq<u8> {
    be32(seqid) + be32(access) + be32(deny) + be64(cid) + Vec::<u8>::encode(owner)
}

proof fn open_reads(
    minor: u32,
    seqid: u32,
    access: u32,
    deny: u32,
    cid: u64,
    owner: Seq<u8>,
    how: OpenFlagView,
    claim: OpenClaimView,
    rest: Seq<u8>,
)
    requires
        owner.len() <= u32::MAX,
        openflag4::fits(how),
        open_claim4::fits(claim),
    ensures
        ({
            let bytes = open_head(seqid, access, deny, cid, owner) + openflag4::encode(how)
                + open_claim4::encode(claim);
            decode_args(18, minor, bytes + rest) == read(
                ArgsView::Open((seqid, (access, (deny, ((cid, owner), (how, claim)))))),
                bytes.len(),
            )
        }),
{
    let m = (seqid, (access, (deny, ((cid, owner), (how, claim)))));
    number_18();
    reads_as::<OPEN4args>(m, rest);
    in_a_row(
        be32(seqid),
        be32(access),
        be32(deny),
        be64(cid),
        Vec::<u8>::encode(owner),
        openflag4::encode(how),
        open_claim4::encode(claim),
    );
}

/// The arguments of a CREATE_SESSION with no callback security but none, in a row.
pub(crate) proof fn create_session_bytes(
    cid: u64,
    sequence: u32,
    flags: u32,
    fore: (u32, (u32, (u32, (u32, (u32, (u32, Seq<u32>)))))),
    back: (u32, (u32, (u32, (u32, (u32, (u32, Seq<u32>)))))),
    program: u32,
)
    ensures
        CREATE_SESSION4args::encode(
            (cid, (sequence, (flags, (fore, (back, (program, seq![(0u32, None, None)])))))),
        ) == be64(cid) + be32(sequence) + be32(flags) + channel_asked(fore) + channel_asked(back) + be32(program)
            + be32(1) + be32(0),
{
    one_flavor();
    channel_bytes(fore);
    channel_bytes(back);
    in_a_row(
        be64(cid),
        be32(sequence),
        be32(flags),
        channel_asked(fore),
        channel_asked(back),
        be32(program),
        be32(1) + be32(0),
    );
    let front = be64(cid) + be32(sequence) + be32(flags) + channel_asked(fore) + channel_asked(back) + be32(program);
    assert(front + (be32(1) + be32(0)) =~= front + be32(1) + be32(0));
}

proof fn create_session_reads(m: <CREATE_SESSION4args as Model>::M, rest: Seq<u8>)
    requires
        CREATE_SESSION4args::fits(m),
    ensures
        decode_args(43, 1, CREATE_SESSION4args::encode(m) + rest) == read(
            ArgsView::CreateSession(m),
            CREATE_SESSION4args::encode(m).len(),
        ),
{
    number_43();
    reads_as::<CREATE_SESSION4args>(m, rest);
}

proof fn lock_reads(m: <LOCK4args as Model>::M, rest: Seq<u8>)
    requires
        LOCK4args::fits(m),
    ensures
        decode_args(12, 0, LOCK4args::encode(m) + rest) == read(ArgsView::Lock(m), LOCK4args::encode(m).len()),
{
    number_12();
    reads_as::<LOCK4args>(m, rest);
}

// ---------------------------------------------------------------- operations

/// GETFH, PUTROOTFH, READLINK, RESTOREFH and SAVEFH have no arguments.
pub proof fn some_operations_have_no_arguments(minor: u32, rest: Seq<u8>)
    ensures
        decode_args(10, minor, rest) == read(ArgsView::GetFh, 0),
        decode_args(24, minor, rest) == read(ArgsView::PutRootFh, 0),
        decode_args(27, minor, rest) == read(ArgsView::Readlink, 0),
        decode_args(31, minor, rest) == read(ArgsView::RestoreFh, 0),
        decode_args(32, minor, rest) == read(ArgsView::SaveFh, 0),
{
    reveal(decode_op);
    number_10();
    number_24();
    number_27();
    number_31();
    number_32();
}

/// What only one of the minor versions has is not supported in the other.
pub proof fn each_version_has_its_operations(n: u32, b: Seq<u8>)
    ensures
        n == 42 || n == 43 || n == 44 || n == 52 || n == 53 || n == 57 || n == 58 ==> decode_args(n, 0, b) == read(
            ArgsView::NotSupported,
            0,
        ),
        n == 12 || n == 20 || n == 21 || n == 30 || n == 35 || n == 36 || n == 39 ==> decode_args(n, 1, b) == read(
            ArgsView::NotSupported,
            0,
        ),
{
    reveal(decode_op);
    number_42();
    number_43();
    number_44();
    number_52();
    number_53();
    number_57();
    number_58();
    number_12();
    number_20();
    number_21();
    number_30();
    number_35();
    number_36();
    number_39();
}

/// ACCESS: what is asked.
pub proof fn access_on_the_wire(
    minor: u32,
    access: u32,
    rest: Seq<u8>,
)
    ensures
        ({
            let args = ArgsView::Access(access);
            let bytes = be32(access);
            decode_args(3, minor, bytes + rest) == read(args, bytes.len())
        }),
{
    let args = ArgsView::Access(access);
    let bytes = be32(access);
    number_3();
    if let ArgsView::Access(m) = args {
        assert(ACCESS4args::encode(m) =~= bytes);
        reads_as::<ACCESS4args>(m, rest);
    }
}

/// CLOSE: the seqid, and the stateid.
pub proof fn close_on_the_wire(
    minor: u32,
    seqid: u32,
    sid: (u32, [u8; 12]),
    rest: Seq<u8>,
)
    ensures
        ({
            let args = ArgsView::Close((seqid, sid));
            let bytes = be32(seqid) + be32(sid.0) + sid.1@;
            decode_args(4, minor, bytes + rest) == read(args, bytes.len())
        }),
{
    let args = ArgsView::Close((seqid, sid));
    let bytes = be32(seqid) + be32(sid.0) + sid.1@;
    number_4();
    if let ArgsView::Close(m) = args {
        assert(CLOSE4args::encode(m) =~= bytes);
        reads_as::<CLOSE4args>(m, rest);
    }
}

/// COMMIT: from where, and how much.
pub proof fn commit_on_the_wire(
    minor: u32,
    offset: u64,
    count: u32,
    rest: Seq<u8>,
)
    ensures
        ({
            let args = ArgsView::Commit((offset, count));
            let bytes = be64(offset) + be32(count);
            decode_args(5, minor, bytes + rest) == read(args, bytes.len())
        }),
{
    let args = ArgsView::Commit((offset, count));
    let bytes = be64(offset) + be32(count);
    number_5();
    if let ArgsView::Commit(m) = args {
        assert(COMMIT4args::encode(m) =~= bytes);
        reads_as::<COMMIT4args>(m, rest);
    }
}

/// GETATTR: the bitmap of what is asked for.
pub proof fn getattr_on_the_wire(
    minor: u32,
    request: Seq<u32>,
    rest: Seq<u8>,
)
    requires
        request.len() <= u32::MAX,
    ensures
        ({
            let args = ArgsView::Getattr(request);
            let bytes = Vec::<u32>::encode(request);
            decode_args(9, minor, bytes + rest) == read(args, bytes.len())
        }),
{
    let args = ArgsView::Getattr(request);
    let bytes = Vec::<u32>::encode(request);
    number_9();
    if let ArgsView::Getattr(m) = args {
        assert(GETATTR4args::encode(m) =~= bytes);
        reads_as::<GETATTR4args>(m, rest);
    }
}

/// LOOKUP: the name.
pub proof fn lookup_on_the_wire(
    minor: u32,
    name: Seq<u8>,
    rest: Seq<u8>,
)
    requires
        name.len() <= u32::MAX,
    ensures
        ({
            let args = ArgsView::Lookup(name);
            let bytes = Vec::<u8>::encode(name);
            decode_args(15, minor, bytes + rest) == read(args, bytes.len())
        }),
{
    let args = ArgsView::Lookup(name);
    let bytes = Vec::<u8>::encode(name);
    number_15();
    if let ArgsView::Lookup(m) = args {
        assert(LOOKUP4args::encode(m) =~= bytes);
        reads_as::<LOOKUP4args>(m, rest);
    }
}

/// PUTFH: the handle.
pub proof fn putfh_on_the_wire(
    minor: u32,
    fh: Seq<u8>,
    rest: Seq<u8>,
)
    requires
        fh.len() <= u32::MAX,
    ensures
        ({
            let args = ArgsView::PutFh(fh);
            let bytes = Vec::<u8>::encode(fh);
            decode_args(22, minor, bytes + rest) == read(args, bytes.len())
        }),
{
    let args = ArgsView::PutFh(fh);
    let bytes = Vec::<u8>::encode(fh);
    number_22();
    if let ArgsView::PutFh(m) = args {
        assert(PUTFH4args::encode(m) =~= bytes);
        reads_as::<PUTFH4args>(m, rest);
    }
}

/// READ: the stateid, from where, and how much.
pub proof fn read_on_the_wire(
    minor: u32,
    sid: (u32, [u8; 12]),
    offset: u64,
    count: u32,
    rest: Seq<u8>,
)
    ensures
        ({
            let args = ArgsView::Read((sid, (offset, count)));
            let bytes = be32(sid.0) + sid.1@ + be64(offset) + be32(count);
            decode_args(25, minor, bytes + rest) == read(args, bytes.len())
        }),
{
    let args = ArgsView::Read((sid, (offset, count)));
    let bytes = be32(sid.0) + sid.1@ + be64(offset) + be32(count);
    number_25();
    if let ArgsView::Read(m) = args {
        assert(READ4args::encode(m) =~= bytes);
        reads_as::<READ4args>(m, rest);
    }
}

/// READDIR: the cookie and its verifier, both budgets, and the bitmap of what is asked for.
pub proof fn readdir_on_the_wire(
    minor: u32,
    cookie: u64,
    verf: verifier4,
    dircount: u32,
    maxcount: u32,
    request: Seq<u32>,
    rest: Seq<u8>,
)
    requires
        request.len() <= u32::MAX,
    ensures
        ({
            let args = ArgsView::Readdir((cookie, (verf, (dircount, (maxcount, request)))));
            let bytes = be64(cookie) + verf@ + be32(dircount) + be32(maxcount) + Vec::<u32>::encode(request);
            decode_args(26, minor, bytes + rest) == read(args, bytes.len())
        }),
{
    let args = ArgsView::Readdir((cookie, (verf, (dircount, (maxcount, request)))));
    let bytes = be64(cookie) + verf@ + be32(dircount) + be32(maxcount) + Vec::<u32>::encode(request);
    number_26();
    if let ArgsView::Readdir(m) = args {
        assert(READDIR4args::encode(m) =~= bytes);
        reads_as::<READDIR4args>(m, rest);
    }
}

/// REMOVE: the name.
pub proof fn remove_on_the_wire(
    minor: u32,
    name: Seq<u8>,
    rest: Seq<u8>,
)
    requires
        name.len() <= u32::MAX,
    ensures
        ({
            let args = ArgsView::Remove(name);
            let bytes = Vec::<u8>::encode(name);
            decode_args(28, minor, bytes + rest) == read(args, bytes.len())
        }),
{
    let args = ArgsView::Remove(name);
    let bytes = Vec::<u8>::encode(name);
    number_28();
    if let ArgsView::Remove(m) = args {
        assert(REMOVE4args::encode(m) =~= bytes);
        reads_as::<REMOVE4args>(m, rest);
    }
}

/// RENAME: the old name, and the new one.
pub proof fn rename_on_the_wire(
    minor: u32,
    old_name: Seq<u8>,
    new_name: Seq<u8>,
    rest: Seq<u8>,
)
    requires
        old_name.len() <= u32::MAX,
        new_name.len() <= u32::MAX,
    ensures
        ({
            let args = ArgsView::Rename((old_name, new_name));
            let bytes = Vec::<u8>::encode(old_name) + Vec::<u8>::encode(new_name);
            decode_args(29, minor, bytes + rest) == read(args, bytes.len())
        }),
{
    let args = ArgsView::Rename((old_name, new_name));
    let bytes = Vec::<u8>::encode(old_name) + Vec::<u8>::encode(new_name);
    number_29();
    if let ArgsView::Rename(m) = args {
        assert(RENAME4args::encode(m) =~= bytes);
        reads_as::<RENAME4args>(m, rest);
    }
}

/// SECINFO: the name.
pub proof fn secinfo_on_the_wire(
    minor: u32,
    name: Seq<u8>,
    rest: Seq<u8>,
)
    requires
        name.len() <= u32::MAX,
    ensures
        ({
            let args = ArgsView::Secinfo(name);
            let bytes = Vec::<u8>::encode(name);
            decode_args(33, minor, bytes + rest) == read(args, bytes.len())
        }),
{
    let args = ArgsView::Secinfo(name);
    let bytes = Vec::<u8>::encode(name);
    number_33();
    if let ArgsView::Secinfo(m) = args {
        assert(SECINFO4args::encode(m) =~= bytes);
        reads_as::<SECINFO4args>(m, rest);
    }
}

/// SETATTR: the stateid, and the attributes.
pub proof fn setattr_on_the_wire(
    minor: u32,
    sid: (u32, [u8; 12]),
    attrs: Map<nat, AttrView>,
    rest: Seq<u8>,
)
    requires
        <fattr4 as XDR>::fits(attrs),
    ensures
        ({
            let args = ArgsView::Setattr((sid, attrs));
            let bytes = be32(sid.0) + sid.1@ + fattr4::encode(attrs);
            decode_args(34, minor, bytes + rest) == read(args, bytes.len())
        }),
{
    let args = ArgsView::Setattr((sid, attrs));
    let bytes = be32(sid.0) + sid.1@ + fattr4::encode(attrs);
    number_34();
    if let ArgsView::Setattr(m) = args {
        assert(SETATTR4args::encode(m) =~= bytes);
        reads_as::<SETATTR4args>(m, rest);
    }
}

/// WRITE: the stateid, to where, how durably, and the data.
pub proof fn write_on_the_wire(
    minor: u32,
    sid: (u32, [u8; 12]),
    offset: u64,
    stable: stable_how4,
    data: Seq<u8>,
    rest: Seq<u8>,
)
    requires
        data.len() <= u32::MAX,
    ensures
        ({
            let args = ArgsView::Write((sid, (offset, (stable, data))));
            let bytes = be32(sid.0) + sid.1@ + be64(offset) + be32(stable.number()) + Vec::<u8>::encode(data);
            decode_args(38, minor, bytes + rest) == read(args, bytes.len())
        }),
{
    let args = ArgsView::Write((sid, (offset, (stable, data))));
    let bytes = be32(sid.0) + sid.1@ + be64(offset) + be32(stable.number()) + Vec::<u8>::encode(data);
    number_38();
    if let ArgsView::Write(m) = args {
        assert(WRITE4args::encode(m) =~= bytes);
        reads_as::<WRITE4args>(m, rest);
    }
}

/// TEST_STATEID: the stateids.
pub proof fn test_stateid_on_the_wire(
    minor: u32,
    sids: Seq<(u32, [u8; 12])>,
    rest: Seq<u8>,
)
    requires
        sids.len() <= u32::MAX,
    ensures
        ({
            let args = ArgsView::TestStateid(sids);
            let bytes = be32(sids.len() as u32) + stateids_in_order(sids);
            decode_args(55, minor, bytes + rest) == read(args, bytes.len())
        }),
{
    let args = ArgsView::TestStateid(sids);
    let bytes = be32(sids.len() as u32) + stateids_in_order(sids);
    number_55();
    stateids_listed(sids);
    if let ArgsView::TestStateid(m) = args {
        assert(TEST_STATEID4args::encode(m) =~= bytes);
        reads_as::<TEST_STATEID4args>(m, rest);
    }
}

/// DESTROY_SESSION: the session.
pub proof fn destroy_session_on_the_wire(
    id: sessionid4,
    rest: Seq<u8>,
)
    ensures
        ({
            let args = ArgsView::DestroySession(id);
            let bytes = id@;
            decode_args(44, 1, bytes + rest) == read(args, bytes.len())
        }),
{
    let args = ArgsView::DestroySession(id);
    let bytes = id@;
    number_44();
    if let ArgsView::DestroySession(m) = args {
        assert(DESTROY_SESSION4args::encode(m) =~= bytes);
        reads_as::<DESTROY_SESSION4args>(m, rest);
    }
}

/// DESTROY_CLIENTID: the client.
pub proof fn destroy_clientid_on_the_wire(
    cid: u64,
    rest: Seq<u8>,
)
    ensures
        ({
            let args = ArgsView::DestroyClientid(cid);
            let bytes = be64(cid);
            decode_args(57, 1, bytes + rest) == read(args, bytes.len())
        }),
{
    let args = ArgsView::DestroyClientid(cid);
    let bytes = be64(cid);
    number_57();
    if let ArgsView::DestroyClientid(m) = args {
        assert(DESTROY_CLIENTID4args::encode(m) =~= bytes);
        reads_as::<DESTROY_CLIENTID4args>(m, rest);
    }
}

/// SEQUENCE: the session, the sequence, the slot, the highest slot, and whether to cache.
pub proof fn sequence_on_the_wire(
    id: sessionid4,
    seqid: u32,
    slot: u32,
    highest: u32,
    cache_this: bool,
    rest: Seq<u8>,
)
    ensures
        ({
            let args = ArgsView::Sequence((id, (seqid, (slot, (highest, cache_this)))));
            let bytes = id@ + be32(seqid) + be32(slot) + be32(highest) + be32(if cache_this { 1 } else { 0 });
            decode_args(53, 1, bytes + rest) == read(args, bytes.len())
        }),
{
    let args = ArgsView::Sequence((id, (seqid, (slot, (highest, cache_this)))));
    let bytes = id@ + be32(seqid) + be32(slot) + be32(highest) + be32(if cache_this { 1 } else { 0 });
    number_53();
    if let ArgsView::Sequence(m) = args {
        assert(SEQUENCE4args::encode(m) =~= bytes);
        reads_as::<SEQUENCE4args>(m, rest);
    }
}

/// RECLAIM_COMPLETE: whether of one file system only.
pub proof fn reclaim_complete_on_the_wire(
    one_fs: bool,
    rest: Seq<u8>,
)
    ensures
        ({
            let args = ArgsView::ReclaimComplete(one_fs);
            let bytes = be32(if one_fs { 1 } else { 0 });
            decode_args(58, 1, bytes + rest) == read(args, bytes.len())
        }),
{
    let args = ArgsView::ReclaimComplete(one_fs);
    let bytes = be32(if one_fs { 1 } else { 0 });
    number_58();
    if let ArgsView::ReclaimComplete(m) = args {
        assert(RECLAIM_COMPLETE4args::encode(m) =~= bytes);
        reads_as::<RECLAIM_COMPLETE4args>(m, rest);
    }
}

/// SECINFO_NO_NAME: of the current filehandle, or of its parent.
pub proof fn secinfo_no_name_on_the_wire(
    parent: bool,
    rest: Seq<u8>,
)
    ensures
        ({
            let args = ArgsView::SecinfoNoName(if parent {
                secinfo_style4::SECINFO_STYLE4_PARENT
            } else {
                secinfo_style4::SECINFO_STYLE4_CURRENT_FH
            });
            let bytes = be32(if parent { 1 } else { 0 });
            decode_args(52, 1, bytes + rest) == read(args, bytes.len())
        }),
{
    let args = ArgsView::SecinfoNoName(if parent {
                secinfo_style4::SECINFO_STYLE4_PARENT
            } else {
                secinfo_style4::SECINFO_STYLE4_CURRENT_FH
            });
    let bytes = be32(if parent { 1 } else { 0 });
    number_52();
    if let ArgsView::SecinfoNoName(m) = args {
        assert(SECINFO_NO_NAME4args::encode(m) =~= bytes);
        reads_as::<SECINFO_NO_NAME4args>(m, rest);
    }
}

/// EXCHANGE_ID without state protection: the client's verifier and owner, the flags, no
/// protection, and no implementation id.
pub proof fn exchange_id_on_the_wire(
    verifier: verifier4,
    ownerid: Seq<u8>,
    flags: u32,
    rest: Seq<u8>,
)
    requires
        ownerid.len() <= u32::MAX,
    ensures
        ({
            let args = ArgsView::ExchangeId(((verifier, ownerid), (flags, ((state_protect_how4::SP4_NONE, None,
                None), None))));
            let bytes = verifier@ + Vec::<u8>::encode(ownerid) + be32(flags) + be32(0) + be32(0);
            decode_args(42, 1, bytes + rest) == read(args, bytes.len())
        }),
{
    let args = ArgsView::ExchangeId(((verifier, ownerid), (flags, ((state_protect_how4::SP4_NONE, None, None), None))));
    let bytes = verifier@ + Vec::<u8>::encode(ownerid) + be32(flags) + be32(0) + be32(0);
    number_42();
    if let ArgsView::ExchangeId(m) = args {
        assert(EXCHANGE_ID4args::encode(m) =~= bytes);
        reads_as::<EXCHANGE_ID4args>(m, rest);
    }
}

/// SETCLIENTID: the client's verifier and owner, the callback's program, network and
/// address, and its ident.
pub proof fn setclientid_on_the_wire(
    verifier: verifier4,
    id: Seq<u8>,
    program: u32,
    netid: Seq<u8>,
    addr: Seq<u8>,
    ident: u32,
    rest: Seq<u8>,
)
    requires
        id.len() <= u32::MAX,
        netid.len() <= u32::MAX,
        addr.len() <= u32::MAX,
    ensures
        ({
            let args = ArgsView::SetClientid(((verifier, id), ((program, (netid, addr)), ident)));
            let bytes = verifier@ + Vec::<u8>::encode(id) + be32(program) + Vec::<u8>::encode(netid)
                + Vec::<u8>::encode(addr) + be32(ident);
            decode_args(35, 0, bytes + rest) == read(args, bytes.len())
        }),
{
    let args = ArgsView::SetClientid(((verifier, id), ((program, (netid, addr)), ident)));
    let bytes = verifier@ + Vec::<u8>::encode(id) + be32(program) + Vec::<u8>::encode(netid) + Vec::<u8>::encode(addr)
        + be32(ident);
    number_35();
    if let ArgsView::SetClientid(m) = args {
        assert(SETCLIENTID4args::encode(m) =~= bytes);
        reads_as::<SETCLIENTID4args>(m, rest);
    }
}

/// SETCLIENTID_CONFIRM: the client, and the verifier that it was given.
pub proof fn setclientid_confirm_on_the_wire(
    cid: u64,
    confirm: verifier4,
    rest: Seq<u8>,
)
    ensures
        ({
            let args = ArgsView::SetClientidConfirm((cid, confirm));
            let bytes = be64(cid) + confirm@;
            decode_args(36, 0, bytes + rest) == read(args, bytes.len())
        }),
{
    let args = ArgsView::SetClientidConfirm((cid, confirm));
    let bytes = be64(cid) + confirm@;
    number_36();
    if let ArgsView::SetClientidConfirm(m) = args {
        assert(SETCLIENTID_CONFIRM4args::encode(m) =~= bytes);
        reads_as::<SETCLIENTID_CONFIRM4args>(m, rest);
    }
}

/// RENEW: the client.
pub proof fn renew_on_the_wire(
    cid: u64,
    rest: Seq<u8>,
)
    ensures
        ({
            let args = ArgsView::Renew(cid);
            let bytes = be64(cid);
            decode_args(30, 0, bytes + rest) == read(args, bytes.len())
        }),
{
    let args = ArgsView::Renew(cid);
    let bytes = be64(cid);
    number_30();
    if let ArgsView::Renew(m) = args {
        assert(RENEW4args::encode(m) =~= bytes);
        reads_as::<RENEW4args>(m, rest);
    }
}

/// OPEN_CONFIRM: the stateid, and the seqid.
pub proof fn open_confirm_on_the_wire(
    sid: (u32, [u8; 12]),
    seqid: u32,
    rest: Seq<u8>,
)
    ensures
        ({
            let args = ArgsView::OpenConfirm((sid, seqid));
            let bytes = be32(sid.0) + sid.1@ + be32(seqid);
            decode_args(20, 0, bytes + rest) == read(args, bytes.len())
        }),
{
    let args = ArgsView::OpenConfirm((sid, seqid));
    let bytes = be32(sid.0) + sid.1@ + be32(seqid);
    number_20();
    if let ArgsView::OpenConfirm(m) = args {
        assert(OPEN_CONFIRM4args::encode(m) =~= bytes);
        reads_as::<OPEN_CONFIRM4args>(m, rest);
    }
}

/// RELEASE_LOCKOWNER: the client, and the owner.
pub proof fn release_lockowner_on_the_wire(
    cid: u64,
    owner: Seq<u8>,
    rest: Seq<u8>,
)
    requires
        owner.len() <= u32::MAX,
    ensures
        ({
            let args = ArgsView::ReleaseLockowner((cid, owner));
            let bytes = be64(cid) + Vec::<u8>::encode(owner);
            decode_args(39, 0, bytes + rest) == read(args, bytes.len())
        }),
{
    let args = ArgsView::ReleaseLockowner((cid, owner));
    let bytes = be64(cid) + Vec::<u8>::encode(owner);
    number_39();
    if let ArgsView::ReleaseLockowner(m) = args {
        assert(RELEASE_LOCKOWNER4args::encode(m) =~= bytes);
        reads_as::<RELEASE_LOCKOWNER4args>(m, rest);
    }
}

/// OPEN_DOWNGRADE of 4.0: the stateid, the seqid, and the shares.
pub proof fn open_downgrade_on_the_wire(
    sid: (u32, [u8; 12]),
    seqid: u32,
    access: u32,
    deny: u32,
    rest: Seq<u8>,
)
    ensures
        ({
            let args = ArgsView::OpenDowngrade((sid, (seqid, (access, deny))));
            let bytes = be32(sid.0) + sid.1@ + be32(seqid) + be32(access) + be32(deny);
            decode_args(21, 0, bytes + rest) == read(args, bytes.len())
        }),
{
    let args = ArgsView::OpenDowngrade((sid, (seqid, (access, deny))));
    let bytes = be32(sid.0) + sid.1@ + be32(seqid) + be32(access) + be32(deny);
    number_21();
    if let ArgsView::OpenDowngrade(m) = args {
        assert(OPEN_DOWNGRADE4args::encode(m) =~= bytes);
        reads_as::<OPEN_DOWNGRADE4args>(m, rest);
    }
}

/// LOCK of 4.0 that opens a lock-owner: the kind, whether it reclaims, the range, that the
/// owner is new, the open-owner's seqid and stateid, and the lock-owner's.
pub proof fn lock_on_the_wire(
    kind: u32,
    reclaim: bool,
    offset: u64,
    length: u64,
    seqid: u32,
    sid: (u32, [u8; 12]),
    lock_seqid: u32,
    cid: u64,
    owner: Seq<u8>,
    rest: Seq<u8>,
)
    requires
        owner.len() <= u32::MAX,
    ensures
        ({
            let args = ArgsView::Lock((kind, (reclaim, (offset, (length, LockerView::New((seqid, (sid,
                (lock_seqid, (cid, owner))))))))));
            let bytes = be32(kind) + be32(if reclaim { 1 } else { 0 }) + be64(offset) + be64(length) + be32(1)
                + be32(seqid)
                + be32(sid.0) + sid.1@ + be32(lock_seqid) + be64(cid) + Vec::<u8>::encode(owner);
            decode_args(12, 0, bytes + rest) == read(args, bytes.len())
        }),
{
    let locker = LockerView::New((seqid, (sid, (lock_seqid, (cid, owner)))));
    lock_reads((kind, (reclaim, (offset, (length, locker)))), rest);
    let front = be32(kind) + be32(if reclaim { 1 } else { 0 }) + be64(offset) + be64(length) + be32(1);
    let last = be64(cid) + Vec::<u8>::encode(owner);
    in_a_row(
        be32(kind),
        be32(if reclaim { 1 } else { 0 }),
        be64(offset),
        be64(length),
        be32(1),
        be32(seqid),
        (be32(sid.0) + sid.1@) + (be32(lock_seqid) + last),
    );
    regrouped(front + be32(seqid), Seq::empty(), be32(sid.0), sid.1@, be32(lock_seqid), last);
    assert(Seq::<u8>::empty() + (be32(sid.0) + sid.1@) =~= be32(sid.0) + sid.1@);
    let most = front + be32(seqid) + be32(sid.0) + sid.1@ + be32(lock_seqid);
    assert(most + last =~= most + be64(cid) + Vec::<u8>::encode(owner));
    assert(front + be32(seqid) + ((be32(sid.0) + sid.1@) + (be32(lock_seqid) + last)) =~= most + last);
}

/// CREATE of a directory: its type, its name, and its attributes.
pub proof fn create_directory_on_the_wire(
    minor: u32,
    name: Seq<u8>,
    attrs: Map<nat, AttrView>,
    rest: Seq<u8>,
)
    requires
        name.len() <= u32::MAX,
        <fattr4 as XDR>::fits(attrs),
    ensures
        ({
            let args = ArgsView::Create((CreateTypeView::Directory, (name, attrs)));
            let bytes = be32(2) + Vec::<u8>::encode(name) + fattr4::encode(attrs);
            decode_args(6, minor, bytes + rest) == read(args, bytes.len())
        }),
{
    let args = ArgsView::Create((CreateTypeView::Directory, (name, attrs)));
    let bytes = be32(2) + Vec::<u8>::encode(name) + fattr4::encode(attrs);
    number_6();
    if let ArgsView::Create(m) = args {
        assert(CREATE4args::encode(m) =~= bytes);
        reads_as::<CREATE4args>(m, rest);
    }
}

/// CREATE of a link: its type, its target, its name, and its attributes.
pub proof fn create_link_on_the_wire(
    minor: u32,
    target: Seq<u8>,
    name: Seq<u8>,
    attrs: Map<nat, AttrView>,
    rest: Seq<u8>,
)
    requires
        target.len() <= u32::MAX,
        name.len() <= u32::MAX,
        <fattr4 as XDR>::fits(attrs),
    ensures
        ({
            let args = ArgsView::Create((CreateTypeView::Link(target), (name, attrs)));
            let bytes = be32(5) + Vec::<u8>::encode(target) + Vec::<u8>::encode(name) + fattr4::encode(attrs);
            decode_args(6, minor, bytes + rest) == read(args, bytes.len())
        }),
{
    let args = ArgsView::Create((CreateTypeView::Link(target), (name, attrs)));
    let bytes = be32(5) + Vec::<u8>::encode(target) + Vec::<u8>::encode(name) + fattr4::encode(attrs);
    number_6();
    if let ArgsView::Create(m) = args {
        assert(CREATE4args::encode(m) =~= bytes);
        reads_as::<CREATE4args>(m, rest);
    }
}

/// OPEN of a name that may not create: the seqid, both shares, the client and its owner,
/// that the file is not made, and the name.
pub proof fn open_by_name_on_the_wire(
    minor: u32,
    seqid: u32,
    access: u32,
    deny: u32,
    cid: u64,
    owner: Seq<u8>,
    name: Seq<u8>,
    rest: Seq<u8>,
)
    requires
        owner.len() <= u32::MAX,
        name.len() <= u32::MAX,
    ensures
        ({
            let args = ArgsView::Open((seqid, (access, (deny, ((cid, owner), (OpenFlagView::OPEN4_NOCREATE,
                OpenClaimView::CLAIM_NULL(name)))))));
            let bytes = be32(seqid) + be32(access) + be32(deny) + be64(cid) + Vec::<u8>::encode(owner)
                + be32(0) + be32(0)
                + Vec::<u8>::encode(name);
            decode_args(18, minor, bytes + rest) == read(args, bytes.len())
        }),
{
    let how = OpenFlagView::OPEN4_NOCREATE;
    let claim = OpenClaimView::CLAIM_NULL(name);
    open_reads(minor, seqid, access, deny, cid, owner, how, claim, rest);
    let head = open_head(seqid, access, deny, cid, owner);
    assert(head + be32(0) + (be32(0) + Vec::<u8>::encode(name)) =~= head + be32(0) + be32(0) + Vec::<u8>::encode(name));
}

/// OPEN of a name that may create: before the name stand that the file is made, unchecked
/// or guarded, and its attributes.
pub proof fn open_creating_on_the_wire(
    minor: u32,
    seqid: u32,
    access: u32,
    deny: u32,
    cid: u64,
    owner: Seq<u8>,
    guarded: bool,
    attrs: Map<nat, AttrView>,
    name: Seq<u8>,
    rest: Seq<u8>,
)
    requires
        owner.len() <= u32::MAX,
        name.len() <= u32::MAX,
        <fattr4 as XDR>::fits(attrs),
    ensures
        ({
            let args = ArgsView::Open((seqid, (access, (deny, ((cid, owner), (OpenFlagView::OPEN4_CREATE(if guarded {
                CreateHowView::GUARDED4(attrs)
            } else {
                CreateHowView::UNCHECKED4(attrs)
            }), OpenClaimView::CLAIM_NULL(name)))))));
            let bytes = be32(seqid) + be32(access) + be32(deny) + be64(cid) + Vec::<u8>::encode(owner) + be32(1)
                + be32(if guarded { 1 } else { 0 }) + fattr4::encode(attrs) + be32(0) + Vec::<u8>::encode(name);
            decode_args(18, minor, bytes + rest) == read(args, bytes.len())
        }),
{
    let how = OpenFlagView::OPEN4_CREATE(if guarded {
        CreateHowView::GUARDED4(attrs)
    } else {
        CreateHowView::UNCHECKED4(attrs)
    });
    let claim = OpenClaimView::CLAIM_NULL(name);
    open_reads(minor, seqid, access, deny, cid, owner, how, claim, rest);
    let head = open_head(seqid, access, deny, cid, owner);
    regrouped(
        head,
        be32(1),
        be32(if guarded { 1 } else { 0 }),
        fattr4::encode(attrs),
        be32(0),
        Vec::<u8>::encode(name),
    );
}

/// OPEN of a name that makes the file exclusively: before the name stands the verifier.
pub proof fn open_exclusive_on_the_wire(
    minor: u32,
    seqid: u32,
    access: u32,
    deny: u32,
    cid: u64,
    owner: Seq<u8>,
    verf: verifier4,
    name: Seq<u8>,
    rest: Seq<u8>,
)
    requires
        owner.len() <= u32::MAX,
        name.len() <= u32::MAX,
    ensures
        ({
            let args = ArgsView::Open((seqid, (access, (deny, ((cid, owner),
                (OpenFlagView::OPEN4_CREATE(CreateHowView::EXCLUSIVE4(verf)), OpenClaimView::CLAIM_NULL(name)))))));
            let bytes = be32(seqid) + be32(access) + be32(deny) + be64(cid) + Vec::<u8>::encode(owner)
                + be32(1) + be32(2)
                + verf@ + be32(0) + Vec::<u8>::encode(name);
            decode_args(18, minor, bytes + rest) == read(args, bytes.len())
        }),
{
    let how = OpenFlagView::OPEN4_CREATE(CreateHowView::EXCLUSIVE4(verf));
    let claim = OpenClaimView::CLAIM_NULL(name);
    open_reads(minor, seqid, access, deny, cid, owner, how, claim, rest);
    let head = open_head(seqid, access, deny, cid, owner);
    regrouped(head, be32(1), be32(2), verf@, be32(0), Vec::<u8>::encode(name));
}

/// OPEN of the current filehandle.
pub proof fn open_by_handle_on_the_wire(
    minor: u32,
    seqid: u32,
    access: u32,
    deny: u32,
    cid: u64,
    owner: Seq<u8>,
    rest: Seq<u8>,
)
    requires
        owner.len() <= u32::MAX,
    ensures
        ({
            let args = ArgsView::Open((seqid, (access, (deny, ((cid, owner), (OpenFlagView::OPEN4_NOCREATE,
                OpenClaimView::CLAIM_FH))))));
            let bytes = be32(seqid) + be32(access) + be32(deny) + be64(cid) + Vec::<u8>::encode(owner)
                + be32(0) + be32(4);
            decode_args(18, minor, bytes + rest) == read(args, bytes.len())
        }),
{
    let how = OpenFlagView::OPEN4_NOCREATE;
    open_reads(minor, seqid, access, deny, cid, owner, how, OpenClaimView::CLAIM_FH, rest);
}

/// OPEN that reclaims.
pub proof fn open_reclaiming_on_the_wire(
    minor: u32,
    seqid: u32,
    access: u32,
    deny: u32,
    cid: u64,
    owner: Seq<u8>,
    kind: u32,
    rest: Seq<u8>,
)
    requires
        owner.len() <= u32::MAX,
    ensures
        ({
            let args = ArgsView::Open((seqid, (access, (deny, ((cid, owner), (OpenFlagView::OPEN4_NOCREATE,
                OpenClaimView::CLAIM_PREVIOUS(kind)))))));
            let bytes = be32(seqid) + be32(access) + be32(deny) + be64(cid) + Vec::<u8>::encode(owner)
                + be32(0) + be32(1)
                + be32(kind);
            decode_args(18, minor, bytes + rest) == read(args, bytes.len())
        }),
{
    let how = OpenFlagView::OPEN4_NOCREATE;
    let claim = OpenClaimView::CLAIM_PREVIOUS(kind);
    open_reads(minor, seqid, access, deny, cid, owner, how, claim, rest);
    let head = open_head(seqid, access, deny, cid, owner);
    assert(head + be32(0) + (be32(1) + be32(kind)) =~= head + be32(0) + be32(1) + be32(kind));
}

/// CREATE_SESSION with no callback security but none: the client, the sequence, the flags,
/// the two channels, the callback's program, and one flavor.
pub proof fn create_session_on_the_wire(
    cid: u64,
    sequence: u32,
    flags: u32,
    fore: (u32, (u32, (u32, (u32, (u32, (u32, Seq<u32>)))))),
    back: (u32, (u32, (u32, (u32, (u32, (u32, Seq<u32>)))))),
    program: u32,
    rest: Seq<u8>,
)
    requires
        fore.1.1.1.1.1.1.len() <= u32::MAX,
        back.1.1.1.1.1.1.len() <= u32::MAX,
    ensures
        ({
            let args = ArgsView::CreateSession((cid, (sequence, (flags, (fore, (back, (program, seq![(0u32, None,
                None)])))))));
            let bytes = be64(cid) + be32(sequence) + be32(flags) + channel_asked(fore) + channel_asked(back)
                + be32(program)
                + be32(1) + be32(0);
            decode_args(43, 1, bytes + rest) == read(args, bytes.len())
        }),
{
    let sec = seq![(0u32, None::<(u32, (Seq<u8>, (u32, (u32, Seq<u32>))))>, None::<Seq<u8>>)];
    let m = (cid, (sequence, (flags, (fore, (back, (program, sec))))));
    create_session_bytes(cid, sequence, flags, fore, back, program);
    create_session_reads(m, rest);
}

// ---------------------------------------------------------------- numbers

proof fn number_3()
    ensures
        nfs_opnum4::of_number(3) == Some(nfs_opnum4::OP_ACCESS),
        forall|minor: u32, b: Seq<u8>| #[trigger] decode_args(3, minor, b) == decode_as::<ACCESS4args>(b),
{
    assert(nfs_opnum4::OP_ACCESS.number() == 3);
    let op = choose|v: nfs_opnum4| v.number() == 3;
    nfs_opnum4::numbers_differ(op, nfs_opnum4::OP_ACCESS);
    reveal(decode_op);
}

proof fn number_4()
    ensures
        nfs_opnum4::of_number(4) == Some(nfs_opnum4::OP_CLOSE),
        forall|minor: u32, b: Seq<u8>| #[trigger] decode_args(4, minor, b) == decode_as::<CLOSE4args>(b),
{
    assert(nfs_opnum4::OP_CLOSE.number() == 4);
    let op = choose|v: nfs_opnum4| v.number() == 4;
    nfs_opnum4::numbers_differ(op, nfs_opnum4::OP_CLOSE);
    reveal(decode_op);
}

proof fn number_5()
    ensures
        nfs_opnum4::of_number(5) == Some(nfs_opnum4::OP_COMMIT),
        forall|minor: u32, b: Seq<u8>| #[trigger] decode_args(5, minor, b) == decode_as::<COMMIT4args>(b),
{
    assert(nfs_opnum4::OP_COMMIT.number() == 5);
    let op = choose|v: nfs_opnum4| v.number() == 5;
    nfs_opnum4::numbers_differ(op, nfs_opnum4::OP_COMMIT);
    reveal(decode_op);
}

proof fn number_6()
    ensures
        nfs_opnum4::of_number(6) == Some(nfs_opnum4::OP_CREATE),
        forall|minor: u32, b: Seq<u8>| #[trigger] decode_args(6, minor, b) == decode_as::<CREATE4args>(b),
{
    assert(nfs_opnum4::OP_CREATE.number() == 6);
    let op = choose|v: nfs_opnum4| v.number() == 6;
    nfs_opnum4::numbers_differ(op, nfs_opnum4::OP_CREATE);
    reveal(decode_op);
}

proof fn number_9()
    ensures
        nfs_opnum4::of_number(9) == Some(nfs_opnum4::OP_GETATTR),
        forall|minor: u32, b: Seq<u8>| #[trigger] decode_args(9, minor, b) == decode_as::<GETATTR4args>(b),
{
    assert(nfs_opnum4::OP_GETATTR.number() == 9);
    let op = choose|v: nfs_opnum4| v.number() == 9;
    nfs_opnum4::numbers_differ(op, nfs_opnum4::OP_GETATTR);
    reveal(decode_op);
}

proof fn number_10()
    ensures
        nfs_opnum4::of_number(10) == Some(nfs_opnum4::OP_GETFH),
{
    assert(nfs_opnum4::OP_GETFH.number() == 10);
    let op = choose|v: nfs_opnum4| v.number() == 10;
    nfs_opnum4::numbers_differ(op, nfs_opnum4::OP_GETFH);
}

proof fn number_12()
    ensures
        nfs_opnum4::of_number(12) == Some(nfs_opnum4::OP_LOCK),
        forall|b: Seq<u8>| #[trigger] decode_args(12, 0, b) == decode_rejected::<LOCK4args>(b),
{
    assert(nfs_opnum4::OP_LOCK.number() == 12);
    let op = choose|v: nfs_opnum4| v.number() == 12;
    nfs_opnum4::numbers_differ(op, nfs_opnum4::OP_LOCK);
    reveal(decode_op);
}

proof fn number_15()
    ensures
        nfs_opnum4::of_number(15) == Some(nfs_opnum4::OP_LOOKUP),
        forall|minor: u32, b: Seq<u8>| #[trigger] decode_args(15, minor, b) == decode_as::<LOOKUP4args>(b),
{
    assert(nfs_opnum4::OP_LOOKUP.number() == 15);
    let op = choose|v: nfs_opnum4| v.number() == 15;
    nfs_opnum4::numbers_differ(op, nfs_opnum4::OP_LOOKUP);
    reveal(decode_op);
}

proof fn number_18()
    ensures
        nfs_opnum4::of_number(18) == Some(nfs_opnum4::OP_OPEN),
        forall|minor: u32, b: Seq<u8>| #[trigger] decode_args(18, minor, b) == decode_as::<OPEN4args>(b),
{
    assert(nfs_opnum4::OP_OPEN.number() == 18);
    let op = choose|v: nfs_opnum4| v.number() == 18;
    nfs_opnum4::numbers_differ(op, nfs_opnum4::OP_OPEN);
    reveal(decode_op);
}

proof fn number_20()
    ensures
        nfs_opnum4::of_number(20) is None,
        nfs_opnum40::of_number(20) == Some(nfs_opnum40::OP_OPEN_CONFIRM),
        forall|b: Seq<u8>| #[trigger] decode_args(20, 0, b) == decode_as::<OPEN_CONFIRM4args>(b),
{
    assert(nfs_opnum40::OP_OPEN_CONFIRM.number() == 20);
    let op = choose|v: nfs_opnum40| v.number() == 20;
    nfs_opnum40::numbers_differ(op, nfs_opnum40::OP_OPEN_CONFIRM);
    reveal(decode_op);
}

proof fn number_21()
    ensures
        nfs_opnum4::of_number(21) == Some(nfs_opnum4::OP_OPEN_DOWNGRADE),
        forall|b: Seq<u8>| #[trigger] decode_args(21, 0, b) == decode_rejected::<OPEN_DOWNGRADE4args>(b),
{
    assert(nfs_opnum4::OP_OPEN_DOWNGRADE.number() == 21);
    let op = choose|v: nfs_opnum4| v.number() == 21;
    nfs_opnum4::numbers_differ(op, nfs_opnum4::OP_OPEN_DOWNGRADE);
    reveal(decode_op);
}

proof fn number_22()
    ensures
        nfs_opnum4::of_number(22) == Some(nfs_opnum4::OP_PUTFH),
        forall|minor: u32, b: Seq<u8>| #[trigger] decode_args(22, minor, b) == decode_as::<PUTFH4args>(b),
{
    assert(nfs_opnum4::OP_PUTFH.number() == 22);
    let op = choose|v: nfs_opnum4| v.number() == 22;
    nfs_opnum4::numbers_differ(op, nfs_opnum4::OP_PUTFH);
    reveal(decode_op);
}

proof fn number_24()
    ensures
        nfs_opnum4::of_number(24) == Some(nfs_opnum4::OP_PUTROOTFH),
{
    assert(nfs_opnum4::OP_PUTROOTFH.number() == 24);
    let op = choose|v: nfs_opnum4| v.number() == 24;
    nfs_opnum4::numbers_differ(op, nfs_opnum4::OP_PUTROOTFH);
}

proof fn number_25()
    ensures
        nfs_opnum4::of_number(25) == Some(nfs_opnum4::OP_READ),
        forall|minor: u32, b: Seq<u8>| #[trigger] decode_args(25, minor, b) == decode_as::<READ4args>(b),
{
    assert(nfs_opnum4::OP_READ.number() == 25);
    let op = choose|v: nfs_opnum4| v.number() == 25;
    nfs_opnum4::numbers_differ(op, nfs_opnum4::OP_READ);
    reveal(decode_op);
}

proof fn number_26()
    ensures
        nfs_opnum4::of_number(26) == Some(nfs_opnum4::OP_READDIR),
        forall|minor: u32, b: Seq<u8>| #[trigger] decode_args(26, minor, b) == decode_as::<READDIR4args>(b),
{
    assert(nfs_opnum4::OP_READDIR.number() == 26);
    let op = choose|v: nfs_opnum4| v.number() == 26;
    nfs_opnum4::numbers_differ(op, nfs_opnum4::OP_READDIR);
    reveal(decode_op);
}

proof fn number_27()
    ensures
        nfs_opnum4::of_number(27) == Some(nfs_opnum4::OP_READLINK),
{
    assert(nfs_opnum4::OP_READLINK.number() == 27);
    let op = choose|v: nfs_opnum4| v.number() == 27;
    nfs_opnum4::numbers_differ(op, nfs_opnum4::OP_READLINK);
}

proof fn number_28()
    ensures
        nfs_opnum4::of_number(28) == Some(nfs_opnum4::OP_REMOVE),
        forall|minor: u32, b: Seq<u8>| #[trigger] decode_args(28, minor, b) == decode_as::<REMOVE4args>(b),
{
    assert(nfs_opnum4::OP_REMOVE.number() == 28);
    let op = choose|v: nfs_opnum4| v.number() == 28;
    nfs_opnum4::numbers_differ(op, nfs_opnum4::OP_REMOVE);
    reveal(decode_op);
}

proof fn number_29()
    ensures
        nfs_opnum4::of_number(29) == Some(nfs_opnum4::OP_RENAME),
        forall|minor: u32, b: Seq<u8>| #[trigger] decode_args(29, minor, b) == decode_as::<RENAME4args>(b),
{
    assert(nfs_opnum4::OP_RENAME.number() == 29);
    let op = choose|v: nfs_opnum4| v.number() == 29;
    nfs_opnum4::numbers_differ(op, nfs_opnum4::OP_RENAME);
    reveal(decode_op);
}

proof fn number_30()
    ensures
        nfs_opnum4::of_number(30) is None,
        nfs_opnum40::of_number(30) == Some(nfs_opnum40::OP_RENEW),
        forall|b: Seq<u8>| #[trigger] decode_args(30, 0, b) == decode_as::<RENEW4args>(b),
{
    assert(nfs_opnum40::OP_RENEW.number() == 30);
    let op = choose|v: nfs_opnum40| v.number() == 30;
    nfs_opnum40::numbers_differ(op, nfs_opnum40::OP_RENEW);
    reveal(decode_op);
}

proof fn number_31()
    ensures
        nfs_opnum4::of_number(31) == Some(nfs_opnum4::OP_RESTOREFH),
{
    assert(nfs_opnum4::OP_RESTOREFH.number() == 31);
    let op = choose|v: nfs_opnum4| v.number() == 31;
    nfs_opnum4::numbers_differ(op, nfs_opnum4::OP_RESTOREFH);
}

proof fn number_32()
    ensures
        nfs_opnum4::of_number(32) == Some(nfs_opnum4::OP_SAVEFH),
{
    assert(nfs_opnum4::OP_SAVEFH.number() == 32);
    let op = choose|v: nfs_opnum4| v.number() == 32;
    nfs_opnum4::numbers_differ(op, nfs_opnum4::OP_SAVEFH);
}

proof fn number_33()
    ensures
        nfs_opnum4::of_number(33) == Some(nfs_opnum4::OP_SECINFO),
        forall|minor: u32, b: Seq<u8>| #[trigger] decode_args(33, minor, b) == decode_as::<SECINFO4args>(b),
{
    assert(nfs_opnum4::OP_SECINFO.number() == 33);
    let op = choose|v: nfs_opnum4| v.number() == 33;
    nfs_opnum4::numbers_differ(op, nfs_opnum4::OP_SECINFO);
    reveal(decode_op);
}

proof fn number_34()
    ensures
        nfs_opnum4::of_number(34) == Some(nfs_opnum4::OP_SETATTR),
        forall|minor: u32, b: Seq<u8>| #[trigger] decode_args(34, minor, b) == decode_as::<SETATTR4args>(b),
{
    assert(nfs_opnum4::OP_SETATTR.number() == 34);
    let op = choose|v: nfs_opnum4| v.number() == 34;
    nfs_opnum4::numbers_differ(op, nfs_opnum4::OP_SETATTR);
    reveal(decode_op);
}

proof fn number_35()
    ensures
        nfs_opnum4::of_number(35) is None,
        nfs_opnum40::of_number(35) == Some(nfs_opnum40::OP_SETCLIENTID),
        forall|b: Seq<u8>| #[trigger] decode_args(35, 0, b) == decode_as::<SETCLIENTID4args>(b),
{
    assert(nfs_opnum40::OP_SETCLIENTID.number() == 35);
    let op = choose|v: nfs_opnum40| v.number() == 35;
    nfs_opnum40::numbers_differ(op, nfs_opnum40::OP_SETCLIENTID);
    reveal(decode_op);
}

proof fn number_36()
    ensures
        nfs_opnum4::of_number(36) is None,
        nfs_opnum40::of_number(36) == Some(nfs_opnum40::OP_SETCLIENTID_CONFIRM),
        forall|b: Seq<u8>| #[trigger] decode_args(36, 0, b) == decode_as::<SETCLIENTID_CONFIRM4args>(b),
{
    assert(nfs_opnum40::OP_SETCLIENTID_CONFIRM.number() == 36);
    let op = choose|v: nfs_opnum40| v.number() == 36;
    nfs_opnum40::numbers_differ(op, nfs_opnum40::OP_SETCLIENTID_CONFIRM);
    reveal(decode_op);
}

proof fn number_38()
    ensures
        nfs_opnum4::of_number(38) == Some(nfs_opnum4::OP_WRITE),
        forall|minor: u32, b: Seq<u8>| #[trigger] decode_args(38, minor, b) == decode_as::<WRITE4args>(b),
{
    assert(nfs_opnum4::OP_WRITE.number() == 38);
    let op = choose|v: nfs_opnum4| v.number() == 38;
    nfs_opnum4::numbers_differ(op, nfs_opnum4::OP_WRITE);
    reveal(decode_op);
}

proof fn number_39()
    ensures
        nfs_opnum4::of_number(39) is None,
        nfs_opnum40::of_number(39) == Some(nfs_opnum40::OP_RELEASE_LOCKOWNER),
        forall|b: Seq<u8>| #[trigger] decode_args(39, 0, b) == decode_as::<RELEASE_LOCKOWNER4args>(b),
{
    assert(nfs_opnum40::OP_RELEASE_LOCKOWNER.number() == 39);
    let op = choose|v: nfs_opnum40| v.number() == 39;
    nfs_opnum40::numbers_differ(op, nfs_opnum40::OP_RELEASE_LOCKOWNER);
    reveal(decode_op);
}

pub(crate) proof fn number_42()
    ensures
        nfs_opnum4::of_number(42) == Some(nfs_opnum4::OP_EXCHANGE_ID),
        forall|b: Seq<u8>| #[trigger] decode_args(42, 1, b) == decode_as::<EXCHANGE_ID4args>(b),
{
    assert(nfs_opnum4::OP_EXCHANGE_ID.number() == 42);
    let op = choose|v: nfs_opnum4| v.number() == 42;
    nfs_opnum4::numbers_differ(op, nfs_opnum4::OP_EXCHANGE_ID);
    reveal(decode_op);
}

pub(crate) proof fn number_43()
    ensures
        nfs_opnum4::of_number(43) == Some(nfs_opnum4::OP_CREATE_SESSION),
        forall|b: Seq<u8>| #[trigger] decode_args(43, 1, b) == decode_as::<CREATE_SESSION4args>(b),
{
    assert(nfs_opnum4::OP_CREATE_SESSION.number() == 43);
    let op = choose|v: nfs_opnum4| v.number() == 43;
    nfs_opnum4::numbers_differ(op, nfs_opnum4::OP_CREATE_SESSION);
    reveal(decode_op);
}

pub(crate) proof fn number_44()
    ensures
        nfs_opnum4::of_number(44) == Some(nfs_opnum4::OP_DESTROY_SESSION),
        forall|b: Seq<u8>| #[trigger] decode_args(44, 1, b) == decode_as::<DESTROY_SESSION4args>(b),
{
    assert(nfs_opnum4::OP_DESTROY_SESSION.number() == 44);
    let op = choose|v: nfs_opnum4| v.number() == 44;
    nfs_opnum4::numbers_differ(op, nfs_opnum4::OP_DESTROY_SESSION);
    reveal(decode_op);
}

proof fn number_52()
    ensures
        nfs_opnum4::of_number(52) == Some(nfs_opnum4::OP_SECINFO_NO_NAME),
        forall|b: Seq<u8>| #[trigger] decode_args(52, 1, b) == decode_as::<SECINFO_NO_NAME4args>(b),
{
    assert(nfs_opnum4::OP_SECINFO_NO_NAME.number() == 52);
    let op = choose|v: nfs_opnum4| v.number() == 52;
    nfs_opnum4::numbers_differ(op, nfs_opnum4::OP_SECINFO_NO_NAME);
    reveal(decode_op);
}

pub(crate) proof fn number_53()
    ensures
        nfs_opnum4::of_number(53) == Some(nfs_opnum4::OP_SEQUENCE),
        forall|b: Seq<u8>| #[trigger] decode_args(53, 1, b) == decode_as::<SEQUENCE4args>(b),
{
    assert(nfs_opnum4::OP_SEQUENCE.number() == 53);
    let op = choose|v: nfs_opnum4| v.number() == 53;
    nfs_opnum4::numbers_differ(op, nfs_opnum4::OP_SEQUENCE);
    reveal(decode_op);
}

proof fn number_55()
    ensures
        nfs_opnum4::of_number(55) == Some(nfs_opnum4::OP_TEST_STATEID),
        forall|minor: u32, b: Seq<u8>| #[trigger] decode_args(55, minor, b) == decode_as::<TEST_STATEID4args>(b),
{
    assert(nfs_opnum4::OP_TEST_STATEID.number() == 55);
    let op = choose|v: nfs_opnum4| v.number() == 55;
    nfs_opnum4::numbers_differ(op, nfs_opnum4::OP_TEST_STATEID);
    reveal(decode_op);
}

pub(crate) proof fn number_57()
    ensures
        nfs_opnum4::of_number(57) == Some(nfs_opnum4::OP_DESTROY_CLIENTID),
        forall|b: Seq<u8>| #[trigger] decode_args(57, 1, b) == decode_as::<DESTROY_CLIENTID4args>(b),
{
    assert(nfs_opnum4::OP_DESTROY_CLIENTID.number() == 57);
    let op = choose|v: nfs_opnum4| v.number() == 57;
    nfs_opnum4::numbers_differ(op, nfs_opnum4::OP_DESTROY_CLIENTID);
    reveal(decode_op);
}

proof fn number_58()
    ensures
        nfs_opnum4::of_number(58) == Some(nfs_opnum4::OP_RECLAIM_COMPLETE),
        forall|b: Seq<u8>| #[trigger] decode_args(58, 1, b) == decode_as::<RECLAIM_COMPLETE4args>(b),
{
    assert(nfs_opnum4::OP_RECLAIM_COMPLETE.number() == 58);
    let op = choose|v: nfs_opnum4| v.number() == 58;
    nfs_opnum4::numbers_differ(op, nfs_opnum4::OP_RECLAIM_COMPLETE);
    reveal(decode_op);
}

/// The number of each status.
pub proof fn statuses_have_their_numbers()
    ensures
        nfsstat4::NFS4_OK.number() == 0,
        nfsstat4::NFS4ERR_PERM.number() == 1,
        nfsstat4::NFS4ERR_NOENT.number() == 2,
        nfsstat4::NFS4ERR_IO.number() == 5,
        nfsstat4::NFS4ERR_NXIO.number() == 6,
        nfsstat4::NFS4ERR_ACCESS.number() == 13,
        nfsstat4::NFS4ERR_EXIST.number() == 17,
        nfsstat4::NFS4ERR_XDEV.number() == 18,
        nfsstat4::NFS4ERR_NOTDIR.number() == 20,
        nfsstat4::NFS4ERR_ISDIR.number() == 21,
        nfsstat4::NFS4ERR_INVAL.number() == 22,
        nfsstat4::NFS4ERR_FBIG.number() == 27,
        nfsstat4::NFS4ERR_NOSPC.number() == 28,
        nfsstat4::NFS4ERR_ROFS.number() == 30,
        nfsstat4::NFS4ERR_MLINK.number() == 31,
        nfsstat4::NFS4ERR_NAMETOOLONG.number() == 63,
        nfsstat4::NFS4ERR_NOTEMPTY.number() == 66,
        nfsstat4::NFS4ERR_DQUOT.number() == 69,
        nfsstat4::NFS4ERR_STALE.number() == 70,
        nfsstat4::NFS4ERR_BADHANDLE.number() == 10001,
        nfsstat4::NFS4ERR_BAD_COOKIE.number() == 10003,
        nfsstat4::NFS4ERR_NOTSUPP.number() == 10004,
        nfsstat4::NFS4ERR_TOOSMALL.number() == 10005,
        nfsstat4::NFS4ERR_SERVERFAULT.number() == 10006,
        nfsstat4::NFS4ERR_BADTYPE.number() == 10007,
        nfsstat4::NFS4ERR_DELAY.number() == 10008,
        nfsstat4::NFS4ERR_SAME.number() == 10009,
        nfsstat4::NFS4ERR_DENIED.number() == 10010,
        nfsstat4::NFS4ERR_EXPIRED.number() == 10011,
        nfsstat4::NFS4ERR_LOCKED.number() == 10012,
        nfsstat4::NFS4ERR_GRACE.number() == 10013,
        nfsstat4::NFS4ERR_FHEXPIRED.number() == 10014,
        nfsstat4::NFS4ERR_SHARE_DENIED.number() == 10015,
        nfsstat4::NFS4ERR_WRONGSEC.number() == 10016,
        nfsstat4::NFS4ERR_CLID_INUSE.number() == 10017,
        nfsstat4::NFS4ERR_RESOURCE.number() == 10018,
        nfsstat4::NFS4ERR_MOVED.number() == 10019,
        nfsstat4::NFS4ERR_NOFILEHANDLE.number() == 10020,
        nfsstat4::NFS4ERR_MINOR_VERS_MISMATCH.number() == 10021,
        nfsstat4::NFS4ERR_STALE_CLIENTID.number() == 10022,
        nfsstat4::NFS4ERR_STALE_STATEID.number() == 10023,
        nfsstat4::NFS4ERR_OLD_STATEID.number() == 10024,
        nfsstat4::NFS4ERR_BAD_STATEID.number() == 10025,
        nfsstat4::NFS4ERR_BAD_SEQID.number() == 10026,
        nfsstat4::NFS4ERR_NOT_SAME.number() == 10027,
        nfsstat4::NFS4ERR_LOCK_RANGE.number() == 10028,
        nfsstat4::NFS4ERR_SYMLINK.number() == 10029,
        nfsstat4::NFS4ERR_RESTOREFH.number() == 10030,
        nfsstat4::NFS4ERR_LEASE_MOVED.number() == 10031,
        nfsstat4::NFS4ERR_ATTRNOTSUPP.number() == 10032,
        nfsstat4::NFS4ERR_NO_GRACE.number() == 10033,
        nfsstat4::NFS4ERR_RECLAIM_BAD.number() == 10034,
        nfsstat4::NFS4ERR_RECLAIM_CONFLICT.number() == 10035,
        nfsstat4::NFS4ERR_BADXDR.number() == 10036,
        nfsstat4::NFS4ERR_LOCKS_HELD.number() == 10037,
        nfsstat4::NFS4ERR_OPENMODE.number() == 10038,
        nfsstat4::NFS4ERR_BADOWNER.number() == 10039,
        nfsstat4::NFS4ERR_BADCHAR.number() == 10040,
        nfsstat4::NFS4ERR_BADNAME.number() == 10041,
        nfsstat4::NFS4ERR_BAD_RANGE.number() == 10042,
        nfsstat4::NFS4ERR_LOCK_NOTSUPP.number() == 10043,
        nfsstat4::NFS4ERR_OP_ILLEGAL.number() == 10044,
        nfsstat4::NFS4ERR_DEADLOCK.number() == 10045,
        nfsstat4::NFS4ERR_FILE_OPEN.number() == 10046,
        nfsstat4::NFS4ERR_ADMIN_REVOKED.number() == 10047,
        nfsstat4::NFS4ERR_CB_PATH_DOWN.number() == 10048,
        nfsstat4::NFS4ERR_BADIOMODE.number() == 10049,
        nfsstat4::NFS4ERR_BADLAYOUT.number() == 10050,
        nfsstat4::NFS4ERR_BAD_SESSION_DIGEST.number() == 10051,
        nfsstat4::NFS4ERR_BADSESSION.number() == 10052,
        nfsstat4::NFS4ERR_BADSLOT.number() == 10053,
        nfsstat4::NFS4ERR_COMPLETE_ALREADY.number() == 10054,
        nfsstat4::NFS4ERR_CONN_NOT_BOUND_TO_SESSION.number() == 10055,
        nfsstat4::NFS4ERR_DELEG_ALREADY_WANTED.number() == 10056,
        nfsstat4::NFS4ERR_BACK_CHAN_BUSY.number() == 10057,
        nfsstat4::NFS4ERR_LAYOUTTRYLATER.number() == 10058,
        nfsstat4::NFS4ERR_LAYOUTUNAVAILABLE.number() == 10059,
        nfsstat4::NFS4ERR_NOMATCHING_LAYOUT.number() == 10060,
        nfsstat4::NFS4ERR_RECALLCONFLICT.number() == 10061,
        nfsstat4::NFS4ERR_UNKNOWN_LAYOUTTYPE.number() == 10062,
        nfsstat4::NFS4ERR_SEQ_MISORDERED.number() == 10063,
        nfsstat4::NFS4ERR_SEQUENCE_POS.number() == 10064,
        nfsstat4::NFS4ERR_REQ_TOO_BIG.number() == 10065,
        nfsstat4::NFS4ERR_REP_TOO_BIG.number() == 10066,
        nfsstat4::NFS4ERR_REP_TOO_BIG_TO_CACHE.number() == 10067,
        nfsstat4::NFS4ERR_RETRY_UNCACHED_REP.number() == 10068,
        nfsstat4::NFS4ERR_UNSAFE_COMPOUND.number() == 10069,
        nfsstat4::NFS4ERR_TOO_MANY_OPS.number() == 10070,
        nfsstat4::NFS4ERR_OP_NOT_IN_SESSION.number() == 10071,
        nfsstat4::NFS4ERR_HASH_ALG_UNSUPP.number() == 10072,
        nfsstat4::NFS4ERR_CLIENTID_BUSY.number() == 10074,
        nfsstat4::NFS4ERR_PNFS_IO_HOLE.number() == 10075,
        nfsstat4::NFS4ERR_SEQ_FALSE_RETRY.number() == 10076,
        nfsstat4::NFS4ERR_BAD_HIGH_SLOT.number() == 10077,
        nfsstat4::NFS4ERR_DEADSESSION.number() == 10078,
        nfsstat4::NFS4ERR_ENCR_ALG_UNSUPP.number() == 10079,
        nfsstat4::NFS4ERR_PNFS_NO_LAYOUT.number() == 10080,
        nfsstat4::NFS4ERR_NOT_ONLY_OP.number() == 10081,
        nfsstat4::NFS4ERR_WRONG_CRED.number() == 10082,
        nfsstat4::NFS4ERR_WRONG_TYPE.number() == 10083,
        nfsstat4::NFS4ERR_DIRDELEG_UNAVAIL.number() == 10084,
        nfsstat4::NFS4ERR_REJECT_DELEG.number() == 10085,
        nfsstat4::NFS4ERR_RETURNCONFLICT.number() == 10086,
        nfsstat4::NFS4ERR_DELEG_REVOKED.number() == 10087,
{
}

/// The number that the file system's own protocol gives a status.
pub open spec fn number_below(e: nfsstat3) -> u32 {
    match e {
        nfsstat3::NFS3_OK => 0,
        nfsstat3::NFS3ERR_PERM => 1,
        nfsstat3::NFS3ERR_NOENT => 2,
        nfsstat3::NFS3ERR_IO => 5,
        nfsstat3::NFS3ERR_NXIO => 6,
        nfsstat3::NFS3ERR_ACCES => 13,
        nfsstat3::NFS3ERR_EXIST => 17,
        nfsstat3::NFS3ERR_XDEV => 18,
        nfsstat3::NFS3ERR_NODEV => 19,
        nfsstat3::NFS3ERR_NOTDIR => 20,
        nfsstat3::NFS3ERR_ISDIR => 21,
        nfsstat3::NFS3ERR_INVAL => 22,
        nfsstat3::NFS3ERR_FBIG => 27,
        nfsstat3::NFS3ERR_NOSPC => 28,
        nfsstat3::NFS3ERR_ROFS => 30,
        nfsstat3::NFS3ERR_MLINK => 31,
        nfsstat3::NFS3ERR_NAMETOOLONG => 63,
        nfsstat3::NFS3ERR_NOTEMPTY => 66,
        nfsstat3::NFS3ERR_DQUOT => 69,
        nfsstat3::NFS3ERR_STALE => 70,
        nfsstat3::NFS3ERR_REMOTE => 71,
        nfsstat3::NFS3ERR_BADHANDLE => 10001,
        nfsstat3::NFS3ERR_NOT_SYNC => 10002,
        nfsstat3::NFS3ERR_BAD_COOKIE => 10003,
        nfsstat3::NFS3ERR_NOTSUPP => 10004,
        nfsstat3::NFS3ERR_TOOSMALL => 10005,
        nfsstat3::NFS3ERR_SERVERFAULT => 10006,
        nfsstat3::NFS3ERR_BADTYPE => 10007,
        nfsstat3::NFS3ERR_JUKEBOX => 10008,
    }
}

/// A failure of the file system is passed on under the number that it has there. The few
/// that the protocol does not pass on are faults of the server.
pub proof fn failures_keep_their_numbers(e: nfsstat3)
    ensures
        ({
            let n = number_below(e);
            let lost = n == 19 || n == 71 || n == 10002 || n == 10003 || n == 10005;
            status_of(e).number() == (if lost { 10006 } else { n })
        }),
{
}

/// A file is passed on as what it is: the two protocols number the types alike.
pub proof fn types_keep_their_numbers(t: ftype3)
    ensures
        ftype_of(t).number() == (match t {
            ftype3::NF3REG => 1u32,
            ftype3::NF3DIR => 2,
            ftype3::NF3BLK => 3,
            ftype3::NF3CHR => 4,
            ftype3::NF3LNK => 5,
            ftype3::NF3SOCK => 6,
            ftype3::NF3FIFO => 7,
        }),
        ftype4::NF4ATTRDIR.number() == 8,
        ftype4::NF4NAMEDATTR.number() == 9,
{
}

/// How durably a WRITE asks to be done.
pub proof fn stability_has_its_numbers()
    ensures
        stable_how4::UNSTABLE4.number() == 0,
        stable_how4::DATA_SYNC4.number() == 1,
        stable_how4::FILE_SYNC4.number() == 2,
{
}

// ---------------------------------------------------------------- what cannot be read

/// Where the bytes end inside a value, that is what is told.
pub proof fn what_ends_early_is_told_so(b: Seq<u8>, n: u32)
    ensures
        b.len() < 4 ==> u32::decode(b) == Err::<(u32, nat), XdrError>(XdrError::UnexpectedEof),
        b.len() < 8 ==> u64::decode(b) == Err::<(u64, nat), XdrError>(XdrError::UnexpectedEof),
        b.len() < 4 ==> bool::decode(b) == Err::<(bool, nat), XdrError>(XdrError::UnexpectedEof),
        b.len() < 8 ==> <verifier4 as XDR>::decode(b) == Err::<(verifier4, nat), XdrError>(XdrError::UnexpectedEof),
        b.len() < n ==> Vec::<u8>::decode(be32(n) + b) == Err::<(Seq<u8>, nat), XdrError>(XdrError::UnexpectedEof),
{
    u32::round_trip(n, b);
}

/// A number that stands for nothing is invalid.
pub proof fn what_is_not_known_is_invalid(n: u32, rest: Seq<u8>)
    ensures
        n > 2 ==> stable_how4::decode(be32(n) + rest) == Err::<(stable_how4, nat), XdrError>(XdrError::InvalidData),
        n > 1 ==> secinfo_style4::decode(be32(n) + rest) == Err::<(secinfo_style4, nat), XdrError>(
            XdrError::InvalidData,
        ),
        n > 2 ==> state_protect_how4::decode(be32(n) + rest) == Err::<(state_protect_how4, nat), XdrError>(
            XdrError::InvalidData,
        ),
        n == 0 || n > 9 ==> createtype4::decode(be32(n) + rest) == Err::<(CreateTypeView, nat), XdrError>(
            XdrError::InvalidData,
        ),
        n > 1 ==> openflag4::decode(be32(n) + rest) == Err::<(OpenFlagView, nat), XdrError>(XdrError::InvalidData),
        n > 3 ==> createhow4::decode(be32(n) + rest) == Err::<(CreateHowView, nat), XdrError>(XdrError::InvalidData),
        n > 6 ==> open_claim4::decode(be32(n) + rest) == Err::<(OpenClaimView, nat), XdrError>(XdrError::InvalidData),
{
    u32::round_trip(n, rest);
}

// ---------------------------------------------------------------- records

/// What a stateid, a time, a file system's number, a device's, an access control entry and
/// an implementation's id look like, field by field.
pub proof fn records_have_their_layout(
    sid: stateid4,
    t: nfstime4,
    fsid: fsid4,
    dev: specdata4,
    ace: nfsace4,
    id: nfs_impl_id4,
    sys: cbsp_authsys,
)
    ensures
        stateid4::encode(sid.model()) == be32(sid.seqid) + sid.other@,
        t.seconds >= 0 ==> nfstime4::encode(t.model()) == be64(t.seconds as u64) + be32(t.nseconds),
        fsid4::encode(fsid.model()) == be64(fsid.major) + be64(fsid.minor),
        specdata4::encode(dev.model()) == be32(dev.specdata1) + be32(dev.specdata2),
        nfsace4::encode(ace.model()) == be32(ace.acetype) + be32(ace.aceflag) + be32(ace.acemask) + Vec::<u8>::encode(
            ace.who.0@,
        ),
        nfs_impl_id4::encode(id.model()) == Vec::<u8>::encode(id.nii_domain.0@) + Vec::<u8>::encode(id.nii_name.0@)
            + nfstime4::encode(id.nii_date.model()),
        cbsp_authsys::encode(sys.model()) == be32(sys.stamp) + Vec::<u8>::encode(sys.machinename.0@) + be32(sys.uid)
            + be32(sys.gid) + Vec::<u32>::encode(sys.gids@),
{
    assert(nfsace4::encode(ace.model()) =~= be32(ace.acetype) + be32(ace.aceflag) + be32(ace.acemask) + Vec::<
        u8,
    >::encode(ace.who.0@));
    assert(nfs_impl_id4::encode(id.model()) =~= Vec::<u8>::encode(id.nii_domain.0@) + Vec::<u8>::encode(
        id.nii_name.0@,
    ) + nfstime4::encode(id.nii_date.model()));
    assert(cbsp_authsys::encode(sys.model()) =~= be32(sys.stamp) + Vec::<u8>::encode(sys.machinename.0@) + be32(
        sys.uid,
    ) + be32(sys.gid) + Vec::<u32>::encode(sys.gids@));
}

/// What arguments say is what their fields hold, in the order in which they stand on the
/// wire.
pub proof fn arguments_say_what_their_fields_hold(
    read_args: READ4args,
    write_args: WRITE4args,
    rename_args: RENAME4args,
    readdir_args: READDIR4args,
    close_args: CLOSE4args,
    sequence_args: SEQUENCE4args,
    open_args: OPEN4args,
)
    ensures
        READ4args::encode(read_args.model()) == be32(read_args.stateid.seqid) + read_args.stateid.other@ + (be64(
            read_args.offset,
        ) + be32(read_args.count)),
        WRITE4args::encode(write_args.model()) == be32(write_args.stateid.seqid) + write_args.stateid.other@ + (be64(
            write_args.offset,
        ) + (be32(write_args.stable.number()) + Vec::<u8>::encode(write_args.data@))),
        RENAME4args::encode(rename_args.model()) == Vec::<u8>::encode(rename_args.oldname.0@) + Vec::<u8>::encode(
            rename_args.newname.0@,
        ),
        READDIR4args::encode(readdir_args.model()) == be64(readdir_args.cookie) + (readdir_args.cookieverf@ + (be32(
            readdir_args.dircount,
        ) + (be32(readdir_args.maxcount) + Vec::<u32>::encode(readdir_args.attr_request@)))),
        CLOSE4args::encode(close_args.model()) == be32(close_args.seqid) + (be32(close_args.open_stateid.seqid)
            + close_args.open_stateid.other@),
        SEQUENCE4args::encode(sequence_args.model()) == sequence_args.sa_sessionid@ + (be32(
            sequence_args.sa_sequenceid,
        ) + (be32(sequence_args.sa_slotid) + (be32(sequence_args.sa_highest_slotid) + be32(
            if sequence_args.sa_cachethis { 1 } else { 0 },
        )))),
        open_args.model().0 == open_args.seqid,
        open_args.model().1.0 == open_args.share_access,
        open_args.model().1.1.0 == open_args.share_deny,
        open_args.model().1.1.1.0 == (open_args.owner.clientid, open_args.owner.owner@),
{
}

} // verus!
