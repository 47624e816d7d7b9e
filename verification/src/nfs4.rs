//! NFSv4 protocol types: what the COMPOUND procedure of minor versions 0 and 1
//! carries.

use vstd::prelude::*;

use crate::model::Model;
use crate::nfs::{nfs_fh, nfsstring, opaque, specdata};
use crate::nfs3::{ftype3, nfsstat3, nfstime3};
use crate::word::{be32, be32_len};
use crate::xdr::{Reader, XdrError, XDR};

pub mod args;
pub mod attr;
pub mod compound;
pub mod handlers;
pub mod session;
pub mod state;
pub mod state_inv;
pub mod state_conduct;
pub mod state_laws;
pub mod state_spec;

verus! {

broadcast use be32_len;

// ---- RPC identity ----
pub const VERSION: u32 = 4;

// ---- Sizes ----
pub const NFS4_FHSIZE: u32 = 128;

pub const NFS4_VERIFIER_SIZE: usize = 8;

pub const NFS4_OTHER_SIZE: usize = 12;

pub const NFS4_SESSIONID_SIZE: usize = 16;

pub const NFS4_LEASE_TIME: u32 = 90;

// ---- Basic type aliases ----
pub type nfs_fh4 = nfs_fh;

pub type fileid4 = u64;

pub type offset4 = u64;

pub type length4 = u64;

pub type count4 = u32;

pub type mode4 = u32;

pub type qop4 = u32;

pub type sequenceid4 = u32;

pub type clientid4 = u64;

pub type seqid4 = u32;

pub type slotid4 = u32;

pub type verifier4 = [opaque; NFS4_VERIFIER_SIZE];

pub type sessionid4 = [opaque; NFS4_SESSIONID_SIZE];

pub type bitmap4 = Vec<u32>;

pub type utf8str_cs = nfsstring;

pub type utf8str_cis = nfsstring;

pub type utf8str_mixed = nfsstring;

pub type component4 = nfsstring;

pub type linktext4 = nfsstring;

pub type attrlist4 = Vec<u8>;

pub type nfs_lease4 = u32;

pub type changeid4 = u64;

pub type secret4 = Vec<u8>;

pub type specdata4 = specdata;

/// nfsstat4: how an operation ends.
#[derive(Copy, Clone, Debug, PartialEq, Eq, Structural)]
pub enum nfsstat4 {
    NFS4_OK,
    NFS4ERR_PERM,
    NFS4ERR_NOENT,
    NFS4ERR_IO,
    NFS4ERR_NXIO,
    NFS4ERR_ACCESS,
    NFS4ERR_EXIST,
    NFS4ERR_XDEV,
    NFS4ERR_NOTDIR,
    NFS4ERR_ISDIR,
    NFS4ERR_INVAL,
    NFS4ERR_FBIG,
    NFS4ERR_NOSPC,
    NFS4ERR_ROFS,
    NFS4ERR_MLINK,
    NFS4ERR_NAMETOOLONG,
    NFS4ERR_NOTEMPTY,
    NFS4ERR_DQUOT,
    NFS4ERR_STALE,
    NFS4ERR_BADHANDLE,
    NFS4ERR_BAD_COOKIE,
    NFS4ERR_NOTSUPP,
    NFS4ERR_TOOSMALL,
    NFS4ERR_SERVERFAULT,
    NFS4ERR_BADTYPE,
    NFS4ERR_DELAY,
    NFS4ERR_SAME,
    NFS4ERR_DENIED,
    NFS4ERR_EXPIRED,
    NFS4ERR_LOCKED,
    NFS4ERR_GRACE,
    NFS4ERR_FHEXPIRED,
    NFS4ERR_SHARE_DENIED,
    NFS4ERR_WRONGSEC,
    NFS4ERR_CLID_INUSE,
    NFS4ERR_RESOURCE,
    NFS4ERR_MOVED,
    NFS4ERR_NOFILEHANDLE,
    NFS4ERR_MINOR_VERS_MISMATCH,
    NFS4ERR_STALE_CLIENTID,
    NFS4ERR_STALE_STATEID,
    NFS4ERR_OLD_STATEID,
    NFS4ERR_BAD_STATEID,
    NFS4ERR_BAD_SEQID,
    NFS4ERR_NOT_SAME,
    NFS4ERR_LOCK_RANGE,
    NFS4ERR_SYMLINK,
    NFS4ERR_RESTOREFH,
    NFS4ERR_LEASE_MOVED,
    NFS4ERR_ATTRNOTSUPP,
    NFS4ERR_NO_GRACE,
    NFS4ERR_RECLAIM_BAD,
    NFS4ERR_RECLAIM_CONFLICT,
    NFS4ERR_BADXDR,
    NFS4ERR_LOCKS_HELD,
    NFS4ERR_OPENMODE,
    NFS4ERR_BADOWNER,
    NFS4ERR_BADCHAR,
    NFS4ERR_BADNAME,
    NFS4ERR_BAD_RANGE,
    NFS4ERR_LOCK_NOTSUPP,
    NFS4ERR_OP_ILLEGAL,
    NFS4ERR_DEADLOCK,
    NFS4ERR_FILE_OPEN,
    NFS4ERR_ADMIN_REVOKED,
    NFS4ERR_CB_PATH_DOWN,
    NFS4ERR_BADIOMODE,
    NFS4ERR_BADLAYOUT,
    NFS4ERR_BAD_SESSION_DIGEST,
    NFS4ERR_BADSESSION,
    NFS4ERR_BADSLOT,
    NFS4ERR_COMPLETE_ALREADY,
    NFS4ERR_CONN_NOT_BOUND_TO_SESSION,
    NFS4ERR_DELEG_ALREADY_WANTED,
    NFS4ERR_BACK_CHAN_BUSY,
    NFS4ERR_LAYOUTTRYLATER,
    NFS4ERR_LAYOUTUNAVAILABLE,
    NFS4ERR_NOMATCHING_LAYOUT,
    NFS4ERR_RECALLCONFLICT,
    NFS4ERR_UNKNOWN_LAYOUTTYPE,
    NFS4ERR_SEQ_MISORDERED,
    NFS4ERR_SEQUENCE_POS,
    NFS4ERR_REQ_TOO_BIG,
    NFS4ERR_REP_TOO_BIG,
    NFS4ERR_REP_TOO_BIG_TO_CACHE,
    NFS4ERR_RETRY_UNCACHED_REP,
    NFS4ERR_UNSAFE_COMPOUND,
    NFS4ERR_TOO_MANY_OPS,
    NFS4ERR_OP_NOT_IN_SESSION,
    NFS4ERR_HASH_ALG_UNSUPP,
    NFS4ERR_CLIENTID_BUSY,
    NFS4ERR_PNFS_IO_HOLE,
    NFS4ERR_SEQ_FALSE_RETRY,
    NFS4ERR_BAD_HIGH_SLOT,
    NFS4ERR_DEADSESSION,
    NFS4ERR_ENCR_ALG_UNSUPP,
    NFS4ERR_PNFS_NO_LAYOUT,
    NFS4ERR_NOT_ONLY_OP,
    NFS4ERR_WRONG_CRED,
    NFS4ERR_WRONG_TYPE,
    NFS4ERR_DIRDELEG_UNAVAIL,
    NFS4ERR_REJECT_DELEG,
    NFS4ERR_RETURNCONFLICT,
    NFS4ERR_DELEG_REVOKED,
    /// Not a status of the protocol: no reply carries it.
    ILLEGAL,
}

impl nfsstat4 {
    /// The number that stands for the value on the wire.
    pub open spec fn number(self) -> u32 {
        match self {
            nfsstat4::NFS4_OK => 0,
            nfsstat4::NFS4ERR_PERM => 1,
            nfsstat4::NFS4ERR_NOENT => 2,
            nfsstat4::NFS4ERR_IO => 5,
            nfsstat4::NFS4ERR_NXIO => 6,
            nfsstat4::NFS4ERR_ACCESS => 13,
            nfsstat4::NFS4ERR_EXIST => 17,
            nfsstat4::NFS4ERR_XDEV => 18,
            nfsstat4::NFS4ERR_NOTDIR => 20,
            nfsstat4::NFS4ERR_ISDIR => 21,
            nfsstat4::NFS4ERR_INVAL => 22,
            nfsstat4::NFS4ERR_FBIG => 27,
            nfsstat4::NFS4ERR_NOSPC => 28,
            nfsstat4::NFS4ERR_ROFS => 30,
            nfsstat4::NFS4ERR_MLINK => 31,
            nfsstat4::NFS4ERR_NAMETOOLONG => 63,
            nfsstat4::NFS4ERR_NOTEMPTY => 66,
            nfsstat4::NFS4ERR_DQUOT => 69,
            nfsstat4::NFS4ERR_STALE => 70,
            nfsstat4::NFS4ERR_BADHANDLE => 10001,
            nfsstat4::NFS4ERR_BAD_COOKIE => 10003,
            nfsstat4::NFS4ERR_NOTSUPP => 10004,
            nfsstat4::NFS4ERR_TOOSMALL => 10005,
            nfsstat4::NFS4ERR_SERVERFAULT => 10006,
            nfsstat4::NFS4ERR_BADTYPE => 10007,
            nfsstat4::NFS4ERR_DELAY => 10008,
            nfsstat4::NFS4ERR_SAME => 10009,
            nfsstat4::NFS4ERR_DENIED => 10010,
            nfsstat4::NFS4ERR_EXPIRED => 10011,
            nfsstat4::NFS4ERR_LOCKED => 10012,
            nfsstat4::NFS4ERR_GRACE => 10013,
            nfsstat4::NFS4ERR_FHEXPIRED => 10014,
            nfsstat4::NFS4ERR_SHARE_DENIED => 10015,
            nfsstat4::NFS4ERR_WRONGSEC => 10016,
            nfsstat4::NFS4ERR_CLID_INUSE => 10017,
            nfsstat4::NFS4ERR_RESOURCE => 10018,
            nfsstat4::NFS4ERR_MOVED => 10019,
            nfsstat4::NFS4ERR_NOFILEHANDLE => 10020,
            nfsstat4::NFS4ERR_MINOR_VERS_MISMATCH => 10021,
            nfsstat4::NFS4ERR_STALE_CLIENTID => 10022,
            nfsstat4::NFS4ERR_STALE_STATEID => 10023,
            nfsstat4::NFS4ERR_OLD_STATEID => 10024,
            nfsstat4::NFS4ERR_BAD_STATEID => 10025,
            nfsstat4::NFS4ERR_BAD_SEQID => 10026,
            nfsstat4::NFS4ERR_NOT_SAME => 10027,
            nfsstat4::NFS4ERR_LOCK_RANGE => 10028,
            nfsstat4::NFS4ERR_SYMLINK => 10029,
            nfsstat4::NFS4ERR_RESTOREFH => 10030,
            nfsstat4::NFS4ERR_LEASE_MOVED => 10031,
            nfsstat4::NFS4ERR_ATTRNOTSUPP => 10032,
            nfsstat4::NFS4ERR_NO_GRACE => 10033,
            nfsstat4::NFS4ERR_RECLAIM_BAD => 10034,
            nfsstat4::NFS4ERR_RECLAIM_CONFLICT => 10035,
            nfsstat4::NFS4ERR_BADXDR => 10036,
            nfsstat4::NFS4ERR_LOCKS_HELD => 10037,
            nfsstat4::NFS4ERR_OPENMODE => 10038,
            nfsstat4::NFS4ERR_BADOWNER => 10039,
            nfsstat4::NFS4ERR_BADCHAR => 10040,
            nfsstat4::NFS4ERR_BADNAME => 10041,
            nfsstat4::NFS4ERR_BAD_RANGE => 10042,
            nfsstat4::NFS4ERR_LOCK_NOTSUPP => 10043,
            nfsstat4::NFS4ERR_OP_ILLEGAL => 10044,
            nfsstat4::NFS4ERR_DEADLOCK => 10045,
            nfsstat4::NFS4ERR_FILE_OPEN => 10046,
            nfsstat4::NFS4ERR_ADMIN_REVOKED => 10047,
            nfsstat4::NFS4ERR_CB_PATH_DOWN => 10048,
            nfsstat4::NFS4ERR_BADIOMODE => 10049,
            nfsstat4::NFS4ERR_BADLAYOUT => 10050,
            nfsstat4::NFS4ERR_BAD_SESSION_DIGEST => 10051,
            nfsstat4::NFS4ERR_BADSESSION => 10052,
            nfsstat4::NFS4ERR_BADSLOT => 10053,
            nfsstat4::NFS4ERR_COMPLETE_ALREADY => 10054,
            nfsstat4::NFS4ERR_CONN_NOT_BOUND_TO_SESSION => 10055,
            nfsstat4::NFS4ERR_DELEG_ALREADY_WANTED => 10056,
            nfsstat4::NFS4ERR_BACK_CHAN_BUSY => 10057,
            nfsstat4::NFS4ERR_LAYOUTTRYLATER => 10058,
            nfsstat4::NFS4ERR_LAYOUTUNAVAILABLE => 10059,
            nfsstat4::NFS4ERR_NOMATCHING_LAYOUT => 10060,
            nfsstat4::NFS4ERR_RECALLCONFLICT => 10061,
            nfsstat4::NFS4ERR_UNKNOWN_LAYOUTTYPE => 10062,
            nfsstat4::NFS4ERR_SEQ_MISORDERED => 10063,
            nfsstat4::NFS4ERR_SEQUENCE_POS => 10064,
            nfsstat4::NFS4ERR_REQ_TOO_BIG => 10065,
            nfsstat4::NFS4ERR_REP_TOO_BIG => 10066,
            nfsstat4::NFS4ERR_REP_TOO_BIG_TO_CACHE => 10067,
            nfsstat4::NFS4ERR_RETRY_UNCACHED_REP => 10068,
            nfsstat4::NFS4ERR_UNSAFE_COMPOUND => 10069,
            nfsstat4::NFS4ERR_TOO_MANY_OPS => 10070,
            nfsstat4::NFS4ERR_OP_NOT_IN_SESSION => 10071,
            nfsstat4::NFS4ERR_HASH_ALG_UNSUPP => 10072,
            nfsstat4::NFS4ERR_CLIENTID_BUSY => 10074,
            nfsstat4::NFS4ERR_PNFS_IO_HOLE => 10075,
            nfsstat4::NFS4ERR_SEQ_FALSE_RETRY => 10076,
            nfsstat4::NFS4ERR_BAD_HIGH_SLOT => 10077,
            nfsstat4::NFS4ERR_DEADSESSION => 10078,
            nfsstat4::NFS4ERR_ENCR_ALG_UNSUPP => 10079,
            nfsstat4::NFS4ERR_PNFS_NO_LAYOUT => 10080,
            nfsstat4::NFS4ERR_NOT_ONLY_OP => 10081,
            nfsstat4::NFS4ERR_WRONG_CRED => 10082,
            nfsstat4::NFS4ERR_WRONG_TYPE => 10083,
            nfsstat4::NFS4ERR_DIRDELEG_UNAVAIL => 10084,
            nfsstat4::NFS4ERR_REJECT_DELEG => 10085,
            nfsstat4::NFS4ERR_RETURNCONFLICT => 10086,
            nfsstat4::NFS4ERR_DELEG_REVOKED => 10087,
            nfsstat4::ILLEGAL => 0xffff_ffff,
        }
    }

    /// The value that a number stands for.
    pub open spec fn of_number(n: u32) -> Option<nfsstat4> {
        if exists|v: nfsstat4| v.number() == n {
            Some(choose|v: nfsstat4| v.number() == n)
        } else {
            None
        }
    }

    /// The number that stands for the value on the wire.
    pub fn to_u32(&self) -> (n: u32)
        ensures
            n == self.number(),
    {
        match self {
            nfsstat4::NFS4_OK => 0,
            nfsstat4::NFS4ERR_PERM => 1,
            nfsstat4::NFS4ERR_NOENT => 2,
            nfsstat4::NFS4ERR_IO => 5,
            nfsstat4::NFS4ERR_NXIO => 6,
            nfsstat4::NFS4ERR_ACCESS => 13,
            nfsstat4::NFS4ERR_EXIST => 17,
            nfsstat4::NFS4ERR_XDEV => 18,
            nfsstat4::NFS4ERR_NOTDIR => 20,
            nfsstat4::NFS4ERR_ISDIR => 21,
            nfsstat4::NFS4ERR_INVAL => 22,
            nfsstat4::NFS4ERR_FBIG => 27,
            nfsstat4::NFS4ERR_NOSPC => 28,
            nfsstat4::NFS4ERR_ROFS => 30,
            nfsstat4::NFS4ERR_MLINK => 31,
            nfsstat4::NFS4ERR_NAMETOOLONG => 63,
            nfsstat4::NFS4ERR_NOTEMPTY => 66,
            nfsstat4::NFS4ERR_DQUOT => 69,
            nfsstat4::NFS4ERR_STALE => 70,
            nfsstat4::NFS4ERR_BADHANDLE => 10001,
            nfsstat4::NFS4ERR_BAD_COOKIE => 10003,
            nfsstat4::NFS4ERR_NOTSUPP => 10004,
            nfsstat4::NFS4ERR_TOOSMALL => 10005,
            nfsstat4::NFS4ERR_SERVERFAULT => 10006,
            nfsstat4::NFS4ERR_BADTYPE => 10007,
            nfsstat4::NFS4ERR_DELAY => 10008,
            nfsstat4::NFS4ERR_SAME => 10009,
            nfsstat4::NFS4ERR_DENIED => 10010,
            nfsstat4::NFS4ERR_EXPIRED => 10011,
            nfsstat4::NFS4ERR_LOCKED => 10012,
            nfsstat4::NFS4ERR_GRACE => 10013,
            nfsstat4::NFS4ERR_FHEXPIRED => 10014,
            nfsstat4::NFS4ERR_SHARE_DENIED => 10015,
            nfsstat4::NFS4ERR_WRONGSEC => 10016,
            nfsstat4::NFS4ERR_CLID_INUSE => 10017,
            nfsstat4::NFS4ERR_RESOURCE => 10018,
            nfsstat4::NFS4ERR_MOVED => 10019,
            nfsstat4::NFS4ERR_NOFILEHANDLE => 10020,
            nfsstat4::NFS4ERR_MINOR_VERS_MISMATCH => 10021,
            nfsstat4::NFS4ERR_STALE_CLIENTID => 10022,
            nfsstat4::NFS4ERR_STALE_STATEID => 10023,
            nfsstat4::NFS4ERR_OLD_STATEID => 10024,
            nfsstat4::NFS4ERR_BAD_STATEID => 10025,
            nfsstat4::NFS4ERR_BAD_SEQID => 10026,
            nfsstat4::NFS4ERR_NOT_SAME => 10027,
            nfsstat4::NFS4ERR_LOCK_RANGE => 10028,
            nfsstat4::NFS4ERR_SYMLINK => 10029,
            nfsstat4::NFS4ERR_RESTOREFH => 10030,
            nfsstat4::NFS4ERR_LEASE_MOVED => 10031,
            nfsstat4::NFS4ERR_ATTRNOTSUPP => 10032,
            nfsstat4::NFS4ERR_NO_GRACE => 10033,
            nfsstat4::NFS4ERR_RECLAIM_BAD => 10034,
            nfsstat4::NFS4ERR_RECLAIM_CONFLICT => 10035,
            nfsstat4::NFS4ERR_BADXDR => 10036,
            nfsstat4::NFS4ERR_LOCKS_HELD => 10037,
            nfsstat4::NFS4ERR_OPENMODE => 10038,
            nfsstat4::NFS4ERR_BADOWNER => 10039,
            nfsstat4::NFS4ERR_BADCHAR => 10040,
            nfsstat4::NFS4ERR_BADNAME => 10041,
            nfsstat4::NFS4ERR_BAD_RANGE => 10042,
            nfsstat4::NFS4ERR_LOCK_NOTSUPP => 10043,
            nfsstat4::NFS4ERR_OP_ILLEGAL => 10044,
            nfsstat4::NFS4ERR_DEADLOCK => 10045,
            nfsstat4::NFS4ERR_FILE_OPEN => 10046,
            nfsstat4::NFS4ERR_ADMIN_REVOKED => 10047,
            nfsstat4::NFS4ERR_CB_PATH_DOWN => 10048,
            nfsstat4::NFS4ERR_BADIOMODE => 10049,
            nfsstat4::NFS4ERR_BADLAYOUT => 10050,
            nfsstat4::NFS4ERR_BAD_SESSION_DIGEST => 10051,
            nfsstat4::NFS4ERR_BADSESSION => 10052,
            nfsstat4::NFS4ERR_BADSLOT => 10053,
            nfsstat4::NFS4ERR_COMPLETE_ALREADY => 10054,
            nfsstat4::NFS4ERR_CONN_NOT_BOUND_TO_SESSION => 10055,
            nfsstat4::NFS4ERR_DELEG_ALREADY_WANTED => 10056,
            nfsstat4::NFS4ERR_BACK_CHAN_BUSY => 10057,
            nfsstat4::NFS4ERR_LAYOUTTRYLATER => 10058,
            nfsstat4::NFS4ERR_LAYOUTUNAVAILABLE => 10059,
            nfsstat4::NFS4ERR_NOMATCHING_LAYOUT => 10060,
            nfsstat4::NFS4ERR_RECALLCONFLICT => 10061,
            nfsstat4::NFS4ERR_UNKNOWN_LAYOUTTYPE => 10062,
            nfsstat4::NFS4ERR_SEQ_MISORDERED => 10063,
            nfsstat4::NFS4ERR_SEQUENCE_POS => 10064,
            nfsstat4::NFS4ERR_REQ_TOO_BIG => 10065,
            nfsstat4::NFS4ERR_REP_TOO_BIG => 10066,
            nfsstat4::NFS4ERR_REP_TOO_BIG_TO_CACHE => 10067,
            nfsstat4::NFS4ERR_RETRY_UNCACHED_REP => 10068,
            nfsstat4::NFS4ERR_UNSAFE_COMPOUND => 10069,
            nfsstat4::NFS4ERR_TOO_MANY_OPS => 10070,
            nfsstat4::NFS4ERR_OP_NOT_IN_SESSION => 10071,
            nfsstat4::NFS4ERR_HASH_ALG_UNSUPP => 10072,
            nfsstat4::NFS4ERR_CLIENTID_BUSY => 10074,
            nfsstat4::NFS4ERR_PNFS_IO_HOLE => 10075,
            nfsstat4::NFS4ERR_SEQ_FALSE_RETRY => 10076,
            nfsstat4::NFS4ERR_BAD_HIGH_SLOT => 10077,
            nfsstat4::NFS4ERR_DEADSESSION => 10078,
            nfsstat4::NFS4ERR_ENCR_ALG_UNSUPP => 10079,
            nfsstat4::NFS4ERR_PNFS_NO_LAYOUT => 10080,
            nfsstat4::NFS4ERR_NOT_ONLY_OP => 10081,
            nfsstat4::NFS4ERR_WRONG_CRED => 10082,
            nfsstat4::NFS4ERR_WRONG_TYPE => 10083,
            nfsstat4::NFS4ERR_DIRDELEG_UNAVAIL => 10084,
            nfsstat4::NFS4ERR_REJECT_DELEG => 10085,
            nfsstat4::NFS4ERR_RETURNCONFLICT => 10086,
            nfsstat4::NFS4ERR_DELEG_REVOKED => 10087,
            nfsstat4::ILLEGAL => 0xffff_ffff,
        }
    }

    /// No two values share a number.
    pub proof fn numbers_differ(a: nfsstat4, b: nfsstat4)
        requires
            a.number() == b.number(),
        ensures
            a == b,
    {
    }

    /// The value that a number stands for, if it is one that is known.
    pub fn from_u32(n: u32) -> (r: Option<nfsstat4>)
        ensures
            r == Self::of_number(n),
    {
        let r: Option<nfsstat4> = match n {
            0 => Some(nfsstat4::NFS4_OK),
            1 => Some(nfsstat4::NFS4ERR_PERM),
            2 => Some(nfsstat4::NFS4ERR_NOENT),
            5 => Some(nfsstat4::NFS4ERR_IO),
            6 => Some(nfsstat4::NFS4ERR_NXIO),
            13 => Some(nfsstat4::NFS4ERR_ACCESS),
            17 => Some(nfsstat4::NFS4ERR_EXIST),
            18 => Some(nfsstat4::NFS4ERR_XDEV),
            20 => Some(nfsstat4::NFS4ERR_NOTDIR),
            21 => Some(nfsstat4::NFS4ERR_ISDIR),
            22 => Some(nfsstat4::NFS4ERR_INVAL),
            27 => Some(nfsstat4::NFS4ERR_FBIG),
            28 => Some(nfsstat4::NFS4ERR_NOSPC),
            30 => Some(nfsstat4::NFS4ERR_ROFS),
            31 => Some(nfsstat4::NFS4ERR_MLINK),
            63 => Some(nfsstat4::NFS4ERR_NAMETOOLONG),
            66 => Some(nfsstat4::NFS4ERR_NOTEMPTY),
            69 => Some(nfsstat4::NFS4ERR_DQUOT),
            70 => Some(nfsstat4::NFS4ERR_STALE),
            10001 => Some(nfsstat4::NFS4ERR_BADHANDLE),
            10003 => Some(nfsstat4::NFS4ERR_BAD_COOKIE),
            10004 => Some(nfsstat4::NFS4ERR_NOTSUPP),
            10005 => Some(nfsstat4::NFS4ERR_TOOSMALL),
            10006 => Some(nfsstat4::NFS4ERR_SERVERFAULT),
            10007 => Some(nfsstat4::NFS4ERR_BADTYPE),
            10008 => Some(nfsstat4::NFS4ERR_DELAY),
            10009 => Some(nfsstat4::NFS4ERR_SAME),
            10010 => Some(nfsstat4::NFS4ERR_DENIED),
            10011 => Some(nfsstat4::NFS4ERR_EXPIRED),
            10012 => Some(nfsstat4::NFS4ERR_LOCKED),
            10013 => Some(nfsstat4::NFS4ERR_GRACE),
            10014 => Some(nfsstat4::NFS4ERR_FHEXPIRED),
            10015 => Some(nfsstat4::NFS4ERR_SHARE_DENIED),
            10016 => Some(nfsstat4::NFS4ERR_WRONGSEC),
            10017 => Some(nfsstat4::NFS4ERR_CLID_INUSE),
            10018 => Some(nfsstat4::NFS4ERR_RESOURCE),
            10019 => Some(nfsstat4::NFS4ERR_MOVED),
            10020 => Some(nfsstat4::NFS4ERR_NOFILEHANDLE),
            10021 => Some(nfsstat4::NFS4ERR_MINOR_VERS_MISMATCH),
            10022 => Some(nfsstat4::NFS4ERR_STALE_CLIENTID),
            10023 => Some(nfsstat4::NFS4ERR_STALE_STATEID),
            10024 => Some(nfsstat4::NFS4ERR_OLD_STATEID),
            10025 => Some(nfsstat4::NFS4ERR_BAD_STATEID),
            10026 => Some(nfsstat4::NFS4ERR_BAD_SEQID),
            10027 => Some(nfsstat4::NFS4ERR_NOT_SAME),
            10028 => Some(nfsstat4::NFS4ERR_LOCK_RANGE),
            10029 => Some(nfsstat4::NFS4ERR_SYMLINK),
            10030 => Some(nfsstat4::NFS4ERR_RESTOREFH),
            10031 => Some(nfsstat4::NFS4ERR_LEASE_MOVED),
            10032 => Some(nfsstat4::NFS4ERR_ATTRNOTSUPP),
            10033 => Some(nfsstat4::NFS4ERR_NO_GRACE),
            10034 => Some(nfsstat4::NFS4ERR_RECLAIM_BAD),
            10035 => Some(nfsstat4::NFS4ERR_RECLAIM_CONFLICT),
            10036 => Some(nfsstat4::NFS4ERR_BADXDR),
            10037 => Some(nfsstat4::NFS4ERR_LOCKS_HELD),
            10038 => Some(nfsstat4::NFS4ERR_OPENMODE),
            10039 => Some(nfsstat4::NFS4ERR_BADOWNER),
            10040 => Some(nfsstat4::NFS4ERR_BADCHAR),
            10041 => Some(nfsstat4::NFS4ERR_BADNAME),
            10042 => Some(nfsstat4::NFS4ERR_BAD_RANGE),
            10043 => Some(nfsstat4::NFS4ERR_LOCK_NOTSUPP),
            10044 => Some(nfsstat4::NFS4ERR_OP_ILLEGAL),
            10045 => Some(nfsstat4::NFS4ERR_DEADLOCK),
            10046 => Some(nfsstat4::NFS4ERR_FILE_OPEN),
            10047 => Some(nfsstat4::NFS4ERR_ADMIN_REVOKED),
            10048 => Some(nfsstat4::NFS4ERR_CB_PATH_DOWN),
            10049 => Some(nfsstat4::NFS4ERR_BADIOMODE),
            10050 => Some(nfsstat4::NFS4ERR_BADLAYOUT),
            10051 => Some(nfsstat4::NFS4ERR_BAD_SESSION_DIGEST),
            10052 => Some(nfsstat4::NFS4ERR_BADSESSION),
            10053 => Some(nfsstat4::NFS4ERR_BADSLOT),
            10054 => Some(nfsstat4::NFS4ERR_COMPLETE_ALREADY),
            10055 => Some(nfsstat4::NFS4ERR_CONN_NOT_BOUND_TO_SESSION),
            10056 => Some(nfsstat4::NFS4ERR_DELEG_ALREADY_WANTED),
            10057 => Some(nfsstat4::NFS4ERR_BACK_CHAN_BUSY),
            10058 => Some(nfsstat4::NFS4ERR_LAYOUTTRYLATER),
            10059 => Some(nfsstat4::NFS4ERR_LAYOUTUNAVAILABLE),
            10060 => Some(nfsstat4::NFS4ERR_NOMATCHING_LAYOUT),
            10061 => Some(nfsstat4::NFS4ERR_RECALLCONFLICT),
            10062 => Some(nfsstat4::NFS4ERR_UNKNOWN_LAYOUTTYPE),
            10063 => Some(nfsstat4::NFS4ERR_SEQ_MISORDERED),
            10064 => Some(nfsstat4::NFS4ERR_SEQUENCE_POS),
            10065 => Some(nfsstat4::NFS4ERR_REQ_TOO_BIG),
            10066 => Some(nfsstat4::NFS4ERR_REP_TOO_BIG),
            10067 => Some(nfsstat4::NFS4ERR_REP_TOO_BIG_TO_CACHE),
            10068 => Some(nfsstat4::NFS4ERR_RETRY_UNCACHED_REP),
            10069 => Some(nfsstat4::NFS4ERR_UNSAFE_COMPOUND),
            10070 => Some(nfsstat4::NFS4ERR_TOO_MANY_OPS),
            10071 => Some(nfsstat4::NFS4ERR_OP_NOT_IN_SESSION),
            10072 => Some(nfsstat4::NFS4ERR_HASH_ALG_UNSUPP),
            10074 => Some(nfsstat4::NFS4ERR_CLIENTID_BUSY),
            10075 => Some(nfsstat4::NFS4ERR_PNFS_IO_HOLE),
            10076 => Some(nfsstat4::NFS4ERR_SEQ_FALSE_RETRY),
            10077 => Some(nfsstat4::NFS4ERR_BAD_HIGH_SLOT),
            10078 => Some(nfsstat4::NFS4ERR_DEADSESSION),
            10079 => Some(nfsstat4::NFS4ERR_ENCR_ALG_UNSUPP),
            10080 => Some(nfsstat4::NFS4ERR_PNFS_NO_LAYOUT),
            10081 => Some(nfsstat4::NFS4ERR_NOT_ONLY_OP),
            10082 => Some(nfsstat4::NFS4ERR_WRONG_CRED),
            10083 => Some(nfsstat4::NFS4ERR_WRONG_TYPE),
            10084 => Some(nfsstat4::NFS4ERR_DIRDELEG_UNAVAIL),
            10085 => Some(nfsstat4::NFS4ERR_REJECT_DELEG),
            10086 => Some(nfsstat4::NFS4ERR_RETURNCONFLICT),
            10087 => Some(nfsstat4::NFS4ERR_DELEG_REVOKED),
            0xffff_ffff => Some(nfsstat4::ILLEGAL),
            _ => None,
        };
        proof {
            if let Some(v) = r {
                assert(v.number() == n);
                Self::numbers_differ(v, choose|w: nfsstat4| w.number() == n);
            }
        }
        r
    }
}

impl Model for nfsstat4 {
    type M = nfsstat4;

    open spec fn model(&self) -> nfsstat4 {
        *self
    }
}

impl XDR for nfsstat4 {
    open spec fn encodable(m: nfsstat4) -> bool {
        true
    }

    open spec fn fits(m: nfsstat4) -> bool {
        true
    }

    open spec fn encode(m: nfsstat4) -> Seq<u8> {
        be32(m.number())
    }

    open spec fn decode(b: Seq<u8>) -> Result<(nfsstat4, nat), XdrError> {
        match u32::decode(b) {
            Err(e) => Err(e),
            Ok((n, k)) => match nfsstat4::of_number(n) {
                Some(v) => Ok((v, k)),
                None => Err(XdrError::InvalidData),
            },
        }
    }

    proof fn decode_within(b: Seq<u8>) {
    }

    proof fn round_trip(m: nfsstat4, rest: Seq<u8>) {
        u32::round_trip(m.number(), rest);
        Self::numbers_differ(m, choose|v: nfsstat4| v.number() == m.number());
    }

    fn serialize(&self, dest: &mut Vec<u8>) {
        self.to_u32().serialize(dest);
    }

    fn deserialize(src: &mut Reader) -> (r: Result<Self, XdrError>) {
        match u32::deserialize(src) {
            Err(e) => Err(e),
            Ok(n) => match nfsstat4::from_u32(n) {
                Some(v) => Ok(v),
                None => Err(XdrError::InvalidData),
            },
        }
    }
}

impl Default for nfsstat4 {
    fn default() -> (r: Self)
        ensures
            r == nfsstat4::ILLEGAL,
    {
        nfsstat4::ILLEGAL
    }
}

/// The status that stands for a failure of the file system below.
pub open spec fn status_of(e: nfsstat3) -> nfsstat4 {
    match e {
        nfsstat3::NFS3_OK => nfsstat4::NFS4_OK,
        nfsstat3::NFS3ERR_PERM => nfsstat4::NFS4ERR_PERM,
        nfsstat3::NFS3ERR_NOENT => nfsstat4::NFS4ERR_NOENT,
        nfsstat3::NFS3ERR_IO => nfsstat4::NFS4ERR_IO,
        nfsstat3::NFS3ERR_NXIO => nfsstat4::NFS4ERR_NXIO,
        nfsstat3::NFS3ERR_ACCES => nfsstat4::NFS4ERR_ACCESS,
        nfsstat3::NFS3ERR_EXIST => nfsstat4::NFS4ERR_EXIST,
        nfsstat3::NFS3ERR_XDEV => nfsstat4::NFS4ERR_XDEV,
        nfsstat3::NFS3ERR_NOTDIR => nfsstat4::NFS4ERR_NOTDIR,
        nfsstat3::NFS3ERR_ISDIR => nfsstat4::NFS4ERR_ISDIR,
        nfsstat3::NFS3ERR_INVAL => nfsstat4::NFS4ERR_INVAL,
        nfsstat3::NFS3ERR_FBIG => nfsstat4::NFS4ERR_FBIG,
        nfsstat3::NFS3ERR_NOSPC => nfsstat4::NFS4ERR_NOSPC,
        nfsstat3::NFS3ERR_ROFS => nfsstat4::NFS4ERR_ROFS,
        nfsstat3::NFS3ERR_MLINK => nfsstat4::NFS4ERR_MLINK,
        nfsstat3::NFS3ERR_NAMETOOLONG => nfsstat4::NFS4ERR_NAMETOOLONG,
        nfsstat3::NFS3ERR_NOTEMPTY => nfsstat4::NFS4ERR_NOTEMPTY,
        nfsstat3::NFS3ERR_DQUOT => nfsstat4::NFS4ERR_DQUOT,
        nfsstat3::NFS3ERR_STALE => nfsstat4::NFS4ERR_STALE,
        nfsstat3::NFS3ERR_BADHANDLE => nfsstat4::NFS4ERR_BADHANDLE,
        nfsstat3::NFS3ERR_NOTSUPP => nfsstat4::NFS4ERR_NOTSUPP,
        nfsstat3::NFS3ERR_SERVERFAULT => nfsstat4::NFS4ERR_SERVERFAULT,
        nfsstat3::NFS3ERR_BADTYPE => nfsstat4::NFS4ERR_BADTYPE,
        nfsstat3::NFS3ERR_JUKEBOX => nfsstat4::NFS4ERR_DELAY,
        _ => nfsstat4::NFS4ERR_SERVERFAULT,
    }
}

impl From<nfsstat3> for nfsstat4 {
    fn from(e: nfsstat3) -> (r: Self) {
        match e {
            nfsstat3::NFS3_OK => nfsstat4::NFS4_OK,
            nfsstat3::NFS3ERR_PERM => nfsstat4::NFS4ERR_PERM,
            nfsstat3::NFS3ERR_NOENT => nfsstat4::NFS4ERR_NOENT,
            nfsstat3::NFS3ERR_IO => nfsstat4::NFS4ERR_IO,
            nfsstat3::NFS3ERR_NXIO => nfsstat4::NFS4ERR_NXIO,
            nfsstat3::NFS3ERR_ACCES => nfsstat4::NFS4ERR_ACCESS,
            nfsstat3::NFS3ERR_EXIST => nfsstat4::NFS4ERR_EXIST,
            nfsstat3::NFS3ERR_XDEV => nfsstat4::NFS4ERR_XDEV,
            nfsstat3::NFS3ERR_NOTDIR => nfsstat4::NFS4ERR_NOTDIR,
            nfsstat3::NFS3ERR_ISDIR => nfsstat4::NFS4ERR_ISDIR,
            nfsstat3::NFS3ERR_INVAL => nfsstat4::NFS4ERR_INVAL,
            nfsstat3::NFS3ERR_FBIG => nfsstat4::NFS4ERR_FBIG,
            nfsstat3::NFS3ERR_NOSPC => nfsstat4::NFS4ERR_NOSPC,
            nfsstat3::NFS3ERR_ROFS => nfsstat4::NFS4ERR_ROFS,
            nfsstat3::NFS3ERR_MLINK => nfsstat4::NFS4ERR_MLINK,
            nfsstat3::NFS3ERR_NAMETOOLONG => nfsstat4::NFS4ERR_NAMETOOLONG,
            nfsstat3::NFS3ERR_NOTEMPTY => nfsstat4::NFS4ERR_NOTEMPTY,
            nfsstat3::NFS3ERR_DQUOT => nfsstat4::NFS4ERR_DQUOT,
            nfsstat3::NFS3ERR_STALE => nfsstat4::NFS4ERR_STALE,
            nfsstat3::NFS3ERR_BADHANDLE => nfsstat4::NFS4ERR_BADHANDLE,
            nfsstat3::NFS3ERR_NOTSUPP => nfsstat4::NFS4ERR_NOTSUPP,
            nfsstat3::NFS3ERR_SERVERFAULT => nfsstat4::NFS4ERR_SERVERFAULT,
            nfsstat3::NFS3ERR_BADTYPE => nfsstat4::NFS4ERR_BADTYPE,
            nfsstat3::NFS3ERR_JUKEBOX => nfsstat4::NFS4ERR_DELAY,
            _ => nfsstat4::NFS4ERR_SERVERFAULT,
        }
    }
}

impl vstd::std_specs::convert::FromSpecImpl<nfsstat3> for nfsstat4 {
    open spec fn obeys_from_spec() -> bool {
        true
    }

    open spec fn from_spec(e: nfsstat3) -> Self {
        status_of(e)
    }
}

/// NFSv4 file type.
#[derive(Copy, Clone, Debug, Default, PartialEq, Eq, Structural)]
pub enum ftype4 {
    /// Regular file
    #[default]
    NF4REG,
    /// Directory
    NF4DIR,
    /// Block special device
    NF4BLK,
    /// Character special device
    NF4CHR,
    /// Symbolic link
    NF4LNK,
    /// Socket
    NF4SOCK,
    /// Named pipe
    NF4FIFO,
    /// Attribute directory
    NF4ATTRDIR,
    /// Named attribute
    NF4NAMEDATTR,
}

impl ftype4 {
    /// The number that stands for the value on the wire.
    pub open spec fn number(self) -> u32 {
        match self {
            ftype4::NF4REG => 1,
            ftype4::NF4DIR => 2,
            ftype4::NF4BLK => 3,
            ftype4::NF4CHR => 4,
            ftype4::NF4LNK => 5,
            ftype4::NF4SOCK => 6,
            ftype4::NF4FIFO => 7,
            ftype4::NF4ATTRDIR => 8,
            ftype4::NF4NAMEDATTR => 9,
        }
    }

    /// The value that a number stands for.
    pub open spec fn of_number(n: u32) -> Option<ftype4> {
        if exists|v: ftype4| v.number() == n {
            Some(choose|v: ftype4| v.number() == n)
        } else {
            None
        }
    }

    /// The number that stands for the value on the wire.
    pub fn to_u32(&self) -> (n: u32)
        ensures
            n == self.number(),
    {
        match self {
            ftype4::NF4REG => 1,
            ftype4::NF4DIR => 2,
            ftype4::NF4BLK => 3,
            ftype4::NF4CHR => 4,
            ftype4::NF4LNK => 5,
            ftype4::NF4SOCK => 6,
            ftype4::NF4FIFO => 7,
            ftype4::NF4ATTRDIR => 8,
            ftype4::NF4NAMEDATTR => 9,
        }
    }

    /// No two values share a number.
    pub proof fn numbers_differ(a: ftype4, b: ftype4)
        requires
            a.number() == b.number(),
        ensures
            a == b,
    {
    }

    /// The value that a number stands for, if it is one that is known.
    pub fn from_u32(n: u32) -> (r: Option<ftype4>)
        ensures
            r == Self::of_number(n),
    {
        let r: Option<ftype4> = match n {
            1 => Some(ftype4::NF4REG),
            2 => Some(ftype4::NF4DIR),
            3 => Some(ftype4::NF4BLK),
            4 => Some(ftype4::NF4CHR),
            5 => Some(ftype4::NF4LNK),
            6 => Some(ftype4::NF4SOCK),
            7 => Some(ftype4::NF4FIFO),
            8 => Some(ftype4::NF4ATTRDIR),
            9 => Some(ftype4::NF4NAMEDATTR),
            _ => None,
        };
        proof {
            if let Some(v) = r {
                assert(v.number() == n);
                Self::numbers_differ(v, choose|w: ftype4| w.number() == n);
            }
        }
        r
    }
}

impl Model for ftype4 {
    type M = ftype4;

    open spec fn model(&self) -> ftype4 {
        *self
    }
}

impl XDR for ftype4 {
    open spec fn encodable(m: ftype4) -> bool {
        true
    }

    open spec fn fits(m: ftype4) -> bool {
        true
    }

    open spec fn encode(m: ftype4) -> Seq<u8> {
        be32(m.number())
    }

    open spec fn decode(b: Seq<u8>) -> Result<(ftype4, nat), XdrError> {
        match u32::decode(b) {
            Err(e) => Err(e),
            Ok((n, k)) => match ftype4::of_number(n) {
                Some(v) => Ok((v, k)),
                None => Err(XdrError::InvalidData),
            },
        }
    }

    proof fn decode_within(b: Seq<u8>) {
    }

    proof fn round_trip(m: ftype4, rest: Seq<u8>) {
        u32::round_trip(m.number(), rest);
        Self::numbers_differ(m, choose|v: ftype4| v.number() == m.number());
    }

    fn serialize(&self, dest: &mut Vec<u8>) {
        self.to_u32().serialize(dest);
    }

    fn deserialize(src: &mut Reader) -> (r: Result<Self, XdrError>) {
        match u32::deserialize(src) {
            Err(e) => Err(e),
            Ok(n) => match ftype4::from_u32(n) {
                Some(v) => Ok(v),
                None => Err(XdrError::InvalidData),
            },
        }
    }
}

/// The file type that stands for one of the file system below.
pub open spec fn ftype_of(t: ftype3) -> ftype4 {
    match t {
        ftype3::NF3REG => ftype4::NF4REG,
        ftype3::NF3DIR => ftype4::NF4DIR,
        ftype3::NF3BLK => ftype4::NF4BLK,
        ftype3::NF3CHR => ftype4::NF4CHR,
        ftype3::NF3LNK => ftype4::NF4LNK,
        ftype3::NF3SOCK => ftype4::NF4SOCK,
        ftype3::NF3FIFO => ftype4::NF4FIFO,
    }
}

impl From<ftype3> for ftype4 {
    fn from(t: ftype3) -> (r: Self) {
        match t {
            ftype3::NF3REG => ftype4::NF4REG,
            ftype3::NF3DIR => ftype4::NF4DIR,
            ftype3::NF3BLK => ftype4::NF4BLK,
            ftype3::NF3CHR => ftype4::NF4CHR,
            ftype3::NF3LNK => ftype4::NF4LNK,
            ftype3::NF3SOCK => ftype4::NF4SOCK,
            ftype3::NF3FIFO => ftype4::NF4FIFO,
        }
    }
}

impl vstd::std_specs::convert::FromSpecImpl<ftype3> for ftype4 {
    open spec fn obeys_from_spec() -> bool {
        true
    }

    open spec fn from_spec(t: ftype3) -> Self {
        ftype_of(t)
    }
}

/// NFSv4.1 operation codes.
///
/// NFSv4.0-only operations are absent here: OP_OPEN_CONFIRM (20), OP_RENEW (30),
/// OP_SETCLIENTID (35), OP_SETCLIENTID_CONFIRM (36) and OP_RELEASE_LOCKOWNER
/// (39) are numbers of `nfs_opnum40`, and `from_u32` yields `None` for them.
#[derive(Copy, Clone, Debug, PartialEq, Eq, Structural)]
pub enum nfs_opnum4 {
    /// Check access rights to a file object.
    OP_ACCESS,
    /// Close an open file, releasing share reservations.
    OP_CLOSE,
    /// Commit cached/unstable writes to stable storage.
    OP_COMMIT,
    /// Create a non-regular file object in a directory.
    OP_CREATE,
    /// Purge all delegations awaiting recovery for a client.
    OP_DELEGPURGE,
    /// Return a delegation to the server.
    OP_DELEGRETURN,
    /// Retrieve attributes for the current filehandle.
    OP_GETATTR,
    /// Get the current filehandle.
    OP_GETFH,
    /// Create a hard link to an existing file object.
    OP_LINK,
    /// Acquire a byte-range record lock.
    OP_LOCK,
    /// Test for the existence of a conflicting lock.
    OP_LOCKT,
    /// Unlock a byte-range record lock.
    OP_LOCKU,
    /// Look up a filename in a directory.
    OP_LOOKUP,
    /// Look up the parent directory.
    OP_LOOKUPP,
    /// Verify that attributes do not match.
    OP_NVERIFY,
    /// Open a regular file, establishing share reservations.
    OP_OPEN,
    /// Open the named-attribute directory for an object.
    OP_OPENATTR,
    /// Reduce the access/deny modes of an open file.
    OP_OPEN_DOWNGRADE,
    /// Set the current filehandle to a supplied value.
    OP_PUTFH,
    /// Set the current filehandle to the public filehandle.
    OP_PUTPUBFH,
    /// Set the current filehandle to the root filehandle.
    OP_PUTROOTFH,
    /// Read data from a regular file.
    OP_READ,
    /// Read entries from a directory.
    OP_READDIR,
    /// Read the target of a symbolic link.
    OP_READLINK,
    /// Remove a file object from a directory.
    OP_REMOVE,
    /// Rename a file object within/between directories.
    OP_RENAME,
    /// Restore the saved filehandle as the current filehandle.
    OP_RESTOREFH,
    /// Save the current filehandle for later restore.
    OP_SAVEFH,
    /// Obtain security mechanisms for a directory entry.
    OP_SECINFO,
    /// Set attributes on the current filehandle.
    OP_SETATTR,
    /// Verify that attributes match supplied values.
    OP_VERIFY,
    /// Write data to a regular file.
    OP_WRITE,
    /// Backchannel control: adjust callback channel parameters.
    OP_BACKCHANNEL_CTL,
    /// Associate an additional connection with a session.
    OP_BIND_CONN_TO_SESSION,
    /// Exchange client identity and capabilities; establishes a clientid.
    OP_EXCHANGE_ID,
    /// Create a session between client and server.
    OP_CREATE_SESSION,
    /// Destroy a session.
    OP_DESTROY_SESSION,
    /// Free a stateid that is no longer needed.
    OP_FREE_STATEID,
    /// Request a directory delegation.
    OP_GET_DIR_DELEGATION,
    /// pNFS: retrieve device addressing information.
    OP_GETDEVICEINFO,
    /// pNFS: retrieve a list of device IDs.
    OP_GETDEVICELIST,
    /// pNFS: commit data written via layouts to stable storage.
    OP_LAYOUTCOMMIT,
    /// pNFS: obtain a layout for a file.
    OP_LAYOUTGET,
    /// pNFS: return a previously granted layout.
    OP_LAYOUTRETURN,
    /// Obtain security mechanisms by filename (no current FH change).
    OP_SECINFO_NO_NAME,
    /// Establish per-session request sequencing and exactly-once semantics.
    OP_SEQUENCE,
    /// Set the SSV (secret session verifier) for SP4_SSV state protection.
    OP_SET_SSV,
    /// Test whether one or more stateids are valid.
    OP_TEST_STATEID,
    /// Want a delegation for a file, expressing desired type.
    OP_WANT_DELEGATION,
    /// Destroy a clientid and all associated state.
    OP_DESTROY_CLIENTID,
    /// Signal completion of state reclaim after server restart.
    OP_RECLAIM_COMPLETE,
    /// Placeholder for an illegal operation; always returns NFS4ERR_OP_ILLEGAL.
    OP_ILLEGAL,
}

impl nfs_opnum4 {
    /// The number that stands for the value on the wire.
    pub open spec fn number(self) -> u32 {
        match self {
            nfs_opnum4::OP_ACCESS => 3,
            nfs_opnum4::OP_CLOSE => 4,
            nfs_opnum4::OP_COMMIT => 5,
            nfs_opnum4::OP_CREATE => 6,
            nfs_opnum4::OP_DELEGPURGE => 7,
            nfs_opnum4::OP_DELEGRETURN => 8,
            nfs_opnum4::OP_GETATTR => 9,
            nfs_opnum4::OP_GETFH => 10,
            nfs_opnum4::OP_LINK => 11,
            nfs_opnum4::OP_LOCK => 12,
            nfs_opnum4::OP_LOCKT => 13,
            nfs_opnum4::OP_LOCKU => 14,
            nfs_opnum4::OP_LOOKUP => 15,
            nfs_opnum4::OP_LOOKUPP => 16,
            nfs_opnum4::OP_NVERIFY => 17,
            nfs_opnum4::OP_OPEN => 18,
            nfs_opnum4::OP_OPENATTR => 19,
            nfs_opnum4::OP_OPEN_DOWNGRADE => 21,
            nfs_opnum4::OP_PUTFH => 22,
            nfs_opnum4::OP_PUTPUBFH => 23,
            nfs_opnum4::OP_PUTROOTFH => 24,
            nfs_opnum4::OP_READ => 25,
            nfs_opnum4::OP_READDIR => 26,
            nfs_opnum4::OP_READLINK => 27,
            nfs_opnum4::OP_REMOVE => 28,
            nfs_opnum4::OP_RENAME => 29,
            nfs_opnum4::OP_RESTOREFH => 31,
            nfs_opnum4::OP_SAVEFH => 32,
            nfs_opnum4::OP_SECINFO => 33,
            nfs_opnum4::OP_SETATTR => 34,
            nfs_opnum4::OP_VERIFY => 37,
            nfs_opnum4::OP_WRITE => 38,
            nfs_opnum4::OP_BACKCHANNEL_CTL => 40,
            nfs_opnum4::OP_BIND_CONN_TO_SESSION => 41,
            nfs_opnum4::OP_EXCHANGE_ID => 42,
            nfs_opnum4::OP_CREATE_SESSION => 43,
            nfs_opnum4::OP_DESTROY_SESSION => 44,
            nfs_opnum4::OP_FREE_STATEID => 45,
            nfs_opnum4::OP_GET_DIR_DELEGATION => 46,
            nfs_opnum4::OP_GETDEVICEINFO => 47,
            nfs_opnum4::OP_GETDEVICELIST => 48,
            nfs_opnum4::OP_LAYOUTCOMMIT => 49,
            nfs_opnum4::OP_LAYOUTGET => 50,
            nfs_opnum4::OP_LAYOUTRETURN => 51,
            nfs_opnum4::OP_SECINFO_NO_NAME => 52,
            nfs_opnum4::OP_SEQUENCE => 53,
            nfs_opnum4::OP_SET_SSV => 54,
            nfs_opnum4::OP_TEST_STATEID => 55,
            nfs_opnum4::OP_WANT_DELEGATION => 56,
            nfs_opnum4::OP_DESTROY_CLIENTID => 57,
            nfs_opnum4::OP_RECLAIM_COMPLETE => 58,
            nfs_opnum4::OP_ILLEGAL => 10044,
        }
    }

    /// The value that a number stands for.
    pub open spec fn of_number(n: u32) -> Option<nfs_opnum4> {
        if exists|v: nfs_opnum4| v.number() == n {
            Some(choose|v: nfs_opnum4| v.number() == n)
        } else {
            None
        }
    }

    /// The number that stands for the value on the wire.
    pub fn to_u32(&self) -> (n: u32)
        ensures
            n == self.number(),
    {
        match self {
            nfs_opnum4::OP_ACCESS => 3,
            nfs_opnum4::OP_CLOSE => 4,
            nfs_opnum4::OP_COMMIT => 5,
            nfs_opnum4::OP_CREATE => 6,
            nfs_opnum4::OP_DELEGPURGE => 7,
            nfs_opnum4::OP_DELEGRETURN => 8,
            nfs_opnum4::OP_GETATTR => 9,
            nfs_opnum4::OP_GETFH => 10,
            nfs_opnum4::OP_LINK => 11,
            nfs_opnum4::OP_LOCK => 12,
            nfs_opnum4::OP_LOCKT => 13,
            nfs_opnum4::OP_LOCKU => 14,
            nfs_opnum4::OP_LOOKUP => 15,
            nfs_opnum4::OP_LOOKUPP => 16,
            nfs_opnum4::OP_NVERIFY => 17,
            nfs_opnum4::OP_OPEN => 18,
            nfs_opnum4::OP_OPENATTR => 19,
            nfs_opnum4::OP_OPEN_DOWNGRADE => 21,
            nfs_opnum4::OP_PUTFH => 22,
            nfs_opnum4::OP_PUTPUBFH => 23,
            nfs_opnum4::OP_PUTROOTFH => 24,
            nfs_opnum4::OP_READ => 25,
            nfs_opnum4::OP_READDIR => 26,
            nfs_opnum4::OP_READLINK => 27,
            nfs_opnum4::OP_REMOVE => 28,
            nfs_opnum4::OP_RENAME => 29,
            nfs_opnum4::OP_RESTOREFH => 31,
            nfs_opnum4::OP_SAVEFH => 32,
            nfs_opnum4::OP_SECINFO => 33,
            nfs_opnum4::OP_SETATTR => 34,
            nfs_opnum4::OP_VERIFY => 37,
            nfs_opnum4::OP_WRITE => 38,
            nfs_opnum4::OP_BACKCHANNEL_CTL => 40,
            nfs_opnum4::OP_BIND_CONN_TO_SESSION => 41,
            nfs_opnum4::OP_EXCHANGE_ID => 42,
            nfs_opnum4::OP_CREATE_SESSION => 43,
            nfs_opnum4::OP_DESTROY_SESSION => 44,
            nfs_opnum4::OP_FREE_STATEID => 45,
            nfs_opnum4::OP_GET_DIR_DELEGATION => 46,
            nfs_opnum4::OP_GETDEVICEINFO => 47,
            nfs_opnum4::OP_GETDEVICELIST => 48,
            nfs_opnum4::OP_LAYOUTCOMMIT => 49,
            nfs_opnum4::OP_LAYOUTGET => 50,
            nfs_opnum4::OP_LAYOUTRETURN => 51,
            nfs_opnum4::OP_SECINFO_NO_NAME => 52,
            nfs_opnum4::OP_SEQUENCE => 53,
            nfs_opnum4::OP_SET_SSV => 54,
            nfs_opnum4::OP_TEST_STATEID => 55,
            nfs_opnum4::OP_WANT_DELEGATION => 56,
            nfs_opnum4::OP_DESTROY_CLIENTID => 57,
            nfs_opnum4::OP_RECLAIM_COMPLETE => 58,
            nfs_opnum4::OP_ILLEGAL => 10044,
        }
    }

    /// No two values share a number.
    pub proof fn numbers_differ(a: nfs_opnum4, b: nfs_opnum4)
        requires
            a.number() == b.number(),
        ensures
            a == b,
    {
    }

    /// The value that a number stands for, if it is one that is known.
    pub fn from_u32(n: u32) -> (r: Option<nfs_opnum4>)
        ensures
            r == Self::of_number(n),
    {
        let r: Option<nfs_opnum4> = match n {
            3 => Some(nfs_opnum4::OP_ACCESS),
            4 => Some(nfs_opnum4::OP_CLOSE),
            5 => Some(nfs_opnum4::OP_COMMIT),
            6 => Some(nfs_opnum4::OP_CREATE),
            7 => Some(nfs_opnum4::OP_DELEGPURGE),
            8 => Some(nfs_opnum4::OP_DELEGRETURN),
            9 => Some(nfs_opnum4::OP_GETATTR),
            10 => Some(nfs_opnum4::OP_GETFH),
            11 => Some(nfs_opnum4::OP_LINK),
            12 => Some(nfs_opnum4::OP_LOCK),
            13 => Some(nfs_opnum4::OP_LOCKT),
            14 => Some(nfs_opnum4::OP_LOCKU),
            15 => Some(nfs_opnum4::OP_LOOKUP),
            16 => Some(nfs_opnum4::OP_LOOKUPP),
            17 => Some(nfs_opnum4::OP_NVERIFY),
            18 => Some(nfs_opnum4::OP_OPEN),
            19 => Some(nfs_opnum4::OP_OPENATTR),
            21 => Some(nfs_opnum4::OP_OPEN_DOWNGRADE),
            22 => Some(nfs_opnum4::OP_PUTFH),
            23 => Some(nfs_opnum4::OP_PUTPUBFH),
            24 => Some(nfs_opnum4::OP_PUTROOTFH),
            25 => Some(nfs_opnum4::OP_READ),
            26 => Some(nfs_opnum4::OP_READDIR),
            27 => Some(nfs_opnum4::OP_READLINK),
            28 => Some(nfs_opnum4::OP_REMOVE),
            29 => Some(nfs_opnum4::OP_RENAME),
            31 => Some(nfs_opnum4::OP_RESTOREFH),
            32 => Some(nfs_opnum4::OP_SAVEFH),
            33 => Some(nfs_opnum4::OP_SECINFO),
            34 => Some(nfs_opnum4::OP_SETATTR),
            37 => Some(nfs_opnum4::OP_VERIFY),
            38 => Some(nfs_opnum4::OP_WRITE),
            40 => Some(nfs_opnum4::OP_BACKCHANNEL_CTL),
            41 => Some(nfs_opnum4::OP_BIND_CONN_TO_SESSION),
            42 => Some(nfs_opnum4::OP_EXCHANGE_ID),
            43 => Some(nfs_opnum4::OP_CREATE_SESSION),
            44 => Some(nfs_opnum4::OP_DESTROY_SESSION),
            45 => Some(nfs_opnum4::OP_FREE_STATEID),
            46 => Some(nfs_opnum4::OP_GET_DIR_DELEGATION),
            47 => Some(nfs_opnum4::OP_GETDEVICEINFO),
            48 => Some(nfs_opnum4::OP_GETDEVICELIST),
            49 => Some(nfs_opnum4::OP_LAYOUTCOMMIT),
            50 => Some(nfs_opnum4::OP_LAYOUTGET),
            51 => Some(nfs_opnum4::OP_LAYOUTRETURN),
            52 => Some(nfs_opnum4::OP_SECINFO_NO_NAME),
            53 => Some(nfs_opnum4::OP_SEQUENCE),
            54 => Some(nfs_opnum4::OP_SET_SSV),
            55 => Some(nfs_opnum4::OP_TEST_STATEID),
            56 => Some(nfs_opnum4::OP_WANT_DELEGATION),
            57 => Some(nfs_opnum4::OP_DESTROY_CLIENTID),
            58 => Some(nfs_opnum4::OP_RECLAIM_COMPLETE),
            10044 => Some(nfs_opnum4::OP_ILLEGAL),
            _ => None,
        };
        proof {
            if let Some(v) = r {
                assert(v.number() == n);
                Self::numbers_differ(v, choose|w: nfs_opnum4| w.number() == n);
            }
        }
        r
    }
}

impl Model for nfs_opnum4 {
    type M = nfs_opnum4;

    open spec fn model(&self) -> nfs_opnum4 {
        *self
    }
}

impl XDR for nfs_opnum4 {
    open spec fn encodable(m: nfs_opnum4) -> bool {
        true
    }

    open spec fn fits(m: nfs_opnum4) -> bool {
        true
    }

    open spec fn encode(m: nfs_opnum4) -> Seq<u8> {
        be32(m.number())
    }

    open spec fn decode(b: Seq<u8>) -> Result<(nfs_opnum4, nat), XdrError> {
        match u32::decode(b) {
            Err(e) => Err(e),
            Ok((n, k)) => match nfs_opnum4::of_number(n) {
                Some(v) => Ok((v, k)),
                None => Err(XdrError::InvalidData),
            },
        }
    }

    proof fn decode_within(b: Seq<u8>) {
    }

    proof fn round_trip(m: nfs_opnum4, rest: Seq<u8>) {
        u32::round_trip(m.number(), rest);
        Self::numbers_differ(m, choose|v: nfs_opnum4| v.number() == m.number());
    }

    fn serialize(&self, dest: &mut Vec<u8>) {
        self.to_u32().serialize(dest);
    }

    fn deserialize(src: &mut Reader) -> (r: Result<Self, XdrError>) {
        match u32::deserialize(src) {
            Err(e) => Err(e),
            Ok(n) => match nfs_opnum4::from_u32(n) {
                Some(v) => Ok(v),
                None => Err(XdrError::InvalidData),
            },
        }
    }
}

/// Operation codes that only NFSv4.0 has. Sessions took their place.
#[derive(Copy, Clone, Debug, PartialEq, Eq, Structural)]
pub enum nfs_opnum40 {
    /// NFSv4.0: confirm the first open of an open-owner.
    OP_OPEN_CONFIRM,
    /// NFSv4.0: renew a lease.
    OP_RENEW,
    /// NFSv4.0: propose a clientid.
    OP_SETCLIENTID,
    /// NFSv4.0: confirm a clientid.
    OP_SETCLIENTID_CONFIRM,
    /// NFSv4.0: release a lock-owner.
    OP_RELEASE_LOCKOWNER,
}

impl nfs_opnum40 {
    /// The number that stands for the value on the wire.
    pub open spec fn number(self) -> u32 {
        match self {
            nfs_opnum40::OP_OPEN_CONFIRM => 20,
            nfs_opnum40::OP_RENEW => 30,
            nfs_opnum40::OP_SETCLIENTID => 35,
            nfs_opnum40::OP_SETCLIENTID_CONFIRM => 36,
            nfs_opnum40::OP_RELEASE_LOCKOWNER => 39,
        }
    }

    /// The value that a number stands for.
    pub open spec fn of_number(n: u32) -> Option<nfs_opnum40> {
        if exists|v: nfs_opnum40| v.number() == n {
            Some(choose|v: nfs_opnum40| v.number() == n)
        } else {
            None
        }
    }

    /// The number that stands for the value on the wire.
    pub fn to_u32(&self) -> (n: u32)
        ensures
            n == self.number(),
    {
        match self {
            nfs_opnum40::OP_OPEN_CONFIRM => 20,
            nfs_opnum40::OP_RENEW => 30,
            nfs_opnum40::OP_SETCLIENTID => 35,
            nfs_opnum40::OP_SETCLIENTID_CONFIRM => 36,
            nfs_opnum40::OP_RELEASE_LOCKOWNER => 39,
        }
    }

    /// No two values share a number.
    pub proof fn numbers_differ(a: nfs_opnum40, b: nfs_opnum40)
        requires
            a.number() == b.number(),
        ensures
            a == b,
    {
    }

    /// The value that a number stands for, if it is one that is known.
    pub fn from_u32(n: u32) -> (r: Option<nfs_opnum40>)
        ensures
            r == Self::of_number(n),
    {
        let r: Option<nfs_opnum40> = match n {
            20 => Some(nfs_opnum40::OP_OPEN_CONFIRM),
            30 => Some(nfs_opnum40::OP_RENEW),
            35 => Some(nfs_opnum40::OP_SETCLIENTID),
            36 => Some(nfs_opnum40::OP_SETCLIENTID_CONFIRM),
            39 => Some(nfs_opnum40::OP_RELEASE_LOCKOWNER),
            _ => None,
        };
        proof {
            if let Some(v) = r {
                assert(v.number() == n);
                Self::numbers_differ(v, choose|w: nfs_opnum40| w.number() == n);
            }
        }
        r
    }
}

impl Model for nfs_opnum40 {
    type M = nfs_opnum40;

    open spec fn model(&self) -> nfs_opnum40 {
        *self
    }
}

impl XDR for nfs_opnum40 {
    open spec fn encodable(m: nfs_opnum40) -> bool {
        true
    }

    open spec fn fits(m: nfs_opnum40) -> bool {
        true
    }

    open spec fn encode(m: nfs_opnum40) -> Seq<u8> {
        be32(m.number())
    }

    open spec fn decode(b: Seq<u8>) -> Result<(nfs_opnum40, nat), XdrError> {
        match u32::decode(b) {
            Err(e) => Err(e),
            Ok((n, k)) => match nfs_opnum40::of_number(n) {
                Some(v) => Ok((v, k)),
                None => Err(XdrError::InvalidData),
            },
        }
    }

    proof fn decode_within(b: Seq<u8>) {
    }

    proof fn round_trip(m: nfs_opnum40, rest: Seq<u8>) {
        u32::round_trip(m.number(), rest);
        Self::numbers_differ(m, choose|v: nfs_opnum40| v.number() == m.number());
    }

    fn serialize(&self, dest: &mut Vec<u8>) {
        self.to_u32().serialize(dest);
    }

    fn deserialize(src: &mut Reader) -> (r: Result<Self, XdrError>) {
        match u32::deserialize(src) {
            Err(e) => Err(e),
            Ok(n) => match nfs_opnum40::from_u32(n) {
                Some(v) => Ok(v),
                None => Err(XdrError::InvalidData),
            },
        }
    }
}

/// A file system id.
#[derive(Copy, Clone, Debug, Default, PartialEq, Eq, Structural)]
pub struct fsid4 {
    pub major: u64,
    pub minor: u64,
}

impl Model for fsid4 {
    type M = (u64, u64);

    open spec fn model(&self) -> Self::M {
        (self.major.model(), self.minor.model())
    }
}

impl XDR for fsid4 {
    open spec fn encodable(m: Self::M) -> bool {
        <(u64, u64) as XDR>::encodable(m)
    }

    open spec fn fits(m: Self::M) -> bool {
        <(u64, u64) as XDR>::fits(m)
    }

    open spec fn encode(m: Self::M) -> Seq<u8> {
        <(u64, u64) as XDR>::encode(m)
    }

    open spec fn decode(b: Seq<u8>) -> Result<(Self::M, nat), XdrError> {
        <(u64, u64) as XDR>::decode(b)
    }

    proof fn decode_within(b: Seq<u8>) {
        <(u64, u64) as XDR>::decode_within(b);
    }

    proof fn round_trip(m: Self::M, rest: Seq<u8>) {
        <(u64, u64) as XDR>::round_trip(m, rest);
    }

    fn serialize(&self, dest: &mut Vec<u8>) {
        self.major.serialize(dest);
        self.minor.serialize(dest);
        assert(dest@ =~= old(dest)@ + Self::encode(self.model()));
    }

    fn deserialize(src: &mut Reader) -> (r: Result<Self, XdrError>) {
        match <(u64, u64) as XDR>::deserialize(src) {
            Ok((major, minor)) => Ok(fsid4 { major, minor }),
            Err(e) => Err(e),
        }
    }
}

/// nfstime4: int64 seconds; uint32 nseconds.
#[derive(Copy, Clone, Debug, Default, PartialEq, Eq, Structural)]
pub struct nfstime4 {
    pub seconds: i64,
    pub nseconds: u32,
}

impl Model for nfstime4 {
    type M = (i64, u32);

    open spec fn model(&self) -> Self::M {
        (self.seconds.model(), self.nseconds.model())
    }
}

impl XDR for nfstime4 {
    open spec fn encodable(m: Self::M) -> bool {
        <(i64, u32) as XDR>::encodable(m)
    }

    open spec fn fits(m: Self::M) -> bool {
        <(i64, u32) as XDR>::fits(m)
    }

    open spec fn encode(m: Self::M) -> Seq<u8> {
        <(i64, u32) as XDR>::encode(m)
    }

    open spec fn decode(b: Seq<u8>) -> Result<(Self::M, nat), XdrError> {
        <(i64, u32) as XDR>::decode(b)
    }

    proof fn decode_within(b: Seq<u8>) {
        <(i64, u32) as XDR>::decode_within(b);
    }

    proof fn round_trip(m: Self::M, rest: Seq<u8>) {
        <(i64, u32) as XDR>::round_trip(m, rest);
    }

    fn serialize(&self, dest: &mut Vec<u8>) {
        self.seconds.serialize(dest);
        self.nseconds.serialize(dest);
        assert(dest@ =~= old(dest)@ + Self::encode(self.model()));
    }

    fn deserialize(src: &mut Reader) -> (r: Result<Self, XdrError>) {
        match <(i64, u32) as XDR>::deserialize(src) {
            Ok((seconds, nseconds)) => Ok(nfstime4 { seconds, nseconds }),
            Err(e) => Err(e),
        }
    }
}

impl From<nfstime3> for nfstime4 {
    fn from(value: nfstime3) -> (r: Self) {
        nfstime4 { seconds: value.seconds as i64, nseconds: value.nseconds }
    }
}

impl vstd::std_specs::convert::FromSpecImpl<nfstime3> for nfstime4 {
    open spec fn obeys_from_spec() -> bool {
        true
    }

    open spec fn from_spec(value: nfstime3) -> Self {
        nfstime4 { seconds: value.seconds as i64, nseconds: value.nseconds }
    }
}

/// stateid4: which state, and which version of it.
#[derive(Copy, Clone, Debug, Default, PartialEq, Eq)]
pub struct stateid4 {
    pub seqid: u32,
    pub other: [u8; NFS4_OTHER_SIZE],
}

impl Model for stateid4 {
    type M = (u32, <[u8; NFS4_OTHER_SIZE] as Model>::M);

    open spec fn model(&self) -> Self::M {
        (self.seqid.model(), self.other.model())
    }
}

impl XDR for stateid4 {
    open spec fn encodable(m: Self::M) -> bool {
        <(u32, [u8; NFS4_OTHER_SIZE]) as XDR>::encodable(m)
    }

    open spec fn fits(m: Self::M) -> bool {
        <(u32, [u8; NFS4_OTHER_SIZE]) as XDR>::fits(m)
    }

    open spec fn encode(m: Self::M) -> Seq<u8> {
        <(u32, [u8; NFS4_OTHER_SIZE]) as XDR>::encode(m)
    }

    open spec fn decode(b: Seq<u8>) -> Result<(Self::M, nat), XdrError> {
        <(u32, [u8; NFS4_OTHER_SIZE]) as XDR>::decode(b)
    }

    proof fn decode_within(b: Seq<u8>) {
        <(u32, [u8; NFS4_OTHER_SIZE]) as XDR>::decode_within(b);
    }

    proof fn round_trip(m: Self::M, rest: Seq<u8>) {
        <(u32, [u8; NFS4_OTHER_SIZE]) as XDR>::round_trip(m, rest);
    }

    fn serialize(&self, dest: &mut Vec<u8>) {
        self.seqid.serialize(dest);
        self.other.serialize(dest);
        assert(dest@ =~= old(dest)@ + Self::encode(self.model()));
    }

    fn deserialize(src: &mut Reader) -> (r: Result<Self, XdrError>) {
        match <(u32, [u8; NFS4_OTHER_SIZE]) as XDR>::deserialize(src) {
            Ok((seqid, other)) => Ok(stateid4 { seqid, other }),
            Err(e) => Err(e),
        }
    }
}

} // verus!
