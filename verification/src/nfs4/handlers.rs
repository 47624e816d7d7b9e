//! The COMPOUND procedure: which operation a number stands for, what each one
//! does, and how their results make up a reply.

use vstd::prelude::*;

use crate::context::RPCContext;
use crate::model::Model;
use crate::nfs::nfsstring;
use crate::nfs4::args::{
    locker4, ACCESS4args, CLOSE4args, COMMIT4args, CREATE4args, GETATTR4args, LOCK4args, LOOKUP4args, LockerView,
    OPEN4args, OPEN_CONFIRM4args, OPEN_DOWNGRADE4args, PUTFH4args, READ4args, READDIR4args, RECLAIM_COMPLETE4args,
    RELEASE_LOCKOWNER4args, REMOVE4args, RENAME4args, RENEW4args, SECINFO4args, SECINFO_NO_NAME4args, SETATTR4args,
    SETCLIENTID4args, SETCLIENTID_CONFIRM4args, TEST_STATEID4args, WRITE4args,
};
use crate::nfs4::compound::{
    failed, fails, succeeds, CompoundState, CompoundView, Pending, PendingOp, PendingView, Reply, Step, StepView, World,
};
use crate::nfs4::handlers::session_ops::{fair, nothing_drawn, world, Draws, MAX_COMPOUND_OPS};
use crate::nfs4::session::{
    CREATE_SESSION4args, DESTROY_CLIENTID4args, DESTROY_SESSION4args, EXCHANGE_ID4args, SEQUENCE4args,
};
use crate::nfs4::state::{ManagedFileHandle, NFS4State};
use crate::nfs4::state_spec::StateView;
use crate::nfs4::{nfs_opnum4, nfs_opnum40, nfsstat4, stateid4, verifier4};
use crate::random::draw_bytes;
use crate::rpc::{make_success_reply, proc_unavail_reply_message, reply_header, PROC_UNAVAIL, SUCCESS};
use crate::vfs::{CallView, ReplyView, VfsCall};
use crate::word::{be32, be32_len};
use crate::xdr::{append, Reader, XdrError, XDR};

pub mod conduct;
pub mod data_ops;
pub mod dir_ops;
pub mod file_ops;
pub mod framing;
pub mod laws;
pub mod once;
pub mod opening;
pub mod open_ops;
pub mod session_ops;
pub mod standing;
pub mod wire;

verus! {

broadcast use be32_len;

// ---------------------------------------------------------------- operations

/// An operation on clients, sessions and open state, with its arguments. It asks
/// nothing of the file system.
pub enum StateOp {
    ExchangeId(EXCHANGE_ID4args),
    CreateSession(CREATE_SESSION4args),
    DestroySession(DESTROY_SESSION4args),
    DestroyClientid(DESTROY_CLIENTID4args),
    Sequence(SEQUENCE4args),
    ReclaimComplete(RECLAIM_COMPLETE4args),
    Close(CLOSE4args),
    TestStateid(TEST_STATEID4args),
    OpenDowngrade(OPEN_DOWNGRADE4args),
    Lock(LOCK4args),
    SetClientid(SETCLIENTID4args),
    SetClientidConfirm(SETCLIENTID_CONFIRM4args),
    Renew(RENEW4args),
    OpenConfirm(OPEN_CONFIRM4args),
    ReleaseLockowner(RELEASE_LOCKOWNER4args),
}

/// An operation on files and filehandles, with its arguments.
pub enum FileOp {
    SecinfoNoName(SECINFO_NO_NAME4args),
    PutRootFh,
    GetFh,
    Getattr(GETATTR4args),
    PutFh(PUTFH4args),
    Access(ACCESS4args),
    Lookup(LOOKUP4args),
    Readdir(READDIR4args),
    Open(OPEN4args),
    Read(READ4args),
    Write(WRITE4args),
    Remove(REMOVE4args),
    Create(CREATE4args),
    SaveFh,
    RestoreFh,
    Rename(RENAME4args),
    Setattr(SETATTR4args),
    Readlink,
    Commit(COMMIT4args),
    Secinfo(SECINFO4args),
}

/// An operation with its arguments.
pub enum OpArgs {
    /// A number that is no operation's, or OP_ILLEGAL itself.
    Illegal,
    /// An operation that is not implemented, or not in this minor version. Its
    /// arguments are not read.
    NotSupported,
    State(StateOp),
    Files(FileOp),
}

/// What an operation stands for.
pub enum ArgsView {
    Illegal,
    NotSupported,
    ExchangeId(<EXCHANGE_ID4args as Model>::M),
    CreateSession(<CREATE_SESSION4args as Model>::M),
    DestroySession(<DESTROY_SESSION4args as Model>::M),
    DestroyClientid(<DESTROY_CLIENTID4args as Model>::M),
    Sequence(<SEQUENCE4args as Model>::M),
    ReclaimComplete(<RECLAIM_COMPLETE4args as Model>::M),
    SecinfoNoName(<SECINFO_NO_NAME4args as Model>::M),
    PutRootFh,
    GetFh,
    Getattr(<GETATTR4args as Model>::M),
    PutFh(<PUTFH4args as Model>::M),
    Access(<ACCESS4args as Model>::M),
    Lookup(<LOOKUP4args as Model>::M),
    Readdir(<READDIR4args as Model>::M),
    Open(<OPEN4args as Model>::M),
    Close(<CLOSE4args as Model>::M),
    Read(<READ4args as Model>::M),
    Write(<WRITE4args as Model>::M),
    Remove(<REMOVE4args as Model>::M),
    Create(<CREATE4args as Model>::M),
    SaveFh,
    RestoreFh,
    Rename(<RENAME4args as Model>::M),
    Setattr(<SETATTR4args as Model>::M),
    Readlink,
    Commit(<COMMIT4args as Model>::M),
    TestStateid(<TEST_STATEID4args as Model>::M),
    Secinfo(<SECINFO4args as Model>::M),
    OpenDowngrade(<OPEN_DOWNGRADE4args as Model>::M),
    Lock(<LOCK4args as Model>::M),
    SetClientid(<SETCLIENTID4args as Model>::M),
    SetClientidConfirm(<SETCLIENTID_CONFIRM4args as Model>::M),
    Renew(<RENEW4args as Model>::M),
    OpenConfirm(<OPEN_CONFIRM4args as Model>::M),
    ReleaseLockowner(<RELEASE_LOCKOWNER4args as Model>::M),
}

impl Model for StateOp {
    type M = ArgsView;

    open spec fn model(&self) -> ArgsView {
        match self {
            StateOp::ExchangeId(a) => ArgsView::ExchangeId(a.model()),
            StateOp::CreateSession(a) => ArgsView::CreateSession(a.model()),
            StateOp::DestroySession(a) => ArgsView::DestroySession(a.model()),
            StateOp::DestroyClientid(a) => ArgsView::DestroyClientid(a.model()),
            StateOp::Sequence(a) => ArgsView::Sequence(a.model()),
            StateOp::ReclaimComplete(a) => ArgsView::ReclaimComplete(a.model()),
            StateOp::Close(a) => ArgsView::Close(a.model()),
            StateOp::TestStateid(a) => ArgsView::TestStateid(a.model()),
            StateOp::OpenDowngrade(a) => ArgsView::OpenDowngrade(a.model()),
            StateOp::Lock(a) => ArgsView::Lock(a.model()),
            StateOp::SetClientid(a) => ArgsView::SetClientid(a.model()),
            StateOp::SetClientidConfirm(a) => ArgsView::SetClientidConfirm(a.model()),
            StateOp::Renew(a) => ArgsView::Renew(a.model()),
            StateOp::OpenConfirm(a) => ArgsView::OpenConfirm(a.model()),
            StateOp::ReleaseLockowner(a) => ArgsView::ReleaseLockowner(a.model()),
        }
    }
}

impl Model for FileOp {
    type M = ArgsView;

    open spec fn model(&self) -> ArgsView {
        match self {
            FileOp::SecinfoNoName(a) => ArgsView::SecinfoNoName(a.model()),
            FileOp::PutRootFh => ArgsView::PutRootFh,
            FileOp::GetFh => ArgsView::GetFh,
            FileOp::Getattr(a) => ArgsView::Getattr(a.model()),
            FileOp::PutFh(a) => ArgsView::PutFh(a.model()),
            FileOp::Access(a) => ArgsView::Access(a.model()),
            FileOp::Lookup(a) => ArgsView::Lookup(a.model()),
            FileOp::Readdir(a) => ArgsView::Readdir(a.model()),
            FileOp::Open(a) => ArgsView::Open(a.model()),
            FileOp::Read(a) => ArgsView::Read(a.model()),
            FileOp::Write(a) => ArgsView::Write(a.model()),
            FileOp::Remove(a) => ArgsView::Remove(a.model()),
            FileOp::Create(a) => ArgsView::Create(a.model()),
            FileOp::SaveFh => ArgsView::SaveFh,
            FileOp::RestoreFh => ArgsView::RestoreFh,
            FileOp::Rename(a) => ArgsView::Rename(a.model()),
            FileOp::Setattr(a) => ArgsView::Setattr(a.model()),
            FileOp::Readlink => ArgsView::Readlink,
            FileOp::Commit(a) => ArgsView::Commit(a.model()),
            FileOp::Secinfo(a) => ArgsView::Secinfo(a.model()),
        }
    }
}

impl Model for OpArgs {
    type M = ArgsView;

    open spec fn model(&self) -> ArgsView {
        match self {
            OpArgs::Illegal => ArgsView::Illegal,
            OpArgs::NotSupported => ArgsView::NotSupported,
            OpArgs::State(op) => op.model(),
            OpArgs::Files(op) => op.model(),
        }
    }
}

/// Operations that came with sessions.
pub open spec fn v41_only(op: nfs_opnum4) -> bool {
    ||| op == nfs_opnum4::OP_EXCHANGE_ID
    ||| op == nfs_opnum4::OP_CREATE_SESSION
    ||| op == nfs_opnum4::OP_DESTROY_SESSION
    ||| op == nfs_opnum4::OP_DESTROY_CLIENTID
    ||| op == nfs_opnum4::OP_SEQUENCE
    ||| op == nfs_opnum4::OP_RECLAIM_COMPLETE
    ||| op == nfs_opnum4::OP_SECINFO_NO_NAME
}

/// The arguments of an operation.
pub trait OpArgument: XDR {
    /// The operation with these arguments.
    spec fn op(m: Self::M) -> ArgsView;

    /// The operation with these arguments.
    fn into_op(self) -> (o: OpArgs)
        ensures
            o.model() == Self::op(self.model()),
    ;
}

impl OpArgument for EXCHANGE_ID4args {
    open spec fn op(m: <EXCHANGE_ID4args as Model>::M) -> ArgsView {
        ArgsView::ExchangeId(m)
    }

    fn into_op(self) -> OpArgs {
        OpArgs::State(StateOp::ExchangeId(self))
    }
}

impl OpArgument for CREATE_SESSION4args {
    open spec fn op(m: <CREATE_SESSION4args as Model>::M) -> ArgsView {
        ArgsView::CreateSession(m)
    }

    fn into_op(self) -> OpArgs {
        OpArgs::State(StateOp::CreateSession(self))
    }
}

impl OpArgument for DESTROY_SESSION4args {
    open spec fn op(m: <DESTROY_SESSION4args as Model>::M) -> ArgsView {
        ArgsView::DestroySession(m)
    }

    fn into_op(self) -> OpArgs {
        OpArgs::State(StateOp::DestroySession(self))
    }
}

impl OpArgument for DESTROY_CLIENTID4args {
    open spec fn op(m: <DESTROY_CLIENTID4args as Model>::M) -> ArgsView {
        ArgsView::DestroyClientid(m)
    }

    fn into_op(self) -> OpArgs {
        OpArgs::State(StateOp::DestroyClientid(self))
    }
}

impl OpArgument for SEQUENCE4args {
    open spec fn op(m: <SEQUENCE4args as Model>::M) -> ArgsView {
        ArgsView::Sequence(m)
    }

    fn into_op(self) -> OpArgs {
        OpArgs::State(StateOp::Sequence(self))
    }
}

impl OpArgument for RECLAIM_COMPLETE4args {
    open spec fn op(m: <RECLAIM_COMPLETE4args as Model>::M) -> ArgsView {
        ArgsView::ReclaimComplete(m)
    }

    fn into_op(self) -> OpArgs {
        OpArgs::State(StateOp::ReclaimComplete(self))
    }
}

impl OpArgument for SECINFO_NO_NAME4args {
    open spec fn op(m: <SECINFO_NO_NAME4args as Model>::M) -> ArgsView {
        ArgsView::SecinfoNoName(m)
    }

    fn into_op(self) -> OpArgs {
        OpArgs::Files(FileOp::SecinfoNoName(self))
    }
}

impl OpArgument for GETATTR4args {
    open spec fn op(m: <GETATTR4args as Model>::M) -> ArgsView {
        ArgsView::Getattr(m)
    }

    fn into_op(self) -> OpArgs {
        OpArgs::Files(FileOp::Getattr(self))
    }
}

impl OpArgument for PUTFH4args {
    open spec fn op(m: <PUTFH4args as Model>::M) -> ArgsView {
        ArgsView::PutFh(m)
    }

    fn into_op(self) -> OpArgs {
        OpArgs::Files(FileOp::PutFh(self))
    }
}

impl OpArgument for ACCESS4args {
    open spec fn op(m: <ACCESS4args as Model>::M) -> ArgsView {
        ArgsView::Access(m)
    }

    fn into_op(self) -> OpArgs {
        OpArgs::Files(FileOp::Access(self))
    }
}

impl OpArgument for LOOKUP4args {
    open spec fn op(m: <LOOKUP4args as Model>::M) -> ArgsView {
        ArgsView::Lookup(m)
    }

    fn into_op(self) -> OpArgs {
        OpArgs::Files(FileOp::Lookup(self))
    }
}

impl OpArgument for READDIR4args {
    open spec fn op(m: <READDIR4args as Model>::M) -> ArgsView {
        ArgsView::Readdir(m)
    }

    fn into_op(self) -> OpArgs {
        OpArgs::Files(FileOp::Readdir(self))
    }
}

impl OpArgument for OPEN4args {
    open spec fn op(m: <OPEN4args as Model>::M) -> ArgsView {
        ArgsView::Open(m)
    }

    fn into_op(self) -> OpArgs {
        OpArgs::Files(FileOp::Open(self))
    }
}

impl OpArgument for CLOSE4args {
    open spec fn op(m: <CLOSE4args as Model>::M) -> ArgsView {
        ArgsView::Close(m)
    }

    fn into_op(self) -> OpArgs {
        OpArgs::State(StateOp::Close(self))
    }
}

impl OpArgument for READ4args {
    open spec fn op(m: <READ4args as Model>::M) -> ArgsView {
        ArgsView::Read(m)
    }

    fn into_op(self) -> OpArgs {
        OpArgs::Files(FileOp::Read(self))
    }
}

impl OpArgument for WRITE4args {
    open spec fn op(m: <WRITE4args as Model>::M) -> ArgsView {
        ArgsView::Write(m)
    }

    fn into_op(self) -> OpArgs {
        OpArgs::Files(FileOp::Write(self))
    }
}

impl OpArgument for REMOVE4args {
    open spec fn op(m: <REMOVE4args as Model>::M) -> ArgsView {
        ArgsView::Remove(m)
    }

    fn into_op(self) -> OpArgs {
        OpArgs::Files(FileOp::Remove(self))
    }
}

impl OpArgument for CREATE4args {
    open spec fn op(m: <CREATE4args as Model>::M) -> ArgsView {
        ArgsView::Create(m)
    }

    fn into_op(self) -> OpArgs {
        OpArgs::Files(FileOp::Create(self))
    }
}

impl OpArgument for RENAME4args {
    open spec fn op(m: <RENAME4args as Model>::M) -> ArgsView {
        ArgsView::Rename(m)
    }

    fn into_op(self) -> OpArgs {
        OpArgs::Files(FileOp::Rename(self))
    }
}

impl OpArgument for SETATTR4args {
    open spec fn op(m: <SETATTR4args as Model>::M) -> ArgsView {
        ArgsView::Setattr(m)
    }

    fn into_op(self) -> OpArgs {
        OpArgs::Files(FileOp::Setattr(self))
    }
}

impl OpArgument for COMMIT4args {
    open spec fn op(m: <COMMIT4args as Model>::M) -> ArgsView {
        ArgsView::Commit(m)
    }

    fn into_op(self) -> OpArgs {
        OpArgs::Files(FileOp::Commit(self))
    }
}

impl OpArgument for TEST_STATEID4args {
    open spec fn op(m: <TEST_STATEID4args as Model>::M) -> ArgsView {
        ArgsView::TestStateid(m)
    }

    fn into_op(self) -> OpArgs {
        OpArgs::State(StateOp::TestStateid(self))
    }
}

impl OpArgument for SECINFO4args {
    open spec fn op(m: <SECINFO4args as Model>::M) -> ArgsView {
        ArgsView::Secinfo(m)
    }

    fn into_op(self) -> OpArgs {
        OpArgs::Files(FileOp::Secinfo(self))
    }
}

impl OpArgument for OPEN_DOWNGRADE4args {
    open spec fn op(m: <OPEN_DOWNGRADE4args as Model>::M) -> ArgsView {
        ArgsView::OpenDowngrade(m)
    }

    fn into_op(self) -> OpArgs {
        OpArgs::State(StateOp::OpenDowngrade(self))
    }
}

impl OpArgument for LOCK4args {
    open spec fn op(m: <LOCK4args as Model>::M) -> ArgsView {
        ArgsView::Lock(m)
    }

    fn into_op(self) -> OpArgs {
        OpArgs::State(StateOp::Lock(self))
    }
}

impl OpArgument for SETCLIENTID4args {
    open spec fn op(m: <SETCLIENTID4args as Model>::M) -> ArgsView {
        ArgsView::SetClientid(m)
    }

    fn into_op(self) -> OpArgs {
        OpArgs::State(StateOp::SetClientid(self))
    }
}

impl OpArgument for SETCLIENTID_CONFIRM4args {
    open spec fn op(m: <SETCLIENTID_CONFIRM4args as Model>::M) -> ArgsView {
        ArgsView::SetClientidConfirm(m)
    }

    fn into_op(self) -> OpArgs {
        OpArgs::State(StateOp::SetClientidConfirm(self))
    }
}

impl OpArgument for RENEW4args {
    open spec fn op(m: <RENEW4args as Model>::M) -> ArgsView {
        ArgsView::Renew(m)
    }

    fn into_op(self) -> OpArgs {
        OpArgs::State(StateOp::Renew(self))
    }
}

impl OpArgument for OPEN_CONFIRM4args {
    open spec fn op(m: <OPEN_CONFIRM4args as Model>::M) -> ArgsView {
        ArgsView::OpenConfirm(m)
    }

    fn into_op(self) -> OpArgs {
        OpArgs::State(StateOp::OpenConfirm(self))
    }
}

impl OpArgument for RELEASE_LOCKOWNER4args {
    open spec fn op(m: <RELEASE_LOCKOWNER4args as Model>::M) -> ArgsView {
        ArgsView::ReleaseLockowner(m)
    }

    fn into_op(self) -> OpArgs {
        OpArgs::State(StateOp::ReleaseLockowner(self))
    }
}

/// What the front of a byte string reads as, taken as arguments of one type.
#[verifier::opaque]
pub open spec fn decode_as<T: OpArgument>(b: Seq<u8>) -> Result<(ArgsView, nat), XdrError> {
    match T::decode(b) {
        Ok((m, n)) => Ok((T::op(m), n)),
        Err(e) => Err(e),
    }
}

/// The same for an operation that is rejected whatever its arguments are: where
/// they cannot be read, it is not supported all the same.
pub open spec fn decode_rejected<T: OpArgument>(b: Seq<u8>) -> Result<(ArgsView, nat), XdrError> {
    match decode_as::<T>(b) {
        Ok(x) => Ok(x),
        Err(_) => Ok((ArgsView::NotSupported, 0)),
    }
}

/// What the front of a byte string reads as, taken as the arguments of an
/// operation.
#[verifier::opaque]
pub open spec fn decode_op(op: nfs_opnum4, minor: u32, b: Seq<u8>) -> Result<(ArgsView, nat), XdrError> {
    if minor != 1 && v41_only(op) {
        Ok((ArgsView::NotSupported, 0))
    } else {
        match op {
            nfs_opnum4::OP_EXCHANGE_ID => decode_as::<EXCHANGE_ID4args>(b),
            nfs_opnum4::OP_CREATE_SESSION => decode_as::<CREATE_SESSION4args>(b),
            nfs_opnum4::OP_DESTROY_SESSION => decode_as::<DESTROY_SESSION4args>(b),
            nfs_opnum4::OP_DESTROY_CLIENTID => decode_as::<DESTROY_CLIENTID4args>(b),
            nfs_opnum4::OP_SEQUENCE => decode_as::<SEQUENCE4args>(b),
            nfs_opnum4::OP_RECLAIM_COMPLETE => decode_as::<RECLAIM_COMPLETE4args>(b),
            nfs_opnum4::OP_SECINFO_NO_NAME => decode_as::<SECINFO_NO_NAME4args>(b),
            nfs_opnum4::OP_PUTROOTFH => Ok((ArgsView::PutRootFh, 0)),
            nfs_opnum4::OP_GETFH => Ok((ArgsView::GetFh, 0)),
            nfs_opnum4::OP_GETATTR => decode_as::<GETATTR4args>(b),
            nfs_opnum4::OP_PUTFH => decode_as::<PUTFH4args>(b),
            nfs_opnum4::OP_ACCESS => decode_as::<ACCESS4args>(b),
            nfs_opnum4::OP_LOOKUP => decode_as::<LOOKUP4args>(b),
            nfs_opnum4::OP_READDIR => decode_as::<READDIR4args>(b),
            nfs_opnum4::OP_OPEN => decode_as::<OPEN4args>(b),
            nfs_opnum4::OP_CLOSE => decode_as::<CLOSE4args>(b),
            nfs_opnum4::OP_READ => decode_as::<READ4args>(b),
            nfs_opnum4::OP_WRITE => decode_as::<WRITE4args>(b),
            nfs_opnum4::OP_REMOVE => decode_as::<REMOVE4args>(b),
            nfs_opnum4::OP_CREATE => decode_as::<CREATE4args>(b),
            nfs_opnum4::OP_SAVEFH => Ok((ArgsView::SaveFh, 0)),
            nfs_opnum4::OP_RESTOREFH => Ok((ArgsView::RestoreFh, 0)),
            nfs_opnum4::OP_RENAME => decode_as::<RENAME4args>(b),
            nfs_opnum4::OP_SETATTR => decode_as::<SETATTR4args>(b),
            nfs_opnum4::OP_READLINK => Ok((ArgsView::Readlink, 0)),
            nfs_opnum4::OP_COMMIT => decode_as::<COMMIT4args>(b),
            nfs_opnum4::OP_TEST_STATEID => decode_as::<TEST_STATEID4args>(b),
            nfs_opnum4::OP_SECINFO => decode_as::<SECINFO4args>(b),
            // In 4.0 it names an open-owner, whose sequence must be kept.
            nfs_opnum4::OP_OPEN_DOWNGRADE => if minor == 0 {
                decode_rejected::<OPEN_DOWNGRADE4args>(b)
            } else {
                Ok((ArgsView::NotSupported, 0))
            },
            // In 4.0 it names an open-owner, whose sequence must be kept.
            nfs_opnum4::OP_LOCK => if minor == 0 {
                decode_rejected::<LOCK4args>(b)
            } else {
                Ok((ArgsView::NotSupported, 0))
            },
            nfs_opnum4::OP_ILLEGAL => Ok((ArgsView::Illegal, 0)),
            _ => Ok((ArgsView::NotSupported, 0)),
        }
    }
}

/// The same for an operation that only 4.0 has.
pub open spec fn decode_op40(op: nfs_opnum40, minor: u32, b: Seq<u8>) -> Result<(ArgsView, nat), XdrError> {
    if minor != 0 {
        Ok((ArgsView::NotSupported, 0))
    } else {
        match op {
            nfs_opnum40::OP_SETCLIENTID => decode_as::<SETCLIENTID4args>(b),
            nfs_opnum40::OP_SETCLIENTID_CONFIRM => decode_as::<SETCLIENTID_CONFIRM4args>(b),
            nfs_opnum40::OP_RENEW => decode_as::<RENEW4args>(b),
            nfs_opnum40::OP_OPEN_CONFIRM => decode_as::<OPEN_CONFIRM4args>(b),
            nfs_opnum40::OP_RELEASE_LOCKOWNER => decode_as::<RELEASE_LOCKOWNER4args>(b),
        }
    }
}

/// The operation that a number stands for, with its arguments.
pub open spec fn decode_args(opnum: u32, minor: u32, b: Seq<u8>) -> Result<(ArgsView, nat), XdrError> {
    match nfs_opnum4::of_number(opnum) {
        Some(op) => decode_op(op, minor, b),
        None => match nfs_opnum40::of_number(opnum) {
            Some(op) => decode_op40(op, minor, b),
            None => Ok((ArgsView::Illegal, 0)),
        },
    }
}

fn is_v41_only(op: nfs_opnum4) -> (b: bool)
    ensures
        b == v41_only(op),
{
    match op {
        nfs_opnum4::OP_EXCHANGE_ID
        | nfs_opnum4::OP_CREATE_SESSION
        | nfs_opnum4::OP_DESTROY_SESSION
        | nfs_opnum4::OP_DESTROY_CLIENTID
        | nfs_opnum4::OP_SEQUENCE
        | nfs_opnum4::OP_RECLAIM_COMPLETE
        | nfs_opnum4::OP_SECINFO_NO_NAME => true,
        _ => false,
    }
}

fn read_as<T: OpArgument>(src: &mut Reader) -> (r: Result<OpArgs, XdrError>)
    requires
        old(src).wf(),
    ensures
        final(src).wf(),
        final(src).buf == old(src).buf,
        match decode_as::<T>(old(src).rest()) {
            Ok((m, n)) => {
                &&& r matches Ok(a)
                &&& a.model() == m
                &&& n <= old(src).rest().len()
                &&& final(src).rest() == old(src).rest().skip(n as int)
            },
            Err(e) => r matches Err(x) && x == e,
        },
{
    proof {
        reveal(decode_as);
        T::decode_within(src.rest());
    }
    match T::deserialize(src) {
        Ok(a) => Ok(a.into_op()),
        Err(e) => Err(e),
    }
}

fn read_rejected<T: OpArgument>(src: &mut Reader) -> (r: Result<OpArgs, XdrError>)
    requires
        old(src).wf(),
    ensures
        final(src).wf(),
        final(src).buf == old(src).buf,
        match decode_rejected::<T>(old(src).rest()) {
            Ok((m, n)) => {
                &&& r matches Ok(a)
                &&& a.model() == m
                &&& n <= old(src).rest().len()
                &&& final(src).rest() == old(src).rest().skip(n as int)
            },
            Err(e) => r matches Err(x) && x == e,
        },
{
    let ghost b = src.rest();
    let pos: usize = src.pos;
    match read_as::<T>(src) {
        Ok(a) => Ok(a),
        Err(_) => {
            src.pos = pos;
            assert(b.skip(0) =~= b);
            Ok(OpArgs::NotSupported)
        },
    }
}

fn read_op(op: nfs_opnum4, minor: u32, src: &mut Reader) -> (r: Result<OpArgs, XdrError>)
    requires
        old(src).wf(),
    ensures
        final(src).wf(),
        final(src).buf == old(src).buf,
        match decode_op(op, minor, old(src).rest()) {
            Ok((m, n)) => {
                &&& r matches Ok(a)
                &&& a.model() == m
                &&& n <= old(src).rest().len()
                &&& final(src).rest() == old(src).rest().skip(n as int)
            },
            Err(e) => r matches Err(x) && x == e,
        },
{
    let ghost b = src.rest();
    proof {
        reveal(decode_op);
        assert(b.skip(0) =~= b);
    }
    if minor != 1 && is_v41_only(op) {
        return Ok(OpArgs::NotSupported);
    }
    match op {
        nfs_opnum4::OP_EXCHANGE_ID => read_as::<EXCHANGE_ID4args>(src),
        nfs_opnum4::OP_CREATE_SESSION => read_as::<CREATE_SESSION4args>(src),
        nfs_opnum4::OP_DESTROY_SESSION => read_as::<DESTROY_SESSION4args>(src),
        nfs_opnum4::OP_DESTROY_CLIENTID => read_as::<DESTROY_CLIENTID4args>(src),
        nfs_opnum4::OP_SEQUENCE => read_as::<SEQUENCE4args>(src),
        nfs_opnum4::OP_RECLAIM_COMPLETE => read_as::<RECLAIM_COMPLETE4args>(src),
        nfs_opnum4::OP_SECINFO_NO_NAME => read_as::<SECINFO_NO_NAME4args>(src),
        nfs_opnum4::OP_PUTROOTFH => Ok(OpArgs::Files(FileOp::PutRootFh)),
        nfs_opnum4::OP_GETFH => Ok(OpArgs::Files(FileOp::GetFh)),
        nfs_opnum4::OP_GETATTR => read_as::<GETATTR4args>(src),
        nfs_opnum4::OP_PUTFH => read_as::<PUTFH4args>(src),
        nfs_opnum4::OP_ACCESS => read_as::<ACCESS4args>(src),
        nfs_opnum4::OP_LOOKUP => read_as::<LOOKUP4args>(src),
        nfs_opnum4::OP_READDIR => read_as::<READDIR4args>(src),
        nfs_opnum4::OP_OPEN => read_as::<OPEN4args>(src),
        nfs_opnum4::OP_CLOSE => read_as::<CLOSE4args>(src),
        nfs_opnum4::OP_READ => read_as::<READ4args>(src),
        nfs_opnum4::OP_WRITE => read_as::<WRITE4args>(src),
        nfs_opnum4::OP_REMOVE => read_as::<REMOVE4args>(src),
        nfs_opnum4::OP_CREATE => read_as::<CREATE4args>(src),
        nfs_opnum4::OP_SAVEFH => Ok(OpArgs::Files(FileOp::SaveFh)),
        nfs_opnum4::OP_RESTOREFH => Ok(OpArgs::Files(FileOp::RestoreFh)),
        nfs_opnum4::OP_RENAME => read_as::<RENAME4args>(src),
        nfs_opnum4::OP_SETATTR => read_as::<SETATTR4args>(src),
        nfs_opnum4::OP_READLINK => Ok(OpArgs::Files(FileOp::Readlink)),
        nfs_opnum4::OP_COMMIT => read_as::<COMMIT4args>(src),
        nfs_opnum4::OP_TEST_STATEID => read_as::<TEST_STATEID4args>(src),
        nfs_opnum4::OP_SECINFO => read_as::<SECINFO4args>(src),
        nfs_opnum4::OP_OPEN_DOWNGRADE => if minor == 0 {
            read_rejected::<OPEN_DOWNGRADE4args>(src)
        } else {
            Ok(OpArgs::NotSupported)
        },
        nfs_opnum4::OP_LOCK => if minor == 0 {
            read_rejected::<LOCK4args>(src)
        } else {
            Ok(OpArgs::NotSupported)
        },
        nfs_opnum4::OP_ILLEGAL => Ok(OpArgs::Illegal),
        _ => Ok(OpArgs::NotSupported),
    }
}

fn read_op40(op: nfs_opnum40, minor: u32, src: &mut Reader) -> (r: Result<OpArgs, XdrError>)
    requires
        old(src).wf(),
    ensures
        final(src).wf(),
        final(src).buf == old(src).buf,
        match decode_op40(op, minor, old(src).rest()) {
            Ok((m, n)) => {
                &&& r matches Ok(a)
                &&& a.model() == m
                &&& n <= old(src).rest().len()
                &&& final(src).rest() == old(src).rest().skip(n as int)
            },
            Err(e) => r matches Err(x) && x == e,
        },
{
    let ghost b = src.rest();
    proof {
        assert(b.skip(0) =~= b);
    }
    if minor != 0 {
        return Ok(OpArgs::NotSupported);
    }
    match op {
        nfs_opnum40::OP_SETCLIENTID => read_as::<SETCLIENTID4args>(src),
        nfs_opnum40::OP_SETCLIENTID_CONFIRM => read_as::<SETCLIENTID_CONFIRM4args>(src),
        nfs_opnum40::OP_RENEW => read_as::<RENEW4args>(src),
        nfs_opnum40::OP_OPEN_CONFIRM => read_as::<OPEN_CONFIRM4args>(src),
        nfs_opnum40::OP_RELEASE_LOCKOWNER => read_as::<RELEASE_LOCKOWNER4args>(src),
    }
}

/// The operation that a number stands for, with its arguments.
pub fn read_args(opnum: u32, minor: u32, src: &mut Reader) -> (r: Result<OpArgs, XdrError>)
    requires
        old(src).wf(),
    ensures
        final(src).wf(),
        final(src).buf == old(src).buf,
        match decode_args(opnum, minor, old(src).rest()) {
            Ok((m, n)) => {
                &&& r matches Ok(a)
                &&& a.model() == m
                &&& n <= old(src).rest().len()
                &&& final(src).rest() == old(src).rest().skip(n as int)
            },
            Err(e) => r matches Err(x) && x == e,
        },
{
    match nfs_opnum4::from_u32(opnum) {
        Some(op) => read_op(op, minor, src),
        None => match nfs_opnum40::from_u32(opnum) {
            Some(op) => read_op40(op, minor, src),
            None => {
                assert(src.rest().skip(0) =~= src.rest());
                Ok(OpArgs::Illegal)
            },
        },
    }
}

/// The stateid that these parts make up.
pub open spec fn stateid_of(m: <stateid4 as Model>::M) -> stateid4 {
    stateid4 { seqid: m.0, other: m.1 }
}

/// What an operation does first.
#[verifier::opaque]
pub open spec fn start<H>(w: World<H>, args: ArgsView, now: u64, d: Draws) -> (World<H>, StepView<H>) {
    let keep = |s: StepView<H>| (w, s);
    let handles = |r: (CompoundView, StepView<H>)| (w.with_cs(r.0), r.1);
    let books = |r: (StateView<H>, StepView<H>)| (w.with_st(r.0), r.1);
    match args {
        ArgsView::Illegal => keep(fails(nfsstat4::NFS4ERR_OP_ILLEGAL)),
        ArgsView::NotSupported => keep(fails(nfsstat4::NFS4ERR_NOTSUPP)),
        ArgsView::ExchangeId(((verifier, ownerid), (_, ((how, _, _), _)))) => session_ops::exchange_id(
            w,
            ownerid,
            verifier,
            how,
            now,
            d,
        ),
        ArgsView::CreateSession(a) => session_ops::create_session(w, a, now, d),
        ArgsView::DestroySession(id) => session_ops::destroy_session(w, id),
        ArgsView::DestroyClientid(cid) => session_ops::destroy_clientid(w, cid),
        ArgsView::Sequence(a) => session_ops::sequence(w, a, now),
        ArgsView::ReclaimComplete(_) => session_ops::reclaim_complete(w, now),
        ArgsView::SecinfoNoName(_) => handles(file_ops::secinfo_no_name(w.cs, w.ctx)),
        ArgsView::PutRootFh => handles(file_ops::putrootfh(w.cs, w.ctx)),
        ArgsView::GetFh => handles(file_ops::getfh(w.cs, w.ctx)),
        ArgsView::Getattr(request) => keep(file_ops::start_getattr(w.cs, w.ctx, request)),
        ArgsView::PutFh(fh) => handles(file_ops::putfh(w.cs, w.ctx, fh)),
        ArgsView::Access(access) => keep(file_ops::start_access(w.cs, w.ctx, access)),
        ArgsView::Lookup(name) => keep(file_ops::start_lookup(w.cs, w.ctx, name)),
        ArgsView::Readdir((cookie, (_, (_, (maxcount, request))))) => keep(
            file_ops::start_readdir(w.cs, w.ctx, cookie, maxcount, request),
        ),
        ArgsView::Open(a) => {
            let (_, (access, (_, (_, (_, claim))))) = a;
            books(open_ops::start_open(w.cs, w.st, w.ctx, open_ops::request_of(w.cs, a), access, claim, now))
        },
        ArgsView::Close((seqid, sid)) => session_ops::close(w, stateid_of(sid), seqid, now),
        ArgsView::Read((sid, (offset, count))) => keep(
            data_ops::start_read(w.cs, w.st, w.ctx, stateid_of(sid), offset, count),
        ),
        ArgsView::Write((sid, (offset, (_, data)))) => keep(
            data_ops::start_write(w.cs, w.st, w.ctx, stateid_of(sid), offset, data),
        ),
        ArgsView::Remove(name) => keep(dir_ops::start_remove(w.cs, w.ctx, name)),
        ArgsView::Create((kind, (name, _))) => keep(
            dir_ops::start_create(w.cs, w.ctx, name, dir_ops::made_of(kind)),
        ),
        ArgsView::SaveFh => handles(file_ops::savefh(w.cs, w.ctx)),
        ArgsView::RestoreFh => handles(file_ops::restorefh(w.cs, w.ctx)),
        ArgsView::Rename((old_name, new_name)) => keep(dir_ops::start_rename(w.cs, w.ctx, old_name, new_name)),
        ArgsView::Setattr((sid, attrs)) => keep(
            dir_ops::start_setattr(w.cs, w.st, w.ctx, stateid_of(sid), attrs),
        ),
        ArgsView::Readlink => keep(dir_ops::start_readlink(w.cs, w.ctx)),
        ArgsView::Commit(_) => keep(dir_ops::start_commit(w.cs, w.ctx)),
        ArgsView::TestStateid(sids) => session_ops::test_stateid(
            w,
            Seq::new(sids.len(), |i: int| stateid_of(sids[i])),
        ),
        ArgsView::Secinfo(name) => keep(file_ops::start_secinfo(w.cs, w.ctx, name)),
        ArgsView::OpenDowngrade((sid, (seqid, _))) => session_ops::reject_owner_op(w, stateid_of(sid), seqid, now),
        ArgsView::Lock((_, (_, (_, (_, locker))))) => match locker {
            LockerView::New((seqid, (sid, _))) => session_ops::reject_owner_op(w, stateid_of(sid), seqid, now),
            LockerView::Existing(_) => keep(fails(nfsstat4::NFS4ERR_NOTSUPP)),
        },
        ArgsView::SetClientid(((verifier, id), _)) => session_ops::setclientid(w, id, verifier, now, d),
        ArgsView::SetClientidConfirm((cid, confirm)) => session_ops::setclientid_confirm(w, cid, confirm, now),
        ArgsView::Renew(cid) => session_ops::renew(w, cid, now),
        ArgsView::OpenConfirm((sid, seqid)) => session_ops::open_confirm(w, stateid_of(sid), seqid, now),
        ArgsView::ReleaseLockowner(_) => keep(succeeds(Seq::empty())),
    }
}

/// Run an operation on clients, sessions and open state.
fn dispatch_state_op<H>(
    op: StateOp,
    cs: &mut CompoundState,
    st: &mut NFS4State<H>,
    ctx: &mut RPCContext,
    now: u64,
    d: Draws,
) -> (s: Step<H>)
    requires
        old(st).wf(),
        fair(old(st)@, d),
    ensures
        final(st).wf(),
        (world(*final(cs), *final(st), *final(ctx)), s.model()) == start(
            world(*old(cs), *old(st), *old(ctx)),
            op.model(),
            now,
            d,
        ),
{
    proof {
        reveal(start);
    }
    match op {
        StateOp::ExchangeId(a) => session_ops::op_exchange_id(a, cs, st, ctx, now, d),
        StateOp::CreateSession(a) => session_ops::op_create_session(a, cs, st, ctx, now, d),
        StateOp::DestroySession(a) => session_ops::op_destroy_session(a, cs, st, ctx),
        StateOp::DestroyClientid(a) => session_ops::op_destroy_clientid(a, cs, st, ctx),
        StateOp::Sequence(a) => session_ops::op_sequence(a, cs, st, ctx, now),
        StateOp::ReclaimComplete(a) => session_ops::op_reclaim_complete(a, cs, st, ctx, now),
        StateOp::Close(a) => session_ops::op_close(a, cs, st, ctx, now),
        StateOp::TestStateid(a) => {
            proof {
                let sids = a.ts_stateids@;
                let m = a.model();
                assert(sids =~= Seq::new(m.len(), |i: int| stateid_of(m[i])));
            }
            session_ops::op_test_stateid(a, cs, st, ctx)
        },
        StateOp::OpenDowngrade(a) => session_ops::op_reject_owner_op(&a.open_stateid, a.seqid, cs, st, ctx, now),
        StateOp::Lock(a) => match a.locker {
            locker4::New(l) => session_ops::op_reject_owner_op(&l.open_stateid, l.open_seqid, cs, st, ctx, now),
            locker4::Existing(_) => failed(nfsstat4::NFS4ERR_NOTSUPP),
        },
        StateOp::SetClientid(a) => session_ops::op_setclientid(a, cs, st, ctx, now, d),
        StateOp::SetClientidConfirm(a) => session_ops::op_setclientid_confirm(a, cs, st, ctx, now),
        StateOp::Renew(a) => session_ops::op_renew(a, cs, st, ctx, now),
        StateOp::OpenConfirm(a) => session_ops::op_open_confirm(a, cs, st, ctx, now),
        StateOp::ReleaseLockowner(a) => session_ops::op_release_lockowner(a),
    }
}

/// Run an operation on files and filehandles, up to its end or to where it needs
/// the file system.
fn dispatch_file_op<H>(
    op: FileOp,
    cs: &mut CompoundState,
    st: &mut NFS4State<H>,
    ctx: &RPCContext,
    now: u64,
    Ghost(d): Ghost<Draws>,
) -> (s: Step<H>)
    requires
        old(st).wf(),
    ensures
        final(st).wf(),
        (world(*final(cs), *final(st), *ctx), s.model()) == start(
            world(*old(cs), *old(st), *ctx),
            op.model(),
            now,
            d,
        ),
{
    proof {
        reveal(start);
    }
    match op {
        FileOp::SecinfoNoName(a) => file_ops::op_secinfo_no_name(a, cs, ctx),
        FileOp::PutRootFh => file_ops::op_putrootfh(cs, ctx),
        FileOp::GetFh => file_ops::op_getfh(cs, ctx),
        FileOp::Getattr(a) => file_ops::op_getattr(a, cs, ctx),
        FileOp::PutFh(a) => file_ops::op_putfh(a, cs, ctx),
        FileOp::Access(a) => file_ops::op_access(a, cs, ctx),
        FileOp::Lookup(a) => file_ops::op_lookup(a, cs, ctx),
        FileOp::Readdir(a) => file_ops::op_readdir(a, cs, ctx),
        FileOp::Open(a) => open_ops::op_open(a, cs, st, ctx, now),
        FileOp::Read(a) => data_ops::op_read(a, cs, st, ctx),
        FileOp::Write(a) => data_ops::op_write(a, cs, st, ctx),
        FileOp::Remove(a) => dir_ops::op_remove(a, cs, ctx),
        FileOp::Create(a) => dir_ops::op_create(a, cs, ctx),
        FileOp::SaveFh => file_ops::op_savefh(cs, ctx),
        FileOp::RestoreFh => file_ops::op_restorefh(cs, ctx),
        FileOp::Rename(a) => dir_ops::op_rename(a, cs, ctx),
        FileOp::Setattr(a) => dir_ops::op_setattr(a, cs, st, ctx),
        FileOp::Readlink => dir_ops::op_readlink(cs, ctx),
        FileOp::Commit(a) => dir_ops::op_commit(a, cs, ctx),
        FileOp::Secinfo(a) => file_ops::op_secinfo(a, cs, ctx),
    }
}

/// Run an operation up to its end, or to where it needs the file system, with what
/// was drawn for it.
pub fn dispatch_op_as<H>(
    args: OpArgs,
    cs: &mut CompoundState,
    st: &mut NFS4State<H>,
    ctx: &mut RPCContext,
    now: u64,
    d: Draws,
) -> (s: Step<H>)
    requires
        old(st).wf(),
        fair(old(st)@, d),
    ensures
        final(st).wf(),
        (world(*final(cs), *final(st), *final(ctx)), s.model()) == start(
            world(*old(cs), *old(st), *old(ctx)),
            args.model(),
            now,
            d,
        ),
{
    match args {
        OpArgs::State(op) => dispatch_state_op(op, cs, st, ctx, now, d),
        OpArgs::Files(op) => dispatch_file_op(op, cs, st, ctx, now, Ghost(d)),
        OpArgs::Illegal => {
            proof {
                reveal(start);
            }
            failed(nfsstat4::NFS4ERR_OP_ILLEGAL)
        },
        OpArgs::NotSupported => {
            proof {
                reveal(start);
            }
            failed(nfsstat4::NFS4ERR_NOTSUPP)
        },
    }
}

/// Draw what an operation needs.
fn draw_for<H>(args: &OpArgs, st: &NFS4State<H>) -> (d: Draws)
    requires
        st.wf(),
    ensures
        fair(st@, d),
{
    match args {
        OpArgs::State(StateOp::ExchangeId(_)) => Draws { clientid: st.fresh_clientid(), ..nothing_drawn() },
        OpArgs::State(StateOp::CreateSession(_)) => Draws { sessionid: st.fresh_sessionid(), ..nothing_drawn() },
        OpArgs::State(StateOp::SetClientid(_)) => {
            let confirm: Result<verifier4, nfsstat4> = match draw_bytes() {
                Some(v) => Ok(v),
                None => Err(nfsstat4::NFS4ERR_SERVERFAULT),
            };
            Draws { clientid: st.fresh_clientid(), confirm, ..nothing_drawn() }
        },
        _ => nothing_drawn(),
    }
}

/// Run an operation up to its end, or to where it needs the file system.
pub fn dispatch_op<H>(
    args: OpArgs,
    cs: &mut CompoundState,
    st: &mut NFS4State<H>,
    ctx: &mut RPCContext,
    now: u64,
) -> (s: Step<H>)
    requires
        old(st).wf(),
    ensures
        final(st).wf(),
        exists|d: Draws|
            {
                &&& fair(old(st)@, d)
                &&& (world(*final(cs), *final(st), *final(ctx)), s.model()) == #[trigger] start(
                    world(*old(cs), *old(st), *old(ctx)),
                    args.model(),
                    now,
                    d,
                )
            },
{
    let d = draw_for(&args, st);
    dispatch_op_as(args, cs, st, ctx, now, d)
}

/// What a suspended operation does with the file system's answer.
#[verifier::opaque]
pub open spec fn resumed<H>(w: World<H>, p: PendingView<H>, r: ReplyView<H>, now: u64, d: Draws) -> (
    World<H>,
    StepView<H>,
) {
    let keep = |s: StepView<H>| (w, s);
    let handles = |x: (CompoundView, StepView<H>)| (w.with_cs(x.0), x.1);
    let books = |x: (StateView<H>, StepView<H>)| (w.with_st(x.0), x.1);
    let opens = |x: (CompoundView, StateView<H>, StepView<H>)| (World { cs: x.0, st: x.1, ..w }, x.2);
    match p {
        Pending::Getattr { request } => keep(file_ops::getattr_attrs(w.cs, request, r)),
        Pending::Access { access } => keep(file_ops::access_attrs(w.ctx, access, r)),
        Pending::LookupDir { dir, name } => keep(file_ops::lookup_dir(dir, name, r)),
        Pending::LookupName => handles(file_ops::lookup_name(w.cs, w.ctx, r)),
        Pending::ReaddirDir { dir, cookie, maxcount, request } => keep(
            file_ops::readdir_dir(dir, cookie, maxcount, request, r),
        ),
        Pending::ReaddirList { maxcount, request } => keep(file_ops::readdir_list(w.ctx, maxcount, request, r)),
        Pending::ReaddirInfo { maxcount, request, listing } => keep(
            file_ops::readdir_info(w.ctx, maxcount, request, listing, r),
        ),
        Pending::OpenDir { open, dir, name } => books(open_ops::open_dir(w.st, open, dir, name, now, r)),
        Pending::OpenLookup { open, dir, name, before } => books(
            open_ops::open_lookup(w.st, open, dir, name, before, now, r),
        ),
        Pending::OpenCreate { open, dir, before } => books(
            open_ops::open_create(w.st, open, dir, before, now, r),
        ),
        Pending::OpenAfter { open, file, before } => keep(open_ops::open_after(open, file, before, r)),
        Pending::OpenTarget { open, file, before, after } => opens(
            open_ops::open_target(w.cs, w.st, w.ctx, open, file, before, after, now, r),
        ),
        Pending::OpenHandle { open, file, before, after } => opens(
            open_ops::open_handle(w.cs, w.st, w.ctx, open, file, before, after, now, d, r),
        ),
        Pending::ReadType { fh, file, offset, count } => keep(data_ops::read_type(fh, file, offset, count, r)),
        Pending::ReadHandle { file, offset, count } => keep(data_ops::read_handle(file, offset, count, r)),
        Pending::ReadData => keep(data_ops::read_data(r)),
        Pending::WriteType { fh, file, offset, data } => keep(data_ops::write_type(fh, file, offset, data, r)),
        Pending::WriteHandle { file, offset, data } => keep(data_ops::write_handle(file, offset, data, r)),
        Pending::WriteDone { count } => keep(data_ops::write_done(w.ctx, count, r)),
        Pending::RemoveDir { dir, name } => keep(dir_ops::remove_dir(dir, name, r)),
        Pending::RemoveDone { dir, before } => keep(dir_ops::remove_done(dir, before, r)),
        Pending::RemoveAfter { before } => keep(dir_ops::remove_after(before, r)),
        Pending::CreateDir { dir, name, what } => keep(dir_ops::create_dir(dir, name, what, r)),
        Pending::CreateDone { dir, before } => handles(dir_ops::create_done(w.cs, w.ctx, dir, before, r)),
        Pending::CreateAfter { before } => keep(dir_ops::create_after(before, r)),
        Pending::RenameFrom { from, old_name, to, new_name } => keep(
            dir_ops::rename_from(from, old_name, to, new_name, r),
        ),
        Pending::RenameTo { from, old_name, to, new_name, src_before } => keep(
            dir_ops::rename_to(from, old_name, to, new_name, src_before, r),
        ),
        Pending::RenameDone { from, to, src_before, tgt_before } => keep(
            dir_ops::rename_done(from, to, src_before, tgt_before, r),
        ),
        Pending::RenameSource { to, src_before, tgt_before } => keep(
            dir_ops::rename_source(to, src_before, tgt_before, r),
        ),
        Pending::RenameTarget { src_before, src_after, tgt_before } => keep(
            dir_ops::rename_target(src_before, src_after, tgt_before, r),
        ),
        Pending::SetattrDone { bits } => keep(dir_ops::setattr_done(bits, r)),
        Pending::ReadlinkType { file } => keep(dir_ops::readlink_type(file, r)),
        Pending::ReadlinkTarget => keep(dir_ops::readlink_target(r)),
        Pending::CommitType => keep(dir_ops::commit_type(w.ctx, r)),
        Pending::SecinfoDir { dir, name } => keep(file_ops::secinfo_dir(dir, name, r)),
        Pending::SecinfoName => handles(file_ops::secinfo_name(w.cs, r)),
    }
}

/// Go on with a suspended operation, with what was drawn for it.
pub fn resume_op_as<H>(
    p: PendingOp<H>,
    r: Reply<H>,
    cs: &mut CompoundState,
    st: &mut NFS4State<H>,
    ctx: &RPCContext,
    now: u64,
    d: Draws,
) -> (s: Step<H>)
    requires
        old(st).wf(),
        fair(old(st)@, d),
    ensures
        final(st).wf(),
        (world(*final(cs), *final(st), *ctx), s.model()) == resumed(
            world(*old(cs), *old(st), *ctx),
            p.model(),
            r.model(),
            now,
            d,
        ),
{
    proof {
        reveal(resumed);
    }
    match p {
        Pending::Getattr { request } => file_ops::then_getattr(cs, request, r),
        Pending::Access { access } => file_ops::then_access(ctx, access, r),
        Pending::LookupDir { dir, name } => file_ops::then_lookup_dir(dir, name, r),
        Pending::LookupName => file_ops::then_lookup_name(cs, ctx, r),
        Pending::ReaddirDir { dir, cookie, maxcount, request } => file_ops::then_readdir_dir(
            dir,
            cookie,
            maxcount,
            request,
            r,
        ),
        Pending::ReaddirList { maxcount, request } => file_ops::then_readdir_list(ctx, maxcount, request, r),
        Pending::ReaddirInfo { maxcount, request, listing } => file_ops::then_readdir_info(
            ctx,
            maxcount,
            request,
            listing,
            r,
        ),
        Pending::OpenDir { open, dir, name } => open_ops::then_open_dir(st, open, dir, name, now, r),
        Pending::OpenLookup { open, dir, name, before } => open_ops::then_open_lookup(
            st,
            open,
            dir,
            name,
            before,
            now,
            r,
        ),
        Pending::OpenCreate { open, dir, before } => open_ops::then_open_create(st, open, dir, before, now, r),
        Pending::OpenAfter { open, file, before } => open_ops::then_open_after(open, file, before, r),
        Pending::OpenTarget { open, file, before, after } => open_ops::then_open_target(
            cs,
            st,
            ctx,
            open,
            file,
            before,
            after,
            now,
            r,
        ),
        Pending::OpenHandle { open, file, before, after } => open_ops::then_open_handle(
            cs,
            st,
            ctx,
            open,
            file,
            before,
            after,
            now,
            d,
            r,
        ),
        Pending::ReadType { fh, file, offset, count } => data_ops::then_read_type(fh, file, offset, count, r),
        Pending::ReadHandle { file, offset, count } => data_ops::then_read_handle(file, offset, count, r),
        Pending::ReadData => data_ops::then_read_data(r),
        Pending::WriteType { fh, file, offset, data } => data_ops::then_write_type(fh, file, offset, data, r),
        Pending::WriteHandle { file, offset, data } => data_ops::then_write_handle(file, offset, data, r),
        Pending::WriteDone { count } => data_ops::then_write_done(ctx, count, r),
        Pending::RemoveDir { dir, name } => dir_ops::then_remove_dir(dir, name, r),
        Pending::RemoveDone { dir, before } => dir_ops::then_remove_done(dir, before, r),
        Pending::RemoveAfter { before } => dir_ops::then_remove_after(before, r),
        Pending::CreateDir { dir, name, what } => dir_ops::then_create_dir(dir, name, what, r),
        Pending::CreateDone { dir, before } => dir_ops::then_create_done(cs, ctx, dir, before, r),
        Pending::CreateAfter { before } => dir_ops::then_create_after(before, r),
        Pending::RenameFrom { from, old_name, to, new_name } => dir_ops::then_rename_from(
            from,
            old_name,
            to,
            new_name,
            r,
        ),
        Pending::RenameTo { from, old_name, to, new_name, src_before } => dir_ops::then_rename_to(
            from,
            old_name,
            to,
            new_name,
            src_before,
            r,
        ),
        Pending::RenameDone { from, to, src_before, tgt_before } => dir_ops::then_rename_done(
            from,
            to,
            src_before,
            tgt_before,
            r,
        ),
        Pending::RenameSource { to, src_before, tgt_before } => dir_ops::then_rename_source(
            to,
            src_before,
            tgt_before,
            r,
        ),
        Pending::RenameTarget { src_before, src_after, tgt_before } => dir_ops::then_rename_target(
            src_before,
            src_after,
            tgt_before,
            r,
        ),
        Pending::SetattrDone { bits } => dir_ops::then_setattr_done(bits, r),
        Pending::ReadlinkType { file } => dir_ops::then_readlink_type(file, r),
        Pending::ReadlinkTarget => dir_ops::then_readlink_target(r),
        Pending::CommitType => dir_ops::then_commit_type(ctx, r),
        Pending::SecinfoDir { dir, name } => file_ops::then_secinfo_dir(dir, name, r),
        Pending::SecinfoName => file_ops::then_secinfo_name(cs, r),
    }
}

/// Draw what a suspended operation needs to go on.
fn draw_to_resume<H>(p: &PendingOp<H>, st: &NFS4State<H>) -> (d: Draws)
    requires
        st.wf(),
    ensures
        fair(st@, d),
{
    match p {
        Pending::OpenHandle { .. } => Draws { other: st.fresh_other(), ..nothing_drawn() },
        _ => nothing_drawn(),
    }
}

/// Go on with a suspended operation.
pub fn resume_op<H>(
    p: PendingOp<H>,
    r: Reply<H>,
    cs: &mut CompoundState,
    st: &mut NFS4State<H>,
    ctx: &RPCContext,
    now: u64,
) -> (s: Step<H>)
    requires
        old(st).wf(),
    ensures
        final(st).wf(),
        exists|d: Draws|
            {
                &&& fair(old(st)@, d)
                &&& (world(*final(cs), *final(st), *ctx), s.model()) == #[trigger] resumed(
                    world(*old(cs), *old(st), *ctx),
                    p.model(),
                    r.model(),
                    now,
                    d,
                )
            },
{
    let d = draw_to_resume(&p, st);
    resume_op_as(p, r, cs, st, ctx, now, d)
}

// ---------------------------------------------------------------- COMPOUND

/// A COMPOUND that is being answered.
pub struct Compound {
    xid: u32,
    tag: nfsstring,
    num_ops: u32,
    /// How much of the call has been read.
    pos: usize,
    /// The number that the current operation's result begins with.
    opnum: u32,
    rescount: u32,
    results: Vec<u8>,
    last_status: nfsstat4,
    state: CompoundState,
}

/// What a COMPOUND that is being answered stands for.
#[verifier::ext_equal]
pub struct RunView {
    pub xid: u32,
    pub tag: Seq<u8>,
    pub num_ops: u32,
    pub pos: nat,
    pub opnum: u32,
    pub rescount: u32,
    pub results: Seq<u8>,
    pub last_status: nfsstat4,
    pub cs: CompoundView,
}

impl RunView {
    /// Before the first operation.
    pub open spec fn begun(xid: u32, tag: Seq<u8>, minor: u32, num_ops: u32, pos: nat) -> RunView {
        RunView {
            xid,
            tag,
            num_ops,
            pos,
            opnum: 0,
            rescount: 0,
            results: Seq::empty(),
            last_status: nfsstat4::NFS4_OK,
            cs: CompoundView::start(minor),
        }
    }

    /// All operations have run, or one has failed: COMPOUND stops at the first
    /// error.
    pub open spec fn over(self) -> bool {
        self.rescount >= self.num_ops || self.last_status != nfsstat4::NFS4_OK
    }

    /// With the result of the current operation.
    pub open spec fn with_result(self, status: nfsstat4, body: Seq<u8>) -> RunView {
        RunView {
            rescount: (self.rescount + 1) as u32,
            results: self.results + be32(self.opnum) + body,
            last_status: status,
            cs: CompoundView { opcount: (self.cs.opcount + 1) as u32, ..self.cs },
            ..self
        }
    }

    /// What a step makes of the run.
    pub open spec fn after<H>(self, s: StepView<H>) -> (RunView, ProgressView<H>) {
        match s {
            StepView::Done(status, body) => (self.with_result(status, body), ProgressView::Next),
            StepView::Replay(body) => (self, ProgressView::Reply(reply_header(self.xid, SUCCESS) + body)),
            StepView::Ask(c, p) => (self, ProgressView::Ask(c, p)),
        }
    }

    /// The body of the reply: the last status, the tag, and the results.
    pub open spec fn body(self) -> Seq<u8> {
        nfsstat4::encode(self.last_status) + nfsstring::encode(self.tag) + be32(self.rescount) + self.results
    }
}

/// What a COMPOUND needs next.
pub enum Progress<H> {
    /// The next operation, if there is one.
    Next,
    /// Nothing: this is the whole reply.
    Reply(Vec<u8>),
    /// An answer of the file system.
    Ask(VfsCall<Vec<u8>, ManagedFileHandle<H>>, PendingOp<H>),
}

/// What progress stands for.
pub enum ProgressView<H> {
    Next,
    Reply(Seq<u8>),
    Ask(CallView<H>, PendingView<H>),
}

impl<H> Model for Progress<H> {
    type M = ProgressView<H>;

    open spec fn model(&self) -> ProgressView<H> {
        match self {
            Progress::Next => ProgressView::Next,
            Progress::Reply(b) => ProgressView::Reply(b@),
            Progress::Ask(c, p) => ProgressView::Ask(c.model(), p.model()),
        }
    }
}

/// How a call is answered: at once, or by running a COMPOUND.
pub enum Begun {
    Reply(Vec<u8>),
    Run(Compound),
}

/// The reply to a COMPOUND of a minor version that is not spoken.
pub open spec fn mismatch_reply(xid: u32, tag: Seq<u8>) -> Seq<u8> {
    reply_header(xid, SUCCESS) + nfsstat4::encode(nfsstat4::NFS4ERR_MINOR_VERS_MISMATCH) + nfsstring::encode(tag)
        + be32(0)
}

/// The reply to a COMPOUND of too many operations.
pub open spec fn too_many_reply(xid: u32, tag: Seq<u8>) -> Seq<u8> {
    reply_header(xid, SUCCESS) + nfsstat4::encode(nfsstat4::NFS4ERR_TOO_MANY_OPS) + nfsstring::encode(tag) + be32(0)
}

/// What the arguments of a COMPOUND begin with: tag, minor version, and the
/// number of operations.
pub open spec fn compound_header(input: Seq<u8>) -> Result<((Seq<u8>, (u32, u32)), nat), XdrError> {
    <(nfsstring, (u32, u32)) as XDR>::decode(input)
}

/// How a call is answered.
pub open spec fn begins(xid: u32, proc_number: u32, input: Seq<u8>, r: Result<Begun, XdrError>) -> bool {
    if proc_number == 0 {
        r matches Ok(Begun::Reply(b)) && b@ == reply_header(xid, SUCCESS)
    } else if proc_number != 1 {
        r matches Ok(Begun::Reply(b)) && b@ == reply_header(xid, PROC_UNAVAIL)
    } else {
        match compound_header(input) {
            Err(e) => r matches Err(x) && x == e,
            Ok(((tag, (minor, num_ops)), n)) => if minor > 1 {
                r matches Ok(Begun::Reply(b)) && b@ == mismatch_reply(xid, tag)
            } else if num_ops > MAX_COMPOUND_OPS {
                r matches Ok(Begun::Reply(b)) && b@ == too_many_reply(xid, tag)
            } else {
                r matches Ok(Begun::Run(c)) && c.wf(input) && c@ == RunView::begun(xid, tag, minor, num_ops, n)
            },
        }
    }
}

/// Begin to answer a call: procedure 0 does nothing, procedure 1 is COMPOUND, and
/// there are no others.
pub fn handle_nfs(xid: u32, proc_number: u32, input: &Vec<u8>) -> (r: Result<Begun, XdrError>)
    ensures
        begins(xid, proc_number, input@, r),
{
    if proc_number == 0 {
        return Ok(Begun::Reply(make_success_reply(xid)));
    }
    if proc_number != 1 {
        return Ok(Begun::Reply(proc_unavail_reply_message(xid)));
    }
    let mut src = Reader::new(input.as_slice());
    proof {
        <(nfsstring, (u32, u32)) as XDR>::decode_within(input@);
    }
    let (tag, (minor, num_ops)) = match <(nfsstring, (u32, u32)) as XDR>::deserialize(&mut src) {
        Ok(v) => v,
        Err(e) => return Err(e),
    };
    if minor > 1 {
        let mut out: Vec<u8> = make_success_reply(xid);
        nfsstat4::NFS4ERR_MINOR_VERS_MISMATCH.serialize(&mut out);
        tag.serialize(&mut out);
        0u32.serialize(&mut out);
        assert(out@ =~= mismatch_reply(xid, tag.model()));
        return Ok(Begun::Reply(out));
    }
    if num_ops > MAX_COMPOUND_OPS {
        let mut out: Vec<u8> = make_success_reply(xid);
        nfsstat4::NFS4ERR_TOO_MANY_OPS.serialize(&mut out);
        tag.serialize(&mut out);
        0u32.serialize(&mut out);
        assert(out@ =~= too_many_reply(xid, tag.model()));
        return Ok(Begun::Reply(out));
    }
    let c = Compound {
        xid,
        tag,
        num_ops,
        pos: src.pos,
        opnum: 0,
        rescount: 0,
        results: Vec::new(),
        last_status: nfsstat4::NFS4_OK,
        state: CompoundState::new(minor),
    };
    proof {
        if let Ok((_, n)) = compound_header(input@) {
            assert(input@.skip(src.pos as int).len() == input@.skip(n as int).len());
        }
    }
    Ok(Begun::Run(c))
}

/// Why a COMPOUND could not be answered at all.
#[derive(Copy, Clone, Debug, PartialEq, Eq, Structural)]
pub enum CompoundError {
    /// The call could not be read.
    Xdr(XdrError),
    /// The reply is to be cached, and the connection speaks for no client.
    NoClient,
}

impl Compound {
    pub closed spec fn view(&self) -> RunView {
        RunView {
            xid: self.xid,
            tag: self.tag.model(),
            num_ops: self.num_ops,
            pos: self.pos as nat,
            opnum: self.opnum,
            rescount: self.rescount,
            results: self.results@,
            last_status: self.last_status,
            cs: self.state@,
        }
    }

    /// The run is one of a call with this input.
    pub open spec fn wf(&self, input: Seq<u8>) -> bool {
        &&& self@.pos <= input.len()
        &&& self@.num_ops <= MAX_COMPOUND_OPS
        &&& self@.rescount <= self@.num_ops
        &&& self@.cs.opcount == self@.rescount
    }

    /// All operations have run, or one has failed.
    pub fn is_over(&self) -> (b: bool)
        ensures
            b == self@.over(),
    {
        self.rescount >= self.num_ops || self.last_status != nfsstat4::NFS4_OK
    }

    fn absorb<H>(&mut self, s: Step<H>) -> (p: Progress<H>)
        requires
            old(self)@.rescount < MAX_COMPOUND_OPS,
            old(self)@.cs.opcount == old(self)@.rescount,
        ensures
            (final(self)@, p.model()) == old(self)@.after(s.model()),
    {
        match s {
            Step::Done(status, body) => {
                self.opnum.serialize(&mut self.results);
                append(&mut self.results, &body);
                self.rescount = self.rescount + 1;
                self.last_status = status;
                self.state.opcount = self.state.opcount + 1;
                Progress::Next
            },
            Step::Replay(body) => {
                let mut out: Vec<u8> = make_success_reply(self.xid);
                append(&mut out, &body);
                Progress::Reply(out)
            },
            Step::Ask(c, p) => Progress::Ask(c, p),
        }
    }

    /// Read the next operation: its number, its arguments, and where they end.
    fn read_op(&self, input: &Vec<u8>) -> (r: Result<(u32, OpArgs, usize), XdrError>)
        requires
            self.wf(input@),
        ensures
            match op_at(input@, self@) {
                Err(e) => r matches Err(x) && x == e,
                Ok((opnum, args, pos)) => {
                    &&& r matches Ok((n, a, p))
                    &&& n == opnum
                    &&& a.model() == args
                    &&& p == pos
                    &&& p <= input@.len()
                },
            },
    {
        let mut src = Reader { buf: input.as_slice(), pos: self.pos };
        let ghost all = src.rest();
        let opnum: u32 = match u32::deserialize(&mut src) {
            Ok(v) => v,
            Err(e) => return Err(e),
        };
        assert(all.skip(4) =~= input@.skip((self@.pos + 4) as int));
        match read_args(opnum, self.state.minorversion, &mut src) {
            Ok(args) => {
                assert(src.rest().len() == input@.len() - src.pos);
                Ok((opnum, args, src.pos))
            },
            Err(e) => Err(e),
        }
    }

    /// Run an operation that was read, with what was drawn for it.
    fn run<H>(
        &mut self,
        opnum: u32,
        args: OpArgs,
        pos: usize,
        st: &mut NFS4State<H>,
        ctx: &mut RPCContext,
        now: u64,
        d: Draws,
    ) -> (p: Progress<H>)
        requires
            old(self)@.rescount < MAX_COMPOUND_OPS,
            old(self)@.cs.opcount == old(self)@.rescount,
            old(st).wf(),
            fair(old(st)@, d),
        ensures
            final(st).wf(),
            (final(self)@, p.model(), final(st)@, *final(ctx)) == run_op(
                old(self)@,
                old(st)@,
                *old(ctx),
                opnum,
                args.model(),
                pos as nat,
                now,
                d,
            ),
            final(self)@.cs.opcount == final(self)@.rescount,
    {
        proof {
            start_keeps_count(world(self.state, *st, *ctx), args.model(), now, d);
        }
        self.pos = pos;
        self.opnum = match &args {
            OpArgs::Illegal => nfs_opnum4::OP_ILLEGAL.to_u32(),
            _ => opnum,
        };
        let s = dispatch_op_as(args, &mut self.state, st, ctx, now, d);
        self.absorb(s)
    }

    /// Run the next operation, up to its end or to where it needs the file system,
    /// with what was drawn for it.
    pub fn next_op_as<H>(
        &mut self,
        input: &Vec<u8>,
        st: &mut NFS4State<H>,
        ctx: &mut RPCContext,
        now: u64,
        d: Draws,
    ) -> (r: Result<Progress<H>, XdrError>)
        requires
            old(self).wf(input@),
            !old(self)@.over(),
            old(st).wf(),
            fair(old(st)@, d),
        ensures
            final(st).wf(),
            match op_at(input@, old(self)@) {
                Err(e) => {
                    &&& r matches Err(x)
                    &&& x == e
                    &&& final(self)@ == old(self)@
                    &&& final(st)@ == old(st)@
                    &&& *final(ctx) == *old(ctx)
                },
                Ok((opnum, args, pos)) => {
                    &&& r matches Ok(p)
                    &&& final(self).wf(input@)
                    &&& (final(self)@, p.model(), final(st)@, *final(ctx)) == run_op(
                        old(self)@,
                        old(st)@,
                        *old(ctx),
                        opnum,
                        args,
                        pos,
                        now,
                        d,
                    )
                },
            },
    {
        match self.read_op(input) {
            Err(e) => Err(e),
            Ok((opnum, args, pos)) => Ok(self.run(opnum, args, pos, st, ctx, now, d)),
        }
    }

    /// Run the next operation, up to its end or to where it needs the file system.
    pub fn next_op<H>(&mut self, input: &Vec<u8>, st: &mut NFS4State<H>, ctx: &mut RPCContext, now: u64) -> (r: Result<
        Progress<H>,
        XdrError,
    >)
        requires
            old(self).wf(input@),
            !old(self)@.over(),
            old(st).wf(),
        ensures
            final(st).wf(),
            match op_at(input@, old(self)@) {
                Err(e) => {
                    &&& r matches Err(x)
                    &&& x == e
                    &&& final(self)@ == old(self)@
                    &&& final(st)@ == old(st)@
                    &&& *final(ctx) == *old(ctx)
                },
                Ok(op) => {
                    &&& r matches Ok(p)
                    &&& final(self).wf(input@)
                    &&& op_ran(
                        (old(self)@, old(st)@, *old(ctx)),
                        op,
                        now,
                        (final(self)@, p.model(), final(st)@, *final(ctx)),
                    )
                },
            },
    {
        let ghost before = (self@, st@, *ctx);
        match self.read_op(input) {
            Err(e) => Err(e),
            Ok((opnum, args, pos)) => {
                let ghost op = (opnum, args.model(), pos as nat);
                let d = draw_for(&args, st);
                let p = self.run(opnum, args, pos, st, ctx, now, d);
                proof {
                    let after = run_op(before.0, before.1, before.2, op.0, op.1, op.2, now, d);
                    assert((self@, p.model(), st@, *ctx) == after);
                    assert(op_ran(before, op, now, after));
                }
                Ok(p)
            },
        }
    }

    /// Go on with the current operation, with the file system's answer and what was
    /// drawn for it.
    pub fn resume_as<H>(
        &mut self,
        p: PendingOp<H>,
        r: Reply<H>,
        st: &mut NFS4State<H>,
        ctx: &RPCContext,
        now: u64,
        d: Draws,
    ) -> (o: Progress<H>)
        requires
            old(self)@.rescount < MAX_COMPOUND_OPS,
            old(self)@.cs.opcount == old(self)@.rescount,
            old(st).wf(),
            fair(old(st)@, d),
        ensures
            final(st).wf(),
            forall|input: Seq<u8>| old(self).wf(input) && !old(self)@.over() ==> #[trigger] final(self).wf(input),
            (final(self)@, o.model(), final(st)@) == run_on(old(self)@, old(st)@, *ctx, p.model(), r.model(), now, d),
    {
        proof {
            resumed_keeps_count(world(self.state, *st, *ctx), p.model(), r.model(), now, d);
        }
        let s = resume_op_as(p, r, &mut self.state, st, ctx, now, d);
        self.absorb(s)
    }

    /// Go on with the current operation, with the file system's answer.
    pub fn resume<H>(&mut self, p: PendingOp<H>, r: Reply<H>, st: &mut NFS4State<H>, ctx: &RPCContext, now: u64) -> (o:
        Progress<H>)
        requires
            old(self)@.rescount < MAX_COMPOUND_OPS,
            old(self)@.cs.opcount == old(self)@.rescount,
            old(st).wf(),
        ensures
            final(st).wf(),
            forall|input: Seq<u8>| old(self).wf(input) && !old(self)@.over() ==> #[trigger] final(self).wf(input),
            exists|d: Draws|
                {
                    &&& fair(old(st)@, d)
                    &&& (final(self)@, o.model(), final(st)@) == #[trigger] run_on(
                        old(self)@,
                        old(st)@,
                        *ctx,
                        p.model(),
                        r.model(),
                        now,
                        d,
                    )
                },
    {
        let d = draw_to_resume(&p, st);
        self.resume_as(p, r, st, ctx, now, d)
    }

    /// The reply of a COMPOUND that is over. Where SEQUENCE asked for it, its body
    /// is cached for a retransmit.
    pub fn finish<H>(&self, st: &mut NFS4State<H>, ctx: &RPCContext) -> (r: Result<Vec<u8>, CompoundError>)
        requires
            old(st).wf(),
        ensures
            final(st).wf(),
            match finished(self@, old(st)@, *ctx) {
                Some((t, bytes)) => r matches Ok(b) && b@ == bytes && final(st)@ == t,
                None => r == Err::<Vec<u8>, CompoundError>(CompoundError::NoClient) && final(st)@ == old(st)@,
            },
    {
        let mut body: Vec<u8> = Vec::new();
        self.last_status.serialize(&mut body);
        self.tag.serialize(&mut body);
        self.rescount.serialize(&mut body);
        append(&mut body, &self.results);
        assert(body@ =~= self@.body());
        let mut out: Vec<u8> = make_success_reply(self.xid);
        append(&mut out, &body);
        if let Some(seq) = &self.state.session {
            if seq.cache_this {
                if ctx.client_id().is_none() {
                    return Err(CompoundError::NoClient);
                }
                st.cache_reply(&seq.sessionid, seq.slotid, seq.sequenceid, body);
            }
        }
        Ok(out)
    }
}

/// The next operation of a call: its number, its arguments, and where they end.
pub open spec fn op_at(input: Seq<u8>, run: RunView) -> Result<(u32, ArgsView, nat), XdrError> {
    match u32::decode(input.skip(run.pos as int)) {
        Err(e) => Err(e),
        Ok((opnum, _)) => match decode_args(opnum, run.cs.minorversion, input.skip((run.pos + 4) as int)) {
            Err(e) => Err(e),
            Ok((args, n)) => Ok((opnum, args, run.pos + 4 + n)),
        },
    }
}

/// What running an operation makes of a COMPOUND. The result of a number that is
/// no operation's begins with OP_ILLEGAL, any other with the number itself.
pub open spec fn run_op<H>(
    run: RunView,
    st: StateView<H>,
    ctx: RPCContext,
    opnum: u32,
    args: ArgsView,
    pos: nat,
    now: u64,
    d: Draws,
) -> (RunView, ProgressView<H>, StateView<H>, RPCContext) {
    let (w, step) = start(World { cs: run.cs, st, ctx }, args, now, d);
    let echoed = if args is Illegal {
        nfs_opnum4::OP_ILLEGAL.number()
    } else {
        opnum
    };
    let (next, progress) = (RunView { pos, opnum: echoed, cs: w.cs, ..run }).after(step);
    (next, progress, w.st, w.ctx)
}

/// That is what came of an operation, with some draws that are fair.
pub open spec fn op_ran<H>(
    before: (RunView, StateView<H>, RPCContext),
    op: (u32, ArgsView, nat),
    now: u64,
    after: (RunView, ProgressView<H>, StateView<H>, RPCContext),
) -> bool {
    exists|d: Draws|
        {
            &&& fair(before.1, d)
            &&& after == #[trigger] run_op(before.0, before.1, before.2, op.0, op.1, op.2, now, d)
        }
}

/// What an answer of the file system makes of a COMPOUND.
pub open spec fn run_on<H>(
    run: RunView,
    st: StateView<H>,
    ctx: RPCContext,
    p: PendingView<H>,
    r: ReplyView<H>,
    now: u64,
    d: Draws,
) -> (RunView, ProgressView<H>, StateView<H>) {
    let (w, step) = resumed(World { cs: run.cs, st, ctx }, p, r, now, d);
    let (next, progress) = (RunView { cs: w.cs, ..run }).after(step);
    (next, progress, w.st)
}

/// The reply of a COMPOUND that is over, and the state with what is cached of it.
/// `None` if it is to be cached and the connection speaks for no client.
pub open spec fn finished<H>(run: RunView, st: StateView<H>, ctx: RPCContext) -> Option<(StateView<H>, Seq<u8>)> {
    let reply = reply_header(run.xid, SUCCESS) + run.body();
    match run.cs.session {
        Some(seq) if seq.cache_this => if ctx.client_id is None {
            None
        } else {
            Some((st.reply_cached(seq.sessionid, seq.slotid, seq.sequenceid, run.body()), reply))
        },
        _ => Some((st, reply)),
    }
}

/// No operation changes how many have run.
pub proof fn start_keeps_count<H>(w: World<H>, args: ArgsView, now: u64, d: Draws)
    ensures
        start(w, args, now, d).0.cs.opcount == w.cs.opcount,
        start(w, args, now, d).0.cs.minorversion == w.cs.minorversion,
{
    reveal(start);
}

/// Nor does going on with one.
pub proof fn resumed_keeps_count<H>(w: World<H>, p: PendingView<H>, r: ReplyView<H>, now: u64, d: Draws)
    ensures
        resumed(w, p, r, now, d).0.cs.opcount == w.cs.opcount,
        resumed(w, p, r, now, d).0.cs.minorversion == w.cs.minorversion,
{
    reveal(resumed);
}

} // verus!
