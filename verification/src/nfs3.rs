//! What the file system below the server speaks: NFSv3 statuses, file types
//! and attributes.

use vstd::prelude::*;

use crate::nfs::specdata;

verus! {

/// A file's number within its file system.
pub type fileid3 = u64;

/// How a call of the file system ended.
#[derive(Copy, Clone, Debug, PartialEq, Eq, Structural)]
pub enum nfsstat3 {
    NFS3_OK,
    NFS3ERR_PERM,
    NFS3ERR_NOENT,
    NFS3ERR_IO,
    NFS3ERR_NXIO,
    NFS3ERR_ACCES,
    NFS3ERR_EXIST,
    NFS3ERR_XDEV,
    NFS3ERR_NODEV,
    NFS3ERR_NOTDIR,
    NFS3ERR_ISDIR,
    NFS3ERR_INVAL,
    NFS3ERR_FBIG,
    NFS3ERR_NOSPC,
    NFS3ERR_ROFS,
    NFS3ERR_MLINK,
    NFS3ERR_NAMETOOLONG,
    NFS3ERR_NOTEMPTY,
    NFS3ERR_DQUOT,
    NFS3ERR_STALE,
    NFS3ERR_REMOTE,
    NFS3ERR_BADHANDLE,
    NFS3ERR_NOT_SYNC,
    NFS3ERR_BAD_COOKIE,
    NFS3ERR_NOTSUPP,
    NFS3ERR_TOOSMALL,
    NFS3ERR_SERVERFAULT,
    NFS3ERR_BADTYPE,
    NFS3ERR_JUKEBOX,
}

/// What kind of object a file is.
#[derive(Copy, Clone, Debug, PartialEq, Eq, Structural)]
pub enum ftype3 {
    NF3REG,
    NF3DIR,
    NF3BLK,
    NF3CHR,
    NF3LNK,
    NF3SOCK,
    NF3FIFO,
}

/// A time: seconds and nanoseconds since the epoch.
#[derive(Copy, Clone, Debug, PartialEq, Eq, Structural)]
pub struct nfstime3 {
    pub seconds: u32,
    pub nseconds: u32,
}

/// The attributes of a file.
#[derive(Copy, Clone, Debug, PartialEq, Eq, Structural)]
pub struct fattr3 {
    pub ftype: ftype3,
    pub mode: u32,
    pub nlink: u32,
    pub uid: u32,
    pub gid: u32,
    pub size: u64,
    pub used: u64,
    pub rdev: specdata,
    pub fsid: u64,
    pub fileid: fileid3,
    pub atime: nfstime3,
    pub mtime: nfstime3,
    pub ctime: nfstime3,
}

/// The attributes to set on a file; what is `None` stays as it is.
#[derive(Copy, Clone, Debug, PartialEq, Eq, Structural)]
pub struct sattr3 {
    pub mode: Option<u32>,
    pub uid: Option<u32>,
    pub gid: Option<u32>,
    pub size: Option<u64>,
}

} // verus!
