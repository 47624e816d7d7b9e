//! The file system below the server, as far as the protocol logic knows it.

use vstd::prelude::*;

use crate::model::{models, Model};
use crate::nfs3::{fattr3, fileid3, nfsstat3, sattr3};
use crate::nfs4::state::ManagedFileHandle;

verus! {

/// May the export be changed?
#[derive(Copy, Clone, Debug, PartialEq, Eq, Structural)]
pub enum VFSCapabilities {
    ReadOnly,
    ReadWrite,
}

/// How a file is opened. The order of the variants is the order of strength.
#[derive(Copy, Clone, Debug, PartialEq, Eq, PartialOrd, Ord, Structural)]
pub enum OpenMode {
    ReadOnly,
    ReadWrite,
}

impl OpenMode {
    /// Does a handle opened in this mode serve whoever asks for `other`?
    pub open spec fn serves(self, other: OpenMode) -> bool {
        self == OpenMode::ReadWrite || other == OpenMode::ReadOnly
    }

    /// Does a handle opened in this mode serve whoever asks for `other`?
    pub fn covers(&self, other: OpenMode) -> (b: bool)
        ensures
            b == self.serves(other),
    {
        match self {
            OpenMode::ReadWrite => true,
            OpenMode::ReadOnly => match other {
                OpenMode::ReadOnly => true,
                OpenMode::ReadWrite => false,
            },
        }
    }
}

/// What the server asks of the file system. Names and data are byte strings
/// `B`, handles are `F`.
pub enum VfsCall<B, F> {
    /// The attributes of a file. The file system must also know the limits that hold
    /// where the file is (`fsinfo`); what they are is not asked.
    Attributes { id: fileid3 },
    /// The attributes of a file.
    Getattr { id: fileid3 },
    /// Whether the file system knows the limits that hold where a file is.
    FsInfo { id: fileid3 },
    /// The file of a name in a directory.
    Lookup { dir: fileid3, name: B },
    /// A new regular file, with default attributes.
    Create { dir: fileid3, name: B },
    /// A new directory.
    Mkdir { dir: fileid3, name: B },
    /// A new symbolic link, with default attributes.
    Symlink { dir: fileid3, name: B, target: B },
    /// Take a name out of a directory.
    Remove { dir: fileid3, name: B },
    /// Move a name.
    Rename { from: fileid3, old_name: B, to: fileid3, new_name: B },
    /// A part of a directory, after the entry of the file `start_after`, or from the
    /// start if that is 0.
    Readdir { dir: fileid3, start_after: fileid3, max_entries: usize },
    /// A handle of a file.
    Open { id: fileid3, mode: OpenMode },
    /// A part of a file.
    Read { fh: F, id: fileid3, offset: u64, count: u32 },
    /// Write a part of a file.
    Write { fh: F, id: fileid3, offset: u64, data: B },
    /// Set attributes of a file.
    Setattr { id: fileid3, attr: sattr3 },
    /// The target of a symbolic link.
    Readlink { id: fileid3 },
}

/// What a call stands for.
pub type CallView<H> = VfsCall<Seq<u8>, H>;

impl<H> Model for VfsCall<Vec<u8>, ManagedFileHandle<H>> {
    type M = CallView<H>;

    open spec fn model(&self) -> CallView<H> {
        match self {
            VfsCall::Attributes { id } => VfsCall::Attributes { id: *id },
            VfsCall::Getattr { id } => VfsCall::Getattr { id: *id },
            VfsCall::FsInfo { id } => VfsCall::FsInfo { id: *id },
            VfsCall::Lookup { dir, name } => VfsCall::Lookup { dir: *dir, name: name@ },
            VfsCall::Create { dir, name } => VfsCall::Create { dir: *dir, name: name@ },
            VfsCall::Mkdir { dir, name } => VfsCall::Mkdir { dir: *dir, name: name@ },
            VfsCall::Symlink { dir, name, target } => VfsCall::Symlink { dir: *dir, name: name@, target: target@ },
            VfsCall::Remove { dir, name } => VfsCall::Remove { dir: *dir, name: name@ },
            VfsCall::Rename { from, old_name, to, new_name } => VfsCall::Rename {
                from: *from,
                old_name: old_name@,
                to: *to,
                new_name: new_name@,
            },
            VfsCall::Readdir { dir, start_after, max_entries } => VfsCall::Readdir {
                dir: *dir,
                start_after: *start_after,
                max_entries: *max_entries,
            },
            VfsCall::Open { id, mode } => VfsCall::Open { id: *id, mode: *mode },
            VfsCall::Read { fh, id, offset, count } => VfsCall::Read {
                fh: fh@,
                id: *id,
                offset: *offset,
                count: *count,
            },
            VfsCall::Write { fh, id, offset, data } => VfsCall::Write {
                fh: fh@,
                id: *id,
                offset: *offset,
                data: data@,
            },
            VfsCall::Setattr { id, attr } => VfsCall::Setattr { id: *id, attr: *attr },
            VfsCall::Readlink { id } => VfsCall::Readlink { id: *id },
        }
    }
}

/// An entry of a directory. Its name is a byte string `B`.
pub struct DirEntry<B> {
    pub fileid: fileid3,
    pub name: B,
    pub attr: fattr3,
}

impl Model for DirEntry<Vec<u8>> {
    type M = DirEntry<Seq<u8>>;

    open spec fn model(&self) -> DirEntry<Seq<u8>> {
        DirEntry { fileid: self.fileid, name: self.name@, attr: self.attr }
    }
}

/// A part of a directory, and whether it is the last.
pub struct Listing {
    pub entries: Vec<DirEntry<Vec<u8>>>,
    pub end: bool,
}

/// What a listing stands for.
pub struct ListingView {
    pub entries: Seq<DirEntry<Seq<u8>>>,
    pub end: bool,
}

impl Model for Listing {
    type M = ListingView;

    open spec fn model(&self) -> ListingView {
        ListingView { entries: models(self.entries@), end: self.end }
    }
}

/// What the file system answers. Data and link targets are byte strings `B`,
/// listings are `L`, a fresh handle is `H`.
pub enum VfsReply<B, L, H> {
    /// The call failed.
    Failed(nfsstat3),
    Attributes(fattr3),
    /// The file that was found or made.
    File(fileid3),
    /// There is nothing to give back.
    Done,
    Listing(L),
    Handle(H),
    /// Data, and whether the file ends with it.
    Data(B, bool),
    Target(B),
}

/// What a reply stands for.
pub type ReplyView<H> = VfsReply<Seq<u8>, ListingView, H>;

impl<H> Model for VfsReply<Vec<u8>, Listing, H> {
    type M = ReplyView<H>;

    open spec fn model(&self) -> ReplyView<H> {
        match self {
            VfsReply::Failed(e) => VfsReply::Failed(*e),
            VfsReply::Attributes(a) => VfsReply::Attributes(*a),
            VfsReply::File(id) => VfsReply::File(*id),
            VfsReply::Done => VfsReply::Done,
            VfsReply::Listing(l) => VfsReply::Listing(l.model()),
            VfsReply::Handle(h) => VfsReply::Handle(*h),
            VfsReply::Data(d, eof) => VfsReply::Data(d@, *eof),
            VfsReply::Target(t) => VfsReply::Target(t@),
        }
    }
}

} // verus!
