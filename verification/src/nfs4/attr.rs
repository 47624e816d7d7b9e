//! File attributes: `fattr4`, the attributes that are present in the order of their
//! numbers, after a bitmap of which those are.

use vstd::prelude::*;

use crate::model::{models, Model};
use crate::nfs::{nfs_fh, nfsstring};
use crate::nfs3::{fattr3, sattr3};
use crate::nfs4::{
    bitmap4, changeid4, fsid4, ftype4, ftype_of, mode4, nfs_fh4, nfsstat4, nfstime4, specdata4,
};
use crate::word::be32;
use crate::xdr::{
    be64, decode_list, deserialize_list, encode_list, items_encodable, list_fits, list_round_trip, list_within,
    serialize_list, Reader, XdrError, XDR,
};

verus! {

/// An access control entry.
#[derive(Clone, Debug, Default, PartialEq, Eq)]
pub struct nfsace4 {
    pub acetype: u32,
    pub aceflag: u32,
    pub acemask: u32,
    pub who: nfsstring,
}

impl Model for nfsace4 {
    type M = (u32, (u32, (u32, Seq<u8>)));

    open spec fn model(&self) -> Self::M {
        (self.acetype.model(), (self.aceflag.model(), (self.acemask.model(), self.who.model())))
    }
}

impl XDR for nfsace4 {
    open spec fn encodable(m: Self::M) -> bool {
        <(u32, (u32, (u32, nfsstring))) as XDR>::encodable(m)
    }

    open spec fn fits(m: Self::M) -> bool {
        <(u32, (u32, (u32, nfsstring))) as XDR>::fits(m)
    }

    open spec fn encode(m: Self::M) -> Seq<u8> {
        <(u32, (u32, (u32, nfsstring))) as XDR>::encode(m)
    }

    open spec fn decode(b: Seq<u8>) -> Result<(Self::M, nat), XdrError> {
        <(u32, (u32, (u32, nfsstring))) as XDR>::decode(b)
    }

    proof fn decode_within(b: Seq<u8>) {
        <(u32, (u32, (u32, nfsstring))) as XDR>::decode_within(b);
    }

    proof fn round_trip(m: Self::M, rest: Seq<u8>) {
        <(u32, (u32, (u32, nfsstring))) as XDR>::round_trip(m, rest);
    }

    fn serialize(&self, dest: &mut Vec<u8>) {
        self.acetype.serialize(dest);
        self.aceflag.serialize(dest);
        self.acemask.serialize(dest);
        self.who.serialize(dest);
        assert(dest@ =~= old(dest)@ + Self::encode(self.model()));
    }

    fn deserialize(src: &mut Reader) -> (r: Result<Self, XdrError>) {
        match <(u32, (u32, (u32, nfsstring))) as XDR>::deserialize(src) {
            Ok((acetype, (aceflag, (acemask, who)))) => Ok(nfsace4 { acetype, aceflag, acemask, who }),
            Err(e) => Err(e),
        }
    }
}

impl Model for Vec<nfsace4> {
    type M = Seq<<nfsace4 as Model>::M>;

    open spec fn model(&self) -> Self::M {
        models(self@)
    }
}

/// An access control list.
impl XDR for Vec<nfsace4> {
    open spec fn encodable(m: Self::M) -> bool {
        m.len() < u32::MAX && items_encodable::<nfsace4>(m)
    }

    open spec fn fits(m: Self::M) -> bool {
        list_fits::<nfsace4>(m)
    }

    open spec fn encode(m: Self::M) -> Seq<u8> {
        encode_list::<nfsace4>(m)
    }

    open spec fn decode(b: Seq<u8>) -> Result<(Self::M, nat), XdrError> {
        decode_list::<nfsace4>(b)
    }

    proof fn decode_within(b: Seq<u8>) {
        list_within::<nfsace4>(b);
    }

    proof fn round_trip(m: Self::M, rest: Seq<u8>) {
        list_round_trip::<nfsace4>(m, rest);
    }

    fn serialize(&self, dest: &mut Vec<u8>) {
        serialize_list(self, dest);
    }

    fn deserialize(src: &mut Reader) -> (r: Result<Self, XdrError>) {
        deserialize_list::<nfsace4>(src)
    }
}

/// The attributes of a file, as far as they are known or asked for.
#[derive(Clone, Debug, Default, PartialEq, Eq)]
pub struct fattr4 {
    /// Attribute 0.
    pub supported_attrs: Option<bitmap4>,
    /// Attribute 1.
    pub ftype: Option<ftype4>,
    /// Attribute 2.
    pub fh_expire_type: Option<u32>,
    /// Attribute 3.
    pub change: Option<changeid4>,
    /// Attribute 4.
    pub size: Option<u64>,
    /// Attribute 5.
    pub link_support: Option<bool>,
    /// Attribute 6.
    pub symlink_support: Option<bool>,
    /// Attribute 7.
    pub named_attr: Option<bool>,
    /// Attribute 8.
    pub fsid: Option<fsid4>,
    /// Attribute 9.
    pub unique_handles: Option<bool>,
    /// Attribute 10.
    pub lease_time: Option<u32>,
    /// Attribute 11.
    pub rdattr_error: Option<nfsstat4>,
    /// Attribute 12.
    pub acl: Option<Vec<nfsace4>>,
    /// Attribute 13.
    pub aclsupport: Option<u32>,
    /// Attribute 14.
    pub archive: Option<bool>,
    /// Attribute 15.
    pub cansettime: Option<bool>,
    /// Attribute 16.
    pub case_insensitive: Option<bool>,
    /// Attribute 17.
    pub case_preserving: Option<bool>,
    /// Attribute 19.
    pub filehandle: Option<nfs_fh4>,
    /// Attribute 20.
    pub fileid: Option<u64>,
    /// Attribute 21.
    pub files_avail: Option<u64>,
    /// Attribute 22.
    pub files_free: Option<u64>,
    /// Attribute 23.
    pub files_total: Option<u64>,
    /// Attribute 25.
    pub hidden: Option<bool>,
    /// Attribute 26.
    pub homogeneous: Option<bool>,
    /// Attribute 27.
    pub maxfilesize: Option<u64>,
    /// Attribute 28.
    pub maxlink: Option<u32>,
    /// Attribute 29.
    pub maxname: Option<u32>,
    /// Attribute 30.
    pub maxread: Option<u64>,
    /// Attribute 31.
    pub maxwrite: Option<u64>,
    /// Attribute 33.
    pub mode: Option<mode4>,
    /// Attribute 34.
    pub no_trunc: Option<bool>,
    /// Attribute 35.
    pub numlinks: Option<u32>,
    /// Attribute 36.
    pub owner: Option<nfsstring>,
    /// Attribute 37.
    pub owner_group: Option<nfsstring>,
    /// Attribute 41.
    pub rawdev: Option<specdata4>,
    /// Attribute 42.
    pub space_avail: Option<u64>,
    /// Attribute 43.
    pub space_free: Option<u64>,
    /// Attribute 44.
    pub space_total: Option<u64>,
    /// Attribute 45.
    pub space_used: Option<u64>,
    /// Attribute 47.
    pub time_access: Option<nfstime4>,
    /// Attribute 49.
    pub time_backup: Option<nfstime4>,
    /// Attribute 50.
    pub time_create: Option<nfstime4>,
    /// Attribute 51.
    pub time_delta: Option<nfstime4>,
    /// Attribute 52.
    pub time_metadata: Option<nfstime4>,
    /// Attribute 53.
    pub time_modify: Option<nfstime4>,
    /// Attribute 55.
    pub mounted_on_fileid: Option<u64>,
}

/// One past the highest attribute number that is known.
pub const ATTR_END: usize = 56;

/// The value of an attribute.
pub enum AttrView {
    Bitmap(Seq<u32>),
    FileType(ftype4),
    Word(u32),
    Long(u64),
    Flag(bool),
    Fsid((u64, u64)),
    Status(nfsstat4),
    Bytes(Seq<u8>),
    Acl(Seq<<nfsace4 as Model>::M>),
    Device((u32, u32)),
    Time((i64, u32)),
}

/// What kind of value an attribute has.
#[derive(Copy, Clone, Debug, PartialEq, Eq, Structural)]
pub enum AttrType {
    Bitmap,
    FileType,
    Word,
    Long,
    Flag,
    Fsid,
    Status,
    Bytes,
    Acl,
    Device,
    Time,
}

/// The kind of value that an attribute number has, if it is one that is known.
pub open spec fn attr_type(bit: nat) -> Option<AttrType> {
    if bit == 0 {
        Some(AttrType::Bitmap)
    } else if bit == 1 {
        Some(AttrType::FileType)
    } else if bit == 2 || bit == 10 || bit == 13 || bit == 28 || bit == 29 || bit == 33 || bit == 35 {
        Some(AttrType::Word)
    } else if bit == 3 || bit == 4 || bit == 20 || bit == 21 || bit == 22 || bit == 23 || bit == 27 || bit == 30
        || bit == 31 || bit == 42 || bit == 43 || bit == 44 || bit == 45 || bit == 55 {
        Some(AttrType::Long)
    } else if bit == 5 || bit == 6 || bit == 7 || bit == 9 || bit == 14 || bit == 15 || bit == 16 || bit == 17
        || bit == 25 || bit == 26 || bit == 34 {
        Some(AttrType::Flag)
    } else if bit == 8 {
        Some(AttrType::Fsid)
    } else if bit == 11 {
        Some(AttrType::Status)
    } else if bit == 19 || bit == 36 || bit == 37 {
        Some(AttrType::Bytes)
    } else if bit == 12 {
        Some(AttrType::Acl)
    } else if bit == 41 {
        Some(AttrType::Device)
    } else if bit == 47 || bit == 49 || bit == 50 || bit == 51 || bit == 52 || bit == 53 {
        Some(AttrType::Time)
    } else {
        None
    }
}

/// The kind of value that an attribute number has, if it is one that is known.
fn kind_of(bit: usize) -> (r: Option<AttrType>)
    ensures
        r == attr_type(bit as nat),
{
    match bit {
        0 => Some(AttrType::Bitmap),
        1 => Some(AttrType::FileType),
        2 | 10 | 13 | 28 | 29 | 33 | 35 => Some(AttrType::Word),
        3 | 4 | 20 | 21 | 22 | 23 | 27 | 30 | 31 | 42 | 43 | 44 | 45 | 55 => Some(AttrType::Long),
        5 | 6 | 7 | 9 | 14 | 15 | 16 | 17 | 25 | 26 | 34 => Some(AttrType::Flag),
        8 => Some(AttrType::Fsid),
        11 => Some(AttrType::Status),
        19 | 36 | 37 => Some(AttrType::Bytes),
        12 => Some(AttrType::Acl),
        41 => Some(AttrType::Device),
        47 | 49 | 50 | 51 | 52 | 53 => Some(AttrType::Time),
        _ => None,
    }
}

impl AttrView {
    pub open spec fn kind(self) -> AttrType {
        match self {
            AttrView::Bitmap(_) => AttrType::Bitmap,
            AttrView::FileType(_) => AttrType::FileType,
            AttrView::Word(_) => AttrType::Word,
            AttrView::Long(_) => AttrType::Long,
            AttrView::Flag(_) => AttrType::Flag,
            AttrView::Fsid(_) => AttrType::Fsid,
            AttrView::Status(_) => AttrType::Status,
            AttrView::Bytes(_) => AttrType::Bytes,
            AttrView::Acl(_) => AttrType::Acl,
            AttrView::Device(_) => AttrType::Device,
            AttrView::Time(_) => AttrType::Time,
        }
    }

    /// Can the value be written?
    pub open spec fn encodable(self) -> bool {
        match self {
            AttrView::Bitmap(v) => bitmap4::encodable(v),
            AttrView::FileType(v) => ftype4::encodable(v),
            AttrView::Word(v) => u32::encodable(v),
            AttrView::Long(v) => u64::encodable(v),
            AttrView::Flag(v) => bool::encodable(v),
            AttrView::Fsid(v) => fsid4::encodable(v),
            AttrView::Status(v) => nfsstat4::encodable(v),
            AttrView::Bytes(v) => <Vec<u8> as XDR>::encodable(v),
            AttrView::Acl(v) => <Vec<nfsace4> as XDR>::encodable(v),
            AttrView::Device(v) => specdata4::encodable(v),
            AttrView::Time(v) => nfstime4::encodable(v),
        }
    }

    /// Does the value survive the wire?
    pub open spec fn fits(self) -> bool {
        match self {
            AttrView::Bitmap(v) => <bitmap4 as XDR>::fits(v),
            AttrView::FileType(v) => <ftype4 as XDR>::fits(v),
            AttrView::Word(v) => <u32 as XDR>::fits(v),
            AttrView::Long(v) => <u64 as XDR>::fits(v),
            AttrView::Flag(v) => <bool as XDR>::fits(v),
            AttrView::Fsid(v) => <fsid4 as XDR>::fits(v),
            AttrView::Status(v) => <nfsstat4 as XDR>::fits(v),
            AttrView::Bytes(v) => <Vec<u8> as XDR>::fits(v),
            AttrView::Acl(v) => <Vec<nfsace4> as XDR>::fits(v),
            AttrView::Device(v) => <specdata4 as XDR>::fits(v),
            AttrView::Time(v) => <nfstime4 as XDR>::fits(v),
        }
    }

    /// The wire form of the value.
    pub open spec fn encode(self) -> Seq<u8> {
        match self {
            AttrView::Bitmap(v) => <bitmap4 as XDR>::encode(v),
            AttrView::FileType(v) => <ftype4 as XDR>::encode(v),
            AttrView::Word(v) => <u32 as XDR>::encode(v),
            AttrView::Long(v) => <u64 as XDR>::encode(v),
            AttrView::Flag(v) => <bool as XDR>::encode(v),
            AttrView::Fsid(v) => <fsid4 as XDR>::encode(v),
            AttrView::Status(v) => <nfsstat4 as XDR>::encode(v),
            AttrView::Bytes(v) => <Vec<u8> as XDR>::encode(v),
            AttrView::Acl(v) => <Vec<nfsace4> as XDR>::encode(v),
            AttrView::Device(v) => <specdata4 as XDR>::encode(v),
            AttrView::Time(v) => <nfstime4 as XDR>::encode(v),
        }
    }

    /// What the front of a byte string reads as, taken as a value of a kind.
    pub open spec fn decode(t: AttrType, b: Seq<u8>) -> Result<(AttrView, nat), XdrError> {
        match t {
            AttrType::Bitmap => match <bitmap4 as XDR>::decode(b) {
                Ok((v, n)) => Ok((AttrView::Bitmap(v), n)),
                Err(e) => Err(e),
            },
            AttrType::FileType => match <ftype4 as XDR>::decode(b) {
                Ok((v, n)) => Ok((AttrView::FileType(v), n)),
                Err(e) => Err(e),
            },
            AttrType::Word => match <u32 as XDR>::decode(b) {
                Ok((v, n)) => Ok((AttrView::Word(v), n)),
                Err(e) => Err(e),
            },
            AttrType::Long => match <u64 as XDR>::decode(b) {
                Ok((v, n)) => Ok((AttrView::Long(v), n)),
                Err(e) => Err(e),
            },
            AttrType::Flag => match <bool as XDR>::decode(b) {
                Ok((v, n)) => Ok((AttrView::Flag(v), n)),
                Err(e) => Err(e),
            },
            AttrType::Fsid => match <fsid4 as XDR>::decode(b) {
                Ok((v, n)) => Ok((AttrView::Fsid(v), n)),
                Err(e) => Err(e),
            },
            AttrType::Status => match <nfsstat4 as XDR>::decode(b) {
                Ok((v, n)) => Ok((AttrView::Status(v), n)),
                Err(e) => Err(e),
            },
            AttrType::Bytes => match <Vec<u8> as XDR>::decode(b) {
                Ok((v, n)) => Ok((AttrView::Bytes(v), n)),
                Err(e) => Err(e),
            },
            AttrType::Acl => match <Vec<nfsace4> as XDR>::decode(b) {
                Ok((v, n)) => Ok((AttrView::Acl(v), n)),
                Err(e) => Err(e),
            },
            AttrType::Device => match <specdata4 as XDR>::decode(b) {
                Ok((v, n)) => Ok((AttrView::Device(v), n)),
                Err(e) => Err(e),
            },
            AttrType::Time => match <nfstime4 as XDR>::decode(b) {
                Ok((v, n)) => Ok((AttrView::Time(v), n)),
                Err(e) => Err(e),
            },
        }
    }

    proof fn decode_within(t: AttrType, b: Seq<u8>)
        ensures
            Self::decode(t, b) matches Ok((v, n)) ==> n <= b.len() && v.kind() == t,
    {
        match t {
            AttrType::Bitmap => <bitmap4 as XDR>::decode_within(b),
            AttrType::FileType => <ftype4 as XDR>::decode_within(b),
            AttrType::Word => <u32 as XDR>::decode_within(b),
            AttrType::Long => <u64 as XDR>::decode_within(b),
            AttrType::Flag => <bool as XDR>::decode_within(b),
            AttrType::Fsid => <fsid4 as XDR>::decode_within(b),
            AttrType::Status => <nfsstat4 as XDR>::decode_within(b),
            AttrType::Bytes => <Vec<u8> as XDR>::decode_within(b),
            AttrType::Acl => <Vec<nfsace4> as XDR>::decode_within(b),
            AttrType::Device => <specdata4 as XDR>::decode_within(b),
            AttrType::Time => <nfstime4 as XDR>::decode_within(b),
        }
    }

    proof fn round_trip(self, rest: Seq<u8>)
        requires
            self.fits(),
        ensures
            Self::decode(self.kind(), self.encode() + rest) == Ok::<(AttrView, nat), XdrError>(
                (self, self.encode().len()),
            ),
    {
        match self {
            AttrView::Bitmap(v) => <bitmap4 as XDR>::round_trip(v, rest),
            AttrView::FileType(v) => <ftype4 as XDR>::round_trip(v, rest),
            AttrView::Word(v) => <u32 as XDR>::round_trip(v, rest),
            AttrView::Long(v) => <u64 as XDR>::round_trip(v, rest),
            AttrView::Flag(v) => <bool as XDR>::round_trip(v, rest),
            AttrView::Fsid(v) => <fsid4 as XDR>::round_trip(v, rest),
            AttrView::Status(v) => <nfsstat4 as XDR>::round_trip(v, rest),
            AttrView::Bytes(v) => <Vec<u8> as XDR>::round_trip(v, rest),
            AttrView::Acl(v) => <Vec<nfsace4> as XDR>::round_trip(v, rest),
            AttrView::Device(v) => <specdata4 as XDR>::round_trip(v, rest),
            AttrView::Time(v) => <nfstime4 as XDR>::round_trip(v, rest),
        }
    }
}

impl fattr4 {
    /// The value of an attribute, if it is present.
    pub open spec fn attr(&self, bit: nat) -> Option<AttrView> {
        if bit == 0 {
            match self.supported_attrs {
                Some(v) => Some(AttrView::Bitmap(v.model())),
                None => None,
            }
        } else if bit == 1 {
            match self.ftype {
                Some(v) => Some(AttrView::FileType(v.model())),
                None => None,
            }
        } else if bit == 2 {
            match self.fh_expire_type {
                Some(v) => Some(AttrView::Word(v.model())),
                None => None,
            }
        } else if bit == 3 {
            match self.change {
                Some(v) => Some(AttrView::Long(v.model())),
                None => None,
            }
        } else if bit == 4 {
            match self.size {
                Some(v) => Some(AttrView::Long(v.model())),
                None => None,
            }
        } else if bit == 5 {
            match self.link_support {
                Some(v) => Some(AttrView::Flag(v.model())),
                None => None,
            }
        } else if bit == 6 {
            match self.symlink_support {
                Some(v) => Some(AttrView::Flag(v.model())),
                None => None,
            }
        } else if bit == 7 {
            match self.named_attr {
                Some(v) => Some(AttrView::Flag(v.model())),
                None => None,
            }
        } else if bit == 8 {
            match self.fsid {
                Some(v) => Some(AttrView::Fsid(v.model())),
                None => None,
            }
        } else if bit == 9 {
            match self.unique_handles {
                Some(v) => Some(AttrView::Flag(v.model())),
                None => None,
            }
        } else if bit == 10 {
            match self.lease_time {
                Some(v) => Some(AttrView::Word(v.model())),
                None => None,
            }
        } else if bit == 11 {
            match self.rdattr_error {
                Some(v) => Some(AttrView::Status(v.model())),
                None => None,
            }
        } else if bit == 12 {
            match self.acl {
                Some(v) => Some(AttrView::Acl(v.model())),
                None => None,
            }
        } else if bit == 13 {
            match self.aclsupport {
                Some(v) => Some(AttrView::Word(v.model())),
                None => None,
            }
        } else if bit == 14 {
            match self.archive {
                Some(v) => Some(AttrView::Flag(v.model())),
                None => None,
            }
        } else if bit == 15 {
            match self.cansettime {
                Some(v) => Some(AttrView::Flag(v.model())),
                None => None,
            }
        } else if bit == 16 {
            match self.case_insensitive {
                Some(v) => Some(AttrView::Flag(v.model())),
                None => None,
            }
        } else if bit == 17 {
            match self.case_preserving {
                Some(v) => Some(AttrView::Flag(v.model())),
                None => None,
            }
        } else if bit == 19 {
            match self.filehandle {
                Some(v) => Some(AttrView::Bytes(v.model())),
                None => None,
            }
        } else if bit == 20 {
            match self.fileid {
                Some(v) => Some(AttrView::Long(v.model())),
                None => None,
            }
        } else if bit == 21 {
            match self.files_avail {
                Some(v) => Some(AttrView::Long(v.model())),
                None => None,
            }
        } else if bit == 22 {
            match self.files_free {
                Some(v) => Some(AttrView::Long(v.model())),
                None => None,
            }
        } else if bit == 23 {
            match self.files_total {
                Some(v) => Some(AttrView::Long(v.model())),
                None => None,
            }
        } else if bit == 25 {
            match self.hidden {
                Some(v) => Some(AttrView::Flag(v.model())),
                None => None,
            }
        } else if bit == 26 {
            match self.homogeneous {
                Some(v) => Some(AttrView::Flag(v.model())),
                None => None,
            }
        } else if bit == 27 {
            match self.maxfilesize {
                Some(v) => Some(AttrView::Long(v.model())),
                None => None,
            }
        } else if bit == 28 {
            match self.maxlink {
                Some(v) => Some(AttrView::Word(v.model())),
                None => None,
            }
        } else if bit == 29 {
            match self.maxname {
                Some(v) => Some(AttrView::Word(v.model())),
                None => None,
            }
        } else if bit == 30 {
            match self.maxread {
                Some(v) => Some(AttrView::Long(v.model())),
                None => None,
            }
        } else if bit == 31 {
            match self.maxwrite {
                Some(v) => Some(AttrView::Long(v.model())),
                None => None,
            }
        } else if bit == 33 {
            match self.mode {
                Some(v) => Some(AttrView::Word(v.model())),
                None => None,
            }
        } else if bit == 34 {
            match self.no_trunc {
                Some(v) => Some(AttrView::Flag(v.model())),
                None => None,
            }
        } else if bit == 35 {
            match self.numlinks {
                Some(v) => Some(AttrView::Word(v.model())),
                None => None,
            }
        } else if bit == 36 {
            match self.owner {
                Some(v) => Some(AttrView::Bytes(v.model())),
                None => None,
            }
        } else if bit == 37 {
            match self.owner_group {
                Some(v) => Some(AttrView::Bytes(v.model())),
                None => None,
            }
        } else if bit == 41 {
            match self.rawdev {
                Some(v) => Some(AttrView::Device(v.model())),
                None => None,
            }
        } else if bit == 42 {
            match self.space_avail {
                Some(v) => Some(AttrView::Long(v.model())),
                None => None,
            }
        } else if bit == 43 {
            match self.space_free {
                Some(v) => Some(AttrView::Long(v.model())),
                None => None,
            }
        } else if bit == 44 {
            match self.space_total {
                Some(v) => Some(AttrView::Long(v.model())),
                None => None,
            }
        } else if bit == 45 {
            match self.space_used {
                Some(v) => Some(AttrView::Long(v.model())),
                None => None,
            }
        } else if bit == 47 {
            match self.time_access {
                Some(v) => Some(AttrView::Time(v.model())),
                None => None,
            }
        } else if bit == 49 {
            match self.time_backup {
                Some(v) => Some(AttrView::Time(v.model())),
                None => None,
            }
        } else if bit == 50 {
            match self.time_create {
                Some(v) => Some(AttrView::Time(v.model())),
                None => None,
            }
        } else if bit == 51 {
            match self.time_delta {
                Some(v) => Some(AttrView::Time(v.model())),
                None => None,
            }
        } else if bit == 52 {
            match self.time_metadata {
                Some(v) => Some(AttrView::Time(v.model())),
                None => None,
            }
        } else if bit == 53 {
            match self.time_modify {
                Some(v) => Some(AttrView::Time(v.model())),
                None => None,
            }
        } else if bit == 55 {
            match self.mounted_on_fileid {
                Some(v) => Some(AttrView::Long(v.model())),
                None => None,
            }
        } else {
            None
        }
    }

    /// Append the value of an attribute, and say whether it is present.
    fn put(&self, bit: usize, vals: &mut Vec<u8>) -> (b: bool)
        requires
            self.attr(bit as nat) matches Some(v) ==> v.encodable(),
        ensures
            b == self.attr(bit as nat) is Some,
            final(vals)@ == match self.attr(bit as nat) {
                Some(v) => old(vals)@ + v.encode(),
                None => old(vals)@,
            },
    {
        match bit {
            0 => match &self.supported_attrs {
                Some(v) => {
                    v.serialize(vals);
                    true
                },
                None => false,
            },
            1 => match &self.ftype {
                Some(v) => {
                    v.serialize(vals);
                    true
                },
                None => false,
            },
            2 => match &self.fh_expire_type {
                Some(v) => {
                    v.serialize(vals);
                    true
                },
                None => false,
            },
            3 => match &self.change {
                Some(v) => {
                    v.serialize(vals);
                    true
                },
                None => false,
            },
            4 => match &self.size {
                Some(v) => {
                    v.serialize(vals);
                    true
                },
                None => false,
            },
            5 => match &self.link_support {
                Some(v) => {
                    v.serialize(vals);
                    true
                },
                None => false,
            },
            6 => match &self.symlink_support {
                Some(v) => {
                    v.serialize(vals);
                    true
                },
                None => false,
            },
            7 => match &self.named_attr {
                Some(v) => {
                    v.serialize(vals);
                    true
                },
                None => false,
            },
            8 => match &self.fsid {
                Some(v) => {
                    v.serialize(vals);
                    true
                },
                None => false,
            },
            9 => match &self.unique_handles {
                Some(v) => {
                    v.serialize(vals);
                    true
                },
                None => false,
            },
            10 => match &self.lease_time {
                Some(v) => {
                    v.serialize(vals);
                    true
                },
                None => false,
            },
            11 => match &self.rdattr_error {
                Some(v) => {
                    v.serialize(vals);
                    true
                },
                None => false,
            },
            12 => match &self.acl {
                Some(v) => {
                    v.serialize(vals);
                    true
                },
                None => false,
            },
            13 => match &self.aclsupport {
                Some(v) => {
                    v.serialize(vals);
                    true
                },
                None => false,
            },
            14 => match &self.archive {
                Some(v) => {
                    v.serialize(vals);
                    true
                },
                None => false,
            },
            15 => match &self.cansettime {
                Some(v) => {
                    v.serialize(vals);
                    true
                },
                None => false,
            },
            16 => match &self.case_insensitive {
                Some(v) => {
                    v.serialize(vals);
                    true
                },
                None => false,
            },
            17 => match &self.case_preserving {
                Some(v) => {
                    v.serialize(vals);
                    true
                },
                None => false,
            },
            19 => match &self.filehandle {
                Some(v) => {
                    v.serialize(vals);
                    true
                },
                None => false,
            },
            20 => match &self.fileid {
                Some(v) => {
                    v.serialize(vals);
                    true
                },
                None => false,
            },
            21 => match &self.files_avail {
                Some(v) => {
                    v.serialize(vals);
                    true
                },
                None => false,
            },
            22 => match &self.files_free {
                Some(v) => {
                    v.serialize(vals);
                    true
                },
                None => false,
            },
            23 => match &self.files_total {
                Some(v) => {
                    v.serialize(vals);
                    true
                },
                None => false,
            },
            25 => match &self.hidden {
                Some(v) => {
                    v.serialize(vals);
                    true
                },
                None => false,
            },
            26 => match &self.homogeneous {
                Some(v) => {
                    v.serialize(vals);
                    true
                },
                None => false,
            },
            27 => match &self.maxfilesize {
                Some(v) => {
                    v.serialize(vals);
                    true
                },
                None => false,
            },
            28 => match &self.maxlink {
                Some(v) => {
                    v.serialize(vals);
                    true
                },
                None => false,
            },
            29 => match &self.maxname {
                Some(v) => {
                    v.serialize(vals);
                    true
                },
                None => false,
            },
            30 => match &self.maxread {
                Some(v) => {
                    v.serialize(vals);
                    true
                },
                None => false,
            },
            31 => match &self.maxwrite {
                Some(v) => {
                    v.serialize(vals);
                    true
                },
                None => false,
            },
            33 => match &self.mode {
                Some(v) => {
                    v.serialize(vals);
                    true
                },
                None => false,
            },
            34 => match &self.no_trunc {
                Some(v) => {
                    v.serialize(vals);
                    true
                },
                None => false,
            },
            35 => match &self.numlinks {
                Some(v) => {
                    v.serialize(vals);
                    true
                },
                None => false,
            },
            36 => match &self.owner {
                Some(v) => {
                    v.serialize(vals);
                    true
                },
                None => false,
            },
            37 => match &self.owner_group {
                Some(v) => {
                    v.serialize(vals);
                    true
                },
                None => false,
            },
            41 => match &self.rawdev {
                Some(v) => {
                    v.serialize(vals);
                    true
                },
                None => false,
            },
            42 => match &self.space_avail {
                Some(v) => {
                    v.serialize(vals);
                    true
                },
                None => false,
            },
            43 => match &self.space_free {
                Some(v) => {
                    v.serialize(vals);
                    true
                },
                None => false,
            },
            44 => match &self.space_total {
                Some(v) => {
                    v.serialize(vals);
                    true
                },
                None => false,
            },
            45 => match &self.space_used {
                Some(v) => {
                    v.serialize(vals);
                    true
                },
                None => false,
            },
            47 => match &self.time_access {
                Some(v) => {
                    v.serialize(vals);
                    true
                },
                None => false,
            },
            49 => match &self.time_backup {
                Some(v) => {
                    v.serialize(vals);
                    true
                },
                None => false,
            },
            50 => match &self.time_create {
                Some(v) => {
                    v.serialize(vals);
                    true
                },
                None => false,
            },
            51 => match &self.time_delta {
                Some(v) => {
                    v.serialize(vals);
                    true
                },
                None => false,
            },
            52 => match &self.time_metadata {
                Some(v) => {
                    v.serialize(vals);
                    true
                },
                None => false,
            },
            53 => match &self.time_modify {
                Some(v) => {
                    v.serialize(vals);
                    true
                },
                None => false,
            },
            55 => match &self.mounted_on_fileid {
                Some(v) => {
                    v.serialize(vals);
                    true
                },
                None => false,
            },
            _ => false,
        }
    }

    /// Read the value of an attribute, if its number is one that is known.
    fn get(&mut self, bit: usize, src: &mut Reader) -> (r: Result<(), XdrError>)
        requires
            old(src).wf(),
        ensures
            final(src).wf(),
            final(src).buf == old(src).buf,
            match attr_type(bit as nat) {
                None => r is Ok && *final(self) == *old(self) && final(src).rest() == old(src).rest(),
                Some(t) => match AttrView::decode(t, old(src).rest()) {
                    Err(e) => r matches Err(x) && x == e,
                    Ok((v, n)) => {
                        &&& r is Ok
                        &&& final(src).rest() == old(src).rest().skip(n as int)
                        &&& forall|b: nat| #[trigger]
                            final(self).attr(b) == (if b == bit {
                                Some(v)
                            } else {
                                old(self).attr(b)
                            })
                    },
                },
            },
    {
        match kind_of(bit) {
            None => {},
            Some(t) => match t {
                AttrType::Bitmap => match <bitmap4 as XDR>::deserialize(src) {
                    Ok(v) => self.set_bitmap(bit, v),
                    Err(e) => return Err(e),
                },
                AttrType::FileType => match <ftype4 as XDR>::deserialize(src) {
                    Ok(v) => self.set_filetype(bit, v),
                    Err(e) => return Err(e),
                },
                AttrType::Word => match <u32 as XDR>::deserialize(src) {
                    Ok(v) => self.set_word(bit, v),
                    Err(e) => return Err(e),
                },
                AttrType::Long => match <u64 as XDR>::deserialize(src) {
                    Ok(v) => self.set_long(bit, v),
                    Err(e) => return Err(e),
                },
                AttrType::Flag => match <bool as XDR>::deserialize(src) {
                    Ok(v) => self.set_flag(bit, v),
                    Err(e) => return Err(e),
                },
                AttrType::Fsid => match <fsid4 as XDR>::deserialize(src) {
                    Ok(v) => self.set_fsid(bit, v),
                    Err(e) => return Err(e),
                },
                AttrType::Status => match <nfsstat4 as XDR>::deserialize(src) {
                    Ok(v) => self.set_status(bit, v),
                    Err(e) => return Err(e),
                },
                AttrType::Bytes => match <Vec<u8> as XDR>::deserialize(src) {
                    Ok(v) => self.set_bytes(bit, v),
                    Err(e) => return Err(e),
                },
                AttrType::Acl => match <Vec<nfsace4> as XDR>::deserialize(src) {
                    Ok(v) => self.set_acl(bit, v),
                    Err(e) => return Err(e),
                },
                AttrType::Device => match <specdata4 as XDR>::deserialize(src) {
                    Ok(v) => self.set_device(bit, v),
                    Err(e) => return Err(e),
                },
                AttrType::Time => match <nfstime4 as XDR>::deserialize(src) {
                    Ok(v) => self.set_time(bit, v),
                    Err(e) => return Err(e),
                },
            },
        }
        Ok(())
    }

    fn set_bitmap(&mut self, bit: usize, v: bitmap4)
        requires
            attr_type(bit as nat) == Some(AttrType::Bitmap),
        ensures
            forall|b: nat| #[trigger]
                final(self).attr(b) == (if b == bit {
                    Some(AttrView::Bitmap(v.model()))
                } else {
                    old(self).attr(b)
                }),
    {
        match bit {
            0 => self.supported_attrs = Some(v),
            _ => {},
        }
    }

    fn set_filetype(&mut self, bit: usize, v: ftype4)
        requires
            attr_type(bit as nat) == Some(AttrType::FileType),
        ensures
            forall|b: nat| #[trigger]
                final(self).attr(b) == (if b == bit {
                    Some(AttrView::FileType(v.model()))
                } else {
                    old(self).attr(b)
                }),
    {
        match bit {
            1 => self.ftype = Some(v),
            _ => {},
        }
    }

    fn set_word(&mut self, bit: usize, v: u32)
        requires
            attr_type(bit as nat) == Some(AttrType::Word),
        ensures
            forall|b: nat| #[trigger]
                final(self).attr(b) == (if b == bit {
                    Some(AttrView::Word(v.model()))
                } else {
                    old(self).attr(b)
                }),
    {
        match bit {
            2 => self.fh_expire_type = Some(v),
            10 => self.lease_time = Some(v),
            13 => self.aclsupport = Some(v),
            28 => self.maxlink = Some(v),
            29 => self.maxname = Some(v),
            33 => self.mode = Some(v),
            35 => self.numlinks = Some(v),
            _ => {},
        }
    }

    fn set_long(&mut self, bit: usize, v: u64)
        requires
            attr_type(bit as nat) == Some(AttrType::Long),
        ensures
            forall|b: nat| #[trigger]
                final(self).attr(b) == (if b == bit {
                    Some(AttrView::Long(v.model()))
                } else {
                    old(self).attr(b)
                }),
    {
        match bit {
            3 => self.change = Some(v),
            4 => self.size = Some(v),
            20 => self.fileid = Some(v),
            21 => self.files_avail = Some(v),
            22 => self.files_free = Some(v),
            23 => self.files_total = Some(v),
            27 => self.maxfilesize = Some(v),
            30 => self.maxread = Some(v),
            31 => self.maxwrite = Some(v),
            42 => self.space_avail = Some(v),
            43 => self.space_free = Some(v),
            44 => self.space_total = Some(v),
            45 => self.space_used = Some(v),
            55 => self.mounted_on_fileid = Some(v),
            _ => {},
        }
    }

    fn set_flag(&mut self, bit: usize, v: bool)
        requires
            attr_type(bit as nat) == Some(AttrType::Flag),
        ensures
            forall|b: nat| #[trigger]
                final(self).attr(b) == (if b == bit {
                    Some(AttrView::Flag(v.model()))
                } else {
                    old(self).attr(b)
                }),
    {
        match bit {
            5 => self.link_support = Some(v),
            6 => self.symlink_support = Some(v),
            7 => self.named_attr = Some(v),
            9 => self.unique_handles = Some(v),
            14 => self.archive = Some(v),
            15 => self.cansettime = Some(v),
            16 => self.case_insensitive = Some(v),
            17 => self.case_preserving = Some(v),
            25 => self.hidden = Some(v),
            26 => self.homogeneous = Some(v),
            34 => self.no_trunc = Some(v),
            _ => {},
        }
    }

    fn set_fsid(&mut self, bit: usize, v: fsid4)
        requires
            attr_type(bit as nat) == Some(AttrType::Fsid),
        ensures
            forall|b: nat| #[trigger]
                final(self).attr(b) == (if b == bit {
                    Some(AttrView::Fsid(v.model()))
                } else {
                    old(self).attr(b)
                }),
    {
        match bit {
            8 => self.fsid = Some(v),
            _ => {},
        }
    }

    fn set_status(&mut self, bit: usize, v: nfsstat4)
        requires
            attr_type(bit as nat) == Some(AttrType::Status),
        ensures
            forall|b: nat| #[trigger]
                final(self).attr(b) == (if b == bit {
                    Some(AttrView::Status(v.model()))
                } else {
                    old(self).attr(b)
                }),
    {
        match bit {
            11 => self.rdattr_error = Some(v),
            _ => {},
        }
    }

    fn set_bytes(&mut self, bit: usize, v: Vec<u8>)
        requires
            attr_type(bit as nat) == Some(AttrType::Bytes),
        ensures
            forall|b: nat| #[trigger]
                final(self).attr(b) == (if b == bit {
                    Some(AttrView::Bytes(v.model()))
                } else {
                    old(self).attr(b)
                }),
    {
        match bit {
            19 => self.filehandle = Some(nfs_fh { data: v }),
            36 => self.owner = Some(nfsstring(v)),
            37 => self.owner_group = Some(nfsstring(v)),
            _ => {},
        }
    }

    fn set_acl(&mut self, bit: usize, v: Vec<nfsace4>)
        requires
            attr_type(bit as nat) == Some(AttrType::Acl),
        ensures
            forall|b: nat| #[trigger]
                final(self).attr(b) == (if b == bit {
                    Some(AttrView::Acl(v.model()))
                } else {
                    old(self).attr(b)
                }),
    {
        match bit {
            12 => self.acl = Some(v),
            _ => {},
        }
    }

    fn set_device(&mut self, bit: usize, v: specdata4)
        requires
            attr_type(bit as nat) == Some(AttrType::Device),
        ensures
            forall|b: nat| #[trigger]
                final(self).attr(b) == (if b == bit {
                    Some(AttrView::Device(v.model()))
                } else {
                    old(self).attr(b)
                }),
    {
        match bit {
            41 => self.rawdev = Some(v),
            _ => {},
        }
    }

    fn set_time(&mut self, bit: usize, v: nfstime4)
        requires
            attr_type(bit as nat) == Some(AttrType::Time),
        ensures
            forall|b: nat| #[trigger]
                final(self).attr(b) == (if b == bit {
                    Some(AttrView::Time(v.model()))
                } else {
                    old(self).attr(b)
                }),
    {
        match bit {
            47 => self.time_access = Some(v),
            49 => self.time_backup = Some(v),
            50 => self.time_create = Some(v),
            51 => self.time_delta = Some(v),
            52 => self.time_metadata = Some(v),
            53 => self.time_modify = Some(v),
            _ => {},
        }
    }

    /// Forget an attribute.
    fn clear(&mut self, bit: usize)
        ensures
            forall|b: nat| #[trigger]
                final(self).attr(b) == (if b == bit {
                    None
                } else {
                    old(self).attr(b)
                }),
    {
        match bit {
            0 => self.supported_attrs = None,
            1 => self.ftype = None,
            2 => self.fh_expire_type = None,
            3 => self.change = None,
            4 => self.size = None,
            5 => self.link_support = None,
            6 => self.symlink_support = None,
            7 => self.named_attr = None,
            8 => self.fsid = None,
            9 => self.unique_handles = None,
            10 => self.lease_time = None,
            11 => self.rdattr_error = None,
            12 => self.acl = None,
            13 => self.aclsupport = None,
            14 => self.archive = None,
            15 => self.cansettime = None,
            16 => self.case_insensitive = None,
            17 => self.case_preserving = None,
            19 => self.filehandle = None,
            20 => self.fileid = None,
            21 => self.files_avail = None,
            22 => self.files_free = None,
            23 => self.files_total = None,
            25 => self.hidden = None,
            26 => self.homogeneous = None,
            27 => self.maxfilesize = None,
            28 => self.maxlink = None,
            29 => self.maxname = None,
            30 => self.maxread = None,
            31 => self.maxwrite = None,
            33 => self.mode = None,
            34 => self.no_trunc = None,
            35 => self.numlinks = None,
            36 => self.owner = None,
            37 => self.owner_group = None,
            41 => self.rawdev = None,
            42 => self.space_avail = None,
            43 => self.space_free = None,
            44 => self.space_total = None,
            45 => self.space_used = None,
            47 => self.time_access = None,
            49 => self.time_backup = None,
            50 => self.time_create = None,
            51 => self.time_delta = None,
            52 => self.time_metadata = None,
            53 => self.time_modify = None,
            55 => self.mounted_on_fileid = None,
            _ => {},
        }
    }

    /// No attributes at all.
    pub fn none() -> (r: fattr4)
        ensures
            forall|b: nat| #[trigger] r.attr(b) is None,
            r.model() == Map::<nat, AttrView>::empty(),
    {
        let r = fattr4 {
            supported_attrs: None,
            ftype: None,
            fh_expire_type: None,
            change: None,
            size: None,
            link_support: None,
            symlink_support: None,
            named_attr: None,
            fsid: None,
            unique_handles: None,
            lease_time: None,
            rdattr_error: None,
            acl: None,
            aclsupport: None,
            archive: None,
            cansettime: None,
            case_insensitive: None,
            case_preserving: None,
            filehandle: None,
            fileid: None,
            files_avail: None,
            files_free: None,
            files_total: None,
            hidden: None,
            homogeneous: None,
            maxfilesize: None,
            maxlink: None,
            maxname: None,
            maxread: None,
            maxwrite: None,
            mode: None,
            no_trunc: None,
            numlinks: None,
            owner: None,
            owner_group: None,
            rawdev: None,
            space_avail: None,
            space_free: None,
            space_total: None,
            space_used: None,
            time_access: None,
            time_backup: None,
            time_create: None,
            time_delta: None,
            time_metadata: None,
            time_modify: None,
            mounted_on_fileid: None,
        };
        assert(r.model() =~= Map::<nat, AttrView>::empty());
        r
    }
}

/// The attributes that are present, by their numbers.
impl Model for fattr4 {
    type M = Map<nat, AttrView>;

    open spec fn model(&self) -> Map<nat, AttrView> {
        Map::new(|bit: nat| self.attr(bit) is Some, |bit: nat| self.attr(bit)->0)
    }
}

// ---------------------------------------------------------------- the bitmap

/// Bit `k` of a word.
pub open spec fn bit_set(w: u32, k: u32) -> bool {
    (w >> k) & 1 == 1
}

/// Does a bitmap have the bit of an attribute?
pub open spec fn is_set(mask: Seq<u32>, bit: nat) -> bool {
    bit / 32 < mask.len() && bit_set(mask[(bit / 32) as int], (bit % 32) as u32)
}

/// The word of a bitmap that stands for the first `n` attributes from `base` on.
pub open spec fn word_of(m: Map<nat, AttrView>, base: nat, n: nat) -> u32
    decreases n,
{
    if n == 0 {
        0
    } else {
        let w = word_of(m, base, (n - 1) as nat);
        if m.contains_key((base + n - 1) as nat) {
            w | (1u32 << ((n - 1) as u32))
        } else {
            w
        }
    }
}

/// The bitmap of the attributes that are present, without words of zeros at its
/// end.
pub open spec fn mask_of(m: Map<nat, AttrView>) -> Seq<u32> {
    let w0 = word_of(m, 0, 32);
    let w1 = word_of(m, 32, 32);
    if w1 != 0 {
        seq![w0, w1]
    } else if w0 != 0 {
        seq![w0]
    } else {
        Seq::empty()
    }
}

proof fn or_sets_one_bit(w: u32, k: u32, j: u32)
    requires
        k < 32,
        j < 32,
    ensures
        bit_set(w | (1u32 << k), j) == (bit_set(w, j) || j == k),
{
    assert((((w | (1u32 << k)) >> j) & 1 == 1) == (((w >> j) & 1 == 1) || j == k)) by (bit_vector)
        requires
            k < 32,
            j < 32,
    ;
}

proof fn zero_has_no_bits(j: u32)
    requires
        j < 32,
    ensures
        !bit_set(0, j),
{
    assert(((0u32 >> j) & 1) != 1) by (bit_vector);
}

/// A word has exactly the bits of the attributes that it stands for.
proof fn word_has_its_bits(m: Map<nat, AttrView>, base: nat, n: nat, j: u32)
    requires
        n <= 32,
        j < 32,
    ensures
        bit_set(word_of(m, base, n), j) == (j < n && m.contains_key(base + j as nat)),
    decreases n,
{
    if n == 0 {
        zero_has_no_bits(j);
    } else {
        let p = (n - 1) as nat;
        word_has_its_bits(m, base, p, j);
        or_sets_one_bit(word_of(m, base, p), p as u32, j);
    }
}

/// The bitmap has exactly the bits of the attributes that are present.
pub proof fn mask_has_its_bits(m: Map<nat, AttrView>, bit: nat)
    requires
        bit < 64,
    ensures
        is_set(mask_of(m), bit) == m.contains_key(bit),
{
    let base = if bit < 32 { 0nat } else { 32nat };
    let j = (bit % 32) as u32;
    word_has_its_bits(m, base, 32, j);
    zero_has_no_bits(j);
    assert(base + j as nat == bit);
}

/// Does a bitmap have the bit of an attribute?
pub fn has_bit(mask: &Vec<u32>, bit: usize) -> (b: bool)
    ensures
        b == is_set(mask@, bit as nat),
{
    let w: usize = bit / 32;
    if w >= mask.len() {
        return false;
    }
    (mask[w] >> ((bit % 32) as u32)) & 1 == 1
}

// ---------------------------------------------------------------- the wire form

/// The values of the attributes from `bit` on, in the order of their numbers.
pub open spec fn vals_from(m: Map<nat, AttrView>, bit: nat) -> Seq<u8>
    decreases ATTR_END - bit,
{
    if bit >= ATTR_END {
        Seq::empty()
    } else {
        (if m.contains_key(bit) {
            m[bit].encode()
        } else {
            Seq::empty()
        }) + vals_from(m, bit + 1)
    }
}

/// What the values of the attributes from `bit` on read as. An attribute whose
/// number is not known has no value.
pub open spec fn attrs_from(mask: Seq<u32>, b: Seq<u8>, bit: nat) -> Result<Map<nat, AttrView>, XdrError>
    decreases ATTR_END - bit,
{
    if bit >= ATTR_END {
        Ok(Map::empty())
    } else if !is_set(mask, bit) || attr_type(bit) is None {
        attrs_from(mask, b, bit + 1)
    } else {
        match AttrView::decode(attr_type(bit)->0, b) {
            Err(e) => Err(e),
            Ok((v, n)) => match attrs_from(mask, b.skip(n as int), bit + 1) {
                Err(e) => Err(e),
                Ok(m) => Ok(m.insert(bit, v)),
            },
        }
    }
}

proof fn attrs_start_at(mask: Seq<u32>, b: Seq<u8>, bit: nat)
    ensures
        attrs_from(mask, b, bit) matches Ok(m) ==> forall|k: nat| #[trigger] m.contains_key(k) ==> bit <= k,
    decreases ATTR_END - bit,
{
    if bit < ATTR_END {
        if !is_set(mask, bit) || attr_type(bit) is None {
            attrs_start_at(mask, b, bit + 1);
        } else if let Ok((_, n)) = AttrView::decode(attr_type(bit)->0, b) {
            attrs_start_at(mask, b.skip(n as int), bit + 1);
        }
    }
}

/// Every attribute has a number that is known, and a value of its kind.
pub open spec fn well_typed(m: Map<nat, AttrView>) -> bool {
    forall|bit: nat| #[trigger] m.contains_key(bit) ==> attr_type(bit) == Some(m[bit].kind())
}

/// The attributes from `bit` on.
pub open spec fn part_from(m: Map<nat, AttrView>, bit: nat) -> Map<nat, AttrView> {
    Map::new(|k: nat| m.contains_key(k) && bit <= k, |k: nat| m[k])
}

proof fn attrs_round_trip(m: Map<nat, AttrView>, bit: nat)
    requires
        well_typed(m),
        forall|k: nat| #[trigger] m.contains_key(k) ==> m[k].fits(),
    ensures
        attrs_from(mask_of(m), vals_from(m, bit), bit) == Ok::<Map<nat, AttrView>, XdrError>(part_from(m, bit)),
    decreases ATTR_END - bit,
{
    if bit >= ATTR_END {
        assert forall|k: nat| m.contains_key(k) implies k < ATTR_END by {
            assert(attr_type(k) == Some(m[k].kind()));
        }
        assert(part_from(m, bit) =~= Map::<nat, AttrView>::empty());
    } else {
        mask_has_its_bits(m, bit);
        attrs_round_trip(m, bit + 1);
        let tail = vals_from(m, bit + 1);
        if m.contains_key(bit) {
            assert(attr_type(bit) == Some(m[bit].kind()));
            m[bit].round_trip(tail);
            assert((m[bit].encode() + tail).skip(m[bit].encode().len() as int) =~= tail);
            assert(part_from(m, bit) =~= part_from(m, bit + 1).insert(bit, m[bit]));
        } else {
            assert(vals_from(m, bit) =~= tail);
            assert(part_from(m, bit) =~= part_from(m, bit + 1));
        }
    }
}

/// A bitmap, then the values as opaque data.
impl XDR for fattr4 {
    open spec fn encodable(m: Map<nat, AttrView>) -> bool {
        forall|bit: nat| #[trigger] m.contains_key(bit) ==> m[bit].encodable()
    }

    open spec fn fits(m: Map<nat, AttrView>) -> bool {
        &&& well_typed(m)
        &&& forall|bit: nat| #[trigger] m.contains_key(bit) ==> m[bit].fits()
        &&& vals_from(m, 0).len() <= u32::MAX
    }

    open spec fn encode(m: Map<nat, AttrView>) -> Seq<u8> {
        <(bitmap4, Vec<u8>) as XDR>::encode((mask_of(m), vals_from(m, 0)))
    }

    open spec fn decode(b: Seq<u8>) -> Result<(Map<nat, AttrView>, nat), XdrError> {
        match <(bitmap4, Vec<u8>) as XDR>::decode(b) {
            Err(e) => Err(e),
            Ok(((mask, vals), n)) => match attrs_from(mask, vals, 0) {
                Err(e) => Err(e),
                Ok(m) => Ok((m, n)),
            },
        }
    }

    proof fn decode_within(b: Seq<u8>) {
        <(bitmap4, Vec<u8>) as XDR>::decode_within(b);
    }

    proof fn round_trip(m: Map<nat, AttrView>, rest: Seq<u8>) {
        <(bitmap4, Vec<u8>) as XDR>::round_trip((mask_of(m), vals_from(m, 0)), rest);
        attrs_round_trip(m, 0);
        assert(part_from(m, 0) =~= m);
    }

    fn serialize(&self, dest: &mut Vec<u8>) {
        let ghost m = self.model();
        // The mask and the values of the attributes that are present, both in
        // the order of the attributes' numbers.
        let mut w0: u32 = 0;
        let mut w1: u32 = 0;
        let mut vals: Vec<u8> = Vec::new();
        let mut bit: usize = 0;
        proof {
            assert(vals@ + vals_from(m, 0) =~= vals_from(m, 0));
        }
        while bit < ATTR_END
            invariant
                bit <= ATTR_END,
                m == self.model(),
                Self::encodable(m),
                vals@ + vals_from(m, bit as nat) == vals_from(m, 0),
                w0 == word_of(m, 0, if bit < 32 { bit as nat } else { 32 }),
                w1 == word_of(m, 32, if bit < 32 { 0 } else { (bit - 32) as nat }),
            decreases ATTR_END - bit,
        {
            let ghost before = vals@;
            assert(self.attr(bit as nat) is Some == m.contains_key(bit as nat));
            let present: bool = self.put(bit, &mut vals);
            if present {
                if bit < 32 {
                    w0 = w0 | (1u32 << (bit as u32));
                } else {
                    w1 = w1 | (1u32 << ((bit - 32) as u32));
                }
            }
            proof {
                let tail = vals_from(m, bit as nat + 1);
                if present {
                    assert(before + (m[bit as nat].encode() + tail) =~= (before + m[bit as nat].encode()) + tail);
                } else {
                    assert(vals_from(m, bit as nat) =~= tail);
                }
            }
            bit += 1;
        }
        proof {
            assert(vals@ =~= vals_from(m, 0));
            no_attrs_past_the_end(*self);
            word_stops_growing(m, 24, 8);
        }
        // No words of zeros at the end of the mask.
        let mut mask: bitmap4 = Vec::new();
        if w1 != 0 {
            mask.push(w0);
            mask.push(w1);
        } else if w0 != 0 {
            mask.push(w0);
        }
        assert(mask@ =~= mask_of(m));
        mask.serialize(dest);
        vals.serialize(dest);
        assert(dest@ =~= old(dest)@ + Self::encode(m));
    }

    fn deserialize(src: &mut Reader) -> (r: Result<Self, XdrError>) {
        let (mask, vals) = match <(bitmap4, Vec<u8>) as XDR>::deserialize(src) {
            Ok(v) => v,
            Err(e) => return Err(e),
        };
        let mut attrs = fattr4::none();
        let mut cur = Reader::new(vals.as_slice());
        let mut bit: usize = 0;
        proof {
            if let Ok(m) = attrs_from(mask@, vals@, 0) {
                assert(attrs.model().union_prefer_right(m) =~= m);
            }
        }
        let ghost before = old(src).rest();
        while bit < ATTR_END
            invariant
                bit <= ATTR_END,
                cur.wf(),
                src.wf(),
                src.buf == old(src).buf,
                before == old(src).rest(),
                <(bitmap4, Vec<u8>) as XDR>::decode(before) matches Ok((mv, n)) && mv == (mask@, vals@) && src.rest()
                    == before.skip(n as int),
                attrs_from(mask@, vals@, 0) == (match attrs_from(mask@, cur.rest(), bit as nat) {
                    Err(e) => Err::<Map<nat, AttrView>, XdrError>(e),
                    Ok(m) => Ok(attrs.model().union_prefer_right(m)),
                }),
            decreases ATTR_END - bit,
        {
            let ghost here = cur.rest();
            let ghost got = attrs.model();
            let ghost had = attrs;
            if has_bit(&mask, bit) {
                proof {
                    if attr_type(bit as nat) is Some {
                        AttrView::decode_within(attr_type(bit as nat)->0, here);
                    }
                }
                match attrs.get(bit, &mut cur) {
                    Ok(_) => {},
                    Err(e) => return Err(e),
                }
                proof {
                    if attr_type(bit as nat) is Some {
                        if let Ok((v, n)) = AttrView::decode(attr_type(bit as nat)->0, here) {
                            assert(attrs.model() =~= got.insert(bit as nat, v));
                            attrs_start_at(mask@, cur.rest(), bit as nat + 1);
                            if let Ok(m) = attrs_from(mask@, cur.rest(), bit as nat + 1) {
                                assert(got.union_prefer_right(m.insert(bit as nat, v))
                                    =~= attrs.model().union_prefer_right(m));
                            }
                        }
                    }
                }
            }
            bit += 1;
        }
        assert(attrs.model().union_prefer_right(Map::empty()) =~= attrs.model());
        Ok(attrs)
    }
}

/// No attribute has a number past the last that is known.
proof fn no_attrs_past_the_end(a: fattr4)
    ensures
        forall|bit: nat| ATTR_END <= bit ==> !(#[trigger] a.model().contains_key(bit)),
{
}

/// Attributes that are absent add nothing to a word.
proof fn word_stops_growing(m: Map<nat, AttrView>, n: nat, more: nat)
    requires
        forall|bit: nat| 32 + n <= bit ==> !(#[trigger] m.contains_key(bit)),
    ensures
        word_of(m, 32, n + more) == word_of(m, 32, n),
    decreases more,
{
    if more > 0 {
        word_stops_growing(m, n, (more - 1) as nat);
        assert(!m.contains_key((32 + (n + more) - 1) as nat));
    }
}

// ---------------------------------------------------------------- conversions

/// The attributes that a client may ask for, as a bitmap. Attributes 0 to 11,
/// 19 and 20 stand in the first word, 33, 35, 36, 37, 41, 45, 47, 52 and 53 in
/// the second.
pub const SUPPORTED_ATTRS_0: u32 = 0x0018_0fff;

pub const SUPPORTED_ATTRS_1: u32 = 0x0030_a23a;

/// The bitmap of the attributes that a client may ask for.
pub open spec fn supported() -> Seq<u32> {
    seq![SUPPORTED_ATTRS_0, SUPPORTED_ATTRS_1]
}

/// The supported attributes are those that are mandatory and those that the
/// file system below gives.
pub proof fn supported_attrs_are_listed(bit: nat)
    requires
        bit < 64,
    ensures
        is_set(supported(), bit) <==> {
            ||| bit <= 11
            ||| bit == 19
            ||| bit == 20
            ||| bit == 33
            ||| 35 <= bit <= 37
            ||| bit == 41
            ||| bit == 45
            ||| bit == 47
            ||| bit == 52
            ||| bit == 53
        },
{
    let j = (bit % 32) as u32;
    assert(((0x0018_0fffu32 >> j) & 1 == 1) == (j <= 11 || j == 19 || j == 20)) by (bit_vector)
        requires
            j < 32,
    ;
    assert(((0x0030_a23au32 >> j) & 1 == 1) == (j == 1 || 3 <= j <= 5 || j == 9 || j == 13 || j == 15 || j == 20 || j
        == 21)) by (bit_vector)
        requires
            j < 32,
    ;
}

/// A supported attribute's number is one that is known.
pub proof fn supported_attrs_are_known(bit: nat)
    requires
        bit < 64,
        is_set(supported(), bit),
    ensures
        attr_type(bit) is Some,
{
    supported_attrs_are_listed(bit);
}

/// What the attributes of the file system below say in terms of the protocol.
pub open spec fn attrs_of(a: fattr3) -> Map<nat, AttrView> {
    map![
        0nat => AttrView::Bitmap(supported()),
        1nat => AttrView::FileType(ftype_of(a.ftype)),
        3nat => AttrView::Long(a.ctime.seconds as u64),
        4nat => AttrView::Long(a.size),
        8nat => AttrView::Fsid((a.fsid, 0u64)),
        20nat => AttrView::Long(a.fileid),
        33nat => AttrView::Word(a.mode),
        35nat => AttrView::Word(a.nlink),
        41nat => AttrView::Device((a.rdev.specdata1, a.rdev.specdata2)),
        45nat => AttrView::Long(a.used),
        47nat => AttrView::Time((a.atime.seconds as i64, a.atime.nseconds)),
        52nat => AttrView::Time((a.ctime.seconds as i64, a.ctime.nseconds)),
        53nat => AttrView::Time((a.mtime.seconds as i64, a.mtime.nseconds)),
    ]
}

impl fattr4 {
    /// The attributes of a file, from those that the file system below has.
    pub fn from_fattr3(src: &fattr3) -> (r: fattr4)
        ensures
            r.model() == attrs_of(*src),
    {
        let mut r = fattr4::none();
        let ghost r0 = r;
        let mut words: bitmap4 = Vec::new();
        words.push(SUPPORTED_ATTRS_0);
        words.push(SUPPORTED_ATTRS_1);
        assert(words@ =~= supported());
        r.supported_attrs = Some(words);
        r.ftype = Some(ftype4::from(src.ftype));
        r.change = Some(src.ctime.seconds as changeid4);
        r.size = Some(src.size);
        r.fsid = Some(fsid4 { major: src.fsid, minor: 0 });
        r.fileid = Some(src.fileid);
        r.mode = Some(src.mode);
        r.numlinks = Some(src.nlink);
        r.rawdev = Some(src.rdev);
        r.space_used = Some(src.used);
        r.time_access = Some(nfstime4::from(src.atime));
        r.time_metadata = Some(nfstime4::from(src.ctime));
        r.time_modify = Some(nfstime4::from(src.mtime));
        assert forall|b: nat| r.attr(b) == (if attrs_of(*src).contains_key(b) {
            Some(attrs_of(*src)[b])
        } else {
            None
        }) by {
            assert(r0.attr(b) is None);
        }
        assert(r.model() =~= attrs_of(*src));
        r
    }

    /// Keep the attributes that were asked for.
    pub fn retain_requested(&mut self, request: &bitmap4)
        ensures
            final(self).model() == requested(old(self).model(), request@),
    {
        let ghost before = self.model();
        let mut bit: usize = 0;
        while bit < ATTR_END
            invariant
                bit <= ATTR_END,
                before == old(self).model(),
                forall|b: nat| #[trigger]
                    self.attr(b) == (if b < bit && !is_set(request@, b) {
                        None
                    } else {
                        old(self).attr(b)
                    }),
            decreases ATTR_END - bit,
        {
            if !has_bit(request, bit) {
                self.clear(bit);
            }
            bit += 1;
        }
        assert forall|b: nat| ATTR_END <= b implies old(self).attr(b) is None by {}
        assert(self.model() =~= requested(before, request@));
    }
}

/// The attributes that are present and asked for.
pub open spec fn requested(m: Map<nat, AttrView>, request: Seq<u32>) -> Map<nat, AttrView> {
    Map::new(|bit: nat| m.contains_key(bit) && is_set(request, bit), |bit: nat| m[bit])
}

/// The numbers of the attributes that can be set: the size and the mode.
pub const FATTR4_SIZE: usize = 4;

pub const FATTR4_MODE: usize = 33;

/// The lowest attribute that is present but cannot be set, from `bit` on.
pub open spec fn first_unsettable(m: Map<nat, AttrView>, bit: nat) -> Option<nat>
    decreases ATTR_END - bit,
{
    if bit >= ATTR_END {
        None
    } else if m.contains_key(bit) && bit != FATTR4_SIZE && bit != FATTR4_MODE {
        Some(bit)
    } else {
        first_unsettable(m, bit + 1)
    }
}

/// Only the size and the mode, as far as they are given.
pub open spec fn settings_of(m: Map<nat, AttrView>) -> (Option<u64>, Option<u32>) {
    (
        if m.contains_key(4) && m[4] is Long {
            Some(m[4]->Long_0)
        } else {
            None
        },
        if m.contains_key(33) && m[33] is Word {
            Some(m[33]->Word_0)
        } else {
            None
        },
    )
}

impl fattr4 {
    /// What to set on the file system below, and the bitmap of it. Fails with
    /// the number of the first attribute that cannot be set.
    pub fn to_sattr3(&self) -> (r: Result<(sattr3, bitmap4), usize>)
        ensures
            match first_unsettable(self.model(), 0) {
                Some(bit) => r matches Err(b) && b == bit,
                None => {
                    &&& r matches Ok((s, bits))
                    &&& s == (sattr3 {
                        mode: settings_of(self.model()).1,
                        uid: None,
                        gid: None,
                        size: settings_of(self.model()).0,
                    })
                    &&& bits@ == mask_of(self.model())
                },
            },
    {
        let ghost m = self.model();
        let mut bit: usize = 0;
        while bit < ATTR_END
            invariant
                bit <= ATTR_END,
                m == self.model(),
                first_unsettable(m, 0) == first_unsettable(m, bit as nat),
            decreases ATTR_END - bit,
        {
            assert(m.contains_key(bit as nat) == (self.attr(bit as nat) is Some));
            if bit != FATTR4_SIZE && bit != FATTR4_MODE && self.has(bit) {
                return Err(bit);
            }
            bit += 1;
        }
        proof {
            only_size_and_mode(*self, 0);
            mask_of_settings(m);
            assert(self.attr(4) == (match self.size {
                Some(v) => Some(AttrView::Long(v)),
                None => None,
            }));
            assert(self.attr(33) == (match self.mode {
                Some(v) => Some(AttrView::Word(v)),
                None => None,
            }));
            assert(m.contains_key(4) == (self.attr(4) is Some));
            assert(m.contains_key(33) == (self.attr(33) is Some));
        }
        let s = sattr3 { mode: self.mode, uid: None, gid: None, size: self.size };
        let mut bits: bitmap4 = Vec::new();
        let w0: u32 = if self.size.is_some() { 0x10 } else { 0 };
        if self.mode.is_some() {
            bits.push(w0);
            bits.push(0x2);
        } else if w0 != 0 {
            bits.push(w0);
        }
        assert(bits@ =~= mask_of(m));
        Ok((s, bits))
    }

    /// Is the attribute present?
    fn has(&self, bit: usize) -> (b: bool)
        ensures
            b == self.attr(bit as nat) is Some,
    {
        match bit {
            0 => self.supported_attrs.is_some(),
            1 => self.ftype.is_some(),
            2 => self.fh_expire_type.is_some(),
            3 => self.change.is_some(),
            4 => self.size.is_some(),
            5 => self.link_support.is_some(),
            6 => self.symlink_support.is_some(),
            7 => self.named_attr.is_some(),
            8 => self.fsid.is_some(),
            9 => self.unique_handles.is_some(),
            10 => self.lease_time.is_some(),
            11 => self.rdattr_error.is_some(),
            12 => self.acl.is_some(),
            13 => self.aclsupport.is_some(),
            14 => self.archive.is_some(),
            15 => self.cansettime.is_some(),
            16 => self.case_insensitive.is_some(),
            17 => self.case_preserving.is_some(),
            19 => self.filehandle.is_some(),
            20 => self.fileid.is_some(),
            21 => self.files_avail.is_some(),
            22 => self.files_free.is_some(),
            23 => self.files_total.is_some(),
            25 => self.hidden.is_some(),
            26 => self.homogeneous.is_some(),
            27 => self.maxfilesize.is_some(),
            28 => self.maxlink.is_some(),
            29 => self.maxname.is_some(),
            30 => self.maxread.is_some(),
            31 => self.maxwrite.is_some(),
            33 => self.mode.is_some(),
            34 => self.no_trunc.is_some(),
            35 => self.numlinks.is_some(),
            36 => self.owner.is_some(),
            37 => self.owner_group.is_some(),
            41 => self.rawdev.is_some(),
            42 => self.space_avail.is_some(),
            43 => self.space_free.is_some(),
            44 => self.space_total.is_some(),
            45 => self.space_used.is_some(),
            47 => self.time_access.is_some(),
            49 => self.time_backup.is_some(),
            50 => self.time_create.is_some(),
            51 => self.time_delta.is_some(),
            52 => self.time_metadata.is_some(),
            53 => self.time_modify.is_some(),
            55 => self.mounted_on_fileid.is_some(),
            _ => false,
        }
    }
}

/// With no attribute that cannot be set, there are at most the two that can.
proof fn only_size_and_mode(a: fattr4, bit: nat)
    requires
        first_unsettable(a.model(), bit) is None,
    ensures
        forall|b: nat| bit <= b && #[trigger] a.model().contains_key(b) ==> b == FATTR4_SIZE || b == FATTR4_MODE,
    decreases ATTR_END - bit,
{
    no_attrs_past_the_end(a);
    if bit < ATTR_END {
        only_size_and_mode(a, bit + 1);
    }
}

/// The bitmap of at most the size and the mode.
proof fn mask_of_settings(m: Map<nat, AttrView>)
    requires
        forall|b: nat| #[trigger] m.contains_key(b) ==> b == FATTR4_SIZE || b == FATTR4_MODE,
    ensures
        word_of(m, 0, 32) == (if m.contains_key(4) { 0x10u32 } else { 0u32 }),
        word_of(m, 32, 32) == (if m.contains_key(33) { 0x2u32 } else { 0u32 }),
{
    sparse_word(m, 0, 32, 4);
    sparse_word(m, 32, 32, 1);
    assert(0u32 | (1u32 << 4u32) == 0x10) by (bit_vector);
    assert(0u32 | (1u32 << 1u32) == 0x2) by (bit_vector);
}

/// The bitmap of at most the size and the mode: attribute 4 is the bit 0x10 of the first
/// word, attribute 33 the bit 0x2 of the second, and words of zeros at the end are left
/// out.
pub proof fn settings_mask(m: Map<nat, AttrView>)
    requires
        forall|b: nat| #[trigger] m.contains_key(b) ==> b == 4 || b == 33,
    ensures
        mask_of(m) == (if m.contains_key(33) {
            seq![if m.contains_key(4) { 0x10u32 } else { 0u32 }, 0x2u32]
        } else if m.contains_key(4) {
            seq![0x10u32]
        } else {
            Seq::empty()
        }),
{
    mask_of_settings(m);
}

/// A word in which at most bit `k` is set.
proof fn sparse_word(m: Map<nat, AttrView>, base: nat, n: nat, k: nat)
    requires
        n <= 32,
        forall|b: nat| base <= b < base + n && #[trigger] m.contains_key(b) ==> b == base + k,
    ensures
        word_of(m, base, n) == (if k < n && m.contains_key(base + k) {
            0u32 | (1u32 << (k as u32))
        } else {
            0
        }),
    decreases n,
{
    if n > 0 {
        sparse_word(m, base, (n - 1) as nat, k);
    }
}

// ---------------------------------------------------------------- what attributes look like

proof fn no_values(m: Map<nat, AttrView>, from: nat)
    requires
        forall|b: nat| from <= b < 56 ==> !#[trigger] m.contains_key(b),
    ensures
        vals_from(m, from) == Seq::<u8>::empty(),
    decreases 56 - from,
{
    if from < 56 {
        no_values(m, from + 1);
    }
}

proof fn skip_values(m: Map<nat, AttrView>, from: nat, to: nat)
    requires
        from <= to <= 56,
        forall|b: nat| from <= b < to ==> !#[trigger] m.contains_key(b),
    ensures
        vals_from(m, from) == vals_from(m, to),
    decreases to - from,
{
    if from < to {
        skip_values(m, from + 1, to);
        assert(Seq::<u8>::empty() + vals_from(m, from + 1) =~= vals_from(m, from + 1));
    }
}

/// Attributes stand on the wire as a bitmap of which there are, and then their values in the
/// order of their numbers, behind the length of them all. Shown of any two.
pub proof fn attributes_stand_in_order(a: nat, b: nat, x: AttrView, y: AttrView)
    requires
        a < b < 56,
    ensures
        ({
            let m = map![a => x, b => y];
            &&& fattr4::encode(m) == Vec::<u32>::encode(mask_of(m)) + Vec::<u8>::encode(x.encode() + y.encode())
            &&& forall|k: nat| k < 64 ==> (is_set(mask_of(m), k) <==> k == a || k == b)
        }),
{
    let m = map![a => x, b => y];
    skip_values(m, 0, a);
    skip_values(m, a + 1, b);
    no_values(m, b + 1);
    assert(vals_from(m, b) == y.encode() + vals_from(m, b + 1));
    assert(vals_from(m, b) =~= y.encode());
    assert(vals_from(m, a) == x.encode() + vals_from(m, a + 1));
    assert forall|k: nat| k < 64 implies (is_set(mask_of(m), k) <==> k == a || k == b) by {
        mask_has_its_bits(m, k);
    }
}

/// The value of a single attribute.
pub proof fn an_attribute_stands_alone(a: nat, x: AttrView)
    requires
        a < 56,
    ensures
        fattr4::encode(map![a => x]) == Vec::<u32>::encode(mask_of(map![a => x])) + Vec::<u8>::encode(x.encode()),
{
    let m = map![a => x];
    skip_values(m, 0, a);
    no_values(m, a + 1);
    assert(vals_from(m, a) == x.encode() + vals_from(m, a + 1));
    assert(vals_from(m, a) =~= x.encode());
}

/// Bit `k` of a bitmap stands for attribute `k`, 32 to a word, the least significant first.
pub proof fn bits_are_counted_from_the_lowest(mask: Seq<u32>, k: nat)
    ensures
        is_set(mask, k) <==> k / 32 < mask.len() && (mask[(k / 32) as int] >> ((k % 32) as u32)) & 1 == 1,
{
}

/// What each kind of value looks like: words, double words and truth values as such, a file
/// system's number as two double words, a device's as two words, a time as seconds and
/// nanoseconds, a type and a status by their numbers, and bytes behind their length.
pub proof fn values_have_their_layout(
    words: Seq<u32>,
    t: ftype4,
    w: u32,
    l: u64,
    f: bool,
    fsid: (u64, u64),
    st: nfsstat4,
    bytes: Seq<u8>,
    device: (u32, u32),
    time: (i64, u32),
)
    ensures
        AttrView::Bitmap(words).encode() == Vec::<u32>::encode(words),
        AttrView::FileType(t).encode() == be32(t.number()),
        AttrView::Word(w).encode() == be32(w),
        AttrView::Long(l).encode() == be64(l),
        AttrView::Flag(f).encode() == be32(if f { 1 } else { 0 }),
        AttrView::Fsid(fsid).encode() == be64(fsid.0) + be64(fsid.1),
        AttrView::Status(st).encode() == be32(st.number()),
        AttrView::Bytes(bytes).encode() == Vec::<u8>::encode(bytes),
        AttrView::Device(device).encode() == be32(device.0) + be32(device.1),
        time.0 >= 0 ==> AttrView::Time(time).encode() == be64(time.0 as u64) + be32(time.1),
{
}

/// Which kind of value each known attribute has.
pub proof fn attributes_have_their_kinds(a: fattr4)
    ensures
        a.attr(0) == (match a.supported_attrs { Some(v) => Some(AttrView::Bitmap(v@)), None => None }),
        a.attr(1) == (match a.ftype { Some(v) => Some(AttrView::FileType(v)), None => None }),
        a.attr(3) == (match a.change { Some(v) => Some(AttrView::Long(v)), None => None }),
        a.attr(4) == (match a.size { Some(v) => Some(AttrView::Long(v)), None => None }),
        a.attr(8) == (match a.fsid { Some(v) => Some(AttrView::Fsid((v.major, v.minor))), None => None }),
        a.attr(11) == (match a.rdattr_error { Some(v) => Some(AttrView::Status(v)), None => None }),
        a.attr(19) == (match a.filehandle { Some(v) => Some(AttrView::Bytes(v.data@)), None => None }),
        a.attr(20) == (match a.fileid { Some(v) => Some(AttrView::Long(v)), None => None }),
        a.attr(33) == (match a.mode { Some(v) => Some(AttrView::Word(v)), None => None }),
        a.attr(35) == (match a.numlinks { Some(v) => Some(AttrView::Word(v)), None => None }),
        a.attr(45) == (match a.space_used { Some(v) => Some(AttrView::Long(v)), None => None }),
        a.attr(18) is None,
        a.attr(24) is None,
        a.attr(56) is None,
{
}

} // verus!
