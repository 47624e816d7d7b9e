//! The arguments and results of the operations on files, directories and open
//! state.

use vstd::prelude::*;

use crate::model::{models, Model};
use crate::nfs::nfsstring;
use crate::nfs4::attr::fattr4;
use crate::nfs4::{
    bitmap4, changeid4, clientid4, component4, count4, linktext4, nfs_fh4, nfsstat4, offset4, seqid4, specdata4,
    stateid4, verifier4,
};
use crate::word::{be32, be32_len};
use crate::xdr::{
    decode_list, deserialize_list, encode_list, items_encodable, list_fits, list_round_trip, list_within,
    serialize_list, tagged_round_trip, Reader, XdrError, XDR,
};

verus! {

broadcast use be32_len;

// ---- constants ----
pub const ACCESS4_READ: u32 = 0x00000001;

pub const ACCESS4_LOOKUP: u32 = 0x00000002;

pub const ACCESS4_MODIFY: u32 = 0x00000004;

pub const ACCESS4_EXTEND: u32 = 0x00000008;

pub const ACCESS4_DELETE: u32 = 0x00000010;

pub const ACCESS4_EXECUTE: u32 = 0x00000020;

pub const OPEN4_SHARE_ACCESS_READ: u32 = 0x00000001;

pub const OPEN4_SHARE_ACCESS_WRITE: u32 = 0x00000002;

pub const OPEN4_RESULT_CONFIRM: u32 = 0x00000002;

/// The tag of a delegation that is not granted.
pub const OPEN_DELEGATE_NONE: u32 = 0;

/// Where a listing is to go on: the fileid of the last entry, or 0.
pub type nfs_cookie4 = u64;

// ---- arguments ----
/// The arguments of ACCESS.
#[derive(Clone, Debug, PartialEq, Eq)]
pub struct ACCESS4args {
    pub access: u32,
}

impl Model for ACCESS4args {
    type M = u32;

    open spec fn model(&self) -> Self::M {
        self.access.model()
    }
}

impl XDR for ACCESS4args {
    open spec fn encodable(m: Self::M) -> bool {
        <u32 as XDR>::encodable(m)
    }

    open spec fn fits(m: Self::M) -> bool {
        <u32 as XDR>::fits(m)
    }

    open spec fn encode(m: Self::M) -> Seq<u8> {
        <u32 as XDR>::encode(m)
    }

    open spec fn decode(b: Seq<u8>) -> Result<(Self::M, nat), XdrError> {
        <u32 as XDR>::decode(b)
    }

    proof fn decode_within(b: Seq<u8>) {
        <u32 as XDR>::decode_within(b);
    }

    proof fn round_trip(m: Self::M, rest: Seq<u8>) {
        <u32 as XDR>::round_trip(m, rest);
    }

    fn serialize(&self, dest: &mut Vec<u8>) {
        self.access.serialize(dest);
        assert(dest@ =~= old(dest)@ + Self::encode(self.model()));
    }

    fn deserialize(src: &mut Reader) -> (r: Result<Self, XdrError>) {
        match <u32 as XDR>::deserialize(src) {
            Ok(access) => Ok(ACCESS4args { access }),
            Err(e) => Err(e),
        }
    }
}

/// The arguments of CLOSE.
#[derive(Clone, Debug, PartialEq, Eq)]
pub struct CLOSE4args {
    pub seqid: seqid4,
    pub open_stateid: stateid4,
}

impl Model for CLOSE4args {
    type M = (u32, <stateid4 as Model>::M);

    open spec fn model(&self) -> Self::M {
        (self.seqid.model(), self.open_stateid.model())
    }
}

impl XDR for CLOSE4args {
    open spec fn encodable(m: Self::M) -> bool {
        <(seqid4, stateid4) as XDR>::encodable(m)
    }

    open spec fn fits(m: Self::M) -> bool {
        <(seqid4, stateid4) as XDR>::fits(m)
    }

    open spec fn encode(m: Self::M) -> Seq<u8> {
        <(seqid4, stateid4) as XDR>::encode(m)
    }

    open spec fn decode(b: Seq<u8>) -> Result<(Self::M, nat), XdrError> {
        <(seqid4, stateid4) as XDR>::decode(b)
    }

    proof fn decode_within(b: Seq<u8>) {
        <(seqid4, stateid4) as XDR>::decode_within(b);
    }

    proof fn round_trip(m: Self::M, rest: Seq<u8>) {
        <(seqid4, stateid4) as XDR>::round_trip(m, rest);
    }

    fn serialize(&self, dest: &mut Vec<u8>) {
        self.seqid.serialize(dest);
        self.open_stateid.serialize(dest);
        assert(dest@ =~= old(dest)@ + Self::encode(self.model()));
    }

    fn deserialize(src: &mut Reader) -> (r: Result<Self, XdrError>) {
        match <(seqid4, stateid4) as XDR>::deserialize(src) {
            Ok((seqid, open_stateid)) => Ok(CLOSE4args { seqid, open_stateid }),
            Err(e) => Err(e),
        }
    }
}

/// The arguments of COMMIT.
#[derive(Clone, Debug, PartialEq, Eq)]
pub struct COMMIT4args {
    pub offset: offset4,
    pub count: count4,
}

impl Model for COMMIT4args {
    type M = (u64, u32);

    open spec fn model(&self) -> Self::M {
        (self.offset.model(), self.count.model())
    }
}

impl XDR for COMMIT4args {
    open spec fn encodable(m: Self::M) -> bool {
        <(offset4, count4) as XDR>::encodable(m)
    }

    open spec fn fits(m: Self::M) -> bool {
        <(offset4, count4) as XDR>::fits(m)
    }

    open spec fn encode(m: Self::M) -> Seq<u8> {
        <(offset4, count4) as XDR>::encode(m)
    }

    open spec fn decode(b: Seq<u8>) -> Result<(Self::M, nat), XdrError> {
        <(offset4, count4) as XDR>::decode(b)
    }

    proof fn decode_within(b: Seq<u8>) {
        <(offset4, count4) as XDR>::decode_within(b);
    }

    proof fn round_trip(m: Self::M, rest: Seq<u8>) {
        <(offset4, count4) as XDR>::round_trip(m, rest);
    }

    fn serialize(&self, dest: &mut Vec<u8>) {
        self.offset.serialize(dest);
        self.count.serialize(dest);
        assert(dest@ =~= old(dest)@ + Self::encode(self.model()));
    }

    fn deserialize(src: &mut Reader) -> (r: Result<Self, XdrError>) {
        match <(offset4, count4) as XDR>::deserialize(src) {
            Ok((offset, count)) => Ok(COMMIT4args { offset, count }),
            Err(e) => Err(e),
        }
    }
}

/// What CREATE is to make.
#[derive(Clone, Debug, PartialEq, Eq)]
pub enum createtype4 {
    Regular,
    Directory,
    Block(specdata4),
    Character(specdata4),
    /// With its target.
    Link(linktext4),
    Socket,
    Fifo,
    AttrDir,
    NamedAttr,
}

/// What a value of `createtype4` stands for.
pub enum CreateTypeView {
    Regular,
    Directory,
    Block(<specdata4 as Model>::M),
    Character(<specdata4 as Model>::M),
    Link(Seq<u8>),
    Socket,
    Fifo,
    AttrDir,
    NamedAttr,
}

impl Model for createtype4 {
    type M = CreateTypeView;

    open spec fn model(&self) -> CreateTypeView {
        match self {
            createtype4::Regular => CreateTypeView::Regular,
            createtype4::Directory => CreateTypeView::Directory,
            createtype4::Block(a) => CreateTypeView::Block(a.model()),
            createtype4::Character(a) => CreateTypeView::Character(a.model()),
            createtype4::Link(a) => CreateTypeView::Link(a.model()),
            createtype4::Socket => CreateTypeView::Socket,
            createtype4::Fifo => CreateTypeView::Fifo,
            createtype4::AttrDir => CreateTypeView::AttrDir,
            createtype4::NamedAttr => CreateTypeView::NamedAttr,
        }
    }
}

impl XDR for createtype4 {
    open spec fn encodable(m: CreateTypeView) -> bool {
        match m {
            CreateTypeView::Regular => true,
            CreateTypeView::Directory => true,
            CreateTypeView::Block(a) => <specdata4 as XDR>::encodable(a),
            CreateTypeView::Character(a) => <specdata4 as XDR>::encodable(a),
            CreateTypeView::Link(a) => <linktext4 as XDR>::encodable(a),
            CreateTypeView::Socket => true,
            CreateTypeView::Fifo => true,
            CreateTypeView::AttrDir => true,
            CreateTypeView::NamedAttr => true,
        }
    }

    open spec fn fits(m: CreateTypeView) -> bool {
        match m {
            CreateTypeView::Regular => true,
            CreateTypeView::Directory => true,
            CreateTypeView::Block(a) => <specdata4 as XDR>::fits(a),
            CreateTypeView::Character(a) => <specdata4 as XDR>::fits(a),
            CreateTypeView::Link(a) => <linktext4 as XDR>::fits(a),
            CreateTypeView::Socket => true,
            CreateTypeView::Fifo => true,
            CreateTypeView::AttrDir => true,
            CreateTypeView::NamedAttr => true,
        }
    }

    open spec fn encode(m: CreateTypeView) -> Seq<u8> {
        match m {
            CreateTypeView::Regular => be32(1),
            CreateTypeView::Directory => be32(2),
            CreateTypeView::Block(a) => be32(3) + <specdata4 as XDR>::encode(a),
            CreateTypeView::Character(a) => be32(4) + <specdata4 as XDR>::encode(a),
            CreateTypeView::Link(a) => be32(5) + <linktext4 as XDR>::encode(a),
            CreateTypeView::Socket => be32(6),
            CreateTypeView::Fifo => be32(7),
            CreateTypeView::AttrDir => be32(8),
            CreateTypeView::NamedAttr => be32(9),
        }
    }

    open spec fn decode(b: Seq<u8>) -> Result<(CreateTypeView, nat), XdrError> {
        match u32::decode(b) {
            Err(e) => Err(e),
            Ok((tag, n)) => if tag == 1 {
                Ok((CreateTypeView::Regular, n))
            } else if tag == 2 {
                Ok((CreateTypeView::Directory, n))
            } else if tag == 3 {
                match <specdata4 as XDR>::decode(b.skip(4)) {
                    Ok((x, k)) => Ok((CreateTypeView::Block(x), n + k)),
                    Err(e) => Err(e),
                }
            } else if tag == 4 {
                match <specdata4 as XDR>::decode(b.skip(4)) {
                    Ok((x, k)) => Ok((CreateTypeView::Character(x), n + k)),
                    Err(e) => Err(e),
                }
            } else if tag == 5 {
                match <linktext4 as XDR>::decode(b.skip(4)) {
                    Ok((x, k)) => Ok((CreateTypeView::Link(x), n + k)),
                    Err(e) => Err(e),
                }
            } else if tag == 6 {
                Ok((CreateTypeView::Socket, n))
            } else if tag == 7 {
                Ok((CreateTypeView::Fifo, n))
            } else if tag == 8 {
                Ok((CreateTypeView::AttrDir, n))
            } else if tag == 9 {
                Ok((CreateTypeView::NamedAttr, n))
            } else {
                Err(XdrError::InvalidData)
            },
        }
    }

    proof fn decode_within(b: Seq<u8>) {
        u32::decode_within(b);
        <specdata4 as XDR>::decode_within(b.skip(4));
        <linktext4 as XDR>::decode_within(b.skip(4));
    }

    proof fn round_trip(m: CreateTypeView, rest: Seq<u8>) {
        match m {
            CreateTypeView::Regular => u32::round_trip(1, rest),
            CreateTypeView::Directory => u32::round_trip(2, rest),
            CreateTypeView::Block(a) => {
                tagged_round_trip::<specdata4>(3, a, rest);
            },
            CreateTypeView::Character(a) => {
                tagged_round_trip::<specdata4>(4, a, rest);
            },
            CreateTypeView::Link(a) => {
                tagged_round_trip::<linktext4>(5, a, rest);
            },
            CreateTypeView::Socket => u32::round_trip(6, rest),
            CreateTypeView::Fifo => u32::round_trip(7, rest),
            CreateTypeView::AttrDir => u32::round_trip(8, rest),
            CreateTypeView::NamedAttr => u32::round_trip(9, rest),
        }
    }

    fn serialize(&self, dest: &mut Vec<u8>) {
        match self {
            createtype4::Regular => 1u32.serialize(dest),
            createtype4::Directory => 2u32.serialize(dest),
            createtype4::Block(a) => {
                3u32.serialize(dest);
                a.serialize(dest);
                assert(dest@ =~= old(dest)@ + Self::encode(self.model()));
            },
            createtype4::Character(a) => {
                4u32.serialize(dest);
                a.serialize(dest);
                assert(dest@ =~= old(dest)@ + Self::encode(self.model()));
            },
            createtype4::Link(a) => {
                5u32.serialize(dest);
                a.serialize(dest);
                assert(dest@ =~= old(dest)@ + Self::encode(self.model()));
            },
            createtype4::Socket => 6u32.serialize(dest),
            createtype4::Fifo => 7u32.serialize(dest),
            createtype4::AttrDir => 8u32.serialize(dest),
            createtype4::NamedAttr => 9u32.serialize(dest),
        }
    }

    fn deserialize(src: &mut Reader) -> (r: Result<Self, XdrError>) {
        let ghost b = src.rest();
        let tag: u32 = match u32::deserialize(src) {
            Ok(v) => v,
            Err(e) => return Err(e),
        };
        if tag == 1 {
            return Ok(createtype4::Regular);
        }
        if tag == 2 {
            return Ok(createtype4::Directory);
        }
        if tag == 3 {
            proof {
                <specdata4 as XDR>::decode_within(b.skip(4));
                if let Ok((_, k)) = <specdata4 as XDR>::decode(b.skip(4)) {
                    assert(b.skip(4).skip(k as int) =~= b.skip((4 + k) as int));
                }
            }
            return match <specdata4 as XDR>::deserialize(src) {
                Ok(a) => Ok(createtype4::Block(a)),
                Err(e) => Err(e),
            };
        }
        if tag == 4 {
            proof {
                <specdata4 as XDR>::decode_within(b.skip(4));
                if let Ok((_, k)) = <specdata4 as XDR>::decode(b.skip(4)) {
                    assert(b.skip(4).skip(k as int) =~= b.skip((4 + k) as int));
                }
            }
            return match <specdata4 as XDR>::deserialize(src) {
                Ok(a) => Ok(createtype4::Character(a)),
                Err(e) => Err(e),
            };
        }
        if tag == 5 {
            proof {
                <linktext4 as XDR>::decode_within(b.skip(4));
                if let Ok((_, k)) = <linktext4 as XDR>::decode(b.skip(4)) {
                    assert(b.skip(4).skip(k as int) =~= b.skip((4 + k) as int));
                }
            }
            return match <linktext4 as XDR>::deserialize(src) {
                Ok(a) => Ok(createtype4::Link(a)),
                Err(e) => Err(e),
            };
        }
        if tag == 6 {
            return Ok(createtype4::Socket);
        }
        if tag == 7 {
            return Ok(createtype4::Fifo);
        }
        if tag == 8 {
            return Ok(createtype4::AttrDir);
        }
        if tag == 9 {
            return Ok(createtype4::NamedAttr);
        }
        Err(XdrError::InvalidData)
    }
}

/// The arguments of CREATE.
#[derive(Clone, Debug, PartialEq, Eq)]
pub struct CREATE4args {
    pub objtype: createtype4,
    pub objname: component4,
    pub createattrs: fattr4,
}

impl Model for CREATE4args {
    type M = (<createtype4 as Model>::M, (Seq<u8>, <fattr4 as Model>::M));

    open spec fn model(&self) -> Self::M {
        (self.objtype.model(), (self.objname.model(), self.createattrs.model()))
    }
}

impl XDR for CREATE4args {
    open spec fn encodable(m: Self::M) -> bool {
        <(createtype4, (component4, fattr4)) as XDR>::encodable(m)
    }

    open spec fn fits(m: Self::M) -> bool {
        <(createtype4, (component4, fattr4)) as XDR>::fits(m)
    }

    open spec fn encode(m: Self::M) -> Seq<u8> {
        <(createtype4, (component4, fattr4)) as XDR>::encode(m)
    }

    open spec fn decode(b: Seq<u8>) -> Result<(Self::M, nat), XdrError> {
        <(createtype4, (component4, fattr4)) as XDR>::decode(b)
    }

    proof fn decode_within(b: Seq<u8>) {
        <(createtype4, (component4, fattr4)) as XDR>::decode_within(b);
    }

    proof fn round_trip(m: Self::M, rest: Seq<u8>) {
        <(createtype4, (component4, fattr4)) as XDR>::round_trip(m, rest);
    }

    fn serialize(&self, dest: &mut Vec<u8>) {
        self.objtype.serialize(dest);
        self.objname.serialize(dest);
        self.createattrs.serialize(dest);
        assert(dest@ =~= old(dest)@ + Self::encode(self.model()));
    }

    fn deserialize(src: &mut Reader) -> (r: Result<Self, XdrError>) {
        match <(createtype4, (component4, fattr4)) as XDR>::deserialize(src) {
            Ok((objtype, (objname, createattrs))) => Ok(CREATE4args { objtype, objname, createattrs }),
            Err(e) => Err(e),
        }
    }
}

/// The arguments of GETATTR.
#[derive(Clone, Debug, PartialEq, Eq)]
pub struct GETATTR4args {
    pub attr_request: bitmap4,
}

impl Model for GETATTR4args {
    type M = Seq<u32>;

    open spec fn model(&self) -> Self::M {
        self.attr_request.model()
    }
}

impl XDR for GETATTR4args {
    open spec fn encodable(m: Self::M) -> bool {
        <bitmap4 as XDR>::encodable(m)
    }

    open spec fn fits(m: Self::M) -> bool {
        <bitmap4 as XDR>::fits(m)
    }

    open spec fn encode(m: Self::M) -> Seq<u8> {
        <bitmap4 as XDR>::encode(m)
    }

    open spec fn decode(b: Seq<u8>) -> Result<(Self::M, nat), XdrError> {
        <bitmap4 as XDR>::decode(b)
    }

    proof fn decode_within(b: Seq<u8>) {
        <bitmap4 as XDR>::decode_within(b);
    }

    proof fn round_trip(m: Self::M, rest: Seq<u8>) {
        <bitmap4 as XDR>::round_trip(m, rest);
    }

    fn serialize(&self, dest: &mut Vec<u8>) {
        self.attr_request.serialize(dest);
        assert(dest@ =~= old(dest)@ + Self::encode(self.model()));
    }

    fn deserialize(src: &mut Reader) -> (r: Result<Self, XdrError>) {
        match <bitmap4 as XDR>::deserialize(src) {
            Ok(attr_request) => Ok(GETATTR4args { attr_request }),
            Err(e) => Err(e),
        }
    }
}

/// The arguments of LOOKUP.
#[derive(Clone, Debug, PartialEq, Eq)]
pub struct LOOKUP4args {
    pub objname: component4,
}

impl Model for LOOKUP4args {
    type M = Seq<u8>;

    open spec fn model(&self) -> Self::M {
        self.objname.model()
    }
}

impl XDR for LOOKUP4args {
    open spec fn encodable(m: Self::M) -> bool {
        <component4 as XDR>::encodable(m)
    }

    open spec fn fits(m: Self::M) -> bool {
        <component4 as XDR>::fits(m)
    }

    open spec fn encode(m: Self::M) -> Seq<u8> {
        <component4 as XDR>::encode(m)
    }

    open spec fn decode(b: Seq<u8>) -> Result<(Self::M, nat), XdrError> {
        <component4 as XDR>::decode(b)
    }

    proof fn decode_within(b: Seq<u8>) {
        <component4 as XDR>::decode_within(b);
    }

    proof fn round_trip(m: Self::M, rest: Seq<u8>) {
        <component4 as XDR>::round_trip(m, rest);
    }

    fn serialize(&self, dest: &mut Vec<u8>) {
        self.objname.serialize(dest);
        assert(dest@ =~= old(dest)@ + Self::encode(self.model()));
    }

    fn deserialize(src: &mut Reader) -> (r: Result<Self, XdrError>) {
        match <component4 as XDR>::deserialize(src) {
            Ok(objname) => Ok(LOOKUP4args { objname }),
            Err(e) => Err(e),
        }
    }
}

/// state_owner4: a client, and an owner of that client.
#[derive(Clone, Debug, PartialEq, Eq)]
pub struct state_owner4 {
    pub clientid: clientid4,
    pub owner: Vec<u8>,
}

impl Model for state_owner4 {
    type M = (u64, Seq<u8>);

    open spec fn model(&self) -> Self::M {
        (self.clientid.model(), self.owner.model())
    }
}

impl XDR for state_owner4 {
    open spec fn encodable(m: Self::M) -> bool {
        <(clientid4, Vec<u8>) as XDR>::encodable(m)
    }

    open spec fn fits(m: Self::M) -> bool {
        <(clientid4, Vec<u8>) as XDR>::fits(m)
    }

    open spec fn encode(m: Self::M) -> Seq<u8> {
        <(clientid4, Vec<u8>) as XDR>::encode(m)
    }

    open spec fn decode(b: Seq<u8>) -> Result<(Self::M, nat), XdrError> {
        <(clientid4, Vec<u8>) as XDR>::decode(b)
    }

    proof fn decode_within(b: Seq<u8>) {
        <(clientid4, Vec<u8>) as XDR>::decode_within(b);
    }

    proof fn round_trip(m: Self::M, rest: Seq<u8>) {
        <(clientid4, Vec<u8>) as XDR>::round_trip(m, rest);
    }

    fn serialize(&self, dest: &mut Vec<u8>) {
        self.clientid.serialize(dest);
        self.owner.serialize(dest);
        assert(dest@ =~= old(dest)@ + Self::encode(self.model()));
    }

    fn deserialize(src: &mut Reader) -> (r: Result<Self, XdrError>) {
        match <(clientid4, Vec<u8>) as XDR>::deserialize(src) {
            Ok((clientid, owner)) => Ok(state_owner4 { clientid, owner }),
            Err(e) => Err(e),
        }
    }
}

/// How OPEN is to create a file.
#[derive(Clone, Debug, PartialEq, Eq)]
pub enum createhow4 {
    UNCHECKED4(fattr4),
    GUARDED4(fattr4),
    EXCLUSIVE4(verifier4),
    EXCLUSIVE4_1(verifier4, fattr4),
}

/// What a value of `createhow4` stands for.
pub enum CreateHowView {
    UNCHECKED4(<fattr4 as Model>::M),
    GUARDED4(<fattr4 as Model>::M),
    EXCLUSIVE4(verifier4),
    EXCLUSIVE4_1(verifier4, <fattr4 as Model>::M),
}

impl Model for createhow4 {
    type M = CreateHowView;

    open spec fn model(&self) -> CreateHowView {
        match self {
            createhow4::UNCHECKED4(a) => CreateHowView::UNCHECKED4(a.model()),
            createhow4::GUARDED4(a) => CreateHowView::GUARDED4(a.model()),
            createhow4::EXCLUSIVE4(a) => CreateHowView::EXCLUSIVE4(a.model()),
            createhow4::EXCLUSIVE4_1(a, b) => CreateHowView::EXCLUSIVE4_1(a.model(), b.model()),
        }
    }
}

impl XDR for createhow4 {
    open spec fn encodable(m: CreateHowView) -> bool {
        match m {
            CreateHowView::UNCHECKED4(a) => <fattr4 as XDR>::encodable(a),
            CreateHowView::GUARDED4(a) => <fattr4 as XDR>::encodable(a),
            CreateHowView::EXCLUSIVE4(a) => <verifier4 as XDR>::encodable(a),
            CreateHowView::EXCLUSIVE4_1(a, b) => <(verifier4, fattr4) as XDR>::encodable((a, b)),
        }
    }

    open spec fn fits(m: CreateHowView) -> bool {
        match m {
            CreateHowView::UNCHECKED4(a) => <fattr4 as XDR>::fits(a),
            CreateHowView::GUARDED4(a) => <fattr4 as XDR>::fits(a),
            CreateHowView::EXCLUSIVE4(a) => <verifier4 as XDR>::fits(a),
            CreateHowView::EXCLUSIVE4_1(a, b) => <(verifier4, fattr4) as XDR>::fits((a, b)),
        }
    }

    open spec fn encode(m: CreateHowView) -> Seq<u8> {
        match m {
            CreateHowView::UNCHECKED4(a) => be32(0) + <fattr4 as XDR>::encode(a),
            CreateHowView::GUARDED4(a) => be32(1) + <fattr4 as XDR>::encode(a),
            CreateHowView::EXCLUSIVE4(a) => be32(2) + <verifier4 as XDR>::encode(a),
            CreateHowView::EXCLUSIVE4_1(a, b) => be32(3) + <(verifier4, fattr4) as XDR>::encode((a, b)),
        }
    }

    open spec fn decode(b: Seq<u8>) -> Result<(CreateHowView, nat), XdrError> {
        match u32::decode(b) {
            Err(e) => Err(e),
            Ok((tag, n)) => if tag == 0 {
                match <fattr4 as XDR>::decode(b.skip(4)) {
                    Ok((x, k)) => Ok((CreateHowView::UNCHECKED4(x), n + k)),
                    Err(e) => Err(e),
                }
            } else if tag == 1 {
                match <fattr4 as XDR>::decode(b.skip(4)) {
                    Ok((x, k)) => Ok((CreateHowView::GUARDED4(x), n + k)),
                    Err(e) => Err(e),
                }
            } else if tag == 2 {
                match <verifier4 as XDR>::decode(b.skip(4)) {
                    Ok((x, k)) => Ok((CreateHowView::EXCLUSIVE4(x), n + k)),
                    Err(e) => Err(e),
                }
            } else if tag == 3 {
                match <(verifier4, fattr4) as XDR>::decode(b.skip(4)) {
                    Ok((x, k)) => Ok((CreateHowView::EXCLUSIVE4_1(x.0, x.1), n + k)),
                    Err(e) => Err(e),
                }
            } else {
                Err(XdrError::InvalidData)
            },
        }
    }

    proof fn decode_within(b: Seq<u8>) {
        u32::decode_within(b);
        <fattr4 as XDR>::decode_within(b.skip(4));
        <verifier4 as XDR>::decode_within(b.skip(4));
        <(verifier4, fattr4) as XDR>::decode_within(b.skip(4));
    }

    proof fn round_trip(m: CreateHowView, rest: Seq<u8>) {
        match m {
            CreateHowView::UNCHECKED4(a) => {
                tagged_round_trip::<fattr4>(0, a, rest);
            },
            CreateHowView::GUARDED4(a) => {
                tagged_round_trip::<fattr4>(1, a, rest);
            },
            CreateHowView::EXCLUSIVE4(a) => {
                tagged_round_trip::<verifier4>(2, a, rest);
            },
            CreateHowView::EXCLUSIVE4_1(a, b) => {
                tagged_round_trip::<(verifier4, fattr4)>(3, (a, b), rest);
            },
        }
    }

    fn serialize(&self, dest: &mut Vec<u8>) {
        match self {
            createhow4::UNCHECKED4(a) => {
                0u32.serialize(dest);
                a.serialize(dest);
                assert(dest@ =~= old(dest)@ + Self::encode(self.model()));
            },
            createhow4::GUARDED4(a) => {
                1u32.serialize(dest);
                a.serialize(dest);
                assert(dest@ =~= old(dest)@ + Self::encode(self.model()));
            },
            createhow4::EXCLUSIVE4(a) => {
                2u32.serialize(dest);
                a.serialize(dest);
                assert(dest@ =~= old(dest)@ + Self::encode(self.model()));
            },
            createhow4::EXCLUSIVE4_1(a, b) => {
                3u32.serialize(dest);
                a.serialize(dest);
                b.serialize(dest);
                assert(dest@ =~= old(dest)@ + Self::encode(self.model()));
            },
        }
    }

    fn deserialize(src: &mut Reader) -> (r: Result<Self, XdrError>) {
        let ghost b = src.rest();
        let tag: u32 = match u32::deserialize(src) {
            Ok(v) => v,
            Err(e) => return Err(e),
        };
        if tag == 0 {
            proof {
                <fattr4 as XDR>::decode_within(b.skip(4));
                if let Ok((_, k)) = <fattr4 as XDR>::decode(b.skip(4)) {
                    assert(b.skip(4).skip(k as int) =~= b.skip((4 + k) as int));
                }
            }
            return match <fattr4 as XDR>::deserialize(src) {
                Ok(a) => Ok(createhow4::UNCHECKED4(a)),
                Err(e) => Err(e),
            };
        }
        if tag == 1 {
            proof {
                <fattr4 as XDR>::decode_within(b.skip(4));
                if let Ok((_, k)) = <fattr4 as XDR>::decode(b.skip(4)) {
                    assert(b.skip(4).skip(k as int) =~= b.skip((4 + k) as int));
                }
            }
            return match <fattr4 as XDR>::deserialize(src) {
                Ok(a) => Ok(createhow4::GUARDED4(a)),
                Err(e) => Err(e),
            };
        }
        if tag == 2 {
            proof {
                <verifier4 as XDR>::decode_within(b.skip(4));
                if let Ok((_, k)) = <verifier4 as XDR>::decode(b.skip(4)) {
                    assert(b.skip(4).skip(k as int) =~= b.skip((4 + k) as int));
                }
            }
            return match <verifier4 as XDR>::deserialize(src) {
                Ok(a) => Ok(createhow4::EXCLUSIVE4(a)),
                Err(e) => Err(e),
            };
        }
        if tag == 3 {
            proof {
                <(verifier4, fattr4) as XDR>::decode_within(b.skip(4));
                if let Ok((_, k)) = <(verifier4, fattr4) as XDR>::decode(b.skip(4)) {
                    assert(b.skip(4).skip(k as int) =~= b.skip((4 + k) as int));
                }
            }
            return match <(verifier4, fattr4) as XDR>::deserialize(src) {
                Ok((a, b)) => Ok(createhow4::EXCLUSIVE4_1(a, b)),
                Err(e) => Err(e),
            };
        }
        Err(XdrError::InvalidData)
    }
}

/// Whether OPEN is to create a file that is not there.
#[derive(Clone, Debug, PartialEq, Eq)]
pub enum openflag4 {
    OPEN4_NOCREATE,
    OPEN4_CREATE(createhow4),
}

/// What a value of `openflag4` stands for.
pub enum OpenFlagView {
    OPEN4_NOCREATE,
    OPEN4_CREATE(<createhow4 as Model>::M),
}

impl Model for openflag4 {
    type M = OpenFlagView;

    open spec fn model(&self) -> OpenFlagView {
        match self {
            openflag4::OPEN4_NOCREATE => OpenFlagView::OPEN4_NOCREATE,
            openflag4::OPEN4_CREATE(a) => OpenFlagView::OPEN4_CREATE(a.model()),
        }
    }
}

impl XDR for openflag4 {
    open spec fn encodable(m: OpenFlagView) -> bool {
        match m {
            OpenFlagView::OPEN4_NOCREATE => true,
            OpenFlagView::OPEN4_CREATE(a) => <createhow4 as XDR>::encodable(a),
        }
    }

    open spec fn fits(m: OpenFlagView) -> bool {
        match m {
            OpenFlagView::OPEN4_NOCREATE => true,
            OpenFlagView::OPEN4_CREATE(a) => <createhow4 as XDR>::fits(a),
        }
    }

    open spec fn encode(m: OpenFlagView) -> Seq<u8> {
        match m {
            OpenFlagView::OPEN4_NOCREATE => be32(0),
            OpenFlagView::OPEN4_CREATE(a) => be32(1) + <createhow4 as XDR>::encode(a),
        }
    }

    open spec fn decode(b: Seq<u8>) -> Result<(OpenFlagView, nat), XdrError> {
        match u32::decode(b) {
            Err(e) => Err(e),
            Ok((tag, n)) => if tag == 0 {
                Ok((OpenFlagView::OPEN4_NOCREATE, n))
            } else if tag == 1 {
                match <createhow4 as XDR>::decode(b.skip(4)) {
                    Ok((x, k)) => Ok((OpenFlagView::OPEN4_CREATE(x), n + k)),
                    Err(e) => Err(e),
                }
            } else {
                Err(XdrError::InvalidData)
            },
        }
    }

    proof fn decode_within(b: Seq<u8>) {
        u32::decode_within(b);
        <createhow4 as XDR>::decode_within(b.skip(4));
    }

    proof fn round_trip(m: OpenFlagView, rest: Seq<u8>) {
        match m {
            OpenFlagView::OPEN4_NOCREATE => u32::round_trip(0, rest),
            OpenFlagView::OPEN4_CREATE(a) => {
                tagged_round_trip::<createhow4>(1, a, rest);
            },
        }
    }

    fn serialize(&self, dest: &mut Vec<u8>) {
        match self {
            openflag4::OPEN4_NOCREATE => 0u32.serialize(dest),
            openflag4::OPEN4_CREATE(a) => {
                1u32.serialize(dest);
                a.serialize(dest);
                assert(dest@ =~= old(dest)@ + Self::encode(self.model()));
            },
        }
    }

    fn deserialize(src: &mut Reader) -> (r: Result<Self, XdrError>) {
        let ghost b = src.rest();
        let tag: u32 = match u32::deserialize(src) {
            Ok(v) => v,
            Err(e) => return Err(e),
        };
        if tag == 0 {
            return Ok(openflag4::OPEN4_NOCREATE);
        }
        if tag == 1 {
            proof {
                <createhow4 as XDR>::decode_within(b.skip(4));
                if let Ok((_, k)) = <createhow4 as XDR>::decode(b.skip(4)) {
                    assert(b.skip(4).skip(k as int) =~= b.skip((4 + k) as int));
                }
            }
            return match <createhow4 as XDR>::deserialize(src) {
                Ok(a) => Ok(openflag4::OPEN4_CREATE(a)),
                Err(e) => Err(e),
            };
        }
        Err(XdrError::InvalidData)
    }
}

/// What OPEN is to open.
#[derive(Clone, Debug, PartialEq, Eq)]
pub enum open_claim4 {
    /// A name in the current directory.
    CLAIM_NULL(component4),
    /// A file that was open before the server restarted.
    CLAIM_PREVIOUS(u32),
    CLAIM_DELEGATE_CUR(stateid4, component4),
    CLAIM_DELEGATE_PREV(component4),
    /// The current filehandle.
    CLAIM_FH,
    CLAIM_DELEG_CUR_FH(stateid4),
    CLAIM_DELEG_PREV_FH,
}

/// What a value of `open_claim4` stands for.
pub enum OpenClaimView {
    CLAIM_NULL(Seq<u8>),
    CLAIM_PREVIOUS(u32),
    CLAIM_DELEGATE_CUR(<stateid4 as Model>::M, Seq<u8>),
    CLAIM_DELEGATE_PREV(Seq<u8>),
    CLAIM_FH,
    CLAIM_DELEG_CUR_FH(<stateid4 as Model>::M),
    CLAIM_DELEG_PREV_FH,
}

impl Model for open_claim4 {
    type M = OpenClaimView;

    open spec fn model(&self) -> OpenClaimView {
        match self {
            open_claim4::CLAIM_NULL(a) => OpenClaimView::CLAIM_NULL(a.model()),
            open_claim4::CLAIM_PREVIOUS(a) => OpenClaimView::CLAIM_PREVIOUS(a.model()),
            open_claim4::CLAIM_DELEGATE_CUR(a, b) => OpenClaimView::CLAIM_DELEGATE_CUR(a.model(), b.model()),
            open_claim4::CLAIM_DELEGATE_PREV(a) => OpenClaimView::CLAIM_DELEGATE_PREV(a.model()),
            open_claim4::CLAIM_FH => OpenClaimView::CLAIM_FH,
            open_claim4::CLAIM_DELEG_CUR_FH(a) => OpenClaimView::CLAIM_DELEG_CUR_FH(a.model()),
            open_claim4::CLAIM_DELEG_PREV_FH => OpenClaimView::CLAIM_DELEG_PREV_FH,
        }
    }
}

impl XDR for open_claim4 {
    open spec fn encodable(m: OpenClaimView) -> bool {
        match m {
            OpenClaimView::CLAIM_NULL(a) => <component4 as XDR>::encodable(a),
            OpenClaimView::CLAIM_PREVIOUS(a) => <u32 as XDR>::encodable(a),
            OpenClaimView::CLAIM_DELEGATE_CUR(a, b) => <(stateid4, component4) as XDR>::encodable((a, b)),
            OpenClaimView::CLAIM_DELEGATE_PREV(a) => <component4 as XDR>::encodable(a),
            OpenClaimView::CLAIM_FH => true,
            OpenClaimView::CLAIM_DELEG_CUR_FH(a) => <stateid4 as XDR>::encodable(a),
            OpenClaimView::CLAIM_DELEG_PREV_FH => true,
        }
    }

    open spec fn fits(m: OpenClaimView) -> bool {
        match m {
            OpenClaimView::CLAIM_NULL(a) => <component4 as XDR>::fits(a),
            OpenClaimView::CLAIM_PREVIOUS(a) => <u32 as XDR>::fits(a),
            OpenClaimView::CLAIM_DELEGATE_CUR(a, b) => <(stateid4, component4) as XDR>::fits((a, b)),
            OpenClaimView::CLAIM_DELEGATE_PREV(a) => <component4 as XDR>::fits(a),
            OpenClaimView::CLAIM_FH => true,
            OpenClaimView::CLAIM_DELEG_CUR_FH(a) => <stateid4 as XDR>::fits(a),
            OpenClaimView::CLAIM_DELEG_PREV_FH => true,
        }
    }

    open spec fn encode(m: OpenClaimView) -> Seq<u8> {
        match m {
            OpenClaimView::CLAIM_NULL(a) => be32(0) + <component4 as XDR>::encode(a),
            OpenClaimView::CLAIM_PREVIOUS(a) => be32(1) + <u32 as XDR>::encode(a),
            OpenClaimView::CLAIM_DELEGATE_CUR(a, b) => be32(2) + <(stateid4, component4) as XDR>::encode((a, b)),
            OpenClaimView::CLAIM_DELEGATE_PREV(a) => be32(3) + <component4 as XDR>::encode(a),
            OpenClaimView::CLAIM_FH => be32(4),
            OpenClaimView::CLAIM_DELEG_CUR_FH(a) => be32(5) + <stateid4 as XDR>::encode(a),
            OpenClaimView::CLAIM_DELEG_PREV_FH => be32(6),
        }
    }

    open spec fn decode(b: Seq<u8>) -> Result<(OpenClaimView, nat), XdrError> {
        match u32::decode(b) {
            Err(e) => Err(e),
            Ok((tag, n)) => if tag == 0 {
                match <component4 as XDR>::decode(b.skip(4)) {
                    Ok((x, k)) => Ok((OpenClaimView::CLAIM_NULL(x), n + k)),
                    Err(e) => Err(e),
                }
            } else if tag == 1 {
                match <u32 as XDR>::decode(b.skip(4)) {
                    Ok((x, k)) => Ok((OpenClaimView::CLAIM_PREVIOUS(x), n + k)),
                    Err(e) => Err(e),
                }
            } else if tag == 2 {
                match <(stateid4, component4) as XDR>::decode(b.skip(4)) {
                    Ok((x, k)) => Ok((OpenClaimView::CLAIM_DELEGATE_CUR(x.0, x.1), n + k)),
                    Err(e) => Err(e),
                }
            } else if tag == 3 {
                match <component4 as XDR>::decode(b.skip(4)) {
                    Ok((x, k)) => Ok((OpenClaimView::CLAIM_DELEGATE_PREV(x), n + k)),
                    Err(e) => Err(e),
                }
            } else if tag == 4 {
                Ok((OpenClaimView::CLAIM_FH, n))
            } else if tag == 5 {
                match <stateid4 as XDR>::decode(b.skip(4)) {
                    Ok((x, k)) => Ok((OpenClaimView::CLAIM_DELEG_CUR_FH(x), n + k)),
                    Err(e) => Err(e),
                }
            } else if tag == 6 {
                Ok((OpenClaimView::CLAIM_DELEG_PREV_FH, n))
            } else {
                Err(XdrError::InvalidData)
            },
        }
    }

    proof fn decode_within(b: Seq<u8>) {
        u32::decode_within(b);
        <component4 as XDR>::decode_within(b.skip(4));
        <u32 as XDR>::decode_within(b.skip(4));
        <(stateid4, component4) as XDR>::decode_within(b.skip(4));
        <stateid4 as XDR>::decode_within(b.skip(4));
    }

    proof fn round_trip(m: OpenClaimView, rest: Seq<u8>) {
        match m {
            OpenClaimView::CLAIM_NULL(a) => {
                tagged_round_trip::<component4>(0, a, rest);
            },
            OpenClaimView::CLAIM_PREVIOUS(a) => {
                tagged_round_trip::<u32>(1, a, rest);
            },
            OpenClaimView::CLAIM_DELEGATE_CUR(a, b) => {
                tagged_round_trip::<(stateid4, component4)>(2, (a, b), rest);
            },
            OpenClaimView::CLAIM_DELEGATE_PREV(a) => {
                tagged_round_trip::<component4>(3, a, rest);
            },
            OpenClaimView::CLAIM_FH => u32::round_trip(4, rest),
            OpenClaimView::CLAIM_DELEG_CUR_FH(a) => {
                tagged_round_trip::<stateid4>(5, a, rest);
            },
            OpenClaimView::CLAIM_DELEG_PREV_FH => u32::round_trip(6, rest),
        }
    }

    fn serialize(&self, dest: &mut Vec<u8>) {
        match self {
            open_claim4::CLAIM_NULL(a) => {
                0u32.serialize(dest);
                a.serialize(dest);
                assert(dest@ =~= old(dest)@ + Self::encode(self.model()));
            },
            open_claim4::CLAIM_PREVIOUS(a) => {
                1u32.serialize(dest);
                a.serialize(dest);
                assert(dest@ =~= old(dest)@ + Self::encode(self.model()));
            },
            open_claim4::CLAIM_DELEGATE_CUR(a, b) => {
                2u32.serialize(dest);
                a.serialize(dest);
                b.serialize(dest);
                assert(dest@ =~= old(dest)@ + Self::encode(self.model()));
            },
            open_claim4::CLAIM_DELEGATE_PREV(a) => {
                3u32.serialize(dest);
                a.serialize(dest);
                assert(dest@ =~= old(dest)@ + Self::encode(self.model()));
            },
            open_claim4::CLAIM_FH => 4u32.serialize(dest),
            open_claim4::CLAIM_DELEG_CUR_FH(a) => {
                5u32.serialize(dest);
                a.serialize(dest);
                assert(dest@ =~= old(dest)@ + Self::encode(self.model()));
            },
            open_claim4::CLAIM_DELEG_PREV_FH => 6u32.serialize(dest),
        }
    }

    fn deserialize(src: &mut Reader) -> (r: Result<Self, XdrError>) {
        let ghost b = src.rest();
        let tag: u32 = match u32::deserialize(src) {
            Ok(v) => v,
            Err(e) => return Err(e),
        };
        if tag == 0 {
            proof {
                <component4 as XDR>::decode_within(b.skip(4));
                if let Ok((_, k)) = <component4 as XDR>::decode(b.skip(4)) {
                    assert(b.skip(4).skip(k as int) =~= b.skip((4 + k) as int));
                }
            }
            return match <component4 as XDR>::deserialize(src) {
                Ok(a) => Ok(open_claim4::CLAIM_NULL(a)),
                Err(e) => Err(e),
            };
        }
        if tag == 1 {
            proof {
                <u32 as XDR>::decode_within(b.skip(4));
                if let Ok((_, k)) = <u32 as XDR>::decode(b.skip(4)) {
                    assert(b.skip(4).skip(k as int) =~= b.skip((4 + k) as int));
                }
            }
            return match <u32 as XDR>::deserialize(src) {
                Ok(a) => Ok(open_claim4::CLAIM_PREVIOUS(a)),
                Err(e) => Err(e),
            };
        }
        if tag == 2 {
            proof {
                <(stateid4, component4) as XDR>::decode_within(b.skip(4));
                if let Ok((_, k)) = <(stateid4, component4) as XDR>::decode(b.skip(4)) {
                    assert(b.skip(4).skip(k as int) =~= b.skip((4 + k) as int));
                }
            }
            return match <(stateid4, component4) as XDR>::deserialize(src) {
                Ok((a, b)) => Ok(open_claim4::CLAIM_DELEGATE_CUR(a, b)),
                Err(e) => Err(e),
            };
        }
        if tag == 3 {
            proof {
                <component4 as XDR>::decode_within(b.skip(4));
                if let Ok((_, k)) = <component4 as XDR>::decode(b.skip(4)) {
                    assert(b.skip(4).skip(k as int) =~= b.skip((4 + k) as int));
                }
            }
            return match <component4 as XDR>::deserialize(src) {
                Ok(a) => Ok(open_claim4::CLAIM_DELEGATE_PREV(a)),
                Err(e) => Err(e),
            };
        }
        if tag == 4 {
            return Ok(open_claim4::CLAIM_FH);
        }
        if tag == 5 {
            proof {
                <stateid4 as XDR>::decode_within(b.skip(4));
                if let Ok((_, k)) = <stateid4 as XDR>::decode(b.skip(4)) {
                    assert(b.skip(4).skip(k as int) =~= b.skip((4 + k) as int));
                }
            }
            return match <stateid4 as XDR>::deserialize(src) {
                Ok(a) => Ok(open_claim4::CLAIM_DELEG_CUR_FH(a)),
                Err(e) => Err(e),
            };
        }
        if tag == 6 {
            return Ok(open_claim4::CLAIM_DELEG_PREV_FH);
        }
        Err(XdrError::InvalidData)
    }
}

/// The arguments of OPEN.
#[derive(Clone, Debug, PartialEq, Eq)]
pub struct OPEN4args {
    pub seqid: seqid4,
    pub share_access: u32,
    pub share_deny: u32,
    pub owner: state_owner4,
    pub openhow: openflag4,
    pub claim: open_claim4,
}

impl Model for OPEN4args {
    type M = (u32, (u32, (u32, (<state_owner4 as Model>::M, (<openflag4 as Model>::M, <open_claim4 as Model>::M)))));

    open spec fn model(&self) -> Self::M {
        (
            self.seqid.model(),
            (
                self.share_access.model(),
                (self.share_deny.model(), (self.owner.model(), (self.openhow.model(), self.claim.model()))),
            ),
        )
    }
}

impl XDR for OPEN4args {
    open spec fn encodable(m: Self::M) -> bool {
        <(seqid4, (u32, (u32, (state_owner4, (openflag4, open_claim4))))) as XDR>::encodable(m)
    }

    open spec fn fits(m: Self::M) -> bool {
        <(seqid4, (u32, (u32, (state_owner4, (openflag4, open_claim4))))) as XDR>::fits(m)
    }

    open spec fn encode(m: Self::M) -> Seq<u8> {
        <(seqid4, (u32, (u32, (state_owner4, (openflag4, open_claim4))))) as XDR>::encode(m)
    }

    open spec fn decode(b: Seq<u8>) -> Result<(Self::M, nat), XdrError> {
        <(seqid4, (u32, (u32, (state_owner4, (openflag4, open_claim4))))) as XDR>::decode(b)
    }

    proof fn decode_within(b: Seq<u8>) {
        <(seqid4, (u32, (u32, (state_owner4, (openflag4, open_claim4))))) as XDR>::decode_within(b);
    }

    proof fn round_trip(m: Self::M, rest: Seq<u8>) {
        <(seqid4, (u32, (u32, (state_owner4, (openflag4, open_claim4))))) as XDR>::round_trip(m, rest);
    }

    fn serialize(&self, dest: &mut Vec<u8>) {
        self.seqid.serialize(dest);
        self.share_access.serialize(dest);
        self.share_deny.serialize(dest);
        self.owner.serialize(dest);
        self.openhow.serialize(dest);
        self.claim.serialize(dest);
        assert(dest@ =~= old(dest)@ + Self::encode(self.model()));
    }

    fn deserialize(src: &mut Reader) -> (r: Result<Self, XdrError>) {
        match <(seqid4, (u32, (u32, (state_owner4, (openflag4, open_claim4))))) as XDR>::deserialize(src) {
            Ok((seqid, (share_access, (share_deny, (owner, (openhow, claim)))))) => Ok(
                OPEN4args { seqid, share_access, share_deny, owner, openhow, claim },
            ),
            Err(e) => Err(e),
        }
    }
}

/// The arguments of OPEN_CONFIRM.
#[derive(Clone, Debug, PartialEq, Eq)]
pub struct OPEN_CONFIRM4args {
    pub open_stateid: stateid4,
    pub seqid: seqid4,
}

impl Model for OPEN_CONFIRM4args {
    type M = (<stateid4 as Model>::M, u32);

    open spec fn model(&self) -> Self::M {
        (self.open_stateid.model(), self.seqid.model())
    }
}

impl XDR for OPEN_CONFIRM4args {
    open spec fn encodable(m: Self::M) -> bool {
        <(stateid4, seqid4) as XDR>::encodable(m)
    }

    open spec fn fits(m: Self::M) -> bool {
        <(stateid4, seqid4) as XDR>::fits(m)
    }

    open spec fn encode(m: Self::M) -> Seq<u8> {
        <(stateid4, seqid4) as XDR>::encode(m)
    }

    open spec fn decode(b: Seq<u8>) -> Result<(Self::M, nat), XdrError> {
        <(stateid4, seqid4) as XDR>::decode(b)
    }

    proof fn decode_within(b: Seq<u8>) {
        <(stateid4, seqid4) as XDR>::decode_within(b);
    }

    proof fn round_trip(m: Self::M, rest: Seq<u8>) {
        <(stateid4, seqid4) as XDR>::round_trip(m, rest);
    }

    fn serialize(&self, dest: &mut Vec<u8>) {
        self.open_stateid.serialize(dest);
        self.seqid.serialize(dest);
        assert(dest@ =~= old(dest)@ + Self::encode(self.model()));
    }

    fn deserialize(src: &mut Reader) -> (r: Result<Self, XdrError>) {
        match <(stateid4, seqid4) as XDR>::deserialize(src) {
            Ok((open_stateid, seqid)) => Ok(OPEN_CONFIRM4args { open_stateid, seqid }),
            Err(e) => Err(e),
        }
    }
}

/// The arguments of OPEN_DOWNGRADE.
#[derive(Clone, Debug, PartialEq, Eq)]
pub struct OPEN_DOWNGRADE4args {
    pub open_stateid: stateid4,
    pub seqid: seqid4,
    pub share_access: u32,
    pub share_deny: u32,
}

impl Model for OPEN_DOWNGRADE4args {
    type M = (<stateid4 as Model>::M, (u32, (u32, u32)));

    open spec fn model(&self) -> Self::M {
        (self.open_stateid.model(), (self.seqid.model(), (self.share_access.model(), self.share_deny.model())))
    }
}

impl XDR for OPEN_DOWNGRADE4args {
    open spec fn encodable(m: Self::M) -> bool {
        <(stateid4, (seqid4, (u32, u32))) as XDR>::encodable(m)
    }

    open spec fn fits(m: Self::M) -> bool {
        <(stateid4, (seqid4, (u32, u32))) as XDR>::fits(m)
    }

    open spec fn encode(m: Self::M) -> Seq<u8> {
        <(stateid4, (seqid4, (u32, u32))) as XDR>::encode(m)
    }

    open spec fn decode(b: Seq<u8>) -> Result<(Self::M, nat), XdrError> {
        <(stateid4, (seqid4, (u32, u32))) as XDR>::decode(b)
    }

    proof fn decode_within(b: Seq<u8>) {
        <(stateid4, (seqid4, (u32, u32))) as XDR>::decode_within(b);
    }

    proof fn round_trip(m: Self::M, rest: Seq<u8>) {
        <(stateid4, (seqid4, (u32, u32))) as XDR>::round_trip(m, rest);
    }

    fn serialize(&self, dest: &mut Vec<u8>) {
        self.open_stateid.serialize(dest);
        self.seqid.serialize(dest);
        self.share_access.serialize(dest);
        self.share_deny.serialize(dest);
        assert(dest@ =~= old(dest)@ + Self::encode(self.model()));
    }

    fn deserialize(src: &mut Reader) -> (r: Result<Self, XdrError>) {
        match <(stateid4, (seqid4, (u32, u32))) as XDR>::deserialize(src) {
            Ok((open_stateid, (seqid, (share_access, share_deny)))) => Ok(
                OPEN_DOWNGRADE4args { open_stateid, seqid, share_access, share_deny },
            ),
            Err(e) => Err(e),
        }
    }
}

/// How an open-owner names a new lock-owner.
#[derive(Clone, Debug, PartialEq, Eq)]
pub struct open_to_lock_owner4 {
    pub open_seqid: seqid4,
    pub open_stateid: stateid4,
    pub lock_seqid: seqid4,
    pub lock_owner: state_owner4,
}

impl Model for open_to_lock_owner4 {
    type M = (u32, (<stateid4 as Model>::M, (u32, <state_owner4 as Model>::M)));

    open spec fn model(&self) -> Self::M {
        (self.open_seqid.model(), (self.open_stateid.model(), (self.lock_seqid.model(), self.lock_owner.model())))
    }
}

impl XDR for open_to_lock_owner4 {
    open spec fn encodable(m: Self::M) -> bool {
        <(seqid4, (stateid4, (seqid4, state_owner4))) as XDR>::encodable(m)
    }

    open spec fn fits(m: Self::M) -> bool {
        <(seqid4, (stateid4, (seqid4, state_owner4))) as XDR>::fits(m)
    }

    open spec fn encode(m: Self::M) -> Seq<u8> {
        <(seqid4, (stateid4, (seqid4, state_owner4))) as XDR>::encode(m)
    }

    open spec fn decode(b: Seq<u8>) -> Result<(Self::M, nat), XdrError> {
        <(seqid4, (stateid4, (seqid4, state_owner4))) as XDR>::decode(b)
    }

    proof fn decode_within(b: Seq<u8>) {
        <(seqid4, (stateid4, (seqid4, state_owner4))) as XDR>::decode_within(b);
    }

    proof fn round_trip(m: Self::M, rest: Seq<u8>) {
        <(seqid4, (stateid4, (seqid4, state_owner4))) as XDR>::round_trip(m, rest);
    }

    fn serialize(&self, dest: &mut Vec<u8>) {
        self.open_seqid.serialize(dest);
        self.open_stateid.serialize(dest);
        self.lock_seqid.serialize(dest);
        self.lock_owner.serialize(dest);
        assert(dest@ =~= old(dest)@ + Self::encode(self.model()));
    }

    fn deserialize(src: &mut Reader) -> (r: Result<Self, XdrError>) {
        match <(seqid4, (stateid4, (seqid4, state_owner4))) as XDR>::deserialize(src) {
            Ok((open_seqid, (open_stateid, (lock_seqid, lock_owner)))) => Ok(
                open_to_lock_owner4 { open_seqid, open_stateid, lock_seqid, lock_owner },
            ),
            Err(e) => Err(e),
        }
    }
}

/// How a lock-owner is named again.
#[derive(Clone, Debug, PartialEq, Eq)]
pub struct exist_lock_owner4 {
    pub lock_stateid: stateid4,
    pub lock_seqid: seqid4,
}

impl Model for exist_lock_owner4 {
    type M = (<stateid4 as Model>::M, u32);

    open spec fn model(&self) -> Self::M {
        (self.lock_stateid.model(), self.lock_seqid.model())
    }
}

impl XDR for exist_lock_owner4 {
    open spec fn encodable(m: Self::M) -> bool {
        <(stateid4, seqid4) as XDR>::encodable(m)
    }

    open spec fn fits(m: Self::M) -> bool {
        <(stateid4, seqid4) as XDR>::fits(m)
    }

    open spec fn encode(m: Self::M) -> Seq<u8> {
        <(stateid4, seqid4) as XDR>::encode(m)
    }

    open spec fn decode(b: Seq<u8>) -> Result<(Self::M, nat), XdrError> {
        <(stateid4, seqid4) as XDR>::decode(b)
    }

    proof fn decode_within(b: Seq<u8>) {
        <(stateid4, seqid4) as XDR>::decode_within(b);
    }

    proof fn round_trip(m: Self::M, rest: Seq<u8>) {
        <(stateid4, seqid4) as XDR>::round_trip(m, rest);
    }

    fn serialize(&self, dest: &mut Vec<u8>) {
        self.lock_stateid.serialize(dest);
        self.lock_seqid.serialize(dest);
        assert(dest@ =~= old(dest)@ + Self::encode(self.model()));
    }

    fn deserialize(src: &mut Reader) -> (r: Result<Self, XdrError>) {
        match <(stateid4, seqid4) as XDR>::deserialize(src) {
            Ok((lock_stateid, lock_seqid)) => Ok(exist_lock_owner4 { lock_stateid, lock_seqid }),
            Err(e) => Err(e),
        }
    }
}

/// Who asks for a lock.
#[derive(Clone, Debug, PartialEq, Eq)]
pub enum locker4 {
    New(open_to_lock_owner4),
    Existing(exist_lock_owner4),
}

/// What a value of `locker4` stands for.
pub enum LockerView {
    New(<open_to_lock_owner4 as Model>::M),
    Existing(<exist_lock_owner4 as Model>::M),
}

impl Model for locker4 {
    type M = LockerView;

    open spec fn model(&self) -> LockerView {
        match self {
            locker4::New(a) => LockerView::New(a.model()),
            locker4::Existing(a) => LockerView::Existing(a.model()),
        }
    }
}

impl XDR for locker4 {
    open spec fn encodable(m: LockerView) -> bool {
        match m {
            LockerView::New(a) => <open_to_lock_owner4 as XDR>::encodable(a),
            LockerView::Existing(a) => <exist_lock_owner4 as XDR>::encodable(a),
        }
    }

    open spec fn fits(m: LockerView) -> bool {
        match m {
            LockerView::New(a) => <open_to_lock_owner4 as XDR>::fits(a),
            LockerView::Existing(a) => <exist_lock_owner4 as XDR>::fits(a),
        }
    }

    open spec fn encode(m: LockerView) -> Seq<u8> {
        match m {
            LockerView::New(a) => be32(1) + <open_to_lock_owner4 as XDR>::encode(a),
            LockerView::Existing(a) => be32(0) + <exist_lock_owner4 as XDR>::encode(a),
        }
    }

    open spec fn decode(b: Seq<u8>) -> Result<(LockerView, nat), XdrError> {
        match u32::decode(b) {
            Err(e) => Err(e),
            Ok((tag, n)) => if tag == 1 {
                match <open_to_lock_owner4 as XDR>::decode(b.skip(4)) {
                    Ok((x, k)) => Ok((LockerView::New(x), n + k)),
                    Err(e) => Err(e),
                }
            } else if tag == 0 {
                match <exist_lock_owner4 as XDR>::decode(b.skip(4)) {
                    Ok((x, k)) => Ok((LockerView::Existing(x), n + k)),
                    Err(e) => Err(e),
                }
            } else {
                Err(XdrError::InvalidData)
            },
        }
    }

    proof fn decode_within(b: Seq<u8>) {
        u32::decode_within(b);
        <open_to_lock_owner4 as XDR>::decode_within(b.skip(4));
        <exist_lock_owner4 as XDR>::decode_within(b.skip(4));
    }

    proof fn round_trip(m: LockerView, rest: Seq<u8>) {
        match m {
            LockerView::New(a) => {
                tagged_round_trip::<open_to_lock_owner4>(1, a, rest);
            },
            LockerView::Existing(a) => {
                tagged_round_trip::<exist_lock_owner4>(0, a, rest);
            },
        }
    }

    fn serialize(&self, dest: &mut Vec<u8>) {
        match self {
            locker4::New(a) => {
                1u32.serialize(dest);
                a.serialize(dest);
                assert(dest@ =~= old(dest)@ + Self::encode(self.model()));
            },
            locker4::Existing(a) => {
                0u32.serialize(dest);
                a.serialize(dest);
                assert(dest@ =~= old(dest)@ + Self::encode(self.model()));
            },
        }
    }

    fn deserialize(src: &mut Reader) -> (r: Result<Self, XdrError>) {
        let ghost b = src.rest();
        let tag: u32 = match u32::deserialize(src) {
            Ok(v) => v,
            Err(e) => return Err(e),
        };
        if tag == 1 {
            proof {
                <open_to_lock_owner4 as XDR>::decode_within(b.skip(4));
                if let Ok((_, k)) = <open_to_lock_owner4 as XDR>::decode(b.skip(4)) {
                    assert(b.skip(4).skip(k as int) =~= b.skip((4 + k) as int));
                }
            }
            return match <open_to_lock_owner4 as XDR>::deserialize(src) {
                Ok(a) => Ok(locker4::New(a)),
                Err(e) => Err(e),
            };
        }
        if tag == 0 {
            proof {
                <exist_lock_owner4 as XDR>::decode_within(b.skip(4));
                if let Ok((_, k)) = <exist_lock_owner4 as XDR>::decode(b.skip(4)) {
                    assert(b.skip(4).skip(k as int) =~= b.skip((4 + k) as int));
                }
            }
            return match <exist_lock_owner4 as XDR>::deserialize(src) {
                Ok(a) => Ok(locker4::Existing(a)),
                Err(e) => Err(e),
            };
        }
        Err(XdrError::InvalidData)
    }
}

/// The arguments of LOCK.
#[derive(Clone, Debug, PartialEq, Eq)]
pub struct LOCK4args {
    pub locktype: u32,
    pub reclaim: bool,
    pub offset: u64,
    pub length: u64,
    pub locker: locker4,
}

impl Model for LOCK4args {
    type M = (u32, (bool, (u64, (u64, <locker4 as Model>::M))));

    open spec fn model(&self) -> Self::M {
        (
            self.locktype.model(),
            (self.reclaim.model(), (self.offset.model(), (self.length.model(), self.locker.model()))),
        )
    }
}

impl XDR for LOCK4args {
    open spec fn encodable(m: Self::M) -> bool {
        <(u32, (bool, (u64, (u64, locker4)))) as XDR>::encodable(m)
    }

    open spec fn fits(m: Self::M) -> bool {
        <(u32, (bool, (u64, (u64, locker4)))) as XDR>::fits(m)
    }

    open spec fn encode(m: Self::M) -> Seq<u8> {
        <(u32, (bool, (u64, (u64, locker4)))) as XDR>::encode(m)
    }

    open spec fn decode(b: Seq<u8>) -> Result<(Self::M, nat), XdrError> {
        <(u32, (bool, (u64, (u64, locker4)))) as XDR>::decode(b)
    }

    proof fn decode_within(b: Seq<u8>) {
        <(u32, (bool, (u64, (u64, locker4)))) as XDR>::decode_within(b);
    }

    proof fn round_trip(m: Self::M, rest: Seq<u8>) {
        <(u32, (bool, (u64, (u64, locker4)))) as XDR>::round_trip(m, rest);
    }

    fn serialize(&self, dest: &mut Vec<u8>) {
        self.locktype.serialize(dest);
        self.reclaim.serialize(dest);
        self.offset.serialize(dest);
        self.length.serialize(dest);
        self.locker.serialize(dest);
        assert(dest@ =~= old(dest)@ + Self::encode(self.model()));
    }

    fn deserialize(src: &mut Reader) -> (r: Result<Self, XdrError>) {
        match <(u32, (bool, (u64, (u64, locker4)))) as XDR>::deserialize(src) {
            Ok((locktype, (reclaim, (offset, (length, locker))))) => Ok(
                LOCK4args { locktype, reclaim, offset, length, locker },
            ),
            Err(e) => Err(e),
        }
    }
}

/// The arguments of PUTFH.
#[derive(Clone, Debug, PartialEq, Eq)]
pub struct PUTFH4args {
    pub object: nfs_fh4,
}

impl Model for PUTFH4args {
    type M = Seq<u8>;

    open spec fn model(&self) -> Self::M {
        self.object.model()
    }
}

impl XDR for PUTFH4args {
    open spec fn encodable(m: Self::M) -> bool {
        <nfs_fh4 as XDR>::encodable(m)
    }

    open spec fn fits(m: Self::M) -> bool {
        <nfs_fh4 as XDR>::fits(m)
    }

    open spec fn encode(m: Self::M) -> Seq<u8> {
        <nfs_fh4 as XDR>::encode(m)
    }

    open spec fn decode(b: Seq<u8>) -> Result<(Self::M, nat), XdrError> {
        <nfs_fh4 as XDR>::decode(b)
    }

    proof fn decode_within(b: Seq<u8>) {
        <nfs_fh4 as XDR>::decode_within(b);
    }

    proof fn round_trip(m: Self::M, rest: Seq<u8>) {
        <nfs_fh4 as XDR>::round_trip(m, rest);
    }

    fn serialize(&self, dest: &mut Vec<u8>) {
        self.object.serialize(dest);
        assert(dest@ =~= old(dest)@ + Self::encode(self.model()));
    }

    fn deserialize(src: &mut Reader) -> (r: Result<Self, XdrError>) {
        match <nfs_fh4 as XDR>::deserialize(src) {
            Ok(object) => Ok(PUTFH4args { object }),
            Err(e) => Err(e),
        }
    }
}

/// The arguments of READ.
#[derive(Clone, Debug, PartialEq, Eq)]
pub struct READ4args {
    pub stateid: stateid4,
    pub offset: offset4,
    pub count: count4,
}

impl Model for READ4args {
    type M = (<stateid4 as Model>::M, (u64, u32));

    open spec fn model(&self) -> Self::M {
        (self.stateid.model(), (self.offset.model(), self.count.model()))
    }
}

impl XDR for READ4args {
    open spec fn encodable(m: Self::M) -> bool {
        <(stateid4, (offset4, count4)) as XDR>::encodable(m)
    }

    open spec fn fits(m: Self::M) -> bool {
        <(stateid4, (offset4, count4)) as XDR>::fits(m)
    }

    open spec fn encode(m: Self::M) -> Seq<u8> {
        <(stateid4, (offset4, count4)) as XDR>::encode(m)
    }

    open spec fn decode(b: Seq<u8>) -> Result<(Self::M, nat), XdrError> {
        <(stateid4, (offset4, count4)) as XDR>::decode(b)
    }

    proof fn decode_within(b: Seq<u8>) {
        <(stateid4, (offset4, count4)) as XDR>::decode_within(b);
    }

    proof fn round_trip(m: Self::M, rest: Seq<u8>) {
        <(stateid4, (offset4, count4)) as XDR>::round_trip(m, rest);
    }

    fn serialize(&self, dest: &mut Vec<u8>) {
        self.stateid.serialize(dest);
        self.offset.serialize(dest);
        self.count.serialize(dest);
        assert(dest@ =~= old(dest)@ + Self::encode(self.model()));
    }

    fn deserialize(src: &mut Reader) -> (r: Result<Self, XdrError>) {
        match <(stateid4, (offset4, count4)) as XDR>::deserialize(src) {
            Ok((stateid, (offset, count))) => Ok(READ4args { stateid, offset, count }),
            Err(e) => Err(e),
        }
    }
}

/// The arguments of READDIR.
#[derive(Clone, Debug, PartialEq, Eq)]
pub struct READDIR4args {
    pub cookie: nfs_cookie4,
    pub cookieverf: verifier4,
    pub dircount: count4,
    pub maxcount: count4,
    pub attr_request: bitmap4,
}

impl Model for READDIR4args {
    type M = (u64, (verifier4, (u32, (u32, Seq<u32>))));

    open spec fn model(&self) -> Self::M {
        (
            self.cookie.model(),
            (self.cookieverf.model(), (self.dircount.model(), (self.maxcount.model(), self.attr_request.model()))),
        )
    }
}

impl XDR for READDIR4args {
    open spec fn encodable(m: Self::M) -> bool {
        <(nfs_cookie4, (verifier4, (count4, (count4, bitmap4)))) as XDR>::encodable(m)
    }

    open spec fn fits(m: Self::M) -> bool {
        <(nfs_cookie4, (verifier4, (count4, (count4, bitmap4)))) as XDR>::fits(m)
    }

    open spec fn encode(m: Self::M) -> Seq<u8> {
        <(nfs_cookie4, (verifier4, (count4, (count4, bitmap4)))) as XDR>::encode(m)
    }

    open spec fn decode(b: Seq<u8>) -> Result<(Self::M, nat), XdrError> {
        <(nfs_cookie4, (verifier4, (count4, (count4, bitmap4)))) as XDR>::decode(b)
    }

    proof fn decode_within(b: Seq<u8>) {
        <(nfs_cookie4, (verifier4, (count4, (count4, bitmap4)))) as XDR>::decode_within(b);
    }

    proof fn round_trip(m: Self::M, rest: Seq<u8>) {
        <(nfs_cookie4, (verifier4, (count4, (count4, bitmap4)))) as XDR>::round_trip(m, rest);
    }

    fn serialize(&self, dest: &mut Vec<u8>) {
        self.cookie.serialize(dest);
        self.cookieverf.serialize(dest);
        self.dircount.serialize(dest);
        self.maxcount.serialize(dest);
        self.attr_request.serialize(dest);
        assert(dest@ =~= old(dest)@ + Self::encode(self.model()));
    }

    fn deserialize(src: &mut Reader) -> (r: Result<Self, XdrError>) {
        match <(nfs_cookie4, (verifier4, (count4, (count4, bitmap4)))) as XDR>::deserialize(src) {
            Ok((cookie, (cookieverf, (dircount, (maxcount, attr_request))))) => Ok(
                READDIR4args { cookie, cookieverf, dircount, maxcount, attr_request },
            ),
            Err(e) => Err(e),
        }
    }
}

/// The arguments of RECLAIM_COMPLETE.
#[derive(Clone, Debug, PartialEq, Eq)]
pub struct RECLAIM_COMPLETE4args {
    pub rca_one_fs: bool,
}

impl Model for RECLAIM_COMPLETE4args {
    type M = bool;

    open spec fn model(&self) -> Self::M {
        self.rca_one_fs.model()
    }
}

impl XDR for RECLAIM_COMPLETE4args {
    open spec fn encodable(m: Self::M) -> bool {
        <bool as XDR>::encodable(m)
    }

    open spec fn fits(m: Self::M) -> bool {
        <bool as XDR>::fits(m)
    }

    open spec fn encode(m: Self::M) -> Seq<u8> {
        <bool as XDR>::encode(m)
    }

    open spec fn decode(b: Seq<u8>) -> Result<(Self::M, nat), XdrError> {
        <bool as XDR>::decode(b)
    }

    proof fn decode_within(b: Seq<u8>) {
        <bool as XDR>::decode_within(b);
    }

    proof fn round_trip(m: Self::M, rest: Seq<u8>) {
        <bool as XDR>::round_trip(m, rest);
    }

    fn serialize(&self, dest: &mut Vec<u8>) {
        self.rca_one_fs.serialize(dest);
        assert(dest@ =~= old(dest)@ + Self::encode(self.model()));
    }

    fn deserialize(src: &mut Reader) -> (r: Result<Self, XdrError>) {
        match <bool as XDR>::deserialize(src) {
            Ok(rca_one_fs) => Ok(RECLAIM_COMPLETE4args { rca_one_fs }),
            Err(e) => Err(e),
        }
    }
}

/// The arguments of RELEASE_LOCKOWNER.
#[derive(Clone, Debug, PartialEq, Eq)]
pub struct RELEASE_LOCKOWNER4args {
    pub lock_owner: state_owner4,
}

impl Model for RELEASE_LOCKOWNER4args {
    type M = <state_owner4 as Model>::M;

    open spec fn model(&self) -> Self::M {
        self.lock_owner.model()
    }
}

impl XDR for RELEASE_LOCKOWNER4args {
    open spec fn encodable(m: Self::M) -> bool {
        <state_owner4 as XDR>::encodable(m)
    }

    open spec fn fits(m: Self::M) -> bool {
        <state_owner4 as XDR>::fits(m)
    }

    open spec fn encode(m: Self::M) -> Seq<u8> {
        <state_owner4 as XDR>::encode(m)
    }

    open spec fn decode(b: Seq<u8>) -> Result<(Self::M, nat), XdrError> {
        <state_owner4 as XDR>::decode(b)
    }

    proof fn decode_within(b: Seq<u8>) {
        <state_owner4 as XDR>::decode_within(b);
    }

    proof fn round_trip(m: Self::M, rest: Seq<u8>) {
        <state_owner4 as XDR>::round_trip(m, rest);
    }

    fn serialize(&self, dest: &mut Vec<u8>) {
        self.lock_owner.serialize(dest);
        assert(dest@ =~= old(dest)@ + Self::encode(self.model()));
    }

    fn deserialize(src: &mut Reader) -> (r: Result<Self, XdrError>) {
        match <state_owner4 as XDR>::deserialize(src) {
            Ok(lock_owner) => Ok(RELEASE_LOCKOWNER4args { lock_owner }),
            Err(e) => Err(e),
        }
    }
}

/// The arguments of REMOVE.
#[derive(Clone, Debug, PartialEq, Eq)]
pub struct REMOVE4args {
    pub target: component4,
}

impl Model for REMOVE4args {
    type M = Seq<u8>;

    open spec fn model(&self) -> Self::M {
        self.target.model()
    }
}

impl XDR for REMOVE4args {
    open spec fn encodable(m: Self::M) -> bool {
        <component4 as XDR>::encodable(m)
    }

    open spec fn fits(m: Self::M) -> bool {
        <component4 as XDR>::fits(m)
    }

    open spec fn encode(m: Self::M) -> Seq<u8> {
        <component4 as XDR>::encode(m)
    }

    open spec fn decode(b: Seq<u8>) -> Result<(Self::M, nat), XdrError> {
        <component4 as XDR>::decode(b)
    }

    proof fn decode_within(b: Seq<u8>) {
        <component4 as XDR>::decode_within(b);
    }

    proof fn round_trip(m: Self::M, rest: Seq<u8>) {
        <component4 as XDR>::round_trip(m, rest);
    }

    fn serialize(&self, dest: &mut Vec<u8>) {
        self.target.serialize(dest);
        assert(dest@ =~= old(dest)@ + Self::encode(self.model()));
    }

    fn deserialize(src: &mut Reader) -> (r: Result<Self, XdrError>) {
        match <component4 as XDR>::deserialize(src) {
            Ok(target) => Ok(REMOVE4args { target }),
            Err(e) => Err(e),
        }
    }
}

/// The arguments of RENAME.
#[derive(Clone, Debug, PartialEq, Eq)]
pub struct RENAME4args {
    pub oldname: component4,
    pub newname: component4,
}

impl Model for RENAME4args {
    type M = (Seq<u8>, Seq<u8>);

    open spec fn model(&self) -> Self::M {
        (self.oldname.model(), self.newname.model())
    }
}

impl XDR for RENAME4args {
    open spec fn encodable(m: Self::M) -> bool {
        <(component4, component4) as XDR>::encodable(m)
    }

    open spec fn fits(m: Self::M) -> bool {
        <(component4, component4) as XDR>::fits(m)
    }

    open spec fn encode(m: Self::M) -> Seq<u8> {
        <(component4, component4) as XDR>::encode(m)
    }

    open spec fn decode(b: Seq<u8>) -> Result<(Self::M, nat), XdrError> {
        <(component4, component4) as XDR>::decode(b)
    }

    proof fn decode_within(b: Seq<u8>) {
        <(component4, component4) as XDR>::decode_within(b);
    }

    proof fn round_trip(m: Self::M, rest: Seq<u8>) {
        <(component4, component4) as XDR>::round_trip(m, rest);
    }

    fn serialize(&self, dest: &mut Vec<u8>) {
        self.oldname.serialize(dest);
        self.newname.serialize(dest);
        assert(dest@ =~= old(dest)@ + Self::encode(self.model()));
    }

    fn deserialize(src: &mut Reader) -> (r: Result<Self, XdrError>) {
        match <(component4, component4) as XDR>::deserialize(src) {
            Ok((oldname, newname)) => Ok(RENAME4args { oldname, newname }),
            Err(e) => Err(e),
        }
    }
}

/// The arguments of RENEW.
#[derive(Clone, Debug, PartialEq, Eq)]
pub struct RENEW4args {
    pub clientid: clientid4,
}

impl Model for RENEW4args {
    type M = u64;

    open spec fn model(&self) -> Self::M {
        self.clientid.model()
    }
}

impl XDR for RENEW4args {
    open spec fn encodable(m: Self::M) -> bool {
        <clientid4 as XDR>::encodable(m)
    }

    open spec fn fits(m: Self::M) -> bool {
        <clientid4 as XDR>::fits(m)
    }

    open spec fn encode(m: Self::M) -> Seq<u8> {
        <clientid4 as XDR>::encode(m)
    }

    open spec fn decode(b: Seq<u8>) -> Result<(Self::M, nat), XdrError> {
        <clientid4 as XDR>::decode(b)
    }

    proof fn decode_within(b: Seq<u8>) {
        <clientid4 as XDR>::decode_within(b);
    }

    proof fn round_trip(m: Self::M, rest: Seq<u8>) {
        <clientid4 as XDR>::round_trip(m, rest);
    }

    fn serialize(&self, dest: &mut Vec<u8>) {
        self.clientid.serialize(dest);
        assert(dest@ =~= old(dest)@ + Self::encode(self.model()));
    }

    fn deserialize(src: &mut Reader) -> (r: Result<Self, XdrError>) {
        match <clientid4 as XDR>::deserialize(src) {
            Ok(clientid) => Ok(RENEW4args { clientid }),
            Err(e) => Err(e),
        }
    }
}

/// The arguments of SECINFO.
#[derive(Clone, Debug, PartialEq, Eq)]
pub struct SECINFO4args {
    pub name: component4,
}

impl Model for SECINFO4args {
    type M = Seq<u8>;

    open spec fn model(&self) -> Self::M {
        self.name.model()
    }
}

impl XDR for SECINFO4args {
    open spec fn encodable(m: Self::M) -> bool {
        <component4 as XDR>::encodable(m)
    }

    open spec fn fits(m: Self::M) -> bool {
        <component4 as XDR>::fits(m)
    }

    open spec fn encode(m: Self::M) -> Seq<u8> {
        <component4 as XDR>::encode(m)
    }

    open spec fn decode(b: Seq<u8>) -> Result<(Self::M, nat), XdrError> {
        <component4 as XDR>::decode(b)
    }

    proof fn decode_within(b: Seq<u8>) {
        <component4 as XDR>::decode_within(b);
    }

    proof fn round_trip(m: Self::M, rest: Seq<u8>) {
        <component4 as XDR>::round_trip(m, rest);
    }

    fn serialize(&self, dest: &mut Vec<u8>) {
        self.name.serialize(dest);
        assert(dest@ =~= old(dest)@ + Self::encode(self.model()));
    }

    fn deserialize(src: &mut Reader) -> (r: Result<Self, XdrError>) {
        match <component4 as XDR>::deserialize(src) {
            Ok(name) => Ok(SECINFO4args { name }),
            Err(e) => Err(e),
        }
    }
}

/// Of what SECINFO_NO_NAME asks.
#[derive(Copy, Clone, Debug, PartialEq, Eq, Structural)]
pub enum secinfo_style4 {
    SECINFO_STYLE4_CURRENT_FH,
    SECINFO_STYLE4_PARENT,
}

impl secinfo_style4 {
    /// The number that stands for the value on the wire.
    pub open spec fn number(self) -> u32 {
        match self {
            secinfo_style4::SECINFO_STYLE4_CURRENT_FH => 0,
            secinfo_style4::SECINFO_STYLE4_PARENT => 1,
        }
    }

    /// The value that a number stands for.
    pub open spec fn of_number(n: u32) -> Option<secinfo_style4> {
        if exists|v: secinfo_style4| v.number() == n {
            Some(choose|v: secinfo_style4| v.number() == n)
        } else {
            None
        }
    }

    /// The number that stands for the value on the wire.
    pub fn to_u32(&self) -> (n: u32)
        ensures
            n == self.number(),
    {
        match self {
            secinfo_style4::SECINFO_STYLE4_CURRENT_FH => 0,
            secinfo_style4::SECINFO_STYLE4_PARENT => 1,
        }
    }

    /// No two values share a number.
    pub proof fn numbers_differ(a: secinfo_style4, b: secinfo_style4)
        requires
            a.number() == b.number(),
        ensures
            a == b,
    {
    }

    /// The value that a number stands for, if it is one that is known.
    pub fn from_u32(n: u32) -> (r: Option<secinfo_style4>)
        ensures
            r == Self::of_number(n),
    {
        let r: Option<secinfo_style4> = match n {
            0 => Some(secinfo_style4::SECINFO_STYLE4_CURRENT_FH),
            1 => Some(secinfo_style4::SECINFO_STYLE4_PARENT),
            _ => None,
        };
        proof {
            if let Some(v) = r {
                assert(v.number() == n);
                Self::numbers_differ(v, choose|w: secinfo_style4| w.number() == n);
            }
        }
        r
    }
}

impl Model for secinfo_style4 {
    type M = secinfo_style4;

    open spec fn model(&self) -> secinfo_style4 {
        *self
    }
}

impl XDR for secinfo_style4 {
    open spec fn encodable(m: secinfo_style4) -> bool {
        true
    }

    open spec fn fits(m: secinfo_style4) -> bool {
        true
    }

    open spec fn encode(m: secinfo_style4) -> Seq<u8> {
        be32(m.number())
    }

    open spec fn decode(b: Seq<u8>) -> Result<(secinfo_style4, nat), XdrError> {
        match u32::decode(b) {
            Err(e) => Err(e),
            Ok((n, k)) => match secinfo_style4::of_number(n) {
                Some(v) => Ok((v, k)),
                None => Err(XdrError::InvalidData),
            },
        }
    }

    proof fn decode_within(b: Seq<u8>) {
    }

    proof fn round_trip(m: secinfo_style4, rest: Seq<u8>) {
        u32::round_trip(m.number(), rest);
        Self::numbers_differ(m, choose|v: secinfo_style4| v.number() == m.number());
    }

    fn serialize(&self, dest: &mut Vec<u8>) {
        self.to_u32().serialize(dest);
    }

    fn deserialize(src: &mut Reader) -> (r: Result<Self, XdrError>) {
        match u32::deserialize(src) {
            Err(e) => Err(e),
            Ok(n) => match secinfo_style4::from_u32(n) {
                Some(v) => Ok(v),
                None => Err(XdrError::InvalidData),
            },
        }
    }
}

/// The arguments of SECINFO_NO_NAME.
#[derive(Clone, Debug, PartialEq, Eq)]
pub struct SECINFO_NO_NAME4args {
    pub style: secinfo_style4,
}

impl Model for SECINFO_NO_NAME4args {
    type M = <secinfo_style4 as Model>::M;

    open spec fn model(&self) -> Self::M {
        self.style.model()
    }
}

impl XDR for SECINFO_NO_NAME4args {
    open spec fn encodable(m: Self::M) -> bool {
        <secinfo_style4 as XDR>::encodable(m)
    }

    open spec fn fits(m: Self::M) -> bool {
        <secinfo_style4 as XDR>::fits(m)
    }

    open spec fn encode(m: Self::M) -> Seq<u8> {
        <secinfo_style4 as XDR>::encode(m)
    }

    open spec fn decode(b: Seq<u8>) -> Result<(Self::M, nat), XdrError> {
        <secinfo_style4 as XDR>::decode(b)
    }

    proof fn decode_within(b: Seq<u8>) {
        <secinfo_style4 as XDR>::decode_within(b);
    }

    proof fn round_trip(m: Self::M, rest: Seq<u8>) {
        <secinfo_style4 as XDR>::round_trip(m, rest);
    }

    fn serialize(&self, dest: &mut Vec<u8>) {
        self.style.serialize(dest);
        assert(dest@ =~= old(dest)@ + Self::encode(self.model()));
    }

    fn deserialize(src: &mut Reader) -> (r: Result<Self, XdrError>) {
        match <secinfo_style4 as XDR>::deserialize(src) {
            Ok(style) => Ok(SECINFO_NO_NAME4args { style }),
            Err(e) => Err(e),
        }
    }
}

/// The arguments of SETATTR.
#[derive(Clone, Debug, PartialEq, Eq)]
pub struct SETATTR4args {
    pub stateid: stateid4,
    pub obj_attributes: fattr4,
}

impl Model for SETATTR4args {
    type M = (<stateid4 as Model>::M, <fattr4 as Model>::M);

    open spec fn model(&self) -> Self::M {
        (self.stateid.model(), self.obj_attributes.model())
    }
}

impl XDR for SETATTR4args {
    open spec fn encodable(m: Self::M) -> bool {
        <(stateid4, fattr4) as XDR>::encodable(m)
    }

    open spec fn fits(m: Self::M) -> bool {
        <(stateid4, fattr4) as XDR>::fits(m)
    }

    open spec fn encode(m: Self::M) -> Seq<u8> {
        <(stateid4, fattr4) as XDR>::encode(m)
    }

    open spec fn decode(b: Seq<u8>) -> Result<(Self::M, nat), XdrError> {
        <(stateid4, fattr4) as XDR>::decode(b)
    }

    proof fn decode_within(b: Seq<u8>) {
        <(stateid4, fattr4) as XDR>::decode_within(b);
    }

    proof fn round_trip(m: Self::M, rest: Seq<u8>) {
        <(stateid4, fattr4) as XDR>::round_trip(m, rest);
    }

    fn serialize(&self, dest: &mut Vec<u8>) {
        self.stateid.serialize(dest);
        self.obj_attributes.serialize(dest);
        assert(dest@ =~= old(dest)@ + Self::encode(self.model()));
    }

    fn deserialize(src: &mut Reader) -> (r: Result<Self, XdrError>) {
        match <(stateid4, fattr4) as XDR>::deserialize(src) {
            Ok((stateid, obj_attributes)) => Ok(SETATTR4args { stateid, obj_attributes }),
            Err(e) => Err(e),
        }
    }
}

/// nfs_client_id4: verifier and opaque owner id.
#[derive(Clone, Debug, PartialEq, Eq)]
pub struct nfs_client_id4 {
    pub verifier: verifier4,
    pub id: Vec<u8>,
}

impl Model for nfs_client_id4 {
    type M = (verifier4, Seq<u8>);

    open spec fn model(&self) -> Self::M {
        (self.verifier.model(), self.id.model())
    }
}

impl XDR for nfs_client_id4 {
    open spec fn encodable(m: Self::M) -> bool {
        <(verifier4, Vec<u8>) as XDR>::encodable(m)
    }

    open spec fn fits(m: Self::M) -> bool {
        <(verifier4, Vec<u8>) as XDR>::fits(m)
    }

    open spec fn encode(m: Self::M) -> Seq<u8> {
        <(verifier4, Vec<u8>) as XDR>::encode(m)
    }

    open spec fn decode(b: Seq<u8>) -> Result<(Self::M, nat), XdrError> {
        <(verifier4, Vec<u8>) as XDR>::decode(b)
    }

    proof fn decode_within(b: Seq<u8>) {
        <(verifier4, Vec<u8>) as XDR>::decode_within(b);
    }

    proof fn round_trip(m: Self::M, rest: Seq<u8>) {
        <(verifier4, Vec<u8>) as XDR>::round_trip(m, rest);
    }

    fn serialize(&self, dest: &mut Vec<u8>) {
        self.verifier.serialize(dest);
        self.id.serialize(dest);
        assert(dest@ =~= old(dest)@ + Self::encode(self.model()));
    }

    fn deserialize(src: &mut Reader) -> (r: Result<Self, XdrError>) {
        match <(verifier4, Vec<u8>) as XDR>::deserialize(src) {
            Ok((verifier, id)) => Ok(nfs_client_id4 { verifier, id }),
            Err(e) => Err(e),
        }
    }
}

/// Where a client can be called back.
#[derive(Clone, Debug, PartialEq, Eq)]
pub struct clientaddr4 {
    pub r_netid: nfsstring,
    pub r_addr: nfsstring,
}

impl Model for clientaddr4 {
    type M = (Seq<u8>, Seq<u8>);

    open spec fn model(&self) -> Self::M {
        (self.r_netid.model(), self.r_addr.model())
    }
}

impl XDR for clientaddr4 {
    open spec fn encodable(m: Self::M) -> bool {
        <(nfsstring, nfsstring) as XDR>::encodable(m)
    }

    open spec fn fits(m: Self::M) -> bool {
        <(nfsstring, nfsstring) as XDR>::fits(m)
    }

    open spec fn encode(m: Self::M) -> Seq<u8> {
        <(nfsstring, nfsstring) as XDR>::encode(m)
    }

    open spec fn decode(b: Seq<u8>) -> Result<(Self::M, nat), XdrError> {
        <(nfsstring, nfsstring) as XDR>::decode(b)
    }

    proof fn decode_within(b: Seq<u8>) {
        <(nfsstring, nfsstring) as XDR>::decode_within(b);
    }

    proof fn round_trip(m: Self::M, rest: Seq<u8>) {
        <(nfsstring, nfsstring) as XDR>::round_trip(m, rest);
    }

    fn serialize(&self, dest: &mut Vec<u8>) {
        self.r_netid.serialize(dest);
        self.r_addr.serialize(dest);
        assert(dest@ =~= old(dest)@ + Self::encode(self.model()));
    }

    fn deserialize(src: &mut Reader) -> (r: Result<Self, XdrError>) {
        match <(nfsstring, nfsstring) as XDR>::deserialize(src) {
            Ok((r_netid, r_addr)) => Ok(clientaddr4 { r_netid, r_addr }),
            Err(e) => Err(e),
        }
    }
}

/// How a client can be called back.
#[derive(Clone, Debug, PartialEq, Eq)]
pub struct cb_client4 {
    pub cb_program: u32,
    pub cb_location: clientaddr4,
}

impl Model for cb_client4 {
    type M = (u32, <clientaddr4 as Model>::M);

    open spec fn model(&self) -> Self::M {
        (self.cb_program.model(), self.cb_location.model())
    }
}

impl XDR for cb_client4 {
    open spec fn encodable(m: Self::M) -> bool {
        <(u32, clientaddr4) as XDR>::encodable(m)
    }

    open spec fn fits(m: Self::M) -> bool {
        <(u32, clientaddr4) as XDR>::fits(m)
    }

    open spec fn encode(m: Self::M) -> Seq<u8> {
        <(u32, clientaddr4) as XDR>::encode(m)
    }

    open spec fn decode(b: Seq<u8>) -> Result<(Self::M, nat), XdrError> {
        <(u32, clientaddr4) as XDR>::decode(b)
    }

    proof fn decode_within(b: Seq<u8>) {
        <(u32, clientaddr4) as XDR>::decode_within(b);
    }

    proof fn round_trip(m: Self::M, rest: Seq<u8>) {
        <(u32, clientaddr4) as XDR>::round_trip(m, rest);
    }

    fn serialize(&self, dest: &mut Vec<u8>) {
        self.cb_program.serialize(dest);
        self.cb_location.serialize(dest);
        assert(dest@ =~= old(dest)@ + Self::encode(self.model()));
    }

    fn deserialize(src: &mut Reader) -> (r: Result<Self, XdrError>) {
        match <(u32, clientaddr4) as XDR>::deserialize(src) {
            Ok((cb_program, cb_location)) => Ok(cb_client4 { cb_program, cb_location }),
            Err(e) => Err(e),
        }
    }
}

/// The arguments of SETCLIENTID.
#[derive(Clone, Debug, PartialEq, Eq)]
pub struct SETCLIENTID4args {
    pub client: nfs_client_id4,
    pub callback: cb_client4,
    pub callback_ident: u32,
}

impl Model for SETCLIENTID4args {
    type M = (<nfs_client_id4 as Model>::M, (<cb_client4 as Model>::M, u32));

    open spec fn model(&self) -> Self::M {
        (self.client.model(), (self.callback.model(), self.callback_ident.model()))
    }
}

impl XDR for SETCLIENTID4args {
    open spec fn encodable(m: Self::M) -> bool {
        <(nfs_client_id4, (cb_client4, u32)) as XDR>::encodable(m)
    }

    open spec fn fits(m: Self::M) -> bool {
        <(nfs_client_id4, (cb_client4, u32)) as XDR>::fits(m)
    }

    open spec fn encode(m: Self::M) -> Seq<u8> {
        <(nfs_client_id4, (cb_client4, u32)) as XDR>::encode(m)
    }

    open spec fn decode(b: Seq<u8>) -> Result<(Self::M, nat), XdrError> {
        <(nfs_client_id4, (cb_client4, u32)) as XDR>::decode(b)
    }

    proof fn decode_within(b: Seq<u8>) {
        <(nfs_client_id4, (cb_client4, u32)) as XDR>::decode_within(b);
    }

    proof fn round_trip(m: Self::M, rest: Seq<u8>) {
        <(nfs_client_id4, (cb_client4, u32)) as XDR>::round_trip(m, rest);
    }

    fn serialize(&self, dest: &mut Vec<u8>) {
        self.client.serialize(dest);
        self.callback.serialize(dest);
        self.callback_ident.serialize(dest);
        assert(dest@ =~= old(dest)@ + Self::encode(self.model()));
    }

    fn deserialize(src: &mut Reader) -> (r: Result<Self, XdrError>) {
        match <(nfs_client_id4, (cb_client4, u32)) as XDR>::deserialize(src) {
            Ok((client, (callback, callback_ident))) => Ok(SETCLIENTID4args { client, callback, callback_ident }),
            Err(e) => Err(e),
        }
    }
}

/// The arguments of SETCLIENTID_CONFIRM.
#[derive(Clone, Debug, PartialEq, Eq)]
pub struct SETCLIENTID_CONFIRM4args {
    pub clientid: clientid4,
    pub setclientid_confirm: verifier4,
}

impl Model for SETCLIENTID_CONFIRM4args {
    type M = (u64, verifier4);

    open spec fn model(&self) -> Self::M {
        (self.clientid.model(), self.setclientid_confirm.model())
    }
}

impl XDR for SETCLIENTID_CONFIRM4args {
    open spec fn encodable(m: Self::M) -> bool {
        <(clientid4, verifier4) as XDR>::encodable(m)
    }

    open spec fn fits(m: Self::M) -> bool {
        <(clientid4, verifier4) as XDR>::fits(m)
    }

    open spec fn encode(m: Self::M) -> Seq<u8> {
        <(clientid4, verifier4) as XDR>::encode(m)
    }

    open spec fn decode(b: Seq<u8>) -> Result<(Self::M, nat), XdrError> {
        <(clientid4, verifier4) as XDR>::decode(b)
    }

    proof fn decode_within(b: Seq<u8>) {
        <(clientid4, verifier4) as XDR>::decode_within(b);
    }

    proof fn round_trip(m: Self::M, rest: Seq<u8>) {
        <(clientid4, verifier4) as XDR>::round_trip(m, rest);
    }

    fn serialize(&self, dest: &mut Vec<u8>) {
        self.clientid.serialize(dest);
        self.setclientid_confirm.serialize(dest);
        assert(dest@ =~= old(dest)@ + Self::encode(self.model()));
    }

    fn deserialize(src: &mut Reader) -> (r: Result<Self, XdrError>) {
        match <(clientid4, verifier4) as XDR>::deserialize(src) {
            Ok((clientid, setclientid_confirm)) => Ok(SETCLIENTID_CONFIRM4args { clientid, setclientid_confirm }),
            Err(e) => Err(e),
        }
    }
}

impl Model for Vec<stateid4> {
    type M = Seq<<stateid4 as Model>::M>;

    open spec fn model(&self) -> Self::M {
        models(self@)
    }
}

/// A list of stateids.
impl XDR for Vec<stateid4> {
    open spec fn encodable(m: Self::M) -> bool {
        items_encodable::<stateid4>(m)
    }

    open spec fn fits(m: Self::M) -> bool {
        list_fits::<stateid4>(m)
    }

    open spec fn encode(m: Self::M) -> Seq<u8> {
        encode_list::<stateid4>(m)
    }

    open spec fn decode(b: Seq<u8>) -> Result<(Self::M, nat), XdrError> {
        decode_list::<stateid4>(b)
    }

    proof fn decode_within(b: Seq<u8>) {
        list_within::<stateid4>(b);
    }

    proof fn round_trip(m: Self::M, rest: Seq<u8>) {
        list_round_trip::<stateid4>(m, rest);
    }

    fn serialize(&self, dest: &mut Vec<u8>) {
        serialize_list(self, dest);
    }

    fn deserialize(src: &mut Reader) -> (r: Result<Self, XdrError>) {
        deserialize_list::<stateid4>(src)
    }
}

/// The arguments of TEST_STATEID.
#[derive(Clone, Debug, PartialEq, Eq)]
pub struct TEST_STATEID4args {
    pub ts_stateids: Vec<stateid4>,
}

impl Model for TEST_STATEID4args {
    type M = Seq<<stateid4 as Model>::M>;

    open spec fn model(&self) -> Self::M {
        self.ts_stateids.model()
    }
}

impl XDR for TEST_STATEID4args {
    open spec fn encodable(m: Self::M) -> bool {
        <Vec<stateid4> as XDR>::encodable(m)
    }

    open spec fn fits(m: Self::M) -> bool {
        <Vec<stateid4> as XDR>::fits(m)
    }

    open spec fn encode(m: Self::M) -> Seq<u8> {
        <Vec<stateid4> as XDR>::encode(m)
    }

    open spec fn decode(b: Seq<u8>) -> Result<(Self::M, nat), XdrError> {
        <Vec<stateid4> as XDR>::decode(b)
    }

    proof fn decode_within(b: Seq<u8>) {
        <Vec<stateid4> as XDR>::decode_within(b);
    }

    proof fn round_trip(m: Self::M, rest: Seq<u8>) {
        <Vec<stateid4> as XDR>::round_trip(m, rest);
    }

    fn serialize(&self, dest: &mut Vec<u8>) {
        self.ts_stateids.serialize(dest);
        assert(dest@ =~= old(dest)@ + Self::encode(self.model()));
    }

    fn deserialize(src: &mut Reader) -> (r: Result<Self, XdrError>) {
        match <Vec<stateid4> as XDR>::deserialize(src) {
            Ok(ts_stateids) => Ok(TEST_STATEID4args { ts_stateids }),
            Err(e) => Err(e),
        }
    }
}

/// How stable written data is.
#[derive(Copy, Clone, Debug, PartialEq, Eq, Structural)]
pub enum stable_how4 {
    UNSTABLE4,
    DATA_SYNC4,
    FILE_SYNC4,
}

impl stable_how4 {
    /// The number that stands for the value on the wire.
    pub open spec fn number(self) -> u32 {
        match self {
            stable_how4::UNSTABLE4 => 0,
            stable_how4::DATA_SYNC4 => 1,
            stable_how4::FILE_SYNC4 => 2,
        }
    }

    /// The value that a number stands for.
    pub open spec fn of_number(n: u32) -> Option<stable_how4> {
        if exists|v: stable_how4| v.number() == n {
            Some(choose|v: stable_how4| v.number() == n)
        } else {
            None
        }
    }

    /// The number that stands for the value on the wire.
    pub fn to_u32(&self) -> (n: u32)
        ensures
            n == self.number(),
    {
        match self {
            stable_how4::UNSTABLE4 => 0,
            stable_how4::DATA_SYNC4 => 1,
            stable_how4::FILE_SYNC4 => 2,
        }
    }

    /// No two values share a number.
    pub proof fn numbers_differ(a: stable_how4, b: stable_how4)
        requires
            a.number() == b.number(),
        ensures
            a == b,
    {
    }

    /// The value that a number stands for, if it is one that is known.
    pub fn from_u32(n: u32) -> (r: Option<stable_how4>)
        ensures
            r == Self::of_number(n),
    {
        let r: Option<stable_how4> = match n {
            0 => Some(stable_how4::UNSTABLE4),
            1 => Some(stable_how4::DATA_SYNC4),
            2 => Some(stable_how4::FILE_SYNC4),
            _ => None,
        };
        proof {
            if let Some(v) = r {
                assert(v.number() == n);
                Self::numbers_differ(v, choose|w: stable_how4| w.number() == n);
            }
        }
        r
    }
}

impl Model for stable_how4 {
    type M = stable_how4;

    open spec fn model(&self) -> stable_how4 {
        *self
    }
}

impl XDR for stable_how4 {
    open spec fn encodable(m: stable_how4) -> bool {
        true
    }

    open spec fn fits(m: stable_how4) -> bool {
        true
    }

    open spec fn encode(m: stable_how4) -> Seq<u8> {
        be32(m.number())
    }

    open spec fn decode(b: Seq<u8>) -> Result<(stable_how4, nat), XdrError> {
        match u32::decode(b) {
            Err(e) => Err(e),
            Ok((n, k)) => match stable_how4::of_number(n) {
                Some(v) => Ok((v, k)),
                None => Err(XdrError::InvalidData),
            },
        }
    }

    proof fn decode_within(b: Seq<u8>) {
    }

    proof fn round_trip(m: stable_how4, rest: Seq<u8>) {
        u32::round_trip(m.number(), rest);
        Self::numbers_differ(m, choose|v: stable_how4| v.number() == m.number());
    }

    fn serialize(&self, dest: &mut Vec<u8>) {
        self.to_u32().serialize(dest);
    }

    fn deserialize(src: &mut Reader) -> (r: Result<Self, XdrError>) {
        match u32::deserialize(src) {
            Err(e) => Err(e),
            Ok(n) => match stable_how4::from_u32(n) {
                Some(v) => Ok(v),
                None => Err(XdrError::InvalidData),
            },
        }
    }
}

/// The arguments of WRITE.
#[derive(Clone, Debug, PartialEq, Eq)]
pub struct WRITE4args {
    pub stateid: stateid4,
    pub offset: offset4,
    pub stable: stable_how4,
    pub data: Vec<u8>,
}

impl Model for WRITE4args {
    type M = (<stateid4 as Model>::M, (u64, (<stable_how4 as Model>::M, Seq<u8>)));

    open spec fn model(&self) -> Self::M {
        (self.stateid.model(), (self.offset.model(), (self.stable.model(), self.data.model())))
    }
}

impl XDR for WRITE4args {
    open spec fn encodable(m: Self::M) -> bool {
        <(stateid4, (offset4, (stable_how4, Vec<u8>))) as XDR>::encodable(m)
    }

    open spec fn fits(m: Self::M) -> bool {
        <(stateid4, (offset4, (stable_how4, Vec<u8>))) as XDR>::fits(m)
    }

    open spec fn encode(m: Self::M) -> Seq<u8> {
        <(stateid4, (offset4, (stable_how4, Vec<u8>))) as XDR>::encode(m)
    }

    open spec fn decode(b: Seq<u8>) -> Result<(Self::M, nat), XdrError> {
        <(stateid4, (offset4, (stable_how4, Vec<u8>))) as XDR>::decode(b)
    }

    proof fn decode_within(b: Seq<u8>) {
        <(stateid4, (offset4, (stable_how4, Vec<u8>))) as XDR>::decode_within(b);
    }

    proof fn round_trip(m: Self::M, rest: Seq<u8>) {
        <(stateid4, (offset4, (stable_how4, Vec<u8>))) as XDR>::round_trip(m, rest);
    }

    fn serialize(&self, dest: &mut Vec<u8>) {
        self.stateid.serialize(dest);
        self.offset.serialize(dest);
        self.stable.serialize(dest);
        self.data.serialize(dest);
        assert(dest@ =~= old(dest)@ + Self::encode(self.model()));
    }

    fn deserialize(src: &mut Reader) -> (r: Result<Self, XdrError>) {
        match <(stateid4, (offset4, (stable_how4, Vec<u8>))) as XDR>::deserialize(src) {
            Ok((stateid, (offset, (stable, data)))) => Ok(WRITE4args { stateid, offset, stable, data }),
            Err(e) => Err(e),
        }
    }
}

// ---- results ----
/// The result of ACCESS.
#[derive(Clone, Debug, PartialEq, Eq)]
pub struct ACCESS4resok {
    pub supported: u32,
    pub access: u32,
}

impl Model for ACCESS4resok {
    type M = (u32, u32);

    open spec fn model(&self) -> Self::M {
        (self.supported.model(), self.access.model())
    }
}

impl XDR for ACCESS4resok {
    open spec fn encodable(m: Self::M) -> bool {
        <(u32, u32) as XDR>::encodable(m)
    }

    open spec fn fits(m: Self::M) -> bool {
        <(u32, u32) as XDR>::fits(m)
    }

    open spec fn encode(m: Self::M) -> Seq<u8> {
        <(u32, u32) as XDR>::encode(m)
    }

    open spec fn decode(b: Seq<u8>) -> Result<(Self::M, nat), XdrError> {
        <(u32, u32) as XDR>::decode(b)
    }

    proof fn decode_within(b: Seq<u8>) {
        <(u32, u32) as XDR>::decode_within(b);
    }

    proof fn round_trip(m: Self::M, rest: Seq<u8>) {
        <(u32, u32) as XDR>::round_trip(m, rest);
    }

    fn serialize(&self, dest: &mut Vec<u8>) {
        self.supported.serialize(dest);
        self.access.serialize(dest);
        assert(dest@ =~= old(dest)@ + Self::encode(self.model()));
    }

    fn deserialize(src: &mut Reader) -> (r: Result<Self, XdrError>) {
        match <(u32, u32) as XDR>::deserialize(src) {
            Ok((supported, access)) => Ok(ACCESS4resok { supported, access }),
            Err(e) => Err(e),
        }
    }
}

/// A directory before and after it was changed.
#[derive(Copy, Clone, Debug, PartialEq, Eq, Structural)]
pub struct change_info4 {
    pub atomic: bool,
    pub before: changeid4,
    pub after: changeid4,
}

impl Model for change_info4 {
    type M = (bool, (u64, u64));

    open spec fn model(&self) -> Self::M {
        (self.atomic.model(), (self.before.model(), self.after.model()))
    }
}

impl XDR for change_info4 {
    open spec fn encodable(m: Self::M) -> bool {
        <(bool, (changeid4, changeid4)) as XDR>::encodable(m)
    }

    open spec fn fits(m: Self::M) -> bool {
        <(bool, (changeid4, changeid4)) as XDR>::fits(m)
    }

    open spec fn encode(m: Self::M) -> Seq<u8> {
        <(bool, (changeid4, changeid4)) as XDR>::encode(m)
    }

    open spec fn decode(b: Seq<u8>) -> Result<(Self::M, nat), XdrError> {
        <(bool, (changeid4, changeid4)) as XDR>::decode(b)
    }

    proof fn decode_within(b: Seq<u8>) {
        <(bool, (changeid4, changeid4)) as XDR>::decode_within(b);
    }

    proof fn round_trip(m: Self::M, rest: Seq<u8>) {
        <(bool, (changeid4, changeid4)) as XDR>::round_trip(m, rest);
    }

    fn serialize(&self, dest: &mut Vec<u8>) {
        self.atomic.serialize(dest);
        self.before.serialize(dest);
        self.after.serialize(dest);
        assert(dest@ =~= old(dest)@ + Self::encode(self.model()));
    }

    fn deserialize(src: &mut Reader) -> (r: Result<Self, XdrError>) {
        match <(bool, (changeid4, changeid4)) as XDR>::deserialize(src) {
            Ok((atomic, (before, after))) => Ok(change_info4 { atomic, before, after }),
            Err(e) => Err(e),
        }
    }
}

/// The result of COMMIT.
#[derive(Clone, Debug, PartialEq, Eq)]
pub struct COMMIT4resok {
    pub writeverf: verifier4,
}

impl Model for COMMIT4resok {
    type M = verifier4;

    open spec fn model(&self) -> Self::M {
        self.writeverf.model()
    }
}

impl XDR for COMMIT4resok {
    open spec fn encodable(m: Self::M) -> bool {
        <verifier4 as XDR>::encodable(m)
    }

    open spec fn fits(m: Self::M) -> bool {
        <verifier4 as XDR>::fits(m)
    }

    open spec fn encode(m: Self::M) -> Seq<u8> {
        <verifier4 as XDR>::encode(m)
    }

    open spec fn decode(b: Seq<u8>) -> Result<(Self::M, nat), XdrError> {
        <verifier4 as XDR>::decode(b)
    }

    proof fn decode_within(b: Seq<u8>) {
        <verifier4 as XDR>::decode_within(b);
    }

    proof fn round_trip(m: Self::M, rest: Seq<u8>) {
        <verifier4 as XDR>::round_trip(m, rest);
    }

    fn serialize(&self, dest: &mut Vec<u8>) {
        self.writeverf.serialize(dest);
        assert(dest@ =~= old(dest)@ + Self::encode(self.model()));
    }

    fn deserialize(src: &mut Reader) -> (r: Result<Self, XdrError>) {
        match <verifier4 as XDR>::deserialize(src) {
            Ok(writeverf) => Ok(COMMIT4resok { writeverf }),
            Err(e) => Err(e),
        }
    }
}

/// The result of CREATE.
#[derive(Clone, Debug, PartialEq, Eq)]
pub struct CREATE4resok {
    pub cinfo: change_info4,
    pub attrset: bitmap4,
}

impl Model for CREATE4resok {
    type M = (<change_info4 as Model>::M, Seq<u32>);

    open spec fn model(&self) -> Self::M {
        (self.cinfo.model(), self.attrset.model())
    }
}

impl XDR for CREATE4resok {
    open spec fn encodable(m: Self::M) -> bool {
        <(change_info4, bitmap4) as XDR>::encodable(m)
    }

    open spec fn fits(m: Self::M) -> bool {
        <(change_info4, bitmap4) as XDR>::fits(m)
    }

    open spec fn encode(m: Self::M) -> Seq<u8> {
        <(change_info4, bitmap4) as XDR>::encode(m)
    }

    open spec fn decode(b: Seq<u8>) -> Result<(Self::M, nat), XdrError> {
        <(change_info4, bitmap4) as XDR>::decode(b)
    }

    proof fn decode_within(b: Seq<u8>) {
        <(change_info4, bitmap4) as XDR>::decode_within(b);
    }

    proof fn round_trip(m: Self::M, rest: Seq<u8>) {
        <(change_info4, bitmap4) as XDR>::round_trip(m, rest);
    }

    fn serialize(&self, dest: &mut Vec<u8>) {
        self.cinfo.serialize(dest);
        self.attrset.serialize(dest);
        assert(dest@ =~= old(dest)@ + Self::encode(self.model()));
    }

    fn deserialize(src: &mut Reader) -> (r: Result<Self, XdrError>) {
        match <(change_info4, bitmap4) as XDR>::deserialize(src) {
            Ok((cinfo, attrset)) => Ok(CREATE4resok { cinfo, attrset }),
            Err(e) => Err(e),
        }
    }
}

/// The result of OPEN.
#[derive(Clone, Debug, PartialEq, Eq)]
pub struct OPEN4resok {
    pub stateid: stateid4,
    pub cinfo: change_info4,
    pub rflags: u32,
    pub attrset: bitmap4,
    pub delegation: u32,
}

impl Model for OPEN4resok {
    type M = (<stateid4 as Model>::M, (<change_info4 as Model>::M, (u32, (Seq<u32>, u32))));

    open spec fn model(&self) -> Self::M {
        (
            self.stateid.model(),
            (self.cinfo.model(), (self.rflags.model(), (self.attrset.model(), self.delegation.model()))),
        )
    }
}

impl XDR for OPEN4resok {
    open spec fn encodable(m: Self::M) -> bool {
        <(stateid4, (change_info4, (u32, (bitmap4, u32)))) as XDR>::encodable(m)
    }

    open spec fn fits(m: Self::M) -> bool {
        <(stateid4, (change_info4, (u32, (bitmap4, u32)))) as XDR>::fits(m)
    }

    open spec fn encode(m: Self::M) -> Seq<u8> {
        <(stateid4, (change_info4, (u32, (bitmap4, u32)))) as XDR>::encode(m)
    }

    open spec fn decode(b: Seq<u8>) -> Result<(Self::M, nat), XdrError> {
        <(stateid4, (change_info4, (u32, (bitmap4, u32)))) as XDR>::decode(b)
    }

    proof fn decode_within(b: Seq<u8>) {
        <(stateid4, (change_info4, (u32, (bitmap4, u32)))) as XDR>::decode_within(b);
    }

    proof fn round_trip(m: Self::M, rest: Seq<u8>) {
        <(stateid4, (change_info4, (u32, (bitmap4, u32)))) as XDR>::round_trip(m, rest);
    }

    fn serialize(&self, dest: &mut Vec<u8>) {
        self.stateid.serialize(dest);
        self.cinfo.serialize(dest);
        self.rflags.serialize(dest);
        self.attrset.serialize(dest);
        self.delegation.serialize(dest);
        assert(dest@ =~= old(dest)@ + Self::encode(self.model()));
    }

    fn deserialize(src: &mut Reader) -> (r: Result<Self, XdrError>) {
        match <(stateid4, (change_info4, (u32, (bitmap4, u32)))) as XDR>::deserialize(src) {
            Ok((stateid, (cinfo, (rflags, (attrset, delegation))))) => Ok(
                OPEN4resok { stateid, cinfo, rflags, attrset, delegation },
            ),
            Err(e) => Err(e),
        }
    }
}

/// The result of OPEN_CONFIRM.
#[derive(Clone, Debug, PartialEq, Eq)]
pub struct OPEN_CONFIRM4resok {
    pub open_stateid: stateid4,
}

impl Model for OPEN_CONFIRM4resok {
    type M = <stateid4 as Model>::M;

    open spec fn model(&self) -> Self::M {
        self.open_stateid.model()
    }
}

impl XDR for OPEN_CONFIRM4resok {
    open spec fn encodable(m: Self::M) -> bool {
        <stateid4 as XDR>::encodable(m)
    }

    open spec fn fits(m: Self::M) -> bool {
        <stateid4 as XDR>::fits(m)
    }

    open spec fn encode(m: Self::M) -> Seq<u8> {
        <stateid4 as XDR>::encode(m)
    }

    open spec fn decode(b: Seq<u8>) -> Result<(Self::M, nat), XdrError> {
        <stateid4 as XDR>::decode(b)
    }

    proof fn decode_within(b: Seq<u8>) {
        <stateid4 as XDR>::decode_within(b);
    }

    proof fn round_trip(m: Self::M, rest: Seq<u8>) {
        <stateid4 as XDR>::round_trip(m, rest);
    }

    fn serialize(&self, dest: &mut Vec<u8>) {
        self.open_stateid.serialize(dest);
        assert(dest@ =~= old(dest)@ + Self::encode(self.model()));
    }

    fn deserialize(src: &mut Reader) -> (r: Result<Self, XdrError>) {
        match <stateid4 as XDR>::deserialize(src) {
            Ok(open_stateid) => Ok(OPEN_CONFIRM4resok { open_stateid }),
            Err(e) => Err(e),
        }
    }
}

/// The result of READ.
#[derive(Clone, Debug, PartialEq, Eq)]
pub struct READ4resok {
    pub eof: bool,
    pub data: Vec<u8>,
}

impl Model for READ4resok {
    type M = (bool, Seq<u8>);

    open spec fn model(&self) -> Self::M {
        (self.eof.model(), self.data.model())
    }
}

impl XDR for READ4resok {
    open spec fn encodable(m: Self::M) -> bool {
        <(bool, Vec<u8>) as XDR>::encodable(m)
    }

    open spec fn fits(m: Self::M) -> bool {
        <(bool, Vec<u8>) as XDR>::fits(m)
    }

    open spec fn encode(m: Self::M) -> Seq<u8> {
        <(bool, Vec<u8>) as XDR>::encode(m)
    }

    open spec fn decode(b: Seq<u8>) -> Result<(Self::M, nat), XdrError> {
        <(bool, Vec<u8>) as XDR>::decode(b)
    }

    proof fn decode_within(b: Seq<u8>) {
        <(bool, Vec<u8>) as XDR>::decode_within(b);
    }

    proof fn round_trip(m: Self::M, rest: Seq<u8>) {
        <(bool, Vec<u8>) as XDR>::round_trip(m, rest);
    }

    fn serialize(&self, dest: &mut Vec<u8>) {
        self.eof.serialize(dest);
        self.data.serialize(dest);
        assert(dest@ =~= old(dest)@ + Self::encode(self.model()));
    }

    fn deserialize(src: &mut Reader) -> (r: Result<Self, XdrError>) {
        match <(bool, Vec<u8>) as XDR>::deserialize(src) {
            Ok((eof, data)) => Ok(READ4resok { eof, data }),
            Err(e) => Err(e),
        }
    }
}

/// The result of READLINK.
#[derive(Clone, Debug, PartialEq, Eq)]
pub struct READLINK4resok {
    pub link: nfsstring,
}

impl Model for READLINK4resok {
    type M = Seq<u8>;

    open spec fn model(&self) -> Self::M {
        self.link.model()
    }
}

impl XDR for READLINK4resok {
    open spec fn encodable(m: Self::M) -> bool {
        <nfsstring as XDR>::encodable(m)
    }

    open spec fn fits(m: Self::M) -> bool {
        <nfsstring as XDR>::fits(m)
    }

    open spec fn encode(m: Self::M) -> Seq<u8> {
        <nfsstring as XDR>::encode(m)
    }

    open spec fn decode(b: Seq<u8>) -> Result<(Self::M, nat), XdrError> {
        <nfsstring as XDR>::decode(b)
    }

    proof fn decode_within(b: Seq<u8>) {
        <nfsstring as XDR>::decode_within(b);
    }

    proof fn round_trip(m: Self::M, rest: Seq<u8>) {
        <nfsstring as XDR>::round_trip(m, rest);
    }

    fn serialize(&self, dest: &mut Vec<u8>) {
        self.link.serialize(dest);
        assert(dest@ =~= old(dest)@ + Self::encode(self.model()));
    }

    fn deserialize(src: &mut Reader) -> (r: Result<Self, XdrError>) {
        match <nfsstring as XDR>::deserialize(src) {
            Ok(link) => Ok(READLINK4resok { link }),
            Err(e) => Err(e),
        }
    }
}

/// The result of REMOVE.
#[derive(Clone, Debug, PartialEq, Eq)]
pub struct REMOVE4resok {
    pub cinfo: change_info4,
}

impl Model for REMOVE4resok {
    type M = <change_info4 as Model>::M;

    open spec fn model(&self) -> Self::M {
        self.cinfo.model()
    }
}

impl XDR for REMOVE4resok {
    open spec fn encodable(m: Self::M) -> bool {
        <change_info4 as XDR>::encodable(m)
    }

    open spec fn fits(m: Self::M) -> bool {
        <change_info4 as XDR>::fits(m)
    }

    open spec fn encode(m: Self::M) -> Seq<u8> {
        <change_info4 as XDR>::encode(m)
    }

    open spec fn decode(b: Seq<u8>) -> Result<(Self::M, nat), XdrError> {
        <change_info4 as XDR>::decode(b)
    }

    proof fn decode_within(b: Seq<u8>) {
        <change_info4 as XDR>::decode_within(b);
    }

    proof fn round_trip(m: Self::M, rest: Seq<u8>) {
        <change_info4 as XDR>::round_trip(m, rest);
    }

    fn serialize(&self, dest: &mut Vec<u8>) {
        self.cinfo.serialize(dest);
        assert(dest@ =~= old(dest)@ + Self::encode(self.model()));
    }

    fn deserialize(src: &mut Reader) -> (r: Result<Self, XdrError>) {
        match <change_info4 as XDR>::deserialize(src) {
            Ok(cinfo) => Ok(REMOVE4resok { cinfo }),
            Err(e) => Err(e),
        }
    }
}

/// The result of RENAME.
#[derive(Clone, Debug, PartialEq, Eq)]
pub struct RENAME4resok {
    pub source_cinfo: change_info4,
    pub target_cinfo: change_info4,
}

impl Model for RENAME4resok {
    type M = (<change_info4 as Model>::M, <change_info4 as Model>::M);

    open spec fn model(&self) -> Self::M {
        (self.source_cinfo.model(), self.target_cinfo.model())
    }
}

impl XDR for RENAME4resok {
    open spec fn encodable(m: Self::M) -> bool {
        <(change_info4, change_info4) as XDR>::encodable(m)
    }

    open spec fn fits(m: Self::M) -> bool {
        <(change_info4, change_info4) as XDR>::fits(m)
    }

    open spec fn encode(m: Self::M) -> Seq<u8> {
        <(change_info4, change_info4) as XDR>::encode(m)
    }

    open spec fn decode(b: Seq<u8>) -> Result<(Self::M, nat), XdrError> {
        <(change_info4, change_info4) as XDR>::decode(b)
    }

    proof fn decode_within(b: Seq<u8>) {
        <(change_info4, change_info4) as XDR>::decode_within(b);
    }

    proof fn round_trip(m: Self::M, rest: Seq<u8>) {
        <(change_info4, change_info4) as XDR>::round_trip(m, rest);
    }

    fn serialize(&self, dest: &mut Vec<u8>) {
        self.source_cinfo.serialize(dest);
        self.target_cinfo.serialize(dest);
        assert(dest@ =~= old(dest)@ + Self::encode(self.model()));
    }

    fn deserialize(src: &mut Reader) -> (r: Result<Self, XdrError>) {
        match <(change_info4, change_info4) as XDR>::deserialize(src) {
            Ok((source_cinfo, target_cinfo)) => Ok(RENAME4resok { source_cinfo, target_cinfo }),
            Err(e) => Err(e),
        }
    }
}

/// The result of SETCLIENTID.
#[derive(Clone, Debug, PartialEq, Eq)]
pub struct SETCLIENTID4resok {
    pub clientid: clientid4,
    pub setclientid_confirm: verifier4,
}

impl Model for SETCLIENTID4resok {
    type M = (u64, verifier4);

    open spec fn model(&self) -> Self::M {
        (self.clientid.model(), self.setclientid_confirm.model())
    }
}

impl XDR for SETCLIENTID4resok {
    open spec fn encodable(m: Self::M) -> bool {
        <(clientid4, verifier4) as XDR>::encodable(m)
    }

    open spec fn fits(m: Self::M) -> bool {
        <(clientid4, verifier4) as XDR>::fits(m)
    }

    open spec fn encode(m: Self::M) -> Seq<u8> {
        <(clientid4, verifier4) as XDR>::encode(m)
    }

    open spec fn decode(b: Seq<u8>) -> Result<(Self::M, nat), XdrError> {
        <(clientid4, verifier4) as XDR>::decode(b)
    }

    proof fn decode_within(b: Seq<u8>) {
        <(clientid4, verifier4) as XDR>::decode_within(b);
    }

    proof fn round_trip(m: Self::M, rest: Seq<u8>) {
        <(clientid4, verifier4) as XDR>::round_trip(m, rest);
    }

    fn serialize(&self, dest: &mut Vec<u8>) {
        self.clientid.serialize(dest);
        self.setclientid_confirm.serialize(dest);
        assert(dest@ =~= old(dest)@ + Self::encode(self.model()));
    }

    fn deserialize(src: &mut Reader) -> (r: Result<Self, XdrError>) {
        match <(clientid4, verifier4) as XDR>::deserialize(src) {
            Ok((clientid, setclientid_confirm)) => Ok(SETCLIENTID4resok { clientid, setclientid_confirm }),
            Err(e) => Err(e),
        }
    }
}

impl Model for Vec<nfsstat4> {
    type M = Seq<<nfsstat4 as Model>::M>;

    open spec fn model(&self) -> Self::M {
        models(self@)
    }
}

/// A list of statuses.
impl XDR for Vec<nfsstat4> {
    open spec fn encodable(m: Self::M) -> bool {
        items_encodable::<nfsstat4>(m)
    }

    open spec fn fits(m: Self::M) -> bool {
        list_fits::<nfsstat4>(m)
    }

    open spec fn encode(m: Self::M) -> Seq<u8> {
        encode_list::<nfsstat4>(m)
    }

    open spec fn decode(b: Seq<u8>) -> Result<(Self::M, nat), XdrError> {
        decode_list::<nfsstat4>(b)
    }

    proof fn decode_within(b: Seq<u8>) {
        list_within::<nfsstat4>(b);
    }

    proof fn round_trip(m: Self::M, rest: Seq<u8>) {
        list_round_trip::<nfsstat4>(m, rest);
    }

    fn serialize(&self, dest: &mut Vec<u8>) {
        serialize_list(self, dest);
    }

    fn deserialize(src: &mut Reader) -> (r: Result<Self, XdrError>) {
        deserialize_list::<nfsstat4>(src)
    }
}

/// The result of TEST_STATEID.
#[derive(Clone, Debug, PartialEq, Eq)]
pub struct TEST_STATEID4resok {
    pub tsr_status_codes: Vec<nfsstat4>,
}

impl Model for TEST_STATEID4resok {
    type M = Seq<nfsstat4>;

    open spec fn model(&self) -> Self::M {
        self.tsr_status_codes.model()
    }
}

impl XDR for TEST_STATEID4resok {
    open spec fn encodable(m: Self::M) -> bool {
        <Vec<nfsstat4> as XDR>::encodable(m)
    }

    open spec fn fits(m: Self::M) -> bool {
        <Vec<nfsstat4> as XDR>::fits(m)
    }

    open spec fn encode(m: Self::M) -> Seq<u8> {
        <Vec<nfsstat4> as XDR>::encode(m)
    }

    open spec fn decode(b: Seq<u8>) -> Result<(Self::M, nat), XdrError> {
        <Vec<nfsstat4> as XDR>::decode(b)
    }

    proof fn decode_within(b: Seq<u8>) {
        <Vec<nfsstat4> as XDR>::decode_within(b);
    }

    proof fn round_trip(m: Self::M, rest: Seq<u8>) {
        <Vec<nfsstat4> as XDR>::round_trip(m, rest);
    }

    fn serialize(&self, dest: &mut Vec<u8>) {
        self.tsr_status_codes.serialize(dest);
        assert(dest@ =~= old(dest)@ + Self::encode(self.model()));
    }

    fn deserialize(src: &mut Reader) -> (r: Result<Self, XdrError>) {
        match <Vec<nfsstat4> as XDR>::deserialize(src) {
            Ok(tsr_status_codes) => Ok(TEST_STATEID4resok { tsr_status_codes }),
            Err(e) => Err(e),
        }
    }
}

/// The result of WRITE.
#[derive(Clone, Debug, PartialEq, Eq)]
pub struct WRITE4resok {
    pub count: count4,
    pub committed: stable_how4,
    pub writeverf: verifier4,
}

impl Model for WRITE4resok {
    type M = (u32, (<stable_how4 as Model>::M, verifier4));

    open spec fn model(&self) -> Self::M {
        (self.count.model(), (self.committed.model(), self.writeverf.model()))
    }
}

impl XDR for WRITE4resok {
    open spec fn encodable(m: Self::M) -> bool {
        <(count4, (stable_how4, verifier4)) as XDR>::encodable(m)
    }

    open spec fn fits(m: Self::M) -> bool {
        <(count4, (stable_how4, verifier4)) as XDR>::fits(m)
    }

    open spec fn encode(m: Self::M) -> Seq<u8> {
        <(count4, (stable_how4, verifier4)) as XDR>::encode(m)
    }

    open spec fn decode(b: Seq<u8>) -> Result<(Self::M, nat), XdrError> {
        <(count4, (stable_how4, verifier4)) as XDR>::decode(b)
    }

    proof fn decode_within(b: Seq<u8>) {
        <(count4, (stable_how4, verifier4)) as XDR>::decode_within(b);
    }

    proof fn round_trip(m: Self::M, rest: Seq<u8>) {
        <(count4, (stable_how4, verifier4)) as XDR>::round_trip(m, rest);
    }

    fn serialize(&self, dest: &mut Vec<u8>) {
        self.count.serialize(dest);
        self.committed.serialize(dest);
        self.writeverf.serialize(dest);
        assert(dest@ =~= old(dest)@ + Self::encode(self.model()));
    }

    fn deserialize(src: &mut Reader) -> (r: Result<Self, XdrError>) {
        match <(count4, (stable_how4, verifier4)) as XDR>::deserialize(src) {
            Ok((count, (committed, writeverf))) => Ok(WRITE4resok { count, committed, writeverf }),
            Err(e) => Err(e),
        }
    }
}

} // verus!
