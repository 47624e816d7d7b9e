//! The arguments and results of the operations that make and drive a session:
//! EXCHANGE_ID, CREATE_SESSION, DESTROY_SESSION, DESTROY_CLIENTID, SEQUENCE.

use vstd::prelude::*;

use crate::model::{models, Model};
use crate::nfs::nfsstring;
use crate::nfs4::{
    bitmap4, clientid4, count4, nfstime4, sequenceid4, sessionid4, slotid4, utf8str_cis, utf8str_cs, verifier4,
};
use crate::word::{be32, be32_len};
use crate::xdr::{
    decode_list, deserialize_list, encode_items, encode_list, items_encodable, list_fits, list_round_trip, list_within,
    serialize_list, Reader, XdrError, XDR,
};

verus! {

broadcast use be32_len;

// ---- EXCHANGE_ID ----
pub const EXCHGID4_FLAG_SUPP_MOVED_REFER: u32 = 0x00000001;

pub const EXCHGID4_FLAG_SUPP_MOVED_MIGR: u32 = 0x00000002;

pub const EXCHGID4_FLAG_BIND_PRINC_STATEID: u32 = 0x00000100;

pub const EXCHGID4_FLAG_USE_NON_PNFS: u32 = 0x00010000;

pub const EXCHGID4_FLAG_USE_PNFS_MDS: u32 = 0x00020000;

pub const EXCHGID4_FLAG_USE_PNFS_DS: u32 = 0x00040000;

pub const EXCHGID4_FLAG_MASK_PNFS: u32 = 0x00070000;

pub const EXCHGID4_FLAG_UPD_CONFIRMED_REC_A: u32 = 0x40000000;

pub const EXCHGID4_FLAG_CONFIRMED_R: u32 = 0x80000000;

/// How the client asks its state to be protected.
#[derive(Copy, Clone, Debug, PartialEq, Eq, Structural)]
pub enum state_protect_how4 {
    SP4_NONE,
    SP4_MACH_CRED,
    SP4_SSV,
}

impl state_protect_how4 {
    /// The number that stands for the value on the wire.
    pub open spec fn number(self) -> u32 {
        match self {
            state_protect_how4::SP4_NONE => 0,
            state_protect_how4::SP4_MACH_CRED => 1,
            state_protect_how4::SP4_SSV => 2,
        }
    }

    /// The value that a number stands for.
    pub open spec fn of_number(n: u32) -> Option<state_protect_how4> {
        if exists|v: state_protect_how4| v.number() == n {
            Some(choose|v: state_protect_how4| v.number() == n)
        } else {
            None
        }
    }

    /// The number that stands for the value on the wire.
    pub fn to_u32(&self) -> (n: u32)
        ensures
            n == self.number(),
    {
        match self {
            state_protect_how4::SP4_NONE => 0,
            state_protect_how4::SP4_MACH_CRED => 1,
            state_protect_how4::SP4_SSV => 2,
        }
    }

    /// No two values share a number.
    pub proof fn numbers_differ(a: state_protect_how4, b: state_protect_how4)
        requires
            a.number() == b.number(),
        ensures
            a == b,
    {
    }

    /// The value that a number stands for, if it is one that is known.
    pub fn from_u32(n: u32) -> (r: Option<state_protect_how4>)
        ensures
            r == Self::of_number(n),
    {
        let r: Option<state_protect_how4> = match n {
            0 => Some(state_protect_how4::SP4_NONE),
            1 => Some(state_protect_how4::SP4_MACH_CRED),
            2 => Some(state_protect_how4::SP4_SSV),
            _ => None,
        };
        proof {
            if let Some(v) = r {
                assert(v.number() == n);
                Self::numbers_differ(v, choose|w: state_protect_how4| w.number() == n);
            }
        }
        r
    }
}

impl Model for state_protect_how4 {
    type M = state_protect_how4;

    open spec fn model(&self) -> state_protect_how4 {
        *self
    }
}

impl XDR for state_protect_how4 {
    open spec fn encodable(m: state_protect_how4) -> bool {
        true
    }

    open spec fn fits(m: state_protect_how4) -> bool {
        true
    }

    open spec fn encode(m: state_protect_how4) -> Seq<u8> {
        be32(m.number())
    }

    open spec fn decode(b: Seq<u8>) -> Result<(state_protect_how4, nat), XdrError> {
        match u32::decode(b) {
            Err(e) => Err(e),
            Ok((n, k)) => match state_protect_how4::of_number(n) {
                Some(v) => Ok((v, k)),
                None => Err(XdrError::InvalidData),
            },
        }
    }

    proof fn decode_within(b: Seq<u8>) {
    }

    proof fn round_trip(m: state_protect_how4, rest: Seq<u8>) {
        u32::round_trip(m.number(), rest);
        Self::numbers_differ(m, choose|v: state_protect_how4| v.number() == m.number());
    }

    fn serialize(&self, dest: &mut Vec<u8>) {
        self.to_u32().serialize(dest);
    }

    fn deserialize(src: &mut Reader) -> (r: Result<Self, XdrError>) {
        match u32::deserialize(src) {
            Err(e) => Err(e),
            Ok(n) => match state_protect_how4::from_u32(n) {
                Some(v) => Ok(v),
                None => Err(XdrError::InvalidData),
            },
        }
    }
}

impl Default for state_protect_how4 {
    fn default() -> (r: Self)
        ensures
            r == state_protect_how4::SP4_NONE,
    {
        state_protect_how4::SP4_NONE
    }
}

/// client_owner4: verifier and opaque owner id.
#[derive(Clone, Debug, Default, PartialEq, Eq)]
pub struct client_owner4 {
    pub co_verifier: verifier4,
    pub co_ownerid: Vec<u8>,
}

impl Model for client_owner4 {
    type M = (verifier4, Seq<u8>);

    open spec fn model(&self) -> Self::M {
        (self.co_verifier.model(), self.co_ownerid.model())
    }
}

impl XDR for client_owner4 {
    open spec fn encodable(m: Self::M) -> bool {
        <(verifier4, Vec<u8>) as XDR>::encodable(m)
    }

    open spec fn fits(m: Self::M) -> bool {
        <(verifier4, Vec<u8>) as XDR>::fits(m)
    }

    open spec fn encode(m: Self::M) -> Seq<u8> {
        <(verifier4, Vec<u8>) as XDR>::encode(m)
    }

    open spec fn decode(b: Seq<u8>) -> Result<(Self::M, nat), XdrError> {
        <(verifier4, Vec<u8>) as XDR>::decode(b)
    }

    proof fn decode_within(b: Seq<u8>) {
        <(verifier4, Vec<u8>) as XDR>::decode_within(b);
    }

    proof fn round_trip(m: Self::M, rest: Seq<u8>) {
        <(verifier4, Vec<u8>) as XDR>::round_trip(m, rest);
    }

    fn serialize(&self, dest: &mut Vec<u8>) {
        self.co_verifier.serialize(dest);
        self.co_ownerid.serialize(dest);
        assert(dest@ =~= old(dest)@ + Self::encode(self.model()));
    }

    fn deserialize(src: &mut Reader) -> (r: Result<Self, XdrError>) {
        match <(verifier4, Vec<u8>) as XDR>::deserialize(src) {
            Ok((co_verifier, co_ownerid)) => Ok(client_owner4 { co_verifier, co_ownerid }),
            Err(e) => Err(e),
        }
    }
}

/// nfs_impl_id4: who wrote the implementation, and when.
#[derive(Clone, Debug, Default, PartialEq, Eq)]
pub struct nfs_impl_id4 {
    pub nii_domain: utf8str_cis,
    pub nii_name: utf8str_cs,
    pub nii_date: nfstime4,
}

impl Model for nfs_impl_id4 {
    type M = (Seq<u8>, (Seq<u8>, <nfstime4 as Model>::M));

    open spec fn model(&self) -> Self::M {
        (self.nii_domain.model(), (self.nii_name.model(), self.nii_date.model()))
    }
}

impl XDR for nfs_impl_id4 {
    open spec fn encodable(m: Self::M) -> bool {
        <(utf8str_cis, (utf8str_cs, nfstime4)) as XDR>::encodable(m)
    }

    open spec fn fits(m: Self::M) -> bool {
        <(utf8str_cis, (utf8str_cs, nfstime4)) as XDR>::fits(m)
    }

    open spec fn encode(m: Self::M) -> Seq<u8> {
        <(utf8str_cis, (utf8str_cs, nfstime4)) as XDR>::encode(m)
    }

    open spec fn decode(b: Seq<u8>) -> Result<(Self::M, nat), XdrError> {
        <(utf8str_cis, (utf8str_cs, nfstime4)) as XDR>::decode(b)
    }

    proof fn decode_within(b: Seq<u8>) {
        <(utf8str_cis, (utf8str_cs, nfstime4)) as XDR>::decode_within(b);
    }

    proof fn round_trip(m: Self::M, rest: Seq<u8>) {
        <(utf8str_cis, (utf8str_cs, nfstime4)) as XDR>::round_trip(m, rest);
    }

    fn serialize(&self, dest: &mut Vec<u8>) {
        self.nii_domain.serialize(dest);
        self.nii_name.serialize(dest);
        self.nii_date.serialize(dest);
        assert(dest@ =~= old(dest)@ + Self::encode(self.model()));
    }

    fn deserialize(src: &mut Reader) -> (r: Result<Self, XdrError>) {
        match <(utf8str_cis, (utf8str_cs, nfstime4)) as XDR>::deserialize(src) {
            Ok((nii_domain, (nii_name, nii_date))) => Ok(nfs_impl_id4 { nii_domain, nii_name, nii_date }),
            Err(e) => Err(e),
        }
    }
}

/// An `nfs_impl_id4` that may be absent, as an array of at most one.
#[derive(Clone, Debug, Default, PartialEq, Eq)]
pub struct impl_id_optional(pub Option<nfs_impl_id4>);

impl Model for impl_id_optional {
    type M = Option<<nfs_impl_id4 as Model>::M>;

    open spec fn model(&self) -> Self::M {
        match self.0 {
            Some(v) => Some(v.model()),
            None => None,
        }
    }
}

/// A list of one is its one element.
proof fn one_item(v: <nfs_impl_id4 as Model>::M)
    ensures
        encode_list::<nfs_impl_id4>(seq![v]) == be32(1) + nfs_impl_id4::encode(v),
{
    let ids = seq![v];
    let none = Seq::<<nfs_impl_id4 as Model>::M>::empty();
    assert(ids.drop_first() =~= none);
    assert(encode_items::<nfs_impl_id4>(none) =~= Seq::empty());
    assert(encode_items::<nfs_impl_id4>(ids) == nfs_impl_id4::encode(ids.first()) + encode_items::<nfs_impl_id4>(none));
    assert(encode_items::<nfs_impl_id4>(ids) =~= nfs_impl_id4::encode(v));
}

/// The array is read leniently: of a longer one the first element counts.
impl XDR for impl_id_optional {
    open spec fn encodable(m: Self::M) -> bool {
        m matches Some(v) ==> nfs_impl_id4::encodable(v)
    }

    open spec fn fits(m: Self::M) -> bool {
        m matches Some(v) ==> nfs_impl_id4::fits(v)
    }

    open spec fn encode(m: Self::M) -> Seq<u8> {
        match m {
            None => be32(0),
            Some(v) => be32(1) + nfs_impl_id4::encode(v),
        }
    }

    open spec fn decode(b: Seq<u8>) -> Result<(Self::M, nat), XdrError> {
        match decode_list::<nfs_impl_id4>(b) {
            Err(e) => Err(e),
            Ok((ids, n)) => Ok((if ids.len() == 0 { None } else { Some(ids[0]) }, n)),
        }
    }

    proof fn decode_within(b: Seq<u8>) {
        list_within::<nfs_impl_id4>(b);
    }

    proof fn round_trip(m: Self::M, rest: Seq<u8>) {
        match m {
            None => {
                let ids = Seq::<<nfs_impl_id4 as Model>::M>::empty();
                list_round_trip::<nfs_impl_id4>(ids, rest);
                assert(encode_list::<nfs_impl_id4>(ids) =~= be32(0));
            },
            Some(v) => {
                let ids = seq![v];
                list_round_trip::<nfs_impl_id4>(ids, rest);
                one_item(v);
            },
        }
    }

    fn serialize(&self, dest: &mut Vec<u8>) {
        match &self.0 {
            None => 0u32.serialize(dest),
            Some(v) => {
                1u32.serialize(dest);
                v.serialize(dest);
                assert(dest@ =~= old(dest)@ + Self::encode(self.model()));
            },
        }
    }

    fn deserialize(src: &mut Reader) -> (r: Result<Self, XdrError>) {
        match deserialize_list::<nfs_impl_id4>(src) {
            Err(e) => Err(e),
            Ok(mut ids) => if ids.len() == 0 {
                Ok(impl_id_optional(None))
            } else {
                let ghost all = ids@;
                let first = ids.swap_remove(0);
                assert(models(all)[0] == first.model());
                Ok(impl_id_optional(Some(first)))
            },
        }
    }
}

impl Model for Vec<nfsstring> {
    type M = Seq<<nfsstring as Model>::M>;

    open spec fn model(&self) -> Self::M {
        models(self@)
    }
}

/// A list of strings.
impl XDR for Vec<nfsstring> {
    open spec fn encodable(m: Self::M) -> bool {
        items_encodable::<nfsstring>(m)
    }

    open spec fn fits(m: Self::M) -> bool {
        list_fits::<nfsstring>(m)
    }

    open spec fn encode(m: Self::M) -> Seq<u8> {
        encode_list::<nfsstring>(m)
    }

    open spec fn decode(b: Seq<u8>) -> Result<(Self::M, nat), XdrError> {
        decode_list::<nfsstring>(b)
    }

    proof fn decode_within(b: Seq<u8>) {
        list_within::<nfsstring>(b);
    }

    proof fn round_trip(m: Self::M, rest: Seq<u8>) {
        list_round_trip::<nfsstring>(m, rest);
    }

    fn serialize(&self, dest: &mut Vec<u8>) {
        serialize_list(self, dest);
    }

    fn deserialize(src: &mut Reader) -> (r: Result<Self, XdrError>) {
        deserialize_list::<nfsstring>(src)
    }
}

/// The parameters of SP4_SSV.
#[derive(Clone, Debug, PartialEq, Eq)]
pub struct ssv_sp_parms4 {
    pub ssp_ops_enforce: bitmap4,
    pub ssp_ops_allow: bitmap4,
    pub ssp_hash_algs: Vec<nfsstring>,
    pub ssp_encr_algs: Vec<nfsstring>,
    pub ssp_window: u32,
    pub ssp_num_gss_handles: u32,
}

impl Model for ssv_sp_parms4 {
    type M = (Seq<u32>, (Seq<u32>, (Seq<Seq<u8>>, (Seq<Seq<u8>>, (u32, u32)))));

    open spec fn model(&self) -> Self::M {
        (
            self.ssp_ops_enforce.model(),
            (
                self.ssp_ops_allow.model(),
                (
                    self.ssp_hash_algs.model(),
                    (self.ssp_encr_algs.model(), (self.ssp_window.model(), self.ssp_num_gss_handles.model())),
                ),
            ),
        )
    }
}

impl XDR for ssv_sp_parms4 {
    open spec fn encodable(m: Self::M) -> bool {
        <(bitmap4, (bitmap4, (Vec<nfsstring>, (Vec<nfsstring>, (u32, u32))))) as XDR>::encodable(m)
    }

    open spec fn fits(m: Self::M) -> bool {
        <(bitmap4, (bitmap4, (Vec<nfsstring>, (Vec<nfsstring>, (u32, u32))))) as XDR>::fits(m)
    }

    open spec fn encode(m: Self::M) -> Seq<u8> {
        <(bitmap4, (bitmap4, (Vec<nfsstring>, (Vec<nfsstring>, (u32, u32))))) as XDR>::encode(m)
    }

    open spec fn decode(b: Seq<u8>) -> Result<(Self::M, nat), XdrError> {
        <(bitmap4, (bitmap4, (Vec<nfsstring>, (Vec<nfsstring>, (u32, u32))))) as XDR>::decode(b)
    }

    proof fn decode_within(b: Seq<u8>) {
        <(bitmap4, (bitmap4, (Vec<nfsstring>, (Vec<nfsstring>, (u32, u32))))) as XDR>::decode_within(b);
    }

    proof fn round_trip(m: Self::M, rest: Seq<u8>) {
        <(bitmap4, (bitmap4, (Vec<nfsstring>, (Vec<nfsstring>, (u32, u32))))) as XDR>::round_trip(m, rest);
    }

    fn serialize(&self, dest: &mut Vec<u8>) {
        self.ssp_ops_enforce.serialize(dest);
        self.ssp_ops_allow.serialize(dest);
        self.ssp_hash_algs.serialize(dest);
        self.ssp_encr_algs.serialize(dest);
        self.ssp_window.serialize(dest);
        self.ssp_num_gss_handles.serialize(dest);
        assert(dest@ =~= old(dest)@ + Self::encode(self.model()));
    }

    fn deserialize(src: &mut Reader) -> (r: Result<Self, XdrError>) {
        match <(bitmap4, (bitmap4, (Vec<nfsstring>, (Vec<nfsstring>, (u32, u32))))) as XDR>::deserialize(src) {
            Ok(
                (
                    ssp_ops_enforce,
                    (ssp_ops_allow, (ssp_hash_algs, (ssp_encr_algs, (ssp_window, ssp_num_gss_handles)))),
                ),
            ) => Ok(
                ssv_sp_parms4 {
                    ssp_ops_enforce,
                    ssp_ops_allow,
                    ssp_hash_algs,
                    ssp_encr_algs,
                    ssp_window,
                    ssp_num_gss_handles,
                },
            ),
            Err(e) => Err(e),
        }
    }
}

impl ssv_sp_parms4 {
    /// Nothing asked for.
    pub open spec fn blank() -> <ssv_sp_parms4 as Model>::M {
        (Seq::empty(), (Seq::empty(), (Seq::empty(), (Seq::empty(), (0u32, 0u32)))))
    }
}

impl Default for ssv_sp_parms4 {
    fn default() -> (r: Self)
        ensures
            r.model() == Self::blank(),
    {
        let r = ssv_sp_parms4 {
            ssp_ops_enforce: Vec::new(),
            ssp_ops_allow: Vec::new(),
            ssp_hash_algs: Vec::new(),
            ssp_encr_algs: Vec::new(),
            ssp_window: 0,
            ssp_num_gss_handles: 0,
        };
        assert(models(r.ssp_hash_algs@) =~= Seq::empty());
        assert(models(r.ssp_encr_algs@) =~= Seq::empty());
        r
    }
}

/// state_protect4_a. Only SP4_NONE is acted on; the others are read far enough
/// to stay aligned with the stream.
#[derive(Clone, Debug, Default, PartialEq, Eq)]
pub struct state_protect4_a {
    pub spa_how: state_protect_how4,
    /// The operations to enforce and to allow, for SP4_MACH_CRED.
    pub spa_mach_ops: Option<(bitmap4, bitmap4)>,
    /// The parameters of SP4_SSV.
    pub spa_ssv: Option<ssv_sp_parms4>,
}

impl Model for state_protect4_a {
    type M = (state_protect_how4, Option<(Seq<u32>, Seq<u32>)>, Option<<ssv_sp_parms4 as Model>::M>);

    open spec fn model(&self) -> Self::M {
        (
            self.spa_how,
            match self.spa_mach_ops {
                Some((e, a)) => Some((e@, a@)),
                None => None,
            },
            match self.spa_ssv {
                Some(p) => Some(p.model()),
                None => None,
            },
        )
    }
}

impl XDR for state_protect4_a {
    open spec fn encodable(m: Self::M) -> bool {
        m.2 matches Some(p) ==> ssv_sp_parms4::encodable(p)
    }

    /// The wire has only what goes with `spa_how`.
    open spec fn fits(m: Self::M) -> bool {
        match m.0 {
            state_protect_how4::SP4_NONE => m.1 is None && m.2 is None,
            state_protect_how4::SP4_MACH_CRED => m.1 is Some && m.2 is None && <(bitmap4, bitmap4) as XDR>::fits(
                m.1->0,
            ),
            state_protect_how4::SP4_SSV => m.1 is None && m.2 is Some && ssv_sp_parms4::fits(m.2->0),
        }
    }

    open spec fn encode(m: Self::M) -> Seq<u8> {
        state_protect_how4::encode(m.0) + match m.0 {
            state_protect_how4::SP4_NONE => Seq::empty(),
            state_protect_how4::SP4_MACH_CRED => <(bitmap4, bitmap4) as XDR>::encode(
                match m.1 {
                    Some(ops) => ops,
                    None => (Seq::empty(), Seq::empty()),
                },
            ),
            state_protect_how4::SP4_SSV => ssv_sp_parms4::encode(
                match m.2 {
                    Some(p) => p,
                    None => ssv_sp_parms4::blank(),
                },
            ),
        }
    }

    open spec fn decode(b: Seq<u8>) -> Result<(Self::M, nat), XdrError> {
        match state_protect_how4::decode(b) {
            Err(e) => Err(e),
            Ok((how, n)) => match how {
                state_protect_how4::SP4_NONE => Ok(((how, None, None), n)),
                state_protect_how4::SP4_MACH_CRED => match <(bitmap4, bitmap4) as XDR>::decode(b.skip(n as int)) {
                    Err(e) => Err(e),
                    Ok((ops, k)) => Ok(((how, Some(ops), None), n + k)),
                },
                state_protect_how4::SP4_SSV => match ssv_sp_parms4::decode(b.skip(n as int)) {
                    Err(e) => Err(e),
                    Ok((p, k)) => Ok(((how, None, Some(p)), n + k)),
                },
            },
        }
    }

    proof fn decode_within(b: Seq<u8>) {
        state_protect_how4::decode_within(b);
        if let Ok((_, n)) = state_protect_how4::decode(b) {
            <(bitmap4, bitmap4) as XDR>::decode_within(b.skip(n as int));
            ssv_sp_parms4::decode_within(b.skip(n as int));
        }
    }

    proof fn round_trip(m: Self::M, rest: Seq<u8>) {
        let head = state_protect_how4::encode(m.0);
        match m.0 {
            state_protect_how4::SP4_NONE => {
                assert(Self::encode(m) =~= head);
                state_protect_how4::round_trip(m.0, rest);
            },
            state_protect_how4::SP4_MACH_CRED => {
                let body = <(bitmap4, bitmap4) as XDR>::encode(m.1->0);
                assert(Self::encode(m) == head + body);
                assert(head + body + rest =~= head + (body + rest));
                state_protect_how4::round_trip(m.0, body + rest);
                assert((head + (body + rest)).skip(head.len() as int) =~= body + rest);
                <(bitmap4, bitmap4) as XDR>::round_trip(m.1->0, rest);
            },
            state_protect_how4::SP4_SSV => {
                let body = ssv_sp_parms4::encode(m.2->0);
                assert(Self::encode(m) == head + body);
                assert(head + body + rest =~= head + (body + rest));
                state_protect_how4::round_trip(m.0, body + rest);
                assert((head + (body + rest)).skip(head.len() as int) =~= body + rest);
                ssv_sp_parms4::round_trip(m.2->0, rest);
            },
        }
    }

    fn serialize(&self, dest: &mut Vec<u8>) {
        self.spa_how.serialize(dest);
        match self.spa_how {
            state_protect_how4::SP4_NONE => {},
            state_protect_how4::SP4_MACH_CRED => match &self.spa_mach_ops {
                Some((e, a)) => {
                    e.serialize(dest);
                    a.serialize(dest);
                },
                None => {
                    let none: bitmap4 = Vec::new();
                    none.serialize(dest);
                    none.serialize(dest);
                },
            },
            state_protect_how4::SP4_SSV => match &self.spa_ssv {
                Some(p) => p.serialize(dest),
                None => ssv_sp_parms4::default().serialize(dest),
            },
        }
        assert(dest@ =~= old(dest)@ + Self::encode(self.model()));
    }

    fn deserialize(src: &mut Reader) -> (r: Result<Self, XdrError>) {
        let ghost b = src.rest();
        proof {
            Self::decode_within(b);
            state_protect_how4::decode_within(b);
        }
        let spa_how = match state_protect_how4::deserialize(src) {
            Ok(v) => v,
            Err(e) => return Err(e),
        };
        let ghost n = 4int;
        match spa_how {
            state_protect_how4::SP4_NONE => Ok(state_protect4_a { spa_how, spa_mach_ops: None, spa_ssv: None }),
            state_protect_how4::SP4_MACH_CRED => {
                proof {
                    if let Ok((_, k)) = <(bitmap4, bitmap4) as XDR>::decode(b.skip(n)) {
                        assert(b.skip(n).skip(k as int) =~= b.skip(n + k));
                    }
                }
                match <(bitmap4, bitmap4) as XDR>::deserialize(src) {
                    Ok(ops) => Ok(state_protect4_a { spa_how, spa_mach_ops: Some(ops), spa_ssv: None }),
                    Err(e) => Err(e),
                }
            },
            state_protect_how4::SP4_SSV => {
                proof {
                    if let Ok((_, k)) = ssv_sp_parms4::decode(b.skip(n)) {
                        assert(b.skip(n).skip(k as int) =~= b.skip(n + k));
                    }
                }
                match ssv_sp_parms4::deserialize(src) {
                    Ok(p) => Ok(state_protect4_a { spa_how, spa_mach_ops: None, spa_ssv: Some(p) }),
                    Err(e) => Err(e),
                }
            },
        }
    }
}

/// state_protect4_r: the server's answer, which is only ever SP4_NONE.
#[derive(Clone, Debug, Default, PartialEq, Eq)]
pub struct state_protect4_r {
    pub spr_how: state_protect_how4,
}

impl Model for state_protect4_r {
    type M = <state_protect_how4 as Model>::M;

    open spec fn model(&self) -> Self::M {
        self.spr_how.model()
    }
}

impl XDR for state_protect4_r {
    open spec fn encodable(m: Self::M) -> bool {
        <state_protect_how4 as XDR>::encodable(m)
    }

    open spec fn fits(m: Self::M) -> bool {
        <state_protect_how4 as XDR>::fits(m)
    }

    open spec fn encode(m: Self::M) -> Seq<u8> {
        <state_protect_how4 as XDR>::encode(m)
    }

    open spec fn decode(b: Seq<u8>) -> Result<(Self::M, nat), XdrError> {
        <state_protect_how4 as XDR>::decode(b)
    }

    proof fn decode_within(b: Seq<u8>) {
        <state_protect_how4 as XDR>::decode_within(b);
    }

    proof fn round_trip(m: Self::M, rest: Seq<u8>) {
        <state_protect_how4 as XDR>::round_trip(m, rest);
    }

    fn serialize(&self, dest: &mut Vec<u8>) {
        self.spr_how.serialize(dest);
        assert(dest@ =~= old(dest)@ + Self::encode(self.model()));
    }

    fn deserialize(src: &mut Reader) -> (r: Result<Self, XdrError>) {
        match <state_protect_how4 as XDR>::deserialize(src) {
            Ok(spr_how) => Ok(state_protect4_r { spr_how }),
            Err(e) => Err(e),
        }
    }
}

/// The arguments of EXCHANGE_ID.
#[derive(Clone, Debug, Default, PartialEq, Eq)]
pub struct EXCHANGE_ID4args {
    pub eia_clientowner: client_owner4,
    pub eia_flags: u32,
    pub eia_state_protect: state_protect4_a,
    pub eia_client_impl_id: impl_id_optional,
}

impl Model for EXCHANGE_ID4args {
    type M = (<client_owner4 as Model>::M, (u32, (<state_protect4_a as Model>::M, <impl_id_optional as Model>::M)));

    open spec fn model(&self) -> Self::M {
        (
            self.eia_clientowner.model(),
            (self.eia_flags.model(), (self.eia_state_protect.model(), self.eia_client_impl_id.model())),
        )
    }
}

impl XDR for EXCHANGE_ID4args {
    open spec fn encodable(m: Self::M) -> bool {
        <(client_owner4, (u32, (state_protect4_a, impl_id_optional))) as XDR>::encodable(m)
    }

    open spec fn fits(m: Self::M) -> bool {
        <(client_owner4, (u32, (state_protect4_a, impl_id_optional))) as XDR>::fits(m)
    }

    open spec fn encode(m: Self::M) -> Seq<u8> {
        <(client_owner4, (u32, (state_protect4_a, impl_id_optional))) as XDR>::encode(m)
    }

    open spec fn decode(b: Seq<u8>) -> Result<(Self::M, nat), XdrError> {
        <(client_owner4, (u32, (state_protect4_a, impl_id_optional))) as XDR>::decode(b)
    }

    proof fn decode_within(b: Seq<u8>) {
        <(client_owner4, (u32, (state_protect4_a, impl_id_optional))) as XDR>::decode_within(b);
    }

    proof fn round_trip(m: Self::M, rest: Seq<u8>) {
        <(client_owner4, (u32, (state_protect4_a, impl_id_optional))) as XDR>::round_trip(m, rest);
    }

    fn serialize(&self, dest: &mut Vec<u8>) {
        self.eia_clientowner.serialize(dest);
        self.eia_flags.serialize(dest);
        self.eia_state_protect.serialize(dest);
        self.eia_client_impl_id.serialize(dest);
        assert(dest@ =~= old(dest)@ + Self::encode(self.model()));
    }

    fn deserialize(src: &mut Reader) -> (r: Result<Self, XdrError>) {
        match <(client_owner4, (u32, (state_protect4_a, impl_id_optional))) as XDR>::deserialize(src) {
            Ok((eia_clientowner, (eia_flags, (eia_state_protect, eia_client_impl_id)))) => Ok(
                EXCHANGE_ID4args { eia_clientowner, eia_flags, eia_state_protect, eia_client_impl_id },
            ),
            Err(e) => Err(e),
        }
    }
}

/// server_owner4: who the server is.
#[derive(Clone, Debug, Default, PartialEq, Eq)]
pub struct server_owner4 {
    pub so_minor_id: u64,
    pub so_major_id: Vec<u8>,
}

impl Model for server_owner4 {
    type M = (u64, Seq<u8>);

    open spec fn model(&self) -> Self::M {
        (self.so_minor_id.model(), self.so_major_id.model())
    }
}

impl XDR for server_owner4 {
    open spec fn encodable(m: Self::M) -> bool {
        <(u64, Vec<u8>) as XDR>::encodable(m)
    }

    open spec fn fits(m: Self::M) -> bool {
        <(u64, Vec<u8>) as XDR>::fits(m)
    }

    open spec fn encode(m: Self::M) -> Seq<u8> {
        <(u64, Vec<u8>) as XDR>::encode(m)
    }

    open spec fn decode(b: Seq<u8>) -> Result<(Self::M, nat), XdrError> {
        <(u64, Vec<u8>) as XDR>::decode(b)
    }

    proof fn decode_within(b: Seq<u8>) {
        <(u64, Vec<u8>) as XDR>::decode_within(b);
    }

    proof fn round_trip(m: Self::M, rest: Seq<u8>) {
        <(u64, Vec<u8>) as XDR>::round_trip(m, rest);
    }

    fn serialize(&self, dest: &mut Vec<u8>) {
        self.so_minor_id.serialize(dest);
        self.so_major_id.serialize(dest);
        assert(dest@ =~= old(dest)@ + Self::encode(self.model()));
    }

    fn deserialize(src: &mut Reader) -> (r: Result<Self, XdrError>) {
        match <(u64, Vec<u8>) as XDR>::deserialize(src) {
            Ok((so_minor_id, so_major_id)) => Ok(server_owner4 { so_minor_id, so_major_id }),
            Err(e) => Err(e),
        }
    }
}

/// The result of EXCHANGE_ID.
#[derive(Clone, Debug, Default, PartialEq, Eq)]
pub struct EXCHANGE_ID4resok {
    pub eir_clientid: clientid4,
    pub eir_sequenceid: sequenceid4,
    pub eir_flags: u32,
    pub eir_state_protect: state_protect4_r,
    pub eir_server_owner: server_owner4,
    pub eir_server_scope: Vec<u8>,
    pub eir_server_impl_id: impl_id_optional,
}

impl Model for EXCHANGE_ID4resok {
    type M = (
        u64,
        (
            u32,
            (
                u32,
                (
                    <state_protect4_r as Model>::M,
                    (<server_owner4 as Model>::M, (Seq<u8>, <impl_id_optional as Model>::M)),
                ),
            ),
        ),
    );

    open spec fn model(&self) -> Self::M {
        (
            self.eir_clientid.model(),
            (
                self.eir_sequenceid.model(),
                (
                    self.eir_flags.model(),
                    (
                        self.eir_state_protect.model(),
                        (
                            self.eir_server_owner.model(),
                            (self.eir_server_scope.model(), self.eir_server_impl_id.model()),
                        ),
                    ),
                ),
            ),
        )
    }
}

impl XDR for EXCHANGE_ID4resok {
    open spec fn encodable(m: Self::M) -> bool {
        <(
            clientid4,
            (sequenceid4, (u32, (state_protect4_r, (server_owner4, (Vec<u8>, impl_id_optional))))),
        ) as XDR>::encodable(m)
    }

    open spec fn fits(m: Self::M) -> bool {
        <(
            clientid4,
            (sequenceid4, (u32, (state_protect4_r, (server_owner4, (Vec<u8>, impl_id_optional))))),
        ) as XDR>::fits(m)
    }

    open spec fn encode(m: Self::M) -> Seq<u8> {
        <(
            clientid4,
            (sequenceid4, (u32, (state_protect4_r, (server_owner4, (Vec<u8>, impl_id_optional))))),
        ) as XDR>::encode(m)
    }

    open spec fn decode(b: Seq<u8>) -> Result<(Self::M, nat), XdrError> {
        <(
            clientid4,
            (sequenceid4, (u32, (state_protect4_r, (server_owner4, (Vec<u8>, impl_id_optional))))),
        ) as XDR>::decode(b)
    }

    proof fn decode_within(b: Seq<u8>) {
        <(
            clientid4,
            (sequenceid4, (u32, (state_protect4_r, (server_owner4, (Vec<u8>, impl_id_optional))))),
        ) as XDR>::decode_within(b);
    }

    proof fn round_trip(m: Self::M, rest: Seq<u8>) {
        <(
            clientid4,
            (sequenceid4, (u32, (state_protect4_r, (server_owner4, (Vec<u8>, impl_id_optional))))),
        ) as XDR>::round_trip(m, rest);
    }

    fn serialize(&self, dest: &mut Vec<u8>) {
        self.eir_clientid.serialize(dest);
        self.eir_sequenceid.serialize(dest);
        self.eir_flags.serialize(dest);
        self.eir_state_protect.serialize(dest);
        self.eir_server_owner.serialize(dest);
        self.eir_server_scope.serialize(dest);
        self.eir_server_impl_id.serialize(dest);
        assert(dest@ =~= old(dest)@ + Self::encode(self.model()));
    }

    fn deserialize(src: &mut Reader) -> (r: Result<Self, XdrError>) {
        match <(
            clientid4,
            (sequenceid4, (u32, (state_protect4_r, (server_owner4, (Vec<u8>, impl_id_optional))))),
        ) as XDR>::deserialize(src) {
            Ok(
                (
                    eir_clientid,
                    (
                        eir_sequenceid,
                        (eir_flags, (eir_state_protect, (eir_server_owner, (eir_server_scope, eir_server_impl_id)))),
                    ),
                ),
            ) => Ok(
                EXCHANGE_ID4resok {
                    eir_clientid,
                    eir_sequenceid,
                    eir_flags,
                    eir_state_protect,
                    eir_server_owner,
                    eir_server_scope,
                    eir_server_impl_id,
                },
            ),
            Err(e) => Err(e),
        }
    }
}

// ---- CREATE_SESSION ----
pub const CREATE_SESSION4_FLAG_PERSIST: u32 = 0x00000001;

pub const CREATE_SESSION4_FLAG_CONN_BACK_CHAN: u32 = 0x00000002;

pub const CREATE_SESSION4_FLAG_CONN_RDMA: u32 = 0x00000004;

/// What one direction of a session can carry.
#[derive(Clone, Debug, Default, PartialEq, Eq)]
pub struct channel_attrs4 {
    pub ca_headerpadsize: count4,
    pub ca_maxrequestsize: count4,
    pub ca_maxresponsesize: count4,
    pub ca_maxresponsesize_cached: count4,
    pub ca_maxoperations: count4,
    pub ca_maxrequests: count4,
    /// rdma_ird<0..1> — optional array of one u32.
    pub ca_rdma_ird: Vec<u32>,
}

impl Model for channel_attrs4 {
    type M = (u32, (u32, (u32, (u32, (u32, (u32, Seq<u32>))))));

    open spec fn model(&self) -> Self::M {
        (
            self.ca_headerpadsize.model(),
            (
                self.ca_maxrequestsize.model(),
                (
                    self.ca_maxresponsesize.model(),
                    (
                        self.ca_maxresponsesize_cached.model(),
                        (self.ca_maxoperations.model(), (self.ca_maxrequests.model(), self.ca_rdma_ird.model())),
                    ),
                ),
            ),
        )
    }
}

impl XDR for channel_attrs4 {
    open spec fn encodable(m: Self::M) -> bool {
        <(count4, (count4, (count4, (count4, (count4, (count4, Vec<u32>)))))) as XDR>::encodable(m)
    }

    open spec fn fits(m: Self::M) -> bool {
        <(count4, (count4, (count4, (count4, (count4, (count4, Vec<u32>)))))) as XDR>::fits(m)
    }

    open spec fn encode(m: Self::M) -> Seq<u8> {
        <(count4, (count4, (count4, (count4, (count4, (count4, Vec<u32>)))))) as XDR>::encode(m)
    }

    open spec fn decode(b: Seq<u8>) -> Result<(Self::M, nat), XdrError> {
        <(count4, (count4, (count4, (count4, (count4, (count4, Vec<u32>)))))) as XDR>::decode(b)
    }

    proof fn decode_within(b: Seq<u8>) {
        <(count4, (count4, (count4, (count4, (count4, (count4, Vec<u32>)))))) as XDR>::decode_within(b);
    }

    proof fn round_trip(m: Self::M, rest: Seq<u8>) {
        <(count4, (count4, (count4, (count4, (count4, (count4, Vec<u32>)))))) as XDR>::round_trip(m, rest);
    }

    fn serialize(&self, dest: &mut Vec<u8>) {
        self.ca_headerpadsize.serialize(dest);
        self.ca_maxrequestsize.serialize(dest);
        self.ca_maxresponsesize.serialize(dest);
        self.ca_maxresponsesize_cached.serialize(dest);
        self.ca_maxoperations.serialize(dest);
        self.ca_maxrequests.serialize(dest);
        self.ca_rdma_ird.serialize(dest);
        assert(dest@ =~= old(dest)@ + Self::encode(self.model()));
    }

    fn deserialize(src: &mut Reader) -> (r: Result<Self, XdrError>) {
        match <(count4, (count4, (count4, (count4, (count4, (count4, Vec<u32>)))))) as XDR>::deserialize(src) {
            Ok(
                (
                    ca_headerpadsize,
                    (
                        ca_maxrequestsize,
                        (
                            ca_maxresponsesize,
                            (ca_maxresponsesize_cached, (ca_maxoperations, (ca_maxrequests, ca_rdma_ird))),
                        ),
                    ),
                ),
            ) => Ok(
                channel_attrs4 {
                    ca_headerpadsize,
                    ca_maxrequestsize,
                    ca_maxresponsesize,
                    ca_maxresponsesize_cached,
                    ca_maxoperations,
                    ca_maxrequests,
                    ca_rdma_ird,
                },
            ),
            Err(e) => Err(e),
        }
    }
}

/// The AUTH_SYS body of callback security parameters.
#[derive(Clone, Debug, PartialEq, Eq)]
pub struct cbsp_authsys {
    pub stamp: u32,
    pub machinename: nfsstring,
    pub uid: u32,
    pub gid: u32,
    pub gids: Vec<u32>,
}

impl Model for cbsp_authsys {
    type M = (u32, (Seq<u8>, (u32, (u32, Seq<u32>))));

    open spec fn model(&self) -> Self::M {
        (self.stamp.model(), (self.machinename.model(), (self.uid.model(), (self.gid.model(), self.gids.model()))))
    }
}

impl XDR for cbsp_authsys {
    open spec fn encodable(m: Self::M) -> bool {
        <(u32, (nfsstring, (u32, (u32, Vec<u32>)))) as XDR>::encodable(m)
    }

    open spec fn fits(m: Self::M) -> bool {
        <(u32, (nfsstring, (u32, (u32, Vec<u32>)))) as XDR>::fits(m)
    }

    open spec fn encode(m: Self::M) -> Seq<u8> {
        <(u32, (nfsstring, (u32, (u32, Vec<u32>)))) as XDR>::encode(m)
    }

    open spec fn decode(b: Seq<u8>) -> Result<(Self::M, nat), XdrError> {
        <(u32, (nfsstring, (u32, (u32, Vec<u32>)))) as XDR>::decode(b)
    }

    proof fn decode_within(b: Seq<u8>) {
        <(u32, (nfsstring, (u32, (u32, Vec<u32>)))) as XDR>::decode_within(b);
    }

    proof fn round_trip(m: Self::M, rest: Seq<u8>) {
        <(u32, (nfsstring, (u32, (u32, Vec<u32>)))) as XDR>::round_trip(m, rest);
    }

    fn serialize(&self, dest: &mut Vec<u8>) {
        self.stamp.serialize(dest);
        self.machinename.serialize(dest);
        self.uid.serialize(dest);
        self.gid.serialize(dest);
        self.gids.serialize(dest);
        assert(dest@ =~= old(dest)@ + Self::encode(self.model()));
    }

    fn deserialize(src: &mut Reader) -> (r: Result<Self, XdrError>) {
        match <(u32, (nfsstring, (u32, (u32, Vec<u32>)))) as XDR>::deserialize(src) {
            Ok((stamp, (machinename, (uid, (gid, gids))))) => Ok(cbsp_authsys { stamp, machinename, uid, gid, gids }),
            Err(e) => Err(e),
        }
    }
}

impl cbsp_authsys {
    /// Nobody in particular.
    pub open spec fn blank() -> <cbsp_authsys as Model>::M {
        (0u32, (Seq::empty(), (0u32, (0u32, Seq::empty()))))
    }
}

impl Default for cbsp_authsys {
    fn default() -> (r: Self)
        ensures
            r.model() == Self::blank(),
    {
        cbsp_authsys { stamp: 0, machinename: nfsstring(Vec::new()), uid: 0, gid: 0, gids: Vec::new() }
    }
}

/// What a callback is to be signed with. GSS bodies are read to stay aligned
/// with the stream, and not kept.
#[derive(Clone, Debug, Default, PartialEq, Eq)]
pub struct callback_sec_parms4 {
    pub cb_secflavor: u32,
    /// AUTH_SYS body.
    pub cb_sys: Option<cbsp_authsys>,
    /// Present for RPCSEC_GSS; its contents are not parsed.
    pub cb_gss_raw: Option<Vec<u8>>,
}

/// The flavors that can be read.
pub const AUTH_NONE: u32 = 0;

pub const AUTH_SYS: u32 = 1;

pub const RPCSEC_GSS: u32 = 6;

impl Model for callback_sec_parms4 {
    type M = (u32, Option<<cbsp_authsys as Model>::M>, Option<Seq<u8>>);

    open spec fn model(&self) -> Self::M {
        (
            self.cb_secflavor,
            match self.cb_sys {
                Some(v) => Some(v.model()),
                None => None,
            },
            match self.cb_gss_raw {
                Some(v) => Some(v@),
                None => None,
            },
        )
    }
}

impl XDR for callback_sec_parms4 {
    open spec fn encodable(m: Self::M) -> bool {
        m.1 matches Some(v) ==> cbsp_authsys::encodable(v)
    }

    /// AUTH_NONE and AUTH_SYS survive the wire; a GSS body does not.
    open spec fn fits(m: Self::M) -> bool {
        ||| m.0 == AUTH_NONE && m.1 is None && m.2 is None
        ||| m.0 == AUTH_SYS && m.1 is Some && m.2 is None && cbsp_authsys::fits(m.1->0)
    }

    open spec fn encode(m: Self::M) -> Seq<u8> {
        be32(m.0) + if m.0 == AUTH_SYS {
            cbsp_authsys::encode(
                match m.1 {
                    Some(v) => v,
                    None => cbsp_authsys::blank(),
                },
            )
        } else {
            Seq::empty()
        }
    }

    open spec fn decode(b: Seq<u8>) -> Result<(Self::M, nat), XdrError> {
        match u32::decode(b) {
            Err(e) => Err(e),
            Ok((flavor, n)) => if flavor == AUTH_NONE {
                Ok(((flavor, None, None), n))
            } else if flavor == AUTH_SYS {
                match cbsp_authsys::decode(b.skip(n as int)) {
                    Err(e) => Err(e),
                    Ok((v, k)) => Ok(((flavor, Some(v), None), n + k)),
                }
            } else if flavor == RPCSEC_GSS {
                // Service, handle from the server, handle from the client.
                match <(u32, (Vec<u8>, Vec<u8>)) as XDR>::decode(b.skip(n as int)) {
                    Err(e) => Err(e),
                    Ok((_, k)) => Ok(((flavor, None, Some(Seq::empty())), n + k)),
                }
            } else {
                // A body of unknown length.
                Err(XdrError::InvalidData)
            },
        }
    }

    proof fn decode_within(b: Seq<u8>) {
        u32::decode_within(b);
        cbsp_authsys::decode_within(b.skip(4));
        <(u32, (Vec<u8>, Vec<u8>)) as XDR>::decode_within(b.skip(4));
    }

    proof fn round_trip(m: Self::M, rest: Seq<u8>) {
        let head = be32(m.0);
        let body = Self::encode(m).skip(4);
        assert(Self::encode(m) =~= head + body);
        assert(Self::encode(m) + rest =~= head + (body + rest));
        u32::round_trip(m.0, body + rest);
        assert((head + (body + rest)).skip(4) =~= body + rest);
        if m.0 == AUTH_SYS {
            assert(body =~= cbsp_authsys::encode(m.1->0));
            cbsp_authsys::round_trip(m.1->0, rest);
        }
    }

    fn serialize(&self, dest: &mut Vec<u8>) {
        self.cb_secflavor.serialize(dest);
        if self.cb_secflavor == AUTH_SYS {
            match &self.cb_sys {
                Some(v) => v.serialize(dest),
                None => cbsp_authsys::default().serialize(dest),
            }
        }
        assert(dest@ =~= old(dest)@ + Self::encode(self.model()));
    }

    fn deserialize(src: &mut Reader) -> (r: Result<Self, XdrError>) {
        let ghost b = src.rest();
        let cb_secflavor: u32 = match u32::deserialize(src) {
            Ok(v) => v,
            Err(e) => return Err(e),
        };
        if cb_secflavor == AUTH_NONE {
            return Ok(callback_sec_parms4 { cb_secflavor, cb_sys: None, cb_gss_raw: None });
        }
        if cb_secflavor == AUTH_SYS {
            proof {
                cbsp_authsys::decode_within(b.skip(4));
                if let Ok((_, k)) = cbsp_authsys::decode(b.skip(4)) {
                    assert(b.skip(4).skip(k as int) =~= b.skip((4 + k) as int));
                }
            }
            return match cbsp_authsys::deserialize(src) {
                Ok(v) => Ok(callback_sec_parms4 { cb_secflavor, cb_sys: Some(v), cb_gss_raw: None }),
                Err(e) => Err(e),
            };
        }
        if cb_secflavor == RPCSEC_GSS {
            proof {
                <(u32, (Vec<u8>, Vec<u8>)) as XDR>::decode_within(b.skip(4));
                if let Ok((_, k)) = <(u32, (Vec<u8>, Vec<u8>)) as XDR>::decode(b.skip(4)) {
                    assert(b.skip(4).skip(k as int) =~= b.skip((4 + k) as int));
                }
            }
            return match <(u32, (Vec<u8>, Vec<u8>)) as XDR>::deserialize(src) {
                Ok(_) => {
                    let raw: Vec<u8> = Vec::new();
                    assert(raw@ =~= Seq::empty());
                    Ok(callback_sec_parms4 { cb_secflavor, cb_sys: None, cb_gss_raw: Some(raw) })
                },
                Err(e) => Err(e),
            };
        }
        Err(XdrError::InvalidData)
    }
}

impl Model for Vec<callback_sec_parms4> {
    type M = Seq<<callback_sec_parms4 as Model>::M>;

    open spec fn model(&self) -> Self::M {
        models(self@)
    }
}

/// A list of callback security parameters.
impl XDR for Vec<callback_sec_parms4> {
    open spec fn encodable(m: Self::M) -> bool {
        items_encodable::<callback_sec_parms4>(m)
    }

    open spec fn fits(m: Self::M) -> bool {
        list_fits::<callback_sec_parms4>(m)
    }

    open spec fn encode(m: Self::M) -> Seq<u8> {
        encode_list::<callback_sec_parms4>(m)
    }

    open spec fn decode(b: Seq<u8>) -> Result<(Self::M, nat), XdrError> {
        decode_list::<callback_sec_parms4>(b)
    }

    proof fn decode_within(b: Seq<u8>) {
        list_within::<callback_sec_parms4>(b);
    }

    proof fn round_trip(m: Self::M, rest: Seq<u8>) {
        list_round_trip::<callback_sec_parms4>(m, rest);
    }

    fn serialize(&self, dest: &mut Vec<u8>) {
        serialize_list(self, dest);
    }

    fn deserialize(src: &mut Reader) -> (r: Result<Self, XdrError>) {
        deserialize_list::<callback_sec_parms4>(src)
    }
}

/// The arguments of CREATE_SESSION.
#[derive(Clone, Debug, Default, PartialEq, Eq)]
pub struct CREATE_SESSION4args {
    pub csa_clientid: clientid4,
    pub csa_sequence: sequenceid4,
    pub csa_flags: u32,
    pub csa_fore_chan_attrs: channel_attrs4,
    pub csa_back_chan_attrs: channel_attrs4,
    pub csa_cb_program: u32,
    pub csa_sec_parms: Vec<callback_sec_parms4>,
}

impl Model for CREATE_SESSION4args {
    type M = (
        u64,
        (
            u32,
            (
                u32,
                (
                    <channel_attrs4 as Model>::M,
                    (<channel_attrs4 as Model>::M, (u32, <Vec<callback_sec_parms4> as Model>::M)),
                ),
            ),
        ),
    );

    open spec fn model(&self) -> Self::M {
        (
            self.csa_clientid.model(),
            (
                self.csa_sequence.model(),
                (
                    self.csa_flags.model(),
                    (
                        self.csa_fore_chan_attrs.model(),
                        (self.csa_back_chan_attrs.model(), (self.csa_cb_program.model(), self.csa_sec_parms.model())),
                    ),
                ),
            ),
        )
    }
}

impl XDR for CREATE_SESSION4args {
    open spec fn encodable(m: Self::M) -> bool {
        <(
            clientid4,
            (sequenceid4, (u32, (channel_attrs4, (channel_attrs4, (u32, Vec<callback_sec_parms4>))))),
        ) as XDR>::encodable(m)
    }

    open spec fn fits(m: Self::M) -> bool {
        <(
            clientid4,
            (sequenceid4, (u32, (channel_attrs4, (channel_attrs4, (u32, Vec<callback_sec_parms4>))))),
        ) as XDR>::fits(m)
    }

    open spec fn encode(m: Self::M) -> Seq<u8> {
        <(
            clientid4,
            (sequenceid4, (u32, (channel_attrs4, (channel_attrs4, (u32, Vec<callback_sec_parms4>))))),
        ) as XDR>::encode(m)
    }

    open spec fn decode(b: Seq<u8>) -> Result<(Self::M, nat), XdrError> {
        <(
            clientid4,
            (sequenceid4, (u32, (channel_attrs4, (channel_attrs4, (u32, Vec<callback_sec_parms4>))))),
        ) as XDR>::decode(b)
    }

    proof fn decode_within(b: Seq<u8>) {
        <(
            clientid4,
            (sequenceid4, (u32, (channel_attrs4, (channel_attrs4, (u32, Vec<callback_sec_parms4>))))),
        ) as XDR>::decode_within(b);
    }

    proof fn round_trip(m: Self::M, rest: Seq<u8>) {
        <(
            clientid4,
            (sequenceid4, (u32, (channel_attrs4, (channel_attrs4, (u32, Vec<callback_sec_parms4>))))),
        ) as XDR>::round_trip(m, rest);
    }

    fn serialize(&self, dest: &mut Vec<u8>) {
        self.csa_clientid.serialize(dest);
        self.csa_sequence.serialize(dest);
        self.csa_flags.serialize(dest);
        self.csa_fore_chan_attrs.serialize(dest);
        self.csa_back_chan_attrs.serialize(dest);
        self.csa_cb_program.serialize(dest);
        self.csa_sec_parms.serialize(dest);
        assert(dest@ =~= old(dest)@ + Self::encode(self.model()));
    }

    fn deserialize(src: &mut Reader) -> (r: Result<Self, XdrError>) {
        match <(
            clientid4,
            (sequenceid4, (u32, (channel_attrs4, (channel_attrs4, (u32, Vec<callback_sec_parms4>))))),
        ) as XDR>::deserialize(src) {
            Ok(
                (
                    csa_clientid,
                    (
                        csa_sequence,
                        (csa_flags, (csa_fore_chan_attrs, (csa_back_chan_attrs, (csa_cb_program, csa_sec_parms)))),
                    ),
                ),
            ) => Ok(
                CREATE_SESSION4args {
                    csa_clientid,
                    csa_sequence,
                    csa_flags,
                    csa_fore_chan_attrs,
                    csa_back_chan_attrs,
                    csa_cb_program,
                    csa_sec_parms,
                },
            ),
            Err(e) => Err(e),
        }
    }
}

/// The result of CREATE_SESSION.
#[derive(Clone, Debug, Default, PartialEq, Eq)]
pub struct CREATE_SESSION4resok {
    pub csr_sessionid: sessionid4,
    pub csr_sequence: sequenceid4,
    pub csr_flags: u32,
    pub csr_fore_chan_attrs: channel_attrs4,
    pub csr_back_chan_attrs: channel_attrs4,
}

impl Model for CREATE_SESSION4resok {
    type M = (sessionid4, (u32, (u32, (<channel_attrs4 as Model>::M, <channel_attrs4 as Model>::M))));

    open spec fn model(&self) -> Self::M {
        (
            self.csr_sessionid.model(),
            (
                self.csr_sequence.model(),
                (self.csr_flags.model(), (self.csr_fore_chan_attrs.model(), self.csr_back_chan_attrs.model())),
            ),
        )
    }
}

impl XDR for CREATE_SESSION4resok {
    open spec fn encodable(m: Self::M) -> bool {
        <(sessionid4, (sequenceid4, (u32, (channel_attrs4, channel_attrs4)))) as XDR>::encodable(m)
    }

    open spec fn fits(m: Self::M) -> bool {
        <(sessionid4, (sequenceid4, (u32, (channel_attrs4, channel_attrs4)))) as XDR>::fits(m)
    }

    open spec fn encode(m: Self::M) -> Seq<u8> {
        <(sessionid4, (sequenceid4, (u32, (channel_attrs4, channel_attrs4)))) as XDR>::encode(m)
    }

    open spec fn decode(b: Seq<u8>) -> Result<(Self::M, nat), XdrError> {
        <(sessionid4, (sequenceid4, (u32, (channel_attrs4, channel_attrs4)))) as XDR>::decode(b)
    }

    proof fn decode_within(b: Seq<u8>) {
        <(sessionid4, (sequenceid4, (u32, (channel_attrs4, channel_attrs4)))) as XDR>::decode_within(b);
    }

    proof fn round_trip(m: Self::M, rest: Seq<u8>) {
        <(sessionid4, (sequenceid4, (u32, (channel_attrs4, channel_attrs4)))) as XDR>::round_trip(m, rest);
    }

    fn serialize(&self, dest: &mut Vec<u8>) {
        self.csr_sessionid.serialize(dest);
        self.csr_sequence.serialize(dest);
        self.csr_flags.serialize(dest);
        self.csr_fore_chan_attrs.serialize(dest);
        self.csr_back_chan_attrs.serialize(dest);
        assert(dest@ =~= old(dest)@ + Self::encode(self.model()));
    }

    fn deserialize(src: &mut Reader) -> (r: Result<Self, XdrError>) {
        match <(sessionid4, (sequenceid4, (u32, (channel_attrs4, channel_attrs4)))) as XDR>::deserialize(src) {
            Ok((csr_sessionid, (csr_sequence, (csr_flags, (csr_fore_chan_attrs, csr_back_chan_attrs))))) => Ok(
                CREATE_SESSION4resok {
                    csr_sessionid,
                    csr_sequence,
                    csr_flags,
                    csr_fore_chan_attrs,
                    csr_back_chan_attrs,
                },
            ),
            Err(e) => Err(e),
        }
    }
}

// ---- DESTROY_SESSION, DESTROY_CLIENTID ----
/// The arguments of DESTROY_SESSION.
#[derive(Clone, Debug, Default, PartialEq, Eq)]
pub struct DESTROY_SESSION4args {
    pub dsa_sessionid: sessionid4,
}

impl Model for DESTROY_SESSION4args {
    type M = sessionid4;

    open spec fn model(&self) -> Self::M {
        self.dsa_sessionid.model()
    }
}

impl XDR for DESTROY_SESSION4args {
    open spec fn encodable(m: Self::M) -> bool {
        <sessionid4 as XDR>::encodable(m)
    }

    open spec fn fits(m: Self::M) -> bool {
        <sessionid4 as XDR>::fits(m)
    }

    open spec fn encode(m: Self::M) -> Seq<u8> {
        <sessionid4 as XDR>::encode(m)
    }

    open spec fn decode(b: Seq<u8>) -> Result<(Self::M, nat), XdrError> {
        <sessionid4 as XDR>::decode(b)
    }

    proof fn decode_within(b: Seq<u8>) {
        <sessionid4 as XDR>::decode_within(b);
    }

    proof fn round_trip(m: Self::M, rest: Seq<u8>) {
        <sessionid4 as XDR>::round_trip(m, rest);
    }

    fn serialize(&self, dest: &mut Vec<u8>) {
        self.dsa_sessionid.serialize(dest);
        assert(dest@ =~= old(dest)@ + Self::encode(self.model()));
    }

    fn deserialize(src: &mut Reader) -> (r: Result<Self, XdrError>) {
        match <sessionid4 as XDR>::deserialize(src) {
            Ok(dsa_sessionid) => Ok(DESTROY_SESSION4args { dsa_sessionid }),
            Err(e) => Err(e),
        }
    }
}

/// The arguments of DESTROY_CLIENTID.
#[derive(Clone, Debug, Default, PartialEq, Eq)]
pub struct DESTROY_CLIENTID4args {
    pub dca_clientid: clientid4,
}

impl Model for DESTROY_CLIENTID4args {
    type M = u64;

    open spec fn model(&self) -> Self::M {
        self.dca_clientid.model()
    }
}

impl XDR for DESTROY_CLIENTID4args {
    open spec fn encodable(m: Self::M) -> bool {
        <clientid4 as XDR>::encodable(m)
    }

    open spec fn fits(m: Self::M) -> bool {
        <clientid4 as XDR>::fits(m)
    }

    open spec fn encode(m: Self::M) -> Seq<u8> {
        <clientid4 as XDR>::encode(m)
    }

    open spec fn decode(b: Seq<u8>) -> Result<(Self::M, nat), XdrError> {
        <clientid4 as XDR>::decode(b)
    }

    proof fn decode_within(b: Seq<u8>) {
        <clientid4 as XDR>::decode_within(b);
    }

    proof fn round_trip(m: Self::M, rest: Seq<u8>) {
        <clientid4 as XDR>::round_trip(m, rest);
    }

    fn serialize(&self, dest: &mut Vec<u8>) {
        self.dca_clientid.serialize(dest);
        assert(dest@ =~= old(dest)@ + Self::encode(self.model()));
    }

    fn deserialize(src: &mut Reader) -> (r: Result<Self, XdrError>) {
        match <clientid4 as XDR>::deserialize(src) {
            Ok(dca_clientid) => Ok(DESTROY_CLIENTID4args { dca_clientid }),
            Err(e) => Err(e),
        }
    }
}

// ---- SEQUENCE ----
pub const SEQ4_STATUS_CB_PATH_DOWN: u32 = 0x00000001;

pub const SEQ4_STATUS_CB_GSS_CONTEXTS_EXPIRING: u32 = 0x00000002;

pub const SEQ4_STATUS_CB_GSS_CONTEXTS_EXPIRED: u32 = 0x00000004;

pub const SEQ4_STATUS_EXPIRED_ALL_STATE_REVOKED: u32 = 0x00000008;

pub const SEQ4_STATUS_EXPIRED_SOME_STATE_REVOKED: u32 = 0x00000010;

pub const SEQ4_STATUS_ADMIN_STATE_REVOKED: u32 = 0x00000020;

pub const SEQ4_STATUS_RECALLABLE_STATE_REVOKED: u32 = 0x00000040;

pub const SEQ4_STATUS_LEASE_MOVED: u32 = 0x00000080;

pub const SEQ4_STATUS_RESTART_RECLAIM_NEEDED: u32 = 0x00000100;

pub const SEQ4_STATUS_CB_PATH_DOWN_SESSION: u32 = 0x00000200;

pub const SEQ4_STATUS_BACKCHANNEL_FAULT: u32 = 0x00000400;

pub const SEQ4_STATUS_DEVID_CHANGED: u32 = 0x00000800;

pub const SEQ4_STATUS_DEVID_DELETED: u32 = 0x00001000;

/// The arguments of SEQUENCE.
#[derive(Clone, Debug, Default, PartialEq, Eq)]
pub struct SEQUENCE4args {
    pub sa_sessionid: sessionid4,
    pub sa_sequenceid: sequenceid4,
    pub sa_slotid: slotid4,
    pub sa_highest_slotid: slotid4,
    pub sa_cachethis: bool,
}

impl Model for SEQUENCE4args {
    type M = (sessionid4, (u32, (u32, (u32, bool))));

    open spec fn model(&self) -> Self::M {
        (
            self.sa_sessionid.model(),
            (
                self.sa_sequenceid.model(),
                (self.sa_slotid.model(), (self.sa_highest_slotid.model(), self.sa_cachethis.model())),
            ),
        )
    }
}

impl XDR for SEQUENCE4args {
    open spec fn encodable(m: Self::M) -> bool {
        <(sessionid4, (sequenceid4, (slotid4, (slotid4, bool)))) as XDR>::encodable(m)
    }

    open spec fn fits(m: Self::M) -> bool {
        <(sessionid4, (sequenceid4, (slotid4, (slotid4, bool)))) as XDR>::fits(m)
    }

    open spec fn encode(m: Self::M) -> Seq<u8> {
        <(sessionid4, (sequenceid4, (slotid4, (slotid4, bool)))) as XDR>::encode(m)
    }

    open spec fn decode(b: Seq<u8>) -> Result<(Self::M, nat), XdrError> {
        <(sessionid4, (sequenceid4, (slotid4, (slotid4, bool)))) as XDR>::decode(b)
    }

    proof fn decode_within(b: Seq<u8>) {
        <(sessionid4, (sequenceid4, (slotid4, (slotid4, bool)))) as XDR>::decode_within(b);
    }

    proof fn round_trip(m: Self::M, rest: Seq<u8>) {
        <(sessionid4, (sequenceid4, (slotid4, (slotid4, bool)))) as XDR>::round_trip(m, rest);
    }

    fn serialize(&self, dest: &mut Vec<u8>) {
        self.sa_sessionid.serialize(dest);
        self.sa_sequenceid.serialize(dest);
        self.sa_slotid.serialize(dest);
        self.sa_highest_slotid.serialize(dest);
        self.sa_cachethis.serialize(dest);
        assert(dest@ =~= old(dest)@ + Self::encode(self.model()));
    }

    fn deserialize(src: &mut Reader) -> (r: Result<Self, XdrError>) {
        match <(sessionid4, (sequenceid4, (slotid4, (slotid4, bool)))) as XDR>::deserialize(src) {
            Ok((sa_sessionid, (sa_sequenceid, (sa_slotid, (sa_highest_slotid, sa_cachethis))))) => Ok(
                SEQUENCE4args { sa_sessionid, sa_sequenceid, sa_slotid, sa_highest_slotid, sa_cachethis },
            ),
            Err(e) => Err(e),
        }
    }
}

/// The result of SEQUENCE.
#[derive(Clone, Debug, Default, PartialEq, Eq)]
pub struct SEQUENCE4resok {
    pub sr_sessionid: sessionid4,
    pub sr_sequenceid: sequenceid4,
    pub sr_slotid: slotid4,
    pub sr_highest_slotid: slotid4,
    pub sr_target_highest_slotid: slotid4,
    pub sr_status_flags: u32,
}

impl Model for SEQUENCE4resok {
    type M = (sessionid4, (u32, (u32, (u32, (u32, u32)))));

    open spec fn model(&self) -> Self::M {
        (
            self.sr_sessionid.model(),
            (
                self.sr_sequenceid.model(),
                (
                    self.sr_slotid.model(),
                    (
                        self.sr_highest_slotid.model(),
                        (self.sr_target_highest_slotid.model(), self.sr_status_flags.model()),
                    ),
                ),
            ),
        )
    }
}

impl XDR for SEQUENCE4resok {
    open spec fn encodable(m: Self::M) -> bool {
        <(sessionid4, (sequenceid4, (slotid4, (slotid4, (slotid4, u32))))) as XDR>::encodable(m)
    }

    open spec fn fits(m: Self::M) -> bool {
        <(sessionid4, (sequenceid4, (slotid4, (slotid4, (slotid4, u32))))) as XDR>::fits(m)
    }

    open spec fn encode(m: Self::M) -> Seq<u8> {
        <(sessionid4, (sequenceid4, (slotid4, (slotid4, (slotid4, u32))))) as XDR>::encode(m)
    }

    open spec fn decode(b: Seq<u8>) -> Result<(Self::M, nat), XdrError> {
        <(sessionid4, (sequenceid4, (slotid4, (slotid4, (slotid4, u32))))) as XDR>::decode(b)
    }

    proof fn decode_within(b: Seq<u8>) {
        <(sessionid4, (sequenceid4, (slotid4, (slotid4, (slotid4, u32))))) as XDR>::decode_within(b);
    }

    proof fn round_trip(m: Self::M, rest: Seq<u8>) {
        <(sessionid4, (sequenceid4, (slotid4, (slotid4, (slotid4, u32))))) as XDR>::round_trip(m, rest);
    }

    fn serialize(&self, dest: &mut Vec<u8>) {
        self.sr_sessionid.serialize(dest);
        self.sr_sequenceid.serialize(dest);
        self.sr_slotid.serialize(dest);
        self.sr_highest_slotid.serialize(dest);
        self.sr_target_highest_slotid.serialize(dest);
        self.sr_status_flags.serialize(dest);
        assert(dest@ =~= old(dest)@ + Self::encode(self.model()));
    }

    fn deserialize(src: &mut Reader) -> (r: Result<Self, XdrError>) {
        match <(sessionid4, (sequenceid4, (slotid4, (slotid4, (slotid4, u32))))) as XDR>::deserialize(src) {
            Ok(
                (
                    sr_sessionid,
                    (sr_sequenceid, (sr_slotid, (sr_highest_slotid, (sr_target_highest_slotid, sr_status_flags)))),
                ),
            ) => Ok(
                SEQUENCE4resok {
                    sr_sessionid,
                    sr_sequenceid,
                    sr_slotid,
                    sr_highest_slotid,
                    sr_target_highest_slotid,
                    sr_status_flags,
                },
            ),
            Err(e) => Err(e),
        }
    }
}

} // verus!
