//! What both protocol versions share: strings, file handles, device numbers.

use vstd::prelude::*;
use vstd::slice::slice_to_vec;
use vstd::utf8::encode_utf8;

use crate::model::Model;
use crate::nfs3::{fileid3, nfsstat3};
use crate::word::be32_len;
use crate::xdr::{Reader, XdrError, XDR};

verus! {

broadcast use be32_len;

pub const PROGRAM: u32 = 100003;

/// A string of the protocol: bytes that are mostly, but need not be, UTF-8.
#[derive(Default, Clone, Debug, PartialEq, Eq)]
pub struct nfsstring(pub Vec<u8>);

impl nfsstring {
    pub fn len(&self) -> (n: usize)
        ensures
            n == self.model().len(),
    {
        self.0.len()
    }

    pub fn is_empty(&self) -> (b: bool)
        ensures
            b == (self.model().len() == 0),
    {
        self.0.len() == 0
    }
}

impl Model for nfsstring {
    type M = Seq<u8>;

    open spec fn model(&self) -> Seq<u8> {
        self.0@
    }
}

/// On the wire, variable-length opaque data.
impl XDR for nfsstring {
    open spec fn encodable(m: Seq<u8>) -> bool {
        Vec::<u8>::encodable(m)
    }

    open spec fn fits(m: Seq<u8>) -> bool {
        Vec::<u8>::fits(m)
    }

    open spec fn encode(m: Seq<u8>) -> Seq<u8> {
        Vec::<u8>::encode(m)
    }

    open spec fn decode(b: Seq<u8>) -> Result<(Seq<u8>, nat), XdrError> {
        Vec::<u8>::decode(b)
    }

    proof fn decode_within(b: Seq<u8>) {
        Vec::<u8>::decode_within(b);
    }

    proof fn round_trip(m: Seq<u8>, rest: Seq<u8>) {
        Vec::<u8>::round_trip(m, rest);
    }

    fn serialize(&self, dest: &mut Vec<u8>) {
        self.0.serialize(dest);
    }

    fn deserialize(src: &mut Reader) -> (r: Result<Self, XdrError>) {
        match Vec::<u8>::deserialize(src) {
            Ok(v) => Ok(nfsstring(v)),
            Err(e) => Err(e),
        }
    }
}

impl From<Vec<u8>> for nfsstring {
    fn from(value: Vec<u8>) -> (r: Self) {
        nfsstring(value)
    }
}

impl vstd::std_specs::convert::FromSpecImpl<Vec<u8>> for nfsstring {
    open spec fn obeys_from_spec() -> bool {
        true
    }

    open spec fn from_spec(value: Vec<u8>) -> Self {
        nfsstring(value)
    }
}

impl From<&[u8]> for nfsstring {
    fn from(value: &[u8]) -> (r: Self)
        ensures
            r.model() == value@,
    {
        nfsstring(slice_to_vec(value))
    }
}

impl vstd::std_specs::convert::FromSpecImpl<&[u8]> for nfsstring {
    open spec fn obeys_from_spec() -> bool {
        false
    }

    open spec fn from_spec(value: &[u8]) -> Self {
        arbitrary()
    }
}

/// The bytes of a string are its UTF-8 form.
impl From<String> for nfsstring {
    fn from(value: String) -> (r: Self)
        ensures
            r.model() == encode_utf8(value@),
    {
        nfsstring(slice_to_vec(value.as_str().as_bytes()))
    }
}

impl vstd::std_specs::convert::FromSpecImpl<String> for nfsstring {
    open spec fn obeys_from_spec() -> bool {
        false
    }

    open spec fn from_spec(value: String) -> Self {
        arbitrary()
    }
}

impl std::ops::Deref for nfsstring {
    type Target = Vec<u8>;

    fn deref(&self) -> (r: &Vec<u8>)
        ensures
            *r == self.0,
    {
        &self.0
    }
}

impl AsRef<[u8]> for nfsstring {
    fn as_ref(&self) -> (r: &[u8])
        ensures
            r@ == self.model(),
    {
        self.0.as_slice()
    }
}

#[allow(non_camel_case_types)]
pub type opaque = u8;

/// A file handle: bytes that only the server that made them reads.
#[derive(Clone, Debug, PartialEq, Eq)]
pub struct nfs_fh {
    pub data: Vec<u8>,
}

impl Default for nfs_fh {
    fn default() -> (r: Self)
        ensures
            r.model() == Seq::<u8>::empty(),
    {
        nfs_fh { data: Vec::new() }
    }
}

impl Model for nfs_fh {
    type M = Seq<u8>;

    open spec fn model(&self) -> Seq<u8> {
        self.data@
    }
}

/// On the wire, variable-length opaque data.
impl XDR for nfs_fh {
    open spec fn encodable(m: Seq<u8>) -> bool {
        Vec::<u8>::encodable(m)
    }

    open spec fn fits(m: Seq<u8>) -> bool {
        Vec::<u8>::fits(m)
    }

    open spec fn encode(m: Seq<u8>) -> Seq<u8> {
        Vec::<u8>::encode(m)
    }

    open spec fn decode(b: Seq<u8>) -> Result<(Seq<u8>, nat), XdrError> {
        Vec::<u8>::decode(b)
    }

    proof fn decode_within(b: Seq<u8>) {
        Vec::<u8>::decode_within(b);
    }

    proof fn round_trip(m: Seq<u8>, rest: Seq<u8>) {
        Vec::<u8>::round_trip(m, rest);
    }

    fn serialize(&self, dest: &mut Vec<u8>) {
        self.data.serialize(dest);
        assert(Self::encode(self.model()) == Vec::<u8>::encode(self.data.model()));
    }

    fn deserialize(src: &mut Reader) -> (r: Result<Self, XdrError>) {
        match Vec::<u8>::deserialize(src) {
            Ok(v) => Ok(nfs_fh { data: v }),
            Err(e) => Err(e),
        }
    }
}

/// A device number: major and minor.
#[derive(Copy, Clone, Debug, Default, PartialEq, Eq, Structural)]
pub struct specdata {
    pub specdata1: u32,
    pub specdata2: u32,
}

impl Model for specdata {
    type M = (u32, u32);

    open spec fn model(&self) -> Self::M {
        (self.specdata1.model(), self.specdata2.model())
    }
}

impl XDR for specdata {
    open spec fn encodable(m: Self::M) -> bool {
        <(u32, u32) as XDR>::encodable(m)
    }

    open spec fn fits(m: Self::M) -> bool {
        <(u32, u32) as XDR>::fits(m)
    }

    open spec fn encode(m: Self::M) -> Seq<u8> {
        <(u32, u32) as XDR>::encode(m)
    }

    open spec fn decode(b: Seq<u8>) -> Result<(Self::M, nat), XdrError> {
        <(u32, u32) as XDR>::decode(b)
    }

    proof fn decode_within(b: Seq<u8>) {
        <(u32, u32) as XDR>::decode_within(b);
    }

    proof fn round_trip(m: Self::M, rest: Seq<u8>) {
        <(u32, u32) as XDR>::round_trip(m, rest);
    }

    fn serialize(&self, dest: &mut Vec<u8>) {
        self.specdata1.serialize(dest);
        self.specdata2.serialize(dest);
        assert(dest@ =~= old(dest)@ + Self::encode(self.model()));
    }

    fn deserialize(src: &mut Reader) -> (r: Result<Self, XdrError>) {
        match <(u32, u32) as XDR>::deserialize(src) {
            Ok((specdata1, specdata2)) => Ok(specdata { specdata1, specdata2 }),
            Err(e) => Err(e),
        }
    }
}

// ---------------------------------------------------------------- file handles

/// The little-endian bytes of a 32-bit word.
pub open spec fn le32(v: u32) -> Seq<u8> {
    seq![(v % 0x100) as u8, (v / 0x100 % 0x100) as u8, (v / 0x1_0000 % 0x100) as u8, (v / 0x100_0000) as u8]
}

/// The little-endian bytes of a 64-bit word: its low half, then its high half.
pub open spec fn le64(v: u64) -> Seq<u8> {
    le32((v % 0x1_0000_0000) as u32) + le32((v / 0x1_0000_0000) as u32)
}

/// The 32-bit word that four little-endian bytes spell, from position `i` on.
pub open spec fn from_le32(b: Seq<u8>, i: int) -> u32 {
    (b[i] + b[i + 1] * 0x100 + b[i + 2] * 0x1_0000 + b[i + 3] * 0x100_0000) as u32
}

/// The 64-bit word that eight little-endian bytes spell, from position `i` on.
pub open spec fn from_le64(b: Seq<u8>, i: int) -> u64 {
    (from_le32(b, i) + from_le32(b, i + 4) * 0x1_0000_0000) as u64
}

fn push_le32(out: &mut Vec<u8>, v: u32)
    ensures
        final(out)@ == old(out)@ + le32(v),
{
    out.push((v % 0x100) as u8);
    out.push((v / 0x100 % 0x100) as u8);
    out.push((v / 0x1_0000 % 0x100) as u8);
    out.push((v / 0x100_0000) as u8);
    assert(out@ =~= old(out)@ + le32(v));
}

fn read_le32(b: &Vec<u8>, i: usize) -> (v: u32)
    requires
        i + 4 <= b@.len(),
    ensures
        v == from_le32(b@, i as int),
{
    let n: usize = b.len();
    assert(i + 4 <= n);
    b[i] as u32 + b[i + 1] as u32 * 0x100 + b[i + 2] as u32 * 0x1_0000 + b[i + 3] as u32 * 0x100_0000
}

/// The bytes of a file handle: the boot's epoch twice, then the file's id.
pub open spec fn handle_of(epoch: u32, id: fileid3) -> Seq<u8> {
    le32(epoch) + le32(epoch) + le64(id)
}

/// The file that a handle names. A handle that does not have the form of one is
/// bad; one of another boot is stale.
pub open spec fn file_of(epoch: u32, fh: Seq<u8>) -> Result<fileid3, nfsstat3> {
    if fh.len() != 16 || from_le32(fh, 0) != from_le32(fh, 4) {
        Err(nfsstat3::NFS3ERR_BADHANDLE)
    } else if from_le32(fh, 0) != epoch {
        Err(nfsstat3::NFS3ERR_STALE)
    } else {
        Ok(from_le64(fh, 8))
    }
}

/// Converts the fileid to an opaque NFS file handle.
pub fn id_to_fh(epoch: u32, id: fileid3) -> (fh: nfs_fh)
    ensures
        fh.model() == handle_of(epoch, id),
{
    let mut data: Vec<u8> = Vec::new();
    push_le32(&mut data, epoch);
    push_le32(&mut data, epoch); // padding
    push_le32(&mut data, (id % 0x1_0000_0000) as u32);
    push_le32(&mut data, (id / 0x1_0000_0000) as u32);
    assert(data@ =~= handle_of(epoch, id));
    nfs_fh { data }
}

/// Converts an opaque NFS file handle to a fileid.
pub fn fh_to_id(epoch: u32, fh: &nfs_fh) -> (r: Result<fileid3, nfsstat3>)
    ensures
        r == file_of(epoch, fh.model()),
{
    if fh.data.len() != 16 {
        return Err(nfsstat3::NFS3ERR_BADHANDLE);
    }
    let gen: u32 = read_le32(&fh.data, 0);
    let padding: u32 = read_le32(&fh.data, 4);
    if gen != padding {
        return Err(nfsstat3::NFS3ERR_BADHANDLE);
    }
    if gen != epoch {
        return Err(nfsstat3::NFS3ERR_STALE);
    }
    Ok(read_le32(&fh.data, 8) as u64 + read_le32(&fh.data, 12) as u64 * 0x1_0000_0000)
}

/// A handle names the file that it was made for, within the same boot.
pub proof fn a_handle_names_its_file(epoch: u32, id: fileid3)
    ensures
        file_of(epoch, handle_of(epoch, id)) == Ok::<fileid3, nfsstat3>(id),
{
    let fh = handle_of(epoch, id);
    le32_round_trip(fh, 0, epoch);
    le32_round_trip(fh, 4, epoch);
    le32_round_trip(fh, 8, (id % 0x1_0000_0000) as u32);
    le32_round_trip(fh, 12, (id / 0x1_0000_0000) as u32);
}

/// A handle of another boot is stale.
pub proof fn a_handle_of_another_boot_is_stale(epoch: u32, other: u32, id: fileid3)
    requires
        epoch != other,
    ensures
        file_of(epoch, handle_of(other, id)) == Err::<fileid3, nfsstat3>(nfsstat3::NFS3ERR_STALE),
{
    let fh = handle_of(other, id);
    le32_round_trip(fh, 0, other);
    le32_round_trip(fh, 4, other);
}

/// Bytes that spell a handle of this boot are the handle of the file they name.
pub proof fn a_named_file_has_one_handle(epoch: u32, fh: Seq<u8>, id: fileid3)
    requires
        file_of(epoch, fh) == Ok::<fileid3, nfsstat3>(id),
    ensures
        fh == handle_of(epoch, id),
{
    let lo = from_le32(fh, 8);
    let hi = from_le32(fh, 12);
    assert(id % 0x1_0000_0000 == lo && id / 0x1_0000_0000 == hi);
    from_le32_round_trip(fh, 0);
    from_le32_round_trip(fh, 4);
    from_le32_round_trip(fh, 8);
    from_le32_round_trip(fh, 12);
    assert(fh =~= fh.subrange(0, 4) + fh.subrange(4, 8) + (fh.subrange(8, 12) + fh.subrange(12, 16)));
}

proof fn le32_round_trip(b: Seq<u8>, i: int, v: u32)
    requires
        0 <= i,
        i + 4 <= b.len(),
        b[i] == le32(v)[0],
        b[i + 1] == le32(v)[1],
        b[i + 2] == le32(v)[2],
        b[i + 3] == le32(v)[3],
    ensures
        from_le32(b, i) == v,
{
}

proof fn from_le32_round_trip(b: Seq<u8>, i: int)
    requires
        0 <= i,
        i + 4 <= b.len(),
    ensures
        le32(from_le32(b, i)) == b.subrange(i, i + 4),
{
    let v = from_le32(b, i);
    let (b0, b1, b2, b3) = (b[i] as int, b[i + 1] as int, b[i + 2] as int, b[i + 3] as int);
    assert(v == b0 + b1 * 0x100 + b2 * 0x1_0000 + b3 * 0x100_0000);
    assert(v % 0x100 == b0);
    assert(v / 0x100 == b1 + b2 * 0x100 + b3 * 0x1_0000);
    assert(v / 0x1_0000 == b2 + b3 * 0x100);
    assert(v / 0x100_0000 == b3);
    assert(le32(v) =~= b.subrange(i, i + 4));
}

/// Words whose bytes differ are different.
pub proof fn words_differ(b: Seq<u8>)
    requires
        8 <= b.len(),
        b.subrange(0, 4) != b.subrange(4, 8),
    ensures
        from_le32(b, 0) != from_le32(b, 4),
{
    from_le32_round_trip(b, 0);
    from_le32_round_trip(b, 4);
}

/// The low half of a write verifier; only the boot half changes across restarts.
pub const WRITE_VERIFIER_LOW: u32 = 0xA5A5_A5A5;

/// Stable per-boot write verifier, derived from the epoch.
pub open spec fn verifier_of(epoch: u32) -> Seq<u8> {
    le32(epoch) + le32(WRITE_VERIFIER_LOW)
}

/// Stable per-boot write verifier, derived from the epoch.
pub fn write_verifier(epoch: u32) -> (v: [u8; 8])
    ensures
        v@ == verifier_of(epoch),
{
    let v: [u8; 8] = [
        (epoch % 0x100) as u8,
        (epoch / 0x100 % 0x100) as u8,
        (epoch / 0x1_0000 % 0x100) as u8,
        (epoch / 0x100_0000) as u8,
        0xA5,
        0xA5,
        0xA5,
        0xA5,
    ];
    proof {
        let low = le32(WRITE_VERIFIER_LOW);
        assert(low =~= seq![0xA5u8, 0xA5u8, 0xA5u8, 0xA5u8]);
        let all = verifier_of(epoch);
        assert(all.len() == 8);
        assert(v@[0] == all[0] && v@[1] == all[1] && v@[2] == all[2] && v@[3] == all[3]);
        assert(all[4] == low[0] && all[5] == low[1] && all[6] == low[2] && all[7] == low[3]);
        assert(v@ =~= all);
    }
    v
}

/// Two boots have different write verifiers.
pub proof fn write_verifiers_differ(a: u32, b: u32)
    requires
        verifier_of(a) == verifier_of(b),
    ensures
        a == b,
{
    le32_round_trip(verifier_of(a), 0, a);
    le32_round_trip(verifier_of(b), 0, b);
}

/// A handle is sixteen bytes: the boot's epoch twice and then the file's number, each with
/// its least significant byte first.
pub proof fn a_handle_is_sixteen_bytes(epoch: u32, id: fileid3)
    ensures
        ({
            let b = handle_of(epoch, id);
            &&& b.len() == 16
            &&& epoch == b[0] + b[1] * 0x100 + b[2] * 0x1_0000 + b[3] * 0x100_0000
            &&& epoch == b[4] + b[5] * 0x100 + b[6] * 0x1_0000 + b[7] * 0x100_0000
            &&& id == b[8] + b[9] * 0x100 + b[10] * 0x1_0000 + b[11] * 0x100_0000 + b[12] * 0x1_0000_0000 + b[13]
                * 0x100_0000_0000 + b[14] * 0x1_0000_0000_0000 + b[15] * 0x100_0000_0000_0000
        }),
{
    let b = handle_of(epoch, id);
    let lo = (id % 0x1_0000_0000) as u32;
    let hi = (id / 0x1_0000_0000) as u32;
    le32_round_trip(b, 0, epoch);
    le32_round_trip(b, 4, epoch);
    le32_round_trip(b, 8, lo);
    le32_round_trip(b, 12, hi);
    assert(from_le32(b, 8) == b[8] + b[9] * 0x100 + b[10] * 0x1_0000 + b[11] * 0x100_0000);
    assert(from_le32(b, 12) == b[12] + b[13] * 0x100 + b[14] * 0x1_0000 + b[15] * 0x100_0000);
}

/// A write verifier is the boot's epoch, least significant byte first, and four bytes that
/// never change.
pub proof fn a_write_verifier_is_eight_bytes(epoch: u32)
    ensures
        ({
            let b = verifier_of(epoch);
            &&& b.len() == 8
            &&& epoch == b[0] + b[1] * 0x100 + b[2] * 0x1_0000 + b[3] * 0x100_0000
            &&& forall|i: int| 4 <= i < 8 ==> #[trigger] b[i] == 0xA5
        }),
{
    let b = verifier_of(epoch);
    le32_round_trip(b, 0, epoch);
    let low = le32(WRITE_VERIFIER_LOW);
    assert(low =~= seq![0xA5u8, 0xA5u8, 0xA5u8, 0xA5u8]);
    assert(b[4] == low[0] && b[5] == low[1] && b[6] == low[2] && b[7] == low[3]);
}

} // verus!
