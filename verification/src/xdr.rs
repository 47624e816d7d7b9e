//! External Data Representation: what a value looks like on the wire, and how the
//! wire is read back.

use vstd::prelude::*;

use crate::model::{models, Model};
use crate::word::{be32, be32_len, from_be32};

verus! {

/// Why a byte string could not be read.
#[derive(Copy, Clone, Debug, PartialEq, Eq, Structural)]
pub enum XdrError {
    /// The input ended inside a value.
    UnexpectedEof,
    /// A discriminant or an enumerated value is not one that is known.
    InvalidData,
}

/// Reads values off the front of a byte string.
pub struct Reader<'a> {
    pub buf: &'a [u8],
    pub pos: usize,
}

impl<'a> Reader<'a> {
    pub open spec fn wf(&self) -> bool {
        self.pos <= self.buf@.len()
    }

    /// What is still to be read.
    pub open spec fn rest(&self) -> Seq<u8> {
        self.buf@.skip(self.pos as int)
    }

    pub fn new(buf: &'a [u8]) -> (r: Reader<'a>)
        ensures
            r.wf(),
            r.buf == buf,
            r.rest() == buf@,
    {
        assert(buf@.skip(0) =~= buf@);
        Reader { buf, pos: 0 }
    }

    /// How many bytes are still to be read.
    pub fn remaining(&self) -> (n: usize)
        requires
            self.wf(),
        ensures
            n == self.rest().len(),
    {
        self.buf.len() - self.pos
    }
}

/// A value with a wire form.
pub trait XDR: Model + Sized {
    /// What `serialize` asks of a value.
    spec fn encodable(m: Self::M) -> bool;

    /// Every length inside the value fits the 32-bit word that carries it, so
    /// that the wire form says all there is to say of the value.
    spec fn fits(m: Self::M) -> bool;

    /// The wire form.
    spec fn encode(m: Self::M) -> Seq<u8>;

    /// What the front of a byte string reads as, and how many bytes that took.
    spec fn decode(b: Seq<u8>) -> Result<(Self::M, nat), XdrError>;

    /// Reading a value never takes more bytes than there are.
    proof fn decode_within(b: Seq<u8>)
        ensures
            Self::decode(b) matches Ok((_, n)) ==> n <= b.len(),
    ;

    /// Reading gives back what was written, and takes exactly the bytes that
    /// writing produced, whatever follows them.
    proof fn round_trip(m: Self::M, rest: Seq<u8>)
        requires
            Self::fits(m),
        ensures
            Self::decode(Self::encode(m) + rest) == Ok::<(Self::M, nat), XdrError>((m, Self::encode(m).len())),
    ;

    /// Append the wire form.
    fn serialize(&self, dest: &mut Vec<u8>)
        requires
            Self::encodable(self.model()),
        ensures
            final(dest)@ == old(dest)@ + Self::encode(self.model()),
    ;

    /// Read one value.
    fn deserialize(src: &mut Reader) -> (r: Result<Self, XdrError>)
        requires
            old(src).wf(),
        ensures
            final(src).wf(),
            final(src).buf == old(src).buf,
            match Self::decode(old(src).rest()) {
                Ok((m, n)) => {
                    &&& r matches Ok(v)
                    &&& v.model() == m
                    &&& final(src).rest() == old(src).rest().skip(n as int)
                },
                Err(e) => r matches Err(x) && x == e,
            },
    ;
}

// ---------------------------------------------------------------- words

broadcast use be32_len;

impl XDR for u32 {
    open spec fn encodable(m: u32) -> bool {
        true
    }

    open spec fn fits(m: u32) -> bool {
        true
    }

    open spec fn encode(m: u32) -> Seq<u8> {
        be32(m)
    }

    open spec fn decode(b: Seq<u8>) -> Result<(u32, nat), XdrError> {
        if b.len() < 4 {
            Err(XdrError::UnexpectedEof)
        } else {
            Ok((from_be32(b), 4))
        }
    }

    proof fn decode_within(b: Seq<u8>) {
    }

    proof fn round_trip(m: u32, rest: Seq<u8>) {
        reveal(be32);
        reveal(from_be32);
    }

    fn serialize(&self, dest: &mut Vec<u8>) {
        let v: u32 = *self;
        reveal(be32);
        dest.push((v / 0x100_0000) as u8);
        dest.push((v / 0x1_0000 % 0x100) as u8);
        dest.push((v / 0x100 % 0x100) as u8);
        dest.push((v % 0x100) as u8);
        assert(dest@ =~= old(dest)@ + be32(v));
    }

    fn deserialize(src: &mut Reader) -> (r: Result<Self, XdrError>) {
        if src.remaining() < 4 {
            return Err(XdrError::UnexpectedEof);
        }
        let p: usize = src.pos;
        reveal(from_be32);
        let v: u32 = src.buf[p] as u32 * 0x100_0000 + src.buf[p + 1] as u32 * 0x1_0000 + src.buf[p + 2] as u32 * 0x100
            + src.buf[p + 3] as u32;
        src.pos = p + 4;
        assert(src.rest() =~= old(src).rest().skip(4));
        Ok(v)
    }
}

/// A 64-bit word is its high half, then its low half.
pub open spec fn be64(v: u64) -> Seq<u8> {
    be32((v / 0x1_0000_0000) as u32) + be32((v % 0x1_0000_0000) as u32)
}

/// The 64-bit word that eight big-endian bytes spell.
pub open spec fn from_be64(b: Seq<u8>) -> u64 {
    (from_be32(b) * 0x1_0000_0000 + from_be32(b.skip(4))) as u64
}

impl XDR for u64 {
    open spec fn encodable(m: u64) -> bool {
        true
    }

    open spec fn fits(m: u64) -> bool {
        true
    }

    open spec fn encode(m: u64) -> Seq<u8> {
        be64(m)
    }

    open spec fn decode(b: Seq<u8>) -> Result<(u64, nat), XdrError> {
        if b.len() < 8 {
            Err(XdrError::UnexpectedEof)
        } else {
            Ok((from_be64(b), 8))
        }
    }

    proof fn decode_within(b: Seq<u8>) {
    }

    proof fn round_trip(m: u64, rest: Seq<u8>) {
        let hi = (m / 0x1_0000_0000) as u32;
        let lo = (m % 0x1_0000_0000) as u32;
        let b = be64(m) + rest;
        u32::round_trip(hi, be32(lo) + rest);
        assert(b =~= be32(hi) + (be32(lo) + rest));
        u32::round_trip(lo, rest);
        assert(b.skip(4) =~= be32(lo) + rest);
    }

    fn serialize(&self, dest: &mut Vec<u8>) {
        let v: u64 = *self;
        ((v / 0x1_0000_0000) as u32).serialize(dest);
        ((v % 0x1_0000_0000) as u32).serialize(dest);
        assert(dest@ =~= old(dest)@ + be64(v));
    }

    fn deserialize(src: &mut Reader) -> (r: Result<Self, XdrError>) {
        if src.remaining() < 8 {
            return Err(XdrError::UnexpectedEof);
        }
        let ghost b = src.rest();
        let hi: u32 = match u32::deserialize(src) {
            Ok(v) => v,
            Err(e) => return Err(e),
        };
        let lo: u32 = match u32::deserialize(src) {
            Ok(v) => v,
            Err(e) => return Err(e),
        };
        assert(b.skip(4).skip(4) =~= b.skip(8));
        Ok(hi as u64 * 0x1_0000_0000 + lo as u64)
    }
}

/// The two's complement pattern of a signed 64-bit number.
pub open spec fn pattern_of(v: i64) -> u64 {
    if v >= 0 {
        v as u64
    } else {
        (v + 0x1_0000_0000_0000_0000) as u64
    }
}

/// The signed 64-bit number with a two's complement pattern.
pub open spec fn signed_of(p: u64) -> i64 {
    if p < 0x8000_0000_0000_0000 {
        p as i64
    } else {
        (p - 0x1_0000_0000_0000_0000) as i64
    }
}

/// A signed 64-bit number travels as its two's complement pattern.
impl XDR for i64 {
    open spec fn encodable(m: i64) -> bool {
        true
    }

    open spec fn fits(m: i64) -> bool {
        true
    }

    open spec fn encode(m: i64) -> Seq<u8> {
        be64(pattern_of(m))
    }

    open spec fn decode(b: Seq<u8>) -> Result<(i64, nat), XdrError> {
        match u64::decode(b) {
            Ok((p, n)) => Ok((signed_of(p), n)),
            Err(e) => Err(e),
        }
    }

    proof fn decode_within(b: Seq<u8>) {
    }

    proof fn round_trip(m: i64, rest: Seq<u8>) {
        u64::round_trip(pattern_of(m), rest);
    }

    fn serialize(&self, dest: &mut Vec<u8>) {
        let v: i64 = *self;
        let p: u64 = if v >= 0 {
            v as u64
        } else {
            // `!v` is `-1 - v`, which is not negative.
            u64::MAX - ((-1 - v) as u64)
        };
        p.serialize(dest);
    }

    fn deserialize(src: &mut Reader) -> (r: Result<Self, XdrError>) {
        match u64::deserialize(src) {
            Ok(p) => Ok(signed_from(p)),
            Err(e) => Err(e),
        }
    }
}

/// The signed 64-bit number with a two's complement pattern.
pub fn signed_from(p: u64) -> (v: i64)
    ensures
        v == signed_of(p),
{
    if p < 0x8000_0000_0000_0000 {
        p as i64
    } else {
        -1 - ((u64::MAX - p) as i64)
    }
}

/// A boolean is a word; any word but zero reads as true.
impl XDR for bool {
    open spec fn encodable(m: bool) -> bool {
        true
    }

    open spec fn fits(m: bool) -> bool {
        true
    }

    open spec fn encode(m: bool) -> Seq<u8> {
        be32(if m { 1 } else { 0 })
    }

    open spec fn decode(b: Seq<u8>) -> Result<(bool, nat), XdrError> {
        match u32::decode(b) {
            Ok((v, n)) => Ok((v != 0, n)),
            Err(e) => Err(e),
        }
    }

    proof fn decode_within(b: Seq<u8>) {
    }

    proof fn round_trip(m: bool, rest: Seq<u8>) {
        u32::round_trip(if m { 1 } else { 0 }, rest);
    }

    fn serialize(&self, dest: &mut Vec<u8>) {
        let v: u32 = if *self { 1 } else { 0 };
        v.serialize(dest);
    }

    fn deserialize(src: &mut Reader) -> (r: Result<Self, XdrError>) {
        match u32::deserialize(src) {
            Ok(v) => Ok(v != 0),
            Err(e) => Err(e),
        }
    }
}

// ---------------------------------------------------------------- bytes

/// The run of bytes that a sequence spells.
pub open spec fn array_of<const N: usize>(s: Seq<u8>) -> [u8; N] {
    choose|a: [u8; N]| a@ == s
}

/// Append a run of bytes.
pub fn append(dest: &mut Vec<u8>, bytes: &[u8])
    ensures
        final(dest)@ == old(dest)@ + bytes@,
{
    dest.extend_from_slice(bytes);
    assert(dest@ =~= old(dest)@ + bytes@);
}

/// A fixed run of bytes stands on the wire as it is.
impl<const N: usize> XDR for [u8; N] {
    open spec fn encodable(m: [u8; N]) -> bool {
        true
    }

    open spec fn fits(m: [u8; N]) -> bool {
        true
    }

    open spec fn encode(m: [u8; N]) -> Seq<u8> {
        m@
    }

    open spec fn decode(b: Seq<u8>) -> Result<([u8; N], nat), XdrError> {
        if b.len() < N {
            Err(XdrError::UnexpectedEof)
        } else {
            Ok((array_of::<N>(b.take(N as int)), N as nat))
        }
    }

    proof fn decode_within(b: Seq<u8>) {
    }

    proof fn round_trip(m: [u8; N], rest: Seq<u8>) {
        assert((m@ + rest).take(N as int) =~= m@);
        let a = array_of::<N>(m@);
        assert(a@ == m@);
        assert(a =~= m);
    }

    fn serialize(&self, dest: &mut Vec<u8>) {
        append(dest, self.as_slice());
    }

    fn deserialize(src: &mut Reader) -> (r: Result<Self, XdrError>) {
        if src.remaining() < N {
            return Err(XdrError::UnexpectedEof);
        }
        let p: usize = src.pos;
        let end: usize = src.buf.len();
        let mut out: [u8; N] = [0u8; N];
        let mut i: usize = 0;
        while i < N
            invariant
                i <= N,
                p + N <= end == src.buf@.len(),
                forall|j: int| 0 <= j < i ==> out@[j] == src.buf@[p + j],
            decreases N - i,
        {
            out[i] = src.buf[p + i];
            i += 1;
        }
        src.pos = p + N;
        proof {
            let s = old(src).rest().take(N as int);
            assert(out@ =~= s);
            let a = array_of::<N>(s);
            assert(a@ == s);
            assert(a =~= out);
            assert(src.rest() =~= old(src).rest().skip(N as int));
        }
        Ok(out)
    }
}

/// How many bytes of padding bring a length to a multiple of four.
pub open spec fn pad_of(n: int) -> int {
    (4 - n % 4) % 4
}

/// That many zero bytes.
pub open spec fn zeros(n: int) -> Seq<u8> {
    Seq::new(n as nat, |i: int| 0u8)
}

/// Variable-length opaque data: length word, bytes, zero padding. The value of
/// the padding is not looked at when it is read.
impl XDR for Vec<u8> {
    open spec fn encodable(m: Seq<u8>) -> bool {
        true
    }

    open spec fn fits(m: Seq<u8>) -> bool {
        m.len() <= u32::MAX
    }

    open spec fn encode(m: Seq<u8>) -> Seq<u8> {
        be32(m.len() as u32) + m + zeros(pad_of(m.len() as int))
    }

    open spec fn decode(b: Seq<u8>) -> Result<(Seq<u8>, nat), XdrError> {
        match u32::decode(b) {
            Err(e) => Err(e),
            Ok((n, _)) => if b.len() < 4 + n + pad_of(n as int) {
                Err(XdrError::UnexpectedEof)
            } else {
                Ok((b.subrange(4, 4 + n), (4 + n + pad_of(n as int)) as nat))
            },
        }
    }

    proof fn decode_within(b: Seq<u8>) {
    }

    proof fn round_trip(m: Seq<u8>, rest: Seq<u8>) {
        let pad = zeros(pad_of(m.len() as int));
        let b = Self::encode(m) + rest;
        assert(b =~= be32(m.len() as u32) + (m + pad + rest));
        u32::round_trip(m.len() as u32, m + pad + rest);
        assert(b.subrange(4, (4 + m.len()) as int) =~= m);
    }

    fn serialize(&self, dest: &mut Vec<u8>) {
        let n: usize = self.len();
        (n as u32).serialize(dest);
        append(dest, self.as_slice());
        let pad: usize = (4 - n % 4) % 4;
        let ghost before = dest@;
        let mut i: usize = 0;
        while i < pad
            invariant
                i <= pad,
                dest@ == before + zeros(i as int),
            decreases pad - i,
        {
            dest.push(0);
            assert(dest@ =~= before + zeros(i + 1));
            i += 1;
        }
        assert(dest@ =~= old(dest)@ + Self::encode(self@));
    }

    fn deserialize(src: &mut Reader) -> (r: Result<Self, XdrError>) {
        let ghost b = src.rest();
        let n32: u32 = match u32::deserialize(src) {
            Ok(v) => v,
            Err(e) => return Err(e),
        };
        let have: usize = src.remaining();
        if (have as u64) < n32 as u64 {
            return Err(XdrError::UnexpectedEof);
        }
        let n: usize = n32 as usize;
        let pad: usize = (4 - n % 4) % 4;
        if have - n < pad {
            return Err(XdrError::UnexpectedEof);
        }
        let p: usize = src.pos;
        let end: usize = src.buf.len();
        assert(p + n + pad <= end);
        let mut out: Vec<u8> = Vec::new();
        append(&mut out, vstd::slice::slice_subrange(src.buf, p, p + n));
        src.pos = p + n + pad;
        proof {
            assert(out@ =~= b.subrange(4, 4 + n));
            assert(src.rest() =~= b.skip(4 + n + pad));
        }
        Ok(out)
    }
}

// ---------------------------------------------------------------- records

/// A record is its fields, one after the other. The model of a record of more
/// than two fields nests to the right, in wire order.
impl<A: XDR, B: XDR> XDR for (A, B) {
    open spec fn encodable(m: (A::M, B::M)) -> bool {
        A::encodable(m.0) && B::encodable(m.1)
    }

    open spec fn fits(m: (A::M, B::M)) -> bool {
        A::fits(m.0) && B::fits(m.1)
    }

    open spec fn encode(m: (A::M, B::M)) -> Seq<u8> {
        A::encode(m.0) + B::encode(m.1)
    }

    open spec fn decode(b: Seq<u8>) -> Result<((A::M, B::M), nat), XdrError> {
        match A::decode(b) {
            Err(e) => Err(e),
            Ok((x, n)) => match B::decode(b.skip(n as int)) {
                Err(e) => Err(e),
                Ok((y, k)) => Ok(((x, y), n + k)),
            },
        }
    }

    proof fn decode_within(b: Seq<u8>) {
        A::decode_within(b);
        if let Ok((_, n)) = A::decode(b) {
            B::decode_within(b.skip(n as int));
        }
    }

    proof fn round_trip(m: (A::M, B::M), rest: Seq<u8>) {
        let ea = A::encode(m.0);
        let eb = B::encode(m.1);
        assert(ea + eb + rest =~= ea + (eb + rest));
        A::round_trip(m.0, eb + rest);
        assert((ea + (eb + rest)).skip(ea.len() as int) =~= eb + rest);
        B::round_trip(m.1, rest);
    }

    fn serialize(&self, dest: &mut Vec<u8>) {
        self.0.serialize(dest);
        self.1.serialize(dest);
        assert(dest@ =~= old(dest)@ + Self::encode(self.model()));
    }

    fn deserialize(src: &mut Reader) -> (r: Result<Self, XdrError>) {
        let ghost b = src.rest();
        let x = match A::deserialize(src) {
            Ok(x) => x,
            Err(e) => return Err(e),
        };
        let y = match B::deserialize(src) {
            Ok(y) => y,
            Err(e) => return Err(e),
        };
        proof {
            Self::decode_within(b);
            A::decode_within(b);
            if let Ok((_, n)) = A::decode(b) {
                if let Ok((_, k)) = B::decode(b.skip(n as int)) {
                    assert(b.skip(n as int).skip(k as int) =~= b.skip((n + k) as int));
                }
            }
        }
        Ok((x, y))
    }
}

/// A tagged value reads as its tag and then as its value.
pub proof fn tagged_round_trip<T: XDR>(tag: u32, m: T::M, rest: Seq<u8>)
    requires
        T::fits(m),
    ensures
        u32::decode(be32(tag) + T::encode(m) + rest) == Ok::<(u32, nat), XdrError>((tag, 4)),
        T::decode((be32(tag) + T::encode(m) + rest).skip(4)) == Ok::<(T::M, nat), XdrError>((m, T::encode(m).len())),
        (be32(tag) + T::encode(m)).len() == 4 + T::encode(m).len(),
{
    let body = T::encode(m);
    assert(be32(tag) + body + rest =~= be32(tag) + (body + rest));
    u32::round_trip(tag, body + rest);
    assert((be32(tag) + (body + rest)).skip(4) =~= body + rest);
    T::round_trip(m, rest);
}

// ---------------------------------------------------------------- lists

/// The wire forms of the elements, one after the other.
pub open spec fn encode_items<T: XDR>(s: Seq<T::M>) -> Seq<u8>
    decreases s.len(),
{
    if s.len() == 0 {
        Seq::empty()
    } else {
        T::encode(s.first()) + encode_items::<T>(s.drop_first())
    }
}

/// A list: how many elements, then the elements.
pub open spec fn encode_list<T: XDR>(s: Seq<T::M>) -> Seq<u8> {
    be32(s.len() as u32) + encode_items::<T>(s)
}

/// What the front of a byte string reads as, taken as `n` elements.
pub open spec fn decode_items<T: XDR>(b: Seq<u8>, n: nat) -> Result<(Seq<T::M>, nat), XdrError>
    decreases n,
{
    if n == 0 {
        Ok((Seq::empty(), 0))
    } else {
        match T::decode(b) {
            Err(e) => Err(e),
            Ok((x, k)) => match decode_items::<T>(b.skip(k as int), (n - 1) as nat) {
                Err(e) => Err(e),
                Ok((xs, j)) => Ok((seq![x] + xs, k + j)),
            },
        }
    }
}

/// What the front of a byte string reads as, taken as a list.
pub open spec fn decode_list<T: XDR>(b: Seq<u8>) -> Result<(Seq<T::M>, nat), XdrError> {
    match u32::decode(b) {
        Err(e) => Err(e),
        Ok((n, k)) => match decode_items::<T>(b.skip(4), n as nat) {
            Err(e) => Err(e),
            Ok((xs, j)) => Ok((xs, k + j)),
        },
    }
}

/// Every element can be written.
pub open spec fn items_encodable<T: XDR>(s: Seq<T::M>) -> bool {
    forall|i: int| 0 <= i < s.len() ==> T::encodable(#[trigger] s[i])
}

/// The length and every element survive the wire.
pub open spec fn list_fits<T: XDR>(s: Seq<T::M>) -> bool {
    s.len() <= u32::MAX && forall|i: int| 0 <= i < s.len() ==> T::fits(#[trigger] s[i])
}

proof fn items_within<T: XDR>(b: Seq<u8>, n: nat)
    ensures
        decode_items::<T>(b, n) matches Ok((xs, j)) ==> j <= b.len() && xs.len() == n,
    decreases n,
{
    if n > 0 {
        T::decode_within(b);
        if let Ok((_, k)) = T::decode(b) {
            items_within::<T>(b.skip(k as int), (n - 1) as nat);
        }
    }
}

pub proof fn list_within<T: XDR>(b: Seq<u8>)
    ensures
        decode_list::<T>(b) matches Ok((_, n)) ==> n <= b.len(),
{
    if let Ok((n, _)) = u32::decode(b) {
        items_within::<T>(b.skip(4), n as nat);
    }
}

proof fn items_round_trip<T: XDR>(s: Seq<T::M>, rest: Seq<u8>)
    requires
        forall|i: int| 0 <= i < s.len() ==> T::fits(#[trigger] s[i]),
    ensures
        decode_items::<T>(encode_items::<T>(s) + rest, s.len()) == Ok::<(Seq<T::M>, nat), XdrError>(
            (s, encode_items::<T>(s).len()),
        ),
    decreases s.len(),
{
    if s.len() == 0 {
        assert(s =~= Seq::empty());
    } else {
        let e = T::encode(s.first());
        let tail = encode_items::<T>(s.drop_first());
        assert(e + tail + rest =~= e + (tail + rest));
        assert(T::fits(s[0]));
        T::round_trip(s.first(), tail + rest);
        assert((e + (tail + rest)).skip(e.len() as int) =~= tail + rest);
        assert forall|i: int| 0 <= i < s.drop_first().len() implies T::fits(#[trigger] s.drop_first()[i]) by {
            assert(s.drop_first()[i] == s[i + 1]);
        }
        items_round_trip::<T>(s.drop_first(), rest);
        assert(seq![s.first()] + s.drop_first() =~= s);
    }
}

pub proof fn list_round_trip<T: XDR>(s: Seq<T::M>, rest: Seq<u8>)
    requires
        list_fits::<T>(s),
    ensures
        decode_list::<T>(encode_list::<T>(s) + rest) == Ok::<(Seq<T::M>, nat), XdrError>(
            (s, encode_list::<T>(s).len()),
        ),
{
    let w = be32(s.len() as u32);
    let items = encode_items::<T>(s);
    assert(w + items + rest =~= w + (items + rest));
    u32::round_trip(s.len() as u32, items + rest);
    assert((w + (items + rest)).skip(4) =~= items + rest);
    items_round_trip::<T>(s, rest);
}

/// One more element stands behind the others.
pub proof fn items_snoc<T: XDR>(s: Seq<T::M>, x: T::M)
    ensures
        encode_items::<T>(s.push(x)) == encode_items::<T>(s) + T::encode(x),
    decreases s.len(),
{
    if s.len() == 0 {
        assert(s.push(x).drop_first() =~= Seq::empty());
        assert(encode_items::<T>(s.push(x)) == T::encode(s.push(x).first()) + encode_items::<T>(Seq::empty()));
        assert(encode_items::<T>(s.push(x)) =~= T::encode(x));
        assert(encode_items::<T>(s) =~= Seq::empty());
    } else {
        assert(s.push(x).drop_first() =~= s.drop_first().push(x));
        items_snoc::<T>(s.drop_first(), x);
        assert(encode_items::<T>(s.push(x)) =~= encode_items::<T>(s) + T::encode(x));
    }
}

/// Append a list.
pub fn serialize_list<T: XDR>(v: &Vec<T>, dest: &mut Vec<u8>)
    requires
        items_encodable::<T>(models(v@)),
    ensures
        final(dest)@ == old(dest)@ + encode_list::<T>(models(v@)),
{
    (v.len() as u32).serialize(dest);
    let ghost before = dest@;
    let ghost ms = models(v@);
    let mut i: usize = 0;
    proof {
        assert(ms.take(0) =~= Seq::<T::M>::empty());
        assert(dest@ =~= before + encode_items::<T>(ms.take(0)));
    }
    while i < v.len()
        invariant
            i <= v@.len(),
            ms == models(v@),
            items_encodable::<T>(ms),
            dest@ == before + encode_items::<T>(ms.take(i as int)),
        decreases v@.len() - i,
    {
        assert(ms[i as int] == v@[i as int].model());
        v[i].serialize(dest);
        proof {
            items_snoc::<T>(ms.take(i as int), ms[i as int]);
            assert(ms.take(i + 1) =~= ms.take(i as int).push(ms[i as int]));
            assert(dest@ =~= before + encode_items::<T>(ms.take(i + 1)));
        }
        i += 1;
    }
    proof {
        assert(ms.take(i as int) =~= ms);
        assert(dest@ =~= old(dest)@ + encode_list::<T>(ms));
    }
}

/// Read a list.
pub fn deserialize_list<T: XDR>(src: &mut Reader) -> (r: Result<Vec<T>, XdrError>)
    requires
        old(src).wf(),
    ensures
        final(src).wf(),
        final(src).buf == old(src).buf,
        match decode_list::<T>(old(src).rest()) {
            Ok((m, n)) => {
                &&& r matches Ok(v)
                &&& models(v@) == m
                &&& final(src).rest() == old(src).rest().skip(n as int)
            },
            Err(e) => r matches Err(x) && x == e,
        },
{
    let ghost b = src.rest();
    let n: u32 = match u32::deserialize(src) {
        Ok(v) => v,
        Err(e) => return Err(e),
    };
    let ghost items = src.rest();
    let mut out: Vec<T> = Vec::new();
    let mut i: u32 = 0;
    let ghost mut used: nat = 0;
    proof {
        assert(models(out@) =~= Seq::<T::M>::empty());
        assert(items.skip(0) =~= items);
        if let Ok((xs, _)) = decode_items::<T>(items, n as nat) {
            assert(models(out@) + xs =~= xs);
        }
    }
    while i < n
        invariant
            i <= n,
            src.wf(),
            src.buf == old(src).buf,
            used <= items.len(),
            src.rest() == items.skip(used as int),
            decode_items::<T>(items, n as nat) == (match decode_items::<T>(src.rest(), (n - i) as nat) {
                Err(e) => Err::<(Seq<T::M>, nat), XdrError>(e),
                Ok((xs, j)) => Ok((models(out@) + xs, used + j)),
            }),
            b == old(src).rest(),
            items == b.skip(4),
            u32::decode(b) == Ok::<(u32, nat), XdrError>((n, 4)),
        decreases n - i,
    {
        let ghost here = src.rest();
        proof {
            T::decode_within(here);
        }
        let x = match T::deserialize(src) {
            Ok(x) => x,
            Err(e) => return Err(e),
        };
        let ghost acc = models(out@);
        out.push(x);
        proof {
            if let Ok((m, k)) = T::decode(here) {
                used = used + k;
                assert(src.rest() =~= items.skip(used as int));
                assert(models(out@) =~= acc.push(m));
                if let Ok((xs, j)) = decode_items::<T>(src.rest(), (n - i - 1) as nat) {
                    assert(acc + (seq![m] + xs) =~= models(out@) + xs);
                }
            }
        }
        i += 1;
    }
    proof {
        assert(models(out@) + Seq::<T::M>::empty() =~= models(out@));
        list_within::<T>(b);
        assert(src.rest() =~= b.skip((4 + used) as int));
    }
    Ok(out)
}

impl Model for Vec<u32> {
    type M = Seq<u32>;

    open spec fn model(&self) -> Seq<u32> {
        self@
    }
}

/// A list of words.
impl XDR for Vec<u32> {
    open spec fn encodable(m: Seq<u32>) -> bool {
        true
    }

    open spec fn fits(m: Seq<u32>) -> bool {
        list_fits::<u32>(m)
    }

    open spec fn encode(m: Seq<u32>) -> Seq<u8> {
        encode_list::<u32>(m)
    }

    open spec fn decode(b: Seq<u8>) -> Result<(Seq<u32>, nat), XdrError> {
        decode_list::<u32>(b)
    }

    proof fn decode_within(b: Seq<u8>) {
        list_within::<u32>(b);
    }

    proof fn round_trip(m: Seq<u32>, rest: Seq<u8>) {
        list_round_trip::<u32>(m, rest);
    }

    fn serialize(&self, dest: &mut Vec<u8>) {
        assert(models(self@) =~= self@);
        serialize_list(self, dest);
    }

    fn deserialize(src: &mut Reader) -> (r: Result<Self, XdrError>) {
        let r = deserialize_list::<u32>(src);
        proof {
            if let Ok(v) = &r {
                assert(models(v@) =~= v@);
            }
        }
        r
    }
}

// ---------------------------------------------------------------- what the wire looks like

/// The value of a word is that of its four bytes, the most significant one first.
pub proof fn a_word_is_big_endian(v: u32)
    ensures
        be32(v).len() == 4,
        v == be32(v)[0] * 0x100_0000 + be32(v)[1] * 0x1_0000 + be32(v)[2] * 0x100 + be32(v)[3],
        u32::encode(v) == be32(v),
{
    reveal(be32);
}

/// The value of a double word is that of its eight bytes, the most significant one first.
pub proof fn a_double_word_is_big_endian(v: u64)
    ensures
        be64(v).len() == 8,
        v == be64(v)[0] * 0x100_0000_0000_0000 + be64(v)[1] * 0x1_0000_0000_0000 + be64(v)[2] * 0x100_0000_0000
            + be64(v)[3] * 0x1_0000_0000 + be64(v)[4] * 0x100_0000 + be64(v)[5] * 0x1_0000 + be64(v)[6] * 0x100
            + be64(v)[7],
        u64::encode(v) == be64(v),
{
    let hi = (v / 0x1_0000_0000) as u32;
    let lo = (v % 0x1_0000_0000) as u32;
    a_word_is_big_endian(hi);
    a_word_is_big_endian(lo);
    let b = be64(v);
    assert(b[0] == be32(hi)[0] && b[1] == be32(hi)[1] && b[2] == be32(hi)[2] && b[3] == be32(hi)[3]);
    assert(b[4] == be32(lo)[0] && b[5] == be32(lo)[1] && b[6] == be32(lo)[2] && b[7] == be32(lo)[3]);
}

/// A signed double word has the bytes of the number that is congruent to it.
pub proof fn a_signed_word_is_its_complement(v: i64)
    ensures
        v >= 0 ==> i64::encode(v) == be64(v as u64),
        v < 0 ==> i64::encode(v) == be64((v + 0x1_0000_0000_0000_0000) as u64),
{
}

/// True is 1 and false is 0; what is not 0 reads as true.
pub proof fn a_truth_value_is_a_word(v: bool, w: u32, rest: Seq<u8>)
    ensures
        bool::encode(true) == be32(1),
        bool::encode(false) == be32(0),
        bool::decode(be32(w) + rest) == Ok::<(bool, nat), XdrError>((w != 0, 4)),
{
    u32::round_trip(w, rest);
}

/// Bytes stand behind their length, and zeros follow up to a multiple of four.
pub proof fn bytes_stand_behind_their_length(m: Seq<u8>)
    ensures
        ({
            let b = Vec::<u8>::encode(m);
            &&& b.take(4) == be32(m.len() as u32)
            &&& b.subrange(4, (4 + m.len()) as int) == m
            &&& b.len() % 4 == 0
            &&& 4 + m.len() <= b.len() < 8 + m.len()
            &&& forall|i: int| 4 + m.len() <= i < b.len() ==> #[trigger] b[i] == 0
        }),
{
    let b = Vec::<u8>::encode(m);
    assert(b.take(4) =~= be32(m.len() as u32));
    assert(b.subrange(4, (4 + m.len()) as int) =~= m);
}

/// A list of words stands behind its length, in order.
pub proof fn words_stand_behind_their_count(m: Seq<u32>, i: int)
    requires
        0 <= i < m.len(),
    ensures
        ({
            let b = Vec::<u32>::encode(m);
            &&& b.len() == 4 + 4 * m.len()
            &&& b.take(4) == be32(m.len() as u32)
            &&& b.subrange(4 + 4 * i, 8 + 4 * i) == be32(m[i])
        }),
{
    let b = Vec::<u32>::encode(m);
    assert(b.take(4) =~= be32(m.len() as u32));
    words_in_order(m, i);
    assert(b.subrange(4 + 4 * i, 8 + 4 * i) =~= encode_items::<u32>(m).subrange(4 * i, 4 * i + 4));
}

proof fn words_in_order(m: Seq<u32>, i: int)
    requires
        0 <= i < m.len(),
    ensures
        encode_items::<u32>(m).len() == 4 * m.len(),
        encode_items::<u32>(m).subrange(4 * i, 4 * i + 4) == be32(m[i]),
    decreases m.len(),
{
    let rest = encode_items::<u32>(m.drop_first());
    if m.len() == 1 {
        assert(m.drop_first() =~= Seq::empty());
        assert(rest =~= Seq::empty());
        assert(encode_items::<u32>(m).subrange(0, 4) =~= be32(m[0]));
    } else {
        words_in_order(m.drop_first(), if i == 0 { 0 } else { i - 1 });
        if i == 0 {
            assert(encode_items::<u32>(m).subrange(0, 4) =~= be32(m[0]));
        } else {
            assert(encode_items::<u32>(m).subrange(4 * i, 4 * i + 4) =~= rest.subrange(4 * (i - 1), 4 * (i - 1) + 4));
        }
    }
}

/// A fixed run of bytes is itself on the wire, and a record is its fields in their order.
pub proof fn records_are_their_fields<A: XDR, B: XDR, const N: usize>(a: A::M, b: B::M, run: [u8; N])
    ensures
        <[u8; N] as XDR>::encode(run) == run@,
        <(A, B) as XDR>::encode((a, b)) == A::encode(a) + B::encode(b),
{
}

} // verus!
