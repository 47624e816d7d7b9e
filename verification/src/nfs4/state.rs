//! NFSv4.0 / 4.1 server state: clients, sessions, and open file state.

use std::sync::Arc;

use vstd::prelude::*;
use vstd::slice::slice_to_vec;

use crate::model::{models, same_bytes, Key, Model, Stored};
use crate::nfs4::state_inv::{
    bumped_open_is_sound, destroy_session_is_sound, empty_is_sound, installed_is_sound, opened_is_sound,
    owner_confirmed_is_sound, renewed_is_sound, replied_is_sound, reply_cached_is_sound, retired_open_is_sound,
    sequence_is_sound, session_made_is_sound, setclientid_confirm_is_sound, upgraded_is_sound, without_clients_is_sound,
    without_open_is_sound, without_open_owner_is_sound,
};
use crate::nfs4::state_spec::{
    bumped, retains_seqid, seqid_status, slots_granted, state_ref, without_id, wrap_next, wrap_prev, ClientView,
    CreateSession, KindView, Minor, OpenPlan, OpenView, Opened, Other, OwnerReply, OwnerSeq, OwnerSeqid, OwnerView, Res,
    ResolvedView, SequenceView, SessionView, SlotView, StateRef, StateView, MAX_SLOTS,
};
use crate::nfs4::{
    clientid4, fileid4, nfsstat4, seqid4, sequenceid4, sessionid4, slotid4, stateid4, verifier4, NFS4_OTHER_SIZE,
};
use crate::random::{draw_bytes, draw_u32};
use crate::table::Table;
use crate::vfs::OpenMode;

verus! {

impl Model for Minor {
    type M = Minor;

    open spec fn model(&self) -> Minor {
        *self
    }
}

impl Key for Minor {
    fn same(&self, other: &Self) -> (b: bool) {
        *self == *other
    }
}

/// Does `status` leave the client's open-owner seqid unadvanced?
///
/// In 4.0 the seqid advances on every request that names the
/// open-owner, successful or not, except for this exact list. Recording only
/// successes drifts the server's mirror behind the client by one per failed
/// request, and the next legitimate request then looks like a gap and draws
/// NFS4ERR_BAD_SEQID.
pub fn seqid_retained(status: &nfsstat4) -> (b: bool)
    ensures
        b == retains_seqid(*status),
{
    match status {
        nfsstat4::NFS4ERR_STALE_CLIENTID
        | nfsstat4::NFS4ERR_STALE_STATEID
        | nfsstat4::NFS4ERR_BAD_STATEID
        | nfsstat4::NFS4ERR_BAD_SEQID
        | nfsstat4::NFS4ERR_BADXDR
        | nfsstat4::NFS4ERR_RESOURCE
        | nfsstat4::NFS4ERR_NOFILEHANDLE
        | nfsstat4::NFS4ERR_MOVED => true,
        _ => false,
    }
}

fn next_wrapping(v: u32) -> (r: u32)
    ensures
        r == wrap_next(v),
{
    if v == u32::MAX {
        0
    } else {
        v + 1
    }
}

fn previous_wrapping(v: u32) -> (r: u32)
    ensures
        r == wrap_prev(v),
{
    if v == 0 {
        u32::MAX
    } else {
        v - 1
    }
}

// ---------------------------------------------------------------- file handles

/// A handle of the file system that is closed once the last clone is dropped:
/// `H` closes itself on drop. Counted, so that in-flight READs survive a mode
/// upgrade replacing the handle, or a concurrent CLOSE.
#[derive(Debug)]
pub struct ManagedFileHandle<H>(Arc<H>);

/// `Arc::clone` gives another pointer to the same value.
#[verifier::external_body]
fn share<H>(a: &Arc<H>) -> (r: Arc<H>)
    ensures
        r == *a,
{
    Arc::clone(a)
}

impl<H> ManagedFileHandle<H> {
    /// The handle that is managed.
    pub closed spec fn view(&self) -> H {
        *self.0
    }

    pub fn new(h: H) -> (r: Self)
        ensures
            r@ == h,
    {
        ManagedFileHandle(Arc::new(h))
    }

    /// The handle that is managed.
    pub fn get(&self) -> (h: &H)
        ensures
            *h == self@,
    {
        &self.0
    }
}

impl<H> Clone for ManagedFileHandle<H> {
    fn clone(&self) -> (r: Self)
        ensures
            r@ == self@,
    {
        ManagedFileHandle(share(&self.0))
    }
}

// --------------------------------------------------------------------- records

/// NFSv4.0 open-owner: sequence ordering plus OPEN_CONFIRM.
#[derive(Copy, Clone)]
struct OpenOwner {
    /// Last (seqid, reply) sent, for retransmit detection. The reply is stored
    /// whether it succeeded or failed, so a retransmit gets the same answer and
    /// a failed request still advances the mirror.
    last: Option<(seqid4, OwnerReply)>,
    /// Set by OPEN_CONFIRM. 4.1 owners are never recorded here.
    confirmed: bool,
    /// `other` of the state this owner last closed, so a retransmitted CLOSE
    /// can still be routed here. At most one; CLOSE4args carries no owner.
    retired: Option<Other>,
}

impl Model for OpenOwner {
    type M = OwnerView;

    closed spec fn model(&self) -> OwnerView {
        OwnerView { last: self.last, confirmed: self.confirmed, retired: self.retired }
    }
}

impl Stored for OpenOwner {
    open spec fn sound(&self) -> bool {
        true
    }
}

/// Per-version state. Makes "4.0 client owning a session" unrepresentable.
pub enum ClientKind {
    V40(V40),
    V41(V41),
}

pub struct V40 {
    pub confirm_verifier: verifier4,
    pub confirmed: bool,
}

pub struct V41 {
    /// Next expected `csa_sequence`.
    pub create_session_seq: sequenceid4,
    pub sessions: Vec<sessionid4>,
}

impl Model for ClientKind {
    type M = KindView;

    open spec fn model(&self) -> KindView {
        match self {
            ClientKind::V40(v) => KindView::V40 { confirm_verifier: v.confirm_verifier, confirmed: v.confirmed },
            ClientKind::V41(v) => KindView::V41 {
                create_session_seq: v.create_session_seq,
                sessions: v.sessions@,
            },
        }
    }
}

struct Client {
    owner: (Minor, Vec<u8>),
    verifier: verifier4,
    last_renewed: u64,
    kind: ClientKind,
    /// The session that the last CREATE_SESSION made, while it lives: its replay
    /// names no other.
    made: Option<sessionid4>,
    /// 4.0 open-owner bookkeeping. Always empty for 4.1, where SEQUENCE does
    /// this job.
    open_owners: Table<Vec<u8>, OpenOwner>,
}

impl Model for Client {
    type M = ClientView;

    closed spec fn model(&self) -> ClientView {
        ClientView {
            owner: self.owner.model(),
            verifier: self.verifier,
            last_renewed: self.last_renewed,
            kind: self.kind.model(),
            made: self.made,
            open_owners: self.open_owners@,
        }
    }
}

impl Stored for Client {
    closed spec fn sound(&self) -> bool {
        self.open_owners.wf()
    }
}

impl Client {
    fn is_live(&self, now: u64, lease: u64) -> (b: bool)
        ensures
            b == self.model().is_live(now, lease),
    {
        if now <= self.last_renewed {
            0 < lease
        } else {
            now - self.last_renewed < lease
        }
    }

    /// 4.0 confirms via SETCLIENTID_CONFIRM, 4.1 via CREATE_SESSION.
    fn is_confirmed(&self) -> (b: bool)
        ensures
            b == self.model().is_confirmed(),
    {
        match &self.kind {
            ClientKind::V40(v) => v.confirmed,
            ClientKind::V41(v) => v.sessions.len() > 0,
        }
    }

    fn is_v40(&self) -> (b: bool)
        ensures
            b == (self.model().kind.minor() == Minor::V40),
    {
        match &self.kind {
            ClientKind::V40(_) => true,
            ClientKind::V41(_) => false,
        }
    }

    /// The record of an open-owner, whether or not it has been heard of.
    fn open_owner(&self, owner: &Vec<u8>) -> (r: OpenOwner)
        requires
            self.sound(),
        ensures
            r.model() == self.model().open_owner(owner@),
    {
        match self.open_owners.get(owner) {
            Some(r) => *r,
            None => OpenOwner { last: None, confirmed: false, retired: None },
        }
    }
}

struct Slot {
    /// Last sequenceid seen; 0 means never used.
    last_seqid: sequenceid4,
    /// Encoded COMPOUND4res body, when the client asked for `sa_cachethis`.
    cached: Option<Vec<u8>>,
}

impl Model for Slot {
    type M = SlotView;

    closed spec fn model(&self) -> SlotView {
        SlotView {
            last_seqid: self.last_seqid,
            cached: match self.cached {
                Some(v) => Some(v@),
                None => None,
            },
        }
    }
}

struct Session {
    clientid: clientid4,
    slots: Vec<Slot>,
    /// Negotiated `ca_maxresponsesize_cached`; bounds the reply cache.
    max_cached: u32,
}

impl Model for Session {
    type M = SessionView;

    closed spec fn model(&self) -> SessionView {
        SessionView { clientid: self.clientid, slots: models(self.slots@), max_cached: self.max_cached }
    }
}

impl Stored for Session {
    open spec fn sound(&self) -> bool {
        true
    }
}

/// One open state per (client, open-owner, file).
/// `mode` is the strongest mode ever requested; since `OpenMode` has no
/// downgrade and OPEN_DOWNGRADE is unsupported, it only ever grows.
struct Open<H> {
    clientid: clientid4,
    owner: Vec<u8>,
    fileid: fileid4,
    /// Stateid seqid; bumped by every state-mutating op. Never 0, because 0
    /// on the wire means "use the current seqid".
    seqid: u32,
    mode: OpenMode,
    fh: ManagedFileHandle<H>,
}

impl<H> Model for Open<H> {
    type M = OpenView<H>;

    closed spec fn model(&self) -> OpenView<H> {
        OpenView {
            clientid: self.clientid,
            owner: self.owner@,
            fileid: self.fileid,
            seqid: self.seqid,
            mode: self.mode,
            fh: self.fh@,
        }
    }
}

impl<H> Stored for Open<H> {
    open spec fn sound(&self) -> bool {
        true
    }
}

impl<H> Open<H> {
    fn bump(&mut self, other: Other) -> (r: stateid4)
        ensures
            final(self).model() == (OpenView { seqid: bumped(old(self).model().seqid), ..old(self).model() }),
            r == (stateid4 { seqid: bumped(old(self).model().seqid), other }),
    {
        self.seqid = if self.seqid == u32::MAX {
            1
        } else {
            self.seqid + 1
        };
        stateid4 { seqid: self.seqid, other }
    }
}

/// Is `seqid` the version of a state that is current? `None` asks for none in
/// particular.
pub fn check_seqid(current: u32, seqid: Option<u32>) -> (r: Res<()>)
    ensures
        r == seqid_status(current, seqid),
{
    match seqid {
        None => Ok(()),
        Some(s) => if s == current {
            Ok(())
        } else if s < current {
            Err(nfsstat4::NFS4ERR_OLD_STATEID)
        } else {
            Err(nfsstat4::NFS4ERR_BAD_STATEID)
        },
    }
}

/// Are all bytes equal to `b`?
fn all_bytes(a: &Other, b: u8) -> (r: bool)
    ensures
        r == (forall|i: int| 0 <= i < NFS4_OTHER_SIZE ==> #[trigger] a@[i] == b),
{
    let mut i: usize = 0;
    while i < NFS4_OTHER_SIZE
        invariant
            i <= NFS4_OTHER_SIZE,
            forall|j: int| 0 <= j < i ==> #[trigger] a@[j] == b,
        decreases NFS4_OTHER_SIZE - i,
    {
        if a[i] != b {
            assert(a@[i as int] != b);
            return false;
        }
        i += 1;
    }
    true
}

impl StateRef {
    /// What a stateid refers to. Lenient about the seqid of the special
    /// stateids: clients send both 0 and ~0, and rejecting either buys nothing.
    pub fn of(sid: &stateid4) -> (r: StateRef)
        ensures
            r == state_ref(*sid),
    {
        if all_bytes(&sid.other, 0) {
            StateRef::Anonymous
        } else if all_bytes(&sid.other, 0xff) {
            StateRef::Bypass
        } else {
            StateRef::Open { other: sid.other, seqid: if sid.seqid == 0 { None } else { Some(sid.seqid) } }
        }
    }
}

// -------------------------------------------------------------------- outcomes

/// What a SEQUENCE comes to.
#[derive(Debug, PartialEq, Eq)]
pub enum Sequence {
    New,
    /// Cached COMPOUND4res body.
    Replay(Vec<u8>),
    /// Replay of a request whose reply was not cached.
    RetryUncached,
}

impl Model for Sequence {
    type M = SequenceView;

    open spec fn model(&self) -> SequenceView {
        match self {
            Sequence::New => SequenceView::New,
            Sequence::Replay(v) => SequenceView::Replay(v@),
            Sequence::RetryUncached => SequenceView::RetryUncached,
        }
    }
}

/// What a stateid resolves to.
pub enum Resolved<H> {
    Open { fileid: fileid4, fh: ManagedFileHandle<H>, mode: OpenMode },
    Anonymous,
    Bypass,
}

impl<H> Model for Resolved<H> {
    type M = ResolvedView<H>;

    open spec fn model(&self) -> ResolvedView<H> {
        match self {
            Resolved::Open { fileid, fh, mode } => ResolvedView::Open { fileid: *fileid, fh: fh@, mode: *mode },
            Resolved::Anonymous => ResolvedView::Anonymous,
            Resolved::Bypass => ResolvedView::Bypass,
        }
    }
}

// ------------------------------------------------------------------- NFS4State

/// Everything the server remembers of its clients.
pub struct NFS4State<H> {
    /// In nanoseconds.
    lease: u64,
    /// Per-boot epoch in the high 32 bits of every clientid, so ids issued
    /// before a restart are reliably STALE. Also seeds the write verifier.
    epoch: u32,
    clients: Table<clientid4, Client>,
    by_owner: Table<(Minor, Vec<u8>), clientid4>,
    sessions: Table<sessionid4, Session>,
    opens: Table<Other, Open<H>>,
    /// (clientid, open_owner, fileid) -> stateid.other.
    open_index: Table<(clientid4, Vec<u8>, fileid4), Other>,
    /// stateid.other -> (clientid, open_owner) for just-closed 4.0 states.
    /// One entry per open-owner; see `retire_open`.
    retired: Table<Other, (clientid4, Vec<u8>)>,
}

impl<H> NFS4State<H> {
    pub closed spec fn view(&self) -> StateView<H> {
        StateView {
            lease: self.lease,
            epoch: self.epoch,
            clients: self.clients@,
            by_owner: self.by_owner@,
            sessions: self.sessions@,
            opens: self.opens@,
            open_index: self.open_index@,
            retired: self.retired@,
        }
    }

    /// Every table holds each key once.
    pub closed spec fn tables_wf(&self) -> bool {
        &&& self.clients.wf()
        &&& self.by_owner.wf()
        &&& self.sessions.wf()
        &&& self.opens.wf()
        &&& self.open_index.wf()
        &&& self.retired.wf()
    }

    /// What holds of the state between any two requests.
    pub closed spec fn wf(&self) -> bool {
        self.tables_wf() && self@.inv()
    }

    /// A state that is well formed keeps the invariant.
    pub proof fn wf_is_inv(&self)
        requires
            self.wf(),
        ensures
            self@.inv(),
    {
    }

    /// A server that has heard of nobody yet. The lease is in nanoseconds.
    pub fn new(lease: u64, epoch: u32) -> (s: Self)
        ensures
            s.wf(),
            s@ == StateView::<H>::empty(lease, epoch),
    {
        proof {
            empty_is_sound::<H>(lease, epoch);
        }
        NFS4State {
            lease,
            epoch,
            clients: Table::new(),
            by_owner: Table::new(),
            sessions: Table::new(),
            opens: Table::new(),
            open_index: Table::new(),
            retired: Table::new(),
        }
    }

    // -- id generation --

    /// The clientid that a random number makes: the epoch above, the number below.
    /// `None` where a client has it already, and another number must be drawn.
    pub fn clientid_drawn(&self, low: u32) -> (r: Option<clientid4>)
        requires
            self.wf(),
        ensures
            r == self@.clientid_drawn(low),
    {
        let cid: u64 = self.epoch as u64 * 0x1_0000_0000 + low as u64;
        if self.clients.contains_key(&cid) {
            None
        } else {
            Some(cid)
        }
    }

    /// The session id that random bytes make. `None` where a session has it
    /// already, and others must be drawn.
    pub fn sessionid_drawn(&self, id: sessionid4) -> (r: Option<sessionid4>)
        requires
            self.wf(),
        ensures
            r == self@.sessionid_drawn(id),
    {
        if self.sessions.contains_key(&id) {
            None
        } else {
            Some(id)
        }
    }

    /// The `other` that random bytes make. `None` where a live or a just-retired
    /// state has it already, and others must be drawn.
    pub fn other_drawn(&self, other: Other) -> (r: Option<Other>)
        requires
            self.wf(),
        ensures
            r == self@.other_drawn(other),
    {
        if self.opens.contains_key(&other) || self.retired.contains_key(&other) {
            None
        } else {
            Some(other)
        }
    }

    /// A clientid of this boot that no client has. Fails where the system has
    /// no randomness to give, or gave only what is taken: whether, and which id, is
    /// up to the system.
    pub fn fresh_clientid(&self) -> (r: Res<clientid4>)
        requires
            self.wf(),
        ensures
            match r {
                Ok(cid) => self@.fresh_clientid(cid),
                Err(e) => e == nfsstat4::NFS4ERR_SERVERFAULT,
            },
    {
        let mut tries: u64 = 0;
        while tries < u64::MAX
            invariant
                self.wf(),
            decreases u64::MAX - tries,
        {
            let low: u32 = match draw_u32() {
                Some(v) => v,
                None => return Err(nfsstat4::NFS4ERR_SERVERFAULT),
            };
            if let Some(cid) = self.clientid_drawn(low) {
                return Ok(cid);
            }
            tries += 1;
        }
        Err(nfsstat4::NFS4ERR_SERVERFAULT)
    }

    /// A session id that no session has. Fails where the system has no
    /// randomness to give, or gave only what is taken: whether, and which id, is
    /// up to the system.
    pub fn fresh_sessionid(&self) -> (r: Res<sessionid4>)
        requires
            self.wf(),
        ensures
            match r {
                Ok(id) => self@.fresh_sessionid(id),
                Err(e) => e == nfsstat4::NFS4ERR_SERVERFAULT,
            },
    {
        let mut tries: u64 = 0;
        while tries < u64::MAX
            invariant
                self.wf(),
            decreases u64::MAX - tries,
        {
            let id: sessionid4 = match draw_bytes() {
                Some(v) => v,
                None => return Err(nfsstat4::NFS4ERR_SERVERFAULT),
            };
            if let Some(free) = self.sessionid_drawn(id) {
                return Ok(free);
            }
            tries += 1;
        }
        Err(nfsstat4::NFS4ERR_SERVERFAULT)
    }

    /// Avoids both live and just-retired states, so a retransmitted CLOSE can
    /// never be misrouted to a fresh open that happened to reuse the bytes.
    /// Fails where the system has no randomness to give, or gave only what is taken:
    /// whether, and which bytes, is up to the system.
    pub fn fresh_other(&self) -> (r: Res<Other>)
        requires
            self.wf(),
        ensures
            match r {
                Ok(other) => self@.fresh_other(other),
                Err(e) => e == nfsstat4::NFS4ERR_SERVERFAULT,
            },
    {
        let mut tries: u64 = 0;
        while tries < u64::MAX
            invariant
                self.wf(),
            decreases u64::MAX - tries,
        {
            let other: Other = match draw_bytes() {
                Some(v) => v,
                None => return Err(nfsstat4::NFS4ERR_SERVERFAULT),
            };
            if let Some(free) = self.other_drawn(other) {
                return Ok(free);
            }
            tries += 1;
        }
        Err(nfsstat4::NFS4ERR_SERVERFAULT)
    }

    // -- client lookup and expiry --

    /// Drop a client and everything it owns. Dropping the open states closes
    /// their handles.
    pub fn remove_client(&mut self, cid: clientid4)
        requires
            old(self).wf(),
        ensures
            final(self).wf(),
            final(self)@ == old(self)@.without_client(cid),
    {
        let ghost s = self@;
        proof {
            without_clients_is_sound(s, set![cid]);
        }
        let client = match self.clients.remove(&cid) {
            Some(c) => c,
            None => {
                assert(self@ =~= s.without_client(cid));
                return;
            },
        };
        self.by_owner.remove(&client.owner);
        let keep = |id: &sessionid4, v: &Session| -> (b: bool)
            ensures
                b == (v.model().clientid != cid),
        {
            v.clientid != cid
        };
        self.sessions.retain(keep, Ghost(|id: sessionid4, v: SessionView| v.clientid != cid));
        let keep = |o: &Other, v: &Open<H>| -> (b: bool)
            ensures
                b == (v.model().clientid != cid),
        {
            v.clientid != cid
        };
        self.opens.retain(keep, Ghost(|o: Other, v: OpenView<H>| v.clientid != cid));
        let keep = |k: &(clientid4, Vec<u8>, fileid4), o: &Other| -> (b: bool)
            ensures
                b == (k.0 != cid),
        {
            k.0 != cid
        };
        self.open_index.retain(keep, Ghost(|k: (clientid4, Seq<u8>, fileid4), o: Other| k.0 != cid));
        let keep = |o: &Other, k: &(clientid4, Vec<u8>)| -> (b: bool)
            ensures
                b == (k.0 != cid),
        {
            k.0 != cid
        };
        self.retired.retain(keep, Ghost(|o: Other, k: (clientid4, Seq<u8>)| k.0 != cid));
        assert(s.client_sound(cid));
        assert(self@ =~= s.without_client(cid));
    }

    /// Drop every client whose lease has lapsed.
    pub fn sweep_expired(&mut self, now: u64)
        requires
            old(self).wf(),
        ensures
            final(self).wf(),
            final(self)@ == old(self)@.swept(now),
    {
        let ghost s = self@;
        let n: usize = self.clients.len();
        let mut dead: Vec<clientid4> = Vec::new();
        let mut i: usize = 0;
        while i < n
            invariant
                self.wf(),
                self@ == s,
                i <= n == self.clients.keys().len(),
                forall|j: int|
                    0 <= j < dead@.len() ==> s.clients.contains_key(#[trigger] dead@[j])
                        && !s.clients[dead@[j]].is_live(now, s.lease),
                forall|j: int|
                    0 <= j < i ==> s.clients[#[trigger] self.clients.keys()[j]].is_live(now, s.lease)
                        || dead@.contains(self.clients.keys()[j]),
            decreases n - i,
        {
            let cid: clientid4 = *self.clients.key_at(i);
            let ghost before = dead@;
            if !self.clients.value_at(i).is_live(now, self.lease) {
                dead.push(cid);
                proof {
                    assert(dead@[before.len() as int] == cid);
                    assert forall|j: int| 0 <= j < i implies s.clients[#[trigger] self.clients.keys()[j]].is_live(
                        now,
                        s.lease,
                    ) || dead@.contains(self.clients.keys()[j]) by {
                        if before.contains(self.clients.keys()[j]) {
                            let k = choose|k: int| 0 <= k < before.len() && before[k] == self.clients.keys()[j];
                            assert(dead@[k] == self.clients.keys()[j]);
                        }
                    }
                }
            }
            i += 1;
        }
        proof {
            self.clients.walk_is_complete();
            assert forall|c: clientid4| s.lapsed(now).contains(c) implies dead@.contains(c) by {
                let k = choose|k: int| 0 <= k < self.clients.keys().len() && self.clients.keys()[k] == c;
                assert(self.clients.keys()[k] == c);
            }
            assert(dead@.take(0).to_set() =~= Set::empty());
            assert(self@ =~= s.without_clients(dead@.take(0).to_set()));
        }
        let mut j: usize = 0;
        while j < dead.len()
            invariant
                j <= dead@.len(),
                self.wf(),
                self@ == s.without_clients(dead@.take(j as int).to_set()),
            decreases dead@.len() - j,
        {
            let ghost gone = dead@.take(j as int).to_set();
            self.remove_client(dead[j]);
            proof {
                let more = dead@.take(j + 1);
                assert(more =~= dead@.take(j as int).push(dead@[j as int]));
                assert forall|c: clientid4| #[trigger] more.to_set().contains(c) <==> gone.contains(c) || c
                    == dead@[j as int] by {
                    if gone.contains(c) {
                        let k = choose|k: int| 0 <= k < j && dead@.take(j as int)[k] == c;
                        assert(more[k] == c);
                    }
                    if c == dead@[j as int] {
                        assert(more[j as int] == c);
                    }
                    if more.to_set().contains(c) {
                        let k = choose|k: int| 0 <= k < more.len() && more[k] == c;
                        if k < j {
                            assert(dead@.take(j as int)[k] == c);
                        }
                    }
                }
                assert(self@ =~= s.without_clients(more.to_set()));
            }
            j += 1;
        }
        proof {
            assert(dead@.take(j as int) =~= dead@);
            assert(dead@.to_set() =~= s.lapsed(now));
        }
    }

    /// Resolve a live client, expiring it first if its lease has lapsed.
    pub fn check_client(&mut self, cid: clientid4, now: u64) -> (r: Res<()>)
        requires
            old(self).wf(),
        ensures
            final(self).wf(),
            final(self)@ == old(self)@.looked_up(cid, now),
            r == old(self)@.client_status(cid, now),
    {
        match self.clients.get(&cid) {
            None => Err(nfsstat4::NFS4ERR_STALE_CLIENTID),
            Some(c) => if c.is_live(now, self.lease) {
                Ok(())
            } else {
                self.remove_client(cid);
                Err(nfsstat4::NFS4ERR_EXPIRED)
            },
        }
    }

    /// The client was heard of just now.
    fn touch(&mut self, cid: clientid4, now: u64)
        requires
            old(self).wf(),
            old(self)@.clients.contains_key(cid),
        ensures
            final(self).wf(),
            final(self)@ == old(self)@.renewed(cid, now),
    {
        let ghost s = self@;
        proof {
            renewed_is_sound(s, cid, now);
        }
        if let Some(c) = self.clients.get_mut(&cid) {
            c.last_renewed = now;
        }
        assert(self@ =~= s.renewed(cid, now));
    }
}

/// A copy of some bytes.
fn copied(b: &[u8]) -> (v: Vec<u8>)
    ensures
        v@ == b@,
{
    slice_to_vec(b)
}

impl<H> NFS4State<H> {
    /// Replace any client registered under `owner` by a fresh record with the
    /// id `cid`.
    pub fn install_client_as(
        &mut self,
        owner: (Minor, Vec<u8>),
        verifier: verifier4,
        kind: ClientKind,
        now: u64,
        cid: clientid4,
    )
        requires
            old(self).wf(),
            old(self)@.fresh_clientid(cid),
            owner.0 == kind.model().minor(),
            kind.model() matches KindView::V41 { sessions, .. } ==> sessions.len() == 0,
        ensures
            final(self).wf(),
            final(self)@ == old(self)@.installed(owner.model(), verifier, kind.model(), now, cid),
    {
        let ghost s = self@;
        proof {
            installed_is_sound(s, owner.model(), verifier, kind.model(), now, cid);
        }
        if let Some(found) = self.by_owner.get(&owner) {
            let previous: clientid4 = *found;
            self.remove_client(previous);
        }
        assert(self@ == s.without_owner(owner.model()));
        let key = (owner.0, copied(&owner.1));
        self.by_owner.insert(key, cid);
        let client = Client { owner, verifier, last_renewed: now, kind, made: None, open_owners: Table::new() };
        self.clients.insert(cid, client);
        assert(self@ =~= s.installed(owner.model(), verifier, kind.model(), now, cid));
    }

    /// Replace any client registered under `owner`, then insert a fresh record.
    /// Fails, with nothing changed, where the system has no randomness to give.
    pub fn install_client(
        &mut self,
        owner: (Minor, Vec<u8>),
        verifier: verifier4,
        kind: ClientKind,
        now: u64,
    ) -> (r: Res<clientid4>)
        requires
            old(self).wf(),
            owner.0 == kind.model().minor(),
            kind.model() matches KindView::V41 { sessions, .. } ==> sessions.len() == 0,
        ensures
            final(self).wf(),
            match r {
                Ok(cid) => old(self)@.fresh_clientid(cid) && final(self)@ == old(self)@.installed(
                    owner.model(),
                    verifier,
                    kind.model(),
                    now,
                    cid,
                ),
                Err(e) => e == nfsstat4::NFS4ERR_SERVERFAULT && final(self)@ == old(self)@,
            },
    {
        match self.fresh_clientid() {
            Ok(cid) => {
                self.install_client_as(owner, verifier, kind, now, cid);
                Ok(cid)
            },
            Err(e) => Err(e),
        }
    }

    // -- 4.0 open-owner sequencing --

    /// The open-owner seqid that actually governs this request, or `None` when
    /// there is none.
    ///
    /// The answer comes from the client record, not from the argument: a 4.1
    /// client's OPEN/CLOSE seqid must be ignored, and a
    /// dispatcher that forwards the wire field verbatim must not be able to
    /// turn a 4.1 CLOSE into a phantom replay.
    pub fn owner_seqid_for(&self, cid: clientid4, seqid: OwnerSeqid) -> (r: Res<Option<seqid4>>)
        requires
            self.wf(),
        ensures
            r == self@.owner_seqid_for(cid, seqid),
    {
        match self.clients.get(&cid) {
            None => Err(nfsstat4::NFS4ERR_STALE_CLIENTID),
            Some(c) => match &c.kind {
                // 4.1: SEQUENCE already de-duplicated this request.
                ClientKind::V41(_) => Ok(None),
                ClientKind::V40(_) => match seqid {
                    OwnerSeqid::V40(s) => Ok(Some(s)),
                    OwnerSeqid::V41 => Err(nfsstat4::NFS4ERR_INVAL),
                },
            },
        }
    }

    /// Is this request the one that the open-owner's sequence expects, a
    /// retransmit of the last one, or a break? A break forgets the open-owner.
    pub fn check_owner_seqid(&mut self, cid: clientid4, owner: &[u8], seqid: OwnerSeqid) -> (r: Res<OwnerSeq>)
        requires
            old(self).wf(),
        ensures
            final(self).wf(),
            final(self)@ == old(self)@.owner_checked(cid, owner@, seqid),
            r == old(self)@.owner_check(cid, owner@, seqid),
    {
        let ghost s = self@;
        let seqid: seqid4 = match self.owner_seqid_for(cid, seqid) {
            Err(e) => return Err(e),
            Ok(None) => return Ok(OwnerSeq::Fresh),
            Ok(Some(v)) => v,
        };
        let key = copied(owner);
        let record: OpenOwner = match self.clients.get(&cid) {
            Some(c) => c.open_owner(&key),
            None => return Err(nfsstat4::NFS4ERR_STALE_CLIENTID),
        };
        match record.last {
            None => Ok(OwnerSeq::Fresh),
            Some((last, reply)) => if seqid == last {
                Ok(OwnerSeq::Replay(reply))
            } else if seqid == next_wrapping(last) {
                Ok(OwnerSeq::Fresh)
            } else {
                proof {
                    without_open_owner_is_sound(s, cid, owner@);
                }
                if let Some(c) = self.clients.get_mut(&cid) {
                    c.open_owners.remove(&key);
                }
                // The tombstone goes with the record that it belongs to.
                if let Some(other) = record.retired {
                    self.retired.remove(&other);
                }
                assert(self@ =~= s.without_open_owner(cid, owner@));
                Err(nfsstat4::NFS4ERR_BAD_SEQID)
            },
        }
    }

    /// Record the reply this request produced, so a retransmit replays it and
    /// the mirror stays level with the client's counter. Statuses on
    /// `seqid_retained`'s list did not consume a seqid, so they are not stored.
    pub fn record_owner_reply(&mut self, cid: clientid4, owner: &[u8], seqid: OwnerSeqid, reply: OwnerReply)
        requires
            old(self).wf(),
        ensures
            final(self).wf(),
            final(self)@ == old(self)@.replied(cid, owner@, seqid, reply),
    {
        let ghost s = self@;
        proof {
            replied_is_sound(s, cid, owner@, seqid, reply);
        }
        let number: seqid4 = match seqid {
            OwnerSeqid::V40(v) => v,
            OwnerSeqid::V41 => return,
        };
        if let Err(e) = &reply {
            if seqid_retained(e) {
                return;
            }
        }
        let key = copied(owner);
        match self.clients.get_mut(&cid) {
            None => return,
            Some(c) => {
                if !c.is_v40() {
                    assert(s.clients.insert(cid, c.model()) =~= s.clients);
                    return; // 4.1 keeps no open-owner state.
                }
                let mut record = c.open_owner(&key);
                record.last = Some((number, reply));
                c.open_owners.insert(key, record);
            },
        }
        assert(self@ =~= s.replied(cid, owner@, seqid, reply));
    }

    /// A request that consumed the seqid without producing a stateid. Returns
    /// `status` unchanged so callers can `return Err(...)` in one line.
    pub fn record_owner_failure(
        &mut self,
        cid: clientid4,
        owner: &[u8],
        seqid: OwnerSeqid,
        status: nfsstat4,
    ) -> (r: nfsstat4)
        requires
            old(self).wf(),
        ensures
            final(self).wf(),
            final(self)@ == old(self)@.replied(cid, owner@, seqid, Err(status)),
            r == status,
    {
        self.record_owner_reply(cid, owner, seqid, Err(status));
        status
    }

    /// An op that names an open-owner but which this server does not implement
    /// (OPEN_DOWNGRADE, LOCK's `open_to_lock_owner4`), or an OPEN that fails before
    /// the open state is asked. Rejecting it still consumes the client's seqid unless
    /// the status says otherwise, so it has to be booked like any other reply.
    pub fn note_owner_rejection(
        &mut self,
        cid: clientid4,
        owner: &[u8],
        seqid: OwnerSeqid,
        status: nfsstat4,
        now: u64,
    ) -> (r: nfsstat4)
        requires
            old(self).wf(),
        ensures
            final(self).wf(),
            (final(self)@, r) == old(self)@.owner_rejection(cid, owner@, seqid, status, now),
    {
        if self.check_client(cid, now).is_err() {
            return status;
        }
        match self.check_owner_seqid(cid, owner, seqid) {
            // Retransmit of the same rejected op: repeat it, do not advance.
            Ok(OwnerSeq::Replay(Err(cached))) => cached,
            Ok(OwnerSeq::Replay(Ok(_))) => status,
            Ok(OwnerSeq::Fresh) => self.record_owner_failure(cid, owner, seqid, status),
            Err(e) => e,
        }
    }

    /// 4.1 has no OPEN_CONFIRM; 4.0 needs it once per open-owner.
    pub fn confirm_required(&self, cid: clientid4, owner: &[u8]) -> (b: bool)
        requires
            self.wf(),
        ensures
            b == self@.confirm_needed(cid, owner@),
    {
        match self.clients.get(&cid) {
            None => false,
            Some(c) => c.is_v40() && !c.open_owner(&copied(owner)).confirmed,
        }
    }

    // -- OPEN, in three phases --

    /// Advance the seqid of an open state.
    fn bump_open(&mut self, other: Other) -> (r: stateid4)
        requires
            old(self).wf(),
            old(self)@.opens.contains_key(other),
        ensures
            final(self).wf(),
            final(self)@ == old(self)@.bumped_open(other),
            r == final(self)@.current_stateid(other),
    {
        let ghost s = self@;
        proof {
            bumped_open_is_sound(s, other);
        }
        let sid = match self.opens.get_mut(&other) {
            Some(o) => o.bump(other),
            None => stateid4 { seqid: 0, other },
        };
        assert(self@ =~= s.bumped_open(other));
        sid
    }

    /// Phase 1: everything decidable without touching the file system.
    pub fn open_plan(
        &mut self,
        cid: clientid4,
        owner: &[u8],
        owner_seqid: OwnerSeqid,
        fileid: fileid4,
        mode: OpenMode,
        now: u64,
    ) -> (r: Res<OpenPlan>)
        requires
            old(self).wf(),
        ensures
            final(self).wf(),
            (final(self)@, r) == old(self)@.open_plan(cid, owner@, owner_seqid, fileid, mode, now),
    {
        if let Err(e) = self.check_client(cid, now) {
            return Err(e);
        }
        let confirmed: bool = match self.clients.get(&cid) {
            Some(c) => c.is_confirmed(),
            None => false,
        };
        if !confirmed {
            return Err(nfsstat4::NFS4ERR_STALE_CLIENTID);
        }
        self.touch(cid, now);
        match self.check_owner_seqid(cid, owner, owner_seqid) {
            Err(e) => return Err(e),
            Ok(OwnerSeq::Replay(Err(e))) => return Err(e),
            Ok(OwnerSeq::Replay(Ok(stateid))) => {
                let confirm_required: bool = self.confirm_required(cid, owner);
                return Ok(OpenPlan::Done(Opened { stateid, confirm_required }));
            },
            Ok(OwnerSeq::Fresh) => {},
        }
        // Reuse the existing state if its handle is already strong enough.
        let key = (cid, copied(owner), fileid);
        let found: Option<Other> = match self.open_index.get(&key) {
            Some(o) => Some(*o),
            None => None,
        };
        if let Some(other) = found {
            let strong: bool = match self.opens.get(&other) {
                Some(o) => o.mode.covers(mode),
                None => false,
            };
            if strong {
                let stateid = self.bump_open(other);
                let opened = self.finish_open(cid, owner, owner_seqid, stateid);
                return Ok(OpenPlan::Done(opened));
            }
        }
        Ok(OpenPlan::NeedHandle(mode))
    }

    fn finish_open(&mut self, cid: clientid4, owner: &[u8], owner_seqid: OwnerSeqid, stateid: stateid4) -> (r: Opened)
        requires
            old(self).wf(),
        ensures
            final(self).wf(),
            (final(self)@, r) == old(self)@.open_finished(cid, owner@, owner_seqid, stateid),
    {
        self.record_owner_reply(cid, owner, owner_seqid, Ok(stateid));
        Opened { stateid, confirm_required: self.confirm_required(cid, owner) }
    }

    /// Phase 3: install a freshly opened handle, under `drawn` where the file
    /// has no open state yet. Tolerates a concurrent OPEN having won the race:
    /// the redundant handle is simply dropped and closed.
    pub fn open_commit_as(
        &mut self,
        cid: clientid4,
        owner: &[u8],
        owner_seqid: OwnerSeqid,
        fileid: fileid4,
        mode: OpenMode,
        fh: ManagedFileHandle<H>,
        now: u64,
        drawn: Res<Other>,
    ) -> (r: Res<Opened>)
        requires
            old(self).wf(),
            drawn matches Ok(other) ==> old(self)@.fresh_other(other),
        ensures
            final(self).wf(),
            (final(self)@, r) == old(self)@.open_commit(cid, owner@, owner_seqid, fileid, mode, fh@, now, drawn),
    {
        let ghost s = self@;
        if let Err(e) = self.check_client(cid, now) {
            return Err(e);
        }
        let key = (cid, copied(owner), fileid);
        let found: Option<Other> = match self.open_index.get(&key) {
            Some(o) => Some(*o),
            None => None,
        };
        let ghost handle = fh@;
        let stateid = match found {
            Some(other) => {
                proof {
                    assert(s.key_leads_to_open((cid, owner@, fileid)));
                    upgraded_is_sound(s, other, mode, handle);
                }
                if let Some(open) = self.opens.get_mut(&other) {
                    if !open.mode.covers(mode) {
                        open.mode = mode;
                        open.fh = fh; // the superseded handle closes on drop
                    }
                }
                assert(self@ =~= s.upgraded(other, mode, handle));
                self.bump_open(other)
            },
            None => {
                let other: Other = match drawn {
                    Ok(o) => o,
                    Err(e) => return Err(e),
                };
                proof {
                    opened_is_sound(s, cid, owner@, fileid, mode, handle, other);
                }
                let open = Open { clientid: cid, owner: copied(owner), fileid, seqid: 1, mode, fh };
                self.opens.insert(other, open);
                self.open_index.insert(key, other);
                assert(self@ =~= s.opened(cid, owner@, fileid, mode, handle, other));
                stateid4 { seqid: 1, other }
            },
        };
        Ok(self.finish_open(cid, owner, owner_seqid, stateid))
    }

    /// Bytes for the open state of a file that an open-owner is about to open.
    /// Where it has one already there is nothing to draw.
    fn draw_for_open(&self, cid: clientid4, owner: &[u8], fileid: fileid4) -> (r: Res<Other>)
        requires
            self.wf(),
        ensures
            r matches Ok(other) ==> self@.fresh_other(other),
            r matches Err(e) ==> e == nfsstat4::NFS4ERR_SERVERFAULT,
    {
        if self.open_index.contains_key(&(cid, copied(owner), fileid)) {
            return Err(nfsstat4::NFS4ERR_SERVERFAULT);
        }
        self.fresh_other()
    }

    /// Phase 3: install a freshly opened handle. A file without an open state
    /// gets one under random bytes; where the system has none to give, that
    /// fails with NFS4ERR_SERVERFAULT.
    pub fn open_commit(
        &mut self,
        cid: clientid4,
        owner: &[u8],
        owner_seqid: OwnerSeqid,
        fileid: fileid4,
        mode: OpenMode,
        fh: ManagedFileHandle<H>,
        now: u64,
    ) -> (r: Res<Opened>)
        requires
            old(self).wf(),
        ensures
            final(self).wf(),
            exists|drawn: Res<Other>|
                {
                    &&& old(self)@.fair_other(drawn)
                    &&& (final(self)@, r) == #[trigger] old(self)@.open_commit(
                        cid,
                        owner@,
                        owner_seqid,
                        fileid,
                        mode,
                        fh@,
                        now,
                        drawn,
                    )
                },
    {
        let drawn = self.draw_for_open(cid, owner, fileid);
        self.open_commit_as(cid, owner, owner_seqid, fileid, mode, fh, now, drawn)
    }

    /// What is left of an OPEN once the file system has answered. A failed OPEN
    /// consumes the client's seqid all the same.
    pub fn open_finish_as(
        &mut self,
        cid: clientid4,
        owner: &[u8],
        owner_seqid: OwnerSeqid,
        fileid: fileid4,
        mode: OpenMode,
        handle: Res<H>,
        now: u64,
        drawn: Res<Other>,
    ) -> (r: Res<Opened>)
        requires
            old(self).wf(),
            drawn matches Ok(other) ==> old(self)@.fresh_other(other),
        ensures
            final(self).wf(),
            (final(self)@, r) == old(self)@.open_finish(cid, owner@, owner_seqid, fileid, mode, handle, now, drawn),
    {
        match handle {
            Err(e) => Err(self.record_owner_failure(cid, owner, owner_seqid, e)),
            Ok(h) => match self.open_commit_as(
                cid,
                owner,
                owner_seqid,
                fileid,
                mode,
                ManagedFileHandle::new(h),
                now,
                drawn,
            ) {
                Ok(opened) => Ok(opened),
                Err(e) => Err(self.record_owner_failure(cid, owner, owner_seqid, e)),
            },
        }
    }

    /// What is left of an OPEN once the file system has answered.
    pub fn open_finish(
        &mut self,
        cid: clientid4,
        owner: &[u8],
        owner_seqid: OwnerSeqid,
        fileid: fileid4,
        mode: OpenMode,
        handle: Res<H>,
        now: u64,
    ) -> (r: Res<Opened>)
        requires
            old(self).wf(),
        ensures
            final(self).wf(),
            exists|drawn: Res<Other>|
                {
                    &&& old(self)@.fair_other(drawn)
                    &&& (final(self)@, r) == #[trigger] old(self)@.open_finish(
                        cid,
                        owner@,
                        owner_seqid,
                        fileid,
                        mode,
                        handle,
                        now,
                        drawn,
                    )
                },
    {
        let drawn = self.draw_for_open(cid, owner, fileid);
        self.open_finish_as(cid, owner, owner_seqid, fileid, mode, handle, now, drawn)
    }
}

/// The list without one of its ids.
pub fn without_session(ids: &Vec<sessionid4>, id: &sessionid4) -> (r: Vec<sessionid4>)
    ensures
        r@ == without_id(ids@, *id),
{
    let mut out: Vec<sessionid4> = Vec::new();
    let mut i: usize = 0;
    proof {
        reveal(Seq::filter);
        assert(without_id(ids@.take(0), *id) =~= Seq::<sessionid4>::empty());
    }
    while i < ids.len()
        invariant
            i <= ids@.len(),
            out@ == without_id(ids@.take(i as int), *id),
        decreases ids@.len() - i,
    {
        proof {
            reveal(Seq::filter);
            assert(ids@.take(i + 1).drop_last() =~= ids@.take(i as int));
            assert(ids@.take(i + 1).last() == ids@[i as int]);
        }
        if !same_bytes(&ids[i], id) {
            out.push(ids[i]);
        }
        i += 1;
    }
    assert(ids@.take(i as int) =~= ids@);
    out
}

/// As many unused slots as a session gets of those asked for.
fn unused_slots(asked: u32) -> (r: Vec<Slot>)
    ensures
        models(r@) == Seq::new(slots_granted(asked) as nat, |i: int| SlotView::unused()),
{
    let n: u32 = if asked < 1 {
        1
    } else if asked > MAX_SLOTS {
        MAX_SLOTS
    } else {
        asked
    };
    let mut out: Vec<Slot> = Vec::new();
    let mut i: u32 = 0;
    while i < n
        invariant
            i <= n,
            out@.len() == i,
            forall|j: int| 0 <= j < i ==> (#[trigger] out@[j]).model() == SlotView::unused(),
        decreases n - i,
    {
        out.push(Slot { last_seqid: 0, cached: None });
        i += 1;
    }
    assert(models(out@) =~= Seq::new(slots_granted(asked) as nat, |i: int| SlotView::unused()));
    out
}

impl<H> NFS4State<H> {
    // -- OPEN_CONFIRM and CLOSE --

    /// Mark an open-owner as confirmed.
    fn confirm_owner(&mut self, cid: clientid4, owner: &Vec<u8>)
        requires
            old(self).wf(),
            old(self)@.clients.contains_key(cid),
            old(self)@.clients[cid].kind.minor() == Minor::V40,
        ensures
            final(self).wf(),
            final(self)@ == old(self)@.owner_confirmed(cid, owner@),
    {
        let ghost s = self@;
        proof {
            owner_confirmed_is_sound(s, cid, owner@);
        }
        if let Some(c) = self.clients.get_mut(&cid) {
            let mut record = c.open_owner(owner);
            record.confirmed = true;
            c.open_owners.insert(copied(owner), record);
        }
        assert(self@ =~= s.owner_confirmed(cid, owner@));
    }

    /// OPEN_CONFIRM on a fresh seqid.
    fn confirm_fresh(&mut self, cid: clientid4, owner: &Vec<u8>, other: Other, seqid: Option<u32>) -> (r: OwnerReply)
        requires
            old(self).wf(),
            old(self)@.opens.contains_key(other),
            old(self)@.opens[other].clientid == cid,
            old(self)@.opens[other].owner == owner@,
            old(self)@.clients[cid].kind.minor() == Minor::V40,
        ensures
            final(self).wf(),
            (final(self)@, r) == old(self)@.confirmed_fresh(other, seqid),
    {
        let current: u32 = match self.opens.get(&other) {
            Some(o) => o.seqid,
            None => 0,
        };
        if let Err(e) = check_seqid(current, seqid) {
            return Err(e);
        }
        let stateid = self.bump_open(other);
        self.confirm_owner(cid, owner);
        Ok(stateid)
    }

    /// OPEN_CONFIRM. 4.0 only; a 4.1 client gets NFS4ERR_STALE_CLIENTID.
    pub fn open_confirm(&mut self, sid: &stateid4, owner_seqid: seqid4, now: u64) -> (r: OwnerReply)
        requires
            old(self).wf(),
        ensures
            final(self).wf(),
            (final(self)@, r) == old(self)@.open_confirm(*sid, owner_seqid, now),
    {
        let (other, seqid) = match StateRef::of(sid) {
            StateRef::Open { other, seqid } => (other, seqid),
            _ => return Err(nfsstat4::NFS4ERR_BAD_STATEID),
        };
        let (cid, owner) = match self.opens.get(&other) {
            Some(o) => (o.clientid, copied(&o.owner)),
            None => return Err(nfsstat4::NFS4ERR_BAD_STATEID),
        };
        if let Err(e) = self.check_client(cid, now) {
            return Err(e);
        }
        let v40: bool = match self.clients.get(&cid) {
            Some(c) => c.is_v40(),
            None => false,
        };
        if !v40 {
            return Err(nfsstat4::NFS4ERR_STALE_CLIENTID); // there is no OPEN_CONFIRM in 4.1
        }
        self.touch(cid, now);
        let q = OwnerSeqid::V40(owner_seqid);
        match self.check_owner_seqid(cid, &owner, q) {
            Err(e) => Err(e),
            Ok(OwnerSeq::Replay(reply)) => reply,
            Ok(OwnerSeq::Fresh) => {
                let reply = self.confirm_fresh(cid, &owner, other, seqid);
                self.record_owner_reply(cid, &owner, q, reply);
                reply
            },
        }
    }

    /// Forget an open state.
    pub fn remove_open(&mut self, other: &Other)
        requires
            old(self).wf(),
        ensures
            final(self).wf(),
            final(self)@ == (if old(self)@.opens.contains_key(*other) {
                old(self)@.without_open(*other)
            } else {
                old(self)@
            }),
    {
        let ghost s = self@;
        match self.opens.remove(other) {
            Some(o) => {
                proof {
                    without_open_is_sound(s, *other);
                }
                self.open_index.remove(&(o.clientid, o.owner, o.fileid));
                assert(self@ =~= s.without_open(*other));
            },
            None => {
                assert(self@ =~= s);
            },
        }
    }

    /// Record `other` as this open-owner's just-closed state, replacing any
    /// earlier one. 4.0 only: 4.1 replays a retransmitted CLOSE from the slot
    /// cache and keeps no open-owner state at all.
    fn retire_open(&mut self, cid: clientid4, owner: &Vec<u8>, other: Other)
        requires
            old(self).wf(),
            old(self)@.fresh_other(other),
        ensures
            final(self).wf(),
            final(self)@ == old(self)@.retired_open(cid, owner@, other),
    {
        let ghost s = self@;
        proof {
            retired_open_is_sound(s, cid, owner@, other);
        }
        let previous: Option<Other> = match self.clients.get_mut(&cid) {
            None => return,
            Some(c) => {
                if !c.is_v40() {
                    assert(s.clients.insert(cid, c.model()) =~= s.clients);
                    return;
                }
                let mut record = c.open_owner(owner);
                let previous: Option<Other> = record.retired;
                record.retired = Some(other);
                c.open_owners.insert(copied(owner), record);
                previous
            },
        };
        if let Some(p) = previous {
            self.retired.remove(&p);
        }
        self.retired.insert(other, (cid, copied(owner)));
        assert(self@ =~= s.retired_open(cid, owner@, other));
    }

    /// CLOSE on a fresh seqid.
    fn close_fresh(&mut self, cid: clientid4, owner: &Vec<u8>, other: Other, seqid: Option<u32>) -> (r: OwnerReply)
        requires
            old(self).wf(),
        ensures
            final(self).wf(),
            (final(self)@, r) == old(self)@.closed_fresh(cid, owner@, other, seqid),
    {
        let current: u32 = match self.opens.get(&other) {
            Some(o) => o.seqid,
            None => return Err(nfsstat4::NFS4ERR_BAD_STATEID),
        };
        if let Err(e) = check_seqid(current, seqid) {
            return Err(e);
        }
        let stateid = stateid4 { seqid: if current == u32::MAX { 1 } else { current + 1 }, other };
        self.remove_open(&other);
        self.retire_open(cid, owner, other);
        Ok(stateid)
    }

    /// Whose state a stateid names, live or just closed.
    pub fn holder(&self, sid: &stateid4) -> (r: Option<(clientid4, Vec<u8>)>)
        requires
            self.wf(),
        ensures
            match state_ref(*sid) {
                StateRef::Open { other, .. } => match self@.holder(other) {
                    Some((cid, owner)) => r matches Some((c, o)) && c == cid && o@ == owner,
                    None => r is None,
                },
                _ => r is None,
            },
    {
        match StateRef::of(sid) {
            StateRef::Open { other, .. } => match self.opens.get(&other) {
                Some(o) => Some((o.clientid, copied(&o.owner))),
                None => match self.retired.get(&other) {
                    Some(k) => Some((k.0, copied(&k.1))),
                    None => None,
                },
            },
            _ => None,
        }
    }

    /// CLOSE. Releases the whole open state and returns the bumped stateid.
    /// Dropping the open state drops its handle, so the replay short-circuit
    /// only fires for a genuine 4.0 retransmit.
    pub fn close(&mut self, sid: &stateid4, owner_seqid: OwnerSeqid, now: u64) -> (r: OwnerReply)
        requires
            old(self).wf(),
        ensures
            final(self).wf(),
            (final(self)@, r) == old(self)@.close(*sid, owner_seqid, now),
    {
        let (other, seqid) = match StateRef::of(sid) {
            StateRef::Open { other, seqid } => (other, seqid),
            _ => return Err(nfsstat4::NFS4ERR_BAD_STATEID),
        };
        // The state may already be gone: a retransmitted CLOSE must still reach
        // the open-owner record, and CLOSE4args names no owner of its own.
        let (cid, owner) = match self.opens.get(&other) {
            Some(o) => (o.clientid, copied(&o.owner)),
            None => match self.retired.get(&other) {
                Some(k) => (k.0, copied(&k.1)),
                None => return Err(nfsstat4::NFS4ERR_BAD_STATEID),
            },
        };
        if let Err(e) = self.check_client(cid, now) {
            return Err(e);
        }
        self.touch(cid, now);
        match self.check_owner_seqid(cid, &owner, owner_seqid) {
            Err(e) => Err(e),
            Ok(OwnerSeq::Replay(reply)) => reply,
            Ok(OwnerSeq::Fresh) => {
                let reply = self.close_fresh(cid, &owner, other, seqid);
                self.record_owner_reply(cid, &owner, owner_seqid, reply);
                reply
            },
        }
    }

    /// Resolve a stateid for READ/WRITE/etc.
    pub fn resolve(&self, sid: &stateid4) -> (r: Res<Resolved<H>>)
        requires
            self.wf(),
        ensures
            match (r, self@.resolve(*sid)) {
                (Ok(v), Ok(m)) => v.model() == m,
                (Err(e), Err(f)) => e == f,
                _ => false,
            },
    {
        match StateRef::of(sid) {
            StateRef::Anonymous => Ok(Resolved::Anonymous),
            StateRef::Bypass => Ok(Resolved::Bypass),
            StateRef::Open { other, seqid } => match self.opens.get(&other) {
                None => Err(nfsstat4::NFS4ERR_BAD_STATEID),
                Some(o) => match check_seqid(o.seqid, seqid) {
                    Err(e) => Err(e),
                    Ok(_) => Ok(Resolved::Open { fileid: o.fileid, fh: o.fh.clone(), mode: o.mode }),
                },
            },
        }
    }

    /// TEST_STATEID: per-stateid status.
    pub fn test_stateid(&self, sid: &stateid4) -> (r: nfsstat4)
        requires
            self.wf(),
        ensures
            r == (match self@.resolve(*sid) {
                Ok(_) => nfsstat4::NFS4_OK,
                Err(e) => e,
            }),
    {
        match self.resolve(sid) {
            Ok(_) => nfsstat4::NFS4_OK,
            Err(e) => e,
        }
    }

    // -- NFSv4.1: clientid and sessions --

    /// The registration that an EXCHANGE_ID repeats.
    fn registration(&self, ownerid: &[u8], verifier: &verifier4, now: u64) -> (r: Option<(clientid4, sequenceid4)>)
        requires
            self.wf(),
        ensures
            r == self@.registration(ownerid@, *verifier, now),
    {
        let key = (Minor::V41, copied(ownerid));
        let cid: clientid4 = match self.by_owner.get(&key) {
            Some(c) => *c,
            None => return None,
        };
        match self.clients.get(&cid) {
            None => None,
            Some(c) => if same_bytes(&c.verifier, verifier) && c.is_live(now, self.lease) {
                match &c.kind {
                    ClientKind::V41(v) => Some((cid, v.create_session_seq)),
                    ClientKind::V40(_) => None,
                }
            } else {
                None
            },
        }
    }

    /// EXCHANGE_ID, with `drawn` as the clientid of a new registration.
    pub fn exchange_id_as(
        &mut self,
        ownerid: &[u8],
        verifier: &verifier4,
        now: u64,
        drawn: Res<clientid4>,
    ) -> (r: Res<(clientid4, sequenceid4)>)
        requires
            old(self).wf(),
            drawn matches Ok(cid) ==> old(self)@.fresh_clientid(cid),
        ensures
            final(self).wf(),
            (final(self)@, r) == old(self)@.exchange_id(ownerid@, *verifier, now, drawn),
    {
        if let Some(known) = self.registration(ownerid, verifier, now) {
            return Ok(known);
        }
        match drawn {
            Err(e) => Err(e),
            Ok(cid) => {
                let kind = ClientKind::V41(V41 { create_session_seq: 1, sessions: Vec::new() });
                assert(kind.model()->sessions =~= Seq::<sessionid4>::empty());
                self.install_client_as((Minor::V41, copied(ownerid)), *verifier, kind, now, cid);
                Ok((cid, 1))
            },
        }
    }

    /// EXCHANGE_ID. Returns the clientid and the next CREATE_SESSION sequenceid.
    /// A changed verifier means the client rebooted, so its old state is dropped.
    /// A new registration needs a random clientid; where the system has none to
    /// give, it fails with NFS4ERR_SERVERFAULT.
    pub fn exchange_id(&mut self, ownerid: &[u8], verifier: &verifier4, now: u64) -> (r: Res<(clientid4, sequenceid4)>)
        requires
            old(self).wf(),
        ensures
            final(self).wf(),
            exists|drawn: Res<clientid4>|
                {
                    &&& old(self)@.fair_clientid(drawn)
                    &&& (final(self)@, r) == #[trigger] old(self)@.exchange_id(ownerid@, *verifier, now, drawn)
                },
    {
        let drawn = self.fresh_clientid();
        self.exchange_id_as(ownerid, verifier, now, drawn)
    }

    /// CREATE_SESSION, with `drawn` as the id of a new session.
    pub fn create_session_as(
        &mut self,
        cid: clientid4,
        csa_sequence: sequenceid4,
        num_slots: u32,
        max_cached: u32,
        now: u64,
        drawn: Res<sessionid4>,
    ) -> (r: Res<CreateSession>)
        requires
            old(self).wf(),
            drawn matches Ok(id) ==> old(self)@.fresh_sessionid(id),
        ensures
            final(self).wf(),
            (final(self)@, r) == old(self)@.create_session(cid, csa_sequence, num_slots, max_cached, now, drawn),
    {
        if let Err(e) = self.check_client(cid, now) {
            return Err(e);
        }
        self.touch(cid, now);
        let ghost s = self@;
        let (expected, made): (sequenceid4, Option<sessionid4>) = match self.clients.get(&cid) {
            None => return Err(nfsstat4::NFS4ERR_STALE_CLIENTID),
            Some(c) => match &c.kind {
                ClientKind::V40(_) => return Err(nfsstat4::NFS4ERR_STALE_CLIENTID),
                ClientKind::V41(v) => (v.create_session_seq, c.made),
            },
        };
        if csa_sequence == previous_wrapping(expected) {
            // Replay of the previous CREATE_SESSION.
            return match made {
                Some(id) => Ok(CreateSession::Replay(id)),
                None => Err(nfsstat4::NFS4ERR_SEQ_MISORDERED),
            };
        }
        if csa_sequence != expected {
            return Err(nfsstat4::NFS4ERR_SEQ_MISORDERED);
        }
        let id: sessionid4 = match drawn {
            Ok(id) => id,
            Err(e) => return Err(e),
        };
        proof {
            session_made_is_sound(s, cid, num_slots, max_cached, id);
        }
        let session = Session { clientid: cid, slots: unused_slots(num_slots), max_cached };
        self.sessions.insert(id, session);
        if let Some(c) = self.clients.get_mut(&cid) {
            if let ClientKind::V41(v) = &mut c.kind {
                v.create_session_seq = next_wrapping(expected);
                v.sessions.push(id);
            }
            c.made = Some(id);
        }
        assert(self@ =~= s.session_made(cid, num_slots, max_cached, id));
        Ok(CreateSession::New(id))
    }

    /// CREATE_SESSION. `num_slots` is the requested `ca_maxrequests`,
    /// `max_cached` the negotiated `ca_maxresponsesize_cached`. A new session
    /// needs a random id; where the system has none to give, it fails with
    /// NFS4ERR_SERVERFAULT.
    pub fn create_session(
        &mut self,
        cid: clientid4,
        csa_sequence: sequenceid4,
        num_slots: u32,
        max_cached: u32,
        now: u64,
    ) -> (r: Res<CreateSession>)
        requires
            old(self).wf(),
        ensures
            final(self).wf(),
            exists|drawn: Res<sessionid4>|
                {
                    &&& old(self)@.fair_sessionid(drawn)
                    &&& (final(self)@, r) == #[trigger] old(self)@.create_session(
                        cid,
                        csa_sequence,
                        num_slots,
                        max_cached,
                        now,
                        drawn,
                    )
                },
    {
        let drawn = self.fresh_sessionid();
        self.create_session_as(cid, csa_sequence, num_slots, max_cached, now, drawn)
    }

    /// The client owning a session, for ops that need it after SEQUENCE.
    pub fn session_client(&self, sessionid: &sessionid4) -> (r: Res<clientid4>)
        requires
            self.wf(),
        ensures
            r == self@.session_client(*sessionid),
    {
        match self.sessions.get(sessionid) {
            Some(s) => Ok(s.clientid),
            None => Err(nfsstat4::NFS4ERR_BADSESSION),
        }
    }

    /// SEQUENCE slot check. Renews the lease on any accepted request.
    pub fn sequence(
        &mut self,
        sessionid: &sessionid4,
        slotid: slotid4,
        seqid: sequenceid4,
        now: u64,
    ) -> (r: Res<Sequence>)
        requires
            old(self).wf(),
        ensures
            final(self).wf(),
            final(self)@ == old(self)@.sequence(*sessionid, slotid, seqid, now).0,
            match (r, old(self)@.sequence(*sessionid, slotid, seqid, now).1) {
                (Ok(v), Ok(m)) => v.model() == m,
                (Err(e), Err(f)) => e == f,
                _ => false,
            },
    {
        let ghost s = self@;
        proof {
            sequence_is_sound(s, *sessionid, slotid, seqid, now);
        }
        let cid: clientid4 = match self.sessions.get(sessionid) {
            Some(v) => v.clientid,
            None => return Err(nfsstat4::NFS4ERR_BADSESSION),
        };
        // An expired client takes its sessions with it.
        if self.check_client(cid, now).is_err() {
            return Err(nfsstat4::NFS4ERR_BADSESSION);
        }
        let outcome = match self.sessions.get_mut(sessionid) {
            None => return Err(nfsstat4::NFS4ERR_BADSESSION),
            Some(session) => {
                let ghost before = session.model();
                assert(before == s.sessions[*sessionid]);
                assert(s.sessions.insert(*sessionid, before) =~= s.sessions);
                if slotid as u64 >= session.slots.len() as u64 {
                    return Err(nfsstat4::NFS4ERR_BADSLOT);
                }
                let i: usize = slotid as usize;
                assert(before.slots[i as int] == session.slots@[i as int].model());
                let last: sequenceid4 = session.slots[i].last_seqid;
                if seqid == last {
                    match &session.slots[i].cached {
                        Some(reply) => Sequence::Replay(copied(reply)),
                        None => Sequence::RetryUncached,
                    }
                } else if seqid == next_wrapping(last) {
                    session.slots[i] = Slot { last_seqid: seqid, cached: None };
                    proof {
                        let v = SlotView { last_seqid: seqid, cached: None };
                        assert(models(session.slots@) =~= before.slots.update(i as int, v));
                    }
                    Sequence::New
                } else {
                    return Err(nfsstat4::NFS4ERR_SEQ_MISORDERED);
                }
            },
        };
        if let Some(c) = self.clients.get_mut(&cid) {
            c.last_renewed = now;
        }
        assert(self@ =~= s.sequence(*sessionid, slotid, seqid, now).0);
        Ok(outcome)
    }

    /// Cache an encoded COMPOUND4res for a slot (`sa_cachethis`). Oversized
    /// replies are dropped; a replay then gets `RetryUncached`.
    pub fn cache_reply(&mut self, sessionid: &sessionid4, slotid: slotid4, seqid: sequenceid4, reply: Vec<u8>)
        requires
            old(self).wf(),
        ensures
            final(self).wf(),
            final(self)@ == old(self)@.reply_cached(*sessionid, slotid, seqid, reply@),
    {
        let ghost s = self@;
        proof {
            reply_cached_is_sound(s, *sessionid, slotid, seqid, reply@);
        }
        let ghost kept_reply = reply@;
        match self.sessions.get_mut(sessionid) {
            None => {
                return;
            },
            Some(session) => {
                let ghost before = session.model();
                assert(s.sessions.insert(*sessionid, before) =~= s.sessions);
                if reply.len() as u64 > session.max_cached as u64 {
                    return;
                }
                if slotid as u64 >= session.slots.len() as u64 {
                    return;
                }
                let i: usize = slotid as usize;
                assert(before.slots[i as int] == session.slots@[i as int].model());
                if session.slots[i].last_seqid == seqid {
                    session.slots[i] = Slot { last_seqid: seqid, cached: Some(reply) };
                    proof {
                        let v = SlotView { last_seqid: seqid, cached: Some(kept_reply) };
                        assert(models(session.slots@) =~= before.slots.update(i as int, v));
                    }
                }
            },
        }
        assert(self@ =~= s.reply_cached(*sessionid, slotid, seqid, kept_reply));
    }

    /// DESTROY_SESSION.
    pub fn destroy_session(&mut self, sessionid: &sessionid4) -> (r: Res<()>)
        requires
            old(self).wf(),
        ensures
            final(self).wf(),
            (final(self)@, r) == old(self)@.destroy_session(*sessionid),
    {
        let ghost s = self@;
        proof {
            destroy_session_is_sound(s, *sessionid);
        }
        let session = match self.sessions.remove(sessionid) {
            Some(v) => v,
            None => {
                assert(self@ =~= s);
                return Err(nfsstat4::NFS4ERR_BADSESSION);
            },
        };
        if let Some(c) = self.clients.get_mut(&session.clientid) {
            if let ClientKind::V41(v) = &mut c.kind {
                v.sessions = without_session(&v.sessions, sessionid);
            }
            let newest: bool = match &c.made {
                Some(id) => same_bytes(id, sessionid),
                None => false,
            };
            if newest {
                c.made = None;
            }
        }
        assert(self@ =~= s.destroy_session(*sessionid).0);
        Ok(())
    }

    /// DESTROY_CLIENTID.
    pub fn destroy_clientid(&mut self, cid: clientid4) -> (r: Res<()>)
        requires
            old(self).wf(),
        ensures
            final(self).wf(),
            (final(self)@, r) == old(self)@.destroy_clientid(cid),
    {
        match self.clients.get(&cid) {
            None => return Err(nfsstat4::NFS4ERR_STALE_CLIENTID),
            Some(c) => {
                if let ClientKind::V41(v) = &c.kind {
                    if v.sessions.len() > 0 {
                        return Err(nfsstat4::NFS4ERR_CLIENTID_BUSY);
                    }
                }
            },
        }
        self.remove_client(cid);
        Ok(())
    }

    /// RECLAIM_COMPLETE. Nothing to reclaim without persistent state, so this
    /// only validates the session and renews the lease. OPEN must therefore
    /// always reject CLAIM_PREVIOUS with NFS4ERR_NO_GRACE.
    pub fn reclaim_complete(&mut self, sessionid: &sessionid4, now: u64) -> (r: Res<()>)
        requires
            old(self).wf(),
        ensures
            final(self).wf(),
            (final(self)@, r) == old(self)@.reclaim_complete(*sessionid, now),
    {
        match self.session_client(sessionid) {
            Err(e) => Err(e),
            Ok(cid) => self.renew(cid, now),
        }
    }

    // -- NFSv4.0: clientid --

    /// SETCLIENTID. Always issues a fresh clientid and replaces any previous
    /// record for this owner, so no stale index entry can survive. Both the id
    /// and the confirm verifier are random; where the system has none to give,
    /// it fails with NFS4ERR_SERVERFAULT and nothing is changed.
    pub fn setclientid(&mut self, ownerid: &[u8], verifier: &verifier4, now: u64) -> (r: Res<(clientid4, verifier4)>)
        requires
            old(self).wf(),
        ensures
            final(self).wf(),
            match r {
                Ok((cid, confirm)) => {
                    &&& old(self)@.fresh_clientid(cid)
                    &&& final(self)@ == old(self)@.setclientid(ownerid@, *verifier, now, cid, confirm)
                },
                Err(e) => e == nfsstat4::NFS4ERR_SERVERFAULT && final(self)@ == old(self)@,
            },
    {
        let confirm: verifier4 = match draw_bytes() {
            Some(v) => v,
            None => return Err(nfsstat4::NFS4ERR_SERVERFAULT),
        };
        let cid: clientid4 = match self.fresh_clientid() {
            Ok(c) => c,
            Err(e) => return Err(e),
        };
        self.setclientid_as(ownerid, verifier, now, cid, &confirm);
        Ok((cid, confirm))
    }

    /// SETCLIENTID, with this clientid and this confirm verifier.
    pub fn setclientid_as(
        &mut self,
        ownerid: &[u8],
        verifier: &verifier4,
        now: u64,
        cid: clientid4,
        confirm: &verifier4,
    )
        requires
            old(self).wf(),
            old(self)@.fresh_clientid(cid),
        ensures
            final(self).wf(),
            final(self)@ == old(self)@.setclientid(ownerid@, *verifier, now, cid, *confirm),
    {
        let kind = ClientKind::V40(V40 { confirm_verifier: *confirm, confirmed: false });
        self.install_client_as((Minor::V40, copied(ownerid)), *verifier, kind, now, cid);
    }

    /// SETCLIENTID_CONFIRM. Idempotent, so retransmits succeed.
    pub fn setclientid_confirm(&mut self, cid: clientid4, confirm: &verifier4, now: u64) -> (r: Res<()>)
        requires
            old(self).wf(),
        ensures
            final(self).wf(),
            (final(self)@, r) == old(self)@.setclientid_confirm(cid, *confirm, now),
    {
        let ghost s = self@;
        proof {
            setclientid_confirm_is_sound(s, cid, *confirm, now);
        }
        if let Err(e) = self.check_client(cid, now) {
            return Err(e);
        }
        match self.clients.get(&cid) {
            None => return Err(nfsstat4::NFS4ERR_STALE_CLIENTID),
            Some(c) => match &c.kind {
                ClientKind::V41(_) => return Err(nfsstat4::NFS4ERR_STALE_CLIENTID),
                ClientKind::V40(v) => if !same_bytes(&v.confirm_verifier, confirm) {
                    return Err(nfsstat4::NFS4ERR_CLID_INUSE);
                },
            },
        }
        if let Some(c) = self.clients.get_mut(&cid) {
            c.kind = ClientKind::V40(V40 { confirm_verifier: *confirm, confirmed: true });
            c.last_renewed = now;
        }
        assert(self@ =~= s.setclientid_confirm(cid, *confirm, now).0);
        Ok(())
    }

    /// RENEW.
    pub fn renew(&mut self, cid: clientid4, now: u64) -> (r: Res<()>)
        requires
            old(self).wf(),
        ensures
            final(self).wf(),
            (final(self)@, r) == old(self)@.renew(cid, now),
    {
        match self.check_client(cid, now) {
            Err(e) => Err(e),
            Ok(_) => {
                self.touch(cid, now);
                Ok(())
            },
        }
    }

    /// The epoch of this boot.
    pub fn boot_verifier(&self) -> (v: u32)
        ensures
            v == self@.epoch,
    {
        self.epoch
    }
}

// ------------------------------------------------------------------ inspection

/// How much the server remembers.
#[derive(Copy, Clone, Debug, PartialEq, Eq, Structural)]
pub struct Census {
    pub clients: usize,
    pub owners: usize,
    pub sessions: usize,
    pub opens: usize,
    pub indexed: usize,
    pub retired: usize,
}

impl<H> NFS4State<H> {
    /// How much is remembered.
    pub fn census(&self) -> (c: Census)
        requires
            self.wf(),
        ensures
            c.clients == self@.clients.len(),
            c.owners == self@.by_owner.len(),
            c.sessions == self@.sessions.len(),
            c.opens == self@.opens.len(),
            c.indexed == self@.open_index.len(),
            c.retired == self@.retired.len(),
    {
        Census {
            clients: self.clients.len(),
            owners: self.by_owner.len(),
            sessions: self.sessions.len(),
            opens: self.opens.len(),
            indexed: self.open_index.len(),
            retired: self.retired.len(),
        }
    }

    /// The seqid and the mode of an open state.
    pub fn open_version(&self, other: &Other) -> (r: Option<(u32, OpenMode)>)
        requires
            self.wf(),
        ensures
            r == (if self@.opens.contains_key(*other) {
                Some((self@.opens[*other].seqid, self@.opens[*other].mode))
            } else {
                None
            }),
    {
        match self.opens.get(other) {
            Some(o) => Some((o.seqid, o.mode)),
            None => None,
        }
    }

    /// Is `other` the tombstone of a closed state?
    pub fn is_retired(&self, other: &Other) -> (b: bool)
        requires
            self.wf(),
        ensures
            b == self@.retired.contains_key(*other),
    {
        self.retired.contains_key(other)
    }

    /// How many open-owners of a client are on record.
    pub fn open_owner_count(&self, cid: clientid4) -> (r: Option<usize>)
        requires
            self.wf(),
        ensures
            match r {
                Some(n) => self@.clients.contains_key(cid) && n == self@.clients[cid].open_owners.len(),
                None => !self@.clients.contains_key(cid),
            },
    {
        match self.clients.get(&cid) {
            Some(c) => Some(c.open_owners.len()),
            None => None,
        }
    }

    fn check_opens(&self) -> (b: bool)
        requires
            self.tables_wf(),
        ensures
            b == self@.opens_indexed(),
    {
        let n: usize = self.opens.len();
        let mut i: usize = 0;
        while i < n
            invariant
                self.tables_wf(),
                i <= n == self.opens.keys().len(),
                forall|j: int| 0 <= j < i ==> self@.open_indexed(#[trigger] self.opens.keys()[j]),
            decreases n - i,
        {
            let other = self.opens.key_at(i);
            let o = self.opens.value_at(i);
            let key = (o.clientid, copied(&o.owner), o.fileid);
            let found: bool = match self.open_index.get(&key) {
                Some(p) => same_bytes(p, other),
                None => false,
            };
            let sound: bool = found && o.seqid != 0 && self.clients.contains_key(&o.clientid);
            assert(sound == self@.open_indexed(other.model()));
            if !sound {
                assert(self@.opens.contains_key(other.model()));
                return false;
            }
            i += 1;
        }
        proof {
            self.opens.walk_is_complete();
        }
        true
    }

    fn check_index(&self) -> (b: bool)
        requires
            self.tables_wf(),
        ensures
            b == self@.index_points_to_opens(),
    {
        let n: usize = self.open_index.len();
        let mut i: usize = 0;
        while i < n
            invariant
                self.tables_wf(),
                i <= n == self.open_index.keys().len(),
                forall|j: int| 0 <= j < i ==> self@.key_leads_to_open(#[trigger] self.open_index.keys()[j]),
            decreases n - i,
        {
            let key = self.open_index.key_at(i);
            let other = self.open_index.value_at(i);
            let sound: bool = match self.opens.get(other) {
                Some(o) => key.0 == o.clientid && key.1.same(&o.owner) && key.2 == o.fileid,
                None => false,
            };
            assert(sound == self@.key_leads_to_open(key.model()));
            if !sound {
                assert(self@.open_index.contains_key(key.model()));
                return false;
            }
            i += 1;
        }
        proof {
            self.open_index.walk_is_complete();
        }
        true
    }

    fn check_sessions(&self) -> (b: bool)
        requires
            self.tables_wf(),
        ensures
            b == self@.sessions_owned(),
    {
        let n: usize = self.sessions.len();
        let mut i: usize = 0;
        while i < n
            invariant
                self.tables_wf(),
                i <= n == self.sessions.keys().len(),
                forall|j: int| 0 <= j < i ==> self@.session_owned(#[trigger] self.sessions.keys()[j]),
            decreases n - i,
        {
            let id = self.sessions.key_at(i);
            let v = self.sessions.value_at(i);
            let owned: bool = match self.clients.get(&v.clientid) {
                Some(c) => match &c.kind {
                    ClientKind::V41(k) => lists(&k.sessions, id),
                    ClientKind::V40(_) => false,
                },
                None => false,
            };
            let sound: bool = owned && 1 <= v.slots.len() && v.slots.len() as u64 <= MAX_SLOTS as u64;
            assert(sound == self@.session_owned(id.model()));
            if !sound {
                assert(self@.sessions.contains_key(id.model()));
                return false;
            }
            i += 1;
        }
        proof {
            self.sessions.walk_is_complete();
        }
        true
    }

    fn check_register(&self) -> (b: bool)
        requires
            self.tables_wf(),
        ensures
            b == self@.register_points_to_clients(),
    {
        let n: usize = self.by_owner.len();
        let mut i: usize = 0;
        while i < n
            invariant
                self.tables_wf(),
                i <= n == self.by_owner.keys().len(),
                forall|j: int| 0 <= j < i ==> self@.owner_leads_to_client(#[trigger] self.by_owner.keys()[j]),
            decreases n - i,
        {
            let owner = self.by_owner.key_at(i);
            let cid = self.by_owner.value_at(i);
            let sound: bool = match self.clients.get(cid) {
                Some(c) => c.owner.same(owner),
                None => false,
            };
            assert(sound == self@.owner_leads_to_client(owner.model()));
            if !sound {
                assert(self@.by_owner.contains_key(owner.model()));
                return false;
            }
            i += 1;
        }
        proof {
            self.by_owner.walk_is_complete();
        }
        true
    }

    /// Are these the sessions of the client, each listed once?
    fn sessions_are_of(&self, ids: &Vec<sessionid4>, cid: clientid4) -> (b: bool)
        requires
            self.tables_wf(),
        ensures
            b == (ids@.no_duplicates() && forall|i: int|
                0 <= i < ids@.len() ==> self@.sessions.contains_key(#[trigger] ids@[i])
                    && self@.sessions[ids@[i]].clientid == cid),
    {
        let mut i: usize = 0;
        while i < ids.len()
            invariant
                self.tables_wf(),
                i <= ids@.len(),
                forall|j: int, k: int| 0 <= j < i && 0 <= k < i && j != k ==> ids@[j] != ids@[k],
                forall|j: int|
                    0 <= j < i ==> self@.sessions.contains_key(#[trigger] ids@[j])
                        && self@.sessions[ids@[j]].clientid == cid,
            decreases ids@.len() - i,
        {
            let mut k: usize = 0;
            while k < i
                invariant
                    k <= i < ids@.len(),
                    forall|j: int| 0 <= j < k ==> ids@[j] != ids@[i as int],
                decreases i - k,
            {
                if same_bytes(&ids[k], &ids[i]) {
                    assert(ids@[k as int] == ids@[i as int]);
                    return false;
                }
                k += 1;
            }
            let owned: bool = match self.sessions.get(&ids[i]) {
                Some(v) => v.clientid == cid,
                None => false,
            };
            if !owned {
                assert(!self@.sessions.contains_key(ids@[i as int]) || self@.sessions[ids@[i as int]].clientid != cid);
                return false;
            }
            i += 1;
        }
        true
    }

    fn check_clients(&self) -> (b: bool)
        requires
            self.tables_wf(),
        ensures
            b == self@.clients_sound(),
    {
        let n: usize = self.clients.len();
        let mut i: usize = 0;
        while i < n
            invariant
                self.tables_wf(),
                i <= n == self.clients.keys().len(),
                forall|j: int| 0 <= j < i ==> self@.client_sound(#[trigger] self.clients.keys()[j]),
            decreases n - i,
        {
            let cid: clientid4 = *self.clients.key_at(i);
            let c = self.clients.value_at(i);
            let registered: bool = match self.by_owner.get(&c.owner) {
                Some(x) => *x == cid,
                None => false,
            };
            let of_kind: bool = match &c.kind {
                ClientKind::V40(_) => c.owner.0 == Minor::V40 && c.made.is_none(),
                ClientKind::V41(k) => {
                    let made: bool = match &c.made {
                        Some(id) => lists(&k.sessions, id),
                        None => true,
                    };
                    made && c.owner.0 == Minor::V41 && c.open_owners.is_empty() && self.sessions_are_of(
                        &k.sessions,
                        cid,
                    )
                },
            };
            let sound: bool = registered && of_kind && cid / 0x1_0000_0000 == self.epoch as u64;
            assert(sound == self@.client_sound(cid));
            if !sound {
                assert(self@.clients.contains_key(cid));
                return false;
            }
            i += 1;
        }
        proof {
            self.clients.walk_is_complete();
        }
        true
    }

    fn check_tombstones(&self) -> (b: bool)
        requires
            self.tables_wf(),
        ensures
            b == self@.tombstones_owned(),
    {
        let n: usize = self.retired.len();
        let mut i: usize = 0;
        while i < n
            invariant
                self.tables_wf(),
                i <= n == self.retired.keys().len(),
                forall|j: int| 0 <= j < i ==> self@.tombstone_owned(#[trigger] self.retired.keys()[j]),
            decreases n - i,
        {
            let other = self.retired.key_at(i);
            let whose = self.retired.value_at(i);
            let owned: bool = match self.clients.get(&whose.0) {
                None => false,
                Some(c) => c.is_v40() && match c.open_owners.get(&whose.1) {
                    None => false,
                    Some(r) => match &r.retired {
                        None => false,
                        Some(x) => same_bytes(x, other),
                    },
                },
            };
            let sound: bool = owned && !self.opens.contains_key(other);
            assert(sound == self@.tombstone_owned(other.model()));
            if !sound {
                assert(self@.retired.contains_key(other.model()));
                return false;
            }
            i += 1;
        }
        proof {
            self.retired.walk_is_complete();
        }
        true
    }

    fn check_listing_of(&self, cid: clientid4, c: &Client) -> (b: bool)
        requires
            self.tables_wf(),
            self@.clients.contains_key(cid),
            self@.clients[cid] == c.model(),
            c.sound(),
        ensures
            b == (forall|owner: Seq<u8>| #[trigger]
                self@.clients[cid].open_owners.contains_key(owner) ==> self@.tombstone_listed(cid, owner)),
    {
        let n: usize = c.open_owners.len();
        let mut i: usize = 0;
        while i < n
            invariant
                self.tables_wf(),
                self@.clients.contains_key(cid),
                self@.clients[cid] == c.model(),
                c.sound(),
                i <= n == c.open_owners.keys().len(),
                forall|j: int| 0 <= j < i ==> self@.tombstone_listed(cid, #[trigger] c.open_owners.keys()[j]),
            decreases n - i,
        {
            let owner = c.open_owners.key_at(i);
            let r = c.open_owners.value_at(i);
            let sound: bool = match &r.retired {
                None => true,
                Some(other) => match self.retired.get(other) {
                    None => false,
                    Some(k) => k.0 == cid && k.1.same(owner),
                },
            };
            assert(sound == self@.tombstone_listed(cid, owner@));
            if !sound {
                assert(self@.clients[cid].open_owners.contains_key(owner@));
                return false;
            }
            i += 1;
        }
        proof {
            c.open_owners.walk_is_complete();
        }
        true
    }

    fn check_listing(&self) -> (b: bool)
        requires
            self.tables_wf(),
        ensures
            b == self@.tombstones_listed(),
    {
        let n: usize = self.clients.len();
        let mut i: usize = 0;
        while i < n
            invariant
                self.tables_wf(),
                i <= n == self.clients.keys().len(),
                forall|j: int, owner: Seq<u8>|
                    0 <= j < i && #[trigger] self@.clients[self.clients.keys()[j]].open_owners.contains_key(owner)
                        ==> self@.tombstone_listed(self.clients.keys()[j], owner),
            decreases n - i,
        {
            let cid: clientid4 = *self.clients.key_at(i);
            let c = self.clients.value_at(i);
            if !self.check_listing_of(cid, c) {
                return false;
            }
            i += 1;
        }
        proof {
            self.clients.walk_is_complete();
            assert forall|cid: clientid4, owner: Seq<u8>|
                self@.clients.contains_key(cid) && #[trigger] self@.clients[cid].open_owners.contains_key(
                    owner,
                ) implies self@.tombstone_listed(cid, owner) by {
                let j = choose|j: int| 0 <= j < self.clients.keys().len() && self.clients.keys()[j] == cid;
                assert(self@.clients[self.clients.keys()[j]].open_owners.contains_key(owner));
            }
        }
        true
    }

    /// Does the invariant hold? Operations keep it, so the answer is only ever
    /// `false` of a state that was tampered with.
    pub fn invariants_hold(&self) -> (b: bool)
        requires
            self.tables_wf(),
        ensures
            b == self@.inv(),
    {
        self.check_opens() && self.check_index() && self.check_sessions() && self.check_register()
            && self.check_clients() && self.check_tombstones() && self.check_listing()
    }
}

/// Is the id in the list?
fn lists(ids: &Vec<sessionid4>, id: &sessionid4) -> (b: bool)
    ensures
        b == ids@.contains(*id),
{
    let mut i: usize = 0;
    while i < ids.len()
        invariant
            i <= ids@.len(),
            forall|j: int| 0 <= j < i ==> ids@[j] != *id,
        decreases ids@.len() - i,
    {
        if same_bytes(&ids[i], id) {
            assert(ids@[i as int] == *id);
            return true;
        }
        i += 1;
    }
    false
}

} // verus!
