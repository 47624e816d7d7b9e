//! Clients, sessions and opens of a server that speaks sessions only, with
//! leases by deadline and shares that are always granted.

use vstd::prelude::*;
use vstd::slice::slice_to_vec;

use crate::model::{models, same_bytes, Model, Stored};
use crate::nfs::{verifier_of, write_verifier};
use crate::nfs4::session::channel_attrs4;
use crate::nfs4::state::without_session;
use crate::nfs4::state_inv::filter_keeps_order;
use crate::nfs4::state_spec::{other_than, without_id};
use crate::nfs4::{clientid4, sequenceid4, sessionid4, slotid4, stateid4, verifier4, NFS4_OTHER_SIZE};
use crate::random::{draw_bytes, draw_u32};
use crate::table::{kept, Table};

verus! {

// ---------------------------------------------------------------- records

struct ClientRecord {
    clientid: clientid4,
    co_verifier: verifier4,
    /// Next expected CREATE_SESSION sequenceid.
    seqid: sequenceid4,
    confirmed: bool,
    sessions: Vec<sessionid4>,
    /// The session that the last CREATE_SESSION made, while it lives: its replay
    /// names no other.
    made: Option<sessionid4>,
    /// When the lease runs out, in nanoseconds.
    expires: u64,
    reclaim_complete: bool,
}

struct SlotState {
    /// Last sequenceid seen. 0 if the slot was never used.
    last_seqid: sequenceid4,
    /// The body of the reply, if it was to be cached.
    cached_reply: Option<Vec<u8>>,
}

struct SessionRecord {
    clientid: clientid4,
    slots: Vec<SlotState>,
    fore_attrs: channel_attrs4,
    back_attrs: channel_attrs4,
}

struct OpenState {
    clientid: clientid4,
    owner: Vec<u8>,
    fileid: u64,
    /// Starts at 1.
    seqid: u32,
    share_access: u32,
    share_deny: u32,
}

struct OpenOwnerState {
    /// Last open-owner seqid seen. Sessions order the operations; the number is
    /// carried along.
    last_seqid: u32,
}

/// The client behind an owner.
#[verifier::ext_equal]
pub struct ClientView {
    pub clientid: clientid4,
    pub verifier: verifier4,
    pub seqid: sequenceid4,
    pub confirmed: bool,
    pub sessions: Seq<sessionid4>,
    /// The session that the last CREATE_SESSION made, while it lives.
    pub made: Option<sessionid4>,
    pub expires: u64,
    pub reclaim_complete: bool,
}

/// One slot: the last request, and what was answered if that was to be kept.
#[verifier::ext_equal]
pub struct SlotView {
    pub last_seqid: sequenceid4,
    pub cached: Option<Seq<u8>>,
}

/// A session.
#[verifier::ext_equal]
pub struct SessionView {
    pub clientid: clientid4,
    pub slots: Seq<SlotView>,
    pub fore: <channel_attrs4 as Model>::M,
    pub back: <channel_attrs4 as Model>::M,
}

/// An open file.
#[verifier::ext_equal]
pub struct OpenView {
    pub clientid: clientid4,
    pub owner: Seq<u8>,
    pub fileid: u64,
    pub seqid: u32,
    pub share_access: u32,
    pub share_deny: u32,
}

impl Model for ClientRecord {
    type M = ClientView;

    closed spec fn model(&self) -> ClientView {
        ClientView {
            clientid: self.clientid,
            verifier: self.co_verifier,
            seqid: self.seqid,
            confirmed: self.confirmed,
            sessions: self.sessions@,
            made: self.made,
            expires: self.expires,
            reclaim_complete: self.reclaim_complete,
        }
    }
}

impl Model for SlotState {
    type M = SlotView;

    closed spec fn model(&self) -> SlotView {
        SlotView {
            last_seqid: self.last_seqid,
            cached: match self.cached_reply {
                Some(b) => Some(b@),
                None => None,
            },
        }
    }
}

impl Model for SessionRecord {
    type M = SessionView;

    closed spec fn model(&self) -> SessionView {
        SessionView {
            clientid: self.clientid,
            slots: models(self.slots@),
            fore: self.fore_attrs.model(),
            back: self.back_attrs.model(),
        }
    }
}

impl Model for OpenState {
    type M = OpenView;

    closed spec fn model(&self) -> OpenView {
        OpenView {
            clientid: self.clientid,
            owner: self.owner@,
            fileid: self.fileid,
            seqid: self.seqid,
            share_access: self.share_access,
            share_deny: self.share_deny,
        }
    }
}

impl Model for OpenOwnerState {
    type M = u32;

    closed spec fn model(&self) -> u32 {
        self.last_seqid
    }
}

impl Stored for ClientRecord {
    closed spec fn sound(&self) -> bool {
        true
    }
}

impl Stored for SessionRecord {
    closed spec fn sound(&self) -> bool {
        true
    }
}

impl Stored for OpenState {
    closed spec fn sound(&self) -> bool {
        true
    }
}

impl Stored for OpenOwnerState {
    closed spec fn sound(&self) -> bool {
        true
    }
}

// ---------------------------------------------------------------- outcomes

/// What EXCHANGE_ID gives: the client's id, and the sequence of its next
/// CREATE_SESSION.
#[derive(Copy, Clone, Debug, PartialEq, Eq, Structural)]
pub struct ExchangeIdResult {
    pub clientid: clientid4,
    pub seqid: sequenceid4,
}

/// What came of CREATE_SESSION.
#[derive(Copy, Clone, Debug, PartialEq, Eq)]
pub enum CreateSessionOutcome {
    Created { sessionid: sessionid4 },
    StaleClientId,
    SeqMisordered,
    /// Replay of the CREATE_SESSION that created this session.
    Replay { sessionid: sessionid4 },
}

/// What came of SEQUENCE.
#[derive(Debug, PartialEq, Eq)]
pub enum SequenceOutcome {
    New,
    Replay(Vec<u8>),
    RetryUncached,
    Misordered,
    BadSession,
    BadSlot,
}

/// What a SEQUENCE outcome stands for.
pub enum SequenceView {
    New,
    Replay(Seq<u8>),
    RetryUncached,
    Misordered,
    BadSession,
    BadSlot,
}

impl SequenceOutcome {
    pub open spec fn view(&self) -> SequenceView {
        match self {
            SequenceOutcome::New => SequenceView::New,
            SequenceOutcome::Replay(b) => SequenceView::Replay(b@),
            SequenceOutcome::RetryUncached => SequenceView::RetryUncached,
            SequenceOutcome::Misordered => SequenceView::Misordered,
            SequenceOutcome::BadSession => SequenceView::BadSession,
            SequenceOutcome::BadSlot => SequenceView::BadSlot,
        }
    }
}

/// What came of DESTROY_CLIENTID.
#[derive(Copy, Clone, Debug, PartialEq, Eq, Structural)]
pub enum DestroyClientIdOutcome {
    Destroyed,
    StaleClientId,
    Busy,
}

/// What came of OPEN.
#[derive(Copy, Clone, Debug, PartialEq, Eq)]
pub enum OpenOutcome {
    Opened { stateid: stateid4 },
    StaleClientId,
}

/// What a stateid stands for.
#[derive(Copy, Clone, Debug, PartialEq, Eq, Structural)]
pub enum ResolveStateid {
    Open { fileid: u64, share_access: u32 },
    Special,
    Bad,
}

/// What came of CLOSE.
#[derive(Copy, Clone, Debug, PartialEq, Eq)]
pub enum CloseOutcome {
    Closed { stateid: stateid4 },
    Bad,
}

// ---------------------------------------------------------------- the model

/// The bytes that tell one open from another.
pub type Other = [u8; NFS4_OTHER_SIZE];

/// What the server knows.
#[verifier::ext_equal]
pub struct StateView {
    pub lease: u64,
    pub boot_verifier: u32,
    pub clients: Map<Seq<u8>, ClientView>,
    pub index: Map<clientid4, Seq<u8>>,
    pub sessions: Map<sessionid4, SessionView>,
    pub opens: Map<Other, OpenView>,
    pub owners: Map<(clientid4, Seq<u8>), u32>,
}

/// A slot that was never used.
pub open spec fn unused_slot() -> SlotView {
    SlotView { last_seqid: 0, cached: None }
}

/// The next number, with wraparound.
pub open spec fn after(seqid: u32) -> u32 {
    if seqid == u32::MAX {
        0
    } else {
        (seqid + 1) as u32
    }
}

/// Every byte is the same.
pub open spec fn all_bytes(other: Other, b: u8) -> bool {
    forall|i: int| 0 <= i < NFS4_OTHER_SIZE ==> #[trigger] other@[i] == b
}

impl StateView {
    /// A server that nobody has talked to.
    pub open spec fn empty(lease: u64, boot_verifier: u32) -> StateView {
        StateView {
            lease,
            boot_verifier,
            clients: Map::empty(),
            index: Map::empty(),
            sessions: Map::empty(),
            opens: Map::empty(),
            owners: Map::empty(),
        }
    }

    /// The client with this id.
    pub open spec fn client(self, cid: clientid4) -> ClientView {
        self.clients[self.index[cid]]
    }

    /// Clients and their ids belong to each other one to one; every id begins
    /// with the boot verifier; every session belongs to a client, and a client
    /// lists exactly the sessions that belong to it, each once, among them the one
    /// that it made last.
    pub open spec fn inv(self) -> bool {
        &&& forall|cid: clientid4| #[trigger]
            self.index.contains_key(cid) ==> {
                &&& self.clients.contains_key(self.index[cid])
                &&& self.clients[self.index[cid]].clientid == cid
                &&& cid / 0x1_0000_0000 == self.boot_verifier
            }
        &&& forall|o: Seq<u8>| #[trigger]
            self.clients.contains_key(o) ==> {
                &&& self.index.contains_key(self.clients[o].clientid)
                &&& self.index[self.clients[o].clientid] == o
                &&& self.clients[o].sessions.no_duplicates()
                &&& self.clients[o].made matches Some(last) ==> self.clients[o].sessions.contains(last)
            }
        &&& forall|id: sessionid4| #[trigger]
            self.sessions.contains_key(id) ==> {
                &&& self.index.contains_key(self.sessions[id].clientid)
                &&& self.client(self.sessions[id].clientid).sessions.contains(id)
            }
        &&& forall|o: Seq<u8>, i: int|
            #![trigger self.clients[o].sessions[i]]
            self.clients.contains_key(o) && 0 <= i < self.clients[o].sessions.len() ==> {
                &&& self.sessions.contains_key(self.clients[o].sessions[i])
                &&& self.sessions[self.clients[o].sessions[i]].clientid == self.clients[o].clientid
            }
    }

    /// The id is of this boot, and no client has it.
    pub open spec fn fresh_clientid(self, cid: clientid4) -> bool {
        cid / 0x1_0000_0000 == self.boot_verifier && !self.index.contains_key(cid)
    }

    /// The id that a random number makes, unless a client has it.
    pub open spec fn clientid_drawn(self, low: u32) -> Option<clientid4> {
        let cid = (self.boot_verifier * 0x1_0000_0000 + low) as u64;
        if self.index.contains_key(cid) {
            None
        } else {
            Some(cid)
        }
    }

    /// The id that random bytes make, unless a session has it.
    pub open spec fn sessionid_drawn(self, id: sessionid4) -> Option<sessionid4> {
        if self.sessions.contains_key(id) {
            None
        } else {
            Some(id)
        }
    }

    /// The bytes of a stateid that random bytes make, unless an open has them.
    pub open spec fn other_drawn(self, other: Other) -> Option<Other> {
        if self.opens.contains_key(other) {
            None
        } else {
            Some(other)
        }
    }

    /// What can be drawn for a client id, if anything.
    pub open spec fn fair_clientid(self, drawn: Option<clientid4>) -> bool {
        drawn matches Some(cid) ==> self.fresh_clientid(cid)
    }

    /// What can be drawn for a session id, if anything.
    pub open spec fn fair_sessionid(self, drawn: Option<sessionid4>) -> bool {
        drawn matches Some(id) ==> !self.sessions.contains_key(id)
    }

    /// What can be drawn for an open, if anything.
    pub open spec fn fair_other(self, drawn: Option<Other>) -> bool {
        drawn matches Some(o) ==> !self.opens.contains_key(o)
    }

    /// The id belongs to one of these owners.
    pub open spec fn id_of(self, gone: Set<Seq<u8>>, cid: clientid4) -> bool {
        self.index.contains_key(cid) && gone.contains(self.index[cid])
    }

    /// Without these owners' clients, and without all that belonged to them.
    pub open spec fn without(self, gone: Set<Seq<u8>>) -> StateView {
        StateView {
            clients: kept(self.clients, |o: Seq<u8>, c: ClientView| !gone.contains(o)),
            index: kept(self.index, |cid: clientid4, o: Seq<u8>| !gone.contains(o)),
            sessions: kept(self.sessions, |id: sessionid4, s: SessionView| !self.id_of(gone, s.clientid)),
            opens: kept(self.opens, |o: Other, v: OpenView| !self.id_of(gone, v.clientid)),
            owners: kept(self.owners, |k: (clientid4, Seq<u8>), v: u32| !self.id_of(gone, k.0)),
            ..self
        }
    }

    /// The owners whose lease has run out.
    pub open spec fn lapsed(self, now: u64) -> Set<Seq<u8>> {
        Set::new(|o: Seq<u8>| self.clients.contains_key(o) && self.clients[o].expires < now)
    }

    /// Without a client that has rebooted, and without its sessions. Its opens
    /// stay until somebody closes them.
    pub open spec fn rebooted(self, owner: Seq<u8>) -> StateView {
        if self.clients.contains_key(owner) {
            let cid = self.clients[owner].clientid;
            StateView {
                clients: self.clients.remove(owner),
                index: self.index.remove(cid),
                sessions: kept(self.sessions, |id: sessionid4, s: SessionView| s.clientid != cid),
                ..self
            }
        } else {
            self
        }
    }

    /// A record of a client that has not made a session yet.
    pub open spec fn new_client(self, cid: clientid4, verifier: verifier4, now: u64) -> ClientView {
        ClientView {
            clientid: cid,
            verifier,
            seqid: 1,
            confirmed: false,
            sessions: Seq::empty(),
            made: None,
            expires: (now + self.lease) as u64,
            reclaim_complete: false,
        }
    }

    /// EXCHANGE_ID. A client that is known by this verifier keeps its id. Any
    /// other is new; if the owner was known, it has rebooted. Without a fresh id
    /// nothing is done.
    pub open spec fn exchange_id(
        self,
        owner: Seq<u8>,
        verifier: verifier4,
        now: u64,
        drawn: Option<clientid4>,
    ) -> (StateView, Option<ExchangeIdResult>) {
        if self.clients.contains_key(owner) && self.clients[owner].verifier == verifier {
            let c = self.clients[owner];
            (self, Some(ExchangeIdResult { clientid: c.clientid, seqid: c.seqid }))
        } else {
            match drawn {
                None => (self, None),
                Some(cid) => {
                    let s = self.rebooted(owner);
                    (
                        StateView {
                            clients: s.clients.insert(owner, s.new_client(cid, verifier, now)),
                            index: s.index.insert(cid, owner),
                            ..s
                        },
                        Some(ExchangeIdResult { clientid: cid, seqid: 1 }),
                    )
                },
            }
        }
    }

    /// With a session for a client.
    pub open spec fn with_session(
        self,
        cid: clientid4,
        id: sessionid4,
        num_slots: u32,
        fore: <channel_attrs4 as Model>::M,
        back: <channel_attrs4 as Model>::M,
    ) -> StateView {
        let c = self.client(cid);
        let n = if num_slots == 0 {
            1
        } else {
            num_slots as nat
        };
        StateView {
            sessions: self.sessions.insert(
                id,
                SessionView { clientid: cid, slots: Seq::new(n, |i: int| unused_slot()), fore, back },
            ),
            clients: self.clients.insert(
                self.index[cid],
                ClientView {
                    confirmed: true,
                    seqid: after(c.seqid),
                    sessions: c.sessions.push(id),
                    made: Some(id),
                    ..c
                },
            ),
            ..self
        }
    }

    /// CREATE_SESSION. The sequence must be the one that the client's next
    /// session has; with that of the last one it is a replay, and names the session
    /// that one made. Where that session is gone, there is nothing to replay. `None`
    /// if there is no fresh id to give.
    pub open spec fn create_session(
        self,
        cid: clientid4,
        sequence: sequenceid4,
        num_slots: u32,
        fore: <channel_attrs4 as Model>::M,
        back: <channel_attrs4 as Model>::M,
        drawn: Option<sessionid4>,
    ) -> (StateView, Option<CreateSessionOutcome>) {
        if !self.index.contains_key(cid) {
            (self, Some(CreateSessionOutcome::StaleClientId))
        } else {
            let c = self.client(cid);
            if sequence == c.seqid {
                match drawn {
                    None => (self, None),
                    Some(id) => (
                        self.with_session(cid, id, num_slots, fore, back),
                        Some(CreateSessionOutcome::Created { sessionid: id }),
                    ),
                }
            } else if after(sequence) == c.seqid && c.made is Some {
                (self, Some(CreateSessionOutcome::Replay { sessionid: c.made->0 }))
            } else {
                (self, Some(CreateSessionOutcome::SeqMisordered))
            }
        }
    }

    /// With a client's lease renewed.
    pub open spec fn renewed(self, cid: clientid4, now: u64) -> StateView {
        StateView {
            clients: self.clients.insert(
                self.index[cid],
                ClientView { expires: (now + self.lease) as u64, ..self.client(cid) },
            ),
            ..self
        }
    }

    /// With a slot changed.
    pub open spec fn with_slot(self, id: sessionid4, slot: slotid4, v: SlotView) -> StateView {
        let s = self.sessions[id];
        StateView {
            sessions: self.sessions.insert(id, SessionView { slots: s.slots.update(slot as int, v), ..s }),
            ..self
        }
    }

    /// SEQUENCE. The next number of a slot is a new request, its last one a
    /// retransmit; either renews the lease. A client whose lease has run out is
    /// gone, with all that is its own.
    pub open spec fn sequence_check(self, id: sessionid4, slot: slotid4, seqid: sequenceid4, now: u64) -> (
        StateView,
        SequenceView,
    ) {
        if !self.sessions.contains_key(id) {
            (self, SequenceView::BadSession)
        } else {
            let cid = self.sessions[id].clientid;
            let slots = self.sessions[id].slots;
            if self.client(cid).expires < now {
                (self.without(set![self.index[cid]]), SequenceView::BadSession)
            } else if slot >= slots.len() {
                (self, SequenceView::BadSlot)
            } else if seqid == slots[slot as int].last_seqid {
                (
                    self.renewed(cid, now),
                    match slots[slot as int].cached {
                        Some(b) => SequenceView::Replay(b),
                        None => SequenceView::RetryUncached,
                    },
                )
            } else if seqid == after(slots[slot as int].last_seqid) {
                (
                    self.with_slot(id, slot, SlotView { last_seqid: seqid, cached: None }).renewed(cid, now),
                    SequenceView::New,
                )
            } else {
                (self, SequenceView::Misordered)
            }
        }
    }

    /// With the reply to the last request of a slot. The reply to any other
    /// request is not kept.
    pub open spec fn reply_cached(
        self,
        id: sessionid4,
        slot: slotid4,
        seqid: sequenceid4,
        reply: Seq<u8>,
    ) -> StateView {
        if self.sessions.contains_key(id) && slot < self.sessions[id].slots.len()
            && self.sessions[id].slots[slot as int].last_seqid == seqid {
            self.with_slot(id, slot, SlotView { last_seqid: seqid, cached: Some(reply) })
        } else {
            self
        }
    }

    /// DESTROY_SESSION: without a session.
    pub open spec fn without_session(self, id: sessionid4) -> StateView {
        if self.sessions.contains_key(id) {
            let cid = self.sessions[id].clientid;
            let c = self.client(cid);
            StateView {
                sessions: self.sessions.remove(id),
                clients: self.clients.insert(
                    self.index[cid],
                    ClientView {
                        sessions: without_id(c.sessions, id),
                        made: if c.made == Some(id) {
                            None
                        } else {
                            c.made
                        },
                        ..c
                    },
                ),
                ..self
            }
        } else {
            self
        }
    }

    /// DESTROY_CLIENTID. A client that has a session is busy.
    pub open spec fn destroy_clientid(self, cid: clientid4) -> (StateView, DestroyClientIdOutcome) {
        if !self.index.contains_key(cid) {
            (self, DestroyClientIdOutcome::StaleClientId)
        } else if self.client(cid).sessions.len() > 0 {
            (self, DestroyClientIdOutcome::Busy)
        } else {
            (self.without(set![self.index[cid]]), DestroyClientIdOutcome::Destroyed)
        }
    }

    /// The client of a session has reclaimed all it will.
    pub open spec fn reclaimed(self, id: sessionid4) -> StateView {
        if self.sessions.contains_key(id) {
            let cid = self.sessions[id].clientid;
            StateView {
                clients: self.clients.insert(
                    self.index[cid],
                    ClientView { reclaim_complete: true, ..self.client(cid) },
                ),
                ..self
            }
        } else {
            self
        }
    }

    /// OPEN: a new open for every request, whatever others have open. `None` if
    /// there is no fresh stateid to give.
    pub open spec fn open(
        self,
        cid: clientid4,
        owner: Seq<u8>,
        owner_seqid: u32,
        fileid: u64,
        share_access: u32,
        share_deny: u32,
        drawn: Option<Other>,
    ) -> (StateView, Option<OpenOutcome>) {
        if !self.index.contains_key(cid) {
            (self, Some(OpenOutcome::StaleClientId))
        } else {
            match drawn {
                None => (self, None),
                Some(other) => (
                    StateView {
                        owners: self.owners.insert((cid, owner), owner_seqid),
                        opens: self.opens.insert(
                            other,
                            OpenView { clientid: cid, owner, fileid, seqid: 1, share_access, share_deny },
                        ),
                        ..self
                    },
                    Some(OpenOutcome::Opened { stateid: stateid4 { seqid: 1, other } }),
                ),
            }
        }
    }

    /// What a stateid stands for: all zeros or all ones is anonymous access.
    pub open spec fn resolve_stateid(self, sid: stateid4) -> ResolveStateid {
        if all_bytes(sid.other, 0) || all_bytes(sid.other, 0xff) {
            ResolveStateid::Special
        } else if self.opens.contains_key(sid.other) {
            let o = self.opens[sid.other];
            ResolveStateid::Open { fileid: o.fileid, share_access: o.share_access }
        } else {
            ResolveStateid::Bad
        }
    }

    /// CLOSE: without an open, whose stateid is bumped once more.
    pub open spec fn close(self, sid: stateid4) -> (StateView, CloseOutcome) {
        if self.opens.contains_key(sid.other) {
            (
                StateView { opens: self.opens.remove(sid.other), ..self },
                CloseOutcome::Closed {
                    stateid: stateid4 { seqid: after(self.opens[sid.other].seqid), other: sid.other },
                },
            )
        } else {
            (self, CloseOutcome::Bad)
        }
    }
}

// ---------------------------------------------------------------- the invariant

/// Two removals make one.
proof fn without_twice(s: StateView, a: Set<Seq<u8>>, b: Set<Seq<u8>>)
    ensures
        s.without(a).without(b) == s.without(a.union(b)),
{
    assert(s.without(a).without(b) =~= s.without(a.union(b)));
}

/// Removing owners keeps the invariant.
proof fn without_keeps_inv(s: StateView, gone: Set<Seq<u8>>)
    requires
        s.inv(),
    ensures
        s.without(gone).inv(),
{
    let t = s.without(gone);
    assert forall|id: sessionid4| #[trigger] t.sessions.contains_key(id) implies {
        &&& t.index.contains_key(t.sessions[id].clientid)
        &&& t.client(t.sessions[id].clientid).sessions.contains(id)
    } by {
        assert(s.sessions.contains_key(id));
    }
    assert forall|o: Seq<u8>, i: int|
        #![trigger t.clients[o].sessions[i]]
        t.clients.contains_key(o) && 0 <= i < t.clients[o].sessions.len() implies {
        &&& t.sessions.contains_key(t.clients[o].sessions[i])
        &&& t.sessions[t.clients[o].sessions[i]].clientid == t.clients[o].clientid
    } by {
        assert(t.clients[o] == s.clients[o]);
        assert(s.sessions.contains_key(s.clients[o].sessions[i]));
    }
    assert forall|o: Seq<u8>| #[trigger] t.clients.contains_key(o) implies {
        &&& t.index.contains_key(t.clients[o].clientid)
        &&& t.index[t.clients[o].clientid] == o
        &&& t.clients[o].sessions.no_duplicates()
        &&& t.clients[o].made matches Some(last) ==> t.clients[o].sessions.contains(last)
    } by {
        assert(s.clients.contains_key(o));
    }
    assert forall|cid: clientid4| #[trigger] t.index.contains_key(cid) implies {
        &&& t.clients.contains_key(t.index[cid])
        &&& t.clients[t.index[cid]].clientid == cid
        &&& cid / 0x1_0000_0000 == t.boot_verifier
    } by {
        assert(s.index.contains_key(cid));
    }
}

/// A client that keeps its id and its sessions can be changed otherwise.
proof fn client_update_keeps_inv(s: StateView, o: Seq<u8>, c: ClientView)
    requires
        s.inv(),
        s.clients.contains_key(o),
        c.clientid == s.clients[o].clientid,
        c.sessions == s.clients[o].sessions,
        c.made == s.clients[o].made,
    ensures
        (StateView { clients: s.clients.insert(o, c), ..s }).inv(),
{
    let t = StateView { clients: s.clients.insert(o, c), ..s };
    assert forall|p: Seq<u8>, i: int|
        #![trigger t.clients[p].sessions[i]]
        t.clients.contains_key(p) && 0 <= i < t.clients[p].sessions.len() implies {
        &&& t.sessions.contains_key(t.clients[p].sessions[i])
        &&& t.sessions[t.clients[p].sessions[i]].clientid == t.clients[p].clientid
    } by {
        assert(t.clients[p].sessions[i] == s.clients[p].sessions[i]);
    }
    assert forall|id: sessionid4| #[trigger] t.sessions.contains_key(id) implies {
        &&& t.index.contains_key(t.sessions[id].clientid)
        &&& t.client(t.sessions[id].clientid).sessions.contains(id)
    } by {
        assert(s.sessions.contains_key(id));
    }
    assert forall|cid: clientid4| #[trigger] t.index.contains_key(cid) implies {
        &&& t.clients.contains_key(t.index[cid])
        &&& t.clients[t.index[cid]].clientid == cid
        &&& cid / 0x1_0000_0000 == t.boot_verifier
    } by {
        assert(s.index.contains_key(cid));
    }
}

/// A slot can be changed at will.
proof fn slot_update_keeps_inv(s: StateView, id: sessionid4, slot: slotid4, v: SlotView)
    requires
        s.inv(),
        s.sessions.contains_key(id),
    ensures
        s.with_slot(id, slot, v).inv(),
{
    let t = s.with_slot(id, slot, v);
    assert forall|k: sessionid4| #[trigger] t.sessions.contains_key(k) implies {
        &&& t.index.contains_key(t.sessions[k].clientid)
        &&& t.client(t.sessions[k].clientid).sessions.contains(k)
    } by {
        assert(s.sessions.contains_key(k));
    }
    assert forall|o: Seq<u8>, i: int|
        #![trigger t.clients[o].sessions[i]]
        t.clients.contains_key(o) && 0 <= i < t.clients[o].sessions.len() implies {
        &&& t.sessions.contains_key(t.clients[o].sessions[i])
        &&& t.sessions[t.clients[o].sessions[i]].clientid == t.clients[o].clientid
    } by {
        assert(s.sessions.contains_key(s.clients[o].sessions[i]));
    }
}

/// EXCHANGE_ID keeps the invariant.
proof fn exchange_id_keeps_inv(
    s: StateView,
    owner: Seq<u8>,
    verifier: verifier4,
    now: u64,
    drawn: Option<clientid4>,
)
    requires
        s.inv(),
        s.fair_clientid(drawn),
    ensures
        s.exchange_id(owner, verifier, now, drawn).0.inv(),
{
    let t = s.exchange_id(owner, verifier, now, drawn).0;
    if t == s {
    } else {
        let cid = drawn->0;
        let r = s.rebooted(owner);
        assert forall|k: sessionid4| #[trigger] t.sessions.contains_key(k) implies {
            &&& t.index.contains_key(t.sessions[k].clientid)
            &&& t.client(t.sessions[k].clientid).sessions.contains(k)
        } by {
            assert(s.sessions.contains_key(k));
            let c = s.sessions[k].clientid;
            assert(s.index.contains_key(c));
            assert(s.index[c] != owner);
            assert(c != cid);
        }
        assert forall|o: Seq<u8>, i: int|
            #![trigger t.clients[o].sessions[i]]
            t.clients.contains_key(o) && 0 <= i < t.clients[o].sessions.len() implies {
            &&& t.sessions.contains_key(t.clients[o].sessions[i])
            &&& t.sessions[t.clients[o].sessions[i]].clientid == t.clients[o].clientid
        } by {
            assert(o != owner);
            assert(s.clients.contains_key(o));
            assert(s.sessions.contains_key(s.clients[o].sessions[i]));
            assert(s.index[s.clients[o].clientid] == o);
        }
        assert forall|c: clientid4| #[trigger] t.index.contains_key(c) implies {
            &&& t.clients.contains_key(t.index[c])
            &&& t.clients[t.index[c]].clientid == c
            &&& c / 0x1_0000_0000 == t.boot_verifier
        } by {
            if c != cid {
                assert(s.index.contains_key(c));
                assert(s.index[c] != owner);
            }
        }
        assert forall|o: Seq<u8>| #[trigger] t.clients.contains_key(o) implies {
            &&& t.index.contains_key(t.clients[o].clientid)
            &&& t.index[t.clients[o].clientid] == o
            &&& t.clients[o].sessions.no_duplicates()
            &&& t.clients[o].made matches Some(last) ==> t.clients[o].sessions.contains(last)
        } by {
            if o != owner {
                assert(s.clients.contains_key(o));
                assert(s.index.contains_key(s.clients[o].clientid));
            }
        }
    }
}

/// A new session keeps the invariant.
proof fn with_session_keeps_inv(
    s: StateView,
    cid: clientid4,
    id: sessionid4,
    num_slots: u32,
    fore: <channel_attrs4 as Model>::M,
    back: <channel_attrs4 as Model>::M,
)
    requires
        s.inv(),
        s.index.contains_key(cid),
        !s.sessions.contains_key(id),
    ensures
        s.with_session(cid, id, num_slots, fore, back).inv(),
{
    let t = s.with_session(cid, id, num_slots, fore, back);
    let o = s.index[cid];
    let before = s.clients[o].sessions;
    let all = before.push(id);
    assert(t.clients[o].sessions == all);
    assert forall|k: sessionid4| #[trigger] t.sessions.contains_key(k) implies {
        &&& t.index.contains_key(t.sessions[k].clientid)
        &&& t.client(t.sessions[k].clientid).sessions.contains(k)
    } by {
        if k == id {
            assert(all[before.len() as int] == id);
        } else {
            assert(s.sessions.contains_key(k));
            let c = s.sessions[k].clientid;
            if s.index[c] == o {
                let i = choose|i: int| 0 <= i < before.len() && before[i] == k;
                assert(all[i] == k);
            }
        }
    }
    assert forall|p: Seq<u8>, i: int|
        #![trigger t.clients[p].sessions[i]]
        t.clients.contains_key(p) && 0 <= i < t.clients[p].sessions.len() implies {
        &&& t.sessions.contains_key(t.clients[p].sessions[i])
        &&& t.sessions[t.clients[p].sessions[i]].clientid == t.clients[p].clientid
    } by {
        if p != o || i < before.len() {
            assert(t.clients[p].sessions[i] == s.clients[p].sessions[i]);
            assert(s.sessions.contains_key(s.clients[p].sessions[i]));
        }
    }
    assert forall|p: Seq<u8>| #[trigger] t.clients.contains_key(p) implies {
        &&& t.index.contains_key(t.clients[p].clientid)
        &&& t.index[t.clients[p].clientid] == p
        &&& t.clients[p].sessions.no_duplicates()
        &&& t.clients[p].made matches Some(last) ==> t.clients[p].sessions.contains(last)
    } by {
        assert(s.clients.contains_key(p));
        if p == o {
            assert(all[before.len() as int] == id);
            assert forall|i: int, j: int| 0 <= i < all.len() && 0 <= j < all.len() && i != j implies all[i]
                != all[j] by {
                if i < before.len() {
                    assert(s.sessions.contains_key(s.clients[o].sessions[i]));
                }
                if j < before.len() {
                    assert(s.sessions.contains_key(s.clients[o].sessions[j]));
                }
            }
        }
    }
    assert forall|c: clientid4| #[trigger] t.index.contains_key(c) implies {
        &&& t.clients.contains_key(t.index[c])
        &&& t.clients[t.index[c]].clientid == c
        &&& c / 0x1_0000_0000 == t.boot_verifier
    } by {
        assert(s.index.contains_key(c));
    }
}

/// Without a session the invariant still holds.
proof fn without_session_keeps_inv(s: StateView, id: sessionid4)
    requires
        s.inv(),
    ensures
        s.without_session(id).inv(),
{
    let t = s.without_session(id);
    if s.sessions.contains_key(id) {
        let cid = s.sessions[id].clientid;
        let o = s.index[cid];
        let before = s.clients[o].sessions;
        let left = without_id(before, id);
        filter_keeps_order(before, other_than(id));
        assert(t.clients[o].sessions == left);
        assert forall|k: sessionid4| #[trigger] t.sessions.contains_key(k) implies {
            &&& t.index.contains_key(t.sessions[k].clientid)
            &&& t.client(t.sessions[k].clientid).sessions.contains(k)
        } by {
            assert(s.sessions.contains_key(k));
            if s.index[s.sessions[k].clientid] == o {
                assert(before.contains(k));
            }
        }
        assert forall|p: Seq<u8>, i: int|
            #![trigger t.clients[p].sessions[i]]
            t.clients.contains_key(p) && 0 <= i < t.clients[p].sessions.len() implies {
            &&& t.sessions.contains_key(t.clients[p].sessions[i])
            &&& t.sessions[t.clients[p].sessions[i]].clientid == t.clients[p].clientid
        } by {
            let k = t.clients[p].sessions[i];
            if p == o {
                assert(left.contains(k));
                let j = choose|j: int| 0 <= j < before.len() && before[j] == k;
                assert(s.clients[o].sessions[j] == k);
            } else {
                assert(s.clients[p].sessions[i] == k);
                assert(s.sessions[k].clientid == s.clients[p].clientid);
                assert(s.index[s.clients[p].clientid] == p);
            }
        }
        assert forall|p: Seq<u8>| #[trigger] t.clients.contains_key(p) implies {
            &&& t.index.contains_key(t.clients[p].clientid)
            &&& t.index[t.clients[p].clientid] == p
            &&& t.clients[p].sessions.no_duplicates()
            &&& t.clients[p].made matches Some(last) ==> t.clients[p].sessions.contains(last)
        } by {
            assert(s.clients.contains_key(p));
        }
        assert forall|c: clientid4| #[trigger] t.index.contains_key(c) implies {
            &&& t.clients.contains_key(t.index[c])
            &&& t.clients[t.index[c]].clientid == c
            &&& c / 0x1_0000_0000 == t.boot_verifier
        } by {
            assert(s.index.contains_key(c));
        }
    }
}

// ---------------------------------------------------------------- the state

/// Clients, sessions and opens.
pub struct NFS4State {
    /// How long a lease runs, in nanoseconds.
    lease: u64,
    /// Occupies the high 32 bits of every clientid, so that clientids issued
    /// before a restart reliably become stale.
    boot_verifier: u32,
    /// Owner to client record.
    clients: Table<Vec<u8>, ClientRecord>,
    /// Clientid to owner.
    clientid_index: Table<clientid4, Vec<u8>>,
    sessions: Table<sessionid4, SessionRecord>,
    opens: Table<Other, OpenState>,
    open_owners: Table<(clientid4, Vec<u8>), OpenOwnerState>,
}

impl NFS4State {
    pub closed spec fn view(&self) -> StateView {
        StateView {
            lease: self.lease,
            boot_verifier: self.boot_verifier,
            clients: self.clients@,
            index: self.clientid_index@,
            sessions: self.sessions@,
            opens: self.opens@,
            owners: self.open_owners@,
        }
    }

    /// The tables are sound, and what they hold keeps the invariant.
    pub closed spec fn wf(&self) -> bool {
        &&& self.clients.wf()
        &&& self.clientid_index.wf()
        &&& self.sessions.wf()
        &&& self.opens.wf()
        &&& self.open_owners.wf()
        &&& self@.inv()
    }

    /// A server of a given boot that nobody has talked to.
    pub fn booted(lease: u64, boot_verifier: u32) -> (s: Self)
        ensures
            s.wf(),
            s@ == StateView::empty(lease, boot_verifier),
    {
        NFS4State {
            lease,
            boot_verifier,
            clients: Table::new(),
            clientid_index: Table::new(),
            sessions: Table::new(),
            opens: Table::new(),
            open_owners: Table::new(),
        }
    }

    /// A server of a boot that is told apart by a random number. `None` where the
    /// system has no randomness to give.
    pub fn new(lease: u64) -> (r: Option<Self>)
        ensures
            r matches Some(s) ==> s.wf() && s@ == StateView::empty(lease, s@.boot_verifier),
    {
        match draw_u32() {
            Some(v) => Some(NFS4State::booted(lease, v)),
            None => None,
        }
    }

    /// How long a lease runs.
    pub fn lease(&self) -> (l: u64)
        ensures
            l == self@.lease,
    {
        self.lease
    }

    /// A clientid of this boot that no client has. `None` where the system has no
    /// randomness to give, or gave only what is taken: which of these, and which
    /// id, is up to the system.
    pub fn fresh_clientid(&self) -> (r: Option<clientid4>)
        requires
            self.wf(),
        ensures
            self@.fair_clientid(r),
    {
        let mut tries: u64 = 0;
        while tries < u64::MAX
            invariant
                self.wf(),
            decreases u64::MAX - tries,
        {
            let low: u32 = match draw_u32() {
                Some(v) => v,
                None => return None,
            };
            if let Some(cid) = self.clientid_drawn(low) {
                return Some(cid);
            }
            tries += 1;
        }
        None
    }

    /// A session id that no session has. `None` where the system has no
    /// randomness to give, or gave only what is taken: which of these, and which
    /// id, is up to the system.
    pub fn fresh_sessionid(&self) -> (r: Option<sessionid4>)
        requires
            self.wf(),
        ensures
            self@.fair_sessionid(r),
    {
        let mut tries: u64 = 0;
        while tries < u64::MAX
            invariant
                self.wf(),
            decreases u64::MAX - tries,
        {
            let id: sessionid4 = match draw_bytes() {
                Some(v) => v,
                None => return None,
            };
            if let Some(free) = self.sessionid_drawn(id) {
                return Some(free);
            }
            tries += 1;
        }
        None
    }

    /// The bytes of a stateid that no open has. `None` where the system has no
    /// randomness to give, or gave only what is taken: which of these, and which
    /// bytes, is up to the system.
    pub fn fresh_stateid_other(&self) -> (r: Option<Other>)
        requires
            self.wf(),
        ensures
            self@.fair_other(r),
    {
        let mut tries: u64 = 0;
        while tries < u64::MAX
            invariant
                self.wf(),
            decreases u64::MAX - tries,
        {
            let other: Other = match draw_bytes() {
                Some(v) => v,
                None => return None,
            };
            if let Some(free) = self.stateid_other_drawn(other) {
                return Some(free);
            }
            tries += 1;
        }
        None
    }

    /// The clientid that a random number makes: the boot above, the number below.
    /// `None` where a client has it already, and another number must be drawn.
    pub fn clientid_drawn(&self, low: u32) -> (r: Option<clientid4>)
        requires
            self.wf(),
        ensures
            r == self@.clientid_drawn(low),
    {
        let cid: u64 = self.boot_verifier as u64 * 0x1_0000_0000 + low as u64;
        if self.clientid_index.contains_key(&cid) {
            None
        } else {
            Some(cid)
        }
    }

    /// The session id that random bytes make. `None` where a session has it
    /// already, and others must be drawn.
    pub fn sessionid_drawn(&self, id: sessionid4) -> (r: Option<sessionid4>)
        requires
            self.wf(),
        ensures
            r == self@.sessionid_drawn(id),
    {
        if self.sessions.contains_key(&id) {
            None
        } else {
            Some(id)
        }
    }

    /// The bytes of a stateid that random bytes make. `None` where an open has
    /// them already, and others must be drawn.
    pub fn stateid_other_drawn(&self, other: Other) -> (r: Option<Other>)
        requires
            self.wf(),
        ensures
            r == self@.other_drawn(other),
    {
        if self.opens.contains_key(&other) {
            None
        } else {
            Some(other)
        }
    }

    /// Remove a client, its reverse index, and all its sessions and opens.
    pub fn expire_client(&mut self, ownerid: &Vec<u8>)
        requires
            old(self).wf(),
        ensures
            final(self).wf(),
            final(self)@ == old(self)@.without(set![ownerid@]),
    {
        let ghost s = self@;
        proof {
            without_keeps_inv(s, set![ownerid@]);
        }
        let cid: clientid4 = match self.clients.remove(ownerid) {
            Some(rec) => rec.clientid,
            None => {
                assert(self@ =~= s.without(set![ownerid@])) by {
                    assert forall|c: clientid4| s.index.contains_key(c) implies s.index[c] != ownerid@ by {
                        assert(s.clients.contains_key(s.index[c]));
                    }
                }
                return;
            },
        };
        self.clientid_index.remove(&cid);
        let keep = |id: &sessionid4, v: &SessionRecord| -> (b: bool)
            ensures
                b == (v.model().clientid != cid),
        {
            v.clientid != cid
        };
        self.sessions.retain(keep, Ghost(|id: sessionid4, v: SessionView| v.clientid != cid));
        let keep = |o: &Other, v: &OpenState| -> (b: bool)
            ensures
                b == (v.model().clientid != cid),
        {
            v.clientid != cid
        };
        self.opens.retain(keep, Ghost(|o: Other, v: OpenView| v.clientid != cid));
        let keep = |k: &(clientid4, Vec<u8>), v: &OpenOwnerState| -> (b: bool)
            ensures
                b == (k.0 != cid),
        {
            k.0 != cid
        };
        self.open_owners.retain(keep, Ghost(|k: (clientid4, Seq<u8>), v: u32| k.0 != cid));
        proof {
            assert(s.clients.contains_key(ownerid@));
            assert forall|c: clientid4| s.id_of(set![ownerid@], c) <==> c == cid by {
                if s.index.contains_key(c) && s.index[c] == ownerid@ {
                    assert(s.clients[s.index[c]].clientid == c);
                }
            }
            assert forall|c: clientid4| s.index.contains_key(c) implies (s.index[c] == ownerid@ <==> c == cid) by {
                assert(s.clients[s.index[c]].clientid == c);
            }
            assert(self@ =~= s.without(set![ownerid@]));
        }
    }

    /// Purge all clients whose lease has run out.
    pub fn sweep_expired(&mut self, now: u64)
        requires
            old(self).wf(),
        ensures
            final(self).wf(),
            final(self)@ == old(self)@.without(old(self)@.lapsed(now)),
    {
        let ghost s = self@;
        let n: usize = self.clients.len();
        let mut dead: Vec<Vec<u8>> = Vec::new();
        let ghost mut found: Set<Seq<u8>> = Set::empty();
        let mut i: usize = 0;
        while i < n
            invariant
                self.wf(),
                self@ == s,
                i <= n == self.clients.keys().len(),
                forall|o: Seq<u8>| #[trigger] found.contains(o) <==> exists|j: int|
                    0 <= j < dead@.len() && (#[trigger] dead@[j])@ == o,
                forall|o: Seq<u8>| #[trigger] found.contains(o) ==> s.lapsed(now).contains(o),
                forall|j: int|
                    0 <= j < i ==> s.clients[#[trigger] self.clients.keys()[j]].expires >= now || found.contains(
                        self.clients.keys()[j],
                    ),
            decreases n - i,
        {
            if self.clients.value_at(i).expires < now {
                let owner: Vec<u8> = slice_to_vec(self.clients.key_at(i).as_slice());
                proof {
                    let before = dead@;
                    let after = dead@.push(owner);
                    let more = found.insert(owner@);
                    assert forall|o: Seq<u8>| #[trigger] more.contains(o) <==> exists|j: int|
                        0 <= j < after.len() && (#[trigger] after[j])@ == o by {
                        if found.contains(o) {
                            let j = choose|j: int| 0 <= j < before.len() && (#[trigger] before[j])@ == o;
                            assert(after[j]@ == o);
                        }
                        if o == owner@ {
                            assert(after[before.len() as int]@ == o);
                        }
                        if exists|j: int| 0 <= j < after.len() && (#[trigger] after[j])@ == o {
                            let j = choose|j: int| 0 <= j < after.len() && (#[trigger] after[j])@ == o;
                            if j < before.len() {
                                assert(before[j]@ == o);
                            }
                        }
                    }
                    found = more;
                }
                dead.push(owner);
            }
            i += 1;
        }
        proof {
            self.clients.walk_is_complete();
            assert forall|o: Seq<u8>| s.lapsed(now).contains(o) implies found.contains(o) by {
                let k = choose|k: int| 0 <= k < self.clients.keys().len() && self.clients.keys()[k] == o;
                assert(self.clients.keys()[k] == o);
            }
            assert(found =~= s.lapsed(now));
            assert(self@ =~= s.without(Set::empty()));
        }
        let ghost mut gone: Set<Seq<u8>> = Set::empty();
        let mut j: usize = 0;
        while j < dead.len()
            invariant
                j <= dead@.len(),
                self.wf(),
                self@ == s.without(gone),
                forall|k: int| 0 <= k < j ==> gone.contains((#[trigger] dead@[k])@),
                forall|o: Seq<u8>| #[trigger] gone.contains(o) ==> found.contains(o),
                forall|o: Seq<u8>| #[trigger] found.contains(o) <==> exists|j: int|
                    0 <= j < dead@.len() && (#[trigger] dead@[j])@ == o,
            decreases dead@.len() - j,
        {
            proof {
                without_twice(s, gone, set![dead@[j as int]@]);
                gone = gone.union(set![dead@[j as int]@]);
            }
            self.expire_client(&dead[j]);
            j += 1;
        }
        assert(gone =~= found);
    }

    /// EXCHANGE_ID: create or refresh an (unconfirmed) client record, with what
    /// was drawn for its id. If the same owner returns with a new verifier, the
    /// client rebooted, and its record is replaced.
    pub fn exchange_id_as(
        &mut self,
        co_ownerid: &[u8],
        co_verifier: &verifier4,
        now: u64,
        drawn: Option<clientid4>,
    ) -> (r: Option<ExchangeIdResult>)
        requires
            old(self).wf(),
            old(self)@.fair_clientid(drawn),
            now + old(self)@.lease <= u64::MAX,
        ensures
            final(self).wf(),
            (final(self)@, r) == old(self)@.exchange_id(co_ownerid@, *co_verifier, now, drawn),
    {
        let ghost s = self@;
        proof {
            exchange_id_keeps_inv(s, co_ownerid@, *co_verifier, now, drawn);
        }
        let owner: Vec<u8> = slice_to_vec(co_ownerid);
        let known: Option<clientid4> = match self.clients.get(&owner) {
            Some(rec) => {
                if same_bytes(&rec.co_verifier, co_verifier) {
                    return Some(ExchangeIdResult { clientid: rec.clientid, seqid: rec.seqid });
                }
                Some(rec.clientid)
            },
            None => None,
        };
        let cid: clientid4 = match drawn {
            Some(c) => c,
            None => return None,
        };
        if let Some(gone) = known {
            self.clientid_index.remove(&gone);
            let keep = |id: &sessionid4, v: &SessionRecord| -> (b: bool)
                ensures
                    b == (v.model().clientid != gone),
            {
                v.clientid != gone
            };
            self.sessions.retain(keep, Ghost(|id: sessionid4, v: SessionView| v.clientid != gone));
            self.clients.remove(&owner);
        }
        assert(self@ =~= s.rebooted(owner@));
        let rec = ClientRecord {
            clientid: cid,
            co_verifier: *co_verifier,
            seqid: 1,
            confirmed: false,
            sessions: Vec::new(),
            made: None,
            expires: now + self.lease,
            reclaim_complete: false,
        };
        assert(rec.model() =~= self@.new_client(cid, *co_verifier, now));
        self.clients.insert(slice_to_vec(co_ownerid), rec);
        self.clientid_index.insert(cid, owner);
        assert(self@ =~= s.exchange_id(co_ownerid@, *co_verifier, now, drawn).0);
        Some(ExchangeIdResult { clientid: cid, seqid: 1 })
    }

    /// EXCHANGE_ID. `None` where a new id is needed and the system has no
    /// randomness to give.
    pub fn exchange_id(&mut self, co_ownerid: &[u8], co_verifier: &verifier4, now: u64) -> (r: Option<ExchangeIdResult>)
        requires
            old(self).wf(),
            now + old(self)@.lease <= u64::MAX,
        ensures
            final(self).wf(),
            exists|drawn: Option<clientid4>|
                {
                    &&& old(self)@.fair_clientid(drawn)
                    &&& (final(self)@, r) == #[trigger] old(self)@.exchange_id(
                        co_ownerid@,
                        *co_verifier,
                        now,
                        drawn,
                    )
                },
    {
        let drawn = self.fresh_clientid();
        self.exchange_id_as(co_ownerid, co_verifier, now, drawn)
    }

    /// CREATE_SESSION: validate clientid and sequence, allocate a session, with
    /// what was drawn for its id. `num_slots` is the negotiated ca_maxrequests; a
    /// session has a slot at least.
    pub fn create_session_as(
        &mut self,
        clientid: clientid4,
        csa_sequence: sequenceid4,
        num_slots: u32,
        fore_attrs: channel_attrs4,
        back_attrs: channel_attrs4,
        drawn: Option<sessionid4>,
    ) -> (r: Option<CreateSessionOutcome>)
        requires
            old(self).wf(),
            old(self)@.fair_sessionid(drawn),
        ensures
            final(self).wf(),
            (final(self)@, r) == old(self)@.create_session(
                clientid,
                csa_sequence,
                num_slots,
                fore_attrs.model(),
                back_attrs.model(),
                drawn,
            ),
    {
        let ghost s = self@;
        let ghost fore = fore_attrs.model();
        let ghost back = back_attrs.model();
        let ownerid: Vec<u8> = match self.clientid_index.get(&clientid) {
            Some(o) => slice_to_vec(o.as_slice()),
            None => return Some(CreateSessionOutcome::StaleClientId),
        };
        let (expected, made): (u32, Option<sessionid4>) = match self.clients.get(&ownerid) {
            Some(rec) => (rec.seqid, rec.made),
            None => {
                assert(s.clients.contains_key(s.index[clientid]));
                return None;
            },
        };
        assert(expected == s.client(clientid).seqid);
        if csa_sequence == expected {
            let sessionid: sessionid4 = match drawn {
                Some(id) => id,
                None => return None,
            };
            proof {
                with_session_keeps_inv(s, clientid, sessionid, num_slots, fore, back);
            }
            let slots = unused_slots(num_slots);
            self.sessions.insert(sessionid, SessionRecord { clientid, slots, fore_attrs, back_attrs });
            if let Some(rec) = self.clients.get_mut(&ownerid) {
                rec.confirmed = true;
                rec.seqid = next(expected);
                rec.sessions.push(sessionid);
                rec.made = Some(sessionid);
                assert(rec.model() =~= (ClientView {
                    confirmed: true,
                    seqid: after(expected),
                    sessions: s.client(clientid).sessions.push(sessionid),
                    made: Some(sessionid),
                    ..s.client(clientid)
                }));
            }
            assert(self@ =~= s.with_session(clientid, sessionid, num_slots, fore, back));
            Some(CreateSessionOutcome::Created { sessionid })
        } else if next(csa_sequence) == expected {
            match made {
                Some(sessionid) => Some(CreateSessionOutcome::Replay { sessionid }),
                None => Some(CreateSessionOutcome::SeqMisordered),
            }
        } else {
            Some(CreateSessionOutcome::SeqMisordered)
        }
    }

    /// CREATE_SESSION. `None` where a session is due and the system has no
    /// randomness to give.
    pub fn create_session(
        &mut self,
        clientid: clientid4,
        csa_sequence: sequenceid4,
        num_slots: u32,
        fore_attrs: channel_attrs4,
        back_attrs: channel_attrs4,
    ) -> (r: Option<CreateSessionOutcome>)
        requires
            old(self).wf(),
        ensures
            final(self).wf(),
            exists|drawn: Option<sessionid4>|
                {
                    &&& old(self)@.fair_sessionid(drawn)
                    &&& (final(self)@, r) == #[trigger] old(self)@.create_session(
                        clientid,
                        csa_sequence,
                        num_slots,
                        fore_attrs.model(),
                        back_attrs.model(),
                        drawn,
                    )
                },
    {
        let drawn = self.fresh_sessionid();
        self.create_session_as(clientid, csa_sequence, num_slots, fore_attrs, back_attrs, drawn)
    }

    /// SEQUENCE slot check. Advances the slot on a new request, and renews the
    /// lease of a valid one.
    pub fn sequence_check(&mut self, sessionid: &sessionid4, slotid: slotid4, seqid: sequenceid4, now: u64) -> (r:
        SequenceOutcome)
        requires
            old(self).wf(),
            now + old(self)@.lease <= u64::MAX,
        ensures
            final(self).wf(),
            (final(self)@, r@) == old(self)@.sequence_check(*sessionid, slotid, seqid, now),
    {
        let ghost s = self@;
        let clientid: clientid4 = match self.sessions.get(sessionid) {
            Some(v) => v.clientid,
            None => return SequenceOutcome::BadSession,
        };
        assert(s.index.contains_key(s.sessions[*sessionid].clientid));
        let ownerid: Vec<u8> = match self.clientid_index.get(&clientid) {
            Some(o) => slice_to_vec(o.as_slice()),
            None => return SequenceOutcome::BadSession,
        };
        let expired: bool = match self.clients.get(&ownerid) {
            Some(rec) => rec.expires < now,
            None => true,
        };
        assert(expired == (s.client(clientid).expires < now));
        if expired {
            self.expire_client(&ownerid);
            return SequenceOutcome::BadSession;
        }
        let expires: u64 = now + self.lease;
        let ghost slots = s.sessions[*sessionid].slots;
        let outcome = match self.sessions.get_mut(sessionid) {
            None => return SequenceOutcome::BadSession,
            Some(sess) => {
                assert(slots.len() == sess.slots@.len());
                if slotid as usize >= sess.slots.len() {
                    assert(self@ =~= s);
                    return SequenceOutcome::BadSlot;
                }
                let i: usize = slotid as usize;
                assert(slots[i as int] == sess.slots@[i as int].model());
                let last: u32 = sess.slots[i].last_seqid;
                if seqid == last {
                    match &sess.slots[i].cached_reply {
                        Some(bytes) => SequenceOutcome::Replay(slice_to_vec(bytes.as_slice())),
                        None => SequenceOutcome::RetryUncached,
                    }
                } else if seqid == next(last) {
                    let ghost before = sess.slots@;
                    sess.slots[i] = SlotState { last_seqid: seqid, cached_reply: None };
                    proof {
                        let now_used = SlotView { last_seqid: seqid, cached: None };
                        assert(models(sess.slots@) =~= models(before).update(i as int, now_used));
                    }
                    SequenceOutcome::New
                } else {
                    SequenceOutcome::Misordered
                }
            },
        };
        if let SequenceOutcome::Misordered = &outcome {
            assert(self@ =~= s);
            return outcome;
        }
        let ghost t = self@;
        proof {
            if let SequenceOutcome::New = outcome {
                let now_used = SlotView { last_seqid: seqid, cached: None };
                assert(t =~= s.with_slot(*sessionid, slotid, now_used));
                slot_update_keeps_inv(s, *sessionid, slotid, now_used);
            } else {
                assert(t =~= s);
            }
            client_update_keeps_inv(t, ownerid@, ClientView { expires, ..t.clients[ownerid@] });
        }
        if let Some(rec) = self.clients.get_mut(&ownerid) {
            rec.expires = expires;
        }
        assert(self@ =~= t.renewed(clientid, now));
        outcome
    }

    /// Store the body of the reply for a slot.
    pub fn cache_reply(&mut self, sessionid: &sessionid4, slotid: slotid4, seqid: sequenceid4, reply: Vec<u8>)
        requires
            old(self).wf(),
        ensures
            final(self).wf(),
            final(self)@ == old(self)@.reply_cached(*sessionid, slotid, seqid, reply@),
    {
        let ghost s = self@;
        let ghost bytes = reply@;
        if let Some(sess) = self.sessions.get_mut(sessionid) {
            let i: usize = slotid as usize;
            let ghost before = sess.slots@;
            if i < sess.slots.len() {
                assert(s.sessions[*sessionid].slots[i as int] == before[i as int].model());
                if sess.slots[i].last_seqid == seqid {
                    sess.slots[i] = SlotState { last_seqid: seqid, cached_reply: Some(reply) };
                    proof {
                        let now_used = SlotView { last_seqid: seqid, cached: Some(bytes) };
                        assert(models(sess.slots@) =~= models(before).update(i as int, now_used));
                        slot_update_keeps_inv(s, *sessionid, slotid, now_used);
                    }
                }
            }
        }
        assert(self@ =~= s.reply_cached(*sessionid, slotid, seqid, bytes));
    }

    /// DESTROY_SESSION: remove the session and unlink it from its client. Was
    /// there one?
    pub fn destroy_session(&mut self, sessionid: &sessionid4) -> (b: bool)
        requires
            old(self).wf(),
        ensures
            final(self).wf(),
            b == old(self)@.sessions.contains_key(*sessionid),
            final(self)@ == old(self)@.without_session(*sessionid),
    {
        let ghost s = self@;
        proof {
            without_session_keeps_inv(s, *sessionid);
        }
        let clientid: clientid4 = match self.sessions.remove(sessionid) {
            Some(sess) => sess.clientid,
            None => {
                assert(self@ =~= s);
                return false;
            },
        };
        assert(s.index.contains_key(s.sessions[*sessionid].clientid));
        if let Some(owner) = self.clientid_index.get(&clientid) {
            if let Some(rec) = self.clients.get_mut(owner) {
                rec.sessions = without_session(&rec.sessions, sessionid);
                let newest: bool = match &rec.made {
                    Some(id) => same_bytes(id, sessionid),
                    None => false,
                };
                if newest {
                    rec.made = None;
                }
            }
        }
        assert(self@ =~= s.without_session(*sessionid));
        true
    }

    /// DESTROY_CLIENTID: refused while the client has sessions.
    pub fn destroy_clientid(&mut self, clientid: clientid4) -> (r: DestroyClientIdOutcome)
        requires
            old(self).wf(),
        ensures
            final(self).wf(),
            (final(self)@, r) == old(self)@.destroy_clientid(clientid),
    {
        let owner: Vec<u8> = match self.clientid_index.get(&clientid) {
            Some(o) => slice_to_vec(o.as_slice()),
            None => return DestroyClientIdOutcome::StaleClientId,
        };
        let has_sessions: bool = match self.clients.get(&owner) {
            Some(rec) => rec.sessions.len() > 0,
            None => false,
        };
        if has_sessions {
            return DestroyClientIdOutcome::Busy;
        }
        self.expire_client(&owner);
        DestroyClientIdOutcome::Destroyed
    }

    /// Mark the client that owns the session as having completed reclaim. Does
    /// nothing if there is no such session.
    pub fn set_reclaim_complete(&mut self, sessionid: &sessionid4)
        requires
            old(self).wf(),
        ensures
            final(self).wf(),
            final(self)@ == old(self)@.reclaimed(*sessionid),
    {
        let ghost s = self@;
        let clientid: clientid4 = match self.sessions.get(sessionid) {
            Some(v) => v.clientid,
            None => return,
        };
        proof {
            assert(s.index.contains_key(s.sessions[*sessionid].clientid));
            client_update_keeps_inv(
                s,
                s.index[clientid],
                ClientView { reclaim_complete: true, ..s.client(clientid) },
            );
        }
        if let Some(owner) = self.clientid_index.get(&clientid) {
            if let Some(rec) = self.clients.get_mut(owner) {
                rec.reclaim_complete = true;
            }
        }
        assert(self@ =~= s.reclaimed(*sessionid));
    }

    /// Record a new open, with what was drawn for its stateid. Always grants (no
    /// conflict checking).
    pub fn open_as(
        &mut self,
        clientid: clientid4,
        owner: &[u8],
        owner_seqid: u32,
        fileid: u64,
        share_access: u32,
        share_deny: u32,
        drawn: Option<Other>,
    ) -> (r: Option<OpenOutcome>)
        requires
            old(self).wf(),
            old(self)@.fair_other(drawn),
        ensures
            final(self).wf(),
            (final(self)@, r) == old(self)@.open(
                clientid,
                owner@,
                owner_seqid,
                fileid,
                share_access,
                share_deny,
                drawn,
            ),
    {
        let ghost s = self@;
        if !self.clientid_index.contains_key(&clientid) {
            return Some(OpenOutcome::StaleClientId);
        }
        let other: Other = match drawn {
            Some(o) => o,
            None => return None,
        };
        self.open_owners.insert((clientid, slice_to_vec(owner)), OpenOwnerState { last_seqid: owner_seqid });
        self.opens.insert(
            other,
            OpenState { clientid, owner: slice_to_vec(owner), fileid, seqid: 1, share_access, share_deny },
        );
        assert(self@ =~= s.open(clientid, owner@, owner_seqid, fileid, share_access, share_deny, drawn).0);
        Some(OpenOutcome::Opened { stateid: stateid4 { seqid: 1, other } })
    }

    /// Record a new open. `None` where the system has no randomness to give for
    /// its stateid.
    pub fn open(
        &mut self,
        clientid: clientid4,
        owner: &[u8],
        owner_seqid: u32,
        fileid: u64,
        share_access: u32,
        share_deny: u32,
    ) -> (r: Option<OpenOutcome>)
        requires
            old(self).wf(),
        ensures
            final(self).wf(),
            exists|drawn: Option<Other>|
                {
                    &&& old(self)@.fair_other(drawn)
                    &&& (final(self)@, r) == #[trigger] old(self)@.open(
                        clientid,
                        owner@,
                        owner_seqid,
                        fileid,
                        share_access,
                        share_deny,
                        drawn,
                    )
                },
    {
        let drawn = self.fresh_stateid_other();
        self.open_as(clientid, owner, owner_seqid, fileid, share_access, share_deny, drawn)
    }

    /// What a stateid stands for. The special stateids (all zeros, all ones) are
    /// anonymous access.
    pub fn resolve_stateid(&self, sid: &stateid4) -> (r: ResolveStateid)
        requires
            self.wf(),
        ensures
            r == self@.resolve_stateid(*sid),
    {
        if is_all(&sid.other, 0) || is_all(&sid.other, 0xff) {
            return ResolveStateid::Special;
        }
        match self.opens.get(&sid.other) {
            Some(o) => ResolveStateid::Open { fileid: o.fileid, share_access: o.share_access },
            None => ResolveStateid::Bad,
        }
    }

    /// CLOSE: remove the open. Gives the bumped stateid.
    pub fn close(&mut self, sid: &stateid4) -> (r: CloseOutcome)
        requires
            old(self).wf(),
        ensures
            final(self).wf(),
            (final(self)@, r) == old(self)@.close(*sid),
    {
        let ghost s = self@;
        let r = match self.opens.remove(&sid.other) {
            Some(o) => CloseOutcome::Closed { stateid: stateid4 { seqid: next(o.seqid), other: sid.other } },
            None => CloseOutcome::Bad,
        };
        assert(self@ =~= s.close(*sid).0);
        r
    }

    /// Stable per-boot write verifier.
    pub fn write_verifier(&self) -> (v: [u8; 8])
        ensures
            v@ == verifier_of(self@.boot_verifier),
    {
        write_verifier(self.boot_verifier)
    }
}

/// The next number, with wraparound.
fn next(seqid: u32) -> (r: u32)
    ensures
        r == after(seqid),
{
    if seqid == u32::MAX {
        0
    } else {
        seqid + 1
    }
}

/// Is every byte this one?
fn is_all(other: &Other, b: u8) -> (r: bool)
    ensures
        r == all_bytes(*other, b),
{
    let mut i: usize = 0;
    while i < NFS4_OTHER_SIZE
        invariant
            i <= NFS4_OTHER_SIZE,
            forall|j: int| 0 <= j < i ==> #[trigger] other@[j] == b,
        decreases NFS4_OTHER_SIZE - i,
    {
        if other[i] != b {
            assert(other@[i as int] != b);
            return false;
        }
        i += 1;
    }
    true
}

/// Unused slots, at least one.
fn unused_slots(asked: u32) -> (r: Vec<SlotState>)
    ensures
        models(r@) == Seq::new(
            if asked == 0 {
                1
            } else {
                asked as nat
            },
            |i: int| unused_slot(),
        ),
{
    let n: u32 = if asked == 0 {
        1
    } else {
        asked
    };
    let mut v: Vec<SlotState> = Vec::new();
    let mut i: u32 = 0;
    while i < n
        invariant
            i <= n,
            v@.len() == i,
            forall|j: int| 0 <= j < i ==> (#[trigger] v@[j]).model() == unused_slot(),
        decreases n - i,
    {
        v.push(SlotState { last_seqid: 0, cached_reply: None });
        i += 1;
    }
    let ghost all = Seq::new(n as nat, |i: int| unused_slot());
    assert(models(v@) =~= all);
    v
}

// ---------------------------------------------------------------- laws

/// A clientid of another boot is stale, whatever it is used for.
pub proof fn ids_of_another_boot_are_stale(
    s: StateView,
    cid: clientid4,
    sequence: sequenceid4,
    num_slots: u32,
    fore: <channel_attrs4 as Model>::M,
    back: <channel_attrs4 as Model>::M,
    id: Option<sessionid4>,
    owner: Seq<u8>,
    owner_seqid: u32,
    fileid: u64,
    share_access: u32,
    share_deny: u32,
    other: Option<Other>,
)
    requires
        s.inv(),
        cid / 0x1_0000_0000 != s.boot_verifier,
    ensures
        s.create_session(cid, sequence, num_slots, fore, back, id) == (s, Some(CreateSessionOutcome::StaleClientId)),
        s.destroy_clientid(cid) == (s, DestroyClientIdOutcome::StaleClientId),
        s.open(cid, owner, owner_seqid, fileid, share_access, share_deny, other) == (
            s,
            Some(OpenOutcome::StaleClientId),
        ),
{
}

/// EXCHANGE_ID with the same owner and verifier gives the same client again.
pub proof fn exchange_id_is_idempotent(
    s: StateView,
    owner: Seq<u8>,
    verifier: verifier4,
    now: u64,
    drawn: Option<clientid4>,
    later: u64,
    again: Option<clientid4>,
)
    requires
        s.exchange_id(owner, verifier, now, drawn).1 is Some,
    ensures
        ({
            let (t, r) = s.exchange_id(owner, verifier, now, drawn);
            t.exchange_id(owner, verifier, later, again) == (t, r)
        }),
{
}

/// A client that comes back with another verifier gets another id, and its old id
/// is stale from then on.
pub proof fn reboot_retires_the_old_id(
    s: StateView,
    owner: Seq<u8>,
    verifier: verifier4,
    now: u64,
    drawn: Option<clientid4>,
)
    requires
        s.inv(),
        s.fair_clientid(drawn),
        s.clients.contains_key(owner),
        s.clients[owner].verifier != verifier,
        drawn is Some,
    ensures
        ({
            let (t, r) = s.exchange_id(owner, verifier, now, drawn);
            let before = s.clients[owner].clientid;
            &&& r matches Some(x) && x.clientid != before
            &&& t.destroy_clientid(before).1 == DestroyClientIdOutcome::StaleClientId
            &&& forall|id: sessionid4| #[trigger] t.sessions.contains_key(id) ==> t.sessions[id].clientid != before
        }),
{
}

/// Every session that was there is as it was, slots and all, or is gone.
pub open spec fn leaves_sessions(s: StateView, t: StateView) -> bool {
    forall|id: sessionid4| #[trigger]
        t.sessions.contains_key(id) && s.sessions.contains_key(id) ==> t.sessions[id] == s.sessions[id]
}

/// Every client that was there and still is expects the same CREATE_SESSION next, and
/// replays the same session, or none any more.
pub open spec fn leaves_replays(s: StateView, t: StateView) -> bool {
    forall|cid: clientid4| #[trigger]
        t.index.contains_key(cid) && s.index.contains_key(cid) ==> t.client(cid).seqid == s.client(cid).seqid && (
        t.client(cid).made == s.client(cid).made || t.client(cid).made is None)
}

/// But for SEQUENCE and CREATE_SESSION, no operation touches a session that stays or
/// what a client replays.
pub proof fn operations_leave_sessions_alone(
    s: StateView,
    owner: Seq<u8>,
    verifier: verifier4,
    now: u64,
    drawn: Option<clientid4>,
    cid: clientid4,
    id: sessionid4,
    gone: Set<Seq<u8>>,
)
    requires
        s.inv(),
        s.fair_clientid(drawn),
    ensures
        leaves_sessions(s, s.exchange_id(owner, verifier, now, drawn).0),
        leaves_replays(s, s.exchange_id(owner, verifier, now, drawn).0),
        leaves_sessions(s, s.without(gone)),
        leaves_replays(s, s.without(gone)),
        leaves_sessions(s, s.without_session(id)),
        leaves_replays(s, s.without_session(id)),
        leaves_sessions(s, s.destroy_clientid(cid).0),
        leaves_replays(s, s.destroy_clientid(cid).0),
        leaves_sessions(s, s.reclaimed(id)),
        leaves_replays(s, s.reclaimed(id)),
{
    let t = s.exchange_id(owner, verifier, now, drawn).0;
    assert forall|c: clientid4| #[trigger] t.index.contains_key(c) && s.index.contains_key(c) implies t.client(c).seqid
        == s.client(c).seqid && t.client(c).made == s.client(c).made by {
        assert(s.clients.contains_key(s.index[c]));
    }
    if s.sessions.contains_key(id) {
        assert(s.index.contains_key(s.sessions[id].clientid));
    }
    if s.index.contains_key(cid) {
        assert(s.without(set![s.index[cid]]).index.dom().subset_of(s.index.dom()));
    }
}

/// A session under a fresh id leaves every other as it was.
pub proof fn create_session_leaves_sessions(
    s: StateView,
    cid: clientid4,
    sequence: sequenceid4,
    num_slots: u32,
    fore: <channel_attrs4 as Model>::M,
    back: <channel_attrs4 as Model>::M,
    drawn: Option<sessionid4>,
)
    requires
        s.fair_sessionid(drawn),
    ensures
        leaves_sessions(s, s.create_session(cid, sequence, num_slots, fore, back, drawn).0),
{
}

/// A retransmitted CREATE_SESSION gives back the session that the first one made, or,
/// once that session is gone, nothing, and changes nothing: in every later state, as
/// long as the client is there and has made no other session.
pub proof fn create_session_replays(
    s: StateView,
    cid: clientid4,
    sequence: sequenceid4,
    num_slots: u32,
    fore: <channel_attrs4 as Model>::M,
    back: <channel_attrs4 as Model>::M,
    id: sessionid4,
    t: StateView,
    num_again: u32,
    fore_again: <channel_attrs4 as Model>::M,
    back_again: <channel_attrs4 as Model>::M,
    again: Option<sessionid4>,
)
    requires
        s.create_session(cid, sequence, num_slots, fore, back, Some(id)).1 == Some(
            CreateSessionOutcome::Created { sessionid: id },
        ),
        leaves_replays(s.create_session(cid, sequence, num_slots, fore, back, Some(id)).0, t),
        t.index.contains_key(cid),
    ensures
        s.create_session(cid, sequence, num_slots, fore, back, Some(id)).0.client(cid).made == Some(id),
        t.create_session(cid, sequence, num_again, fore_again, back_again, again) == (
            t,
            Some(
                if t.client(cid).made is Some {
                    CreateSessionOutcome::Replay { sessionid: id }
                } else {
                    CreateSessionOutcome::SeqMisordered
                },
            ),
        ),
{
    let u = s.create_session(cid, sequence, num_slots, fore, back, Some(id)).0;
    assert(u == s.with_session(cid, id, num_slots, fore, back));
    assert(u.index.contains_key(cid));
}

/// Of every state: what CREATE_SESSION replays is the session that the client's last
/// CREATE_SESSION made, which is one of its sessions.
pub proof fn a_replay_names_what_was_made(
    s: StateView,
    cid: clientid4,
    sequence: sequenceid4,
    num_slots: u32,
    fore: <channel_attrs4 as Model>::M,
    back: <channel_attrs4 as Model>::M,
    drawn: Option<sessionid4>,
    id: sessionid4,
)
    requires
        s.inv(),
        s.create_session(cid, sequence, num_slots, fore, back, drawn).1 == Some(
            CreateSessionOutcome::Replay { sessionid: id },
        ),
    ensures
        s.client(cid).made == Some(id),
        s.sessions.contains_key(id),
        s.sessions[id].clientid == cid,
        s.create_session(cid, sequence, num_slots, fore, back, drawn).0 == s,
{
    let o = s.index[cid];
    assert(s.clients.contains_key(o));
    assert(s.clients[o].sessions.contains(id));
    let i = choose|i: int| 0 <= i < s.clients[o].sessions.len() && s.clients[o].sessions[i] == id;
    assert(s.sessions.contains_key(s.clients[o].sessions[i]));
}

/// A request runs once: after it was let through, the same SEQUENCE is never let
/// through again while the slot stands at it. With its reply cached, a retransmit
/// within the lease is answered by that reply; without, it is told so.
pub proof fn a_request_runs_once(
    s: StateView,
    id: sessionid4,
    slot: slotid4,
    seqid: sequenceid4,
    now: u64,
    reply: Seq<u8>,
    later: u64,
)
    requires
        s.inv(),
        s.sequence_check(id, slot, seqid, now).1 is New,
        now + s.lease <= u64::MAX,
        later <= now + s.lease,
    ensures
        ({
            let t = s.sequence_check(id, slot, seqid, now).0;
            &&& t.sequence_check(id, slot, seqid, later).1 is RetryUncached
            &&& t.reply_cached(id, slot, seqid, reply).sequence_check(id, slot, seqid, later).1
                == SequenceView::Replay(reply)
        }),
{
    let t = s.sequence_check(id, slot, seqid, now).0;
    let u = t.reply_cached(id, slot, seqid, reply);
    assert(s.sessions.contains_key(id));
    assert(t.sessions[id].slots[slot as int] == SlotView { last_seqid: seqid, cached: None });
    assert(u.sessions[id].slots[slot as int] == SlotView { last_seqid: seqid, cached: Some(reply) });
}

/// A SEQUENCE that comes after the lease has run out finds no session, and the
/// client is gone with all that belonged to it.
pub proof fn a_lapsed_client_is_gone(s: StateView, id: sessionid4, slot: slotid4, seqid: sequenceid4, now: u64)
    requires
        s.inv(),
        s.sessions.contains_key(id),
        s.client(s.sessions[id].clientid).expires < now,
    ensures
        ({
            let cid = s.sessions[id].clientid;
            let (t, r) = s.sequence_check(id, slot, seqid, now);
            &&& r is BadSession
            &&& !t.index.contains_key(cid)
            &&& forall|k: sessionid4| #[trigger] t.sessions.contains_key(k) ==> t.sessions[k].clientid != cid
            &&& forall|o: Other| #[trigger] t.opens.contains_key(o) ==> t.opens[o].clientid != cid
        }),
{
    assert(s.index.contains_key(s.sessions[id].clientid));
}

/// A client is busy exactly as long as a session is its own.
pub proof fn busy_means_a_session(s: StateView, cid: clientid4)
    requires
        s.inv(),
        s.index.contains_key(cid),
    ensures
        s.destroy_clientid(cid).1 == DestroyClientIdOutcome::Busy <==> exists|id: sessionid4| #[trigger]
            s.sessions.contains_key(id) && s.sessions[id].clientid == cid,
{
    let c = s.client(cid);
    assert(s.clients.contains_key(s.index[cid]));
    if c.sessions.len() > 0 {
        let id = s.clients[s.index[cid]].sessions[0];
        assert(s.sessions.contains_key(id));
    }
    if exists|id: sessionid4| #[trigger] s.sessions.contains_key(id) && s.sessions[id].clientid == cid {
        let id = choose|id: sessionid4| #[trigger] s.sessions.contains_key(id) && s.sessions[id].clientid == cid;
        assert(c.sessions.contains(id));
    }
}

/// What OPEN opened resolves to its file and access until it is closed, unless
/// the stateid that was drawn is one of the special ones; and it closes once.
pub proof fn open_resolves_until_closed(
    s: StateView,
    cid: clientid4,
    owner: Seq<u8>,
    owner_seqid: u32,
    fileid: u64,
    share_access: u32,
    share_deny: u32,
    other: Other,
    sid: stateid4,
)
    requires
        s.open(cid, owner, owner_seqid, fileid, share_access, share_deny, Some(other)).1 == Some(
            OpenOutcome::Opened { stateid: sid },
        ),
        !all_bytes(other, 0),
        !all_bytes(other, 0xff),
    ensures
        ({
            let t = s.open(cid, owner, owner_seqid, fileid, share_access, share_deny, Some(other)).0;
            let (u, closed) = t.close(sid);
            &&& t.resolve_stateid(sid) == ResolveStateid::Open { fileid, share_access }
            &&& closed == CloseOutcome::Closed { stateid: stateid4 { seqid: 2, other } }
            &&& u.resolve_stateid(sid) == ResolveStateid::Bad
            &&& u.close(sid) == (u, CloseOutcome::Bad)
        }),
{
}

} // verus!
