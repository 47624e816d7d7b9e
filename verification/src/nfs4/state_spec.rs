//! What the server remembers of its clients, and what each request makes of it.
//!
//! Every operation of `NFS4State` is stated here as a function from the state
//! before to the state after and the reply.

use vstd::prelude::*;

use crate::nfs4::{
    clientid4, fileid4, nfsstat4, seqid4, sequenceid4, sessionid4, stateid4, verifier4, NFS4_OTHER_SIZE,
};
use crate::table::kept;
use crate::vfs::OpenMode;

verus! {

/// `stateid4.other`.
pub type Other = [u8; NFS4_OTHER_SIZE];

/// Every fallible operation fails with an NFS status; nothing else.
pub type Res<T> = Result<T, nfsstat4>;

/// The reply an open-owner's last request produced. An error is as much a reply
/// as a stateid, and must be replayed just as faithfully.
pub type OwnerReply = Res<stateid4>;

/// Upper bound on slots per session, whatever the client asks for.
pub const MAX_SLOTS: u32 = 1;

/// Minor version. Owner ids from SETCLIENTID and EXCHANGE_ID are unrelated
/// opaque blobs, so they must not share a namespace.
#[derive(Copy, Clone, PartialEq, Eq, Hash, Debug, Structural)]
pub enum Minor {
    V40,
    V41,
}

/// The open-owner seqid an OPEN / OPEN_CONFIRM / CLOSE arrived with.
///
/// OPEN and CLOSE carry a seqid field in both minor versions, but a 4.1 server
/// must ignore it: SEQUENCE already provides exactly-once semantics, and 4.1
/// clients are under no obligation to advance it. Callers construct this from the negotiated minor version, never
/// from the field merely being present on the wire; `owner_seqid_for`
/// re-derives the answer from the client record all the same.
#[derive(Copy, Clone, PartialEq, Eq, Debug, Structural)]
pub enum OwnerSeqid {
    /// NFSv4.0: the seqid governs replay detection for this open-owner.
    V40(seqid4),
    /// NFSv4.1: no open-owner sequencing; the wire field is ignored.
    V41,
}

/// Result of the 4.0 open-owner sequence check.
#[derive(Copy, Clone, Debug, PartialEq, Eq)]
pub enum OwnerSeq {
    Fresh,
    /// Retransmit: hand back the recorded reply verbatim, errors included.
    Replay(OwnerReply),
}

/// What an OPEN gives back.
#[derive(Copy, Clone, Debug, PartialEq, Eq)]
pub struct Opened {
    pub stateid: stateid4,
    /// NFSv4.0 only: set `OPEN4_RESULT_CONFIRM`; the client must OPEN_CONFIRM.
    pub confirm_required: bool,
}

/// What an OPEN comes to before the file system is asked.
#[derive(Copy, Clone, Debug, PartialEq, Eq)]
pub enum OpenPlan {
    Done(Opened),
    /// Needs a handle opened in this mode, then `open_commit`.
    NeedHandle(OpenMode),
}

/// What a CREATE_SESSION comes to.
#[derive(Copy, Clone, Debug, PartialEq, Eq)]
pub enum CreateSession {
    New(sessionid4),
    /// Replay of the CREATE_SESSION that made this session.
    Replay(sessionid4),
}

/// A parsed `stateid4`. Tells the two special stateids apart, which callers
/// must treat differently.
#[derive(Copy, Clone, Debug, PartialEq, Eq)]
pub enum StateRef {
    /// All-zero: anonymous access.
    Anonymous,
    /// All-ones: READ bypass.
    Bypass,
    /// A seqid of `None` means the current one.
    Open { other: Other, seqid: Option<u32> },
}

// ---------------------------------------------------------------- the records

/// NFSv4.0 open-owner: sequence ordering plus OPEN_CONFIRM.
#[verifier::ext_equal]
pub struct OwnerView {
    /// Last (seqid, reply) sent, for retransmit detection.
    pub last: Option<(seqid4, OwnerReply)>,
    /// Set by OPEN_CONFIRM.
    pub confirmed: bool,
    /// `other` of the state this owner last closed.
    pub retired: Option<Other>,
}

/// Per-version state of a client.
#[verifier::ext_equal]
pub enum KindView {
    V40 { confirm_verifier: verifier4, confirmed: bool },
    /// The next expected `csa_sequence`, and the sessions in the order they
    /// were made.
    V41 { create_session_seq: sequenceid4, sessions: Seq<sessionid4> },
}

#[verifier::ext_equal]
pub struct ClientView {
    pub owner: (Minor, Seq<u8>),
    pub verifier: verifier4,
    pub last_renewed: u64,
    pub kind: KindView,
    /// The session that the last CREATE_SESSION made, while it lives.
    pub made: Option<sessionid4>,
    pub open_owners: Map<Seq<u8>, OwnerView>,
}

#[verifier::ext_equal]
pub struct SlotView {
    /// Last sequenceid seen; 0 means never used.
    pub last_seqid: sequenceid4,
    /// Encoded COMPOUND4res body, when the client asked for `sa_cachethis`.
    pub cached: Option<Seq<u8>>,
}

#[verifier::ext_equal]
pub struct SessionView {
    pub clientid: clientid4,
    pub slots: Seq<SlotView>,
    /// Negotiated `ca_maxresponsesize_cached`; bounds the reply cache.
    pub max_cached: u32,
}

/// One open state per (client, open-owner, file).
#[verifier::ext_equal]
pub struct OpenView<H> {
    pub clientid: clientid4,
    pub owner: Seq<u8>,
    pub fileid: fileid4,
    /// Stateid seqid; never 0, because 0 on the wire means "the current one".
    pub seqid: u32,
    pub mode: OpenMode,
    pub fh: H,
}

/// Everything the server remembers. Times are in nanoseconds from an origin
/// that the caller picks once.
#[verifier::ext_equal]
pub struct StateView<H> {
    pub lease: u64,
    /// Per-boot epoch in the high 32 bits of every clientid.
    pub epoch: u32,
    pub clients: Map<clientid4, ClientView>,
    pub by_owner: Map<(Minor, Seq<u8>), clientid4>,
    pub sessions: Map<sessionid4, SessionView>,
    pub opens: Map<Other, OpenView<H>>,
    /// Which open state a (client, open-owner, file) has.
    pub open_index: Map<(clientid4, Seq<u8>, fileid4), Other>,
    /// The (client, open-owner) of each just-closed 4.0 state.
    pub retired: Map<Other, (clientid4, Seq<u8>)>,
}

#[verifier::ext_equal]
pub enum SequenceView {
    New,
    /// Cached COMPOUND4res body.
    Replay(Seq<u8>),
    /// Replay of a request whose reply was not cached.
    RetryUncached,
}

#[verifier::ext_equal]
pub enum ResolvedView<H> {
    Open { fileid: fileid4, fh: H, mode: OpenMode },
    Anonymous,
    Bypass,
}

// ---------------------------------------------------------------- small parts

/// Does `status` leave the client's open-owner seqid unadvanced?
///
/// In 4.0 the seqid advances on every request that names the
/// open-owner, successful or not, except for this exact list.
pub open spec fn retains_seqid(status: nfsstat4) -> bool {
    ||| status == nfsstat4::NFS4ERR_STALE_CLIENTID
    ||| status == nfsstat4::NFS4ERR_STALE_STATEID
    ||| status == nfsstat4::NFS4ERR_BAD_STATEID
    ||| status == nfsstat4::NFS4ERR_BAD_SEQID
    ||| status == nfsstat4::NFS4ERR_BADXDR
    ||| status == nfsstat4::NFS4ERR_RESOURCE
    ||| status == nfsstat4::NFS4ERR_NOFILEHANDLE
    ||| status == nfsstat4::NFS4ERR_MOVED
}

/// The next value of a 32-bit counter that wraps to 0.
pub open spec fn wrap_next(v: u32) -> u32 {
    if v == u32::MAX {
        0
    } else {
        (v + 1) as u32
    }
}

/// The previous value of a 32-bit counter that wraps.
pub open spec fn wrap_prev(v: u32) -> u32 {
    if v == 0 {
        u32::MAX
    } else {
        (v - 1) as u32
    }
}

/// The next stateid seqid: 0 is left out.
pub open spec fn bumped(v: u32) -> u32 {
    if v == u32::MAX {
        1
    } else {
        (v + 1) as u32
    }
}

/// What a stateid refers to. Lenient about the seqid of the special stateids:
/// clients send both 0 and ~0, and rejecting either buys nothing.
pub open spec fn state_ref(sid: stateid4) -> StateRef {
    if forall|i: int| 0 <= i < NFS4_OTHER_SIZE ==> #[trigger] sid.other@[i] == 0 {
        StateRef::Anonymous
    } else if forall|i: int| 0 <= i < NFS4_OTHER_SIZE ==> #[trigger] sid.other@[i] == 0xff {
        StateRef::Bypass
    } else {
        StateRef::Open { other: sid.other, seqid: if sid.seqid == 0 { None } else { Some(sid.seqid) } }
    }
}

/// Is `seqid` the version of the state that is current?
pub open spec fn seqid_status(current: u32, seqid: Option<u32>) -> Res<()> {
    match seqid {
        None => Ok(()),
        Some(s) => if s == current {
            Ok(())
        } else if s < current {
            Err(nfsstat4::NFS4ERR_OLD_STATEID)
        } else {
            Err(nfsstat4::NFS4ERR_BAD_STATEID)
        },
    }
}

/// How many slots a session gets of those asked for.
pub open spec fn slots_granted(asked: u32) -> u32 {
    if asked < 1 {
        1
    } else if asked > MAX_SLOTS {
        MAX_SLOTS
    } else {
        asked
    }
}

/// A list of session ids without one of them.
pub open spec fn without_id(ids: Seq<sessionid4>, id: sessionid4) -> Seq<sessionid4> {
    ids.filter(other_than(id))
}

pub open spec fn other_than(id: sessionid4) -> spec_fn(sessionid4) -> bool {
    |i: sessionid4| i != id
}

impl OwnerView {
    /// An open-owner of which nothing has been heard.
    pub open spec fn unheard() -> OwnerView {
        OwnerView { last: None, confirmed: false, retired: None }
    }
}

impl KindView {
    pub open spec fn minor(self) -> Minor {
        match self {
            KindView::V40 { .. } => Minor::V40,
            KindView::V41 { .. } => Minor::V41,
        }
    }
}

impl SlotView {
    /// A slot that no request has used.
    pub open spec fn unused() -> SlotView {
        SlotView { last_seqid: 0, cached: None }
    }
}

impl ClientView {
    /// Has the client been heard of within its lease?
    pub open spec fn is_live(self, now: u64, lease: u64) -> bool {
        0 < lease && now - self.last_renewed < lease
    }

    /// 4.0 confirms via SETCLIENTID_CONFIRM, 4.1 via CREATE_SESSION.
    pub open spec fn is_confirmed(self) -> bool {
        match self.kind {
            KindView::V40 { confirmed, .. } => confirmed,
            KindView::V41 { sessions, .. } => sessions.len() > 0,
        }
    }

    /// The record of an open-owner, whether or not it has been heard of.
    pub open spec fn open_owner(self, owner: Seq<u8>) -> OwnerView {
        if self.open_owners.contains_key(owner) {
            self.open_owners[owner]
        } else {
            OwnerView::unheard()
        }
    }

    pub open spec fn with_open_owner(self, owner: Seq<u8>, r: OwnerView) -> ClientView {
        ClientView { open_owners: self.open_owners.insert(owner, r), ..self }
    }
}

// ---------------------------------------------------------------- transitions

impl<H> StateView<H> {
    /// Before anyone has been heard of.
    pub open spec fn empty(lease: u64, epoch: u32) -> StateView<H> {
        StateView {
            lease,
            epoch,
            clients: Map::empty(),
            by_owner: Map::empty(),
            sessions: Map::empty(),
            opens: Map::empty(),
            open_index: Map::empty(),
            retired: Map::empty(),
        }
    }

    // -- id generation --

    /// A drawn clientid carries this boot's epoch and names no client yet.
    pub open spec fn fresh_clientid(self, cid: clientid4) -> bool {
        cid / 0x1_0000_0000 == self.epoch && !self.clients.contains_key(cid)
    }

    /// A drawn session id names no session yet.
    pub open spec fn fresh_sessionid(self, id: sessionid4) -> bool {
        !self.sessions.contains_key(id)
    }

    /// A drawn `other` avoids both live and just-retired states, so that a
    /// retransmitted CLOSE can never be misrouted to a fresh open.
    pub open spec fn fresh_other(self, other: Other) -> bool {
        !self.opens.contains_key(other) && !self.retired.contains_key(other)
    }

    /// The clientid that a random number makes, unless a client has it.
    pub open spec fn clientid_drawn(self, low: u32) -> Option<clientid4> {
        let cid = (self.epoch * 0x1_0000_0000 + low) as u64;
        if self.clients.contains_key(cid) {
            None
        } else {
            Some(cid)
        }
    }

    /// The session id that random bytes make, unless a session has it.
    pub open spec fn sessionid_drawn(self, id: sessionid4) -> Option<sessionid4> {
        if self.sessions.contains_key(id) {
            None
        } else {
            Some(id)
        }
    }

    /// The `other` that random bytes make, unless a live or a just-retired state
    /// has it.
    pub open spec fn other_drawn(self, other: Other) -> Option<Other> {
        if self.opens.contains_key(other) || self.retired.contains_key(other) {
            None
        } else {
            Some(other)
        }
    }

    /// What drawing an `other` can come to.
    pub open spec fn fair_other(self, drawn: Res<Other>) -> bool {
        match drawn {
            Ok(other) => self.fresh_other(other),
            Err(e) => e == nfsstat4::NFS4ERR_SERVERFAULT,
        }
    }

    /// What drawing a clientid can come to.
    pub open spec fn fair_clientid(self, drawn: Res<clientid4>) -> bool {
        match drawn {
            Ok(cid) => self.fresh_clientid(cid),
            Err(e) => e == nfsstat4::NFS4ERR_SERVERFAULT,
        }
    }

    /// What drawing a session id can come to.
    pub open spec fn fair_sessionid(self, drawn: Res<sessionid4>) -> bool {
        match drawn {
            Ok(id) => self.fresh_sessionid(id),
            Err(e) => e == nfsstat4::NFS4ERR_SERVERFAULT,
        }
    }

    // -- client lookup and expiry --

    /// Is there a live client of this id?
    pub open spec fn client_status(self, cid: clientid4, now: u64) -> Res<()> {
        if !self.clients.contains_key(cid) {
            Err(nfsstat4::NFS4ERR_STALE_CLIENTID)
        } else if self.clients[cid].is_live(now, self.lease) {
            Ok(())
        } else {
            Err(nfsstat4::NFS4ERR_EXPIRED)
        }
    }

    /// Without these clients and everything they own.
    pub open spec fn without_clients(self, gone: Set<clientid4>) -> StateView<H> {
        StateView {
            clients: kept(self.clients, |c: clientid4, r: ClientView| !gone.contains(c)),
            by_owner: kept(self.by_owner, |o: (Minor, Seq<u8>), c: clientid4| !gone.contains(c)),
            sessions: kept(self.sessions, |i: sessionid4, s: SessionView| !gone.contains(s.clientid)),
            opens: kept(self.opens, |o: Other, s: OpenView<H>| !gone.contains(s.clientid)),
            open_index: kept(self.open_index, |k: (clientid4, Seq<u8>, fileid4), o: Other| !gone.contains(k.0)),
            retired: kept(self.retired, |o: Other, k: (clientid4, Seq<u8>)| !gone.contains(k.0)),
            ..self
        }
    }

    /// Without a client and everything it owns.
    pub open spec fn without_client(self, cid: clientid4) -> StateView<H> {
        self.without_clients(set![cid])
    }

    /// The clients whose lease has lapsed.
    pub open spec fn lapsed(self, now: u64) -> Set<clientid4> {
        Set::new(|c: clientid4| self.clients.contains_key(c) && !self.clients[c].is_live(now, self.lease))
    }

    /// Without the clients whose lease has lapsed.
    pub open spec fn swept(self, now: u64) -> StateView<H> {
        self.without_clients(self.lapsed(now))
    }

    /// Looking a client up expires it if its lease has lapsed.
    pub open spec fn looked_up(self, cid: clientid4, now: u64) -> StateView<H> {
        if self.client_status(cid, now) == Err::<(), nfsstat4>(nfsstat4::NFS4ERR_EXPIRED) {
            self.without_client(cid)
        } else {
            self
        }
    }

    pub open spec fn with_client(self, cid: clientid4, c: ClientView) -> StateView<H> {
        StateView { clients: self.clients.insert(cid, c), ..self }
    }

    /// The client was heard of just now.
    pub open spec fn renewed(self, cid: clientid4, now: u64) -> StateView<H> {
        self.with_client(cid, ClientView { last_renewed: now, ..self.clients[cid] })
    }

    /// Without the client that is registered under `owner`, if there is one.
    pub open spec fn without_owner(self, owner: (Minor, Seq<u8>)) -> StateView<H> {
        if self.by_owner.contains_key(owner) {
            self.without_client(self.by_owner[owner])
        } else {
            self
        }
    }

    /// A fresh record replaces whatever client was registered under `owner`.
    pub open spec fn installed(
        self,
        owner: (Minor, Seq<u8>),
        verifier: verifier4,
        kind: KindView,
        now: u64,
        cid: clientid4,
    ) -> StateView<H> {
        let s = self.without_owner(owner);
        StateView {
            by_owner: s.by_owner.insert(owner, cid),
            clients: s.clients.insert(
                cid,
                ClientView { owner, verifier, last_renewed: now, kind, made: None, open_owners: Map::empty() },
            ),
            ..s
        }
    }

    // -- 4.0 open-owner sequencing --

    /// The open-owner seqid that actually governs a request, or `None` when
    /// there is none. The answer comes from the client record: a 4.1 client's
    /// OPEN/CLOSE seqid is ignored whatever the caller forwards.
    pub open spec fn owner_seqid_for(self, cid: clientid4, seqid: OwnerSeqid) -> Res<Option<seqid4>> {
        if !self.clients.contains_key(cid) {
            Err(nfsstat4::NFS4ERR_STALE_CLIENTID)
        } else {
            match (self.clients[cid].kind.minor(), seqid) {
                (Minor::V40, OwnerSeqid::V40(s)) => Ok(Some(s)),
                (Minor::V41, _) => Ok(None),
                (Minor::V40, OwnerSeqid::V41) => Err(nfsstat4::NFS4ERR_INVAL),
            }
        }
    }

    /// What the sequence check answers: the seqid repeats the last request,
    /// follows it, or breaks the sequence.
    pub open spec fn owner_check(self, cid: clientid4, owner: Seq<u8>, seqid: OwnerSeqid) -> Res<OwnerSeq> {
        match self.owner_seqid_for(cid, seqid) {
            Err(e) => Err(e),
            Ok(None) => Ok(OwnerSeq::Fresh),
            Ok(Some(s)) => match self.clients[cid].open_owner(owner).last {
                None => Ok(OwnerSeq::Fresh),
                Some((last, reply)) => if s == last {
                    Ok(OwnerSeq::Replay(reply))
                } else if s == wrap_next(last) {
                    Ok(OwnerSeq::Fresh)
                } else {
                    Err(nfsstat4::NFS4ERR_BAD_SEQID)
                },
            },
        }
    }

    /// Without an open-owner's record and its tombstone.
    pub open spec fn without_open_owner(self, cid: clientid4, owner: Seq<u8>) -> StateView<H> {
        let c = self.clients[cid];
        let s = self.with_client(cid, ClientView { open_owners: c.open_owners.remove(owner), ..c });
        match c.open_owner(owner).retired {
            None => s,
            Some(other) => StateView { retired: s.retired.remove(other), ..s },
        }
    }

    /// The sequence check forgets an open-owner whose sequence broke.
    pub open spec fn owner_checked(self, cid: clientid4, owner: Seq<u8>, seqid: OwnerSeqid) -> StateView<H> {
        if self.owner_check(cid, owner, seqid) == Err::<OwnerSeq, nfsstat4>(nfsstat4::NFS4ERR_BAD_SEQID) {
            self.without_open_owner(cid, owner)
        } else {
            self
        }
    }

    /// With the reply that a request of an open-owner produced, unless its
    /// status consumed no seqid. 4.1 clients have no open-owner records.
    pub open spec fn replied(
        self,
        cid: clientid4,
        owner: Seq<u8>,
        seqid: OwnerSeqid,
        reply: OwnerReply,
    ) -> StateView<H> {
        match seqid {
            OwnerSeqid::V41 => self,
            OwnerSeqid::V40(s) => if reply is Err && retains_seqid(reply->Err_0) {
                self
            } else if !self.clients.contains_key(cid) || self.clients[cid].kind.minor() == Minor::V41 {
                self
            } else {
                let c = self.clients[cid];
                self.with_client(
                    cid,
                    c.with_open_owner(owner, OwnerView { last: Some((s, reply)), ..c.open_owner(owner) }),
                )
            },
        }
    }

    /// An op that names an open-owner but which the server does not implement, or an
    /// OPEN that fails before the open state is asked: the rejection is booked as the
    /// open-owner's reply.
    pub open spec fn owner_rejection(
        self,
        cid: clientid4,
        owner: Seq<u8>,
        seqid: OwnerSeqid,
        status: nfsstat4,
        now: u64,
    ) -> (StateView<H>, nfsstat4) {
        if self.client_status(cid, now) is Err {
            (self.looked_up(cid, now), status)
        } else {
            match self.owner_check(cid, owner, seqid) {
                // Retransmit of the same rejected op: repeat it, do not advance.
                Ok(OwnerSeq::Replay(Err(cached))) => (self, cached),
                Ok(OwnerSeq::Replay(Ok(_))) => (self, status),
                Ok(OwnerSeq::Fresh) => (self.replied(cid, owner, seqid, Err(status)), status),
                Err(e) => (self.owner_checked(cid, owner, seqid), e),
            }
        }
    }

    /// 4.1 has no OPEN_CONFIRM; 4.0 needs it once per open-owner.
    pub open spec fn confirm_needed(self, cid: clientid4, owner: Seq<u8>) -> bool {
        &&& self.clients.contains_key(cid)
        &&& self.clients[cid].kind.minor() == Minor::V40
        &&& !self.clients[cid].open_owner(owner).confirmed
    }

    // -- OPEN --

    /// The open state `other` with its seqid advanced.
    pub open spec fn bumped_open(self, other: Other) -> StateView<H> {
        let o = self.opens[other];
        StateView { opens: self.opens.insert(other, OpenView { seqid: bumped(o.seqid), ..o }), ..self }
    }

    /// The stateid that names the current version of an open state.
    pub open spec fn current_stateid(self, other: Other) -> stateid4 {
        stateid4 { seqid: self.opens[other].seqid, other }
    }

    /// An OPEN that gives back `stateid` books it as the open-owner's reply.
    pub open spec fn open_finished(
        self,
        cid: clientid4,
        owner: Seq<u8>,
        seqid: OwnerSeqid,
        stateid: stateid4,
    ) -> (StateView<H>, Opened) {
        let s = self.replied(cid, owner, seqid, Ok(stateid));
        (s, Opened { stateid, confirm_required: s.confirm_needed(cid, owner) })
    }

    /// Everything of an OPEN that is decidable without the file system.
    pub open spec fn open_plan(
        self,
        cid: clientid4,
        owner: Seq<u8>,
        seqid: OwnerSeqid,
        fileid: fileid4,
        mode: OpenMode,
        now: u64,
    ) -> (StateView<H>, Res<OpenPlan>) {
        match self.client_status(cid, now) {
            Err(e) => (self.looked_up(cid, now), Err(e)),
            Ok(_) => if !self.clients[cid].is_confirmed() {
                (self, Err(nfsstat4::NFS4ERR_STALE_CLIENTID))
            } else {
                self.renewed(cid, now).open_planned(cid, owner, seqid, fileid, mode)
            },
        }
    }

    /// The same for a client that is live, confirmed and renewed.
    pub open spec fn open_planned(
        self,
        cid: clientid4,
        owner: Seq<u8>,
        seqid: OwnerSeqid,
        fileid: fileid4,
        mode: OpenMode,
    ) -> (StateView<H>, Res<OpenPlan>) {
        let key = (cid, owner, fileid);
        match self.owner_check(cid, owner, seqid) {
            Err(e) => (self.owner_checked(cid, owner, seqid), Err(e)),
            // A replayed failure is still a failure.
            Ok(OwnerSeq::Replay(Err(e))) => (self, Err(e)),
            // The reply was lost, so the flag it carried is repeated too.
            Ok(OwnerSeq::Replay(Ok(stateid))) => (
                self,
                Ok(OpenPlan::Done(Opened { stateid, confirm_required: self.confirm_needed(cid, owner) })),
            ),
            Ok(OwnerSeq::Fresh) => if self.open_index.contains_key(key)
                && self.opens[self.open_index[key]].mode.serves(mode) {
                let other = self.open_index[key];
                let s = self.bumped_open(other);
                let (t, opened) = s.open_finished(cid, owner, seqid, s.current_stateid(other));
                (t, Ok(OpenPlan::Done(opened)))
            } else {
                (self, Ok(OpenPlan::NeedHandle(mode)))
            },
        }
    }

    /// A handle opened in `mode` reaches the open state `other`: it replaces a
    /// weaker one and is dropped beside one that is as strong.
    pub open spec fn upgraded(self, other: Other, mode: OpenMode, fh: H) -> StateView<H> {
        let o = self.opens[other];
        let n = if o.mode.serves(mode) {
            o
        } else {
            OpenView { mode, fh, ..o }
        };
        StateView { opens: self.opens.insert(other, n), ..self }
    }

    /// A new open state.
    pub open spec fn opened(
        self,
        cid: clientid4,
        owner: Seq<u8>,
        fileid: fileid4,
        mode: OpenMode,
        fh: H,
        other: Other,
    ) -> StateView<H> {
        StateView {
            opens: self.opens.insert(other, OpenView { clientid: cid, owner, fileid, seqid: 1, mode, fh }),
            open_index: self.open_index.insert((cid, owner, fileid), other),
            ..self
        }
    }

    /// Install a freshly opened handle. `drawn` is looked at only where the
    /// file has no open state yet.
    pub open spec fn open_commit(
        self,
        cid: clientid4,
        owner: Seq<u8>,
        seqid: OwnerSeqid,
        fileid: fileid4,
        mode: OpenMode,
        fh: H,
        now: u64,
        drawn: Res<Other>,
    ) -> (StateView<H>, Res<Opened>) {
        match self.client_status(cid, now) {
            Err(e) => (self.looked_up(cid, now), Err(e)),
            Ok(_) => {
                let key = (cid, owner, fileid);
                if self.open_index.contains_key(key) {
                    let other = self.open_index[key];
                    let s = self.upgraded(other, mode, fh).bumped_open(other);
                    let (t, opened) = s.open_finished(cid, owner, seqid, s.current_stateid(other));
                    (t, Ok(opened))
                } else {
                    match drawn {
                        Err(e) => (self, Err(e)),
                        Ok(other) => {
                            let s = self.opened(cid, owner, fileid, mode, fh, other);
                            let (t, opened) = s.open_finished(cid, owner, seqid, s.current_stateid(other));
                            (t, Ok(opened))
                        },
                    }
                }
            },
        }
    }

    /// What is left of an OPEN once the file system has answered: a handle is
    /// installed, and a failure of either consumes the client's seqid.
    pub open spec fn open_finish(
        self,
        cid: clientid4,
        owner: Seq<u8>,
        seqid: OwnerSeqid,
        fileid: fileid4,
        mode: OpenMode,
        handle: Res<H>,
        now: u64,
        drawn: Res<Other>,
    ) -> (StateView<H>, Res<Opened>) {
        match handle {
            Err(e) => (self.replied(cid, owner, seqid, Err(e)), Err(e)),
            Ok(fh) => {
                let (s, r) = self.open_commit(cid, owner, seqid, fileid, mode, fh, now, drawn);
                match r {
                    Ok(opened) => (s, Ok(opened)),
                    Err(e) => (s.replied(cid, owner, seqid, Err(e)), Err(e)),
                }
            },
        }
    }

    // -- OPEN_CONFIRM and CLOSE --

    /// With an open-owner marked as confirmed.
    pub open spec fn owner_confirmed(self, cid: clientid4, owner: Seq<u8>) -> StateView<H> {
        let c = self.clients[cid];
        self.with_client(cid, c.with_open_owner(owner, OwnerView { confirmed: true, ..c.open_owner(owner) }))
    }

    /// OPEN_CONFIRM on a fresh seqid.
    pub open spec fn confirmed_fresh(self, other: Other, seqid: Option<u32>) -> (StateView<H>, OwnerReply) {
        let o = self.opens[other];
        match seqid_status(o.seqid, seqid) {
            Err(e) => (self, Err(e)),
            Ok(_) => {
                let s = self.bumped_open(other);
                (s.owner_confirmed(o.clientid, o.owner), Ok(s.current_stateid(other)))
            },
        }
    }

    /// OPEN_CONFIRM. 4.0 only. The open-owner seqid is checked before the
    /// stateid: this op bumps the stateid, so a retransmit
    /// necessarily carries the superseded one and must replay.
    pub open spec fn open_confirm(self, sid: stateid4, seqid: seqid4, now: u64) -> (StateView<H>, OwnerReply) {
        match state_ref(sid) {
            StateRef::Open { other, seqid: version } => if !self.opens.contains_key(other) {
                (self, Err(nfsstat4::NFS4ERR_BAD_STATEID))
            } else {
                let cid = self.opens[other].clientid;
                let owner = self.opens[other].owner;
                match self.client_status(cid, now) {
                    Err(e) => (self.looked_up(cid, now), Err(e)),
                    Ok(_) => if self.clients[cid].kind.minor() == Minor::V41 {
                        (self, Err(nfsstat4::NFS4ERR_STALE_CLIENTID))
                    } else {
                        let s = self.renewed(cid, now);
                        let q = OwnerSeqid::V40(seqid);
                        match s.owner_check(cid, owner, q) {
                            Err(e) => (s.owner_checked(cid, owner, q), Err(e)),
                            Ok(OwnerSeq::Replay(reply)) => (s, reply),
                            Ok(OwnerSeq::Fresh) => {
                                let (t, reply) = s.confirmed_fresh(other, version);
                                (t.replied(cid, owner, q, reply), reply)
                            },
                        }
                    },
                }
            },
            _ => (self, Err(nfsstat4::NFS4ERR_BAD_STATEID)),
        }
    }

    /// Without an open state.
    pub open spec fn without_open(self, other: Other) -> StateView<H> {
        let o = self.opens[other];
        StateView {
            opens: self.opens.remove(other),
            open_index: self.open_index.remove((o.clientid, o.owner, o.fileid)),
            ..self
        }
    }

    /// With `other` as an open-owner's just-closed state, in place of any
    /// earlier one. 4.0 only.
    pub open spec fn retired_open(self, cid: clientid4, owner: Seq<u8>, other: Other) -> StateView<H> {
        if !self.clients.contains_key(cid) || self.clients[cid].kind.minor() == Minor::V41 {
            self
        } else {
            let c = self.clients[cid];
            let r = c.open_owner(owner);
            let s = self.with_client(cid, c.with_open_owner(owner, OwnerView { retired: Some(other), ..r }));
            let left = match r.retired {
                Some(previous) => s.retired.remove(previous),
                None => s.retired,
            };
            StateView { retired: left.insert(other, (cid, owner)), ..s }
        }
    }

    /// CLOSE on a fresh seqid: the whole open state goes.
    pub open spec fn closed_fresh(
        self,
        cid: clientid4,
        owner: Seq<u8>,
        other: Other,
        seqid: Option<u32>,
    ) -> (StateView<H>, OwnerReply) {
        if !self.opens.contains_key(other) {
            // Already closed: nothing to release.
            (self, Err(nfsstat4::NFS4ERR_BAD_STATEID))
        } else {
            match seqid_status(self.opens[other].seqid, seqid) {
                Err(e) => (self, Err(e)),
                Ok(_) => (
                    self.without_open(other).retired_open(cid, owner, other),
                    Ok(stateid4 { seqid: bumped(self.opens[other].seqid), other }),
                ),
            }
        }
    }

    /// Whose state `other` is or, just closed, was.
    pub open spec fn holder(self, other: Other) -> Option<(clientid4, Seq<u8>)> {
        if self.opens.contains_key(other) {
            Some((self.opens[other].clientid, self.opens[other].owner))
        } else if self.retired.contains_key(other) {
            Some(self.retired[other])
        } else {
            None
        }
    }

    /// CLOSE. Releases the whole open state and answers with the bumped stateid.
    pub open spec fn close(self, sid: stateid4, seqid: OwnerSeqid, now: u64) -> (StateView<H>, OwnerReply) {
        match state_ref(sid) {
            StateRef::Open { other, seqid: version } => match self.holder(other) {
                None => (self, Err(nfsstat4::NFS4ERR_BAD_STATEID)),
                Some((cid, owner)) => match self.client_status(cid, now) {
                    Err(e) => (self.looked_up(cid, now), Err(e)),
                    Ok(_) => {
                        let s = self.renewed(cid, now);
                        match s.owner_check(cid, owner, seqid) {
                            Err(e) => (s.owner_checked(cid, owner, seqid), Err(e)),
                            Ok(OwnerSeq::Replay(reply)) => (s, reply),
                            Ok(OwnerSeq::Fresh) => {
                                let (t, reply) = s.closed_fresh(cid, owner, other, version);
                                (t.replied(cid, owner, seqid, reply), reply)
                            },
                        }
                    },
                },
            },
            _ => (self, Err(nfsstat4::NFS4ERR_BAD_STATEID)),
        }
    }

    /// What a stateid resolves to for READ, WRITE and the like.
    pub open spec fn resolve(self, sid: stateid4) -> Res<ResolvedView<H>> {
        match state_ref(sid) {
            StateRef::Anonymous => Ok(ResolvedView::Anonymous),
            StateRef::Bypass => Ok(ResolvedView::Bypass),
            StateRef::Open { other, seqid } => if !self.opens.contains_key(other) {
                Err(nfsstat4::NFS4ERR_BAD_STATEID)
            } else {
                let o = self.opens[other];
                match seqid_status(o.seqid, seqid) {
                    Err(e) => Err(e),
                    Ok(_) => Ok(ResolvedView::Open { fileid: o.fileid, fh: o.fh, mode: o.mode }),
                }
            },
        }
    }

    // -- NFSv4.1: clientid and sessions --

    /// The registration that an EXCHANGE_ID repeats: same owner, same verifier,
    /// lease not lapsed. A changed verifier means that the client rebooted.
    pub open spec fn registration(self, ownerid: Seq<u8>, verifier: verifier4, now: u64) -> Option<
        (clientid4, sequenceid4),
    > {
        let owner = (Minor::V41, ownerid);
        if !self.by_owner.contains_key(owner) {
            None
        } else {
            let cid = self.by_owner[owner];
            let c = self.clients[cid];
            if c.verifier == verifier && c.is_live(now, self.lease) {
                match c.kind {
                    KindView::V41 { create_session_seq, .. } => Some((cid, create_session_seq)),
                    KindView::V40 { .. } => None,
                }
            } else {
                None
            }
        }
    }

    /// EXCHANGE_ID. Answers with the clientid and the next CREATE_SESSION
    /// sequenceid. `drawn` is looked at only for a new registration.
    pub open spec fn exchange_id(
        self,
        ownerid: Seq<u8>,
        verifier: verifier4,
        now: u64,
        drawn: Res<clientid4>,
    ) -> (StateView<H>, Res<(clientid4, sequenceid4)>) {
        match self.registration(ownerid, verifier, now) {
            Some(r) => (self, Ok(r)),
            None => match drawn {
                Err(e) => (self, Err(e)),
                Ok(cid) => (
                    self.installed(
                        (Minor::V41, ownerid),
                        verifier,
                        KindView::V41 { create_session_seq: 1, sessions: Seq::empty() },
                        now,
                        cid,
                    ),
                    Ok((cid, 1)),
                ),
            },
        }
    }

    /// With a new session of a 4.1 client.
    pub open spec fn session_made(
        self,
        cid: clientid4,
        slots: u32,
        max_cached: u32,
        id: sessionid4,
    ) -> StateView<H> {
        let c = self.clients[cid];
        let (seq, ids) = match c.kind {
            KindView::V41 { create_session_seq, sessions } => (create_session_seq, sessions),
            KindView::V40 { .. } => (0, Seq::empty()),
        };
        StateView {
            sessions: self.sessions.insert(
                id,
                SessionView {
                    clientid: cid,
                    slots: Seq::new(slots_granted(slots) as nat, |i: int| SlotView::unused()),
                    max_cached,
                },
            ),
            clients: self.clients.insert(
                cid,
                ClientView {
                    kind: KindView::V41 { create_session_seq: wrap_next(seq), sessions: ids.push(id) },
                    made: Some(id),
                    ..c
                },
            ),
            ..self
        }
    }

    /// CREATE_SESSION. With the sequence of the last one it is a replay, and names
    /// the session that one made; where that session is gone, there is nothing to
    /// replay. `drawn` is looked at only where a session is made.
    pub open spec fn create_session(
        self,
        cid: clientid4,
        sequence: sequenceid4,
        slots: u32,
        max_cached: u32,
        now: u64,
        drawn: Res<sessionid4>,
    ) -> (StateView<H>, Res<CreateSession>) {
        match self.client_status(cid, now) {
            Err(e) => (self.looked_up(cid, now), Err(e)),
            Ok(_) => {
                let s = self.renewed(cid, now);
                match self.clients[cid].kind {
                    KindView::V40 { .. } => (s, Err(nfsstat4::NFS4ERR_STALE_CLIENTID)),
                    KindView::V41 { create_session_seq, .. } => if sequence == wrap_prev(create_session_seq) {
                        // Replay of the previous CREATE_SESSION.
                        match self.clients[cid].made {
                            Some(id) => (s, Ok(CreateSession::Replay(id))),
                            None => (s, Err(nfsstat4::NFS4ERR_SEQ_MISORDERED)),
                        }
                    } else if sequence != create_session_seq {
                        (s, Err(nfsstat4::NFS4ERR_SEQ_MISORDERED))
                    } else {
                        match drawn {
                            Err(e) => (s, Err(e)),
                            Ok(id) => (s.session_made(cid, slots, max_cached, id), Ok(CreateSession::New(id))),
                        }
                    },
                }
            },
        }
    }

    /// The client that owns a session.
    pub open spec fn session_client(self, id: sessionid4) -> Res<clientid4> {
        if self.sessions.contains_key(id) {
            Ok(self.sessions[id].clientid)
        } else {
            Err(nfsstat4::NFS4ERR_BADSESSION)
        }
    }

    pub open spec fn with_slot(self, id: sessionid4, slot: int, v: SlotView) -> StateView<H> {
        let s = self.sessions[id];
        StateView {
            sessions: self.sessions.insert(id, SessionView { slots: s.slots.update(slot, v), ..s }),
            ..self
        }
    }

    /// SEQUENCE slot check. Renews the lease on any accepted request.
    pub open spec fn sequence(self, id: sessionid4, slot: u32, seqid: sequenceid4, now: u64) -> (
        StateView<H>,
        Res<SequenceView>,
    ) {
        if !self.sessions.contains_key(id) {
            (self, Err(nfsstat4::NFS4ERR_BADSESSION))
        } else {
            let cid = self.sessions[id].clientid;
            if self.client_status(cid, now) is Err {
                // An expired client takes its sessions with it.
                (self.looked_up(cid, now), Err(nfsstat4::NFS4ERR_BADSESSION))
            } else if slot >= self.sessions[id].slots.len() {
                (self, Err(nfsstat4::NFS4ERR_BADSLOT))
            } else {
                let v = self.sessions[id].slots[slot as int];
                if seqid == v.last_seqid {
                    match v.cached {
                        Some(reply) => (self.renewed(cid, now), Ok(SequenceView::Replay(reply))),
                        None => (self.renewed(cid, now), Ok(SequenceView::RetryUncached)),
                    }
                } else if seqid == wrap_next(v.last_seqid) {
                    (
                        self.with_slot(id, slot as int, SlotView { last_seqid: seqid, cached: None }).renewed(cid, now),
                        Ok(SequenceView::New),
                    )
                } else {
                    (self, Err(nfsstat4::NFS4ERR_SEQ_MISORDERED))
                }
            }
        }
    }

    /// With the encoded reply of a slot's last request. Oversized replies are
    /// not kept, nor the reply to a request that is not the slot's last.
    pub open spec fn reply_cached(self, id: sessionid4, slot: u32, seqid: sequenceid4, reply: Seq<u8>) -> StateView<
        H,
    > {
        if !self.sessions.contains_key(id) {
            self
        } else {
            let s = self.sessions[id];
            if reply.len() > s.max_cached || slot >= s.slots.len() || s.slots[slot as int].last_seqid != seqid {
                self
            } else {
                self.with_slot(id, slot as int, SlotView { last_seqid: seqid, cached: Some(reply) })
            }
        }
    }

    /// DESTROY_SESSION.
    pub open spec fn destroy_session(self, id: sessionid4) -> (StateView<H>, Res<()>) {
        if !self.sessions.contains_key(id) {
            (self, Err(nfsstat4::NFS4ERR_BADSESSION))
        } else {
            let cid = self.sessions[id].clientid;
            let s = StateView { sessions: self.sessions.remove(id), ..self };
            let c = self.clients[cid];
            match c.kind {
                KindView::V41 { create_session_seq, sessions } if self.clients.contains_key(cid) => (
                    s.with_client(
                        cid,
                        ClientView {
                            kind: KindView::V41 {
                                create_session_seq,
                                sessions: without_id(sessions, id),
                            },
                            made: if c.made == Some(id) {
                                None
                            } else {
                                c.made
                            },
                            ..c
                        },
                    ),
                    Ok(()),
                ),
                _ => (s, Ok(())),
            }
        }
    }

    /// DESTROY_CLIENTID.
    pub open spec fn destroy_clientid(self, cid: clientid4) -> (StateView<H>, Res<()>) {
        if !self.clients.contains_key(cid) {
            (self, Err(nfsstat4::NFS4ERR_STALE_CLIENTID))
        } else if self.clients[cid].kind.minor() == Minor::V41 && self.clients[cid].is_confirmed() {
            (self, Err(nfsstat4::NFS4ERR_CLIENTID_BUSY))
        } else {
            (self.without_client(cid), Ok(()))
        }
    }

    /// RENEW.
    pub open spec fn renew(self, cid: clientid4, now: u64) -> (StateView<H>, Res<()>) {
        match self.client_status(cid, now) {
            Err(e) => (self.looked_up(cid, now), Err(e)),
            Ok(_) => (self.renewed(cid, now), Ok(())),
        }
    }

    /// RECLAIM_COMPLETE. Nothing to reclaim without persistent state, so this
    /// only validates the session and renews the lease.
    pub open spec fn reclaim_complete(self, id: sessionid4, now: u64) -> (StateView<H>, Res<()>) {
        match self.session_client(id) {
            Err(e) => (self, Err(e)),
            Ok(cid) => self.renew(cid, now),
        }
    }

    // -- NFSv4.0: clientid --

    /// SETCLIENTID. Always issues a fresh clientid and replaces any previous
    /// record for this owner.
    pub open spec fn setclientid(
        self,
        ownerid: Seq<u8>,
        verifier: verifier4,
        now: u64,
        cid: clientid4,
        confirm: verifier4,
    ) -> StateView<H> {
        self.installed(
            (Minor::V40, ownerid),
            verifier,
            KindView::V40 { confirm_verifier: confirm, confirmed: false },
            now,
            cid,
        )
    }

    /// SETCLIENTID_CONFIRM. Idempotent, so retransmits succeed.
    pub open spec fn setclientid_confirm(self, cid: clientid4, confirm: verifier4, now: u64) -> (
        StateView<H>,
        Res<()>,
    ) {
        match self.client_status(cid, now) {
            Err(e) => (self.looked_up(cid, now), Err(e)),
            Ok(_) => match self.clients[cid].kind {
                KindView::V41 { .. } => (self, Err(nfsstat4::NFS4ERR_STALE_CLIENTID)),
                KindView::V40 { confirm_verifier, .. } => if confirm_verifier != confirm {
                    (self, Err(nfsstat4::NFS4ERR_CLID_INUSE))
                } else {
                    (
                        self.with_client(
                            cid,
                            ClientView {
                                kind: KindView::V40 { confirm_verifier, confirmed: true },
                                last_renewed: now,
                                ..self.clients[cid]
                            },
                        ),
                        Ok(()),
                    )
                },
            },
        }
    }
}

// ---------------------------------------------------------------- invariants

impl<H> StateView<H> {
    /// An open state belongs to a client, and the index leads to it.
    pub open spec fn open_indexed(self, other: Other) -> bool {
        let o = self.opens[other];
        let key = (o.clientid, o.owner, o.fileid);
        &&& self.clients.contains_key(o.clientid)
        &&& self.open_index.contains_key(key)
        &&& self.open_index[key] == other
        &&& o.seqid != 0
    }

    pub open spec fn opens_indexed(self) -> bool {
        forall|other: Other| #[trigger] self.opens.contains_key(other) ==> self.open_indexed(other)
    }

    /// The index leads to an open state, under its own key.
    pub open spec fn key_leads_to_open(self, key: (clientid4, Seq<u8>, fileid4)) -> bool {
        let o = self.opens[self.open_index[key]];
        &&& self.opens.contains_key(self.open_index[key])
        &&& key == (o.clientid, o.owner, o.fileid)
    }

    pub open spec fn index_points_to_opens(self) -> bool {
        forall|key: (clientid4, Seq<u8>, fileid4)| #[trigger]
            self.open_index.contains_key(key) ==> self.key_leads_to_open(key)
    }

    /// A session belongs to a 4.1 client that lists it.
    pub open spec fn session_owned(self, id: sessionid4) -> bool {
        let s = self.sessions[id];
        &&& self.clients.contains_key(s.clientid)
        &&& self.clients[s.clientid].kind matches KindView::V41 { sessions, .. } && sessions.contains(id)
        &&& 1 <= s.slots.len() <= MAX_SLOTS
    }

    pub open spec fn sessions_owned(self) -> bool {
        forall|id: sessionid4| #[trigger] self.sessions.contains_key(id) ==> self.session_owned(id)
    }

    /// The register of owners leads to a client of that owner.
    pub open spec fn owner_leads_to_client(self, owner: (Minor, Seq<u8>)) -> bool {
        &&& self.clients.contains_key(self.by_owner[owner])
        &&& self.clients[self.by_owner[owner]].owner == owner
    }

    pub open spec fn register_points_to_clients(self) -> bool {
        forall|owner: (Minor, Seq<u8>)| #[trigger]
            self.by_owner.contains_key(owner) ==> self.owner_leads_to_client(owner)
    }

    /// A client has an id of this boot, is registered under its owner, lists
    /// sessions only if it is a 4.1 client, among them the one that it made last,
    /// and open-owners only if it is a 4.0 client.
    pub open spec fn client_sound(self, cid: clientid4) -> bool {
        let c = self.clients[cid];
        &&& self.by_owner.contains_key(c.owner)
        &&& self.by_owner[c.owner] == cid
        &&& c.owner.0 == c.kind.minor()
        &&& cid / 0x1_0000_0000 == self.epoch
        &&& match c.kind {
            KindView::V40 { .. } => c.made is None,
            KindView::V41 { sessions, .. } => {
                &&& c.made matches Some(id) ==> sessions.contains(id)
                &&& c.open_owners == Map::<Seq<u8>, OwnerView>::empty()
                &&& sessions.no_duplicates()
                &&& forall|i: int|
                    0 <= i < sessions.len() ==> self.sessions.contains_key(#[trigger] sessions[i])
                        && self.sessions[sessions[i]].clientid == cid
            },
        }
    }

    pub open spec fn clients_sound(self) -> bool {
        forall|cid: clientid4| #[trigger] self.clients.contains_key(cid) ==> self.client_sound(cid)
    }

    /// A tombstone is the one of its open-owner, and its state is gone.
    pub open spec fn tombstone_owned(self, other: Other) -> bool {
        let (cid, owner) = self.retired[other];
        &&& self.clients.contains_key(cid)
        &&& self.clients[cid].kind.minor() == Minor::V40
        &&& self.clients[cid].open_owners.contains_key(owner)
        &&& self.clients[cid].open_owners[owner].retired == Some(other)
        &&& !self.opens.contains_key(other)
    }

    pub open spec fn tombstones_owned(self) -> bool {
        forall|other: Other| #[trigger] self.retired.contains_key(other) ==> self.tombstone_owned(other)
    }

    /// An open-owner's tombstone is listed.
    pub open spec fn tombstone_listed(self, cid: clientid4, owner: Seq<u8>) -> bool {
        match self.clients[cid].open_owners[owner].retired {
            None => true,
            Some(other) => self.retired.contains_key(other) && self.retired[other] == (cid, owner),
        }
    }

    pub open spec fn tombstones_listed(self) -> bool {
        forall|cid: clientid4, owner: Seq<u8>|
            self.clients.contains_key(cid) && #[trigger] self.clients[cid].open_owners.contains_key(owner)
                ==> self.tombstone_listed(cid, owner)
    }

    /// What holds of the state between any two requests.
    pub open spec fn inv(self) -> bool {
        &&& self.opens_indexed()
        &&& self.index_points_to_opens()
        &&& self.sessions_owned()
        &&& self.register_points_to_clients()
        &&& self.clients_sound()
        &&& self.tombstones_owned()
        &&& self.tombstones_listed()
    }
}

} // verus!
