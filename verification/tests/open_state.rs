use std::cell::RefCell;
use std::rc::Rc;

use nfs4_server::nfs4::state::{check_seqid, ClientKind, ManagedFileHandle, NFS4State, Resolved, Sequence, V40, V41};
use nfs4_server::nfs4::state_spec::{CreateSession, Minor, OpenPlan, OwnerSeq, OwnerSeqid};
use nfs4_server::nfs4::{clientid4, nfsstat4, stateid4, NFS4_OTHER_SIZE};
use nfs4_server::vfs::OpenMode;

const SECOND: u64 = 1_000_000_000;
const LEASE: u64 = 90 * SECOND;

/// A handle that tells when it is let go.
struct Closing {
    fh: u64,
    closed: Rc<RefCell<Vec<u64>>>,
}

impl Drop for Closing {
    fn drop(&mut self) {
        self.closed.borrow_mut().push(self.fh);
    }
}

type State = NFS4State<Closing>;
type Handle = ManagedFileHandle<Closing>;

fn handle() -> Handle {
    ManagedFileHandle::new(Closing { fh: 7, closed: Rc::new(RefCell::new(Vec::new())) })
}

fn tracked_handle(fh: u64) -> (Handle, Rc<RefCell<Vec<u64>>>) {
    let closed = Rc::new(RefCell::new(Vec::new()));
    (ManagedFileHandle::new(Closing { fh, closed: closed.clone() }), closed)
}

fn inner() -> State {
    NFS4State::new(LEASE, 0x1234_5678)
}

fn confirmed_v40_client(inner: &mut State, now: u64) -> clientid4 {
    let kind = ClientKind::V40(V40 { confirm_verifier: [0; 8], confirmed: true });
    inner.install_client((Minor::V40, b"owner".to_vec()), [0; 8], kind, now).unwrap()
}

/// A 4.1 client is confirmed by owning a session, so give it one.
fn confirmed_v41_client(inner: &mut State, now: u64) -> clientid4 {
    let kind = ClientKind::V41(V41 { create_session_seq: 1, sessions: Vec::new() });
    let cid = inner.install_client((Minor::V41, b"owner41".to_vec()), [0; 8], kind, now).unwrap();
    assert!(matches!(inner.create_session(cid, 1, 1, 4096, now), Ok(CreateSession::New(_))));
    cid
}

#[test]
fn repeat_open_upgrades_one_state() {
    let now = 5 * SECOND;
    let mut inner = inner();
    let cid = confirmed_v40_client(&mut inner, now);

    let first = inner
        .open_commit(cid, b"oo", OwnerSeqid::V40(1), 42, OpenMode::ReadOnly, handle(), now)
        .unwrap();
    assert!(first.confirm_required, "a new 4.0 open-owner needs OPEN_CONFIRM");

    assert!(matches!(
        inner.open_plan(cid, b"oo", OwnerSeqid::V40(2), 42, OpenMode::ReadWrite, now),
        Ok(OpenPlan::NeedHandle(OpenMode::ReadWrite))
    ));
    let second = inner
        .open_commit(cid, b"oo", OwnerSeqid::V40(2), 42, OpenMode::ReadWrite, handle(), now)
        .unwrap();

    assert_eq!(first.stateid.other, second.stateid.other, "one state per (owner, file)");
    assert_eq!(second.stateid.seqid, 2);
    assert_eq!(inner.census().opens, 1);
    assert_eq!(inner.open_version(&second.stateid.other), Some((2, OpenMode::ReadWrite)));

    // A ReadOnly OPEN is now satisfied without touching the file system.
    assert!(matches!(
        inner.open_plan(cid, b"oo", OwnerSeqid::V40(3), 42, OpenMode::ReadOnly, now),
        Ok(OpenPlan::Done(_))
    ));

    inner.remove_open(&second.stateid.other);
    assert!(inner.census().opens == 0 && inner.census().indexed == 0);
    assert!(inner.invariants_hold());
}

#[test]
fn v41_close_releases_the_handle_despite_a_stale_wire_seqid() {
    let now = 5 * SECOND;
    let mut inner = inner();
    let cid = confirmed_v41_client(&mut inner, now);
    let (fh, closed) = tracked_handle(11);

    // Both ops carry the same seqid, as a 4.1 client is entitled to.
    let opened = inner
        .open_commit(cid, b"oo", OwnerSeqid::V40(1), 42, OpenMode::ReadWrite, fh, now)
        .unwrap();
    assert!(!opened.confirm_required, "4.1 has no OPEN_CONFIRM");
    assert!(closed.borrow().is_empty(), "handle must stay open while the state lives");

    let closed_sid = inner.close(&opened.stateid, OwnerSeqid::V40(1), now).unwrap();
    assert_eq!(closed_sid.other, opened.stateid.other);
    assert_eq!(closed_sid.seqid, 2, "CLOSE bumps the stateid; it did not replay the OPEN");
    assert!(inner.census().opens == 0 && inner.census().indexed == 0);
    assert_eq!(*closed.borrow(), vec![11], "CLOSE must hand the handle to the closer");
    assert_eq!(inner.census().retired, 0, "4.1 needs no CLOSE tombstone");
    assert!(inner.invariants_hold());
}

#[test]
fn v41_open_of_a_second_file_is_not_a_replay() {
    let now = 5 * SECOND;
    let mut inner = inner();
    let cid = confirmed_v41_client(&mut inner, now);

    let a = inner
        .open_commit(cid, b"oo", OwnerSeqid::V40(1), 42, OpenMode::ReadOnly, handle(), now)
        .unwrap();
    assert!(matches!(
        inner.open_plan(cid, b"oo", OwnerSeqid::V40(1), 43, OpenMode::ReadOnly, now),
        Ok(OpenPlan::NeedHandle(OpenMode::ReadOnly))
    ));
    let b = inner
        .open_commit(cid, b"oo", OwnerSeqid::V40(1), 43, OpenMode::ReadOnly, handle(), now)
        .unwrap();

    assert_ne!(a.stateid.other, b.stateid.other, "one state per file, not per open-owner");
    assert_eq!(inner.census().opens, 2);
    assert!(inner.invariants_hold());
}

#[test]
fn v41_keeps_no_open_owner_state() {
    let now = 5 * SECOND;
    let mut inner = inner();
    let cid = confirmed_v41_client(&mut inner, now);
    inner
        .open_commit(cid, b"oo", OwnerSeqid::V40(1), 42, OpenMode::ReadOnly, handle(), now)
        .unwrap();

    assert_eq!(inner.open_owner_count(cid), Some(0));
    assert!(matches!(inner.check_owner_seqid(cid, b"oo", OwnerSeqid::V40(1)), Ok(OwnerSeq::Fresh)));
    assert!(matches!(inner.check_owner_seqid(cid, b"oo", OwnerSeqid::V41), Ok(OwnerSeq::Fresh)));
}

#[test]
fn v41_cannot_open_confirm() {
    let now = 5 * SECOND;
    let mut inner = inner();
    let cid = confirmed_v41_client(&mut inner, now);
    let opened = inner
        .open_commit(cid, b"oo", OwnerSeqid::V41, 42, OpenMode::ReadOnly, handle(), now)
        .unwrap();

    assert_eq!(inner.open_confirm(&opened.stateid, 1, now), Err(nfsstat4::NFS4ERR_STALE_CLIENTID));
}

#[test]
fn stale_stateid_seqid_is_rejected() {
    let now = 5 * SECOND;
    let mut inner = inner();
    let cid = confirmed_v40_client(&mut inner, now);
    let opened = inner
        .open_commit(cid, b"oo", OwnerSeqid::V40(1), 42, OpenMode::ReadOnly, handle(), now)
        .unwrap();

    let (current, _) = inner.open_version(&opened.stateid.other).unwrap();
    assert_eq!(check_seqid(current, None), Ok(())); // 0 == current
    assert_eq!(check_seqid(current, Some(1)), Ok(()));
    assert_eq!(check_seqid(current, Some(2)), Err(nfsstat4::NFS4ERR_BAD_STATEID));

    // OPEN_CONFIRM bumps the stateid.
    inner.open_confirm(&opened.stateid, 2, now).unwrap();
    let (current, _) = inner.open_version(&opened.stateid.other).unwrap();
    assert_eq!(check_seqid(current, Some(1)), Err(nfsstat4::NFS4ERR_OLD_STATEID));
}

#[test]
fn owner_seqid_detects_retransmits() {
    let now = 5 * SECOND;
    let mut inner = inner();
    let cid = confirmed_v40_client(&mut inner, now);
    let opened = inner
        .open_commit(cid, b"oo", OwnerSeqid::V40(5), 42, OpenMode::ReadOnly, handle(), now)
        .unwrap();

    // Same seqid: replay the recorded reply, do not re-open.
    assert_eq!(inner.check_owner_seqid(cid, b"oo", OwnerSeqid::V40(5)), Ok(OwnerSeq::Replay(Ok(opened.stateid))));
    assert_eq!(inner.check_owner_seqid(cid, b"oo", OwnerSeqid::V40(6)), Ok(OwnerSeq::Fresh));
    assert_eq!(inner.check_owner_seqid(cid, b"oo", OwnerSeqid::V40(9)), Err(nfsstat4::NFS4ERR_BAD_SEQID));
}

#[test]
fn failed_op_still_consumes_the_owner_seqid() {
    let now = 5 * SECOND;
    let mut inner = inner();
    let cid = confirmed_v40_client(&mut inner, now);
    inner
        .open_commit(cid, b"oo", OwnerSeqid::V40(1), 42, OpenMode::ReadOnly, handle(), now)
        .unwrap();

    // e.g. a failure of the file system, or a rejected OPEN_DOWNGRADE.
    assert_eq!(
        inner.record_owner_failure(cid, b"oo", OwnerSeqid::V40(2), nfsstat4::NFS4ERR_ACCESS),
        nfsstat4::NFS4ERR_ACCESS
    );

    assert_eq!(inner.check_owner_seqid(cid, b"oo", OwnerSeqid::V40(3)), Ok(OwnerSeq::Fresh));
    // ...and the retransmit of the failure replays the same error.
    assert_eq!(
        inner.check_owner_seqid(cid, b"oo", OwnerSeqid::V40(2)),
        Ok(OwnerSeq::Replay(Err(nfsstat4::NFS4ERR_ACCESS)))
    );
    assert!(inner.invariants_hold());
}

#[test]
fn retained_errors_do_not_consume_the_owner_seqid() {
    let now = 5 * SECOND;
    let mut inner = inner();
    let cid = confirmed_v40_client(&mut inner, now);
    inner
        .open_commit(cid, b"oo", OwnerSeqid::V40(1), 42, OpenMode::ReadOnly, handle(), now)
        .unwrap();

    for status in [
        nfsstat4::NFS4ERR_BAD_STATEID,
        nfsstat4::NFS4ERR_STALE_STATEID,
        nfsstat4::NFS4ERR_BAD_SEQID,
        nfsstat4::NFS4ERR_NOFILEHANDLE,
    ] {
        inner.record_owner_failure(cid, b"oo", OwnerSeqid::V40(2), status);
        // Still expecting 2: nothing was consumed.
        assert_eq!(
            inner.check_owner_seqid(cid, b"oo", OwnerSeqid::V40(2)),
            Ok(OwnerSeq::Fresh),
            "{status:?} must not advance the mirror"
        );
    }
    assert!(inner.invariants_hold());
}

#[test]
fn failed_op_does_not_desync_the_owner_seqid() {
    let now = 5 * SECOND;
    let mut inner = inner();
    let cid = confirmed_v40_client(&mut inner, now);
    let (fh, closed) = tracked_handle(11);

    let opened = inner
        .open_commit(cid, b"oo", OwnerSeqid::V40(1), 42, OpenMode::ReadWrite, fh, now)
        .unwrap();
    // OPEN_DOWNGRADE: unsupported, rejected, seqid consumed regardless.
    assert_eq!(
        inner.note_owner_rejection(cid, b"oo", OwnerSeqid::V40(2), nfsstat4::NFS4ERR_NOTSUPP, now),
        nfsstat4::NFS4ERR_NOTSUPP
    );
    // The CLOSE that used to fail with BAD_SEQID.
    let sid = inner.close(&opened.stateid, OwnerSeqid::V40(3), now).unwrap();
    assert_eq!(sid.other, opened.stateid.other);
    assert_eq!(*closed.borrow(), vec![11]);

    // And the reopen after it.
    assert!(matches!(
        inner.open_plan(cid, b"oo", OwnerSeqid::V40(4), 42, OpenMode::ReadWrite, now),
        Ok(OpenPlan::NeedHandle(OpenMode::ReadWrite))
    ));
    inner
        .open_commit(cid, b"oo", OwnerSeqid::V40(4), 42, OpenMode::ReadWrite, handle(), now)
        .unwrap();
    assert!(inner.invariants_hold());
}

#[test]
fn rejected_owner_op_replays() {
    let now = 5 * SECOND;
    let mut inner = inner();
    let cid = confirmed_v40_client(&mut inner, now);
    inner
        .open_commit(cid, b"oo", OwnerSeqid::V40(1), 42, OpenMode::ReadOnly, handle(), now)
        .unwrap();

    let seqid = OwnerSeqid::V40(2);
    assert_eq!(
        inner.note_owner_rejection(cid, b"oo", seqid, nfsstat4::NFS4ERR_NOTSUPP, now),
        nfsstat4::NFS4ERR_NOTSUPP
    );
    assert_eq!(
        inner.note_owner_rejection(cid, b"oo", seqid, nfsstat4::NFS4ERR_NOTSUPP, now),
        nfsstat4::NFS4ERR_NOTSUPP,
        "retransmit replays, it does not advance twice"
    );
    assert_eq!(inner.check_owner_seqid(cid, b"oo", OwnerSeqid::V40(3)), Ok(OwnerSeq::Fresh));
}

#[test]
fn v40_close_retransmit_replays() {
    let now = 5 * SECOND;
    let mut inner = inner();
    let cid = confirmed_v40_client(&mut inner, now);
    let (fh, closed) = tracked_handle(11);
    let opened = inner
        .open_commit(cid, b"oo", OwnerSeqid::V40(1), 42, OpenMode::ReadWrite, fh, now)
        .unwrap();

    let first = inner.close(&opened.stateid, OwnerSeqid::V40(2), now).unwrap();
    assert_eq!(*closed.borrow(), vec![11]);
    // The state is gone, so the retransmit is routed via the tombstone to
    // the open-owner record before it can reach the open states.
    assert_eq!(inner.close(&opened.stateid, OwnerSeqid::V40(2), now), Ok(first));
    assert_eq!(closed.borrow().len(), 1, "must not close twice");
    assert_eq!(inner.close(&opened.stateid, OwnerSeqid::V40(3), now), Err(nfsstat4::NFS4ERR_BAD_STATEID));
    assert!(inner.invariants_hold());
}

#[test]
fn close_tombstone_is_one_per_open_owner() {
    let now = 5 * SECOND;
    let mut inner = inner();
    let cid = confirmed_v40_client(&mut inner, now);

    let a = inner
        .open_commit(cid, b"oo", OwnerSeqid::V40(1), 42, OpenMode::ReadOnly, handle(), now)
        .unwrap();
    inner.close(&a.stateid, OwnerSeqid::V40(2), now).unwrap();
    let b = inner
        .open_commit(cid, b"oo", OwnerSeqid::V40(3), 43, OpenMode::ReadOnly, handle(), now)
        .unwrap();
    inner.close(&b.stateid, OwnerSeqid::V40(4), now).unwrap();

    assert_eq!(inner.census().retired, 1);
    assert!(inner.is_retired(&b.stateid.other));
    assert!(inner.invariants_hold());
}

#[test]
fn close_of_an_unknown_stateid_records_nothing() {
    let now = 5 * SECOND;
    let mut inner = inner();
    let cid = confirmed_v40_client(&mut inner, now);
    inner
        .open_commit(cid, b"oo", OwnerSeqid::V40(1), 42, OpenMode::ReadOnly, handle(), now)
        .unwrap();

    let bogus = stateid4 { seqid: 1, other: [0xab; NFS4_OTHER_SIZE] };
    assert_eq!(inner.close(&bogus, OwnerSeqid::V40(2), now), Err(nfsstat4::NFS4ERR_BAD_STATEID));
    assert_eq!(inner.check_owner_seqid(cid, b"oo", OwnerSeqid::V40(2)), Ok(OwnerSeq::Fresh));
    assert!(inner.invariants_hold());
}

#[test]
fn open_confirm_marks_the_owner_and_replays() {
    let now = 5 * SECOND;
    let mut inner = inner();
    let cid = confirmed_v40_client(&mut inner, now);
    let opened = inner
        .open_commit(cid, b"oo", OwnerSeqid::V40(1), 42, OpenMode::ReadOnly, handle(), now)
        .unwrap();
    assert!(opened.confirm_required);

    let confirmed = inner.open_confirm(&opened.stateid, 2, now).unwrap();
    assert_eq!(confirmed.other, opened.stateid.other);
    assert_eq!(confirmed.seqid, 2);
    assert_eq!(inner.open_confirm(&opened.stateid, 2, now), Ok(confirmed), "retransmit replays");

    // Confirmed once, so a later OPEN for this owner does not ask again.
    let again = inner
        .open_commit(cid, b"oo", OwnerSeqid::V40(3), 42, OpenMode::ReadOnly, handle(), now)
        .unwrap();
    assert!(!again.confirm_required);
    assert!(inner.invariants_hold());
}

#[test]
fn expiry_purges_everything_the_client_owned() {
    let now = 5 * SECOND;
    let mut inner = inner();
    let cid = confirmed_v40_client(&mut inner, now);
    let (fh, closed) = tracked_handle(11);
    let _opened = inner
        .open_commit(cid, b"oo", OwnerSeqid::V40(1), 42, OpenMode::ReadOnly, fh, now)
        .unwrap();
    // Leave a tombstone behind too, so its cleanup is covered.
    let (other_fh, _) = tracked_handle(12);
    let second = inner
        .open_commit(cid, b"oo", OwnerSeqid::V40(2), 43, OpenMode::ReadOnly, other_fh, now)
        .unwrap();
    inner.close(&second.stateid, OwnerSeqid::V40(3), now).unwrap();
    assert_ne!(inner.census().retired, 0);

    let later = now + LEASE + SECOND;
    assert_eq!(inner.check_client(cid, later).err(), Some(nfsstat4::NFS4ERR_EXPIRED));
    let left = inner.census();
    assert!(left.clients == 0 && left.opens == 0 && left.indexed == 0);
    assert!(left.owners == 0 && left.retired == 0);
    assert_eq!(*closed.borrow(), vec![11], "expiry must close the handle too");
    assert!(inner.invariants_hold());
}

#[test]
fn versions_do_not_share_an_owner_namespace() {
    let now = 5 * SECOND;
    let mut inner = inner();
    let a = inner
        .install_client(
            (Minor::V40, b"same".to_vec()),
            [0; 8],
            ClientKind::V40(V40 { confirm_verifier: [0; 8], confirmed: true }),
            now,
        )
        .unwrap();
    let b = inner
        .install_client(
            (Minor::V41, b"same".to_vec()),
            [0; 8],
            ClientKind::V41(V41 { create_session_seq: 1, sessions: Vec::new() }),
            now,
        )
        .unwrap();
    assert_ne!(a, b);
    assert_eq!(inner.census().clients, 2, "V40 and V41 owner ids are unrelated blobs");
    assert!(inner.invariants_hold());
}

#[test]
fn open_confirm_rejects_a_stale_stateid_on_a_fresh_seqid() {
    let now = 5 * SECOND;
    let mut inner = inner();
    let cid = confirmed_v40_client(&mut inner, now);
    let opened = inner
        .open_commit(cid, b"oo", OwnerSeqid::V40(1), 42, OpenMode::ReadOnly, handle(), now)
        .unwrap();
    inner.open_confirm(&opened.stateid, 2, now).unwrap();

    // `opened.stateid` is now one behind the open's seqid.
    assert_eq!(inner.open_confirm(&opened.stateid, 3, now), Err(nfsstat4::NFS4ERR_OLD_STATEID));
    assert_eq!(
        inner.check_owner_seqid(cid, b"oo", OwnerSeqid::V40(3)),
        Ok(OwnerSeq::Replay(Err(nfsstat4::NFS4ERR_OLD_STATEID))),
        "the failure was booked, so its retransmit replays"
    );
    assert_eq!(inner.check_owner_seqid(cid, b"oo", OwnerSeqid::V40(4)), Ok(OwnerSeq::Fresh));
    assert!(inner.invariants_hold());
}

// ---------------------------------------------------------------- more of the state

#[test]
fn clientids_carry_the_boot_and_differ() {
    let mut inner = inner();
    let a = inner.exchange_id(b"a", &[1; 8], 0).unwrap().0;
    let b = inner.exchange_id(b"b", &[1; 8], 0).unwrap().0;
    assert_eq!(a >> 32, 0x1234_5678);
    assert_eq!(b >> 32, 0x1234_5678);
    assert_ne!(a, b);
    assert_eq!(inner.boot_verifier(), 0x1234_5678);
    // A clientid of another boot is stale.
    assert_eq!(inner.check_client(a ^ (1 << 40), 0), Err(nfsstat4::NFS4ERR_STALE_CLIENTID));
}

#[test]
fn exchange_id_keeps_a_confirmed_client_and_replaces_a_rebooted_one() {
    let mut inner = inner();
    let (cid, seq) = inner.exchange_id(b"host", &[1; 8], 0).unwrap();
    assert_eq!(seq, 1);
    assert!(matches!(inner.create_session(cid, 1, 1, 4096, 0), Ok(CreateSession::New(_))));
    let (again, next) = inner.exchange_id(b"host", &[1; 8], 1).unwrap();
    assert_eq!((again, next), (cid, 2));

    let (fresh, seq) = inner.exchange_id(b"host", &[2; 8], 2).unwrap();
    assert_ne!(fresh, cid);
    assert_eq!(seq, 1);
    assert_eq!(inner.census().sessions, 0);
    assert_eq!(inner.check_client(cid, 2), Err(nfsstat4::NFS4ERR_STALE_CLIENTID));
    assert!(inner.invariants_hold());
}

#[test]
fn a_draw_makes_an_id_unless_it_is_taken() {
    let mut inner: State = NFS4State::new(LEASE, 7);
    assert_eq!(inner.clientid_drawn(5), Some(0x7_0000_0005));
    assert_eq!(inner.clientid_drawn(u32::MAX), Some(0x7_FFFF_FFFF));
    assert_eq!(inner.exchange_id_as(b"host", &[1; 8], 0, Ok(0x7_0000_0005)), Ok((0x7_0000_0005, 1)));
    assert_eq!(inner.clientid_drawn(5), None);
    assert_eq!(inner.sessionid_drawn([9; 16]), Some([9; 16]));
    assert_eq!(
        inner.create_session_as(0x7_0000_0005, 1, 1, 8, 0, Ok([9; 16])),
        Ok(CreateSession::New([9; 16]))
    );
    assert_eq!(inner.sessionid_drawn([9; 16]), None);
    assert_eq!(inner.other_drawn([9; 12]), Some([9; 12]));
}

#[test]
fn create_session_replays_and_misorders() {
    let mut inner = inner();
    let (cid, _) = inner.exchange_id(b"host", &[1; 8], 0).unwrap();
    assert_eq!(inner.create_session(cid, 7, 1, 4096, 0), Err(nfsstat4::NFS4ERR_SEQ_MISORDERED));
    let id = match inner.create_session(cid, 1, 1, 4096, 0) {
        Ok(CreateSession::New(id)) => id,
        _ => panic!("no session"),
    };
    assert_eq!(inner.create_session(cid, 1, 1, 4096, 0), Ok(CreateSession::Replay(id)));
    // A replay names the session of its own CREATE_SESSION, or none.
    let second = match inner.create_session(cid, 2, 1, 4096, 0) {
        Ok(CreateSession::New(id)) => id,
        other => panic!("no session: {other:?}"),
    };
    assert_eq!(inner.create_session(cid, 2, 1, 4096, 0), Ok(CreateSession::Replay(second)));
    assert_eq!(inner.destroy_session(&second), Ok(()));
    assert_eq!(inner.create_session(cid, 2, 1, 4096, 0), Err(nfsstat4::NFS4ERR_SEQ_MISORDERED));
    assert_eq!(inner.census().sessions, 1);
    assert_eq!(inner.create_session(cid ^ 1, 1, 1, 4096, 0), Err(nfsstat4::NFS4ERR_STALE_CLIENTID));
}

#[test]
fn a_slot_lets_a_request_through_once() {
    let mut inner = inner();
    let (cid, _) = inner.exchange_id(b"host", &[1; 8], 0).unwrap();
    let id = match inner.create_session(cid, 1, 1, 8, 0) {
        Ok(CreateSession::New(id)) => id,
        _ => panic!("no session"),
    };
    assert!(matches!(inner.sequence(&id, 0, 1, 0), Ok(Sequence::New)));
    assert!(matches!(inner.sequence(&id, 0, 1, 0), Ok(Sequence::RetryUncached)));
    inner.cache_reply(&id, 0, 1, vec![1, 2, 3]);
    match inner.sequence(&id, 0, 1, 0) {
        Ok(Sequence::Replay(b)) => assert_eq!(b, vec![1, 2, 3]),
        _ => panic!("no replay"),
    }
    // The next request takes the slot; the old reply is gone.
    assert!(matches!(inner.sequence(&id, 0, 2, 0), Ok(Sequence::New)));
    assert!(matches!(inner.sequence(&id, 0, 1, 0), Err(nfsstat4::NFS4ERR_SEQ_MISORDERED)));
    // A reply that is too large for the slot is not kept.
    inner.cache_reply(&id, 0, 2, vec![0; 9]);
    assert!(matches!(inner.sequence(&id, 0, 2, 0), Ok(Sequence::RetryUncached)));
    assert!(matches!(inner.sequence(&id, 1, 1, 0), Err(nfsstat4::NFS4ERR_BADSLOT)));
    assert!(matches!(inner.sequence(&[0; 16], 0, 1, 0), Err(nfsstat4::NFS4ERR_BADSESSION)));
    // An expired client takes its sessions with it.
    assert!(matches!(inner.sequence(&id, 0, 3, LEASE + SECOND), Err(nfsstat4::NFS4ERR_BADSESSION)));
    assert_eq!(inner.census().sessions, 0);
}

#[test]
fn destroying_sessions_and_clients() {
    let mut inner = inner();
    let (cid, _) = inner.exchange_id(b"host", &[1; 8], 0).unwrap();
    let id = match inner.create_session(cid, 1, 1, 8, 0) {
        Ok(CreateSession::New(id)) => id,
        _ => panic!("no session"),
    };
    assert_eq!(inner.session_client(&id), Ok(cid));
    assert_eq!(inner.destroy_clientid(cid), Err(nfsstat4::NFS4ERR_CLIENTID_BUSY));
    assert_eq!(inner.destroy_session(&id), Ok(()));
    assert_eq!(inner.destroy_session(&id), Err(nfsstat4::NFS4ERR_BADSESSION));
    assert_eq!(inner.destroy_clientid(cid), Ok(()));
    assert_eq!(inner.destroy_clientid(cid), Err(nfsstat4::NFS4ERR_STALE_CLIENTID));
    assert_eq!(inner.census().clients, 0);
}

#[test]
fn setclientid_needs_its_confirmation() {
    let mut inner = inner();
    let (cid, confirm) = inner.setclientid(b"host", &[1; 8], 0).unwrap();
    let mut wrong = confirm;
    wrong[0] ^= 1;
    assert_eq!(inner.setclientid_confirm(cid, &wrong, 0), Err(nfsstat4::NFS4ERR_CLID_INUSE));
    assert_eq!(inner.setclientid_confirm(cid, &confirm, 0), Ok(()));
    assert_eq!(inner.setclientid_confirm(cid, &confirm, 0), Ok(()));
    assert_eq!(inner.renew(cid, 0), Ok(()));
    assert_eq!(inner.renew(cid, LEASE + SECOND), Err(nfsstat4::NFS4ERR_EXPIRED));
}

#[test]
fn a_sweep_leaves_the_living() {
    let mut inner = inner();
    let (old, _) = inner.exchange_id(b"old", &[1; 8], 0).unwrap();
    let (young, _) = inner.exchange_id(b"young", &[1; 8], 60 * SECOND).unwrap();
    inner.sweep_expired(LEASE + SECOND);
    assert_eq!(inner.census().clients, 1);
    assert_eq!(inner.check_client(old, LEASE + SECOND), Err(nfsstat4::NFS4ERR_STALE_CLIENTID));
    assert_ne!(inner.check_client(young, LEASE + SECOND), Err(nfsstat4::NFS4ERR_EXPIRED));
}

#[test]
fn stateids_resolve_to_what_was_opened() {
    let now = 5 * SECOND;
    let mut inner = inner();
    let cid = confirmed_v41_client(&mut inner, now);
    let (fh, _closed) = tracked_handle(11);
    let opened = inner
        .open_commit(cid, b"oo", OwnerSeqid::V41, 42, OpenMode::ReadWrite, fh, now)
        .unwrap();
    match inner.resolve(&opened.stateid) {
        Ok(Resolved::Open { fileid, fh, mode }) => {
            assert_eq!(fileid, 42);
            assert_eq!(fh.get().fh, 11);
            assert_eq!(mode, OpenMode::ReadWrite);
        },
        _ => panic!("no open state"),
    }
    assert!(matches!(inner.resolve(&stateid4 { seqid: 0, other: [0; 12] }), Ok(Resolved::Anonymous)));
    assert!(matches!(inner.resolve(&stateid4 { seqid: u32::MAX, other: [0xff; 12] }), Ok(Resolved::Bypass)));
    assert_eq!(inner.test_stateid(&opened.stateid), nfsstat4::NFS4_OK);
    let ahead = stateid4 { seqid: 9, ..opened.stateid };
    assert_eq!(inner.test_stateid(&ahead), nfsstat4::NFS4ERR_BAD_STATEID);
}

#[test]
fn a_shared_handle_outlives_its_state() {
    let now = 5 * SECOND;
    let mut inner = inner();
    let cid = confirmed_v41_client(&mut inner, now);
    let (fh, closed) = tracked_handle(11);
    let opened = inner
        .open_commit(cid, b"oo", OwnerSeqid::V41, 42, OpenMode::ReadWrite, fh, now)
        .unwrap();
    let held = match inner.resolve(&opened.stateid) {
        Ok(Resolved::Open { fh, .. }) => fh,
        _ => panic!("no open state"),
    };
    inner.close(&opened.stateid, OwnerSeqid::V41, now).unwrap();
    assert!(closed.borrow().is_empty());
    assert_eq!(held.get().fh, 11);
    drop(held);
    assert_eq!(*closed.borrow(), vec![11]);
}

#[test]
fn a_failed_open_is_booked_once_the_state_was_asked() {
    let now = 5 * SECOND;
    let mut inner = inner();
    let cid = confirmed_v40_client(&mut inner, now);
    let r = inner.open_finish(cid, b"oo", OwnerSeqid::V40(1), 42, OpenMode::ReadOnly, Err(nfsstat4::NFS4ERR_ACCESS), now);
    assert_eq!(r, Err(nfsstat4::NFS4ERR_ACCESS));
    assert_eq!(
        inner.check_owner_seqid(cid, b"oo", OwnerSeqid::V40(1)),
        Ok(OwnerSeq::Replay(Err(nfsstat4::NFS4ERR_ACCESS)))
    );
    assert_eq!(inner.census().opens, 0);
}

#[test]
fn a_broken_owner_sequence_starts_over() {
    let now = 5 * SECOND;
    let mut inner = inner();
    let cid = confirmed_v40_client(&mut inner, now);
    inner
        .open_commit(cid, b"oo", OwnerSeqid::V40(1), 42, OpenMode::ReadOnly, handle(), now)
        .unwrap();
    assert_eq!(inner.check_owner_seqid(cid, b"oo", OwnerSeqid::V40(9)), Err(nfsstat4::NFS4ERR_BAD_SEQID));
    // The record is gone, so whatever comes next is fresh.
    assert_eq!(inner.check_owner_seqid(cid, b"oo", OwnerSeqid::V40(70)), Ok(OwnerSeq::Fresh));
    assert!(inner.confirm_required(cid, b"oo"));
    assert!(inner.invariants_hold());
}
