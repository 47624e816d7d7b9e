use nfs4_server::nfs::nfsstring;
use nfs4_server::nfs4::session::{
    channel_attrs4, client_owner4, impl_id_optional, state_protect4_a, state_protect_how4, CREATE_SESSION4args,
    CREATE_SESSION4resok, DESTROY_CLIENTID4args, DESTROY_SESSION4args, EXCHANGE_ID4args, EXCHANGE_ID4resok,
    SEQUENCE4args, SEQUENCE4resok,
};
use nfs4_server::nfs4::{nfsstat4, stateid4};
use nfs4_server::nfs4_handlers::{handle_nfs, DispatchResult};
use nfs4_server::nfs4_state::{
    CloseOutcome, CreateSessionOutcome, DestroyClientIdOutcome, ExchangeIdResult, NFS4State, OpenOutcome,
    ResolveStateid, SequenceOutcome,
};
use nfs4_server::xdr::{Reader, XdrError, XDR};

const LEASE: u64 = 90_000_000_000;

fn state() -> NFS4State {
    NFS4State::booted(LEASE, 0xAABB_CCDD)
}

fn channel() -> channel_attrs4 {
    channel_attrs4 {
        ca_headerpadsize: 1,
        ca_maxrequestsize: 100,
        ca_maxresponsesize: u32::MAX,
        ca_maxresponsesize_cached: 200,
        ca_maxoperations: 64,
        ca_maxrequests: 5,
        ca_rdma_ird: vec![],
    }
}

fn client(st: &mut NFS4State, owner: &[u8]) -> u64 {
    st.exchange_id(owner, &[1; 8], 0).unwrap().clientid
}

fn new_session(st: &mut NFS4State, cid: u64, seq: u32, slots: u32) -> [u8; 16] {
    match st.create_session(cid, seq, slots, channel(), channel()) {
        Some(CreateSessionOutcome::Created { sessionid }) => sessionid,
        other => panic!("no session: {other:?}"),
    }
}

#[test]
fn a_known_client_keeps_its_id() {
    let mut st = state();
    let first = st.exchange_id(b"host", &[1; 8], 0).unwrap();
    assert_eq!(first.seqid, 1);
    assert_eq!(first.clientid >> 32, 0xAABB_CCDD);
    assert_eq!(st.exchange_id(b"host", &[1; 8], 5), Some(first));
    new_session(&mut st, first.clientid, 1, 1);
    let again = st.exchange_id(b"host", &[1; 8], 6);
    assert_eq!(again, Some(ExchangeIdResult { clientid: first.clientid, seqid: 2 }));
}

#[test]
fn a_rebooted_client_loses_its_sessions() {
    let mut st = state();
    let cid = client(&mut st, b"host");
    let id = new_session(&mut st, cid, 1, 1);
    let fresh = st.exchange_id(b"host", &[2; 8], 0).unwrap().clientid;
    assert_ne!(fresh, cid);
    assert_eq!(st.sequence_check(&id, 0, 1, 0), SequenceOutcome::BadSession);
    assert_eq!(st.destroy_clientid(cid), DestroyClientIdOutcome::StaleClientId);
    assert_eq!(st.destroy_clientid(fresh), DestroyClientIdOutcome::Destroyed);
}

#[test]
fn a_clientid_of_another_boot_is_stale() {
    let mut st = state();
    let cid = client(&mut st, b"host") ^ (1 << 63);
    assert_eq!(
        st.create_session(cid, 1, 1, channel(), channel()),
        Some(CreateSessionOutcome::StaleClientId)
    );
    assert_eq!(st.destroy_clientid(cid), DestroyClientIdOutcome::StaleClientId);
    assert_eq!(st.open(cid, b"oo", 0, 1, 1, 0), Some(OpenOutcome::StaleClientId));
}

#[test]
fn sessions_are_made_in_sequence() {
    let mut st = state();
    let cid = client(&mut st, b"host");
    assert_eq!(
        st.create_session(cid, 0, 1, channel(), channel()),
        Some(CreateSessionOutcome::SeqMisordered),
        "there is nothing to replay yet"
    );
    let id = new_session(&mut st, cid, 1, 1);
    assert_eq!(
        st.create_session(cid, 1, 1, channel(), channel()),
        Some(CreateSessionOutcome::Replay { sessionid: id })
    );
    let second = new_session(&mut st, cid, 2, 1);
    assert_ne!(id, second);
    assert_eq!(
        st.create_session(cid, 2, 1, channel(), channel()),
        Some(CreateSessionOutcome::Replay { sessionid: second })
    );
    assert_eq!(st.create_session(cid, 9, 1, channel(), channel()), Some(CreateSessionOutcome::SeqMisordered));
    // A replay names the session of its own CREATE_SESSION, or none.
    assert!(st.destroy_session(&second));
    assert_eq!(st.create_session(cid, 2, 1, channel(), channel()), Some(CreateSessionOutcome::SeqMisordered));
    let third = new_session(&mut st, cid, 3, 1);
    assert!(st.destroy_session(&id));
    assert_eq!(
        st.create_session(cid, 3, 1, channel(), channel()),
        Some(CreateSessionOutcome::Replay { sessionid: third })
    );
}

#[test]
fn slots_let_requests_through_once() {
    let mut st = state();
    let cid = client(&mut st, b"host");
    let id = new_session(&mut st, cid, 1, 2);
    assert_eq!(st.sequence_check(&id, 0, 1, 0), SequenceOutcome::New);
    assert_eq!(st.sequence_check(&id, 0, 1, 0), SequenceOutcome::RetryUncached);
    st.cache_reply(&id, 0, 1, vec![4, 5]);
    assert_eq!(st.sequence_check(&id, 0, 1, 0), SequenceOutcome::Replay(vec![4, 5]));
    // The reply to any other request is not kept.
    st.cache_reply(&id, 0, 7, vec![9]);
    assert_eq!(st.sequence_check(&id, 0, 1, 0), SequenceOutcome::Replay(vec![4, 5]));
    assert_eq!(st.sequence_check(&id, 0, 3, 0), SequenceOutcome::Misordered);
    assert_eq!(st.sequence_check(&id, 1, 1, 0), SequenceOutcome::New);
    assert_eq!(st.sequence_check(&id, 2, 1, 0), SequenceOutcome::BadSlot);
    assert_eq!(st.sequence_check(&[0; 16], 0, 1, 0), SequenceOutcome::BadSession);
}

#[test]
fn a_session_has_a_slot_at_least() {
    let mut st = state();
    let cid = client(&mut st, b"host");
    let id = new_session(&mut st, cid, 1, 0);
    assert_eq!(st.sequence_check(&id, 0, 1, 0), SequenceOutcome::New);
    assert_eq!(st.sequence_check(&id, 1, 1, 0), SequenceOutcome::BadSlot);
}

#[test]
fn leases_run_out_unless_renewed() {
    let mut st = state();
    let cid = client(&mut st, b"host");
    let id = new_session(&mut st, cid, 1, 1);
    assert_eq!(st.sequence_check(&id, 0, 1, LEASE), SequenceOutcome::New);
    assert_eq!(st.sequence_check(&id, 0, 2, 2 * LEASE), SequenceOutcome::New);
    assert_eq!(st.sequence_check(&id, 0, 3, 3 * LEASE + 1), SequenceOutcome::BadSession);
    assert_eq!(st.destroy_clientid(cid), DestroyClientIdOutcome::StaleClientId);
}

#[test]
fn what_was_drawn_makes_an_id_unless_it_is_taken() {
    let mut st = state();
    assert_eq!(st.clientid_drawn(5), Some(0xAABB_CCDD_0000_0005));
    assert_eq!(st.clientid_drawn(u32::MAX), Some(0xAABB_CCDD_FFFF_FFFF));
    let first = st.exchange_id_as(b"host", &[1; 8], 0, Some(0xAABB_CCDD_0000_0005)).unwrap();
    assert_eq!(first.clientid, 0xAABB_CCDD_0000_0005);
    assert_eq!(st.clientid_drawn(5), None);
    assert_eq!(st.clientid_drawn(6), Some(0xAABB_CCDD_0000_0006));

    assert_eq!(st.sessionid_drawn([9; 16]), Some([9; 16]));
    let id = new_session(&mut st, first.clientid, 1, 1);
    assert_eq!(st.sessionid_drawn(id), None);

    assert_eq!(st.stateid_other_drawn([9; 12]), Some([9; 12]));
    match st.open(first.clientid, b"owner", 1, 7, 1, 0) {
        Some(OpenOutcome::Opened { stateid }) => assert_eq!(st.stateid_other_drawn(stateid.other), None),
        other => panic!("not opened: {other:?}"),
    }
}

#[test]
fn a_sweep_purges_the_lapsed() {
    let mut st = state();
    let a = client(&mut st, b"a");
    let opened = st.open(a, b"oo", 0, 1, 1, 0);
    let b = st.exchange_id(b"b", &[1; 8], LEASE).unwrap().clientid;
    st.sweep_expired(LEASE);
    assert_eq!(st.destroy_clientid(a ^ 1), DestroyClientIdOutcome::StaleClientId);
    st.sweep_expired(LEASE + 1);
    assert_eq!(st.destroy_clientid(a), DestroyClientIdOutcome::StaleClientId);
    if let Some(OpenOutcome::Opened { stateid }) = opened {
        assert_eq!(st.resolve_stateid(&stateid), ResolveStateid::Bad);
    }
    assert_eq!(st.destroy_clientid(b), DestroyClientIdOutcome::Destroyed);
}

#[test]
fn a_client_with_a_session_is_busy() {
    let mut st = state();
    let cid = client(&mut st, b"host");
    let id = new_session(&mut st, cid, 1, 1);
    st.set_reclaim_complete(&id);
    assert_eq!(st.destroy_clientid(cid), DestroyClientIdOutcome::Busy);
    assert!(st.destroy_session(&id));
    assert!(!st.destroy_session(&id));
    assert_eq!(st.destroy_clientid(cid), DestroyClientIdOutcome::Destroyed);
}

#[test]
fn opens_resolve_until_closed() {
    let mut st = state();
    let cid = client(&mut st, b"host");
    let sid = match st.open(cid, b"oo", 3, 42, 3, 0) {
        Some(OpenOutcome::Opened { stateid }) => stateid,
        _ => panic!("not opened"),
    };
    assert_eq!(sid.seqid, 1);
    assert_eq!(st.resolve_stateid(&sid), ResolveStateid::Open { fileid: 42, share_access: 3 });
    assert_eq!(st.close(&sid), CloseOutcome::Closed { stateid: stateid4 { seqid: 2, ..sid } });
    assert_eq!(st.close(&sid), CloseOutcome::Bad);
    assert_eq!(st.resolve_stateid(&sid), ResolveStateid::Bad);
    assert_eq!(st.resolve_stateid(&stateid4 { seqid: 5, other: [0; 12] }), ResolveStateid::Special);
    assert_eq!(st.resolve_stateid(&stateid4 { seqid: 5, other: [0xff; 12] }), ResolveStateid::Special);
}

#[test]
fn the_write_verifier_is_the_boot() {
    assert_eq!(state().write_verifier(), [0xDD, 0xCC, 0xBB, 0xAA, 0xA5, 0xA5, 0xA5, 0xA5]);
    let a = NFS4State::new(LEASE).unwrap();
    let b = NFS4State::new(LEASE).unwrap();
    assert_eq!(a.lease(), LEASE);
    assert_ne!(a.write_verifier(), b.write_verifier());
}

#[test]
fn a_replay_is_no_failure() {
    assert_eq!(DispatchResult::Replay(vec![1]).status(), nfsstat4::NFS4_OK);
    assert_eq!(
        DispatchResult::Status(nfsstat4::NFS4ERR_BADSLOT, vec![]).status(),
        nfsstat4::NFS4ERR_BADSLOT
    );
}

// ---------------------------------------------------------------- COMPOUND

const HEADER: usize = 24;

fn wire<T: XDR>(v: &T) -> Vec<u8> {
    let mut out = Vec::new();
    v.serialize(&mut out);
    out
}

fn op<T: XDR>(number: u32, args: &T) -> Vec<u8> {
    let mut out = wire(&number);
    args.serialize(&mut out);
    out
}

fn compound(minor: u32, ops: &[Vec<u8>]) -> Vec<u8> {
    let mut out = wire(&nfsstring(b"t".to_vec()));
    minor.serialize(&mut out);
    (ops.len() as u32).serialize(&mut out);
    for o in ops {
        out.extend_from_slice(o);
    }
    out
}

/// Status, number of results, and the results of a reply.
fn read_reply(reply: &Vec<u8>) -> (nfsstat4, u32, Vec<u8>) {
    let mut src = Reader::new(&reply[HEADER..]);
    let status = nfsstat4::deserialize(&mut src).unwrap();
    assert_eq!(nfsstring::deserialize(&mut src).unwrap().0, b"t".to_vec());
    let n = u32::deserialize(&mut src).unwrap();
    let pos = src.pos;
    (status, n, reply[HEADER + pos..].to_vec())
}

fn run(st: &mut NFS4State, ops: &[Vec<u8>]) -> (nfsstat4, u32, Vec<u8>) {
    read_reply(&handle_nfs(3, 1, &compound(1, ops), st, 2049, 10).unwrap())
}

fn exchange(how: state_protect_how4) -> Vec<u8> {
    op(
        42,
        &EXCHANGE_ID4args {
            eia_clientowner: client_owner4 { co_verifier: [1; 8], co_ownerid: b"host".to_vec() },
            eia_flags: 0,
            eia_state_protect: state_protect4_a { spa_how: how, spa_mach_ops: None, spa_ssv: None },
            eia_client_impl_id: impl_id_optional(None),
        },
    )
}

fn create(cid: u64, seq: u32) -> Vec<u8> {
    op(
        43,
        &CREATE_SESSION4args {
            csa_clientid: cid,
            csa_sequence: seq,
            csa_flags: 0,
            csa_fore_chan_attrs: channel(),
            csa_back_chan_attrs: channel(),
            csa_cb_program: 0,
            csa_sec_parms: vec![],
        },
    )
}

fn sequence(id: [u8; 16], seq: u32, slot: u32, cache: bool) -> Vec<u8> {
    op(
        53,
        &SEQUENCE4args {
            sa_sessionid: id,
            sa_sequenceid: seq,
            sa_slotid: slot,
            sa_highest_slotid: 0,
            sa_cachethis: cache,
        },
    )
}

fn set_up(st: &mut NFS4State) -> (u64, [u8; 16]) {
    let (status, n, bytes) = run(st, &[exchange(state_protect_how4::SP4_NONE)]);
    assert_eq!((status, n), (nfsstat4::NFS4_OK, 1));
    let mut src = Reader::new(&bytes[8..]);
    let x = EXCHANGE_ID4resok::deserialize(&mut src).unwrap();
    assert_eq!(x.eir_server_owner.so_major_id, b"nfs4-server:2049".to_vec());
    let (status, _, bytes) = run(st, &[create(x.eir_clientid, 1)]);
    assert_eq!(status, nfsstat4::NFS4_OK);
    let mut src = Reader::new(&bytes[8..]);
    let c = CREATE_SESSION4resok::deserialize(&mut src).unwrap();
    assert_eq!(c.csr_fore_chan_attrs.ca_maxoperations, 8);
    assert_eq!(c.csr_fore_chan_attrs.ca_maxrequests, 1);
    assert_eq!(c.csr_fore_chan_attrs.ca_maxresponsesize, 1 << 20);
    assert_eq!(c.csr_fore_chan_attrs.ca_maxresponsesize_cached, 200);
    (x.eir_clientid, c.csr_sessionid)
}

#[test]
fn sessions_only_procedures() {
    let mut st = state();
    assert_eq!(handle_nfs(3, 0, &vec![], &mut st, 1, 0).unwrap().len(), HEADER);
    let none = handle_nfs(3, 7, &vec![], &mut st, 1, 0).unwrap();
    assert_eq!(none[20..].to_vec(), vec![0, 0, 0, 3]);
    assert_eq!(handle_nfs(3, 1, &vec![0], &mut st, 1, 0), Err(XdrError::UnexpectedEof));
    // Only minor version 1 is spoken.
    for minor in [0, 2] {
        let b = handle_nfs(3, 1, &compound(minor, &[]), &mut st, 1, 0).unwrap();
        assert_eq!(read_reply(&b), (nfsstat4::NFS4ERR_MINOR_VERS_MISMATCH, 0, vec![]));
    }
    let b = handle_nfs(3, 1, &compound(1, &[]), &mut st, 1, 0).unwrap();
    assert_eq!(read_reply(&b), (nfsstat4::NFS4_OK, 0, vec![]));
}

#[test]
fn sessions_only_stops_at_the_first_error() {
    let mut st = state();
    let (status, n, bytes) = run(&mut st, &[wire(&24u32), exchange(state_protect_how4::SP4_NONE)]);
    assert_eq!((status, n), (nfsstat4::NFS4ERR_NOTSUPP, 1));
    let mut expected = wire(&24u32);
    nfsstat4::NFS4ERR_NOTSUPP.serialize(&mut expected);
    assert_eq!(bytes, expected);
    let (status, _, bytes) = run(&mut st, &[wire(&777u32)]);
    assert_eq!(status, nfsstat4::NFS4ERR_OP_ILLEGAL);
    let mut expected = wire(&10044u32);
    nfsstat4::NFS4ERR_OP_ILLEGAL.serialize(&mut expected);
    assert_eq!(bytes, expected);
    let (status, _, bytes) = run(&mut st, &[wire(&10044u32)]);
    assert_eq!(status, nfsstat4::NFS4ERR_OP_ILLEGAL);
    assert_eq!(bytes, expected);
    let broken = compound(1, &[wire(&43u32)]);
    assert_eq!(handle_nfs(3, 1, &broken, &mut st, 1, 0), Err(XdrError::UnexpectedEof));
}

#[test]
fn sessions_only_replays_what_it_cached() {
    let mut st = state();
    let (cid, id) = set_up(&mut st);
    // A retransmitted CREATE_SESSION gets the session again.
    let (_, _, bytes) = run(&mut st, &[create(cid, 1)]);
    let again = CREATE_SESSION4resok::deserialize(&mut Reader::new(&bytes[8..])).unwrap();
    assert_eq!(again.csr_sessionid, id);
    let input = compound(1, &[sequence(id, 1, 0, true)]);
    let first = handle_nfs(3, 1, &input, &mut st, 2049, 10).unwrap();
    let (status, n, bytes) = read_reply(&first);
    assert_eq!((status, n), (nfsstat4::NFS4_OK, 1));
    let r = SEQUENCE4resok::deserialize(&mut Reader::new(&bytes[8..])).unwrap();
    assert_eq!((r.sr_sessionid, r.sr_sequenceid, r.sr_slotid, r.sr_status_flags), (id, 1, 0, 0));
    let second = handle_nfs(4, 1, &input, &mut st, 2049, 11).unwrap();
    assert_eq!(second[4..].to_vec(), first[4..].to_vec());
    assert_eq!(second[..4].to_vec(), vec![0, 0, 0, 4]);
    // Without the cache a retransmit is told so.
    run(&mut st, &[sequence(id, 2, 0, false)]);
    assert_eq!(run(&mut st, &[sequence(id, 2, 0, false)]).0, nfsstat4::NFS4ERR_RETRY_UNCACHED_REP);
}

#[test]
fn sessions_only_statuses() {
    let mut st = state();
    let (cid, id) = set_up(&mut st);
    assert_eq!(run(&mut st, &[exchange(state_protect_how4::SP4_NONE), sequence(id, 1, 0, false)]).0,
        nfsstat4::NFS4ERR_SEQUENCE_POS);
    assert_eq!(run(&mut st, &[sequence(id, 5, 0, false)]).0, nfsstat4::NFS4ERR_SEQ_MISORDERED);
    assert_eq!(run(&mut st, &[sequence(id, 1, 1, false)]).0, nfsstat4::NFS4ERR_BADSLOT);
    assert_eq!(run(&mut st, &[sequence([0; 16], 1, 0, false)]).0, nfsstat4::NFS4ERR_BADSESSION);
    assert_eq!(run(&mut st, &[create(cid, 9)]).0, nfsstat4::NFS4ERR_SEQ_MISORDERED);
    assert_eq!(run(&mut st, &[create(cid ^ 1, 1)]).0, nfsstat4::NFS4ERR_STALE_CLIENTID);
    let destroy_client = op(57, &DESTROY_CLIENTID4args { dca_clientid: cid });
    assert_eq!(run(&mut st, &[destroy_client.clone()]).0, nfsstat4::NFS4ERR_CLIENTID_BUSY);
    let destroy = op(44, &DESTROY_SESSION4args { dsa_sessionid: id });
    // The session goes from under its own COMPOUND; nothing is cached in it.
    let (status, n, _) = run(&mut st, &[sequence(id, 1, 0, true), destroy.clone()]);
    assert_eq!((status, n), (nfsstat4::NFS4_OK, 2));
    assert_eq!(run(&mut st, &[destroy]).0, nfsstat4::NFS4ERR_BADSESSION);
    assert_eq!(run(&mut st, &[destroy_client.clone()]).0, nfsstat4::NFS4_OK);
    assert_eq!(run(&mut st, &[destroy_client]).0, nfsstat4::NFS4ERR_STALE_CLIENTID);
}
