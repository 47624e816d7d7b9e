use nfs4_server::context::RPCContext;
use nfs4_server::nfs::{id_to_fh, nfs_fh, nfsstring, specdata, write_verifier};
use nfs4_server::nfs3::{fattr3, ftype3, nfsstat3, nfstime3};
use nfs4_server::nfs4::args::{
    change_info4, createhow4, createtype4, locker4, open_claim4, open_to_lock_owner4, openflag4, secinfo_style4,
    stable_how4, state_owner4, ACCESS4args, ACCESS4resok, CLOSE4args, COMMIT4args, COMMIT4resok, CREATE4args,
    CREATE4resok, GETATTR4args, LOCK4args, LOOKUP4args, OPEN4args, OPEN4resok, OPEN_CONFIRM4args, OPEN_CONFIRM4resok,
    OPEN_DOWNGRADE4args, PUTFH4args, READ4args, READ4resok, READDIR4args, READLINK4resok, REMOVE4args, REMOVE4resok,
    RENAME4args, RENAME4resok, RENEW4args, SECINFO4args, SECINFO_NO_NAME4args, SETATTR4args, SETCLIENTID4args,
    SETCLIENTID4resok, SETCLIENTID_CONFIRM4args, TEST_STATEID4args, WRITE4args, WRITE4resok, cb_client4, clientaddr4,
    nfs_client_id4,
};
use nfs4_server::nfs4::attr::fattr4;
use nfs4_server::nfs4::compound::Reply;
use nfs4_server::nfs4::handlers::session_ops::{nothing_drawn, Draws};
use nfs4_server::nfs4::handlers::{handle_nfs, Begun, CompoundError, Progress};
use nfs4_server::nfs4::session::{
    channel_attrs4, client_owner4, impl_id_optional, state_protect4_a, state_protect_how4, CREATE_SESSION4args,
    CREATE_SESSION4resok, DESTROY_CLIENTID4args, DESTROY_SESSION4args, EXCHANGE_ID4args, EXCHANGE_ID4resok,
    SEQUENCE4args, SEQUENCE4resok,
};
use nfs4_server::nfs4::state::{ManagedFileHandle, NFS4State};
use nfs4_server::nfs4::{nfsstat4, stateid4};
use nfs4_server::vfs::{DirEntry, Listing, VFSCapabilities, VfsCall, VfsReply};
use nfs4_server::xdr::{Reader, XdrError, XDR};

const EPOCH: u32 = 77;
const ROOT: u64 = 1;
const FILE: u64 = 2;
const LINK: u64 = 3;
const LEASE: u64 = 90_000_000_000;

/// A file system with a root, a file `a` in it, and a link `l` to it.
struct Fs {
    data: Vec<u8>,
    names: Vec<(Vec<u8>, u64)>,
    ctime: u32,
    opened: Vec<u64>,
}

impl Fs {
    fn new() -> Fs {
        Fs {
            data: b"hello".to_vec(),
            names: vec![(b"a".to_vec(), FILE), (b"l".to_vec(), LINK)],
            ctime: 100,
            opened: Vec::new(),
        }
    }

    fn attr(&self, id: u64) -> fattr3 {
        let ftype = match id {
            ROOT => ftype3::NF3DIR,
            LINK => ftype3::NF3LNK,
            _ => ftype3::NF3REG,
        };
        let time = nfstime3 { seconds: self.ctime, nseconds: 5 };
        fattr3 {
            ftype,
            mode: 0o644,
            nlink: 1,
            uid: 1000,
            gid: 100,
            size: self.data.len() as u64,
            used: 512,
            rdev: specdata { specdata1: 0, specdata2: 0 },
            fsid: 9,
            fileid: id,
            atime: time,
            mtime: time,
            ctime: time,
        }
    }

    fn find(&self, name: &[u8]) -> Option<u64> {
        self.names.iter().find(|n| n.0 == name).map(|n| n.1)
    }

    fn answer(&mut self, call: VfsCall<Vec<u8>, ManagedFileHandle<u64>>) -> Reply<u64> {
        match call {
            VfsCall::Attributes { id } | VfsCall::Getattr { id } => VfsReply::Attributes(self.attr(id)),
            VfsCall::FsInfo { .. } => VfsReply::Done,
            VfsCall::Lookup { name, .. } => match self.find(&name) {
                Some(id) => VfsReply::File(id),
                None => VfsReply::Failed(nfsstat3::NFS3ERR_NOENT),
            },
            VfsCall::Create { name, .. } | VfsCall::Mkdir { name, .. } | VfsCall::Symlink { name, .. } => {
                let id = 10 + self.names.len() as u64;
                self.names.push((name, id));
                self.ctime += 1;
                VfsReply::File(id)
            },
            VfsCall::Remove { name, .. } => match self.find(&name) {
                Some(id) => {
                    self.names.retain(|n| n.1 != id);
                    self.ctime += 1;
                    VfsReply::Done
                },
                None => VfsReply::Failed(nfsstat3::NFS3ERR_NOENT),
            },
            VfsCall::Rename { old_name, new_name, .. } => {
                for n in self.names.iter_mut() {
                    if n.0 == old_name {
                        n.0 = new_name.clone();
                    }
                }
                self.ctime += 1;
                VfsReply::Done
            },
            VfsCall::Readdir { start_after, max_entries, .. } => {
                assert_eq!(max_entries, 256);
                let from = self.names.iter().position(|n| n.1 == start_after).map_or(0, |i| i + 1);
                let entries: Vec<DirEntry<Vec<u8>>> = self.names[from..]
                    .iter()
                    .map(|n| DirEntry { fileid: n.1, name: n.0.clone(), attr: self.attr(n.1) })
                    .collect();
                VfsReply::Listing(Listing { entries, end: true })
            },
            VfsCall::Open { id, .. } => {
                self.opened.push(id);
                VfsReply::Handle(1000 + self.opened.len() as u64)
            },
            VfsCall::Read { fh, id, offset, count } => {
                assert_eq!(*fh.get(), 1000 + self.opened.len() as u64);
                assert_eq!(id, FILE);
                let end = (offset as usize + count as usize).min(self.data.len());
                let start = (offset as usize).min(end);
                VfsReply::Data(self.data[start..end].to_vec(), end == self.data.len())
            },
            VfsCall::Write { offset, data, .. } => {
                let end = offset as usize + data.len();
                if self.data.len() < end {
                    self.data.resize(end, 0);
                }
                self.data[offset as usize..end].copy_from_slice(&data);
                VfsReply::Done
            },
            VfsCall::Setattr { attr, .. } => {
                if let Some(n) = attr.size {
                    self.data.resize(n as usize, 0);
                }
                VfsReply::Done
            },
            VfsCall::Readlink { .. } => VfsReply::Target(b"a".to_vec()),
        }
    }
}

struct Server {
    fs: Fs,
    st: NFS4State<u64>,
    ctx: RPCContext,
    now: u64,
}

impl Server {
    fn new() -> Server {
        Server {
            fs: Fs::new(),
            st: NFS4State::new(LEASE, EPOCH),
            ctx: RPCContext {
                local_port: 2049,
                epoch: EPOCH,
                capabilities: VFSCapabilities::ReadWrite,
                root_dir: ROOT,
                client_id: None,
            },
            now: 1_000,
        }
    }

    /// Answer a call to COMPOUND.
    fn call(&mut self, input: &Vec<u8>) -> Result<Vec<u8>, CompoundError> {
        let mut c = match handle_nfs(9, 1, input) {
            Ok(Begun::Reply(b)) => return Ok(b),
            Ok(Begun::Run(c)) => c,
            Err(e) => return Err(CompoundError::Xdr(e)),
        };
        while !c.is_over() {
            let mut p = match c.next_op(input, &mut self.st, &mut self.ctx, self.now) {
                Ok(p) => p,
                Err(e) => return Err(CompoundError::Xdr(e)),
            };
            loop {
                match p {
                    Progress::Next => break,
                    Progress::Reply(b) => return Ok(b),
                    Progress::Ask(call, pending) => {
                        let r = self.fs.answer(call);
                        p = c.resume(pending, r, &mut self.st, &self.ctx, self.now);
                    },
                }
            }
        }
        c.finish(&mut self.st, &self.ctx)
    }

    /// Answer a COMPOUND of operations, and read the reply.
    fn run(&mut self, minor: u32, ops: &[Vec<u8>]) -> Answer {
        Answer::of(&self.call(&compound(minor, ops)).unwrap())
    }
}

struct Answer {
    status: nfsstat4,
    count: u32,
    bytes: Vec<u8>,
}

const HEADER: usize = 24;

impl Answer {
    fn of(reply: &Vec<u8>) -> Answer {
        let mut src = Reader::new(&reply[HEADER..]);
        let status = nfsstat4::deserialize(&mut src).unwrap();
        let tag = nfsstring::deserialize(&mut src).unwrap();
        assert_eq!(tag.0, b"tag".to_vec());
        let count = u32::deserialize(&mut src).unwrap();
        let pos = src.pos;
        Answer { status, count, bytes: reply[HEADER + pos..].to_vec() }
    }

    /// The results, each with its operation's number.
    fn ok(&self) -> Reader<'_> {
        assert_eq!(self.status, nfsstat4::NFS4_OK);
        Reader::new(&self.bytes)
    }
}

fn wire<T: XDR>(v: &T) -> Vec<u8> {
    let mut out = Vec::new();
    v.serialize(&mut out);
    out
}

fn op<T: XDR>(number: u32, args: &T) -> Vec<u8> {
    let mut out = wire(&number);
    args.serialize(&mut out);
    out
}

fn bare(number: u32) -> Vec<u8> {
    wire(&number)
}

fn compound(minor: u32, ops: &[Vec<u8>]) -> Vec<u8> {
    let mut out = wire(&nfsstring(b"tag".to_vec()));
    minor.serialize(&mut out);
    (ops.len() as u32).serialize(&mut out);
    for o in ops {
        out.extend_from_slice(o);
    }
    out
}

/// Skip the number and the status of a result that must be a success.
fn passes(src: &mut Reader, number: u32) {
    assert_eq!(u32::deserialize(src), Ok(number));
    assert_eq!(nfsstat4::deserialize(src), Ok(nfsstat4::NFS4_OK));
}

fn name(s: &[u8]) -> nfsstring {
    nfsstring(s.to_vec())
}

fn channel(requests: u32) -> channel_attrs4 {
    channel_attrs4 {
        ca_headerpadsize: 3,
        ca_maxrequestsize: 4096,
        ca_maxresponsesize: u32::MAX,
        ca_maxresponsesize_cached: 4096,
        ca_maxoperations: 100,
        ca_maxrequests: requests,
        ca_rdma_ird: vec![],
    }
}

fn exchange_id(how: state_protect_how4) -> Vec<u8> {
    op(
        42,
        &EXCHANGE_ID4args {
            eia_clientowner: client_owner4 { co_verifier: [1; 8], co_ownerid: b"host".to_vec() },
            eia_flags: 0,
            eia_state_protect: state_protect4_a { spa_how: how, spa_mach_ops: None, spa_ssv: None },
            eia_client_impl_id: impl_id_optional(None),
        },
    )
}

/// Set up a session; gives its id and the client's.
fn session(s: &mut Server) -> ([u8; 16], u64) {
    let a = s.run(1, &[exchange_id(state_protect_how4::SP4_NONE)]);
    let mut src = a.ok();
    passes(&mut src, 42);
    let r = EXCHANGE_ID4resok::deserialize(&mut src).unwrap();
    assert_eq!(r.eir_sequenceid, 1);
    assert_eq!(r.eir_flags, 0x0001_0000);
    assert_eq!(r.eir_server_owner.so_major_id, b"nfs4-server:2049".to_vec());
    assert_eq!(r.eir_server_scope, b"nfs4-server-scope".to_vec());
    let a = s.run(
        1,
        &[op(
            43,
            &CREATE_SESSION4args {
                csa_clientid: r.eir_clientid,
                csa_sequence: 1,
                csa_flags: 3,
                csa_fore_chan_attrs: channel(0),
                csa_back_chan_attrs: channel(4),
                csa_cb_program: 0,
                csa_sec_parms: vec![],
            },
        )],
    );
    let mut src = a.ok();
    passes(&mut src, 43);
    let c = CREATE_SESSION4resok::deserialize(&mut src).unwrap();
    assert_eq!(c.csr_sequence, 1);
    assert_eq!(c.csr_flags, 0);
    assert_eq!(c.csr_fore_chan_attrs.ca_headerpadsize, 0);
    assert_eq!(c.csr_fore_chan_attrs.ca_maxrequestsize, 4096);
    assert_eq!(c.csr_fore_chan_attrs.ca_maxresponsesize, 1 << 20);
    assert_eq!(c.csr_fore_chan_attrs.ca_maxoperations, 16);
    assert_eq!(c.csr_fore_chan_attrs.ca_maxrequests, 1);
    assert_eq!(c.csr_back_chan_attrs.ca_maxrequests, 0);
    (c.csr_sessionid, r.eir_clientid)
}

fn sequence(id: [u8; 16], seq: u32, cache: bool) -> Vec<u8> {
    op(
        53,
        &SEQUENCE4args {
            sa_sessionid: id,
            sa_sequenceid: seq,
            sa_slotid: 0,
            sa_highest_slotid: 0,
            sa_cachethis: cache,
        },
    )
}

fn open_args(cid: u64, seqid: u32, access: u32, how: openflag4, claim: open_claim4) -> OPEN4args {
    OPEN4args {
        seqid,
        share_access: access,
        share_deny: 0,
        owner: state_owner4 { clientid: cid, owner: b"oo".to_vec() },
        openhow: how,
        claim,
    }
}

/// A confirmed 4.0 client.
fn v40_client(s: &mut Server) -> u64 {
    let a = s.run(
        0,
        &[op(
            35,
            &SETCLIENTID4args {
                client: nfs_client_id4 { verifier: [3; 8], id: b"host40".to_vec() },
                callback: cb_client4 {
                    cb_program: 0,
                    cb_location: clientaddr4 { r_netid: name(b"tcp"), r_addr: name(b"0.0.0.0.0.0") },
                },
                callback_ident: 0,
            },
        )],
    );
    let mut src = a.ok();
    passes(&mut src, 35);
    let r = SETCLIENTID4resok::deserialize(&mut src).unwrap();
    let a = s.run(
        0,
        &[op(
            36,
            &SETCLIENTID_CONFIRM4args { clientid: r.clientid, setclientid_confirm: r.setclientid_confirm },
        )],
    );
    passes(&mut a.ok(), 36);
    r.clientid
}

#[test]
fn null_and_unknown_procedures() {
    let header = |stat: u32| {
        let mut b = vec![0, 0, 0, 9, 0, 0, 0, 1, 0, 0, 0, 0, 0, 0, 0, 0, 0, 0, 0, 0];
        b.extend_from_slice(&stat.to_be_bytes());
        b
    };
    match handle_nfs(9, 0, &vec![]) {
        Ok(Begun::Reply(b)) => assert_eq!(b, header(0)),
        _ => panic!("no reply"),
    }
    match handle_nfs(9, 2, &vec![]) {
        Ok(Begun::Reply(b)) => assert_eq!(b, header(3)),
        _ => panic!("no reply"),
    }
    assert!(matches!(handle_nfs(9, 1, &vec![0, 0]), Err(XdrError::UnexpectedEof)));
}

#[test]
fn other_minor_versions_and_long_compounds_are_refused() {
    let mut s = Server::new();
    let a = s.run(2, &[bare(24)]);
    assert_eq!(a.status, nfsstat4::NFS4ERR_MINOR_VERS_MISMATCH);
    assert_eq!(a.count, 0);
    let many: Vec<Vec<u8>> = (0..17).map(|_| bare(24)).collect();
    let b = s.call(&compound(1, &many)).unwrap();
    let mut expected = wire(&nfsstat4::NFS4ERR_TOO_MANY_OPS);
    name(b"tag").serialize(&mut expected);
    0u32.serialize(&mut expected);
    assert_eq!(b[HEADER..].to_vec(), expected);
    let most: Vec<Vec<u8>> = (0..16).map(|_| bare(24)).collect();
    assert_eq!(s.run(0, &most).count, 16);
}

#[test]
fn a_compound_stops_at_its_first_error() {
    let mut s = Server::new();
    let a = s.run(0, &[bare(24), op(15, &LOOKUP4args { objname: name(b"none") }), bare(10)]);
    assert_eq!(a.status, nfsstat4::NFS4ERR_NOENT);
    assert_eq!(a.count, 2);
}

#[test]
fn illegal_and_unsupported_operations() {
    let mut s = Server::new();
    let a = s.run(0, &[bare(9999)]);
    assert_eq!(a.status, nfsstat4::NFS4ERR_OP_ILLEGAL);
    let mut expected = wire(&10044u32);
    nfsstat4::NFS4ERR_OP_ILLEGAL.serialize(&mut expected);
    assert_eq!(a.bytes, expected);
    // So is the number of OP_ILLEGAL itself, in either minor version.
    for minor in [0, 1] {
        let a = s.run(minor, &[bare(10044)]);
        assert_eq!(a.status, nfsstat4::NFS4ERR_OP_ILLEGAL);
        assert_eq!(a.bytes, expected);
    }
    // Sessions are of 4.1 only, and their arguments are not read.
    assert_eq!(s.run(0, &[bare(42)]).status, nfsstat4::NFS4ERR_NOTSUPP);
    // SETCLIENTID is of 4.0 only.
    assert_eq!(s.run(1, &[bare(35)]).status, nfsstat4::NFS4ERR_NOTSUPP);
    // LINK is not implemented.
    assert_eq!(s.run(0, &[bare(11)]).status, nfsstat4::NFS4ERR_NOTSUPP);
    // In 4.1 LOCK is refused without a look at its arguments.
    assert_eq!(s.run(1, &[bare(12)]).status, nfsstat4::NFS4ERR_NOTSUPP);
    // In 4.0 it is too where the arguments cannot be read.
    assert_eq!(s.run(0, &[bare(12)]).status, nfsstat4::NFS4ERR_NOTSUPP);
    assert_eq!(s.run(0, &[bare(21)]).status, nfsstat4::NFS4ERR_NOTSUPP);
    // A call that breaks off is answered by nothing.
    assert!(matches!(s.call(&compound(0, &[bare(15)])), Err(CompoundError::Xdr(XdrError::UnexpectedEof))));
}

#[test]
fn state_protection_is_not_supported() {
    let mut s = Server::new();
    let a = s.run(
        1,
        &[op(
            42,
            &EXCHANGE_ID4args {
                eia_clientowner: client_owner4 { co_verifier: [1; 8], co_ownerid: b"host".to_vec() },
                eia_flags: 0,
                eia_state_protect: state_protect4_a {
                    spa_how: state_protect_how4::SP4_MACH_CRED,
                    spa_mach_ops: Some((vec![], vec![])),
                    spa_ssv: None,
                },
                eia_client_impl_id: impl_id_optional(None),
            },
        )],
    );
    assert_eq!(a.status, nfsstat4::NFS4ERR_NOTSUPP);
}

#[test]
fn operations_of_41_need_a_session() {
    let mut s = Server::new();
    assert_eq!(s.run(1, &[bare(24)]).status, nfsstat4::NFS4ERR_OP_NOT_IN_SESSION);
    let (id, _) = session(&mut s);
    let a = s.run(1, &[sequence(id, 1, false), bare(24), bare(10)]);
    let mut src = a.ok();
    passes(&mut src, 53);
    let r = SEQUENCE4resok::deserialize(&mut src).unwrap();
    assert_eq!((r.sr_sessionid, r.sr_sequenceid, r.sr_slotid), (id, 1, 0));
    passes(&mut src, 24);
    passes(&mut src, 10);
    assert_eq!(nfs_fh::deserialize(&mut src), Ok(id_to_fh(EPOCH, ROOT)));
    // SEQUENCE anywhere but in the first place is refused.
    assert_eq!(
        s.run(1, &[sequence(id, 2, false), sequence(id, 3, false)]).status,
        nfsstat4::NFS4ERR_SEQUENCE_POS
    );
}

#[test]
fn a_cached_compound_is_replayed() {
    let mut s = Server::new();
    let (id, _) = session(&mut s);
    let input = compound(1, &[sequence(id, 1, true), bare(24), bare(10)]);
    let first = s.call(&input).unwrap();
    assert_eq!(s.call(&input).unwrap(), first);
    // Nothing is done twice: a file is made once.
    let make = op(
        6,
        &CREATE4args { objtype: createtype4::Directory, objname: name(b"d"), createattrs: fattr4::none() },
    );
    let input = compound(1, &[sequence(id, 2, true), bare(24), make]);
    let first = s.call(&input).unwrap();
    assert_eq!(s.call(&input).unwrap(), first);
    assert_eq!(s.fs.names.len(), 3);
    // Without the cache a retransmit is told so.
    let plain = compound(1, &[sequence(id, 3, false), bare(24)]);
    s.call(&plain).unwrap();
    assert_eq!(Answer::of(&s.call(&plain).unwrap()).status, nfsstat4::NFS4ERR_RETRY_UNCACHED_REP);
    assert_eq!(s.run(1, &[sequence(id, 9, true)]).status, nfsstat4::NFS4ERR_SEQ_MISORDERED);
}

#[test]
fn destroying_the_session_in_use() {
    let mut s = Server::new();
    let (id, cid) = session(&mut s);
    let a = s.run(1, &[sequence(id, 1, true), op(44, &DESTROY_SESSION4args { dsa_sessionid: id })]);
    assert_eq!(a.status, nfsstat4::NFS4_OK);
    assert_eq!(s.run(1, &[sequence(id, 2, true)]).status, nfsstat4::NFS4ERR_BADSESSION);
    let a = s.run(1, &[op(57, &DESTROY_CLIENTID4args { dca_clientid: cid })]);
    assert_eq!(a.status, nfsstat4::NFS4_OK);
    assert_eq!(s.ctx.client_id(), None);
}

#[test]
fn reading_and_writing_through_an_open() {
    let mut s = Server::new();
    let (id, cid) = session(&mut s);
    let a = s.run(
        1,
        &[
            sequence(id, 1, false),
            bare(24),
            op(18, &open_args(cid, 0, 3, openflag4::OPEN4_NOCREATE, open_claim4::CLAIM_NULL(name(b"a")))),
            bare(10),
        ],
    );
    let mut src = a.ok();
    passes(&mut src, 53);
    SEQUENCE4resok::deserialize(&mut src).unwrap();
    passes(&mut src, 24);
    passes(&mut src, 18);
    let opened = OPEN4resok::deserialize(&mut src).unwrap();
    assert_eq!(opened.stateid.seqid, 1);
    assert_eq!(opened.delegation, 0);
    assert_eq!(opened.rflags & 2, 0);
    passes(&mut src, 10);
    // OPEN leaves the file as the current filehandle.
    let fh = nfs_fh::deserialize(&mut src).unwrap();
    assert_eq!(fh, id_to_fh(EPOCH, FILE));
    assert_eq!(s.fs.opened, vec![FILE]);

    let a = s.run(
        1,
        &[
            sequence(id, 2, false),
            op(22, &PUTFH4args { object: fh.clone() }),
            op(
                38,
                &WRITE4args {
                    stateid: opened.stateid,
                    offset: 5,
                    stable: stable_how4::UNSTABLE4,
                    data: b" you".to_vec(),
                },
            ),
            op(25, &READ4args { stateid: opened.stateid, offset: 0, count: 100 }),
            op(5, &COMMIT4args { offset: 0, count: 0 }),
        ],
    );
    let mut src = a.ok();
    passes(&mut src, 53);
    SEQUENCE4resok::deserialize(&mut src).unwrap();
    passes(&mut src, 22);
    passes(&mut src, 38);
    let w = WRITE4resok::deserialize(&mut src).unwrap();
    assert_eq!((w.count, w.committed, w.writeverf), (4, stable_how4::FILE_SYNC4, write_verifier(EPOCH)));
    passes(&mut src, 25);
    let r = READ4resok::deserialize(&mut src).unwrap();
    assert_eq!((r.eof, r.data), (true, b"hello you".to_vec()));
    passes(&mut src, 5);
    let c = COMMIT4resok::deserialize(&mut src).unwrap();
    assert_eq!(c.writeverf, [77, 0, 0, 0, 0xA5, 0xA5, 0xA5, 0xA5]);

    // TEST_STATEID, then CLOSE, then the state is gone.
    let bogus = stateid4 { seqid: 1, other: [7; 12] };
    let a = s.run(
        1,
        &[
            sequence(id, 3, false),
            op(55, &TEST_STATEID4args { ts_stateids: vec![opened.stateid, bogus] }),
            op(22, &PUTFH4args { object: fh.clone() }),
            op(4, &CLOSE4args { seqid: 0, open_stateid: opened.stateid }),
        ],
    );
    let mut src = a.ok();
    passes(&mut src, 53);
    SEQUENCE4resok::deserialize(&mut src).unwrap();
    passes(&mut src, 55);
    assert_eq!(u32::deserialize(&mut src), Ok(2));
    assert_eq!(nfsstat4::deserialize(&mut src), Ok(nfsstat4::NFS4_OK));
    assert_eq!(nfsstat4::deserialize(&mut src), Ok(nfsstat4::NFS4ERR_BAD_STATEID));
    passes(&mut src, 22);
    passes(&mut src, 4);
    assert_eq!(stateid4::deserialize(&mut src), Ok(stateid4 { seqid: 2, ..opened.stateid }));
    let a = s.run(
        1,
        &[
            sequence(id, 4, false),
            op(22, &PUTFH4args { object: fh }),
            op(25, &READ4args { stateid: opened.stateid, offset: 0, count: 1 }),
        ],
    );
    assert_eq!(a.status, nfsstat4::NFS4ERR_BAD_STATEID);
}

#[test]
fn special_stateids_need_no_open() {
    let mut s = Server::new();
    let (id, _) = session(&mut s);
    let file = op(22, &PUTFH4args { object: id_to_fh(EPOCH, FILE) });
    let anonymous = stateid4 { seqid: 0, other: [0; 12] };
    let bypass = stateid4 { seqid: u32::MAX, other: [0xff; 12] };
    let a = s.run(
        1,
        &[
            sequence(id, 1, false),
            file.clone(),
            op(25, &READ4args { stateid: anonymous, offset: 1, count: 3 }),
            op(25, &READ4args { stateid: bypass, offset: 0, count: 100 }),
        ],
    );
    let mut src = a.ok();
    passes(&mut src, 53);
    SEQUENCE4resok::deserialize(&mut src).unwrap();
    passes(&mut src, 22);
    passes(&mut src, 25);
    let r = READ4resok::deserialize(&mut src).unwrap();
    assert_eq!((r.eof, r.data), (false, b"ell".to_vec()));
    passes(&mut src, 25);
    let r = READ4resok::deserialize(&mut src).unwrap();
    assert_eq!((r.eof, r.data), (true, b"hello".to_vec()));
    assert_eq!(s.fs.opened, vec![FILE, FILE], "each READ has a handle of its own");
    let write = WRITE4args { stateid: anonymous, offset: 0, stable: stable_how4::UNSTABLE4, data: b"J".to_vec() };
    let a = s.run(1, &[sequence(id, 2, false), file.clone(), op(38, &write)]);
    assert_eq!(a.status, nfsstat4::NFS4_OK);
    assert_eq!(s.fs.data, b"Jello".to_vec());
    // What is no regular file is neither read nor written, whatever the stateid.
    let root = op(22, &PUTFH4args { object: id_to_fh(EPOCH, ROOT) });
    let a = s.run(
        1,
        &[sequence(id, 3, false), root, op(25, &READ4args { stateid: anonymous, offset: 0, count: 1 })],
    );
    assert_eq!(a.status, nfsstat4::NFS4ERR_ISDIR);
    assert_eq!(s.fs.opened.len(), 3);
}

#[test]
fn a_failed_open_of_40_takes_its_number() {
    let mut s = Server::new();
    s.fs.names.push((b"root".to_vec(), ROOT));
    let cid = v40_client(&mut s);
    let open = |seqid: u32, file: &[u8], access: u32| {
        vec![
            bare(24),
            op(18, &open_args(cid, seqid, access, openflag4::OPEN4_NOCREATE, open_claim4::CLAIM_NULL(name(file)))),
        ]
    };
    assert_eq!(s.run(0, &open(1, b"a", 1)).status, nfsstat4::NFS4_OK);
    // The type of the file, the name, and the arguments, one after the other.
    assert_eq!(s.run(0, &open(2, b"root", 1)).status, nfsstat4::NFS4ERR_ISDIR);
    assert_eq!(s.run(0, &open(2, b"root", 1)).status, nfsstat4::NFS4ERR_ISDIR, "a retransmit");
    assert_eq!(s.run(0, &open(3, b"l", 1)).status, nfsstat4::NFS4ERR_SYMLINK);
    assert_eq!(s.run(0, &open(4, b"none", 1)).status, nfsstat4::NFS4ERR_NOENT);
    assert_eq!(s.run(0, &open(5, b"", 1)).status, nfsstat4::NFS4ERR_INVAL);
    assert_eq!(s.run(0, &open(6, b"a", 0)).status, nfsstat4::NFS4ERR_INVAL);
    // Without a filehandle no number is taken.
    assert_eq!(s.run(0, &open(7, b"a", 1)[1..]).status, nfsstat4::NFS4ERR_NOFILEHANDLE);
    assert_eq!(s.run(0, &open(7, b"a", 1)).status, nfsstat4::NFS4_OK);
}

#[test]
fn access_modes_of_an_open() {
    let mut s = Server::new();
    let (id, cid) = session(&mut s);
    let open = |access: u32, seq: u32| {
        vec![
            sequence(id, seq, false),
            bare(24),
            op(18, &open_args(cid, 0, access, openflag4::OPEN4_NOCREATE, open_claim4::CLAIM_NULL(name(b"a")))),
        ]
    };
    assert_eq!(s.run(1, &open(0, 1)).status, nfsstat4::NFS4ERR_INVAL);
    let a = s.run(1, &open(1, 2));
    let mut src = a.ok();
    passes(&mut src, 53);
    SEQUENCE4resok::deserialize(&mut src).unwrap();
    passes(&mut src, 24);
    passes(&mut src, 18);
    let opened = OPEN4resok::deserialize(&mut src).unwrap();
    let write = |seq: u32| {
        vec![
            sequence(id, seq, false),
            op(22, &PUTFH4args { object: id_to_fh(EPOCH, FILE) }),
            op(
                38,
                &WRITE4args {
                    stateid: opened.stateid,
                    offset: 0,
                    stable: stable_how4::FILE_SYNC4,
                    data: vec![1],
                },
            ),
        ]
    };
    assert_eq!(s.run(1, &write(3)).status, nfsstat4::NFS4ERR_OPENMODE);
    s.ctx.capabilities = VFSCapabilities::ReadOnly;
    assert_eq!(s.run(1, &write(4)).status, nfsstat4::NFS4ERR_ROFS);
    assert_eq!(s.run(1, &open(3, 5)).status, nfsstat4::NFS4ERR_ROFS);
    // Reclaim claims come too late: there is no grace period.
    let a = s.run(
        1,
        &[
            sequence(id, 6, false),
            op(22, &PUTFH4args { object: id_to_fh(EPOCH, FILE) }),
            op(18, &open_args(cid, 0, 1, openflag4::OPEN4_NOCREATE, open_claim4::CLAIM_PREVIOUS(0))),
        ],
    );
    assert_eq!(a.status, nfsstat4::NFS4ERR_NO_GRACE);
}

#[test]
fn open_can_create() {
    let mut s = Server::new();
    let (id, cid) = session(&mut s);
    let a = s.run(
        1,
        &[
            sequence(id, 1, false),
            bare(24),
            op(
                18,
                &open_args(
                    cid,
                    0,
                    2,
                    openflag4::OPEN4_CREATE(createhow4::UNCHECKED4(fattr4::none())),
                    open_claim4::CLAIM_NULL(name(b"new")),
                ),
            ),
        ],
    );
    let mut src = a.ok();
    passes(&mut src, 53);
    SEQUENCE4resok::deserialize(&mut src).unwrap();
    passes(&mut src, 24);
    passes(&mut src, 18);
    let opened = OPEN4resok::deserialize(&mut src).unwrap();
    assert_eq!((opened.cinfo.before, opened.cinfo.after), (100, 101));
    assert_eq!(s.fs.find(b"new"), Some(12));
    assert_eq!(s.fs.opened, vec![12]);
}

#[test]
fn opens_of_40_are_sequenced_and_confirmed() {
    let mut s = Server::new();
    let cid = v40_client(&mut s);
    let open = |seqid: u32| {
        vec![
            bare(24),
            op(18, &open_args(cid, seqid, 1, openflag4::OPEN4_NOCREATE, open_claim4::CLAIM_NULL(name(b"a")))),
        ]
    };
    let a = s.run(0, &open(1));
    let mut src = a.ok();
    passes(&mut src, 24);
    passes(&mut src, 18);
    let opened = OPEN4resok::deserialize(&mut src).unwrap();
    assert_eq!(opened.rflags & 2, 2, "a new open-owner must be confirmed");
    let root = op(22, &PUTFH4args { object: id_to_fh(EPOCH, FILE) });
    let a = s.run(0, &[root.clone(), op(20, &OPEN_CONFIRM4args { open_stateid: opened.stateid, seqid: 2 })]);
    let mut src = a.ok();
    passes(&mut src, 22);
    passes(&mut src, 20);
    let confirmed = OPEN_CONFIRM4resok::deserialize(&mut src).unwrap().open_stateid;
    assert_eq!(confirmed.seqid, 2);
    // Operations that are not supported still take a number of the sequence.
    let down = OPEN_DOWNGRADE4args { open_stateid: confirmed, seqid: 3, share_access: 1, share_deny: 0 };
    assert_eq!(s.run(0, &[root.clone(), op(21, &down)]).status, nfsstat4::NFS4ERR_NOTSUPP);
    let lock = LOCK4args {
        locktype: 1,
        reclaim: false,
        offset: 0,
        length: 1,
        locker: locker4::New(open_to_lock_owner4 {
            open_seqid: 4,
            open_stateid: confirmed,
            lock_seqid: 0,
            lock_owner: state_owner4 { clientid: cid, owner: b"lo".to_vec() },
        }),
    };
    assert_eq!(s.run(0, &[root.clone(), op(12, &lock)]).status, nfsstat4::NFS4ERR_NOTSUPP);
    // A number from the middle of nowhere breaks the sequence.
    let close = |seqid: u32| op(4, &CLOSE4args { seqid, open_stateid: confirmed });
    let a = s.run(0, &[root.clone(), close(5)]);
    assert_eq!(a.status, nfsstat4::NFS4_OK);
    // A retransmit of the CLOSE gets the same answer.
    let again = s.run(0, &[root.clone(), close(5)]);
    assert_eq!(again.bytes, a.bytes);
    assert_eq!(s.run(0, &open(9)).status, nfsstat4::NFS4ERR_BAD_SEQID);
    assert_eq!(s.run(0, &[op(30, &RENEW4args { clientid: cid })]).status, nfsstat4::NFS4_OK);
}

#[test]
fn attributes_and_access() {
    let mut s = Server::new();
    let request = vec![(1 << 1) | (1 << 3) | (1 << 4), 1 << 1];
    let a = s.run(
        0,
        &[
            bare(24),
            op(15, &LOOKUP4args { objname: name(b"a") }),
            op(9, &GETATTR4args { attr_request: request }),
            op(3, &ACCESS4args { access: 0x3f }),
        ],
    );
    let mut src = a.ok();
    passes(&mut src, 24);
    passes(&mut src, 15);
    passes(&mut src, 9);
    let f = fattr4::deserialize(&mut src).unwrap();
    assert_eq!(f.size, Some(5));
    assert_eq!(f.mode, Some(0o644));
    assert_eq!(f.change, Some(100));
    assert!(f.ftype.is_some());
    assert!(f.owner.is_none());
    passes(&mut src, 3);
    let acc = ACCESS4resok::deserialize(&mut src).unwrap();
    // A regular file is neither looked up in nor deleted from.
    assert_eq!(acc.supported & 0x12, 0);
    assert_eq!(acc.access & !acc.supported, 0);
}

#[test]
fn directories_change() {
    let mut s = Server::new();
    let a = s.run(
        0,
        &[
            bare(24),
            op(
                6,
                &CREATE4args { objtype: createtype4::Directory, objname: name(b"d"), createattrs: fattr4::none() },
            ),
            bare(10),
        ],
    );
    let mut src = a.ok();
    passes(&mut src, 24);
    passes(&mut src, 6);
    let c = CREATE4resok::deserialize(&mut src).unwrap();
    assert_eq!(c.cinfo, change_info4 { atomic: c.cinfo.atomic, before: 100, after: 101 });
    passes(&mut src, 10);
    assert_eq!(nfs_fh::deserialize(&mut src), Ok(id_to_fh(EPOCH, 12)));

    let a = s.run(
        0,
        &[
            bare(24),
            bare(32),
            op(29, &RENAME4args { oldname: name(b"a"), newname: name(b"b") }),
        ],
    );
    let mut src = a.ok();
    passes(&mut src, 24);
    passes(&mut src, 32);
    passes(&mut src, 29);
    let r = RENAME4resok::deserialize(&mut src).unwrap();
    assert_eq!((r.source_cinfo.before, r.source_cinfo.after), (101, 102));
    assert_eq!((r.target_cinfo.before, r.target_cinfo.after), (101, 102));
    assert_eq!(s.fs.find(b"b"), Some(FILE));

    let a = s.run(0, &[bare(24), op(28, &REMOVE4args { target: name(b"b") })]);
    let mut src = a.ok();
    passes(&mut src, 24);
    passes(&mut src, 28);
    let r = REMOVE4resok::deserialize(&mut src).unwrap();
    assert_eq!((r.cinfo.before, r.cinfo.after), (102, 103));
    assert_eq!(s.fs.find(b"b"), None);

    // Only directories and links are made by CREATE.
    let a = s.run(
        0,
        &[
            bare(24),
            op(6, &CREATE4args { objtype: createtype4::Fifo, objname: name(b"f"), createattrs: fattr4::none() }),
        ],
    );
    assert_eq!(a.status, nfsstat4::NFS4ERR_NOTSUPP);
}

#[test]
fn readdir_lists_names() {
    let mut s = Server::new();
    let dir = |maxcount: u32| {
        vec![
            bare(24),
            op(
                26,
                &READDIR4args {
                    cookie: 0,
                    cookieverf: [0; 8],
                    dircount: 1000,
                    maxcount,
                    attr_request: vec![1 << 4],
                },
            ),
        ]
    };
    let a = s.run(0, &dir(1000));
    let mut src = a.ok();
    passes(&mut src, 24);
    passes(&mut src, 26);
    <[u8; 8]>::deserialize(&mut src).unwrap();
    for n in [b"a", b"l"] {
        assert_eq!(bool::deserialize(&mut src), Ok(true));
        u64::deserialize(&mut src).unwrap();
        assert_eq!(nfsstring::deserialize(&mut src).unwrap().0, n.to_vec());
        assert_eq!(fattr4::deserialize(&mut src).unwrap().size, Some(5));
    }
    assert_eq!(bool::deserialize(&mut src), Ok(false));
    assert_eq!(bool::deserialize(&mut src), Ok(true));
    assert_eq!(s.run(0, &dir(10)).status, nfsstat4::NFS4ERR_TOOSMALL);
    // The budget holds of an empty directory too: 20 bytes are the least.
    s.fs.names.clear();
    assert_eq!(s.run(0, &dir(19)).status, nfsstat4::NFS4ERR_TOOSMALL);
    let a = s.run(0, &dir(20));
    assert_eq!(a.status, nfsstat4::NFS4_OK);
    assert_eq!(a.bytes.len(), 8 + 4 + 20);
}

#[test]
fn links_are_read() {
    let mut s = Server::new();
    let a = s.run(0, &[bare(24), op(15, &LOOKUP4args { objname: name(b"l") }), bare(27)]);
    let mut src = a.ok();
    passes(&mut src, 24);
    passes(&mut src, 15);
    passes(&mut src, 27);
    assert_eq!(READLINK4resok::deserialize(&mut src).unwrap().link.0, b"a".to_vec());
    assert_eq!(s.run(0, &[bare(24), bare(27)]).status, nfsstat4::NFS4ERR_ISDIR);
    assert_eq!(s.run(0, &[bare(27)]).status, nfsstat4::NFS4ERR_NOFILEHANDLE);
}

#[test]
fn truncation_needs_an_open() {
    let mut s = Server::new();
    let (id, cid) = session(&mut s);
    let a = s.run(
        1,
        &[
            sequence(id, 1, false),
            bare(24),
            op(18, &open_args(cid, 0, 3, openflag4::OPEN4_NOCREATE, open_claim4::CLAIM_NULL(name(b"a")))),
        ],
    );
    let mut src = a.ok();
    passes(&mut src, 53);
    SEQUENCE4resok::deserialize(&mut src).unwrap();
    passes(&mut src, 24);
    passes(&mut src, 18);
    let opened = OPEN4resok::deserialize(&mut src).unwrap();
    let mut attrs = fattr4::none();
    attrs.size = Some(2);
    let a = s.run(
        1,
        &[
            sequence(id, 2, false),
            op(22, &PUTFH4args { object: id_to_fh(EPOCH, FILE) }),
            op(34, &SETATTR4args { stateid: opened.stateid, obj_attributes: attrs }),
        ],
    );
    let mut src = a.ok();
    passes(&mut src, 53);
    SEQUENCE4resok::deserialize(&mut src).unwrap();
    passes(&mut src, 22);
    passes(&mut src, 34);
    assert_eq!(Vec::<u32>::deserialize(&mut src), Ok(vec![1 << 4]));
    assert_eq!(s.fs.data, b"he".to_vec());
}

#[test]
fn secinfo_uses_up_the_filehandle() {
    let mut s = Server::new();
    let (id, _) = session(&mut s);
    let a = s.run(
        1,
        &[
            sequence(id, 1, false),
            bare(24),
            op(52, &SECINFO_NO_NAME4args { style: secinfo_style4::SECINFO_STYLE4_CURRENT_FH }),
            bare(10),
        ],
    );
    assert_eq!(a.status, nfsstat4::NFS4ERR_NOFILEHANDLE);
    assert_eq!(a.count, 4);
    let a = s.run(1, &[sequence(id, 2, false), bare(24), op(33, &SECINFO4args { name: name(b"a") })]);
    assert_eq!(a.status, nfsstat4::NFS4_OK);
}

#[test]
fn saved_handles_come_back() {
    let mut s = Server::new();
    let a = s.run(
        0,
        &[
            bare(24),
            bare(32),
            op(15, &LOOKUP4args { objname: name(b"a") }),
            bare(31),
            bare(10),
        ],
    );
    let mut src = a.ok();
    for n in [24, 32, 15, 31, 10] {
        passes(&mut src, n);
    }
    assert_eq!(nfs_fh::deserialize(&mut src), Ok(id_to_fh(EPOCH, ROOT)));
    assert_eq!(s.run(0, &[bare(31)]).status, nfsstat4::NFS4ERR_RESTOREFH);
    // A handle of another boot is stale, other bytes are no handle.
    let stale = op(22, &PUTFH4args { object: id_to_fh(EPOCH + 1, ROOT) });
    assert_eq!(s.run(0, &[stale]).status, nfsstat4::NFS4ERR_STALE);
    let bad = op(22, &PUTFH4args { object: nfs_fh { data: vec![1, 2, 3] } });
    assert_eq!(s.run(0, &[bad]).status, nfsstat4::NFS4ERR_BADHANDLE);
}

#[test]
fn ids_are_what_was_drawn() {
    let mut s = Server::new();
    let input = compound(1, &[exchange_id(state_protect_how4::SP4_NONE)]);
    let begin = |input: &Vec<u8>| match handle_nfs(9, 1, input) {
        Ok(Begun::Run(c)) => c,
        _ => panic!("no run"),
    };
    // Without randomness nothing is done.
    let mut c = begin(&input);
    assert!(matches!(
        c.next_op_as(&input, &mut s.st, &mut s.ctx, s.now, nothing_drawn()),
        Ok(Progress::Next)
    ));
    assert_eq!(Answer::of(&c.finish(&mut s.st, &s.ctx).unwrap()).status, nfsstat4::NFS4ERR_SERVERFAULT);
    assert_eq!(s.st.census().clients, 0);
    assert_eq!(s.ctx.client_id(), None);

    let cid = ((EPOCH as u64) << 32) + 5;
    let mut c = begin(&input);
    let drawn = Draws { clientid: Ok(cid), ..nothing_drawn() };
    assert!(matches!(c.next_op_as(&input, &mut s.st, &mut s.ctx, s.now, drawn), Ok(Progress::Next)));
    let a = Answer::of(&c.finish(&mut s.st, &s.ctx).unwrap());
    let mut src = a.ok();
    passes(&mut src, 42);
    assert_eq!(EXCHANGE_ID4resok::deserialize(&mut src).unwrap().eir_clientid, cid);
    assert_eq!(s.ctx.client_id(), Some(cid));
}

#[test]
fn a_reply_to_be_cached_needs_a_client() {
    let mut s = Server::new();
    let (id, _) = session(&mut s);
    let input = compound(1, &[sequence(id, 1, true)]);
    let mut c = match handle_nfs(9, 1, &input) {
        Ok(Begun::Run(c)) => c,
        _ => panic!("no run"),
    };
    assert!(matches!(c.next_op(&input, &mut s.st, &mut s.ctx, s.now), Ok(Progress::Next)));
    s.ctx.clear_client_id();
    assert_eq!(c.finish(&mut s.st, &s.ctx), Err(CompoundError::NoClient));
    // A connection that speaks for nobody is refused its SEQUENCE.
    assert_eq!(s.run(1, &[sequence(id, 2, true)]).status, nfsstat4::NFS4ERR_BAD_STATEID);
}
