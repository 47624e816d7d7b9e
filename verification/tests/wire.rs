use nfs4_server::nfs::{fh_to_id, id_to_fh, nfs_fh, nfsstring, specdata, write_verifier, PROGRAM};
use nfs4_server::nfs3::{fattr3, ftype3, nfsstat3, nfstime3};
use nfs4_server::nfs4::attr::{fattr4, has_bit, nfsace4};
use nfs4_server::nfs4::session::{
    callback_sec_parms4, cbsp_authsys, impl_id_optional, nfs_impl_id4, ssv_sp_parms4, state_protect4_a,
    state_protect_how4,
};
use nfs4_server::nfs4::{fsid4, ftype4, nfs_opnum4, nfs_opnum40, nfsstat4, nfstime4, stateid4};
use nfs4_server::rpc::{make_success_reply, proc_unavail_reply_message};
use nfs4_server::table::Table;
use nfs4_server::xdr::{Reader, XdrError, XDR};

fn wire<T: XDR>(v: &T) -> Vec<u8> {
    let mut out = Vec::new();
    v.serialize(&mut out);
    out
}

fn read<T: XDR>(b: &[u8]) -> Result<T, XdrError> {
    T::deserialize(&mut Reader::new(b))
}

#[test]
fn words_are_big_endian() {
    assert_eq!(wire(&0x0102_0304u32), vec![1, 2, 3, 4]);
    assert_eq!(wire(&0x0102_0304_0506_0708u64), vec![1, 2, 3, 4, 5, 6, 7, 8]);
    assert_eq!(wire(&-2i64), vec![255, 255, 255, 255, 255, 255, 255, 254]);
    assert_eq!(read::<i64>(&[255, 255, 255, 255, 255, 255, 255, 254]), Ok(-2));
    assert_eq!(read::<u32>(&[1, 2, 3]), Err(XdrError::UnexpectedEof));
    assert_eq!(wire(&true), vec![0, 0, 0, 1]);
}

#[test]
fn strings_are_padded() {
    assert_eq!(wire(&nfsstring(b"abcde".to_vec())), b"\0\0\0\x05abcde\0\0\0".to_vec());
    assert_eq!(read::<nfsstring>(b"\0\0\0\x05abcde\0\0\0").unwrap().0, b"abcde".to_vec());
    assert_eq!(read::<nfsstring>(b"\0\0\0\x05abcd"), Err(XdrError::UnexpectedEof));
    assert_eq!(wire(&vec![7u32, 8]), vec![0, 0, 0, 2, 0, 0, 0, 7, 0, 0, 0, 8]);
}

#[test]
fn strings_convert() {
    let s = nfsstring::from("h\u{e9}".to_string());
    assert_eq!(s.0, vec![b'h', 0xc3, 0xa9]);
    assert_eq!(nfsstring::from(&b"xy"[..]).0, b"xy".to_vec());
    assert_eq!(nfsstring::from(b"xy".to_vec()).0, b"xy".to_vec());
    assert_eq!(s.as_ref(), &[b'h', 0xc3, 0xa9][..]);
    assert_eq!(s.len(), 3);
    assert!(!s.is_empty());
    assert!(nfsstring(vec![]).is_empty());
    assert_eq!(s.first(), Some(&b'h'));
}

#[test]
fn handles_name_their_files() {
    assert_eq!(PROGRAM, 100003);
    let fh = id_to_fh(7, 0x0102_0304_0506_0708);
    assert_eq!(fh_to_id(7, &fh), Ok(0x0102_0304_0506_0708));
    assert_eq!(fh_to_id(8, &fh), Err(nfsstat3::NFS3ERR_STALE));
    assert_eq!(fh_to_id(7, &nfs_fh { data: vec![0; 3] }), Err(nfsstat3::NFS3ERR_BADHANDLE));
    assert_eq!(write_verifier(0x0403_0201), [1, 2, 3, 4, 0xA5, 0xA5, 0xA5, 0xA5]);
    assert!(nfs_fh::default().data.is_empty());
}

#[test]
fn statuses_carry_over() {
    assert_eq!(nfsstat4::from(nfsstat3::NFS3ERR_NOENT), nfsstat4::NFS4ERR_NOENT);
    assert_eq!(nfsstat4::from(nfsstat3::NFS3ERR_ACCES), nfsstat4::NFS4ERR_ACCESS);
    assert_eq!(nfsstat4::from(nfsstat3::NFS3ERR_JUKEBOX), nfsstat4::NFS4ERR_DELAY);
    assert_eq!(wire(&nfsstat4::NFS4ERR_NOENT), vec![0, 0, 0, 2]);
    assert_eq!(read::<nfsstat4>(&[0, 0, 0x27, 0x3c]).map(|s| s.to_u32()), Ok(10044));
    assert_eq!(read::<nfsstat4>(&[0x7f, 0, 0, 0]), Err(XdrError::InvalidData));
    assert_eq!(ftype4::from(ftype3::NF3DIR), ftype4::NF4DIR);
    assert_eq!(ftype4::NF4DIR.to_u32(), 2);
    assert_eq!(nfs_opnum4::OP_SEQUENCE.to_u32(), 53);
    assert!(matches!(nfs_opnum4::from_u32(18), Some(nfs_opnum4::OP_OPEN)));
    assert!(nfs_opnum4::from_u32(35).is_none());
    assert!(matches!(nfs_opnum40::from_u32(35), Some(nfs_opnum40::OP_SETCLIENTID)));
    assert!(nfs_opnum40::from_u32(18).is_none());
}

#[test]
fn replies_are_framed() {
    assert_eq!(make_success_reply(5).len(), 24);
    assert_eq!(make_success_reply(5)[..8].to_vec(), vec![0, 0, 0, 5, 0, 0, 0, 1]);
    assert_eq!(proc_unavail_reply_message(5)[20..].to_vec(), vec![0, 0, 0, 3]);
}

fn sample() -> fattr3 {
    fattr3 {
        ftype: ftype3::NF3REG,
        mode: 0o600,
        nlink: 2,
        uid: 1000,
        gid: 100,
        size: 77,
        used: 512,
        rdev: specdata { specdata1: 3, specdata2: 4 },
        fsid: 9,
        fileid: 42,
        atime: nfstime3 { seconds: 1, nseconds: 2 },
        mtime: nfstime3 { seconds: 3, nseconds: 4 },
        ctime: nfstime3 { seconds: 5, nseconds: 6 },
    }
}

#[test]
fn attributes_of_a_file() {
    let a = fattr4::from_fattr3(&sample());
    assert_eq!(a.ftype, Some(ftype4::NF4REG));
    assert_eq!(a.size, Some(77));
    assert_eq!(a.change, Some(5));
    assert_eq!(a.fsid, Some(fsid4 { major: 9, minor: 0 }));
    assert_eq!(a.fileid, Some(42));
    assert_eq!(a.mode, Some(0o600));
    assert_eq!(a.numlinks, Some(2));
    assert_eq!(a.rawdev, Some(specdata { specdata1: 3, specdata2: 4 }));
    assert_eq!(a.time_access, Some(nfstime4 { seconds: 1, nseconds: 2 }));
    assert_eq!(a.time_metadata, Some(nfstime4 { seconds: 5, nseconds: 6 }));
    assert!(a.owner.is_none() && a.owner_group.is_none() && a.lease_time.is_none());
    assert_eq!(a.supported_attrs, Some(vec![0x180fff, 0x30a23a]));
    assert_eq!(a.space_used, Some(512));
    assert_eq!(a.time_modify, Some(nfstime4 { seconds: 3, nseconds: 4 }));
    let b: fattr4 = read(&wire(&a)).unwrap();
    assert_eq!(b, a);
}

#[test]
fn only_what_was_asked_for_stays() {
    let mut a = fattr4::from_fattr3(&sample());
    a.retain_requested(&vec![1 << 4, 1 << 1]);
    assert_eq!(a.size, Some(77));
    assert_eq!(a.mode, Some(0o600));
    assert!(a.ftype.is_none() && a.owner.is_none() && a.change.is_none());
    // mask of two words, then 8 + 4 bytes of values
    assert_eq!(
        wire(&a),
        vec![0, 0, 0, 2, 0, 0, 0, 16, 0, 0, 0, 2, 0, 0, 0, 12, 0, 0, 0, 0, 0, 0, 0, 77, 0, 0, 1, 0x80]
    );
    let mut none = fattr4::from_fattr3(&sample());
    none.retain_requested(&vec![]);
    assert_eq!(none, fattr4::none());
    assert_eq!(wire(&none), vec![0, 0, 0, 0, 0, 0, 0, 0]);
}

#[test]
fn settable_attributes() {
    let mut a = fattr4::none();
    a.size = Some(3);
    a.mode = Some(0o755);
    let (s, bits) = a.to_sattr3().unwrap();
    assert_eq!((s.size, s.mode, s.uid, s.gid), (Some(3), Some(0o755), None, None));
    assert_eq!(bits, vec![1 << 4, 1 << 1]);
    a.fileid = Some(1);
    assert_eq!(a.to_sattr3(), Err(20));
    assert!(has_bit(&vec![0, 2], 33));
    assert!(!has_bit(&vec![0, 2], 1));
    assert!(!has_bit(&vec![0, 2], 64));
}

#[test]
fn attributes_are_read_by_their_mask() {
    // The bit of an attribute that there is not says nothing.
    assert_eq!(read::<fattr4>(&[0, 0, 0, 2, 0, 0, 0, 0, 0x80, 0, 0, 0, 0, 0, 0, 0]), Ok(fattr4::none()));
    // A size whose bytes are missing.
    assert_eq!(read::<fattr4>(&[0, 0, 0, 1, 0, 0, 0, 16, 0, 0, 0, 4, 0, 0, 0, 1]), Err(XdrError::UnexpectedEof));
    let ace = nfsace4 { acetype: 1, aceflag: 2, acemask: 3, who: nfsstring(b"OWNER@".to_vec()) };
    let mut a = fattr4::none();
    a.acl = Some(vec![ace]);
    assert_eq!(read::<fattr4>(&wire(&a)), Ok(a));
}

#[test]
fn unions_read_back() {
    let p = state_protect4_a {
        spa_how: state_protect_how4::SP4_SSV,
        spa_mach_ops: None,
        spa_ssv: Some(ssv_sp_parms4 {
            ssp_ops_enforce: vec![1],
            ssp_ops_allow: vec![],
            ssp_hash_algs: vec![nfsstring(b"h".to_vec())],
            ssp_encr_algs: vec![],
            ssp_window: 4,
            ssp_num_gss_handles: 5,
        }),
    };
    assert_eq!(read::<state_protect4_a>(&wire(&p)), Ok(p));
    assert_eq!(read::<state_protect_how4>(&[0, 0, 0, 9]), Err(XdrError::InvalidData));
    let c = callback_sec_parms4 {
        cb_secflavor: 1,
        cb_sys: Some(cbsp_authsys {
            stamp: 1,
            machinename: nfsstring(b"m".to_vec()),
            uid: 2,
            gid: 3,
            gids: vec![4, 5],
        }),
        cb_gss_raw: None,
    };
    assert_eq!(read::<callback_sec_parms4>(&wire(&c)), Ok(c));
    let i = impl_id_optional(Some(nfs_impl_id4 {
        nii_domain: nfsstring(b"d".to_vec()),
        nii_name: nfsstring(b"n".to_vec()),
        nii_date: nfstime4 { seconds: -1, nseconds: 2 },
    }));
    assert_eq!(read::<impl_id_optional>(&wire(&i)), Ok(i));
    assert_eq!(wire(&impl_id_optional(None)), vec![0, 0, 0, 0]);
    let s = stateid4 { seqid: 9, other: [3; 12] };
    assert_eq!(wire(&s).len(), 16);
    assert_eq!(read::<stateid4>(&wire(&s)), Ok(s));
}

#[test]
fn tables_map_keys_to_values() {
    let mut t: Table<Vec<u8>, u64> = Table::new();
    assert!(t.is_empty());
    t.insert(b"a".to_vec(), 1);
    t.insert(b"b".to_vec(), 2);
    t.insert(b"a".to_vec(), 3);
    assert_eq!(t.len(), 2);
    assert_eq!(t.get(&b"a".to_vec()), Some(&3));
    if let Some(v) = t.get_mut(&b"b".to_vec()) {
        *v = 5;
    }
    assert_eq!(t.remove(&b"b".to_vec()), Some(5));
    assert_eq!(t.remove(&b"b".to_vec()), None);
    assert!(t.contains_key(&b"a".to_vec()));
    assert_eq!((t.key_at(0), t.value_at(0)), (&b"a".to_vec(), &3));
}
