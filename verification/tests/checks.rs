use destinypkg::integrity::VerifyReport;
use destinypkg::package::Package;
use destinypkg::structs::BlockHeader;
use rsa::pkcs1::EncodeRsaPublicKey;
use sha1::Digest;

fn put_u16(c: &mut Vec<u8>, off: usize, v: u16) {
    c[off..off + 2].copy_from_slice(&v.to_be_bytes());
}

fn put_u32(c: &mut Vec<u8>, off: usize, v: u32) {
    c[off..off + 4].copy_from_slice(&v.to_be_bytes());
}

fn sha1_of(data: &[u8]) -> Vec<u8> {
    sha1::Sha1::digest(data).to_vec()
}

/// A container with one entry record at 320, one block record at 336, and
/// room for a 256-byte header signature at 368; both table hashes filled in
/// correctly.
fn build_container() -> Vec<u8> {
    let mut c = vec![0u8; 320 + 16 + 32 + 256];
    put_u32(&mut c, 0, 0xdeadbeef);
    put_u16(&mut c, 34, 1); // language: English
    put_u32(&mut c, 176, 368); // header signature offset
    put_u32(&mut c, 180, 1); // entry table size
    put_u32(&mut c, 184, 320); // entry table offset
    put_u32(&mut c, 208, 1); // block table size
    put_u32(&mut c, 212, 336); // block table offset
    for i in 0..16 {
        c[320 + i] = 0x40 + i as u8; // entry record bytes
    }
    for i in 0..32 {
        c[336 + i] = 0x80u8.wrapping_add(i as u8); // block record bytes
    }
    let eh = sha1_of(&c[320..336]);
    c[188..208].copy_from_slice(&eh);
    let bh = sha1_of(&c[336..368]);
    c[216..236].copy_from_slice(&bh);
    c
}

#[test]
fn table_hashes_verify_and_detect_tampering() {
    let c = build_container();
    let p = Package::read(&c).unwrap();
    assert!(p.verify_entry_table_hash(&c));
    assert!(p.verify_block_table_hash(&c));
    let mut tampered = c.clone();
    tampered[321] ^= 1; // a byte inside the entry table
    assert!(!p.verify_entry_table_hash(&tampered));
    assert!(p.verify_block_table_hash(&tampered));
    let mut tampered2 = c.clone();
    tampered2[340] ^= 1; // a byte inside the block table
    assert!(p.verify_entry_table_hash(&tampered2));
    assert!(!p.verify_block_table_hash(&tampered2));
}

#[test]
fn block_hash_known_vector() {
    // SHA-1("abc")
    let digest = vec![
        0xa9, 0x99, 0x3e, 0x36, 0x47, 0x06, 0x81, 0x6a, 0xba, 0x3e, 0x25, 0x71, 0x78, 0x50, 0xc2,
        0x6c, 0x9c, 0xd0, 0xd8, 0x9d,
    ];
    let block = BlockHeader { offset: 0, size: 3, patch_id: 0, flags: 0, hash: digest };
    let mut p = Package::read(&build_container()).unwrap();
    p.blocks = vec![block];
    assert!(p.block_hash_ok(0, &b"abc".to_vec()));
    assert!(!p.block_hash_ok(0, &b"abd".to_vec()));
}

#[test]
fn single_tampered_block_fails_alone() {
    // two blocks with correct hashes; flip one byte of the first block's raw
    // bytes: exactly that block's check fails and the count moves by one
    let raw0 = vec![1u8, 2, 3, 4];
    let raw1 = vec![9u8, 8, 7];
    let b0 = BlockHeader { offset: 0, size: 4, patch_id: 0, flags: 0, hash: sha1_of(&raw0) };
    let b1 = BlockHeader { offset: 0, size: 3, patch_id: 0, flags: 0, hash: sha1_of(&raw1) };
    let mut p = Package::read(&build_container()).unwrap();
    p.blocks = vec![b0, b1];
    let raws = vec![raw0.clone(), raw1.clone()];
    assert_eq!(p.count_block_hash_failures(&raws), 0);
    let mut tampered0 = raw0.clone();
    tampered0[2] ^= 1;
    let raws2 = vec![tampered0, raw1.clone()];
    assert_eq!(p.count_block_hash_failures(&raws2), 1);
    assert!(!p.block_hash_ok(0, &raws2[0]));
    assert!(p.block_hash_ok(1, &raws2[1]));
}

#[test]
fn signature_verifies_and_header_tampering_breaks_only_it() {
    let mut c = build_container();
    let mut rng = rand::thread_rng();
    let priv_key = rsa::RsaPrivateKey::new(&mut rng, 2048).unwrap();
    let pub_key = rsa::RsaPublicKey::from(&priv_key);
    let key_der = pub_key.to_pkcs1_der().unwrap().as_bytes().to_vec();
    let digest = sha2::Sha256::digest(&c[0..320]).to_vec();
    let sig = priv_key
        .sign_with_rng(&mut rng, rsa::Pss::new_with_salt::<sha2::Sha256>(16), &digest)
        .unwrap();
    assert_eq!(sig.len(), 256);
    c[368..624].copy_from_slice(&sig);
    let p = Package::read(&c).unwrap();
    assert!(p.verify_header_signature(&c, &key_der));
    // tampering one byte of the signed 320-byte header region
    let mut tampered = c.clone();
    tampered[8] ^= 1;
    assert!(!p.verify_header_signature(&tampered, &key_der));
    // while both table hash checks are unaffected
    assert!(p.verify_entry_table_hash(&tampered));
    assert!(p.verify_block_table_hash(&tampered));
    // and a garbage key verifies nothing
    assert!(!p.verify_header_signature(&c, &vec![1u8, 2, 3]));
}

#[test]
fn signature_region_out_of_bounds_fails() {
    // the declared signature offset leaves no room for 256 bytes
    let mut c = build_container();
    let bad_offset = (c.len() - 10) as u32;
    put_u32(&mut c, 176, bad_offset);
    let p = Package::read(&c).unwrap();
    assert!(!p.verify_header_signature(&c, &vec![0u8; 4]));
}

#[test]
fn report_collects_all_checks() {
    let c = build_container();
    let p = Package::read(&c).unwrap();
    let raw = vec![5u8; 4];
    let mut p2 = p;
    p2.blocks = vec![BlockHeader { offset: 0, size: 4, patch_id: 0, flags: 0, hash: sha1_of(&raw) }];
    p2.entries.clear();
    let raws = vec![raw];
    let report: VerifyReport = p2.verify(&c, &vec![0u8; 4], &raws, 3);
    assert!(!report.header_signature_ok); // no signature was embedded
    assert!(report.entry_table_hash_ok);
    assert!(report.block_table_hash_ok);
    assert_eq!(report.block_hash_failures, 0);
    assert_eq!(report.decompression_failures, 3);
    assert_eq!(report.entry_failures, 0);
}

#[test]
fn unreachable_entries_are_counted() {
    let mut p = Package::read(&build_container()).unwrap();
    p.blocks = vec![BlockHeader { offset: 0, size: 16, patch_id: 0, flags: 0, hash: vec![0u8; 20] }];
    p.entries = vec![
        destinypkg::structs::EntryHeader {
            reference: 0,
            flags: 0,
            num_type: 0,
            num_subtype: 0,
            starting_block: 0,
            starting_block_offset: 0,
            file_size: 16, // fits in the single block
        },
        destinypkg::structs::EntryHeader {
            reference: 0,
            flags: 0,
            num_type: 0,
            num_subtype: 0,
            starting_block: 0,
            starting_block_offset: 0,
            file_size: 17, // would need a second block that does not exist
        },
        destinypkg::structs::EntryHeader {
            reference: 0,
            flags: 0,
            num_type: 0,
            num_subtype: 0,
            starting_block: 3, // outside the table
            starting_block_offset: 0,
            file_size: 1,
        },
    ];
    assert_eq!(p.count_unreachable_entries(), 2);
}
