use secure_delete::crypto::{aead_encrypt, derive_kek, random_bytes, CryptoError};
use secure_delete::vault::{Header, Kdf, Vault, VaultError, M_COST, P_COST, T_COST, VERSION};

/// A header with cheap KDF costs, so the logic tests stay fast.
fn cheap_header(pass: &[u8]) -> Header {
    let salt = b"0123456789abcdef";
    let kek = derive_kek(pass, salt, 8, 1, 1).unwrap();
    let mk = random_bytes(32).unwrap();
    let wrapped = Vault::seal(&kek, &mk).unwrap();
    Header {
        version: VERSION,
        kdf: Kdf { alg: "argon2id".to_string(), salt: "MDEyMzQ1Njc4OWFiY2RlZg==".to_string(), m_cost: 8, t_cost: 1, p_cost: 1 },
        wrapped_master: wrapped,
        entries: vec![],
    }
}

fn open_data(v: &Vault, h: &Header, pass: &[u8], id: &str, blob: &[u8]) -> Result<(String, Vec<u8>), VaultError> {
    let o = v.open(h, pass, id)?;
    let data = v.decrypt_blob(&o, blob)?;
    Ok((o.name, data))
}

#[test]
fn add_open_roundtrip() {
    let v = Vault::new("vault".to_string());
    let mut h = v.init(b"correct horse", false).unwrap();
    let (id, blob) = v.add(&mut h, b"correct horse", Some("secret.txt"), b"top secret payload").unwrap();
    let (name, data) = open_data(&v, &h, b"correct horse", &id, &blob).unwrap();
    assert_eq!(name, "secret.txt");
    assert_eq!(data, b"top secret payload");
}

#[test]
fn wrong_passphrase_fails() {
    let v = Vault::new("vault".to_string());
    let mut h = cheap_header(b"right");
    let (id, blob) = v.add(&mut h, b"right", Some("a.txt"), b"data").unwrap();
    assert!(open_data(&v, &h, b"wrong", &id, &blob).is_err());
    assert_eq!(v.open(&h, b"wrong", &id).err().unwrap(), VaultError::Crypto(secure_delete::crypto::CryptoError::Decrypt));
}

#[test]
fn shred_removes_file_and_rekeys_survivors() {
    let v = Vault::new("vault".to_string());
    let mut h = cheap_header(b"pw");
    let (id1, blob1) = v.add(&mut h, b"pw", Some("one.txt"), b"one").unwrap();
    let (id2, blob2) = v.add(&mut h, b"pw", Some("two.txt"), b"two").unwrap();
    let old_wrapped = h.wrapped_master.ct.clone();
    let old_meta2 = h.entries[1].meta.ct.clone();

    v.shred(&mut h, b"pw", &id1).unwrap();

    assert_eq!(v.open(&h, b"pw", &id1).err().unwrap(), VaultError::NoSuchEntry);
    assert!(open_data(&v, &h, b"pw", &id1, &blob1).is_err());
    let (name2, data2) = open_data(&v, &h, b"pw", &id2, &blob2).unwrap();
    assert_eq!(name2, "two.txt");
    assert_eq!(data2, b"two");
    assert_eq!(h.entries.len(), 1);
    assert_ne!(h.wrapped_master.ct, old_wrapped, "the master key is re-wrapped");
    assert_ne!(h.entries[0].meta.ct, old_meta2, "survivors are re-sealed");
    assert_eq!(v.blob_path(&id1), format!("vault/blobs/{id1}.bin"));
}

#[test]
fn init_writes_default_kdf_and_refuses_existing() {
    let v = Vault::new("v".to_string());
    assert_eq!(v.init(b"pw", true).err().unwrap(), VaultError::AlreadyExists);
    let h = v.init(b"pw", false).unwrap();
    assert_eq!(h.version, 1);
    assert_eq!(h.kdf.alg, "argon2id");
    assert_eq!((h.kdf.m_cost, h.kdf.t_cost, h.kdf.p_cost), (M_COST, T_COST, P_COST));
    assert_eq!(M_COST, 64 * 1024);
    assert!(h.entries.is_empty());
    assert_eq!(Vault::open_master(&h, b"pw").unwrap().len(), 32);
}

#[test]
fn list_shows_ids_names_and_sizes() {
    let v = Vault::new("v".to_string());
    let mut h = cheap_header(b"pw");
    let (id1, _) = v.add(&mut h, b"pw", Some("a.txt"), b"12345").unwrap();
    let (id2, _) = v.add(&mut h, b"pw", None, b"").unwrap();
    let rows = v.list(&h, b"pw").unwrap();
    assert_eq!(rows, vec![(id1, "a.txt".to_string(), 5u64), (id2, "file".to_string(), 0u64)]);
    assert!(v.list(&h, b"nope").is_err());
}

#[test]
fn entry_ids_are_filename_safe() {
    let v = Vault::new("v".to_string());
    let mut h = cheap_header(b"pw");
    for _ in 0..8 {
        let (id, _) = v.add(&mut h, b"pw", Some("x"), b"x").unwrap();
        assert!(!id.contains('/') && !id.contains('+') && !id.contains('='));
        assert!(id.chars().all(|c| c.is_ascii_alphanumeric()));
        assert!(!id.is_empty() && id.len() <= 22);
    }
}

#[test]
fn tampered_blob_is_rejected() {
    let v = Vault::new("v".to_string());
    let mut h = cheap_header(b"pw");
    let (id, mut blob) = v.add(&mut h, b"pw", Some("f"), b"payload").unwrap();
    assert_eq!(blob.len(), b"payload".len() + 16);
    assert_ne!(&blob[..7], b"payload");
    blob[0] ^= 1;
    assert!(open_data(&v, &h, b"pw", &id, &blob).is_err());
}

#[test]
fn rekey_moves_every_entry_to_the_new_passphrase() {
    let v = Vault::new("v".to_string());
    let mut h = cheap_header(b"old");
    let (id, blob) = v.add(&mut h, b"old", Some("f"), b"payload").unwrap();
    let old_salt = h.kdf.salt.clone();
    v.rekey(&mut h, b"old", b"new-pass-phrase").unwrap();
    assert_ne!(h.kdf.salt, old_salt);
    assert_eq!((h.kdf.m_cost, h.kdf.t_cost, h.kdf.p_cost), (M_COST, T_COST, P_COST));
    assert!(v.open(&h, b"old", &id).is_err(), "old passphrase must die");
    assert_eq!(open_data(&v, &h, b"new-pass-phrase", &id, &blob).unwrap().1, b"payload");
}

#[test]
fn rekey_with_wrong_passphrase_changes_nothing() {
    let v = Vault::new("v".to_string());
    let mut h = cheap_header(b"old");
    let before = h.wrapped_master.ct.clone();
    assert!(v.rekey(&mut h, b"bad", b"new").is_err());
    assert_eq!(h.wrapped_master.ct, before);
}

#[test]
fn paths_join_under_the_root() {
    assert_eq!(Vault::new("vault".to_string()).header_path(), "vault/header.json");
    assert_eq!(Vault::new("vault/".to_string()).header_path(), "vault/header.json");
    assert_eq!(Vault::new("".to_string()).header_path(), "header.json");
    assert_eq!(Vault::new("/tmp/v".to_string()).blobs_dir(), "/tmp/v/blobs");
    assert_eq!(Vault::new("/tmp/v".to_string()).blob_path("abc"), "/tmp/v/blobs/abc.bin");
}

#[test]
fn seal_unseal_roundtrip_and_key_separation() {
    let k1 = [1u8; 32];
    let k2 = [2u8; 32];
    let s = Vault::seal(&k1, b"hello").unwrap();
    assert_eq!(Vault::unseal(&k1, &s).unwrap(), b"hello");
    assert!(Vault::unseal(&k2, &s).is_err());
    let mut bad = Vault::seal(&k1, b"hello").unwrap();
    bad.nonce = "AAAAAAAAAAAAAAA=".to_string();
    assert_eq!(Vault::unseal(&k1, &bad).err().unwrap(), VaultError::BadNonceLength);
    bad.nonce = "***".to_string();
    assert_eq!(Vault::unseal(&k1, &bad).err().unwrap(), VaultError::BadBase64);
}

#[test]
fn corrupt_kdf_settings_fail_cleanly() {
    let v = Vault::new("v".to_string());
    let mut h = cheap_header(b"pw");
    h.kdf.p_cost = 0x1FFF_FFFF;
    assert!(v.list(&h, b"pw").is_err());
    h.kdf.p_cost = 1;
    h.kdf.salt = "!!".to_string();
    assert_eq!(v.list(&h, b"pw").err().unwrap(), VaultError::BadBase64);
}

#[test]
fn errors_name_what_failed() {
    let v = Vault::new("v".to_string());
    let mut h = cheap_header(b"pw");
    let (id1, _) = v.add(&mut h, b"pw", Some("a"), b"a").unwrap();
    let (id2, blob2) = v.add(&mut h, b"pw", Some("b"), b"b").unwrap();
    let mk = Vault::open_master(&h, b"pw").unwrap();

    // a meta that opens but is not the {name, dek} object
    let mut not_json = cheap_header(b"pw");
    not_json.wrapped_master = h.wrapped_master.duplicate();
    not_json.kdf.salt = h.kdf.salt.clone();
    let mut e = h.entries[0].duplicate();
    e.meta = Vault::seal(&mk, b"not json").unwrap();
    not_json.entries.push(e);
    assert_eq!(v.list(&not_json, b"pw").err().unwrap(), VaultError::BadMeta);
    assert_eq!(v.open(&not_json, b"pw", &id1).err().unwrap(), VaultError::BadMeta);

    // shredding reports the first survivor that does not unseal, and leaves the header alone
    let mut broken = cheap_header(b"pw");
    broken.wrapped_master = h.wrapped_master.duplicate();
    broken.kdf.salt = h.kdf.salt.clone();
    broken.entries.push(h.entries[0].duplicate());
    let mut bad = h.entries[1].duplicate();
    bad.meta.nonce = "AAAA".to_string();
    broken.entries.push(bad);
    assert_eq!(v.shred(&mut broken, b"pw", &id1).err().unwrap(), VaultError::BadNonceLength);
    assert_eq!(broken.entries.len(), 2);
    assert_eq!(v.shred(&mut broken, b"pw", "nope").err().unwrap(), VaultError::NoSuchEntry);

    // decrypting a blob: a wrong-length key, a bad nonce, a wrong blob
    let mut o = v.open(&h, b"pw", &id2).unwrap();
    assert_eq!(v.decrypt_blob(&o, &blob2).unwrap(), b"b");
    assert!(v.decrypt_blob(&o, b"0123456789abcdefXX").is_err());
    o.blob_nonce = "AAAA".to_string();
    assert_eq!(v.decrypt_blob(&o, &blob2).err().unwrap(), VaultError::BadBlobNonce);
    o.dek.truncate(31);
    assert_eq!(v.decrypt_blob(&o, &blob2).err().unwrap(), VaultError::CorruptDataKey);
}

#[test]
fn reject_future_version() {
    let v = Vault::new("vault".to_string());
    let mut h = cheap_header(b"correct horse battery");
    h.version = 99;
    let err = v.list(&h, b"correct horse battery").unwrap_err();
    assert_eq!(err, VaultError::NewerVersion);
    assert!(err.message().contains("newer secure-delete"), "got: {}", err.message());
    assert_eq!(Vault::open_master(&h, b"correct horse battery").unwrap_err(), VaultError::NewerVersion);
    assert_eq!(v.open(&h, b"correct horse battery", "x").err().unwrap(), VaultError::NewerVersion);
}

#[test]
fn seal_with_is_deterministic_in_its_nonce() {
    let key = [7u8; 32];
    let a = Vault::seal_with(&key, &[1u8; 12], b"hello").unwrap();
    let b = Vault::seal_with(&key, &[1u8; 12], b"hello").unwrap();
    let c = Vault::seal_with(&key, &[2u8; 12], b"hello").unwrap();
    assert_eq!(a.nonce, "AQEBAQEBAQEBAQEB");
    assert_eq!(a.ct, b.ct);
    assert_ne!(a.ct, c.ct);
    assert_ne!(a.ct, "aGVsbG8=", "the plaintext is encrypted, not just encoded");
    assert_eq!(Vault::unseal(&key, &a).unwrap(), b"hello");
    assert_eq!(Vault::unseal(&[8u8; 32], &a).unwrap_err(), VaultError::Crypto(CryptoError::Decrypt));
}

#[test]
fn add_with_fixes_id_blob_and_entry() {
    let v = Vault::new("vault".to_string());
    let mut h = cheap_header(b"pw");
    let mk = Vault::open_master(&h, b"pw").unwrap();
    let id_raw = [0xfbu8, 0xff, 0, 1, 2, 3, 4, 5, 6, 7, 8, 9, 10, 11, 12, 13];
    let (id, blob) = Vault::add_with(&mut h, &mk, Some("n.txt"), b"payload", &[2u8; 32], &[3u8; 12], &id_raw, &[4u8; 12]).unwrap();
    assert_eq!(id, "8AAQIDBAUGBwgJCgsMDQ");
    assert_eq!(blob, aead_encrypt(&[2u8; 32], &[3u8; 12], b"payload", &[]).unwrap());
    assert_eq!(h.entries.len(), 1);
    assert_eq!(h.entries[0].id, id);
    assert_eq!(h.entries[0].size, 7);
    assert_eq!(h.entries[0].blob_nonce, "AwMDAwMDAwMDAwMD");
    assert_eq!(h.entries[0].meta.nonce, "BAQEBAQEBAQEBAQE");
    let meta = Vault::unseal(&mk, &h.entries[0].meta).unwrap();
    assert_eq!(meta, b"{\"name\":\"n.txt\",\"dek\":\"AgICAgICAgICAgICAgICAgICAgICAgICAgICAgICAgI=\"}".to_vec());
    let (name, data) = open_data(&v, &h, b"pw", &id, &blob).unwrap();
    assert_eq!(name, "n.txt");
    assert_eq!(data, b"payload");
    let (id2, _) = Vault::add_with(&mut h, &mk, None, b"", &[5u8; 32], &[6u8; 12], &[0u8; 16], &[7u8; 12]).unwrap();
    assert_eq!(id2, "AAAAAAAAAAAAAAAAAAAAAA");
    assert_eq!(v.list(&h, b"pw").unwrap()[1], (id2, "file".to_string(), 0));
}

#[test]
fn add_then_list_shows_the_new_entry_last() {
    let v = Vault::new("vault".to_string());
    let mut h = cheap_header(b"pw");
    v.add(&mut h, b"pw", Some("a.txt"), b"aaa").unwrap();
    let before = v.list(&h, b"pw").unwrap();
    let (id, _) = v.add(&mut h, b"pw", Some("b.txt"), b"bbbbb").unwrap();
    let after = v.list(&h, b"pw").unwrap();
    assert_eq!(after.len(), before.len() + 1);
    assert_eq!(after[0], before[0]);
    assert_eq!(after[1], (id, "b.txt".to_string(), 5));
}

#[test]
fn shred_with_uses_the_given_key_and_nonces() {
    let v = Vault::new("vault".to_string());
    let mut h = cheap_header(b"pw");
    let (id1, _) = v.add(&mut h, b"pw", Some("one.txt"), b"one").unwrap();
    let (id2, blob2) = v.add(&mut h, b"pw", Some("two.txt"), b"two").unwrap();
    let nonces = vec![vec![4u8; 12], vec![4u8; 12]];
    v.shred_with(&mut h, b"pw", &id1, &[9u8; 32], &nonces, &[5u8; 12]).unwrap();
    assert_eq!(Vault::open_master(&h, b"pw").unwrap(), vec![9u8; 32]);
    assert_eq!(h.wrapped_master.nonce, "BQUFBQUFBQUFBQUF");
    assert_eq!(h.entries.len(), 1);
    assert_eq!(h.entries[0].id, id2);
    assert_eq!(h.entries[0].meta.nonce, "BAQEBAQEBAQEBAQE");
    assert_eq!(open_data(&v, &h, b"pw", &id2, &blob2).unwrap(), ("two.txt".to_string(), b"two".to_vec()));
    let before = (h.wrapped_master.ct.clone(), h.entries[0].meta.ct.clone());
    assert_eq!(v.shred_with(&mut h, b"pw", &id1, &[7u8; 32], &nonces, &[1u8; 12]).unwrap_err(), VaultError::NoSuchEntry);
    assert_eq!((h.wrapped_master.ct.clone(), h.entries[0].meta.ct.clone()), before);
    assert_eq!(h.entries.len(), 1);
}

#[test]
fn rekey_with_uses_the_given_salt_and_key() {
    let v = Vault::new("vault".to_string());
    let mut h = cheap_header(b"old");
    let (id, blob) = v.add(&mut h, b"old", Some("x.bin"), b"xyz").unwrap();
    let nonces = vec![vec![4u8; 12]];
    v.rekey_with(&mut h, b"old", b"new", &[6u8; 16], &[8u8; 32], &nonces, &[5u8; 12]).unwrap();
    assert_eq!(h.kdf.salt, "BgYGBgYGBgYGBgYGBgYGBg==");
    assert_eq!((h.kdf.m_cost, h.kdf.t_cost, h.kdf.p_cost), (M_COST, T_COST, P_COST));
    assert_eq!(Vault::open_master(&h, b"new").unwrap(), vec![8u8; 32]);
    assert!(Vault::open_master(&h, b"old").is_err());
    assert_eq!(h.entries[0].meta.nonce, "BAQEBAQEBAQEBAQE");
    assert_eq!(open_data(&v, &h, b"new", &id, &blob).unwrap(), ("x.bin".to_string(), b"xyz".to_vec()));
}

#[test]
fn init_with_uses_the_given_salt_key_and_nonce() {
    let v = Vault::new("v".to_string());
    assert_eq!(v.init_with(b"pw", true, &[6u8; 16], &[8u8; 32], &[5u8; 12]).err().unwrap(), VaultError::AlreadyExists);
    let h = v.init_with(b"pw", false, &[6u8; 16], &[8u8; 32], &[5u8; 12]).unwrap();
    assert_eq!(h.version, VERSION);
    assert_eq!(h.kdf.salt, "BgYGBgYGBgYGBgYGBgYGBg==");
    assert_eq!(h.wrapped_master.nonce, "BQUFBQUFBQUFBQUF");
    assert!(h.entries.is_empty());
    assert_eq!(Vault::open_master(&h, b"pw").unwrap(), vec![8u8; 32]);
}

#[test]
fn list_after_shred_drops_only_the_shredded_entry() {
    let v = Vault::new("vault".to_string());
    let mut h = cheap_header(b"pw");
    v.add(&mut h, b"pw", Some("a"), b"1").unwrap();
    let (idb, _) = v.add(&mut h, b"pw", Some("b"), b"22").unwrap();
    v.add(&mut h, b"pw", Some("c"), b"333").unwrap();
    let before = v.list(&h, b"pw").unwrap();
    v.shred(&mut h, b"pw", &idb).unwrap();
    let after = v.list(&h, b"pw").unwrap();
    assert_eq!(after, vec![before[0].clone(), before[2].clone()]);
}

#[test]
fn list_after_rekey_is_unchanged() {
    let v = Vault::new("vault".to_string());
    let mut h = cheap_header(b"old");
    v.add(&mut h, b"old", Some("a"), b"1").unwrap();
    v.add(&mut h, b"old", None, b"22").unwrap();
    let before = v.list(&h, b"old").unwrap();
    let old_salt = h.kdf.salt.clone();
    v.rekey(&mut h, b"old", b"new").unwrap();
    assert_eq!(v.list(&h, b"new").unwrap(), before);
    assert_ne!(h.kdf.salt, old_salt);
}
