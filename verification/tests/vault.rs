use clockode::entry::{Algorithm, Entry, Id, TOTPConfig};
use clockode::otp_uri::batch_to_entries;
use clockode::totp::TotpError;
use clockode::vault::{
    code_all, derive_key, refresh_all, seal, seal_with_nonce, EncryptedContainer, Vault, VaultError,
};
use std::collections::HashMap;

const SALT: &str = "c29tZXNhbHRzb21lc2FsdA";

fn entry(id: Option<Id>, name: &str, secret: &str) -> Entry {
    Entry {
        id,
        name: name.to_string(),
        secret: secret.to_string(),
        totp: String::new(),
        totp_config: TOTPConfig { algorithm: Algorithm::Sha1, digits: 8, skew: 1 },
    }
}

fn unlocked(entries: HashMap<u128, Entry>) -> Vault {
    Vault::load("vault".to_string(), true).unwrap().unlock(vec![7u8; 32], entries).unwrap()
}

#[test]
fn load_needs_the_file() {
    let vault = Vault::load("/data/vault".to_string(), true).unwrap();
    assert_eq!(vault.path(), "/data/vault");
    assert!(!vault.is_unlocked());
    assert!(vault.entries().is_none());
    assert_eq!(Vault::load("/data/vault".to_string(), false).err(), Some(VaultError::NotFound));
}

const COST: u8 = 4;

#[test]
fn create_then_decrypt_gives_the_store_back() {
    let store = b"(entries:{})";
    let (vault, container) =
        Vault::create_with_cost("correct horse", "vault".to_string(), store, COST).unwrap();
    assert!(!vault.is_unlocked());
    assert_eq!(vault.path(), "vault");
    assert_eq!(container.nonce.len(), 12);
    assert_eq!(container.salt.len(), 22);
    assert_ne!(container.encrypted_data, store.to_vec());
    let before = (container.salt.clone(), container.nonce.clone(), container.encrypted_data.clone());

    let opened = Vault::decrypt_with_cost("correct horse", &container, COST).unwrap();
    assert_eq!(opened.data, store.to_vec());
    assert_eq!(opened.key.len(), 32);
    assert_eq!(Some(opened.key.clone()), derive_key("correct horse", &container.salt, COST));

    assert_eq!(
        Vault::decrypt_with_cost("wrong horse", &container, COST).err(),
        Some(VaultError::AuthenticationFailure)
    );
    assert_eq!(
        Vault::decrypt_with_cost("correct horse", &container, COST + 1).err(),
        Some(VaultError::AuthenticationFailure)
    );
    assert_eq!(before, (container.salt.clone(), container.nonce.clone(), container.encrypted_data.clone()));

    let vault = vault.unlock(opened.key, HashMap::new()).unwrap();
    assert!(vault.is_unlocked());
    assert_eq!(vault.entries().unwrap().len(), 0);
}

#[test]
fn key_derivation_is_repeatable() {
    let key = derive_key("password", SALT, COST).unwrap();
    assert_eq!(key.len(), 32);
    assert_eq!(
        key,
        vec![
            0xae, 0x30, 0x86, 0xa4, 0xf5, 0xbc, 0xaf, 0xef, 0x57, 0x57, 0x3f, 0x51, 0xa9, 0x7b,
            0x40, 0xb3, 0x35, 0xb3, 0x35, 0x31, 0x8f, 0x83, 0x32, 0x32, 0x0c, 0x36, 0xca, 0x01,
            0x08, 0xe7, 0xe8, 0xb5
        ]
    );
    assert_eq!(derive_key("password", SALT, COST), Some(key.clone()));
    assert_ne!(derive_key("Password", SALT, COST), Some(key.clone()));
    assert_ne!(derive_key("password", "c29tZXNhbHRzb21lc2FsdB", COST), Some(key.clone()));
    assert_ne!(derive_key("password", SALT, COST + 1), Some(key));
}

#[test]
fn no_key_without_a_salt_or_at_too_high_a_cost() {
    assert_eq!(derive_key("password", "no salt!", COST), None);
    assert_eq!(derive_key("password", "abc", COST), None);
    assert_eq!(derive_key("password", "", COST), None);
    assert_eq!(derive_key("password", SALT, 18), None);
    assert_eq!(derive_key("password", SALT, 255), None);
    assert_eq!(
        Vault::create_with_cost("pw", "vault".to_string(), b"store", 18).err(),
        Some(VaultError::KeyDerivation)
    );
}

#[test]
fn tampered_data_is_an_authentication_failure() {
    let (_, mut container) = Vault::create_with_cost("pw", "vault".to_string(), b"store", COST).unwrap();
    container.encrypted_data[0] ^= 1;
    assert_eq!(
        Vault::decrypt_with_cost("pw", &container, COST).err(),
        Some(VaultError::AuthenticationFailure)
    );
    let (_, mut container) = Vault::create_with_cost("pw", "vault".to_string(), b"store", COST).unwrap();
    container.nonce[0] ^= 1;
    assert_eq!(
        Vault::decrypt_with_cost("pw", &container, COST).err(),
        Some(VaultError::AuthenticationFailure)
    );
}

#[test]
fn the_later_save_is_what_the_file_holds() {
    let (locked, created) = Vault::create_with_cost("pw", "vault".to_string(), b"empty", COST).unwrap();
    let opened = Vault::decrypt_with_cost("pw", &created, COST).unwrap();
    let vault = locked.unlock(opened.key, HashMap::new()).unwrap();
    let mut file = created;
    for snapshot in [b"one entry".to_vec(), b"two entries".to_vec()] {
        file = vault.save(&snapshot, Some(file.salt.clone())).unwrap();
        assert_eq!(Vault::decrypt_with_cost("pw", &file, COST).unwrap().data, snapshot);
    }
    assert_eq!(Vault::decrypt_with_cost("pw", &file, COST).unwrap().data, b"two entries".to_vec());
}

#[test]
fn sealing_is_aes_256_gcm() {
    let nonce: Vec<u8> = (0u8..12).collect();
    let sealed = seal_with_nonce(&[9u8; 32], nonce.clone(), SALT.to_string(), b"data").unwrap();
    assert_eq!(sealed.salt, SALT);
    assert_eq!(sealed.nonce, nonce);
    assert_eq!(
        sealed.encrypted_data,
        vec![
            0x8e, 0x30, 0xef, 0xa3, 0x43, 0xfc, 0x0b, 0x6f, 0xc2, 0x5c, 0x2f, 0x54, 0x5e, 0x38,
            0x66, 0x9b, 0x63, 0x17, 0x46, 0x18
        ]
    );
    assert_eq!(
        seal_with_nonce(&[9u8; 31], nonce.clone(), SALT.to_string(), b"data").err(),
        Some(VaultError::Encryption)
    );
    assert_eq!(
        seal_with_nonce(&[9u8; 32], vec![0u8; 13], SALT.to_string(), b"data").err(),
        Some(VaultError::Encryption)
    );
    assert_eq!(seal(&[9u8; 33], SALT.to_string(), b"data").err(), Some(VaultError::Encryption));
}

#[test]
fn a_container_made_elsewhere_opens() {
    let container = EncryptedContainer {
        salt: SALT.to_string(),
        nonce: (0u8..12).collect(),
        encrypted_data: vec![
            0x3d, 0x39, 0x7a, 0x96, 0x0d, 0xe2, 0xd6, 0x6d, 0x01, 0xe9, 0xb1, 0x8a, 0xcd, 0x4e,
            0x90, 0x0f, 0x33, 0x66, 0x74, 0x01, 0x4a, 0x48, 0x92, 0xd8, 0xed, 0x69, 0x4f, 0xdb,
        ],
    };
    let opened = Vault::decrypt_with_cost("password", &container, COST).unwrap();
    assert_eq!(opened.data, b"(entries:{})".to_vec());
    assert_eq!(
        Vault::decrypt_with_cost("passwort", &container, COST).err(),
        Some(VaultError::AuthenticationFailure)
    );
}

#[test]
fn damaged_containers_do_not_open() {
    let key = vec![9u8; 32];
    let sealed = seal(&key, SALT.to_string(), b"data").unwrap();
    assert_eq!(sealed.salt, SALT);
    assert_eq!(sealed.encrypted_data.len(), 4 + 16);

    let short_nonce = EncryptedContainer {
        salt: SALT.to_string(),
        nonce: vec![0u8; 11],
        encrypted_data: sealed.encrypted_data.clone(),
    };
    assert_eq!(Vault::decrypt("password", &short_nonce).err(), Some(VaultError::CorruptData));
    assert_eq!(Vault::decrypt_with_cost("password", &short_nonce, COST).err(), Some(VaultError::CorruptData));

    let bad_salt = EncryptedContainer {
        salt: "?".to_string(),
        nonce: sealed.nonce.clone(),
        encrypted_data: sealed.encrypted_data.clone(),
    };
    assert_eq!(
        Vault::decrypt_with_cost("password", &bad_salt, COST).err(),
        Some(VaultError::AuthenticationFailure)
    );
}

#[test]
fn every_save_has_a_fresh_nonce_and_keeps_the_salt() {
    let vault = unlocked(HashMap::new());
    let first = vault.save(b"snapshot one", Some(SALT.to_string())).unwrap();
    let second = vault.save(b"snapshot two", Some(SALT.to_string())).unwrap();
    assert_eq!(first.salt, SALT);
    assert_eq!(second.salt, SALT);
    assert_ne!(first.nonce, second.nonce);
    assert_eq!(first.nonce.len(), 12);
    let fresh = vault.save(b"snapshot", None).unwrap();
    assert_eq!(fresh.salt.len(), 22);
    assert_ne!(fresh.salt, vault.save(b"snapshot", None).unwrap().salt);
}

#[test]
fn a_locked_vault_takes_nothing() {
    let mut vault = Vault::load("vault".to_string(), true).unwrap();
    assert_eq!(vault.save(b"data", None).err(), Some(VaultError::Locked));
    assert_eq!(vault.upsert_entry(entry(None, "a", "JBSWY3DPEHPK3PXP"), 30), Err(VaultError::Locked));
    assert_eq!(vault.delete_entry(Id(1)), Err(VaultError::Locked));
    assert_eq!(vault.substitute_entries(HashMap::new()), Err(VaultError::Locked));
    assert_eq!(vault.update_all_totp(30).err(), Some(VaultError::Locked));
    assert_eq!(vault.update_all_totp_at(30, 59).err(), Some(VaultError::Locked));
    assert!(vault.sorted_entries().is_none());
    assert_eq!(vault.add_entries(&vec![], 30), Err(VaultError::Locked));
    assert_eq!(vault.add_entries_at(&vec![], 30, 59), Err(VaultError::Locked));
    assert_eq!(vault.export_uri().err(), Some(VaultError::Locked));
    assert!(!vault.clone().is_unlocked());
}

#[test]
fn unlock_wants_a_key_of_32_bytes() {
    let vault = Vault::load("vault".to_string(), true).unwrap();
    assert_eq!(vault.unlock(vec![0u8; 31], HashMap::new()).err(), Some(VaultError::CorruptData));
}

#[test]
fn upsert_inserts_or_replaces() {
    let mut vault = unlocked(HashMap::new());
    let secret = "GEZDGNBVGY3TQOJQGEZDGNBVGY3TQOJQ";
    assert_eq!(vault.upsert_entry_at(entry(None, "new", secret), 30, 59, Id(5)), Ok(()));
    {
        let entries = vault.entries().unwrap();
        assert_eq!(entries.len(), 1);
        assert_eq!(entries[&5].id, Some(Id(5)));
        assert_eq!(entries[&5].name, "new");
        assert_eq!(entries[&5].totp, "94287082");
    }
    // An entry with a stored identifier replaces the entry under it.
    assert_eq!(vault.upsert_entry_at(entry(Some(Id(5)), "renamed", secret), 30, 1111111109, Id(6)), Ok(()));
    {
        let entries = vault.entries().unwrap();
        assert_eq!(entries.len(), 1);
        assert_eq!(entries[&5].name, "renamed");
        assert_eq!(entries[&5].totp, "07081804");
    }
    // An entry with an identifier that is not stored is stored under it.
    assert_eq!(vault.upsert_entry_at(entry(Some(Id(9)), "kept", secret), 30, 59, Id(6)), Ok(()));
    {
        let entries = vault.entries().unwrap();
        assert_eq!(entries.len(), 2);
        assert_eq!(entries[&9].id, Some(Id(9)));
        assert_eq!(entries[&9].name, "kept");
        assert_eq!(entries[&9].totp, "94287082");
        assert_eq!(entries[&5].name, "renamed");
    }
    // A secret that does not decode changes nothing.
    assert_eq!(
        vault.upsert_entry_at(entry(None, "bad", "!"), 30, 59, Id(6)),
        Err(VaultError::Totp(TotpError::InvalidSecret))
    );
    assert_eq!(vault.entries().unwrap().len(), 2);
}

#[test]
fn upsert_with_an_unknown_identifier_inserts() {
    let mut vault = unlocked(HashMap::new());
    assert_eq!(vault.upsert_entry(entry(Some(Id(77)), "given", "JBSWY3DPEHPK3PXP"), 30), Ok(()));
    let entries = vault.entries().unwrap();
    assert_eq!(entries.len(), 1);
    assert_eq!(entries[&77].name, "given");
    assert_eq!(entries[&77].totp.len(), 8);
}

#[test]
fn a_vault_made_from_given_salt_and_nonce() {
    let nonce: Vec<u8> = (0u8..12).collect();
    let (vault, container) = Vault::create_from(
        "password",
        "vault".to_string(),
        b"(entries:{})",
        COST,
        SALT.to_string(),
        nonce.clone(),
    )
    .unwrap();
    assert!(!vault.is_unlocked());
    assert!(vault.entries().is_none());
    assert_eq!(container.salt, SALT);
    assert_eq!(container.nonce, nonce);
    assert_eq!(
        container.encrypted_data,
        vec![
            0x3d, 0x39, 0x7a, 0x96, 0x0d, 0xe2, 0xd6, 0x6d, 0x01, 0xe9, 0xb1, 0x8a, 0xcd, 0x4e,
            0x90, 0x0f, 0x33, 0x66, 0x74, 0x01, 0x4a, 0x48, 0x92, 0xd8, 0xed, 0x69, 0x4f, 0xdb,
        ]
    );
    let bad = |salt: &str, nonce: Vec<u8>| {
        Vault::create_from("password", "vault".to_string(), b"x", COST, salt.to_string(), nonce).err()
    };
    assert_eq!(bad("?", (0u8..12).collect()), Some(VaultError::KeyDerivation));
    assert_eq!(bad(SALT, vec![0u8; 11]), Some(VaultError::Encryption));
}

#[test]
fn upsert_draws_a_new_identifier() {
    let mut vault = unlocked(HashMap::new());
    assert_eq!(vault.upsert_entry(entry(None, "a", "JBSWY3DPEHPK3PXP"), 30), Ok(()));
    assert_eq!(vault.upsert_entry(entry(None, "b", "JBSWY3DPEHPK3PXP"), 30), Ok(()));
    let entries = vault.entries().unwrap();
    assert_eq!(entries.len(), 2);
    for (key, e) in entries.iter() {
        assert_eq!(e.id, Some(Id(*key)));
        assert_eq!(e.totp.len(), 8);
    }
}

#[test]
fn delete_removes_or_reports_not_found() {
    let mut vault = unlocked(HashMap::new());
    vault.upsert_entry_at(entry(None, "a", "JBSWY3DPEHPK3PXP"), 30, 59, Id(1)).unwrap();
    vault.upsert_entry_at(entry(None, "b", "JBSWY3DPEHPK3PXP"), 30, 59, Id(2)).unwrap();
    assert_eq!(vault.delete_entry(Id(3)), Err(VaultError::NotFound));
    assert_eq!(vault.entries().unwrap().len(), 2);
    assert_eq!(vault.delete_entry(Id(1)), Ok(()));
    assert_eq!(vault.entries().unwrap().len(), 1);
    assert!(vault.entries().unwrap().contains_key(&2));
    assert_eq!(vault.delete_entry(Id(1)), Err(VaultError::NotFound));
}

#[test]
fn refreshing_twice_in_one_window_gives_the_same_codes() {
    let mut vault = unlocked(HashMap::new());
    vault.upsert_entry_at(entry(None, "a", "GEZDGNBVGY3TQOJQGEZDGNBVGY3TQOJQ"), 30, 0, Id(1)).unwrap();
    vault.upsert_entry_at(entry(None, "b", "JBSWY3DPEHPK3PXP"), 30, 0, Id(2)).unwrap();
    let first = vault.update_all_totp_at(30, 31).unwrap();
    assert_eq!(first[&1].totp, "94287082");
    assert_eq!(first.len(), 2);
    // The vault itself is not changed by the refresh.
    assert_ne!(vault.entries().unwrap()[&1].totp, "94287082");
    vault.substitute_entries(first).unwrap();
    let second = vault.update_all_totp_at(30, 59).unwrap();
    for (key, e) in second.iter() {
        assert_eq!(e.totp, vault.entries().unwrap()[key].totp);
        assert_eq!(e.name, vault.entries().unwrap()[key].name);
    }
    let later = vault.update_all_totp_at(30, 60).unwrap();
    assert_ne!(later[&1].totp, "94287082");
}

#[test]
fn refresh_fails_on_an_empty_store_and_on_a_bad_secret() {
    let mut vault = unlocked(HashMap::new());
    assert_eq!(vault.update_all_totp_at(30, 59).err(), Some(VaultError::NoEntries));
    assert_eq!(vault.update_all_totp(30).err(), Some(VaultError::NoEntries));
    let mut entries = HashMap::new();
    entries.insert(1, entry(Some(Id(1)), "good", "JBSWY3DPEHPK3PXP"));
    entries.insert(2, entry(Some(Id(2)), "bad", "?"));
    assert_eq!(refresh_all(&entries, 30, 59).err(), Some(TotpError::InvalidSecret));
    vault.substitute_entries(entries).unwrap();
    assert_eq!(
        vault.update_all_totp_at(30, 59).err(),
        Some(VaultError::Totp(TotpError::InvalidSecret))
    );
    vault.delete_entry(Id(2)).unwrap();
    assert_eq!(vault.update_all_totp_at(0, 59).err(), Some(VaultError::Totp(TotpError::ZeroStep)));
    assert_eq!(vault.update_all_totp(30).unwrap().len(), 1);
}

#[test]
fn entries_are_listed_by_name_without_regard_to_case() {
    let mut entries = HashMap::new();
    for (key, name) in [(1u128, "delta"), (2, "Alpha"), (3, "charlie"), (4, "Bravo"), (5, "alpha 2")] {
        entries.insert(key, entry(Some(Id(key)), name, "JBSWY3DPEHPK3PXP"));
    }
    let vault = unlocked(entries);
    let names: Vec<String> = vault.sorted_entries().unwrap().into_iter().map(|e| e.name).collect();
    assert_eq!(names, vec!["Alpha", "alpha 2", "Bravo", "charlie", "delta"]);
}

#[test]
fn entries_are_added_under_their_identifiers() {
    let mut vault = unlocked(HashMap::new());
    let secret = "GEZDGNBVGY3TQOJQGEZDGNBVGY3TQOJQ";
    let batch = vec![
        entry(Some(Id(1)), "one", secret),
        entry(Some(Id(2)), "two", "JBSWY3DPEHPK3PXP"),
        entry(Some(Id(1)), "one again", secret),
    ];
    assert_eq!(vault.add_entries_at(&batch, 30, 59), Ok(()));
    {
        let entries = vault.entries().unwrap();
        assert_eq!(entries.len(), 2);
        assert_eq!(entries[&1].name, "one again");
        assert_eq!(entries[&1].totp, "94287082");
        assert_eq!(entries[&2].name, "two");
        assert_eq!(entries[&2].totp.len(), 8);
    }
    // One entry that cannot be added keeps all of them out.
    let bad = vec![entry(Some(Id(3)), "three", secret), entry(None, "nameless", secret)];
    assert_eq!(vault.add_entries_at(&bad, 30, 59), Err(VaultError::MissingId));
    let bad = vec![entry(Some(Id(3)), "three", secret), entry(Some(Id(4)), "four", "?")];
    assert_eq!(vault.add_entries_at(&bad, 30, 59), Err(VaultError::Totp(TotpError::InvalidSecret)));
    assert_eq!(code_all(&bad, 30, 59).err(), Some(VaultError::Totp(TotpError::InvalidSecret)));
    assert_eq!(vault.entries().unwrap().len(), 2);
    assert_eq!(vault.add_entries(&vec![entry(Some(Id(3)), "three", secret)], 30), Ok(()));
    assert_eq!(vault.entries().unwrap().len(), 3);
    assert_eq!(vault.clone().entries().unwrap().len(), 3);
}

#[test]
fn an_imported_batch_is_stored_and_exported_sorted() {
    let mut vault = unlocked(HashMap::new());
    assert_eq!(vault.export_uri().err(), Some(VaultError::NoEntries));
    let batch = batch_to_entries(
        "otpauth://totp/zulu?secret=JBSWY3DPEHPK3PXP\n\
         this line is no uri\n\
         otpauth://totp/Alpha?secret=GEZDGNBVGY3TQOJQ&digits=8\n\
         otpauth://totp/mike?secret=JBSWY3DPEHPK3PXP&algorithm=SHA256\n",
    );
    assert_eq!(batch.refused, vec!["this line is no uri".to_string()]);
    assert_eq!(vault.add_entries_at(&batch.entries, 30, 59), Ok(()));
    assert_eq!(vault.entries().unwrap().len(), 3);
    assert_eq!(
        vault.export_uri().unwrap(),
        "otpauth://totp/Alpha?period=30&digits=8&algorithm=SHA1&secret=GEZDGNBVGY3TQOJQ\n\
         otpauth://totp/mike?period=30&digits=6&algorithm=SHA256&secret=JBSWY3DPEHPK3PXP\n\
         otpauth://totp/zulu?period=30&digits=6&algorithm=SHA1&secret=JBSWY3DPEHPK3PXP\n"
    );
}
