//! The vault: one encrypted container at rest, and a handle that is locked
//! or holds the entries and the key.

use crate::crypto::{
    aes_gcm_opened, aes_gcm_sealed, decrypt, encrypt, hash_password, random_nonce, random_salt,
    scrypt_hash, KEY_LEN, NONCE_LEN, RECOMMENDED_LOG_N, SALT_LEN,
};
use crate::clock::unix_seconds;
use crate::entry::{Entry, EntryView, Id};
use crate::order::{lemma_precedes_total, precedes, sorted_order, sorts, texts};
use crate::text::{lower_cased, to_chars};
use crate::totp::TotpError;
use std::collections::HashMap;
use vstd::prelude::*;
use vstd::std_specs::iter::IteratorSpec;
use vstd::string::StringSliceAdditionalSpecFns;

verus! {

broadcast use vstd::std_specs::hash::group_hash_axioms;

/// Why an operation of the vault failed.
#[derive(Debug, Clone, Copy, PartialEq, Eq, Structural)]
pub enum VaultError {
    /// The vault's file, or the entry asked for, does not exist.
    NotFound,
    /// The container is malformed.
    CorruptData,
    /// Wrong password, or data that was corrupted or tampered with.
    AuthenticationFailure,
    /// The operation needs an unlocked vault.
    Locked,
    /// No key could be derived from the password.
    KeyDerivation,
    /// The data could not be encrypted.
    Encryption,
    /// There is no entry to work on.
    NoEntries,
    /// No code could be generated for an entry.
    Totp(TotpError),
    /// An entry to add has no identifier.
    MissingId,
}

impl VaultError {
    /// The message of the error.
    pub open spec fn message(self) -> Seq<char> {
        match self {
            VaultError::NotFound => "Vault or entry not found"@,
            VaultError::CorruptData => "Failed to read the encrypted vault"@,
            VaultError::AuthenticationFailure => "Failed to decrypt: incorrect password or corrupted data"@,
            VaultError::Locked => "Cannot use a locked vault"@,
            VaultError::KeyDerivation => "Failed to derive the key"@,
            VaultError::Encryption => "Encryption failed"@,
            VaultError::NoEntries => "No entries found"@,
            VaultError::Totp(e) => e.message(),
            VaultError::MissingId => "Cannot add an entry without identifier"@,
        }
    }

    /// The message of the error.
    pub fn to_string(&self) -> (s: String)
        ensures
            s@ == self.message(),
    {
        match self {
            VaultError::NotFound => "Vault or entry not found".to_owned(),
            VaultError::CorruptData => "Failed to read the encrypted vault".to_owned(),
            VaultError::AuthenticationFailure => "Failed to decrypt: incorrect password or corrupted data".to_owned(),
            VaultError::Locked => "Cannot use a locked vault".to_owned(),
            VaultError::KeyDerivation => "Failed to derive the key".to_owned(),
            VaultError::Encryption => "Encryption failed".to_owned(),
            VaultError::NoEntries => "No entries found".to_owned(),
            VaultError::Totp(e) => e.to_string(),
            VaultError::MissingId => "Cannot add an entry without identifier".to_owned(),
        }
    }
}

/// The vault at rest: one whole snapshot of the entries, encrypted.
#[derive(Debug)]
pub struct EncryptedContainer {
    /// The salt of the key derivation, as B64 text.
    pub salt: String,
    /// The nonce of this snapshot: twelve bytes, fresh for every save.
    pub nonce: Vec<u8>,
    /// The serialized entries, encrypted and authenticated.
    pub encrypted_data: Vec<u8>,
}

/// A container as plain values.
pub struct ContainerView {
    pub salt: Seq<char>,
    pub nonce: Seq<u8>,
    pub encrypted_data: Seq<u8>,
}

impl View for EncryptedContainer {
    type V = ContainerView;

    open spec fn view(&self) -> ContainerView {
        ContainerView { salt: self.salt@, nonce: self.nonce@, encrypted_data: self.encrypted_data@ }
    }
}

/// The key that a password and a salt give at the work factor `log_n`: the
/// first 32 bytes of the scrypt hash of the password's UTF-8 bytes, if the
/// hash has that many. No key is derived at a work factor above the
/// recommended one.
pub open spec fn key_of(password: Seq<char>, salt: Seq<char>, log_n: u8) -> Option<Seq<u8>> {
    if log_n > RECOMMENDED_LOG_N {
        None
    } else {
        match scrypt_hash(vstd::utf8::encode_utf8(password), salt, log_n) {
            Some(hash) => if hash.len() >= KEY_LEN {
                Some(hash.subrange(0, KEY_LEN as int))
            } else {
                None
            },
            None => None,
        }
    }
}

/// The container holds `data` under `key`: its nonce has twelve bytes, its
/// ciphertext is what the cipher makes of `data`, and the cipher recovers
/// `data` from it.
pub open spec fn seals(c: ContainerView, key: Seq<u8>, data: Seq<u8>) -> bool {
    &&& key.len() == KEY_LEN
    &&& c.nonce.len() == NONCE_LEN
    &&& aes_gcm_sealed(key, c.nonce, data) == Some(c.encrypted_data)
    &&& aes_gcm_opened(key, c.nonce, c.encrypted_data) == Some(data)
}

/// What a password opens a container to: the data and the key. A nonce of
/// another length than twelve is corrupt data; a key that cannot be derived
/// and a ciphertext that is not authentic are one and the same failure.
pub open spec fn opened(password: Seq<char>, c: ContainerView, log_n: u8) -> Result<
    (Seq<u8>, Seq<u8>),
    VaultError,
> {
    if c.nonce.len() != NONCE_LEN {
        Err(VaultError::CorruptData)
    } else {
        match key_of(password, c.salt, log_n) {
            None => Err(VaultError::AuthenticationFailure),
            Some(key) => match aes_gcm_opened(key, c.nonce, c.encrypted_data) {
                None => Err(VaultError::AuthenticationFailure),
                Some(data) => Ok((data, key)),
            },
        }
    }
}

/// Derives the cipher's key from a password and a salt, at the work factor
/// `log_n`.
pub fn derive_key(password: &str, salt: &str, log_n: u8) -> (r: Option<Vec<u8>>)
    ensures
        r is Some == key_of(password@, salt@, log_n) is Some,
        r matches Some(key) ==> key_of(password@, salt@, log_n) == Some(key@) && key@.len()
            == KEY_LEN,
{
    if log_n > RECOMMENDED_LOG_N {
        return None;
    }
    match hash_password(password.as_bytes(), salt, log_n) {
        None => None,
        Some(hash) => {
            if hash.len() < KEY_LEN {
                None
            } else {
                let mut key: Vec<u8> = Vec::new();
                let mut i: usize = 0;
                while i < KEY_LEN
                    invariant
                        i <= KEY_LEN <= hash.len(),
                        key@ == hash@.subrange(0, i as int),
                    decreases KEY_LEN - i,
                {
                    key.push(hash[i]);
                    i += 1;
                }
                Some(key)
            }
        },
    }
}

/// Encrypts `data` under `key` with the nonce `nonce` and puts it in a
/// container with `salt`. A key of another length than 32 bytes and a nonce
/// of another length than 12 are refused, as is data that is too long for
/// the cipher.
pub fn seal_with_nonce(key: &[u8], nonce: Vec<u8>, salt: String, data: &[u8]) -> (r: Result<
    EncryptedContainer,
    VaultError,
>)
    ensures
        r matches Ok(c) ==> c.salt == salt && c.nonce == nonce && seals(c@, key@, data@),
        r is Ok == (key@.len() == KEY_LEN && nonce@.len() == NONCE_LEN && aes_gcm_sealed(
            key@,
            nonce@,
            data@,
        ) is Some),
        r matches Err(e) ==> e == VaultError::Encryption,
{
    if key.len() != KEY_LEN || nonce.len() != NONCE_LEN {
        return Err(VaultError::Encryption);
    }
    match encrypt(key, nonce.as_slice(), data) {
        Some(encrypted_data) => Ok(EncryptedContainer { salt, nonce, encrypted_data }),
        None => Err(VaultError::Encryption),
    }
}

/// Encrypts `data` under `key` with a fresh random nonce and puts it in a
/// container with `salt`. Whatever nonce was drawn, the container holds
/// `data` under `key`.
pub fn seal(key: &[u8], salt: String, data: &[u8]) -> (r: Result<EncryptedContainer, VaultError>)
    ensures
        r matches Ok(c) ==> c.salt == salt && seals(c@, key@, data@),
        r matches Err(e) ==> e == VaultError::Encryption,
        key@.len() != KEY_LEN ==> r is Err,
{
    match random_nonce() {
        Some(nonce) => seal_with_nonce(key, nonce, salt, data),
        None => Err(VaultError::Encryption),
    }
}

/// What the vault's file holds after a run of saves, each of which
/// replaces the whole file: the container of the last save, or what it held
/// before where nothing was saved.
pub open spec fn file_after(file: Option<ContainerView>, saved: Seq<ContainerView>) -> Option<
    ContainerView,
> {
    if saved.len() == 0 {
        file
    } else {
        Some(saved.last())
    }
}

/// The last save wins. After a run of saves under the key of one password,
/// whatever the file held before and whatever the earlier saves wrote, the
/// file opens to exactly the data of the last save.
pub proof fn lemma_last_save_wins(
    password: Seq<char>,
    log_n: u8,
    file: Option<ContainerView>,
    saved: Seq<ContainerView>,
    data: Seq<Seq<u8>>,
)
    requires
        saved.len() == data.len(),
        saved.len() > 0,
        forall|i: int|
            0 <= i < saved.len() ==> (key_of(password, (#[trigger] saved[i]).salt, log_n) matches Some(
                key,
            ) && seals(saved[i], key, data[i])),
    ensures
        file_after(file, saved) matches Some(c) && opened(password, c, log_n) matches Ok(o) && o.0
            == data.last(),
{
    let last = saved.len() - 1;
    assert(key_of(password, saved[last].salt, log_n) is Some);
    lemma_sealed_opens(password, saved[last], data[last], log_n);
}

/// What `decrypt` hands back: the decrypted data and the key that opened
/// it.
#[derive(Debug)]
pub struct Opened {
    /// The serialized entries.
    pub data: Vec<u8>,
    /// The key, for later saves.
    pub key: Vec<u8>,
}

/// A container that holds `data` under the key of `password` opens, with
/// that password and at the same work factor, to `data`.
pub proof fn lemma_sealed_opens(password: Seq<char>, c: ContainerView, data: Seq<u8>, log_n: u8)
    requires
        key_of(password, c.salt, log_n) matches Some(key) && seals(c, key, data),
    ensures
        opened(password, c, log_n) matches Ok(o) && o.0 == data && Some(o.1) == key_of(
            password,
            c.salt,
            log_n,
        ),
{
}

/// The entries of a store as plain values, by identifier.
pub open spec fn store_view(entries: Map<u128, Entry>) -> Map<u128, EntryView> {
    entries.map_values(|e: Entry| e@)
}

/// Every entry of the store refreshed for `seconds`, where each one can be.
pub open spec fn all_refreshed(
    before: Map<u128, EntryView>,
    after: Map<u128, EntryView>,
    step: u64,
    seconds: u64,
) -> bool {
    &&& after.dom() == before.dom()
    &&& forall|k: u128| #[trigger]
        before.contains_key(k) ==> before[k].refreshed(step, seconds) == crate::entry::ok_entry(
            after[k],
        )
}

/// The code of some entry of the store cannot be generated, for the reason
/// `e`.
pub open spec fn some_fails(before: Map<u128, EntryView>, step: u64, seconds: u64, e: TotpError) -> bool {
    exists|k: u128| #[trigger]
        before.contains_key(k) && before[k].refreshed(step, seconds) == crate::entry::no_entry(e)
}

/// Generates the code of every entry for the time `seconds`. It succeeds
/// when every entry's code can be generated, and else fails with the error
/// of one of the entries that has none.
pub fn refresh_all(entries: &HashMap<u128, Entry>, step: u64, seconds: u64) -> (r: Result<
    HashMap<u128, Entry>,
    TotpError,
>)
    ensures
        r matches Ok(after) ==> all_refreshed(
            store_view(entries@),
            store_view(after@),
            step,
            seconds,
        ),
        r matches Err(e) ==> some_fails(store_view(entries@), step, seconds, e),
{
    let mut after: HashMap<u128, Entry> = HashMap::new();
    for pair in it: entries.iter()
        invariant
            it.seq().len() == entries@.dom().len(),
            forall|i: int|
                0 <= i < it.seq().len() ==> entries@.contains_key(*(#[trigger] it.seq()[i]).0)
                    && entries@[*it.seq()[i].0] == *it.seq()[i].1,
            forall|k: u128| #[trigger]
                entries@.contains_key(k) ==> exists|i: int|
                    0 <= i < it.seq().len() && *(#[trigger] it.seq()[i]).0 == k,
            forall|k: u128| #[trigger]
                after@.contains_key(k) <==> exists|i: int|
                    0 <= i < it.index() && *(#[trigger] it.seq()[i]).0 == k,
            forall|k: u128| #[trigger]
                after@.contains_key(k) ==> entries@.contains_key(k) && entries@[k]@.refreshed(
                    step,
                    seconds,
                ) == crate::entry::ok_entry(after@[k]@),
    {
        let (id, entry) = pair;
        let mut fresh = entry.clone();
        match fresh.generate_totp_at(step, seconds) {
            Ok(()) => {
                after.insert(*id, fresh);
            },
            Err(e) => {
                proof {
                    let before = store_view(entries@);
                    assert(before.contains_key(*id) && before[*id] == entry@);
                }
                return Err(e);
            },
        }
    }
    proof {
        assert(store_view(after@).dom() =~= store_view(entries@).dom());
    }
    Ok(after)
}

/// `list` holds the entries stored under `keys`, one for one.
pub open spec fn stored_under(
    entries: Map<u128, EntryView>,
    keys: Seq<u128>,
    list: Seq<EntryView>,
) -> bool {
    &&& keys.no_duplicates()
    &&& forall|k: u128| entries.contains_key(k) <==> keys.contains(k)
    &&& list.len() == keys.len()
    &&& forall|i: int| 0 <= i < keys.len() ==> #[trigger] list[i] == entries[keys[i]]
}

/// No entry of `list` stands before an earlier one in the order of names
/// without regard to letter case.
pub open spec fn sorted_by_name(list: Seq<EntryView>) -> bool {
    forall|i: int, j: int|
        0 <= i < j < list.len() ==> !precedes(
            lower_cased(#[trigger] list[j].name),
            lower_cased(#[trigger] list[i].name),
        )
}

/// `list` holds every entry of the store once, sorted by name without
/// regard to letter case.
pub open spec fn lists_store(entries: Map<u128, EntryView>, list: Seq<EntryView>) -> bool {
    sorted_by_name(list) && exists|keys: Seq<u128>| #[trigger] stored_under(entries, keys, list)
}

/// `text` is the batch of the entries of the store, sorted by name without
/// regard to letter case, and the store is not empty.
pub open spec fn exports(entries: Map<u128, EntryView>, text: Seq<char>) -> bool {
    exists|list: Seq<EntryView>| #[trigger]
        lists_store(entries, list) && list.len() > 0 && text == crate::otp_uri::batch_written(
            list,
        )
}

/// The entries of a list as plain values.
pub open spec fn list_view(list: Seq<Entry>) -> Seq<EntryView> {
    list.map_values(|e: Entry| e@)
}

/// The entries of a store, each once, sorted by name without regard to
/// letter case.
pub fn list_sorted(entries: &HashMap<u128, Entry>) -> (list: Vec<Entry>)
    ensures
        lists_store(store_view(entries@), list_view(list@)),
        list.len() == entries@.dom().len(),
{
    let ghost store = store_view(entries@);
    let mut found: Vec<Entry> = Vec::new();
    let mut names: Vec<Vec<char>> = Vec::new();
    let ghost mut keys: Seq<u128> = Seq::empty();
    let ghost whole = entries.iter().remaining();
    for pair in it: entries.iter()
        invariant
            store == store_view(entries@),
            it.seq() == whole,
            it.seq().len() == entries@.dom().len(),
            it.seq().no_duplicates(),
            forall|i: int|
                0 <= i < it.seq().len() ==> entries@.contains_key(*(#[trigger] it.seq()[i]).0)
                    && entries@[*it.seq()[i].0] == *it.seq()[i].1,
            forall|k: u128| #[trigger]
                entries@.contains_key(k) ==> exists|i: int|
                    0 <= i < it.seq().len() && *(#[trigger] it.seq()[i]).0 == k,
            keys.len() == it.index(),
            found.len() == it.index(),
            names.len() == it.index(),
            forall|i: int| 0 <= i < it.index() ==> #[trigger] keys[i] == *it.seq()[i].0,
            forall|i: int| 0 <= i < it.index() ==> (#[trigger] found@[i])@ == store[keys[i]],
            forall|i: int|
                0 <= i < it.index() ==> (#[trigger] names@[i])@ == lower_cased(found@[i].name@),
    {
        let (id, entry) = pair;
        proof {
            keys = keys.push(*id);
        }
        names.push(to_chars(entry.name.as_str().to_lowercase().as_str()));
        found.push(entry.clone());
    }
    let ghost all = list_view(found@);
    proof {
        assert forall|i: int, j: int| 0 <= i < j < keys.len() implies keys[i] != keys[j] by {
            if keys[i] == keys[j] {
                assert(whole[i] == whole[j]);
            }
        }
        assert forall|k: u128| store.contains_key(k) <==> keys.contains(k) by {
            if store.contains_key(k) {
                let i = choose|i: int| 0 <= i < whole.len() && *(#[trigger] whole[i]).0 == k;
                assert(keys[i] == k);
            }
            if keys.contains(k) {
                let i = choose|i: int| 0 <= i < keys.len() && keys[i] == k;
                assert(entries@.contains_key(*whole[i].0));
            }
        }
        assert(stored_under(store, keys, all));
    }
    let order = sorted_order(&names);
    let mut list: Vec<Entry> = Vec::new();
    let mut k: usize = 0;
    while k < order.len()
        invariant
            k <= order.len(),
            order.len() == found.len(),
            found.len() == entries@.dom().len(),
            names.len() == found.len(),
            keys.len() == found.len(),
            sorts(texts(names@), order@),
            stored_under(store, keys, list_view(found@)),
            forall|i: int|
                0 <= i < found.len() ==> (#[trigger] names@[i])@ == lower_cased(found@[i].name@),
            forall|j: int| 0 <= j < order.len() ==> (#[trigger] order@[j]) < found.len(),
            list.len() == k,
            forall|j: int| 0 <= j < k ==> (#[trigger] list@[j])@ == found@[order@[j] as int]@,
        decreases order.len() - k,
    {
        list.push(found[order[k]].clone());
        k += 1;
    }
    proof {
        let sorted = list_view(list@);
        let ks = texts(names@);
        let picked = Seq::new(order@.len(), |i: int| keys[order@[i] as int]);
        assert forall|i: int, j: int| 0 <= i < j < sorted.len() implies !precedes(
            lower_cased(#[trigger] sorted[j].name),
            lower_cased(#[trigger] sorted[i].name),
        ) by {
            let a = order@[i] as int;
            let b = order@[j] as int;
            assert(ks[a] == lower_cased(sorted[i].name));
            assert(ks[b] == lower_cased(sorted[j].name));
            lemma_precedes_total(ks[a], ks[b]);
        }
        assert forall|i: int, j: int| 0 <= i < j < picked.len() implies picked[i] != picked[j] by {
            let a = order@[i] as int;
            let b = order@[j] as int;
            lemma_precedes_total(ks[a], ks[a]);
            assert(a != b);
        }
        assert forall|key: u128| store.contains_key(key) <==> picked.contains(key) by {
            if store.contains_key(key) {
                assert(keys.contains(key));
                let i = choose|i: int| 0 <= i < keys.len() && keys[i] == key;
                assert(0 <= i < ks.len());
                assert(order@.contains(i as usize));
                let j = choose|j: int| 0 <= j < order@.len() && order@[j] == i as usize;
                assert(picked[j] == key);
            }
            if picked.contains(key) {
                let j = choose|j: int| 0 <= j < picked.len() && picked[j] == key;
                assert(keys.contains(keys[order@[j] as int]));
            }
        }
        assert(stored_under(store, picked, sorted));
    }
    list
}

/// The handle of one vault: where its file is, and whether it is locked.
#[derive(Debug)]
pub struct Vault {
    path: String,
    state: State,
}

#[derive(Debug)]
enum State {
    Locked,
    Unlocked { entries: HashMap<u128, Entry>, encryption_key: Vec<u8> },
}

/// The state of a vault as plain values.
pub enum StateView {
    Locked,
    Unlocked { entries: Map<u128, EntryView>, key: Seq<u8> },
}

/// A vault as plain values.
pub struct VaultView {
    pub path: Seq<char>,
    pub state: StateView,
}

impl VaultView {
    /// The entries by identifier; none while the vault is locked.
    pub open spec fn entries(self) -> Option<Map<u128, EntryView>> {
        match self.state {
            StateView::Locked => None,
            StateView::Unlocked { entries, .. } => Some(entries),
        }
    }

    /// The vault with other entries; a locked vault stays as it is.
    pub open spec fn with_entries(self, entries: Map<u128, EntryView>) -> VaultView {
        VaultView { path: self.path, state: self.state.with_entries(entries) }
    }
}

/// The store after an entry, its code already generated, was put in. An
/// entry without identifier is stored under `fresh`; one with an identifier
/// is stored under it, in place of the entry that stood there if there was
/// one.
pub open spec fn upserted(entries: Map<u128, EntryView>, entry: EntryView, fresh: Id) -> Map<
    u128,
    EntryView,
> {
    match entry.id {
        Some(id) => entries.insert(id.0, entry),
        None => entries.insert(fresh.0, EntryView { id: Some(fresh), ..entry }),
    }
}

/// What putting an entry in makes of a vault at the time `seconds`, with
/// `fresh` at hand for an entry without identifier: a locked vault and an
/// entry whose code cannot be generated are errors.
pub open spec fn upsert_outcome(
    vault: VaultView,
    entry: EntryView,
    step: u64,
    seconds: u64,
    fresh: Id,
) -> Result<VaultView, VaultError> {
    match state_upsert(vault.state, entry, step, seconds, fresh) {
        Ok(state) => Ok(VaultView { path: vault.path, state }),
        Err(e) => Err(e),
    }
}

/// What putting an entry in makes of a vault's state.
pub open spec fn state_upsert(
    state: StateView,
    entry: EntryView,
    step: u64,
    seconds: u64,
    fresh: Id,
) -> Result<StateView, VaultError> {
    match state {
        StateView::Locked => Err(VaultError::Locked),
        StateView::Unlocked { entries, .. } => match entry.refreshed(step, seconds) {
            Err(e) => Err(VaultError::Totp(e)),
            Ok(coded) => Ok(state.with_entries(upserted(entries, coded, fresh))),
        },
    }
}

/// `after` is what putting the entry in makes of `before`, at the time
/// `seconds` and with the new identifier `fresh`.
pub open spec fn upsert_makes(
    before: VaultView,
    entry: EntryView,
    step: u64,
    seconds: u64,
    fresh: Id,
    after: VaultView,
) -> bool {
    upsert_outcome(before, entry, step, seconds, fresh) == Ok::<VaultView, VaultError>(after)
}

/// An entry as it is added: with its identifier, and its code generated
/// for the time `seconds`.
pub open spec fn coded_for_add(entry: EntryView, step: u64, seconds: u64) -> Result<
    EntryView,
    VaultError,
> {
    if entry.id is None {
        Err(VaultError::MissingId)
    } else {
        match entry.refreshed(step, seconds) {
            Ok(coded) => Ok(coded),
            Err(e) => Err(VaultError::Totp(e)),
        }
    }
}

/// The entries as they are added, each with its code generated; the
/// first entry that cannot be added fails the whole.
pub open spec fn all_coded(entries: Seq<EntryView>, step: u64, seconds: u64) -> Result<
    Seq<EntryView>,
    VaultError,
>
    decreases entries.len(),
{
    if entries.len() == 0 {
        Ok(Seq::empty())
    } else {
        match all_coded(entries.drop_last(), step, seconds) {
            Err(e) => Err(e),
            Ok(coded) => match coded_for_add(entries.last(), step, seconds) {
                Err(e) => Err(e),
                Ok(last) => Ok(coded.push(last)),
            },
        }
    }
}

/// The store after the entries were put in, in their order, each under its
/// own identifier: a later entry replaces an earlier one of the same
/// identifier, and an entry without identifier is passed over.
pub open spec fn inserted(store: Map<u128, EntryView>, entries: Seq<EntryView>) -> Map<
    u128,
    EntryView,
>
    decreases entries.len(),
{
    if entries.len() == 0 {
        store
    } else {
        let so_far = inserted(store, entries.drop_last());
        match entries.last().id {
            Some(id) => so_far.insert(id.0, entries.last()),
            None => so_far,
        }
    }
}

/// The store after the entries were added in their order, each under its
/// own identifier and with its code generated. The first entry that cannot
/// be added fails the whole.
pub open spec fn added_all(
    store: Map<u128, EntryView>,
    entries: Seq<EntryView>,
    step: u64,
    seconds: u64,
) -> Result<Map<u128, EntryView>, VaultError> {
    match all_coded(entries, step, seconds) {
        Err(e) => Err(e),
        Ok(coded) => Ok(inserted(store, coded)),
    }
}

/// Entries fail to be added for want of an identifier or of a code, and
/// for no other reason.
pub proof fn lemma_coding_errors(entries: Seq<EntryView>, step: u64, seconds: u64)
    ensures
        all_coded(entries, step, seconds) matches Err(e) ==> e == VaultError::MissingId || e
            is Totp,
    decreases entries.len(),
{
    if entries.len() > 0 {
        lemma_coding_errors(entries.drop_last(), step, seconds);
    }
}

/// A failure among the first entries is the failure of all of them.
pub proof fn lemma_coding_fails_early(entries: Seq<EntryView>, step: u64, seconds: u64, k: int)
    requires
        0 <= k <= entries.len(),
        all_coded(entries.subrange(0, k), step, seconds) is Err,
    ensures
        all_coded(entries, step, seconds) == all_coded(entries.subrange(0, k), step, seconds),
    decreases entries.len() - k,
{
    if k < entries.len() {
        assert(entries.subrange(0, k + 1).drop_last() == entries.subrange(0, k));
        lemma_coding_fails_early(entries, step, seconds, k + 1);
    } else {
        assert(entries.subrange(0, k) == entries);
    }
}

/// Generates the codes of entries that are to be added.
pub fn code_all(entries: &Vec<Entry>, step: u64, seconds: u64) -> (r: Result<Vec<Entry>, VaultError>)
    ensures
        r matches Ok(coded) ==> all_coded(list_view(entries@), step, seconds) matches Ok(c) && c
            == list_view(coded@),
        r matches Err(e) ==> all_coded(list_view(entries@), step, seconds) matches Err(x) && x
            == e,
{
    let ghost all = list_view(entries@);
    let mut coded: Vec<Entry> = Vec::new();
    let mut i: usize = 0;
    assert(all.subrange(0, 0) =~= Seq::<EntryView>::empty());
    assert(list_view(coded@) =~= Seq::<EntryView>::empty());
    while i < entries.len()
        invariant
            i <= entries.len(),
            all == list_view(entries@),
            all_coded(all.subrange(0, i as int), step, seconds) == Ok::<
                Seq<EntryView>,
                VaultError,
            >(list_view(coded@)),
        decreases entries.len() - i,
    {
        let ghost head = all.subrange(0, i + 1);
        let ghost so_far = list_view(coded@);
        assert(head.drop_last() == all.subrange(0, i as int));
        assert(head.last() == entries@[i as int]@);
        if entries[i].id.is_none() {
            proof {
                lemma_coding_fails_early(all, step, seconds, i + 1);
            }
            return Err(VaultError::MissingId);
        }
        let mut entry = entries[i].clone();
        match entry.generate_totp_at(step, seconds) {
            Ok(()) => {
                coded.push(entry);
                assert(list_view(coded@) =~= so_far.push(coded@.last()@));
            },
            Err(e) => {
                proof {
                    lemma_coding_fails_early(all, step, seconds, i + 1);
                }
                return Err(VaultError::Totp(e));
            },
        }
        i += 1;
    }
    assert(all.subrange(0, entries.len() as int) == all);
    Ok(coded)
}

fn insert_all(store: &mut HashMap<u128, Entry>, entries: &Vec<Entry>)
    ensures
        store_view(final(store)@) == inserted(store_view(old(store)@), list_view(entries@)),
{
    let ghost before = store_view(store@);
    let ghost all = list_view(entries@);
    let mut k: usize = 0;
    assert(all.subrange(0, 0) =~= Seq::<EntryView>::empty());
    while k < entries.len()
        invariant
            k <= entries.len(),
            all == list_view(entries@),
            store_view(store@) == inserted(before, all.subrange(0, k as int)),
        decreases entries.len() - k,
    {
        let ghost head = all.subrange(0, k + 1);
        let ghost so_far = store_view(store@);
        assert(head.drop_last() == all.subrange(0, k as int));
        assert(head.last() == entries@[k as int]@);
        match entries[k].id {
            Some(id) => {
                store.insert(id.0, entries[k].clone());
                assert(store_view(store@) =~= so_far.insert(id.0, head.last()));
            },
            None => {},
        }
        k += 1;
    }
    assert(all.subrange(0, entries.len() as int) == all);
}

/// What adding entries makes of a vault's state.
pub open spec fn state_added(state: StateView, entries: Seq<EntryView>, step: u64, seconds: u64) -> Result<
    StateView,
    VaultError,
> {
    match state {
        StateView::Locked => Err(VaultError::Locked),
        StateView::Unlocked { entries: store, .. } => match added_all(store, entries, step, seconds) {
            Ok(after) => Ok(state.with_entries(after)),
            Err(e) => Err(e),
        },
    }
}

/// What removing the entry `id` makes of a state, and what it answers: a
/// locked vault and a missing entry are errors and change nothing.
pub open spec fn removal(state: StateView, id: Id) -> (StateView, Result<(), VaultError>) {
    match state {
        StateView::Locked => (state, Err(VaultError::Locked)),
        StateView::Unlocked { entries, key } => if entries.contains_key(id.0) {
            (StateView::Unlocked { entries: entries.remove(id.0), key }, Ok(()))
        } else {
            (state, Err(VaultError::NotFound))
        },
    }
}

/// Every entry is stored under its own identifier.
pub open spec fn keyed_by_id(entries: Map<u128, EntryView>) -> bool {
    forall|k: u128| #[trigger] entries.contains_key(k) ==> entries[k].id == Some(Id(k))
}

impl View for State {
    type V = StateView;

    closed spec fn view(&self) -> StateView {
        match self {
            State::Locked => StateView::Locked,
            State::Unlocked { entries, encryption_key } => StateView::Unlocked {
                entries: store_view(entries@),
                key: encryption_key@,
            },
        }
    }
}

impl View for Vault {
    type V = VaultView;

    closed spec fn view(&self) -> VaultView {
        VaultView { path: self.path@, state: self.state@ }
    }
}

impl Clone for Vault {
    fn clone(&self) -> (v: Self)
        ensures
            v@ == self@,
    {
        let state = match &self.state {
            State::Locked => State::Locked,
            State::Unlocked { entries, encryption_key } => State::Unlocked {
                entries: entries.clone(),
                encryption_key: encryption_key.clone(),
            },
        };
        Vault { path: self.path.clone(), state }
    }
}

impl StateView {
    /// The state with other entries; a locked state stays as it is.
    pub open spec fn with_entries(self, entries: Map<u128, EntryView>) -> StateView {
        match self {
            StateView::Locked => self,
            StateView::Unlocked { key, .. } => StateView::Unlocked { entries, key },
        }
    }
}

impl State {
    fn remove(&mut self, id: Id) -> (r: Result<(), VaultError>)
        ensures
            r == removal(old(self)@, id).1,
            final(self)@ == removal(old(self)@, id).0,
    {
        match self {
            State::Locked => Err(VaultError::Locked),
            State::Unlocked { entries, .. } => {
                let ghost before = store_view(entries@);
                if entries.contains_key(&id.0) {
                    entries.remove(&id.0);
                    assert(store_view(entries@) =~= before.remove(id.0));
                    Ok(())
                } else {
                    Err(VaultError::NotFound)
                }
            },
        }
    }

    fn add_all(&mut self, entries: &Vec<Entry>, step: u64, seconds: u64) -> (r: Result<
        (),
        VaultError,
    >)
        ensures
            r is Ok ==> state_added(old(self)@, list_view(entries@), step, seconds) == Ok::<
                StateView,
                VaultError,
            >(final(self)@),
            r matches Err(e) ==> state_added(old(self)@, list_view(entries@), step, seconds)
                == Err::<StateView, VaultError>(e),
            r is Err ==> final(self)@ == old(self)@,
    {
        match self {
            State::Locked => Err(VaultError::Locked),
            State::Unlocked { entries: store, .. } => {
                // Generate every code first, so that a failure changes nothing.
                match code_all(entries, step, seconds) {
                    Ok(coded) => {
                        insert_all(store, &coded);
                        Ok(())
                    },
                    Err(e) => Err(e),
                }
            },
        }
    }

    fn replace(&mut self, store: HashMap<u128, Entry>) -> (r: Result<(), VaultError>)
        ensures
            old(self)@ is Locked ==> r is Err && final(self)@ == old(self)@,
            old(self)@ is Unlocked ==> r is Ok && final(self)@ == old(self)@.with_entries(
                store_view(store@),
            ),
            r matches Err(e) ==> e == VaultError::Locked,
    {
        match self {
            State::Locked => Err(VaultError::Locked),
            State::Unlocked { entries, .. } => {
                *entries = store;
                Ok(())
            },
        }
    }

    fn upsert(&mut self, entry: Entry, refresh_rate: u64, seconds: u64, fresh: Id) -> (r: Result<
        (),
        VaultError,
    >)
        ensures
            r is Ok ==> state_upsert(old(self)@, entry@, refresh_rate, seconds, fresh) == Ok::<
                StateView,
                VaultError,
            >(final(self)@),
            r matches Err(e) ==> state_upsert(old(self)@, entry@, refresh_rate, seconds, fresh)
                == Err::<StateView, VaultError>(e),
            r is Err ==> final(self)@ == old(self)@,
    {
        let mut entry = entry;
        match self {
            State::Locked => Err(VaultError::Locked),
            State::Unlocked { entries, .. } => {
                if let Err(e) = entry.generate_totp_at(refresh_rate, seconds) {
                    return Err(VaultError::Totp(e));
                }
                let ghost before = store_view(entries@);
                let ghost coded = entry@;
                match entry.id {
                    Some(id) => {
                        entries.insert(id.0, entry);
                    },
                    None => {
                        entry.id = Some(fresh);
                        entries.insert(fresh.0, entry);
                    },
                }
                assert(store_view(entries@) =~= upserted(before, coded, fresh));
                Ok(())
            },
        }
    }
}

impl Vault {
    /// The locked handle of the vault at `path`, if its file exists.
    pub fn load(path: String, exists: bool) -> (r: Result<Vault, VaultError>)
        ensures
            exists ==> (r matches Ok(v) && v@ == (VaultView {
                path: path@,
                state: StateView::Locked,
            })),
            !exists ==> r == Err::<Vault, VaultError>(VaultError::NotFound),
    {
        if exists {
            Ok(Vault { path, state: State::Locked })
        } else {
            Err(VaultError::NotFound)
        }
    }

    /// Creates a vault for `password` at the work factor `log_n`, with the
    /// salt and the nonce given: derives the key and seals `store`, the
    /// serialized empty set of entries. Returns the locked handle and the
    /// container to write at `path`. It succeeds exactly when a key can be
    /// derived, the nonce has twelve bytes and the cipher takes the data.
    pub fn create_from(
        password: &str,
        path: String,
        store: &[u8],
        log_n: u8,
        salt: String,
        nonce: Vec<u8>,
    ) -> (r: Result<(Vault, EncryptedContainer), VaultError>)
        ensures
            r matches Ok(made) ==> made.0@ == (VaultView {
                path: path@,
                state: StateView::Locked,
            }),
            r matches Ok(made) ==> made.1.salt == salt && made.1.nonce == nonce,
            r matches Ok(made) ==> key_of(password@, salt@, log_n) matches Some(key) && seals(
                made.1@,
                key,
                store@,
            ),
            r matches Ok(made) ==> opened(password@, made.1@, log_n) matches Ok(o) && o.0
                == store@,
            r is Ok == (key_of(password@, salt@, log_n) matches Some(key) && nonce@.len()
                == NONCE_LEN && aes_gcm_sealed(key, nonce@, store@) is Some),
            r matches Err(VaultError::KeyDerivation) ==> key_of(password@, salt@, log_n) is None,
            r matches Err(e) ==> e == VaultError::KeyDerivation || e == VaultError::Encryption,
    {
        let key = match derive_key(password, salt.as_str(), log_n) {
            Some(key) => key,
            None => {
                return Err(VaultError::KeyDerivation);
            },
        };
        match seal_with_nonce(key.as_slice(), nonce, salt, store) {
            Ok(container) => {
                proof {
                    lemma_sealed_opens(password@, container@, store@, log_n);
                }
                Ok((Vault { path, state: State::Locked }, container))
            },
            Err(e) => Err(e),
        }
    }

    /// Creates a vault for `password` at the work factor `log_n`: draws a
    /// salt and a nonce and does as `create_from` does with them. Whatever
    /// was drawn, a success returns the locked handle and a container with
    /// a salt of 22 characters and a nonce of twelve bytes, which opens to
    /// `store` again with the password and the work factor.
    pub fn create_with_cost(password: &str, path: String, store: &[u8], log_n: u8) -> (r: Result<
        (Vault, EncryptedContainer),
        VaultError,
    >)
        ensures
            r matches Ok(made) ==> made.0@ == (VaultView {
                path: path@,
                state: StateView::Locked,
            }),
            r matches Ok(made) ==> made.1.salt@.len() == SALT_LEN && made.1.nonce@.len()
                == NONCE_LEN,
            r matches Ok(made) ==> key_of(password@, made.1.salt@, log_n) matches Some(key)
                && seals(made.1@, key, store@),
            r matches Ok(made) ==> opened(password@, made.1@, log_n) matches Ok(o) && o.0
                == store@,
            r matches Err(e) ==> e == VaultError::KeyDerivation || e == VaultError::Encryption,
            log_n > RECOMMENDED_LOG_N ==> r is Err,
    {
        let salt = random_salt();
        match random_nonce() {
            Some(nonce) => Vault::create_from(password, path, store, log_n, salt, nonce),
            None => Err(VaultError::Encryption),
        }
    }

    /// Creates a vault for `password` at the recommended work factor.
    pub fn create(password: &str, path: String, store: &[u8]) -> (r: Result<
        (Vault, EncryptedContainer),
        VaultError,
    >)
        ensures
            r matches Ok(made) ==> made.0@ == (VaultView {
                path: path@,
                state: StateView::Locked,
            }),
            r matches Ok(made) ==> made.1.salt@.len() == SALT_LEN && made.1.nonce@.len()
                == NONCE_LEN,
            r matches Ok(made) ==> key_of(password@, made.1.salt@, RECOMMENDED_LOG_N) matches Some(
                key,
            ) && seals(made.1@, key, store@),
            r matches Ok(made) ==> opened(password@, made.1@, RECOMMENDED_LOG_N) matches Ok(o)
                && o.0 == store@,
            r matches Err(e) ==> e == VaultError::KeyDerivation || e == VaultError::Encryption,
    {
        Vault::create_with_cost(password, path, store, RECOMMENDED_LOG_N)
    }

    /// Opens a container with a password, at the work factor `log_n`:
    /// derives the key from the password and the stored salt, and decrypts.
    /// Wrong password and damaged data are not told apart.
    pub fn decrypt_with_cost(password: &str, container: &EncryptedContainer, log_n: u8) -> (r:
        Result<Opened, VaultError>)
        ensures
            r matches Ok(o) ==> opened(password@, container@, log_n) matches Ok(x) && x == (
                o.data@,
                o.key@,
            ) && o.key@.len() == KEY_LEN,
            r matches Err(e) ==> opened(password@, container@, log_n) matches Err(x) && x == e,
    {
        if container.nonce.len() != NONCE_LEN {
            return Err(VaultError::CorruptData);
        }
        let key = match derive_key(password, container.salt.as_str(), log_n) {
            Some(key) => key,
            None => {
                return Err(VaultError::AuthenticationFailure);
            },
        };
        match decrypt(key.as_slice(), container.nonce.as_slice(), container.encrypted_data.as_slice()) {
            Some(data) => Ok(Opened { data, key }),
            None => Err(VaultError::AuthenticationFailure),
        }
    }

    /// Opens a container with a password, at the recommended work factor.
    pub fn decrypt(password: &str, container: &EncryptedContainer) -> (r: Result<
        Opened,
        VaultError,
    >)
        ensures
            r matches Ok(o) ==> opened(password@, container@, RECOMMENDED_LOG_N) matches Ok(x)
                && x == (o.data@, o.key@) && o.key@.len() == KEY_LEN,
            r matches Err(e) ==> opened(password@, container@, RECOMMENDED_LOG_N) matches Err(x)
                && x == e,
    {
        Vault::decrypt_with_cost(password, container, RECOMMENDED_LOG_N)
    }

    /// Unlocks the handle with the key that opened the container and the
    /// entries read from the decrypted data. A key of another length than
    /// 32 bytes is refused as corrupt.
    pub fn unlock(self, key: Vec<u8>, entries: HashMap<u128, Entry>) -> (r: Result<
        Vault,
        VaultError,
    >)
        ensures
            key@.len() == KEY_LEN ==> (r matches Ok(v) && v@ == (VaultView {
                path: self@.path,
                state: StateView::Unlocked { entries: store_view(entries@), key: key@ },
            })),
            key@.len() != KEY_LEN ==> r == Err::<Vault, VaultError>(VaultError::CorruptData),
    {
        if key.len() != KEY_LEN {
            return Err(VaultError::CorruptData);
        }
        Ok(Vault { path: self.path, state: State::Unlocked { entries, encryption_key: key } })
    }

    /// The path of the vault's file.
    pub fn path(&self) -> (p: &str)
        ensures
            p@ == self@.path,
    {
        self.path.as_str()
    }

    /// Whether the vault is unlocked.
    pub fn is_unlocked(&self) -> (r: bool)
        ensures
            r == (self@.state is Unlocked),
    {
        match &self.state {
            State::Locked => false,
            State::Unlocked { .. } => true,
        }
    }

    /// Seals `data`, the serialized entries, under the vault's key with a
    /// fresh nonce. The container keeps `stored_salt`, the salt of the file
    /// that exists, and gets a new random salt where there is no file. Only
    /// an unlocked vault can be saved. The container is the whole new
    /// content of the file.
    pub fn save(&self, data: &[u8], stored_salt: Option<String>) -> (r: Result<
        EncryptedContainer,
        VaultError,
    >)
        ensures
            self@.state is Locked ==> r == Err::<EncryptedContainer, VaultError>(
                VaultError::Locked,
            ),
            r matches Ok(c) ==> self@.state matches StateView::Unlocked { key, .. } && seals(
                c@,
                key,
                data@,
            ),
            r matches Ok(c) ==> stored_salt matches Some(salt) ==> c.salt == salt,
            r matches Ok(c) ==> stored_salt is None ==> c.salt@.len() == SALT_LEN,
            r matches Err(e) ==> e == VaultError::Locked || e == VaultError::Encryption,
            r matches Err(VaultError::Locked) ==> self@.state is Locked,
    {
        match &self.state {
            State::Locked => Err(VaultError::Locked),
            State::Unlocked { encryption_key, .. } => {
                let salt = match stored_salt {
                    Some(salt) => salt,
                    None => random_salt(),
                };
                seal(encryption_key.as_slice(), salt, data)
            },
        }
    }

    /// The entries, if the vault is unlocked.
    pub fn entries(&self) -> (r: Option<&HashMap<u128, Entry>>)
        ensures
            r matches Some(entries) ==> self@.entries() == Some(store_view(entries@)),
            r is None == (self@.state is Locked),
    {
        match &self.state {
            State::Unlocked { entries, .. } => Some(entries),
            State::Locked => None,
        }
    }

    /// The entries sorted by name without regard to letter case, if the
    /// vault is unlocked.
    pub fn sorted_entries(&self) -> (r: Option<Vec<Entry>>)
        ensures
            r is None == (self@.state is Locked),
            r matches Some(list) ==> self@.entries() matches Some(entries) && lists_store(
                entries,
                list_view(list@),
            ),
    {
        match &self.state {
            State::Unlocked { entries, .. } => Some(list_sorted(entries)),
            State::Locked => None,
        }
    }

    /// Puts an entry in the store, with its code generated for the time
    /// `seconds`; `fresh` is the identifier for an entry that has none yet.
    /// On failure the vault is left as it was.
    pub fn upsert_entry_at(&mut self, entry: Entry, refresh_rate: u64, seconds: u64, fresh: Id) -> (r:
        Result<(), VaultError>)
        ensures
            r is Ok ==> upsert_makes(
                old(self)@,
                entry@,
                refresh_rate,
                seconds,
                fresh,
                final(self)@,
            ),
            r matches Err(e) ==> upsert_outcome(old(self)@, entry@, refresh_rate, seconds, fresh)
                matches Err(x) && x == e,
            r is Err ==> final(self)@ == old(self)@,
    {
        self.state.upsert(entry, refresh_rate, seconds, fresh)
    }

    /// Puts an entry in the store, with its code generated for the present
    /// time. An entry without identifier gets a new random one; one with an
    /// identifier is stored under it, in place of the entry that stood
    /// there if there was one. Nothing is written to disk. A locked vault
    /// gives `Locked`, and nothing else does. Whatever the clock and the generator gave, a success leaves
    /// the store as `upsert_entry_at` makes it for some time and some new
    /// identifier, and a failure leaves the vault as it was.
    pub fn upsert_entry(&mut self, entry: Entry, refresh_rate: u64) -> (r: Result<(), VaultError>)
        ensures
            final(self)@.path == old(self)@.path,
            old(self)@.state is Locked ==> r == Err::<(), VaultError>(VaultError::Locked),
            r matches Err(VaultError::Locked) ==> old(self)@.state is Locked,
            r matches Err(e) ==> e == VaultError::Locked || e is Totp,
            r matches Err(VaultError::Totp(e)) ==> e == TotpError::Clock || exists|seconds: u64|
                entry@.refreshed(refresh_rate, seconds) == crate::entry::no_entry(e),
            r is Err ==> final(self)@ == old(self)@,
            r is Ok ==> exists|seconds: u64, fresh: Id| #[trigger]
                upsert_makes(old(self)@, entry@, refresh_rate, seconds, fresh, final(self)@),
    {
        if !self.is_unlocked() {
            return Err(VaultError::Locked);
        }
        let seconds = match unix_seconds() {
            Some(seconds) => seconds,
            None => {
                return Err(VaultError::Totp(TotpError::Clock));
            },
        };
        let fresh = Id::fresh();
        self.upsert_entry_at(entry, refresh_rate, seconds, fresh)
    }

    /// Adds entries to the store, each under its own identifier and with
    /// its code generated for the time `seconds`. A locked vault, an entry
    /// without identifier and an entry whose code cannot be generated are
    /// errors, and leave the vault as it was.
    pub fn add_entries_at(&mut self, entries: &Vec<Entry>, refresh_rate: u64, seconds: u64) -> (r:
        Result<(), VaultError>)
        ensures
            final(self)@.path == old(self)@.path,
            r is Ok ==> state_added(
                old(self)@.state,
                list_view(entries@),
                refresh_rate,
                seconds,
            ) == Ok::<StateView, VaultError>(final(self)@.state),
            r matches Err(e) ==> state_added(
                old(self)@.state,
                list_view(entries@),
                refresh_rate,
                seconds,
            ) == Err::<StateView, VaultError>(e),
            r is Err ==> final(self)@ == old(self)@,
    {
        self.state.add_all(entries, refresh_rate, seconds)
    }

    /// Adds entries to the store, with their codes generated for the
    /// present time, as `add_entries_at` does for the time that the clock
    /// gave. A failure leaves the vault as it was.
    pub fn add_entries(&mut self, entries: &Vec<Entry>, refresh_rate: u64) -> (r: Result<
        (),
        VaultError,
    >)
        ensures
            final(self)@.path == old(self)@.path,
            old(self)@.state is Locked ==> r == Err::<(), VaultError>(VaultError::Locked),
            r matches Err(VaultError::Locked) ==> old(self)@.state is Locked,
            r matches Err(e) ==> e == VaultError::Totp(TotpError::Clock) || exists|seconds: u64|
                #[trigger] state_added(old(self)@.state, list_view(entries@), refresh_rate, seconds)
                    == Err::<StateView, VaultError>(e),
            r is Err ==> final(self)@ == old(self)@,
            r is Ok ==> exists|seconds: u64| #[trigger]
                state_added(old(self)@.state, list_view(entries@), refresh_rate, seconds) == Ok::<
                    StateView,
                    VaultError,
                >(final(self)@.state),
    {
        if !self.is_unlocked() {
            assert(state_added(self@.state, list_view(entries@), refresh_rate, 0) == Err::<
                StateView,
                VaultError,
            >(VaultError::Locked));
            return Err(VaultError::Locked);
        }
        match unix_seconds() {
            Some(seconds) => {
                proof {
                    lemma_coding_errors(list_view(entries@), refresh_rate, seconds);
                }
                self.add_entries_at(entries, refresh_rate, seconds)
            },
            None => Err(VaultError::Totp(TotpError::Clock)),
        }
    }

    /// The entries as a batch of one URI per line, sorted by name without
    /// regard to letter case. A locked vault gives `Locked`; an empty one
    /// gives `NoEntries`, and no empty batch.
    pub fn export_uri(&self) -> (r: Result<String, VaultError>)
        ensures
            self@.state is Locked ==> r == Err::<String, VaultError>(VaultError::Locked),
            r matches Ok(text) ==> self@.entries() matches Some(entries) && exports(entries, text@),
            r matches Err(e) ==> e == VaultError::Locked || e == VaultError::NoEntries,
            r matches Err(VaultError::Locked) ==> self@.state is Locked,
            r matches Err(VaultError::NoEntries) ==> self@.entries() matches Some(entries)
                && entries.dom().len() == 0,
    {
        match &self.state {
            State::Locked => Err(VaultError::Locked),
            State::Unlocked { entries, .. } => {
                assert(store_view(entries@).dom() =~= entries@.dom());
                assert(self@.entries() == Some(store_view(entries@)));
                if entries.len() == 0 {
                    return Err(VaultError::NoEntries);
                }
                let list = list_sorted(entries);
                assert(crate::otp_uri::entries_view(list@) =~= list_view(list@));
                assert(self@.entries() == Some(store_view(entries@)));
                match crate::otp_uri::entries_to_batch(&list) {
                    Some(text) => {
                        assert(lists_store(store_view(entries@), list_view(list@)));
                        Ok(text)
                    },
                    None => Err(VaultError::NoEntries),
                }
            },
        }
    }

    /// Removes the entry stored under `id`. A locked vault gives `Locked`,
    /// an identifier that is not stored gives `NotFound`, and both leave the
    /// vault as it was.
    pub fn delete_entry(&mut self, id: Id) -> (r: Result<(), VaultError>)
        ensures
            final(self)@.path == old(self)@.path,
            r == removal(old(self)@.state, id).1,
            final(self)@.state == removal(old(self)@.state, id).0,
    {
        self.state.remove(id)
    }

    /// Replaces all entries at once. Only an unlocked vault takes them.
    pub fn substitute_entries(&mut self, entries: HashMap<u128, Entry>) -> (r: Result<
        (),
        VaultError,
    >)
        ensures
            old(self)@.state is Locked ==> r == Err::<(), VaultError>(VaultError::Locked)
                && final(self)@ == old(self)@,
            old(self)@.state is Unlocked ==> r is Ok && final(self)@ == old(self)@.with_entries(
                store_view(entries@),
            ),
    {
        self.state.replace(entries)
    }

    /// Generates the code of every entry for the time `seconds` and returns
    /// the refreshed entries; the vault itself is not changed. A locked
    /// vault gives `Locked` and an empty one `NoEntries`; else the call
    /// succeeds when every entry's code can be generated, and fails with
    /// the error of one of the entries that has none.
    pub fn update_all_totp_at(&self, refresh_rate: u64, seconds: u64) -> (r: Result<
        HashMap<u128, Entry>,
        VaultError,
    >)
        ensures
            self@.state is Locked ==> r matches Err(VaultError::Locked),
            self@.entries() matches Some(before) ==> before.dom().len() == 0 ==> r matches Err(
                VaultError::NoEntries,
            ),
            r matches Ok(after) ==> self@.entries() matches Some(before) && all_refreshed(
                before,
                store_view(after@),
                refresh_rate,
                seconds,
            ),
            r matches Err(VaultError::Totp(e)) ==> self@.entries() matches Some(before)
                && some_fails(before, refresh_rate, seconds, e),
            r matches Err(VaultError::Locked) ==> self@.state is Locked,
            r matches Err(VaultError::NoEntries) ==> self@.entries() matches Some(before)
                && before.dom().len() == 0,
            r matches Err(e) ==> e == VaultError::Locked || e == VaultError::NoEntries || e is Totp,
    {
        match &self.state {
            State::Locked => Err(VaultError::Locked),
            State::Unlocked { entries, .. } => {
                assert(store_view(entries@).dom() =~= entries@.dom());
                if entries.len() == 0 {
                    return Err(VaultError::NoEntries);
                }
                match refresh_all(entries, refresh_rate, seconds) {
                    Ok(after) => Ok(after),
                    Err(e) => Err(VaultError::Totp(e)),
                }
            },
        }
    }

    /// Generates the code of every entry for the present time and returns
    /// the refreshed entries, as `update_all_totp_at` does for the time
    /// that the clock gave. A locked vault gives `Locked` and an empty one
    /// `NoEntries`, whatever the clock reads.
    pub fn update_all_totp(&self, refresh_rate: u64) -> (r: Result<
        HashMap<u128, Entry>,
        VaultError,
    >)
        ensures
            self@.state is Locked ==> r matches Err(VaultError::Locked),
            r matches Err(VaultError::Locked) ==> self@.state is Locked,
            self@.entries() matches Some(before) ==> before.dom().len() == 0 ==> r matches Err(
                VaultError::NoEntries,
            ),
            r matches Err(VaultError::NoEntries) ==> self@.entries() matches Some(before)
                && before.dom().len() == 0,
            r matches Err(VaultError::Totp(e)) ==> self@.entries() matches Some(before) && (e
                == TotpError::Clock || exists|seconds: u64| #[trigger]
                some_fails(before, refresh_rate, seconds, e)),
            r matches Err(e) ==> e == VaultError::Locked || e == VaultError::NoEntries || e is Totp,
            r matches Ok(after) ==> self@.entries() matches Some(before) && exists|seconds: u64|
                #[trigger] all_refreshed(before, store_view(after@), refresh_rate, seconds),
    {
        match &self.state {
            State::Locked => {
                return Err(VaultError::Locked);
            },
            State::Unlocked { entries, .. } => {
                assert(store_view(entries@).dom() =~= entries@.dom());
                if entries.len() == 0 {
                    return Err(VaultError::NoEntries);
                }
            },
        }
        match unix_seconds() {
            Some(seconds) => self.update_all_totp_at(refresh_rate, seconds),
            None => Err(VaultError::Totp(TotpError::Clock)),
        }
    }
}

/// Refreshing within one window gives the same codes: what the entries
/// become for one time of a window, they become for every time of it.
pub proof fn lemma_refresh_same_window(
    before: Map<u128, EntryView>,
    after: Map<u128, EntryView>,
    step: u64,
    t1: u64,
    t2: u64,
)
    requires
        step > 0,
        crate::totp::window(step, t1) == crate::totp::window(step, t2),
        all_refreshed(before, after, step, t1),
    ensures
        all_refreshed(before, after, step, t2),
{
    assert forall|k: u128| #[trigger] before.contains_key(k) implies before[k].refreshed(step, t2)
        == crate::entry::ok_entry(after[k]) by {
        crate::entry::lemma_refreshed_same_window(before[k], step, t1, t2);
    }
}

/// Refreshing entries that were refreshed in the same window changes
/// nothing.
pub proof fn lemma_refresh_idempotent(
    before: Map<u128, EntryView>,
    after: Map<u128, EntryView>,
    step: u64,
    t1: u64,
    t2: u64,
)
    requires
        step > 0,
        crate::totp::window(step, t1) == crate::totp::window(step, t2),
        all_refreshed(before, after, step, t1),
    ensures
        all_refreshed(after, after, step, t2),
{
    assert forall|k: u128| #[trigger] after.contains_key(k) implies after[k].refreshed(step, t2)
        == crate::entry::ok_entry(after[k]) by {
        assert(before.contains_key(k));
        crate::entry::lemma_refreshed_same_window(before[k], step, t1, t2);
        crate::entry::lemma_refreshed_again(before[k], step, t1, t2);
    }
}

/// Putting an entry in a store where every entry is stored under its own
/// identifier leaves such a store.
pub proof fn lemma_upsert_keeps_keys(entries: Map<u128, EntryView>, entry: EntryView, fresh: Id)
    requires
        keyed_by_id(entries),
    ensures
        keyed_by_id(upserted(entries, entry, fresh)),
{
}

} // verus!
