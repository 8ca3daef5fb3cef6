use clockode::database::{
    read_batch, sort_entries, write_batch, Change, ClockodeDatabase, DatabaseError, Group, Record,
};
use clockode::database_entry::{ClockodeEntry, Field, RecordError, Totp, TotpRuleError};
use clockode::entry::{Algorithm, Id};

const SECRET: [u8; 20] = *b"12345678901234567890";
const SECRET_B32: &str = "GEZDGNBVGY3TQOJQGEZDGNBVGY3TQOJQ";

fn totp(digits: usize, step: u64, secret: &[u8]) -> Totp {
    Totp {
        algorithm: Algorithm::Sha256,
        digits,
        skew: 1,
        step,
        secret: secret.to_vec(),
        issuer: Some("Example".to_string()),
        account_name: "alice".to_string(),
    }
}

fn entry(id: Option<Id>, name: &str) -> ClockodeEntry {
    ClockodeEntry { id, name: name.to_string(), totp: totp(6, 30, &SECRET) }
}

fn field(key: &str, value: &str) -> Field {
    Field { key: key.to_string(), value: value.to_string(), protected: false }
}

fn names(db: &ClockodeDatabase) -> Vec<String> {
    db.list_entries().unwrap().into_iter().map(|e| e.name).collect()
}

#[test]
fn an_entry_is_stored_under_five_fields() {
    let fields = entry(None, "Mail").to_fields();
    let pairs: Vec<(&str, &str, bool)> =
        fields.iter().map(|f| (f.key.as_str(), f.value.as_str(), f.protected)).collect();
    assert_eq!(
        pairs,
        vec![
            ("Title", "Mail", false),
            ("ClockodeTotpSecret", SECRET_B32, true),
            ("ClockodeTotpAlgorithm", "SHA256", false),
            ("ClockodeTotpPeriod", "30", false),
            ("ClockodeTotpDigits", "6", false),
        ]
    );
}

#[test]
fn stored_fields_give_the_entry_back() {
    let mut e = entry(None, "Mail");
    e.totp.digits = 8;
    e.totp.step = 45;
    e.totp.algorithm = Algorithm::Sha512;
    let read = ClockodeEntry::from_record(Id(3), &e.to_fields()).unwrap();
    assert_eq!(read.id, Some(Id(3)));
    assert_eq!(read.name, "Mail");
    assert_eq!(read.totp.secret, SECRET.to_vec());
    assert_eq!(read.totp.algorithm, Algorithm::Sha512);
    assert_eq!(read.totp.digits, 8);
    assert_eq!(read.totp.step, 45);
    assert_eq!(read.totp.skew, 0);
    assert_eq!(read.totp.issuer, None);
    assert_eq!(read.totp.account_name, "");
}

#[test]
fn absent_fields_have_defaults() {
    let read = ClockodeEntry::from_record(Id(1), &vec![field("ClockodeTotpSecret", SECRET_B32)]).unwrap();
    assert_eq!(read.name, "Unnamed TOTP Entry");
    assert_eq!(read.totp.algorithm, Algorithm::Sha1);
    assert_eq!(read.totp.digits, 6);
    assert_eq!(read.totp.step, 30);
    let read = ClockodeEntry::from_record(
        Id(1),
        &vec![
            field("ClockodeTotpSecret", SECRET_B32),
            field("ClockodeTotpAlgorithm", "sha512"),
            field("ClockodeTotpDigits", "many"),
            field("ClockodeTotpPeriod", "-5"),
        ],
    )
    .unwrap();
    assert_eq!(read.totp.algorithm, Algorithm::Sha512);
    assert_eq!(read.totp.digits, 6);
    assert_eq!(read.totp.step, 30);
    let read = ClockodeEntry::from_record(
        Id(1),
        &vec![field("ClockodeTotpSecret", SECRET_B32), field("ClockodeTotpAlgorithm", "MD5")],
    )
    .unwrap();
    assert_eq!(read.totp.algorithm, Algorithm::Sha1);
}

#[test]
fn records_that_hold_no_entry() {
    assert_eq!(
        ClockodeEntry::from_record(Id(1), &vec![field("Title", "x")]).err(),
        Some(RecordError::MissingSecret)
    );
    assert_eq!(
        ClockodeEntry::from_record(Id(1), &vec![field("ClockodeTotpSecret", "not base32!")]).err(),
        Some(RecordError::InvalidSecret)
    );
}

#[test]
fn what_was_stored_is_read_whatever_its_digits_and_length() {
    let read = ClockodeEntry::from_record(
        Id(1),
        &vec![field("ClockodeTotpSecret", SECRET_B32), field("ClockodeTotpDigits", "9")],
    )
    .unwrap();
    assert_eq!(read.totp.digits, 9);
    let read =
        ClockodeEntry::from_record(Id(1), &vec![field("ClockodeTotpSecret", "JBSWY3DPEHPK3PXP")])
            .unwrap();
    assert_eq!(read.totp.secret, b"Hello!\xde\xad\xbe\xef".to_vec());
}

#[test]
fn every_valid_entry_survives_the_fields() {
    for len in [10usize, 15, 16, 20, 64] {
        for digits in [6usize, 8] {
            for step in [1u64, 30, 300] {
                let secret: Vec<u8> = (0..len).map(|i| (i * 7 + 3) as u8).collect();
                let mut e = entry(None, "Mail");
                e.totp = totp(digits, step, &secret);
                assert!(e.valid());
                let read = ClockodeEntry::from_record(Id(5), &e.to_fields()).unwrap();
                assert_eq!(read.name, e.name);
                assert_eq!(read.totp.secret, e.totp.secret);
                assert_eq!(read.totp.algorithm, e.totp.algorithm);
                assert_eq!(read.totp.digits, e.totp.digits);
                assert_eq!(read.totp.step, e.totp.step);
            }
        }
    }
}

#[test]
fn the_rules_for_parameters() {
    assert_eq!(totp(6, 30, &SECRET).check(), Ok(()));
    assert_eq!(totp(7, 30, &SECRET).check(), Ok(()));
    assert_eq!(totp(8, 30, &SECRET).check(), Ok(()));
    assert_eq!(totp(5, 30, &SECRET).check(), Err(TotpRuleError::InvalidDigits(5)));
    assert_eq!(totp(9, 30, &SECRET).check(), Err(TotpRuleError::InvalidDigits(9)));
    assert_eq!(totp(6, 30, &SECRET[..15]).check(), Err(TotpRuleError::SecretTooSmall(120)));
    assert_eq!(totp(6, 30, &SECRET[..16]).check(), Ok(()));
    let mut t = totp(6, 30, &SECRET);
    t.issuer = Some("a:b".to_string());
    assert_eq!(t.check(), Err(TotpRuleError::Issuer));
    let mut t = totp(6, 30, &SECRET);
    t.account_name = "a:b".to_string();
    assert_eq!(t.check(), Err(TotpRuleError::AccountName));
    let mut t = totp(6, 30, &SECRET);
    t.issuer = None;
    assert_eq!(t.check(), Ok(()));
}

#[test]
fn validation_boundaries() {
    let with = |digits: usize, step: u64, len: usize, name: &str| ClockodeEntry {
        id: None,
        name: name.to_string(),
        totp: totp(digits, step, &vec![1u8; len]),
    };
    assert!(with(6, 30, 20, "n").valid());
    assert!(with(8, 30, 20, "n").valid());
    assert!(!with(7, 30, 20, "n").valid());
    assert!(!with(6, 0, 20, "n").valid());
    assert!(with(6, 1, 20, "n").valid());
    assert!(with(6, 300, 20, "n").valid());
    assert!(!with(6, 301, 20, "n").valid());
    assert!(!with(6, 30, 9, "n").valid());
    assert!(with(6, 30, 10, "n").valid());
    assert!(with(6, 30, 64, "n").valid());
    assert!(!with(6, 30, 65, "n").valid());
    assert!(!with(6, 30, 20, "").valid());
    assert!(!with(6, 30, 20, " \t\u{a0}").valid());
}

#[test]
fn a_new_database_has_the_fixed_group() {
    let db = ClockodeDatabase::new();
    assert_eq!(db.groups.len(), 1);
    assert_eq!(db.groups[0].name, "Default Group");
    assert_eq!(db.list_entries().unwrap().len(), 0);
}

#[test]
fn a_missing_group_is_a_structural_error() {
    let mut db = ClockodeDatabase { groups: vec![Group { name: "Other".to_string(), records: vec![] }] };
    assert_eq!(db.list_entries().err(), Some(DatabaseError::MissingGroup));
    assert_eq!(db.add_entry(&entry(None, "a")), Err(DatabaseError::MissingGroup));
    assert_eq!(db.update_entry(&entry(Some(Id(1)), "a")), Err(DatabaseError::MissingGroup));
    assert_eq!(db.delete_entry(Id(1)), Err(DatabaseError::MissingGroup));
    assert_eq!(db.export_content().err(), Some(DatabaseError::MissingGroup));
    assert_eq!(db.records_without_secret(), Err(DatabaseError::MissingGroup));
    assert_eq!(db.groups.len(), 1);
    assert_eq!(db.groups[0].records.len(), 0);
}

#[test]
fn add_update_delete() {
    let mut db = ClockodeDatabase {
        groups: vec![
            Group { name: "Other".to_string(), records: vec![] },
            Group { name: "Default Group".to_string(), records: vec![] },
            Group { name: "Default Group".to_string(), records: vec![] },
        ],
    };
    assert_eq!(db.add_entry_as(&entry(None, "first"), Id(1)), Ok(Change::Added { group: 1, from: 0 }));
    assert_eq!(db.add_entry_as(&entry(None, "second"), Id(2)), Ok(Change::Added { group: 1, from: 1 }));
    assert_eq!(db.add_entry(&entry(None, "third")), Ok(Change::Added { group: 1, from: 2 }));
    // The first group of the name takes the records.
    assert_eq!(db.groups[0].records.len(), 0);
    assert_eq!(db.groups[1].records.len(), 3);
    assert_eq!(db.groups[2].records.len(), 0);
    assert_eq!(db.groups[1].records[0].uuid, Id(1));
    assert_eq!(names(&db), vec!["first", "second", "third"]);

    assert_eq!(db.update_entry(&entry(None, "x")), Err(DatabaseError::MissingId));
    assert_eq!(db.update_entry(&entry(Some(Id(9)), "x")), Err(DatabaseError::EntryNotFound(Id(9))));
    let mut renamed = entry(Some(Id(2)), "zulu");
    renamed.totp.digits = 8;
    assert_eq!(db.update_entry(&renamed), Ok(Change::Replaced { group: 1, at: 1 }));
    assert_eq!(names(&db), vec!["first", "third", "zulu"]);
    let listed = db.list_entries().unwrap();
    assert_eq!(listed[2].id, Some(Id(2)));
    assert_eq!(listed[2].totp.digits, 8);
    assert_eq!(db.groups[1].records[1].uuid, Id(2));
    assert_eq!(db.groups[1].records[1].fields.len(), 5);

    assert_eq!(db.delete_entry(Id(9)), Err(DatabaseError::EntryNotFound(Id(9))));
    assert_eq!(db.delete_entry(Id(1)), Ok(Change::Removed { group: 1, at: 0 }));
    assert_eq!(names(&db), vec!["third", "zulu"]);
    assert_eq!(db.delete_entry(Id(1)), Err(DatabaseError::EntryNotFound(Id(1))));
}

#[test]
fn listing_sorts_without_regard_to_case_and_skips_records_without_secret() {
    let mut db = ClockodeDatabase::new();
    for (id, name) in [(1u128, "delta"), (2, "Alpha"), (3, "charlie"), (4, "alpha"), (5, "Bravo")] {
        db.add_entry_as(&entry(None, name), Id(id)).unwrap();
    }
    assert_eq!(db.records_without_secret(), Ok(vec![]));
    db.groups[0].records.push(Record { uuid: Id(6), fields: vec![field("Title", "no secret")] });
    db.groups[0].records.insert(0, Record { uuid: Id(8), fields: vec![] });
    assert_eq!(db.records_without_secret(), Ok(vec![Id(8), Id(6)]));
    assert_eq!(names(&db), vec!["Alpha", "alpha", "Bravo", "charlie", "delta"]);
    let ids: Vec<Option<Id>> = db.list_entries().unwrap().into_iter().map(|e| e.id).collect();
    assert_eq!(ids, vec![Some(Id(2)), Some(Id(4)), Some(Id(5)), Some(Id(3)), Some(Id(1))]);

    db.groups[0].records.push(Record {
        uuid: Id(7),
        fields: vec![field("ClockodeTotpSecret", "?")],
    });
    assert_eq!(
        db.list_entries().err(),
        Some(DatabaseError::Record(RecordError::InvalidSecret))
    );
}

#[test]
fn sorting_keeps_the_order_of_equal_names() {
    let list = sort_entries(&vec![
        entry(Some(Id(1)), "b"),
        entry(Some(Id(2)), "A"),
        entry(Some(Id(3)), "B"),
        entry(Some(Id(4)), "a"),
        entry(Some(Id(5)), "ab"),
        entry(Some(Id(6)), ""),
    ]);
    let ids: Vec<u128> = list.iter().map(|e| e.id.unwrap().0).collect();
    assert_eq!(ids, vec![6, 2, 4, 5, 1, 3]);
}

const GOOD_1: &str = "otpauth://totp/Example:alice?secret=GEZDGNBVGY3TQOJQGEZDGNBVGY3TQOJQ&issuer=Example";
const GOOD_2: &str = "otpauth://totp/bob?secret=JBSWY3DPEHPK3PXP&digits=8&period=60&algorithm=SHA512";
const GOOD_3: &str = "otpauth://totp/%20?secret=JBSWY3DPEHPK3PXP";

#[test]
fn a_batch_with_a_malformed_line_imports_the_others() {
    let content = format!("# my codes\n{GOOD_1}\n\nthis is no url\n  {GOOD_2}  \r\n{GOOD_3}\n");
    let mut db = ClockodeDatabase::new();
    let done = db.import_content(&content).unwrap();
    assert_eq!(done.refused, vec!["this is no url".to_string()]);
    assert_eq!(done.change, Change::Added { group: 0, from: 0 });
    assert_eq!(db.groups[0].records.len(), 3);
    assert_eq!(names(&db), vec!["alice", "bob", "Default"]);
    let again = db.import_content(GOOD_2).unwrap();
    assert_eq!(again.change, Change::Added { group: 0, from: 3 });
    assert_eq!(db.groups[0].records.len(), 4);
    db.groups[0].records.truncate(3);
    let mut uuids: Vec<Id> = db.groups[0].records.iter().map(|r| r.uuid).collect();
    uuids.dedup();
    assert_eq!(uuids.len(), 3);
}

#[test]
fn read_batch_names_entries_by_account() {
    let content = format!("{GOOD_1}\n#{GOOD_2}\notpauth://totp\nhttps://example.com/x?secret=AAAA\notpauth:nohost?secret=AAAA\n{GOOD_2}\n{GOOD_3}");
    let batch = read_batch(&content);
    assert_eq!(
        batch.refused,
        vec![
            "otpauth://totp".to_string(),
            "https://example.com/x?secret=AAAA".to_string(),
            "otpauth:nohost?secret=AAAA".to_string()
        ]
    );
    assert_eq!(batch.entries.len(), 3);
    let first = &batch.entries[0];
    assert_eq!(first.id, None);
    assert_eq!(first.name, "alice");
    assert_eq!(first.totp.issuer.as_deref(), Some("Example"));
    assert_eq!(first.totp.secret, SECRET.to_vec());
    assert_eq!((first.totp.digits, first.totp.step, first.totp.skew), (6, 30, 1));
    assert_eq!(first.totp.algorithm, Algorithm::Sha1);
    let second = &batch.entries[1];
    assert_eq!(second.name, "bob");
    assert_eq!((second.totp.digits, second.totp.step), (8, 60));
    assert_eq!(second.totp.algorithm, Algorithm::Sha512);
    assert_eq!(batch.entries[2].name, "Default");
    assert_eq!(batch.entries[2].totp.account_name, " ");
}

#[test]
fn nothing_to_import_is_no_error() {
    let mut db = ClockodeDatabase { groups: vec![] };
    let done = db.import_content("\n# nothing\nnonsense\n").unwrap();
    assert_eq!(done.refused, vec!["nonsense".to_string()]);
    assert_eq!(done.change, Change::Unchanged);
    let done = db.import_content("").unwrap();
    assert!(done.refused.is_empty());
    assert_eq!(done.change, Change::Unchanged);
    assert_eq!(db.import_content(GOOD_1).err(), Some(DatabaseError::MissingGroup));
}

#[test]
fn export_writes_one_url_per_line() {
    let mut db = ClockodeDatabase::new();
    assert_eq!(db.export_content().err(), Some(DatabaseError::NoEntries));
    let mut b = entry(None, "b");
    b.totp.issuer = None;
    b.totp.account_name = "bob".to_string();
    b.totp.algorithm = Algorithm::Sha1;
    b.totp.digits = 8;
    db.add_entry_as(&b, Id(1)).unwrap();
    db.add_entry_as(&entry(None, "a"), Id(2)).unwrap();
    // What is read back from the records has neither issuer nor account name.
    assert_eq!(
        db.export_content().unwrap(),
        format!("otpauth://totp/?secret={SECRET_B32}&algorithm=SHA256\notpauth://totp/?secret={SECRET_B32}&digits=8\n")
    );
    assert_eq!(write_batch(&vec![]).err(), Some(DatabaseError::NoEntries));
    assert_eq!(
        write_batch(&vec![b, entry(None, "a")]).unwrap(),
        format!("otpauth://totp/bob?secret={SECRET_B32}&digits=8\notpauth://totp/Example:alice?secret={SECRET_B32}&algorithm=SHA256&issuer=Example\n")
    );
}

#[test]
fn an_exported_batch_imports_again() {
    let entries = vec![entry(None, "alice"), {
        let mut e = entry(None, "bob");
        e.totp.account_name = "bob".to_string();
        e.totp.step = 60;
        e.totp.digits = 8;
        e
    }];
    let batch = read_batch(&write_batch(&entries).unwrap());
    assert!(batch.refused.is_empty());
    assert_eq!(batch.entries.len(), 2);
    for (read, written) in batch.entries.iter().zip(entries.iter()) {
        assert_eq!(read.name, written.totp.account_name);
        assert_eq!(read.totp.secret, written.totp.secret);
        assert_eq!(read.totp.algorithm, written.totp.algorithm);
        assert_eq!(read.totp.digits, written.totp.digits);
        assert_eq!(read.totp.step, written.totp.step);
        assert_eq!(read.totp.issuer, written.totp.issuer);
    }
}

#[test]
fn an_entry_has_the_code_of_its_parameters() {
    let mut e = entry(None, "rfc");
    e.totp.algorithm = Algorithm::Sha1;
    e.totp.digits = 8;
    assert_eq!(e.generate_at(59).unwrap(), "94287082");
    assert_eq!(e.generate_at(1111111109).unwrap(), "07081804");
    e.totp.digits = 20;
    assert_eq!(e.generate_at(59), Err(clockode::totp::TotpError::InvalidDigits));
    e.totp.step = 0;
    assert_eq!(e.generate_at(59), Err(clockode::totp::TotpError::ZeroStep));
    e.totp.digits = 6;
    assert_eq!(e.generate_at(59), Err(clockode::totp::TotpError::ZeroStep));
}
