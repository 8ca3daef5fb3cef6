use clockode::database_entry::{ClockodeEntry, Totp};
use clockode::entry::{Algorithm, Id};
use clockode::input::{all_algorithms, InputableClockodeEntry, Submission, TOTPEntryInput};

fn typed() -> InputableClockodeEntry {
    InputableClockodeEntry {
        uuid: Some(Id(4)),
        name: "Mail".to_string(),
        algorithm: Algorithm::Sha256,
        digits: 6,
        step: 30,
        secret: "GEZDGNBVGY3TQOJQGEZDGNBVGY3TQOJQ".to_string(),
        issuer: Some("Example".to_string()),
        account_name: "alice".to_string(),
    }
}

#[test]
fn the_default_input() {
    let e = InputableClockodeEntry::default();
    assert_eq!(e.uuid, None);
    assert_eq!(e.name, "");
    assert_eq!(e.algorithm, Algorithm::Sha1);
    assert_eq!((e.digits, e.step), (6, 30));
    assert_eq!(e.secret, "");
    assert_eq!(e.issuer, None);
    assert_eq!(e.account_name, "");
    assert!(!e.valid());
    assert_eq!(all_algorithms(), vec![Algorithm::Sha1, Algorithm::Sha256, Algorithm::Sha512]);
}

#[test]
fn input_validation_boundaries() {
    assert!(typed().valid());
    let with = |change: &dyn Fn(&mut InputableClockodeEntry)| {
        let mut e = typed();
        change(&mut e);
        e.valid()
    };
    assert!(with(&|e| e.digits = 8));
    assert!(!with(&|e| e.digits = 7));
    assert!(!with(&|e| e.step = 0));
    assert!(with(&|e| e.step = 1));
    assert!(with(&|e| e.step = 300));
    assert!(!with(&|e| e.step = 301));
    assert!(!with(&|e| e.secret = "A".repeat(9)));
    assert!(with(&|e| e.secret = "A".repeat(10)));
    assert!(with(&|e| e.secret = "A".repeat(64)));
    assert!(!with(&|e| e.secret = "A".repeat(65)));
    // The secret is measured in bytes.
    assert!(with(&|e| e.secret = "\u{e9}".repeat(5)));
    assert!(!with(&|e| e.secret = "\u{e9}".repeat(33)));
    assert!(!with(&|e| e.name = "  ".to_string()));
    assert!(!with(&|e| e.account_name = "\t".to_string()));
    assert!(!with(&|e| e.issuer = Some("a:b".to_string())));
    assert!(with(&|e| e.issuer = None));
    assert!(with(&|e| e.account_name = "a:b".to_string()));
}

#[test]
fn a_typed_entry_becomes_an_entry() {
    let mut input = typed();
    input.secret = " gezd gnbv gy3t qojq\tgezd gnbv gy3t qojq ".to_string();
    let e = input.into_entry().unwrap();
    assert_eq!(e.id, Some(Id(4)));
    assert_eq!(e.name, "Mail");
    assert_eq!(e.totp.secret, b"12345678901234567890".to_vec());
    assert_eq!(e.totp.skew, 0);
    assert_eq!(e.totp.algorithm, Algorithm::Sha256);
    assert_eq!(e.totp.issuer.as_deref(), Some("Example"));
    assert_eq!(e.totp.account_name, "alice");
    let mut bad = typed();
    bad.secret = "0189".to_string();
    assert!(bad.into_entry().is_none());
}

#[test]
fn an_entry_becomes_a_typed_entry() {
    let e = ClockodeEntry {
        id: Some(Id(8)),
        name: "Mail".to_string(),
        totp: Totp {
            algorithm: Algorithm::Sha512,
            digits: 8,
            skew: 1,
            step: 60,
            secret: b"Hello!\xde\xad\xbe\xef".to_vec(),
            issuer: None,
            account_name: "bob".to_string(),
        },
    };
    let copy = e.clone();
    assert_eq!(copy.totp.secret, e.totp.secret);
    let input = InputableClockodeEntry::from_entry(e);
    assert_eq!(input.uuid, Some(Id(8)));
    assert_eq!(input.secret, "JBSWY3DPEHPK3PXP");
    assert_eq!((input.digits, input.step), (8, 60));
    assert_eq!(input.algorithm, Algorithm::Sha512);
    assert_eq!(input.account_name, "bob");
    let back = input.into_entry().unwrap();
    assert_eq!(back.totp.secret, b"Hello!\xde\xad\xbe\xef".to_vec());
}

#[test]
fn a_url_becomes_a_typed_entry() {
    let input = InputableClockodeEntry::from_url(
        "otpauth://totp/Example:alice?secret=JBSWY3DPEHPK3PXP&issuer=Example&digits=8&period=45&algorithm=SHA256",
    )
    .unwrap();
    assert_eq!(input.uuid, None);
    assert_eq!(input.name, "alice");
    assert_eq!(input.account_name, "alice");
    assert_eq!(input.issuer.as_deref(), Some("Example"));
    assert_eq!(input.secret, "JBSWY3DPEHPK3PXP");
    assert_eq!((input.digits, input.step), (8, 45));
    assert_eq!(input.algorithm, Algorithm::Sha256);
    assert!(InputableClockodeEntry::from_url("not a url").is_none());
    assert!(InputableClockodeEntry::from_url("otpauth:nohost?secret=JBSWY3DPEHPK3PXP").is_none());
    assert!(InputableClockodeEntry::from_url("otpauth://totp/alice").is_none());
    assert!(InputableClockodeEntry::from_url("otpauth://totp/alice?secret=JBSWY3DPEHPK3PXP&digits=x").is_none());
}

#[test]
fn changes_go_to_their_fields() {
    let s = |t: &str| t.to_string();
    let e = InputableClockodeEntry::default()
        .input_updated(TOTPEntryInput::UpdateName(s("Mail")))
        .input_updated(TOTPEntryInput::UpdateAlgorithm(Algorithm::Sha512))
        .input_updated(TOTPEntryInput::UpdateSecret(s("jbsw y3dp ehpk 3pxp")))
        .input_updated(TOTPEntryInput::UpdateIssuer(s("Example")))
        .input_updated(TOTPEntryInput::UpdateAccountName(s("alice")));
    assert_eq!(e.name, "Mail");
    assert_eq!(e.algorithm, Algorithm::Sha512);
    assert_eq!(e.secret, "jbsw y3dp ehpk 3pxp");
    assert_eq!(e.issuer.as_deref(), Some("Example"));
    assert_eq!(e.account_name, "alice");
    assert_eq!((e.digits, e.step), (6, 30));
    let e = e.input_updated(TOTPEntryInput::UpdateIssuer(String::new()));
    assert_eq!(e.issuer, None);
}

#[test]
fn number_fields_keep_their_number_on_nonsense() {
    let s = |t: &str| t.to_string();
    let e = InputableClockodeEntry::default().input_updated(TOTPEntryInput::UpdateDigits(s("8")));
    assert_eq!(e.digits, 8);
    let e = e.input_updated(TOTPEntryInput::UpdateDigits(s("8x")));
    assert_eq!(e.digits, 8);
    let e = e.input_updated(TOTPEntryInput::UpdateDigits(s("-1")));
    assert_eq!(e.digits, 8);
    let e = e.input_updated(TOTPEntryInput::UpdateDigits(String::new()));
    assert_eq!(e.digits, 0);
    let e = e.input_updated(TOTPEntryInput::UpdateDigits(s("+06")));
    assert_eq!(e.digits, 6);
    let e = e.input_updated(TOTPEntryInput::UpdateStep(s("60")));
    assert_eq!(e.step, 60);
    let e = e.input_updated(TOTPEntryInput::UpdateStep(s("18446744073709551616")));
    assert_eq!(e.step, 60);
    let e = e.input_updated(TOTPEntryInput::UpdateStep(s("18446744073709551615")));
    assert_eq!(e.step, u64::MAX);
    let e = e.input_updated(TOTPEntryInput::UpdateStep(String::new()));
    assert_eq!(e.step, 0);
}

#[test]
fn submitting_creates_or_updates() {
    match typed().submit() {
        Submission::Update(e) => {
            assert_eq!(e.id, Some(Id(4)));
            assert_eq!(e.totp.secret, b"12345678901234567890".to_vec());
        }
        _ => panic!("a stored entry is updated"),
    }
    let mut new = typed();
    new.uuid = None;
    match new.submit() {
        Submission::Create(e) => assert_eq!(e.id, None),
        _ => panic!("a new entry is created"),
    }
    let mut invalid = typed();
    invalid.digits = 7;
    assert!(matches!(invalid.submit(), Submission::Invalid));
    let mut undecodable = typed();
    undecodable.secret = "0000000000000000".to_string();
    assert!(matches!(undecodable.submit(), Submission::InvalidSecret));
}
