use clockode::config::{ColockodeTheme, Config};
use clockode::entry::{Algorithm, Entry, Id, TOTPConfig};
use clockode::screen::{
    maybe_matching_passwords, update_time_count, ExportImportType, Modal, PageInputs, TextInputs,
};
use clockode::widgets::{dot, Dot, DotLevel};

fn form() -> Modal {
    Modal::add_edit(None)
}

fn config_of(modal: &Modal) -> (TOTPConfig, bool) {
    match modal {
        Modal::AddEdit { entry_config, next_input_clean, .. } => (*entry_config, *next_input_clean),
        _ => panic!("no form"),
    }
}

#[test]
fn the_dialogs() {
    assert!(matches!(Modal::close(), Modal::Closed));
    assert!(matches!(Modal::config(), Modal::Config));
    match form() {
        Modal::AddEdit { entry_id, entry_name, entry_secret, entry_config, show_advanced, next_input_clean } => {
            assert_eq!(entry_id, None);
            assert_eq!(entry_name, "");
            assert_eq!(entry_secret, "");
            assert_eq!(entry_config, TOTPConfig::default());
            assert!(!show_advanced);
            assert!(!next_input_clean);
        }
        _ => panic!("no form"),
    }
    let entry = Entry {
        id: Some(Id(3)),
        name: "Mail".to_string(),
        secret: "ABC".to_string(),
        totp: "123456".to_string(),
        totp_config: TOTPConfig { algorithm: Algorithm::Sha512, digits: 8, skew: 2 },
    };
    match Modal::add_edit(Some(entry)) {
        Modal::AddEdit { entry_id, entry_name, entry_secret, entry_config, .. } => {
            assert_eq!(entry_id, Some(Id(3)));
            assert_eq!(entry_name, "Mail");
            assert_eq!(entry_secret, "ABC");
            assert_eq!(entry_config, TOTPConfig { algorithm: Algorithm::Sha512, digits: 8, skew: 2 });
        }
        _ => panic!("no form"),
    }
}

#[test]
fn text_goes_to_the_field_it_was_typed_in() {
    let m = form().text_inputted(TextInputs::EntryName, "Mail".to_string());
    let m = m.text_inputted(TextInputs::EntrySecret, "ABC".to_string());
    let m = m.text_inputted(TextInputs::Password, "ignored".to_string());
    match &m {
        Modal::AddEdit { entry_name, entry_secret, .. } => {
            assert_eq!(entry_name, "Mail");
            assert_eq!(entry_secret, "ABC");
        }
        _ => panic!("no form"),
    }
    assert!(matches!(Modal::close().text_inputted(TextInputs::EntryName, "x".to_string()), Modal::Closed));
    assert!(matches!(Modal::config().text_inputted(TextInputs::EntryName, "x".to_string()), Modal::Config));
}

#[test]
fn number_fields() {
    let m = form().text_inputted(TextInputs::EntryConfigDigits, "8".to_string());
    assert_eq!(config_of(&m), (TOTPConfig { algorithm: Algorithm::Sha1, digits: 8, skew: 1 }, false));
    let m = m.text_inputted(TextInputs::EntryConfigDigits, "eight".to_string());
    assert_eq!(config_of(&m).0.digits, 6);
    // An emptied field shows zero, and the zero is taken out of what is typed next.
    let m = m.text_inputted(TextInputs::EntryConfigDigits, String::new());
    assert_eq!(config_of(&m), (TOTPConfig { algorithm: Algorithm::Sha1, digits: 0, skew: 1 }, true));
    let m = m.text_inputted(TextInputs::EntryConfigDigits, "07".to_string());
    assert_eq!(config_of(&m), (TOTPConfig { algorithm: Algorithm::Sha1, digits: 7, skew: 1 }, false));
    let m = m.text_inputted(TextInputs::EntryConfigDigits, "10".to_string());
    assert_eq!(config_of(&m).0.digits, 10);
    let m = m.text_inputted(TextInputs::EntryConfigDigits, String::new());
    let m = m.text_inputted(TextInputs::EntryConfigDigits, " 10 ".to_string());
    assert_eq!(config_of(&m).0.digits, 1);
    let m = m.text_inputted(TextInputs::EntryConfigDigits, String::new());
    let m = m.text_inputted(TextInputs::EntryConfigDigits, "0".to_string());
    assert_eq!(config_of(&m), (TOTPConfig { algorithm: Algorithm::Sha1, digits: 6, skew: 1 }, false));

    let m = m.text_inputted(TextInputs::EntryConfigSkew, "3".to_string());
    assert_eq!(config_of(&m).0.skew, 3);
    let m = m.text_inputted(TextInputs::EntryConfigSkew, "256".to_string());
    assert_eq!(config_of(&m).0.skew, 1);
    let m = m.text_inputted(TextInputs::EntryConfigSkew, String::new());
    assert_eq!((config_of(&m).0.skew, config_of(&m).1), (0, true));
    let m = m.text_inputted(TextInputs::EntryConfigSkew, "02".to_string());
    assert_eq!((config_of(&m).0.skew, config_of(&m).1), (2, false));
}

#[test]
fn algorithm_and_advanced_settings() {
    let m = form().update_selected_algorithm(Algorithm::Sha256);
    assert_eq!(config_of(&m).0.algorithm, Algorithm::Sha256);
    let m = m.toggle_advanced_config();
    assert!(matches!(m, Modal::AddEdit { show_advanced: true, .. }));
    let m = m.toggle_advanced_config();
    assert!(matches!(m, Modal::AddEdit { show_advanced: false, .. }));
    assert!(matches!(Modal::close().toggle_advanced_config(), Modal::Closed));
    assert!(matches!(Modal::config().update_selected_algorithm(Algorithm::Sha1), Modal::Config));
}

#[test]
fn the_countdown() {
    assert_eq!(update_time_count(30, 30), (29, false));
    assert_eq!(update_time_count(1, 30), (0, false));
    assert_eq!(update_time_count(0, 30), (30, true));
    assert_eq!(update_time_count(u64::MAX, 30), (u64::MAX - 1, false));
}

#[test]
fn new_passwords_must_match() {
    let s = |t: &str| t.to_string();
    assert!(maybe_matching_passwords(&s("secret"), &s("secret")));
    assert!(!maybe_matching_passwords(&s("secret"), &s("Secret")));
    assert!(!maybe_matching_passwords(&s(""), &s("")));
    assert!(!maybe_matching_passwords(&s("a"), &s("")));
}

#[test]
fn the_dot_turns_with_the_time_left() {
    assert_eq!(Dot::new(30).level(), DotLevel::Success);
    assert_eq!(dot(11).level(), DotLevel::Success);
    assert_eq!(dot(10).level(), DotLevel::Warning);
    assert_eq!(dot(6).level(), DotLevel::Warning);
    assert_eq!(dot(5).level(), DotLevel::Danger);
    assert_eq!(dot(0).level(), DotLevel::Danger);
    assert_eq!(dot(7), Dot { timer: 7 });
}

#[test]
fn settings_and_formats() {
    assert_eq!(ColockodeTheme::default(), ColockodeTheme::CatppuccinMacchiato);
    assert_eq!(Config::default(), Config { theme: ColockodeTheme::CatppuccinMacchiato });
    assert_ne!(ExportImportType::Custom, ExportImportType::Standard);
}

#[test]
fn a_new_password_has_more_than_three_bytes() {
    let inputs = |a: &str, b: &str| PageInputs { password: a.to_string(), repeat_password: b.to_string() };
    assert!(inputs("abcd", "abcd").valid());
    assert!(!inputs("abc", "abc").valid());
    assert!(!inputs("abcd", "abce").valid());
    assert!(!inputs("", "").valid());
    assert!(inputs("\u{e9}\u{e9}", "\u{e9}\u{e9}").valid());
    assert!(!PageInputs::default().valid());
}
