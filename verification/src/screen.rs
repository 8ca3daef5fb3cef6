//! The state behind the vault's screen: the password forms, the countdown
//! to the next codes and the form that adds or edits an entry.

use crate::decimal::{parse_decimal, parsed};
use crate::entry::{Algorithm, Entry, EntryView, Id, TOTPConfig};
use crate::text::{remove_pattern, to_chars, trim, trimmed, without_pattern};
use vstd::prelude::*;
use vstd::string::StringSliceAdditionalSpecFns;

verus! {

/// The text inputs of the screen.
#[derive(Debug, Clone, Copy, PartialEq, Eq, Structural)]
pub enum TextInputs {
    NewPassword,
    NewPasswordRepeat,
    Password,
    EntryName,
    EntrySecret,
    EntryConfigDigits,
    EntryConfigSkew,
}

/// The format of an export or import.
#[derive(Debug, Clone, Copy, PartialEq, Eq, Structural)]
pub enum ExportImportType {
    /// The vault's own format.
    Custom,
    /// One `otpauth` URI per line.
    Standard,
}

/// The dialog that lies over the list of entries.
#[derive(Debug)]
pub enum Modal {
    /// No dialog is open.
    Closed,
    AddEdit {
        entry_id: Option<Id>,
        entry_name: String,
        entry_secret: String,
        entry_config: TOTPConfig,
        show_advanced: bool,
        /// The number field was emptied: the zero that stands in it is to
        /// be taken out of the next input.
        next_input_clean: bool,
    },
    Config,
}

/// A dialog as plain values.
pub enum ModalView {
    Closed,
    AddEdit {
        entry_id: Option<Id>,
        entry_name: Seq<char>,
        entry_secret: Seq<char>,
        entry_config: TOTPConfig,
        show_advanced: bool,
        next_input_clean: bool,
    },
    Config,
}

impl View for Modal {
    type V = ModalView;

    open spec fn view(&self) -> ModalView {
        match self {
            Modal::Closed => ModalView::Closed,
            Modal::AddEdit {
                entry_id,
                entry_name,
                entry_secret,
                entry_config,
                show_advanced,
                next_input_clean,
            } => ModalView::AddEdit {
                entry_id: *entry_id,
                entry_name: entry_name@,
                entry_secret: entry_secret@,
                entry_config: *entry_config,
                show_advanced: *show_advanced,
                next_input_clean: *next_input_clean,
            },
            Modal::Config => ModalView::Config,
        }
    }
}

/// The number that a number field shows after an input, and whether the
/// next input is to be cleaned. An emptied field stands for zero and asks
/// for cleaning; a cleaned input loses its zeros and the white space around
/// it; what does not read as a number of at most `max` gives `default`.
pub open spec fn number_input(value: Seq<char>, clean: bool, max: nat, default: nat) -> (nat, bool) {
    if value.len() == 0 {
        (0, true)
    } else {
        let text = if clean {
            trimmed(without_pattern(value, seq!['0']))
        } else {
            value
        };
        (
            match parsed(text, max) {
                Some(n) => n,
                None => default,
            },
            false,
        )
    }
}

fn read_number_input(value: &str, clean: bool, max: u64, default: u64) -> (r: (u64, bool))
    requires
        default <= max,
    ensures
        (r.0 as nat, r.1) == number_input(value@, clean, max as nat, default as nat),
        r.0 <= max,
{
    let chars = to_chars(value);
    if chars.len() == 0 {
        return (0, true);
    }
    let text = if clean {
        let mut zero: Vec<char> = Vec::new();
        zero.push('0');
        assert(zero@ =~= seq!['0']);
        trim(&remove_pattern(&chars, &zero))
    } else {
        chars
    };
    match parse_decimal(&text, max) {
        Some(n) => (n, false),
        None => (default, false),
    }
}

impl ModalView {
    /// The dialog after a text input. Only the form that adds or edits an
    /// entry takes input, and only in its own four fields.
    pub open spec fn text_inputted(self, input: TextInputs, value: Seq<char>) -> ModalView {
        match self {
            ModalView::AddEdit {
                entry_id,
                entry_name,
                entry_secret,
                entry_config,
                show_advanced,
                next_input_clean,
            } => match input {
                TextInputs::EntryName => ModalView::AddEdit {
                    entry_id,
                    entry_name: value,
                    entry_secret,
                    entry_config,
                    show_advanced,
                    next_input_clean,
                },
                TextInputs::EntrySecret => ModalView::AddEdit {
                    entry_id,
                    entry_name,
                    entry_secret: value,
                    entry_config,
                    show_advanced,
                    next_input_clean,
                },
                TextInputs::EntryConfigDigits => {
                    let (digits, clean) = number_input(value, next_input_clean, 0xFFFF_FFFF, 6);
                    ModalView::AddEdit {
                        entry_id,
                        entry_name,
                        entry_secret,
                        entry_config: TOTPConfig { digits: digits as u32, ..entry_config },
                        show_advanced,
                        next_input_clean: clean,
                    }
                },
                TextInputs::EntryConfigSkew => {
                    let (skew, clean) = number_input(value, next_input_clean, 0xFF, 1);
                    ModalView::AddEdit {
                        entry_id,
                        entry_name,
                        entry_secret,
                        entry_config: TOTPConfig { skew: skew as u8, ..entry_config },
                        show_advanced,
                        next_input_clean: clean,
                    }
                },
                _ => self,
            },
            _ => self,
        }
    }

    /// The form that edits `entry`, or an empty form with the default
    /// settings.
    pub open spec fn add_edit(entry: Option<EntryView>) -> ModalView {
        match entry {
            Some(entry) => ModalView::AddEdit {
                entry_id: entry.id,
                entry_name: entry.name,
                entry_secret: entry.secret,
                entry_config: entry.totp_config,
                show_advanced: false,
                next_input_clean: false,
            },
            None => ModalView::AddEdit {
                entry_id: None,
                entry_name: Seq::empty(),
                entry_secret: Seq::empty(),
                entry_config: TOTPConfig { algorithm: Algorithm::Sha1, digits: 6, skew: 1 },
                show_advanced: false,
                next_input_clean: false,
            },
        }
    }

    /// The dialog after another algorithm was picked.
    pub open spec fn with_algorithm(self, algorithm: Algorithm) -> ModalView {
        match self {
            ModalView::AddEdit {
                entry_id,
                entry_name,
                entry_secret,
                entry_config,
                show_advanced,
                next_input_clean,
            } => ModalView::AddEdit {
                entry_id,
                entry_name,
                entry_secret,
                entry_config: TOTPConfig { algorithm, ..entry_config },
                show_advanced,
                next_input_clean,
            },
            _ => self,
        }
    }

    /// The dialog with its advanced settings shown if they were hidden, and
    /// hidden if they were shown.
    pub open spec fn advanced_toggled(self) -> ModalView {
        match self {
            ModalView::AddEdit {
                entry_id,
                entry_name,
                entry_secret,
                entry_config,
                show_advanced,
                next_input_clean,
            } => ModalView::AddEdit {
                entry_id,
                entry_name,
                entry_secret,
                entry_config,
                show_advanced: !show_advanced,
                next_input_clean,
            },
            _ => self,
        }
    }
}

impl Modal {
    /// No dialog.
    pub fn close() -> (m: Modal)
        ensures
            m@ == ModalView::Closed,
    {
        Modal::Closed
    }

    /// The form that edits `entry`, or that adds a new one.
    pub fn add_edit(entry: Option<Entry>) -> (m: Modal)
        ensures
            m@ == ModalView::add_edit(
                match entry {
                    Some(e) => Some(e@),
                    None => None,
                },
            ),
    {
        match entry {
            Some(entry) => Modal::AddEdit {
                entry_id: entry.id,
                entry_name: entry.name,
                entry_secret: entry.secret,
                entry_config: entry.totp_config,
                show_advanced: false,
                next_input_clean: false,
            },
            None => Modal::AddEdit {
                entry_id: None,
                entry_name: String::new(),
                entry_secret: String::new(),
                entry_config: TOTPConfig::default(),
                show_advanced: false,
                next_input_clean: false,
            },
        }
    }

    /// The dialog of the settings.
    pub fn config() -> (m: Modal)
        ensures
            m@ == ModalView::Config,
    {
        Modal::Config
    }

    /// Takes a text input.
    pub fn text_inputted(self, input: TextInputs, value: String) -> (m: Modal)
        ensures
            m@ == self@.text_inputted(input, value@),
    {
        match self {
            Modal::AddEdit {
                entry_id,
                entry_name,
                entry_secret,
                entry_config,
                show_advanced,
                next_input_clean,
            } => match input {
                TextInputs::EntryName => Modal::AddEdit {
                    entry_id,
                    entry_name: value,
                    entry_secret,
                    entry_config,
                    show_advanced,
                    next_input_clean,
                },
                TextInputs::EntrySecret => Modal::AddEdit {
                    entry_id,
                    entry_name,
                    entry_secret: value,
                    entry_config,
                    show_advanced,
                    next_input_clean,
                },
                TextInputs::EntryConfigDigits => {
                    let (digits, clean) = read_number_input(
                        value.as_str(),
                        next_input_clean,
                        0xFFFF_FFFF,
                        6,
                    );
                    Modal::AddEdit {
                        entry_id,
                        entry_name,
                        entry_secret,
                        entry_config: TOTPConfig {
                            algorithm: entry_config.algorithm,
                            digits: digits as u32,
                            skew: entry_config.skew,
                        },
                        show_advanced,
                        next_input_clean: clean,
                    }
                },
                TextInputs::EntryConfigSkew => {
                    let (skew, clean) = read_number_input(value.as_str(), next_input_clean, 0xFF, 1);
                    Modal::AddEdit {
                        entry_id,
                        entry_name,
                        entry_secret,
                        entry_config: TOTPConfig {
                            algorithm: entry_config.algorithm,
                            digits: entry_config.digits,
                            skew: skew as u8,
                        },
                        show_advanced,
                        next_input_clean: clean,
                    }
                },
                _ => Modal::AddEdit {
                    entry_id,
                    entry_name,
                    entry_secret,
                    entry_config,
                    show_advanced,
                    next_input_clean,
                },
            },
            other => other,
        }
    }

    /// Picks another algorithm in the form.
    pub fn update_selected_algorithm(self, algorithm: Algorithm) -> (m: Modal)
        ensures
            m@ == self@.with_algorithm(algorithm),
    {
        match self {
            Modal::AddEdit {
                entry_id,
                entry_name,
                entry_secret,
                entry_config,
                show_advanced,
                next_input_clean,
            } => Modal::AddEdit {
                entry_id,
                entry_name,
                entry_secret,
                entry_config: TOTPConfig {
                    algorithm,
                    digits: entry_config.digits,
                    skew: entry_config.skew,
                },
                show_advanced,
                next_input_clean,
            },
            other => other,
        }
    }

    /// Shows or hides the advanced settings of the form.
    pub fn toggle_advanced_config(self) -> (m: Modal)
        ensures
            m@ == self@.advanced_toggled(),
    {
        match self {
            Modal::AddEdit {
                entry_id,
                entry_name,
                entry_secret,
                entry_config,
                show_advanced,
                next_input_clean,
            } => Modal::AddEdit {
                entry_id,
                entry_name,
                entry_secret,
                entry_config,
                show_advanced: !show_advanced,
                next_input_clean,
            },
            other => other,
        }
    }
}

/// The seconds shown after one more second, and whether the codes are to
/// be refreshed: the count runs down to zero and then starts again at the
/// refresh rate.
pub open spec fn counted_down(time_count: u64, refresh_rate: u64) -> (u64, bool) {
    if time_count > 0 {
        ((time_count - 1) as u64, false)
    } else {
        (refresh_rate, true)
    }
}

/// Counts one second down.
pub fn update_time_count(time_count: u64, refresh_rate: u64) -> (r: (u64, bool))
    ensures
        r == counted_down(time_count, refresh_rate),
{
    if time_count > 0 {
        (time_count - 1, false)
    } else {
        (refresh_rate, true)
    }
}

/// What is typed on the page that creates the database.
#[derive(Debug, Default)]
pub struct PageInputs {
    pub password: String,
    pub repeat_password: String,
}

impl PageInputs {
    /// The rule for a new password: it was repeated as it is and has more
    /// than three bytes.
    pub open spec fn is_valid(password: Seq<char>, repeat_password: Seq<char>) -> bool {
        password == repeat_password && vstd::utf8::encode_utf8(password).len() > 3
    }

    /// Whether the inputs may be submitted.
    pub fn valid(&self) -> (ok: bool)
        ensures
            ok == PageInputs::is_valid(self.password@, self.repeat_password@),
    {
        self.password == self.repeat_password && self.password.as_str().as_bytes().len() > 3
    }
}

/// Whether a new password may be submitted: it is not empty and was
/// repeated as it is.
pub fn maybe_matching_passwords(password: &String, repeat_password: &String) -> (ok: bool)
    ensures
        ok == (password@ == repeat_password@ && password@.len() > 0),
{
    *password == *repeat_password && !password.as_str().is_empty()
}

} // verus!
