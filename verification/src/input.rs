//! The entry as a user types it, before it is checked and stored.

use crate::database_entry::{
    decode_base32, encode_base32, rfc4648_decoded, rfc4648_encoded, totp_from_url, totp_url_read,
    ClockodeEntry, ClockodeEntryView, Totp, TotpView,
};
use crate::entry::{Algorithm, Id};
use crate::otp_uri::{has_host, names_host, text_of};
use crate::secret::{clean_secret, cleaned_secret};
use crate::decimal::{parse_decimal, parsed};
use crate::text::{all_white_space, has_char, is_blank, to_chars};
use vstd::prelude::*;
use vstd::string::StringSliceAdditionalSpecFns;

verus! {

/// The supported algorithms, in the order in which they are offered.
pub fn all_algorithms() -> (all: Vec<Algorithm>)
    ensures
        all@ == seq![Algorithm::Sha1, Algorithm::Sha256, Algorithm::Sha512],
{
    crate::entry::TOTPConfig::get_all_algorithms()
}

/// An entry as typed: the secret is text, in base32.
#[derive(Debug)]
pub struct InputableClockodeEntry {
    pub uuid: Option<Id>,
    pub name: String,
    pub algorithm: Algorithm,
    pub digits: usize,
    pub step: u64,
    pub secret: String,
    pub issuer: Option<String>,
    pub account_name: String,
}

/// A typed entry as plain values.
pub struct InputableView {
    pub uuid: Option<Id>,
    pub name: Seq<char>,
    pub algorithm: Algorithm,
    pub digits: usize,
    pub step: u64,
    pub secret: Seq<char>,
    pub issuer: Option<Seq<char>>,
    pub account_name: Seq<char>,
}

impl View for InputableClockodeEntry {
    type V = InputableView;

    open spec fn view(&self) -> InputableView {
        InputableView {
            uuid: self.uuid,
            name: self.name@,
            algorithm: self.algorithm,
            digits: self.digits,
            step: self.step,
            secret: self.secret@,
            issuer: text_of(self.issuer),
            account_name: self.account_name@,
        }
    }
}

impl Default for InputableClockodeEntry {
    fn default() -> (e: Self)
        ensures
            e@ == (InputableView {
                uuid: None,
                name: Seq::empty(),
                algorithm: Algorithm::Sha1,
                digits: 6,
                step: 30,
                secret: Seq::empty(),
                issuer: None,
                account_name: Seq::empty(),
            }),
    {
        InputableClockodeEntry {
            uuid: None,
            name: String::new(),
            algorithm: Algorithm::Sha1,
            digits: 6,
            step: 30,
            secret: String::new(),
            issuer: None,
            account_name: String::new(),
        }
    }
}

impl InputableView {
    /// The rule for a typed entry that may be submitted: a name and an
    /// account name that are not blank, 6 or 8 digits, a step of 1 to 300
    /// seconds, a secret whose text has 10 to 64 bytes, and no colon in the
    /// issuer.
    pub open spec fn valid(self) -> bool {
        &&& !all_white_space(self.name)
        &&& (self.digits == 6 || self.digits == 8)
        &&& 1 <= self.step <= 300
        &&& 10 <= vstd::utf8::encode_utf8(self.secret).len() <= 64
        &&& !all_white_space(self.account_name)
        &&& !(self.issuer matches Some(issuer) && issuer.contains(':'))
    }

    /// The entry that a typed entry stands for when its secret decodes to
    /// `secret`: no window is tolerated.
    pub open spec fn entry(self, secret: Seq<u8>) -> ClockodeEntryView {
        ClockodeEntryView {
            id: self.uuid,
            name: self.name,
            totp: TotpView {
                algorithm: self.algorithm,
                digits: self.digits,
                skew: 0,
                step: self.step,
                secret,
                issuer: self.issuer,
                account_name: self.account_name,
            },
        }
    }

    /// The typed form of an entry read from a URL: it is named by the
    /// account and has no identifier.
    pub open spec fn of_url(totp: TotpView) -> InputableView {
        InputableView {
            uuid: None,
            name: totp.account_name,
            algorithm: totp.algorithm,
            digits: totp.digits,
            step: totp.step,
            secret: rfc4648_encoded(totp.secret),
            issuer: totp.issuer,
            account_name: totp.account_name,
        }
    }
}

impl InputableClockodeEntry {
    /// Whether the entry may be submitted.
    pub fn valid(&self) -> (ok: bool)
        ensures
            ok == self@.valid(),
    {
        if is_blank(&to_chars(self.name.as_str())) {
            return false;
        }
        if self.digits != 6 && self.digits != 8 {
            return false;
        }
        if self.step == 0 || self.step > 300 {
            return false;
        }
        let secret_len = self.secret.as_str().as_bytes().len();
        if secret_len < 10 || secret_len > 64 {
            return false;
        }
        if is_blank(&to_chars(self.account_name.as_str())) {
            return false;
        }
        match &self.issuer {
            Some(issuer) => !has_char(&to_chars(issuer.as_str()), ':'),
            None => true,
        }
    }

    /// The typed form of a stored entry, its secret written in base32.
    pub fn from_entry(value: ClockodeEntry) -> (e: InputableClockodeEntry)
        ensures
            e@ == (InputableView {
                uuid: value@.id,
                name: value@.name,
                algorithm: value@.totp.algorithm,
                digits: value@.totp.digits,
                step: value@.totp.step,
                secret: rfc4648_encoded(value@.totp.secret),
                issuer: value@.totp.issuer,
                account_name: value@.totp.account_name,
            }),
            rfc4648_decoded(e.secret@) == Some(value@.totp.secret),
    {
        let secret = encode_base32(value.totp.secret.as_slice());
        InputableClockodeEntry {
            uuid: value.id,
            name: value.name,
            algorithm: value.totp.algorithm,
            digits: value.totp.digits,
            step: value.totp.step,
            secret,
            issuer: value.totp.issuer,
            account_name: value.totp.account_name,
        }
    }

    /// The entry that the typed entry stands for. The secret is freed of
    /// white space, put in upper case and decoded; if it is no base32 there
    /// is no entry.
    pub fn into_entry(self) -> (r: Option<ClockodeEntry>)
        ensures
            r is Some == rfc4648_decoded(cleaned_secret(self@.secret)) is Some,
            r matches Some(e) ==> rfc4648_decoded(cleaned_secret(self@.secret)) matches Some(secret)
                && e@ == self@.entry(secret),
    {
        let cleaned = clean_secret(self.secret.as_str());
        match decode_base32(cleaned.as_str()) {
            None => None,
            Some(secret) => Some(
                ClockodeEntry {
                    id: self.uuid,
                    name: self.name,
                    totp: Totp {
                        algorithm: self.algorithm,
                        digits: self.digits,
                        skew: 0,
                        step: self.step,
                        secret,
                        issuer: self.issuer,
                        account_name: self.account_name,
                    },
                },
            ),
        }
    }

    /// What reading a URL as a typed entry gives: nothing where the text
    /// names no host or is no URL of a credential.
    pub open spec fn url_read(url: Seq<char>) -> Option<InputableView> {
        if has_host(url) {
            match totp_url_read(url) {
                Some(totp) => Some(InputableView::of_url(totp)),
                None => None,
            }
        } else {
            None
        }
    }

    /// Reads a typed entry from an `otpauth` URL.
    pub fn from_url(url: &str) -> (r: Option<InputableClockodeEntry>)
        ensures
            r is Some == InputableClockodeEntry::url_read(url@) is Some,
            r matches Some(e) ==> InputableClockodeEntry::url_read(url@) == Some(e@),
    {
        if !names_host(url) {
            return None;
        }
        match totp_from_url(url) {
            None => None,
            Some(totp) => {
                let secret = encode_base32(totp.secret.as_slice());
                Some(
                    InputableClockodeEntry {
                        uuid: None,
                        name: totp.account_name.clone(),
                        algorithm: totp.algorithm,
                        digits: totp.digits,
                        step: totp.step,
                        secret,
                        issuer: totp.issuer,
                        account_name: totp.account_name,
                    },
                )
            },
        }
    }
}

/// What a user can change in a typed entry.
#[derive(Debug)]
pub enum TOTPEntryInput {
    UpdateName(String),
    UpdateAlgorithm(Algorithm),
    UpdateDigits(String),
    UpdateStep(String),
    UpdateSecret(String),
    UpdateIssuer(String),
    UpdateAccountName(String),
}

/// A change as plain values.
pub enum TOTPEntryInputView {
    UpdateName(Seq<char>),
    UpdateAlgorithm(Algorithm),
    UpdateDigits(Seq<char>),
    UpdateStep(Seq<char>),
    UpdateSecret(Seq<char>),
    UpdateIssuer(Seq<char>),
    UpdateAccountName(Seq<char>),
}

impl View for TOTPEntryInput {
    type V = TOTPEntryInputView;

    open spec fn view(&self) -> TOTPEntryInputView {
        match self {
            TOTPEntryInput::UpdateName(v) => TOTPEntryInputView::UpdateName(v@),
            TOTPEntryInput::UpdateAlgorithm(a) => TOTPEntryInputView::UpdateAlgorithm(*a),
            TOTPEntryInput::UpdateDigits(v) => TOTPEntryInputView::UpdateDigits(v@),
            TOTPEntryInput::UpdateStep(v) => TOTPEntryInputView::UpdateStep(v@),
            TOTPEntryInput::UpdateSecret(v) => TOTPEntryInputView::UpdateSecret(v@),
            TOTPEntryInput::UpdateIssuer(v) => TOTPEntryInputView::UpdateIssuer(v@),
            TOTPEntryInput::UpdateAccountName(v) => TOTPEntryInputView::UpdateAccountName(v@),
        }
    }
}

/// The number of a number field after `text` was typed in it: an emptied
/// field stands for zero, a number of at most `max` is taken, and anything
/// else leaves the number as it was.
pub open spec fn number_typed(text: Seq<char>, max: nat, before: nat) -> nat {
    if text.len() == 0 {
        0
    } else {
        match parsed(text, max) {
            Some(n) => n,
            None => before,
        }
    }
}

fn read_typed_number(text: &str, max: u64, before: u64) -> (n: u64)
    requires
        before <= max,
    ensures
        n == number_typed(text@, max as nat, before as nat),
        n <= max,
{
    let chars = to_chars(text);
    if chars.len() == 0 {
        0
    } else {
        match parse_decimal(&chars, max) {
            Some(n) => n,
            None => before,
        }
    }
}

/// What submitting a typed entry comes to.
#[derive(Debug)]
pub enum Submission {
    /// The entry is new and is to be created.
    Create(ClockodeEntry),
    /// The entry is stored already and is to be updated.
    Update(ClockodeEntry),
    /// The typed entry breaks a rule.
    Invalid,
    /// The secret is no base32.
    InvalidSecret,
}

/// A submission as plain values.
pub enum SubmissionView {
    Create(ClockodeEntryView),
    Update(ClockodeEntryView),
    Invalid,
    InvalidSecret,
}

impl View for Submission {
    type V = SubmissionView;

    open spec fn view(&self) -> SubmissionView {
        match self {
            Submission::Create(e) => SubmissionView::Create(e@),
            Submission::Update(e) => SubmissionView::Update(e@),
            Submission::Invalid => SubmissionView::Invalid,
            Submission::InvalidSecret => SubmissionView::InvalidSecret,
        }
    }
}

impl InputableView {
    /// The typed entry after a change.
    pub open spec fn input_updated(self, input: TOTPEntryInputView) -> InputableView {
        match input {
            TOTPEntryInputView::UpdateName(v) => InputableView { name: v, ..self },
            TOTPEntryInputView::UpdateAlgorithm(a) => InputableView { algorithm: a, ..self },
            TOTPEntryInputView::UpdateDigits(v) => InputableView {
                digits: number_typed(v, usize::MAX as nat, self.digits as nat) as usize,
                ..self
            },
            TOTPEntryInputView::UpdateStep(v) => InputableView {
                step: number_typed(v, u64::MAX as nat, self.step as nat) as u64,
                ..self
            },
            TOTPEntryInputView::UpdateSecret(v) => InputableView { secret: v, ..self },
            TOTPEntryInputView::UpdateIssuer(v) => InputableView {
                issuer: if v.len() == 0 {
                    None
                } else {
                    Some(v)
                },
                ..self
            },
            TOTPEntryInputView::UpdateAccountName(v) => InputableView { account_name: v, ..self },
        }
    }

    /// What submitting the typed entry comes to: it must keep the rule and
    /// its secret must decode; an entry with an identifier is updated, one
    /// without is created.
    pub open spec fn submitted(self) -> SubmissionView {
        if !self.valid() {
            SubmissionView::Invalid
        } else {
            match rfc4648_decoded(cleaned_secret(self.secret)) {
                None => SubmissionView::InvalidSecret,
                Some(secret) => if self.uuid is Some {
                    SubmissionView::Update(self.entry(secret))
                } else {
                    SubmissionView::Create(self.entry(secret))
                },
            }
        }
    }
}

impl InputableClockodeEntry {
    /// Takes a change.
    pub fn input_updated(self, input: TOTPEntryInput) -> (e: InputableClockodeEntry)
        ensures
            e@ == self@.input_updated(input@),
    {
        let mut e = self;
        match input {
            TOTPEntryInput::UpdateName(v) => {
                e.name = v;
            },
            TOTPEntryInput::UpdateAlgorithm(a) => {
                e.algorithm = a;
            },
            TOTPEntryInput::UpdateDigits(v) => {
                e.digits = read_typed_number(v.as_str(), usize::MAX as u64, e.digits as u64) as usize;
            },
            TOTPEntryInput::UpdateStep(v) => {
                e.step = read_typed_number(v.as_str(), u64::MAX, e.step);
            },
            TOTPEntryInput::UpdateSecret(v) => {
                e.secret = v;
            },
            TOTPEntryInput::UpdateIssuer(v) => {
                e.issuer = if v.as_str().is_empty() {
                    None
                } else {
                    Some(v)
                };
            },
            TOTPEntryInput::UpdateAccountName(v) => {
                e.account_name = v;
            },
        }
        e
    }

    /// Submits the typed entry.
    pub fn submit(self) -> (r: Submission)
        ensures
            r@ == self@.submitted(),
    {
        if !self.valid() {
            return Submission::Invalid;
        }
        let stored = self.uuid.is_some();
        match self.into_entry() {
            None => Submission::InvalidSecret,
            Some(entry) => if stored {
                Submission::Update(entry)
            } else {
                Submission::Create(entry)
            },
        }
    }
}

} // verus!
