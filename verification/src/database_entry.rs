//! The entry of the credential database: a name and the parameters of its
//! codes, and its mapping onto the named text fields of a database record.

use crate::decimal::{
    decimal, lemma_decimal_round_trip, parse_decimal, parsed, to_decimal,
};
use crate::entry::{lemma_algorithm_name_round_trip, Algorithm, Id};
use crate::otp_uri::{has_host, text_of};
use crate::text::{
    all_ascii, ascii_upper, from_chars, is_blank, same_chars, to_chars, upper_cased,
    all_white_space,
};
use vstd::prelude::*;

verus! {

/// The parameters of a credential's codes: algorithm, digits, tolerated
/// windows, step, the decoded secret, and issuer and account name.
#[derive(Debug)]
pub struct Totp {
    pub algorithm: Algorithm,
    pub digits: usize,
    pub skew: u8,
    pub step: u64,
    /// The secret, decoded.
    pub secret: Vec<u8>,
    pub issuer: Option<String>,
    pub account_name: String,
}

/// The parameters as plain values.
pub struct TotpView {
    pub algorithm: Algorithm,
    pub digits: usize,
    pub skew: u8,
    pub step: u64,
    pub secret: Seq<u8>,
    pub issuer: Option<Seq<char>>,
    pub account_name: Seq<char>,
}

impl View for Totp {
    type V = TotpView;

    open spec fn view(&self) -> TotpView {
        TotpView {
            algorithm: self.algorithm,
            digits: self.digits,
            skew: self.skew,
            step: self.step,
            secret: self.secret@,
            issuer: text_of(self.issuer),
            account_name: self.account_name@,
        }
    }
}

/// Why parameters are refused.
#[derive(Debug, Clone, Copy, PartialEq, Eq, Structural)]
pub enum TotpRuleError {
    /// The digit count is not 6, 7 or 8; the count.
    InvalidDigits(usize),
    /// The secret has fewer than 128 bits; its bits.
    SecretTooSmall(usize),
    /// The issuer holds a colon.
    Issuer,
    /// The account name holds a colon.
    AccountName,
}

impl TotpRuleError {
    /// The message of the error.
    pub open spec fn message(self) -> Seq<char> {
        match self {
            TotpRuleError::InvalidDigits(digits) => "The digits must be 6, 7 or 8; "@ + decimal(
                digits as nat,
            ) + " digits are not allowed"@,
            TotpRuleError::SecretTooSmall(bits) => "The secret must have at least 128 bits; "@
                + decimal(bits as nat) + " bits are not enough"@,
            TotpRuleError::Issuer => "The issuer must not contain a colon"@,
            TotpRuleError::AccountName => "The account name must not contain a colon"@,
        }
    }

    /// The message of the error.
    pub fn to_string(&self) -> (s: String)
        ensures
            s@ == self.message(),
    {
        let mut out: Vec<char> = Vec::new();
        match self {
            TotpRuleError::InvalidDigits(digits) => {
                crate::text::append_str(&mut out, "The digits must be 6, 7 or 8; ");
                crate::decimal::push_decimal(&mut out, *digits as u64);
                crate::text::append_str(&mut out, " digits are not allowed");
            },
            TotpRuleError::SecretTooSmall(bits) => {
                crate::text::append_str(&mut out, "The secret must have at least 128 bits; ");
                crate::decimal::push_decimal(&mut out, *bits as u64);
                crate::text::append_str(&mut out, " bits are not enough");
            },
            TotpRuleError::Issuer => {
                crate::text::append_str(&mut out, "The issuer must not contain a colon");
            },
            TotpRuleError::AccountName => {
                crate::text::append_str(&mut out, "The account name must not contain a colon");
            },
        }
        assert(out@ =~= self.message());
        from_chars(&out)
    }
}

impl TotpView {
    /// The rules for parameters: 6 to 8 digits, a secret of 16 bytes or
    /// more, and no colon in the issuer nor in the account name. The first
    /// rule that is broken is reported.
    pub open spec fn checked(self) -> Result<(), TotpRuleError> {
        if !(6 <= self.digits <= 8) {
            Err(TotpRuleError::InvalidDigits(self.digits))
        } else if self.secret.len() < 16 {
            Err(TotpRuleError::SecretTooSmall((self.secret.len() * 8) as usize))
        } else if self.issuer matches Some(issuer) && issuer.contains(':') {
            Err(TotpRuleError::Issuer)
        } else if self.account_name.contains(':') {
            Err(TotpRuleError::AccountName)
        } else {
            Ok(())
        }
    }
}

impl Clone for Totp {
    fn clone(&self) -> (t: Self)
        ensures
            t@ == self@,
    {
        Totp {
            algorithm: self.algorithm,
            digits: self.digits,
            skew: self.skew,
            step: self.step,
            secret: self.secret.clone(),
            issuer: match &self.issuer {
                Some(issuer) => Some(issuer.clone()),
                None => None,
            },
            account_name: self.account_name.clone(),
        }
    }
}

impl Totp {
    /// Checks the rules for parameters. They are the strict rules of RFC
    /// 6238; what is read from a record or a URL is not held to them.
    pub fn check(&self) -> (r: Result<(), TotpRuleError>)
        ensures
            r == self@.checked(),
    {
        if self.digits < 6 || self.digits > 8 {
            return Err(TotpRuleError::InvalidDigits(self.digits));
        }
        if self.secret.len() < 16 {
            return Err(TotpRuleError::SecretTooSmall(self.secret.len() * 8));
        }
        match &self.issuer {
            Some(issuer) => {
                if crate::text::has_char(&to_chars(issuer.as_str()), ':') {
                    return Err(TotpRuleError::Issuer);
                }
            },
            None => {},
        }
        if crate::text::has_char(&to_chars(self.account_name.as_str()), ':') {
            return Err(TotpRuleError::AccountName);
        }
        Ok(())
    }
}

/// One entry of the database.
#[derive(Debug)]
pub struct ClockodeEntry {
    /// The identifier of the record that holds the entry; absent until the
    /// entry is stored.
    pub id: Option<Id>,
    pub name: String,
    pub totp: Totp,
}

/// An entry as plain values.
pub struct ClockodeEntryView {
    pub id: Option<Id>,
    pub name: Seq<char>,
    pub totp: TotpView,
}

impl View for ClockodeEntry {
    type V = ClockodeEntryView;

    open spec fn view(&self) -> ClockodeEntryView {
        ClockodeEntryView { id: self.id, name: self.name@, totp: self.totp@ }
    }
}

impl Clone for ClockodeEntry {
    fn clone(&self) -> (e: Self)
        ensures
            e@ == self@,
    {
        ClockodeEntry { id: self.id, name: self.name.clone(), totp: self.totp.clone() }
    }
}

impl ClockodeEntryView {
    /// The rule for an entry that may be submitted: a name that is not
    /// blank, 6 or 8 digits, a step of 1 to 300 seconds and a secret of 10
    /// to 64 bytes.
    pub open spec fn valid(self) -> bool {
        &&& !all_white_space(self.name)
        &&& (self.totp.digits == 6 || self.totp.digits == 8)
        &&& 1 <= self.totp.step <= 300
        &&& 10 <= self.totp.secret.len() <= 64
    }
}

impl ClockodeEntryView {
    /// The code of the entry at the time `seconds`, or why it has none.
    pub open spec fn code_at(self, seconds: u64) -> Result<Seq<char>, crate::totp::TotpError> {
        if self.totp.digits > 19 {
            if self.totp.step == 0 {
                Err(crate::totp::TotpError::ZeroStep)
            } else {
                Err(crate::totp::TotpError::InvalidDigits)
            }
        } else {
            crate::totp::generated(
                self.totp.algorithm,
                self.totp.secret,
                self.totp.digits as u32,
                self.totp.step,
                seconds,
            )
        }
    }
}

impl ClockodeEntry {
    /// Generates the entry's code for the time `seconds`.
    pub fn generate_at(&self, seconds: u64) -> (r: Result<String, crate::totp::TotpError>)
        ensures
            r matches Ok(code) ==> self@.code_at(seconds) matches Ok(c) && c == code@,
            r matches Err(e) ==> self@.code_at(seconds) matches Err(x) && x == e,
    {
        if self.totp.digits > 19 {
            if self.totp.step == 0 {
                return Err(crate::totp::TotpError::ZeroStep);
            }
            return Err(crate::totp::TotpError::InvalidDigits);
        }
        crate::totp::generate(
            self.totp.secret.as_slice(),
            self.totp.algorithm,
            self.totp.digits as u32,
            self.totp.step,
            seconds,
        )
    }

    /// Whether the entry may be submitted.
    pub fn valid(&self) -> (ok: bool)
        ensures
            ok == self@.valid(),
    {
        if is_blank(&to_chars(self.name.as_str())) {
            return false;
        }
        if self.totp.digits != 6 && self.totp.digits != 8 {
            return false;
        }
        if self.totp.step == 0 || self.totp.step > 300 {
            return false;
        }
        let secret_len = self.totp.secret.len();
        10 <= secret_len && secret_len <= 64
    }
}

/// What `Secret::Encoded(..).to_bytes()` of totp-rs returns: the bytes of a
/// base32 text of RFC 4648 without padding, or nothing where the text is no
/// such text.
pub uninterp spec fn rfc4648_decoded(text: Seq<char>) -> Option<Seq<u8>>;

/// What `TOTP::get_secret_base32` of totp-rs returns: the base32 text of
/// RFC 4648, without padding, of a secret.
pub uninterp spec fn rfc4648_encoded(secret: Seq<u8>) -> Seq<char>;

/// `Secret::to_bytes` of totp-rs on `Secret::Encoded`: decodes base32
/// without padding. All that is claimed is that the same text always
/// decodes alike.
#[verifier::external_body]
pub(crate) fn decode_base32(text: &str) -> (r: Option<Vec<u8>>)
    ensures
        r is Some == rfc4648_decoded(text@) is Some,
        r matches Some(bytes) ==> rfc4648_decoded(text@) == Some(bytes@),
{
    match totp_rs::Secret::Encoded(text.to_string()).to_bytes() {
        Ok(bytes) => Some(bytes),
        Err(_) => None,
    }
}

/// `TOTP::get_secret_base32` of totp-rs, on parameters that hold the
/// secret. `Secret::to_bytes` decodes the text to the secret again.
#[verifier::external_body]
pub(crate) fn encode_base32(secret: &[u8]) -> (r: String)
    ensures
        r@ == rfc4648_encoded(secret@),
        rfc4648_decoded(r@) == Some(secret@),
{
    let holder = totp_rs::TOTP::new_unchecked(
        totp_rs::Algorithm::SHA1,
        6,
        0,
        30,
        secret.to_vec(),
        None,
        String::new(),
    );
    holder.get_secret_base32()
}

/// A named text field of a database record.
#[derive(Debug)]
pub struct Field {
    pub key: String,
    pub value: String,
    /// Whether the value is kept protected in memory.
    pub protected: bool,
}

/// A field as plain values.
pub struct FieldView {
    pub key: Seq<char>,
    pub value: Seq<char>,
    pub protected: bool,
}

impl View for Field {
    type V = FieldView;

    open spec fn view(&self) -> FieldView {
        FieldView { key: self.key@, value: self.value@, protected: self.protected }
    }
}

/// The fields of a record as plain values.
pub open spec fn fields_view(fields: Seq<Field>) -> Seq<FieldView> {
    fields.map_values(|f: Field| f@)
}

/// The field that holds the entry's name.
pub open spec fn title_key() -> Seq<char> {
    "Title"@
}

/// The field that holds the secret, in base32.
pub open spec fn secret_key() -> Seq<char> {
    "ClockodeTotpSecret"@
}

/// The field that holds the algorithm's name.
pub open spec fn algorithm_key() -> Seq<char> {
    "ClockodeTotpAlgorithm"@
}

/// The field that holds the step, in seconds.
pub open spec fn period_key() -> Seq<char> {
    "ClockodeTotpPeriod"@
}

/// The field that holds the digit count.
pub open spec fn digits_key() -> Seq<char> {
    "ClockodeTotpDigits"@
}

/// The value of the first field of `fields` under `key`.
pub open spec fn field_value(fields: Seq<FieldView>, key: Seq<char>) -> Option<Seq<char>>
    decreases fields.len(),
{
    if fields.len() == 0 {
        None
    } else if fields[0].key == key {
        Some(fields[0].value)
    } else {
        field_value(fields.drop_first(), key)
    }
}

/// Looks a field up.
pub fn get_field<'a>(fields: &'a Vec<Field>, key: &str) -> (r: Option<&'a String>)
    ensures
        r is Some == field_value(fields_view(fields@), key@) is Some,
        r matches Some(value) ==> field_value(fields_view(fields@), key@) == Some(value@),
{
    let wanted = to_chars(key);
    let ghost all = fields_view(fields@);
    let mut i: usize = 0;
    assert(all.skip(0) == all);
    while i < fields.len()
        invariant
            i <= fields.len(),
            wanted@ == key@,
            all == fields_view(fields@),
            field_value(all, key@) == field_value(all.skip(i as int), key@),
        decreases fields.len() - i,
    {
        let ghost rest = all.skip(i as int);
        assert(rest[0] == fields@[i as int]@);
        assert(rest.drop_first() == all.skip(i + 1));
        if same_chars(&to_chars(fields[i].key.as_str()), &wanted) {
            return Some(&fields[i].value);
        }
        i += 1;
    }
    None
}

/// Why a record gives no entry.
#[derive(Debug, Clone, Copy, PartialEq, Eq, Structural)]
pub enum RecordError {
    /// The record has no secret field.
    MissingSecret,
    /// The secret field is no base32.
    InvalidSecret,
}

impl RecordError {
    /// The message of the error.
    pub open spec fn message(self) -> Seq<char> {
        match self {
            RecordError::MissingSecret => "Missing TOTP secret in the record"@,
            RecordError::InvalidSecret => "Failed to decode the TOTP secret of the record"@,
        }
    }

    /// The message of the error.
    pub fn to_string(&self) -> (s: String)
        ensures
            s@ == self.message(),
    {
        let mut out: Vec<char> = Vec::new();
        match self {
            RecordError::MissingSecret => {
                crate::text::append_str(&mut out, "Missing TOTP secret in the record");
            },
            RecordError::InvalidSecret => {
                crate::text::append_str(&mut out, "Failed to decode the TOTP secret of the record");
            },
        }
        assert(out@ =~= self.message());
        from_chars(&out)
    }
}

/// The number that a field gives, or `default` where the field is absent
/// or does not read as a number of at most `max`.
pub open spec fn number_field(fields: Seq<FieldView>, key: Seq<char>, max: nat, default: nat) -> nat {
    match field_value(fields, key) {
        Some(text) => match parsed(text, max) {
            Some(n) => n,
            None => default,
        },
        None => default,
    }
}

/// The algorithm that a record names: the name is read in any letter case,
/// and SHA-1 stands for an absent or unknown one.
pub open spec fn algorithm_field(fields: Seq<FieldView>) -> Algorithm {
    match field_value(fields, algorithm_key()) {
        Some(name) => match Algorithm::named(upper_cased(name)) {
            Some(algorithm) => algorithm,
            None => Algorithm::Sha1,
        },
        None => Algorithm::Sha1,
    }
}

/// The name that a record gives its entry.
pub open spec fn name_field(fields: Seq<FieldView>) -> Seq<char> {
    match field_value(fields, title_key()) {
        Some(title) => title,
        None => "Unnamed TOTP Entry"@,
    }
}

/// The entry that the record `uuid` with `fields` holds. The secret field
/// is required and must be base32; the digits default to 6 and the step to
/// 30 seconds; no window is tolerated, and there is no issuer and an empty
/// account name. Whatever was stored is read: no rule is laid on the
/// digits, the step or the secret's length.
pub open spec fn record_entry(uuid: Id, fields: Seq<FieldView>) -> Result<
    ClockodeEntryView,
    RecordError,
> {
    match field_value(fields, secret_key()) {
        None => Err(RecordError::MissingSecret),
        Some(text) => match rfc4648_decoded(text) {
            None => Err(RecordError::InvalidSecret),
            Some(secret) => {
                let totp = TotpView {
                    algorithm: algorithm_field(fields),
                    digits: number_field(fields, digits_key(), usize::MAX as nat, 6) as usize,
                    skew: 0,
                    step: number_field(fields, period_key(), u64::MAX as nat, 30) as u64,
                    secret,
                    issuer: None,
                    account_name: Seq::empty(),
                };
                Ok(ClockodeEntryView { id: Some(uuid), name: name_field(fields), totp })
            },
        },
    }
}

/// The fields under which an entry is stored: its name, its secret in
/// base32 as a protected value, its algorithm, its step and its digits.
pub open spec fn entry_fields(e: ClockodeEntryView) -> Seq<FieldView> {
    seq![
        FieldView { key: title_key(), value: e.name, protected: false },
        FieldView { key: secret_key(), value: rfc4648_encoded(e.totp.secret), protected: true },
        FieldView { key: algorithm_key(), value: e.totp.algorithm.name(), protected: false },
        FieldView { key: period_key(), value: decimal(e.totp.step as nat), protected: false },
        FieldView { key: digits_key(), value: decimal(e.totp.digits as nat), protected: false },
    ]
}

/// The entry as it comes back from the record `uuid` that stores it: with
/// the record's identifier, no tolerated window, no issuer and an empty
/// account name.
pub open spec fn stored_form(e: ClockodeEntryView, uuid: Id) -> ClockodeEntryView {
    ClockodeEntryView {
        id: Some(uuid),
        name: e.name,
        totp: TotpView {
            algorithm: e.totp.algorithm,
            digits: e.totp.digits,
            skew: 0,
            step: e.totp.step,
            secret: e.totp.secret,
            issuer: None,
            account_name: Seq::empty(),
        },
    }
}

/// The fields give the entry back: read from any record, they make the
/// stored form of `e`.
pub open spec fn reads_back(e: ClockodeEntryView, fields: Seq<FieldView>) -> bool {
    forall|uuid: Id| #[trigger]
        record_entry(uuid, fields) == Ok::<ClockodeEntryView, RecordError>(stored_form(e, uuid))
}

/// The names of the five fields differ from one another.
pub proof fn lemma_keys_differ()
    ensures
        title_key() != secret_key(),
        title_key() != algorithm_key(),
        title_key() != period_key(),
        title_key() != digits_key(),
        secret_key() != algorithm_key(),
        secret_key() != period_key(),
        secret_key() != digits_key(),
        algorithm_key() != period_key(),
        algorithm_key() != digits_key(),
        period_key() != digits_key(),
{
    reveal_strlit("Title");
    reveal_strlit("ClockodeTotpSecret");
    reveal_strlit("ClockodeTotpAlgorithm");
    reveal_strlit("ClockodeTotpPeriod");
    reveal_strlit("ClockodeTotpDigits");
    assert(title_key().len() == 5);
    assert(secret_key().len() == 18 && secret_key()[12] == 'S');
    assert(algorithm_key().len() == 21);
    assert(period_key().len() == 18 && period_key()[12] == 'P');
    assert(digits_key().len() == 18 && digits_key()[12] == 'D');
}

/// An algorithm's name is in upper case already.
pub proof fn lemma_name_is_upper(a: Algorithm)
    ensures
        upper_cased(a.name()) == a.name(),
{
    let n = a.name();
    assert(all_ascii(n));
    assert(n.map_values(|c: char| ascii_upper(c)) =~= n);
}

/// What was written under the five names reads back, given that the
/// secret's text decodes to the secret.
pub proof fn lemma_fields_read_back(e: ClockodeEntryView)
    requires
        rfc4648_decoded(rfc4648_encoded(e.totp.secret)) == Some(e.totp.secret),
    ensures
        reads_back(e, entry_fields(e)),
{
    let fields = entry_fields(e);
    lemma_keys_differ();
    let f1 = fields.drop_first();
    let f2 = f1.drop_first();
    let f3 = f2.drop_first();
    let f4 = f3.drop_first();
    assert(f1[0] == fields[1] && f2[0] == fields[2] && f3[0] == fields[3] && f4[0] == fields[4]);
    assert(field_value(fields, title_key()) == Some(e.name));
    assert(field_value(f1, secret_key()) == Some(rfc4648_encoded(e.totp.secret)));
    assert(field_value(fields, secret_key()) == Some(rfc4648_encoded(e.totp.secret)));
    assert(field_value(f2, algorithm_key()) == Some(e.totp.algorithm.name()));
    assert(field_value(f1, algorithm_key()) == Some(e.totp.algorithm.name()));
    assert(field_value(fields, algorithm_key()) == Some(e.totp.algorithm.name()));
    assert(field_value(f3, period_key()) == Some(decimal(e.totp.step as nat)));
    assert(field_value(f2, period_key()) == Some(decimal(e.totp.step as nat)));
    assert(field_value(f1, period_key()) == Some(decimal(e.totp.step as nat)));
    assert(field_value(fields, period_key()) == Some(decimal(e.totp.step as nat)));
    assert(field_value(f4, digits_key()) == Some(decimal(e.totp.digits as nat)));
    assert(field_value(f3, digits_key()) == Some(decimal(e.totp.digits as nat)));
    assert(field_value(f2, digits_key()) == Some(decimal(e.totp.digits as nat)));
    assert(field_value(f1, digits_key()) == Some(decimal(e.totp.digits as nat)));
    assert(field_value(fields, digits_key()) == Some(decimal(e.totp.digits as nat)));
    lemma_decimal_round_trip(e.totp.step as nat, u64::MAX as nat);
    lemma_decimal_round_trip(e.totp.digits as nat, usize::MAX as nat);
    lemma_name_is_upper(e.totp.algorithm);
    lemma_algorithm_name_round_trip(e.totp.algorithm);
}

fn read_number(fields: &Vec<Field>, key: &str, max: u64, default: u64) -> (n: u64)
    requires
        default <= max,
    ensures
        n == number_field(fields_view(fields@), key@, max as nat, default as nat),
        n <= max,
{
    match get_field(fields, key) {
        Some(text) => match parse_decimal(&to_chars(text.as_str()), max) {
            Some(n) => n,
            None => default,
        },
        None => default,
    }
}

fn text_field(key: &str, value: String, protected: bool) -> (f: Field)
    ensures
        f@ == (FieldView { key: key@, value: value@, protected }),
{
    Field { key: key.to_owned(), value, protected }
}

impl ClockodeEntry {
    /// Reads the entry that the record `uuid` holds in `fields`.
    pub fn from_record(uuid: Id, fields: &Vec<Field>) -> (r: Result<ClockodeEntry, RecordError>)
        ensures
            r matches Ok(e) ==> record_entry(uuid, fields_view(fields@)) matches Ok(v) && v == e@,
            r matches Err(e) ==> record_entry(uuid, fields_view(fields@)) matches Err(x) && x == e,
    {
        let text = match get_field(fields, "ClockodeTotpSecret") {
            Some(text) => text,
            None => {
                return Err(RecordError::MissingSecret);
            },
        };
        let secret = match decode_base32(text.as_str()) {
            Some(secret) => secret,
            None => {
                return Err(RecordError::InvalidSecret);
            },
        };
        let algorithm = match get_field(fields, "ClockodeTotpAlgorithm") {
            Some(name) => match Algorithm::from_name(name.as_str().to_uppercase().as_str()) {
                Some(algorithm) => algorithm,
                None => Algorithm::Sha1,
            },
            None => Algorithm::Sha1,
        };
        let digits = read_number(fields, "ClockodeTotpDigits", usize::MAX as u64, 6) as usize;
        let step = read_number(fields, "ClockodeTotpPeriod", u64::MAX, 30);
        let name = match get_field(fields, "Title") {
            Some(title) => title.clone(),
            None => "Unnamed TOTP Entry".to_owned(),
        };
        let totp = Totp {
            algorithm,
            digits,
            skew: 0,
            step,
            secret,
            issuer: None,
            account_name: String::new(),
        };
        Ok(ClockodeEntry { id: Some(uuid), name, totp })
    }

    /// The fields under which the entry is stored. Read from a record,
    /// they give the entry back: its name, its secret, its algorithm, its
    /// digits and its step.
    pub fn to_fields(&self) -> (fields: Vec<Field>)
        ensures
            fields_view(fields@) == entry_fields(self@),
            reads_back(self@, fields_view(fields@)),
    {
        let secret = encode_base32(self.totp.secret.as_slice());
        let mut fields: Vec<Field> = Vec::new();
        fields.push(text_field("Title", self.name.clone(), false));
        fields.push(text_field("ClockodeTotpSecret", secret, true));
        fields.push(text_field("ClockodeTotpAlgorithm", self.totp.algorithm.to_string(), false));
        fields.push(
            text_field("ClockodeTotpPeriod", from_chars(&to_decimal(self.totp.step)), false),
        );
        fields.push(
            text_field("ClockodeTotpDigits", from_chars(&to_decimal(self.totp.digits as u64)), false),
        );
        proof {
            assert(fields_view(fields@) =~= entry_fields(self@));
            lemma_fields_read_back(self@);
        }
        fields
    }
}

/// What `TOTP::from_url_unchecked` of totp-rs makes of a URL: the
/// parameters that it names, or nothing where it is no `otpauth` URL of a
/// time-based credential.
pub uninterp spec fn totp_url_read(url: Seq<char>) -> Option<TotpView>;

/// What `TOTP::get_url` of totp-rs returns: the `otpauth` URL of the
/// parameters.
pub uninterp spec fn totp_url_written(totp: TotpView) -> Seq<char>;

/// `TOTP::from_url_unchecked` of totp-rs, which checks neither the digits
/// nor the secret's length; the parameters are copied field by field. It
/// panics on a URL without host, which is left out here. All that is
/// claimed is that the same text always reads alike.
#[verifier::external_body]
pub(crate) fn totp_from_url(url: &str) -> (r: Option<Totp>)
    requires
        has_host(url@),
    ensures
        r is Some == totp_url_read(url@) is Some,
        r matches Some(totp) ==> totp_url_read(url@) == Some(totp@),
{
    let read = totp_rs::TOTP::from_url_unchecked(url).ok()?;
    let algorithm = match read.algorithm {
        totp_rs::Algorithm::SHA1 => Algorithm::Sha1,
        totp_rs::Algorithm::SHA256 => Algorithm::Sha256,
        totp_rs::Algorithm::SHA512 => Algorithm::Sha512,
    };
    let (digits, skew, step) = (read.digits, read.skew, read.step);
    let (issuer, account_name) = (read.issuer.clone(), read.account_name.clone());
    Some(Totp { algorithm, digits, skew, step, secret: read.secret.clone(), issuer, account_name })
}

/// `TOTP::get_url` of totp-rs, on parameters made by `TOTP::new_unchecked`.
/// All that is claimed is that the same parameters always give the same
/// URL.
#[verifier::external_body]
pub(crate) fn totp_to_url(totp: &Totp) -> (url: String)
    ensures
        url@ == totp_url_written(totp@),
{
    let algorithm = match totp.algorithm {
        Algorithm::Sha1 => totp_rs::Algorithm::SHA1,
        Algorithm::Sha256 => totp_rs::Algorithm::SHA256,
        Algorithm::Sha512 => totp_rs::Algorithm::SHA512,
    };
    let (secret, issuer) = (totp.secret.clone(), totp.issuer.clone());
    let account_name = totp.account_name.clone();
    totp_rs::TOTP::new_unchecked(algorithm, totp.digits, totp.skew, totp.step, secret, issuer, account_name)
        .get_url()
}

} // verus!
