//! Credential records: the identifier, the hash algorithm, the code
//! settings and the entry itself, with the rule that says when an entry may
//! be submitted.

use crate::clock::unix_seconds;
use crate::secret::{decode_secret, secret_bytes};
use crate::totp::{generate, generated, TotpError};
use vstd::prelude::*;

verus! {

/// Opaque identifier of a stored entry: the 128 bits of a UUID.
#[derive(Debug, Clone, Copy, PartialEq, Eq, Structural, PartialOrd, Ord, Hash)]
pub struct Id(pub u128);

/// Hash function under the one-time-password construction.
#[derive(Debug, Clone, Copy, PartialEq, Eq, Structural)]
pub enum Algorithm {
    Sha1,
    Sha256,
    Sha512,
}

/// The character of the hexadecimal digit `d`, in lower case.
pub open spec fn hex_char(d: int) -> char {
    if d < 10 {
        crate::decimal::digit_char(d)
    } else if d == 10 {
        'a'
    } else if d == 11 {
        'b'
    } else if d == 12 {
        'c'
    } else if d == 13 {
        'd'
    } else if d == 14 {
        'e'
    } else {
        'f'
    }
}

/// The hexadecimal digit of `x` at the place `i`, counted from the most
/// significant of its 32.
pub open spec fn hex_digit(x: u128, i: int) -> int {
    (x as int / vstd::arithmetic::power::pow(16, (31 - i) as nat)) % 16
}

/// The first `n` hexadecimal digits of `x`, a hyphen before the ninth, the
/// thirteenth, the seventeenth and the twenty-first.
pub open spec fn hyphenated(x: u128, n: int) -> Seq<char>
    decreases n,
{
    if n <= 0 {
        Seq::empty()
    } else {
        let head = hyphenated(x, n - 1);
        let head = if n == 9 || n == 13 || n == 17 || n == 21 {
            head.push('-')
        } else {
            head
        };
        head.push(hex_char(hex_digit(x, n - 1)))
    }
}

fn hex(d: u8) -> (c: char)
    requires
        d < 16,
    ensures
        c == hex_char(d as int),
{
    if d == 0 {
        '0'
    } else if d == 1 {
        '1'
    } else if d == 2 {
        '2'
    } else if d == 3 {
        '3'
    } else if d == 4 {
        '4'
    } else if d == 5 {
        '5'
    } else if d == 6 {
        '6'
    } else if d == 7 {
        '7'
    } else if d == 8 {
        '8'
    } else if d == 9 {
        '9'
    } else if d == 10 {
        'a'
    } else if d == 11 {
        'b'
    } else if d == 12 {
        'c'
    } else if d == 13 {
        'd'
    } else if d == 14 {
        'e'
    } else {
        'f'
    }
}

impl Id {
    /// The identifier as text: its 32 hexadecimal digits in lower case, in
    /// groups of 8, 4, 4, 4 and 12 with hyphens between them.
    pub open spec fn text(self) -> Seq<char> {
        hyphenated(self.0, 32)
    }

    /// The identifier as text.
    pub fn to_string(&self) -> (s: String)
        ensures
            s@ == self.text(),
    {
        let mut out: Vec<char> = Vec::new();
        let mut rest: u128 = self.0;
        let mut digits: Vec<u8> = Vec::new();
        // The digits from the least significant up.
        let mut k: usize = 0;
        proof {
            vstd::arithmetic::power::lemma_pow0(16);
        }
        while k < 32
            invariant
                k <= 32,
                digits.len() == k,
                rest as int == self.0 as int / vstd::arithmetic::power::pow(16, k as nat),
                forall|j: int|
                    0 <= j < k ==> (#[trigger] digits@[j]) as int == hex_digit(self.0, 31 - j),
            decreases 32 - k,
        {
            proof {
                lemma_next_digit(self.0, k as nat);
            }
            digits.push((rest % 16) as u8);
            rest = rest / 16;
            k += 1;
        }
        let mut n: usize = 0;
        while n < 32
            invariant
                n <= 32,
                digits.len() == 32,
                forall|j: int|
                    0 <= j < 32 ==> (#[trigger] digits@[j]) as int == hex_digit(self.0, 31 - j),
                out@ == hyphenated(self.0, n as int),
            decreases 32 - n,
        {
            if n == 8 || n == 12 || n == 16 || n == 20 {
                out.push('-');
            }
            let d = digits[31 - n];
            assert(d as int == hex_digit(self.0, n as int));
            assert(0 <= hex_digit(self.0, n as int) < 16);
            out.push(hex(d));
            n += 1;
        }
        crate::text::from_chars(&out)
    }

    /// A new random identifier: `uuid::Uuid::new_v4`, taken as its 128
    /// bits by `Uuid::as_u128`.
    #[verifier::external_body]
    pub(crate) fn fresh() -> Id {
        Id(uuid::Uuid::new_v4().as_u128())
    }
}

proof fn lemma_next_digit(x: u128, k: nat)
    requires
        k < 32,
    ensures
        (x as int / vstd::arithmetic::power::pow(16, k)) % 16 == hex_digit(x, 31 - k),
        (x as int / vstd::arithmetic::power::pow(16, k)) / 16 == x as int
            / vstd::arithmetic::power::pow(16, k + 1),
        vstd::arithmetic::power::pow(16, k) > 0,
{
    let p = vstd::arithmetic::power::pow(16, k);
    vstd::arithmetic::power::lemma_pow_positive(16, k);
    assert(vstd::arithmetic::power::pow(16, k + 1) == 16 * p) by {
        vstd::arithmetic::power::lemma_pow_adds(16, 1, k);
        vstd::arithmetic::power::lemma_pow1(16);
    }
    vstd::arithmetic::div_mod::lemma_div_denominator(x as int, p, 16);
    assert(p * 16 == 16 * p);
    assert((31 - (31 - k)) as nat == k);
}

impl Default for Algorithm {
    fn default() -> (a: Self)
        ensures
            a == Algorithm::Sha1,
    {
        Algorithm::Sha1
    }
}

impl Algorithm {
    /// The name under which the algorithm travels in URIs and stored
    /// fields.
    pub open spec fn name(self) -> Seq<char> {
        match self {
            Algorithm::Sha1 => seq!['S', 'H', 'A', '1'],
            Algorithm::Sha256 => seq!['S', 'H', 'A', '2', '5', '6'],
            Algorithm::Sha512 => seq!['S', 'H', 'A', '5', '1', '2'],
        }
    }

    /// The algorithm that `name` names, if any.
    pub open spec fn named(name: Seq<char>) -> Option<Algorithm> {
        if name == Algorithm::Sha1.name() {
            Some(Algorithm::Sha1)
        } else if name == Algorithm::Sha256.name() {
            Some(Algorithm::Sha256)
        } else if name == Algorithm::Sha512.name() {
            Some(Algorithm::Sha512)
        } else {
            None
        }
    }

    /// The algorithm's name as text.
    pub fn as_str(&self) -> (s: &'static str)
        ensures
            s@ == self.name(),
    {
        proof {
            reveal_strlit("SHA1");
            reveal_strlit("SHA256");
            reveal_strlit("SHA512");
        }
        let s = match self {
            Algorithm::Sha1 => "SHA1",
            Algorithm::Sha256 => "SHA256",
            Algorithm::Sha512 => "SHA512",
        };
        assert(s@ =~= self.name());
        s
    }

    /// The algorithm's name as an owned string.
    pub fn to_string(&self) -> (s: String)
        ensures
            s@ == self.name(),
    {
        self.as_str().to_owned()
    }

    /// Reads an algorithm name; exact upper-case spelling only.
    pub fn from_name(name: &str) -> (r: Option<Algorithm>)
        ensures
            r == Algorithm::named(name@),
    {
        let v = crate::text::to_chars(name);
        let sha1 = crate::text::to_chars(Algorithm::Sha1.as_str());
        let sha256 = crate::text::to_chars(Algorithm::Sha256.as_str());
        let sha512 = crate::text::to_chars(Algorithm::Sha512.as_str());
        if crate::text::same_chars(&v, &sha1) {
            Some(Algorithm::Sha1)
        } else if crate::text::same_chars(&v, &sha256) {
            Some(Algorithm::Sha256)
        } else if crate::text::same_chars(&v, &sha512) {
            Some(Algorithm::Sha512)
        } else {
            None
        }
    }
}

/// Every algorithm has a name of its own, and reading a name gives the
/// algorithm back.
pub proof fn lemma_algorithm_name_round_trip(a: Algorithm)
    ensures
        Algorithm::named(a.name()) == Some(a),
{
    assert(Algorithm::Sha1.name().len() == 4);
    assert(Algorithm::Sha256.name().len() == 6);
    assert(Algorithm::Sha512.name().len() == 6);
    assert(Algorithm::Sha256.name()[3] == '2');
    assert(Algorithm::Sha512.name()[3] == '5');
}

/// Settings of the code generation of one entry.
#[derive(Debug, Clone, Copy, PartialEq, Eq, Structural)]
pub struct TOTPConfig {
    pub algorithm: Algorithm,
    pub digits: u32,
    pub skew: u8,
}

impl Default for TOTPConfig {
    fn default() -> (c: Self)
        ensures
            c == (TOTPConfig { algorithm: Algorithm::Sha1, digits: 6, skew: 1 }),
    {
        TOTPConfig { algorithm: Algorithm::Sha1, digits: 6, skew: 1 }
    }
}

impl TOTPConfig {
    /// The supported algorithms, in their fixed order.
    pub fn get_all_algorithms() -> (all: Vec<Algorithm>)
        ensures
            all@ == seq![Algorithm::Sha1, Algorithm::Sha256, Algorithm::Sha512],
    {
        let mut all: Vec<Algorithm> = Vec::new();
        all.push(Algorithm::Sha1);
        all.push(Algorithm::Sha256);
        all.push(Algorithm::Sha512);
        assert(all@ =~= seq![Algorithm::Sha1, Algorithm::Sha256, Algorithm::Sha512]);
        all
    }
}

/// One stored credential.
#[derive(Debug)]
pub struct Entry {
    /// Absent until the entry is first stored.
    pub id: Option<Id>,
    pub name: String,
    /// The shared secret as the user gave it, usually base32 text.
    pub secret: String,
    /// The code last generated; empty before the first generation.
    pub totp: String,
    pub totp_config: TOTPConfig,
}

/// What an entry holds, as plain values.
pub struct EntryView {
    pub id: Option<Id>,
    pub name: Seq<char>,
    pub secret: Seq<char>,
    pub totp: Seq<char>,
    pub totp_config: TOTPConfig,
}

impl View for Entry {
    type V = EntryView;

    open spec fn view(&self) -> EntryView {
        EntryView {
            id: self.id,
            name: self.name@,
            secret: self.secret@,
            totp: self.totp@,
            totp_config: self.totp_config,
        }
    }
}

/// A refresh that gave `e`.
pub open spec fn ok_entry(e: EntryView) -> Result<EntryView, TotpError> {
    Ok(e)
}

/// A refresh that failed with `e`.
pub open spec fn no_entry(e: TotpError) -> Result<EntryView, TotpError> {
    Err(e)
}

impl EntryView {
    /// The entry with its code generated for `time`, or the reason why
    /// there is none: the secret is decoded first, then the code is made.
    pub open spec fn refreshed(self, step: u64, time: u64) -> Result<EntryView, TotpError> {
        match secret_bytes(self.secret) {
            None => Err(TotpError::InvalidSecret),
            Some(bytes) => match generated(
                self.totp_config.algorithm,
                bytes,
                self.totp_config.digits,
                step,
                time,
            ) {
                Err(e) => Err(e),
                Ok(code) => Ok(EntryView { totp: code, ..self }),
            },
        }
    }

    /// The rule for an entry that may be submitted: a name, a secret, 6 or
    /// 8 digits and a tolerance of at least one window.
    pub open spec fn is_valid(self) -> bool {
        self.name.len() > 0 && self.secret.len() > 0 && (self.totp_config.digits == 6
            || self.totp_config.digits == 8) && self.totp_config.skew != 0
    }
}

impl Clone for Entry {
    fn clone(&self) -> (e: Self)
        ensures
            e == *self,
    {
        Entry {
            id: self.id,
            name: self.name.clone(),
            secret: self.secret.clone(),
            totp: self.totp.clone(),
            totp_config: self.totp_config,
        }
    }
}

impl Entry {
    /// Whether the entry may be submitted.
    pub fn is_valid(&self) -> (ok: bool)
        ensures
            ok == self@.is_valid(),
    {
        !self.name.as_str().is_empty() && !self.secret.as_str().is_empty() && (
        self.totp_config.digits == 6 || self.totp_config.digits == 8) && self.totp_config.skew
            != 0
    }

    /// Generates the entry's code for the time `seconds`, with windows of
    /// `refresh_rate` seconds. On failure the entry is left as it was.
    pub fn generate_totp_at(&mut self, refresh_rate: u64, seconds: u64) -> (r: Result<
        (),
        TotpError,
    >)
        ensures
            r is Ok ==> old(self)@.refreshed(refresh_rate, seconds) == ok_entry(final(self)@),
            r is Ok ==> final(self)@.totp.len() == old(self).totp_config.digits
                && crate::decimal::all_digits(final(self)@.totp),
            r matches Err(e) ==> old(self)@.refreshed(refresh_rate, seconds) == no_entry(e),
            r is Err ==> *final(self) == *old(self),
    {
        let bytes = match decode_secret(self.secret.as_str()) {
            Some(bytes) => bytes,
            None => {
                return Err(TotpError::InvalidSecret);
            },
        };
        match generate(
            bytes.as_slice(),
            self.totp_config.algorithm,
            self.totp_config.digits,
            refresh_rate,
            seconds,
        ) {
            Ok(code) => {
                self.totp = code;
                Ok(())
            },
            Err(e) => Err(e),
        }
    }

    /// Generates the entry's code for the present time. Whatever the clock
    /// reads, a success leaves the entry with the code of some time and
    /// nothing else changed; a failure leaves it as it was.
    pub fn generate_totp(&mut self, refresh_rate: u64) -> (r: Result<(), TotpError>)
        ensures
            r is Ok ==> exists|seconds: u64|
                old(self)@.refreshed(refresh_rate, seconds) == ok_entry(final(self)@),
            r is Ok ==> final(self)@.totp.len() == old(self).totp_config.digits
                && crate::decimal::all_digits(final(self)@.totp),
            r is Err ==> *final(self) == *old(self),
            r matches Err(e) ==> e == TotpError::Clock || exists|seconds: u64|
                old(self)@.refreshed(refresh_rate, seconds) == no_entry(e),
    {
        match unix_seconds() {
            Some(seconds) => self.generate_totp_at(refresh_rate, seconds),
            None => Err(TotpError::Clock),
        }
    }
}

/// Two times in the same window refresh an entry alike.
pub proof fn lemma_refreshed_same_window(e: EntryView, step: u64, t1: u64, t2: u64)
    requires
        step > 0,
        crate::totp::window(step, t1) == crate::totp::window(step, t2),
    ensures
        e.refreshed(step, t1) == e.refreshed(step, t2),
{
}

/// Refreshing a refreshed entry within the same window changes nothing.
pub proof fn lemma_refreshed_again(e: EntryView, step: u64, t1: u64, t2: u64)
    requires
        step > 0,
        crate::totp::window(step, t1) == crate::totp::window(step, t2),
        e.refreshed(step, t1) is Ok,
    ensures
        e.refreshed(step, t1)->Ok_0.refreshed(step, t2) == e.refreshed(step, t1),
{
}

} // verus!
