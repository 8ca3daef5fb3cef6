//! The code generator: a time-based one-time password from a decoded
//! secret, a hash algorithm, a digit count, a step and a time.

use crate::decimal::all_digits;
use crate::entry::Algorithm;
use vstd::prelude::*;

verus! {

/// The HOTP value of RFC 4226 under HMAC-SHA-1 for a key and a counter, cut
/// to `digits` decimal characters.
pub uninterp spec fn hotp_sha1(secret: Seq<u8>, counter: u64, digits: u32) -> Seq<char>;

/// The same under HMAC-SHA-256.
pub uninterp spec fn hotp_sha256(secret: Seq<u8>, counter: u64, digits: u32) -> Seq<char>;

/// The same under HMAC-SHA-512.
pub uninterp spec fn hotp_sha512(secret: Seq<u8>, counter: u64, digits: u32) -> Seq<char>;

/// The counter-based code under the chosen algorithm.
pub open spec fn hotp(algorithm: Algorithm, secret: Seq<u8>, counter: u64, digits: u32) -> Seq<
    char,
> {
    match algorithm {
        Algorithm::Sha1 => hotp_sha1(secret, counter, digits),
        Algorithm::Sha256 => hotp_sha256(secret, counter, digits),
        Algorithm::Sha512 => hotp_sha512(secret, counter, digits),
    }
}

/// Number of whole steps that have passed since the epoch at `time`.
pub open spec fn window(step: u64, time: u64) -> u64
    recommends
        step > 0,
{
    (time / step) as u64
}

/// The code of the window that holds `time`.
pub open spec fn totp_code(
    algorithm: Algorithm,
    secret: Seq<u8>,
    digits: u32,
    step: u64,
    time: u64,
) -> Seq<char>
    recommends
        step > 0,
{
    hotp(algorithm, secret, window(step, time), digits)
}

/// The digit counts that the generator can write.
pub open spec fn digits_in_range(digits: u32) -> bool {
    1 <= digits <= 19
}

/// Why no code was generated.
#[derive(Debug, Clone, Copy, PartialEq, Eq, Structural)]
pub enum TotpError {
    /// The step is zero seconds.
    ZeroStep,
    /// The digit count is zero or more than nineteen.
    InvalidDigits,
    /// The secret text is no base32.
    InvalidSecret,
    /// The clock reads a time before the epoch.
    Clock,
}

impl TotpError {
    /// The message of the error.
    pub open spec fn message(self) -> Seq<char> {
        match self {
            TotpError::ZeroStep => "The step must not be zero"@,
            TotpError::InvalidDigits => "The digits must be between 1 and 19"@,
            TotpError::InvalidSecret => "Base32 decode error"@,
            TotpError::Clock => "The clock reads a time before the epoch"@,
        }
    }

    /// The message of the error.
    pub fn to_string(&self) -> (s: String)
        ensures
            s@ == self.message(),
    {
        match self {
            TotpError::ZeroStep => "The step must not be zero".to_owned(),
            TotpError::InvalidDigits => "The digits must be between 1 and 19".to_owned(),
            TotpError::InvalidSecret => "Base32 decode error".to_owned(),
            TotpError::Clock => "The clock reads a time before the epoch".to_owned(),
        }
    }
}

/// `totp_lite::totp_custom` with SHA-1. It divides `time` by `step`, runs
/// HMAC-SHA-1 over the quotient as eight big-endian bytes, truncates as RFC
/// 4226 says, and writes the value modulo ten to the power of `digits`,
/// padded with zeros to `digits` characters. It panics on a zero step and,
/// from twenty digits on, on the overflow of that power.
#[verifier::external_body]
fn totp_sha1(step: u64, digits: u32, secret: &[u8], time: u64) -> (code: String)
    requires
        step > 0,
        digits_in_range(digits),
    ensures
        code@ == hotp_sha1(secret@, window(step, time), digits),
        code@.len() == digits,
        all_digits(code@),
{
    totp_lite::totp_custom::<totp_lite::Sha1>(step, digits, secret, time)
}

/// `totp_lite::totp_custom` with SHA-256; as `totp_sha1` otherwise.
#[verifier::external_body]
fn totp_sha256(step: u64, digits: u32, secret: &[u8], time: u64) -> (code: String)
    requires
        step > 0,
        digits_in_range(digits),
    ensures
        code@ == hotp_sha256(secret@, window(step, time), digits),
        code@.len() == digits,
        all_digits(code@),
{
    totp_lite::totp_custom::<totp_lite::Sha256>(step, digits, secret, time)
}

/// `totp_lite::totp_custom` with SHA-512; as `totp_sha1` otherwise.
#[verifier::external_body]
fn totp_sha512(step: u64, digits: u32, secret: &[u8], time: u64) -> (code: String)
    requires
        step > 0,
        digits_in_range(digits),
    ensures
        code@ == hotp_sha512(secret@, window(step, time), digits),
        code@.len() == digits,
        all_digits(code@),
{
    totp_lite::totp_custom::<totp_lite::Sha512>(step, digits, secret, time)
}

/// What `generate` returns for each input.
pub open spec fn generated(
    algorithm: Algorithm,
    secret: Seq<u8>,
    digits: u32,
    step: u64,
    time: u64,
) -> Result<Seq<char>, TotpError> {
    if step == 0 {
        Err(TotpError::ZeroStep)
    } else if !digits_in_range(digits) {
        Err(TotpError::InvalidDigits)
    } else {
        Ok(totp_code(algorithm, secret, digits, step, time))
    }
}

/// Generates the code for `unix_time`. Fails on a zero step and on a digit
/// count that cannot be written; any secret is accepted.
pub fn generate(secret: &[u8], algorithm: Algorithm, digits: u32, step: u64, unix_time: u64) -> (r:
    Result<String, TotpError>)
    ensures
        r matches Ok(code) ==> generated(algorithm, secret@, digits, step, unix_time) matches Ok(
            c,
        ) && c == code@,
        r matches Ok(code) ==> code@.len() == digits && all_digits(code@),
        r matches Err(e) ==> generated(algorithm, secret@, digits, step, unix_time) matches Err(
            x,
        ) && x == e,
{
    if step == 0 {
        return Err(TotpError::ZeroStep);
    }
    if digits < 1 || digits > 19 {
        return Err(TotpError::InvalidDigits);
    }
    let code = match algorithm {
        Algorithm::Sha1 => totp_sha1(step, digits, secret, unix_time),
        Algorithm::Sha256 => totp_sha256(step, digits, secret, unix_time),
        Algorithm::Sha512 => totp_sha512(step, digits, secret, unix_time),
    };
    Ok(code)
}

/// Two times in the same window give the same code.
pub proof fn lemma_same_window_same_code(
    algorithm: Algorithm,
    secret: Seq<u8>,
    digits: u32,
    step: u64,
    t1: u64,
    t2: u64,
)
    requires
        step > 0,
        window(step, t1) == window(step, t2),
    ensures
        generated(algorithm, secret, digits, step, t1) == generated(
            algorithm,
            secret,
            digits,
            step,
            t2,
        ),
{
}

} // verus!
