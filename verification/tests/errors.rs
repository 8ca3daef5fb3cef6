use clockode::database::DatabaseError;
use clockode::database_entry::{RecordError, TotpRuleError};
use clockode::entry::Id;
use clockode::totp::TotpError;
use clockode::vault::VaultError;

#[test]
fn identifiers_are_written_as_uuids_are() {
    for value in [
        0u128,
        1,
        u128::MAX,
        0x0123456789abcdef0123456789abcdef,
        0xf0e1d2c3b4a5968778695a4b3c2d1e0f,
        0x00000000_0000_4000_8000_000000000000,
    ] {
        assert_eq!(Id(value).to_string(), uuid::Uuid::from_u128(value).to_string());
    }
    assert_eq!(Id(0x0123456789abcdef0123456789abcdef).to_string(), "01234567-89ab-cdef-0123-456789abcdef");
    for _ in 0..50 {
        let uuid = uuid::Uuid::new_v4();
        assert_eq!(Id(uuid.as_u128()).to_string(), uuid.to_string());
    }
}

#[test]
fn vault_error_messages() {
    assert_eq!(VaultError::NotFound.to_string(), "Vault or entry not found");
    assert_eq!(VaultError::CorruptData.to_string(), "Failed to read the encrypted vault");
    assert_eq!(
        VaultError::AuthenticationFailure.to_string(),
        "Failed to decrypt: incorrect password or corrupted data"
    );
    assert_eq!(VaultError::Locked.to_string(), "Cannot use a locked vault");
    assert_eq!(VaultError::KeyDerivation.to_string(), "Failed to derive the key");
    assert_eq!(VaultError::Encryption.to_string(), "Encryption failed");
    assert_eq!(VaultError::NoEntries.to_string(), "No entries found");
    assert_eq!(VaultError::MissingId.to_string(), "Cannot add an entry without identifier");
    assert_eq!(VaultError::Totp(TotpError::InvalidSecret).to_string(), "Base32 decode error");
}

#[test]
fn totp_error_messages() {
    assert_eq!(TotpError::ZeroStep.to_string(), "The step must not be zero");
    assert_eq!(TotpError::InvalidDigits.to_string(), "The digits must be between 1 and 19");
    assert_eq!(TotpError::InvalidSecret.to_string(), "Base32 decode error");
    assert_eq!(TotpError::Clock.to_string(), "The clock reads a time before the epoch");
}

#[test]
fn database_error_messages() {
    assert_eq!(DatabaseError::IncorrectPassword.to_string(), "Incorrect Password");
    assert_eq!(DatabaseError::MissingGroup.to_string(), "Default Group not found");
    assert_eq!(DatabaseError::MissingId.to_string(), "Cannot update entry without UUID");
    assert_eq!(DatabaseError::NoEntries.to_string(), "No entries found to export");
    assert_eq!(
        DatabaseError::EntryNotFound(Id(0xff)).to_string(),
        "Entry with UUID 00000000-0000-0000-0000-0000000000ff not found"
    );
    assert_eq!(
        DatabaseError::Record(RecordError::MissingSecret).to_string(),
        "Missing TOTP secret in the record"
    );
    assert_eq!(
        RecordError::InvalidSecret.to_string(),
        "Failed to decode the TOTP secret of the record"
    );
    assert_eq!(
        TotpRuleError::InvalidDigits(9).to_string(),
        "The digits must be 6, 7 or 8; 9 digits are not allowed"
    );
    assert_eq!(
        TotpRuleError::SecretTooSmall(80).to_string(),
        "The secret must have at least 128 bits; 80 bits are not enough"
    );
    assert_eq!(TotpRuleError::Issuer.to_string(), "The issuer must not contain a colon");
    assert_eq!(TotpRuleError::AccountName.to_string(), "The account name must not contain a colon");
}
