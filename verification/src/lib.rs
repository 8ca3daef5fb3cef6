//! A password-protected store of time-based one-time-password credentials:
//! the code generator, the `otpauth` URI codec, the encrypted vault and the
//! credential database, with the state of the forms that edit them.

pub mod clock;
pub mod config;
pub mod crypto;
pub mod database;
pub mod database_entry;
pub mod decimal;
pub mod entry;
pub mod input;
pub mod order;
pub mod otp_uri;
pub mod screen;
pub mod secret;
pub mod text;
pub mod totp;
pub mod vault;
pub mod widgets;
