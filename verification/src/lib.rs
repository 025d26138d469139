//! Steam Guard TOTP code generation.
//!
//! The engine turns a base64-encoded shared secret and a moment in time into
//! a 5-character authentication code drawn from Steam's 26-symbol alphabet:
//! the secret is decoded to a raw key, the time is bucketed into 30-second
//! windows to form a counter, the counter's big-endian encoding is fed to
//! HMAC-SHA1 under the key, and the digest is truncated and mapped onto the
//! alphabet. Everything except the HMAC primitive and the clock read is
//! verified; those two are called through contracts stated in `mac` and
//! `totp`.

pub mod codec;
pub mod command;
pub mod laws;
pub mod mac;
pub mod totp;
