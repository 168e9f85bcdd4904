//! Challenge issuing and one-shot validation for a contact form.
//!
//! A challenge is a rendered picture of a short code. The picture's
//! fingerprint names the challenge, and a salted digest of the code stands in
//! for the code itself. The store keeps pending challenges for a bounded time
//! and lets each of them answer one validation attempt.

pub mod captchas;
pub mod digest;
pub mod form;
pub mod hex;
pub mod history;
pub mod lang;
pub mod settings;
pub mod simple_captcha;
pub mod text;
