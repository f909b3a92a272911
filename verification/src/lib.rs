//! The verified core of a bot that answers level IDs posted on r/geometrydash.
//!
//! * [`text`] and [`number`] hold the text and number primitives that everything else is built on.
//! * [`base64_text`] decodes level descriptions.
//! * [`form`] makes the forms that go out with requests.
//! * [`gd`] reads the level server's replies.
//! * [`reddit`] recognises level IDs, writes replies and decides what the bot does next.
pub mod base64_text;
pub mod form;
pub mod gd;
pub mod number;
pub mod reddit;
pub mod text;

