//! Compact identifiers of 40 and 80 bits and their text form.
//!
//! An identifier is five or ten bytes, any bytes. Its text writes each five bytes as eight
//! symbols of a 32-symbol alphabet (`0123456789abcdefghjkmnpqrstvwxyz`), the two halves of
//! the longer form with a hyphen between them: `y3gx5gxm`, `y3gx5gxm-mpb8ey39`.
//!
//! - [`alphabet`]: the symbols, their reverse lookup table, and how such a table is built.
//! - [`base32`]: the codec between five bytes and eight symbols.
//! - [`enid`]: the identifier types, reading them from text and writing them as text.
//! - [`wire`]: the identifiers as plain bytes, with and without a tag for the width.
//! - [`laws`]: what holds between reading and writing, proved for every input.
//! - [`text`]: strings made of ASCII bytes.

pub mod alphabet;
pub mod base32;
pub mod enid;
pub mod laws;
pub mod text;
pub mod wire;

pub use enid::Enid;
pub use enid::Enid40;
pub use enid::Enid80;
pub use enid::EnidParseError;
