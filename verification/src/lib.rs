//! A cursor over an immutable byte buffer that decodes the primitive fields of
//! network wire formats: big-endian integers, byte runs, strings and addresses.
//!
//! Every read either consumes exactly the bytes of the field it decodes or
//! leaves the cursor where it was and reports why.
pub mod address;
pub mod cstring;
pub mod cursor;
pub mod decoder;
pub mod endian;
pub mod error;
pub mod text;
