//! An owned BSON value model with a pull-based decoding bridge, an
//! extended-JSON marker decoder, and a zero-copy raw view over encoded
//! buffers.
//!
//! The bridge (`de`) drives typed extraction out of an owned [`value::Bson`]
//! tree; the marker decoder (`extjson`) recognizes reserved `$`-prefixed keys
//! that stand for binary-only types; the raw view (`raw`) inspects encoded
//! bytes in place and converts them to the owned tree.

pub mod error;
pub mod de;
pub mod extjson;
pub mod laws;
pub mod numeric;
pub mod raw;
pub mod value;
pub mod visitor;
