//! A compact, self-describing binary encoder: every value is written as a
//! one-byte tag followed by its payload.

pub mod error;
pub mod ser;
pub mod tokens;
pub mod value;
pub mod wire;

pub use error::Error;
pub use ser::{to_binson, Compound, Serializer};
pub use value::Value;
