//! A small binary serialization library. Values are written to a byte
//! buffer in little-endian order, optionally preceded by a schema that
//! describes their layout, and read back from a byte slice.
pub mod bytes;
pub mod deserializer;
pub mod error;
pub mod file;
pub mod format;
pub mod maps;
pub mod schema;
pub mod serializer;
pub mod traits;

pub use deserializer::Deserializer;
pub use error::SavefileError;
pub use file::{load, load_noschema, save, save_noschema};
pub use schema::{Field, Schema, SchemaEnum, SchemaPrimitive, SchemaStruct, Variant};
pub use serializer::Serializer;
pub use traits::{Deserialize, ReprC, Removed, Serialize, WithSchema};
