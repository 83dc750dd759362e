//! Conversion of uniform records between JSON, YAML, CSV and TOML text.
//!
//! Every conversion goes through one sequence of records in memory: a text
//! is decoded into records, and records are encoded as a text. The text of
//! each format is read and written by the library of that format; what a
//! document or a table of rows means as records, and how records are laid
//! out in one, is decided and verified here.

pub mod convert;
pub mod csv_codec;
pub mod decimal;
pub mod document;
pub mod error;
pub mod format;
pub mod json_codec;
pub mod laws;
pub mod literal;
pub mod number;
pub mod record;
pub mod schema;
pub mod sheet;
pub mod text;
pub mod toml_codec;
pub mod yaml_codec;

pub use convert::{convert_data, deserialize_from_string, serialize_to_string};
pub use error::ConversionError;
pub use format::Format;
pub use literal::Real;
pub use record::Record;
