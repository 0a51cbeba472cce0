//! Identifier generation with optional client metadata embedded in
//! time-ordered identifiers, and the matching parser.
pub mod generator;
pub mod hash;
pub mod laws;
pub mod metadata;
pub mod nano;
pub mod parser;
pub mod system;
pub mod text;
pub mod value;

pub use generator::{UuidFormat, UuidGenerator, UuidVersion};
pub use hash::{hash_to_u16, hash_to_u32};
pub use metadata::{
    decode_os_metadata, encode_os_metadata, extract_metadata, inject_metadata, ClientMetadata,
    ExtractedMetadata, OsType,
};
pub use nano::{NanoIdGenerator, DEFAULT_LENGTH};
pub use parser::{clean_uuid_input, parse_uuid, parse_uuid_with_metadata, ParseError};
pub use value::Uuid;
