//! Codec core for DNS messages: compressed domain names, record payloads
//! and a message builder.

pub mod builder;
pub mod enums;
pub mod error;
pub mod header;
pub mod name;
pub mod rdata;
pub mod wire;

pub use builder::{Builder, Question, ResourceRecord};
pub use enums::{Class, Opcode, QueryClass, QueryType, ResponseCode, Type};
pub use error::Error;
pub use header::Header;
pub use name::Name;
pub use rdata::RData;
