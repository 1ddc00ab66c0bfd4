pub mod parser;
pub mod types;

pub use parser::{parse_kv_pair, parse_url};
pub use types::{Get, HttpMethod, Httpie, KvPair, Post, ValidationError};
