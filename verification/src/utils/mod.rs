pub mod headers;
pub mod http;
pub mod json;
pub mod printer;
pub mod response;
pub mod status;
