pub mod cli;
pub mod text;
pub mod utils;
