pub mod chars;
pub mod json;
pub mod laws;
pub mod parse;
pub mod routes;
pub mod store;
