pub mod components;
pub mod error;
pub mod json;
pub mod number;
pub mod schema;
pub mod text;

pub use error::FigError;
pub use json::{Json, JsonNumber, JsonV};
