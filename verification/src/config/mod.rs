pub mod schema;
pub mod validate;
