pub mod builder;
pub mod cache;
pub mod header;
pub mod payload;
pub mod profile;
pub mod recipe;
pub mod text;
