pub mod api;
pub mod index;
pub mod text;
