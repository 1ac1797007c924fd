pub mod category;
pub mod error;
pub mod handlers;
