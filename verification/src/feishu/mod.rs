pub mod client;
pub mod helpers;
