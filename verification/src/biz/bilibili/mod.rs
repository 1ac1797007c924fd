pub mod dynamic;
pub mod feed;
pub mod video;
