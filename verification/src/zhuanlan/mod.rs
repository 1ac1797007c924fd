pub mod cards;
pub mod dynamic_detail;
pub mod items;
pub mod save_draft;
pub mod upload_image;
