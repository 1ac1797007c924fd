pub mod tag_feed;
pub mod tag_videos;
