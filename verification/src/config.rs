//! The configuration that the process is started with.
use vstd::prelude::*;

verus! {

/// A tracked topic: its name and the id under which the video service
/// knows it.
#[derive(Debug, Clone)]
pub struct WatchTag {
    pub name: String,
    pub id: u64,
}

/// The configuration of the whole process.
#[derive(Debug, Clone)]
pub struct Config {
    /// The address on which callbacks and queries are served.
    pub http_addr: String,
    /// Where the persistence store is kept.
    pub sqlite_url: String,
    /// The categories that a moderator can give to a video.
    pub video_categories: Vec<String>,
    /// The tracked topics.
    pub watch_tags: Vec<WatchTag>,
    /// Whether groups are kept apart from those of the production build.
    pub dev_mode: bool,
    pub feishu: FeishuConfig,
}

/// The credentials for the chat platform, and who is to be in every group.
#[derive(Debug, Clone)]
pub struct FeishuConfig {
    pub app_id: String,
    pub app_secret: String,
    /// The users that every newly created group starts with.
    pub init_user_ids: Vec<String>,
}

} // verus!
