//! What the video listing of a topic holds.
use vstd::prelude::*;

verus! {

/// The videos under a topic.
#[derive(Debug, Clone)]
pub struct TagVideos {
    pub news: TagNews,
}

#[derive(Debug, Clone)]
pub struct TagNews {
    pub archives: Vec<VideoInfo>,
}

/// What the pipeline reads of a video.
#[derive(Debug, Clone)]
pub struct VideoInfo {
    pub bvid: String,
    pub title: String,
    pub cover_url: String,
    pub owner: VideoOwner,
    pub stat: VideoStat,
    /// The length of the video in seconds.
    pub duration_secs: u64,
    /// When the video was published, in seconds since the Unix epoch.
    pub publish_at: i64,
    /// 1 for a work of the uploader, 2 for a repost.
    pub copyright: i64,
}

#[derive(Debug, Clone)]
pub struct VideoOwner {
    pub name: String,
}

#[derive(Debug, Clone)]
pub struct VideoStat {
    pub view: u64,
    pub reply: u64,
    pub danmaku: u64,
}

/// The `copyright` mark of a repost.
pub const REPOST: i64 = 2;

/// The shortest video, in seconds, that is put before the moderators.
pub const MIN_DURATION_SECS: u64 = 10;

} // verus!
