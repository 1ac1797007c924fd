//! What the feed of a topic holds: posts ("dynamics") in the shape in which
//! the upstream service delivers them.
use vstd::prelude::*;

verus! {

/// The posts of a topic that the service picked as popular.
#[derive(Debug, Clone)]
pub struct TagFeedNew {
    pub cards: Vec<Dynamic<String>>,
    /// The offset of the latest post, from which the history can be read.
    pub offset: String,
}

/// The posts of a topic in order of time.
#[derive(Debug, Clone)]
pub struct TagFeedHistory {
    pub cards: Vec<Dynamic<String>>,
    /// The offset of the last post, from which the next page can be read.
    pub offset: String,
}

/// Which page of which topic's history to read.
#[derive(Debug, Clone)]
pub struct TagFeedHistoryArgs {
    pub topic_name: String,
    pub offset_dynamic_id: String,
}

/// One post. Its inner content arrives as text and is read according to
/// `desc.kind`.
#[derive(Debug, Clone)]
pub struct Dynamic<InnerType> {
    pub desc: DynamicDesc,
    pub inner: InnerType,
}

/// A post with pictures.
#[derive(Debug, Clone)]
pub struct PictureDynamic {
    pub category: String,
    /// The text of the post.
    pub description: String,
    pub id: u64,
    pub pictures: Vec<DynamicPicture>,
    /// When the pictures were uploaded, in seconds since the Unix epoch.
    pub upload_time: i64,
}

/// One picture of a post.
#[derive(Debug, Clone)]
pub struct DynamicPicture {
    pub height: u64,
    pub width: u64,
    pub src: String,
}

/// The description of a post: who posted what kind of content, and when.
#[derive(Debug, Clone)]
pub struct DynamicDesc {
    pub uid: u64,
    /// The kind of content: 1 a forwarded video, 2 pictures, 4 text only,
    /// 8 a video, 64 an article.
    pub kind: i64,
    pub view: u64,
    pub repost: u64,
    pub like: u64,
    pub dynamic_id: u64,
    /// When the post was published, in seconds since the Unix epoch.
    pub timestamp: i64,
    pub user_profile: UserProfile,
}

/// The profile of the author of a post.
#[derive(Debug, Clone)]
pub struct UserProfile {
    pub info: UserInfo,
}

#[derive(Debug, Clone)]
pub struct UserInfo {
    pub uid: i64,
    pub uname: String,
    pub face: String,
}

/// The kind of a post that holds pictures.
pub const PICTURE_KIND: i64 = 2;

/// What a [`DynamicPicture`] holds.
pub struct DynamicPictureView {
    pub height: int,
    pub width: int,
    pub src: Seq<char>,
}

impl View for DynamicPicture {
    type V = DynamicPictureView;

    open spec fn view(&self) -> DynamicPictureView {
        DynamicPictureView { height: self.height as int, width: self.width as int, src: self.src@ }
    }
}

/// What a [`PictureDynamic`] holds.
pub struct PictureDynamicView {
    pub category: Seq<char>,
    pub description: Seq<char>,
    pub id: int,
    pub pictures: Seq<DynamicPictureView>,
    pub upload_time: int,
}

impl View for PictureDynamic {
    type V = PictureDynamicView;

    open spec fn view(&self) -> PictureDynamicView {
        PictureDynamicView {
            category: self.category@,
            description: self.description@,
            id: self.id as int,
            pictures: self.pictures@.map_values(|p: DynamicPicture| p@),
            upload_time: self.upload_time as int,
        }
    }
}

} // verus!
