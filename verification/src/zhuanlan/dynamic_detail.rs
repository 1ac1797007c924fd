//! One post, asked for by its id.
use crate::bilibili::tag_feed::Dynamic;
use vstd::prelude::*;

verus! {

/// What the service tells about one post.
#[derive(Debug, Clone)]
pub struct DynamicDetail {
    pub card: Dynamic<String>,
}

} // verus!
