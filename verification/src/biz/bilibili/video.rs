//! Videos: which of them become candidates, and how long the poll loop
//! rests between two cycles.
use crate::bilibili::tag_videos::{VideoInfo, MIN_DURATION_SECS, REPOST};
use crate::biz::bilibili::feed::{Content, FeedItem};
use crate::localtime::{local_hour, shanghai_hour};
use vstd::prelude::*;

verus! {

/// Whether a video is put before the moderators: it is no repost and it
/// runs for at least ten seconds.
pub open spec fn is_candidate(v: VideoInfo) -> bool {
    v.copyright != 2 && v.duration_secs >= 10
}

/// Turns a video of the feed into a candidate, or drops it.
pub fn normalize(v: VideoInfo) -> (r: Option<FeedItem>)
    ensures
        r is Some <==> is_candidate(v),
        r matches Some(item) ==> {
            &&& item.id@ == v.bvid@
            &&& item.author@ == v.owner.name@
            &&& item.created_at == v.publish_at
            &&& item.content == Content::Video(v)
        },
{
    if v.copyright == REPOST || v.duration_secs < MIN_DURATION_SECS {
        return None;
    }
    Some(
        FeedItem {
            id: v.bvid.clone(),
            author: v.owner.name.clone(),
            created_at: v.publish_at,
            content: Content::Video(v),
        },
    )
}

/// The videos of one topic that become candidates, in the order of the
/// feed.
pub open spec fn candidates(videos: Seq<VideoInfo>) -> Seq<VideoInfo> {
    videos.filter(|v: VideoInfo| is_candidate(v))
}

/// Normalizes the videos of one topic, dropping reposts and videos that
/// are too short.
pub fn normalize_all(videos: Vec<VideoInfo>) -> (r: Vec<FeedItem>)
    ensures
        r@.len() == candidates(videos@).len(),
        forall|k: int|
            0 <= k < r@.len() ==> {
                &&& (#[trigger] r@[k]).content == Content::Video(candidates(videos@)[k])
                &&& r@[k].id@ == candidates(videos@)[k].bvid@
                &&& r@[k].author@ == candidates(videos@)[k].owner.name@
                &&& r@[k].created_at == candidates(videos@)[k].publish_at
            },
{
    let mut out: Vec<FeedItem> = Vec::new();
    let ghost all = videos@;
    let ghost keep = |v: VideoInfo| is_candidate(v);
    for v in it: videos
        invariant
            it.seq() == all,
            keep == (|v: VideoInfo| is_candidate(v)),
            out@.len() == all.take(it.index() as int).filter(keep).len(),
            forall|k: int|
                0 <= k < out@.len() ==> {
                    let kept = all.take(it.index() as int).filter(keep);
                    &&& (#[trigger] out@[k]).content == Content::Video(kept[k])
                    &&& out@[k].id@ == kept[k].bvid@
                    &&& out@[k].author@ == kept[k].owner.name@
                    &&& out@[k].created_at == kept[k].publish_at
                },
    {
        proof {
            let i = it.index() as int;
            assert(all.take(i + 1).drop_last() =~= all.take(i));
            assert(all.take(i + 1).last() == v);
            reveal(Seq::filter);
        }
        match normalize(v) {
            Some(item) => {
                out.push(item);
            },
            None => {},
        }
    }
    proof {
        assert(all.take(all.len() as int) =~= all);
    }
    out
}

/// The rest after a cycle that ends in the hour `hour` of the day: five
/// minutes from one to eight o'clock at night, three minutes otherwise.
pub open spec fn pause_in_hour(hour: int) -> int {
    if 1 <= hour <= 8 {
        300
    } else {
        180
    }
}

/// The number of seconds to rest after a cycle that ends in the hour
/// `hour` of the day.
pub fn pause_for_hour(hour: u32) -> (secs: u64)
    ensures
        secs == pause_in_hour(hour as int),
{
    if 1 <= hour && hour <= 8 {
        300
    } else {
        180
    }
}

/// The number of seconds to rest after a cycle that ends at the instant
/// `now`, by the hour that a Shanghai clock shows then; `None` where the
/// instant is outside the range of the calendar.
pub fn pause_after_cycle(now: i64) -> (r: Option<u64>)
    ensures
        r is Some <==> shanghai_hour(now as int) is Some,
        r matches Some(secs) ==> secs == pause_in_hour(shanghai_hour(now as int)->0),
{
    match local_hour(now) {
        Some(hour) => Some(pause_for_hour(hour)),
        None => None,
    }
}

} // verus!
