//! Picture posts: which posts of a feed become candidates.
use crate::bilibili::tag_feed::{
    Dynamic, DynamicPicture, DynamicPictureView, PictureDynamic, PictureDynamicView, PICTURE_KIND,
};
use crate::biz::card_json::text_member;
use crate::json::{
    items_of, json_as_array, json_as_i64, json_as_str, json_as_u64, json_get, json_of, json_parse,
    jsons_of, member, parsed_json, signed_of, unsigned_of, JsonView,
};
use crate::biz::bilibili::feed::{Content, FeedItem};
use crate::text::{contains, decimal, decimal_spec, has_infix};
use vstd::prelude::*;

verus! {

/// The sentence by which promotional filler is recognized.
pub open spec fn filler_phrase() -> Seq<char> {
    "解锁专属粉丝卡片，使用专属粉丝装扮"@
}

/// Whether a post is worth reading further: it is no promotional filler
/// and it declares pictures as its content.
pub open spec fn is_candidate(card: Dynamic<String>) -> bool {
    !has_infix(card.inner@, filler_phrase()) && card.desc.kind == 2
}

/// Whether the inner content of a post should be read as a picture post.
pub fn worth_reading(card: &Dynamic<String>) -> (r: bool)
    ensures
        r == is_candidate(*card),
{
    if contains(card.inner.as_str(), "解锁专属粉丝卡片，使用专属粉丝装扮") {
        return false;
    }
    card.desc.kind == PICTURE_KIND
}

/// The unsigned number under `name` in an object.
pub open spec fn unsigned_member(j: JsonView, name: Seq<char>) -> Option<int> {
    match member(j, name) {
        Some(x) => unsigned_of(x),
        None => None,
    }
}

/// The picture that a JSON object stands for: its height, its width and
/// its address.
pub open spec fn picture_in(j: JsonView) -> Option<DynamicPictureView> {
    match (
        unsigned_member(j, "img_height"@),
        unsigned_member(j, "img_width"@),
        text_member(j, "img_src"@),
    ) {
        (Some(height), Some(width), Some(src)) => Some(DynamicPictureView { height, width, src }),
        _ => None,
    }
}

/// The pictures that JSON objects stand for; none where one of them
/// stands for no picture.
pub open spec fn pictures_in(items: Seq<JsonView>) -> Option<Seq<DynamicPictureView>>
    decreases items.len(),
{
    if items.len() == 0 {
        Some(Seq::empty())
    } else {
        match (pictures_in(items.drop_last()), picture_in(items.last())) {
            (Some(before), Some(picture)) => Some(before.push(picture)),
            _ => None,
        }
    }
}

/// The picture post that the `item` of a JSON object stands for.
pub open spec fn picture_dynamic_in(j: JsonView) -> Option<PictureDynamicView> {
    match member(j, "item"@) {
        Some(item) => {
            let pictures = match member(item, "pictures"@) {
                Some(x) => match items_of(x) {
                    Some(items) => pictures_in(items),
                    None => None,
                },
                None => None,
            };
            let upload_time = match member(item, "upload_time"@) {
                Some(x) => signed_of(x),
                None => None,
            };
            match (
                text_member(item, "category"@),
                text_member(item, "description"@),
                unsigned_member(item, "id"@),
                pictures,
                upload_time,
            ) {
                (Some(category), Some(description), Some(id), Some(pictures), Some(upload_time)) => Some(
                    PictureDynamicView { category, description, id, pictures, upload_time },
                ),
                _ => None,
            }
        },
        None => None,
    }
}

/// The picture post that the inner content of a post stands for; none
/// where the content is no JSON or stands for no picture post.
pub open spec fn picture_dynamic_of(inner: Seq<char>) -> Option<PictureDynamicView> {
    match parsed_json(inner) {
        Some(j) => picture_dynamic_in(j),
        None => None,
    }
}

fn get_text(v: &serde_json::Value, name: &str) -> (r: Option<String>)
    ensures
        r is Some <==> text_member(json_of(*v), name@) is Some,
        r matches Some(s) ==> text_member(json_of(*v), name@) == Some(s@),
{
    match json_get(v, name) {
        Some(x) => match json_as_str(x) {
            Some(s) => Some(String::from_str(s)),
            None => None,
        },
        None => None,
    }
}

fn get_unsigned(v: &serde_json::Value, name: &str) -> (r: Option<u64>)
    ensures
        r is Some <==> unsigned_member(json_of(*v), name@) is Some,
        r matches Some(n) ==> unsigned_member(json_of(*v), name@) == Some(n as int),
{
    match json_get(v, name) {
        Some(x) => json_as_u64(x),
        None => None,
    }
}

fn picture_from_json(v: &serde_json::Value) -> (r: Option<DynamicPicture>)
    ensures
        r is Some <==> picture_in(json_of(*v)) is Some,
        r matches Some(p) ==> picture_in(json_of(*v)) == Some(p@),
{
    match (get_unsigned(v, "img_height"), get_unsigned(v, "img_width"), get_text(v, "img_src")) {
        (Some(height), Some(width), Some(src)) => Some(DynamicPicture { height, width, src }),
        _ => None,
    }
}

proof fn lemma_pictures_prefix(items: Seq<JsonView>, n: int)
    requires
        0 <= n <= items.len(),
        pictures_in(items.take(n)) is None,
    ensures
        pictures_in(items) is None,
    decreases items.len() - n,
{
    if n < items.len() {
        assert(items.take(n + 1).drop_last() =~= items.take(n));
        lemma_pictures_prefix(items, n + 1);
    } else {
        assert(items.take(n) =~= items);
    }
}

fn pictures_from_json(items: &Vec<serde_json::Value>) -> (r: Option<Vec<DynamicPicture>>)
    ensures
        r is Some <==> pictures_in(jsons_of(items@)) is Some,
        r matches Some(pictures) ==> pictures_in(jsons_of(items@)) == Some(
            pictures@.map_values(|p: DynamicPicture| p@),
        ),
{
    let mut out: Vec<DynamicPicture> = Vec::new();
    let ghost all = jsons_of(items@);
    let mut i: usize = 0;
    while i < items.len()
        invariant
            i <= items.len(),
            all == jsons_of(items@),
            pictures_in(all.take(i as int)) == Some(out@.map_values(|p: DynamicPicture| p@)),
        decreases items.len() - i,
    {
        proof {
            assert(all.take(i as int + 1).drop_last() =~= all.take(i as int));
            assert(all.take(i as int + 1).last() == json_of(items@[i as int]));
        }
        match picture_from_json(&items[i]) {
            Some(picture) => {
                let ghost before = out@;
                out.push(picture);
                proof {
                    assert(out@.map_values(|p: DynamicPicture| p@) =~= before.map_values(
                        |p: DynamicPicture| p@,
                    ).push(picture@));
                }
            },
            None => {
                proof {
                    lemma_pictures_prefix(all, i as int + 1);
                }
                return None;
            },
        }
        i += 1;
    }
    proof {
        assert(all.take(all.len() as int) =~= all);
    }
    Some(out)
}

/// Reads a JSON value as a picture post: the post stands under `item`,
/// with its category, its text, its id, its pictures and the time of the
/// upload.
pub fn picture_dynamic_from_json(v: &serde_json::Value) -> (r: Option<PictureDynamic>)
    ensures
        r is Some <==> picture_dynamic_in(json_of(*v)) is Some,
        r matches Some(p) ==> picture_dynamic_in(json_of(*v)) == Some(p@),
{
    let item = match json_get(v, "item") {
        Some(item) => item,
        None => {
            return None;
        },
    };
    let pictures = match json_get(item, "pictures") {
        Some(x) => match json_as_array(x) {
            Some(items) => pictures_from_json(items),
            None => None,
        },
        None => None,
    };
    let upload_time = match json_get(item, "upload_time") {
        Some(x) => json_as_i64(x),
        None => None,
    };
    match (
        get_text(item, "category"),
        get_text(item, "description"),
        get_unsigned(item, "id"),
        pictures,
        upload_time,
    ) {
        (Some(category), Some(description), Some(id), Some(pictures), Some(upload_time)) => Some(
            PictureDynamic { category, description, id, pictures, upload_time },
        ),
        _ => None,
    }
}

/// Reads the inner content of a post as a picture post.
pub fn parse_picture_dynamic(inner: &str) -> (r: Option<PictureDynamic>)
    ensures
        r is Some <==> picture_dynamic_of(inner@) is Some,
        r matches Some(p) ==> picture_dynamic_of(inner@) == Some(p@),
{
    match json_parse(inner) {
        Some(v) => picture_dynamic_from_json(&v),
        None => None,
    }
}

/// Turns a raw post into a picture post, or drops it: a post is dropped
/// where it is promotional filler, where it declares another kind of
/// content than pictures, and where its inner content cannot be read as a
/// picture post.
pub fn filter_map(card: Dynamic<String>) -> (r: Option<Dynamic<PictureDynamic>>)
    ensures
        r is Some <==> is_candidate(card) && picture_dynamic_of(card.inner@) is Some,
        r matches Some(d) ==> d.desc == card.desc && picture_dynamic_of(card.inner@) == Some(
            d.inner@,
        ),
{
    if !worth_reading(&card) {
        return None;
    }
    match parse_picture_dynamic(card.inner.as_str()) {
        Some(inner) => Some(Dynamic { desc: card.desc, inner }),
        None => None,
    }
}

/// Turns a picture post into a candidate. Its id is the decimal numeral of
/// the post's id.
pub fn normalize(d: Dynamic<PictureDynamic>) -> (item: FeedItem)
    ensures
        item.id@ == decimal_spec(d.desc.dynamic_id as nat),
        item.author@ == d.desc.user_profile.info.uname@,
        item.created_at == d.desc.timestamp,
        item.content == Content::Picture(d),
{
    FeedItem {
        id: decimal(d.desc.dynamic_id),
        author: d.desc.user_profile.info.uname.clone(),
        created_at: d.desc.timestamp,
        content: Content::Picture(d),
    }
}

} // verus!
