use asoul_weekly::bilibili::tag_feed::{Dynamic, DynamicDesc, UserInfo, UserProfile};
use asoul_weekly::bilibili::tag_videos::{VideoInfo, VideoOwner, VideoStat};
use asoul_weekly::biz::bilibili::dynamic;
use asoul_weekly::biz::bilibili::feed::{
    batches, merge_topics, persist_batch, plan_cycle, unsent, Content, FeedItem, Kind, Rendered,
};
use asoul_weekly::biz::bilibili::video;
use asoul_weekly::biz::cards::Block;
use asoul_weekly::db::{Record, Store, StoreError};

fn a_video(bvid: &str, publish_at: i64) -> VideoInfo {
    VideoInfo {
        bvid: bvid.to_string(),
        title: format!("title of {}", bvid),
        cover_url: "https://i0.hdslb.com/cover.jpg".to_string(),
        owner: VideoOwner { name: "up".to_string() },
        stat: VideoStat { view: 1, reply: 2, danmaku: 3 },
        duration_secs: 61,
        publish_at,
        copyright: 1,
    }
}

fn item(id: &str, t: i64) -> FeedItem {
    video::normalize(a_video(id, t)).unwrap()
}

fn ids_and_times(items: &[FeedItem]) -> Vec<(String, i64)> {
    items.iter().map(|i| (i.id.clone(), i.created_at)).collect()
}

fn pair(id: &str, t: i64) -> (String, i64) {
    (id.to_string(), t)
}

fn a_record(id: &str, message_id: &str) -> Record {
    Record::pending(
        id.to_string(),
        vec![Block::Rule, Block::Rule, Block::Rule],
        message_id.to_string(),
        0,
        "author".to_string(),
    )
}

fn a_post(dynamic_id: u64, kind: i64, inner: &str) -> Dynamic<String> {
    Dynamic {
        desc: DynamicDesc {
            uid: 1,
            kind,
            view: 0,
            repost: 0,
            like: 0,
            dynamic_id,
            timestamp: 1627011628,
            user_profile: UserProfile {
                info: UserInfo { uid: 1, uname: "画师".to_string(), face: "".to_string() },
            },
        },
        inner: inner.to_string(),
    }
}

#[test]
fn later_topic_wins_and_feed_is_in_order_of_time() {
    let a = vec![item("bv1", 10), item("bv2", 20)];
    let b = vec![item("bv2", 25)];
    let merged = merge_topics(vec![a, b]);
    assert_eq!(ids_and_times(&merged), vec![pair("bv1", 10), pair("bv2", 25)]);
}

#[test]
fn recorded_items_are_not_sent_again() {
    let a = vec![item("bv1", 10), item("bv2", 20)];
    let b = vec![item("bv2", 25)];
    let merged = merge_topics(vec![a, b]);
    let mut store = Store::new();
    store.insert(a_record("bv1", "m0")).unwrap();
    let left = unsent(&store, merged);
    assert_eq!(ids_and_times(&left), vec![pair("bv2", 25)]);
}

#[test]
fn merge_keeps_one_item_per_id_sorted_by_time() {
    let a = vec![item("x", 50), item("y", 5), item("z", 30)];
    let b = vec![item("z", 1), item("w", 30), item("x", 40)];
    let merged = merge_topics(vec![a, b]);
    assert_eq!(
        ids_and_times(&merged),
        vec![pair("z", 1), pair("y", 5), pair("w", 30), pair("x", 40)]
    );
}

#[test]
fn merge_of_equal_times_keeps_the_order_of_first_sight() {
    let a = vec![item("b", 7), item("a", 7), item("c", 7)];
    let b = vec![item("a", 7)];
    let merged = merge_topics(vec![a, b]);
    assert_eq!(ids_and_times(&merged), vec![pair("b", 7), pair("a", 7), pair("c", 7)]);
}

#[test]
fn merge_of_nothing_is_nothing() {
    assert!(merge_topics(vec![]).is_empty());
    assert!(merge_topics(vec![vec![], vec![]]).is_empty());
}

#[test]
fn batches_hold_ten_items_each() {
    let items: Vec<u32> = (0..25).collect();
    let cut = batches(items);
    assert_eq!(cut.len(), 3);
    assert_eq!(cut[0], (0..10).collect::<Vec<u32>>());
    assert_eq!(cut[1], (10..20).collect::<Vec<u32>>());
    assert_eq!(cut[2], (20..25).collect::<Vec<u32>>());
}

#[test]
fn batches_at_the_edges() {
    assert!(batches(Vec::<u32>::new()).is_empty());
    assert_eq!(batches(vec![1u32]), vec![vec![1u32]]);
    assert_eq!(batches((0..10).collect::<Vec<u32>>()), vec![(0..10).collect::<Vec<u32>>()]);
    let eleven = batches((0..11).collect::<Vec<u32>>());
    assert_eq!(eleven.len(), 2);
    assert_eq!(eleven[1], vec![10u32]);
}

#[test]
fn plan_is_merge_then_filter_then_batches() {
    let mut store = Store::new();
    store.insert(a_record("v3", "m0")).unwrap();
    let topic: Vec<FeedItem> = (0..12).map(|i| item(&format!("v{}", i), 100 - i)).collect();
    let plan = plan_cycle(&store, vec![topic]);
    assert_eq!(plan.len(), 2);
    assert_eq!(plan[0].len(), 10);
    assert_eq!(plan[1].len(), 1);
    assert_eq!(plan[0][0].id, "v11");
    assert_eq!(plan[1][0].id, "v0");
    assert!(plan.iter().flatten().all(|i| i.id != "v3"));
}

#[test]
fn a_persisted_batch_is_recorded_as_pending() {
    let mut store = Store::new();
    let batch = vec![
        Rendered { item: item("bv1", 10), body: vec![Block::Rule] },
        Rendered { item: item("bv2", 20), body: vec![Block::Rule, Block::Rule] },
    ];
    assert_eq!(persist_batch(&mut store, batch, "om_1"), Ok(()));
    assert_eq!(store.len(), 2);
    let first = store.from_id("bv1").unwrap();
    assert_eq!(first.message_id, "om_1");
    assert_eq!(first.category, None);
    assert_eq!(first.mark_time, None);
    assert_eq!(first.created_at, 10);
    assert_eq!(first.author, "up");
    assert_eq!(first.card, vec![Block::Rule]);
    assert_eq!(store.from_id("bv2").unwrap().card.len(), 2);
}

#[test]
fn notification_happens_at_most_once() {
    let mut store = Store::new();
    let first = plan_cycle(&store, vec![vec![item("bv1", 10), item("bv2", 20)]]);
    assert_eq!(first.len(), 1);
    let batch: Vec<Rendered> =
        first.into_iter().flatten().map(|item| Rendered { item, body: vec![] }).collect();
    persist_batch(&mut store, batch, "om_1").unwrap();
    let second = plan_cycle(&store, vec![vec![item("bv2", 21), item("bv3", 30)]]);
    assert_eq!(second.len(), 1);
    assert_eq!(ids_and_times(&second[0]), vec![pair("bv3", 30)]);
    let third = plan_cycle(&store, vec![vec![item("bv1", 10), item("bv2", 20)]]);
    assert!(third.is_empty());
}

#[test]
fn a_batch_with_a_known_id_is_refused_whole() {
    let mut store = Store::new();
    store.insert(a_record("bv2", "m0")).unwrap();
    let batch = vec![
        Rendered { item: item("bv1", 10), body: vec![] },
        Rendered { item: item("bv2", 20), body: vec![] },
    ];
    assert_eq!(persist_batch(&mut store, batch, "om_1"), Err(StoreError::DuplicateItem));
    assert_eq!(store.len(), 1);
    assert!(!store.is_sent("bv1"));
}

#[test]
fn a_batch_with_an_id_twice_is_refused_whole() {
    let mut store = Store::new();
    let batch = vec![
        Rendered { item: item("bv1", 10), body: vec![] },
        Rendered { item: item("bv1", 20), body: vec![] },
    ];
    assert_eq!(persist_batch(&mut store, batch, "om_1"), Err(StoreError::DuplicateItem));
    assert_eq!(store.len(), 0);
}

#[test]
fn reposts_and_short_videos_are_dropped() {
    let mut repost = a_video("bv1", 1);
    repost.copyright = 2;
    assert!(video::normalize(repost).is_none());
    let mut short = a_video("bv2", 1);
    short.duration_secs = 9;
    assert!(video::normalize(short).is_none());
    let mut just_long_enough = a_video("bv3", 1);
    just_long_enough.duration_secs = 10;
    let kept = video::normalize(just_long_enough).unwrap();
    assert_eq!(kept.id, "bv3");
    assert_eq!(kept.author, "up");
    assert_eq!(kept.created_at, 1);
    assert_eq!(kept.kind(), Kind::Video);
}

#[test]
fn normalize_all_keeps_the_order_of_the_feed() {
    let mut repost = a_video("bv2", 2);
    repost.copyright = 2;
    let kept = video::normalize_all(vec![a_video("bv1", 1), repost, a_video("bv3", 3)]);
    assert_eq!(ids_and_times(&kept), vec![pair("bv1", 1), pair("bv3", 3)]);
}

#[test]
fn the_poll_loop_rests_longer_at_night() {
    assert_eq!(video::pause_for_hour(0), 180);
    assert_eq!(video::pause_for_hour(1), 300);
    assert_eq!(video::pause_for_hour(8), 300);
    assert_eq!(video::pause_for_hour(9), 180);
    assert_eq!(video::pause_for_hour(23), 180);
    // 2021-07-23 03:40:28 UTC is 11:40 in Shanghai
    assert_eq!(video::pause_after_cycle(1627011628), Some(180));
    // 2021-07-22 19:00:00 UTC is 03:00 in Shanghai
    assert_eq!(video::pause_after_cycle(1626980400), Some(300));
    assert_eq!(video::pause_after_cycle(i64::MAX), None);
}

const PICTURES: &str = r#"{
    "item": {
        "category": "画友",
        "description": "图",
        "id": 9,
        "pictures": [
            { "img_height": 1080, "img_width": 1920, "img_src": "https://i0/0.png", "img_size": 1.5 },
            { "img_height": 1, "img_width": 2, "img_src": "https://i0/1.png" },
            { "img_height": 3, "img_width": 4, "img_src": "https://i0/2.png" }
        ],
        "upload_time": 1627011628
    },
    "user": { "name": "画师" }
}"#;

#[test]
fn filler_posts_and_other_kinds_are_dropped() {
    let filler = a_post(1, 2, &format!("{} 解锁专属粉丝卡片，使用专属粉丝装扮", PICTURES));
    assert!(!dynamic::worth_reading(&filler));
    assert!(dynamic::filter_map(filler).is_none());
    let text_only = a_post(2, 4, PICTURES);
    assert!(!dynamic::worth_reading(&text_only));
    assert!(dynamic::filter_map(text_only).is_none());
    let unreadable = a_post(3, 2, "not json");
    assert!(dynamic::worth_reading(&unreadable));
    assert!(dynamic::filter_map(unreadable).is_none());
    let another_shape = a_post(3, 2, r#"{ "item": { "description": "no pictures" } }"#);
    assert!(dynamic::filter_map(another_shape).is_none());
}

#[test]
fn a_picture_post_becomes_a_candidate() {
    let post = a_post(555109649540124338, 2, PICTURES);
    let kept = dynamic::filter_map(post).unwrap();
    assert_eq!(kept.inner.pictures.len(), 3);
    assert_eq!(kept.desc.dynamic_id, 555109649540124338);
    let item = dynamic::normalize(kept);
    assert_eq!(item.id, "555109649540124338");
    assert_eq!(item.author, "画师");
    assert_eq!(item.created_at, 1627011628);
    assert_eq!(item.kind(), Kind::Picture);
    assert!(matches!(item.content, Content::Picture(_)));
}

#[test]
fn the_inner_content_of_a_post_is_read() {
    let post = dynamic::parse_picture_dynamic(PICTURES).unwrap();
    assert_eq!(post.category, "画友");
    assert_eq!(post.description, "图");
    assert_eq!(post.id, 9);
    assert_eq!(post.upload_time, 1627011628);
    assert_eq!(post.pictures.len(), 3);
    assert_eq!(post.pictures[0].height, 1080);
    assert_eq!(post.pictures[0].width, 1920);
    assert_eq!(post.pictures[0].src, "https://i0/0.png");
    assert_eq!(post.pictures[2].src, "https://i0/2.png");
}

#[test]
fn inner_content_of_another_shape_is_refused() {
    for text in [
        "",
        "[]",
        r#"{ "item": {} }"#,
        r#"{ "item": { "category": "c", "description": "d", "id": 1, "pictures": [] } }"#,
        r#"{ "item": { "category": "c", "description": "d", "id": -1, "pictures": [], "upload_time": 1 } }"#,
        r#"{ "item": { "category": "c", "description": "d", "id": 1.5, "pictures": [], "upload_time": 1 } }"#,
        r#"{ "item": { "category": "c", "description": "d", "id": 1, "pictures": {}, "upload_time": 1 } }"#,
        r#"{ "item": { "category": "c", "description": "d", "id": 1, "pictures": [ { "img_src": "s" } ], "upload_time": 1 } }"#,
        r#"{ "item": { "category": 3, "description": "d", "id": 1, "pictures": [], "upload_time": 1 } }"#,
        r#"{ "item": { "category": "c", "description": "d", "id": 1, "pictures": [], "upload_time": "now" } }"#,
    ] {
        assert!(dynamic::parse_picture_dynamic(text).is_none(), "{}", text);
    }
    let without_pictures = dynamic::parse_picture_dynamic(
        r#"{ "item": { "category": "c", "description": "d", "id": 1, "pictures": [], "upload_time": -5 } }"#,
    )
    .unwrap();
    assert!(without_pictures.pictures.is_empty());
    assert_eq!(without_pictures.upload_time, -5);
}
