use asoul_weekly::bilibili::tag_feed::{
    Dynamic, DynamicDesc, DynamicPicture, PictureDynamic, UserInfo, UserProfile,
};
use asoul_weekly::bilibili::tag_videos::{VideoInfo, VideoOwner, VideoStat};
use asoul_weekly::biz::bilibili::feed::{Content, FeedItem};
use asoul_weekly::biz::cards::{
    copy_body, dynamic_card, dynamic_to_ok, footnote, get_dynamic_thumbnail_image_key,
    markdown_escape, merge_body, thumbnail_url, video_action, video_basic_info, video_footnote,
    video_info_to_card_body, video_to_accepted, wrap_card_body, Block, RenderError,
};

fn a_video() -> VideoInfo {
    VideoInfo {
        bvid: "BV1xx411c7mD".to_string(),
        title: "[A-SOUL] 舞蹈 (直拍)".to_string(),
        cover_url: "https://i0.hdslb.com/cover.jpg".to_string(),
        owner: VideoOwner { name: "某UP".to_string() },
        stat: VideoStat { view: 12345, reply: 67, danmaku: 8 },
        duration_secs: 185,
        publish_at: 1627011628,
        copyright: 1,
    }
}

fn a_post() -> Dynamic<PictureDynamic> {
    Dynamic {
        desc: DynamicDesc {
            uid: 1,
            kind: 2,
            view: 0,
            repost: 0,
            like: 0,
            dynamic_id: 555109649540124338,
            timestamp: 1627011628,
            user_profile: UserProfile {
                info: UserInfo { uid: 1, uname: "画师".to_string(), face: "".to_string() },
            },
        },
        inner: PictureDynamic {
            category: "画友".to_string(),
            description: "第一行\n   第二行 (草稿)".to_string(),
            id: 9,
            pictures: vec![
                DynamicPicture { height: 1, width: 1, src: "https://i0/a.png".to_string() },
                DynamicPicture { height: 1, width: 1, src: "https://i0/b.png".to_string() },
            ],
            upload_time: 1627011628,
        },
    }
}

fn note(text: &str) -> Block {
    Block::Note { content: text.to_string() }
}

#[test]
fn markdown_escape_tidies_breaks_and_brackets() {
    assert_eq!(markdown_escape("a\n   b[c](d)"), Ok("a\nb【c】（d）".to_string()));
    assert_eq!(markdown_escape("plain"), Ok("plain".to_string()));
    assert_eq!(markdown_escape("a\n\n\n  b"), Ok("a\nb".to_string()));
    assert_eq!(markdown_escape("a\nb"), Ok("a\nb".to_string()));
    assert_eq!(markdown_escape(""), Ok("".to_string()));
}

#[test]
fn video_information_block() {
    let block = video_basic_info(&a_video(), "img_v2_key").unwrap();
    assert_eq!(
        block,
        Block::Info {
            content: "[▷【A-SOUL】 舞蹈 （直拍）](https://www.bilibili.com/video/BV1xx411c7mD)\nBV1xx411c7mD UP：某UP\n播放 12345  评论 67  弹幕 8  长度 3:05".to_string(),
            img_key: "img_v2_key".to_string(),
            alt: "视频封面".to_string(),
        }
    );
}

#[test]
fn video_length_is_minutes_and_two_digits_of_seconds() {
    let mut v = a_video();
    v.duration_secs = 3600;
    match video_basic_info(&v, "k").unwrap() {
        Block::Info { content, .. } => assert!(content.ends_with("长度 60:00")),
        other => panic!("unexpected block {:?}", other),
    }
    v.duration_secs = 59;
    match video_basic_info(&v, "k").unwrap() {
        Block::Info { content, .. } => assert!(content.ends_with("长度 0:59")),
        other => panic!("unexpected block {:?}", other),
    }
}

#[test]
fn footnote_shows_shanghai_time() {
    assert_eq!(footnote(1627011628), Ok(note("发布于 2021-07-23 11:40:28")));
    assert_eq!(video_footnote(&a_video()), Ok(note("发布于 2021-07-23 11:40:28")));
    assert_eq!(footnote(0), Ok(note("发布于 1970-01-01 08:00:00")));
}

#[test]
fn footnote_of_a_time_beyond_the_calendar() {
    assert_eq!(footnote(i64::MAX), Err(RenderError::Time));
    let mut v = a_video();
    v.publish_at = i64::MIN;
    assert_eq!(video_info_to_card_body(&v, "k", &vec![]), Err(RenderError::Time));
}

#[test]
fn video_action_offers_every_category() {
    let categories = vec!["音乐".to_string(), "舞蹈".to_string()];
    assert_eq!(
        video_action(&a_video(), &categories),
        Block::Select {
            placeholder: "选择分类".to_string(),
            bvid: "BV1xx411c7mD".to_string(),
            options: categories.clone(),
        }
    );
}

#[test]
fn video_card_has_three_parts() {
    let categories = vec!["音乐".to_string()];
    let body = video_info_to_card_body(&a_video(), "img_v2_key", &categories).unwrap();
    assert_eq!(body.len(), 3);
    assert_eq!(body[0], video_basic_info(&a_video(), "img_v2_key").unwrap());
    assert_eq!(body[1], video_action(&a_video(), &categories));
    assert_eq!(body[2], note("发布于 2021-07-23 11:40:28"));
}

#[test]
fn picture_card_has_three_parts() {
    let body = dynamic_card(&a_post(), "img_v2_thumb").unwrap();
    assert_eq!(
        body,
        vec![
            Block::Info {
                content: "[画师 (2 图)](https://t.bilibili.com/555109649540124338)\n第一行\n第二行 （草稿）".to_string(),
                img_key: "img_v2_thumb".to_string(),
                alt: "第一张图".to_string(),
            },
            Block::Button {
                label: "选入今日二创".to_string(),
                dynamic_id: "555109649540124338".to_string(),
            },
            note("发布于 2021-07-23 11:40:28"),
        ]
    );
}

#[test]
fn feed_items_render_by_their_kind() {
    let video = FeedItem {
        id: "BV1xx411c7mD".to_string(),
        author: "某UP".to_string(),
        created_at: 1627011628,
        content: Content::Video(a_video()),
    };
    let categories = vec!["音乐".to_string()];
    assert_eq!(
        video.render("k", &categories),
        video_info_to_card_body(&a_video(), "k", &categories)
    );
    let post = FeedItem {
        id: "555109649540124338".to_string(),
        author: "画师".to_string(),
        created_at: 1627011628,
        content: Content::Picture(a_post()),
    };
    assert_eq!(post.render("k", &categories), dynamic_card(&a_post(), "k"));
}

#[test]
fn thumbnails_are_asked_for_in_small() {
    assert_eq!(thumbnail_url("https://i0/a.png"), "https://i0/a.png.@512w.jpg");
    assert_eq!(thumbnail_url("https://i0/a.png.@512w.jpg"), "https://i0/a.png.@512w.jpg");
    assert_eq!(thumbnail_url(""), ".@512w.jpg");
}

#[test]
fn a_failed_upload_falls_back_to_the_stand_in() {
    assert_eq!(
        get_dynamic_thumbnail_image_key(None),
        "img_v2_1f156161-3ffa-40f7-9d28-9621cc5ed2cg"
    );
    assert_eq!(get_dynamic_thumbnail_image_key(Some("img_v2_x".to_string())), "img_v2_x");
}

#[test]
fn a_categorized_video_shows_its_category() {
    let body = vec![note("a"), Block::Rule, note("c"), note("d")];
    assert_eq!(
        video_to_accepted(body, "音乐".to_string()),
        vec![note("a"), Block::Markdown { content: "✔️ 已接受，分类：音乐".to_string() }, note("c")]
    );
}

#[test]
fn an_accepted_post_shows_that_it_was_accepted() {
    let body = vec![note("a"), Block::Rule, note("c")];
    assert_eq!(
        dynamic_to_ok(body),
        vec![note("a"), Block::Markdown { content: "✔️ 已接受".to_string() }, note("c")]
    );
}

#[test]
fn a_wrapped_card_is_wide() {
    let card = wrap_card_body(vec![note("a")]);
    assert!(card.wide_screen_mode);
    assert_eq!(card.elements, vec![note("a")]);
}

#[test]
fn merged_bodies_are_separated_by_rules() {
    let merged = merge_body(vec![
        vec![note("a1"), note("a2")],
        vec![note("b1")],
        vec![],
        vec![note("d1")],
    ]);
    assert_eq!(
        merged,
        vec![note("a1"), note("a2"), Block::Rule, note("b1"), Block::Rule, Block::Rule, note("d1")]
    );
    assert!(merge_body(vec![]).is_empty());
    assert_eq!(merge_body(vec![vec![note("x")]]), vec![note("x")]);
}

#[test]
fn copies_are_equal() {
    let body = vec![
        Block::Select {
            placeholder: "p".to_string(),
            bvid: "b".to_string(),
            options: vec!["x".to_string(), "y".to_string()],
        },
        Block::Other { value: serde_json::from_str("{\"tag\":\"img\"}").unwrap() },
        Block::Rule,
    ];
    assert_eq!(copy_body(&body), body);
    assert_eq!(body[0].duplicate(), body[0]);
}

#[test]
fn blocks_are_built_from_the_texts_they_are_given() {
    assert_eq!(
        asoul_weekly::biz::cards::footnote_of("2021-07-23 11:40:28"),
        note("发布于 2021-07-23 11:40:28")
    );
    assert_eq!(
        asoul_weekly::biz::cards::video_info_block(&a_video(), "T", "k"),
        Block::Info {
            content: "[▷T](https://www.bilibili.com/video/BV1xx411c7mD)\nBV1xx411c7mD UP：某UP\n播放 12345  评论 67  弹幕 8  长度 3:05".to_string(),
            img_key: "k".to_string(),
            alt: "视频封面".to_string(),
        }
    );
    let (info, button) = asoul_weekly::biz::cards::dynamic_blocks(&a_post(), "T", "k");
    assert_eq!(
        info,
        Block::Info {
            content: "[画师 (2 图)](https://t.bilibili.com/555109649540124338)\nT".to_string(),
            img_key: "k".to_string(),
            alt: "第一张图".to_string(),
        }
    );
    assert_eq!(
        button,
        Block::Button {
            label: "选入今日二创".to_string(),
            dynamic_id: "555109649540124338".to_string(),
        }
    );
}

#[test]
fn every_picture_of_a_post_has_its_thumbnail() {
    let mut post = a_post();
    post.inner.pictures[1].src = "https://i0/b.png.@512w.jpg".to_string();
    assert_eq!(
        asoul_weekly::biz::cards::thumbnail_urls(&post),
        vec!["https://i0/a.png.@512w.jpg".to_string(), "https://i0/b.png.@512w.jpg".to_string()]
    );
    post.inner.pictures.clear();
    assert!(asoul_weekly::biz::cards::thumbnail_urls(&post).is_empty());
}
