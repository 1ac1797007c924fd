use asoul_weekly::article::{
    aids_of, category_heading, date_string, dynamic_elements, dynamic_header, ending, header,
    header_for, issue_title, order_categories, strip, video_end, video_header, video_link, weight,
    weekday_text,
};
use asoul_weekly::biz::summary::Bucket;
use asoul_weekly::zhuanlan::cards::{Card, CardEntry, Cards};
use asoul_weekly::zhuanlan::items::Element;

fn bucket(category: &str) -> Bucket {
    Bucket { category: category.to_string(), ids: vec![] }
}

#[test]
fn test_date() {
    let t = chrono::DateTime::parse_from_rfc3339("2021-10-13T11:25:00+08:00").unwrap();
    let t = t.with_timezone(&chrono::Utc);
    assert_eq!(date_string(t.timestamp()).unwrap(), "10 月 13 日 星期三")
}

#[test]
fn the_date_of_an_issue_goes_by_shanghai() {
    // 2021-07-23 16:00:00 UTC is Saturday the 24th in Shanghai
    assert_eq!(date_string(1627056000), Some("07 月 24 日 星期六".to_string()));
    assert_eq!(date_string(1627055999), Some("07 月 23 日 星期五".to_string()));
    assert_eq!(date_string(i64::MAX), None);
}

#[test]
fn days_of_the_week_have_their_names() {
    let names: Vec<&str> = (1..=7).map(weekday_text).collect();
    assert_eq!(names, vec!["星期一", "星期二", "星期三", "星期四", "星期五", "星期六", "星期日"]);
}

#[test]
fn the_title_holds_the_date() {
    assert_eq!(issue_title("10 月 13 日 星期三"), "枝江日报（10 月 13 日 星期三）");
}

#[test]
fn strip_removes_breaks_and_the_space_around_them() {
    assert_eq!(strip("  a \n   b\n\nc  "), Some("  abc  ".to_string()));
    assert_eq!(strip("no break"), Some("no break".to_string()));
    assert_eq!(strip("\n<p>\n  x\n</p>"), Some("<p>x</p>".to_string()));
}

#[test]
fn the_sections_open_with_their_banners() {
    assert_eq!(
        video_header().unwrap(),
        vec![Element::Raw("<figure class=\"img-box\" contenteditable=\"false\"><img src=\"//article.biliimg.com/bfs/article/765b627af2487507cd4cb70db903ead4c6915f37.jpg\" width=\"1280\" height=\"600\" data-size=\"127959\"><figcaption class=\"caption\" contenteditable=\"\"></figcaption></figure>".to_string())]
    );
    assert_eq!(
        video_end().unwrap(),
        vec![Element::Raw("<figure class=\"img-box\" contenteditable=\"false\"><img src=\"//i0.hdslb.com/bfs/article/02db465212d3c374a43c60fa2625cc1caeaab796.png\" class=\"cut-off-6\"></figure>".to_string())]
    );
    assert_eq!(
        dynamic_header().unwrap(),
        vec![Element::Raw("<figure class=\"img-box img-seamless\" contenteditable=\"false\"><img src=\"//article.biliimg.com/bfs/article/3f3eefbdeaf0d15f1bf5e37dee7462734263fb7d.jpg\" width=\"1280\" height=\"600\" data-size=\"113238\" class=\"seamless\" type=\"seamlessImage\"></figure>".to_string())]
    );
}

#[test]
fn the_header_calls_to_the_event_while_it_runs() {
    let during = header_for(3).unwrap();
    assert_eq!(during.len(), 15);
    assert_eq!(during[2], Element::Spacer);
    assert_eq!(during[3], Element::BlockQuote { text: "【替换这里为版头】".to_string() });
    match &during[4] {
        Element::Raw(s) => {
            assert!(s.contains("活动将于&nbsp;2022年1月5日（3天后）结束"));
            assert!(!s.contains('\n'));
        }
        other => panic!("unexpected element {:?}", other),
    }
    assert_eq!(during[7], Element::BlockQuote { text: "【替换这里为成员动态】".to_string() });
    let after = header_for(0).unwrap();
    assert_eq!(after.len(), 14);
    assert_eq!(after[..4], during[..4]);
    assert_eq!(after[4..], during[5..]);
    assert_eq!(header_for(-5).unwrap(), after);
}

#[test]
fn the_header_counts_the_days_in_shanghai() {
    // 2021-12-31 16:00:00 UTC is the first of January in Shanghai
    let issue = header(1640966400).unwrap();
    assert_eq!(issue, header_for(4).unwrap());
    // 2022-01-04 16:00:00 UTC is the day on which the event ends
    assert_eq!(header(1641312000).unwrap(), header_for(0).unwrap());
    assert_eq!(header(1641311999).unwrap(), header_for(1).unwrap());
    assert!(header(i64::MAX).is_none());
}

#[test]
fn the_ending_names_the_build() {
    let end = ending("v0.1.0-abc").unwrap();
    assert_eq!(end.len(), 6);
    assert_eq!(
        end[1],
        Element::Text {
            center: true,
            strong: false,
            classes: vec!["font-size-16".to_string()],
            text: "以上就是本期日报的全部内容啦！".to_string(),
        }
    );
    assert_eq!(
        end[3],
        Element::Raw("<p style=\"text-align: right;\"><span class=\"color-gray-01 font-size-12\">自动化：asoul-weekly v0.1.0-abc</span></p>".to_string())
    );
    assert_eq!(
        end[5],
        Element::Raw("<p style=\"text-align: right;\"><span class=\"color-gray-01 font-size-12\">日报文案：【】|  GIF制作：【】</span></p>".to_string())
    );
}

#[test]
fn categories_have_their_weights() {
    assert_eq!(weight("A-SOUL一周年庆祝"), -2);
    assert_eq!(weight("乃琳50万粉祝贺"), -1);
    assert_eq!(weight("音乐"), 0);
    assert_eq!(weight("舞蹈"), 1);
    assert_eq!(weight("手书"), 2);
    assert_eq!(weight("手书/动画"), 2);
    assert_eq!(weight("精剪混剪"), 3);
    assert_eq!(weight("MMD"), 4);
    assert_eq!(weight("发病"), 5);
    assert_eq!(weight("鬼畜/整活"), 6);
    assert_eq!(weight("炸厨房"), 7);
    assert_eq!(weight("其他"), 8);
    assert_eq!(weight("没听说过"), 99999);
}

#[test]
fn categories_are_put_in_order_of_weight() {
    let ordered = order_categories(vec![
        bucket("其他"),
        bucket("未知"),
        bucket("手书/动画"),
        bucket("音乐"),
        bucket("手书"),
        bucket("又一个"),
    ]);
    let names: Vec<&str> = ordered.iter().map(|b| b.category.as_str()).collect();
    assert_eq!(names, vec!["音乐", "手书/动画", "手书", "其他", "未知", "又一个"]);
}

#[test]
fn the_heading_of_a_category() {
    assert_eq!(
        category_heading("音乐").to_string(),
        "<p><strong><span class=\"color-blue-02 font-size-20\">音乐</span></strong></p>"
    );
}

#[test]
fn deleted_videos_have_no_numeric_id() {
    let cards = Cards {
        map: vec![
            CardEntry { bvid: "bv2".to_string(), card: Card { aid: 22, pic: "p".to_string() } },
            CardEntry { bvid: "bv1".to_string(), card: Card { aid: 11, pic: "p".to_string() } },
        ],
    };
    assert_eq!(cards.get("bv1").unwrap().aid, 11);
    assert!(cards.get("bv3").is_none());
    let bvids = vec!["bv1".to_string(), "bv3".to_string(), "bv2".to_string()];
    assert_eq!(aids_of(&bvids, &cards), vec!["11".to_string(), "22".to_string()]);
    assert!(aids_of(&vec!["bv3".to_string()], &cards).is_empty());
}

#[test]
fn a_video_card_needs_a_video() {
    assert_eq!(video_link(vec![]), None);
    assert_eq!(
        video_link(vec!["11".to_string()]),
        Some(Element::VideoLink {
            cover: "https://i0.hdslb.com/bfs/article/card/fb4e1d78b966962a8b94037f4accb6a5ff5f3067.png".to_string(),
            width: 1320,
            height: 192,
            data_size: 61801,
            aids: vec!["11".to_string()],
        })
    );
}

#[test]
fn a_post_is_shown_by_its_first_picture() {
    let shown = dynamic_elements(
        "https://i0.hdslb.com/a.png".to_string(),
        800,
        600,
        4096,
        "https://t.bilibili.com/555",
        "画师",
        3,
    );
    assert_eq!(
        shown,
        vec![
            Element::Figure {
                src: "https://i0.hdslb.com/a.png".to_string(),
                width: 800,
                height: 600,
                data_size: 4096,
                caption: "".to_string(),
            },
            Element::Raw("<p style=\"text-align: right;\"><a href=\"https://t.bilibili.com/555\"><span class=\"color-gray-02 font-size-12\">↑ @画师（3图）点我跳转原作品动态  &gt</span></a></p>".to_string()),
        ]
    );
}

#[test]
fn the_date_is_joined_with_the_day_of_the_week() {
    assert_eq!(asoul_weekly::article::issue_date("10 月 13 日", 3), "10 月 13 日 星期三");
    assert_eq!(asoul_weekly::article::issue_date("01 月 02 日", 7), "01 月 02 日 星期日");
}
