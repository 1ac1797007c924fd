//! The daily article: the fixed parts of its markup and the way its
//! sections are put together.
use crate::biz::summary::Bucket;
use crate::keyed::{first_with, lemma_first_with};
use crate::localtime::{
    calendar_day_number, day_number, format_local, local_day_number, local_weekday,
    shanghai_day_number, shanghai_text, shanghai_weekday,
};
use crate::order::{sort_by_rank, sorted_by_rank, Ranked};
use crate::pattern::{regex_accepts, regex_replaced, replace_all};
use crate::text::{decimal, decimal_spec, push_decimal, push_signed_decimal, signed_decimal_spec, str_eq};
use crate::zhuanlan::cards::Cards;
use crate::zhuanlan::items::{element_views, texts_of, Element, ElementView};
use vstd::prelude::*;
use vstd::string::*;

verus! {

/// The words that open every issue.
pub const INTRODUCTION: &'static str = r#"
            <p style="text-align: center;">
                <span class="color-gray-01 font-size-12">
                一个魂们早上好呀！这里是枝江日报~本报旨在归纳前一天发生的A-SOUL相关各种资讯和二创内容，希望方便一个魂们快速浏览A-SOUL动态和二创内容。
                </span>
            </p>"#;

/// A hint on how to use the site.
pub const USAGE_HINT: &'static str = r#"
            <p style="text-align: center;">
                <span class="color-gray-01 font-size-12">
                B站功能提示：① 向左滑动/点击右下角菜单可以查看之前的日报；② 长按点赞按钮可以一键三连。
                    </span>
            </p>"#;

/// Where the editor puts the banner of the issue.
pub const BANNER_NOTE: &'static str = r#"【替换这里为版头】"#;

/// The banner of the section on the members.
pub const MEMBERS_BANNER: &'static str = r#"
            <figure class="img-box img-seamless" contenteditable="false">
            <img src="//article.biliimg.com/bfs/article/48b650e9c9a23a594c674e595c94011b0e93af52.jpg" width="1280" height="600" data-size="86603" class="seamless" type="seamlessImage">
            </figure>
            "#;

/// Where the editor puts the news of the members.
pub const MEMBERS_NOTE: &'static str = r#"【替换这里为成员动态】"#;

/// The line that ends a section of the header.
pub const DIVIDER: &'static str = r#"
            <figure class="img-box" contenteditable="false">
            <img src="//i0.hdslb.com/bfs/article/02db465212d3c374a43c60fa2625cc1caeaab796.png" class="cut-off-6">
            </figure>"#;

/// The banner of the section on live broadcasts.
pub const LIVE_BANNER: &'static str = r#"
            <figure class="img-box img-seamless" contenteditable="false">
            <img src="//article.biliimg.com/bfs/article/843ea70a852bdea9a3536c456ff28376eaef9746.jpg" width="1280" height="600" data-size="86603" class="seamless" type="seamlessImage">
            </figure>
            "#;

/// Where the editor puts the news of the broadcasts.
pub const LIVE_NOTE: &'static str = r#"【替换这里为直播动态，如切片GIF等，没有直播就删掉】"#;

/// The banner of the section on videos.
pub const VIDEO_BANNER: &'static str = r#"
        <figure class="img-box" contenteditable="false">
            <img src="//article.biliimg.com/bfs/article/765b627af2487507cd4cb70db903ead4c6915f37.jpg" width="1280" height="600" data-size="127959">
            <figcaption class="caption" contenteditable=""></figcaption>
        </figure>"#;

/// The line that ends the section on videos.
pub const VIDEO_DIVIDER: &'static str = r#"
        <figure class="img-box" contenteditable="false">
        <img src="//i0.hdslb.com/bfs/article/02db465212d3c374a43c60fa2625cc1caeaab796.png" class="cut-off-6">
        </figure>
        "#;

/// The banner of the section on picture posts.
pub const DYNAMIC_BANNER: &'static str = r#"
        <figure class="img-box img-seamless" contenteditable="false">
            <img src="//article.biliimg.com/bfs/article/3f3eefbdeaf0d15f1bf5e37dee7462734263fb7d.jpg" width="1280" height="600" data-size="113238" class="seamless" type="seamlessImage">
        </figure>"#;

/// The line before the closing words.
pub const ENDING_DIVIDER: &'static str = r#"
        <figure class="img-box" contenteditable="false">
            <img src="//i0.hdslb.com/bfs/article/02db465212d3c374a43c60fa2625cc1caeaab796.png" class="cut-off-6">
        </figure>"#;

/// The closing words of every issue.
pub const CLOSING_WORDS: &'static str = r#"
                受B站专栏格式和人力限制，部分优秀二创内容无法展示完全。如果您看到有任何我们遗漏的内容，欢迎一个魂们踊跃向 @ASOUL周报 投稿内容！
                如果对枝江日报有什么好的意见和建议也可以通过私信直接向我们反馈，我们也深知目前还有很多不完善和需要改进的地方，会努力越做越好的！
            "#;

/// The call to take part in the creators' event, up to the number of days
/// that are left.
pub const EVENT_CALL_HEAD: &'static str = r#"
                <p style="text-align: center;">二创作者记得带上tag <strong><span class="color-yellow-04">#A-SOUL二创激励计划#</span></strong>&nbsp;参与活动</p>
                <p style="text-align: center;">活动将于&nbsp;2022年1月5日（"#;

/// The call to take part in the creators' event, from the number of days
/// that are left.
pub const EVENT_CALL_TAIL: &'static str = r#"天后）结束</p>
                <figure class="img-box" contenteditable="false"><img src="//article.biliimg.com/bfs/article/card/70584df3f930b1869475527a9e0fe347499dcb98.png" width="1320" height="224" data-size="33777" aid="13871002" class="article-card" type="normal"></figure><p><br></p>
                "#;

/// A footnote, up to its text.
pub const FOOTNOTE_HEAD: &'static str = r#"
            <p style="text-align: right;">
                <span class="color-gray-01 font-size-12">
                "#;

/// A footnote, from its text.
pub const FOOTNOTE_TAIL: &'static str = r#"
                </span>
            </p>"#;

/// The pattern for a line break with the white space around it.
pub open spec fn strip_pattern() -> Seq<char> {
    "\\s*\\n\\s*"@
}

/// `s` without its line breaks and the white space around them.
pub open spec fn stripped(s: Seq<char>) -> Seq<char> {
    regex_replaced(strip_pattern(), s, ""@)
}

/// Removes every line break from `s`, together with the white space
/// around it. `None` only where the pattern is not accepted.
pub fn strip(s: &str) -> (r: Option<String>)
    ensures
        r is Some <==> regex_accepts(strip_pattern()),
        r matches Some(out) ==> out@ == stripped(s@),
{
    replace_all("\\s*\\n\\s*", s, "")
}

fn raw_stripped(s: &str) -> (r: Option<Element>)
    ensures
        r is Some <==> regex_accepts(strip_pattern()),
        r matches Some(e) ==> e@ == ElementView::Raw(stripped(s@)),
{
    match strip(s) {
        Some(text) => Some(Element::raw(text)),
        None => None,
    }
}

/// The year, month and day on which the creators' event ends.
pub const EVENT_END_YEAR: i32 = 2022;

pub const EVENT_END_MONTH: u32 = 1;

pub const EVENT_END_DAY: u32 = 5;

/// The call to take part in the creators' event, `days` days before its
/// end.
pub open spec fn event_call(days: int) -> Seq<char> {
    stripped(EVENT_CALL_HEAD@ + signed_decimal_spec(days) + EVENT_CALL_TAIL@)
}

/// The header of an issue that appears `event_remain` days before the end
/// of the creators' event: introduction and banner, the call to take part
/// while the event runs, then the sections on the members and on live
/// broadcasts, left for the editor to fill.
pub open spec fn header_spec(event_remain: int) -> Seq<ElementView> {
    seq![
        ElementView::Raw(stripped(INTRODUCTION@)),
        ElementView::Raw(stripped(USAGE_HINT@)),
        ElementView::Spacer,
        ElementView::BlockQuote { text: stripped(BANNER_NOTE@) },
    ] + (if event_remain > 0 {
        seq![ElementView::Raw(event_call(event_remain))]
    } else {
        Seq::empty()
    }) + seq![
        ElementView::Raw(stripped(MEMBERS_BANNER@)),
        ElementView::Spacer,
        ElementView::BlockQuote { text: MEMBERS_NOTE@ },
        ElementView::Spacer,
        ElementView::Raw(stripped(DIVIDER@)),
        ElementView::Raw(stripped(LIVE_BANNER@)),
        ElementView::Spacer,
        ElementView::BlockQuote { text: LIVE_NOTE@ },
        ElementView::Spacer,
        ElementView::Raw(stripped(DIVIDER@)),
    ]
}

/// The header of an issue that appears `event_remain` days before the end
/// of the creators' event. `None` only where the pattern of [`strip`] is
/// not accepted.
pub fn header_for(event_remain: i64) -> (r: Option<Vec<Element>>)
    ensures
        r is Some <==> regex_accepts(strip_pattern()),
        r matches Some(v) ==> element_views(v@) == header_spec(event_remain as int),
{
    let mut ret: Vec<Element> = Vec::new();
    ret.push(raw_stripped(INTRODUCTION)?);
    ret.push(raw_stripped(USAGE_HINT)?);
    ret.push(Element::spacer());
    ret.push(Element::block_quote(strip(BANNER_NOTE)?));
    if event_remain > 0 {
        let mut call = String::from_str(EVENT_CALL_HEAD);
        push_signed_decimal(&mut call, event_remain);
        call.append(EVENT_CALL_TAIL);
        ret.push(raw_stripped(call.as_str())?);
    }
    ret.push(raw_stripped(MEMBERS_BANNER)?);
    ret.push(Element::spacer());
    ret.push(Element::block_quote(String::from_str(MEMBERS_NOTE)));
    ret.push(Element::spacer());
    ret.push(raw_stripped(DIVIDER)?);
    ret.push(raw_stripped(LIVE_BANNER)?);
    ret.push(Element::spacer());
    ret.push(Element::block_quote(String::from_str(LIVE_NOTE)));
    ret.push(Element::spacer());
    ret.push(raw_stripped(DIVIDER)?);
    proof {
        assert(element_views(ret@) =~= header_spec(event_remain as int));
    }
    Some(ret)
}

/// The number of days from the Shanghai calendar day of the instant `date`
/// to the end of the creators' event.
pub open spec fn event_remain_spec(date: int) -> Option<int> {
    match (calendar_day_number(2022, 1, 5), shanghai_day_number(date)) {
        (Some(end), Some(today)) => Some(end - today),
        _ => None,
    }
}

/// The header of the issue of the instant `date`. `None` where the
/// instant is outside the range of the calendar, or the pattern of
/// [`strip`] is not accepted.
pub fn header(date: i64) -> (r: Option<Vec<Element>>)
    ensures
        r is Some <==> event_remain_spec(date as int) is Some && regex_accepts(strip_pattern()),
        r matches Some(v) ==> element_views(v@) == header_spec(event_remain_spec(date as int)->0),
{
    let end = day_number(EVENT_END_YEAR, EVENT_END_MONTH, EVENT_END_DAY)?;
    let today = local_day_number(date)?;
    header_for(end as i64 - today as i64)
}

/// The banner that opens the section on videos.
pub fn video_header() -> (r: Option<Vec<Element>>)
    ensures
        r is Some <==> regex_accepts(strip_pattern()),
        r matches Some(v) ==> element_views(v@) == seq![ElementView::Raw(stripped(VIDEO_BANNER@))],
{
    let mut ret: Vec<Element> = Vec::new();
    ret.push(raw_stripped(VIDEO_BANNER)?);
    proof {
        assert(element_views(ret@) =~= seq![ElementView::Raw(stripped(VIDEO_BANNER@))]);
    }
    Some(ret)
}

/// The line that closes the section on videos.
pub fn video_end() -> (r: Option<Vec<Element>>)
    ensures
        r is Some <==> regex_accepts(strip_pattern()),
        r matches Some(v) ==> element_views(v@) == seq![ElementView::Raw(stripped(VIDEO_DIVIDER@))],
{
    let mut ret: Vec<Element> = Vec::new();
    ret.push(raw_stripped(VIDEO_DIVIDER)?);
    proof {
        assert(element_views(ret@) =~= seq![ElementView::Raw(stripped(VIDEO_DIVIDER@))]);
    }
    Some(ret)
}

/// The banner that opens the section on picture posts.
pub fn dynamic_header() -> (r: Option<Vec<Element>>)
    ensures
        r is Some <==> regex_accepts(strip_pattern()),
        r matches Some(v) ==> element_views(v@) == seq![ElementView::Raw(stripped(DYNAMIC_BANNER@))],
{
    let mut ret: Vec<Element> = Vec::new();
    ret.push(raw_stripped(DYNAMIC_BANNER)?);
    proof {
        assert(element_views(ret@) =~= seq![ElementView::Raw(stripped(DYNAMIC_BANNER@))]);
    }
    Some(ret)
}

/// A footnote with the text `text`.
pub open spec fn footnote_spec(text: Seq<char>) -> ElementView {
    ElementView::Raw(stripped(FOOTNOTE_HEAD@ + text + FOOTNOTE_TAIL@))
}

fn footnote(text: &str) -> (r: Option<Element>)
    ensures
        r is Some <==> regex_accepts(strip_pattern()),
        r matches Some(e) ==> e@ == footnote_spec(text@),
{
    let mut s = String::from_str(FOOTNOTE_HEAD);
    s.append(text);
    s.append(FOOTNOTE_TAIL);
    raw_stripped(s.as_str())
}

/// The closing words of an issue.
pub open spec fn closing_thanks() -> Seq<char> {
    "以上就是本期日报的全部内容啦！"@
}

/// Who made the issue.
pub open spec fn credits() -> Seq<char> {
    "编辑：@大头大头大 | 二创筛选：@SkyBigBlack | 美工：@GhrotHHH"@
}

/// Where the editor names the writers of the issue.
pub open spec fn writers_note() -> Seq<char> {
    "日报文案：【】|  GIF制作：【】"@
}

/// The ending of an issue that the build `build_info` of the program put
/// together.
pub open spec fn ending_spec(build_info: Seq<char>) -> Seq<ElementView> {
    seq![
        ElementView::Raw(stripped(ENDING_DIVIDER@)),
        ElementView::Text {
            center: true,
            strong: false,
            classes: seq!["font-size-16"@],
            text: closing_thanks(),
        },
        ElementView::Text {
            center: false,
            strong: false,
            classes: seq!["font-size-16"@],
            text: stripped(CLOSING_WORDS@),
        },
        footnote_spec("自动化：asoul-weekly "@ + build_info),
        footnote_spec(credits()),
        footnote_spec(writers_note()),
    ]
}

fn one_class(class: &str) -> (v: Vec<String>)
    ensures
        texts_of(v@) == seq![class@],
{
    let mut v: Vec<String> = Vec::new();
    v.push(String::from_str(class));
    proof {
        assert(texts_of(v@) =~= seq![class@]);
    }
    v
}

/// The ending of an issue: a dividing line, the closing words and the
/// footnotes, the first of which names the build of the program. `None`
/// only where the pattern of [`strip`] is not accepted.
pub fn ending(build_info: &str) -> (r: Option<Vec<Element>>)
    ensures
        r is Some <==> regex_accepts(strip_pattern()),
        r matches Some(v) ==> element_views(v@) == ending_spec(build_info@),
{
    let mut made_by = String::from_str("自动化：asoul-weekly ");
    made_by.append(build_info);
    let mut ret: Vec<Element> = Vec::new();
    ret.push(raw_stripped(ENDING_DIVIDER)?);
    ret.push(
        Element::Text {
            center: true,
            strong: false,
            classes: one_class("font-size-16"),
            text: String::from_str("以上就是本期日报的全部内容啦！"),
        },
    );
    ret.push(
        Element::Text {
            center: false,
            strong: false,
            classes: one_class("font-size-16"),
            text: strip(CLOSING_WORDS)?,
        },
    );
    ret.push(footnote(made_by.as_str())?);
    ret.push(footnote("编辑：@大头大头大 | 二创筛选：@SkyBigBlack | 美工：@GhrotHHH")?);
    ret.push(footnote("日报文案：【】|  GIF制作：【】")?);
    proof {
        assert(element_views(ret@) =~= ending_spec(build_info@));
    }
    Some(ret)
}

/// The name of a day of the week, Monday being 1; Sunday for 7 and for
/// every other number.
pub open spec fn weekday_name(day: int) -> Seq<char> {
    if day == 1 {
        "星期一"@
    } else if day == 2 {
        "星期二"@
    } else if day == 3 {
        "星期三"@
    } else if day == 4 {
        "星期四"@
    } else if day == 5 {
        "星期五"@
    } else if day == 6 {
        "星期六"@
    } else {
        "星期日"@
    }
}

/// The name of a day of the week, Monday being 1.
pub fn weekday_text(day: u32) -> (r: &'static str)
    ensures
        r@ == weekday_name(day as int),
{
    if day == 1 {
        "星期一"
    } else if day == 2 {
        "星期二"
    } else if day == 3 {
        "星期三"
    } else if day == 4 {
        "星期四"
    } else if day == 5 {
        "星期五"
    } else if day == 6 {
        "星期六"
    } else {
        "星期日"
    }
}

/// The pattern under which the date of an issue is written.
pub open spec fn issue_date_pattern() -> Seq<char> {
    "%m 月 %d 日"@
}

/// The date of the issue of the instant `t`: month and day in Shanghai,
/// then the day of the week.
pub open spec fn date_string_spec(t: int) -> Option<Seq<char>> {
    match (shanghai_text(t, issue_date_pattern()), shanghai_weekday(t)) {
        (Some(date), Some(day)) => Some(date + " "@ + weekday_name(day)),
        _ => None,
    }
}

/// The date of an issue, `date` being month and day as they are written
/// and `day` the day of the week, Monday being 1.
pub fn issue_date(date: &str, day: u32) -> (r: String)
    ensures
        r@ == date@ + " "@ + weekday_name(day as int),
{
    let mut out = String::from_str(date);
    out.append(" ");
    out.append(weekday_text(day));
    out
}

/// The date of the issue of the instant `t`, as the title shows it. `None`
/// where the instant is outside the range of the calendar.
pub fn date_string(t: i64) -> (r: Option<String>)
    ensures
        r is Some <==> date_string_spec(t as int) is Some,
        r matches Some(s) ==> date_string_spec(t as int) == Some(s@),
{
    let date = format_local(t, "%m 月 %d 日")?;
    let day = local_weekday(t)?;
    Some(issue_date(date.as_str(), day))
}

/// The title of the issue whose date is written `date`.
pub fn issue_title(date: &str) -> (r: String)
    ensures
        r@ == "枝江日报（"@ + date@ + "）"@,
{
    let mut out = String::from_str("枝江日报（");
    out.append(date);
    out.append("）");
    out
}

/// The place of a category in the section on videos: the lower, the
/// earlier. A category that is not listed comes last.
pub open spec fn weight_of(category: Seq<char>) -> int {
    if category == "A-SOUL一周年庆祝"@ {
        -2
    } else if category == "乃琳50万粉祝贺"@ {
        -1
    } else if category == "音乐"@ {
        0
    } else if category == "舞蹈"@ {
        1
    } else if category == "手书"@ {
        2
    } else if category == "手书/动画"@ {
        2
    } else if category == "精剪混剪"@ {
        3
    } else if category == "MMD"@ {
        4
    } else if category == "发病"@ {
        5
    } else if category == "鬼畜/整活"@ {
        6
    } else if category == "炸厨房"@ {
        7
    } else if category == "其他"@ {
        8
    } else {
        99999
    }
}

/// The place of a category in the section on videos.
pub fn weight(category: &str) -> (w: i64)
    ensures
        w == weight_of(category@),
{
    if str_eq(category, "A-SOUL一周年庆祝") {
        -2
    } else if str_eq(category, "乃琳50万粉祝贺") {
        -1
    } else if str_eq(category, "音乐") {
        0
    } else if str_eq(category, "舞蹈") {
        1
    } else if str_eq(category, "手书") {
        2
    } else if str_eq(category, "手书/动画") {
        2
    } else if str_eq(category, "精剪混剪") {
        3
    } else if str_eq(category, "MMD") {
        4
    } else if str_eq(category, "发病") {
        5
    } else if str_eq(category, "鬼畜/整活") {
        6
    } else if str_eq(category, "炸厨房") {
        7
    } else if str_eq(category, "其他") {
        8
    } else {
        99999
    }
}

impl Ranked for Bucket {
    open spec fn rank(&self) -> int {
        weight_of(self.category@)
    }

    fn rank_value(&self) -> (t: i64) {
        weight(self.category.as_str())
    }
}

/// Puts the categories of the section on videos in their order: by
/// weight, categories of the same weight as they came.
pub fn order_categories(buckets: Vec<Bucket>) -> (r: Vec<Bucket>)
    ensures
        r@ == sorted_by_rank(buckets@),
{
    sort_by_rank(buckets)
}

/// The heading of a category in the section on videos.
pub fn category_heading(category: &str) -> (e: Element)
    ensures
        e@ == (ElementView::Text {
            center: false,
            strong: true,
            classes: seq!["color-blue-02"@, "font-size-20"@],
            text: category@,
        }),
{
    let mut classes: Vec<String> = Vec::new();
    classes.push(String::from_str("color-blue-02"));
    classes.push(String::from_str("font-size-20"));
    proof {
        assert(texts_of(classes@) =~= seq!["color-blue-02"@, "font-size-20"@]);
    }
    Element::Text { center: false, strong: true, classes, text: String::from_str(category) }
}

/// The numeric ids of those of the videos `bvids` that the site still
/// knows, in the order of `bvids`.
pub open spec fn aids_spec(bvids: Seq<String>, cards: Cards) -> Seq<Seq<char>>
    decreases bvids.len(),
{
    if bvids.len() == 0 {
        Seq::empty()
    } else {
        let before = aids_spec(bvids.drop_last(), cards);
        match first_with(cards.map@, bvids.last()@) {
            Some(i) => before.push(decimal_spec(cards.map@[i].card.aid as nat)),
            None => before,
        }
    }
}

/// Looks up the numeric ids of the videos `bvids`; a video that was
/// deleted has none and is left out.
pub fn aids_of(bvids: &Vec<String>, cards: &Cards) -> (r: Vec<String>)
    ensures
        texts_of(r@) == aids_spec(bvids@, *cards),
{
    let mut out: Vec<String> = Vec::new();
    let mut i: usize = 0;
    while i < bvids.len()
        invariant
            i <= bvids.len(),
            texts_of(out@) == aids_spec(bvids@.take(i as int), *cards),
        decreases bvids.len() - i,
    {
        proof {
            assert(bvids@.take(i as int + 1).drop_last() =~= bvids@.take(i as int));
            assert(bvids@.take(i as int + 1).last() == bvids@[i as int]);
            lemma_first_with(cards.map@, bvids@[i as int]@);
        }
        match cards.get(bvids[i].as_str()) {
            Some(card) => {
                let ghost before = out@;
                out.push(decimal(card.aid));
                proof {
                    assert(texts_of(out@) =~= texts_of(before).push(decimal_spec(card.aid as nat)));
                }
            },
            None => {},
        }
        i += 1;
    }
    proof {
        assert(bvids@.take(bvids@.len() as int) =~= bvids@);
    }
    out
}

/// The cover that a video card is drafted with; the site puts the real
/// one in its place when the article is published.
pub open spec fn placeholder_cover() -> Seq<char> {
    "https://i0.hdslb.com/bfs/article/card/fb4e1d78b966962a8b94037f4accb6a5ff5f3067.png"@
}

/// The card that links to the videos `aids`; none where no video is left.
pub fn video_link(aids: Vec<String>) -> (r: Option<Element>)
    ensures
        r is Some <==> aids@.len() > 0,
        r matches Some(e) ==> e@ == (ElementView::VideoLink {
            cover: placeholder_cover(),
            width: 1320,
            height: 192,
            data_size: 61801,
            aids: texts_of(aids@),
        }),
{
    if aids.len() == 0 {
        return None;
    }
    Some(
        Element::VideoLink {
            cover: String::from_str(
                "https://i0.hdslb.com/bfs/article/card/fb4e1d78b966962a8b94037f4accb6a5ff5f3067.png",
            ),
            width: 1320,
            height: 192,
            data_size: 61801,
            aids,
        },
    )
}

/// The line under the picture of a post, which leads to the post.
pub open spec fn post_link(url: Seq<char>, uname: Seq<char>, pictures: nat) -> Seq<char> {
    "<p style=\"text-align: right;\"><a href=\""@ + url
        + "\"><span class=\"color-gray-02 font-size-12\">↑ @"@ + uname + "（"@ + decimal_spec(
        pictures,
    ) + "图）点我跳转原作品动态  &gt</span></a></p>"@
}

/// The two elements that show a picture post in the article: its first
/// picture, of the size `size` in bytes and shown `width` by `height`, and
/// a line that leads to the post at `url` by `uname` with `pictures`
/// pictures.
pub fn dynamic_elements(
    src: String,
    width: usize,
    height: usize,
    size: usize,
    url: &str,
    uname: &str,
    pictures: u64,
) -> (r: Vec<Element>)
    ensures
        element_views(r@) == seq![
            ElementView::Figure {
                src: src@,
                width: width as nat,
                height: height as nat,
                data_size: size as nat,
                caption: ""@,
            },
            ElementView::Raw(post_link(url@, uname@, pictures as nat)),
        ],
{
    let mut link = String::from_str("<p style=\"text-align: right;\"><a href=\"");
    link.append(url);
    link.append("\"><span class=\"color-gray-02 font-size-12\">↑ @");
    link.append(uname);
    link.append("（");
    push_decimal(&mut link, pictures);
    link.append("图）点我跳转原作品动态  &gt</span></a></p>");
    let ghost src_text = src@;
    let mut out: Vec<Element> = Vec::new();
    out.push(Element::figure(src, width, height, size, String::from_str("")));
    out.push(Element::raw(link));
    proof {
        assert(element_views(out@) =~= seq![
            ElementView::Figure {
                src: src_text,
                width: width as nat,
                height: height as nat,
                data_size: size as nat,
                caption: ""@,
            },
            ElementView::Raw(post_link(url@, uname@, pictures as nat)),
        ]);
    }
    out
}

} // verus!
