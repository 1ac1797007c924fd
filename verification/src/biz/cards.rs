//! Moderator cards: the blocks a card is made of, how one item is rendered
//! into its three-part body, and how bodies are merged into one message.
use crate::bilibili::tag_feed::{Dynamic, DynamicPicture, PictureDynamic};
use crate::bilibili::tag_videos::VideoInfo;
use crate::json::{json_of, JsonView};
use crate::localtime::{format_local, shanghai_text};
use crate::pattern::{regex_accepts, regex_replaced, replace_all};
use crate::text::{
    decimal, decimal_spec, ends_with, has_suffix, push_decimal, push_two_digits, two_digits_spec,
    widen_brackets, widen_brackets_spec,
};
use vstd::prelude::*;
use vstd::string::*;

verus! {

/// One element of a card body.
#[derive(Debug, Clone, PartialEq, Eq)]
pub enum Block {
    /// Text in the platform's markdown dialect with an image beside it.
    Info { content: String, img_key: String, alt: String },
    /// A drop-down that assigns a category to the video `bvid`.
    Select { placeholder: String, bvid: String, options: Vec<String> },
    /// A single button that accepts the picture post `dynamic_id`.
    Button { label: String, dynamic_id: String },
    /// A footnote in plain text.
    Note { content: String },
    /// A line of markdown.
    Markdown { content: String },
    /// A horizontal rule between two items of a batch.
    Rule,
    /// An element that this library does not interpret, kept as it is.
    Other { value: serde_json::Value },
}

/// What a [`Block`] holds, as mathematical text.
pub enum BlockView {
    Info { content: Seq<char>, img_key: Seq<char>, alt: Seq<char> },
    Select { placeholder: Seq<char>, bvid: Seq<char>, options: Seq<Seq<char>> },
    Button { label: Seq<char>, dynamic_id: Seq<char> },
    Note { content: Seq<char> },
    Markdown { content: Seq<char> },
    Rule,
    Other { value: JsonView },
}

/// The texts that a sequence of strings holds.
pub open spec fn texts(v: Seq<String>) -> Seq<Seq<char>> {
    v.map_values(|s: String| s@)
}

impl View for Block {
    type V = BlockView;

    open spec fn view(&self) -> BlockView {
        match *self {
            Block::Info { content, img_key, alt } => BlockView::Info {
                content: content@,
                img_key: img_key@,
                alt: alt@,
            },
            Block::Select { placeholder, bvid, options } => BlockView::Select {
                placeholder: placeholder@,
                bvid: bvid@,
                options: texts(options@),
            },
            Block::Button { label, dynamic_id } => BlockView::Button {
                label: label@,
                dynamic_id: dynamic_id@,
            },
            Block::Note { content } => BlockView::Note { content: content@ },
            Block::Markdown { content } => BlockView::Markdown { content: content@ },
            Block::Rule => BlockView::Rule,
            Block::Other { value } => BlockView::Other { value: json_of(value) },
        }
    }
}

/// The body of a card: its blocks from top to bottom.
pub type CardBody = Vec<Block>;

/// What a card body holds.
pub open spec fn body_view(body: Seq<Block>) -> Seq<BlockView> {
    body.map_values(|b: Block| b@)
}

/// What a list of card bodies holds.
pub open spec fn bodies_view(bodies: Seq<Vec<Block>>) -> Seq<Seq<BlockView>> {
    bodies.map_values(|b: Vec<Block>| body_view(b@))
}

/// A copy of a list of strings.
pub fn copy_texts(v: &Vec<String>) -> (r: Vec<String>)
    ensures
        texts(r@) == texts(v@),
{
    let mut r: Vec<String> = Vec::new();
    let mut i: usize = 0;
    while i < v.len()
        invariant
            i <= v.len(),
            r@.len() == i,
            forall|k: int| 0 <= k < i ==> r@[k]@ == v@[k]@,
        decreases v.len() - i,
    {
        r.push(v[i].clone());
        i += 1;
    }
    proof {
        assert(texts(r@) =~= texts(v@));
    }
    r
}

impl Block {
    /// A copy of this block.
    pub fn duplicate(&self) -> (r: Block)
        ensures
            r@ == self@,
    {
        match self {
            Block::Info { content, img_key, alt } => Block::Info {
                content: content.clone(),
                img_key: img_key.clone(),
                alt: alt.clone(),
            },
            Block::Select { placeholder, bvid, options } => Block::Select {
                placeholder: placeholder.clone(),
                bvid: bvid.clone(),
                options: copy_texts(options),
            },
            Block::Button { label, dynamic_id } => Block::Button {
                label: label.clone(),
                dynamic_id: dynamic_id.clone(),
            },
            Block::Note { content } => Block::Note { content: content.clone() },
            Block::Markdown { content } => Block::Markdown { content: content.clone() },
            Block::Rule => Block::Rule,
            Block::Other { value } => Block::Other { value: value.clone() },
        }
    }
}

/// A copy of a card body.
pub fn copy_body(body: &Vec<Block>) -> (r: Vec<Block>)
    ensures
        body_view(r@) == body_view(body@),
{
    let mut r: Vec<Block> = Vec::new();
    let mut i: usize = 0;
    while i < body.len()
        invariant
            i <= body.len(),
            r@.len() == i,
            forall|k: int| 0 <= k < i ==> r@[k]@ == body@[k]@,
        decreases body.len() - i,
    {
        r.push(body[i].duplicate());
        i += 1;
    }
    proof {
        assert(body_view(r@) =~= body_view(body@));
    }
    r
}

/// Why a card could not be rendered.
#[derive(Debug, PartialEq, Eq, Clone, Copy)]
pub enum RenderError {
    /// The pattern that tidies line breaks was not accepted.
    Pattern,
    /// The publish time lies outside the range of the calendar.
    Time,
}

/// The pattern for a line break followed by white space.
pub open spec fn newline_run() -> Seq<char> {
    "\n\\s+"@
}

/// `s` as it is shown inside card markdown: white space after a line break
/// is dropped, and brackets are replaced by their full-width forms so that
/// they cannot open or close a link.
pub open spec fn markdown_escape_spec(s: Seq<char>) -> Seq<char> {
    widen_brackets_spec(regex_replaced(newline_run(), s, "\n"@))
}

/// Makes free text safe to place inside card markdown.
///
/// Fails only where the line-break pattern is not accepted.
pub fn markdown_escape(s: &str) -> (r: Result<String, RenderError>)
    ensures
        r is Ok <==> regex_accepts(newline_run()),
        r matches Ok(out) ==> out@ == markdown_escape_spec(s@),
        r matches Err(e) ==> e == RenderError::Pattern,
{
    match replace_all("\n\\s+", s, "\n") {
        Some(collapsed) => Ok(widen_brackets(collapsed.as_str())),
        None => Err(RenderError::Pattern),
    }
}

/// The pattern under which a publish time is shown.
pub open spec fn stamp_pattern() -> Seq<char> {
    "%Y-%m-%d %H:%M:%S"@
}

/// The footnote of an item published at `stamp`.
pub open spec fn footnote_spec(stamp: Seq<char>) -> BlockView {
    BlockView::Note { content: "发布于 "@ + stamp }
}

/// The footnote of an item whose publish time is written `stamp`.
pub fn footnote_of(stamp: &str) -> (b: Block)
    ensures
        b@ == footnote_spec(stamp@),
{
    let mut content = String::from_str("发布于 ");
    content.append(stamp);
    Block::Note { content }
}

/// The footnote of a card: when the item was published, in Shanghai time.
pub fn footnote(publish_at: i64) -> (r: Result<Block, RenderError>)
    ensures
        r is Ok <==> shanghai_text(publish_at as int, stamp_pattern()) is Some,
        r matches Ok(b) ==> b@ == footnote_spec(shanghai_text(publish_at as int, stamp_pattern())->0),
        r matches Err(e) ==> e == RenderError::Time,
{
    match format_local(publish_at, "%Y-%m-%d %H:%M:%S") {
        Some(stamp) => Ok(footnote_of(stamp.as_str())),
        None => Err(RenderError::Time),
    }
}

/// The text of the first block of a video card, `title` being the title
/// as it is shown: a link to the video under its title, then the author
/// and the counters.
pub open spec fn video_intro_with(info: VideoInfo, title: Seq<char>) -> Seq<char> {
    "[▷"@ + title + "](https://www.bilibili.com/video/"@ + info.bvid@ + ")\n"@ + info.bvid@
        + " UP："@ + info.owner.name@ + "\n播放 "@ + decimal_spec(info.stat.view as nat)
        + "  评论 "@ + decimal_spec(info.stat.reply as nat) + "  弹幕 "@ + decimal_spec(
        info.stat.danmaku as nat,
    ) + "  长度 "@ + decimal_spec((info.duration_secs / 60) as nat) + ":"@ + two_digits_spec(
        (info.duration_secs % 60) as nat,
    )
}

/// The text of the first block of a video card.
pub open spec fn video_intro(info: VideoInfo) -> Seq<char> {
    video_intro_with(info, markdown_escape_spec(info.title@))
}

/// The information block of a video whose title is shown as `title`, with
/// the image `img_key` beside it.
pub fn video_info_block(info: &VideoInfo, title: &str, img_key: &str) -> (b: Block)
    ensures
        b@ == (BlockView::Info {
            content: video_intro_with(*info, title@),
            img_key: img_key@,
            alt: "视频封面"@,
        }),
{
    let mut intro = String::from_str("[▷");
    intro.append(title);
    intro.append("](https://www.bilibili.com/video/");
    intro.append(info.bvid.as_str());
    intro.append(")\n");
    intro.append(info.bvid.as_str());
    intro.append(" UP：");
    intro.append(info.owner.name.as_str());
    intro.append("\n播放 ");
    push_decimal(&mut intro, info.stat.view);
    intro.append("  评论 ");
    push_decimal(&mut intro, info.stat.reply);
    intro.append("  弹幕 ");
    push_decimal(&mut intro, info.stat.danmaku);
    intro.append("  长度 ");
    push_decimal(&mut intro, info.duration_secs / 60);
    intro.append(":");
    push_two_digits(&mut intro, info.duration_secs % 60);
    Block::Info {
        content: intro,
        img_key: String::from_str(img_key),
        alt: String::from_str("视频封面"),
    }
}

/// Renders the information block of a video; `img_key` is the key under
/// which the cover was uploaded to the chat platform.
pub fn video_basic_info(info: &VideoInfo, img_key: &str) -> (r: Result<Block, RenderError>)
    ensures
        r is Ok <==> regex_accepts(newline_run()),
        r matches Ok(b) ==> b@ == (BlockView::Info {
            content: video_intro(*info),
            img_key: img_key@,
            alt: "视频封面"@,
        }),
        r matches Err(e) ==> e == RenderError::Pattern,
{
    match markdown_escape(info.title.as_str()) {
        Ok(title) => Ok(video_info_block(info, title.as_str(), img_key)),
        Err(e) => Err(e),
    }
}

/// The footnote of a video card.
pub fn video_footnote(info: &VideoInfo) -> (r: Result<Block, RenderError>)
    ensures
        r is Ok <==> shanghai_text(info.publish_at as int, stamp_pattern()) is Some,
        r matches Ok(b) ==> b@ == footnote_spec(
            shanghai_text(info.publish_at as int, stamp_pattern())->0,
        ),
        r matches Err(e) ==> e == RenderError::Time,
{
    footnote(info.publish_at)
}

/// The action block of a video card: a drop-down with one option for each
/// category, which carries the video's id so that the choice can be
/// resolved later.
pub fn video_action(info: &VideoInfo, categories: &Vec<String>) -> (b: Block)
    ensures
        b@ == (BlockView::Select {
            placeholder: "选择分类"@,
            bvid: info.bvid@,
            options: texts(categories@),
        }),
{
    Block::Select {
        placeholder: String::from_str("选择分类"),
        bvid: info.bvid.clone(),
        options: copy_texts(categories),
    }
}

/// Renders the three-part body of a video card: information, action,
/// footnote.
pub fn video_info_to_card_body(info: &VideoInfo, img_key: &str, categories: &Vec<String>) -> (r:
    Result<CardBody, RenderError>)
    ensures
        r is Ok <==> regex_accepts(newline_run()) && shanghai_text(
            info.publish_at as int,
            stamp_pattern(),
        ) is Some,
        r matches Ok(body) ==> body_view(body@) == seq![
            BlockView::Info { content: video_intro(*info), img_key: img_key@, alt: "视频封面"@ },
            BlockView::Select {
                placeholder: "选择分类"@,
                bvid: info.bvid@,
                options: texts(categories@),
            },
            footnote_spec(shanghai_text(info.publish_at as int, stamp_pattern())->0),
        ],
        r matches Err(e) ==> e == (if regex_accepts(newline_run()) {
            RenderError::Time
        } else {
            RenderError::Pattern
        }),
{
    let basic = match video_basic_info(info, img_key) {
        Ok(b) => b,
        Err(e) => {
            return Err(e);
        },
    };
    let foot = match video_footnote(info) {
        Ok(b) => b,
        Err(e) => {
            return Err(e);
        },
    };
    let action = video_action(info, categories);
    let mut body: Vec<Block> = Vec::new();
    body.push(basic);
    body.push(action);
    body.push(foot);
    proof {
        assert(body_view(body@) =~= seq![basic@, action@, foot@]);
    }
    Ok(body)
}

/// The text of the first block of a picture card, `text` being the text
/// of the post as it is shown: a link to the post under the author's name
/// and the number of pictures, then the text.
pub open spec fn dynamic_intro_with(dynamic: Dynamic<PictureDynamic>, text: Seq<char>) -> Seq<char> {
    "["@ + dynamic.desc.user_profile.info.uname@ + " ("@ + decimal_spec(
        dynamic.inner.pictures@.len(),
    ) + " 图)](https://t.bilibili.com/"@ + decimal_spec(dynamic.desc.dynamic_id as nat) + ")\n"@
        + text
}

/// The text of the first block of a picture card.
pub open spec fn dynamic_intro(dynamic: Dynamic<PictureDynamic>) -> Seq<char> {
    dynamic_intro_with(dynamic, markdown_escape_spec(dynamic.inner.description@))
}

/// The first two blocks of a picture card, `text` being the text of the
/// post as it is shown: the post with the image `img_key` beside it, and
/// a button that accepts the post and carries its id.
pub fn dynamic_blocks(dynamic: &Dynamic<PictureDynamic>, text: &str, img_key: &str) -> (r: (
    Block,
    Block,
))
    ensures
        r.0@ == (BlockView::Info {
            content: dynamic_intro_with(*dynamic, text@),
            img_key: img_key@,
            alt: "第一张图"@,
        }),
        r.1@ == (BlockView::Button {
            label: "选入今日二创"@,
            dynamic_id: decimal_spec(dynamic.desc.dynamic_id as nat),
        }),
{
    let mut content = String::from_str("[");
    content.append(dynamic.desc.user_profile.info.uname.as_str());
    content.append(" (");
    push_decimal(&mut content, dynamic.inner.pictures.len() as u64);
    content.append(" 图)](https://t.bilibili.com/");
    push_decimal(&mut content, dynamic.desc.dynamic_id);
    content.append(")\n");
    content.append(text);
    let info = Block::Info {
        content,
        img_key: String::from_str(img_key),
        alt: String::from_str("第一张图"),
    };
    let button = Block::Button {
        label: String::from_str("选入今日二创"),
        dynamic_id: decimal(dynamic.desc.dynamic_id),
    };
    (info, button)
}

/// Renders the three-part body of a picture card: the post with its
/// thumbnail, a button that accepts it, and the footnote. `img_key` is the
/// key under which the thumbnail was uploaded to the chat platform.
pub fn dynamic_card(dynamic: &Dynamic<PictureDynamic>, img_key: &str) -> (r: Result<
    CardBody,
    RenderError,
>)
    ensures
        r is Ok <==> regex_accepts(newline_run()) && shanghai_text(
            dynamic.desc.timestamp as int,
            stamp_pattern(),
        ) is Some,
        r matches Ok(body) ==> body_view(body@) == seq![
            BlockView::Info { content: dynamic_intro(*dynamic), img_key: img_key@, alt: "第一张图"@ },
            BlockView::Button {
                label: "选入今日二创"@,
                dynamic_id: decimal_spec(dynamic.desc.dynamic_id as nat),
            },
            footnote_spec(shanghai_text(dynamic.desc.timestamp as int, stamp_pattern())->0),
        ],
        r matches Err(e) ==> e == (if regex_accepts(newline_run()) {
            RenderError::Time
        } else {
            RenderError::Pattern
        }),
{
    let text = match markdown_escape(dynamic.inner.description.as_str()) {
        Ok(t) => t,
        Err(e) => {
            return Err(e);
        },
    };
    let foot = match footnote(dynamic.desc.timestamp) {
        Ok(b) => b,
        Err(e) => {
            return Err(e);
        },
    };
    let (info, button) = dynamic_blocks(dynamic, text.as_str(), img_key);
    let mut body: Vec<Block> = Vec::new();
    body.push(info);
    body.push(button);
    body.push(foot);
    proof {
        assert(body_view(body@) =~= seq![info@, button@, foot@]);
    }
    Ok(body)
}

/// The image that stands in where no thumbnail could be uploaded.
pub open spec fn fallback_image_key() -> Seq<char> {
    "img_v2_1f156161-3ffa-40f7-9d28-9621cc5ed2cg"@
}

/// The ending that asks the picture service for a width of 512 pixels.
pub open spec fn thumbnail_suffix() -> Seq<char> {
    ".@512w.jpg"@
}

/// The address from which the thumbnail of a picture is fetched.
pub open spec fn thumbnail_url_spec(src: Seq<char>) -> Seq<char> {
    if has_suffix(src, thumbnail_suffix()) {
        src
    } else {
        src + thumbnail_suffix()
    }
}

/// The address from which the thumbnail of the picture at `src` is
/// fetched: `src` itself where it already asks for the small size, with
/// that request added otherwise.
pub fn thumbnail_url(src: &str) -> (r: String)
    ensures
        r@ == thumbnail_url_spec(src@),
{
    let mut url = String::from_str(src);
    if !ends_with(src, ".@512w.jpg") {
        url.append(".@512w.jpg");
    }
    url
}

/// The addresses from which the thumbnails of the pictures of a post are
/// fetched, picture by picture.
pub open spec fn thumbnail_urls_spec(dynamic: Dynamic<PictureDynamic>) -> Seq<Seq<char>> {
    dynamic.inner.pictures@.map_values(|p: DynamicPicture| thumbnail_url_spec(p.src@))
}

/// The addresses from which the thumbnails of the pictures of a post are
/// fetched.
pub fn thumbnail_urls(dynamic: &Dynamic<PictureDynamic>) -> (r: Vec<String>)
    ensures
        texts(r@) == thumbnail_urls_spec(*dynamic),
{
    let mut out: Vec<String> = Vec::new();
    let mut i: usize = 0;
    while i < dynamic.inner.pictures.len()
        invariant
            i <= dynamic.inner.pictures.len(),
            out@.len() == i,
            forall|k: int|
                0 <= k < i ==> (#[trigger] out@[k])@ == thumbnail_url_spec(
                    dynamic.inner.pictures@[k].src@,
                ),
        decreases dynamic.inner.pictures.len() - i,
    {
        out.push(thumbnail_url(dynamic.inner.pictures[i].src.as_str()));
        i += 1;
    }
    proof {
        assert(texts(out@) =~= thumbnail_urls_spec(*dynamic));
    }
    out
}

/// The image key that a picture card is rendered with: the key of the
/// uploaded thumbnail, or the stand-in where downloading, merging or
/// uploading failed.
pub fn get_dynamic_thumbnail_image_key(uploaded: Option<String>) -> (r: String)
    ensures
        r@ == (match uploaded {
            Some(key) => key@,
            None => fallback_image_key(),
        }),
{
    match uploaded {
        Some(key) => key,
        None => String::from_str("img_v2_1f156161-3ffa-40f7-9d28-9621cc5ed2cg"),
    }
}

/// The status line that replaces the drop-down of a categorized video.
pub open spec fn accepted_line(category: Seq<char>) -> BlockView {
    BlockView::Markdown { content: "✔️ 已接受，分类："@ + category }
}

/// The status line that replaces the button of an accepted picture post.
pub open spec fn ok_line() -> BlockView {
    BlockView::Markdown { content: "✔️ 已接受"@ }
}

/// The body of a video card after a moderator chose `category`: the middle
/// block gives way to a status line, the other two stay.
pub fn video_to_accepted(body: CardBody, category: String) -> (r: CardBody)
    requires
        body@.len() >= 3,
    ensures
        body_view(r@) == seq![body@[0]@, accepted_line(category@), body@[2]@],
{
    let mut content = String::from_str("✔️ 已接受，分类：");
    content.append(category.as_str());
    let mut r: Vec<Block> = Vec::new();
    r.push(body[0].duplicate());
    r.push(Block::Markdown { content });
    r.push(body[2].duplicate());
    proof {
        assert(body_view(r@) =~= seq![body@[0]@, accepted_line(category@), body@[2]@]);
    }
    r
}

/// The body of a picture card after a moderator accepted it: the middle
/// block gives way to a status line, the other two stay.
pub fn dynamic_to_ok(body: CardBody) -> (r: CardBody)
    requires
        body@.len() >= 3,
    ensures
        body_view(r@) == seq![body@[0]@, ok_line(), body@[2]@],
{
    let mut r: Vec<Block> = Vec::new();
    r.push(body[0].duplicate());
    r.push(Block::Markdown { content: String::from_str("✔️ 已接受") });
    r.push(body[2].duplicate());
    proof {
        assert(body_view(r@) =~= seq![body@[0]@, ok_line(), body@[2]@]);
    }
    r
}

/// A card body together with the display settings it is sent with.
#[derive(Debug, Clone, PartialEq, Eq)]
pub struct WrappedCard {
    pub wide_screen_mode: bool,
    pub elements: CardBody,
}

/// Wraps a body into the message that is sent: wide-screen, with the body
/// as its elements.
pub fn wrap_card_body(body: CardBody) -> (r: WrappedCard)
    ensures
        r.wide_screen_mode,
        r.elements == body,
{
    WrappedCard { wide_screen_mode: true, elements: body }
}

/// The bodies joined into one, with a rule between each two neighbours.
pub open spec fn merged(bodies: Seq<Seq<BlockView>>) -> Seq<BlockView>
    decreases bodies.len(),
{
    if bodies.len() == 0 {
        Seq::empty()
    } else if bodies.len() == 1 {
        bodies[0]
    } else {
        merged(bodies.drop_last()) + seq![BlockView::Rule] + bodies.last()
    }
}

/// Merges the bodies of a batch into one message body: the bodies follow
/// each other in order, separated by a horizontal rule.
pub fn merge_body(bodies: Vec<CardBody>) -> (r: CardBody)
    ensures
        body_view(r@) == merged(bodies_view(bodies@)),
{
    let mut combined: Vec<Block> = Vec::new();
    let mut i: usize = 0;
    while i < bodies.len()
        invariant
            i <= bodies.len(),
            body_view(combined@) == merged(bodies_view(bodies@).take(i as int)),
        decreases bodies.len() - i,
    {
        let ghost before = combined@;
        if i != 0 {
            combined.push(Block::Rule);
        }
        let ghost mid = combined@;
        let body = &bodies[i];
        let mut j: usize = 0;
        while j < body.len()
            invariant
                j <= body.len(),
                combined@.len() == mid.len() + j,
                forall|k: int| 0 <= k < mid.len() ==> combined@[k] == mid[k],
                forall|k: int| 0 <= k < j ==> combined@[mid.len() + k]@ == body@[k]@,
            decreases body.len() - j,
        {
            combined.push(body[j].duplicate());
            j += 1;
        }
        proof {
            let all = bodies_view(bodies@);
            let next = all.take(i as int + 1);
            assert(next.drop_last() =~= all.take(i as int));
            assert(next.last() == body_view(body@));
            if i == 0 {
                assert(body_view(combined@) =~= body_view(body@));
            } else {
                assert(mid =~= before.push(Block::Rule));
                let joined = body_view(before) + seq![BlockView::Rule] + body_view(body@);
                assert(body_view(combined@).len() == joined.len());
                assert forall|k: int| 0 <= k < joined.len() implies body_view(combined@)[k]
                    == joined[k] by {
                    if k < before.len() {
                        assert(combined@[k] == mid[k]);
                    } else if k == before.len() {
                        assert(combined@[k] == mid[k]);
                    } else {
                        assert(combined@[mid.len() + (k - mid.len())]@ == body@[k - mid.len()]@);
                    }
                }
                assert(body_view(combined@) =~= joined);
            }
        }
        i += 1;
    }
    proof {
        assert(bodies_view(bodies@).take(bodies@.len() as int) =~= bodies_view(bodies@));
    }
    combined
}

} // verus!
