//! One poll cycle over the normalized items of all tracked topics: merge
//! and deduplicate, drop what was notified before, cut into batches, and
//! record a batch once it has been delivered.
use crate::bilibili::tag_feed::{Dynamic, PictureDynamic};
use crate::bilibili::tag_videos::VideoInfo;
use crate::biz::cards::{
    body_view, dynamic_card, dynamic_intro, footnote_spec, newline_run, stamp_pattern, texts,
    video_info_to_card_body, video_intro, BlockView, CardBody, RenderError,
};
use crate::db::{Record, RecordView, Store, StoreError};
use crate::keyed::{
    dedup_last_wins, deduplicated, distinct_keys, has_key, last_with, lemma_deduplicated,
    lemma_filter_keys, Keyed,
};
use crate::localtime::shanghai_text;
use crate::order::{
    ascending, lemma_placed_len, lemma_sorted_by_rank, placed, sort_by_rank, sorted_by_rank, Ranked,
};
use crate::pattern::regex_accepts;
use crate::text::decimal_spec;
use vstd::prelude::*;

verus! {

/// What an item was normalized from.
#[derive(Debug, Clone)]
pub enum Content {
    Video(VideoInfo),
    Picture(Dynamic<PictureDynamic>),
}

/// The two kinds of content that are curated.
#[derive(Debug, Clone, Copy, PartialEq, Eq, Structural)]
pub enum Kind {
    Video,
    Picture,
}

/// A normalized candidate: one video or one picture post of one poll cycle.
#[derive(Debug, Clone)]
pub struct FeedItem {
    /// The stable content key: the id of the video or of the post.
    pub id: String,
    /// The display name of the author.
    pub author: String,
    /// When the source published the item.
    pub created_at: i64,
    /// What a moderator card is rendered from.
    pub content: Content,
}

impl Keyed for FeedItem {
    open spec fn key(&self) -> Seq<char> {
        self.id@
    }

    fn key_str(&self) -> (k: &str) {
        self.id.as_str()
    }
}

impl Ranked for FeedItem {
    open spec fn rank(&self) -> int {
        self.created_at as int
    }

    fn rank_value(&self) -> (t: i64) {
        self.created_at
    }
}

impl FeedItem {
    /// The kind of content.
    pub open spec fn kind_spec(&self) -> Kind {
        match self.content {
            Content::Video(_) => Kind::Video,
            Content::Picture(_) => Kind::Picture,
        }
    }

    /// The kind of content.
    pub fn kind(&self) -> (k: Kind)
        ensures
            k == self.kind_spec(),
    {
        match &self.content {
            Content::Video(_) => Kind::Video,
            Content::Picture(_) => Kind::Picture,
        }
    }

    /// Whether the three-part body of this item can be rendered.
    pub open spec fn renders(&self) -> bool {
        regex_accepts(newline_run()) && shanghai_text(self.publish_instant(), stamp_pattern()) is Some
    }

    /// The publish time that the footnote of the card shows.
    pub open spec fn publish_instant(&self) -> int {
        match self.content {
            Content::Video(info) => info.publish_at as int,
            Content::Picture(dynamic) => dynamic.desc.timestamp as int,
        }
    }

    /// The three-part body of this item's card.
    pub open spec fn card_spec(&self, img_key: Seq<char>, categories: Seq<Seq<char>>) -> Seq<BlockView> {
        let foot = footnote_spec(shanghai_text(self.publish_instant(), stamp_pattern())->0);
        match self.content {
            Content::Video(info) => seq![
                BlockView::Info { content: video_intro(info), img_key, alt: "视频封面"@ },
                BlockView::Select { placeholder: "选择分类"@, bvid: info.bvid@, options: categories },
                foot,
            ],
            Content::Picture(dynamic) => seq![
                BlockView::Info { content: dynamic_intro(dynamic), img_key, alt: "第一张图"@ },
                BlockView::Button {
                    label: "选入今日二创"@,
                    dynamic_id: decimal_spec(dynamic.desc.dynamic_id as nat),
                },
                foot,
            ],
        }
    }

    /// Renders the three-part body of this item's card. `img_key` is the
    /// key of the image shown beside the text; `categories` are the choices
    /// offered for a video.
    pub fn render(&self, img_key: &str, categories: &Vec<String>) -> (r: Result<CardBody, RenderError>)
        ensures
            r is Ok <==> self.renders(),
            r matches Ok(body) ==> body_view(body@) == self.card_spec(img_key@, texts(categories@)),
            r matches Err(e) ==> e == (if regex_accepts(newline_run()) {
                RenderError::Time
            } else {
                RenderError::Pattern
            }),
    {
        match &self.content {
            Content::Video(info) => video_info_to_card_body(info, img_key, categories),
            Content::Picture(dynamic) => dynamic_card(dynamic, img_key),
        }
    }
}

/// The items of all topics one after the other, topic by topic.
pub open spec fn concatenated(topics: Seq<Vec<FeedItem>>) -> Seq<FeedItem>
    decreases topics.len(),
{
    if topics.len() == 0 {
        Seq::empty()
    } else {
        concatenated(topics.drop_last()) + topics.last()@
    }
}

/// What a poll cycle makes of the items of all topics: one item per id,
/// the one observed last, from earliest to latest.
pub open spec fn merged_feed(topics: Seq<Vec<FeedItem>>) -> Seq<FeedItem> {
    sorted_by_rank(deduplicated(concatenated(topics)))
}

/// Merges the items gathered from all topics: where an id was observed
/// more than once the last observation is kept, and the result is in
/// ascending order of publish time.
pub fn merge_topics(topics: Vec<Vec<FeedItem>>) -> (r: Vec<FeedItem>)
    ensures
        r@ == merged_feed(topics@),
{
    let mut all: Vec<FeedItem> = Vec::new();
    let ghost given = topics@;
    for topic in it: topics
        invariant
            it.seq() == given,
            all@ == concatenated(given.take(it.index() as int)),
    {
        let ghost before = all@;
        let ghost whole = topic@;
        proof {
            let i = it.index() as int;
            assert(given.take(i + 1).drop_last() =~= given.take(i));
            assert(given.take(i + 1).last() == topic);
        }
        for item in inner: topic
            invariant
                inner.seq() == whole,
                all@ == before + whole.take(inner.index() as int),
        {
            proof {
                let j = inner.index() as int;
                assert(before + whole.take(j + 1) =~= (before + whole.take(j)).push(item));
            }
            all.push(item);
        }
        proof {
            assert(whole.take(whole.len() as int) =~= whole);
        }
    }
    proof {
        assert(given.take(given.len() as int) =~= given);
    }
    sort_by_rank(dedup_last_wins(all))
}

/// Placing an element under a new key keeps the keys distinct, and the
/// result holds the old elements and the new one.
pub proof fn lemma_placed_keys<T: Keyed + Ranked>(s: Seq<T>, x: T)
    requires
        distinct_keys(s),
        !has_key(s, x.key()),
    ensures
        distinct_keys(placed(s, x)),
        forall|key: Seq<char>| #[trigger]
            has_key(placed(s, x), key) <==> (has_key(s, key) || key == x.key()),
        forall|j: int|
            0 <= j < placed(s, x).len() ==> (#[trigger] placed(s, x)[j] == x || exists|i: int|
                0 <= i < s.len() && s[i] == placed(s, x)[j]),
    decreases s.len(),
{
    let out = placed(s, x);
    if s.len() == 0 {
        assert(out[0].key() == x.key());
    } else if s.last().rank() <= x.rank() {
        assert forall|a: int, b: int|
            0 <= a < out.len() && 0 <= b < out.len() && a != b implies #[trigger] out[a].key()
            != #[trigger] out[b].key() by {
            if a < s.len() && b < s.len() {
                assert(s[a].key() != s[b].key());
            } else if a < s.len() {
                assert(s[a].key() != x.key());
            } else {
                assert(s[b].key() != x.key());
            }
        }
        assert forall|key: Seq<char>| has_key(out, key) <==> (has_key(s, key) || key
            == x.key()) by {
            if has_key(out, key) {
                let j = choose|j: int| 0 <= j < out.len() && #[trigger] out[j].key() == key;
                if j < s.len() {
                    assert(s[j].key() == key);
                }
            }
            if has_key(s, key) {
                let j = choose|j: int| 0 <= j < s.len() && #[trigger] s[j].key() == key;
                assert(out[j].key() == key);
            }
            if key == x.key() {
                assert(out[s.len() as int].key() == key);
            }
        }
        assert forall|j: int| 0 <= j < out.len() implies (#[trigger] out[j] == x || exists|i: int|
            0 <= i < s.len() && s[i] == out[j]) by {
            if j < s.len() {
                assert(s[j] == out[j]);
            }
        }
    } else {
        let front = s.drop_last();
        let last = s.last();
        assert forall|a: int, b: int|
            0 <= a < front.len() && 0 <= b < front.len() && a != b implies #[trigger] front[a].key()
            != #[trigger] front[b].key() by {
            assert(s[a].key() != s[b].key());
        }
        if has_key(front, x.key()) {
            let j = choose|j: int| 0 <= j < front.len() && #[trigger] front[j].key() == x.key();
            assert(s[j].key() == x.key());
        }
        lemma_placed_keys(front, x);
        let inner = placed(front, x);
        lemma_placed_len(front, x);
        assert(!has_key(inner, last.key())) by {
            if has_key(front, last.key()) {
                let j = choose|j: int| 0 <= j < front.len() && #[trigger] front[j].key()
                    == last.key();
                assert(s[j].key() == s[s.len() - 1].key());
            }
            if last.key() == x.key() {
                assert(s[s.len() - 1].key() == x.key());
            }
        }
        assert forall|a: int, b: int|
            0 <= a < out.len() && 0 <= b < out.len() && a != b implies #[trigger] out[a].key()
            != #[trigger] out[b].key() by {
            if a < inner.len() && b < inner.len() {
                assert(inner[a].key() != inner[b].key());
            } else if a < inner.len() {
                assert(inner[a].key() != last.key());
            } else {
                assert(inner[b].key() != last.key());
            }
        }
        assert forall|key: Seq<char>| has_key(out, key) <==> (has_key(s, key) || key
            == x.key()) by {
            if has_key(out, key) {
                let j = choose|j: int| 0 <= j < out.len() && #[trigger] out[j].key() == key;
                if j < inner.len() {
                    assert(inner[j].key() == key);
                    if has_key(front, key) {
                        let i = choose|i: int| 0 <= i < front.len() && #[trigger] front[i].key()
                            == key;
                        assert(s[i].key() == key);
                    }
                } else {
                    assert(s[s.len() - 1].key() == key);
                }
            }
            if has_key(s, key) {
                let j = choose|j: int| 0 <= j < s.len() && #[trigger] s[j].key() == key;
                if j < front.len() {
                    assert(front[j].key() == key);
                    assert(has_key(front, key));
                    assert(has_key(inner, key));
                    let i = choose|i: int| 0 <= i < inner.len() && #[trigger] inner[i].key()
                        == key;
                    assert(out[i].key() == key);
                } else {
                    assert(out[inner.len() as int].key() == key);
                }
            }
            if key == x.key() {
                assert(has_key(inner, key));
                let i = choose|i: int| 0 <= i < inner.len() && #[trigger] inner[i].key() == key;
                assert(out[i].key() == key);
            }
        }
        assert forall|j: int| 0 <= j < out.len() implies (#[trigger] out[j] == x || exists|i: int|
            0 <= i < s.len() && s[i] == out[j]) by {
            if j < inner.len() {
                assert(out[j] == inner[j]);
                if inner[j] != x {
                    let i = choose|i: int| 0 <= i < front.len() && front[i] == inner[j];
                    assert(s[i] == out[j]);
                }
            } else {
                assert(s[s.len() - 1] == out[j]);
            }
        }
    }
}

/// Sorting a sequence of distinct keys keeps the keys distinct and keeps
/// exactly the elements that were there.
pub proof fn lemma_sorted_keys<T: Keyed + Ranked>(s: Seq<T>)
    requires
        distinct_keys(s),
    ensures
        distinct_keys(sorted_by_rank(s)),
        forall|key: Seq<char>| #[trigger] has_key(sorted_by_rank(s), key) <==> has_key(s, key),
        forall|j: int|
            0 <= j < sorted_by_rank(s).len() ==> exists|i: int|
                0 <= i < s.len() && s[i] == #[trigger] sorted_by_rank(s)[j],
    decreases s.len(),
{
    if s.len() > 0 {
        let front = s.drop_last();
        let last = s.last();
        assert forall|a: int, b: int|
            0 <= a < front.len() && 0 <= b < front.len() && a != b implies #[trigger] front[a].key()
            != #[trigger] front[b].key() by {
            assert(s[a].key() != s[b].key());
        }
        lemma_sorted_keys(front);
        let inner = sorted_by_rank(front);
        assert(!has_key(inner, last.key())) by {
            if has_key(front, last.key()) {
                let j = choose|j: int| 0 <= j < front.len() && #[trigger] front[j].key()
                    == last.key();
                assert(s[j].key() == s[s.len() - 1].key());
            }
        }
        lemma_placed_keys(inner, last);
        let out = sorted_by_rank(s);
        assert forall|key: Seq<char>| has_key(out, key) <==> has_key(s, key) by {
            if has_key(front, key) {
                let j = choose|j: int| 0 <= j < front.len() && #[trigger] front[j].key() == key;
                assert(s[j].key() == key);
            }
            if has_key(s, key) {
                let j = choose|j: int| 0 <= j < s.len() && #[trigger] s[j].key() == key;
                if j < front.len() {
                    assert(front[j].key() == key);
                }
            }
        }
        assert forall|j: int| 0 <= j < out.len() implies exists|i: int|
            0 <= i < s.len() && s[i] == #[trigger] out[j] by {
            if out[j] == last {
                assert(s[s.len() - 1] == out[j]);
            } else {
                let m = choose|m: int| 0 <= m < inner.len() && inner[m] == out[j];
                let i = choose|i: int| 0 <= i < front.len() && front[i] == inner[m];
                assert(s[i] == out[j]);
            }
        }
    }
}

/// The merged feed holds exactly one item for every id that any topic
/// returned; that item is the one observed last under the id, topics taken
/// in order; and the feed is in ascending order of publish time.
pub proof fn lemma_merged_feed(topics: Seq<Vec<FeedItem>>)
    ensures
        distinct_keys(merged_feed(topics)),
        ascending(merged_feed(topics)),
        forall|id: Seq<char>| #[trigger]
            has_key(merged_feed(topics), id) <==> has_key(concatenated(topics), id),
        forall|j: int|
            0 <= j < merged_feed(topics).len() ==> {
                let seen = concatenated(topics);
                let found = last_with(seen, (#[trigger] merged_feed(topics)[j]).id@);
                found is Some && seen[found->0] == merged_feed(topics)[j]
            },
{
    let seen = concatenated(topics);
    let unique = deduplicated(seen);
    let out = merged_feed(topics);
    lemma_deduplicated(seen);
    lemma_sorted_by_rank(unique);
    lemma_sorted_keys(unique);
    assert forall|j: int| 0 <= j < out.len() implies {
        let found = last_with(seen, (#[trigger] out[j]).id@);
        found is Some && seen[found->0] == out[j]
    } by {
        let i = choose|i: int| 0 <= i < unique.len() && unique[i] == out[j];
        assert(unique[i].key() == out[j].id@);
    }
}

/// The items that have no record yet, in the order given.
pub open spec fn unsent_spec(records: Seq<Record>, items: Seq<FeedItem>) -> Seq<FeedItem> {
    items.filter(|x: FeedItem| !has_key(records, x.id@))
}

/// Drops every item that has a record in the store: such an item was put
/// before the moderators in an earlier cycle, whatever became of it since.
pub fn unsent(store: &Store, items: Vec<FeedItem>) -> (r: Vec<FeedItem>)
    ensures
        r@ == unsent_spec(store.records(), items@),
{
    let mut out: Vec<FeedItem> = Vec::new();
    let ghost all = items@;
    let ghost fresh = |x: FeedItem| !has_key(store.records(), x.id@);
    for item in it: items
        invariant
            it.seq() == all,
            fresh == (|x: FeedItem| !has_key(store.records(), x.id@)),
            out@ == all.take(it.index() as int).filter(fresh),
    {
        proof {
            let i = it.index() as int;
            assert(all.take(i + 1).drop_last() =~= all.take(i));
            assert(all.take(i + 1).last() == item);
            reveal(Seq::filter);
        }
        if !store.is_sent(item.id.as_str()) {
            out.push(item);
        }
    }
    proof {
        assert(all.take(all.len() as int) =~= all);
    }
    out
}

/// What a cycle sets out to send is new: it holds no id twice and no id
/// that has a record. So no item is put before the moderators that was
/// put before them in an earlier cycle, and none twice in one cycle.
pub proof fn lemma_cycle_sends_new(records: Seq<Record>, topics: Seq<Vec<FeedItem>>)
    ensures
        distinct_keys(unsent_spec(records, merged_feed(topics))),
        forall|k: int|
            0 <= k < unsent_spec(records, merged_feed(topics)).len() ==> !has_key(
                records,
                (#[trigger] unsent_spec(records, merged_feed(topics))[k]).id@,
            ),
        forall|id: Seq<char>| #[trigger]
            has_key(unsent_spec(records, merged_feed(topics)), id) ==> has_key(
                concatenated(topics),
                id,
            ),
{
    lemma_merged_feed(topics);
    let fresh = |x: FeedItem| !has_key(records, x.id@);
    lemma_filter_keys(merged_feed(topics), fresh);
    assert forall|id: Seq<char>| #[trigger]
        has_key(unsent_spec(records, merged_feed(topics)), id) implies has_key(
        concatenated(topics),
        id,
    ) by {
        assert(has_key(merged_feed(topics), id));
    }
}

/// An item that has a record is never sent again: whatever a later cycle
/// gathers, the item is not among what is left to send.
pub proof fn lemma_recorded_not_resent(records: Seq<Record>, items: Seq<FeedItem>, id: Seq<char>)
    requires
        has_key(records, id),
    ensures
        !has_key(unsent_spec(records, items), id),
{
    let fresh = |x: FeedItem| !has_key(records, x.id@);
    let left = unsent_spec(records, items);
    items.filter_lemma(fresh);
    if has_key(left, id) {
        let j = choose|j: int| 0 <= j < left.len() && #[trigger] left[j].key() == id;
        assert(fresh(left[j]));
    }
}

/// A store never holds two records of one id: where two records have the
/// same id they are one record.
pub proof fn lemma_one_record_per_id(store: Store, i: int, j: int)
    requires
        store.wf(),
        0 <= i < store.records().len(),
        0 <= j < store.records().len(),
        store.records()[i].id@ == store.records()[j].id@,
    ensures
        i == j,
{
    if i != j {
        assert(store.records()[i].key() != store.records()[j].key());
    }
}

/// The number of items that are sent together as one composite message.
pub const BATCH_SIZE: usize = 10;

/// The number of batches that `n` items are sent in.
pub open spec fn batch_count(n: nat) -> nat {
    (n + 9) / 10
}

/// The `k`-th batch of `items`: ten items from the position `10 k` on, or
/// as many as are left.
pub open spec fn batch_of<T>(items: Seq<T>, k: int) -> Seq<T> {
    items.subrange(10 * k, if 10 * k + 10 <= items.len() {
        10 * k + 10
    } else {
        items.len() as int
    })
}

/// Cuts the items into batches of ten, the last one holding what is left.
/// The order of the items is kept, and no batch is empty.
pub fn batches<T>(items: Vec<T>) -> (r: Vec<Vec<T>>)
    ensures
        r@.len() == batch_count(items@.len()),
        forall|k: int| 0 <= k < r@.len() ==> (#[trigger] r@[k])@ == batch_of(items@, k),
{
    let mut out: Vec<Vec<T>> = Vec::new();
    let mut current: Vec<T> = Vec::new();
    let ghost all = items@;
    for item in it: items
        invariant
            it.seq() == all,
            current@.len() < 10,
            it.index() == 10 * out@.len() + current@.len(),
            current@ == all.subrange(10 * (out@.len() as int), it.index() as int),
            forall|k: int|
                0 <= k < out@.len() ==> (#[trigger] out@[k])@ == all.subrange(10 * k, 10 * k + 10),
    {
        proof {
            let i = it.index() as int;
            assert(all.subrange(10 * (out@.len() as int), i + 1) =~= all.subrange(10 * (out@.len() as int), i).push(
                item,
            ));
        }
        current.push(item);
        if current.len() == BATCH_SIZE {
            out.push(current);
            current = Vec::new();
            proof {
                assert(current@ =~= all.subrange(10 * (out@.len() as int), it.index() as int + 1));
            }
        }
    }
    if current.len() > 0 {
        out.push(current);
    }
    proof {
        assert forall|k: int| 0 <= k < out@.len() implies (#[trigger] out@[k])@ == batch_of(
            all,
            k,
        ) by {}
    }
    out
}

/// An item together with the body of its card.
#[derive(Debug, Clone)]
pub struct Rendered {
    pub item: FeedItem,
    pub body: CardBody,
}

impl Keyed for Rendered {
    open spec fn key(&self) -> Seq<char> {
        self.item.id@
    }

    fn key_str(&self) -> (k: &str) {
        self.item.id.as_str()
    }
}

/// The record that is written for a delivered item: moderation pending,
/// the item's own body as its card.
pub open spec fn record_of(r: Rendered, message_id: Seq<char>) -> RecordView {
    RecordView {
        id: r.item.id@,
        card: body_view(r.body@),
        message_id,
        created_at: r.item.created_at as int,
        category: None,
        mark_time: None,
        author: r.item.author@,
    }
}

/// Whether a batch can be recorded: none of its ids has a record, and no
/// id occurs twice in it.
pub open spec fn recordable(records: Seq<Record>, batch: Seq<Rendered>) -> bool {
    distinct_keys(batch) && forall|k: int|
        0 <= k < batch.len() ==> !has_key(records, (#[trigger] batch[k]).item.id@)
}

fn check_recordable(store: &Store, batch: &Vec<Rendered>) -> (ok: bool)
    ensures
        ok == recordable(store.records(), batch@),
{
    let mut i: usize = 0;
    while i < batch.len()
        invariant
            i <= batch.len(),
            forall|k: int| 0 <= k < i ==> !has_key(store.records(), (#[trigger] batch@[k]).item.id@),
            forall|a: int, b: int|
                0 <= a < i && 0 <= b < i && a != b ==> #[trigger] batch@[a].key()
                    != #[trigger] batch@[b].key(),
        decreases batch.len() - i,
    {
        if store.is_sent(batch[i].item.id.as_str()) {
            return false;
        }
        let mut j: usize = 0;
        while j < i
            invariant
                j <= i,
                i < batch.len(),
                forall|b: int| 0 <= b < j ==> #[trigger] batch@[b].key() != batch@[i as int].key(),
            decreases i - j,
        {
            if crate::text::str_eq(batch[j].item.id.as_str(), batch[i].item.id.as_str()) {
                proof {
                    assert(batch@[j as int].key() == batch@[i as int].key());
                }
                return false;
            }
            j += 1;
        }
        i += 1;
    }
    true
}

/// Records a batch that the chat platform acknowledged with `message_id`:
/// one pending record for every item, with the item's own body as its
/// card. A batch that holds an id twice, or an id that has a record, is
/// refused as a whole and the store stays as it is.
pub fn persist_batch(store: &mut Store, batch: Vec<Rendered>, message_id: &str) -> (r: Result<
    (),
    StoreError,
>)
    requires
        old(store).wf(),
    ensures
        final(store).wf(),
        final(store).group_records() == old(store).group_records(),
        r is Ok <==> recordable(old(store).records(), batch@),
        r is Ok ==> {
            &&& final(store).records().len() == old(store).records().len() + batch@.len()
            &&& final(store).records().take(old(store).records().len() as int) == old(
                store,
            ).records()
            &&& forall|k: int|
                0 <= k < batch@.len() ==> (#[trigger] final(store).records()[old(
                    store,
                ).records().len() + k])@ == record_of(batch@[k], message_id@)
        },
        r matches Err(e) ==> e == StoreError::DuplicateItem && final(store).records() == old(
            store,
        ).records(),
{
    if !check_recordable(store, &batch) {
        return Err(StoreError::DuplicateItem);
    }
    let ghost all = batch@;
    let ghost before = store.records();
    for entry in it: batch
        invariant
            it.seq() == all,
            store.wf(),
            distinct_keys(all),
            forall|k: int| 0 <= k < all.len() ==> !has_key(before, (#[trigger] all[k]).item.id@),
            store.group_records() == old(store).group_records(),
            store.records().len() == before.len() + it.index(),
            store.records().take(before.len() as int) == before,
            forall|k: int|
                0 <= k < it.index() ==> (#[trigger] store.records()[before.len() + k])@ == record_of(
                    all[k],
                    message_id@,
                ),
    {
        let ghost i = it.index() as int;
        let ghost sofar = store.records();
        proof {
            assert(!has_key(sofar, entry.item.id@)) by {
                if has_key(sofar, entry.item.id@) {
                    let j = choose|j: int| 0 <= j < sofar.len() && #[trigger] sofar[j].key()
                        == entry.item.id@;
                    if j < before.len() {
                        assert(sofar.take(before.len() as int)[j] == sofar[j]);
                        assert(before[j].key() == entry.item.id@);
                        assert(all[i].item.id@ == entry.item.id@);
                    } else {
                        assert(sofar[before.len() + (j - before.len())]@ == record_of(
                            all[j - before.len()],
                            message_id@,
                        ));
                        assert(all[j - before.len()].key() == all[i].key());
                    }
                }
            }
        }
        let record = Record::pending(
            entry.item.id,
            entry.body,
            String::from_str(message_id),
            entry.item.created_at,
            entry.item.author,
        );
        let done = store.insert(record);
        proof {
            assert(done is Ok);
            assert(store.records().take(before.len() as int) =~= before) by {
                assert(sofar.take(before.len() as int) == before);
            }
            assert forall|k: int| 0 <= k < i + 1 implies (#[trigger] store.records()[before.len()
                + k])@ == record_of(all[k], message_id@) by {
                if k < i {
                    assert(store.records()[before.len() + k] == sofar[before.len() + k]);
                }
            }
        }
    }
    Ok(())
}

/// The batches that a poll cycle has to send: the merged feed of all
/// topics without the items that have a record, cut into batches.
pub fn plan_cycle(store: &Store, topics: Vec<Vec<FeedItem>>) -> (r: Vec<Vec<FeedItem>>)
    ensures
        r@.len() == batch_count(unsent_spec(store.records(), merged_feed(topics@)).len()),
        forall|k: int|
            0 <= k < r@.len() ==> (#[trigger] r@[k])@ == batch_of(
                unsent_spec(store.records(), merged_feed(topics@)),
                k,
            ),
{
    batches(unsent(store, merge_topics(topics)))
}

} // verus!
