//! The daily summary: the ids of the categorized items of one day, grouped
//! by category.
use crate::biz::cards::texts;
use crate::db::{day_end, day_start, in_window, Record, Store};
use crate::json::{json_array, json_insert, json_object, json_of, json_text, jsons_of, with_member, JsonView};
use crate::keyed::{first_with, position, Keyed};
use crate::order::sorted_by_rank;
use crate::text::str_eq;
use vstd::prelude::*;
use vstd::string::*;

verus! {

/// The items of one category, in the order in which they were published.
#[derive(Debug, Clone, PartialEq, Eq)]
pub struct Bucket {
    pub category: String,
    /// Ids, or addresses in the bucket of picture posts.
    pub ids: Vec<String>,
}

/// What a [`Bucket`] holds.
pub struct BucketView {
    pub category: Seq<char>,
    pub ids: Seq<Seq<char>>,
}

impl View for Bucket {
    type V = BucketView;

    open spec fn view(&self) -> BucketView {
        BucketView { category: self.category@, ids: texts(self.ids@) }
    }
}

impl Keyed for Bucket {
    open spec fn key(&self) -> Seq<char> {
        self.category@
    }

    fn key_str(&self) -> (k: &str) {
        self.category.as_str()
    }
}

/// What a list of buckets holds.
pub open spec fn buckets_view(buckets: Seq<Bucket>) -> Seq<BucketView> {
    buckets.map_values(|b: Bucket| b@)
}

/// The position of the first bucket of `category`.
pub open spec fn bucket_index(buckets: Seq<BucketView>, category: Seq<char>) -> Option<int>
    decreases buckets.len(),
{
    if buckets.len() == 0 {
        None
    } else {
        match bucket_index(buckets.drop_last(), category) {
            Some(i) => Some(i),
            None => if buckets.last().category == category {
                Some(buckets.len() - 1)
            } else {
                None
            },
        }
    }
}

/// The buckets with `id` added at the end of the bucket of `category`; the
/// bucket is opened behind the others where there is none yet.
pub open spec fn with_entry(buckets: Seq<BucketView>, category: Seq<char>, id: Seq<char>) -> Seq<
    BucketView,
> {
    match bucket_index(buckets, category) {
        Some(i) => buckets.update(i, BucketView { category, ids: buckets[i].ids.push(id) }),
        None => buckets.push(BucketView { category, ids: seq![id] }),
    }
}

/// The ids of the categorized records among `records`, grouped by
/// category. Buckets stand in the order in which their categories first
/// occur, ids in the order of the records.
pub open spec fn grouped(records: Seq<Record>) -> Seq<BucketView>
    decreases records.len(),
{
    if records.len() == 0 {
        Seq::empty()
    } else {
        match records.last().category {
            Some(category) => with_entry(grouped(records.drop_last()), category@, records.last().id@),
            None => grouped(records.drop_last()),
        }
    }
}

/// The former name of the category of accepted picture posts.
pub open spec fn legacy_category() -> Seq<char> {
    "ok"@
}

/// The category of accepted picture posts.
pub open spec fn dynamic_category() -> Seq<char> {
    "动态"@
}

/// The address of the picture post `id`.
pub open spec fn dynamic_url(id: Seq<char>) -> Seq<char> {
    "https://t.bilibili.com/"@ + id
}

/// The ids of all buckets of `category`, bucket after bucket.
pub open spec fn ids_under(buckets: Seq<BucketView>, category: Seq<char>) -> Seq<Seq<char>>
    decreases buckets.len(),
{
    if buckets.len() == 0 {
        Seq::empty()
    } else if buckets.last().category == category {
        ids_under(buckets.drop_last(), category) + buckets.last().ids
    } else {
        ids_under(buckets.drop_last(), category)
    }
}

/// Whether a bucket holds picture posts, under the present or the former
/// name of their category.
pub open spec fn holds_dynamics(b: BucketView) -> bool {
    b.category == legacy_category() || b.category == dynamic_category()
}

/// The buckets that hold no picture posts, in their order.
pub open spec fn others(buckets: Seq<BucketView>) -> Seq<BucketView> {
    buckets.filter(|b: BucketView| !holds_dynamics(b))
}

/// The buckets with those of picture posts folded into one: it stands
/// behind the others under the present name of the category, and holds the
/// addresses of the posts, those filed under the former name first. Where
/// there is no picture post there is no such bucket.
pub open spec fn remapped(buckets: Seq<BucketView>) -> Seq<BucketView> {
    let posts = ids_under(buckets, legacy_category()) + ids_under(buckets, dynamic_category());
    let rest = others(buckets);
    if posts.len() == 0 {
        rest
    } else {
        rest.push(
            BucketView {
                category: dynamic_category(),
                ids: posts.map_values(|id: Seq<char>| dynamic_url(id)),
            },
        )
    }
}

/// The summary of a list of records.
pub open spec fn summary_of(records: Seq<Record>) -> Seq<BucketView> {
    remapped(grouped(records))
}

proof fn lemma_categories_differ()
    ensures
        legacy_category() != dynamic_category(),
{
    reveal_strlit("ok");
    reveal_strlit("动态");
    assert("ok"@[0] == 'o');
    assert("动态"@[0] == '动');
}

proof fn lemma_bucket_index(buckets: Seq<Bucket>, category: Seq<char>)
    ensures
        first_with(buckets, category) == bucket_index(buckets_view(buckets), category),
    decreases buckets.len(),
{
    if buckets.len() > 0 {
        lemma_bucket_index(buckets.drop_last(), category);
        assert(buckets_view(buckets).drop_last() =~= buckets_view(buckets.drop_last()));
    }
}

/// Adds `id` to the bucket of `category`, opening the bucket behind the
/// others where there is none yet.
pub fn add_entry(buckets: &mut Vec<Bucket>, category: &str, id: &str)
    ensures
        buckets_view(final(buckets)@) == with_entry(buckets_view(old(buckets)@), category@, id@),
{
    proof {
        lemma_bucket_index(buckets@, category@);
    }
    match position(buckets, category) {
        Some(i) => {
            let ghost before = buckets@;
            buckets[i].ids.push(String::from_str(id));
            proof {
                let after = buckets@;
                assert(texts(after[i as int].ids@) =~= texts(before[i as int].ids@).push(id@));
                assert(buckets_view(after) =~= with_entry(buckets_view(before), category@, id@));
            }
        },
        None => {
            let ghost before = buckets@;
            let mut ids: Vec<String> = Vec::new();
            ids.push(String::from_str(id));
            proof {
                assert(texts(ids@) =~= seq![id@]);
            }
            buckets.push(Bucket { category: String::from_str(category), ids });
            proof {
                assert(buckets_view(buckets@) =~= with_entry(buckets_view(before), category@, id@));
            }
        },
    }
}

/// Groups the ids of the categorized records by category.
pub fn group_by_category(records: &Vec<&Record>) -> (r: Vec<Bucket>)
    ensures
        buckets_view(r@) == grouped(records@.map_values(|x: &Record| *x)),
{
    let mut out: Vec<Bucket> = Vec::new();
    let ghost all = records@.map_values(|x: &Record| *x);
    let mut i: usize = 0;
    while i < records.len()
        invariant
            i <= records.len(),
            all == records@.map_values(|x: &Record| *x),
            buckets_view(out@) == grouped(all.take(i as int)),
        decreases records.len() - i,
    {
        proof {
            assert(all.take(i as int + 1).drop_last() =~= all.take(i as int));
            assert(all.take(i as int + 1).last() == *records@[i as int]);
        }
        let rec = records[i];
        match &rec.category {
            Some(category) => {
                add_entry(&mut out, category.as_str(), rec.id.as_str());
            },
            None => {},
        }
        i += 1;
    }
    proof {
        assert(all.take(all.len() as int) =~= all);
        assert(buckets_view(out@) =~= grouped(all));
    }
    out
}

/// Appends the addresses of the picture posts `ids` to `out`.
fn push_urls(out: &mut Vec<String>, ids: &Vec<String>)
    ensures
        texts(final(out)@) == texts(old(out)@) + texts(ids@).map_values(
            |id: Seq<char>| dynamic_url(id),
        ),
{
    let ghost before = out@;
    let mut i: usize = 0;
    while i < ids.len()
        invariant
            i <= ids.len(),
            texts(out@) == texts(before) + texts(ids@).take(i as int).map_values(
                |id: Seq<char>| dynamic_url(id),
            ),
        decreases ids.len() - i,
    {
        let ghost sofar = out@;
        let mut url = String::from_str("https://t.bilibili.com/");
        url.append(ids[i].as_str());
        out.push(url);
        proof {
            let f = |id: Seq<char>| dynamic_url(id);
            assert(texts(out@) =~= texts(sofar).push(dynamic_url(ids@[i as int]@)));
            assert(texts(ids@).take(i as int + 1).map_values(f) =~= texts(ids@).take(
                i as int,
            ).map_values(f).push(dynamic_url(ids@[i as int]@)));
        }
        i += 1;
    }
    proof {
        assert(texts(ids@).take(ids@.len() as int) =~= texts(ids@));
    }
}

/// Folds the buckets of picture posts into one, under the present name of
/// their category and with addresses in place of ids.
pub fn remap(buckets: Vec<Bucket>) -> (r: Vec<Bucket>)
    ensures
        buckets_view(r@) == remapped(buckets_view(buckets@)),
{
    let ghost all = buckets_view(buckets@);
    let ghost keep = |b: BucketView| !holds_dynamics(b);
    let ghost url = |id: Seq<char>| dynamic_url(id);
    let mut rest: Vec<Bucket> = Vec::new();
    let mut legacy: Vec<String> = Vec::new();
    let mut present: Vec<String> = Vec::new();
    let mut i: usize = 0;
    while i < buckets.len()
        invariant
            i <= buckets.len(),
            all == buckets_view(buckets@),
            keep == (|b: BucketView| !holds_dynamics(b)),
            url == (|id: Seq<char>| dynamic_url(id)),
            buckets_view(rest@) == all.take(i as int).filter(keep),
            texts(legacy@) == ids_under(all.take(i as int), legacy_category()).map_values(url),
            texts(present@) == ids_under(all.take(i as int), dynamic_category()).map_values(url),
        decreases buckets.len() - i,
    {
        proof {
            assert(all.take(i as int + 1).drop_last() =~= all.take(i as int));
            assert(all.take(i as int + 1).last() == buckets@[i as int]@);
            reveal(Seq::filter);
            lemma_categories_differ();
        }
        let b = &buckets[i];
        if str_eq(b.category.as_str(), "ok") {
            let ghost before = ids_under(all.take(i as int), legacy_category());
            push_urls(&mut legacy, &b.ids);
            proof {
                assert((before + texts(b.ids@)).map_values(url) =~= before.map_values(url) + texts(
                    b.ids@,
                ).map_values(url));
            }
        } else if str_eq(b.category.as_str(), "动态") {
            let ghost before = ids_under(all.take(i as int), dynamic_category());
            push_urls(&mut present, &b.ids);
            proof {
                assert((before + texts(b.ids@)).map_values(url) =~= before.map_values(url) + texts(
                    b.ids@,
                ).map_values(url));
            }
        } else {
            let ghost before = rest@;
            rest.push(Bucket { category: b.category.clone(), ids: crate::biz::cards::copy_texts(&b.ids) });
            proof {
                assert(buckets_view(rest@) =~= buckets_view(before).push(b@));
            }
        }
        i += 1;
    }
    proof {
        assert(all.take(all.len() as int) =~= all);
    }
    if legacy.len() == 0 && present.len() == 0 {
        proof {
            let posts = ids_under(all, legacy_category()) + ids_under(all, dynamic_category());
            assert(ids_under(all, legacy_category()).map_values(url).len() == 0);
            assert(ids_under(all, dynamic_category()).map_values(url).len() == 0);
            assert(posts.len() == 0);
        }
        return rest;
    }
    let ghost kept = rest@;
    let ghost first = legacy@;
    let ghost second = present@;
    legacy.append(&mut present);
    proof {
        let a = ids_under(all, legacy_category());
        let b = ids_under(all, dynamic_category());
        assert(legacy@ =~= first + second);
        assert(texts(legacy@) =~= texts(first) + texts(second));
        assert((a + b).map_values(url) =~= a.map_values(url) + b.map_values(url));
        assert((a + b).len() == first.len() + second.len()) by {
            assert(a.map_values(url).len() == texts(first).len());
            assert(b.map_values(url).len() == texts(second).len());
        }
    }
    let ghost posts = legacy@;
    rest.push(Bucket { category: String::from_str("动态"), ids: legacy });
    proof {
        assert(buckets_view(rest@) =~= buckets_view(kept).push(
            BucketView { category: dynamic_category(), ids: texts(posts) },
        ));
    }
    rest
}

/// The summary of the day that holds the instant `date` in Shanghai: the
/// ids of that day's categorized items grouped by category, picture posts
/// under one category and by their addresses. `None` where that day has no
/// first or no last second.
pub fn categorized(date: i64, store: &Store) -> (r: Option<Vec<Bucket>>)
    ensures
        r is Some <==> day_start(date as int) is Some && day_end(date as int) is Some,
        r matches Some(buckets) ==> buckets_view(buckets@) == summary_of(
            sorted_by_rank(
                in_window(store.records(), day_start(date as int)->0, day_end(date as int)->0),
            ),
        ),
{
    match store.all_categorized_in_date(date) {
        Some(records) => Some(remap(group_by_category(&records))),
        None => None,
    }
}

/// No category has two buckets.
pub open spec fn distinct_categories(buckets: Seq<BucketView>) -> bool {
    forall|i: int, j: int|
        0 <= i < buckets.len() && 0 <= j < buckets.len() && i != j ==> (#[trigger] buckets[i]).category
            != (#[trigger] buckets[j]).category
}

/// `bucket_index` finds the first bucket of the category, and finds none
/// only where there is none.
pub proof fn lemma_bucket_index_found(buckets: Seq<BucketView>, category: Seq<char>)
    ensures
        match bucket_index(buckets, category) {
            Some(i) => 0 <= i < buckets.len() && buckets[i].category == category,
            None => forall|k: int| 0 <= k < buckets.len() ==> (#[trigger] buckets[k]).category != category,
        },
    decreases buckets.len(),
{
    if buckets.len() > 0 {
        let front = buckets.drop_last();
        lemma_bucket_index_found(front, category);
        match bucket_index(front, category) {
            Some(i) => {
                assert(buckets[i] == front[i]);
            },
            None => {
                assert forall|k: int| 0 <= k < buckets.len() - 1 implies (#[trigger] buckets[k]).category
                    != category by {
                    assert(buckets[k] == front[k]);
                }
            },
        }
    }
}

/// Grouping gives every category one bucket.
pub proof fn lemma_grouped_distinct(records: Seq<Record>)
    ensures
        distinct_categories(grouped(records)),
    decreases records.len(),
{
    if records.len() > 0 {
        lemma_grouped_distinct(records.drop_last());
        let before = grouped(records.drop_last());
        match records.last().category {
            Some(category) => {
                lemma_bucket_index_found(before, category@);
                let after = with_entry(before, category@, records.last().id@);
                assert forall|i: int, j: int|
                    0 <= i < after.len() && 0 <= j < after.len() && i != j implies (
                #[trigger] after[i]).category != (#[trigger] after[j]).category by {
                    match bucket_index(before, category@) {
                        Some(k) => {
                            assert(after[i].category == before[i].category);
                            assert(after[j].category == before[j].category);
                        },
                        None => {
                            if i < before.len() && j < before.len() {
                            } else if i < before.len() {
                                assert(before[i].category != category@);
                            } else {
                                assert(before[j].category != category@);
                            }
                        },
                    }
                }
            },
            None => {},
        }
    }
}

proof fn lemma_others_distinct(buckets: Seq<BucketView>)
    requires
        distinct_categories(buckets),
    ensures
        distinct_categories(others(buckets)),
        forall|k: int|
            0 <= k < others(buckets).len() ==> !holds_dynamics(#[trigger] others(buckets)[k])
                && exists|i: int| 0 <= i < buckets.len() && buckets[i] == others(buckets)[k],
    decreases buckets.len(),
{
    reveal(Seq::filter);
    let out = others(buckets);
    if buckets.len() > 0 {
        let front = buckets.drop_last();
        let inner = others(front);
        assert forall|i: int, j: int|
            0 <= i < front.len() && 0 <= j < front.len() && i != j implies (#[trigger] front[i]).category
            != (#[trigger] front[j]).category by {
            assert(buckets[i].category != buckets[j].category);
        }
        lemma_others_distinct(front);
        assert forall|k: int| 0 <= k < out.len() implies !holds_dynamics(#[trigger] out[k])
            && exists|i: int| 0 <= i < buckets.len() && buckets[i] == out[k] by {
            if k < inner.len() {
                assert(out[k] == inner[k]);
                let i = choose|i: int| 0 <= i < front.len() && front[i] == inner[k];
                assert(buckets[i] == out[k]);
            } else {
                assert(buckets[buckets.len() - 1] == out[k]);
            }
        }
        assert forall|a: int, b: int|
            0 <= a < out.len() && 0 <= b < out.len() && a != b implies (#[trigger] out[a]).category
            != (#[trigger] out[b]).category by {
            if a < inner.len() && b < inner.len() {
                assert(inner[a].category != inner[b].category);
            } else if a < inner.len() {
                let m = choose|m: int| 0 <= m < front.len() && front[m] == inner[a];
                assert(buckets[m].category != buckets[buckets.len() - 1].category);
            } else {
                let m = choose|m: int| 0 <= m < front.len() && front[m] == inner[b];
                assert(buckets[m].category != buckets[buckets.len() - 1].category);
            }
        }
    }
}

/// A summary has one bucket for every category: it can be read as a map
/// from categories to lists.
pub proof fn lemma_summary_distinct(records: Seq<Record>)
    ensures
        distinct_categories(summary_of(records)),
{
    lemma_grouped_distinct(records);
    let buckets = grouped(records);
    lemma_others_distinct(buckets);
    let rest = others(buckets);
    let out = summary_of(records);
    assert forall|i: int, j: int|
        0 <= i < out.len() && 0 <= j < out.len() && i != j implies (#[trigger] out[i]).category
        != (#[trigger] out[j]).category by {
        if i < rest.len() && j < rest.len() {
            assert(rest[i].category != rest[j].category);
        } else if i < rest.len() {
            assert(!holds_dynamics(rest[i]));
        } else {
            assert(!holds_dynamics(rest[j]));
        }
    }
}

/// The texts of a list as JSON strings.
pub open spec fn texts_json(ids: Seq<Seq<char>>) -> Seq<JsonView> {
    ids.map_values(|id: Seq<char>| JsonView::Text(id))
}

/// The summary as JSON: an object that holds under every category the
/// list of its ids.
pub open spec fn summary_json(buckets: Seq<BucketView>) -> JsonView
    decreases buckets.len(),
{
    if buckets.len() == 0 {
        JsonView::Object(Map::empty())
    } else {
        with_member(
            summary_json(buckets.drop_last()),
            buckets.last().category,
            JsonView::Array(texts_json(buckets.last().ids)),
        )
    }
}

fn ids_to_json(ids: &Vec<String>) -> (r: Vec<serde_json::Value>)
    ensures
        jsons_of(r@) == texts_json(texts(ids@)),
{
    let mut out: Vec<serde_json::Value> = Vec::new();
    let mut i: usize = 0;
    while i < ids.len()
        invariant
            i <= ids.len(),
            out@.len() == i,
            forall|k: int| 0 <= k < i ==> json_of(#[trigger] out@[k]) == JsonView::Text(ids@[k]@),
        decreases ids.len() - i,
    {
        out.push(json_text(ids[i].as_str()));
        i += 1;
    }
    proof {
        assert(jsons_of(out@) =~= texts_json(texts(ids@)));
    }
    out
}

/// Writes a summary as JSON.
pub fn summary_to_json(buckets: &Vec<Bucket>) -> (r: serde_json::Value)
    ensures
        json_of(r) == summary_json(buckets_view(buckets@)),
{
    let mut o = json_object();
    let ghost all = buckets_view(buckets@);
    let mut i: usize = 0;
    while i < buckets.len()
        invariant
            i <= buckets.len(),
            all == buckets_view(buckets@),
            json_of(o) == summary_json(all.take(i as int)),
        decreases buckets.len() - i,
    {
        proof {
            assert(all.take(i as int + 1).drop_last() =~= all.take(i as int));
            assert(all.take(i as int + 1).last() == buckets@[i as int]@);
        }
        json_insert(&mut o, buckets[i].category.as_str(), json_array(ids_to_json(&buckets[i].ids)));
        i += 1;
    }
    proof {
        assert(all.take(all.len() as int) =~= all);
    }
    o
}

} // verus!
