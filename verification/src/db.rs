//! The persistence store: item records and group records, with the rules
//! that every other component relies on. An item id is never recorded
//! twice, and neither is a group name.
use crate::biz::cards::{body_view, copy_body, BlockView, CardBody};
use crate::keyed::{distinct_keys, first_with, has_key, lemma_first_with, position, Keyed};
use crate::localtime::{local_instant_on_day, parse_utc, parsed_utc_seconds, shanghai_instant_on_day};
use crate::order::{lemma_sorted_map, sort_by_rank, sorted_by_rank, Ranked};
use crate::text::str_eq;
use vstd::prelude::*;

verus! {

/// A row of the item table as it is stored: the card as JSON text, the
/// creation time in the column's own type.
#[derive(Debug, Clone)]
pub struct RawItem<T> {
    pub id: String,
    pub json: String,
    pub message_id: String,
    pub create_time: T,
    pub category: Option<String>,
    pub author: String,
}

/// A row of the item table with its creation time as an instant.
pub type Item = RawItem<i64>;

/// Why a stored row could not be read.
#[derive(Debug, PartialEq, Eq, Clone, Copy)]
pub enum RowError {
    /// The creation time is in neither of the two layouts of the column.
    CreateTime,
}

/// The layout of a stored creation time without a fraction of a second.
pub open spec fn whole_seconds_layout() -> Seq<char> {
    "%Y-%m-%d %H:%M:%S"@
}

/// The layout of a stored creation time with a fraction of a second.
pub open spec fn fractional_layout() -> Seq<char> {
    "%Y-%m-%d %H:%M:%S%.f"@
}

/// The instant that a stored creation time denotes: read without a
/// fraction of a second where that succeeds, with one otherwise.
pub open spec fn stored_instant(text: Seq<char>) -> Option<int> {
    match parsed_utc_seconds(text, whole_seconds_layout()) {
        Some(t) => Some(t),
        None => parsed_utc_seconds(text, fractional_layout()),
    }
}

impl RawItem<String> {
    /// This row with `create_time` as its creation time; every other
    /// column is handed over as it is.
    pub fn with_create_time(self, create_time: i64) -> (out: Item)
        ensures
            out.id == self.id,
            out.json == self.json,
            out.message_id == self.message_id,
            out.create_time == create_time,
            out.category == self.category,
            out.author == self.author,
    {
        RawItem {
            id: self.id,
            json: self.json,
            message_id: self.message_id,
            create_time,
            category: self.category,
            author: self.author,
        }
    }
}

impl RawItem<i64> {
    /// Reads the creation time of a stored row; every other column is
    /// handed over as it is.
    pub fn try_from(item: RawItem<String>) -> (r: Result<Item, RowError>)
        ensures
            r is Ok <==> stored_instant(item.create_time@) is Some,
            r matches Ok(out) ==> {
                &&& out.id == item.id
                &&& out.json == item.json
                &&& out.message_id == item.message_id
                &&& out.category == item.category
                &&& out.author == item.author
                &&& stored_instant(item.create_time@) == Some(out.create_time as int)
            },
            r matches Err(e) ==> e == RowError::CreateTime,
    {
        let first = parse_utc(item.create_time.as_str(), "%Y-%m-%d %H:%M:%S");
        let create_time = match first {
            Ok(t) => t,
            Err(_) => match parse_utc(item.create_time.as_str(), "%Y-%m-%d %H:%M:%S%.f") {
                Ok(t) => t,
                Err(_) => {
                    return Err(RowError::CreateTime);
                },
            },
        };
        Ok(item.with_create_time(create_time))
    }
}

/// The text of an optional string.
pub open spec fn opt_text(s: Option<String>) -> Option<Seq<char>> {
    match s {
        Some(t) => Some(t@),
        None => None,
    }
}

/// A copy of an optional string.
pub fn copy_opt(s: &Option<String>) -> (r: Option<String>)
    ensures
        opt_text(r) == opt_text(*s),
{
    match s {
        Some(t) => Some(t.clone()),
        None => None,
    }
}

/// An item record: one notified item and what the moderators decided.
#[derive(Debug, Clone)]
pub struct Record {
    /// The content key of the item; never changes once recorded.
    pub id: String,
    /// The item's own three-part card body, as it is shown now.
    pub card: CardBody,
    /// The chat message that the item was delivered in.
    pub message_id: String,
    /// When the item was published.
    pub created_at: i64,
    /// The category; `None` while moderation is pending.
    pub category: Option<String>,
    /// When the category was last written.
    pub mark_time: Option<i64>,
    pub author: String,
}

/// What a [`Record`] holds.
pub struct RecordView {
    pub id: Seq<char>,
    pub card: Seq<BlockView>,
    pub message_id: Seq<char>,
    pub created_at: int,
    pub category: Option<Seq<char>>,
    pub mark_time: Option<int>,
    pub author: Seq<char>,
}

impl View for Record {
    type V = RecordView;

    open spec fn view(&self) -> RecordView {
        RecordView {
            id: self.id@,
            card: body_view(self.card@),
            message_id: self.message_id@,
            created_at: self.created_at as int,
            category: opt_text(self.category),
            mark_time: match self.mark_time {
                Some(t) => Some(t as int),
                None => None,
            },
            author: self.author@,
        }
    }
}

impl Keyed for Record {
    open spec fn key(&self) -> Seq<char> {
        self.id@
    }

    fn key_str(&self) -> (k: &str) {
        self.id.as_str()
    }
}

impl Ranked for Record {
    open spec fn rank(&self) -> int {
        self.created_at as int
    }

    fn rank_value(&self) -> (t: i64) {
        self.created_at
    }
}

impl<'a> Ranked for &'a Record {
    open spec fn rank(&self) -> int {
        (**self).created_at as int
    }

    fn rank_value(&self) -> (t: i64) {
        self.created_at
    }
}

impl Record {
    /// The record of an item that was just delivered in the message
    /// `message_id`: moderation is pending.
    pub fn pending(id: String, card: CardBody, message_id: String, created_at: i64, author: String) -> (r:
        Record)
        ensures
            r.id == id,
            r.card == card,
            r.message_id == message_id,
            r.created_at == created_at,
            r.category is None,
            r.mark_time is None,
            r.author == author,
    {
        Record { id, card, message_id, created_at, category: None, mark_time: None, author }
    }

    /// The record that a stored row stands for, `card` being the card that
    /// the row holds as text. The time of the decision is not part of a
    /// row.
    pub fn from_item(item: Item, card: CardBody) -> (r: Record)
        ensures
            r.id == item.id,
            r.card == card,
            r.message_id == item.message_id,
            r.created_at == item.create_time,
            r.category == item.category,
            r.mark_time is None,
            r.author == item.author,
    {
        Record {
            id: item.id,
            card,
            message_id: item.message_id,
            created_at: item.create_time,
            category: item.category,
            mark_time: None,
            author: item.author,
        }
    }

    /// The row that stores this record, `json` being its card as text.
    pub fn into_item(self, json: String) -> (item: Item)
        ensures
            item.id == self.id,
            item.json == json,
            item.message_id == self.message_id,
            item.create_time == self.created_at,
            item.category == self.category,
            item.author == self.author,
    {
        RawItem {
            id: self.id,
            json,
            message_id: self.message_id,
            create_time: self.created_at,
            category: self.category,
            author: self.author,
        }
    }

    /// A copy of this record.
    pub fn duplicate(&self) -> (r: Record)
        ensures
            r@ == self@,
    {
        Record {
            id: self.id.clone(),
            card: copy_body(&self.card),
            message_id: self.message_id.clone(),
            created_at: self.created_at,
            category: copy_opt(&self.category),
            mark_time: self.mark_time,
            author: self.author.clone(),
        }
    }

    /// Whether a category has been assigned.
    pub fn is_categorized(&self) -> (r: bool)
        ensures
            r == self.category is Some,
    {
        self.category.is_some()
    }
}

/// A group record: the chat group that stands behind a dated channel name.
#[derive(Debug, Clone)]
pub struct Group {
    pub name: String,
    pub chat_id: String,
}

impl Keyed for Group {
    open spec fn key(&self) -> Seq<char> {
        self.name@
    }

    fn key_str(&self) -> (k: &str) {
        self.name.as_str()
    }
}

impl Group {
    /// A copy of this group record.
    pub fn duplicate(&self) -> (r: Group)
        ensures
            r.name@ == self.name@,
            r.chat_id@ == self.chat_id@,
    {
        Group { name: self.name.clone(), chat_id: self.chat_id.clone() }
    }
}

/// Why the store refused a write.
#[derive(Debug, PartialEq, Eq, Clone, Copy)]
pub enum StoreError {
    /// An item record with this id exists already.
    DuplicateItem,
    /// A group record with this name exists already.
    DuplicateGroup,
}

/// The cards of the records delivered in the message `message_id`, in the
/// order of the records.
pub open spec fn cards_of_message(records: Seq<Record>, message_id: Seq<char>) -> Seq<Seq<BlockView>>
    decreases records.len(),
{
    if records.len() == 0 {
        Seq::empty()
    } else if records.last().message_id@ == message_id {
        cards_of_message(records.drop_last(), message_id).push(body_view(records.last().card@))
    } else {
        cards_of_message(records.drop_last(), message_id)
    }
}

/// Whether a record counts for the summary of the window from `start` to
/// `end`: it has a category and was published inside the window, both ends
/// included.
pub open spec fn counts_in_window(r: Record, start: int, end: int) -> bool {
    r.category is Some && start <= r.created_at <= end
}

/// The records that count for the window, in the order of the records.
pub open spec fn in_window(records: Seq<Record>, start: int, end: int) -> Seq<Record> {
    records.filter(|r: Record| counts_in_window(r, start, end))
}

/// The first second of the Shanghai calendar day that holds the instant
/// `date`.
pub open spec fn day_start(date: int) -> Option<int> {
    shanghai_instant_on_day(date, 0, 0, 0)
}

/// The last second of the Shanghai calendar day that holds the instant
/// `date`.
pub open spec fn day_end(date: int) -> Option<int> {
    shanghai_instant_on_day(date, 23, 59, 59)
}

/// The first and the last second of the Shanghai calendar day that holds
/// the instant `date`; `None` where that day has no first or no last
/// second.
pub fn day_bounds(date: i64) -> (r: Option<(i64, i64)>)
    ensures
        r is Some <==> day_start(date as int) is Some && day_end(date as int) is Some,
        r matches Some(bounds) ==> day_start(date as int) == Some(bounds.0 as int) && day_end(
            date as int,
        ) == Some(bounds.1 as int),
{
    let start = match local_instant_on_day(date, 0, 0, 0) {
        Some(t) => t,
        None => {
            return None;
        },
    };
    let end = match local_instant_on_day(date, 23, 59, 59) {
        Some(t) => t,
        None => {
            return None;
        },
    };
    Some((start, end))
}

/// `r` after a moderator gave it `category` at the instant `now`.
pub open spec fn with_category(r: RecordView, category: Seq<char>, now: int) -> RecordView {
    RecordView { category: Some(category), mark_time: Some(now), ..r }
}

/// `r` with moderation pending again.
pub open spec fn without_category(r: RecordView) -> RecordView {
    RecordView { category: None, ..r }
}

/// `r` with `card` as its card.
pub open spec fn with_card(r: RecordView, card: Seq<BlockView>) -> RecordView {
    RecordView { card, ..r }
}

/// The persistence store.
pub struct Store {
    items: Vec<Record>,
    groups: Vec<Group>,
}

impl Store {
    /// The item records, oldest write first.
    pub closed spec fn records(&self) -> Seq<Record> {
        self.items@
    }

    /// The group records, oldest write first.
    pub closed spec fn group_records(&self) -> Seq<Group> {
        self.groups@
    }

    /// The store's invariant: no item id and no group name is recorded
    /// twice.
    pub open spec fn wf(&self) -> bool {
        distinct_keys(self.records()) && distinct_keys(self.group_records())
    }

    /// An empty store.
    pub fn new() -> (s: Store)
        ensures
            s.wf(),
            s.records() == Seq::<Record>::empty(),
            s.group_records() == Seq::<Group>::empty(),
    {
        Store { items: Vec::new(), groups: Vec::new() }
    }

    /// The number of item records.
    pub fn len(&self) -> (n: usize)
        ensures
            n == self.records().len(),
    {
        self.items.len()
    }

    /// Whether an item with this id has been recorded, and so has been
    /// shown to the moderators.
    pub fn is_sent(&self, id: &str) -> (r: bool)
        ensures
            r == has_key(self.records(), id@),
    {
        position(&self.items, id).is_some()
    }

    /// Records an item. An id that is recorded already is refused and the
    /// store stays as it is.
    pub fn insert(&mut self, item: Record) -> (r: Result<(), StoreError>)
        requires
            old(self).wf(),
        ensures
            final(self).wf(),
            final(self).group_records() == old(self).group_records(),
            r is Ok <==> !has_key(old(self).records(), item.id@),
            r is Ok ==> final(self).records() == old(self).records().push(item),
            r matches Err(e) ==> e == StoreError::DuplicateItem && final(self).records() == old(
                self,
            ).records(),
    {
        if position(&self.items, item.id.as_str()).is_some() {
            return Err(StoreError::DuplicateItem);
        }
        proof {
            lemma_first_with(self.items@, item.id@);
            let out = self.items@.push(item);
            assert forall|i: int, j: int|
                0 <= i < out.len() && 0 <= j < out.len() && i != j implies #[trigger] out[i].key()
                != #[trigger] out[j].key() by {
                if i < self.items@.len() && j < self.items@.len() {
                    assert(self.items@[i].key() != self.items@[j].key());
                } else if i < self.items@.len() {
                    assert(self.items@[i].key() != item.id@);
                } else {
                    assert(self.items@[j].key() != item.id@);
                }
            }
        }
        self.items.push(item);
        Ok(())
    }

    /// The record of the item `id`.
    pub fn from_id(&self, id: &str) -> (r: Option<&Record>)
        ensures
            r is Some <==> has_key(self.records(), id@),
            r matches Some(rec) ==> first_with(self.records(), id@) is Some && *rec
                == self.records()[first_with(self.records(), id@)->0] && rec.id@ == id@,
    {
        match position(&self.items, id) {
            Some(i) => Some(&self.items[i]),
            None => None,
        }
    }

    /// The card of the item `id`.
    pub fn json_from(&self, id: &str) -> (r: Option<CardBody>)
        ensures
            r is Some <==> has_key(self.records(), id@),
            r matches Some(card) ==> body_view(card@) == body_view(
                self.records()[first_with(self.records(), id@)->0].card@,
            ),
    {
        match position(&self.items, id) {
            Some(i) => Some(copy_body(&self.items[i].card)),
            None => None,
        }
    }

    /// Writes `card` over the card of the item `id`. Returns whether there
    /// is such an item; where there is none, nothing changes.
    pub fn set_json(&mut self, id: &str, card: CardBody) -> (found: bool)
        requires
            old(self).wf(),
        ensures
            final(self).wf(),
            final(self).group_records() == old(self).group_records(),
            found == has_key(old(self).records(), id@),
            final(self).records().len() == old(self).records().len(),
            forall|k: int|
                0 <= k < old(self).records().len() ==> #[trigger] final(self).records()[k]@ == (if old(
                    self,
                ).records()[k].id@ == id@ {
                    with_card(old(self).records()[k]@, body_view(card@))
                } else {
                    old(self).records()[k]@
                }),
    {
        match position(&self.items, id) {
            Some(i) => {
                proof {
                    assert forall|k: int| 0 <= k < self.items@.len() && k != i implies (
                    #[trigger] self.items@[k]).id@ != id@ by {
                        assert(self.items@[k].key() != self.items@[i as int].key());
                    }
                }
                self.items[i].card = card;
                proof {
                    let before = old(self).items@;
                    let after = self.items@;
                    assert(after.len() == before.len());
                    assert forall|k: int| 0 <= k < before.len() implies #[trigger] after[k]@ == (
                    if before[k].id@ == id@ {
                        with_card(before[k]@, body_view(card@))
                    } else {
                        before[k]@
                    }) by {
                        if k != i {
                            assert(after[k] == before[k]);
                        }
                    }
                    assert forall|a: int, b: int|
                        0 <= a < after.len() && 0 <= b < after.len() && a != b implies #[trigger] after[a].key()
                        != #[trigger] after[b].key() by {
                        assert(before[a].key() != before[b].key());
                    }
                }
                true
            },
            None => {
                proof {
                    assert forall|k: int| 0 <= k < self.items@.len() implies (
                    #[trigger] self.items@[k]).id@ != id@ by {
                        if self.items@[k].id@ == id@ {
                            assert(self.items@[k].key() == id@);
                        }
                    }
                }
                false
            },
        }
    }

    /// Assigns `category` to the item `id` and notes `now` as the time of the
    /// decision. Returns whether there is such an item; where there is none,
    /// nothing changes.
    pub fn set_category(&mut self, id: &str, category: &str, now: i64) -> (found: bool)
        requires
            old(self).wf(),
        ensures
            final(self).wf(),
            final(self).group_records() == old(self).group_records(),
            found == has_key(old(self).records(), id@),
            final(self).records().len() == old(self).records().len(),
            forall|k: int|
                0 <= k < old(self).records().len() ==> #[trigger] final(self).records()[k]@ == (if old(
                    self,
                ).records()[k].id@ == id@ {
                    with_category(old(self).records()[k]@, category@, now as int)
                } else {
                    old(self).records()[k]@
                }),
    {
        match position(&self.items, id) {
            Some(i) => {
                proof {
                    assert forall|k: int| 0 <= k < self.items@.len() && k != i implies (
                    #[trigger] self.items@[k]).id@ != id@ by {
                        assert(self.items@[k].key() != self.items@[i as int].key());
                    }
                }
                self.items[i].category = Some(String::from_str(category));
                self.items[i].mark_time = Some(now);
                proof {
                    let before = old(self).items@;
                    let after = self.items@;
                    assert(after.len() == before.len());
                    assert forall|k: int| 0 <= k < before.len() implies #[trigger] after[k]@ == (
                    if before[k].id@ == id@ {
                        with_category(before[k]@, category@, now as int)
                    } else {
                        before[k]@
                    }) by {
                        if k != i {
                            assert(after[k] == before[k]);
                        }
                    }
                    assert forall|a: int, b: int|
                        0 <= a < after.len() && 0 <= b < after.len() && a != b implies #[trigger] after[a].key()
                        != #[trigger] after[b].key() by {
                        assert(before[a].key() != before[b].key());
                    }
                }
                true
            },
            None => {
                proof {
                    assert forall|k: int| 0 <= k < self.items@.len() implies (
                    #[trigger] self.items@[k]).id@ != id@ by {
                        if self.items@[k].id@ == id@ {
                            assert(self.items@[k].key() == id@);
                        }
                    }
                }
                false
            },
        }
    }

    /// Takes the category of the item `id` away, so that moderation is
    /// pending again. Returns whether there is such an item; where there is
    /// none, nothing changes.
    pub fn remove_category(&mut self, id: &str) -> (found: bool)
        requires
            old(self).wf(),
        ensures
            final(self).wf(),
            final(self).group_records() == old(self).group_records(),
            found == has_key(old(self).records(), id@),
            final(self).records().len() == old(self).records().len(),
            forall|k: int|
                0 <= k < old(self).records().len() ==> #[trigger] final(self).records()[k]@ == (if old(
                    self,
                ).records()[k].id@ == id@ {
                    without_category(old(self).records()[k]@)
                } else {
                    old(self).records()[k]@
                }),
    {
        match position(&self.items, id) {
            Some(i) => {
                proof {
                    assert forall|k: int| 0 <= k < self.items@.len() && k != i implies (
                    #[trigger] self.items@[k]).id@ != id@ by {
                        assert(self.items@[k].key() != self.items@[i as int].key());
                    }
                }
                self.items[i].category = None;
                proof {
                    let before = old(self).items@;
                    let after = self.items@;
                    assert(after.len() == before.len());
                    assert forall|k: int| 0 <= k < before.len() implies #[trigger] after[k]@ == (
                    if before[k].id@ == id@ {
                        without_category(before[k]@)
                    } else {
                        before[k]@
                    }) by {
                        if k != i {
                            assert(after[k] == before[k]);
                        }
                    }
                    assert forall|a: int, b: int|
                        0 <= a < after.len() && 0 <= b < after.len() && a != b implies #[trigger] after[a].key()
                        != #[trigger] after[b].key() by {
                        assert(before[a].key() != before[b].key());
                    }
                }
                true
            },
            None => {
                proof {
                    assert forall|k: int| 0 <= k < self.items@.len() implies (
                    #[trigger] self.items@[k]).id@ != id@ by {
                        if self.items@[k].id@ == id@ {
                            assert(self.items@[k].key() == id@);
                        }
                    }
                }
                false
            },
        }
    }

    /// The cards of all items delivered in the message `message_id`, in the
    /// order in which the items were recorded.
    pub fn all_item_json(&self, message_id: &str) -> (r: Vec<CardBody>)
        ensures
            crate::biz::cards::bodies_view(r@) == cards_of_message(self.records(), message_id@),
    {
        let mut out: Vec<CardBody> = Vec::new();
        let mut i: usize = 0;
        while i < self.items.len()
            invariant
                i <= self.items.len(),
                crate::biz::cards::bodies_view(out@) == cards_of_message(
                    self.items@.take(i as int),
                    message_id@,
                ),
            decreases self.items.len() - i,
        {
            proof {
                assert(self.items@.take(i as int + 1).drop_last() =~= self.items@.take(i as int));
            }
            if str_eq(self.items[i].message_id.as_str(), message_id) {
                let ghost before = out@;
                out.push(copy_body(&self.items[i].card));
                proof {
                    assert(crate::biz::cards::bodies_view(out@) =~= crate::biz::cards::bodies_view(
                        before,
                    ).push(body_view(self.items@[i as int].card@)));
                }
            }
            i += 1;
        }
        proof {
            assert(self.items@.take(self.items@.len() as int) =~= self.items@);
        }
        out
    }

    /// The categorized items published between `start` and `end`, both
    /// included, from earliest to latest.
    pub fn categorized_between(&self, start: i64, end: i64) -> (r: Vec<&Record>)
        ensures
            r@.map_values(|x: &Record| *x) == sorted_by_rank(
                in_window(self.records(), start as int, end as int),
            ),
    {
        let mut picked: Vec<&Record> = Vec::new();
        let ghost keep = |r: Record| counts_in_window(r, start as int, end as int);
        let mut i: usize = 0;
        while i < self.items.len()
            invariant
                i <= self.items.len(),
                keep == (|r: Record| counts_in_window(r, start as int, end as int)),
                picked@.map_values(|x: &Record| *x) == self.items@.take(i as int).filter(keep),
            decreases self.items.len() - i,
        {
            let rec = &self.items[i];
            proof {
                let upto = self.items@.take(i as int + 1);
                assert(upto.drop_last() =~= self.items@.take(i as int));
                assert(upto.last() == *rec);
                reveal(Seq::filter);
            }
            if rec.category.is_some() && start <= rec.created_at && rec.created_at <= end {
                let ghost before = picked@;
                picked.push(rec);
                proof {
                    assert(picked@.map_values(|x: &Record| *x) =~= before.map_values(
                        |x: &Record| *x,
                    ).push(*rec));
                }
            }
            i += 1;
        }
        proof {
            assert(self.items@.take(self.items@.len() as int) =~= self.items@);
            lemma_sorted_map::<&Record, Record>(picked@, |x: &Record| *x);
        }
        sort_by_rank(picked)
    }

    /// The categorized items that were published on the Shanghai calendar
    /// day that holds the instant `date`, from earliest to latest. `None`
    /// where that day has no first or no last second.
    pub fn all_categorized_in_date(&self, date: i64) -> (r: Option<Vec<&Record>>)
        ensures
            r is Some <==> day_start(date as int) is Some && day_end(date as int) is Some,
            r matches Some(found) ==> found@.map_values(|x: &Record| *x) == sorted_by_rank(
                in_window(self.records(), day_start(date as int)->0, day_end(date as int)->0),
            ),
    {
        let (start, end) = match day_bounds(date) {
            Some(bounds) => bounds,
            None => {
                return None;
            },
        };
        Some(self.categorized_between(start, end))
    }

    /// The group record of the name `name`.
    pub fn from_name(&self, name: &str) -> (r: Option<Group>)
        ensures
            r is Some <==> has_key(self.group_records(), name@),
            r matches Some(g) ==> g.name@ == name@ && g.chat_id@ == self.group_records()[first_with(
                self.group_records(),
                name@,
            )->0].chat_id@,
    {
        match position(&self.groups, name) {
            Some(i) => Some(self.groups[i].duplicate()),
            None => None,
        }
    }

    /// Records that the chat group `chat_id` stands behind `name`. A name
    /// that is recorded already is refused and the store stays as it is.
    pub fn insert_group(&mut self, name: &str, chat_id: &str) -> (r: Result<Group, StoreError>)
        requires
            old(self).wf(),
        ensures
            final(self).wf(),
            final(self).records() == old(self).records(),
            r is Ok <==> !has_key(old(self).group_records(), name@),
            r matches Ok(g) ==> {
                &&& g.name@ == name@
                &&& g.chat_id@ == chat_id@
                &&& final(self).group_records().len() == old(self).group_records().len() + 1
                &&& final(self).group_records().drop_last() == old(self).group_records()
                &&& final(self).group_records().last().name@ == name@
                &&& final(self).group_records().last().chat_id@ == chat_id@
            },
            r matches Err(e) ==> e == StoreError::DuplicateGroup && final(self).group_records()
                == old(self).group_records(),
    {
        if position(&self.groups, name).is_some() {
            return Err(StoreError::DuplicateGroup);
        }
        let g = Group { name: String::from_str(name), chat_id: String::from_str(chat_id) };
        proof {
            lemma_first_with(self.groups@, name@);
            let out = self.groups@.push(g);
            assert forall|i: int, j: int|
                0 <= i < out.len() && 0 <= j < out.len() && i != j implies #[trigger] out[i].key()
                != #[trigger] out[j].key() by {
                if i < self.groups@.len() && j < self.groups@.len() {
                    assert(self.groups@[i].key() != self.groups@[j].key());
                } else if i < self.groups@.len() {
                    assert(self.groups@[i].key() != name@);
                } else {
                    assert(self.groups@[j].key() != name@);
                }
            }
            assert(out.drop_last() =~= self.groups@);
        }
        let copy = g.duplicate();
        self.groups.push(g);
        Ok(copy)
    }
}

} // verus!
