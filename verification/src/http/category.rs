//! Manual correction of an item's category.
use crate::biz::cards::{body_view, BlockView};
use crate::db::{opt_text, with_category, without_category, Record, RecordView, Store};
use crate::http::error::Error;
use crate::keyed::{first_with, has_key};
use vstd::prelude::*;
use vstd::string::*;

verus! {

/// The words for an item that is recorded already.
pub open spec fn exists_text(id: Seq<char>) -> Seq<char> {
    "数据库已经存在 id 为 "@ + id + " 的条目"@
}

/// The words for an item that has no record.
pub open spec fn missing_text(id: Seq<char>) -> Seq<char> {
    "数据库不存在 "@ + id + " 的条目"@
}

/// The words for a query about an item that has no record.
pub open spec fn unknown_text() -> Seq<char> {
    "数据库不存在该条目"@
}

fn exists_error(id: &str) -> (e: Error)
    ensures
        e.0@ == exists_text(id@),
{
    let mut s = String::from_str("数据库已经存在 id 为 ");
    s.append(id);
    s.append(" 的条目");
    Error(s)
}

fn missing_error(id: &str) -> (e: Error)
    ensures
        e.0@ == missing_text(id@),
{
    let mut s = String::from_str("数据库不存在 ");
    s.append(id);
    s.append(" 的条目");
    Error(s)
}

/// The record that is written for an item that is filed by hand at the
/// instant `now`: no card, no message, an unknown author.
pub open spec fn filed_record(id: Seq<char>, category: Seq<char>, now: int) -> RecordView {
    RecordView {
        id,
        card: Seq::empty(),
        message_id: ""@,
        created_at: now,
        category: Some(category),
        mark_time: Some(now),
        author: "unknown"@,
    }
}

/// Files an item that the pipeline has not seen under `category`. An item
/// that has a record is refused.
pub fn post_category(store: &mut Store, id: &str, category: &str, now: i64) -> (r: Result<(), Error>)
    requires
        old(store).wf(),
    ensures
        final(store).wf(),
        final(store).group_records() == old(store).group_records(),
        r is Ok <==> !has_key(old(store).records(), id@),
        r is Ok ==> {
            &&& final(store).records().len() == old(store).records().len() + 1
            &&& final(store).records().drop_last() == old(store).records()
            &&& final(store).records().last()@ == filed_record(id@, category@, now as int)
        },
        r matches Err(e) ==> e.0@ == exists_text(id@) && final(store).records() == old(
            store,
        ).records(),
{
    if store.is_sent(id) {
        return Err(exists_error(id));
    }
    let record = Record {
        id: String::from_str(id),
        card: Vec::new(),
        message_id: String::from_str(""),
        created_at: now,
        category: Some(String::from_str(category)),
        mark_time: Some(now),
        author: String::from_str("unknown"),
    };
    proof {
        assert(body_view(record.card@) =~= Seq::<BlockView>::empty());
    }
    let done = store.insert(record);
    proof {
        assert(done is Ok);
        assert(store.records().drop_last() =~= old(store).records());
    }
    Ok(())
}

/// The category of the item `id`; `None` while moderation is pending.
pub fn get_category(store: &Store, id: &str) -> (r: Result<Option<String>, Error>)
    ensures
        r is Ok <==> has_key(store.records(), id@),
        r matches Ok(category) ==> opt_text(category) == opt_text(
            store.records()[first_with(store.records(), id@)->0].category,
        ),
        r matches Err(e) ==> e.0@ == unknown_text(),
{
    match store.from_id(id) {
        Some(record) => Ok(crate::db::copy_opt(&record.category)),
        None => Err(Error(String::from_str("数据库不存在该条目"))),
    }
}

/// Gives the item `id` the category `category`. An item that has no record
/// is refused.
pub fn patch_category(store: &mut Store, id: &str, category: &str, now: i64) -> (r: Result<(), Error>)
    requires
        old(store).wf(),
    ensures
        final(store).wf(),
        final(store).group_records() == old(store).group_records(),
        final(store).records().len() == old(store).records().len(),
        r is Ok <==> has_key(old(store).records(), id@),
        forall|k: int|
            0 <= k < old(store).records().len() ==> #[trigger] final(store).records()[k]@ == (if old(
                store,
            ).records()[k].id@ == id@ {
                with_category(old(store).records()[k]@, category@, now as int)
            } else {
                old(store).records()[k]@
            }),
        r matches Err(e) ==> e.0@ == missing_text(id@),
{
    if store.set_category(id, category, now) {
        Ok(())
    } else {
        Err(missing_error(id))
    }
}

/// Takes the category of the item `id` away. An item that has no record
/// is refused.
pub fn remove_category(store: &mut Store, id: &str) -> (r: Result<(), Error>)
    requires
        old(store).wf(),
    ensures
        final(store).wf(),
        final(store).group_records() == old(store).group_records(),
        final(store).records().len() == old(store).records().len(),
        r is Ok <==> has_key(old(store).records(), id@),
        forall|k: int|
            0 <= k < old(store).records().len() ==> #[trigger] final(store).records()[k]@ == (if old(
                store,
            ).records()[k].id@ == id@ {
                without_category(old(store).records()[k]@)
            } else {
                old(store).records()[k]@
            }),
        r matches Err(e) ==> e.0@ == missing_text(id@),
{
    if store.remove_category(id) {
        Ok(())
    } else {
        Err(missing_error(id))
    }
}

} // verus!
