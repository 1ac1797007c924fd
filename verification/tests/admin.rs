use asoul_weekly::biz::cards::Block;
use asoul_weekly::db::{Record, Store};
use asoul_weekly::http::category::{get_category, patch_category, post_category, remove_category};
use asoul_weekly::http::error::Error;

fn a_store() -> Store {
    let mut store = Store::new();
    store
        .insert(Record::pending(
            "bv1".to_string(),
            vec![Block::Rule],
            "om".to_string(),
            5,
            "a".to_string(),
        ))
        .unwrap();
    store
}

#[test]
fn an_item_is_filed_by_hand() {
    let mut store = a_store();
    assert_eq!(post_category(&mut store, "bv2", "音乐", 77), Ok(()));
    let rec = store.from_id("bv2").unwrap();
    assert_eq!(rec.category, Some("音乐".to_string()));
    assert_eq!(rec.mark_time, Some(77));
    assert_eq!(rec.created_at, 77);
    assert_eq!(rec.author, "unknown");
    assert_eq!(rec.message_id, "");
    assert!(rec.card.is_empty());
}

#[test]
fn filing_a_recorded_item_is_refused() {
    let mut store = a_store();
    assert_eq!(
        post_category(&mut store, "bv1", "音乐", 77),
        Err(Error("数据库已经存在 id 为 bv1 的条目".to_string()))
    );
    assert_eq!(store.from_id("bv1").unwrap().category, None);
    assert_eq!(store.len(), 1);
}

#[test]
fn the_category_is_read() {
    let mut store = a_store();
    assert_eq!(get_category(&store, "bv1"), Ok(None));
    assert!(store.set_category("bv1", "舞蹈", 1));
    assert_eq!(get_category(&store, "bv1"), Ok(Some("舞蹈".to_string())));
    assert_eq!(get_category(&store, "bv9"), Err(Error("数据库不存在该条目".to_string())));
}

#[test]
fn the_category_is_corrected() {
    let mut store = a_store();
    assert_eq!(patch_category(&mut store, "bv1", "舞蹈", 9), Ok(()));
    assert_eq!(store.from_id("bv1").unwrap().category, Some("舞蹈".to_string()));
    assert_eq!(store.from_id("bv1").unwrap().mark_time, Some(9));
    assert_eq!(
        patch_category(&mut store, "bv9", "舞蹈", 9),
        Err(Error("数据库不存在 bv9 的条目".to_string()))
    );
}

#[test]
fn the_category_is_taken_away() {
    let mut store = a_store();
    assert!(store.set_category("bv1", "舞蹈", 1));
    assert_eq!(remove_category(&mut store, "bv1"), Ok(()));
    assert_eq!(store.from_id("bv1").unwrap().category, None);
    assert_eq!(
        remove_category(&mut store, "bv9"),
        Err(Error("数据库不存在 bv9 的条目".to_string()))
    );
}
