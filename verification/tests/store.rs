use asoul_weekly::biz::cards::Block;
use asoul_weekly::db::{Item, RawItem, Record, RowError, Store, StoreError};

fn note(text: &str) -> Block {
    Block::Note { content: text.to_string() }
}

fn a_record(id: &str, message_id: &str, created_at: i64) -> Record {
    Record::pending(
        id.to_string(),
        vec![note(id)],
        message_id.to_string(),
        created_at,
        "author".to_string(),
    )
}

fn a_row(create_time: &str) -> RawItem<String> {
    RawItem {
        id: "1dkfjgndkfjg".to_string(),
        json: "[]".to_string(),
        message_id: "asds".to_string(),
        create_time: create_time.to_string(),
        category: None,
        author: "test author".to_string(),
    }
}

#[test]
fn test_parse_t() {
    let item: Item = RawItem::try_from(a_row("2021-07-23 03:40:28")).unwrap();
    assert_eq!(item.create_time, 1627011628);
    assert_eq!(item.id, "1dkfjgndkfjg");
    assert_eq!(item.json, "[]");
    assert_eq!(item.message_id, "asds");
    assert_eq!(item.category, None);
    assert_eq!(item.author, "test author");
}

#[test]
fn a_stored_time_may_carry_a_fraction() {
    let item = RawItem::try_from(a_row("2021-07-23 03:40:28.123456")).unwrap();
    assert_eq!(item.create_time, 1627011628);
}

#[test]
fn a_stored_time_in_another_layout_is_refused() {
    assert_eq!(RawItem::try_from(a_row("2021-07-23T03:40:28Z")).err(), Some(RowError::CreateTime));
    assert_eq!(RawItem::try_from(a_row("")).err(), Some(RowError::CreateTime));
}

#[test]
fn an_item_is_found_after_it_was_inserted() {
    let mut store = Store::new();
    assert!(!store.is_sent("a"));
    assert!(store.from_id("a").is_none());
    assert_eq!(store.insert(a_record("a", "m1", 5)), Ok(()));
    assert!(store.is_sent("a"));
    assert!(!store.is_sent("b"));
    let found = store.from_id("a").unwrap();
    assert_eq!(found.id, "a");
    assert_eq!(found.created_at, 5);
    assert_eq!(found.card, vec![note("a")]);
    assert_eq!(store.json_from("a"), Some(vec![note("a")]));
    assert_eq!(store.json_from("b"), None);
}

#[test]
fn an_id_is_recorded_only_once() {
    let mut store = Store::new();
    assert_eq!(store.insert(a_record("a", "m1", 5)), Ok(()));
    assert_eq!(store.insert(a_record("a", "m2", 6)), Err(StoreError::DuplicateItem));
    assert_eq!(store.len(), 1);
    assert_eq!(store.from_id("a").unwrap().message_id, "m1");
}

#[test]
fn category_and_card_are_written_to_the_one_item() {
    let mut store = Store::new();
    store.insert(a_record("a", "m1", 5)).unwrap();
    store.insert(a_record("b", "m1", 6)).unwrap();
    assert!(store.set_category("a", "音乐", 77));
    assert!(store.set_json("a", vec![note("new")]));
    let a = store.from_id("a").unwrap().duplicate();
    assert_eq!(a.category, Some("音乐".to_string()));
    assert_eq!(a.mark_time, Some(77));
    assert_eq!(a.card, vec![note("new")]);
    assert!(a.is_categorized());
    let b = store.from_id("b").unwrap();
    assert_eq!(b.category, None);
    assert_eq!(b.mark_time, None);
    assert_eq!(b.card, vec![note("b")]);
    assert!(!b.is_categorized());
    assert!(!store.set_category("zz", "音乐", 78));
    assert!(!store.set_json("zz", vec![]));
    assert!(store.remove_category("a"));
    assert_eq!(store.from_id("a").unwrap().category, None);
    assert!(!store.remove_category("zz"));
}

#[test]
fn cards_of_a_message_come_in_the_order_of_the_records() {
    let mut store = Store::new();
    store.insert(a_record("a", "m1", 5)).unwrap();
    store.insert(a_record("b", "m2", 6)).unwrap();
    store.insert(a_record("c", "m1", 4)).unwrap();
    assert_eq!(store.all_item_json("m1"), vec![vec![note("a")], vec![note("c")]]);
    assert_eq!(store.all_item_json("m2"), vec![vec![note("b")]]);
    assert!(store.all_item_json("m3").is_empty());
}

#[test]
fn the_window_holds_categorized_items_in_order_of_time() {
    let mut store = Store::new();
    store.insert(a_record("late", "m", 30)).unwrap();
    store.insert(a_record("pending", "m", 20)).unwrap();
    store.insert(a_record("early", "m", 10)).unwrap();
    store.insert(a_record("before", "m", 9)).unwrap();
    store.insert(a_record("after", "m", 31)).unwrap();
    for id in ["late", "early", "before", "after"] {
        assert!(store.set_category(id, "音乐", 100));
    }
    let found = store.categorized_between(10, 30);
    let ids: Vec<&str> = found.iter().map(|r| r.id.as_str()).collect();
    assert_eq!(ids, vec!["early", "late"]);
}

#[test]
fn the_day_is_bounded_in_shanghai() {
    let mut store = Store::new();
    // the Shanghai day 2021-07-23 runs from 1626969600 to 1627055999
    store.insert(a_record("first second", "m", 1626969600)).unwrap();
    store.insert(a_record("last second", "m", 1627055999)).unwrap();
    store.insert(a_record("day before", "m", 1626969599)).unwrap();
    store.insert(a_record("day after", "m", 1627056000)).unwrap();
    for id in ["first second", "last second", "day before", "day after"] {
        assert!(store.set_category(id, "音乐", 100));
    }
    let found = store.all_categorized_in_date(1627041600).unwrap();
    let ids: Vec<&str> = found.iter().map(|r| r.id.as_str()).collect();
    assert_eq!(ids, vec!["first second", "last second"]);
    assert!(store.all_categorized_in_date(i64::MAX).is_none());
}

#[test]
fn a_group_name_is_recorded_only_once() {
    let mut store = Store::new();
    assert!(store.from_name("视频筛选 07-23").is_none());
    let g = store.insert_group("视频筛选 07-23", "oc_1").unwrap();
    assert_eq!(g.name, "视频筛选 07-23");
    assert_eq!(g.chat_id, "oc_1");
    assert_eq!(
        store.insert_group("视频筛选 07-23", "oc_2").err(),
        Some(StoreError::DuplicateGroup)
    );
    assert_eq!(store.from_name("视频筛选 07-23").unwrap().chat_id, "oc_1");
    assert!(store.insert_group("视频筛选 07-24", "oc_3").is_ok());
}

#[test]
fn a_row_and_its_record_hold_the_same() {
    let item = RawItem::try_from(a_row("2021-07-23 03:40:28")).unwrap();
    let record = Record::from_item(item, vec![note("card")]);
    assert_eq!(record.id, "1dkfjgndkfjg");
    assert_eq!(record.message_id, "asds");
    assert_eq!(record.created_at, 1627011628);
    assert_eq!(record.category, None);
    assert_eq!(record.mark_time, None);
    assert_eq!(record.author, "test author");
    assert_eq!(record.card, vec![note("card")]);

    let mut store = Store::new();
    store.insert(record).unwrap();
    let back = store.from_id("1dkfjgndkfjg").unwrap().duplicate().into_item("[]".to_string());
    assert_eq!(back.json, "[]");
    assert_eq!(back.create_time, 1627011628);
    assert_eq!(back.id, "1dkfjgndkfjg");
    assert_eq!(back.message_id, "asds");
    assert_eq!(back.author, "test author");
}

#[test]
fn a_row_takes_the_time_it_is_given() {
    let item = a_row("whenever").with_create_time(42);
    assert_eq!(item.create_time, 42);
    assert_eq!(item.id, "1dkfjgndkfjg");
    assert_eq!(item.json, "[]");
}

#[test]
fn a_day_runs_from_its_first_to_its_last_second() {
    assert_eq!(asoul_weekly::db::day_bounds(1627041600), Some((1626969600, 1627055999)));
    assert_eq!(asoul_weekly::db::day_bounds(1626969600), Some((1626969600, 1627055999)));
    assert_eq!(asoul_weekly::db::day_bounds(1626969599), Some((1626883200, 1626969599)));
    assert_eq!(asoul_weekly::db::day_bounds(i64::MIN), None);
}
