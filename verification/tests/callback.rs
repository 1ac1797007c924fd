use asoul_weekly::biz::callback::{
    archive_channel, decide, field, new_body, Action, ActionData, BindData, ButtonAction,
    CallbackData, CallbackError, Field, SelectAction,
};
use asoul_weekly::biz::cards::{merge_body, Block};
use asoul_weekly::db::{Record, Store};
use asoul_weekly::http::error::Error;
use asoul_weekly::http::handlers::{callback, Response};

fn note(text: &str) -> Block {
    Block::Note { content: text.to_string() }
}

fn pending(id: &str, message_id: &str, created_at: i64) -> Record {
    Record::pending(
        id.to_string(),
        vec![note(&format!("{} info", id)), note(&format!("{} action", id)), note(&format!("{} foot", id))],
        message_id.to_string(),
        created_at,
        "author".to_string(),
    )
}

fn fields(pairs: &[(&str, &str)]) -> Vec<Field> {
    pairs.iter().map(|(n, v)| Field { name: n.to_string(), value: v.to_string() }).collect()
}

fn select(message_id: &str, bvid: &str, option: &str) -> ActionData {
    ActionData {
        open_message_id: message_id.to_string(),
        token: "t".to_string(),
        action: Action::Select(SelectAction {
            option: option.to_string(),
            tag: "select_static".to_string(),
            value: fields(&[("type", "video"), ("bvid", bvid)]),
        }),
    }
}

fn accept(message_id: &str, dynamic_id: &str) -> ActionData {
    ActionData {
        open_message_id: message_id.to_string(),
        token: "t".to_string(),
        action: Action::Button(ButtonAction {
            tag: "button".to_string(),
            value: fields(&[("type", "dynamic"), ("dynamic_id", dynamic_id)]),
        }),
    }
}

fn a_store() -> Store {
    let mut store = Store::new();
    store.insert(pending("bv1", "om_1", 10)).unwrap();
    store.insert(pending("bv2", "om_1", 20)).unwrap();
    store.insert(pending("bv3", "om_2", 30)).unwrap();
    store.insert(pending("777", "om_3", 40)).unwrap();
    store
}

#[test]
fn a_field_is_found_by_its_name() {
    let value = fields(&[("type", "video"), ("bvid", "bv1"), ("bvid", "bv9")]);
    assert_eq!(field(&value, "bvid"), Some(&"bv1".to_string()));
    assert_eq!(field(&value, "type"), Some(&"video".to_string()));
    assert_eq!(field(&value, "dynamic_id"), None);
}

#[test]
fn a_choice_gives_the_video_the_chosen_category() {
    let d = decide(&select("om_1", "bv1", "音乐").action).unwrap();
    assert_eq!(d.id, "bv1");
    assert_eq!(d.category, "音乐");
    assert!(d.is_video);
}

#[test]
fn a_press_accepts_the_post() {
    let d = decide(&accept("om_3", "777").action).unwrap();
    assert_eq!(d.id, "777");
    assert_eq!(d.category, "ok");
    assert!(!d.is_video);
}

#[test]
fn malformed_actions_are_rejected() {
    let no_id = Action::Select(SelectAction {
        option: "音乐".to_string(),
        tag: "select_static".to_string(),
        value: fields(&[("type", "video")]),
    });
    assert_eq!(decide(&no_id).err(), Some(CallbackError::MissingField));
    let no_post = Action::Button(ButtonAction {
        tag: "button".to_string(),
        value: fields(&[("type", "dynamic")]),
    });
    assert_eq!(decide(&no_post).err(), Some(CallbackError::MissingField));
    let other = Action::Button(ButtonAction {
        tag: "button".to_string(),
        value: fields(&[("bvid", "bv1"), ("action", "deny")]),
    });
    assert_eq!(decide(&other).err(), Some(CallbackError::UnknownAction));
    let wrong_type = Action::Button(ButtonAction {
        tag: "button".to_string(),
        value: fields(&[("type", "video"), ("dynamic_id", "777")]),
    });
    assert_eq!(decide(&wrong_type).err(), Some(CallbackError::UnknownAction));
}

#[test]
fn a_choice_is_written_and_the_batch_is_shown_anew() {
    let mut store = a_store();
    let reply = new_body(&select("om_1", "bv2", "音乐"), &mut store, 99).ok().unwrap();
    let status = Block::Markdown { content: "✔️ 已接受，分类：音乐".to_string() };
    assert_eq!(
        reply.elements,
        vec![
            note("bv1 info"),
            note("bv1 action"),
            note("bv1 foot"),
            Block::Rule,
            note("bv2 info"),
            status.clone(),
            note("bv2 foot"),
        ]
    );
    let rec = store.from_id("bv2").unwrap();
    assert_eq!(rec.category, Some("音乐".to_string()));
    assert_eq!(rec.mark_time, Some(99));
    assert_eq!(rec.card, vec![note("bv2 info"), status.clone(), note("bv2 foot")]);
    assert_eq!(reply.notice.channel, "视频归档");
    assert_eq!(reply.notice.card, vec![note("bv2 info"), status, note("bv2 foot")]);
    assert_eq!(reply.notice.time, 20);
    assert_eq!(store.from_id("bv1").unwrap().category, None);
    assert_eq!(store.from_id("bv3").unwrap().category, None);
}

#[test]
fn a_press_is_written_and_archived_with_the_posts() {
    let mut store = a_store();
    let reply = new_body(&accept("om_3", "777"), &mut store, 5).ok().unwrap();
    let status = Block::Markdown { content: "✔️ 已接受".to_string() };
    assert_eq!(reply.elements, vec![note("777 info"), status, note("777 foot")]);
    assert_eq!(reply.notice.channel, "动态归档");
    assert_eq!(reply.notice.time, 40);
    assert_eq!(store.from_id("777").unwrap().category, Some("ok".to_string()));
}

#[test]
fn the_view_is_the_merge_of_what_the_store_holds() {
    let mut store = a_store();
    let reply = new_body(&select("om_1", "bv1", "舞蹈"), &mut store, 99).ok().unwrap();
    assert_eq!(reply.elements, merge_body(store.all_item_json("om_1")));
    // an action that arrives under another message than the item's own
    let reply = new_body(&select("om_2", "bv2", "舞蹈"), &mut store, 100).ok().unwrap();
    assert_eq!(reply.elements, merge_body(store.all_item_json("om_2")));
    assert_eq!(reply.elements.len(), 3);
}

#[test]
fn deciding_twice_is_deciding_once() {
    let mut once = a_store();
    let first = new_body(&select("om_1", "bv1", "音乐"), &mut once, 99).ok().unwrap();
    let mut twice = a_store();
    new_body(&select("om_1", "bv1", "音乐"), &mut twice, 99).ok().unwrap();
    let second = new_body(&select("om_1", "bv1", "音乐"), &mut twice, 120).ok().unwrap();
    assert_eq!(first.elements, second.elements);
    assert_eq!(once.from_id("bv1").unwrap().category, twice.from_id("bv1").unwrap().category);
    assert_eq!(once.from_id("bv1").unwrap().card, twice.from_id("bv1").unwrap().card);
    assert_eq!(twice.from_id("bv1").unwrap().mark_time, Some(120));
}

#[test]
fn an_action_on_an_unknown_item_changes_nothing() {
    let mut store = a_store();
    assert_eq!(
        new_body(&select("om_1", "bv404", "音乐"), &mut store, 99).err(),
        Some(CallbackError::NotFound)
    );
    assert_eq!(store.len(), 4);
    assert!(["bv1", "bv2", "bv3", "777"]
        .iter()
        .all(|id| store.from_id(id).unwrap().category.is_none()));
}

#[test]
fn an_action_on_a_short_card_changes_nothing() {
    let mut store = Store::new();
    store
        .insert(Record::pending(
            "bv1".to_string(),
            vec![note("a"), note("b")],
            "om_1".to_string(),
            1,
            "x".to_string(),
        ))
        .unwrap();
    assert_eq!(
        new_body(&select("om_1", "bv1", "音乐"), &mut store, 99).err(),
        Some(CallbackError::MalformedCard)
    );
    let rec = store.from_id("bv1").unwrap();
    assert_eq!(rec.category, None);
    assert_eq!(rec.mark_time, None);
    assert_eq!(rec.card, vec![note("a"), note("b")]);
}

#[test]
fn the_archive_channel_goes_by_kind() {
    assert_eq!(archive_channel(true), "视频归档");
    assert_eq!(archive_channel(false), "动态归档");
}

#[test]
fn a_binding_request_gets_its_challenge_back() {
    let mut store = a_store();
    let bind = CallbackData::Bind(BindData {
        challenge: "c-123".to_string(),
        token: "t".to_string(),
        kind: "url_verification".to_string(),
    });
    match callback(bind, &mut store, 1) {
        Ok(Response::Challenge(c)) => assert_eq!(c, "c-123"),
        _ => panic!("a binding request is answered with its challenge"),
    }
    assert_eq!(store.len(), 4);
}

#[test]
fn the_endpoint_answers_an_action_with_the_new_body() {
    let mut store = a_store();
    match callback(CallbackData::Action(select("om_2", "bv3", "其他")), &mut store, 1) {
        Ok(Response::Elements(reply)) => assert_eq!(reply.elements.len(), 3),
        _ => panic!("an action is answered with the body of the batch"),
    }
    assert_eq!(store.from_id("bv3").unwrap().category, Some("其他".to_string()));
}

#[test]
fn the_endpoint_answers_a_rejected_action_with_the_reason() {
    let mut store = a_store();
    let r = callback(CallbackData::Action(select("om_2", "nope", "其他")), &mut store, 1);
    assert_eq!(r.err(), Some(Error("no such item".to_string())));
    assert_eq!(Error::from_callback(CallbackError::MissingField).status_code(), 500);
    assert_eq!(
        Error::from_callback(CallbackError::UnknownAction).to_string(),
        "action is of no known kind"
    );
    assert_eq!(
        Error::from_callback(CallbackError::MalformedCard).to_string(),
        "the card of the item has fewer than three blocks"
    );
    assert_eq!(
        Error::from_callback(CallbackError::MissingField).to_string(),
        "action payload lacks the id of the item"
    );
}

#[test]
fn the_payload_of_a_block_leads_back_to_its_item() {
    let select = Block::Select {
        placeholder: "选择分类".to_string(),
        bvid: "BV1xx411c7mD".to_string(),
        options: vec!["音乐".to_string()],
    };
    let value = asoul_weekly::biz::callback::payload(&select);
    assert_eq!(value.len(), 2);
    assert_eq!((value[0].name.as_str(), value[0].value.as_str()), ("type", "video"));
    assert_eq!((value[1].name.as_str(), value[1].value.as_str()), ("bvid", "BV1xx411c7mD"));
    let d = decide(&Action::Select(SelectAction {
        option: "音乐".to_string(),
        tag: "select_static".to_string(),
        value,
    }))
    .unwrap();
    assert_eq!((d.id.as_str(), d.category.as_str(), d.is_video), ("BV1xx411c7mD", "音乐", true));

    let button = Block::Button { label: "选入今日二创".to_string(), dynamic_id: "555".to_string() };
    let value = asoul_weekly::biz::callback::payload(&button);
    let d = decide(&Action::Button(ButtonAction { tag: "button".to_string(), value })).unwrap();
    assert_eq!((d.id.as_str(), d.category.as_str(), d.is_video), ("555", "ok", false));

    assert!(asoul_weekly::biz::callback::payload(&Block::Rule).is_empty());
}
