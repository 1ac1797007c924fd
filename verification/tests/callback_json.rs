use asoul_weekly::biz::callback::{decide, field, Action, CallbackData};
use asoul_weekly::biz::callback_json::{action_from_json, callback_from_json, payload_from_json};
use serde_json::Value;

fn json(text: &str) -> Value {
    serde_json::from_str(text).unwrap()
}

#[test]
fn a_binding_request_is_read() {
    let v = json(r#"{ "challenge": "c-123", "token": "t", "type": "url_verification" }"#);
    match callback_from_json(&v) {
        Some(CallbackData::Bind(b)) => {
            assert_eq!(b.challenge, "c-123");
            assert_eq!(b.token, "t");
            assert_eq!(b.kind, "url_verification");
        }
        other => panic!("unexpected callback {:?}", other),
    }
}

#[test]
fn a_choice_is_read() {
    let v = json(
        r#"{
            "open_id": "ou_1",
            "open_message_id": "om_1",
            "token": "t",
            "action": {
                "value": { "type": "video", "bvid": "BV1" },
                "tag": "select_static",
                "option": "音乐"
            }
        }"#,
    );
    match callback_from_json(&v) {
        Some(CallbackData::Action(a)) => {
            assert_eq!(a.open_message_id, "om_1");
            assert_eq!(a.token, "t");
            match &a.action {
                Action::Select(s) => {
                    assert_eq!(s.option, "音乐");
                    assert_eq!(s.tag, "select_static");
                    assert_eq!(s.value.len(), 2);
                    assert_eq!(field(&s.value, "bvid"), Some(&"BV1".to_string()));
                    assert_eq!(field(&s.value, "type"), Some(&"video".to_string()));
                }
                other => panic!("unexpected action {:?}", other),
            }
            let d = decide(&a.action).unwrap();
            assert_eq!((d.id.as_str(), d.category.as_str(), d.is_video), ("BV1", "音乐", true));
        }
        other => panic!("unexpected callback {:?}", other),
    }
}

#[test]
fn a_press_is_read() {
    let v = json(
        r#"{
            "open_message_id": "om_3",
            "token": "t",
            "action": { "value": { "type": "dynamic", "dynamic_id": "555" }, "tag": "button" }
        }"#,
    );
    match callback_from_json(&v) {
        Some(CallbackData::Action(a)) => {
            assert!(matches!(a.action, Action::Button(_)));
            let d = decide(&a.action).unwrap();
            assert_eq!((d.id.as_str(), d.category.as_str(), d.is_video), ("555", "ok", false));
        }
        other => panic!("unexpected callback {:?}", other),
    }
}

#[test]
fn an_option_that_is_no_text_makes_a_press() {
    let v = json(r#"{ "value": {}, "tag": "select_static", "option": 3 }"#);
    assert!(matches!(action_from_json(&v), Some(Action::Button(_))));
}

#[test]
fn malformed_callbacks_are_rejected() {
    for text in [
        r#"{}"#,
        r#"null"#,
        r#"[]"#,
        r#"{ "challenge": "c", "type": "url_verification" }"#,
        r#"{ "challenge": "c", "token": 1, "type": "url_verification" }"#,
        r#"{ "challenge": "c", "token": "t" }"#,
        r#"{ "open_message_id": "om", "token": "t" }"#,
        r#"{ "open_message_id": "om", "token": "t", "action": {} }"#,
        r#"{ "open_message_id": "om", "token": "t", "action": { "tag": "button" } }"#,
        r#"{ "open_message_id": "om", "token": "t", "action": { "value": {} } }"#,
        r#"{ "open_message_id": "om", "token": "t", "action": { "tag": "button", "value": [] } }"#,
        r#"{ "open_message_id": "om", "token": "t", "action": { "tag": "button", "value": { "bvid": 1 } } }"#,
        r#"{ "open_message_id": 5, "token": "t", "action": { "tag": "button", "value": {} } }"#,
        r#"{ "token": "t", "action": { "tag": "button", "value": {} } }"#,
    ] {
        assert!(callback_from_json(&json(text)).is_none(), "{}", text);
    }
}

#[test]
fn a_binding_request_wins_over_an_action() {
    let v = json(
        r#"{
            "challenge": "c", "token": "t", "type": "x",
            "open_message_id": "om", "action": { "tag": "button", "value": {} }
        }"#,
    );
    assert!(matches!(callback_from_json(&v), Some(CallbackData::Bind(_))));
}

#[test]
fn a_payload_holds_nothing_but_strings() {
    let value = payload_from_json(&json(r#"{ "b": "2", "a": "1" }"#)).unwrap();
    assert_eq!(value.len(), 2);
    assert_eq!(field(&value, "a"), Some(&"1".to_string()));
    assert_eq!(field(&value, "b"), Some(&"2".to_string()));
    assert_eq!(field(&value, "c"), None);
    assert_eq!(payload_from_json(&json("{}")).map(|v| v.len()), Some(0));
    assert!(payload_from_json(&json(r#"{ "a": "1", "b": null }"#)).is_none());
    assert!(payload_from_json(&json(r#"["a"]"#)).is_none());
    assert!(payload_from_json(&json(r#""a""#)).is_none());
}
