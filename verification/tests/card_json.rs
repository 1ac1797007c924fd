use asoul_weekly::biz::callback::{Field, Notice, Reply};
use asoul_weekly::biz::card_json::{
    block_from_json, block_to_json, body_from_json, body_to_json, card_to_json, fields_json,
};
use asoul_weekly::biz::cards::{wrap_card_body, Block};
use asoul_weekly::http::error::Error;
use asoul_weekly::http::handlers::{response_to_json, Response};
use serde_json::Value;

fn json(text: &str) -> Value {
    serde_json::from_str(text).unwrap()
}

fn info() -> Block {
    Block::Info {
        content: "[▷标题](https://www.bilibili.com/video/BV1)\nBV1 UP：某UP".to_string(),
        img_key: "img_v2_key".to_string(),
        alt: "视频封面".to_string(),
    }
}

fn select() -> Block {
    Block::Select {
        placeholder: "选择分类".to_string(),
        bvid: "BV1".to_string(),
        options: vec!["音乐".to_string(), "舞蹈".to_string()],
    }
}

fn button() -> Block {
    Block::Button { label: "选入今日二创".to_string(), dynamic_id: "555".to_string() }
}

fn note() -> Block {
    Block::Note { content: "发布于 2021-07-23 11:40:28".to_string() }
}

fn markdown() -> Block {
    Block::Markdown { content: "✔️ 已接受".to_string() }
}

const INFO: &str = r#"{
    "tag": "div",
    "text": { "tag": "lark_md", "content": "[▷标题](https://www.bilibili.com/video/BV1)\nBV1 UP：某UP" },
    "extra": {
        "tag": "img",
        "img_key": "img_v2_key",
        "alt": { "tag": "plain_text", "content": "视频封面" }
    }
}"#;

const SELECT: &str = r#"{
    "tag": "action",
    "actions": [
        {
            "tag": "select_static",
            "placeholder": { "tag": "plain_text", "content": "选择分类" },
            "value": { "type": "video", "bvid": "BV1" },
            "options": [
                { "text": { "tag": "plain_text", "content": "音乐" }, "value": "音乐" },
                { "text": { "tag": "plain_text", "content": "舞蹈" }, "value": "舞蹈" }
            ]
        }
    ]
}"#;

const BUTTON: &str = r#"{
    "tag": "action",
    "actions": [
        {
            "tag": "button",
            "text": { "tag": "plain_text", "content": "选入今日二创" },
            "type": "default",
            "value": { "type": "dynamic", "dynamic_id": "555" }
        }
    ]
}"#;

const NOTE: &str = r#"{
    "tag": "note",
    "elements": [ { "tag": "plain_text", "content": "发布于 2021-07-23 11:40:28" } ]
}"#;

const MARKDOWN: &str = r#"{ "tag": "markdown", "content": "✔️ 已接受" }"#;

const RULE: &str = r#"{ "tag": "hr" }"#;

#[test]
fn blocks_are_written_in_the_layout_of_the_platform() {
    assert_eq!(block_to_json(&info()), json(INFO));
    assert_eq!(block_to_json(&select()), json(SELECT));
    assert_eq!(block_to_json(&button()), json(BUTTON));
    assert_eq!(block_to_json(&note()), json(NOTE));
    assert_eq!(block_to_json(&markdown()), json(MARKDOWN));
    assert_eq!(block_to_json(&Block::Rule), json(RULE));
}

#[test]
fn blocks_are_read_from_the_layout_of_the_platform() {
    assert_eq!(block_from_json(&json(INFO)), info());
    assert_eq!(block_from_json(&json(SELECT)), select());
    assert_eq!(block_from_json(&json(BUTTON)), button());
    assert_eq!(block_from_json(&json(NOTE)), note());
    assert_eq!(block_from_json(&json(MARKDOWN)), markdown());
    assert_eq!(block_from_json(&json(RULE)), Block::Rule);
}

#[test]
fn a_drop_down_without_choices_is_read_back() {
    let empty = Block::Select {
        placeholder: "p".to_string(),
        bvid: "b".to_string(),
        options: vec![],
    };
    assert_eq!(block_from_json(&block_to_json(&empty)), empty);
}

#[test]
fn elements_of_no_known_kind_are_kept() {
    for text in [
        r#"{ "tag": "img", "img_key": "k" }"#,
        r#"{ "tag": "div" }"#,
        r#"{ "tag": "div", "text": { "content": 1 }, "extra": {} }"#,
        r#"{ "tag": "action", "actions": [] }"#,
        r#"{ "tag": "action", "actions": [ { "tag": "overflow" } ] }"#,
        r#"{ "tag": "action", "actions": [ { "tag": "button", "text": { "content": "x" } } ] }"#,
        r#"{ "tag": "note", "elements": [] }"#,
        r#"{ "tag": "markdown" }"#,
        r#"{ "no": "tag" }"#,
        r#"[1, 2]"#,
        r#""text""#,
        r#"null"#,
    ] {
        let value = json(text);
        let block = block_from_json(&value);
        assert_eq!(block, Block::Other { value: value.clone() });
        assert_eq!(block_to_json(&block), value);
    }
}

#[test]
fn a_choice_without_a_value_spoils_the_drop_down() {
    let text = r#"{
        "tag": "action",
        "actions": [ {
            "tag": "select_static",
            "placeholder": { "content": "p" },
            "value": { "bvid": "b" },
            "options": [ { "value": "a" }, { "text": "no value" } ]
        } ]
    }"#;
    assert!(matches!(block_from_json(&json(text)), Block::Other { .. }));
}

#[test]
fn a_body_survives_writing_and_reading() {
    let body = vec![info(), select(), note(), Block::Rule, info(), button(), note(), markdown()];
    let written = body_to_json(&body);
    assert_eq!(written.len(), 8);
    assert_eq!(body_from_json(&written), body);
    let text = serde_json::to_string(&written).unwrap();
    let read: Vec<Value> = serde_json::from_str(&text).unwrap();
    assert_eq!(body_from_json(&read), body);
    assert!(body_to_json(&vec![]).is_empty());
    assert!(body_from_json(&vec![]).is_empty());
}

#[test]
fn a_card_is_sent_wide_and_in_chinese() {
    let card = wrap_card_body(vec![note(), Block::Rule]);
    let expected = format!(
        r#"{{ "config": {{ "wide_screen_mode": true }}, "i18n_elements": {{ "zh_cn": [ {}, {} ] }} }}"#,
        NOTE, RULE
    );
    assert_eq!(card_to_json(&card), json(&expected));
}

#[test]
fn fields_become_an_object_of_strings() {
    let fields = vec![
        Field { name: "type".to_string(), value: "video".to_string() },
        Field { name: "bvid".to_string(), value: "BV1".to_string() },
        Field { name: "type".to_string(), value: "dynamic".to_string() },
    ];
    assert_eq!(fields_json(&fields), json(r#"{ "bvid": "BV1", "type": "dynamic" }"#));
    assert_eq!(fields_json(&vec![]), json("{}"));
}

#[test]
fn a_callback_is_answered_in_json() {
    let challenge = Response::Challenge("c-123".to_string());
    assert_eq!(response_to_json(&challenge), json(r#"{ "challenge": "c-123" }"#));
    let elements = Response::Elements(Reply {
        elements: vec![markdown(), Block::Rule],
        notice: Notice { channel: "视频归档".to_string(), card: vec![], time: 0 },
    });
    let expected = format!(r#"{{ "elements": [ {}, {} ] }}"#, MARKDOWN, RULE);
    assert_eq!(response_to_json(&elements), json(&expected));
}

#[test]
fn an_error_is_answered_in_json() {
    assert_eq!(
        Error("no such item".to_string()).to_json(),
        json(r#"{ "error": "no such item", "detail": "no such item" }"#)
    );
}

#[test]
fn a_body_is_stored_as_text_and_read_back() {
    let body = vec![info(), select(), note(), Block::Rule, markdown()];
    let text = asoul_weekly::biz::card_json::body_to_text(&body).unwrap();
    assert!(text.starts_with("[{"));
    assert_eq!(json(&text), Value::Array(body_to_json(&body)));
    assert_eq!(asoul_weekly::biz::card_json::body_from_text(&text), Some(body));
    assert_eq!(asoul_weekly::biz::card_json::body_to_text(&vec![]), Some("[]".to_string()));
    assert_eq!(asoul_weekly::biz::card_json::body_from_text("[]"), Some(vec![]));
}

#[test]
fn a_text_that_holds_no_array_is_no_body() {
    assert_eq!(asoul_weekly::biz::card_json::body_from_text(""), None);
    assert_eq!(asoul_weekly::biz::card_json::body_from_text("{}"), None);
    assert_eq!(asoul_weekly::biz::card_json::body_from_text("[1, 2"), None);
    assert_eq!(
        asoul_weekly::biz::card_json::body_from_text("[1]"),
        Some(vec![Block::Other { value: json("1") }])
    );
}
