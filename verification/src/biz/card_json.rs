//! Cards as JSON: the layout in which the chat platform takes the blocks of
//! a card, and in which a card is stored.
use crate::biz::callback::{fields_view, payload, payload_of, Field};
use crate::biz::cards::{body_view, texts, Block, BlockView, CardBody, WrappedCard};
use crate::json::{
    items_of, json_array, json_as_array, json_as_str, json_bool, json_get, json_insert,
    json_object, json_of, json_parse, json_print, json_text, jsons_of, member, parsed_json,
    printed_json, text_of, with_member, JsonView,
};
use crate::text::str_eq;
use serde_json::Value;
use vstd::prelude::*;

verus! {

/// A piece of plain text.
pub open spec fn plain(content: Seq<char>) -> JsonView {
    JsonView::Object(
        map!["tag"@ => JsonView::Text("plain_text"@), "content"@ => JsonView::Text(content)],
    )
}

/// The object that holds each of `pairs` as a string under its name.
pub open spec fn pairs_json(pairs: Seq<(Seq<char>, Seq<char>)>) -> JsonView
    decreases pairs.len(),
{
    if pairs.len() == 0 {
        JsonView::Object(Map::empty())
    } else {
        with_member(pairs_json(pairs.drop_last()), pairs.last().0, JsonView::Text(pairs.last().1))
    }
}

/// One choice of a drop-down.
pub open spec fn option_json(label: Seq<char>) -> JsonView {
    JsonView::Object(map!["text"@ => plain(label), "value"@ => JsonView::Text(label)])
}

/// The choices of a drop-down.
pub open spec fn options_json(labels: Seq<Seq<char>>) -> Seq<JsonView> {
    labels.map_values(|label: Seq<char>| option_json(label))
}

/// The JSON of a block.
pub open spec fn block_json(b: BlockView) -> JsonView {
    match b {
        BlockView::Info { content, img_key, alt } => JsonView::Object(
            map![
                "tag"@ => JsonView::Text("div"@),
                "text"@ => JsonView::Object(
                    map!["tag"@ => JsonView::Text("lark_md"@), "content"@ => JsonView::Text(content)],
                ),
                "extra"@ => JsonView::Object(
                    map![
                        "tag"@ => JsonView::Text("img"@),
                        "img_key"@ => JsonView::Text(img_key),
                        "alt"@ => plain(alt),
                    ],
                ),
            ],
        ),
        BlockView::Select { placeholder, bvid, options } => JsonView::Object(
            map![
                "tag"@ => JsonView::Text("action"@),
                "actions"@ => JsonView::Array(
                    seq![
                        JsonView::Object(
                            map![
                                "tag"@ => JsonView::Text("select_static"@),
                                "placeholder"@ => plain(placeholder),
                                "value"@ => pairs_json(payload_of(b)),
                                "options"@ => JsonView::Array(options_json(options)),
                            ],
                        ),
                    ],
                ),
            ],
        ),
        BlockView::Button { label, dynamic_id } => JsonView::Object(
            map![
                "tag"@ => JsonView::Text("action"@),
                "actions"@ => JsonView::Array(
                    seq![
                        JsonView::Object(
                            map![
                                "tag"@ => JsonView::Text("button"@),
                                "text"@ => plain(label),
                                "type"@ => JsonView::Text("default"@),
                                "value"@ => pairs_json(payload_of(b)),
                            ],
                        ),
                    ],
                ),
            ],
        ),
        BlockView::Note { content } => JsonView::Object(
            map![
                "tag"@ => JsonView::Text("note"@),
                "elements"@ => JsonView::Array(seq![plain(content)]),
            ],
        ),
        BlockView::Markdown { content } => JsonView::Object(
            map!["tag"@ => JsonView::Text("markdown"@), "content"@ => JsonView::Text(content)],
        ),
        BlockView::Rule => JsonView::Object(map!["tag"@ => JsonView::Text("hr"@)]),
        BlockView::Other { value } => value,
    }
}

/// The JSON of the blocks of a body, block by block.
pub open spec fn body_json(body: Seq<BlockView>) -> Seq<JsonView> {
    body.map_values(|b: BlockView| block_json(b))
}

/// The JSON of a card as it is sent: its display settings, and its body as
/// the elements for readers of Chinese.
pub open spec fn card_json(wide_screen_mode: bool, body: Seq<BlockView>) -> JsonView {
    JsonView::Object(
        map![
            "config"@ => JsonView::Object(
                map!["wide_screen_mode"@ => JsonView::Bool(wide_screen_mode)],
            ),
            "i18n_elements"@ => JsonView::Object(
                map!["zh_cn"@ => JsonView::Array(body_json(body))],
            ),
        ],
    )
}

fn plain_json(content: &str) -> (r: Value)
    ensures
        json_of(r) == plain(content@),
{
    let mut o = json_object();
    json_insert(&mut o, "tag", json_text("plain_text"));
    json_insert(&mut o, "content", json_text(content));
    o
}

/// The object that holds each field as a string under its name.
pub fn fields_json(fields: &Vec<Field>) -> (r: Value)
    ensures
        json_of(r) == pairs_json(fields_view(fields@)),
{
    let mut o = json_object();
    let ghost all = fields_view(fields@);
    let mut i: usize = 0;
    while i < fields.len()
        invariant
            i <= fields.len(),
            all == fields_view(fields@),
            json_of(o) == pairs_json(all.take(i as int)),
        decreases fields.len() - i,
    {
        proof {
            assert(all.take(i as int + 1).drop_last() =~= all.take(i as int));
            assert(all.take(i as int + 1).last() == (fields@[i as int].name@, fields@[i as int].value@));
        }
        json_insert(&mut o, fields[i].name.as_str(), json_text(fields[i].value.as_str()));
        i += 1;
    }
    proof {
        assert(all.take(all.len() as int) =~= all);
    }
    o
}

fn options_to_json(labels: &Vec<String>) -> (r: Vec<Value>)
    ensures
        jsons_of(r@) == options_json(texts(labels@)),
{
    let mut out: Vec<Value> = Vec::new();
    let mut i: usize = 0;
    while i < labels.len()
        invariant
            i <= labels.len(),
            out@.len() == i,
            forall|k: int| 0 <= k < i ==> json_of(#[trigger] out@[k]) == option_json(labels@[k]@),
        decreases labels.len() - i,
    {
        let mut o = json_object();
        json_insert(&mut o, "text", plain_json(labels[i].as_str()));
        json_insert(&mut o, "value", json_text(labels[i].as_str()));
        out.push(o);
        i += 1;
    }
    proof {
        assert(jsons_of(out@) =~= options_json(texts(labels@)));
    }
    out
}

fn one_item(item: Value) -> (r: Value)
    ensures
        json_of(r) == JsonView::Array(seq![json_of(item)]),
{
    let mut items: Vec<Value> = Vec::new();
    items.push(item);
    proof {
        assert(jsons_of(items@) =~= seq![json_of(item)]);
    }
    json_array(items)
}

/// The JSON of a block, as the chat platform takes it.
pub fn block_to_json(block: &Block) -> (r: Value)
    ensures
        json_of(r) == block_json(block@),
{
    match block {
        Block::Info { content, img_key, alt } => {
            let mut text = json_object();
            json_insert(&mut text, "tag", json_text("lark_md"));
            json_insert(&mut text, "content", json_text(content.as_str()));
            let mut extra = json_object();
            json_insert(&mut extra, "tag", json_text("img"));
            json_insert(&mut extra, "img_key", json_text(img_key.as_str()));
            json_insert(&mut extra, "alt", plain_json(alt.as_str()));
            let mut o = json_object();
            json_insert(&mut o, "tag", json_text("div"));
            json_insert(&mut o, "text", text);
            json_insert(&mut o, "extra", extra);
            o
        },
        Block::Select { placeholder, bvid: _, options } => {
            let mut action = json_object();
            json_insert(&mut action, "tag", json_text("select_static"));
            json_insert(&mut action, "placeholder", plain_json(placeholder.as_str()));
            json_insert(&mut action, "value", fields_json(&payload(block)));
            json_insert(&mut action, "options", json_array(options_to_json(options)));
            let mut o = json_object();
            json_insert(&mut o, "tag", json_text("action"));
            json_insert(&mut o, "actions", one_item(action));
            o
        },
        Block::Button { label, dynamic_id: _ } => {
            let mut action = json_object();
            json_insert(&mut action, "tag", json_text("button"));
            json_insert(&mut action, "text", plain_json(label.as_str()));
            json_insert(&mut action, "type", json_text("default"));
            json_insert(&mut action, "value", fields_json(&payload(block)));
            let mut o = json_object();
            json_insert(&mut o, "tag", json_text("action"));
            json_insert(&mut o, "actions", one_item(action));
            o
        },
        Block::Note { content } => {
            let mut o = json_object();
            json_insert(&mut o, "tag", json_text("note"));
            json_insert(&mut o, "elements", one_item(plain_json(content.as_str())));
            o
        },
        Block::Markdown { content } => {
            let mut o = json_object();
            json_insert(&mut o, "tag", json_text("markdown"));
            json_insert(&mut o, "content", json_text(content.as_str()));
            o
        },
        Block::Rule => {
            let mut o = json_object();
            json_insert(&mut o, "tag", json_text("hr"));
            o
        },
        Block::Other { value } => value.clone(),
    }
}

/// The JSON of the blocks of a body, block by block.
pub fn body_to_json(body: &Vec<Block>) -> (r: Vec<Value>)
    ensures
        jsons_of(r@) == body_json(body_view(body@)),
{
    let mut out: Vec<Value> = Vec::new();
    let mut i: usize = 0;
    while i < body.len()
        invariant
            i <= body.len(),
            out@.len() == i,
            forall|k: int| 0 <= k < i ==> json_of(#[trigger] out@[k]) == block_json(body@[k]@),
        decreases body.len() - i,
    {
        out.push(block_to_json(&body[i]));
        i += 1;
    }
    proof {
        assert(jsons_of(out@) =~= body_json(body_view(body@)));
    }
    out
}

/// The JSON of a card as it is sent.
pub fn card_to_json(card: &WrappedCard) -> (r: Value)
    ensures
        json_of(r) == card_json(card.wide_screen_mode, body_view(card.elements@)),
{
    let mut config = json_object();
    json_insert(&mut config, "wide_screen_mode", json_bool(card.wide_screen_mode));
    let mut elements = json_object();
    json_insert(&mut elements, "zh_cn", json_array(body_to_json(&card.elements)));
    let mut o = json_object();
    json_insert(&mut o, "config", config);
    json_insert(&mut o, "i18n_elements", elements);
    o
}

/// The text under `name` in an object.
pub open spec fn text_member(j: JsonView, name: Seq<char>) -> Option<Seq<char>> {
    match member(j, name) {
        Some(x) => text_of(x),
        None => None,
    }
}

/// The text under `inner` in the object under `outer`.
pub open spec fn sub_text(j: JsonView, outer: Seq<char>, inner: Seq<char>) -> Option<Seq<char>> {
    match member(j, outer) {
        Some(x) => text_member(x, inner),
        None => None,
    }
}

/// The first element of an array.
pub open spec fn first_item(j: JsonView) -> Option<JsonView> {
    match items_of(j) {
        Some(items) => if items.len() > 0 {
            Some(items[0])
        } else {
            None
        },
        None => None,
    }
}

/// The values of the choices of a drop-down; none where a choice has no
/// text as its value.
pub open spec fn option_values(items: Seq<JsonView>) -> Option<Seq<Seq<char>>>
    decreases items.len(),
{
    if items.len() == 0 {
        Some(Seq::empty())
    } else {
        match (option_values(items.drop_last()), text_member(items.last(), "value"@)) {
            (Some(before), Some(value)) => Some(before.push(value)),
            _ => None,
        }
    }
}

/// The information block that an element of the tag `div` stands for.
pub open spec fn info_of(j: JsonView) -> Option<BlockView> {
    let alt = match member(j, "extra"@) {
        Some(extra) => sub_text(extra, "alt"@, "content"@),
        None => None,
    };
    match (sub_text(j, "text"@, "content"@), sub_text(j, "extra"@, "img_key"@), alt) {
        (Some(content), Some(img_key), Some(alt)) => Some(BlockView::Info { content, img_key, alt }),
        _ => None,
    }
}

/// The drop-down that an action of the tag `select_static` stands for.
pub open spec fn select_of(action: JsonView) -> Option<BlockView> {
    let options = match member(action, "options"@) {
        Some(x) => match items_of(x) {
            Some(items) => option_values(items),
            None => None,
        },
        None => None,
    };
    match (
        sub_text(action, "placeholder"@, "content"@),
        sub_text(action, "value"@, "bvid"@),
        options,
    ) {
        (Some(placeholder), Some(bvid), Some(options)) => Some(
            BlockView::Select { placeholder, bvid, options },
        ),
        _ => None,
    }
}

/// The button that an action of the tag `button` stands for.
pub open spec fn button_of(action: JsonView) -> Option<BlockView> {
    match (sub_text(action, "text"@, "content"@), sub_text(action, "value"@, "dynamic_id"@)) {
        (Some(label), Some(dynamic_id)) => Some(BlockView::Button { label, dynamic_id }),
        _ => None,
    }
}

/// The block that an element of the tag `action` stands for: that of its
/// first action.
pub open spec fn action_of(j: JsonView) -> Option<BlockView> {
    match member(j, "actions"@) {
        Some(actions) => match first_item(actions) {
            Some(action) => match text_member(action, "tag"@) {
                Some(tag) => if tag == "select_static"@ {
                    select_of(action)
                } else if tag == "button"@ {
                    button_of(action)
                } else {
                    None
                },
                None => None,
            },
            None => None,
        },
        None => None,
    }
}

/// The footnote that an element of the tag `note` stands for.
pub open spec fn note_of(j: JsonView) -> Option<BlockView> {
    match member(j, "elements"@) {
        Some(elements) => match first_item(elements) {
            Some(first) => match text_member(first, "content"@) {
                Some(content) => Some(BlockView::Note { content }),
                None => None,
            },
            None => None,
        },
        None => None,
    }
}

/// The block of one of the known kinds that a JSON element stands for.
pub open spec fn known_block(j: JsonView) -> Option<BlockView> {
    match text_member(j, "tag"@) {
        Some(tag) => if tag == "div"@ {
            info_of(j)
        } else if tag == "action"@ {
            action_of(j)
        } else if tag == "note"@ {
            note_of(j)
        } else if tag == "markdown"@ {
            match text_member(j, "content"@) {
                Some(content) => Some(BlockView::Markdown { content }),
                None => None,
            }
        } else if tag == "hr"@ {
            Some(BlockView::Rule)
        } else {
            None
        },
        None => None,
    }
}

/// The block that a JSON element stands for; an element of no known kind
/// is kept as it is.
pub open spec fn block_of(j: JsonView) -> BlockView {
    match known_block(j) {
        Some(b) => b,
        None => BlockView::Other { value: j },
    }
}

fn get_text<'a>(v: &'a Value, name: &str) -> (r: Option<&'a str>)
    ensures
        r is Some <==> text_member(json_of(*v), name@) is Some,
        r matches Some(s) ==> text_member(json_of(*v), name@) == Some(s@),
{
    match json_get(v, name) {
        Some(x) => json_as_str(x),
        None => None,
    }
}

fn get_sub_text<'a>(v: &'a Value, outer: &str, inner: &str) -> (r: Option<&'a str>)
    ensures
        r is Some <==> sub_text(json_of(*v), outer@, inner@) is Some,
        r matches Some(s) ==> sub_text(json_of(*v), outer@, inner@) == Some(s@),
{
    match json_get(v, outer) {
        Some(x) => get_text(x, inner),
        None => None,
    }
}

fn get_first<'a>(v: &'a Value) -> (r: Option<&'a Value>)
    ensures
        r is Some <==> first_item(json_of(*v)) is Some,
        r matches Some(x) ==> first_item(json_of(*v)) == Some(json_of(*x)),
{
    match json_as_array(v) {
        Some(items) => if items.len() > 0 {
            Some(&items[0])
        } else {
            None
        },
        None => None,
    }
}

fn get_option_values(items: &Vec<Value>) -> (r: Option<Vec<String>>)
    ensures
        r is Some <==> option_values(jsons_of(items@)) is Some,
        r matches Some(values) ==> option_values(jsons_of(items@)) == Some(texts(values@)),
{
    let mut out: Vec<String> = Vec::new();
    let ghost all = jsons_of(items@);
    let mut i: usize = 0;
    while i < items.len()
        invariant
            i <= items.len(),
            all == jsons_of(items@),
            option_values(all.take(i as int)) == Some(texts(out@)),
        decreases items.len() - i,
    {
        proof {
            assert(all.take(i as int + 1).drop_last() =~= all.take(i as int));
            assert(all.take(i as int + 1).last() == json_of(items@[i as int]));
        }
        match get_text(&items[i], "value") {
            Some(value) => {
                let ghost before = out@;
                out.push(String::from_str(value));
                proof {
                    assert(texts(out@) =~= texts(before).push(value@));
                }
            },
            None => {
                proof {
                    lemma_option_values_prefix(all, i as int + 1);
                }
                return None;
            },
        }
        i += 1;
    }
    proof {
        assert(all.take(all.len() as int) =~= all);
    }
    Some(out)
}

/// Where the choices up to some point have no values, all of them have
/// none.
proof fn lemma_option_values_prefix(items: Seq<JsonView>, n: int)
    requires
        0 <= n <= items.len(),
        option_values(items.take(n)) is None,
    ensures
        option_values(items) is None,
    decreases items.len() - n,
{
    if n < items.len() {
        assert(items.take(n + 1).drop_last() =~= items.take(n));
        lemma_option_values_prefix(items, n + 1);
    } else {
        assert(items.take(n) =~= items);
    }
}

fn decode_info(v: &Value) -> (r: Option<Block>)
    ensures
        r is Some <==> info_of(json_of(*v)) is Some,
        r matches Some(b) ==> info_of(json_of(*v)) == Some(b@),
{
    let content = get_sub_text(v, "text", "content");
    let img_key = get_sub_text(v, "extra", "img_key");
    let alt = match json_get(v, "extra") {
        Some(extra) => get_sub_text(extra, "alt", "content"),
        None => None,
    };
    match (content, img_key, alt) {
        (Some(content), Some(img_key), Some(alt)) => Some(
            Block::Info {
                content: String::from_str(content),
                img_key: String::from_str(img_key),
                alt: String::from_str(alt),
            },
        ),
        _ => None,
    }
}

fn decode_select(action: &Value) -> (r: Option<Block>)
    ensures
        r is Some <==> select_of(json_of(*action)) is Some,
        r matches Some(b) ==> select_of(json_of(*action)) == Some(b@),
{
    let placeholder = get_sub_text(action, "placeholder", "content");
    let bvid = get_sub_text(action, "value", "bvid");
    let options = match json_get(action, "options") {
        Some(x) => match json_as_array(x) {
            Some(items) => get_option_values(items),
            None => None,
        },
        None => None,
    };
    match (placeholder, bvid, options) {
        (Some(placeholder), Some(bvid), Some(options)) => Some(
            Block::Select {
                placeholder: String::from_str(placeholder),
                bvid: String::from_str(bvid),
                options,
            },
        ),
        _ => None,
    }
}

fn decode_button(action: &Value) -> (r: Option<Block>)
    ensures
        r is Some <==> button_of(json_of(*action)) is Some,
        r matches Some(b) ==> button_of(json_of(*action)) == Some(b@),
{
    let label = get_sub_text(action, "text", "content");
    let dynamic_id = get_sub_text(action, "value", "dynamic_id");
    match (label, dynamic_id) {
        (Some(label), Some(dynamic_id)) => Some(
            Block::Button {
                label: String::from_str(label),
                dynamic_id: String::from_str(dynamic_id),
            },
        ),
        _ => None,
    }
}

fn decode_action(v: &Value) -> (r: Option<Block>)
    ensures
        r is Some <==> action_of(json_of(*v)) is Some,
        r matches Some(b) ==> action_of(json_of(*v)) == Some(b@),
{
    let actions = match json_get(v, "actions") {
        Some(actions) => actions,
        None => {
            return None;
        },
    };
    let action = match get_first(actions) {
        Some(action) => action,
        None => {
            return None;
        },
    };
    match get_text(action, "tag") {
        Some(tag) => if str_eq(tag, "select_static") {
            decode_select(action)
        } else if str_eq(tag, "button") {
            decode_button(action)
        } else {
            None
        },
        None => None,
    }
}

fn decode_note(v: &Value) -> (r: Option<Block>)
    ensures
        r is Some <==> note_of(json_of(*v)) is Some,
        r matches Some(b) ==> note_of(json_of(*v)) == Some(b@),
{
    let elements = match json_get(v, "elements") {
        Some(elements) => elements,
        None => {
            return None;
        },
    };
    let first = match get_first(elements) {
        Some(first) => first,
        None => {
            return None;
        },
    };
    match get_text(first, "content") {
        Some(content) => Some(Block::Note { content: String::from_str(content) }),
        None => None,
    }
}

fn decode_known(v: &Value) -> (r: Option<Block>)
    ensures
        r is Some <==> known_block(json_of(*v)) is Some,
        r matches Some(b) ==> known_block(json_of(*v)) == Some(b@),
{
    match get_text(v, "tag") {
        Some(tag) => if str_eq(tag, "div") {
            decode_info(v)
        } else if str_eq(tag, "action") {
            decode_action(v)
        } else if str_eq(tag, "note") {
            decode_note(v)
        } else if str_eq(tag, "markdown") {
            match get_text(v, "content") {
                Some(content) => Some(Block::Markdown { content: String::from_str(content) }),
                None => None,
            }
        } else if str_eq(tag, "hr") {
            Some(Block::Rule)
        } else {
            None
        },
        None => None,
    }
}

/// Reads a JSON element as a block. An element of no known kind is kept as
/// it is, so that nothing of a stored card is lost.
pub fn block_from_json(v: &Value) -> (b: Block)
    ensures
        b@ == block_of(json_of(*v)),
{
    match decode_known(v) {
        Some(b) => b,
        None => Block::Other { value: v.clone() },
    }
}

/// The blocks that JSON elements stand for, element by element.
pub open spec fn body_of(elements: Seq<JsonView>) -> Seq<BlockView> {
    elements.map_values(|j: JsonView| block_of(j))
}

/// Reads JSON elements as the blocks of a body.
pub fn body_from_json(elements: &Vec<Value>) -> (r: CardBody)
    ensures
        body_view(r@) == body_of(jsons_of(elements@)),
{
    let mut out: Vec<Block> = Vec::new();
    let mut i: usize = 0;
    while i < elements.len()
        invariant
            i <= elements.len(),
            out@.len() == i,
            forall|k: int| 0 <= k < i ==> (#[trigger] out@[k])@ == block_of(json_of(elements@[k])),
        decreases elements.len() - i,
    {
        out.push(block_from_json(&elements[i]));
        i += 1;
    }
    proof {
        assert(body_view(out@) =~= body_of(jsons_of(elements@)));
    }
    out
}

/// The names and tags of the layout are told apart by their letters.
proof fn lemma_names_differ()
    ensures
        "tag"@ != "text"@,
        "tag"@ != "extra"@,
        "tag"@ != "content"@,
        "tag"@ != "img_key"@,
        "tag"@ != "alt"@,
        "tag"@ != "actions"@,
        "tag"@ != "placeholder"@,
        "tag"@ != "value"@,
        "tag"@ != "options"@,
        "tag"@ != "type"@,
        "tag"@ != "elements"@,
        "text"@ != "extra"@,
        "text"@ != "type"@,
        "text"@ != "value"@,
        "type"@ != "value"@,
        "img_key"@ != "alt"@,
        "placeholder"@ != "value"@,
        "placeholder"@ != "options"@,
        "value"@ != "options"@,
        "type"@ != "bvid"@,
        "type"@ != "dynamic_id"@,
        "div"@ != "action"@,
        "div"@ != "note"@,
        "div"@ != "markdown"@,
        "div"@ != "hr"@,
        "action"@ != "note"@,
        "action"@ != "markdown"@,
        "action"@ != "hr"@,
        "note"@ != "markdown"@,
        "note"@ != "hr"@,
        "markdown"@ != "hr"@,
        "select_static"@ != "button"@,
{
    reveal_strlit("tag");
    reveal_strlit("text");
    reveal_strlit("extra");
    reveal_strlit("content");
    reveal_strlit("img_key");
    reveal_strlit("alt");
    reveal_strlit("actions");
    reveal_strlit("placeholder");
    reveal_strlit("value");
    reveal_strlit("options");
    reveal_strlit("type");
    reveal_strlit("elements");
    reveal_strlit("bvid");
    reveal_strlit("dynamic_id");
    reveal_strlit("div");
    reveal_strlit("action");
    reveal_strlit("note");
    reveal_strlit("markdown");
    reveal_strlit("hr");
    reveal_strlit("select_static");
    reveal_strlit("button");
    assert("tag"@.len() == 3 && "alt"@.len() == 3 && "div"@.len() == 3);
    assert("text"@.len() == 4 && "type"@.len() == 4 && "bvid"@.len() == 4 && "note"@.len() == 4);
    assert("extra"@.len() == 5 && "value"@.len() == 5);
    assert("content"@.len() == 7 && "img_key"@.len() == 7 && "actions"@.len() == 7);
    assert("options"@.len() == 7);
    assert("placeholder"@.len() == 11);
    assert("elements"@.len() == 8 && "markdown"@.len() == 8);
    assert("dynamic_id"@.len() == 10);
    assert("action"@.len() == 6 && "button"@.len() == 6);
    assert("hr"@.len() == 2);
    assert("select_static"@.len() == 13);
    assert("tag"@[1] != "alt"@[1]);
    assert("text"@[1] != "type"@[1]);
    assert("extra"@[0] != "value"@[0]);
    assert("img_key"@[0] != "content"@[0]);
    assert("img_key"@[0] != "actions"@[0]);
    assert("img_key"@[0] != "options"@[0]);
    assert("actions"@[0] != "options"@[0]);
    assert("actions"@[0] != "content"@[0]);
    assert("options"@[0] != "content"@[0]);
    assert("type"@[0] != "bvid"@[0]);
    assert("text"@[0] != "bvid"@[0]);
    assert("note"@[0] != "type"@[0]);
}

/// The values of the choices that a list of labels is rendered as are the
/// labels.
proof fn lemma_option_values(labels: Seq<Seq<char>>)
    ensures
        option_values(options_json(labels)) == Some(labels),
    decreases labels.len(),
{
    lemma_names_differ();
    let items = options_json(labels);
    if labels.len() == 0 {
        assert(labels =~= Seq::empty());
    } else {
        lemma_option_values(labels.drop_last());
        assert(items.drop_last() =~= options_json(labels.drop_last()));
        assert(items.last() == option_json(labels.last()));
        assert(text_member(option_json(labels.last()), "value"@) == Some(labels.last()));
        assert(labels.drop_last().push(labels.last()) =~= labels);
    }
}

/// A block that is written as JSON is read back as the same block: the
/// layout loses nothing of a block of a known kind.
pub proof fn lemma_block_round_trip(b: BlockView)
    requires
        !(b is Other),
    ensures
        known_block(block_json(b)) == Some(b),
        block_of(block_json(b)) == b,
{
    lemma_names_differ();
    let j = block_json(b);
    match b {
        BlockView::Info { content, img_key, alt } => {
            assert(text_member(j, "tag"@) == Some("div"@));
            assert(sub_text(j, "text"@, "content"@) == Some(content));
            assert(sub_text(j, "extra"@, "img_key"@) == Some(img_key));
            assert(member(j, "extra"@) is Some);
            assert(sub_text(member(j, "extra"@)->0, "alt"@, "content"@) == Some(alt));
        },
        BlockView::Select { placeholder, bvid, options } => {
            assert(text_member(j, "tag"@) == Some("action"@));
            let action = first_item(member(j, "actions"@)->0)->0;
            assert(text_member(action, "tag"@) == Some("select_static"@));
            assert(sub_text(action, "placeholder"@, "content"@) == Some(placeholder));
            let pairs = payload_of(b);
            assert(pairs.drop_last() =~= seq![("type"@, "video"@)]);
            assert(pairs.drop_last().drop_last() =~= Seq::empty());
            assert(pairs_json(pairs) == JsonView::Object(
                map!["type"@ => JsonView::Text("video"@), "bvid"@ => JsonView::Text(bvid)],
            )) by {
                reveal_with_fuel(pairs_json, 3);
            }
            assert(member(action, "value"@) == Some(pairs_json(pairs)));
            assert(sub_text(action, "value"@, "bvid"@) == Some(bvid));
            lemma_option_values(options);
            assert(items_of(member(action, "options"@)->0) == Some(options_json(options)));
        },
        BlockView::Button { label, dynamic_id } => {
            assert(text_member(j, "tag"@) == Some("action"@));
            let action = first_item(member(j, "actions"@)->0)->0;
            assert(text_member(action, "tag"@) == Some("button"@));
            assert(sub_text(action, "text"@, "content"@) == Some(label));
            let pairs = payload_of(b);
            assert(pairs.drop_last() =~= seq![("type"@, "dynamic"@)]);
            assert(pairs.drop_last().drop_last() =~= Seq::empty());
            assert(pairs_json(pairs) == JsonView::Object(
                map![
                    "type"@ => JsonView::Text("dynamic"@),
                    "dynamic_id"@ => JsonView::Text(dynamic_id),
                ],
            )) by {
                reveal_with_fuel(pairs_json, 3);
            }
            assert(member(action, "value"@) == Some(pairs_json(pairs)));
            assert(sub_text(action, "value"@, "dynamic_id"@) == Some(dynamic_id));
        },
        BlockView::Note { content } => {
            assert(text_member(j, "tag"@) == Some("note"@));
            let first = first_item(member(j, "elements"@)->0)->0;
            assert(text_member(first, "content"@) == Some(content));
        },
        BlockView::Markdown { content } => {
            assert(text_member(j, "tag"@) == Some("markdown"@));
            assert(text_member(j, "content"@) == Some(content));
        },
        BlockView::Rule => {
            assert(text_member(j, "tag"@) == Some("hr"@));
        },
        BlockView::Other { value } => {},
    }
}

/// A body that is written as JSON is read back as the same body, provided
/// that the elements it keeps as they are stand for no block of a known
/// kind.
pub proof fn lemma_body_round_trip(body: Seq<BlockView>)
    requires
        forall|k: int|
            0 <= k < body.len() && (#[trigger] body[k]) is Other ==> known_block(body[k]->value)
                is None,
    ensures
        body_of(body_json(body)) == body,
{
    assert forall|k: int| 0 <= k < body.len() implies block_of(block_json(#[trigger] body[k]))
        == body[k] by {
        if !(body[k] is Other) {
            lemma_block_round_trip(body[k]);
        }
    }
    assert(body_of(body_json(body)) =~= body);
}

/// The body that a stored text stands for: the text is read as JSON, and
/// the elements of the array that it holds are read as blocks. None where
/// the text is no JSON or holds no array.
pub open spec fn body_of_text(text: Seq<char>) -> Option<Seq<BlockView>> {
    match parsed_json(text) {
        Some(j) => match items_of(j) {
            Some(elements) => Some(body_of(elements)),
            None => None,
        },
        None => None,
    }
}

/// Reads the body of a card from the text in which it is stored.
pub fn body_from_text(text: &str) -> (r: Option<CardBody>)
    ensures
        r is Some <==> body_of_text(text@) is Some,
        r matches Some(body) ==> body_of_text(text@) == Some(body_view(body@)),
{
    match json_parse(text) {
        Some(v) => match json_as_array(&v) {
            Some(elements) => Some(body_from_json(elements)),
            None => None,
        },
        None => None,
    }
}

/// The text in which a body is stored: what the JSON array of its blocks
/// is written as; none where that array cannot be written.
pub open spec fn text_of_body(body: Seq<BlockView>) -> Option<Seq<char>> {
    printed_json(JsonView::Array(body_json(body)))
}

/// Writes the body of a card as the text in which it is stored: the JSON
/// array of its blocks. The text is given exactly where that array can be
/// written.
pub fn body_to_text(body: &Vec<Block>) -> (r: Option<String>)
    ensures
        r is Some <==> text_of_body(body_view(body@)) is Some,
        r matches Some(text) ==> text_of_body(body_view(body@)) == Some(text@),
{
    json_print(&json_array(body_to_json(body)))
}

} // verus!
