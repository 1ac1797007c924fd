//! Callbacks as JSON: the shapes in which the chat platform reports a
//! binding request and a moderator's action. A payload of another shape is
//! rejected here, before anything is decided on it.
use crate::biz::callback::{
    field_of, Action, ActionData, BindData, ButtonAction, CallbackData, Field, SelectAction,
};
use crate::biz::card_json::text_member;
use crate::json::{holds_members, json_as_str, json_entries, json_get, json_of, member, JsonView};
use crate::keyed::{distinct_keys, first_with, lemma_first_with, Keyed};
use serde_json::Value;
use vstd::prelude::*;

verus! {

/// Whether a value is an object that holds nothing but strings.
pub open spec fn is_payload(j: JsonView) -> bool {
    j matches JsonView::Object(members) && forall|name: Seq<char>| #[trigger]
        members.contains_key(name) ==> members[name] is Text
}

/// Whether `value` holds what the object `j` holds: under every name the
/// text that the object has there, and every name once.
pub open spec fn holds_payload(value: Seq<Field>, j: JsonView) -> bool {
    &&& distinct_keys(value)
    &&& forall|name: Seq<char>| #[trigger] field_of(value, name) == text_member(j, name)
}

/// Reads an object of strings as a payload.
pub fn payload_from_json(v: &Value) -> (r: Option<Vec<Field>>)
    ensures
        r is Some <==> is_payload(json_of(*v)),
        r matches Some(value) ==> holds_payload(value@, json_of(*v)),
{
    let entries = match json_entries(v) {
        Some(entries) => entries,
        None => {
            return None;
        },
    };
    let ghost members = match json_of(*v) {
        JsonView::Object(m) => m,
        _ => Map::empty(),
    };
    let mut out: Vec<Field> = Vec::new();
    let mut i: usize = 0;
    while i < entries.len()
        invariant
            i <= entries.len(),
            json_of(*v) == JsonView::Object(members),
            holds_members(entries@, members),
            out@.len() == i,
            forall|k: int|
                0 <= k < i ==> (#[trigger] out@[k]).name@ == entries@[k].0@ && members[entries@[k].0@]
                    == JsonView::Text(out@[k].value@),
        decreases entries.len() - i,
    {
        match json_as_str(&entries[i].1) {
            Some(text) => {
                out.push(Field { name: entries[i].0.clone(), value: String::from_str(text) });
            },
            None => {
                proof {
                    assert(members.contains_key(entries@[i as int].0@));
                }
                return None;
            },
        }
        i += 1;
    }
    proof {
        let value = out@;
        assert forall|a: int, b: int|
            0 <= a < value.len() && 0 <= b < value.len() && a != b implies #[trigger] value[a].key()
            != #[trigger] value[b].key() by {
            if a < b {
                assert(entries@[a].0@ != entries@[b].0@);
            } else {
                assert(entries@[b].0@ != entries@[a].0@);
            }
        }
        assert forall|name: Seq<char>| #[trigger]
            members.contains_key(name) implies members[name] is Text by {
            let k = choose|k: int| 0 <= k < entries@.len() && (#[trigger] entries@[k]).0@ == name;
            assert(value[k].name@ == name);
        }
        assert forall|name: Seq<char>| #[trigger]
            field_of(value, name) == text_member(json_of(*v), name) by {
            lemma_first_with(value, name);
            match first_with(value, name) {
                Some(k) => {
                    assert(value[k].key() == name);
                    assert(members.contains_key(entries@[k].0@));
                },
                None => {
                    if members.contains_key(name) {
                        let k = choose|k: int|
                            0 <= k < entries@.len() && (#[trigger] entries@[k]).0@ == name;
                        assert(value[k].key() == name);
                    }
                },
            }
        }
    }
    Some(out)
}

/// Whether an action has the shape of a choice in a drop-down: the chosen
/// label, a tag, and a payload.
pub open spec fn is_select(a: JsonView) -> bool {
    &&& text_member(a, "option"@) is Some
    &&& text_member(a, "tag"@) is Some
    &&& member(a, "value"@) is Some
    &&& is_payload(member(a, "value"@)->0)
}

/// Whether an action has the shape of a press of a button: a tag and a
/// payload.
pub open spec fn is_button(a: JsonView) -> bool {
    &&& text_member(a, "tag"@) is Some
    &&& member(a, "value"@) is Some
    &&& is_payload(member(a, "value"@)->0)
}

/// Whether a callback has the shape of a binding request.
pub open spec fn is_bind(j: JsonView) -> bool {
    &&& text_member(j, "challenge"@) is Some
    &&& text_member(j, "token"@) is Some
    &&& text_member(j, "type"@) is Some
}

/// Whether a callback has the shape of a moderator's action.
pub open spec fn is_action(j: JsonView) -> bool {
    &&& text_member(j, "open_message_id"@) is Some
    &&& text_member(j, "token"@) is Some
    &&& member(j, "action"@) is Some
    &&& (is_select(member(j, "action"@)->0) || is_button(member(j, "action"@)->0))
}

/// Whether `action` is what the JSON `a` reports: a choice where `a` has
/// the shape of one, a press otherwise, each with what `a` holds.
pub open spec fn reports_action(action: Action, a: JsonView) -> bool {
    match action {
        Action::Select(s) => {
            &&& is_select(a)
            &&& text_member(a, "option"@) == Some(s.option@)
            &&& text_member(a, "tag"@) == Some(s.tag@)
            &&& holds_payload(s.value@, member(a, "value"@)->0)
        },
        Action::Button(b) => {
            &&& !is_select(a)
            &&& is_button(a)
            &&& text_member(a, "tag"@) == Some(b.tag@)
            &&& holds_payload(b.value@, member(a, "value"@)->0)
        },
    }
}

/// Whether `data` is what the JSON `j` reports: a binding request where
/// `j` has the shape of one, an action otherwise, each with what `j`
/// holds.
pub open spec fn reports(data: CallbackData, j: JsonView) -> bool {
    match data {
        CallbackData::Bind(b) => {
            &&& is_bind(j)
            &&& text_member(j, "challenge"@) == Some(b.challenge@)
            &&& text_member(j, "token"@) == Some(b.token@)
            &&& text_member(j, "type"@) == Some(b.kind@)
        },
        CallbackData::Action(a) => {
            &&& !is_bind(j)
            &&& is_action(j)
            &&& text_member(j, "open_message_id"@) == Some(a.open_message_id@)
            &&& text_member(j, "token"@) == Some(a.token@)
            &&& reports_action(a.action, member(j, "action"@)->0)
        },
    }
}

fn get_string(v: &Value, name: &str) -> (r: Option<String>)
    ensures
        r is Some <==> text_member(json_of(*v), name@) is Some,
        r matches Some(s) ==> text_member(json_of(*v), name@) == Some(s@),
{
    match json_get(v, name) {
        Some(x) => match json_as_str(x) {
            Some(s) => Some(String::from_str(s)),
            None => None,
        },
        None => None,
    }
}

fn get_payload(v: &Value) -> (r: Option<Vec<Field>>)
    ensures
        r is Some <==> member(json_of(*v), "value"@) is Some && is_payload(
            member(json_of(*v), "value"@)->0,
        ),
        r matches Some(value) ==> holds_payload(value@, member(json_of(*v), "value"@)->0),
{
    match json_get(v, "value") {
        Some(x) => payload_from_json(x),
        None => None,
    }
}

/// Reads the action of a callback.
pub fn action_from_json(v: &Value) -> (r: Option<Action>)
    ensures
        r is Some <==> is_select(json_of(*v)) || is_button(json_of(*v)),
        r matches Some(action) ==> reports_action(action, json_of(*v)),
{
    let tag = match get_string(v, "tag") {
        Some(tag) => tag,
        None => {
            return None;
        },
    };
    let value = match get_payload(v) {
        Some(value) => value,
        None => {
            return None;
        },
    };
    match get_string(v, "option") {
        Some(option) => Some(Action::Select(SelectAction { option, tag, value })),
        None => Some(Action::Button(ButtonAction { tag, value })),
    }
}

/// Reads what arrived at the callback address: a binding request, or a
/// moderator's action. Anything else is rejected.
pub fn callback_from_json(v: &Value) -> (r: Option<CallbackData>)
    ensures
        r is Some <==> is_bind(json_of(*v)) || is_action(json_of(*v)),
        r matches Some(data) ==> reports(data, json_of(*v)),
{
    let token = match get_string(v, "token") {
        Some(token) => token,
        None => {
            return None;
        },
    };
    match (get_string(v, "challenge"), get_string(v, "type")) {
        (Some(challenge), Some(kind)) => {
            return Some(CallbackData::Bind(BindData { challenge, token, kind }));
        },
        _ => {},
    }
    let open_message_id = match get_string(v, "open_message_id") {
        Some(id) => id,
        None => {
            return None;
        },
    };
    let action = match json_get(v, "action") {
        Some(a) => match action_from_json(a) {
            Some(action) => action,
            None => {
                return None;
            },
        },
        None => {
            return None;
        },
    };
    Some(CallbackData::Action(ActionData { open_message_id, token, action }))
}

} // verus!
