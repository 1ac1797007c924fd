//! What the two endpoints of the pipeline answer.
use crate::biz::callback::{
    carried_out, decided_card, dynamic_archive, new_body, outcome, unchanged, video_archive,
    CallbackData, Reply,
};
use crate::biz::card_json::{body_json, body_to_json};
use crate::biz::cards::{body_view, merged};
use crate::json::{json_array, json_insert, json_object, json_of, json_text, JsonView};
use crate::biz::summary::{buckets_view, categorized, summary_of, Bucket};
use crate::db::{cards_of_message, day_end, day_start, in_window, Store};
use crate::http::error::{callback_error_text, Error};
use crate::keyed::first_with;
use crate::order::sorted_by_rank;
use vstd::prelude::*;
use vstd::string::*;

verus! {

/// The answer to a callback.
#[derive(Debug, Clone)]
pub enum Response {
    /// The challenge of a binding request, handed back.
    Challenge(String),
    /// The new body of the batch, with what is to be archived.
    Elements(Reply),
}

/// Answers a callback: a binding request gets its challenge back and
/// changes nothing; an action is carried out as [`new_body`] says, and a
/// rejected action is answered with the reason and changes nothing.
pub fn callback(data: CallbackData, store: &mut Store, now: i64) -> (r: Result<Response, Error>)
    requires
        old(store).wf(),
    ensures
        final(store).wf(),
        final(store).group_records() == old(store).group_records(),
        final(store).records().len() == old(store).records().len(),
        match data {
            CallbackData::Bind(b) => {
                &&& r matches Ok(Response::Challenge(c)) && c@ == b.challenge@
                &&& final(store).records() == old(store).records()
            },
            CallbackData::Action(a) => match outcome(old(store).records(), a.action) {
                Err(e) => {
                    &&& r matches Err(error) && error.0@ == callback_error_text(e)
                    &&& unchanged(old(store).records(), final(store).records())
                },
                Ok(d) => {
                    let target = old(store).records()[first_with(old(store).records(), d.id)->0];
                    &&& r matches Ok(Response::Elements(reply)) && {
                        &&& body_view(reply.elements@) == merged(
                            cards_of_message(final(store).records(), a.open_message_id@),
                        )
                        &&& reply.notice.channel@ == (if d.is_video {
                            video_archive()
                        } else {
                            dynamic_archive()
                        })
                        &&& body_view(reply.notice.card@) == decided_card(
                            body_view(target.card@),
                            d,
                        )
                        &&& reply.notice.time == target.created_at
                    }
                    &&& carried_out(old(store).records(), final(store).records(), d, now as int)
                },
            },
        },
{
    match data {
        CallbackData::Bind(b) => Ok(Response::Challenge(b.challenge)),
        CallbackData::Action(action) => match new_body(&action, store, now) {
            Ok(reply) => Ok(Response::Elements(reply)),
            Err(e) => Err(Error::from_callback(e)),
        },
    }
}

/// The JSON that a callback is answered with: the challenge under its
/// name, or the new body of the batch as the elements of the message.
pub open spec fn response_json(r: Response) -> JsonView {
    match r {
        Response::Challenge(c) => JsonView::Object(map!["challenge"@ => JsonView::Text(c@)]),
        Response::Elements(reply) => JsonView::Object(
            map!["elements"@ => JsonView::Array(body_json(body_view(reply.elements@)))],
        ),
    }
}

/// Writes the answer to a callback as JSON.
pub fn response_to_json(response: &Response) -> (r: serde_json::Value)
    ensures
        json_of(r) == response_json(*response),
{
    let mut o = json_object();
    match response {
        Response::Challenge(c) => {
            json_insert(&mut o, "challenge", json_text(c.as_str()));
        },
        Response::Elements(reply) => {
            json_insert(&mut o, "elements", json_array(body_to_json(&reply.elements)));
        },
    }
    o
}

/// The words for a day that the calendar cannot bound.
pub open spec fn day_error_text() -> Seq<char> {
    "the day of the query has no bounds"@
}

/// Answers a query for the summary of the day that holds the instant `t`.
pub fn summary(t: i64, store: &Store) -> (r: Result<Vec<Bucket>, Error>)
    ensures
        r is Ok <==> day_start(t as int) is Some && day_end(t as int) is Some,
        r matches Ok(buckets) ==> buckets_view(buckets@) == summary_of(
            sorted_by_rank(in_window(store.records(), day_start(t as int)->0, day_end(t as int)->0)),
        ),
        r matches Err(e) ==> e.0@ == day_error_text(),
{
    match categorized(t, store) {
        Some(buckets) => Ok(buckets),
        None => Err(Error(String::from_str("the day of the query has no bounds"))),
    }
}

} // verus!
