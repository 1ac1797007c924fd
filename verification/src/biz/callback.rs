//! The callback handler: what a moderator's tap does to the record of an
//! item, and the view of the batch that is handed back.
use crate::biz::cards::{
    accepted_line, body_view, copy_body, dynamic_to_ok, merge_body, merged, ok_line,
    video_to_accepted, Block, BlockView, CardBody,
};
use crate::db::{cards_of_message, Record, RecordView, Store};
use crate::keyed::{first_with, lemma_first_with, position, Keyed};
use crate::text::str_eq;
use vstd::prelude::*;

verus! {

/// What the chat platform sends to bind the callback address.
#[derive(Debug, Clone)]
pub struct BindData {
    pub challenge: String,
    pub token: String,
    pub kind: String,
}

/// One named value of an action's payload.
#[derive(Debug, Clone)]
pub struct Field {
    pub name: String,
    pub value: String,
}

impl Keyed for Field {
    open spec fn key(&self) -> Seq<char> {
        self.name@
    }

    fn key_str(&self) -> (k: &str) {
        self.name.as_str()
    }
}

/// A choice made in a drop-down.
#[derive(Debug, Clone)]
pub struct SelectAction {
    /// The label that was chosen.
    pub option: String,
    pub tag: String,
    /// The payload that the drop-down was rendered with.
    pub value: Vec<Field>,
}

/// A press of a button.
#[derive(Debug, Clone)]
pub struct ButtonAction {
    pub tag: String,
    /// The payload that the button was rendered with.
    pub value: Vec<Field>,
}

/// What a moderator did.
#[derive(Debug, Clone)]
pub enum Action {
    Select(SelectAction),
    Button(ButtonAction),
}

/// What the chat platform sends when a moderator acts on a message.
#[derive(Debug, Clone)]
pub struct ActionData {
    /// The message that was acted on.
    pub open_message_id: String,
    pub token: String,
    pub action: Action,
}

/// What arrives at the callback address.
#[derive(Debug, Clone)]
pub enum CallbackData {
    Bind(BindData),
    Action(ActionData),
}

/// Why an action was rejected. A rejected action changes nothing.
#[derive(Debug, Clone, Copy, PartialEq, Eq, Structural)]
pub enum CallbackError {
    /// The payload lacks the id of the item.
    MissingField,
    /// The payload is of no kind that is acted on.
    UnknownAction,
    /// No item with the id of the payload has a record.
    NotFound,
    /// The card of the item has fewer than three blocks.
    MalformedCard,
}

/// The value that a payload holds under `name`.
pub open spec fn field_of(value: Seq<Field>, name: Seq<char>) -> Option<Seq<char>> {
    match first_with(value, name) {
        Some(i) => Some(value[i].value@),
        None => None,
    }
}

/// Looks up the value that a payload holds under `name`.
pub fn field<'a>(value: &'a Vec<Field>, name: &str) -> (r: Option<&'a String>)
    ensures
        r is Some <==> field_of(value@, name@) is Some,
        r matches Some(s) ==> field_of(value@, name@) == Some(s@),
{
    match position(value, name) {
        Some(i) => Some(&value[i].value),
        None => None,
    }
}

/// What a list of fields holds.
pub open spec fn fields_view(value: Seq<Field>) -> Seq<(Seq<char>, Seq<char>)> {
    value.map_values(|f: Field| (f.name@, f.value@))
}

/// The payload that the action of a block is rendered with: the kind of
/// the item and its id. A block without an action has none.
pub open spec fn payload_of(block: BlockView) -> Seq<(Seq<char>, Seq<char>)> {
    match block {
        BlockView::Select { bvid, .. } => seq![("type"@, "video"@), ("bvid"@, bvid)],
        BlockView::Button { dynamic_id, .. } => seq![
            ("type"@, "dynamic"@),
            ("dynamic_id"@, dynamic_id),
        ],
        _ => Seq::empty(),
    }
}

fn a_field(name: &str, value: &str) -> (f: Field)
    ensures
        f.name@ == name@,
        f.value@ == value@,
{
    Field { name: String::from_str(name), value: String::from_str(value) }
}

/// The payload that the action of a block is rendered with, and that the
/// chat platform hands back when a moderator acts on the block.
pub fn payload(block: &Block) -> (r: Vec<Field>)
    ensures
        fields_view(r@) == payload_of(block@),
{
    let mut out: Vec<Field> = Vec::new();
    match block {
        Block::Select { placeholder: _, bvid, options: _ } => {
            out.push(a_field("type", "video"));
            out.push(a_field("bvid", bvid.as_str()));
            proof {
                assert(fields_view(out@) =~= payload_of(block@));
            }
        },
        Block::Button { label: _, dynamic_id } => {
            out.push(a_field("type", "dynamic"));
            out.push(a_field("dynamic_id", dynamic_id.as_str()));
            proof {
                assert(fields_view(out@) =~= payload_of(block@));
            }
        },
        _ => {
            proof {
                assert(fields_view(out@) =~= payload_of(block@));
            }
        },
    }
    out
}

/// What an action asks for: a category for an item.
#[derive(Debug, Clone)]
pub struct Decision {
    pub id: String,
    pub category: String,
    /// Whether the item is a video, as opposed to a picture post.
    pub is_video: bool,
}

/// What a [`Decision`] holds.
pub struct DecisionView {
    pub id: Seq<char>,
    pub category: Seq<char>,
    pub is_video: bool,
}

impl View for Decision {
    type V = DecisionView;

    open spec fn view(&self) -> DecisionView {
        DecisionView { id: self.id@, category: self.category@, is_video: self.is_video }
    }
}

/// The category that acceptance of a picture post is recorded as.
pub open spec fn accepted_category() -> Seq<char> {
    "ok"@
}

/// What an action asks for. A choice in a drop-down gives the chosen label
/// to the video named in the payload; a button marked as belonging to a
/// picture post accepts that post; anything else is rejected.
pub open spec fn decision_of(action: Action) -> Result<DecisionView, CallbackError> {
    match action {
        Action::Select(s) => match field_of(s.value@, "bvid"@) {
            Some(bvid) => Ok(DecisionView { id: bvid, category: s.option@, is_video: true }),
            None => Err(CallbackError::MissingField),
        },
        Action::Button(b) => if field_of(b.value@, "type"@) == Some("dynamic"@) {
            match field_of(b.value@, "dynamic_id"@) {
                Some(id) => Ok(DecisionView { id, category: accepted_category(), is_video: false }),
                None => Err(CallbackError::MissingField),
            }
        } else {
            Err(CallbackError::UnknownAction)
        },
    }
}

/// Reads what an action asks for.
pub fn decide(action: &Action) -> (r: Result<Decision, CallbackError>)
    ensures
        r is Ok <==> decision_of(*action) is Ok,
        r matches Ok(d) ==> decision_of(*action) == Ok::<DecisionView, CallbackError>(d@),
        r matches Err(e) ==> decision_of(*action) == Err::<DecisionView, CallbackError>(e),
{
    match action {
        Action::Select(s) => match field(&s.value, "bvid") {
            Some(bvid) => Ok(Decision { id: bvid.clone(), category: s.option.clone(), is_video: true }),
            None => Err(CallbackError::MissingField),
        },
        Action::Button(b) => {
            let is_dynamic = match field(&b.value, "type") {
                Some(kind) => str_eq(kind.as_str(), "dynamic"),
                None => false,
            };
            if !is_dynamic {
                return Err(CallbackError::UnknownAction);
            }
            match field(&b.value, "dynamic_id") {
                Some(id) => Ok(
                    Decision { id: id.clone(), category: String::from_str("ok"), is_video: false },
                ),
                None => Err(CallbackError::MissingField),
            }
        },
    }
}

/// The card of an item after the decision: the action block gives way to a
/// status line.
pub open spec fn decided_card(card: Seq<BlockView>, d: DecisionView) -> Seq<BlockView> {
    seq![card[0], if d.is_video {
        accepted_line(d.category)
    } else {
        ok_line()
    }, card[2]]
}

/// The record of an item after the decision was taken at the instant
/// `now`.
pub open spec fn decided_record(r: RecordView, d: DecisionView, now: int) -> RecordView {
    RecordView {
        category: Some(d.category),
        mark_time: Some(now),
        card: decided_card(r.card, d),
        ..r
    }
}

/// What becomes of an action on a store with these records: the decision
/// that is carried out, or the reason for which the action is rejected.
pub open spec fn outcome(records: Seq<Record>, action: Action) -> Result<DecisionView, CallbackError> {
    match decision_of(action) {
        Err(e) => Err(e),
        Ok(d) => match first_with(records, d.id) {
            None => Err(CallbackError::NotFound),
            Some(i) => if records[i].card@.len() < 3 {
                Err(CallbackError::MalformedCard)
            } else {
                Ok(d)
            },
        },
    }
}

/// Whether `after` is `before` with the decision `d` carried out at the
/// instant `now`: the record of the item is the decided record, every
/// other record holds what it held.
pub open spec fn carried_out(before: Seq<Record>, after: Seq<Record>, d: DecisionView, now: int) -> bool {
    &&& after.len() == before.len()
    &&& forall|k: int|
        0 <= k < before.len() ==> (#[trigger] after[k])@ == (if before[k].id@ == d.id {
            decided_record(before[k]@, d, now)
        } else {
            before[k]@
        })
}

/// Whether `after` holds what `before` holds, record by record.
pub open spec fn unchanged(before: Seq<Record>, after: Seq<Record>) -> bool {
    &&& after.len() == before.len()
    &&& forall|k: int| 0 <= k < before.len() ==> (#[trigger] after[k])@ == before[k]@
}

/// The logical channel in which decisions on videos are archived.
pub open spec fn video_archive() -> Seq<char> {
    "视频归档"@
}

/// The logical channel in which decisions on picture posts are archived.
pub open spec fn dynamic_archive() -> Seq<char> {
    "动态归档"@
}

/// The card of a decided item, to be posted to the archive channel of the
/// day on which the item was published.
#[derive(Debug, Clone)]
pub struct Notice {
    /// The logical channel; the date is added when the group is resolved.
    pub channel: String,
    pub card: CardBody,
    /// When the item was published.
    pub time: i64,
}

/// What the handler hands back for an action.
#[derive(Debug, Clone)]
pub struct Reply {
    /// The body of the whole batch as it is to be shown from now on.
    pub elements: CardBody,
    /// What is to be posted to the archive.
    pub notice: Notice,
}

/// The logical archive channel for a kind of item.
pub fn archive_channel(is_video: bool) -> (r: String)
    ensures
        r@ == (if is_video {
            video_archive()
        } else {
            dynamic_archive()
        }),
{
    if is_video {
        String::from_str("视频归档")
    } else {
        String::from_str("动态归档")
    }
}

/// Carries out a moderator's action. The category and the time of the
/// decision are written to the record of the item, and the action block of
/// its card gives way to a status line. Then the body of the batch is
/// built anew from the cards of all records that were delivered in the
/// message acted on, as they stand in the store after the update.
///
/// An action that is malformed, names no recorded item, or names an item
/// whose card has fewer than three blocks is rejected, and the store
/// stays as it is.
pub fn new_body(action: &ActionData, store: &mut Store, now: i64) -> (r: Result<Reply, CallbackError>)
    requires
        old(store).wf(),
    ensures
        final(store).wf(),
        final(store).group_records() == old(store).group_records(),
        r is Ok <==> outcome(old(store).records(), action.action) is Ok,
        r matches Err(e) ==> {
            &&& outcome(old(store).records(), action.action) == Err::<DecisionView, CallbackError>(e)
            &&& unchanged(old(store).records(), final(store).records())
        },
        r matches Ok(reply) ==> {
            let d = outcome(old(store).records(), action.action)->Ok_0;
            let target = old(store).records()[first_with(old(store).records(), d.id)->0];
            &&& carried_out(old(store).records(), final(store).records(), d, now as int)
            &&& body_view(reply.elements@) == merged(
                cards_of_message(final(store).records(), action.open_message_id@),
            )
            &&& reply.notice.channel@ == (if d.is_video {
                video_archive()
            } else {
                dynamic_archive()
            })
            &&& body_view(reply.notice.card@) == decided_card(body_view(target.card@), d)
            &&& reply.notice.time == target.created_at
        },
{
    let d = match decide(&action.action) {
        Ok(d) => d,
        Err(e) => {
            return Err(e);
        },
    };
    let (card, created_at) = match store.from_id(d.id.as_str()) {
        Some(rec) => (copy_body(&rec.card), rec.created_at),
        None => {
            proof {
                lemma_first_with(store.records(), d.id@);
            }
            return Err(CallbackError::NotFound);
        },
    };
    let ghost before = store.records();
    let ghost i = first_with(before, d.id@)->0;
    proof {
        lemma_first_with(before, d.id@);
        assert(body_view(card@).len() == before[i].card@.len());
    }
    if card.len() < 3 {
        return Err(CallbackError::MalformedCard);
    }
    let ghost old_card = body_view(card@);
    let new_card = if d.is_video {
        video_to_accepted(card, d.category.clone())
    } else {
        dynamic_to_ok(card)
    };
    proof {
        assert(body_view(new_card@) =~= decided_card(body_view(before[i].card@), d@));
    }
    let notice_card = copy_body(&new_card);
    store.set_category(d.id.as_str(), d.category.as_str(), now);
    let ghost between = store.records();
    store.set_json(d.id.as_str(), new_card);
    proof {
        let after = store.records();
        assert forall|k: int| 0 <= k < before.len() implies (#[trigger] after[k])@ == (if before[k].id@
            == d.id@ {
            decided_record(before[k]@, d@, now as int)
        } else {
            before[k]@
        }) by {
            assert(between[k]@.id == before[k]@.id);
            if before[k].id@ == d.id@ {
                if k != i {
                    assert(before[k].key() == before[i].key());
                }
            }
        }
    }
    let elements = merge_body(store.all_item_json(action.open_message_id.as_str()));
    Ok(
        Reply {
            elements,
            notice: Notice { channel: archive_channel(d.is_video), card: notice_card, time: created_at },
        },
    )
}

/// An action block carries its item: the choice that comes back with the
/// payload of a drop-down names the video of the drop-down and the chosen
/// label, and the press that comes back with the payload of a button
/// accepts the post of the button.
pub proof fn lemma_payload_names_item(block: Block, action: Action)
    requires
        match action {
            Action::Select(s) => block is Select && fields_view(s.value@) == payload_of(block@),
            Action::Button(b) => block is Button && fields_view(b.value@) == payload_of(block@),
        },
    ensures
        match action {
            Action::Select(s) => decision_of(action) == Ok::<DecisionView, CallbackError>(
                DecisionView { id: block->bvid@, category: s.option@, is_video: true },
            ),
            Action::Button(b) => decision_of(action) == Ok::<DecisionView, CallbackError>(
                DecisionView {
                    id: block->dynamic_id@,
                    category: accepted_category(),
                    is_video: false,
                },
            ),
        },
{
    reveal_strlit("type");
    reveal_strlit("bvid");
    reveal_strlit("dynamic_id");
    assert("type"@ != "bvid"@) by {
        assert("type"@[0] == 't');
        assert("bvid"@[0] == 'b');
    }
    assert("type"@ != "dynamic_id"@) by {
        assert("type"@.len() == 4);
        assert("dynamic_id"@.len() == 10);
    }
    match action {
        Action::Select(s) => {
            let value = s.value@;
            assert(fields_view(value).len() == 2);
            assert(fields_view(value)[0] == ("type"@, "video"@));
            assert(fields_view(value)[1] == ("bvid"@, block->bvid@));
            assert(value[0].key() == "type"@);
            assert(value[1].key() == "bvid"@);
            lemma_first_with(value, "bvid"@);
            assert(first_with(value, "bvid"@) == Some(1int)) by {
                let i = first_with(value, "bvid"@)->0;
                if i == 0 {
                    assert(value[0].key() == "bvid"@);
                }
            }
        },
        Action::Button(b) => {
            let value = b.value@;
            assert(fields_view(value).len() == 2);
            assert(fields_view(value)[0] == ("type"@, "dynamic"@));
            assert(fields_view(value)[1] == ("dynamic_id"@, block->dynamic_id@));
            assert(value[0].key() == "type"@);
            assert(value[1].key() == "dynamic_id"@);
            lemma_first_with(value, "type"@);
            lemma_first_with(value, "dynamic_id"@);
            assert(first_with(value, "type"@) == Some(0int));
            assert(first_with(value, "dynamic_id"@) == Some(1int)) by {
                let i = first_with(value, "dynamic_id"@)->0;
                if i == 0 {
                    assert(value[0].key() == "dynamic_id"@);
                }
            }
        },
    }
}

/// The cards of a message depend only on what the records hold.
pub proof fn lemma_cards_of_message(a: Seq<Record>, b: Seq<Record>, message_id: Seq<char>)
    requires
        a.len() == b.len(),
        forall|k: int|
            0 <= k < a.len() ==> (#[trigger] a[k])@.message_id == b[k]@.message_id && a[k]@.card
                == b[k]@.card,
    ensures
        cards_of_message(a, message_id) == cards_of_message(b, message_id),
    decreases a.len(),
{
    if a.len() > 0 {
        assert(a[a.len() - 1]@.message_id == b[a.len() - 1]@.message_id);
        assert(a[a.len() - 1]@.card == b[a.len() - 1]@.card);
        assert forall|k: int| 0 <= k < a.drop_last().len() implies (#[trigger] a.drop_last()[k])@.message_id
            == b.drop_last()[k]@.message_id && a.drop_last()[k]@.card == b.drop_last()[k]@.card by {
            assert(a[k]@.message_id == b[k]@.message_id);
        }
        lemma_cards_of_message(a.drop_last(), b.drop_last(), message_id);
    }
}

/// An action that was carried out is accepted again, and carrying it out
/// again changes neither a category nor a card: the store holds the same
/// categories and cards, and the handler shows the same batch, as after
/// the first time. Only the time of the decision is written anew.
pub proof fn lemma_action_idempotent(
    before: Seq<Record>,
    once: Seq<Record>,
    twice: Seq<Record>,
    action: Action,
    message_id: Seq<char>,
    first: int,
    second: int,
)
    requires
        outcome(before, action) is Ok,
        carried_out(before, once, outcome(before, action)->Ok_0, first),
        carried_out(once, twice, outcome(before, action)->Ok_0, second),
    ensures
        outcome(once, action) == outcome(before, action),
        forall|k: int|
            0 <= k < once.len() ==> (#[trigger] twice[k])@.category == once[k]@.category
                && twice[k]@.card == once[k]@.card && twice[k]@.id == once[k]@.id,
        cards_of_message(twice, message_id) == cards_of_message(once, message_id),
{
    let d = outcome(before, action)->Ok_0;
    lemma_first_with(before, d.id);
    lemma_first_with(once, d.id);
    let i = first_with(before, d.id)->0;
    assert(once[i]@ == decided_record(before[i]@, d, first));
    assert(once[i].key() == d.id);
    let j = first_with(once, d.id)->0;
    assert(j == i) by {
        if j < i {
            assert(once[j]@.id == before[j]@.id);
            assert(before[j].key() == d.id);
        }
    }
    assert(body_view(once[i].card@).len() == 3);
    assert forall|k: int| 0 <= k < once.len() implies (#[trigger] twice[k])@.category
        == once[k]@.category && twice[k]@.card == once[k]@.card && twice[k]@.id
        == once[k]@.id by {
        assert(once[k]@.id == before[k]@.id);
        if once[k].id@ == d.id {
            lemma_decision_idempotent(before[k]@, d, first, second);
        }
    }
    assert forall|k: int| 0 <= k < twice.len() implies (#[trigger] twice[k])@.message_id
        == once[k]@.message_id && twice[k]@.card == once[k]@.card by {
        assert(twice[k]@.category == once[k]@.category);
    }
    lemma_cards_of_message(twice, once, message_id);
}

/// Deciding twice is deciding once: a second application of the same
/// decision leaves the category and the card as the first one made them.
/// Only the time of the decision is written anew.
pub proof fn lemma_decision_idempotent(r: RecordView, d: DecisionView, first: int, second: int)
    ensures
        decided_record(decided_record(r, d, first), d, second).category == decided_record(
            r,
            d,
            first,
        ).category,
        decided_record(decided_record(r, d, first), d, second).card == decided_record(
            r,
            d,
            first,
        ).card,
        decided_record(decided_record(r, d, first), d, second) == decided_record(r, d, second),
        decided_record(r, d, first).card.len() == 3,
{
    assert(decided_card(decided_card(r.card, d), d) =~= decided_card(r.card, d));
}

} // verus!
