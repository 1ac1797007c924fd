//! What the chat platform tells about groups, users and messages, and the
//! decisions that are taken on it.
use crate::keyed::{first_with, has_key, position, Keyed};
use crate::text::str_eq;
use vstd::prelude::*;
use vstd::string::*;

verus! {

/// A chat group.
#[derive(Debug, Clone)]
pub struct Group {
    pub chat_id: String,
    pub avatar: String,
    pub name: String,
    pub description: String,
}

impl Keyed for Group {
    open spec fn key(&self) -> Seq<char> {
        self.name@
    }

    fn key_str(&self) -> (k: &str) {
        self.name.as_str()
    }
}

/// A member of a group.
#[derive(Debug, Clone)]
pub struct GroupUser {
    pub name: String,
    pub member_id: String,
    pub member_id_type: String,
}

/// A user of the tenant.
#[derive(Debug, Clone)]
pub struct User {
    pub name: String,
    pub open_id: String,
    pub user_id: String,
}

/// The platform's acknowledgement of a message.
#[derive(Debug, Clone)]
pub struct SentMessage {
    pub message_id: String,
}

/// The value of the authorization header for the access token `token`.
pub fn bearer(token: &str) -> (r: String)
    ensures
        r@ == "Bearer "@ + token@,
{
    let mut out = String::from_str("Bearer ");
    out.append(token);
    out
}

impl Keyed for User {
    open spec fn key(&self) -> Seq<char> {
        self.user_id@
    }

    fn key_str(&self) -> (k: &str) {
        self.user_id.as_str()
    }
}

/// The name under which a user is shown where nobody of that id is known.
pub open spec fn unknown_name() -> Seq<char> {
    "？？？"@
}

/// The name of the user `user_id`, or a stand-in where the tenant knows
/// nobody of that id.
pub fn display_name(users: &Vec<User>, user_id: &str) -> (r: String)
    ensures
        r@ == (match first_with(users@, user_id@) {
            Some(i) => users@[i].name@,
            None => unknown_name(),
        }),
{
    match position(users, user_id) {
        Some(i) => users[i].name.clone(),
        None => String::from_str("？？？"),
    }
}

/// Picks the first group of the name `name` from a listing. Where there is
/// none, the group has to be created.
pub fn get_or_create_group(groups: Vec<Group>, name: &str) -> (r: Option<Group>)
    ensures
        r is Some <==> has_key(groups@, name@),
        r matches Some(g) ==> g == groups@[first_with(groups@, name@)->0],
{
    let mut groups = groups;
    match position(&groups, name) {
        Some(i) => Some(groups.swap_remove(i)),
        None => None,
    }
}

/// The member ids of a list of members.
pub open spec fn member_ids(users: Seq<GroupUser>) -> Seq<Seq<char>> {
    users.map_values(|u: GroupUser| u.member_id@)
}

/// The texts of a list of strings.
pub open spec fn id_texts(ids: Seq<String>) -> Seq<Seq<char>> {
    ids.map_values(|s: String| s@)
}

/// The wanted ids that are not present, each once, in the order in which
/// they are first wanted.
pub open spec fn missing(wanted: Seq<Seq<char>>, present: Seq<Seq<char>>) -> Seq<Seq<char>>
    decreases wanted.len(),
{
    if wanted.len() == 0 {
        Seq::empty()
    } else {
        let before = missing(wanted.drop_last(), present);
        let id = wanted.last();
        if present.contains(id) || before.contains(id) {
            before
        } else {
            before.push(id)
        }
    }
}

fn is_member(users: &Vec<GroupUser>, id: &str) -> (r: bool)
    ensures
        r == member_ids(users@).contains(id@),
{
    let mut i: usize = 0;
    while i < users.len()
        invariant
            i <= users.len(),
            forall|k: int| 0 <= k < i ==> member_ids(users@)[k] != id@,
        decreases users.len() - i,
    {
        if str_eq(users[i].member_id.as_str(), id) {
            proof {
                assert(member_ids(users@)[i as int] == id@);
            }
            return true;
        }
        i += 1;
    }
    false
}

fn is_listed(ids: &Vec<String>, id: &str) -> (r: bool)
    ensures
        r == id_texts(ids@).contains(id@),
{
    let mut i: usize = 0;
    while i < ids.len()
        invariant
            i <= ids.len(),
            forall|k: int| 0 <= k < i ==> id_texts(ids@)[k] != id@,
        decreases ids.len() - i,
    {
        if str_eq(ids[i].as_str(), id) {
            proof {
                assert(id_texts(ids@)[i as int] == id@);
            }
            return true;
        }
        i += 1;
    }
    false
}

/// The users that have to be added so that all of `user_ids` are members
/// of a group that has the members `users`: each wanted user that is no
/// member yet, once.
pub fn ensure_users_in_group(user_ids: Vec<String>, users: &Vec<GroupUser>) -> (r: Vec<String>)
    ensures
        id_texts(r@) == missing(id_texts(user_ids@), member_ids(users@)),
{
    let mut out: Vec<String> = Vec::new();
    let ghost all = user_ids@;
    let ghost wanted = id_texts(user_ids@);
    for id in it: user_ids
        invariant
            it.seq() == all,
            wanted == id_texts(all),
            id_texts(out@) == missing(wanted.take(it.index() as int), member_ids(users@)),
    {
        proof {
            let i = it.index() as int;
            assert(wanted.take(i + 1).drop_last() =~= wanted.take(i));
            assert(wanted.take(i + 1).last() == id@);
        }
        if !is_member(users, id.as_str()) && !is_listed(&out, id.as_str()) {
            let ghost before = out@;
            out.push(id);
            proof {
                assert(id_texts(out@) =~= id_texts(before).push(id@));
            }
        }
    }
    proof {
        assert(wanted.take(wanted.len() as int) =~= wanted);
    }
    out
}

/// What has to be added is wanted, is not present, and is named once; and
/// whatever is wanted and not present is among it.
pub proof fn lemma_missing(wanted: Seq<Seq<char>>, present: Seq<Seq<char>>)
    ensures
        missing(wanted, present).no_duplicates(),
        forall|id: Seq<char>| #[trigger]
            missing(wanted, present).contains(id) <==> (wanted.contains(id) && !present.contains(id)),
    decreases wanted.len(),
{
    let out = missing(wanted, present);
    if wanted.len() > 0 {
        let front = wanted.drop_last();
        let before = missing(front, present);
        let last = wanted.last();
        lemma_missing(front, present);
        assert forall|id: Seq<char>| #[trigger]
            out.contains(id) <==> (wanted.contains(id) && !present.contains(id)) by {
            if front.contains(id) {
                let k = choose|k: int| 0 <= k < front.len() && front[k] == id;
                assert(wanted[k] == id);
            }
            if wanted.contains(id) {
                let k = choose|k: int| 0 <= k < wanted.len() && wanted[k] == id;
                if k < front.len() {
                    assert(front[k] == id);
                }
            }
            assert(wanted[wanted.len() - 1] == last);
            if out.contains(id) {
                let k = choose|k: int| 0 <= k < out.len() && out[k] == id;
                if k < before.len() {
                    assert(before[k] == id);
                }
            }
            if before.contains(id) {
                let k = choose|k: int| 0 <= k < before.len() && before[k] == id;
                assert(out[k] == id);
            }
            if !(present.contains(last) || before.contains(last)) {
                assert(out[before.len() as int] == last);
            }
        }
    }
}

} // verus!
