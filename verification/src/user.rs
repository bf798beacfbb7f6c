//! The user record and its JSON form.

use crate::json::{
    escaped_text, json_object, json_string, member, parse_object, quote, Member, MemberModel,
};
use crate::number::{decimal, push_decimal};
use crate::response::Failure;
use vstd::prelude::*;

verus! {

/// A user. `id` is absent in a request to create one: the storage issues it.
#[derive(Clone, Debug, PartialEq, Eq)]
pub struct User {
    pub id: Option<i32>,
    pub name: String,
    pub email: String,
}

/// A `User` as a mathematical value.
pub ghost struct UserModel {
    pub id: Option<int>,
    pub name: Seq<char>,
    pub email: Seq<char>,
}

impl View for User {
    type V = UserModel;

    open spec fn view(&self) -> UserModel {
        UserModel {
            id: match self.id {
                Some(n) => Some(n as int),
                None => None,
            },
            name: self.name@,
            email: self.email@,
        }
    }
}

/// The users of `users` as mathematical values.
pub open spec fn models(users: Seq<User>) -> Seq<UserModel> {
    users.map_values(|u: User| u@)
}

/// An optional member as a mathematical value.
pub open spec fn member_model(m: Option<Member>) -> Option<MemberModel> {
    match m {
        Some(found) => Some(found@),
        None => None,
    }
}

/// The member of `object` under `key`, if it has one.
pub open spec fn lookup(object: Map<Seq<char>, MemberModel>, key: Seq<char>) -> Option<
    MemberModel,
> {
    if object.contains_key(key) {
        Some(object[key])
    } else {
        None
    }
}

/// The identifier that the member `id` gives: none where the member is
/// absent or `null`, the number where it is an integer of 32 bits with a
/// sign. `None` for any other member.
pub open spec fn id_of(id: Option<MemberModel>) -> Option<Option<int>> {
    match id {
        None => Some(None),
        Some(MemberModel::Null) => Some(None),
        Some(MemberModel::Integer(n)) => if i32::MIN <= n <= i32::MAX {
            Some(Some(n))
        } else {
            None
        },
        Some(_) => None,
    }
}

/// The user that three members of an object describe: `name` and `email`
/// must be there and be strings, `id` as `id_of` says. `None` otherwise.
pub open spec fn user_of(
    id: Option<MemberModel>,
    name: Option<MemberModel>,
    email: Option<MemberModel>,
) -> Option<UserModel> {
    match (id_of(id), name, email) {
        (Some(id), Some(MemberModel::Text(name)), Some(MemberModel::Text(email))) => Some(
            UserModel { id, name, email },
        ),
        _ => None,
    }
}

/// The user that the JSON text `text` describes: `text` must be a JSON
/// object as `json_object` reads it, and its members `id`, `name` and
/// `email` must describe a user. What other members hold does not count,
/// but they are read: one that cannot be read spoils the text, and of two
/// members with one key the last counts.
pub open spec fn decoded_user(text: Seq<char>) -> Option<UserModel> {
    match json_object(text) {
        Some(object) => user_of(
            lookup(object, "id"@),
            lookup(object, "name"@),
            lookup(object, "email"@),
        ),
        None => None,
    }
}

/// Builds the user that three members of an object describe.
pub fn user_from_members(id: Option<Member>, name: Option<Member>, email: Option<Member>) -> (user:
    Result<User, Failure>)
    ensures
        match user {
            Ok(u) => user_of(member_model(id), member_model(name), member_model(email)) == Some(
                u@,
            ),
            Err(failure) => failure == Failure::MalformedBody && user_of(
                member_model(id),
                member_model(name),
                member_model(email),
            ).is_none(),
        },
{
    let id: Option<i32> = match id {
        None => None,
        Some(Member::Null) => None,
        Some(Member::Integer(n)) => {
            if n < -2147483648 || n > 2147483647 {
                return Err(Failure::MalformedBody);
            }
            Some(n as i32)
        },
        Some(_) => {
            return Err(Failure::MalformedBody);
        },
    };
    match (name, email) {
        (Some(Member::Text(name)), Some(Member::Text(email))) => Ok(User { id, name, email }),
        _ => Err(Failure::MalformedBody),
    }
}

/// Reads a user from JSON text.
pub fn decode_user(text: &str) -> (user: Result<User, Failure>)
    ensures
        match user {
            Ok(u) => decoded_user(text@) == Some(u@),
            Err(failure) => failure == Failure::MalformedBody && decoded_user(text@).is_none(),
        },
{
    match parse_object(text) {
        Ok(object) => user_from_members(
            member(&object, "id"),
            member(&object, "name"),
            member(&object, "email"),
        ),
        Err(_) => Err(Failure::MalformedBody),
    }
}

/// The JSON form of an identifier: its numeral, or `null` where there is
/// none.
pub open spec fn id_json(id: Option<int>) -> Seq<char> {
    match id {
        Some(n) => decimal(n),
        None => "null"@,
    }
}

/// The JSON form of a user: an object with the members `id`, `name` and
/// `email`, in this order and without white space.
pub open spec fn user_json(user: UserModel) -> Seq<char> {
    "{\"id\":"@ + id_json(user.id) + ",\"name\":"@ + json_string(user.name) + ",\"email\":"@
        + json_string(user.email) + "}"@
}

/// The JSON forms of `users`, with a comma between each two.
pub open spec fn users_json_items(users: Seq<UserModel>) -> Seq<char>
    decreases users.len(),
{
    if users.len() == 0 {
        Seq::empty()
    } else if users.len() == 1 {
        user_json(users[0])
    } else {
        users_json_items(users.drop_last()) + ","@ + user_json(users.last())
    }
}

/// The JSON form of a list of users: an array of their JSON forms.
pub open spec fn users_json(users: Seq<UserModel>) -> Seq<char> {
    "["@ + users_json_items(users) + "]"@
}

impl User {
    /// Appends the JSON form of this user to `out`.
    pub fn push_json(&self, out: &mut String)
        ensures
            final(out)@ == old(out)@ + user_json(self@),
    {
        out.append("{\"id\":");
        match self.id {
            Some(n) => push_decimal(out, n),
            None => out.append("null"),
        }
        out.append(",\"name\":");
        let name = quote(self.name.as_str());
        out.append(name.as_str());
        out.append(",\"email\":");
        let email = quote(self.email.as_str());
        out.append(email.as_str());
        out.append("}");
        assert(out@ =~= old(out)@ + user_json(self@));
    }

    /// The JSON form of this user.
    pub fn to_json(&self) -> (json: String)
        ensures
            json@ == user_json(self@),
    {
        let mut out = String::new();
        self.push_json(&mut out);
        assert(out@ =~= user_json(self@));
        out
    }
}

/// The JSON form of a list of users.
pub fn users_to_json(users: &Vec<User>) -> (json: String)
    ensures
        json@ == users_json(models(users@)),
{
    let ghost all = models(users@);
    let mut out = String::from_str("[");
    let mut i: usize = 0;
    assert(all.take(0) =~= Seq::<UserModel>::empty());
    while i < users.len()
        invariant
            i <= users.len(),
            all == models(users@),
            out@ == "["@ + users_json_items(all.take(i as int)),
        decreases users.len() - i,
    {
        let ghost before = all.take(i as int);
        let ghost now = all.take(i + 1);
        proof {
            assert(now.drop_last() =~= before);
            assert(now.last() == users@[i as int]@);
        }
        if i > 0 {
            out.append(",");
        }
        users[i].push_json(&mut out);
        assert(out@ =~= "["@ + users_json_items(now));
        i += 1;
    }
    assert(all.take(i as int) =~= all);
    out.append("]");
    out
}

/// Whether `c` stands for itself inside a JSON string.
pub open spec fn is_plain(c: char) -> bool {
    c != '"' && c != '\\' && c as int >= 32
}

/// Characters that stand for themselves are escaped to themselves.
pub proof fn lemma_plain_text_is_kept(text: Seq<char>)
    requires
        forall|i: int| 0 <= i < text.len() ==> is_plain(#[trigger] text[i]),
    ensures
        escaped_text(text) == text,
    decreases text.len(),
{
    if text.len() > 0 {
        lemma_plain_text_is_kept(text.drop_last());
        assert(is_plain(text.last()));
        assert(text.drop_last() + seq![text.last()] =~= text);
    }
}

/// A text of characters that stand for themselves is written as a JSON
/// string by putting it between two quotes.
pub proof fn law_plain_text_is_quoted(text: Seq<char>)
    requires
        forall|i: int| 0 <= i < text.len() ==> is_plain(#[trigger] text[i]),
    ensures
        json_string(text) == seq!['"'] + text + seq!['"'],
{
    lemma_plain_text_is_kept(text);
}

} // verus!
