//! The REST layer's request and response shapes and the pure rules behind
//! its handlers: bearer-header parsing, the message-listing window, the
//! author join, and account modification.

use vstd::prelude::*;
use vstd::string::StrSliceExecFns;

use crate::events::{User, UserV};
use crate::models;

verus! {

/// The body of a registration request.
pub struct UserInsert {
    pub email: String,
    pub username: String,
    pub password: String,
}

/// What registration and login hand back: the account id and its bearer
/// token.
pub struct UserResponse {
    pub user_id: i64,
    pub token: String,
}

impl UserResponse {
    /// The response for a stored account.
    pub fn of_user(user: models::User) -> (r: Self)
        ensures
            r.user_id == user.id,
            r.token@ == user.token@,
    {
        UserResponse { user_id: user.id, token: user.token }
    }
}

/// How a user account may be looked up.
pub enum FetchUserId {
    Id(i64),
    Token(String),
}

/// The body of an account-modification request: each present field
/// overwrites the stored one.
pub struct ModifyUser {
    pub username: Option<String>,
    pub avatar: Option<String>,
}

/// Applies an account modification: a present username replaces the stored
/// one, a present avatar replaces the stored one, everything else is kept.
pub fn apply_user_changes(user: &mut models::User, data: &ModifyUser)
    ensures
        final(user).username@ == (match data.username {
            Some(ref u) => u@,
            None => old(user).username@,
        }),
        final(user).avatar.deep_view() == (match data.avatar {
            Some(ref a) => Some(a@),
            None => old(user).avatar.deep_view(),
        }),
        final(user).id == old(user).id,
        final(user).email@ == old(user).email@,
        final(user).password@ == old(user).password@,
        final(user).token@ == old(user).token@,
        final(user).created_at == old(user).created_at,
{
    if let Some(username) = &data.username {
        user.username = username.clone();
    }
    if let Some(avatar) = &data.avatar {
        user.avatar = Some(avatar.clone());
    }
}

/// Default lower bound of a message-listing window: none.
pub fn default_before() -> (r: Option<i64>)
    ensures
        r is None,
{
    None
}

/// Default upper bound of a message-listing window: none.
pub fn default_after() -> (r: Option<i64>)
    ensures
        r is None,
{
    None
}

/// Default number of messages a listing returns.
pub fn default_limit() -> (r: i64)
    ensures
        r == 50,
{
    50
}

/// Whether a requested listing size is acceptable: between one and one
/// hundred messages.
pub fn limit_in_range(limit: i64) -> (r: bool)
    ensures
        r == (1 <= limit <= 100),
{
    1 <= limit && limit <= 100
}

/// The bearer token carried by an `Authorization` header value: the text
/// after the `"Bearer "` prefix, nothing when the prefix is absent.
pub open spec fn bearer_of(s: Seq<char>) -> Option<Seq<char>> {
    if s.len() >= 7 && s.take(7) == "Bearer "@ {
        Some(s.skip(7))
    } else {
        None
    }
}

/// Extracts the bearer token from an `Authorization` header value.
pub fn parse_bearer(header: &str) -> (r: Option<String>)
    ensures
        r.deep_view() == bearer_of(header@),
{
    let len = header.unicode_len();
    proof {
        reveal_strlit("Bearer ");
    }
    if len < 7 {
        return None;
    }
    let mut i: usize = 0;
    while i < 7
        invariant
            i <= 7,
            len == header@.len(),
            len >= 7,
            "Bearer "@.len() == 7,
            forall|j: int| 0 <= j < i ==> header@[j] == "Bearer "@[j],
        decreases 7 - i,
    {
        proof {
            reveal_strlit("Bearer ");
        }
        if header.get_char(i) != "Bearer ".get_char(i) {
            proof {
                assert(header@.take(7)[i as int] != "Bearer "@[i as int]);
            }
            return None;
        }
        i = i + 1;
    }
    proof {
        assert(header@.take(7) =~= "Bearer "@);
    }
    let rest = header.substring_char(7, len);
    proof {
        assert(rest@ =~= header@.skip(7));
    }
    Some(rest.to_owned())
}

/// Whether some message in the list was written by the given author.
pub open spec fn has_author(ms: Seq<models::Message>, x: i64) -> bool {
    exists|i: int| 0 <= i < ms.len() && ms[i].author_id == x
}

/// The distinct author ids mentioned in a message list, first occurrence
/// first: what the author-roster fetch of a listing asks the store for.
pub fn distinct_author_ids(messages: &Vec<models::Message>) -> (r: Vec<i64>)
    ensures
        r@.no_duplicates(),
        forall|x: i64| r@.contains(x) <==> has_author(messages@, x),
{
    let mut out: Vec<i64> = Vec::new();
    let mut i: usize = 0;
    while i < messages.len()
        invariant
            i <= messages.len(),
            out@.no_duplicates(),
            forall|x: i64| out@.contains(x) <==> has_author(messages@.take(i as int), x),
        decreases messages.len() - i,
    {
        let id = messages[i].author_id;
        let mut seen = false;
        let mut k: usize = 0;
        while k < out.len()
            invariant
                k <= out.len(),
                seen == exists|j: int| 0 <= j < k && out@[j] == id,
            decreases out.len() - k,
        {
            if out[k] == id {
                seen = true;
            }
            k = k + 1;
        }
        let ghost out_pre = out@;
        if !seen {
            out.push(id);
        }
        proof {
            assert(seen == out_pre.contains(id));
            assert forall|x: i64|
                out@.contains(x) <==> has_author(messages@.take(i + 1), x) by {
                assert(messages@.take(i + 1)[i as int] == messages@[i as int]);
                assert(forall|j: int|
                    0 <= j < i ==> messages@.take(i + 1)[j] == messages@.take(i as int)[j]);
                if x == id {
                    if !seen {
                        assert(out@.last() == id);
                        assert(out@.contains(id));
                    }
                    assert(has_author(messages@.take(i + 1), x));
                } else {
                    assert(out@.contains(x) <==> out_pre.contains(x)) by {
                        if !seen {
                            if out@.contains(x) {
                                let j = choose|j: int| 0 <= j < out@.len() && out@[j] == x;
                                assert(j < out_pre.len());
                                assert(out_pre[j] == x);
                            }
                            if out_pre.contains(x) {
                                let j = choose|j: int|
                                    0 <= j < out_pre.len() && out_pre[j] == x;
                                assert(out@[j] == x);
                            }
                        }
                    }
                    assert(has_author(messages@.take(i + 1), x) <==> has_author(
                        messages@.take(i as int),
                        x,
                    )) by {
                        if has_author(messages@.take(i + 1), x) {
                            let j = choose|j: int|
                                0 <= j < i + 1 && (#[trigger] messages@.take(i + 1)[j]).author_id
                                    == x;
                            assert(j < i);
                            assert(messages@.take(i as int)[j].author_id == x);
                        }
                        if has_author(messages@.take(i as int), x) {
                            let j = choose|j: int|
                                0 <= j < i && (#[trigger] messages@.take(i as int)[j]).author_id
                                    == x;
                            assert(messages@.take(i + 1)[j].author_id == x);
                        }
                    }
                }
            }
            if !seen {
                assert(out@.no_duplicates()) by {
                    assert forall|p: int, q: int|
                        0 <= p < q < out@.len() implies out@[p] != out@[q] by {
                        if q == out@.len() - 1 {
                            assert(out_pre[p] == out@[p]);
                            assert(out_pre.contains(out@[p]) == false || out@[p] != id);
                        }
                    }
                }
            }
        }
        i = i + 1;
    }
    proof {
        assert(messages@.take(messages@.len() as int) =~= messages@);
    }
    out
}

/// A message joined with its author, as a listing returns it.
pub struct GetMessage {
    pub id: i64,
    pub channel_id: i64,
    pub content: String,
    pub created_at: u64,
    pub author: User,
}

#[verifier::ext_equal]
pub struct GetMessageV {
    pub id: i64,
    pub channel_id: i64,
    pub content: Seq<char>,
    pub created_at: u64,
    pub author: UserV,
}

impl View for GetMessage {
    type V = GetMessageV;

    open spec fn view(&self) -> GetMessageV {
        GetMessageV {
            id: self.id,
            channel_id: self.channel_id,
            content: self.content@,
            created_at: self.created_at,
            author: self.author@,
        }
    }
}

impl DeepView for GetMessage {
    type V = GetMessageV;

    open spec fn deep_view(&self) -> GetMessageV {
        self.view()
    }
}

/// The blank user a message falls back to when its author is missing from
/// the fetched roster.
pub open spec fn default_user() -> UserV {
    UserV { id: 0, username: Seq::empty(), joined: 0, avatar: None }
}

/// The author a message is joined with: the first roster entry with the
/// right id, or the blank user when there is none.
pub open spec fn find_user(users: Seq<UserV>, id: i64) -> UserV
    decreases users.len(),
{
    if users.len() == 0 {
        default_user()
    } else if users[0].id == id {
        users[0]
    } else {
        find_user(users.drop_first(), id)
    }
}

fn find_user_exec(users: &Vec<User>, id: i64) -> (r: User)
    ensures
        r@ == find_user(users.deep_view(), id),
{
    let ghost us = users.deep_view();
    proof {
        assert(us.skip(0) =~= us);
    }
    let mut i: usize = 0;
    while i < users.len()
        invariant
            i <= users.len(),
            us == users.deep_view(),
            us.len() == users.len(),
            find_user(us, id) == find_user(us.skip(i as int), id),
        decreases users.len() - i,
    {
        proof {
            assert(us.skip(i as int)[0] == us[i as int]);
            assert(us.skip(i as int).drop_first() =~= us.skip(i + 1));
        }
        if users[i].id == id {
            return users[i].clone();
        }
        i = i + 1;
    }
    proof {
        assert(us.skip(us.len() as int) =~= Seq::<UserV>::empty());
    }
    User {
        id: 0,
        username: String::new(),
        joined: 0,
        avatar: None,
    }
}

/// The listing a channel's message window joins to: each stored message with
/// its author looked up in the fetched roster, in message order.
pub open spec fn joined_messages(ms: Seq<models::Message>, us: Seq<UserV>) -> Seq<GetMessageV> {
    ms.map_values(
        |m: models::Message|
            GetMessageV {
                id: m.id,
                channel_id: m.channel_id,
                content: m.content@,
                created_at: m.created_at,
                author: find_user(us, m.author_id),
            },
    )
}

/// Joins a message window with its author roster.
pub fn join_messages(messages: &Vec<models::Message>, users: &Vec<User>) -> (r: Vec<GetMessage>)
    ensures
        r.deep_view() == joined_messages(messages@, users.deep_view()),
{
    let ghost us = users.deep_view();
    let mut out: Vec<GetMessage> = Vec::new();
    let mut i: usize = 0;
    while i < messages.len()
        invariant
            i <= messages.len(),
            us == users.deep_view(),
            out.deep_view() == joined_messages(messages@.take(i as int), us),
        decreases messages.len() - i,
    {
        let m = &messages[i];
        let author = find_user_exec(users, m.author_id);
        let ghost dpre = out.deep_view();
        out.push(
            GetMessage {
                id: m.id,
                channel_id: m.channel_id,
                content: m.content.clone(),
                created_at: m.created_at,
                author,
            },
        );
        proof {
            let t = messages@.take(i + 1);
            assert(out.deep_view() =~= dpre.push(
                GetMessageV {
                    id: messages@[i as int].id,
                    channel_id: messages@[i as int].channel_id,
                    content: messages@[i as int].content@,
                    created_at: messages@[i as int].created_at,
                    author: find_user(us, messages@[i as int].author_id),
                },
            ));
            assert(out.deep_view() =~= joined_messages(t, us));
        }
        i = i + 1;
    }
    proof {
        assert(messages@.take(messages@.len() as int) =~= messages@);
    }
    out
}

} // verus!
