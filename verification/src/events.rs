//! Server-to-client events and their payloads. Every event except `Custom`
//! is written to the wire inside an `{"op", "d"}` envelope; `Custom` is sent
//! as a bare text payload.

use vstd::prelude::*;

use crate::hub::{Channel, ChannelV};
use crate::protocol::Opcode;

verus! {

/// A user identity as projected to clients: a read-only record attached to a
/// session once it authenticates.
pub struct User {
    pub id: i64,
    pub username: String,
    /// Unix timestamp of the moment the account was created.
    pub joined: u64,
    /// Avatar URL, if the user has one.
    pub avatar: Option<String>,
}

/// Mathematical model of a `User`.
#[verifier::ext_equal]
pub struct UserV {
    pub id: i64,
    pub username: Seq<char>,
    pub joined: u64,
    pub avatar: Option<Seq<char>>,
}

impl View for User {
    type V = UserV;

    open spec fn view(&self) -> UserV {
        UserV {
            id: self.id,
            username: self.username@,
            joined: self.joined,
            avatar: self.avatar.deep_view(),
        }
    }
}

impl DeepView for User {
    type V = UserV;

    open spec fn deep_view(&self) -> UserV {
        self.view()
    }
}

impl Clone for User {
    fn clone(&self) -> (r: Self)
        ensures
            r@ == self@,
    {
        User {
            id: self.id,
            username: self.username.clone(),
            joined: self.joined,
            avatar: match &self.avatar {
                Some(a) => Some(a.clone()),
                None => None,
            },
        }
    }
}

impl User {
    pub fn new(id: i64, username: String, joined: u64, avatar: Option<String>) -> (r: Self)
        ensures
            r@ == (UserV { id, username: username@, joined, avatar: avatar.deep_view() }),
    {
        User { id, username, joined, avatar }
    }
}

/// Trait of the payload types that own a fixed opcode.
pub trait HasOpcode {
    /// The opcode this payload is tagged with on the wire.
    spec fn spec_opcode() -> Opcode;

    /// Returns the payload's opcode.
    fn opcode() -> (r: Opcode)
        ensures
            r == Self::spec_opcode(),
    ;
}

/// Payload announcing a newly created channel.
pub struct ChannelCreate {
    pub id: i64,
    pub name: String,
}

#[verifier::ext_equal]
pub struct ChannelCreateV {
    pub id: i64,
    pub name: Seq<char>,
}

impl View for ChannelCreate {
    type V = ChannelCreateV;

    open spec fn view(&self) -> ChannelCreateV {
        ChannelCreateV { id: self.id, name: self.name@ }
    }
}

impl DeepView for ChannelCreate {
    type V = ChannelCreateV;

    open spec fn deep_view(&self) -> ChannelCreateV {
        self.view()
    }
}

impl Clone for ChannelCreate {
    fn clone(&self) -> (r: Self)
        ensures
            r@ == self@,
    {
        ChannelCreate { id: self.id, name: self.name.clone() }
    }
}

impl ChannelCreate {
    pub fn new(id: i64, name: String) -> (r: Self)
        ensures
            r@ == (ChannelCreateV { id, name: name@ }),
    {
        ChannelCreate { id, name }
    }
}

impl HasOpcode for ChannelCreate {
    open spec fn spec_opcode() -> Opcode {
        Opcode::ChannelCreate
    }

    fn opcode() -> Opcode {
        Opcode::ChannelCreate
    }
}

/// Payload announcing a newly created message.
pub struct MessageCreate {
    pub id: i64,
    pub content: String,
    pub channel_id: i64,
    pub author: User,
}

#[verifier::ext_equal]
pub struct MessageCreateV {
    pub id: i64,
    pub content: Seq<char>,
    pub channel_id: i64,
    pub author: UserV,
}

impl View for MessageCreate {
    type V = MessageCreateV;

    open spec fn view(&self) -> MessageCreateV {
        MessageCreateV {
            id: self.id,
            content: self.content@,
            channel_id: self.channel_id,
            author: self.author@,
        }
    }
}

impl DeepView for MessageCreate {
    type V = MessageCreateV;

    open spec fn deep_view(&self) -> MessageCreateV {
        self.view()
    }
}

impl Clone for MessageCreate {
    fn clone(&self) -> (r: Self)
        ensures
            r@ == self@,
    {
        MessageCreate {
            id: self.id,
            content: self.content.clone(),
            channel_id: self.channel_id,
            author: self.author.clone(),
        }
    }
}

impl MessageCreate {
    pub fn new(id: i64, content: String, channel_id: i64, author: User) -> (r: Self)
        ensures
            r@ == (MessageCreateV { id, content: content@, channel_id, author: author@ }),
    {
        MessageCreate { id, content, channel_id, author }
    }
}

impl HasOpcode for MessageCreate {
    open spec fn spec_opcode() -> Opcode {
        Opcode::MessageCreate
    }

    fn opcode() -> Opcode {
        Opcode::MessageCreate
    }
}

/// The entry-point payload sent to a session right after it authenticates:
/// the full channel list, the authenticated user, and the user roster.
pub struct Ready {
    pub channels: Vec<Channel>,
    pub user: User,
    pub users: Vec<User>,
}

#[verifier::ext_equal]
pub struct ReadyV {
    pub channels: Seq<ChannelV>,
    pub user: UserV,
    pub users: Seq<UserV>,
}

impl View for Ready {
    type V = ReadyV;

    open spec fn view(&self) -> ReadyV {
        ReadyV {
            channels: self.channels.deep_view(),
            user: self.user@,
            users: self.users.deep_view(),
        }
    }
}

impl DeepView for Ready {
    type V = ReadyV;

    open spec fn deep_view(&self) -> ReadyV {
        self.view()
    }
}

/// A copy of a channel list whose model is the same.
pub(crate) fn clone_channels(v: &Vec<Channel>) -> (r: Vec<Channel>)
    ensures
        r.deep_view() == v.deep_view(),
{
    let mut out: Vec<Channel> = Vec::new();
    let mut i: usize = 0;
    while i < v.len()
        invariant
            i <= v.len(),
            out.deep_view() == v.deep_view().take(i as int),
        decreases v.len() - i,
    {
        let ghost dpre = out.deep_view();
        let e = v[i].clone();
        proof {
            assert(e.deep_view() == v.deep_view()[i as int]);
        }
        out.push(e);
        proof {
            assert(out.deep_view() =~= dpre.push(v.deep_view()[i as int]));
            assert(out.deep_view() =~= v.deep_view().take(i + 1));
        }
        i = i + 1;
    }
    proof {
        assert(v.deep_view().take(v.deep_view().len() as int) =~= v.deep_view());
    }
    out
}

/// A copy of a user list whose model is the same.
pub(crate) fn clone_users(v: &Vec<User>) -> (r: Vec<User>)
    ensures
        r.deep_view() == v.deep_view(),
{
    let mut out: Vec<User> = Vec::new();
    let mut i: usize = 0;
    while i < v.len()
        invariant
            i <= v.len(),
            out.deep_view() == v.deep_view().take(i as int),
        decreases v.len() - i,
    {
        let ghost dpre = out.deep_view();
        let e = v[i].clone();
        proof {
            assert(e.deep_view() == v.deep_view()[i as int]);
        }
        out.push(e);
        proof {
            assert(out.deep_view() =~= dpre.push(v.deep_view()[i as int]));
            assert(out.deep_view() =~= v.deep_view().take(i + 1));
        }
        i = i + 1;
    }
    proof {
        assert(v.deep_view().take(v.deep_view().len() as int) =~= v.deep_view());
    }
    out
}

impl Clone for Ready {
    fn clone(&self) -> (r: Self)
        ensures
            r@ == self@,
    {
        let r = Ready {
            channels: clone_channels(&self.channels),
            user: self.user.clone(),
            users: clone_users(&self.users),
        };
        proof {
            assert(r@ =~= self@);
        }
        r
    }
}

impl Clone for Event {
    fn clone(&self) -> (r: Self)
        ensures
            r@ == self@,
    {
        match self {
            Event::ChannelCreate(p) => Event::ChannelCreate(p.clone()),
            Event::MessageCreate(p) => Event::MessageCreate(p.clone()),
            Event::Ready(p) => Event::Ready(p.clone()),
            Event::BadToken => Event::BadToken,
            Event::Hello => Event::Hello,
            Event::SetToken(t) => Event::SetToken(t.clone()),
            Event::Custom(m) => Event::Custom(m.clone()),
        }
    }
}

impl Ready {
    pub fn new(channels: Vec<Channel>, user: User, users: Vec<User>) -> (r: Self)
        ensures
            r@ == (ReadyV {
                channels: channels.deep_view(),
                user: user@,
                users: users.deep_view(),
            }),
    {
        Ready { channels, user, users }
    }
}

impl HasOpcode for Ready {
    open spec fn spec_opcode() -> Opcode {
        Opcode::Ready
    }

    fn opcode() -> Opcode {
        Opcode::Ready
    }
}

/// An event pushed from the hub to a session.
pub enum Event {
    ChannelCreate(ChannelCreate),
    MessageCreate(MessageCreate),
    Ready(Ready),
    BadToken,
    Hello,
    SetToken(String),
    Custom(String),
}

#[verifier::ext_equal]
pub enum EventV {
    ChannelCreate(ChannelCreateV),
    MessageCreate(MessageCreateV),
    Ready(ReadyV),
    BadToken,
    Hello,
    SetToken(Seq<char>),
    Custom(Seq<char>),
}

impl View for Event {
    type V = EventV;

    open spec fn view(&self) -> EventV {
        match self {
            Event::ChannelCreate(p) => EventV::ChannelCreate(p@),
            Event::MessageCreate(p) => EventV::MessageCreate(p@),
            Event::Ready(p) => EventV::Ready(p@),
            Event::BadToken => EventV::BadToken,
            Event::Hello => EventV::Hello,
            Event::SetToken(t) => EventV::SetToken(t@),
            Event::Custom(m) => EventV::Custom(m@),
        }
    }
}

impl DeepView for Event {
    type V = EventV;

    open spec fn deep_view(&self) -> EventV {
        self.view()
    }
}

/// The opcode an event is tagged with: payload-bearing events carry their
/// payload's opcode, everything else goes out as `Custom`.
pub open spec fn event_opcode(e: EventV) -> Opcode {
    match e {
        EventV::ChannelCreate(_) => Opcode::ChannelCreate,
        EventV::MessageCreate(_) => Opcode::MessageCreate,
        EventV::Ready(_) => Opcode::Ready,
        EventV::BadToken => Opcode::Custom,
        EventV::Hello => Opcode::Custom,
        EventV::SetToken(_) => Opcode::Custom,
        EventV::Custom(_) => Opcode::Custom,
    }
}

impl Event {
    pub fn opcode(&self) -> (r: Opcode)
        ensures
            r == event_opcode(self@),
    {
        match self {
            Event::ChannelCreate(_) => <ChannelCreate as HasOpcode>::opcode(),
            Event::MessageCreate(_) => <MessageCreate as HasOpcode>::opcode(),
            Event::Ready(_) => <Ready as HasOpcode>::opcode(),
            Event::Custom(_) => Opcode::Custom,
            Event::BadToken => Opcode::Custom,
            Event::Hello => Opcode::Custom,
            Event::SetToken(_) => Opcode::Custom,
        }
    }
}

} // verus!
