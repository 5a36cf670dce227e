//! The hub: the single serialized owner of live session and channel state.
//! Commands mutate that state and yield deliveries — events addressed to
//! session ids — which the caller pushes into the matching output sinks.

use vstd::prelude::*;

use crate::events::{ChannelCreate, ChannelCreateV, Event, EventV, MessageCreate, MessageCreateV,
    Ready, ReadyV, User, UserV};

verus! {

/// A broadcast group: a named channel together with the ids of the sessions
/// that are members of it.
pub struct Channel {
    pub id: i64,
    pub guild_id: Option<i64>,
    pub name: String,
    /// Ids of the sessions in the channel.
    pub sessions: Vec<u64>,
}

/// Mathematical model of a `Channel`.
#[verifier::ext_equal]
pub struct ChannelV {
    pub id: i64,
    pub guild_id: Option<i64>,
    pub name: Seq<char>,
    pub sessions: Seq<u64>,
}

impl View for Channel {
    type V = ChannelV;

    open spec fn view(&self) -> ChannelV {
        ChannelV {
            id: self.id,
            guild_id: self.guild_id,
            name: self.name@,
            sessions: self.sessions@,
        }
    }
}

impl DeepView for Channel {
    type V = ChannelV;

    open spec fn deep_view(&self) -> ChannelV {
        self.view()
    }
}

impl Clone for Channel {
    fn clone(&self) -> (r: Self)
        ensures
            r@ == self@,
    {
        let mut sessions: Vec<u64> = Vec::new();
        let mut i: usize = 0;
        while i < self.sessions.len()
            invariant
                i <= self.sessions.len(),
                sessions@ == self.sessions@.take(i as int),
            decreases self.sessions.len() - i,
        {
            sessions.push(self.sessions[i]);
            proof {
                assert(self.sessions@.take(i + 1) =~= self.sessions@.take(i as int).push(
                    self.sessions@[i as int],
                ));
            }
            i = i + 1;
        }
        proof {
            assert(self.sessions@.take(self.sessions@.len() as int) =~= self.sessions@);
        }
        Channel {
            id: self.id,
            guild_id: self.guild_id,
            name: self.name.clone(),
            sessions,
        }
    }
}

/// One event addressed to one session id.
pub struct Delivery {
    pub to: u64,
    pub event: Event,
}

#[verifier::ext_equal]
pub struct DeliveryV {
    pub to: u64,
    pub event: EventV,
}

impl View for Delivery {
    type V = DeliveryV;

    open spec fn view(&self) -> DeliveryV {
        DeliveryV { to: self.to, event: self.event@ }
    }
}

impl DeepView for Delivery {
    type V = DeliveryV;

    open spec fn deep_view(&self) -> DeliveryV {
        self.view()
    }
}

/// A live connection as the hub sees it: its id and, once it has
/// authenticated, the attached user identity.
pub struct SessionHandle {
    pub id: u64,
    pub user: Option<User>,
}

#[verifier::ext_equal]
pub struct SessionHandleV {
    pub id: u64,
    pub user: Option<UserV>,
}

impl View for SessionHandle {
    type V = SessionHandleV;

    open spec fn view(&self) -> SessionHandleV {
        SessionHandleV { id: self.id, user: self.user.deep_view() }
    }
}

impl DeepView for SessionHandle {
    type V = SessionHandleV;

    open spec fn deep_view(&self) -> SessionHandleV {
        self.view()
    }
}

/// The hub state: the session table, the channel table, and the count of
/// connected sessions that the REST layer reads.
pub struct Hub {
    pub sessions: Vec<SessionHandle>,
    pub channels: Vec<Channel>,
    pub visitor_count: usize,
}

/// Mathematical model of the hub state.
#[verifier::ext_equal]
pub struct HubV {
    pub sessions: Seq<SessionHandleV>,
    pub channels: Seq<ChannelV>,
    pub visitor_count: nat,
}

impl View for Hub {
    type V = HubV;

    open spec fn view(&self) -> HubV {
        HubV {
            sessions: self.sessions.deep_view(),
            channels: self.channels.deep_view(),
            visitor_count: self.visitor_count as nat,
        }
    }
}

/// The ids of the live sessions, in registration order.
pub open spec fn session_ids(h: HubV) -> Seq<u64> {
    ids_of(h.sessions)
}

/// Whether a session id is live.
pub open spec fn has_session(h: HubV, id: u64) -> bool {
    session_ids(h).contains(id)
}

/// The ids of the channels, in table order.
pub open spec fn channel_ids(h: HubV) -> Seq<i64> {
    h.channels.map_values(|c: ChannelV| c.id)
}

/// Whether a channel id exists.
pub open spec fn has_channel(h: HubV, id: i64) -> bool {
    channel_ids(h).contains(id)
}

/// The position of a channel id in the table.
pub open spec fn channel_index(h: HubV, id: i64) -> int {
    choose|i: int| 0 <= i < h.channels.len() && h.channels[i].id == id
}

/// Membership invariant: every id in every channel's member set is present in
/// the session table.
pub open spec fn members_are_live(h: HubV) -> bool {
    forall|i: int, j: int|
        0 <= i < h.channels.len() && 0 <= j < h.channels[i].sessions.len() ==> has_session(
            h,
            #[trigger] h.channels[i].sessions[j],
        )
}

/// Well-formedness of the hub state: ids are unique, member sets hold no
/// duplicates and only live sessions, and the visitor count is the number of
/// live sessions.
pub open spec fn wf(h: HubV) -> bool {
    &&& session_ids(h).no_duplicates()
    &&& channel_ids(h).no_duplicates()
    &&& forall|i: int|
        0 <= i < h.channels.len() ==> (#[trigger] h.channels[i]).sessions.no_duplicates()
    &&& members_are_live(h)
    &&& h.visitor_count == h.sessions.len()
}

/// The ids of a sequence of session handles, in order.
pub open spec fn ids_of(s: Seq<SessionHandleV>) -> Seq<u64> {
    s.map_values(|h: SessionHandleV| h.id)
}

/// A channel's member set with one id taken out, order otherwise kept.
pub open spec fn without_member(s: Seq<u64>, id: u64) -> Seq<u64>
    decreases s.len(),
{
    if s.len() == 0 {
        Seq::empty()
    } else if s.last() == id {
        without_member(s.drop_last(), id)
    } else {
        without_member(s.drop_last(), id).push(s.last())
    }
}

/// The session table with one id taken out, order otherwise kept.
pub open spec fn sessions_without(s: Seq<SessionHandleV>, id: u64) -> Seq<SessionHandleV>
    decreases s.len(),
{
    if s.len() == 0 {
        Seq::empty()
    } else if s.last().id == id {
        sessions_without(s.drop_last(), id)
    } else {
        sessions_without(s.drop_last(), id).push(s.last())
    }
}

/// Taking an id out that was never in leaves the member set as it was.
proof fn lemma_without_member_absent(s: Seq<u64>, id: u64)
    requires
        !s.contains(id),
    ensures
        without_member(s, id) == s,
    decreases s.len(),
{
    if s.len() == 0 {
        assert(without_member(s, id) =~= s);
    } else {
        assert(s.last() != id);
        assert(!s.drop_last().contains(id)) by {
            if s.drop_last().contains(id) {
                let i = choose|i: int| 0 <= i < s.len() - 1 && s.drop_last()[i] == id;
                assert(s[i] == id);
            }
        }
        lemma_without_member_absent(s.drop_last(), id);
        assert(s.drop_last().push(s.last()) =~= s);
    }
}

/// What a member set holds after an id is taken out.
proof fn lemma_without_member_contains(s: Seq<u64>, id: u64, x: u64)
    ensures
        without_member(s, id).contains(x) <==> s.contains(x) && x != id,
    decreases s.len(),
{
    if s.len() == 0 {
    } else {
        let d = s.drop_last();
        lemma_without_member_contains(d, id, x);
        assert(s.contains(x) <==> d.contains(x) || s.last() == x) by {
            if s.contains(x) {
                let i = choose|i: int| 0 <= i < s.len() && s[i] == x;
                if i < s.len() - 1 {
                    assert(d[i] == x);
                }
            }
            if d.contains(x) {
                let i = choose|i: int| 0 <= i < d.len() && d[i] == x;
                assert(s[i] == x);
            }
        }
        if s.last() != id {
            let w = without_member(d, id);
            assert(without_member(s, id) == w.push(s.last()));
            assert(w.push(s.last()).contains(x) <==> w.contains(x) || s.last() == x) by {
                if w.push(s.last()).contains(x) {
                    let i = choose|i: int| 0 <= i < w.len() + 1 && w.push(s.last())[i] == x;
                    if i < w.len() {
                        assert(w[i] == x);
                    }
                }
                if w.contains(x) {
                    let i = choose|i: int| 0 <= i < w.len() && w[i] == x;
                    assert(w.push(s.last())[i] == x);
                }
                if s.last() == x {
                    assert(w.push(s.last()).last() == x);
                }
            }
        }
    }
}

/// Taking an id out cannot introduce a duplicate member.
proof fn lemma_without_member_no_duplicates(s: Seq<u64>, id: u64)
    requires
        s.no_duplicates(),
    ensures
        without_member(s, id).no_duplicates(),
    decreases s.len(),
{
    if s.len() == 0 {
    } else {
        let d = s.drop_last();
        assert(d.no_duplicates());
        lemma_without_member_no_duplicates(d, id);
        if s.last() != id {
            let w = without_member(d, id);
            assert(!d.contains(s.last())) by {
                if d.contains(s.last()) {
                    let i = choose|i: int| 0 <= i < d.len() && d[i] == s.last();
                    assert(s[i] == s[s.len() - 1]);
                }
            }
            lemma_without_member_contains(d, id, s.last());
            assert forall|p: int, q: int|
                0 <= p < q < w.push(s.last()).len() implies w.push(s.last())[p] != w.push(
                s.last(),
            )[q] by {
                if q == w.len() {
                    assert(w.contains(w[p]));
                    lemma_without_member_contains(d, id, w[p]);
                }
            }
        }
    }
}

/// The session table stays as it was when the id to drop is not in it.
proof fn lemma_sessions_without_absent(s: Seq<SessionHandleV>, id: u64)
    requires
        forall|i: int| 0 <= i < s.len() ==> (#[trigger] s[i]).id != id,
    ensures
        sessions_without(s, id) == s,
    decreases s.len(),
{
    if s.len() == 0 {
        assert(sessions_without(s, id) =~= s);
    } else {
        lemma_sessions_without_absent(s.drop_last(), id);
        assert(s.drop_last().push(s.last()) =~= s);
    }
}

/// When ids are unique, dropping a session is removing its one index.
proof fn lemma_sessions_without_is_remove(s: Seq<SessionHandleV>, id: u64, idx: int)
    requires
        0 <= idx < s.len(),
        s[idx].id == id,
        forall|i: int| 0 <= i < s.len() && i != idx ==> (#[trigger] s[i]).id != id,
    ensures
        sessions_without(s, id) == s.remove(idx),
    decreases s.len(),
{
    if idx == s.len() - 1 {
        lemma_sessions_without_absent(s.drop_last(), id);
        assert(s.remove(idx) =~= s.drop_last());
    } else {
        lemma_sessions_without_is_remove(s.drop_last(), id, idx);
        assert(s.remove(idx) =~= s.drop_last().remove(idx).push(s.last()));
    }
}

/// Projecting ids commutes with dropping one session.
proof fn lemma_ids_of_without(s: Seq<SessionHandleV>, id: u64)
    ensures
        ids_of(sessions_without(s, id)) == without_member(ids_of(s), id),
    decreases s.len(),
{
    if s.len() == 0 {
        assert(sessions_without(s, id) =~= Seq::<SessionHandleV>::empty());
        assert(ids_of(s) =~= Seq::<u64>::empty());
        assert(ids_of(sessions_without(s, id)) =~= without_member(ids_of(s), id));
    } else {
        let d = s.drop_last();
        lemma_ids_of_without(d, id);
        assert(ids_of(s).drop_last() =~= ids_of(d));
        assert(ids_of(s).last() == s.last().id);
        assert(ids_of(s).len() == s.len());
        if s.last().id != id {
            assert(ids_of(sessions_without(d, id).push(s.last())) =~= ids_of(
                sessions_without(d, id),
            ).push(s.last().id));
            assert(ids_of(sessions_without(s, id)) =~= without_member(ids_of(s), id));
        } else {
            assert(ids_of(sessions_without(s, id)) =~= without_member(ids_of(s), id));
        }
    }
}

/// One `Custom` text event addressed to each id in `members`, in order.
pub open spec fn custom_deliveries(members: Seq<u64>, msg: Seq<char>) -> Seq<DeliveryV> {
    members.map_values(|m: u64| DeliveryV { to: m, event: EventV::Custom(msg) })
}

/// Pigeonhole: a sequence of ids is too short to hold every candidate in
/// `0 ..= ids.len()`, so at least one of them is free.
proof fn lemma_some_small_id_free(ids: Seq<u64>)
    requires
        ids.len() <= u64::MAX as nat,
    ensures
        exists|k: u64| k <= ids.len() && !ids.contains(k),
{
    broadcast use vstd::seq_lib::group_seq_properties;

    if forall|k: u64| k <= ids.len() ==> #[trigger] ids.contains(k) {
        let n = ids.len() as int;
        let ids_int = ids.map_values(|x: u64| x as int);
        let r = vstd::set_lib::set_int_range(0, n + 1);
        vstd::set_lib::lemma_int_range(0, n + 1);
        assert forall|t: int| r.contains(t) implies ids_int.to_set().contains(t) by {
            assert(0 <= t <= ids.len());
            assert(ids.contains(t as u64));
            let i = choose|i: int| 0 <= i < ids.len() && ids[i] == t as u64;
            assert((t as u64) as int == t);
            assert(ids_int[i] == t);
            assert(ids_int.contains(t));
        }
        assert(r.subset_of(ids_int.to_set()));
        ids_int.lemma_cardinality_of_set();
        vstd::set_lib::lemma_len_subset(r, ids_int.to_set());
        assert(n + 1 <= n);
    }
}

/// A channel as it looks after a new session joins everything: the same
/// channel with the id appended to its member set.
pub open spec fn with_member(c: ChannelV, id: u64) -> ChannelV {
    ChannelV { id: c.id, guild_id: c.guild_id, name: c.name, sessions: c.sessions.push(id) }
}

/// The hub state after a session with a fresh id registers: the id is added
/// to the session table and to every channel's member set, and the visitor
/// count grows by one.
pub open spec fn connect_post(h: HubV, id: u64) -> HubV {
    HubV {
        sessions: h.sessions.push(SessionHandleV { id, user: None }),
        channels: h.channels.map_values(|c: ChannelV| with_member(c, id)),
        visitor_count: h.visitor_count + 1,
    }
}

/// The one delivery a registration produces: `Hello`, pushed to the new
/// session itself.
pub open spec fn connect_deliveries(id: u64) -> Seq<DeliveryV> {
    seq![DeliveryV { to: id, event: EventV::Hello }]
}

/// A channel after one session leaves it.
pub open spec fn remove_member(c: ChannelV, id: u64) -> ChannelV {
    ChannelV {
        id: c.id,
        guild_id: c.guild_id,
        name: c.name,
        sessions: without_member(c.sessions, id),
    }
}

/// The text broadcast to a channel's remaining members when a member
/// disconnects.
pub open spec fn left_message(id: u64) -> Seq<char> {
    crate::encode::dec_nat(id as nat) + " left"@
}

/// The farewell deliveries one channel produces when `id` disconnects: one
/// `Custom` event per remaining member, none when `id` was not a member.
pub open spec fn channel_left_deliveries(c: ChannelV, id: u64) -> Seq<DeliveryV> {
    if c.sessions.contains(id) {
        custom_deliveries(without_member(c.sessions, id), left_message(id))
    } else {
        Seq::empty()
    }
}

/// The farewell deliveries of every channel, in table order.
pub open spec fn all_left_deliveries(cs: Seq<ChannelV>, id: u64) -> Seq<DeliveryV>
    decreases cs.len(),
{
    if cs.len() == 0 {
        Seq::empty()
    } else {
        all_left_deliveries(cs.drop_last(), id) + channel_left_deliveries(cs.last(), id)
    }
}

/// The hub state after a disconnect: for a live id, the session and all its
/// channel memberships go away and the visitor count drops by one, floored at
/// zero; for an unknown id nothing changes.
pub open spec fn disconnect_post(h: HubV, id: u64) -> HubV {
    if !has_session(h, id) {
        h
    } else {
        HubV {
            sessions: sessions_without(h.sessions, id),
            channels: h.channels.map_values(|c: ChannelV| remove_member(c, id)),
            visitor_count: if h.visitor_count > 0 {
                (h.visitor_count - 1) as nat
            } else {
                0nat
            },
        }
    }
}

/// The deliveries of a disconnect: farewells for a live id, none otherwise.
pub open spec fn disconnect_deliveries(h: HubV, id: u64) -> Seq<DeliveryV> {
    if !has_session(h, id) {
        Seq::empty()
    } else {
        all_left_deliveries(h.channels, id)
    }
}

/// One copy of an event addressed to each id in `ids`, in order.
pub open spec fn deliveries_to(ids: Seq<u64>, e: EventV) -> Seq<DeliveryV> {
    ids.map_values(|m: u64| DeliveryV { to: m, event: e })
}

/// The channel a successful create inserts: every currently connected
/// session is a member from the start.
pub open spec fn new_channel(h: HubV, id: i64, guild_id: Option<i64>, name: Seq<char>) -> ChannelV {
    ChannelV { id, guild_id, name, sessions: session_ids(h) }
}

/// The hub state after a channel create: unchanged on an id collision, the
/// new channel appended otherwise.
pub open spec fn create_channel_post(h: HubV, id: i64, guild_id: Option<i64>, name: Seq<char>) -> HubV {
    if has_channel(h, id) {
        h
    } else {
        HubV {
            sessions: h.sessions,
            channels: h.channels.push(new_channel(h, id, guild_id, name)),
            visitor_count: h.visitor_count,
        }
    }
}

/// The deliveries of a channel create: `ChannelCreate` to every connected
/// session on success, nothing on a collision.
pub open spec fn channel_create_deliveries(h: HubV, id: i64, name: Seq<char>) -> Seq<DeliveryV> {
    if has_channel(h, id) {
        Seq::empty()
    } else {
        deliveries_to(session_ids(h), EventV::ChannelCreate(ChannelCreateV { id, name }))
    }
}

/// The hub state after the store's startup channel list is loaded: a fold of
/// channel creation over the list, in order, so a duplicate id in the list is
/// dropped.
pub open spec fn load_post(h: HubV, list: Seq<ChannelV>) -> HubV
    decreases list.len(),
{
    if list.len() == 0 {
        h
    } else {
        load_post(
            create_channel_post(h, list[0].id, list[0].guild_id, list[0].name),
            list.drop_first(),
        )
    }
}

/// A channel after a session joins it; joining again changes nothing.
pub open spec fn joined_channel(c: ChannelV, client: u64) -> ChannelV {
    if c.sessions.contains(client) {
        c
    } else {
        with_member(c, client)
    }
}

/// The hub state after a join: the channel gains the member when both the
/// channel and the session exist, else nothing changes.
pub open spec fn join_post(h: HubV, client: u64, chan: i64) -> HubV {
    if !has_channel(h, chan) || !has_session(h, client) {
        h
    } else {
        let i = channel_index(h, chan);
        HubV {
            sessions: h.sessions,
            channels: h.channels.update(i, joined_channel(h.channels[i], client)),
            visitor_count: h.visitor_count,
        }
    }
}

/// The text broadcast to a channel when a session joins it.
pub open spec fn connected_message() -> Seq<char> {
    "Someone connected"@
}

/// The deliveries of a join: a connect notice to every member of the channel
/// except the joining session itself.
pub open spec fn join_deliveries(h: HubV, client: u64, chan: i64) -> Seq<DeliveryV> {
    if !has_channel(h, chan) || !has_session(h, client) {
        Seq::empty()
    } else {
        let c = joined_channel(h.channels[channel_index(h, chan)], client);
        custom_deliveries(without_member(c.sessions, client), connected_message())
    }
}

/// The deliveries of a message create: the `MessageCreate` event to every
/// member of the channel, the sender's session included.
pub open spec fn message_deliveries(h: HubV, channel_id: i64, m: MessageCreateV) -> Seq<DeliveryV> {
    if !has_channel(h, channel_id) {
        Seq::empty()
    } else {
        deliveries_to(
            h.channels[channel_index(h, channel_id)].sessions,
            EventV::MessageCreate(m),
        )
    }
}

/// The session table after a user identity is attached to one session.
pub open spec fn attach_user(s: Seq<SessionHandleV>, id: u64, u: UserV) -> Seq<SessionHandleV> {
    s.map_values(
        |h: SessionHandleV|
            if h.id == id {
                SessionHandleV { id: h.id, user: Some(u) }
            } else {
                h
            },
    )
}

/// What the hub decides when an `Identify` command arrives: nothing for an
/// unknown session, an immediate rejection for a token that is not even
/// well-formed, otherwise an identity lookup.
#[derive(Clone, Copy, PartialEq, Eq, Structural, Debug)]
pub enum IdentifyDecision {
    /// The session is gone; return silently.
    Absent,
    /// The token is not a well-formed bearer token; `BadToken` was delivered.
    Malformed,
    /// The caller must await the external identity lookup and then call
    /// `identify_finish` with its outcome.
    Lookup,
}

pub open spec fn identify_begin_decision(h: HubV, id: u64, token: Seq<char>) -> IdentifyDecision {
    if !has_session(h, id) {
        IdentifyDecision::Absent
    } else if !crate::ext::uuid_valid(token) {
        IdentifyDecision::Malformed
    } else {
        IdentifyDecision::Lookup
    }
}

pub open spec fn identify_begin_deliveries(h: HubV, id: u64, token: Seq<char>) -> Seq<DeliveryV> {
    if has_session(h, id) && !crate::ext::uuid_valid(token) {
        seq![DeliveryV { to: id, event: EventV::BadToken }]
    } else {
        Seq::empty()
    }
}

/// The hub state after an identify resolves: on success the user identity is
/// attached to the session if it is still live; on failure nothing changes.
pub open spec fn identify_finish_post(h: HubV, id: u64, outcome: Option<UserV>) -> HubV {
    match outcome {
        None => h,
        Some(u) => HubV {
            sessions: attach_user(h.sessions, id, u),
            channels: h.channels,
            visitor_count: h.visitor_count,
        },
    }
}

/// The deliveries of a resolved identify: one `BadToken` on failure; on
/// success `SetToken` followed by a `Ready` snapshot of the channel table,
/// the authenticated user, and the roster.
pub open spec fn identify_finish_deliveries(
    h: HubV,
    id: u64,
    token: Seq<char>,
    outcome: Option<UserV>,
    roster: Seq<UserV>,
) -> Seq<DeliveryV> {
    match outcome {
        None => seq![DeliveryV { to: id, event: EventV::BadToken }],
        Some(u) => seq![
            DeliveryV { to: id, event: EventV::SetToken(token) },
            DeliveryV {
                to: id,
                event: EventV::Ready(ReadyV { channels: h.channels, user: u, users: roster }),
            },
        ],
    }
}

/// When channel ids are unique, any index whose channel carries the id is
/// the channel's index.
proof fn lemma_channel_index_unique(h: HubV, id: i64, i: int)
    requires
        channel_ids(h).no_duplicates(),
        0 <= i < h.channels.len(),
        h.channels[i].id == id,
    ensures
        has_channel(h, id),
        channel_index(h, id) == i,
{
    assert(channel_ids(h)[i] == id);
    assert(has_channel(h, id));
    let j = channel_index(h, id);
    assert(0 <= j < h.channels.len() && h.channels[j].id == id);
    assert(channel_ids(h)[j] == id);
}

/// Whether a member list holds an id.
fn contains_u64(v: &Vec<u64>, x: u64) -> (r: bool)
    ensures
        r == v@.contains(x),
{
    let mut i: usize = 0;
    while i < v.len()
        invariant
            i <= v.len(),
            forall|j: int| 0 <= j < i ==> v@[j] != x,
        decreases v.len() - i,
    {
        if v[i] == x {
            return true;
        }
        i = i + 1;
    }
    false
}

/// A copy of a member list with one id taken out.
fn without_member_exec(v: &Vec<u64>, id: u64) -> (r: Vec<u64>)
    ensures
        r@ == without_member(v@, id),
{
    let mut out: Vec<u64> = Vec::new();
    let mut i: usize = 0;
    while i < v.len()
        invariant
            i <= v.len(),
            out@ == without_member(v@.take(i as int), id),
        decreases v.len() - i,
    {
        let m = v[i];
        proof {
            let t = v@.take(i + 1);
            assert(t.drop_last() =~= v@.take(i as int));
            assert(t.last() == v@[i as int]);
        }
        if m != id {
            out.push(m);
        }
        i = i + 1;
    }
    proof {
        assert(v@.take(v@.len() as int) =~= v@);
    }
    out
}

fn vec_channel_mut(v: &mut Vec<Channel>, i: usize) -> (c: &mut Channel)
    requires
        i < old(v).len(),
    ensures
        *c == old(v)@[i as int],
        final(v)@ == old(v)@.update(i as int, *final(c)),
{
    &mut v[i]
}

fn vec_session_mut(v: &mut Vec<SessionHandle>, i: usize) -> (s: &mut SessionHandle)
    requires
        i < old(v).len(),
    ensures
        *s == old(v)@[i as int],
        final(v)@ == old(v)@.update(i as int, *final(s)),
{
    &mut v[i]
}

/// The message shape a `CreateMessage` command returns: what the caller
/// stores and what members saw, timestamped by the caller.
pub struct CreateMessage {
    pub id: i64,
    pub channel_id: i64,
    pub content: String,
    pub author: User,
    pub created_at: u64,
}

#[verifier::ext_equal]
pub struct CreateMessageV {
    pub id: i64,
    pub channel_id: i64,
    pub content: Seq<char>,
    pub author: UserV,
    pub created_at: u64,
}

impl View for CreateMessage {
    type V = CreateMessageV;

    open spec fn view(&self) -> CreateMessageV {
        CreateMessageV {
            id: self.id,
            channel_id: self.channel_id,
            content: self.content@,
            author: self.author@,
            created_at: self.created_at,
        }
    }
}

impl DeepView for CreateMessage {
    type V = CreateMessageV;

    open spec fn deep_view(&self) -> CreateMessageV {
        self.view()
    }
}

impl Hub {
    /// A hub with no sessions and no channels; channels loaded from the store
    /// at startup are added through `create_channel` before any session
    /// connects.
    pub fn new() -> (r: Hub)
        ensures
            r@ == (HubV { sessions: Seq::<SessionHandleV>::empty(), channels: Seq::<ChannelV>::empty(), visitor_count: 0nat }),
            wf(r@),
    {
        let r = Hub { sessions: Vec::new(), channels: Vec::new(), visitor_count: 0 };
        proof {
            assert(r@.sessions =~= Seq::<SessionHandleV>::empty());
            assert(r@.channels =~= Seq::<ChannelV>::empty());
            assert(session_ids(r@) =~= Seq::<u64>::empty());
            assert(channel_ids(r@) =~= Seq::<i64>::empty());
        }
        r
    }

    /// Whether `id` is in the session table.
    pub fn contains_session(&self, id: u64) -> (r: bool)
        ensures
            r == has_session(self@, id),
    {
        let ghost ids = session_ids(self@);
        let mut i: usize = 0;
        while i < self.sessions.len()
            invariant
                i <= self.sessions.len(),
                ids == session_ids(self@),
                ids.len() == self.sessions.len(),
                forall|j: int| 0 <= j < i ==> ids[j] != id,
            decreases self.sessions.len() - i,
        {
            proof {
                assert(ids[i as int] == self.sessions.deep_view()[i as int].id);
            }
            if self.sessions[i].id == id {
                return true;
            }
            i = i + 1;
        }
        false
    }

    /// A session id that is not in use: a random draw, falling back to the
    /// smallest unused candidate if the draw collides.
    fn fresh_id(&self) -> (id: u64)
        ensures
            !has_session(self@, id),
    {
        let r = crate::ext::random_u64();
        if !self.contains_session(r) {
            return r;
        }
        let ghost ids = session_ids(self@);
        let n = self.sessions.len();
        let mut k: usize = 0;
        while k < n
            invariant
                k <= n,
                n == self.sessions.len(),
                ids == session_ids(self@),
                ids.len() == n,
                forall|j: int| 0 <= j < k ==> ids.contains(#[trigger] (j as u64)),
            decreases n - k,
        {
            if !self.contains_session(k as u64) {
                return k as u64;
            }
            k = k + 1;
        }
        proof {
            lemma_some_small_id_free(ids);
            let f = choose|k: u64| k <= ids.len() && !ids.contains(k);
            if f < n as u64 {
                assert(ids.contains(#[trigger] ((f as int) as u64)));
            } else {
                assert(f == n as u64);
            }
        }
        n as u64
    }

    /// Registers a new connection: allocates a fresh session id, inserts it
    /// into the session table and into every channel's member set, bumps the
    /// visitor count, and greets the new session with `Hello`.
    pub fn connect(&mut self) -> (r: (u64, Vec<Delivery>))
        requires
            wf(old(self)@),
        ensures
            wf(final(self)@),
            !has_session(old(self)@, r.0),
            final(self)@ == connect_post(old(self)@, r.0),
            r.1.deep_view() == connect_deliveries(r.0),
    {
        let ghost pre = old(self)@;
        let id = self.fresh_id();
        self.sessions.push(SessionHandle { id, user: None });
        proof {
            assert(self.sessions.deep_view() =~= pre.sessions.push(
                SessionHandleV { id, user: None },
            ));
        }
        let ghost postch = pre.channels.map_values(|c: ChannelV| with_member(c, id));
        let mut i: usize = 0;
        while i < self.channels.len()
            invariant
                i <= self.channels.len(),
                self.channels.len() == pre.channels.len(),
                postch == pre.channels.map_values(|c: ChannelV| with_member(c, id)),
                forall|j: int|
                    0 <= j < i ==> self.channels.deep_view()[j] == with_member(
                        pre.channels[j],
                        id,
                    ),
                forall|j: int|
                    i <= j < pre.channels.len() ==> self.channels.deep_view()[j]
                        == pre.channels[j],
                self.sessions.deep_view() == pre.sessions.push(SessionHandleV { id, user: None }),
                self.visitor_count == old(self).visitor_count,
            decreases self.channels.len() - i,
        {
            let ghost dv_before = self.channels.deep_view();
            let ch = vec_channel_mut(&mut self.channels, i);
            ch.sessions.push(id);
            proof {
                assert forall|j: int| 0 <= j < pre.channels.len() implies #[trigger] self
                    .channels
                    .deep_view()[j] == if j == i as int {
                    with_member(pre.channels[j], id)
                } else {
                    dv_before[j]
                } by {
                    if j == i as int {
                        assert(self.channels@[j]@ =~= with_member(dv_before[j], id));
                    }
                }
            }
            i = i + 1;
        }
        let n = self.sessions.len();
        self.visitor_count = n;
        let deliveries = vec![Delivery { to: id, event: Event::Hello }];
        proof {
            let post = connect_post(pre, id);
            assert(self.channels.deep_view() =~= post.channels);
            assert(self@ =~= post);
            assert(deliveries.deep_view() =~= connect_deliveries(id));
            lemma_connect_wf(pre, id);
        }
        (id, deliveries)
    }

    /// The position of a session id in the table, if it is live.
    fn session_index(&self, id: u64) -> (r: Option<usize>)
        ensures
            match r {
                Some(i) => i < self.sessions.len() && self@.sessions[i as int].id == id,
                None => !has_session(self@, id),
            },
    {
        let mut i: usize = 0;
        while i < self.sessions.len()
            invariant
                i <= self.sessions.len(),
                forall|j: int| 0 <= j < i ==> self@.sessions[j].id != id,
            decreases self.sessions.len() - i,
        {
            if self.sessions[i].id == id {
                return Some(i);
            }
            i = i + 1;
        }
        proof {
            if has_session(self@, id) {
                let ids = session_ids(self@);
                let j = choose|j: int| 0 <= j < ids.len() && ids[j] == id;
                assert(self@.sessions[j].id == id);
            }
        }
        None
    }

    /// Removes a session: the id leaves the session table and every channel's
    /// member set, the visitor count drops by one (floored at zero), and the
    /// remaining members of each channel the id belonged to are told
    /// `"<id> left"`. Disconnecting an id that is not live changes nothing
    /// and delivers nothing, so a second disconnect for the same id is
    /// harmless.
    pub fn disconnect(&mut self, id: u64) -> (r: Vec<Delivery>)
        requires
            wf(old(self)@),
        ensures
            wf(final(self)@),
            final(self)@ == disconnect_post(old(self)@, id),
            r.deep_view() == disconnect_deliveries(old(self)@, id),
    {
        let ghost pre = old(self)@;
        let idx = match self.session_index(id) {
            Some(i) => i,
            None => {
                let r: Vec<Delivery> = Vec::new();
                proof {
                    assert(r.deep_view() =~= Seq::<DeliveryV>::empty());
                }
                return r;
            },
        };
        proof {
            assert(session_ids(pre)[idx as int] == pre.sessions[idx as int].id);
            assert(has_session(pre, id));
            assert forall|i: int|
                0 <= i < pre.sessions.len() && i != idx implies (#[trigger] pre.sessions[i]).id
                != id by {
                assert(session_ids(pre)[i] == pre.sessions[i].id);
                assert(session_ids(pre)[i] != session_ids(pre)[idx as int]);
            }
        }
        let _removed = self.sessions.remove(idx);
        proof {
            lemma_sessions_without_is_remove(pre.sessions, id, idx as int);
            assert(self.sessions.deep_view() =~= pre.sessions.remove(idx as int));
        }
        if self.visitor_count > 0 {
            self.visitor_count = self.visitor_count - 1;
        }
        let mut msg = String::new();
        crate::encode::push_dec_u64(&mut msg, id);
        msg.append(" left");
        proof {
            assert(msg@ =~= left_message(id));
        }
        let mut deliveries: Vec<Delivery> = Vec::new();
        let mut ci: usize = 0;
        while ci < self.channels.len()
            invariant
                ci <= self.channels.len(),
                self.channels.len() == pre.channels.len(),
                msg@ == left_message(id),
                forall|j: int|
                    0 <= j < ci ==> self.channels.deep_view()[j] == remove_member(
                        pre.channels[j],
                        id,
                    ),
                forall|j: int|
                    ci <= j < pre.channels.len() ==> self.channels.deep_view()[j]
                        == pre.channels[j],
                deliveries.deep_view() == all_left_deliveries(pre.channels.take(ci as int), id),
                self.sessions.deep_view() == sessions_without(pre.sessions, id),
                self.visitor_count as nat == (if pre.visitor_count > 0 {
                    (pre.visitor_count - 1) as nat
                } else {
                    0nat
                }),
            decreases self.channels.len() - ci,
        {
            let ghost dv_before = self.channels.deep_view();
            let was = contains_u64(&self.channels[ci].sessions, id);
            if was {
                let nm = without_member_exec(&self.channels[ci].sessions, id);
                let ghost base = deliveries.deep_view();
                let mut j: usize = 0;
                while j < nm.len()
                    invariant
                        j <= nm.len(),
                        msg@ == left_message(id),
                        nm@ == without_member(dv_before[ci as int].sessions, id),
                        ci < dv_before.len(),
                        base == all_left_deliveries(pre.channels.take(ci as int), id),
                        deliveries.deep_view() == base + custom_deliveries(
                            nm@.take(j as int),
                            left_message(id),
                        ),
                    decreases nm.len() - j,
                {
                    let ghost dpre = deliveries.deep_view();
                    deliveries.push(Delivery { to: nm[j], event: Event::Custom(msg.clone()) });
                    proof {
                        assert(deliveries.deep_view() =~= dpre.push(
                            DeliveryV { to: nm@[j as int], event: EventV::Custom(left_message(id)) },
                        ));
                        assert(custom_deliveries(nm@.take(j + 1), left_message(id)) =~= custom_deliveries(
                            nm@.take(j as int),
                            left_message(id),
                        ).push(DeliveryV { to: nm@[j as int], event: EventV::Custom(left_message(id)) }));
                        assert(deliveries.deep_view() =~= base + custom_deliveries(
                            nm@.take(j + 1),
                            left_message(id),
                        ));
                    }
                    j = j + 1;
                }
                proof {
                    assert(nm@.take(nm@.len() as int) =~= nm@);
                }
                let ch = vec_channel_mut(&mut self.channels, ci);
                ch.sessions = nm;
                proof {
                    assert forall|k: int| 0 <= k < pre.channels.len() implies #[trigger] self
                        .channels
                        .deep_view()[k] == if k == ci as int {
                        remove_member(pre.channels[k], id)
                    } else {
                        dv_before[k]
                    } by {
                        if k == ci as int {
                            assert(self.channels@[k]@ =~= remove_member(dv_before[k], id));
                        }
                    }
                }
            } else {
                proof {
                    lemma_without_member_absent(pre.channels[ci as int].sessions, id);
                    assert(self.channels.deep_view()[ci as int] =~= remove_member(
                        pre.channels[ci as int],
                        id,
                    ));
                }
            }
            proof {
                let t = pre.channels.take(ci + 1);
                assert(t.drop_last() =~= pre.channels.take(ci as int));
                assert(t.last() == pre.channels[ci as int]);
                assert(deliveries.deep_view() =~= all_left_deliveries(t, id));
            }
            ci = ci + 1;
        }
        proof {
            assert(pre.channels.take(pre.channels.len() as int) =~= pre.channels);
            let post = disconnect_post(pre, id);
            assert(self.channels.deep_view() =~= post.channels);
            assert(self@ =~= post);
            lemma_disconnect_wf(pre, id);
        }
        deliveries
    }

    /// The position of a channel id in the table, if it exists.
    fn find_channel(&self, id: i64) -> (r: Option<usize>)
        ensures
            match r {
                Some(i) => i < self.channels.len() && self@.channels[i as int].id == id,
                None => !has_channel(self@, id),
            },
    {
        let mut i: usize = 0;
        while i < self.channels.len()
            invariant
                i <= self.channels.len(),
                forall|j: int| 0 <= j < i ==> self@.channels[j].id != id,
            decreases self.channels.len() - i,
        {
            if self.channels[i].id == id {
                return Some(i);
            }
            i = i + 1;
        }
        proof {
            if has_channel(self@, id) {
                let cids = channel_ids(self@);
                let j = choose|j: int| 0 <= j < cids.len() && cids[j] == id;
                assert(self@.channels[j].id == id);
            }
        }
        None
    }

    /// The ids of all connected sessions, in registration order.
    fn session_id_list(&self) -> (r: Vec<u64>)
        ensures
            r@ == session_ids(self@),
    {
        let mut out: Vec<u64> = Vec::new();
        let mut i: usize = 0;
        while i < self.sessions.len()
            invariant
                i <= self.sessions.len(),
                out@ == session_ids(self@).take(i as int),
            decreases self.sessions.len() - i,
        {
            out.push(self.sessions[i].id);
            proof {
                assert(out@ =~= session_ids(self@).take(i + 1));
            }
            i = i + 1;
        }
        proof {
            assert(session_ids(self@).take(session_ids(self@).len() as int) =~= session_ids(
                self@,
            ));
        }
        out
    }

    /// Creates a channel. Fails on an id collision, leaving the table — the
    /// existing channel included — untouched. On success the channel starts
    /// with every connected session as a member, `ChannelCreate` goes out to
    /// every connected session, and the created channel is returned.
    pub fn create_channel(&mut self, id: i64, guild_id: Option<i64>, name: String) -> (r: (
        Option<Channel>,
        Vec<Delivery>,
    ))
        requires
            wf(old(self)@),
        ensures
            wf(final(self)@),
            final(self)@ == create_channel_post(old(self)@, id, guild_id, name@),
            r.0 is Some <==> !has_channel(old(self)@, id),
            r.0 matches Some(c) ==> c@ == new_channel(old(self)@, id, guild_id, name@),
            r.1.deep_view() == channel_create_deliveries(old(self)@, id, name@),
    {
        let ghost pre = old(self)@;
        if let Some(_i) = self.find_channel(id) {
            proof {
                assert(channel_ids(pre)[_i as int] == id);
                assert(has_channel(pre, id));
                assert(self@ == create_channel_post(pre, id, guild_id, name@));
            }
            let r: Vec<Delivery> = Vec::new();
            proof {
                assert(r.deep_view() =~= Seq::<DeliveryV>::empty());
            }
            return (None, r);
        }
        let members = self.session_id_list();
        let ch = Channel { id, guild_id, name: name.clone(), sessions: members };
        let out = ch.clone();
        self.channels.push(ch);
        let ghost ev = EventV::ChannelCreate(ChannelCreateV { id, name: name@ });
        let mut deliveries: Vec<Delivery> = Vec::new();
        let mut i: usize = 0;
        while i < self.sessions.len()
            invariant
                i <= self.sessions.len(),
                self.sessions.deep_view() == pre.sessions,
                ev == EventV::ChannelCreate(ChannelCreateV { id, name: name@ }),
                deliveries.deep_view() == deliveries_to(session_ids(pre).take(i as int), ev),
            decreases self.sessions.len() - i,
        {
            let ghost dpre = deliveries.deep_view();
            deliveries.push(
                Delivery {
                    to: self.sessions[i].id,
                    event: Event::ChannelCreate(ChannelCreate { id, name: name.clone() }),
                },
            );
            proof {
                assert(session_ids(pre)[i as int] == pre.sessions[i as int].id);
                assert(deliveries.deep_view() =~= dpre.push(
                    DeliveryV { to: pre.sessions[i as int].id, event: ev },
                ));
                assert(deliveries.deep_view() =~= deliveries_to(
                    session_ids(pre).take(i + 1),
                    ev,
                ));
            }
            i = i + 1;
        }
        proof {
            assert(session_ids(pre).take(session_ids(pre).len() as int) =~= session_ids(pre));
            let post = create_channel_post(pre, id, guild_id, name@);
            assert(self.channels.deep_view() =~= post.channels);
            assert(self@ =~= post);
            assert(out@ =~= new_channel(pre, id, guild_id, name@));
            lemma_create_channel_wf(pre, id, guild_id, name@);
        }
        (Some(out), deliveries)
    }

    /// Adds a session to a channel. Fails when the channel does not exist;
    /// it also refuses an id that is not a live session, which keeps the
    /// membership invariant: no channel may hold a dangling id. On success
    /// the other members are told `"Someone connected"` and the updated
    /// channel is returned.
    pub fn join(&mut self, client_id: u64, channel_id: i64) -> (r: (Option<Channel>, Vec<
        Delivery,
    >))
        requires
            wf(old(self)@),
        ensures
            wf(final(self)@),
            final(self)@ == join_post(old(self)@, client_id, channel_id),
            r.0 is Some <==> has_channel(old(self)@, channel_id) && has_session(
                old(self)@,
                client_id,
            ),
            r.0 matches Some(c) ==> c@ == joined_channel(
                old(self)@.channels[channel_index(old(self)@, channel_id)],
                client_id,
            ),
            r.1.deep_view() == join_deliveries(old(self)@, client_id, channel_id),
    {
        let ghost pre = old(self)@;
        let ci = match self.find_channel(channel_id) {
            Some(i) => i,
            None => {
                let r: Vec<Delivery> = Vec::new();
                proof {
                    assert(r.deep_view() =~= Seq::<DeliveryV>::empty());
                }
                return (None, r);
            },
        };
        if !self.contains_session(client_id) {
            let r: Vec<Delivery> = Vec::new();
            proof {
                assert(r.deep_view() =~= Seq::<DeliveryV>::empty());
            }
            return (None, r);
        }
        proof {
            lemma_channel_index_unique(pre, channel_id, ci as int);
        }
        let ghost dv_before = self.channels.deep_view();
        let already = contains_u64(&self.channels[ci].sessions, client_id);
        if !already {
            let ch = vec_channel_mut(&mut self.channels, ci);
            ch.sessions.push(client_id);
            proof {
                assert(self.channels@[ci as int]@ =~= with_member(dv_before[ci as int], client_id));
            }
        }
        proof {
            assert(self.channels.deep_view() =~= dv_before.update(
                ci as int,
                joined_channel(pre.channels[ci as int], client_id),
            ));
        }
        let targets = without_member_exec(&self.channels[ci].sessions, client_id);
        let mut msg = String::new();
        msg.append("Someone connected");
        proof {
            assert(msg@ =~= connected_message());
        }
        let mut deliveries: Vec<Delivery> = Vec::new();
        let mut j: usize = 0;
        while j < targets.len()
            invariant
                j <= targets.len(),
                msg@ == connected_message(),
                targets@ == without_member(
                    joined_channel(pre.channels[ci as int], client_id).sessions,
                    client_id,
                ),
                deliveries.deep_view() == custom_deliveries(
                    targets@.take(j as int),
                    connected_message(),
                ),
            decreases targets.len() - j,
        {
            let ghost dpre = deliveries.deep_view();
            deliveries.push(Delivery { to: targets[j], event: Event::Custom(msg.clone()) });
            proof {
                assert(deliveries.deep_view() =~= dpre.push(
                    DeliveryV { to: targets@[j as int], event: EventV::Custom(connected_message()) },
                ));
                assert(deliveries.deep_view() =~= custom_deliveries(
                    targets@.take(j + 1),
                    connected_message(),
                ));
            }
            j = j + 1;
        }
        proof {
            assert(targets@.take(targets@.len() as int) =~= targets@);
        }
        let out = self.channels[ci].clone();
        proof {
            let post = join_post(pre, client_id, channel_id);
            assert(self@ =~= post);
            assert(out@ == joined_channel(pre.channels[ci as int], client_id));
            lemma_join_wf(pre, client_id, channel_id);
        }
        (Some(out), deliveries)
    }

    /// Builds a message in a channel. Fails when the channel does not exist.
    /// The hub state never changes; the `MessageCreate` event is addressed
    /// to every member of the channel, the sender's session included, and
    /// the stored message shape is returned.
    pub fn create_message(
        &self,
        channel_id: i64,
        message_id: i64,
        content: String,
        author: User,
        created_at: u64,
    ) -> (r: (Option<CreateMessage>, Vec<Delivery>))
        requires
            wf(self@),
        ensures
            r.0 is Some <==> has_channel(self@, channel_id),
            r.0 matches Some(m) ==> m@ == (CreateMessageV {
                id: message_id,
                channel_id,
                content: content@,
                author: author@,
                created_at,
            }),
            r.1.deep_view() == message_deliveries(
                self@,
                channel_id,
                MessageCreateV {
                    id: message_id,
                    content: content@,
                    channel_id,
                    author: author@,
                },
            ),
    {
        let ci = match self.find_channel(channel_id) {
            Some(i) => i,
            None => {
                let r: Vec<Delivery> = Vec::new();
                proof {
                    assert(r.deep_view() =~= Seq::<DeliveryV>::empty());
                }
                return (None, r);
            },
        };
        proof {
            assert(channel_ids(self@)[ci as int] == channel_id);
            assert(has_channel(self@, channel_id));
        }
        let ghost m = MessageCreateV {
            id: message_id,
            content: content@,
            channel_id,
            author: author@,
        };
        let ghost ev = EventV::MessageCreate(m);
        let ghost members = self@.channels[ci as int].sessions;
        let mut deliveries: Vec<Delivery> = Vec::new();
        let mut j: usize = 0;
        while j < self.channels[ci].sessions.len()
            invariant
                ci < self.channels.len(),
                j <= self.channels[ci as int].sessions.len(),
                members == self@.channels[ci as int].sessions,
                ev == EventV::MessageCreate(m),
                m == (MessageCreateV {
                    id: message_id,
                    content: content@,
                    channel_id,
                    author: author@,
                }),
                deliveries.deep_view() == deliveries_to(members.take(j as int), ev),
            decreases self.channels[ci as int].sessions.len() - j,
        {
            let ghost dpre = deliveries.deep_view();
            let target = self.channels[ci].sessions[j];
            deliveries.push(
                Delivery {
                    to: target,
                    event: Event::MessageCreate(
                        MessageCreate {
                            id: message_id,
                            content: content.clone(),
                            channel_id,
                            author: author.clone(),
                        },
                    ),
                },
            );
            proof {
                assert(deliveries.deep_view() =~= dpre.push(
                    DeliveryV { to: members[j as int], event: ev },
                ));
                assert(deliveries.deep_view() =~= deliveries_to(members.take(j + 1), ev));
            }
            j = j + 1;
        }
        let out = CreateMessage { id: message_id, channel_id, content, author, created_at };
        proof {
            assert(members.take(members.len() as int) =~= members);
            lemma_channel_index_unique(self@, channel_id, ci as int);
        }
        (Some(out), deliveries)
    }

    /// Seeds the channel table from the store's startup channel list: each
    /// entry is created in order, and an entry whose id already appeared is
    /// dropped. The store is read once, before the hub accepts commands, so
    /// no session is connected yet: every loaded channel starts with an
    /// empty member set and the creations broadcast to nobody.
    pub fn load_channels(&mut self, list: Vec<Channel>)
        requires
            wf(old(self)@),
            old(self)@.sessions.len() == 0,
        ensures
            wf(final(self)@),
            final(self)@ == load_post(old(self)@, list.deep_view()),
            final(self)@.sessions.len() == 0,
    {
        let ghost pre = self@;
        let ghost lv = list.deep_view();
        proof {
            assert(lv.skip(0) =~= lv);
        }
        let mut i: usize = 0;
        while i < list.len()
            invariant
                i <= list.len(),
                lv == list.deep_view(),
                lv.len() == list.len(),
                wf(self@),
                self@.sessions.len() == 0,
                load_post(pre, lv) == load_post(self@, lv.skip(i as int)),
            decreases list.len() - i,
        {
            proof {
                assert(lv.skip(i as int)[0] == lv[i as int]);
                assert(lv.skip(i as int).drop_first() =~= lv.skip(i + 1));
            }
            let c = &list[i];
            let (_created, _deliveries) = self.create_channel(c.id, c.guild_id, c.name.clone());
            i = i + 1;
        }
        proof {
            assert(lv.skip(lv.len() as int) =~= Seq::<ChannelV>::empty());
        }
    }

    /// A snapshot of the channel table.
    pub fn list_channels(&self) -> (r: Vec<Channel>)
        ensures
            r.deep_view() == self@.channels,
    {
        let mut out: Vec<Channel> = Vec::new();
        let mut i: usize = 0;
        while i < self.channels.len()
            invariant
                i <= self.channels.len(),
                out.deep_view() == self@.channels.take(i as int),
            decreases self.channels.len() - i,
        {
            let ghost dpre = out.deep_view();
            let c = self.channels[i].clone();
            proof {
                assert(c@ == self@.channels[i as int]);
            }
            out.push(c);
            proof {
                assert(out.deep_view() =~= dpre.push(self@.channels[i as int]));
                assert(out.deep_view() =~= self@.channels.take(i + 1));
            }
            i = i + 1;
        }
        proof {
            assert(self@.channels.take(self@.channels.len() as int) =~= self@.channels);
        }
        out
    }

    /// Looks at an `Identify` command before the external lookup: an unknown
    /// session is ignored, a token that is not even well-formed is answered
    /// with `BadToken` at once, and otherwise the caller is told to run the
    /// identity lookup and come back through `identify_finish`.
    pub fn identify_begin(&self, id: u64, token: &str) -> (r: (IdentifyDecision, Vec<Delivery>))
        ensures
            r.0 == identify_begin_decision(self@, id, token@),
            r.1.deep_view() == identify_begin_deliveries(self@, id, token@),
    {
        if !self.contains_session(id) {
            let r: Vec<Delivery> = Vec::new();
            proof {
                assert(r.deep_view() =~= Seq::<DeliveryV>::empty());
            }
            return (IdentifyDecision::Absent, r);
        }
        if !crate::ext::token_is_uuid(token) {
            let r = vec![Delivery { to: id, event: Event::BadToken }];
            proof {
                assert(r.deep_view() =~= seq![DeliveryV { to: id, event: EventV::BadToken }]);
            }
            return (IdentifyDecision::Malformed, r);
        }
        let r: Vec<Delivery> = Vec::new();
        proof {
            assert(r.deep_view() =~= Seq::<DeliveryV>::empty());
        }
        (IdentifyDecision::Lookup, r)
    }

    /// Applies the outcome of the external identity lookup. A failed lookup
    /// — an invalid token as much as a store error — changes nothing and
    /// answers with exactly one `BadToken`. A successful one attaches the
    /// user to the session if it is still live (it may have disconnected
    /// while the lookup ran) and answers with `SetToken` followed by the
    /// `Ready` snapshot.
    pub fn identify_finish(
        &mut self,
        id: u64,
        token: String,
        outcome: Option<User>,
        roster: Vec<User>,
    ) -> (r: Vec<Delivery>)
        requires
            wf(old(self)@),
        ensures
            wf(final(self)@),
            final(self)@ == identify_finish_post(old(self)@, id, outcome.deep_view()),
            r.deep_view() == identify_finish_deliveries(
                old(self)@,
                id,
                token@,
                outcome.deep_view(),
                roster.deep_view(),
            ),
    {
        let ghost pre = old(self)@;
        let user = match outcome {
            None => {
                let r = vec![Delivery { to: id, event: Event::BadToken }];
                proof {
                    assert(r.deep_view() =~= seq![DeliveryV { to: id, event: EventV::BadToken }]);
                }
                return r;
            },
            Some(user) => user,
        };
        match self.session_index(id) {
            Some(i) => {
                let attached = user.clone();
                let s = vec_session_mut(&mut self.sessions, i);
                s.user = Some(attached);
                proof {
                    assert(session_ids(pre)[i as int] == pre.sessions[i as int].id);
                    assert forall|k: int| 0 <= k < pre.sessions.len() implies #[trigger] self
                        .sessions
                        .deep_view()[k] == attach_user(pre.sessions, id, user@)[k] by {
                        if k != i as int {
                            assert(session_ids(pre)[k] == pre.sessions[k].id);
                            assert(session_ids(pre)[k] != session_ids(pre)[i as int]);
                        }
                    }
                    assert(self.sessions.deep_view() =~= attach_user(pre.sessions, id, user@));
                }
            },
            None => {
                proof {
                    assert forall|k: int| 0 <= k < pre.sessions.len() implies #[trigger] pre
                        .sessions[k].id != id by {
                        assert(session_ids(pre)[k] == pre.sessions[k].id);
                    }
                    assert(self.sessions.deep_view() =~= attach_user(pre.sessions, id, user@));
                }
            },
        }
        let chans = self.list_channels();
        let d1 = Delivery { to: id, event: Event::SetToken(token) };
        let d2 = Delivery {
            to: id,
            event: Event::Ready(Ready { channels: chans, user, users: roster }),
        };
        let r = vec![d1, d2];
        proof {
            let post = identify_finish_post(pre, id, outcome.deep_view());
            assert(self@ =~= post);
            assert(session_ids(post) =~= session_ids(pre));
            assert forall|i: int, j: int|
                0 <= i < post.channels.len() && 0 <= j < post.channels[i].sessions.len() implies
                has_session(post, #[trigger] post.channels[i].sessions[j]) by {
                assert(has_session(pre, pre.channels[i].sessions[j]));
            }
            assert(r.deep_view() =~= identify_finish_deliveries(
                pre,
                id,
                token@,
                outcome.deep_view(),
                roster.deep_view(),
            ));
        }
        r
    }
}

/// A fresh registration preserves well-formedness.
proof fn lemma_connect_wf(h: HubV, id: u64)
    requires
        wf(h),
        !has_session(h, id),
    ensures
        wf(connect_post(h, id)),
{
    let post = connect_post(h, id);
    let ids = session_ids(h);
    assert(session_ids(post) =~= ids.push(id));
    assert(session_ids(post).no_duplicates()) by {
        assert forall|p: int, q: int|
            0 <= p < q < ids.len() + 1 implies ids.push(id)[p] != ids.push(id)[q] by {
            if q == ids.len() {
                assert(!ids.contains(ids[p]) || ids[p] != id);
            }
        }
    }
    assert(channel_ids(post) =~= channel_ids(h));
    assert forall|i: int| 0 <= i < post.channels.len() implies (#[trigger] post.channels[i])
        .sessions
        .no_duplicates() by {
        let c = h.channels[i];
        assert(!c.sessions.contains(id)) by {
            if c.sessions.contains(id) {
                let j = choose|j: int| 0 <= j < c.sessions.len() && c.sessions[j] == id;
                assert(has_session(h, c.sessions[j]));
            }
        }
        assert(post.channels[i].sessions =~= c.sessions.push(id));
        assert forall|p: int, q: int|
            0 <= p < q < c.sessions.len() + 1 implies c.sessions.push(id)[p] != c.sessions.push(
            id,
        )[q] by {
            if q == c.sessions.len() {
                assert(c.sessions[p] != id);
            }
        }
    }
    assert forall|i: int, j: int|
        0 <= i < post.channels.len() && 0 <= j < post.channels[i].sessions.len() implies
        has_session(post, #[trigger] post.channels[i].sessions[j]) by {
        let c = h.channels[i];
        assert(post.channels[i].sessions =~= c.sessions.push(id));
        let m = post.channels[i].sessions[j];
        if j < c.sessions.len() {
            assert(has_session(h, c.sessions[j]));
            let k = choose|k: int| 0 <= k < ids.len() && ids[k] == m;
            assert(session_ids(post)[k] == m);
        } else {
            assert(m == id);
            assert(session_ids(post)[ids.len() as int] == id);
        }
    }
}

/// The session ids a batch of deliveries is addressed to, in order.
pub open spec fn delivery_targets(ds: Seq<DeliveryV>) -> Seq<u64> {
    ds.map_values(|d: DeliveryV| d.to)
}

/// Membership invariant: in a well-formed hub state — and every command
/// keeps the state well-formed — each id in each channel's member set is a
/// live session, never dangling.
pub proof fn lemma_membership_invariant(h: HubV)
    requires
        wf(h),
    ensures
        members_are_live(h),
{
}

/// Broadcast exclusion: a message posted to a channel is addressed to every
/// member, the sender's own session included, while the connect notice of a
/// join is addressed to every member except the joining session itself.
pub proof fn lemma_broadcast_exclusion(
    h: HubV,
    chan: i64,
    sender: u64,
    m: MessageCreateV,
    client: u64,
)
    requires
        wf(h),
        has_channel(h, chan),
        h.channels[channel_index(h, chan)].sessions.contains(sender),
    ensures
        delivery_targets(message_deliveries(h, chan, m)).contains(sender),
        !delivery_targets(join_deliveries(h, client, chan)).contains(client),
{
    let ci = channel_index(h, chan);
    let members = h.channels[ci].sessions;
    assert(delivery_targets(message_deliveries(h, chan, m)) =~= members);
    if has_session(h, client) {
        let jc = joined_channel(h.channels[ci], client);
        assert(delivery_targets(join_deliveries(h, client, chan)) =~= without_member(
            jc.sessions,
            client,
        ));
        lemma_without_member_contains(jc.sessions, client, client);
    } else {
        assert(delivery_targets(join_deliveries(h, client, chan)) =~= Seq::<u64>::empty());
    }
}

/// Idempotent disconnect: a disconnect removes the id from the session
/// table, so issuing the same disconnect again changes nothing and produces
/// no further farewell broadcast.
pub proof fn lemma_disconnect_idempotent(h: HubV, id: u64)
    requires
        wf(h),
    ensures
        disconnect_post(disconnect_post(h, id), id) == disconnect_post(h, id),
        disconnect_deliveries(disconnect_post(h, id), id) == Seq::<DeliveryV>::empty(),
{
    let p1 = disconnect_post(h, id);
    if has_session(h, id) {
        lemma_ids_of_without(h.sessions, id);
        lemma_without_member_contains(session_ids(h), id, id);
        assert(!has_session(p1, id));
    }
}

/// Identify failure is non-destructive: a failed lookup leaves the hub state
/// — the session's presence and its authentication state included — exactly
/// as it was, and pushes exactly one `BadToken` event to the session; the
/// immediate rejection of a malformed token does the same.
pub proof fn lemma_identify_failure_non_destructive(
    h: HubV,
    id: u64,
    token: Seq<char>,
    roster: Seq<UserV>,
)
    ensures
        identify_finish_post(h, id, None) == h,
        identify_finish_deliveries(h, id, token, None, roster) == seq![
            DeliveryV { to: id, event: EventV::BadToken },
        ],
        has_session(h, id) && !crate::ext::uuid_valid(token) ==> identify_begin_deliveries(
            h,
            id,
            token,
        ) == seq![DeliveryV { to: id, event: EventV::BadToken }],
{
}

/// Channel-create collision: creating a channel whose id already exists
/// returns nothing and leaves the whole table — the existing channel's name
/// and membership included — unchanged.
pub proof fn lemma_create_collision_preserves(
    h: HubV,
    id: i64,
    guild_id: Option<i64>,
    name: Seq<char>,
)
    requires
        has_channel(h, id),
    ensures
        create_channel_post(h, id, guild_id, name) == h,
        channel_create_deliveries(h, id, name) == Seq::<DeliveryV>::empty(),
{
}

/// A channel create preserves well-formedness.
proof fn lemma_create_channel_wf(h: HubV, id: i64, guild_id: Option<i64>, name: Seq<char>)
    requires
        wf(h),
        !has_channel(h, id),
    ensures
        wf(create_channel_post(h, id, guild_id, name)),
{
    let post = create_channel_post(h, id, guild_id, name);
    let cids = channel_ids(h);
    assert(session_ids(post) == session_ids(h));
    assert(channel_ids(post) =~= cids.push(id));
    assert(channel_ids(post).no_duplicates()) by {
        assert forall|p: int, q: int|
            0 <= p < q < cids.len() + 1 implies cids.push(id)[p] != cids.push(id)[q] by {
            if q == cids.len() {
                assert(!cids.contains(cids[p]) || cids[p] != id);
            }
        }
    }
    assert forall|i: int| 0 <= i < post.channels.len() implies (#[trigger] post.channels[i])
        .sessions
        .no_duplicates() by {
        if i == h.channels.len() {
            assert(post.channels[i].sessions == session_ids(h));
        }
    }
    assert forall|i: int, j: int|
        0 <= i < post.channels.len() && 0 <= j < post.channels[i].sessions.len() implies
        has_session(post, #[trigger] post.channels[i].sessions[j]) by {
        if i < h.channels.len() {
            assert(has_session(h, h.channels[i].sessions[j]));
        } else {
            assert(post.channels[i].sessions == session_ids(h));
            assert(session_ids(h).contains(session_ids(h)[j]));
        }
    }
}

/// A join preserves well-formedness.
proof fn lemma_join_wf(h: HubV, client: u64, chan: i64)
    requires
        wf(h),
    ensures
        wf(join_post(h, client, chan)),
{
    if has_channel(h, chan) && has_session(h, client) {
        let ci = channel_index(h, chan);
        assert(0 <= ci < h.channels.len() && h.channels[ci].id == chan) by {
            let j = choose|j: int| 0 <= j < channel_ids(h).len() && channel_ids(h)[j] == chan;
            assert(h.channels[j].id == chan);
        }
        let post = join_post(h, client, chan);
        assert(session_ids(post) == session_ids(h));
        assert(channel_ids(post) =~= channel_ids(h));
        let c = h.channels[ci];
        let jc = joined_channel(c, client);
        assert forall|i: int| 0 <= i < post.channels.len() implies (#[trigger] post.channels[i])
            .sessions
            .no_duplicates() by {
            if i == ci && !c.sessions.contains(client) {
                assert(jc.sessions =~= c.sessions.push(client));
                assert forall|p: int, q: int|
                    0 <= p < q < c.sessions.len() + 1 implies c.sessions.push(client)[p]
                    != c.sessions.push(client)[q] by {
                    if q == c.sessions.len() {
                        assert(!c.sessions.contains(c.sessions[p]) || c.sessions[p] != client);
                    }
                }
            }
        }
        assert forall|i: int, j: int|
            0 <= i < post.channels.len() && 0 <= j < post.channels[i].sessions.len() implies
            has_session(post, #[trigger] post.channels[i].sessions[j]) by {
            if i == ci {
                if j < c.sessions.len() {
                    assert(post.channels[i].sessions[j] == c.sessions[j]);
                    assert(has_session(h, c.sessions[j]));
                } else {
                    assert(post.channels[i].sessions[j] == client);
                }
            } else {
                assert(has_session(h, h.channels[i].sessions[j]));
            }
        }
    }
}

/// A disconnect preserves well-formedness.
proof fn lemma_disconnect_wf(h: HubV, id: u64)
    requires
        wf(h),
    ensures
        wf(disconnect_post(h, id)),
{
    if has_session(h, id) {
        let post = disconnect_post(h, id);
        let ids = session_ids(h);
        lemma_ids_of_without(h.sessions, id);
        assert(session_ids(post) == without_member(ids, id));
        lemma_without_member_no_duplicates(ids, id);
        assert(channel_ids(post) =~= channel_ids(h));
        assert forall|i: int| 0 <= i < post.channels.len() implies (#[trigger] post.channels[i])
            .sessions
            .no_duplicates() by {
            assert(post.channels[i].sessions == without_member(h.channels[i].sessions, id));
            lemma_without_member_no_duplicates(h.channels[i].sessions, id);
        }
        assert forall|i: int, j: int|
            0 <= i < post.channels.len() && 0 <= j < post.channels[i].sessions.len() implies
            has_session(post, #[trigger] post.channels[i].sessions[j]) by {
            let m = post.channels[i].sessions[j];
            assert(post.channels[i].sessions == without_member(h.channels[i].sessions, id));
            lemma_without_member_contains(h.channels[i].sessions, id, m);
            assert(h.channels[i].sessions.contains(m) && m != id);
            let jj = choose|jj: int|
                0 <= jj < h.channels[i].sessions.len() && h.channels[i].sessions[jj] == m;
            assert(has_session(h, h.channels[i].sessions[jj]));
            lemma_without_member_contains(ids, id, m);
        }
        let idx = choose|idx: int| 0 <= idx < ids.len() && ids[idx] == id;
        assert forall|i: int|
            0 <= i < h.sessions.len() && i != idx implies (#[trigger] h.sessions[i]).id != id by {
            assert(ids[i] == h.sessions[i].id);
            assert(ids[i] != ids[idx]);
        }
        assert(h.sessions[idx].id == id);
        lemma_sessions_without_is_remove(h.sessions, id, idx);
        assert(post.sessions.len() == h.sessions.len() - 1);
    }
}

} // verus!

