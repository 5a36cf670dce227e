//! Encoding of outbound events into wire text. Every event except `Custom`
//! becomes a JSON envelope `{"d": <payload>, "op": <opcode>}` whose object
//! keys are emitted in lexicographic order; `Custom` is sent bare.

use vstd::prelude::*;
use vstd::string::StrSliceExecFns;
use vstd::string::StringExecFns;

use crate::events::{Event, EventV, User, UserV};
use crate::ext::push_char;
use crate::hub::{Channel, ChannelV};
use crate::protocol::opcode_value;

verus! {

/// The character for one decimal digit.
pub open spec fn digit_char(d: nat) -> char {
    if d == 0 {
        '0'
    } else if d == 1 {
        '1'
    } else if d == 2 {
        '2'
    } else if d == 3 {
        '3'
    } else if d == 4 {
        '4'
    } else if d == 5 {
        '5'
    } else if d == 6 {
        '6'
    } else if d == 7 {
        '7'
    } else if d == 8 {
        '8'
    } else {
        '9'
    }
}

/// The character for one lowercase hexadecimal digit.
pub open spec fn hex_char(d: nat) -> char {
    if d < 10 {
        digit_char(d)
    } else if d == 10 {
        'a'
    } else if d == 11 {
        'b'
    } else if d == 12 {
        'c'
    } else if d == 13 {
        'd'
    } else if d == 14 {
        'e'
    } else {
        'f'
    }
}

/// The decimal notation of a natural number, most significant digit first.
pub open spec fn dec_nat(n: nat) -> Seq<char>
    decreases n,
{
    if n < 10 {
        seq![digit_char(n)]
    } else {
        dec_nat(n / 10) + seq![digit_char(n % 10)]
    }
}

/// The decimal notation of an integer: a minus sign for negative values,
/// then the digits of the magnitude.
pub open spec fn dec_int(n: int) -> Seq<char> {
    if n >= 0 {
        dec_nat(n as nat)
    } else {
        seq!['-'] + dec_nat((-n) as nat)
    }
}

fn digit_to_char(d: u64) -> (r: char)
    requires
        d < 10,
    ensures
        r == digit_char(d as nat),
{
    match d {
        0 => '0',
        1 => '1',
        2 => '2',
        3 => '3',
        4 => '4',
        5 => '5',
        6 => '6',
        7 => '7',
        8 => '8',
        _ => '9',
    }
}

fn hex_to_char(d: u32) -> (r: char)
    requires
        d < 16,
    ensures
        r == hex_char(d as nat),
{
    match d {
        0 => '0',
        1 => '1',
        2 => '2',
        3 => '3',
        4 => '4',
        5 => '5',
        6 => '6',
        7 => '7',
        8 => '8',
        9 => '9',
        10 => 'a',
        11 => 'b',
        12 => 'c',
        13 => 'd',
        14 => 'e',
        _ => 'f',
    }
}

/// Appends the decimal notation of `n`.
pub fn push_dec_u64(out: &mut String, n: u64)
    ensures
        final(out)@ == old(out)@ + dec_nat(n as nat),
    decreases n,
{
    if n >= 10 {
        push_dec_u64(out, n / 10);
    }
    let d = digit_to_char(n % 10);
    push_char(out, d);
    proof {
        if n >= 10 {
            assert(old(out)@ + dec_nat(n as nat) =~= (old(out)@ + dec_nat((n / 10) as nat)).push(
                digit_char((n % 10) as nat),
            ));
        } else {
            assert(old(out)@ + dec_nat(n as nat) =~= old(out)@.push(digit_char(n as nat)));
        }
    }
}

/// Appends the decimal notation of `n`, minus sign included.
pub fn push_dec_i64(out: &mut String, n: i64)
    ensures
        final(out)@ == old(out)@ + dec_int(n as int),
{
    if n >= 0 {
        push_dec_u64(out, n as u64);
    } else {
        push_char(out, '-');
        let m: u64 = ((-(n + 1)) as u64) + 1;
        assert(m as nat == (-(n as int)) as nat);
        push_dec_u64(out, m);
        proof {
            assert(old(out)@ + dec_int(n as int) =~= old(out)@.push('-') + dec_nat(
                (-(n as int)) as nat,
            ));
        }
    }
}

/// How one character is written inside a JSON string: quote and backslash are
/// escaped, control characters take their short escape or a `\u00..` escape,
/// everything else stands for itself.
pub open spec fn escape_char(c: char) -> Seq<char> {
    if c == '"' {
        "\\\""@
    } else if c == '\\' {
        "\\\\"@
    } else if c == '\u{8}' {
        "\\b"@
    } else if c == '\t' {
        "\\t"@
    } else if c == '\n' {
        "\\n"@
    } else if c == '\u{c}' {
        "\\f"@
    } else if c == '\r' {
        "\\r"@
    } else if (c as u32) < 32 {
        "\\u00"@ + seq![hex_char((c as u32 / 16) as nat), hex_char((c as u32 % 16) as nat)]
    } else {
        seq![c]
    }
}

/// A string's characters written with every character escaped as JSON asks.
pub open spec fn escape_str(s: Seq<char>) -> Seq<char>
    decreases s.len(),
{
    if s.len() == 0 {
        Seq::empty()
    } else {
        escape_str(s.drop_last()) + escape_char(s.last())
    }
}

/// A JSON string literal: quotes around the escaped characters.
pub open spec fn json_string(s: Seq<char>) -> Seq<char> {
    "\""@ + escape_str(s) + "\""@
}

fn push_escaped_char(out: &mut String, c: char)
    ensures
        final(out)@ == old(out)@ + escape_char(c),
{
    if c == '"' {
        out.append("\\\"");
    } else if c == '\\' {
        out.append("\\\\");
    } else if c == '\u{8}' {
        out.append("\\b");
    } else if c == '\t' {
        out.append("\\t");
    } else if c == '\n' {
        out.append("\\n");
    } else if c == '\u{c}' {
        out.append("\\f");
    } else if c == '\r' {
        out.append("\\r");
    } else {
        let cv = c as u32;
        if cv < 32 {
            out.append("\\u00");
            let h = hex_to_char(cv / 16);
            push_char(out, h);
            let l = hex_to_char(cv % 16);
            push_char(out, l);
            proof {
                assert(old(out)@ + escape_char(c) =~= ((old(out)@ + "\\u00"@).push(
                    hex_char((c as u32 / 16) as nat),
                )).push(hex_char((c as u32 % 16) as nat)));
            }
        } else {
            push_char(out, c);
            proof {
                assert(old(out)@ + escape_char(c) =~= old(out)@.push(c));
            }
        }
    }
}

/// Appends `s` with JSON escaping, quotes not included.
pub fn push_escaped(out: &mut String, s: &str)
    ensures
        final(out)@ == old(out)@ + escape_str(s@),
{
    let len = s.unicode_len();
    let mut i: usize = 0;
    while i < len
        invariant
            i <= len,
            len == s@.len(),
            out@ == old(out)@ + escape_str(s@.take(i as int)),
        decreases len - i,
    {
        let c = s.get_char(i);
        push_escaped_char(out, c);
        proof {
            let t = s@.take(i + 1);
            assert(t.drop_last() =~= s@.take(i as int));
            assert(t.last() == s@[i as int]);
            assert(old(out)@ + escape_str(s@.take(i as int)) + escape_char(s@[i as int]) =~= old(
                out,
            )@ + escape_str(t));
        }
        i = i + 1;
    }
    proof {
        assert(s@.take(s@.len() as int) =~= s@);
    }
}

/// Appends `s` as a JSON string literal.
pub fn push_json_string(out: &mut String, s: &str)
    ensures
        final(out)@ == old(out)@ + json_string(s@),
{
    out.append("\"");
    push_escaped(out, s);
    out.append("\"");
    proof {
        assert(old(out)@ + json_string(s@) =~= old(out)@ + "\""@ + escape_str(s@) + "\""@);
    }
}

/// An optional string: `null` when absent, a JSON string otherwise.
pub open spec fn json_opt_string(s: Option<Seq<char>>) -> Seq<char> {
    match s {
        Some(s) => json_string(s),
        None => "null"@,
    }
}

/// An optional integer: `null` when absent, decimal notation otherwise.
pub open spec fn json_opt_i64(n: Option<i64>) -> Seq<char> {
    match n {
        Some(n) => dec_int(n as int),
        None => "null"@,
    }
}

/// A user object; keys in lexicographic order.
pub open spec fn user_json(u: UserV) -> Seq<char> {
    "{\"avatar\":"@ + json_opt_string(u.avatar) + ",\"id\":"@ + dec_int(u.id as int)
        + ",\"joined\":"@ + dec_nat(u.joined as nat) + ",\"username\":"@ + json_string(u.username)
        + "}"@
}

/// A channel object; the member-session list is not part of the wire form.
pub open spec fn channel_json(c: ChannelV) -> Seq<char> {
    "{\"guild_id\":"@ + json_opt_i64(c.guild_id) + ",\"id\":"@ + dec_int(c.id as int)
        + ",\"name\":"@ + json_string(c.name) + "}"@
}

/// The comma-separated bodies of a list of channels.
pub open spec fn channel_list_body(s: Seq<ChannelV>) -> Seq<char>
    decreases s.len(),
{
    if s.len() == 0 {
        Seq::empty()
    } else if s.len() == 1 {
        channel_json(s[0])
    } else {
        channel_list_body(s.drop_last()) + ","@ + channel_json(s.last())
    }
}

/// A JSON array of channel objects.
pub open spec fn channel_list_json(s: Seq<ChannelV>) -> Seq<char> {
    "["@ + channel_list_body(s) + "]"@
}

/// The comma-separated bodies of a list of users.
pub open spec fn user_list_body(s: Seq<UserV>) -> Seq<char>
    decreases s.len(),
{
    if s.len() == 0 {
        Seq::empty()
    } else if s.len() == 1 {
        user_json(s[0])
    } else {
        user_list_body(s.drop_last()) + ","@ + user_json(s.last())
    }
}

/// A JSON array of user objects.
pub open spec fn user_list_json(s: Seq<UserV>) -> Seq<char> {
    "["@ + user_list_body(s) + "]"@
}

fn push_opt_string(out: &mut String, s: &Option<String>)
    ensures
        final(out)@ == old(out)@ + json_opt_string(s.deep_view()),
{
    match s {
        Some(s) => push_json_string(out, s.as_str()),
        None => out.append("null"),
    }
}

/// Appends a user object.
pub fn push_user(out: &mut String, u: &User)
    ensures
        final(out)@ == old(out)@ + user_json(u@),
{
    out.append("{\"avatar\":");
    push_opt_string(out, &u.avatar);
    out.append(",\"id\":");
    push_dec_i64(out, u.id);
    out.append(",\"joined\":");
    push_dec_u64(out, u.joined);
    out.append(",\"username\":");
    push_json_string(out, u.username.as_str());
    out.append("}");
    proof {
        assert(out@ =~= old(out)@ + user_json(u@));
    }
}

/// Appends a channel object.
pub fn push_channel(out: &mut String, c: &Channel)
    ensures
        final(out)@ == old(out)@ + channel_json(c@),
{
    out.append("{\"guild_id\":");
    match &c.guild_id {
        Some(g) => push_dec_i64(out, *g),
        None => out.append("null"),
    }
    out.append(",\"id\":");
    push_dec_i64(out, c.id);
    out.append(",\"name\":");
    push_json_string(out, c.name.as_str());
    out.append("}");
    proof {
        assert(out@ =~= old(out)@ + channel_json(c@));
    }
}

/// Appends a JSON array of channel objects.
pub fn push_channel_list(out: &mut String, cs: &Vec<Channel>)
    ensures
        final(out)@ == old(out)@ + channel_list_json(cs.deep_view()),
{
    out.append("[");
    let ghost vs = cs.deep_view();
    let mut i: usize = 0;
    while i < cs.len()
        invariant
            i <= cs.len(),
            vs == cs.deep_view(),
            vs.len() == cs.len(),
            out@ == old(out)@ + "["@ + channel_list_body(vs.take(i as int)),
        decreases cs.len() - i,
    {
        if i > 0 {
            out.append(",");
        }
        push_channel(out, &cs[i]);
        proof {
            let t = vs.take(i + 1);
            assert(t.drop_last() =~= vs.take(i as int));
            assert(t.last() == vs[i as int]);
            if i == 0 {
                assert(channel_list_body(t) == channel_json(vs[0]));
                assert(out@ =~= old(out)@ + "["@ + channel_list_body(t));
            } else {
                assert(channel_list_body(t) == channel_list_body(vs.take(i as int)) + ","@
                    + channel_json(vs[i as int]));
                assert(out@ =~= old(out)@ + "["@ + channel_list_body(t));
            }
        }
        i = i + 1;
    }
    out.append("]");
    proof {
        assert(vs.take(vs.len() as int) =~= vs);
        assert(out@ =~= old(out)@ + channel_list_json(vs));
    }
}

/// Appends a JSON array of user objects.
pub fn push_user_list(out: &mut String, us: &Vec<User>)
    ensures
        final(out)@ == old(out)@ + user_list_json(us.deep_view()),
{
    out.append("[");
    let ghost vs = us.deep_view();
    let mut i: usize = 0;
    while i < us.len()
        invariant
            i <= us.len(),
            vs == us.deep_view(),
            vs.len() == us.len(),
            out@ == old(out)@ + "["@ + user_list_body(vs.take(i as int)),
        decreases us.len() - i,
    {
        if i > 0 {
            out.append(",");
        }
        push_user(out, &us[i]);
        proof {
            let t = vs.take(i + 1);
            assert(t.drop_last() =~= vs.take(i as int));
            assert(t.last() == vs[i as int]);
            if i == 0 {
                assert(user_list_body(t) == user_json(vs[0]));
                assert(out@ =~= old(out)@ + "["@ + user_list_body(t));
            } else {
                assert(user_list_body(t) == user_list_body(vs.take(i as int)) + ","@ + user_json(
                    vs[i as int],
                ));
                assert(out@ =~= old(out)@ + "["@ + user_list_body(t));
            }
        }
        i = i + 1;
    }
    out.append("]");
    proof {
        assert(vs.take(vs.len() as int) =~= vs);
        assert(out@ =~= old(out)@ + user_list_json(vs));
    }
}

/// The payload (`"d"` member) of an event's envelope.
pub open spec fn payload_json(e: EventV) -> Seq<char> {
    match e {
        EventV::ChannelCreate(p) => "{\"id\":"@ + dec_int(p.id as int) + ",\"name\":"@
            + json_string(p.name) + "}"@,
        EventV::MessageCreate(p) => "{\"author\":"@ + user_json(p.author) + ",\"channel_id\":"@
            + dec_int(p.channel_id as int) + ",\"content\":"@ + json_string(p.content) + ",\"id\":"@
            + dec_int(p.id as int) + "}"@,
        EventV::Ready(p) => "{\"channels\":"@ + channel_list_json(p.channels) + ",\"user\":"@
            + user_json(p.user) + ",\"users\":"@ + user_list_json(p.users) + "}"@,
        EventV::BadToken => json_string(Seq::empty()),
        EventV::Hello => json_string(Seq::empty()),
        EventV::SetToken(t) => json_string(t),
        EventV::Custom(m) => json_string(m),
    }
}

/// The full envelope of an event; keys in lexicographic order.
pub open spec fn envelope_json(e: EventV) -> Seq<char> {
    "{\"d\":"@ + payload_json(e) + ",\"op\":"@ + dec_nat(
        opcode_value(crate::events::event_opcode(e)) as nat,
    ) + "}"@
}

/// The exact text a session writes to the transport for an event: the bare
/// payload for `Custom`, the JSON envelope for everything else.
pub open spec fn outbound_text_spec(e: EventV) -> Seq<char> {
    match e {
        EventV::Custom(m) => m,
        _ => envelope_json(e),
    }
}

fn push_payload(out: &mut String, e: &Event)
    ensures
        final(out)@ == old(out)@ + payload_json(e@),
{
    match e {
        Event::ChannelCreate(p) => {
            out.append("{\"id\":");
            push_dec_i64(out, p.id);
            out.append(",\"name\":");
            push_json_string(out, p.name.as_str());
            out.append("}");
            proof {
                assert(out@ =~= old(out)@ + payload_json(e@));
            }
        },
        Event::MessageCreate(p) => {
            out.append("{\"author\":");
            push_user(out, &p.author);
            out.append(",\"channel_id\":");
            push_dec_i64(out, p.channel_id);
            out.append(",\"content\":");
            push_json_string(out, p.content.as_str());
            out.append(",\"id\":");
            push_dec_i64(out, p.id);
            out.append("}");
            proof {
                assert(out@ =~= old(out)@ + payload_json(e@));
            }
        },
        Event::Ready(p) => {
            out.append("{\"channels\":");
            push_channel_list(out, &p.channels);
            out.append(",\"user\":");
            push_user(out, &p.user);
            out.append(",\"users\":");
            push_user_list(out, &p.users);
            out.append("}");
            proof {
                assert(out@ =~= old(out)@ + payload_json(e@));
            }
        },
        Event::BadToken => {
            out.append("\"\"");
            proof {
                reveal_strlit("\"\"");
                reveal_strlit("\"");
                assert("\"\""@ =~= json_string(Seq::empty()));
            }
        },
        Event::Hello => {
            out.append("\"\"");
            proof {
                reveal_strlit("\"\"");
                reveal_strlit("\"");
                assert("\"\""@ =~= json_string(Seq::empty()));
            }
        },
        Event::SetToken(t) => {
            push_json_string(out, t.as_str());
        },
        Event::Custom(m) => {
            push_json_string(out, m.as_str());
        },
    }
}

/// Encodes an event into the exact text written to the transport.
pub fn outbound_text(e: &Event) -> (r: String)
    ensures
        r@ == outbound_text_spec(e@),
{
    match e {
        Event::Custom(m) => m.clone(),
        _ => {
            let mut out = String::new();
            out.append("{\"d\":");
            push_payload(&mut out, e);
            out.append(",\"op\":");
            let op = e.opcode();
            push_dec_u64(&mut out, op.value() as u64);
            out.append("}");
            proof {
                assert(out@ =~= envelope_json(e@));
            }
            out
        },
    }
}

} // verus!
