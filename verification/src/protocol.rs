//! The wire envelope protocol: the closed set of opcodes and the rules for
//! interpreting an inbound `{"op": <integer>, "d": <payload>}` envelope.

use vstd::prelude::*;

verus! {

/// Small-integer tag identifying an envelope's payload type.
#[derive(Clone, Copy, PartialEq, Eq, Structural, Debug)]
pub enum Opcode {
    Identify,
    Ready,
    MessageCreate,
    ChannelCreate,
    Custom,
}

/// The stable wire value of each opcode.
pub open spec fn opcode_value(op: Opcode) -> u8 {
    match op {
        Opcode::Identify => 0,
        Opcode::Ready => 1,
        Opcode::MessageCreate => 2,
        Opcode::ChannelCreate => 3,
        Opcode::Custom => 4,
    }
}

/// The opcode an inbound `op` field denotes, if any. `Custom` is an
/// outbound-only tag, so its value is rejected on the way in.
pub open spec fn opcode_of(n: u64) -> Option<Opcode> {
    if n == 0 {
        Some(Opcode::Identify)
    } else if n == 1 {
        Some(Opcode::Ready)
    } else if n == 2 {
        Some(Opcode::MessageCreate)
    } else if n == 3 {
        Some(Opcode::ChannelCreate)
    } else {
        None
    }
}

impl Opcode {
    /// The integer this opcode is written as on the wire.
    pub fn value(&self) -> (r: u8)
        ensures
            r == opcode_value(*self),
    {
        match self {
            Opcode::Identify => 0,
            Opcode::Ready => 1,
            Opcode::MessageCreate => 2,
            Opcode::ChannelCreate => 3,
            Opcode::Custom => 4,
        }
    }

    /// Decodes an inbound `op` field; unknown values are rejected.
    pub fn from_u64(n: u64) -> (r: Option<Opcode>)
        ensures
            r == opcode_of(n),
    {
        if n == 0 {
            Some(Opcode::Identify)
        } else if n == 1 {
            Some(Opcode::Ready)
        } else if n == 2 {
            Some(Opcode::MessageCreate)
        } else if n == 3 {
            Some(Opcode::ChannelCreate)
        } else {
            None
        }
    }
}

impl Opcode {
    /// Decodes the `op` member of an envelope as `serde_json` extracted it:
    /// present, an integer, and a known inbound opcode, or nothing.
    pub fn from_json(value: Option<&serde_json::Value>) -> (r: Option<Opcode>)
        ensures
            value is None ==> r is None,
            r matches Some(op) ==> exists|n: u64| opcode_of(n) == Some(op),
    {
        match value {
            None => None,
            Some(v) => match crate::ext::json_as_u64(v) {
                None => None,
                Some(n) => {
                    let r = Opcode::from_u64(n);
                    proof {
                        if r is Some {
                            assert(opcode_of(n) == r);
                        }
                    }
                    r
                },
            },
        }
    }
}

/// Why an inbound frame was rejected. Every rejection is fatal to the one
/// connection: the message is reported to the peer and the connection ends.
#[derive(Clone, Copy, PartialEq, Eq, Structural, Debug)]
pub enum ParseError {
    /// The frame is not valid JSON.
    InvalidJson,
    /// The `op` member is missing, not an integer, or not a known opcode.
    NoOpcode,
    /// The `d` member is missing.
    NoData,
    /// An `Identify` payload without a string `token` member.
    NoToken,
}

/// The diagnostic text reported to the peer for a rejected frame.
pub open spec fn parse_error_message(e: ParseError) -> Seq<char> {
    match e {
        ParseError::InvalidJson => "invalid json"@,
        ParseError::NoOpcode => "no opcode"@,
        ParseError::NoData => "no data"@,
        ParseError::NoToken => "no token"@,
    }
}

impl ParseError {
    /// The diagnostic text reported to the peer.
    pub fn message(&self) -> (r: String)
        ensures
            r@ == parse_error_message(*self),
    {
        let mut out = String::new();
        match self {
            ParseError::InvalidJson => out.append("invalid json"),
            ParseError::NoOpcode => out.append("no opcode"),
            ParseError::NoData => out.append("no data"),
            ParseError::NoToken => out.append("no token"),
        }
        proof {
            assert(out@ =~= parse_error_message(*self));
        }
        out
    }
}

/// What a session does with one inbound text frame.
pub enum EnvelopeAction {
    /// A well-formed `Identify`: forward the token to the hub.
    Forward(String),
    /// A well-formed envelope with a known opcode that carries no inbound
    /// behavior: do nothing.
    Ignore,
    /// A malformed frame: report the error and end the connection.
    Reject(ParseError),
}

#[verifier::ext_equal]
pub enum EnvelopeActionV {
    Forward(Seq<char>),
    Ignore,
    Reject(ParseError),
}

impl View for EnvelopeAction {
    type V = EnvelopeActionV;

    open spec fn view(&self) -> EnvelopeActionV {
        match self {
            EnvelopeAction::Forward(t) => EnvelopeActionV::Forward(t@),
            EnvelopeAction::Ignore => EnvelopeActionV::Ignore,
            EnvelopeAction::Reject(e) => EnvelopeActionV::Reject(*e),
        }
    }
}

/// The envelope rule: what follows from the extracted `op` value, the
/// presence of `d`, and the `token` member of `d`. The opcode is checked
/// first, then the payload, then — for `Identify` only — the token.
pub open spec fn envelope_action(
    op: Option<u64>,
    has_data: bool,
    token: Option<Seq<char>>,
) -> EnvelopeActionV {
    match op {
        None => EnvelopeActionV::Reject(ParseError::NoOpcode),
        Some(n) => match opcode_of(n) {
            None => EnvelopeActionV::Reject(ParseError::NoOpcode),
            Some(code) => if !has_data {
                EnvelopeActionV::Reject(ParseError::NoData)
            } else if code == Opcode::Identify {
                match token {
                    None => EnvelopeActionV::Reject(ParseError::NoToken),
                    Some(t) => EnvelopeActionV::Forward(t),
                }
            } else {
                EnvelopeActionV::Ignore
            },
        },
    }
}

/// Applies the envelope rule to the extracted members of a frame.
pub fn interpret_envelope(op: Option<u64>, has_data: bool, token: Option<String>) -> (r:
    EnvelopeAction)
    ensures
        r@ == envelope_action(op, has_data, token.deep_view()),
{
    let n = match op {
        None => {
            return EnvelopeAction::Reject(ParseError::NoOpcode);
        },
        Some(n) => n,
    };
    let code = match Opcode::from_u64(n) {
        None => {
            return EnvelopeAction::Reject(ParseError::NoOpcode);
        },
        Some(code) => code,
    };
    if !has_data {
        return EnvelopeAction::Reject(ParseError::NoData);
    }
    if code.value() == 0 {
        match token {
            None => EnvelopeAction::Reject(ParseError::NoToken),
            Some(t) => EnvelopeAction::Forward(t),
        }
    } else {
        EnvelopeAction::Ignore
    }
}

/// Decodes one inbound text frame: parses it as JSON, extracts the `op`,
/// `d`, and `token` members, and applies the envelope rule. Text that is not
/// valid JSON is rejected outright; everything else is answered exactly as
/// the envelope rule decides on what `serde_json` extracted from the text.
pub fn decode_text(text: &str) -> (r: EnvelopeAction)
    ensures
        !crate::ext::json_well_formed(text@) ==> r@ == EnvelopeActionV::Reject(
            ParseError::InvalidJson,
        ),
        crate::ext::json_well_formed(text@) ==> r@ == envelope_action(
            crate::ext::envelope_op_of(text@),
            crate::ext::envelope_has_d(text@),
            crate::ext::envelope_token_of(text@),
        ),
{
    let (well_formed, op, has_data, token) = crate::ext::extract_envelope(text);
    if !well_formed {
        return EnvelopeAction::Reject(ParseError::InvalidJson);
    }
    interpret_envelope(op, has_data, token)
}

} // verus!
