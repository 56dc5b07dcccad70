//! Call-signalling messages and the admission of client frames.

use vstd::prelude::*;

use crate::text::same_text;

verus! {

/// The discriminator of a call signal.
#[derive(Clone, Copy, Debug, PartialEq, Eq, Structural)]
pub enum SignalType {
    Offer,
    Answer,
    Ice,
    Join,
    Leave,
}

/// The wire tag of each signal type.
pub open spec fn tag_of(t: SignalType) -> Seq<char> {
    match t {
        SignalType::Offer => seq!['o', 'f', 'f', 'e', 'r'],
        SignalType::Answer => seq!['a', 'n', 's', 'w', 'e', 'r'],
        SignalType::Ice => seq!['i', 'c', 'e'],
        SignalType::Join => seq!['j', 'o', 'i', 'n'],
        SignalType::Leave => seq!['l', 'e', 'a', 'v', 'e'],
    }
}

/// The signal type whose wire tag is `tag`, if any.
pub open spec fn type_of_tag(tag: Seq<char>) -> Option<SignalType> {
    if tag == tag_of(SignalType::Offer) {
        Some(SignalType::Offer)
    } else if tag == tag_of(SignalType::Answer) {
        Some(SignalType::Answer)
    } else if tag == tag_of(SignalType::Ice) {
        Some(SignalType::Ice)
    } else if tag == tag_of(SignalType::Join) {
        Some(SignalType::Join)
    } else if tag == tag_of(SignalType::Leave) {
        Some(SignalType::Leave)
    } else {
        None
    }
}

/// The signal type a client may send under tag `tag`: only call setup
/// (`offer`, `answer`, `ice`). `join` and `leave` are announced by the relay
/// itself, once per connection, and never taken from a client.
pub open spec fn client_type_of_tag(tag: Seq<char>) -> Option<SignalType> {
    match type_of_tag(tag) {
        Some(SignalType::Join) => None,
        Some(SignalType::Leave) => None,
        other => other,
    }
}

proof fn lemma_tag_literals()
    ensures
        "offer"@ == tag_of(SignalType::Offer),
        "answer"@ == tag_of(SignalType::Answer),
        "ice"@ == tag_of(SignalType::Ice),
        "join"@ == tag_of(SignalType::Join),
        "leave"@ == tag_of(SignalType::Leave),
{
    reveal_strlit("offer");
    reveal_strlit("answer");
    reveal_strlit("ice");
    reveal_strlit("join");
    reveal_strlit("leave");
    assert("offer"@ =~= tag_of(SignalType::Offer));
    assert("answer"@ =~= tag_of(SignalType::Answer));
    assert("ice"@ =~= tag_of(SignalType::Ice));
    assert("join"@ =~= tag_of(SignalType::Join));
    assert("leave"@ =~= tag_of(SignalType::Leave));
}

/// Every signal type is read back from its own wire tag.
pub proof fn lemma_tag_round_trip(t: SignalType)
    ensures
        type_of_tag(tag_of(t)) == Some(t),
{
    assert(tag_of(SignalType::Offer) != tag_of(SignalType::Answer));
    assert(tag_of(SignalType::Offer) != tag_of(SignalType::Ice));
    assert(tag_of(SignalType::Offer) != tag_of(SignalType::Join));
    assert(tag_of(SignalType::Offer) != tag_of(SignalType::Leave));
    assert(tag_of(SignalType::Answer) != tag_of(SignalType::Ice));
    assert(tag_of(SignalType::Answer) != tag_of(SignalType::Join));
    assert(tag_of(SignalType::Answer) != tag_of(SignalType::Leave));
    assert(tag_of(SignalType::Ice) != tag_of(SignalType::Join));
    assert(tag_of(SignalType::Ice) != tag_of(SignalType::Leave));
    assert(tag_of(SignalType::Join)[0] != tag_of(SignalType::Leave)[0]);
}

impl SignalType {
    /// Decodes a wire tag; unknown tags give `None`.
    pub fn from_tag(tag: &str) -> (r: Option<SignalType>)
        ensures
            r == type_of_tag(tag@),
    {
        proof {
            lemma_tag_literals();
        }
        if same_text(tag, "offer") {
            Some(SignalType::Offer)
        } else if same_text(tag, "answer") {
            Some(SignalType::Answer)
        } else if same_text(tag, "ice") {
            Some(SignalType::Ice)
        } else if same_text(tag, "join") {
            Some(SignalType::Join)
        } else if same_text(tag, "leave") {
            Some(SignalType::Leave)
        } else {
            None
        }
    }

    /// The wire tag of this signal type.
    pub fn tag(&self) -> (r: String)
        ensures
            r@ == tag_of(*self),
    {
        proof {
            lemma_tag_literals();
        }
        match self {
            SignalType::Offer => String::from_str("offer"),
            SignalType::Answer => String::from_str("answer"),
            SignalType::Ice => String::from_str("ice"),
            SignalType::Join => String::from_str("join"),
            SignalType::Leave => String::from_str("leave"),
        }
    }
}

/// A call-signalling message as relayed between the members of a conversation.
#[derive(Clone, Debug)]
pub struct CallSignal {
    pub conversation_id: String,
    pub from_user_id: String,
    /// The intended recipient; `None` addresses the whole conversation.
    pub to_user_id: Option<String>,
    pub signal_type: SignalType,
    pub sdp: Option<String>,
    /// The ICE candidate as JSON text, carried through untouched.
    pub candidate: Option<String>,
}

/// A signal as decoded from a client frame, before any field is trusted.
#[derive(Clone, Debug)]
pub struct InboundSignal {
    pub conversation_id: Option<String>,
    pub from_user_id: Option<String>,
    pub to_user_id: Option<String>,
    pub signal_type: String,
    pub sdp: Option<String>,
    pub candidate: Option<String>,
}

/// `s` is the synthetic announcement of kind `kind` for `identity` in `conv`.
pub open spec fn is_announcement(
    s: CallSignal,
    kind: SignalType,
    identity: Seq<char>,
    conv: Seq<char>,
) -> bool {
    &&& s.conversation_id@ == conv
    &&& s.from_user_id@ == identity
    &&& s.to_user_id is None
    &&& s.signal_type == kind
    &&& s.sdp is None
    &&& s.candidate is None
}

/// `s` carries the payload of frame `f`, with its sender and conversation
/// replaced by the authenticated `identity` and the bound `conv`.
pub open spec fn is_rebound(s: CallSignal, f: InboundSignal, identity: Seq<char>, conv: Seq<char>) -> bool {
    &&& s.conversation_id@ == conv
    &&& s.from_user_id@ == identity
    &&& client_type_of_tag(f.signal_type@) == Some(s.signal_type)
    &&& s.to_user_id == f.to_user_id
    &&& s.sdp == f.sdp
    &&& s.candidate == f.candidate
}

/// Whether a connection of `identity` bound to `conv` is to be shown `s`:
/// never its own signals, never those of another conversation.
pub open spec fn deliverable(s: CallSignal, identity: Seq<char>, conv: Seq<char>) -> bool {
    s.from_user_id@ != identity && s.conversation_id@ == conv
}

impl CallSignal {
    /// The synthetic `kind` signal that announces `identity` in `conv`.
    pub fn announcement(kind: SignalType, identity: &String, conv: &String) -> (r: CallSignal)
        ensures
            is_announcement(r, kind, identity@, conv@),
    {
        CallSignal {
            conversation_id: conv.clone(),
            from_user_id: identity.clone(),
            to_user_id: None,
            signal_type: kind,
            sdp: None,
            candidate: None,
        }
    }

    /// Accepts a client frame sent on a connection authenticated as `identity`
    /// and bound to `conv`. Whatever sender and conversation the client wrote
    /// are replaced. A frame of unknown type, or one that claims to be a
    /// `join` or a `leave`, is dropped.
    pub fn from_client(frame: InboundSignal, identity: &String, conv: &String) -> (r: Option<CallSignal>)
        ensures
            r is Some <==> (type_of_tag(frame.signal_type@) matches Some(t) && t != SignalType::Join
                && t != SignalType::Leave),
            r is Some <==> client_type_of_tag(frame.signal_type@) is Some,
            r matches Some(s) ==> is_rebound(s, frame, identity@, conv@),
    {
        match SignalType::from_tag(frame.signal_type.as_str()) {
            None => None,
            Some(SignalType::Join) => None,
            Some(SignalType::Leave) => None,
            Some(kind) => Some(
                CallSignal {
                    conversation_id: conv.clone(),
                    from_user_id: identity.clone(),
                    to_user_id: frame.to_user_id,
                    signal_type: kind,
                    sdp: frame.sdp,
                    candidate: frame.candidate,
                },
            ),
        }
    }

    /// The outbound filter of a connection of `identity` bound to `conv`.
    pub fn is_deliverable_to(&self, identity: &String, conv: &String) -> (r: bool)
        ensures
            r == deliverable(*self, identity@, conv@),
    {
        !(self.from_user_id == *identity) && self.conversation_id == *conv
    }
}

} // verus!
