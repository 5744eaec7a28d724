//! The unit of broadcast and the wire shape of chat frames.
//!
//! An inbound text frame carries a sender identity and a message body,
//! separated by the first line-feed byte: `sender 0x0A body`. The sender
//! part must be non-empty and free of line feeds; the body may hold any
//! bytes. An outbound broadcast frame is the single line
//! `sender ':' ' ' body`; history replay uses the same shape, so a client
//! cannot tell replayed traffic from live traffic.

use vstd::prelude::*;

verus! {

/// A chat message: who said it, what was said, and when the hub saw it.
/// Immutable once constructed; produced by a session's inbound path,
/// consumed by the fanout, and replayed verbatim to newly joined sessions.
#[derive(Debug, Clone, PartialEq, Eq)]
pub struct ChatMessage {
    pub sender: Vec<u8>,
    pub body: Vec<u8>,
    pub observed_at: u64,
}

/// The mathematical value of a [`ChatMessage`].
pub ghost struct MsgView {
    pub sender: Seq<u8>,
    pub body: Seq<u8>,
    pub observed_at: u64,
}

impl View for ChatMessage {
    type V = MsgView;

    open spec fn view(&self) -> MsgView {
        MsgView { sender: self.sender@, body: self.body@, observed_at: self.observed_at }
    }
}

/// The line-feed byte that ends the sender part of an inbound frame.
pub const FRAME_SEPARATOR: u8 = 10;

/// A sender identity is valid when it is non-empty and holds no separator.
pub open spec fn valid_sender(s: Seq<u8>) -> bool {
    &&& s.len() > 0
    &&& forall|i: int| 0 <= i < s.len() ==> s[i] != FRAME_SEPARATOR
}

/// The bytes of the inbound frame that carries `sender` and `body`.
pub open spec fn inbound_frame(sender: Seq<u8>, body: Seq<u8>) -> Seq<u8> {
    sender + seq![FRAME_SEPARATOR] + body
}

/// The bytes of the outbound broadcast frame for a message: `sender ': ' body`.
pub open spec fn broadcast_frame_of(m: MsgView) -> Seq<u8> {
    m.sender + seq![58u8, 32u8] + m.body
}

/// Copies a byte vector; the copy has exactly the same contents.
pub fn copy_bytes(v: &Vec<u8>) -> (r: Vec<u8>)
    ensures
        r@ == v@,
{
    let mut r: Vec<u8> = Vec::new();
    let mut i: usize = 0;
    while i < v.len()
        invariant
            i <= v.len(),
            r@ == v@.subrange(0, i as int),
        decreases v.len() - i,
    {
        r.push(v[i]);
        assert(r@ =~= v@.subrange(0, i + 1));
        i = i + 1;
    }
    assert(r@ =~= v@);
    r
}

/// Copies a message; the copy has exactly the same abstract value.
pub fn copy_message(m: &ChatMessage) -> (r: ChatMessage)
    ensures
        r@ == m@,
{
    ChatMessage {
        sender: copy_bytes(&m.sender),
        body: copy_bytes(&m.body),
        observed_at: m.observed_at,
    }
}

/// Two frames built from valid senders are equal only when both parts are.
pub proof fn lemma_inbound_frame_injective(s1: Seq<u8>, b1: Seq<u8>, s2: Seq<u8>, b2: Seq<u8>)
    requires
        valid_sender(s1),
        valid_sender(s2),
        inbound_frame(s1, b1) == inbound_frame(s2, b2),
    ensures
        s1 == s2,
        b1 == b2,
{
    let f = inbound_frame(s1, b1);
    if s1.len() < s2.len() {
        assert(s2[s1.len() as int] == f[s1.len() as int]);
        assert(f[s1.len() as int] == FRAME_SEPARATOR);
        assert(false);
    }
    if s2.len() < s1.len() {
        assert(s1[s2.len() as int] == f[s2.len() as int]);
        assert(f[s2.len() as int] == FRAME_SEPARATOR);
        assert(false);
    }
    assert forall|i: int| 0 <= i < s1.len() implies s1[i] == s2[i] by {
        assert(inbound_frame(s1, b1)[i] == s1[i]);
        assert(inbound_frame(s2, b2)[i] == s2[i]);
    }
    assert(s1 =~= s2);
    assert(inbound_frame(s1, b1).len() == s1.len() + 1 + b1.len());
    assert(inbound_frame(s2, b2).len() == s2.len() + 1 + b2.len());
    assert(b1.len() == b2.len());
    assert forall|i: int| 0 <= i < b1.len() implies b1[i] == b2[i] by {
        assert(inbound_frame(s1, b1)[s1.len() + 1 + i] == b1[i]);
        assert(inbound_frame(s2, b2)[s2.len() + 1 + i] == b2[i]);
    }
    assert(b1 =~= b2);
}

/// Decodes an inbound frame. Returns the carried message stamped with
/// `now`, or `None` exactly when the bytes are not a well-formed frame
/// (no separator, or an empty sender part).
pub fn parse_inbound(frame: &Vec<u8>, now: u64) -> (r: Option<ChatMessage>)
    ensures
        match r {
            Some(m) => {
                &&& valid_sender(m.sender@)
                &&& frame@ == inbound_frame(m.sender@, m.body@)
                &&& m.observed_at == now
            },
            None => forall|sn: Seq<u8>, bd: Seq<u8>|
                valid_sender(sn) ==> frame@ != inbound_frame(sn, bd),
        },
{
    let n = frame.len();
    let mut k: usize = 0;
    while k < n && frame[k] != FRAME_SEPARATOR
        invariant
            n == frame@.len(),
            k <= n,
            forall|i: int| 0 <= i < k ==> frame@[i] != FRAME_SEPARATOR,
        decreases n - k,
    {
        k = k + 1;
    }
    if k == n || k == 0 {
        // Either the frame holds no separator at all, or the sender part
        // is empty; no pair of valid parts encodes to these bytes.
        assert forall|sn: Seq<u8>, bd: Seq<u8>| valid_sender(sn) implies frame@ != inbound_frame(
            sn,
            bd,
        ) by {
            if frame@ == inbound_frame(sn, bd) {
                assert(frame@[sn.len() as int] == FRAME_SEPARATOR);
                if k == n {
                    assert(false);
                } else {
                    assert(frame@[0] == sn[0]);
                    assert(false);
                }
            }
        }
        return None;
    }
    let mut sender: Vec<u8> = Vec::new();
    let mut i: usize = 0;
    while i < k
        invariant
            k < n,
            n == frame@.len(),
            i <= k,
            sender@ == frame@.subrange(0, i as int),
        decreases k - i,
    {
        sender.push(frame[i]);
        assert(sender@ =~= frame@.subrange(0, i + 1));
        i = i + 1;
    }
    let mut body: Vec<u8> = Vec::new();
    let mut j: usize = k + 1;
    while j < n
        invariant
            k < n,
            n == frame@.len(),
            k + 1 <= j <= n,
            body@ == frame@.subrange(k + 1, j as int),
        decreases n - j,
    {
        body.push(frame[j]);
        assert(body@ =~= frame@.subrange(k + 1, j + 1));
        j = j + 1;
    }
    assert(frame@ =~= inbound_frame(sender@, body@));
    Some(ChatMessage { sender, body, observed_at: now })
}

/// Encodes `sender` and `body` as one inbound frame.
pub fn encode_inbound(sender: &Vec<u8>, body: &Vec<u8>) -> (r: Vec<u8>)
    ensures
        r@ == inbound_frame(sender@, body@),
{
    let mut r = copy_bytes(sender);
    r.push(FRAME_SEPARATOR);
    let mut i: usize = 0;
    while i < body.len()
        invariant
            i <= body.len(),
            r@ == sender@ + seq![FRAME_SEPARATOR] + body@.subrange(0, i as int),
        decreases body.len() - i,
    {
        r.push(body[i]);
        assert(r@ =~= sender@ + seq![FRAME_SEPARATOR] + body@.subrange(0, i + 1));
        i = i + 1;
    }
    assert(r@ =~= inbound_frame(sender@, body@));
    r
}

/// Encodes a message as the outbound broadcast frame `sender ': ' body`.
pub fn broadcast_frame(m: &ChatMessage) -> (r: Vec<u8>)
    ensures
        r@ == broadcast_frame_of(m@),
{
    let mut r = copy_bytes(&m.sender);
    r.push(58);
    r.push(32);
    let mut i: usize = 0;
    while i < m.body.len()
        invariant
            i <= m.body@.len(),
            r@ == m.sender@ + seq![58u8, 32u8] + m.body@.subrange(0, i as int),
        decreases m.body@.len() - i,
    {
        r.push(m.body[i]);
        assert(r@ =~= m.sender@ + seq![58u8, 32u8] + m.body@.subrange(0, i + 1));
        i = i + 1;
    }
    assert(r@ =~= broadcast_frame_of(m@));
    r
}

/// Decoding returns exactly the parts a frame was encoded from: on a frame
/// that encodes a valid sender and a body, any result the decoder may
/// return is `Some` of precisely those two parts.
pub proof fn lemma_frame_round_trip(
    frame: Vec<u8>,
    sn: Seq<u8>,
    bd: Seq<u8>,
    now: u64,
    r: Option<ChatMessage>,
)
    requires
        valid_sender(sn),
        frame@ == inbound_frame(sn, bd),
        call_ensures(parse_inbound, (&frame, now), r),
    ensures
        r is Some,
        r->Some_0@.sender == sn,
        r->Some_0@.body == bd,
        r->Some_0@.observed_at == now,
{
    match r {
        Some(m) => {
            lemma_inbound_frame_injective(m.sender@, m.body@, sn, bd);
        },
        None => {
            assert(frame@ != inbound_frame(sn, bd));
        },
    }
}

} // verus!
