//! The conversation broadcast hub: which connection listens on which
//! conversation, and who receives each published signal.

use vstd::prelude::*;

use crate::signal::{deliverable, is_announcement, is_rebound, CallSignal, InboundSignal, SignalType};

verus! {

/// One live subscription: a signalling connection bound to a conversation.
#[derive(Clone, Debug)]
pub struct Subscriber {
    pub conn: u64,
    pub identity: String,
    pub conversation_id: String,
}

/// A signal to publish and the connections it is to be written to.
#[derive(Clone, Debug)]
pub struct Outbound {
    pub signal: CallSignal,
    pub recipients: Vec<u64>,
}

#[derive(Clone, Copy, Debug, PartialEq, Eq, Structural)]
pub enum HubError {
    /// The connection id is already subscribed.
    DuplicateConnection,
}

/// Every connection id occurs at most once.
pub open spec fn conns_unique(subs: Seq<Subscriber>) -> bool {
    forall|i: int, j: int|
        0 <= i < subs.len() && 0 <= j < subs.len() && i != j ==> subs[i].conn != subs[j].conn
}

/// Index of the subscription of `conn`, or -1 when it has none.
pub open spec fn position_of(subs: Seq<Subscriber>, conn: u64) -> int
    decreases subs.len(),
{
    if subs.len() == 0 {
        -1
    } else if subs.last().conn == conn {
        subs.len() - 1
    } else {
        position_of(subs.drop_last(), conn)
    }
}

/// The connections, in subscription order, that are shown `s`.
pub open spec fn recipients(subs: Seq<Subscriber>, s: CallSignal) -> Seq<u64>
    decreases subs.len(),
{
    if subs.len() == 0 {
        Seq::empty()
    } else {
        let rest = recipients(subs.drop_last(), s);
        if deliverable(s, subs.last().identity@, subs.last().conversation_id@) {
            rest.push(subs.last().conn)
        } else {
            rest
        }
    }
}

/// Number of subscriptions to conversation `conv`.
pub open spec fn count_in(subs: Seq<Subscriber>, conv: Seq<char>) -> nat
    decreases subs.len(),
{
    if subs.len() == 0 {
        0
    } else {
        count_in(subs.drop_last(), conv) + if subs.last().conversation_id@ == conv {
            1nat
        } else {
            0nat
        }
    }
}

/// `position_of` finds the subscription of `conn` when there is one, and
/// with unique connection ids it is the only one.
pub proof fn lemma_position_of(subs: Seq<Subscriber>, conn: u64)
    ensures
        -1 <= position_of(subs, conn) < subs.len(),
        position_of(subs, conn) >= 0 ==> subs[position_of(subs, conn)].conn == conn,
        position_of(subs, conn) == -1 ==> forall|i: int|
            0 <= i < subs.len() ==> subs[i].conn != conn,
        conns_unique(subs) ==> forall|i: int|
            0 <= i < subs.len() && subs[i].conn == conn ==> i == position_of(subs, conn),
    decreases subs.len(),
{
    if subs.len() > 0 {
        let init = subs.drop_last();
        lemma_position_of(init, conn);
        assert(forall|i: int| 0 <= i < init.len() ==> init[i] == subs[i]);
        if conns_unique(subs) {
            assert(conns_unique(init));
        }
    }
}

proof fn lemma_recipients_step(subs: Seq<Subscriber>, s: CallSignal, i: int)
    requires
        0 <= i < subs.len(),
    ensures
        recipients(subs.subrange(0, i + 1), s) == if deliverable(
            s,
            subs[i].identity@,
            subs[i].conversation_id@,
        ) {
            recipients(subs.subrange(0, i), s).push(subs[i].conn)
        } else {
            recipients(subs.subrange(0, i), s)
        },
{
    assert(subs.subrange(0, i + 1).drop_last() =~= subs.subrange(0, i));
}

proof fn lemma_count_step(subs: Seq<Subscriber>, conv: Seq<char>, i: int)
    requires
        0 <= i < subs.len(),
    ensures
        count_in(subs.subrange(0, i + 1), conv) == count_in(subs.subrange(0, i), conv) + if subs[i].conversation_id@
            == conv {
            1nat
        } else {
            0nat
        },
{
    assert(subs.subrange(0, i + 1).drop_last() =~= subs.subrange(0, i));
}

/// The process-wide map from conversation to its subscribers. A
/// conversation's channel exists exactly while it has a subscriber.
pub struct Hub {
    subscribers: Vec<Subscriber>,
}

impl View for Hub {
    type V = Seq<Subscriber>;

    closed spec fn view(&self) -> Seq<Subscriber> {
        self.subscribers@
    }
}

impl Hub {
    pub open spec fn wf(&self) -> bool {
        conns_unique(self@)
    }

    pub fn new() -> (r: Hub)
        ensures
            r@ == Seq::<Subscriber>::empty(),
            r.wf(),
    {
        Hub { subscribers: Vec::new() }
    }

    fn find(&self, conn: u64) -> (r: Option<usize>)
        requires
            self.wf(),
        ensures
            r is None <==> position_of(self@, conn) == -1,
            r matches Some(i) ==> i == position_of(self@, conn) && i < self@.len(),
    {
        proof {
            lemma_position_of(self@, conn);
        }
        let mut i: usize = 0;
        while i < self.subscribers.len()
            invariant
                0 <= i <= self@.len(),
                self@ == self.subscribers@,
                self.wf(),
                forall|j: int| 0 <= j < i ==> self@[j].conn != conn,
            decreases self@.len() - i,
        {
            if self.subscribers[i].conn == conn {
                proof {
                    lemma_position_of(self@, conn);
                    assert(self@[i as int].conn == conn);
                }
                return Some(i);
            }
            i = i + 1;
        }
        None
    }

    /// The connections that are to be shown `s`.
    pub fn recipients_of(&self, s: &CallSignal) -> (r: Vec<u64>)
        ensures
            r@ == recipients(self@, *s),
    {
        let mut out: Vec<u64> = Vec::new();
        let mut i: usize = 0;
        while i < self.subscribers.len()
            invariant
                0 <= i <= self@.len(),
                self@ == self.subscribers@,
                out@ == recipients(self@.subrange(0, i as int), *s),
            decreases self@.len() - i,
        {
            let sub = &self.subscribers[i];
            proof {
                lemma_recipients_step(self@, *s, i as int);
            }
            if s.is_deliverable_to(&sub.identity, &sub.conversation_id) {
                out.push(sub.conn);
            }
            i = i + 1;
        }
        assert(self@.subrange(0, self@.len() as int) =~= self@);
        out
    }

    /// Number of live subscriptions to `conv`.
    pub fn subscriber_count(&self, conv: &String) -> (r: usize)
        ensures
            r == count_in(self@, conv@),
    {
        let mut n: usize = 0;
        let mut i: usize = 0;
        while i < self.subscribers.len()
            invariant
                0 <= i <= self@.len(),
                self@ == self.subscribers@,
                n == count_in(self@.subrange(0, i as int), conv@),
                n <= i,
            decreases self@.len() - i,
        {
            proof {
                lemma_count_step(self@, conv@, i as int);
            }
            if self.subscribers[i].conversation_id == *conv {
                n = n + 1;
            }
            i = i + 1;
        }
        assert(self@.subrange(0, self@.len() as int) =~= self@);
        n
    }

    /// Subscribes connection `conn` of `identity` to `conv`, then announces it
    /// there with a `join` signal.
    pub fn join(&mut self, conn: u64, identity: &String, conv: &String) -> (r: Result<Outbound, HubError>)
        requires
            old(self).wf(),
        ensures
            final(self).wf(),
            r is Ok <==> position_of(old(self)@, conn) == -1,
            r is Err ==> final(self)@ == old(self)@,
            r matches Ok(o) ==> {
                &&& final(self)@ == old(self)@.push(
                    (Subscriber { conn, identity: *identity, conversation_id: *conv }),
                )
                &&& is_announcement(o.signal, SignalType::Join, identity@, conv@)
                &&& o.recipients@ == recipients(final(self)@, o.signal)
            },
    {
        if self.find(conn).is_some() {
            return Err(HubError::DuplicateConnection);
        }
        proof {
            lemma_position_of(self@, conn);
        }
        self.subscribers.push(
            Subscriber { conn, identity: identity.clone(), conversation_id: conv.clone() },
        );
        let signal = CallSignal::announcement(SignalType::Join, identity, conv);
        let recipients = self.recipients_of(&signal);
        Ok(Outbound { signal, recipients })
    }

    /// Relays a client frame received on connection `conn`: the signal is
    /// rebound to the connection's own identity and conversation and goes to
    /// everyone there but its sender. Frames of unknown type, frames that
    /// claim to be a `join` or a `leave`, and frames on a connection that is
    /// not subscribed, are dropped.
    pub fn relay(&self, conn: u64, frame: InboundSignal) -> (r: Option<Outbound>)
        requires
            self.wf(),
        ensures
            r is Some <==> position_of(self@, conn) >= 0 && type_of_frame(frame) is Some,
            r matches Some(o) ==> is_rebound_for(self@, conn, frame, o),
    {
        match self.find(conn) {
            None => None,
            Some(i) => {
                let sub = &self.subscribers[i];
                match CallSignal::from_client(frame, &sub.identity, &sub.conversation_id) {
                    None => None,
                    Some(signal) => {
                        let recipients = self.recipients_of(&signal);
                        Some(Outbound { signal, recipients })
                    },
                }
            },
        }
    }

    /// Ends the subscription of `conn` and announces it with a `leave`
    /// signal. Only the first call for a connection does so: later calls
    /// change nothing and return `None`.
    pub fn leave(&mut self, conn: u64) -> (r: Option<Outbound>)
        requires
            old(self).wf(),
        ensures
            final(self).wf(),
            r is Some <==> position_of(old(self)@, conn) >= 0,
            r is None ==> final(self)@ == old(self)@,
            r matches Some(o) ==> {
                let sub = old(self)@[position_of(old(self)@, conn)];
                &&& final(self)@ == old(self)@.remove(position_of(old(self)@, conn))
                &&& is_announcement(o.signal, SignalType::Leave, sub.identity@, sub.conversation_id@)
                &&& o.recipients@ == recipients(final(self)@, o.signal)
            },
    {
        match self.find(conn) {
            None => None,
            Some(i) => {
                let ghost before = self@;
                let sub = self.subscribers.remove(i);
                assert forall|a: int, b: int|
                    0 <= a < self@.len() && 0 <= b < self@.len() && a != b implies self@[a].conn
                        != self@[b].conn by {
                    let a0 = if a < i { a } else { a + 1 };
                    let b0 = if b < i { b } else { b + 1 };
                    assert(self@[a] == before[a0]);
                    assert(self@[b] == before[b0]);
                }
                let signal = CallSignal::announcement(SignalType::Leave, &sub.identity, &sub.conversation_id);
                let recipients = self.recipients_of(&signal);
                Some(Outbound { signal, recipients })
            },
        }
    }
}

/// A published signal reaches every live subscriber of its conversation
/// other than its sender, each once, and no subscriber of any other
/// conversation.
pub proof fn lemma_publish_reaches_exactly(subs: Seq<Subscriber>, s: CallSignal)
    requires
        conns_unique(subs),
    ensures
        forall|c: u64|
            recipients(subs, s).contains(c) <==> exists|i: int|
                0 <= i < subs.len() && #[trigger] subs[i].conn == c && deliverable(
                    s,
                    subs[i].identity@,
                    subs[i].conversation_id@,
                ),
        recipients(subs, s).no_duplicates(),
        forall|i: int|
            0 <= i < subs.len() && subs[i].conversation_id@ != s.conversation_id@
                ==> !recipients(subs, s).contains(#[trigger] subs[i].conn),
    decreases subs.len(),
{
    if subs.len() > 0 {
        let init = subs.drop_last();
        assert(forall|i: int| 0 <= i < init.len() ==> init[i] == subs[i]);
        assert(conns_unique(init));
        lemma_publish_reaches_exactly(init, s);
        let last = subs.last();
        let rest = recipients(init, s);
        let all = recipients(subs, s);
        let hit = deliverable(s, last.identity@, last.conversation_id@);
        if hit {
            assert(all == rest.push(last.conn));
        } else {
            assert(all == rest);
        }
        assert forall|c: u64|
            recipients(subs, s).contains(c) <==> exists|i: int|
                0 <= i < subs.len() && #[trigger] subs[i].conn == c && deliverable(
                    s,
                    subs[i].identity@,
                    subs[i].conversation_id@,
                ) by {
            if recipients(subs, s).contains(c) {
                let k = choose|k: int| 0 <= k < all.len() && all[k] == c;
                if k < rest.len() {
                    assert(rest[k] == c);
                    assert(rest.contains(c));
                    let i = choose|i: int|
                        0 <= i < init.len() && #[trigger] init[i].conn == c && deliverable(
                            s,
                            init[i].identity@,
                            init[i].conversation_id@,
                        );
                    assert(subs[i].conn == c);
                } else {
                    assert(hit && c == last.conn);
                    assert(subs[subs.len() - 1].conn == c);
                }
            }
            if exists|i: int|
                0 <= i < subs.len() && #[trigger] subs[i].conn == c && deliverable(
                    s,
                    subs[i].identity@,
                    subs[i].conversation_id@,
                ) {
                let i = choose|i: int|
                    0 <= i < subs.len() && #[trigger] subs[i].conn == c && deliverable(
                        s,
                        subs[i].identity@,
                        subs[i].conversation_id@,
                    );
                if i < init.len() {
                    assert(init[i].conn == c);
                    assert(rest.contains(c));
                    let k = choose|k: int| 0 <= k < rest.len() && rest[k] == c;
                    assert(all[k] == c);
                } else {
                    assert(recipients(subs, s) == rest.push(c));
                    assert(recipients(subs, s)[rest.len() as int] == c);
                }
            }
        }
        if deliverable(s, last.identity@, last.conversation_id@) {
            assert forall|i: int| 0 <= i < rest.len() implies rest[i] != last.conn by {
                assert(rest.contains(rest[i]));
                let k = choose|k: int|
                    0 <= k < init.len() && #[trigger] init[k].conn == rest[i] && deliverable(
                        s,
                        init[k].identity@,
                        init[k].conversation_id@,
                    );
                assert(subs[k].conn == rest[i]);
            }
            assert(recipients(subs, s) == rest.push(last.conn));
        }
    }
}

/// A connection is announced once on joining and once on leaving: after a
/// join, a second join of the same connection is refused, the first leave
/// announces the identity and conversation it joined with, and every later
/// leave finds nothing, the hub being as it was before the join.
pub proof fn lemma_one_join_one_leave(
    subs: Seq<Subscriber>,
    conn: u64,
    identity: String,
    conv: String,
)
    requires
        conns_unique(subs),
        position_of(subs, conn) == -1,
    ensures
        ({
            let joined = subs.push(
                Subscriber { conn, identity: identity, conversation_id: conv },
            );
            let p = position_of(joined, conn);
            &&& conns_unique(joined)
            &&& p == subs.len()
            &&& joined[p].identity == identity
            &&& joined[p].conversation_id == conv
            &&& joined.remove(p) == subs
            &&& position_of(joined.remove(p), conn) == -1
        }),
{
    let joined = subs.push(Subscriber { conn, identity: identity, conversation_id: conv });
    lemma_position_of(subs, conn);
    assert(joined.drop_last() =~= subs);
    assert(conns_unique(joined));
    assert(joined.remove(subs.len() as int) =~= subs);
}

/// `o` carries frame `f`, received on connection `conn`, rebound to the
/// identity and conversation of that connection's subscription, and goes to
/// everyone the rebound signal is deliverable to.
pub open spec fn is_rebound_for(subs: Seq<Subscriber>, conn: u64, f: InboundSignal, o: Outbound) -> bool {
    let sub = subs[position_of(subs, conn)];
    &&& is_rebound(o.signal, f, sub.identity@, sub.conversation_id@)
    &&& o.recipients@ == recipients(subs, o.signal)
}

/// The signal type that frame `f` names, if it names one that a client may
/// send (neither `join` nor `leave`).
pub open spec fn type_of_frame(f: InboundSignal) -> Option<SignalType> {
    crate::signal::client_type_of_tag(f.signal_type@)
}

} // verus!
