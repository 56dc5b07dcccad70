//! The lifecycle of one call-signalling connection once it has joined: what
//! each socket event does to the hub and what is to be published.

use vstd::prelude::*;

use crate::hub::{conns_unique, is_rebound_for, position_of, recipients, Hub, Outbound, Subscriber};
use crate::signal::{is_announcement, InboundSignal, SignalType};

verus! {

/// The query of a signalling upgrade: the conversation to bind to.
#[derive(Clone, Debug)]
pub struct WsQuery {
    pub conv: String,
}

/// What the socket of a joined connection reports.
#[derive(Clone, Debug)]
pub enum LinkEvent {
    /// A frame that decoded as a signal.
    Signal(InboundSignal),
    /// A frame that is not a signal: dropped, not fatal.
    Unreadable,
    /// The client closed the socket.
    Closed,
    /// Reading or writing the socket failed, or the other task ended.
    Failed,
}

/// What the relay is to do in answer to an event.
#[derive(Clone, Debug)]
pub enum LinkAction {
    /// Write this signal to these connections, and go on.
    Deliver(Outbound),
    /// Nothing to write; go on.
    Ignore,
    /// Stop; first write the `leave` announcement, if there is one.
    Close(Option<Outbound>),
}

/// Whether event `e` ends the connection.
pub open spec fn ends_link(e: LinkEvent) -> bool {
    e is Closed || e is Failed
}

/// Whether event `e` on connection `conn` makes the hub `subs` announce a
/// `leave`.
pub open spec fn announces_leave(subs: Seq<Subscriber>, conn: u64, e: LinkEvent) -> bool {
    ends_link(e) && position_of(subs, conn) >= 0
}

/// The subscriptions after event `e` on connection `conn`.
pub open spec fn after_event(subs: Seq<Subscriber>, conn: u64, e: LinkEvent) -> Seq<Subscriber> {
    if announces_leave(subs, conn, e) {
        subs.remove(position_of(subs, conn))
    } else {
        subs
    }
}

/// How many `leave` announcements the events `es` on connection `conn`
/// make, starting from the subscriptions `subs`.
pub open spec fn leaves_announced(subs: Seq<Subscriber>, conn: u64, es: Seq<LinkEvent>) -> nat
    decreases es.len(),
{
    if es.len() == 0 {
        0
    } else {
        (if announces_leave(subs, conn, es[0]) {
            1nat
        } else {
            0nat
        }) + leaves_announced(after_event(subs, conn, es[0]), conn, es.drop_first())
    }
}

/// Whether some event of `es` ends the connection.
pub open spec fn has_end(es: Seq<LinkEvent>) -> bool {
    exists|i: int| 0 <= i < es.len() && ends_link(#[trigger] es[i])
}

proof fn lemma_absent_stays_silent(subs: Seq<Subscriber>, conn: u64, es: Seq<LinkEvent>)
    requires
        position_of(subs, conn) == -1,
    ensures
        leaves_announced(subs, conn, es) == 0,
    decreases es.len(),
{
    if es.len() > 0 {
        lemma_absent_stays_silent(subs, conn, es.drop_first());
    }
}

/// However a joined connection ends, by the client closing or by a failure
/// on either side, its `leave` is announced exactly once; while nothing has
/// ended it, never.
pub proof fn lemma_one_leave_per_link(subs: Seq<Subscriber>, conn: u64, es: Seq<LinkEvent>)
    requires
        conns_unique(subs),
        position_of(subs, conn) >= 0,
    ensures
        leaves_announced(subs, conn, es) == if has_end(es) {
            1nat
        } else {
            0nat
        },
    decreases es.len(),
{
    crate::hub::lemma_position_of(subs, conn);
    if es.len() > 0 {
        let rest = es.drop_first();
        if ends_link(es[0]) {
            let p = position_of(subs, conn);
            let left = subs.remove(p);
            crate::hub::lemma_position_of(left, conn);
            assert forall|i: int| 0 <= i < left.len() implies left[i].conn != conn by {
                let k = if i < p { i } else { i + 1 };
                assert(left[i] == subs[k]);
            }
            if position_of(left, conn) >= 0 {
                assert(left[position_of(left, conn)].conn == conn);
            }
            lemma_absent_stays_silent(left, conn, rest);
            assert(has_end(es));
        } else {
            lemma_one_leave_per_link(subs, conn, rest);
            assert(has_end(es) == has_end(rest)) by {
                if has_end(es) {
                    let i = choose|i: int| 0 <= i < es.len() && ends_link(#[trigger] es[i]);
                    assert(rest[i - 1] == es[i]);
                }
                if has_end(rest) {
                    let i = choose|i: int| 0 <= i < rest.len() && ends_link(#[trigger] rest[i]);
                    assert(es[i + 1] == rest[i]);
                }
            }
        }
    }
}

impl Hub {
    /// Handles one event on connection `conn`: a signal is relayed as
    /// `relay` does, an unreadable frame is dropped, and the end of the
    /// connection leaves the hub as `leave` does.
    pub fn on_event(&mut self, conn: u64, event: LinkEvent) -> (r: LinkAction)
        requires
            old(self).wf(),
        ensures
            final(self).wf(),
            final(self)@ == after_event(old(self)@, conn, event),
            event is Unreadable ==> r is Ignore,
            ends_link(event) ==> r is Close,
            r matches LinkAction::Close(Some(_)) <==> announces_leave(old(self)@, conn, event),
            r matches LinkAction::Close(Some(o)) ==> {
                let sub = old(self)@[position_of(old(self)@, conn)];
                &&& is_announcement(o.signal, SignalType::Leave, sub.identity@, sub.conversation_id@)
                &&& o.recipients@ == recipients(final(self)@, o.signal)
            },
            event matches LinkEvent::Signal(f) ==> {
                &&& (r is Deliver <==> position_of(old(self)@, conn) >= 0 && crate::hub::type_of_frame(f) is Some)
                &&& (r is Deliver || r is Ignore)
                &&& r matches LinkAction::Deliver(o) ==> is_rebound_for(old(self)@, conn, f, o)
            },
    {
        match event {
            LinkEvent::Signal(frame) => match self.relay(conn, frame) {
                Some(out) => LinkAction::Deliver(out),
                None => LinkAction::Ignore,
            },
            LinkEvent::Unreadable => LinkAction::Ignore,
            LinkEvent::Closed => LinkAction::Close(self.leave(conn)),
            LinkEvent::Failed => LinkAction::Close(self.leave(conn)),
        }
    }
}

} // verus!
