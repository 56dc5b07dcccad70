//! The chat connection registry and the fan-out of chat text.

use vstd::prelude::*;

use crate::clock::unix_now;
use crate::identity::Identity;

verus! {

/// The live chat connection of one identity.
#[derive(Clone, Debug)]
pub struct ChatEntry {
    pub identity_id: String,
    pub conn: u64,
}

/// A chat message as written to each recipient.
#[derive(Clone, Debug)]
pub struct ChatMessage {
    pub from: String,
    pub from_name: String,
    pub content: String,
    /// Server-assigned, in seconds since the Unix epoch.
    pub timestamp: i64,
}

/// A chat message and the connections it is to be written to.
#[derive(Clone, Debug)]
pub struct ChatDelivery {
    pub message: ChatMessage,
    pub recipients: Vec<u64>,
}

#[derive(Clone, Copy, Debug, PartialEq, Eq, Structural)]
pub enum RegistryError {
    /// The connection id is already registered.
    ConnectionInUse,
}

/// One entry per identity, and every connection id in at most one entry.
pub open spec fn entries_unique(es: Seq<ChatEntry>) -> bool {
    forall|i: int, j: int|
        0 <= i < es.len() && 0 <= j < es.len() && i != j ==> es[i].identity_id@ != es[j].identity_id@
            && es[i].conn != es[j].conn
}

/// Index of the entry of identity `id`, or -1 when it has none.
pub open spec fn slot_of(es: Seq<ChatEntry>, id: Seq<char>) -> int
    decreases es.len(),
{
    if es.len() == 0 {
        -1
    } else if es.last().identity_id@ == id {
        es.len() - 1
    } else {
        slot_of(es.drop_last(), id)
    }
}

/// Whether some entry holds connection `conn`.
pub open spec fn conn_in_use(es: Seq<ChatEntry>, conn: u64) -> bool {
    exists|i: int| 0 <= i < es.len() && #[trigger] es[i].conn == conn
}

/// The connections, in registry order, of every identity but `sender`.
pub open spec fn chat_recipients(es: Seq<ChatEntry>, sender: Seq<char>) -> Seq<u64>
    decreases es.len(),
{
    if es.len() == 0 {
        Seq::empty()
    } else {
        let rest = chat_recipients(es.drop_last(), sender);
        if es.last().identity_id@ != sender {
            rest.push(es.last().conn)
        } else {
            rest
        }
    }
}

/// `m` is the message that `sender` wrote as `content` at `timestamp`.
pub open spec fn is_message_of(m: ChatMessage, sender: Identity, content: Seq<char>, timestamp: i64) -> bool {
    &&& m.from@ == sender.id@
    &&& m.from_name@ == sender.display_name@
    &&& m.content@ == content
    &&& m.timestamp == timestamp
}

/// `slot_of` finds the entry of `id` when there is one, and with unique
/// entries it is the only one.
pub proof fn lemma_slot_of(es: Seq<ChatEntry>, id: Seq<char>)
    ensures
        -1 <= slot_of(es, id) < es.len(),
        slot_of(es, id) >= 0 ==> es[slot_of(es, id)].identity_id@ == id,
        slot_of(es, id) == -1 ==> forall|i: int| 0 <= i < es.len() ==> es[i].identity_id@ != id,
        entries_unique(es) ==> forall|i: int|
            0 <= i < es.len() && es[i].identity_id@ == id ==> i == slot_of(es, id),
    decreases es.len(),
{
    if es.len() > 0 {
        let init = es.drop_last();
        lemma_slot_of(init, id);
        assert(forall|i: int| 0 <= i < init.len() ==> init[i] == es[i]);
        if entries_unique(es) {
            assert(entries_unique(init));
        }
    }
}

proof fn lemma_chat_recipients_step(es: Seq<ChatEntry>, sender: Seq<char>, i: int)
    requires
        0 <= i < es.len(),
    ensures
        chat_recipients(es.subrange(0, i + 1), sender) == if es[i].identity_id@ != sender {
            chat_recipients(es.subrange(0, i), sender).push(es[i].conn)
        } else {
            chat_recipients(es.subrange(0, i), sender)
        },
{
    assert(es.subrange(0, i + 1).drop_last() =~= es.subrange(0, i));
}

/// Chat text fans out to the connection of every registered identity other
/// than its sender, once each, and never to the sender's own connection.
pub proof fn lemma_chat_fanout(es: Seq<ChatEntry>, sender: Seq<char>)
    requires
        entries_unique(es),
    ensures
        forall|c: u64|
            chat_recipients(es, sender).contains(c) <==> exists|i: int|
                0 <= i < es.len() && #[trigger] es[i].conn == c && es[i].identity_id@ != sender,
        chat_recipients(es, sender).no_duplicates(),
        forall|i: int|
            0 <= i < es.len() && es[i].identity_id@ == sender ==> !chat_recipients(
                es,
                sender,
            ).contains(#[trigger] es[i].conn),
    decreases es.len(),
{
    if es.len() > 0 {
        let init = es.drop_last();
        assert(forall|i: int| 0 <= i < init.len() ==> init[i] == es[i]);
        assert(entries_unique(init));
        lemma_chat_fanout(init, sender);
        let last = es.last();
        let rest = chat_recipients(init, sender);
        let all = chat_recipients(es, sender);
        let hit = last.identity_id@ != sender;
        if hit {
            assert(all == rest.push(last.conn));
        } else {
            assert(all == rest);
        }
        assert forall|c: u64|
            all.contains(c) <==> exists|i: int|
                0 <= i < es.len() && #[trigger] es[i].conn == c && es[i].identity_id@ != sender by {
            if all.contains(c) {
                let k = choose|k: int| 0 <= k < all.len() && all[k] == c;
                if k < rest.len() {
                    assert(rest[k] == c);
                    assert(rest.contains(c));
                    let i = choose|i: int|
                        0 <= i < init.len() && #[trigger] init[i].conn == c && init[i].identity_id@
                            != sender;
                    assert(es[i].conn == c);
                } else {
                    assert(es[es.len() - 1].conn == c);
                }
            }
            if exists|i: int|
                0 <= i < es.len() && #[trigger] es[i].conn == c && es[i].identity_id@ != sender {
                let i = choose|i: int|
                    0 <= i < es.len() && #[trigger] es[i].conn == c && es[i].identity_id@ != sender;
                if i < init.len() {
                    assert(init[i].conn == c);
                    assert(rest.contains(c));
                    let k = choose|k: int| 0 <= k < rest.len() && rest[k] == c;
                    assert(all[k] == c);
                } else {
                    assert(all[rest.len() as int] == c);
                }
            }
        }
        if hit {
            assert forall|i: int| 0 <= i < rest.len() implies rest[i] != last.conn by {
                assert(rest.contains(rest[i]));
                let k = choose|k: int|
                    0 <= k < init.len() && #[trigger] init[k].conn == rest[i] && init[k].identity_id@
                        != sender;
                assert(es[k].conn == rest[i]);
            }
        }
        assert forall|i: int|
            0 <= i < es.len() && es[i].identity_id@ == sender implies !all.contains(
                #[trigger] es[i].conn,
            ) by {
            if all.contains(es[i].conn) {
                let j = choose|j: int|
                    0 <= j < es.len() && #[trigger] es[j].conn == es[i].conn && es[j].identity_id@
                        != sender;
                assert(i != j);
            }
        }
    }
}

/// The process-wide map from identity to its open chat connection.
pub struct Registry {
    entries: Vec<ChatEntry>,
}

impl View for Registry {
    type V = Seq<ChatEntry>;

    closed spec fn view(&self) -> Seq<ChatEntry> {
        self.entries@
    }
}

impl Registry {
    pub open spec fn wf(&self) -> bool {
        entries_unique(self@)
    }

    pub fn new() -> (r: Registry)
        ensures
            r@ == Seq::<ChatEntry>::empty(),
            r.wf(),
    {
        Registry { entries: Vec::new() }
    }

    fn find(&self, id: &String) -> (r: Option<usize>)
        requires
            self.wf(),
        ensures
            r is None <==> slot_of(self@, id@) == -1,
            r matches Some(i) ==> i == slot_of(self@, id@) && i < self@.len(),
    {
        let mut i: usize = 0;
        while i < self.entries.len()
            invariant
                0 <= i <= self@.len(),
                self@ == self.entries@,
                self.wf(),
                forall|j: int| 0 <= j < i ==> self@[j].identity_id@ != id@,
            decreases self@.len() - i,
        {
            if self.entries[i].identity_id == *id {
                proof {
                    lemma_slot_of(self@, id@);
                }
                return Some(i);
            }
            i = i + 1;
        }
        proof {
            lemma_slot_of(self@, id@);
        }
        None
    }

    fn uses_conn(&self, conn: u64) -> (r: bool)
        ensures
            r == conn_in_use(self@, conn),
    {
        let mut i: usize = 0;
        while i < self.entries.len()
            invariant
                0 <= i <= self@.len(),
                self@ == self.entries@,
                forall|j: int| 0 <= j < i ==> self@[j].conn != conn,
            decreases self@.len() - i,
        {
            if self.entries[i].conn == conn {
                assert(self@[i as int].conn == conn);
                return true;
            }
            i = i + 1;
        }
        false
    }

    /// The connection registered for identity `id`, if any.
    pub fn connection_of(&self, id: &String) -> (r: Option<u64>)
        requires
            self.wf(),
        ensures
            r is None <==> slot_of(self@, id@) == -1,
            r matches Some(c) ==> c == self@[slot_of(self@, id@)].conn,
    {
        match self.find(id) {
            None => None,
            Some(i) => Some(self.entries[i].conn),
        }
    }

    /// Registers connection `conn` for identity `id`. A connection already
    /// registered for `id` is replaced, and returned so that it can be closed.
    /// A connection id already in the registry is refused.
    pub fn register(&mut self, id: &String, conn: u64) -> (r: Result<Option<u64>, RegistryError>)
        requires
            old(self).wf(),
        ensures
            final(self).wf(),
            r is Err <==> conn_in_use(old(self)@, conn),
            r is Err ==> final(self)@ == old(self)@,
            r is Ok && slot_of(old(self)@, id@) == -1 ==> {
                &&& r == Ok::<Option<u64>, RegistryError>(None)
                &&& final(self)@ == old(self)@.push(ChatEntry { identity_id: *id, conn })
            },
            r is Ok && slot_of(old(self)@, id@) >= 0 ==> {
                let p = slot_of(old(self)@, id@);
                &&& r == Ok::<Option<u64>, RegistryError>(Some(old(self)@[p].conn))
                &&& final(self)@ == old(self)@.update(p, ChatEntry { identity_id: *id, conn })
            },
    {
        if self.uses_conn(conn) {
            return Err(RegistryError::ConnectionInUse);
        }
        proof {
            lemma_slot_of(self@, id@);
        }
        let ghost before = self@;
        match self.find(id) {
            None => {
                self.entries.push(ChatEntry { identity_id: id.clone(), conn });
                assert(entries_unique(self@)) by {
                    assert(forall|i: int| 0 <= i < before.len() ==> self@[i] == before[i]);
                    assert(forall|i: int| 0 <= i < before.len() ==> before[i].conn != conn);
                }
                Ok(None)
            },
            Some(i) => {
                let previous = self.entries[i].conn;
                self.entries.set(i, ChatEntry { identity_id: id.clone(), conn });
                assert(entries_unique(self@)) by {
                    assert(forall|j: int| 0 <= j < before.len() ==> before[j].conn != conn);
                    assert(forall|j: int| 0 <= j < before.len() && j != i ==> self@[j] == before[j]);
                }
                Ok(Some(previous))
            },
        }
    }

    /// Removes the entry of `id` if it still holds connection `conn`; a
    /// connection that was replaced, or a second call, changes nothing.
    pub fn unregister(&mut self, id: &String, conn: u64) -> (r: bool)
        requires
            old(self).wf(),
        ensures
            final(self).wf(),
            r <==> slot_of(old(self)@, id@) >= 0 && old(self)@[slot_of(old(self)@, id@)].conn == conn,
            r ==> final(self)@ == old(self)@.remove(slot_of(old(self)@, id@)),
            !r ==> final(self)@ == old(self)@,
    {
        match self.find(id) {
            None => false,
            Some(i) => {
                if self.entries[i].conn != conn {
                    return false;
                }
                let ghost before = self@;
                self.entries.remove(i);
                assert forall|a: int, b: int|
                    0 <= a < self@.len() && 0 <= b < self@.len() && a != b implies self@[a].identity_id@
                        != self@[b].identity_id@ && self@[a].conn != self@[b].conn by {
                    let a0 = if a < i { a } else { a + 1 };
                    let b0 = if b < i { b } else { b + 1 };
                    assert(self@[a] == before[a0]);
                    assert(self@[b] == before[b0]);
                }
                true
            },
        }
    }

    /// The connections of every registered identity but `sender_id`.
    pub fn recipients_for(&self, sender_id: &String) -> (r: Vec<u64>)
        ensures
            r@ == chat_recipients(self@, sender_id@),
    {
        let mut out: Vec<u64> = Vec::new();
        let mut i: usize = 0;
        while i < self.entries.len()
            invariant
                0 <= i <= self@.len(),
                self@ == self.entries@,
                out@ == chat_recipients(self@.subrange(0, i as int), sender_id@),
            decreases self@.len() - i,
        {
            proof {
                lemma_chat_recipients_step(self@, sender_id@, i as int);
            }
            if !(self.entries[i].identity_id == *sender_id) {
                out.push(self.entries[i].conn);
            }
            i = i + 1;
        }
        assert(self@.subrange(0, self@.len() as int) =~= self@);
        out
    }

    /// The message that `sender` wrote as `content` at `timestamp`, and the
    /// connections of everyone else that it goes to.
    pub fn relay_text(&self, sender: &Identity, content: String, timestamp: i64) -> (r: ChatDelivery)
        ensures
            is_message_of(r.message, *sender, content@, timestamp),
            r.recipients@ == chat_recipients(self@, sender.id@),
    {
        let message = ChatMessage {
            from: sender.id.clone(),
            from_name: sender.display_name.clone(),
            content,
            timestamp,
        };
        let recipients = self.recipients_for(&sender.id);
        ChatDelivery { message, recipients }
    }

    /// As `relay_text`, stamped with the current time: one message, one
    /// timestamp, for all recipients.
    pub fn relay_text_now(&self, sender: &Identity, content: String) -> (r: ChatDelivery)
        ensures
            is_message_of(r.message, *sender, content@, r.message.timestamp),
            r.recipients@ == chat_recipients(self@, sender.id@),
    {
        let now = unix_now();
        self.relay_text(sender, content, now)
    }
}

} // verus!
