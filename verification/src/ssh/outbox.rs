//! The outbox of a connection: the events that were published, read by any
//! number of readers, each of which sees every event published since it
//! began to read. The outbox has no bound.

use super::connection::{SshEvent, SshEventView};
use vstd::prelude::*;

verus! {

/// What a reader that stands at `position` reads next from `log`, and where
/// it stands after that.
pub open spec fn read(log: Seq<SshEventView>, position: nat) -> (Option<SshEventView>, nat) {
    if position < log.len() {
        (Some(log[position as int]), position + 1)
    } else {
        (None, position)
    }
}

/// The outbox of a connection: every event that was published, in order.
/// Reading takes nothing away, so every reader sees every event.
pub struct EventOutbox {
    events: Vec<SshEvent>,
}

impl View for EventOutbox {
    type V = Seq<SshEventView>;

    closed spec fn view(&self) -> Seq<SshEventView> {
        self.events.deep_view()
    }
}

/// The place of one reader in an outbox.
#[derive(Debug, Clone, Copy, PartialEq, Eq, Structural)]
pub struct EventReader {
    position: usize,
}

impl View for EventReader {
    type V = nat;

    /// How many events of the outbox lie behind the reader.
    closed spec fn view(&self) -> nat {
        self.position as nat
    }
}

impl EventOutbox {
    /// An outbox in which nothing was published.
    pub fn new() -> (outbox: EventOutbox)
        ensures
            outbox@.len() == 0,
    {
        EventOutbox { events: Vec::new() }
    }

    /// How many events were published.
    pub fn len(&self) -> (n: usize)
        ensures
            n == self@.len(),
    {
        self.events.len()
    }

    /// Publishes an event behind all that were published before.
    pub fn publish(&mut self, event: SshEvent)
        ensures
            final(self)@ == old(self)@.push(event@),
    {
        self.events.push(event);
        assert(self@ =~= old(self)@.push(event@));
    }

    /// Publishes events, in their order, behind all that were published
    /// before.
    pub fn publish_all(&mut self, events: Vec<SshEvent>)
        ensures
            final(self)@ == old(self)@ + events.deep_view(),
    {
        let mut events = events;
        let ghost added = events.deep_view();
        self.events.append(&mut events);
        assert(self@ =~= old(self)@ + added);
    }

    /// A reader that begins to read now: it sees every event published from
    /// now on and none that was published before.
    pub fn subscribe(&self) -> (reader: EventReader)
        ensures
            reader@ == self@.len(),
    {
        EventReader { position: self.events.len() }
    }

    /// The next event for `reader`, if one has been published that it has
    /// not read. The outbox stays as it is.
    pub fn next(&self, reader: &mut EventReader) -> (event: Option<SshEvent>)
        ensures
            final(reader)@ == read(self@, old(reader)@).1,
            match event {
                Some(e) => Some(e@) == read(self@, old(reader)@).0,
                None => read(self@, old(reader)@).0 is None,
            },
    {
        if reader.position < self.events.len() {
            let event = self.events[reader.position].clone();
            assert(self@[reader.position as int] == self.events@[reader.position as int]@);
            reader.position = reader.position + 1;
            Some(event)
        } else {
            None
        }
    }
}

/// A reader sees every event published since it began to read, in the order
/// of publication: having read `k` of them, it reads next the event that was
/// published as number `k` after it subscribed, and once it has read them
/// all it reads nothing until more is published.
pub proof fn a_reader_sees_every_event_since_it_began(
    before: Seq<SshEventView>,
    since: Seq<SshEventView>,
    k: nat,
)
    requires
        k <= since.len(),
    ensures
        ({
            let log = before + since;
            let position = before.len() + k;
            if k < since.len() {
                read(log, position) == (Some(since[k as int]), position + 1)
            } else {
                read(log, position) == (None::<SshEventView>, position)
            }
        }),
{
}

} // verus!
