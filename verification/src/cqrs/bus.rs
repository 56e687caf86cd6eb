//! The message bus: commands, queries and events become messages that are
//! logged in the store; commands and events are also queued for handling.
use vstd::prelude::*;
use super::command::Command;
use super::event::Event;
use super::kind::Kind;
use super::query::Query;
use super::queue::{Item, Queue, is_next_pow2};
use super::store::Store;

verus! {

/// Text of a command as its derived `Debug` formatting writes it.
pub uninterp spec fn command_text(c: Command) -> Seq<char>;

/// Text of a query as its derived `Debug` formatting writes it.
pub uninterp spec fn query_text(q: Query) -> Seq<char>;

/// Text of an event as its derived `Debug` formatting writes it.
pub uninterp spec fn event_text(e: Event) -> Seq<char>;

/// The `Debug` text of a command.
///
/// Trusted: `format!("{:?}", ..)` runs the derived `Debug` impl, whose
/// output depends on the command alone; what that text is is not stated.
#[verifier::external_body]
fn debug_command(c: &Command) -> (r: String)
    ensures
        r@ == command_text(*c),
{
    format!("{:?}", c)
}

/// The `Debug` text of a query.
///
/// Trusted: `format!("{:?}", ..)` runs the derived `Debug` impl, whose
/// output depends on the query alone; what that text is is not stated.
#[verifier::external_body]
fn debug_query(q: &Query) -> (r: String)
    ensures
        r@ == query_text(*q),
{
    format!("{:?}", q)
}

/// The `Debug` text of an event.
///
/// Trusted: `format!("{:?}", ..)` runs the derived `Debug` impl, whose
/// output depends on the event alone; what that text is is not stated.
#[verifier::external_body]
fn debug_event(e: &Event) -> (r: String)
    ensures
        r@ == event_text(*e),
{
    format!("{:?}", e)
}

/// The message logged and queued for a request: its number, time stamp 0,
/// its kind and its text.
pub open spec fn message(id: u64, kind: Kind, text: Seq<char>, item: Item) -> bool {
    item.id == id && item.stamp == 0 && item.kind == kind && item.data@ == text
}

/// The bus: a queue of pending messages and the log of all of them.
#[derive(Debug)]
pub struct Bus {
    /// Pending messages.
    pub queue: Queue,
    /// Log of every message.
    pub store: Store,
    /// Padding.
    pub pad: [u8; 48],
}

impl Bus {
    /// A bus whose queue holds `qcap` messages (rounded up to a power of
    /// two) and whose log keeps `scap`.
    pub fn new(qcap: usize, scap: usize) -> (r: Self)
        requires
            qcap <= usize::MAX / 2 + 1,
        ensures
            is_next_pow2(r.queue.cap, qcap),
            r.queue.wf(),
            r.queue.items().len() == 0,
            r.queue.head == 0 && r.queue.tail == 0,
            r.store.items@.len() == 0,
            r.store.cap == scap,
    {
        Self { queue: Queue::new(qcap), store: Store::new(scap), pad: [0; 48] }
    }

    /// Logs and queues command `cmd` as message 1; returns whether the
    /// queue took it.
    pub fn send(&mut self, cmd: Command) -> (r: bool)
        requires
            old(self).queue.wf(),
            old(self).queue.tail + old(self).queue.cap < usize::MAX,
        ensures
            final(self).queue.wf(),
            r == (old(self).queue.items().len() < old(self).queue.cap || old(self).queue.cap == 1),
            r ==> final(self).queue.items().len() == old(self).queue.items().len() + 1
                && message(1, Kind::Command, command_text(cmd), final(self).queue.items().last()),
            r && (old(self).queue.cap >= 2 || old(self).queue.items().len() == 0)
                ==> final(self).queue.items().drop_last() == old(self).queue.items(),
            r ==> final(self).queue.tail == old(self).queue.tail + 1 && final(self).queue.head == old(self).queue.head
                && final(self).queue.cap == old(self).queue.cap,
            !r ==> final(self).queue == old(self).queue,
            final(self).store.cap == old(self).store.cap,
            old(self).store.items@.len() < old(self).store.cap ==> final(self).store.items@.len()
                == old(self).store.items@.len() + 1 && final(self).store.items@.drop_last()
                == old(self).store.items@ && message(1, Kind::Command, command_text(cmd), final(self).store.items@.last()),
            old(self).store.items@.len() >= old(self).store.cap ==> final(self).store.items@ == old(self).store.items@,
    {
        let text = debug_command(&cmd);
        let logged = Item { id: 1, stamp: 0, kind: Kind::Command, data: text.clone() };
        let item = Item { id: 1, stamp: 0, kind: Kind::Command, data: text };
        self.store.record(logged);
        let r = self.queue.push(item);
        proof {
            if r && (old(self).queue.cap >= 2 || old(self).queue.items().len() == 0) {
                assert(self.queue.items().drop_last() =~= old(self).queue.items());
            }
            if old(self).store.items@.len() < old(self).store.cap {
                assert(self.store.items@.drop_last() =~= old(self).store.items@);
            }
        }
        r
    }

    /// Logs query `query` as message 2 and returns the message.
    pub fn ask(&mut self, query: Query) -> (r: Option<Item>)
        ensures
            r is Some && message(2, Kind::Query, query_text(query), r->Some_0),
            final(self).queue == old(self).queue,
            final(self).store.cap == old(self).store.cap,
            old(self).store.items@.len() < old(self).store.cap ==> final(self).store.items@
                == old(self).store.items@.push(r->Some_0),
            old(self).store.items@.len() >= old(self).store.cap ==> final(self).store.items@ == old(self).store.items@,
    {
        let text = debug_query(&query);
        let logged = Item { id: 2, stamp: 0, kind: Kind::Query, data: text.clone() };
        let item = Item { id: 2, stamp: 0, kind: Kind::Query, data: text };
        self.store.record(logged);
        Some(item)
    }

    /// Logs and queues event `event` as message 3; returns whether the
    /// queue took it.
    pub fn emit(&mut self, event: Event) -> (r: bool)
        requires
            old(self).queue.wf(),
            old(self).queue.tail + old(self).queue.cap < usize::MAX,
        ensures
            final(self).queue.wf(),
            r == (old(self).queue.items().len() < old(self).queue.cap || old(self).queue.cap == 1),
            r ==> final(self).queue.items().len() == old(self).queue.items().len() + 1
                && message(3, Kind::Event, event_text(event), final(self).queue.items().last()),
            r && (old(self).queue.cap >= 2 || old(self).queue.items().len() == 0)
                ==> final(self).queue.items().drop_last() == old(self).queue.items(),
            r ==> final(self).queue.tail == old(self).queue.tail + 1 && final(self).queue.head == old(self).queue.head
                && final(self).queue.cap == old(self).queue.cap,
            !r ==> final(self).queue == old(self).queue,
            final(self).store.cap == old(self).store.cap,
            old(self).store.items@.len() < old(self).store.cap ==> final(self).store.items@.len()
                == old(self).store.items@.len() + 1 && final(self).store.items@.drop_last()
                == old(self).store.items@ && message(3, Kind::Event, event_text(event), final(self).store.items@.last()),
            old(self).store.items@.len() >= old(self).store.cap ==> final(self).store.items@ == old(self).store.items@,
    {
        let text = debug_event(&event);
        let logged = Item { id: 3, stamp: 0, kind: Kind::Event, data: text.clone() };
        let item = Item { id: 3, stamp: 0, kind: Kind::Event, data: text };
        self.store.record(logged);
        let r = self.queue.push(item);
        proof {
            if r && (old(self).queue.cap >= 2 || old(self).queue.items().len() == 0) {
                assert(self.queue.items().drop_last() =~= old(self).queue.items());
            }
            if old(self).store.items@.len() < old(self).store.cap {
                assert(self.store.items@.drop_last() =~= old(self).store.items@);
            }
        }
        r
    }

    /// Takes the oldest pending message (a single-slot queue must hold at
    /// most one push, as in `Queue::pop`).
    pub fn poll(&mut self) -> (r: Option<Item>)
        requires
            old(self).queue.wf(),
            old(self).queue.cap == 1 ==> old(self).queue.items().len() <= 1,
        ensures
            final(self).queue.wf(),
            final(self).store == old(self).store,
            old(self).queue.items().len() == 0 ==> r is None && final(self).queue == old(self).queue,
            old(self).queue.items().len() > 0 ==> r == Some(old(self).queue.items()[0])
                && final(self).queue.items() == old(self).queue.items().drop_first(),
            old(self).queue.items().len() > 0 ==> final(self).queue.head == old(self).queue.head + 1
                && final(self).queue.tail == old(self).queue.tail && final(self).queue.cap == old(self).queue.cap,
    {
        self.queue.pop()
    }

    /// Empties the log.
    pub fn clear(&mut self)
        ensures
            final(self).store.items@.len() == 0,
            final(self).store.cap == old(self).store.cap,
            final(self).queue == old(self).queue,
    {
        self.store.clear();
    }
}

impl Default for Bus {
    /// A bus with a queue of 1024 messages and a log of 65536.
    fn default() -> (r: Self)
        ensures
            r.queue.wf(),
            is_next_pow2(r.queue.cap, 1024) && r.queue.head == 0 && r.queue.tail == 0,
            r.queue.items().len() == 0,
            r.store.items@.len() == 0,
            r.store.cap == 65536,
    {
        Self::new(1024, 65536)
    }
}

} // verus!
