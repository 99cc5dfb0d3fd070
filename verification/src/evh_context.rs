use vstd::prelude::*;
use crate::conn_info::{ConnectionInfo, Handle, ListenerInfo, StreamInfo};
use crate::conn_table::{target_of, ConnectionTable, EventTarget};
use crate::evh_config::LastProcessType;
use crate::poll::{Event, EventIn, EventType, EventTypeIn, FilterSet};
use crate::write_state::QueuedEvent;
use crate::slabs::{SlabStore, NO_SLAB};
use std::collections::HashMap;

verus! {

impl Default for Event {
    /// An event to read on socket zero, which fills the event array before the poller
    /// writes into it.
    fn default() -> (r: Event)
        ensures
            r == (Event { handle: 0, etype: EventType::Read }),
    {
        Event { handle: 0, etype: EventType::Read }
    }
}

/// What a thread does with the next event of the last wait.
#[derive(Debug, Clone, Copy, PartialEq, Eq, Structural)]
pub enum EventStep {
    /// Drains the wakeup socket.
    Wakeup(Handle),
    /// Accepts the connections waiting on a listener.
    Accept(u128, ListenerInfo),
    /// Reads from a stream.
    Read(u128, StreamInfo),
    /// Writes to a stream.
    Write(u128, StreamInfo),
    /// Warns of a socket that names no connection.
    UnknownHandle(Handle),
    /// Warns of a connection id that is not in the table.
    UnknownId(u128),
}

/// What a thread does with `ev`, given the socket it is woken up through and its
/// connections by id and ids by socket.
pub open spec fn step_of(
    ev: Event,
    wakeup_reader: Handle,
    conns: Map<u128, ConnectionInfo>,
    ids: Map<Handle, u128>,
) -> EventStep {
    if ev.handle == wakeup_reader {
        EventStep::Wakeup(ev.handle)
    } else {
        match target_of(conns, ids, ev.handle) {
            EventTarget::UnknownHandle => EventStep::UnknownHandle(ev.handle),
            EventTarget::UnknownId(id) => EventStep::UnknownId(id),
            EventTarget::Found(id, ConnectionInfo::ListenerInfo(li)) => EventStep::Accept(id, li),
            EventTarget::Found(id, ConnectionInfo::StreamInfo(si)) => match ev.etype {
                EventType::Read => EventStep::Read(id, si),
                EventType::Write => EventStep::Write(id, si),
            },
        }
    }
}

/// The poller request for a stream taken from the write queue.
pub open spec fn queued_request(handle: Handle, ev: QueuedEvent) -> EventIn {
    EventIn {
        handle,
        etype: match ev {
            QueuedEvent::Suspend => EventTypeIn::Suspend,
            QueuedEvent::Resume => EventTypeIn::Resume,
            QueuedEvent::Write => EventTypeIn::Write,
        },
    }
}

/// What the write queue named: a connection the thread does not have, a listener (which
/// cannot be written to), or a stream.
#[derive(Debug, Clone, Copy, PartialEq, Eq, Structural)]
pub enum QueueTarget {
    /// No connection has the id.
    Unknown(u128),
    /// The id is a listener's, with this socket.
    Listener(Handle),
    /// The stream with the id.
    Stream(StreamInfo),
}

/// The state of one thread of the event handler: the events the poller gave and the
/// requests for it, which sockets it watches, its connections, its read slabs, when it last
/// ran the housekeeper, what it ran last, and the attachments of its connections.
pub struct EventHandlerContext<A> {
    /// The index of the thread.
    pub tid: usize,
    /// The events of the last wait, in the first `count` entries.
    pub events: Vec<Event>,
    /// The requests for the poller gathered since the last wait.
    pub events_in: Vec<EventIn>,
    /// Which sockets are registered with the poller.
    pub filter_set: FilterSet,
    /// The connections of the thread.
    pub table: ConnectionTable,
    /// The slabs that hold the bytes read.
    pub read_slabs: SlabStore,
    /// The time the last wait ended, in milliseconds.
    pub now: u128,
    /// The time the housekeeper last ran, in milliseconds.
    pub last_housekeeper: u128,
    /// The index of the next event to process.
    pub counter: usize,
    /// The number of events of the last wait.
    pub count: usize,
    /// What the thread ran last.
    pub last_process_type: LastProcessType,
    /// The stream being read when the read callback last ran.
    pub last_rw: Option<StreamInfo>,
    /// Plaintext read from a TLS session and not yet put into slabs.
    pub buffer: Vec<u8>,
    /// Whether the stream being processed is to be put back into the table.
    pub do_write_back: bool,
    /// The attachments of the connections, by connection id.
    pub attachments: HashMap<u128, A>,
}

impl<A> EventHandlerContext<A> {
    /// The state of thread `tid`: room for twice `max_events` events, no requests, no socket
    /// watched among the first `max_handles_per_thread` plus a hundred, tables for
    /// `max_handles_per_thread` connections, `read_slab_count` free read slabs, and nothing run
    /// yet.
    pub fn new(
        tid: usize,
        max_events_in: usize,
        max_events: usize,
        max_handles_per_thread: usize,
        read_slab_count: usize,
    ) -> (r: EventHandlerContext<A>)
        requires
            max_events * 2 <= usize::MAX,
            max_handles_per_thread + 100 <= usize::MAX / 8,
            read_slab_count < NO_SLAB,
            read_slab_count * 518 <= usize::MAX,
        ensures
            r.tid == tid,
            r.events@ == Seq::new((max_events * 2) as nat, |i: int| Event { handle: 0, etype: EventType::Read }),
            r.events_in@.len() == 0,
            r.filter_set.view() == Seq::<bool>::empty(),
            r.table.wf(),
            r.table.conns() == Map::<u128, crate::conn_info::ConnectionInfo>::empty(),
            r.table.ids() == Map::<i32, u128>::empty(),
            r.table.spec_capacity() == max_handles_per_thread,
            r.read_slabs.wf(),
            r.read_slabs.count() == read_slab_count,
            forall|i: int| 0 <= i < read_slab_count ==> !r.read_slabs.in_use(i),
            r.now == 0,
            r.last_housekeeper == 0,
            r.counter == 0,
            r.count == 0,
            r.last_process_type == LastProcessType::OnRead,
            r.last_rw is None,
            r.buffer@.len() == 0,
            !r.do_write_back,
            r.attachments@ == Map::<u128, A>::empty(),
    {
        let n = max_events * 2;
        let mut events: Vec<Event> = Vec::new();
        let mut i: usize = 0;
        while i < n
            invariant
                i <= n,
                events@ == Seq::new(i as nat, |k: int| Event { handle: 0, etype: EventType::Read }),
            decreases n - i,
        {
            events.push(Event::default());
            i = i + 1;
        }
        EventHandlerContext {
            tid,
            events,
            events_in: Vec::with_capacity(max_events_in),
            filter_set: FilterSet::new(max_handles_per_thread + 100),
            table: ConnectionTable::new(max_handles_per_thread),
            read_slabs: SlabStore::new(read_slab_count),
            now: 0,
            last_housekeeper: 0,
            counter: 0,
            count: 0,
            last_process_type: LastProcessType::OnRead,
            last_rw: None,
            buffer: Vec::new(),
            do_write_back: false,
            attachments: HashMap::new(),
        }
    }

    /// What the write queue's `id` names among the thread's connections.
    pub fn queue_target(&self, id: u128) -> (r: QueueTarget)
        ensures
            r == (if !self.table.conns().dom().contains(id) {
                QueueTarget::Unknown(id)
            } else {
                match self.table.conns()[id] {
                    ConnectionInfo::ListenerInfo(li) => QueueTarget::Listener(li.handle),
                    ConnectionInfo::StreamInfo(si) => QueueTarget::Stream(si),
                }
            }),
    {
        match self.table.get(id) {
            None => QueueTarget::Unknown(id),
            Some(ConnectionInfo::ListenerInfo(li)) => QueueTarget::Listener(li.handle),
            Some(ConnectionInfo::StreamInfo(si)) => QueueTarget::Stream(si),
        }
    }

    /// Adds the poller request for a stream taken from the write queue: stop watching a
    /// suspended one, watch a resumed one again, else watch it for writing.
    pub fn request(&mut self, handle: Handle, ev: QueuedEvent)
        ensures
            final(self).events_in@ == old(self).events_in@.push(queued_request(handle, ev)),
            final(self).table == old(self).table,
            final(self).counter == old(self).counter,
            final(self).count == old(self).count,
    {
        let etype = match ev {
            QueuedEvent::Suspend => EventTypeIn::Suspend,
            QueuedEvent::Resume => EventTypeIn::Resume,
            QueuedEvent::Write => EventTypeIn::Write,
        };
        self.events_in.push(EventIn { handle, etype });
    }

    /// Takes the next event of the last wait, if any is left, and says what to do with it.
    pub fn next_event(&mut self, wakeup_reader: Handle) -> (r: Option<EventStep>)
        requires
            old(self).counter <= old(self).count <= old(self).events@.len(),
        ensures
            old(self).counter == old(self).count ==> r is None && final(self).counter == old(self).counter,
            old(self).counter < old(self).count ==> {
                &&& final(self).counter == old(self).counter + 1
                &&& r == Some(
                    step_of(
                        old(self).events@[old(self).counter as int],
                        wakeup_reader,
                        old(self).table.conns(),
                        old(self).table.ids(),
                    ),
                )
            },
            final(self).count == old(self).count,
            final(self).events@ == old(self).events@,
            final(self).table == old(self).table,
    {
        if self.counter == self.count {
            return None;
        }
        let ev = self.events[self.counter];
        self.counter = self.counter + 1;
        if ev.handle == wakeup_reader {
            return Some(EventStep::Wakeup(ev.handle));
        }
        let step = match self.table.lookup(ev.handle) {
            EventTarget::UnknownHandle => EventStep::UnknownHandle(ev.handle),
            EventTarget::UnknownId(id) => EventStep::UnknownId(id),
            EventTarget::Found(id, ConnectionInfo::ListenerInfo(li)) => EventStep::Accept(id, li),
            EventTarget::Found(id, ConnectionInfo::StreamInfo(si)) => match ev.etype {
                EventType::Read => EventStep::Read(id, si),
                EventType::Write => EventStep::Write(id, si),
            },
        };
        Some(step)
    }
}

/// An event on a socket other than the wakeup socket, whose socket names a stream of the
/// thread, makes the stream read when it says bytes can be read and written when it says
/// bytes can be written: the step's kind follows the event's type, with the stream's id and
/// stream.
pub proof fn law_stream_step_follows_event_type(
    ev: Event,
    wakeup_reader: Handle,
    conns: Map<u128, ConnectionInfo>,
    ids: Map<Handle, u128>,
    si: StreamInfo,
)
    requires
        ev.handle != wakeup_reader,
        ids.dom().contains(ev.handle),
        conns.dom().contains(ids[ev.handle]),
        conns[ids[ev.handle]] == ConnectionInfo::StreamInfo(si),
    ensures
        ev.etype == EventType::Read ==> step_of(ev, wakeup_reader, conns, ids) == EventStep::Read(ids[ev.handle], si),
        ev.etype == EventType::Write ==> step_of(ev, wakeup_reader, conns, ids) == EventStep::Write(ids[ev.handle], si),
        (step_of(ev, wakeup_reader, conns, ids) is Read) <==> ev.etype == EventType::Read,
{
}

/// An event on a socket that names a listener accepts on it, whatever the event's type;
/// an event on the wakeup socket drains it.
pub proof fn law_listener_and_wakeup_steps(
    ev: Event,
    wakeup_reader: Handle,
    conns: Map<u128, ConnectionInfo>,
    ids: Map<Handle, u128>,
)
    ensures
        ev.handle == wakeup_reader ==> step_of(ev, wakeup_reader, conns, ids) == EventStep::Wakeup(ev.handle),
        ev.handle != wakeup_reader && ids.dom().contains(ev.handle) && conns.dom().contains(ids[ev.handle])
            && conns[ids[ev.handle]] is ListenerInfo ==> step_of(ev, wakeup_reader, conns, ids) == EventStep::Accept(
            ids[ev.handle],
            conns[ids[ev.handle]]->ListenerInfo_0,
        ),
        ev.handle != wakeup_reader && !ids.dom().contains(ev.handle) ==> step_of(ev, wakeup_reader, conns, ids)
            == EventStep::UnknownHandle(ev.handle),
{
}

} // verus!
