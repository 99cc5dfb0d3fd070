use vstd::prelude::*;
use crate::conn_info::{ConnectionInfo, Handle};
use crate::evh_config::{attachment_key, attachment_key_of};
use std::collections::HashMap;
use vstd::std_specs::hash::spec_values_iter;
use vstd::std_specs::iter::IteratorSpec;

verus! {

/// What an event on a socket is for.
#[derive(Debug, Clone, Copy, PartialEq, Eq, Structural)]
pub enum EventTarget {
    /// No connection has the socket.
    UnknownHandle,
    /// The socket names a connection id that is not in the table.
    UnknownId(u128),
    /// The connection with that id.
    Found(u128, ConnectionInfo),
}

/// The id and the socket under which a connection is kept.
pub open spec fn key_of(ci: ConnectionInfo) -> (u128, Handle) {
    match ci {
        ConnectionInfo::ListenerInfo(li) => (li.id, li.handle),
        ConnectionInfo::StreamInfo(si) => (si.id, si.handle),
    }
}

/// What an event on `handle` is for, given the connections by id and the ids by socket.
pub open spec fn target_of(conns: Map<u128, ConnectionInfo>, handles: Map<Handle, u128>, handle: Handle) -> EventTarget {
    if !handles.dom().contains(handle) {
        EventTarget::UnknownHandle
    } else if !conns.dom().contains(handles[handle]) {
        EventTarget::UnknownId(handles[handle])
    } else {
        EventTarget::Found(handles[handle], conns[handles[handle]])
    }
}

/// Whether a connection under `id` and `handle` fits in tables of the given capacity.
pub open spec fn has_room(
    conns: Map<u128, ConnectionInfo>,
    handles: Map<Handle, u128>,
    capacity: nat,
    id: u128,
    handle: Handle,
) -> bool {
    &&& (conns.dom().contains(id) || conns.len() < capacity)
    &&& (handles.dom().contains(handle) || handles.len() < capacity)
}

/// The connections of one thread of the event handler: each by its id, and the id of each
/// by its socket, both holding at most a fixed number of entries.
pub struct ConnectionTable {
    connections: HashMap<u128, ConnectionInfo>,
    handles: HashMap<Handle, u128>,
    capacity: usize,
}

impl ConnectionTable {
    /// Neither table holds more than the capacity.
    pub closed spec fn wf(&self) -> bool {
        &&& self.connections@.len() <= self.capacity
        &&& self.handles@.len() <= self.capacity
        &&& self.connections@.dom().finite()
        &&& self.handles@.dom().finite()
    }

    /// The connections by id.
    pub closed spec fn conns(&self) -> Map<u128, ConnectionInfo> {
        self.connections@
    }

    /// The connection ids by socket.
    pub closed spec fn ids(&self) -> Map<Handle, u128> {
        self.handles@
    }

    /// How many entries each table may hold.
    pub closed spec fn spec_capacity(&self) -> nat {
        self.capacity as nat
    }

    /// Empty tables that may hold `capacity` entries each.
    pub fn new(capacity: usize) -> (r: ConnectionTable)
        ensures
            r.conns() == Map::<u128, ConnectionInfo>::empty(),
            r.ids() == Map::<Handle, u128>::empty(),
            r.spec_capacity() == capacity,
            r.wf(),
    {
        let r = ConnectionTable { connections: HashMap::new(), handles: HashMap::new(), capacity };
        assert(r.connections@.dom() =~= Set::empty());
        assert(r.handles@.dom() =~= Set::empty());
        r
    }

    /// Keeps `ci` under its id and socket. When either table is full and lacks the key,
    /// nothing changes and false is returned.
    pub fn insert(&mut self, ci: ConnectionInfo) -> (ok: bool)
        requires
            old(self).wf(),
        ensures
            final(self).wf(),
            ok == has_room(old(self).conns(), old(self).ids(), old(self).spec_capacity(), key_of(ci).0, key_of(ci).1),
            ok ==> final(self).conns() == old(self).conns().insert(key_of(ci).0, ci),
            ok ==> final(self).ids() == old(self).ids().insert(key_of(ci).1, key_of(ci).0),
            !ok ==> final(self).conns() == old(self).conns() && final(self).ids() == old(self).ids(),
            final(self).spec_capacity() == old(self).spec_capacity(),
    {
        let (id, handle) = match ci {
            ConnectionInfo::ListenerInfo(li) => (li.id, li.handle),
            ConnectionInfo::StreamInfo(si) => (si.id, si.handle),
        };
        let conn_room = self.connections.contains_key(&id) || self.connections.len() < self.capacity;
        let handle_room = self.handles.contains_key(&handle) || self.handles.len() < self.capacity;
        if !(conn_room && handle_room) {
            return false;
        }
        proof {
            lemma_insert_len(self.connections@, id, ci);
            lemma_insert_len(self.handles@, handle, id);
        }
        self.connections.insert(id, ci);
        self.handles.insert(handle, id);
        true
    }

    /// What an event on `handle` is for.
    pub fn lookup(&self, handle: Handle) -> (r: EventTarget)
        ensures
            r == target_of(self.conns(), self.ids(), handle),
    {
        match self.handles.get(&handle) {
            None => EventTarget::UnknownHandle,
            Some(id) => {
                let id = *id;
                match self.connections.get(&id) {
                    None => EventTarget::UnknownId(id),
                    Some(ci) => EventTarget::Found(id, *ci),
                }
            },
        }
    }

    /// The connection kept under `id`, if any.
    pub fn get(&self, id: u128) -> (r: Option<ConnectionInfo>)
        ensures
            r == (if self.conns().dom().contains(id) {
                Some(self.conns()[id])
            } else {
                None
            }),
    {
        match self.connections.get(&id) {
            Some(ci) => Some(*ci),
            None => None,
        }
    }

    /// Puts back the connection `id` as it is now; an id not in the table is left out and
    /// false is returned.
    pub fn write_back(&mut self, id: u128, ci: ConnectionInfo) -> (ok: bool)
        requires
            old(self).wf(),
        ensures
            final(self).wf(),
            ok == old(self).conns().dom().contains(id),
            ok ==> final(self).conns() == old(self).conns().insert(id, ci),
            !ok ==> final(self).conns() == old(self).conns(),
            final(self).ids() == old(self).ids(),
            final(self).spec_capacity() == old(self).spec_capacity(),
    {
        if !self.connections.contains_key(&id) {
            return false;
        }
        proof {
            lemma_insert_len(self.connections@, id, ci);
        }
        self.connections.insert(id, ci);
        true
    }

    /// Forgets the connection `id` and its socket `handle`.
    pub fn remove(&mut self, id: u128, handle: Handle)
        requires
            old(self).wf(),
        ensures
            final(self).wf(),
            final(self).conns() == old(self).conns().remove(id),
            final(self).ids() == old(self).ids().remove(handle),
            final(self).spec_capacity() == old(self).spec_capacity(),
    {
        proof {
            lemma_remove_len(self.connections@, id);
            lemma_remove_len(self.handles@, handle);
        }
        self.connections.remove(&id);
        self.handles.remove(&handle);
    }

    /// Forgets every connection and socket, and returns the connections, each once, in no
    /// particular order.
    pub fn take_all(&mut self) -> (r: Vec<ConnectionInfo>)
        requires
            old(self).wf(),
        ensures
            final(self).wf(),
            r@.to_set() == old(self).conns().values(),
            r@.len() == old(self).conns().len(),
            final(self).conns() == Map::<u128, ConnectionInfo>::empty(),
            final(self).ids() == Map::<Handle, u128>::empty(),
            final(self).spec_capacity() == old(self).spec_capacity(),
    {
        let mut r: Vec<ConnectionInfo> = Vec::new();
        for ci in it: self.connections.values()
            invariant
                r@.len() == it.index(),
                forall|i: int| 0 <= i < it.index() ==> r@[i] == *it.seq()[i],
        {
            r.push(*ci);
        }
        proof {
            assert(r@ =~= spec_values_iter(&self.connections).remaining().unref());
        }
        self.connections.clear();
        self.handles.clear();
        proof {
            assert(self.connections@.dom() =~= Set::empty());
            assert(self.handles@.dom() =~= Set::empty());
        }
        r
    }

    /// How many connections are kept.
    pub fn len(&self) -> (r: usize)
        ensures
            r == self.conns().len(),
    {
        self.connections.len()
    }
}

/// The listener that accepted a connection, for an accepted stream.
pub open spec fn accept_id_of(ci: ConnectionInfo) -> Option<u128> {
    match ci {
        ConnectionInfo::ListenerInfo(_) => None,
        ConnectionInfo::StreamInfo(si) => si.accept_id,
    }
}

/// Moves the attachment meant for `ci` out of `pending`, where the thread that handed the
/// connection over left it, into `attachments`, under the id of `ci`: the one kept under
/// that id, else, for a stream, the one kept under the id of the listener that accepted it.
pub fn move_attachment<A>(pending: &mut HashMap<u128, A>, attachments: &mut HashMap<u128, A>, ci: &ConnectionInfo)
    ensures
        ({
            let id = key_of(*ci).0;
            match attachment_key_of(old(pending)@.dom(), id, accept_id_of(*ci)) {
                Some(k) => {
                    &&& final(pending)@ == old(pending)@.remove(k)
                    &&& final(attachments)@ == old(attachments)@.insert(id, old(pending)@[k])
                },
                None => final(pending)@ == old(pending)@ && final(attachments)@ == old(attachments)@,
            }
        }),
{
    let (id, accept_id) = match ci {
        ConnectionInfo::ListenerInfo(li) => (li.id, None),
        ConnectionInfo::StreamInfo(si) => (si.id, si.accept_id),
    };
    match attachment_key(pending, id, accept_id) {
        Some(k) => {
            match pending.remove(&k) {
                Some(a) => {
                    attachments.insert(id, a);
                },
                None => {},
            }
        },
        None => {},
    }
}

/// Inserting a key that is new adds one entry, and one that is there adds none.
proof fn lemma_insert_len<K, V>(m: Map<K, V>, k: K, v: V)
    requires
        m.dom().finite(),
    ensures
        m.insert(k, v).dom().finite(),
        m.dom().contains(k) ==> m.insert(k, v).len() == m.len(),
        !m.dom().contains(k) ==> m.insert(k, v).len() == m.len() + 1,
{
    if m.dom().contains(k) {
        assert(m.insert(k, v).dom() =~= m.dom());
    } else {
        assert(m.insert(k, v).dom() =~= m.dom().insert(k));
    }
}

/// Removing a key leaves no more entries than before.
proof fn lemma_remove_len<K, V>(m: Map<K, V>, k: K)
    requires
        m.dom().finite(),
    ensures
        m.remove(k).dom().finite(),
        m.remove(k).len() <= m.len(),
{
    if m.dom().contains(k) {
        assert(m.remove(k).dom() =~= m.dom().remove(k));
    } else {
        assert(m.remove(k).dom() =~= m.dom());
    }
}

/// A connection kept under its id and socket is what an event on that socket is for.
pub proof fn law_insert_then_lookup(
    conns: Map<u128, ConnectionInfo>,
    handles: Map<Handle, u128>,
    ci: ConnectionInfo,
)
    ensures
        target_of(conns.insert(key_of(ci).0, ci), handles.insert(key_of(ci).1, key_of(ci).0), key_of(ci).1)
            == EventTarget::Found(key_of(ci).0, ci),
{
}

/// Once a connection and its socket are forgotten, an event on that socket is for no
/// connection.
pub proof fn law_remove_then_lookup(conns: Map<u128, ConnectionInfo>, handles: Map<Handle, u128>, id: u128, handle: Handle)
    ensures
        target_of(conns.remove(id), handles.remove(handle), handle) == EventTarget::UnknownHandle,
{
}

/// Keeping or forgetting one connection does not change what an event on another socket,
/// naming another id, is for.
pub proof fn law_other_sockets_unchanged(
    conns: Map<u128, ConnectionInfo>,
    handles: Map<Handle, u128>,
    ci: ConnectionInfo,
    other: Handle,
)
    requires
        other != key_of(ci).1,
        handles.dom().contains(other) ==> handles[other] != key_of(ci).0,
    ensures
        target_of(conns.insert(key_of(ci).0, ci), handles.insert(key_of(ci).1, key_of(ci).0), other) == target_of(
            conns,
            handles,
            other,
        ),
        target_of(conns.remove(key_of(ci).0), handles.remove(key_of(ci).1), other) == target_of(conns, handles, other),
{
}

} // verus!
