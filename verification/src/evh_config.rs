use vstd::prelude::*;
use crate::conn_info::Handle;
use crate::error::{err, is_err_of, ErrKind, Error};
use std::collections::HashMap;

verus! {

broadcast use vstd::std_specs::hash::group_hash_axioms;

/// The settings of an event handler.
#[derive(Debug, Clone, Copy, PartialEq, Eq, Structural)]
pub struct EventHandlerConfig {
    /// The number of threads.
    pub threads: usize,
    /// The size of the channel that feeds the threads.
    pub sync_channel_size: usize,
    /// The number of connections the write queue of a thread holds.
    pub write_queue_size: usize,
    /// The number of new connections the queue of a thread holds.
    pub nhandles_queue_size: usize,
    /// The number of events a thread hands the selector at once.
    pub max_events_in: usize,
    /// The number of events a thread takes from the selector at once.
    pub max_events: usize,
    /// How often the housekeeper runs, in milliseconds.
    pub housekeeping_frequency_millis: u128,
    /// The number of read slabs of each thread.
    pub read_slab_count: usize,
    /// The number of connections a thread serves.
    pub max_handles_per_thread: usize,
}

impl EventHandlerConfig {
    /// The default settings.
    pub open spec fn is_default(self) -> bool {
        &&& self.threads == 6
        &&& self.sync_channel_size == 10
        &&& self.write_queue_size == 100_000
        &&& self.nhandles_queue_size == 1_000
        &&& self.max_events_in == 1_000
        &&& self.max_events == 100
        &&& self.housekeeping_frequency_millis == 1_000
        &&& self.read_slab_count == 1_000
        &&& self.max_handles_per_thread == 1_000
    }
}

impl Default for EventHandlerConfig {
    fn default() -> (r: Self)
        ensures
            r.is_default(),
    {
        EventHandlerConfig {
            threads: 6,
            sync_channel_size: 10,
            write_queue_size: 100_000,
            nhandles_queue_size: 1_000,
            max_events_in: 1_000,
            max_events: 100,
            housekeeping_frequency_millis: 1_000,
            read_slab_count: 1_000,
            max_handles_per_thread: 1_000,
        }
    }
}

/// Checks the settings of an event handler: slab ids must fit below `u32::MAX`.
pub fn check_config(config: &EventHandlerConfig) -> (r: Result<(), Error>)
    ensures
        r is Ok <==> config.read_slab_count < u32::MAX,
        r matches Err(e) ==> is_err_of(e, ErrKind::Configuration, "read_slab_count must be smaller than u32::MAX"@),
{
    if config.read_slab_count as u128 >= 0xffff_ffffu128 {
        return Err(err(ErrKind::Configuration, "read_slab_count must be smaller than u32::MAX"));
    }
    Ok(())
}

/// Whether the housekeeper is due at time `now` when it last ran at `last`.
pub open spec fn housekeeping_due(now: u128, last: u128, frequency: u128) -> bool {
    (if now >= last { now - last } else { 0 }) >= frequency
}

/// Returns whether the housekeeper is due at time `now` (milliseconds) when it last ran at
/// `last`; a clock that went back counts as no time.
pub fn housekeeper_due(now: u128, last: u128, frequency: u128) -> (r: bool)
    ensures
        r == housekeeping_due(now, last, frequency),
{
    now.saturating_sub(last) >= frequency
}

/// The kind of callback a thread was running last.
#[derive(Debug, Clone, Copy, PartialEq, Eq, Structural)]
pub enum LastProcessType {
    /// The read callback.
    OnRead,
    /// The close callback.
    OnClose,
    /// The accept callback.
    OnAccept,
    /// The housekeeper.
    Housekeeper,
}

/// How a thread restarted after a callback panicked cleans up.
#[derive(Debug, Clone, Copy, PartialEq, Eq, Structural)]
pub enum RestartCleanup {
    /// Close the connection being read, then skip its event.
    CloseLastRead,
    /// Close the handle of the event being accepted, then skip the event.
    CloseAccepted,
    /// Skip the event.
    Skip,
    /// Nothing to clean up.
    Nothing,
}

/// Returns what a restarted thread does about the callback that panicked, and the index of
/// the next event to process after the event at `counter`.
pub fn restart_cleanup(last: LastProcessType, counter: usize) -> (r: (RestartCleanup, usize))
    requires
        counter < usize::MAX,
    ensures
        r.0 == match last {
            LastProcessType::OnRead => RestartCleanup::CloseLastRead,
            LastProcessType::OnAccept => RestartCleanup::CloseAccepted,
            LastProcessType::OnClose => RestartCleanup::Skip,
            LastProcessType::Housekeeper => RestartCleanup::Nothing,
        },
        r.1 == if last == LastProcessType::Housekeeper { counter } else { (counter + 1) as usize },
{
    match last {
        LastProcessType::OnRead => (RestartCleanup::CloseLastRead, counter + 1),
        LastProcessType::OnAccept => (RestartCleanup::CloseAccepted, counter + 1),
        LastProcessType::OnClose => (RestartCleanup::Skip, counter + 1),
        LastProcessType::Housekeeper => (RestartCleanup::Nothing, counter),
    }
}

/// The key of the attachment of a connection: its own when it has one, else that of the
/// listener that accepted it, when that has one.
pub open spec fn attachment_key_of(keys: Set<u128>, id: u128, accept_id: Option<u128>) -> Option<u128> {
    if keys.contains(id) {
        Some(id)
    } else {
        match accept_id {
            Some(a) => if keys.contains(a) {
                Some(a)
            } else {
                None
            },
            None => None,
        }
    }
}

/// Returns the key under which the attachment of connection `id`, accepted by the
/// listener `accept_id` if any, is found.
pub fn attachment_key<A>(attachments: &HashMap<u128, A>, id: u128, accept_id: Option<u128>) -> (r: Option<u128>)
    ensures
        r == attachment_key_of(attachments@.dom(), id, accept_id),
{
    if attachments.contains_key(&id) {
        return Some(id);
    }
    match accept_id {
        Some(a) => {
            if attachments.contains_key(&a) {
                Some(a)
            } else {
                None
            }
        },
        None => None,
    }
}

/// Returns, for a server whose listener handles are given one per thread, the threads
/// that receive a listener: those whose handle is not zero (zero skips the thread, as when
/// the port is not reused). There must be one handle per thread, else an illegal-argument
/// error.
pub fn server_threads(handles: &[Handle], threads: usize) -> (r: Result<Vec<usize>, Error>)
    ensures
        handles@.len() != threads ==> (r matches Err(e) && is_err_of(
            e,
            ErrKind::IllegalArgument,
            "connections.handles must equal the number of threads"@,
        )),
        handles@.len() == threads ==> (r matches Ok(v) && (forall|i: int|
            0 <= i < v@.len() ==> (#[trigger] v@[i]) < threads && handles@[v@[i] as int] != 0) && (forall|t: int|
            0 <= t < threads && handles@[t] != 0 ==> v@.contains(t as usize)) && (forall|i: int, j: int|
            0 <= i < j < v@.len() ==> v@[i] < v@[j])),
{
    if handles.len() != threads {
        return Err(err(ErrKind::IllegalArgument, "connections.handles must equal the number of threads"));
    }
    let mut v: Vec<usize> = Vec::new();
    let mut i: usize = 0;
    while i < threads
        invariant
            handles@.len() == threads,
            i <= threads,
            forall|k: int| 0 <= k < v@.len() ==> (#[trigger] v@[k]) < i && handles@[v@[k] as int] != 0,
            forall|t: int| 0 <= t < i && handles@[t] != 0 ==> v@.contains(t as usize),
            forall|a: int, b: int| 0 <= a < b < v@.len() ==> v@[a] < v@[b],
        decreases threads - i,
    {
        if handles[i] != 0 {
            let ghost before = v@;
            v.push(i);
            proof {
                assert forall|t: int| 0 <= t < i + 1 && handles@[t] != 0 implies v@.contains(t as usize) by {
                    if t < i {
                        let k = choose|k: int| 0 <= k < before.len() && before[k] == t as usize;
                        assert(v@[k] == t as usize);
                    } else {
                        assert(v@[before.len() as int] == i);
                    }
                }
            }
        }
        i = i + 1;
    }
    Ok(v)
}

/// Picks at random the thread a new client connection goes to.
pub fn pick_client_thread(threads: usize) -> (r: usize)
    requires
        threads > 0,
    ensures
        r < threads,
{
    client_thread(crate::rng::random_usize(), threads)
}

/// Returns the thread a new client connection goes to, from a random number.
pub fn client_thread(rand: usize, threads: usize) -> (r: usize)
    requires
        threads > 0,
    ensures
        r == rand % threads,
        r < threads,
{
    rand % threads
}

/// Whether an event handler was started, and, for each of its threads, whether it was asked
/// to stop and whether it has stopped.
pub struct RunState {
    started: bool,
    stop_asked: Vec<bool>,
    stopped: Vec<bool>,
}

impl RunState {
    /// Whether the handler was started.
    pub closed spec fn spec_started(&self) -> bool {
        self.started
    }

    /// For each thread, whether it was asked to stop.
    pub closed spec fn spec_stop_asked(&self) -> Seq<bool> {
        self.stop_asked@
    }

    /// For each thread, whether it has stopped.
    pub closed spec fn spec_stopped(&self) -> Seq<bool> {
        self.stopped@
    }

    /// A handler of `threads` threads, not started.
    pub fn new(threads: usize) -> (r: RunState)
        ensures
            !r.spec_started(),
            r.spec_stop_asked() == Seq::new(threads as nat, |i: int| false),
            r.spec_stopped() == Seq::new(threads as nat, |i: int| false),
    {
        let mut stop_asked: Vec<bool> = Vec::new();
        let mut stopped: Vec<bool> = Vec::new();
        let mut i: usize = 0;
        while i < threads
            invariant
                i <= threads,
                stop_asked@ == Seq::new(i as nat, |k: int| false),
                stopped@ == Seq::new(i as nat, |k: int| false),
            decreases threads - i,
        {
            stop_asked.push(false);
            stopped.push(false);
            i = i + 1;
        }
        RunState { started: false, stop_asked, stopped }
    }

    /// Records that the handler started its threads.
    pub fn start(&mut self)
        ensures
            final(self).spec_started(),
            final(self).spec_stop_asked() == old(self).spec_stop_asked(),
            final(self).spec_stopped() == old(self).spec_stopped(),
    {
        self.started = true;
    }

    /// Asks every thread to stop. A handler that was not started is refused with the
    /// illegal-state error "start must be called before stop", and nothing changes.
    pub fn stop(&mut self) -> (r: Result<(), Error>)
        ensures
            r is Ok <==> old(self).spec_started(),
            r matches Err(e) ==> is_err_of(e, ErrKind::IllegalState, "start must be called before stop"@)
                && *final(self) == *old(self),
            r is Ok ==> final(self).spec_stop_asked() == Seq::new(old(self).spec_stop_asked().len(), |i: int| true)
                && final(self).spec_stopped() == old(self).spec_stopped() && final(self).spec_started(),
    {
        if !self.started {
            return Err(err(ErrKind::IllegalState, "start must be called before stop"));
        }
        let n = self.stop_asked.len();
        let mut i: usize = 0;
        while i < n
            invariant
                i <= n,
                n == self.stop_asked@.len(),
                n == old(self).stop_asked@.len(),
                self.started,
                self.stopped@ == old(self).stopped@,
                forall|k: int| 0 <= k < i ==> self.stop_asked@[k],
            decreases n - i,
        {
            self.stop_asked.set(i, true);
            i = i + 1;
        }
        assert(self.stop_asked@ =~= Seq::new(n as nat, |k: int| true));
        Ok(())
    }

    /// Whether thread `tid` was asked to stop; a thread that is not one of the handler's is
    /// not.
    pub fn stop_asked(&self, tid: usize) -> (r: bool)
        ensures
            r == (tid < self.spec_stop_asked().len() && self.spec_stop_asked()[tid as int]),
    {
        tid < self.stop_asked.len() && self.stop_asked[tid]
    }

    /// Records that thread `tid` has stopped; another thread number changes nothing.
    pub fn thread_stopped(&mut self, tid: usize)
        ensures
            final(self).spec_started() == old(self).spec_started(),
            final(self).spec_stop_asked() == old(self).spec_stop_asked(),
            tid < old(self).spec_stopped().len() ==> final(self).spec_stopped() == old(self).spec_stopped().update(
                tid as int,
                true,
            ),
            tid >= old(self).spec_stopped().len() ==> final(self).spec_stopped() == old(self).spec_stopped(),
    {
        if tid < self.stopped.len() {
            self.stopped.set(tid, true);
        }
    }

    /// Whether every thread has stopped, so that the thread pool may be stopped.
    pub fn all_stopped(&self) -> (r: bool)
        ensures
            r == forall|i: int| 0 <= i < self.spec_stopped().len() ==> self.spec_stopped()[i],
    {
        let mut i: usize = 0;
        while i < self.stopped.len()
            invariant
                i <= self.stopped@.len(),
                forall|k: int| 0 <= k < i ==> self.stopped@[k],
            decreases self.stopped@.len() - i,
        {
            if !self.stopped[i] {
                assert(!self.spec_stopped()[i as int]);
                return false;
            }
            i = i + 1;
        }
        true
    }
}

} // verus!
