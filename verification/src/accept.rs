use vstd::prelude::*;
use crate::conn_info::{Handle, ListenerInfo, StreamInfo};
use crate::error::{is_err_of, ErrKind, Error};
use crate::evh_config::server_threads;

verus! {

/// What the accept loop of a listener does with what `accept` gave.
#[derive(Debug, Clone, Copy, PartialEq, Eq, Structural)]
pub enum AcceptStep {
    /// Nothing more waits, or the accept failed: the loop ends.
    Stop,
    /// The connection is closed at once (its TLS session could not be made).
    Drop(Handle),
    /// The connection is served by this thread.
    Here(StreamInfo),
    /// The connection is handed to the thread with this index.
    Hand(usize, StreamInfo),
}

/// The stream made for the socket `handle` accepted by `li`: it has no read chain yet,
/// and it keeps the listener's socket and id.
pub open spec fn accepted_stream(li: ListenerInfo, handle: Handle, id: u128, write_state: usize, tls_server: Option<usize>) -> StreamInfo {
    StreamInfo {
        id,
        handle,
        accept_handle: Some(li.handle),
        accept_id: Some(li.id),
        write_state,
        first_slab: u32::MAX,
        last_slab: u32::MAX,
        slab_offset: 0,
        is_accepted: true,
        tls_server,
        tls_client: None,
    }
}

/// What is done with an accept on `li` that gave `accepted` (nothing when it failed), with
/// the TLS session made for it when the listener has a TLS configuration, the new
/// connection's id and write state, and a random number that picks the thread among
/// `threads` when the port is not reused.
pub open spec fn accept_outcome(
    li: ListenerInfo,
    accepted: Option<Handle>,
    tls_session: Option<usize>,
    id: u128,
    write_state: usize,
    rand: usize,
    threads: usize,
) -> AcceptStep {
    match accepted {
        None => AcceptStep::Stop,
        Some(h) => {
            if h < 0 {
                AcceptStep::Stop
            } else if li.tls_config is Some && tls_session is None {
                AcceptStep::Drop(h)
            } else {
                let tls = if li.tls_config is Some {
                    tls_session
                } else {
                    None
                };
                let si = accepted_stream(li, h, id, write_state, tls);
                if li.is_reuse_port {
                    AcceptStep::Here(si)
                } else {
                    AcceptStep::Hand(rand % threads, si)
                }
            }
        },
    }
}

/// Decides what is done with an accept on `li`. A negative handle means that nothing more
/// waits. A listener with a TLS configuration needs a TLS session for the connection, else
/// the connection is closed. A listener whose port each thread reuses serves the
/// connection itself; another hands it to the thread that `rand` picks.
pub fn accept_step(
    li: &ListenerInfo,
    accepted: Option<Handle>,
    tls_session: Option<usize>,
    id: u128,
    write_state: usize,
    rand: usize,
    threads: usize,
) -> (r: AcceptStep)
    requires
        threads > 0,
    ensures
        r == accept_outcome(*li, accepted, tls_session, id, write_state, rand, threads),
        r matches AcceptStep::Hand(tid, _) ==> tid < threads,
{
    let h = match accepted {
        None => {
            return AcceptStep::Stop;
        },
        Some(h) => h,
    };
    if h < 0 {
        return AcceptStep::Stop;
    }
    let tls_server = match li.tls_config {
        Some(_) => match tls_session {
            Some(s) => Some(s),
            None => {
                return AcceptStep::Drop(h);
            },
        },
        None => None,
    };
    let si = StreamInfo {
        id,
        handle: h,
        accept_handle: Some(li.handle),
        accept_id: Some(li.id),
        write_state,
        first_slab: u32::MAX,
        last_slab: u32::MAX,
        slab_offset: 0,
        is_accepted: true,
        tls_server,
        tls_client: None,
    };
    if li.is_reuse_port {
        AcceptStep::Here(si)
    } else {
        AcceptStep::Hand(rand % threads, si)
    }
}

/// Decides what is done with an accept on `li`, drawing the connection's id and, when the
/// port is not reused, its thread at random.
pub fn plan_accept(
    li: &ListenerInfo,
    accepted: Option<Handle>,
    tls_session: Option<usize>,
    write_state: usize,
    threads: usize,
) -> (r: AcceptStep)
    requires
        threads > 0,
    ensures
        exists|id: u128, rand: usize| r == accept_outcome(*li, accepted, tls_session, id, write_state, rand, threads),
        r matches AcceptStep::Hand(tid, _) ==> tid < threads,
{
    let id = crate::rng::random_u128();
    let rand = crate::rng::random_usize();
    accept_step(li, accepted, tls_session, id, write_state, rand, threads)
}

/// Whether the accept loop goes on after this step: it ends on `Stop`, and after a socket
/// that is not positive.
pub fn accept_again(step: &AcceptStep) -> (r: bool)
    ensures
        r == match *step {
            AcceptStep::Stop => false,
            AcceptStep::Drop(h) => h > 0,
            AcceptStep::Here(si) => si.handle > 0,
            AcceptStep::Hand(_, si) => si.handle > 0,
        },
{
    match step {
        AcceptStep::Stop => false,
        AcceptStep::Drop(h) => *h > 0,
        AcceptStep::Here(si) => si.handle > 0,
        AcceptStep::Hand(_, si) => si.handle > 0,
    }
}

/// The stream of a client connection on `handle`: no listener accepted it and it has no
/// read chain yet.
pub fn client_stream(handle: Handle, id: u128, write_state: usize, tls_client: Option<usize>) -> (r: StreamInfo)
    ensures
        r == (StreamInfo {
            id,
            handle,
            accept_handle: None,
            accept_id: None,
            write_state,
            first_slab: u32::MAX,
            last_slab: u32::MAX,
            slab_offset: 0,
            is_accepted: false,
            tls_server: None,
            tls_client,
        }),
{
    StreamInfo {
        id,
        handle,
        accept_handle: None,
        accept_id: None,
        write_state,
        first_slab: u32::MAX,
        last_slab: u32::MAX,
        slab_offset: 0,
        is_accepted: false,
        tls_server: None,
        tls_client,
    }
}

/// The listener a server adds on thread `t`.
pub open spec fn server_listener(handles: Seq<Handle>, ids: Seq<u128>, t: int, is_reuse_port: bool, tls_config: Option<usize>) -> ListenerInfo {
    ListenerInfo { id: ids[t], handle: handles[t], is_reuse_port, tls_config }
}

/// The listeners a server adds, each with the thread that gets it, in thread order: one for
/// each thread whose handle is not zero, with the id drawn for that thread. There must be
/// one handle per thread, else an illegal-argument error.
pub fn server_listeners(
    handles: &[Handle],
    ids: &[u128],
    is_reuse_port: bool,
    tls_config: Option<usize>,
    threads: usize,
) -> (r: Result<Vec<(usize, ListenerInfo)>, Error>)
    requires
        ids@.len() == handles@.len(),
    ensures
        handles@.len() != threads ==> (r matches Err(e) && is_err_of(
            e,
            ErrKind::IllegalArgument,
            "connections.handles must equal the number of threads"@,
        )),
        handles@.len() == threads ==> (r matches Ok(v) && {
            &&& forall|i: int|
                0 <= i < v@.len() ==> (#[trigger] v@[i]).0 < threads && handles@[v@[i].0 as int] != 0 && v@[i].1
                    == server_listener(handles@, ids@, v@[i].0 as int, is_reuse_port, tls_config)
            &&& forall|t: int| 0 <= t < threads && handles@[t] != 0 ==> exists|i: int| 0 <= i < v@.len() && (#[trigger] v@[i]).0 == t
            &&& forall|i: int, j: int| 0 <= i < j < v@.len() ==> v@[i].0 < v@[j].0
        }),
{
    let tids = server_threads(handles, threads)?;
    let mut v: Vec<(usize, ListenerInfo)> = Vec::new();
    let mut k: usize = 0;
    while k < tids.len()
        invariant
            handles@.len() == threads,
            ids@.len() == threads,
            k <= tids@.len(),
            v@.len() == k,
            forall|i: int| 0 <= i < tids@.len() ==> (#[trigger] tids@[i]) < threads && handles@[tids@[i] as int] != 0,
            forall|i: int, j: int| 0 <= i < j < tids@.len() ==> tids@[i] < tids@[j],
            forall|i: int|
                0 <= i < k ==> (#[trigger] v@[i]).0 == tids@[i] && v@[i].1 == server_listener(
                    handles@,
                    ids@,
                    tids@[i] as int,
                    is_reuse_port,
                    tls_config,
                ),
        decreases tids@.len() - k,
    {
        let t = tids[k];
        let li = ListenerInfo { id: ids[t], handle: handles[t], is_reuse_port, tls_config };
        v.push((t, li));
        k = k + 1;
    }
    proof {
        assert forall|t: int| 0 <= t < threads && handles@[t] != 0 implies exists|i: int|
            0 <= i < v@.len() && (#[trigger] v@[i]).0 == t by {
            assert(tids@.contains(t as usize));
            let i = choose|i: int| 0 <= i < tids@.len() && tids@[i] == t as usize;
            assert(v@[i].0 == t);
        }
    }
    Ok(v)
}

/// The stream an accept gives, whether this thread serves it or hands it off.
pub open spec fn step_stream(step: AcceptStep) -> Option<StreamInfo> {
    match step {
        AcceptStep::Here(si) => Some(si),
        AcceptStep::Hand(_, si) => Some(si),
        _ => None,
    }
}

/// An accepted connection of a TLS listener carries the TLS session made for it, whether
/// the listener's thread serves it or hands it to another: the stream has the accepted
/// socket, the new id and write state, the listener's socket and id, no read chain, and
/// `tls_server` is that session. A listener without TLS gives streams without a session.
pub proof fn law_accepted_stream_keeps_its_session(
    li: ListenerInfo,
    h: Handle,
    tls_session: Option<usize>,
    id: u128,
    write_state: usize,
    rand: usize,
    threads: usize,
)
    requires
        h >= 0,
        threads > 0,
        li.tls_config is Some ==> tls_session is Some,
    ensures
        ({
            let step = accept_outcome(li, Some(h), tls_session, id, write_state, rand, threads);
            &&& step_stream(step) matches Some(si)
            &&& si.handle == h && si.id == id && si.write_state == write_state
            &&& si.accept_handle == Some(li.handle) && si.accept_id == Some(li.id)
            &&& si.is_accepted && si.tls_client is None
            &&& si.first_slab == u32::MAX && si.last_slab == u32::MAX && si.slab_offset == 0
            &&& li.tls_config is Some ==> si.tls_server == tls_session
            &&& li.tls_config is None ==> si.tls_server is None
            &&& li.is_reuse_port <==> step is Here
        }),
{
}

/// Whether the listener's port is reused decides only who serves the connection, not the
/// stream it is served as.
pub proof fn law_stream_does_not_depend_on_reuse_port(
    li: ListenerInfo,
    accepted: Option<Handle>,
    tls_session: Option<usize>,
    id: u128,
    write_state: usize,
    rand: usize,
    threads: usize,
)
    requires
        threads > 0,
    ensures
        step_stream(accept_outcome(li, accepted, tls_session, id, write_state, rand, threads)) == step_stream(
            accept_outcome(
                ListenerInfo { is_reuse_port: !li.is_reuse_port, ..li },
                accepted,
                tls_session,
                id,
                write_state,
                rand,
                threads,
            ),
        ),
{
}

/// A TLS listener for whose connection no TLS session could be made closes it, and no
/// stream is made.
pub proof fn law_tls_connection_without_session_dropped(
    li: ListenerInfo,
    h: Handle,
    id: u128,
    write_state: usize,
    rand: usize,
    threads: usize,
)
    requires
        h >= 0,
        li.tls_config is Some,
    ensures
        accept_outcome(li, Some(h), None, id, write_state, rand, threads) == AcceptStep::Drop(h),
{
}

} // verus!
