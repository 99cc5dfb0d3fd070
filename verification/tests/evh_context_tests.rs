use bmw::conn_info::{ConnectionInfo, ListenerInfo, StreamInfo};
use bmw::evh_config::LastProcessType;
use bmw::evh_context::{EventHandlerContext, EventStep, QueueTarget};
use bmw::write_state::{QueuedEvent, WriteState};
use bmw::poll::{Event, EventIn, EventType, EventTypeIn};

fn stream(id: u128, handle: i32) -> StreamInfo {
    StreamInfo {
        id,
        handle,
        accept_handle: None,
        accept_id: None,
        write_state: 0,
        first_slab: u32::MAX,
        last_slab: u32::MAX,
        slab_offset: 0,
        is_accepted: false,
        tls_server: None,
        tls_client: None,
    }
}

#[test]
fn a_new_context_is_empty() {
    let ctx: EventHandlerContext<String> = EventHandlerContext::new(0, 100, 100, 100, 100);
    assert_eq!(ctx.tid, 0);
    assert_eq!(ctx.events.len(), 200);
    assert_eq!(ctx.events[0], Event { handle: 0, etype: EventType::Read });
    assert_eq!(Event::default(), Event { handle: 0, etype: EventType::Read });
    assert_eq!(ctx.read_slabs.slab_count(), 100);
    assert_eq!(ctx.table.len(), 0);
    assert_eq!(ctx.last_process_type, LastProcessType::OnRead);
    assert!(ctx.attachments.is_empty());
    assert_eq!(ctx.counter, 0);
    assert_eq!(ctx.count, 0);
}

#[test]
fn events_are_dispatched_in_order() {
    let mut ctx: EventHandlerContext<String> = EventHandlerContext::new(0, 10, 10, 10, 10);
    let li = ListenerInfo { id: 1, handle: 5, is_reuse_port: false, tls_config: None };
    assert!(ctx.table.insert(ConnectionInfo::ListenerInfo(li)));
    assert!(ctx.table.insert(ConnectionInfo::StreamInfo(stream(2, 6))));
    ctx.events[0] = Event { handle: 3, etype: EventType::Read };
    ctx.events[1] = Event { handle: 5, etype: EventType::Read };
    ctx.events[2] = Event { handle: 6, etype: EventType::Write };
    ctx.events[3] = Event { handle: 1000, etype: EventType::Read };
    ctx.count = 4;
    assert_eq!(ctx.next_event(3), Some(EventStep::Wakeup(3)));
    assert_eq!(ctx.next_event(3), Some(EventStep::Accept(1, li)));
    assert_eq!(ctx.next_event(3), Some(EventStep::Write(2, stream(2, 6))));
    assert_eq!(ctx.next_event(3), Some(EventStep::UnknownHandle(1000)));
    assert_eq!(ctx.next_event(3), None);
    assert_eq!(ctx.counter, 4);
}

#[test]
fn test_evh_invalid_write_queue() {
    let mut ctx: EventHandlerContext<String> = EventHandlerContext::new(0, 100, 100, 100, 100);
    // an id the thread does not have: only a warning
    assert_eq!(ctx.queue_target(100), QueueTarget::Unknown(100));
    // a listener cannot be written to: only a warning
    let li = ListenerInfo { id: 1_000, handle: 0, is_reuse_port: false, tls_config: None };
    assert!(ctx.table.insert(ConnectionInfo::ListenerInfo(li)));
    assert_eq!(ctx.queue_target(1_000), QueueTarget::Listener(0));
    assert!(ctx.events_in.is_empty());
}

#[test]
fn test_evh_close_no_handler() {
    let mut ctx: EventHandlerContext<String> = EventHandlerContext::new(0, 100, 100, 100, 100);
    let rwi = stream(1_000, 0);
    assert!(ctx.table.insert(ConnectionInfo::StreamInfo(rwi)));
    // closing forgets the connection and its socket
    let mut ws = WriteState::new();
    let _ = ws.close();
    ctx.table.remove(rwi.id, rwi.handle);
    assert_eq!(ctx.queue_target(1_000), QueueTarget::Unknown(1_000));
    assert_eq!(ctx.table.len(), 0);
}

#[test]
fn test_evh_process_events_other_situations() {
    let mut ctx: EventHandlerContext<String> = EventHandlerContext::new(0, 100, 100, 100, 100);
    ctx.counter = 0;
    ctx.count = 1;
    ctx.events[0] = Event { handle: 1000, etype: EventType::Read };
    // a socket with no connection: a warning
    assert_eq!(ctx.next_event(7), Some(EventStep::UnknownHandle(1000)));
    // a socket whose id has no connection: a warning
    assert!(ctx.table.insert(ConnectionInfo::StreamInfo(stream(2000, 1000))));
    assert!(ctx.table.insert(ConnectionInfo::StreamInfo(stream(2000, 1001))));
    ctx.table.remove(2000, 1001);
    ctx.counter = 0;
    ctx.count = 1;
    assert_eq!(ctx.next_event(7), Some(EventStep::UnknownId(2000)));
}

#[test]
fn test_evh_process_write_errors() {
    let mut ctx: EventHandlerContext<String> = EventHandlerContext::new(0, 100, 100, 100, 100);
    let rwi = stream(1001, 1001);
    assert!(ctx.table.insert(ConnectionInfo::StreamInfo(rwi)));
    let mut ws = WriteState::new();
    ws.write_buffer = vec![b'a'];
    match ctx.queue_target(1001) {
        QueueTarget::Stream(si) => {
            let ev = ws.take_queued_event();
            assert_eq!(ev, QueuedEvent::Write);
            ctx.request(si.handle, ev);
        }
        other => panic!("unexpected {:?}", other),
    }
    assert_eq!(ctx.events_in, vec![EventIn { handle: 1001, etype: EventTypeIn::Write }]);
}
