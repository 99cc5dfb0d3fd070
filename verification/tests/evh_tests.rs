use bmw::error::ErrKind;
use bmw::evh_config::RunState;
use bmw::evh_config::{
    attachment_key, check_config, client_thread, pick_client_thread, server_threads, housekeeper_due, restart_cleanup, EventHandlerConfig, LastProcessType,
    RestartCleanup,
};
use bmw::read_chain::{ReadAction, ReadChain, ReadEvent, ReadService, ReadStep};
use bmw::slabs::{SlabStore, NO_SLAB, READ_SLAB_DATA_SIZE};
use bmw::write_state::{
    after_write, tls_chunks, FlushEnd, Notify, QueuedEvent, WritePlan, WriteState, WRITE_STATE_FLAG_CLOSE,
    WRITE_STATE_FLAG_PENDING, WRITE_STATE_FLAG_RESUME, WRITE_STATE_FLAG_SUSPEND,
};
use std::collections::HashMap;

#[test]
fn test_evh_bad_configs() {
    let configs = vec![
        EventHandlerConfig { read_slab_count: u32::MAX as usize, ..Default::default() },
        EventHandlerConfig { read_slab_count: 100 as usize, ..Default::default() },
    ];
    for i in 0..2 {
        if i == 0 {
            assert!(check_config(&configs[i]).is_err());
        } else {
            assert!(check_config(&configs[i]).is_ok());
        }
    }
    let e = check_config(&configs[0]).unwrap_err();
    assert_eq!(e.kind().kind_name(), ErrKind::Configuration);
    assert_eq!(
        e.kind().message_string(),
        "read_slab_count must be smaller than u32::MAX".to_string()
    );
}

#[test]
fn default_evh_config() {
    let c = EventHandlerConfig::default();
    assert_eq!(c.threads, 6);
    assert_eq!(c.sync_channel_size, 10);
    assert_eq!(c.write_queue_size, 100_000);
    assert_eq!(c.nhandles_queue_size, 1_000);
    assert_eq!(c.max_events_in, 1_000);
    assert_eq!(c.max_events, 100);
    assert_eq!(c.housekeeping_frequency_millis, 1_000);
    assert_eq!(c.read_slab_count, 1_000);
    assert_eq!(c.max_handles_per_thread, 1_000);
}

#[test]
fn slabs_allocate_lowest_free_and_run_out() {
    let mut s = SlabStore::new(2);
    assert_eq!(s.allocate().unwrap(), 0);
    assert_eq!(s.allocate().unwrap(), 1);
    let e = s.allocate().unwrap_err();
    assert_eq!(e.kind().kind_name(), ErrKind::CapacityExceeded);
    assert!(s.free(0).is_ok());
    assert!(s.free(0).is_err());
    assert!(s.free(7).is_err());
    assert_eq!(s.allocate().unwrap(), 0);
}

#[test]
fn slab_next_pointer_is_big_endian() {
    let mut s = SlabStore::new(1);
    let id = s.allocate().unwrap();
    s.set_next(id, 0x01020304);
    assert_eq!(s.next(id), 0x01020304);
    assert_eq!(&s.get(id)[514..518], &[1u8, 2, 3, 4]);
    s.set_next(id, NO_SLAB);
    assert_eq!(&s.get(id)[514..518], &[0xffu8, 0xff, 0xff, 0xff]);
}

fn bytes(n: usize) -> Vec<u8> {
    (0..n).map(|i| (i % 251) as u8).collect()
}

#[test]
fn chain_reads_back_what_was_ingested() {
    let mut slabs = SlabStore::new(10);
    let mut chain = ReadChain::new();
    let data = bytes(1200);
    let mut buf = data.clone();
    let (n, close) = chain.ingest(&mut slabs, &mut buf);
    assert_eq!(n, 1200);
    assert!(!close);
    assert!(buf.is_empty());
    assert_eq!(chain.read_all(&slabs), data);
    assert_eq!(chain.slab_offset() as usize, 1200 - 2 * READ_SLAB_DATA_SIZE);
    assert_ne!(chain.first_slab(), chain.last_slab());
}

#[test]
fn chain_clear_through_frees_prefix() {
    let mut slabs = SlabStore::new(10);
    let mut chain = ReadChain::new();
    let data = bytes(1100);
    let mut buf = data.clone();
    chain.ingest(&mut slabs, &mut buf);
    let first = chain.first_slab();
    chain.clear_through(&mut slabs, first).unwrap();
    assert!(!slabs.is_used(first));
    assert_eq!(chain.read_all(&slabs), data[514..].to_vec());
    let last = chain.last_slab();
    chain.clear_through(&mut slabs, last).unwrap();
    assert_eq!(chain.first_slab(), NO_SLAB);
    assert_eq!(chain.last_slab(), NO_SLAB);
    assert!(chain.read_all(&slabs).is_empty());
    for i in 0..10 {
        assert!(!slabs.is_used(i));
    }
}

#[test]
fn chain_out_of_slabs_closes() {
    let mut slabs = SlabStore::new(1);
    let mut chain = ReadChain::new();
    let mut buf = bytes(600);
    let (n, close) = chain.ingest(&mut slabs, &mut buf);
    assert!(close);
    assert_eq!(n, 0);
    assert_eq!(buf.len(), 600 - 514);
}

#[test]
fn exact_fill_takes_one_more_slab() {
    let mut slabs = SlabStore::new(3);
    let mut chain = ReadChain::new();
    let mut buf = bytes(514);
    let (n, close) = chain.ingest(&mut slabs, &mut buf);
    assert_eq!((n, close), (514, false));
    assert!(slabs.is_used(0) && slabs.is_used(1));
    assert_eq!(chain.slab_offset(), 0);
    assert_eq!(chain.read_all(&slabs), bytes(514));
}

#[test]
fn record_read_decisions() {
    let mut slabs = SlabStore::new(4);
    let mut chain = ReadChain::new();
    assert!(chain.reserve(&mut slabs));
    let step = chain.record_read(&mut slabs, b"abc", 3, false, false);
    assert_eq!(step.added, 3);
    assert!(!step.close);
    assert!(!step.more);
    let step = chain.record_read(&mut slabs, b"", 0, false, false);
    assert!(step.close);
    let step = chain.record_read(&mut slabs, b"", -1, true, false);
    assert!(!step.close);
    let step = chain.record_read(&mut slabs, b"", -1, false, false);
    assert!(step.close);
    let step = chain.record_read(&mut slabs, b"", -2, false, false);
    assert!(!step.close);
    let full = bytes(511);
    let step = chain.record_read(&mut slabs, &full, 511, false, false);
    assert!(step.more);
    let mut expected = b"abc".to_vec();
    expected.extend_from_slice(&full);
    assert_eq!(chain.read_all(&slabs), expected);
}

#[test]
fn write_state_flags() {
    let mut ws = WriteState::new();
    assert_eq!(ws.suspend(), Notify::Enqueue);
    assert!(ws.is_set(WRITE_STATE_FLAG_SUSPEND));
    assert_eq!(ws.resume(), Notify::Enqueue);
    assert!(ws.is_set(WRITE_STATE_FLAG_RESUME));
    assert!(!ws.is_set(WRITE_STATE_FLAG_SUSPEND));
    assert_eq!(ws.take_queued_event(), QueuedEvent::Resume);
    assert_eq!(ws.take_queued_event(), QueuedEvent::Write);
    assert_eq!(ws.close(), Notify::Enqueue);
    assert_eq!(ws.close(), Notify::Nothing);
    assert_eq!(ws.suspend(), Notify::Nothing);
    assert!(ws.is_set(WRITE_STATE_FLAG_CLOSE));
    let e = ws.write_plan().unwrap_err();
    assert_eq!(e.kind().message_string(), "write handle closed".to_string());
}

#[test]
fn write_state_queue_and_flush() {
    let mut ws = WriteState::new();
    assert_eq!(ws.write_plan().unwrap(), WritePlan::WriteNow);
    assert_eq!(ws.queue_data(b"hello"), Notify::Enqueue);
    assert_eq!(ws.queue_data(b" world"), Notify::Nothing);
    assert_eq!(ws.write_plan().unwrap(), WritePlan::Queue);
    assert_eq!(ws.write_buffer, b"hello world".to_vec());
    ws.consume(6);
    assert_eq!(ws.write_buffer, b"world".to_vec());
    ws.consume(5);
    assert_eq!(ws.trigger_on_read(), Notify::Enqueue);
    assert_eq!(ws.flush_done(), FlushEnd { close: false, trigger_on_read: true });
    assert!(!ws.is_set(WRITE_STATE_FLAG_PENDING));
    assert_eq!(ws.flush_done(), FlushEnd { close: false, trigger_on_read: false });
    ws.suspend();
    let e = ws.write_plan().unwrap_err();
    assert_eq!(e.kind().message_string(), "write handle suspended".to_string());
    assert_eq!(ws.take_queued_event(), QueuedEvent::Suspend);
}

#[test]
fn after_write_outcomes() {
    assert_eq!(after_write(10, 0, "", 10).unwrap(), 10);
    assert_eq!(after_write(4, 0, "", 10).unwrap(), 4);
    assert_eq!(after_write(-1, 11, "would block", 10).unwrap(), 0);
    let e = after_write(-1, 32, "Broken pipe (os error 32)", 10).unwrap_err();
    assert_eq!(e.kind().kind_name(), ErrKind::IO);
    assert_eq!(
        e.kind().message_string(),
        "writing generated error: Broken pipe (os error 32)".to_string()
    );
}

#[test]
fn tls_chunks_split_data() {
    assert_eq!(tls_chunks(0), vec![(0, 0)]);
    assert_eq!(tls_chunks(5120), vec![(0, 5120)]);
    assert_eq!(tls_chunks(5121), vec![(0, 5120), (5120, 5121)]);
    assert_eq!(tls_chunks(12000), vec![(0, 5120), (5120, 10240), (10240, 12000)]);
}

#[test]
fn housekeeping_and_restart() {
    assert!(housekeeper_due(2_000, 1_000, 1_000));
    assert!(!housekeeper_due(1_999, 1_000, 1_000));
    assert!(!housekeeper_due(500, 1_000, 1_000));
    assert_eq!(restart_cleanup(LastProcessType::OnRead, 3), (RestartCleanup::CloseLastRead, 4));
    assert_eq!(restart_cleanup(LastProcessType::OnAccept, 3), (RestartCleanup::CloseAccepted, 4));
    assert_eq!(restart_cleanup(LastProcessType::OnClose, 3), (RestartCleanup::Skip, 4));
    assert_eq!(restart_cleanup(LastProcessType::Housekeeper, 3), (RestartCleanup::Nothing, 3));
}

#[test]
fn attachment_lookup() {
    let mut m: HashMap<u128, &str> = HashMap::new();
    m.insert(5, "listener");
    assert_eq!(attachment_key(&m, 1, Some(5)), Some(5));
    m.insert(1, "own");
    assert_eq!(attachment_key(&m, 1, Some(5)), Some(1));
    assert_eq!(attachment_key(&m, 2, None), None);
    assert_eq!(attachment_key(&m, 2, Some(9)), None);
}

#[test]
fn server_threads_skip_zero_handles() {
    assert_eq!(server_threads(&[3, 0, 5], 3).unwrap(), vec![0, 2]);
    let e = server_threads(&[3, 4], 3).unwrap_err();
    assert_eq!(
        e.kind().message_string(),
        "connections.handles must equal the number of threads".to_string()
    );
    assert_eq!(client_thread(17, 6), 5);
    assert!(pick_client_thread(6) < 6);
}

#[test]
fn read_loop_decisions() {
    let s = ReadService::new();
    let (s, a) = s.step(ReadEvent::Read(ReadStep { added: 510, close: false, more: true }));
    assert_eq!(a, ReadAction::ReadAgain);
    let (s, a) = s.step(ReadEvent::Read(ReadStep { added: 0, close: false, more: false }));
    assert_eq!(a, ReadAction::Done { on_read: true, close: false });
    assert!(s.read_any);
    let (_, a) = ReadService::new().step(ReadEvent::Read(ReadStep { added: 0, close: true, more: false }));
    assert_eq!(a, ReadAction::Done { on_read: false, close: true });
    let (s, a) = s.step(ReadEvent::NoRoom);
    assert_eq!(a, ReadAction::Done { on_read: false, close: true });
    assert!(!s.read_any);
}

#[test]
fn stop_needs_a_start() {
    let mut run = RunState::new(2);
    let e = run.stop().unwrap_err();
    assert_eq!(e.kind().kind_name(), ErrKind::IllegalState);
    assert_eq!(e.kind().message_string(), "start must be called before stop".to_string());
    assert!(!run.stop_asked(0));
    run.start();
    run.stop().unwrap();
    assert!(run.stop_asked(0) && run.stop_asked(1));
    assert!(!run.stop_asked(2));
    assert!(!run.all_stopped());
    run.thread_stopped(0);
    assert!(!run.all_stopped());
    run.thread_stopped(1);
    assert!(run.all_stopped());
}
