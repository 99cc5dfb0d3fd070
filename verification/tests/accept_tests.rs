use bmw::accept::{accept_again, accept_step, plan_accept, AcceptStep};
use bmw::conn_info::ListenerInfo;

fn li(tls: Option<usize>, reuse: bool) -> ListenerInfo {
    ListenerInfo { id: 42, handle: 3, is_reuse_port: reuse, tls_config: tls }
}

#[test]
fn accept_stops_on_failure_or_would_block() {
    assert_eq!(accept_step(&li(None, true), None, None, 1, 2, 3, 4), AcceptStep::Stop);
    assert_eq!(accept_step(&li(None, true), Some(-1), None, 1, 2, 3, 4), AcceptStep::Stop);
    assert!(!accept_again(&AcceptStep::Stop));
}

#[test]
fn accept_drops_connection_without_tls_session() {
    let step = accept_step(&li(Some(9), false), Some(10), None, 1, 2, 3, 4);
    assert_eq!(step, AcceptStep::Drop(10));
    assert!(accept_again(&step));
}

#[test]
fn accept_builds_the_stream() {
    match accept_step(&li(Some(9), true), Some(10), Some(77), 5, 6, 3, 4) {
        AcceptStep::Here(si) => {
            assert_eq!(si.id, 5);
            assert_eq!(si.handle, 10);
            assert_eq!(si.accept_handle, Some(3));
            assert_eq!(si.accept_id, Some(42));
            assert_eq!(si.write_state, 6);
            assert_eq!(si.first_slab, u32::MAX);
            assert_eq!(si.last_slab, u32::MAX);
            assert_eq!(si.slab_offset, 0);
            assert!(si.is_accepted);
            assert_eq!(si.tls_server, Some(77));
            assert_eq!(si.tls_client, None);
        }
        other => panic!("unexpected {:?}", other),
    }
    // without a TLS configuration a session handed in is not kept
    match accept_step(&li(None, false), Some(11), Some(77), 5, 6, 7, 4) {
        AcceptStep::Hand(tid, si) => {
            assert_eq!(tid, 3);
            assert_eq!(si.tls_server, None);
            assert_eq!(si.handle, 11);
        }
        other => panic!("unexpected {:?}", other),
    }
    match plan_accept(&li(None, false), Some(11), None, 6, 2) {
        AcceptStep::Hand(tid, si) => {
            assert!(tid < 2);
            assert_eq!(si.handle, 11);
        }
        other => panic!("unexpected {:?}", other),
    }
}

#[test]
fn client_and_server_connections() {
    let si = bmw::accept::client_stream(9, 100, 4, Some(2));
    assert_eq!(si.accept_handle, None);
    assert_eq!(si.accept_id, None);
    assert!(!si.is_accepted);
    assert_eq!(si.tls_client, Some(2));
    assert_eq!(si.tls_server, None);
    assert_eq!(si.first_slab, u32::MAX);

    let v = bmw::accept::server_listeners(&[3, 0, 5], &[10, 11, 12], true, None, 3).unwrap();
    assert_eq!(v.len(), 2);
    assert_eq!(v[0].0, 0);
    assert_eq!(v[0].1, ListenerInfo { id: 10, handle: 3, is_reuse_port: true, tls_config: None });
    assert_eq!(v[1].0, 2);
    assert_eq!(v[1].1, ListenerInfo { id: 12, handle: 5, is_reuse_port: true, tls_config: None });
    let e = bmw::accept::server_listeners(&[3, 0], &[1, 2], false, Some(1), 3).unwrap_err();
    assert_eq!(e.kind().message_string(), "connections.handles must equal the number of threads".to_string());
}
