use bmw::conn_info::{ConnectionInfo, ListenerInfo, StreamInfo};
use bmw::ser::{Serializable, SliceReader, VecWriter};

fn round_trip(ci: &ConnectionInfo) -> ConnectionInfo {
    let mut w = VecWriter { buf: vec![] };
    ci.write(&mut w).unwrap();
    let mut r = SliceReader::new(w.buf.clone());
    ConnectionInfo::read(&mut r).unwrap()
}

fn compare_ci(ci1: ConnectionInfo, ci2: ConnectionInfo) -> Result<(), String> {
    match ci1 {
        ConnectionInfo::ListenerInfo(li1) => match ci2 {
            ConnectionInfo::ListenerInfo(li2) => {
                assert_eq!(li1.id, li2.id);
                assert_eq!(li1.handle, li2.handle);
                assert_eq!(li1.is_reuse_port, li2.is_reuse_port);
            }
            ConnectionInfo::StreamInfo(_rwi) => return Err("kinds differ".to_string()),
        },
        ConnectionInfo::StreamInfo(rwi1) => match ci2 {
            ConnectionInfo::ListenerInfo(_li) => return Err("kinds differ".to_string()),
            ConnectionInfo::StreamInfo(rwi2) => {
                assert_eq!(rwi1.id, rwi2.id);
                assert_eq!(rwi1.handle, rwi2.handle);
                assert_eq!(rwi1.accept_handle, rwi2.accept_handle);
                assert_eq!(rwi1.first_slab, rwi2.first_slab);
                assert_eq!(rwi1.last_slab, rwi2.last_slab);
                assert_eq!(rwi1.slab_offset, rwi2.slab_offset);
                assert_eq!(rwi1.is_accepted, rwi2.is_accepted);
            }
        },
    }
    Ok(())
}

#[test]
fn test_connection_info_serialization() {
    let ci1 = ConnectionInfo::ListenerInfo(ListenerInfo {
        id: 7,
        handle: 8,
        is_reuse_port: false,
        tls_config: None,
    });
    let v = round_trip(&ci1);
    compare_ci(v, ci1.clone()).unwrap();

    let ser_out = ConnectionInfo::ListenerInfo(ListenerInfo {
        id: 10,
        handle: 80,
        is_reuse_port: true,
        tls_config: None,
    });
    let mut w = VecWriter { buf: vec![] };
    ser_out.write(&mut w).unwrap();
    let mut v = w.buf.clone();
    v[0] = 2; // corrupt data
    let ser_in = ConnectionInfo::read(&mut SliceReader::new(v));
    assert!(ser_in.is_err());

    let ci2 = ConnectionInfo::StreamInfo(StreamInfo {
        accept_handle: None,
        accept_id: None,
        id: 0,
        handle: 0,
        first_slab: 0,
        last_slab: 0,
        slab_offset: 0,
        is_accepted: true,
        tls_client: None,
        tls_server: None,
        write_state: 0,
    });
    let v = round_trip(&ci2);
    compare_ci(v, ci2.clone()).unwrap();

    assert!(compare_ci(ci1.clone(), ci2.clone()).is_err());
    assert!(compare_ci(ci2, ci1).is_err());
}

#[test]
fn test_debug_listener_info() {
    let li = ListenerInfo {
        id: 0,
        handle: 0,
        is_reuse_port: false,
        tls_config: None,
    };
    assert_eq!(
        li.describe(),
        "ListenerInfo[id=0,handle=0,is_reuse_port=false,has_tls_config=false]".to_string()
    );
    assert_eq!(li.id, 0);
}

#[test]
fn listener_bytes_and_description() {
    let li = ListenerInfo {
        id: 300,
        handle: -2,
        is_reuse_port: true,
        tls_config: Some(5),
    };
    let mut w = VecWriter { buf: vec![] };
    ConnectionInfo::ListenerInfo(li).write(&mut w).unwrap();
    let mut expected = vec![0u8];
    expected.extend_from_slice(&300u128.to_be_bytes());
    expected.extend_from_slice(&(-2i32).to_be_bytes());
    expected.push(1);
    expected.push(1);
    expected.extend_from_slice(&5u64.to_be_bytes());
    assert_eq!(w.buf, expected);
    assert_eq!(
        li.describe(),
        "ListenerInfo[id=300,handle=-2,is_reuse_port=true,has_tls_config=true]".to_string()
    );
    let back = ConnectionInfo::read(&mut SliceReader::new(w.buf.clone())).unwrap();
    assert_eq!(back, ConnectionInfo::ListenerInfo(li));
}

#[test]
fn stream_info_reads_back_whole() {
    let si = StreamInfo {
        id: u128::MAX,
        handle: 17,
        accept_handle: Some(3),
        accept_id: Some(99),
        write_state: 12345,
        first_slab: 1,
        last_slab: 4,
        slab_offset: 514,
        is_accepted: true,
        tls_server: Some(77),
        tls_client: None,
    };
    let ci = ConnectionInfo::StreamInfo(si);
    let mut w = VecWriter { buf: vec![] };
    ci.write(&mut w).unwrap();
    assert_eq!(w.buf[0], 1);
    assert_eq!(w.buf.len(), 1 + 16 + 4 + 5 + 17 + 8 + 4 + 4 + 2 + 1 + 9 + 1);
    let back = ConnectionInfo::read(&mut SliceReader::new(w.buf.clone())).unwrap();
    assert_eq!(back, ci);
}
