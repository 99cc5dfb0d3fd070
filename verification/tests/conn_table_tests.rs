use bmw::conn_info::{ConnectionInfo, ListenerInfo, StreamInfo};
use bmw::conn_table::{move_attachment, ConnectionTable, EventTarget};
use std::collections::HashMap;

fn listener(id: u128, handle: i32) -> ConnectionInfo {
    ConnectionInfo::ListenerInfo(ListenerInfo { id, handle, is_reuse_port: false, tls_config: None })
}

fn stream(id: u128, handle: i32, accept_id: Option<u128>) -> ConnectionInfo {
    ConnectionInfo::StreamInfo(StreamInfo {
        id,
        handle,
        accept_handle: None,
        accept_id,
        write_state: 0,
        first_slab: u32::MAX,
        last_slab: u32::MAX,
        slab_offset: 0,
        is_accepted: accept_id.is_some(),
        tls_server: None,
        tls_client: None,
    })
}

#[test]
fn events_find_their_connections() {
    let mut t = ConnectionTable::new(2);
    assert_eq!(t.lookup(5), EventTarget::UnknownHandle);
    assert!(t.insert(listener(7, 5)));
    assert!(t.insert(stream(8, 6, Some(7))));
    assert_eq!(t.len(), 2);
    assert_eq!(t.lookup(5), EventTarget::Found(7, listener(7, 5)));
    assert_eq!(t.lookup(6), EventTarget::Found(8, stream(8, 6, Some(7))));
    // the table is full: a third connection is refused
    assert!(!t.insert(stream(9, 10, None)));
    assert_eq!(t.lookup(10), EventTarget::UnknownHandle);
    // but an existing one may be replaced
    assert!(t.insert(stream(8, 6, None)));
    assert_eq!(t.lookup(6), EventTarget::Found(8, stream(8, 6, None)));
    assert!(t.write_back(8, stream(8, 6, Some(1))));
    assert!(!t.write_back(99, stream(99, 6, None)));
    assert_eq!(t.lookup(6), EventTarget::Found(8, stream(8, 6, Some(1))));
    t.remove(8, 6);
    assert_eq!(t.lookup(6), EventTarget::UnknownHandle);
    assert_eq!(t.len(), 1);
    // a socket whose id was removed from the connections only
    assert!(t.insert(stream(11, 12, None)));
    t.remove(11, 99);
    assert_eq!(t.lookup(12), EventTarget::UnknownId(11));
}

#[test]
fn attachments_follow_connections() {
    let mut pending: HashMap<u128, &str> = HashMap::new();
    let mut attachments: HashMap<u128, &str> = HashMap::new();
    pending.insert(7, "server");
    // an accepted stream without an attachment of its own takes its listener's
    move_attachment(&mut pending, &mut attachments, &stream(8, 6, Some(7)));
    assert_eq!(attachments.get(&8), Some(&"server"));
    assert!(pending.is_empty());
    // a listener takes only its own
    pending.insert(3, "other");
    move_attachment(&mut pending, &mut attachments, &listener(4, 1));
    assert_eq!(attachments.len(), 1);
    assert_eq!(pending.len(), 1);
    pending.insert(4, "mine");
    move_attachment(&mut pending, &mut attachments, &listener(4, 1));
    assert_eq!(attachments.get(&4), Some(&"mine"));
}

#[test]
fn closing_takes_every_connection() {
    let mut t = ConnectionTable::new(5);
    assert!(t.insert(listener(1, 10)));
    assert!(t.insert(stream(2, 11, Some(1))));
    assert!(t.insert(stream(3, 12, None)));
    let mut all = t.take_all();
    all.sort_by_key(|c| match c {
        ConnectionInfo::ListenerInfo(li) => li.id,
        ConnectionInfo::StreamInfo(si) => si.id,
    });
    assert_eq!(all, vec![listener(1, 10), stream(2, 11, Some(1)), stream(3, 12, None)]);
    assert_eq!(t.len(), 0);
    assert_eq!(t.lookup(10), EventTarget::UnknownHandle);
}
