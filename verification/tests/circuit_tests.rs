use bmw::cell::{Cell, Info, Padding, Peer, PublicKey, SocketAddress, CELL_LEN};
use bmw::channel::{ChannelCore, ChannelDirection};
use bmw::circuit::{CircuitCore, CircuitPlan};
use bmw::error::ErrKind;

fn key_bytes() -> Vec<u8> {
    let mut k = vec![0x66u8; 32];
    k[0] = 0x58;
    k
}

fn peer(port: u16, nick: &str) -> Peer {
    Peer {
        sockaddr: SocketAddress::V4 { ip: [127, 0, 0, 1], port },
        pubkey: PublicKey::from_bytes(&key_bytes()).unwrap(),
        nickname: nick.to_string(),
    }
}

#[test]
fn circuit_needs_two_hops() {
    let plan = CircuitPlan { hops: vec![peer(8081, "test1")] };
    let e = CircuitCore::new(plan, peer(8080, "test0"), vec![1u8; 32]).err().unwrap();
    assert_eq!(e.kind().kind_name(), ErrKind::IllegalArgument);
    assert_eq!(e.kind().message_string(), "circuit plan must have at least 2 hops".to_string());

    let plan = CircuitPlan { hops: vec![peer(8081, "test1"), peer(8082, "test2")] };
    let mut c = CircuitCore::new(plan, peer(8080, "test0"), vec![1u8; 32]).unwrap();
    assert_eq!(c.first_hop().nickname, "test1".to_string());
    assert_eq!(c.local_peer().nickname, "test0".to_string());
    assert_eq!(c.secret_key(), &[1u8; 32][..]);
    assert!(!c.is_started());
    let e = c.check_started().err().unwrap();
    assert_eq!(e.kind().kind_name(), ErrKind::IllegalState);
    assert_eq!(e.kind().message_string(), "circuit not started yet".to_string());
    c.set_started();
    assert!(c.is_started());
    assert!(c.check_started().is_ok());
}

#[test]
fn channel_sends_only_when_connected() {
    let mut ch = ChannelCore::new();
    let e = ch.check_connected().err().unwrap();
    assert_eq!(e.kind().kind_name(), ErrKind::Crypt);
    assert_eq!(e.kind().message_string(), "channel not connected".to_string());
    let cell = Cell::Info(Info { local_peer: peer(8080, "relay1") });
    let e = ch.outgoing_cell(&cell).err().unwrap();
    assert_eq!(e.kind().message_string(), "channel not connected".to_string());

    let long = "x".repeat(101);
    let bad = Cell::Info(Info { local_peer: peer(8080, &long) });
    let e = ch.outgoing_cell(&bad).err().unwrap();
    assert_eq!(e.kind().kind_name(), ErrKind::IllegalArgument);

    ch.direction = ChannelDirection::Outbound;
    assert!(ch.check_connected().is_ok());
    let b = ch.outgoing_cell(&cell).unwrap();
    assert_eq!(b.len(), CELL_LEN);
    assert_eq!(&b[17..49], &key_bytes()[..]);
    assert_eq!(b[56], 6);
    let p = ch.outgoing_cell(&Cell::Padding(Padding {})).unwrap();
    assert_eq!(p, vec![0u8; CELL_LEN]);
}

#[test]
fn test_crypt_circuit_basic() {
    let local_peer = peer(8080, "test0");
    let peer1 = peer(8081, "test1");
    let peer2 = peer(8082, "test2");
    let plan = CircuitPlan { hops: vec![peer1.copy(), peer2.copy()] };
    let mut circuit = CircuitCore::new(plan, local_peer, vec![7u8; 32]).unwrap();
    assert_eq!(circuit.first_hop().nickname, "test1".to_string());
    circuit.set_started();
    assert!(circuit.check_started().is_ok());
}
