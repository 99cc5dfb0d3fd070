use bmw::cell::{Cell, Info, Padding, Peer, PublicKey, SocketAddress, CELL_LEN};
use bmw::channel::{ChannelCore, ChannelDirection, ChannelState};
use bmw::crypt::{
    bytes_eq, clear_digest_fields, hop_layers, is_recognized, recognition_bytes, split_seed, stamp_digest, HopNum,
    CELL_DATA_LEN,
};
use bmw::crypt::{ClientLayer, CryptInit, InboundClientCrypt, OutboundClientCrypt, RelayCellBody, RelayCrypt};
use bmw::error::ErrKind;
use bmw::relay::{CryptState, CryptStatePair};

fn key_bytes() -> Vec<u8> {
    // the compressed form of the ed25519 base point
    let mut k = vec![0x66u8; 32];
    k[0] = 0x58;
    k
}

fn peer(addr: SocketAddress, nick: &str) -> Peer {
    Peer { sockaddr: addr, pubkey: PublicKey::from_bytes(&key_bytes()).unwrap(), nickname: nick.to_string() }
}

#[test]
fn public_key_checks_point() {
    assert!(PublicKey::from_bytes(&key_bytes()).is_ok());
    assert!(PublicKey::from_bytes(&[1u8; 31]).is_err());
    let e = PublicKey::from_bytes(&[1u8; 5]).err().unwrap();
    assert_eq!(e.kind().kind_name(), ErrKind::Crypt);
    assert_eq!(e.kind().message_string(), "signature error: PublicKey must be 32 bytes in length".to_string());
}

#[test]
fn info_v4_roundtrip() {
    let cell = Cell::Info(Info { local_peer: peer(SocketAddress::V4 { ip: [127, 0, 0, 1], port: 8080 }, "relay1") });
    let mut buf = [0u8; CELL_LEN];
    cell.to_bytes(&mut buf).unwrap();
    assert_eq!(buf[0], 0);
    assert_eq!(&buf[17..49], &key_bytes()[..]);
    assert_eq!(buf[49], 0);
    assert_eq!(&buf[50..54], &[127, 0, 0, 1]);
    assert_eq!(&buf[54..56], &[0x1f, 0x90]);
    assert_eq!(buf[56], 6);
    match Cell::from_bytes(&buf).unwrap() {
        Cell::Info(info) => {
            assert_eq!(info.local_peer.nickname, "relay1".to_string());
            assert_eq!(info.local_peer.pubkey.as_bytes(), &key_bytes()[..]);
            match info.local_peer.sockaddr {
                SocketAddress::V4 { ip, port } => {
                    assert_eq!(ip, [127, 0, 0, 1]);
                    assert_eq!(port, 8080);
                }
                _ => panic!("expected v4"),
            }
        }
        _ => panic!("expected info"),
    }
}

#[test]
fn info_v6_reads_nickname_from_its_length() {
    let segs = [1u16, 2, 3, 4, 5, 6, 7, 8];
    let cell = Cell::Info(Info { local_peer: peer(SocketAddress::V6 { segments: segs, port: 443 }, "ab") });
    let mut buf = [0u8; CELL_LEN];
    cell.to_bytes(&mut buf).unwrap();
    assert_eq!(buf[49], 1);
    assert_eq!(&buf[66..68], &[1, 187]);
    assert_eq!(buf[68], 2);
    match Cell::from_bytes(&buf).unwrap() {
        Cell::Info(info) => {
            assert_eq!(info.local_peer.nickname, "\u{2}a".to_string());
            match info.local_peer.sockaddr {
                SocketAddress::V6 { segments, port } => {
                    assert_eq!(segments, segs);
                    assert_eq!(port, 443);
                }
                _ => panic!("expected v6"),
            }
        }
        _ => panic!("expected info"),
    }
}

#[test]
fn cell_errors() {
    let mut short = [0u8; 10];
    let e = Cell::Padding(Padding {}).to_bytes(&mut short).unwrap_err();
    assert_eq!(e.kind().message_string(), "buf len must be 514 bytes".to_string());
    let e = Cell::from_bytes(&short).err().unwrap();
    assert_eq!(
        e.kind().message_string(),
        "Invalid cell length. Cells must be 514 bytes. Input was 10 bytes.".to_string()
    );
    let mut buf = [0u8; CELL_LEN];
    buf[0] = 9;
    let e = Cell::from_bytes(&buf).err().unwrap();
    assert_eq!(e.kind().kind_name(), ErrKind::CorruptedData);
    let long = "x".repeat(101);
    let cell = Cell::Info(Info { local_peer: peer(SocketAddress::V4 { ip: [1, 2, 3, 4], port: 1 }, &long) });
    let mut buf = [0u8; CELL_LEN];
    let e = cell.to_bytes(&mut buf).unwrap_err();
    assert_eq!(e.kind().kind_name(), ErrKind::IllegalArgument);
    let cell = Cell::Info(Info { local_peer: peer(SocketAddress::V4 { ip: [1, 2, 3, 4], port: 1 }, "n") });
    cell.to_bytes(&mut buf).unwrap();
    buf[49] = 7;
    let e = Cell::from_bytes(&buf).err().unwrap();
    assert_eq!(e.kind().message_string(), "unexpected sockaddr type".to_string());
    buf[49] = 0;
    buf[57] = 0xC0;
    let e = Cell::from_bytes(&buf).err().unwrap();
    assert_eq!(e.kind().kind_name(), ErrKind::Utf8);
}

#[test]
fn channel_verifies_then_keeps_cells() {
    let info = Cell::Info(Info { local_peer: peer(SocketAddress::V4 { ip: [10, 0, 0, 1], port: 9 }, "p") });
    let mut bytes = vec![0u8; 3 * CELL_LEN + 10];
    info.to_bytes(&mut bytes[0..CELL_LEN]).unwrap();
    info.to_bytes(&mut bytes[CELL_LEN..2 * CELL_LEN]).unwrap();
    info.to_bytes(&mut bytes[2 * CELL_LEN..3 * CELL_LEN]).unwrap();
    let mut core = ChannelCore::new();
    core.direction = ChannelDirection::Outbound;
    let mut state = ChannelState::new();
    state.receive(&bytes);
    core.process_cells(&mut state, None).unwrap();
    assert!(core.verified);
    assert!(core.remote_peer.is_some());
    assert_eq!(state.cells.len(), 2);
    assert_eq!(state.offset, 10);
    assert_eq!(state.in_buf.len(), 10);
}

#[test]
fn a_cell_split_across_two_reads_is_read_whole() {
    let first = Cell::Info(Info { local_peer: peer(SocketAddress::V4 { ip: [10, 0, 0, 1], port: 9 }, "p") });
    let kept = Cell::Info(Info { local_peer: peer(SocketAddress::V4 { ip: [10, 0, 0, 2], port: 77 }, "second") });
    let mut bytes = vec![0u8; 2 * CELL_LEN];
    first.to_bytes(&mut bytes[0..CELL_LEN]).unwrap();
    kept.to_bytes(&mut bytes[CELL_LEN..2 * CELL_LEN]).unwrap();
    let mut core = ChannelCore::new();
    core.direction = ChannelDirection::Outbound;
    let mut state = ChannelState::new();
    state.receive(&bytes[0..CELL_LEN + 100]);
    core.process_cells(&mut state, None).unwrap();
    assert!(core.verified);
    assert_eq!(state.cells.len(), 0);
    assert_eq!(state.offset, 100);
    state.receive(&bytes[CELL_LEN + 100..]);
    assert_eq!(state.offset, CELL_LEN);
    core.process_cells(&mut state, None).unwrap();
    assert_eq!(state.cells.len(), 1);
    assert_eq!(state.offset, 0);
    match &state.cells[0] {
        Cell::Info(info) => {
            assert_eq!(info.local_peer.nickname, "second".to_string());
            match &info.local_peer.sockaddr {
                SocketAddress::V4 { ip, port } => {
                    assert_eq!(*ip, [10, 0, 0, 2]);
                    assert_eq!(*port, 77);
                },
                _ => panic!("expected an IPv4 address"),
            }
        },
        _ => panic!("expected an info cell"),
    }
}

#[test]
fn channel_refuses_unknown_cell() {
    let mut buf = vec![0u8; CELL_LEN];
    buf[0] = 1;
    let mut core = ChannelCore::new();
    core.direction = ChannelDirection::Inbound;
    let mut state = ChannelState::new();
    state.receive(&buf);
    let e = core.process_cells(&mut state, None).unwrap_err();
    assert_eq!(e.kind().kind_name(), ErrKind::CorruptedData);
    assert_eq!(state.offset, CELL_LEN);
}

#[test]
fn channel_inbound_checks_key() {
    let info = Cell::Info(Info { local_peer: peer(SocketAddress::V4 { ip: [10, 0, 0, 1], port: 9 }, "p") });
    let mut bytes = vec![0u8; CELL_LEN];
    info.to_bytes(&mut bytes).unwrap();
    // the identity point: y = 1
    let mut other = vec![0u8; 32];
    other[0] = 1;
    let other = PublicKey::from_bytes(&other).unwrap();
    let mut core = ChannelCore::new();
    core.direction = ChannelDirection::Inbound;
    let mut state = ChannelState::new();
    state.receive(&bytes);
    let e = core.process_cells(&mut state, Some(&other)).unwrap_err();
    assert_eq!(
        e.kind().message_string(),
        "tls pubkey did not match the pubkey sent by peer".to_string()
    );
    assert!(!core.verified);
    let good = PublicKey::from_bytes(&key_bytes()).unwrap();
    core.process_cells(&mut state, Some(&good)).unwrap();
    assert!(core.verified);
    assert_eq!(state.cells.len(), 0);
}

#[test]
fn crypt_helpers() {
    assert!(bytes_eq(b"abc", b"abc"));
    assert!(!bytes_eq(b"abc", b"abd"));
    assert!(!bytes_eq(b"abc", b"ab"));
    let h: HopNum = 3u8.into();
    let n: u8 = h.into();
    let u: usize = h.into();
    assert_eq!(n, 3);
    assert_eq!(u, 3);
    assert_eq!(h.to_string(), "3".to_string());
    assert_eq!(hop_layers(HopNum(2), 3).unwrap(), 3);
    let e = hop_layers(HopNum(3), 3).unwrap_err();
    assert_eq!(e.kind().message_string(), "No such hop".to_string());
    let parts = split_seed(&[0u8; 128], 32, 32).unwrap();
    assert_eq!(parts, [(0, 32), (32, 64), (64, 96), (96, 128)]);
    let e = split_seed(&[0u8; 10], 32, 32).unwrap_err();
    assert_eq!(e.kind().message_string(), "seed length 10 was invalid".to_string());
}

#[test]
fn relay_body_digest_fields() {
    let mut body = [7u8; CELL_DATA_LEN];
    clear_digest_fields(&mut body);
    assert_eq!(&body[0..10], &[7, 0, 0, 7, 7, 0, 0, 0, 0, 7]);
    let digest = [9u8, 8, 7, 6, 5];
    stamp_digest(&mut body, &digest);
    assert_eq!(&body[5..9], &[9, 8, 7, 6]);
    let input = recognition_bytes(&body);
    assert_eq!(input.len(), CELL_DATA_LEN);
    assert_eq!(&input[5..9], &[0, 0, 0, 0]);
    assert!(is_recognized(&body, &digest));
    assert!(!is_recognized(&body, &[1u8, 2, 3, 4]));
    body[1] = 1;
    assert!(!is_recognized(&body, &digest));
}

fn seed(start: u8) -> Vec<u8> {
    (0..128u32).map(|i| (i as u8).wrapping_mul(7).wrapping_add(start)).collect()
}

fn pair(start: u8) -> CryptStatePair {
    CryptStatePair::initialize(&seed(start)).unwrap()
}

#[test]
fn relay_states_need_a_seed_of_128_bytes() {
    assert_eq!(CryptStatePair::seed_len(), 128);
    let e = CryptStatePair::initialize(&[0u8; 127]).err().unwrap();
    assert_eq!(e.kind().message_string(), "seed length 127 was invalid".to_string());
    assert!(CryptStatePair::initialize(&[0u8; 129]).is_err());
    assert!(CryptStatePair::initialize(&[0u8; 128]).is_ok());
}

#[test]
fn client_and_relays_agree_on_cells() {
    // the client's layers and the relays' states of two hops, built from the same seeds
    let (f0, b0) = pair(1).split();
    let (f1, b1) = pair(2).split();
    let mut relay0 = pair(1);
    let mut relay1 = pair(2);
    let mut out = OutboundClientCrypt::new();
    out.add_layer(f0);
    out.add_layer(f1);
    assert_eq!(out.n_layers(), 2);
    let mut body = [0u8; CELL_DATA_LEN];
    body[20] = 42;
    let mut cell = RelayCellBody(body);
    let tag = out.encrypt(&mut cell, HopNum(1)).unwrap();
    assert_eq!(tag.len(), 32);
    assert_ne!(cell.0[20], 42);
    // the first relay peels its layer and does not recognize the cell
    assert!(!relay0.decrypt_outbound(&mut cell));
    // the second relay recognizes it, with the stamped digest
    assert!(relay1.decrypt_outbound(&mut cell));
    assert_eq!(cell.0[20], 42);
    assert_eq!(&cell.0[5..9], &tag[0..4]);
    let e = out.encrypt(&mut cell, HopNum(2)).unwrap_err();
    assert_eq!(e.kind().message_string(), "No such hop".to_string());

    // a cell from the second relay back to the client
    let mut inb = InboundClientCrypt::new();
    inb.add_layer(b0);
    inb.add_layer(b1);
    let mut back = [0u8; CELL_DATA_LEN];
    back[30] = 9;
    let mut cell = RelayCellBody(back);
    relay1.originate(&mut cell);
    relay1.encrypt_inbound(&mut cell);
    relay0.encrypt_inbound(&mut cell);
    let (hop, tag) = inb.decrypt(&mut cell).unwrap();
    assert_eq!(hop, HopNum(1));
    assert_eq!(tag.len(), 32);
    assert_eq!(cell.0[30], 9);
    // a cell no layer recognizes
    let mut cell = RelayCellBody([5u8; CELL_DATA_LEN]);
    assert_eq!(inb.decrypt(&mut cell).unwrap_err().kind().message_string(), "BadCellAuth".to_string());
    let mut none: InboundClientCrypt<CryptState> = InboundClientCrypt::new();
    assert_eq!(none.decrypt(&mut cell).unwrap_err().kind().message_string(), "BadCellAuth".to_string());
}
