use vstd::prelude::*;
use vstd::string::StringSliceAdditionalSpecFns;
use vstd::utf8::{decode_utf8, encode_utf8, valid_utf8};
use crate::bytes::{be_bytes, be_value, decode_be, lemma_be_bytes_len, lemma_be_roundtrip, lemma_be_bytes_of_value, pow256, push_be};
use crate::error::{err, is_err_of, ErrKind, Error};
use crate::text::{append_decimal, dec_chars};

verus! {

broadcast use vstd::utf8::encode_utf8_valid_utf8, vstd::utf8::encode_utf8_decode_utf8;

/// The length of a cell.
pub const CELL_LEN: usize = 514;

/// The longest nickname of a peer, in bytes.
pub const MAX_NICKNAME_LEN: usize = 100;

/// The type byte of an info cell.
pub const CELL_TYPE_INFO: u8 = 0;

/// Whether ed25519-dalek's `PublicKey::from_bytes` accepts 32 bytes: whether they are the
/// compressed Y coordinate of a point of the curve.
pub uninterp spec fn ed25519_decompresses(bytes: Seq<u8>) -> bool;

/// The text of the `SignatureError` that `PublicKey::from_bytes` gives for `bytes` it
/// refuses, as ed25519-dalek's errors and the signature crate's `Display` write it (with
/// their `std` features, which ed25519-dalek's default features turn on): a length other
/// than 32 bytes, or bytes that decompress to no point.
pub open spec fn signature_error_text(bytes: Seq<u8>) -> Seq<char> {
    if bytes.len() != 32 {
        "signature error: PublicKey must be 32 bytes in length"@
    } else {
        "signature error: Cannot decompress Edwards point"@
    }
}

/// The text of the `Utf8Error` that `std::str::from_utf8` gives for `bytes`.
pub uninterp spec fn utf8_error_text(bytes: Seq<u8>) -> Seq<char>;

/// Calls `ed25519_dalek::PublicKey::from_bytes`. As its source shows, it accepts exactly 32
/// bytes that decompress to a point, and the key keeps those bytes as `as_bytes` gives them
/// back; otherwise it fails with a `SignatureError`, whose text is returned.
#[verifier::external_body]
fn dalek_public_key(bytes: &[u8]) -> (r: Result<Vec<u8>, String>)
    ensures
        r.is_ok() == (bytes@.len() == 32 && ed25519_decompresses(bytes@)),
        r.is_ok() ==> r.unwrap()@ == bytes@,
        r.is_err() ==> r.unwrap_err()@ == signature_error_text(bytes@),
{
    match ed25519_dalek::PublicKey::from_bytes(bytes) {
        Ok(k) => Ok(k.as_bytes().to_vec()),
        Err(e) => Err(e.to_string()),
    }
}

/// Calls `std::str::from_utf8`, which accepts exactly the valid UTF-8 byte strings and
/// otherwise fails with a `Utf8Error`, whose text is returned.
#[verifier::external_body]
pub(crate) fn utf8_string(bytes: &[u8]) -> (r: Result<String, String>)
    ensures
        r.is_ok() == valid_utf8(bytes@),
        r.is_ok() ==> r.unwrap()@ == decode_utf8(bytes@),
        r.is_err() ==> r.unwrap_err()@ == utf8_error_text(bytes@),
{
    match std::str::from_utf8(bytes) {
        Ok(s) => Ok(s.to_string()),
        Err(e) => Err(e.to_string()),
    }
}

/// An ed25519 public key: 32 bytes that are the compressed form of a point of the curve.
pub struct PublicKey {
    bytes: Vec<u8>,
}

impl PublicKey {
    /// The 32 bytes of the key.
    pub closed spec fn view(&self) -> Seq<u8> {
        self.bytes@
    }

    /// The bytes form a key.
    pub closed spec fn wf(&self) -> bool {
        self.bytes@.len() == 32 && ed25519_decompresses(self.bytes@)
    }

    /// The key of `bytes`, or the crypt error that ed25519-dalek's text describes when
    /// they are not 32 bytes of a point.
    pub fn from_bytes(bytes: &[u8]) -> (r: Result<PublicKey, Error>)
        ensures
            r is Ok <==> bytes@.len() == 32 && ed25519_decompresses(bytes@),
            r matches Ok(k) ==> k.wf() && k.view() == bytes@,
            r matches Err(e) ==> is_err_of(e, ErrKind::Crypt, signature_error_text(bytes@)),
    {
        match dalek_public_key(bytes) {
            Ok(k) => Ok(PublicKey { bytes: k }),
            Err(t) => Err(err(ErrKind::Crypt, t.as_str())),
        }
    }

    /// The 32 bytes of the key.
    pub fn as_bytes(&self) -> (r: &[u8])
        ensures
            r@ == self.view(),
    {
        self.bytes.as_slice()
    }

    /// A copy of the key.
    pub fn copy(&self) -> (r: PublicKey)
        ensures
            r.view() == self.view(),
            r.wf() == self.wf(),
    {
        PublicKey { bytes: self.bytes.clone() }
    }

    /// A valid key has 32 bytes that decompress.
    pub proof fn lemma_wf(&self)
        requires
            self.wf(),
        ensures
            self.view().len() == 32,
            ed25519_decompresses(self.view()),
    {
    }
}

/// The address of a peer: IPv4 octets or IPv6 segments, and a port.
#[derive(Debug, Clone, Copy)]
pub enum SocketAddress {
    /// An IPv4 address.
    V4 { ip: [u8; 4], port: u16 },
    /// An IPv6 address.
    V6 { segments: [u16; 8], port: u16 },
}

/// A peer of the network: its address, key and nickname.
pub struct Peer {
    /// Where it listens.
    pub sockaddr: SocketAddress,
    /// Its public key.
    pub pubkey: PublicKey,
    /// Its nickname.
    pub nickname: String,
}

impl Peer {
    /// A copy of the peer.
    pub fn copy(&self) -> (r: Peer)
        ensures
            r.sockaddr == self.sockaddr,
            r.pubkey.view() == self.pubkey.view(),
            r.pubkey.wf() == self.pubkey.wf(),
            r.nickname@ == self.nickname@,
    {
        Peer { sockaddr: self.sockaddr, pubkey: self.pubkey.copy(), nickname: self.nickname.clone() }
    }
}

/// The cell in which a peer tells who it is.
pub struct Info {
    /// The peer that sends the cell.
    pub local_peer: Peer,
}

/// A cell of no content.
#[derive(Debug, Clone, Copy)]
pub struct Padding {}

/// A cell of the channel protocol.
pub enum Cell {
    /// Who the sender is.
    Info(Info),
    /// Nothing.
    Padding(Padding),
}

/// `s` with the bytes from `at` on replaced by `b`.
pub open spec fn splice(s: Seq<u8>, at: int, b: Seq<u8>) -> Seq<u8> {
    s.subrange(0, at) + b + s.subrange(at + b.len(), s.len() as int)
}

/// The big-endian bytes of the eight segments of an IPv6 address.
pub open spec fn segment_bytes(segments: Seq<u16>) -> Seq<u8>
    decreases segments.len(),
{
    if segments.len() == 0 {
        Seq::empty()
    } else {
        segment_bytes(segments.drop_last()) + be_bytes(segments.last() as nat, 2)
    }
}

/// The bytes from 49 on that encode an address, the nickname's length and the nickname.
pub open spec fn address_bytes(addr: SocketAddress, nick: Seq<u8>) -> Seq<u8> {
    match addr {
        SocketAddress::V4 { ip, port } => seq![0u8] + ip@ + be_bytes(port as nat, 2) + seq![nick.len() as u8] + nick,
        SocketAddress::V6 { segments, port } => seq![1u8] + segment_bytes(segments@) + be_bytes(port as nat, 2) + seq![
            nick.len() as u8,
        ] + nick,
    }
}

/// The cell bytes `buf` after an info cell of `peer` is written into them: the type byte,
/// bytes 1 to 16 unchanged, the key at 17, then the address and the nickname.
pub open spec fn encoded_info(buf: Seq<u8>, key: Seq<u8>, addr: SocketAddress, nick: Seq<u8>) -> Seq<u8> {
    splice(splice(splice(buf, 0, seq![CELL_TYPE_INFO]), 17, key), 49, address_bytes(addr, nick))
}

/// Pushes the big-endian bytes of the segments.
fn push_segments(out: &mut Vec<u8>, segments: &[u16; 8])
    ensures
        final(out)@ == old(out)@ + segment_bytes(segments@),
{
    let mut i: usize = 0;
    assert(segments@.subrange(0, 0) =~= Seq::<u16>::empty());
    while i < 8
        invariant
            i <= 8,
            segments@.len() == 8,
            out@ == old(out)@ + segment_bytes(segments@.subrange(0, i as int)),
        decreases 8 - i,
    {
        let s = segments[i];
        push_be(out, s as u128, 2);
        assert(segments@.subrange(0, i + 1).drop_last() =~= segments@.subrange(0, i as int));
        i = i + 1;
    }
    assert(segments@.subrange(0, 8) =~= segments@);
}

/// Writes `bytes` into `buf` from `at` on.
fn copy_into(buf: &mut [u8], at: usize, bytes: &[u8])
    requires
        at + bytes@.len() <= old(buf)@.len(),
    ensures
        final(buf)@ == splice(old(buf)@, at as int, bytes@),
{
    let mut k: usize = 0;
    let n = bytes.len();
    let blen = buf.len();
    while k < n
        invariant
            n == bytes@.len(),
            blen == buf@.len(),
            at + n <= buf@.len(),
            buf@.len() == old(buf)@.len(),
            k <= n,
            buf@ == old(buf)@.subrange(0, at as int) + bytes@.subrange(0, k as int) + old(buf)@.subrange(
                at + k,
                old(buf)@.len() as int,
            ),
        decreases n - k,
    {
        buf[at + k] = bytes[k];
        assert(buf@ =~= old(buf)@.subrange(0, at as int) + bytes@.subrange(0, k + 1) + old(buf)@.subrange(
            at + k + 1,
            old(buf)@.len() as int,
        ));
        k = k + 1;
    }
    assert(bytes@.subrange(0, n as int) =~= bytes@);
}

impl Info {
    /// Writes the cell into `buf`: its type, the key of the peer at 17, the address from 49
    /// on and then the nickname's length and bytes. A nickname of more than
    /// `MAX_NICKNAME_LEN` bytes is refused.
    pub fn to_bytes(&self, buf: &mut [u8]) -> (r: Result<(), Error>)
        requires
            old(buf)@.len() >= CELL_LEN,
            self.local_peer.pubkey.wf(),
        ensures
            r is Ok <==> encode_utf8(self.local_peer.nickname@).len() <= MAX_NICKNAME_LEN,
            r is Ok ==> final(buf)@ == encoded_info(
                old(buf)@,
                self.local_peer.pubkey.view(),
                self.local_peer.sockaddr,
                encode_utf8(self.local_peer.nickname@),
            ),
            r matches Err(e) ==> is_err_of(e, ErrKind::IllegalArgument, "nickname must be less than or equal to 100 bytes"@)
                && final(buf)@ == old(buf)@,
    {
        let nick = self.local_peer.nickname.as_str().as_bytes();
        let nlen = nick.len();
        if nlen > MAX_NICKNAME_LEN {
            return Err(err(ErrKind::IllegalArgument, "nickname must be less than or equal to 100 bytes"));
        }
        let ghost b0 = buf@;
        let key = self.local_peer.pubkey.as_bytes();
        proof {
            self.local_peer.pubkey.lemma_wf();
        }
        let mut tail: Vec<u8> = Vec::new();
        match self.local_peer.sockaddr {
            SocketAddress::V4 { ip, port } => {
                tail.push(0u8);
                tail.push(ip[0]);
                tail.push(ip[1]);
                tail.push(ip[2]);
                tail.push(ip[3]);
                push_be(&mut tail, port as u128, 2);
                tail.push(nlen as u8);
                tail.extend_from_slice(nick);
                assert(ip@ =~= seq![ip[0], ip[1], ip[2], ip[3]]);
            },
            SocketAddress::V6 { segments, port } => {
                tail.push(1u8);
                push_segments(&mut tail, &segments);
                push_be(&mut tail, port as u128, 2);
                tail.push(nlen as u8);
                tail.extend_from_slice(nick);
            },
        }
        proof {
            lemma_be_bytes_len(0, 2);
            assert(tail@ =~= address_bytes(self.local_peer.sockaddr, nick@));
            lemma_address_len(self.local_peer.sockaddr, nick@);
        }
        copy_into(buf, 0, &[CELL_TYPE_INFO]);
        copy_into(buf, 17, key);
        copy_into(buf, 49, tail.as_slice());
        assert(encode_utf8(self.local_peer.nickname@) == nick@);
        Ok(())
    }

    /// Reads an info cell from `buf`: the key at 17, then the address type at 49, 0 for
    /// IPv4 and 1 for IPv6, the address, the port, and the nickname's length and bytes.
    /// An IPv6 nickname is read from the byte that holds its length on. A key that is no
    /// point is a crypt error, a nickname that is no UTF-8 a UTF-8 error, another address
    /// type corrupted data.
    pub fn from_bytes(buf: &[u8]) -> (r: Result<Info, Error>)
        requires
            buf@.len() == CELL_LEN,
        ensures
            r is Ok <==> info_problem(buf@) is None,
            r matches Ok(info) ==> info.local_peer.pubkey.wf() && info.local_peer.pubkey.view() == buf@.subrange(17, 49)
                && address_read(info.local_peer.sockaddr, buf@) && info.local_peer.nickname@ == decode_utf8(
                nickname_bytes(buf@),
            ),
            r matches Err(e) ==> info_problem(buf@) matches Some((k, m)) && is_err_of(e, k, m),
    {
        let kb = vstd::slice::slice_subrange(buf, 17, 49);
        let pubkey = PublicKey::from_bytes(kb)?;
        let t = buf[49];
        if t == 0 {
            let port = decode_be(buf, 54, 2) as u16;
            proof {
                crate::bytes::lemma_be_value_bound(buf@.subrange(54, 56));
                reveal_with_fuel(pow256, 3);
            }
            let ip: [u8; 4] = [buf[50], buf[51], buf[52], buf[53]];
            let name_len = buf[56] as usize;
            let nb = vstd::slice::slice_subrange(buf, 57, 57 + name_len);
            let nickname = match utf8_string(nb) {
                Ok(s) => s,
                Err(t) => {
                    return Err(crate::error::map_err(ErrKind::Utf8, "Utf8 error", t.as_str()));
                },
            };
            assert(ip@ =~= buf@.subrange(50, 54));
            Ok(Info { local_peer: Peer { sockaddr: SocketAddress::V4 { ip, port }, pubkey, nickname } })
        } else if t == 1 {
            let mut segments: [u16; 8] = [0u16; 8];
            let mut i: usize = 0;
            while i < 8
                invariant
                    buf@.len() == CELL_LEN,
                    i <= 8,
                    segments@.len() == 8,
                    forall|j: int| 0 <= j < i ==> segments@[j] as nat == be_value(buf@.subrange(50 + 2 * j, 52 + 2 * j)),
                decreases 8 - i,
            {
                let v = decode_be(buf, 50 + 2 * i, 2);
                proof {
                    crate::bytes::lemma_be_value_bound(buf@.subrange(50 + 2 * i, 52 + 2 * i));
                    reveal_with_fuel(pow256, 3);
                }
                segments[i] = v as u16;
                i = i + 1;
            }
            let port = decode_be(buf, 66, 2) as u16;
            proof {
                crate::bytes::lemma_be_value_bound(buf@.subrange(66, 68));
                reveal_with_fuel(pow256, 3);
            }
            let name_len = buf[68] as usize;
            let nb = vstd::slice::slice_subrange(buf, 68, 68 + name_len);
            let nickname = match utf8_string(nb) {
                Ok(s) => s,
                Err(t) => {
                    return Err(crate::error::map_err(ErrKind::Utf8, "Utf8 error", t.as_str()));
                },
            };
            assert(segments@ =~= v6_segments(buf@));
            Ok(Info { local_peer: Peer { sockaddr: SocketAddress::V6 { segments, port }, pubkey, nickname } })
        } else {
            Err(err(ErrKind::CorruptedData, "unexpected sockaddr type"))
        }
    }
}

/// The bytes of a written address and nickname take their fixed part and the nickname.
proof fn lemma_address_len(addr: SocketAddress, nick: Seq<u8>)
    ensures
        address_bytes(addr, nick).len() == match addr {
            SocketAddress::V4 { .. } => 8 + nick.len(),
            SocketAddress::V6 { .. } => 20 + nick.len(),
        },
{
    lemma_be_bytes_len(0, 2);
    match addr {
        SocketAddress::V4 { ip, port } => {
            lemma_be_bytes_len(port as nat, 2);
        },
        SocketAddress::V6 { segments, port } => {
            lemma_be_bytes_len(port as nat, 2);
            lemma_segment_bytes_len(segments@);
        },
    }
}

/// Each segment takes two bytes.
proof fn lemma_segment_bytes_len(segments: Seq<u16>)
    ensures
        segment_bytes(segments).len() == 2 * segments.len(),
    decreases segments.len(),
{
    if segments.len() > 0 {
        lemma_segment_bytes_len(segments.drop_last());
        lemma_be_bytes_len(segments.last() as nat, 2);
    }
}

/// The eight segments of an IPv6 address read from bytes 50 to 65.
pub open spec fn v6_segments(buf: Seq<u8>) -> Seq<u16> {
    Seq::new(8, |j: int| be_value(buf.subrange(50 + 2 * j, 52 + 2 * j)) as u16)
}

/// Whether `addr` is the address that a cell's bytes hold.
pub open spec fn address_read(addr: SocketAddress, buf: Seq<u8>) -> bool {
    match addr {
        SocketAddress::V4 { ip, port } => buf[49] == 0 && ip@ == buf.subrange(50, 54) && port as nat == be_value(
            buf.subrange(54, 56),
        ),
        SocketAddress::V6 { segments, port } => buf[49] == 1 && segments@ == v6_segments(buf) && port as nat
            == be_value(buf.subrange(66, 68)),
    }
}

/// The bytes read as the nickname: after the length byte for IPv4, from the length byte on
/// for IPv6.
pub open spec fn nickname_bytes(buf: Seq<u8>) -> Seq<u8> {
    if buf[49] == 0 {
        buf.subrange(57, 57 + buf[56] as int)
    } else {
        buf.subrange(68, 68 + buf[68] as int)
    }
}

/// Why an info cell cannot be read from `buf`, as the kind and message of the error, or
/// `None` when it can.
pub open spec fn info_problem(buf: Seq<u8>) -> Option<(ErrKind, Seq<char>)> {
    let key = buf.subrange(17, 49);
    if !ed25519_decompresses(key) {
        Some((ErrKind::Crypt, signature_error_text(key)))
    } else if buf[49] != 0 && buf[49] != 1 {
        Some((ErrKind::CorruptedData, "unexpected sockaddr type"@))
    } else if !valid_utf8(nickname_bytes(buf)) {
        Some((ErrKind::Utf8, "Utf8 error"@ + ": "@ + utf8_error_text(nickname_bytes(buf))))
    } else {
        None
    }
}

impl Cell {
    /// Writes the cell into `buf`, which must be `CELL_LEN` bytes long (else a crypt
    /// error). A padding cell writes nothing.
    pub fn to_bytes(&self, buf: &mut [u8]) -> (r: Result<(), Error>)
        requires
            self matches Cell::Info(info) ==> info.local_peer.pubkey.wf(),
        ensures
            old(buf)@.len() != CELL_LEN ==> (r matches Err(e) && is_err_of(e, ErrKind::Crypt, "buf len must be 514 bytes"@)
                && final(buf)@ == old(buf)@),
            old(buf)@.len() == CELL_LEN ==> match self {
                Cell::Info(info) => {
                    &&& r is Ok <==> encode_utf8(info.local_peer.nickname@).len() <= MAX_NICKNAME_LEN
                    &&& r is Ok ==> final(buf)@ == encoded_info(
                        old(buf)@,
                        info.local_peer.pubkey.view(),
                        info.local_peer.sockaddr,
                        encode_utf8(info.local_peer.nickname@),
                    )
                    &&& r matches Err(e) ==> is_err_of(
                        e,
                        ErrKind::IllegalArgument,
                        "nickname must be less than or equal to 100 bytes"@,
                    ) && final(buf)@ == old(buf)@
                },
                Cell::Padding(_) => r is Ok && final(buf)@ == old(buf)@,
            },
    {
        if buf.len() != CELL_LEN {
            return Err(err(ErrKind::Crypt, "buf len must be 514 bytes"));
        }
        match self {
            Cell::Info(info) => info.to_bytes(buf),
            Cell::Padding(_) => Ok(()),
        }
    }

    /// Reads a cell from `buf`, which must be `CELL_LEN` bytes long (else a crypt error
    /// that gives the length found); its first byte gives its type, and only info cells
    /// are known (else corrupted data).
    pub fn from_bytes(buf: &[u8]) -> (r: Result<Cell, Error>)
        ensures
            buf@.len() != CELL_LEN ==> (r matches Err(e) && is_err_of(
                e,
                ErrKind::Crypt,
                "Invalid cell length. Cells must be 514 bytes. Input was "@ + dec_chars(buf@.len()) + " bytes."@,
            )),
            buf@.len() == CELL_LEN && buf@[0] != CELL_TYPE_INFO ==> (r matches Err(e) && is_err_of(
                e,
                ErrKind::CorruptedData,
                "cell contained an unknown CELL_TYPE"@,
            )),
            buf@.len() == CELL_LEN && buf@[0] == CELL_TYPE_INFO ==> {
                &&& r is Ok <==> info_problem(buf@) is None
                &&& r matches Ok(c) ==> (c matches Cell::Info(info) && info.local_peer.pubkey.wf()
                    && info.local_peer.pubkey.view() == buf@.subrange(17, 49) && address_read(
                    info.local_peer.sockaddr,
                    buf@,
                ) && info.local_peer.nickname@ == decode_utf8(nickname_bytes(buf@)))
                &&& r matches Err(e) ==> info_problem(buf@) matches Some((k, m)) && is_err_of(e, k, m)
            },
    {
        if buf.len() != CELL_LEN {
            let mut m = String::from_str("Invalid cell length. Cells must be 514 bytes. Input was ");
            append_decimal(&mut m, buf.len() as u128);
            m.append(" bytes.");
            return Err(err(ErrKind::Crypt, m.as_str()));
        }
        if buf[0] == CELL_TYPE_INFO {
            match Info::from_bytes(buf) {
                Ok(info) => Ok(Cell::Info(info)),
                Err(e) => Err(e),
            }
        } else {
            Err(err(ErrKind::CorruptedData, "cell contained an unknown CELL_TYPE"))
        }
    }
}

/// An IPv4 info cell reads back as it was written: the key, the address and the
/// nickname of a peer whose nickname fits.
pub proof fn law_info_v4_roundtrip(buf: Seq<u8>, key: Seq<u8>, ip: [u8; 4], port: u16, nick: Seq<char>)
    requires
        buf.len() == CELL_LEN,
        key.len() == 32,
        ed25519_decompresses(key),
        encode_utf8(nick).len() <= MAX_NICKNAME_LEN,
    ensures
        ({
            let out = encoded_info(buf, key, SocketAddress::V4 { ip, port }, encode_utf8(nick));
            &&& out.len() == CELL_LEN
            &&& out[0] == CELL_TYPE_INFO
            &&& info_problem(out) is None
            &&& out.subrange(17, 49) == key
            &&& address_read(SocketAddress::V4 { ip, port }, out)
            &&& decode_utf8(nickname_bytes(out)) == nick
        }),
{
    let nb = encode_utf8(nick);
    let addr = SocketAddress::V4 { ip, port };
    lemma_address_len(addr, nb);
    lemma_be_bytes_len(port as nat, 2);
    let s1 = splice(buf, 0, seq![CELL_TYPE_INFO]);
    let s2 = splice(s1, 17, key);
    let tail = address_bytes(addr, nb);
    let out = splice(s2, 49, tail);
    assert(out.subrange(17, 49) =~= key);
    assert(out.subrange(50, 54) =~= ip@);
    assert(out.subrange(54, 56) =~= be_bytes(port as nat, 2));
    reveal_with_fuel(pow256, 3);
    lemma_be_roundtrip(port as nat, 2);
    assert(out[56] == nb.len() as u8);
    assert(nickname_bytes(out) =~= nb);
}

} // verus!
