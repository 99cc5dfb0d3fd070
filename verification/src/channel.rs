use vstd::prelude::*;
use crate::cell::{address_read, encoded_info, info_problem, nickname_bytes, Cell, Peer, PublicKey, CELL_LEN, CELL_TYPE_INFO, MAX_NICKNAME_LEN};
use crate::error::{err, is_err_of, ErrKind, Error};
use vstd::utf8::{decode_utf8, encode_utf8};

verus! {

/// Which side of a TLS connection a channel is.
#[derive(Debug, Clone, Copy, PartialEq, Eq, Structural)]
pub enum ChannelDirection {
    /// It accepted the connection.
    Inbound,
    /// It made the connection.
    Outbound,
    /// It has no connection yet.
    NotConnected,
}

/// What a channel read and has still to hand out: the cells read once the peer was
/// verified, and the plaintext bytes not yet cut into cells.
pub struct ChannelState {
    /// Whether the peer closed the connection.
    pub has_closed: bool,
    /// The TLS bytes waiting to be written.
    pub bytes_to_write: usize,
    /// The cells read since the peer was verified.
    pub cells: Vec<Cell>,
    /// The plaintext bytes not yet cut into cells.
    pub in_buf: Vec<u8>,
    /// How many bytes of `in_buf` hold data.
    pub offset: usize,
}

impl ChannelState {
    /// An empty state.
    pub fn new() -> (r: ChannelState)
        ensures
            !r.has_closed,
            r.bytes_to_write == 0,
            r.cells@.len() == 0,
            r.in_buf@.len() == 0,
            r.offset == 0,
    {
        ChannelState { has_closed: false, bytes_to_write: 0, cells: Vec::new(), in_buf: Vec::new(), offset: 0 }
    }

    /// Takes `data`, the plaintext that TLS has ready, after the bytes of the buffer that
    /// are not yet cut into cells.
    pub fn receive(&mut self, data: &[u8])
        requires
            old(self).offset <= old(self).in_buf@.len(),
            old(self).offset + data@.len() <= usize::MAX,
        ensures
            final(self).in_buf@ == old(self).in_buf@.subrange(0, old(self).offset as int) + data@,
            final(self).offset == old(self).offset + data@.len(),
            final(self).cells@ == old(self).cells@,
            final(self).has_closed == old(self).has_closed,
            final(self).bytes_to_write == old(self).bytes_to_write,
    {
        self.in_buf.truncate(self.offset);
        self.in_buf.extend_from_slice(data);
        self.offset = self.offset + data.len();
    }
}

/// The protocol state of a channel: its direction, whether its peer is verified, and who
/// the peer is.
pub struct ChannelCore {
    /// Which side of the connection the channel is.
    pub direction: ChannelDirection,
    /// Whether the peer proved who it is.
    pub verified: bool,
    /// The peer, once verified.
    pub remote_peer: Option<Peer>,
}

/// Why the first cell of `chunk` is refused in a channel in the given state, as the kind
/// and message of the error, or `None` when it is taken. `key` is the key the TLS handshake
/// saw, when it can be read.
pub open spec fn cell_problem(
    chunk: Seq<u8>,
    direction: ChannelDirection,
    verified: bool,
    key: Option<Seq<u8>>,
) -> Option<(ErrKind, Seq<char>)> {
    if chunk[0] != CELL_TYPE_INFO {
        Some((ErrKind::CorruptedData, "cell contained an unknown CELL_TYPE"@))
    } else if info_problem(chunk) is Some {
        info_problem(chunk)
    } else if !verified && direction == ChannelDirection::Inbound && key is Some && key->Some_0 != chunk.subrange(
        17,
        49,
    ) {
        Some((ErrKind::IllegalState, "tls pubkey did not match the pubkey sent by peer"@))
    } else {
        None
    }
}

/// Why the cells in `buf`, read one after the other by a channel in the given state, are
/// refused: the problem of the first refused cell, or `None` when every whole cell is
/// taken. Each cell taken may verify the peer for those that follow.
pub open spec fn cells_problem(
    buf: Seq<u8>,
    direction: ChannelDirection,
    verified: bool,
    key: Option<Seq<u8>>,
) -> Option<(ErrKind, Seq<char>)>
    decreases buf.len(),
{
    if buf.len() < 514 {
        None
    } else {
        match cell_problem(buf.subrange(0, 514), direction, verified, key) {
            Some(p) => Some(p),
            None => cells_problem(
                buf.subrange(514, buf.len() as int),
                direction,
                verified || verifies_on(direction, verified, key),
                key,
            ),
        }
    }
}

/// Whether `c` is the cell read from the 514 bytes `chunk`: an info cell whose key, address
/// and nickname are those the bytes hold.
pub open spec fn cell_read_from(c: Cell, chunk: Seq<u8>) -> bool {
    c matches Cell::Info(info) && info.local_peer.pubkey.view() == chunk.subrange(17, 49) && address_read(
        info.local_peer.sockaddr,
        chunk,
    ) && info.local_peer.nickname@ == decode_utf8(nickname_bytes(chunk))
}

/// The `j`-th whole cell of `buf`.
pub open spec fn chunk_at(buf: Seq<u8>, j: int) -> Seq<u8> {
    buf.subrange(514 * j, 514 * j + 514)
}

/// The index of the first cell a channel keeps: the first when its peer is verified, else
/// the one after the cell that verifies it.
pub open spec fn first_kept(verified: bool) -> nat {
    if verified {
        0
    } else {
        1
    }
}

/// How many of the first `n` cells read by a channel in the given state are kept: all when
/// the peer is verified, all but the first when the first verifies it, else none.
pub open spec fn kept_count(direction: ChannelDirection, verified: bool, key: Option<Seq<u8>>, n: nat) -> nat {
    if verified {
        n
    } else if verifies_on(direction, verified, key) && n > 0 {
        (n - 1) as nat
    } else {
        0
    }
}

/// Whether a verification happens on reading this cell.
pub open spec fn verifies_on(direction: ChannelDirection, verified: bool, key: Option<Seq<u8>>) -> bool {
    !verified && (direction == ChannelDirection::Outbound || (direction == ChannelDirection::Inbound && key is Some))
}

impl ChannelCore {
    /// A channel with no connection and no verified peer.
    pub fn new() -> (r: ChannelCore)
        ensures
            r.direction == ChannelDirection::NotConnected,
            !r.verified,
            r.remote_peer is None,
    {
        ChannelCore { direction: ChannelDirection::NotConnected, verified: false, remote_peer: None }
    }

    /// Encrypted bytes and cells go through the channel only once it is connected (else a
    /// crypt error).
    pub fn check_connected(&self) -> (r: Result<(), Error>)
        ensures
            r is Ok <==> self.direction != ChannelDirection::NotConnected,
            r matches Err(e) ==> is_err_of(e, ErrKind::Crypt, "channel not connected"@),
    {
        match self.direction {
            ChannelDirection::NotConnected => Err(err(ErrKind::Crypt, "channel not connected")),
            _ => Ok(()),
        }
    }

    /// The bytes of `cell` as the channel sends them: the cell is written into a buffer of
    /// `CELL_LEN` zero bytes, and then the channel must be connected.
    pub fn outgoing_cell(&self, cell: &Cell) -> (r: Result<Vec<u8>, Error>)
        requires
            cell matches Cell::Info(info) ==> info.local_peer.pubkey.wf(),
        ensures
            match cell {
                Cell::Info(info) => {
                    let nick = encode_utf8(info.local_peer.nickname@);
                    &&& r is Ok <==> nick.len() <= MAX_NICKNAME_LEN && self.direction != ChannelDirection::NotConnected
                    &&& r matches Ok(b) ==> b@ == encoded_info(
                        Seq::new(CELL_LEN as nat, |i: int| 0u8),
                        info.local_peer.pubkey.view(),
                        info.local_peer.sockaddr,
                        nick,
                    )
                    &&& nick.len() > MAX_NICKNAME_LEN ==> (r matches Err(e) && is_err_of(
                        e,
                        ErrKind::IllegalArgument,
                        "nickname must be less than or equal to 100 bytes"@,
                    ))
                    &&& nick.len() <= MAX_NICKNAME_LEN && self.direction == ChannelDirection::NotConnected ==> (r matches Err(
                        e,
                    ) && is_err_of(e, ErrKind::Crypt, "channel not connected"@))
                },
                Cell::Padding(_) => {
                    &&& r is Ok <==> self.direction != ChannelDirection::NotConnected
                    &&& r matches Ok(b) ==> b@ == Seq::new(CELL_LEN as nat, |i: int| 0u8)
                    &&& r matches Err(e) ==> is_err_of(e, ErrKind::Crypt, "channel not connected"@)
                },
            },
    {
        let mut buf: Vec<u8> = vec![0u8; CELL_LEN];
        assert(buf@ =~= Seq::new(CELL_LEN as nat, |i: int| 0u8));
        cell.to_bytes(buf.as_mut_slice())?;
        self.check_connected()?;
        Ok(buf)
    }

    /// Reads the cell at the start of the buffer and drops its bytes. Before the peer is
    /// verified only an info cell is accepted; it verifies the peer of an outbound channel,
    /// and that of an inbound channel when the key the TLS handshake saw is known and is the
    /// key in the cell. Once the peer is verified, cells are kept for the caller.
    pub fn process_cell(&mut self, state: &mut ChannelState, found_key: Option<&PublicKey>) -> (r: Result<(), Error>)
        requires
            old(state).offset == old(state).in_buf@.len(),
            old(state).offset >= CELL_LEN,
        ensures
            final(state).has_closed == old(state).has_closed,
            final(state).bytes_to_write == old(state).bytes_to_write,
            final(self).direction == old(self).direction,
            ({
                let chunk = old(state).in_buf@.subrange(0, 514);
                let key = match found_key {
                    Some(k) => Some(k.view()),
                    None => None,
                };
                let problem = if chunk[0] == CELL_TYPE_INFO || old(self).verified {
                    cell_problem(chunk, old(self).direction, old(self).verified, key)
                } else {
                    Some((ErrKind::IllegalState, "only Info is allowed when not verified"@))
                };
                let problem = if chunk[0] != CELL_TYPE_INFO {
                    Some((ErrKind::CorruptedData, "cell contained an unknown CELL_TYPE"@))
                } else {
                    problem
                };
                &&& r is Ok <==> problem is None
                &&& r matches Err(e) ==> problem matches Some((k, m)) && is_err_of(e, k, m)
                &&& r is Err ==> final(state).in_buf@ == old(state).in_buf@ && final(state).offset == old(state).offset
                    && final(state).cells@ == old(state).cells@ && final(self).verified == old(self).verified
                &&& r is Ok ==> {
                    &&& final(state).in_buf@ == old(state).in_buf@.subrange(514, old(state).in_buf@.len() as int)
                    &&& final(state).offset == old(state).offset - 514
                    &&& final(self).verified == (old(self).verified || verifies_on(
                        old(self).direction,
                        old(self).verified,
                        key,
                    ))
                    &&& old(self).verified ==> final(state).cells@.len() == old(state).cells@.len() + 1
                        && final(state).cells@.subrange(0, old(state).cells@.len() as int) == old(state).cells@
                        && cell_read_from(final(state).cells@[old(state).cells@.len() as int], chunk)
                    &&& !old(self).verified ==> final(state).cells@ == old(state).cells@
                    &&& verifies_on(old(self).direction, old(self).verified, key) ==> (final(self).remote_peer matches Some(
                        p,
                    ) && p.pubkey.view() == chunk.subrange(17, 49) && address_read(p.sockaddr, chunk)
                        && p.nickname@ == decode_utf8(nickname_bytes(chunk)))
                }
            }),
    {
        let chunk = vstd::slice::slice_subrange(state.in_buf.as_slice(), 0, CELL_LEN);
        let cell = Cell::from_bytes(chunk)?;
        let info_peer: Option<Peer> = match &cell {
            Cell::Info(info) => Some(info.local_peer.copy()),
            Cell::Padding(_) => {
                if !self.verified {
                    return Err(err(ErrKind::IllegalState, "only Info is allowed when not verified"));
                }
                None
            },
        };
        if !self.verified {
            match self.direction {
                ChannelDirection::Inbound => {
                    let peer = match info_peer {
                        Some(p) => p,
                        None => {
                            return Err(err(ErrKind::IllegalState, "info data not found"));
                        },
                    };
                    match found_key {
                        Some(k) => {
                            if !same_bytes(k.as_bytes(), peer.pubkey.as_bytes()) {
                                return Err(
                                    err(ErrKind::IllegalState, "tls pubkey did not match the pubkey sent by peer"),
                                );
                            }
                            self.remote_peer = Some(peer);
                            self.verified = true;
                        },
                        None => {},
                    }
                },
                ChannelDirection::Outbound => {
                    self.verified = true;
                    self.remote_peer = info_peer;
                },
                ChannelDirection::NotConnected => {},
            }
        } else {
            state.cells.push(cell);
        }
        let rest = state.in_buf.split_off(CELL_LEN);
        state.in_buf = rest;
        state.offset = state.offset - CELL_LEN;
        Ok(())
    }

    /// Reads every whole cell in the buffer, stopping at the first refused one. On success
    /// fewer than `CELL_LEN` bytes are left, a verified peer stays verified, and once
    /// verified every cell read is kept.
    pub fn process_cells(&mut self, state: &mut ChannelState, found_key: Option<&PublicKey>) -> (r: Result<(), Error>)
        requires
            old(state).offset == old(state).in_buf@.len(),
        ensures
            final(state).offset == final(state).in_buf@.len(),
            final(state).has_closed == old(state).has_closed,
            final(state).bytes_to_write == old(state).bytes_to_write,
            final(self).direction == old(self).direction,
            old(self).verified ==> final(self).verified,
            final(state).cells@.subrange(0, old(state).cells@.len() as int) == old(state).cells@,
            final(state).cells@.len() >= old(state).cells@.len(),
            r is Ok ==> final(state).offset < CELL_LEN,
            r is Ok && old(self).verified ==> final(state).cells@.len() == old(state).cells@.len() + old(state).offset
                / 514,
            ({
                let key = match found_key {
                    Some(k) => Some(k.view()),
                    None => None,
                };
                let problem = cells_problem(old(state).in_buf@, old(self).direction, old(self).verified, key);
                let b = old(state).in_buf@;
                let m = (b.len() / 514) as nat;
                let kept = kept_count(old(self).direction, old(self).verified, key, m);
                let first = first_kept(old(self).verified);
                &&& r is Ok <==> problem is None
                &&& r matches Err(e) ==> problem matches Some((k, m)) && is_err_of(e, k, m)
                &&& r is Ok ==> {
                    &&& final(state).in_buf@ == b.subrange((514 * m) as int, b.len() as int)
                    &&& final(self).verified == (old(self).verified || (m > 0 && verifies_on(
                        old(self).direction,
                        old(self).verified,
                        key,
                    )))
                    &&& final(state).cells@.len() == old(state).cells@.len() + kept
                    &&& forall|k: int|
                        0 <= k < kept ==> cell_read_from(
                            #[trigger] final(state).cells@[old(state).cells@.len() + k],
                            chunk_at(b, first + k),
                        )
                }
            }),
    {
        let ghost key = match found_key {
            Some(k) => Some(k.view()),
            None => None,
        };
        let ghost n0 = state.in_buf@.len();
        let ghost b0 = state.in_buf@;
        let ghost c0 = state.cells@;
        let ghost v0 = self.verified;
        let ghost mut n: nat = 0;
        assert(b0.subrange(0, n0 as int) =~= b0);
        while state.offset >= CELL_LEN
            invariant
                state.offset == state.in_buf@.len(),
                state.has_closed == old(state).has_closed,
                state.bytes_to_write == old(state).bytes_to_write,
                self.direction == old(self).direction,
                v0 == old(self).verified,
                v0 ==> self.verified,
                b0 == old(state).in_buf@,
                c0 == old(state).cells@,
                n0 == b0.len(),
                n * 514 <= n0,
                state.in_buf@ == b0.subrange((n * 514) as int, n0 as int),
                state.cells@.len() >= c0.len(),
                state.cells@.subrange(0, c0.len() as int) == c0,
                v0 ==> state.cells@.len() == c0.len() + n,
                key == (match found_key {
                    Some(k) => Some(k.view()),
                    None => None,
                }),
                cells_problem(b0, self.direction, v0, key) == cells_problem(state.in_buf@, self.direction, self.verified, key),
                self.verified == (v0 || (n > 0 && verifies_on(self.direction, v0, key))),
                state.cells@.len() == c0.len() + kept_count(self.direction, v0, key, n),
                forall|k: int|
                    0 <= k < kept_count(self.direction, v0, key, n) ==> cell_read_from(
                        #[trigger] state.cells@[c0.len() + k],
                        chunk_at(b0, first_kept(v0) + k),
                    ),
            decreases state.offset,
        {
            let ghost cells_before = state.cells@;
            let ghost buf_before = state.in_buf@;
            let ghost verified_before = self.verified;
            let rc = self.process_cell(state, found_key);
            match rc {
                Ok(()) => {},
                Err(e) => {
                    return Err(e);
                },
            }
            proof {
                assert(state.in_buf@ =~= buf_before.subrange(514, buf_before.len() as int));
            }
            proof {
                assert(state.cells@.subrange(0, c0.len() as int) =~= c0) by {
                    if cells_before.len() < state.cells@.len() {
                        assert(state.cells@.subrange(0, cells_before.len() as int) == cells_before);
                        assert(state.cells@.subrange(0, c0.len() as int) =~= cells_before.subrange(0, c0.len() as int));
                    }
                }
                assert(state.in_buf@ =~= b0.subrange(((n + 1) * 514) as int, n0 as int));
                assert(buf_before.subrange(0, 514) =~= chunk_at(b0, n as int));
                if verified_before {
                    let kb = kept_count(self.direction, v0, key, n);
                    assert(first_kept(v0) + kb == n);
                    assert forall|k: int|
                        0 <= k < kept_count(self.direction, v0, key, n + 1) implies cell_read_from(
                        #[trigger] state.cells@[c0.len() + k],
                        chunk_at(b0, first_kept(v0) + k),
                    ) by {
                        if k < kb {
                            assert(state.cells@[c0.len() + k] == cells_before[c0.len() + k]);
                        }
                    }
                }
                n = n + 1;
            }
        }
        proof {
            assert((n0 as int) / 514 == n) by (nonlinear_arith)
                requires
                    n * 514 <= n0,
                    n0 - n * 514 < 514,
            ;
        }
        Ok(())
    }
}

/// Whether two byte strings are equal.
fn same_bytes(a: &[u8], b: &[u8]) -> (r: bool)
    ensures
        r == (a@ == b@),
{
    if a.len() != b.len() {
        return false;
    }
    let mut i: usize = 0;
    while i < a.len()
        invariant
            a@.len() == b@.len(),
            i <= a@.len(),
            a@.subrange(0, i as int) == b@.subrange(0, i as int),
        decreases a@.len() - i,
    {
        if a[i] != b[i] {
            assert(a@[i as int] != b@[i as int]);
            return false;
        }
        assert(a@.subrange(0, i + 1) =~= a@.subrange(0, i as int).push(a@[i as int]));
        assert(b@.subrange(0, i + 1) =~= b@.subrange(0, i as int).push(b@[i as int]));
        i = i + 1;
    }
    assert(a@ =~= a@.subrange(0, i as int));
    assert(b@ =~= b@.subrange(0, i as int));
    true
}

} // verus!
