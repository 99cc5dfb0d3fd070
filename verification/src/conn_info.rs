use vstd::prelude::*;
use crate::error::{err, is_err_of, ErrKind, Error};
use crate::ser::{lemma_refused_later, lemma_refused_prefix, Reader, Serializable, Writer};
use crate::text::{append_bool, append_decimal, append_signed, bool_chars, dec_chars, int_chars};

verus! {

/// A socket as the event handler holds it: its file descriptor.
pub type Handle = i32;

/// A listening socket of the event handler.
#[derive(Debug, Clone, Copy, PartialEq, Eq, Structural)]
pub struct ListenerInfo {
    /// The connection id.
    pub id: u128,
    /// The socket.
    pub handle: Handle,
    /// Whether each thread listens on a socket of its own for the same port.
    pub is_reuse_port: bool,
    /// The token under which the shared TLS configuration of the listener is kept, if any.
    pub tls_config: Option<usize>,
}

/// A connected socket of the event handler: its read chain and the tokens of its write
/// state and TLS session.
#[derive(Debug, Clone, Copy, PartialEq, Eq, Structural)]
pub struct StreamInfo {
    /// The connection id.
    pub id: u128,
    /// The socket.
    pub handle: Handle,
    /// The listener that accepted it, for an accepted connection.
    pub accept_handle: Option<Handle>,
    /// The id of that listener.
    pub accept_id: Option<u128>,
    /// The token under which its write state is kept.
    pub write_state: usize,
    /// The first slab of its read chain.
    pub first_slab: u32,
    /// The last slab of its read chain.
    pub last_slab: u32,
    /// How many bytes of the last slab hold data.
    pub slab_offset: u16,
    /// Whether a listener accepted it (else it is a client connection).
    pub is_accepted: bool,
    /// The token of its TLS server session, if any.
    pub tls_server: Option<usize>,
    /// The token of its TLS client session, if any.
    pub tls_client: Option<usize>,
}

/// What the event handler keeps for a socket.
#[derive(Debug, Clone, Copy, PartialEq, Eq, Structural)]
pub enum ConnectionInfo {
    /// A listening socket.
    ListenerInfo(ListenerInfo),
    /// A connected socket.
    StreamInfo(StreamInfo),
}

/// The fields of a listener, in the order they are written.
pub type ListenerFields = (u128, (Handle, (bool, Option<usize>)));

/// The first fields of a stream: who it is and who accepted it.
pub type StreamHead = ((u128, Handle), (Option<Handle>, Option<u128>));

/// The middle fields of a stream: its write state and its read chain.
pub type StreamChain = ((usize, u32), (u32, u16));

/// The last fields of a stream: how it came and its TLS sessions.
pub type StreamTail = (bool, (Option<usize>, Option<usize>));

/// The fields of a stream, in the order they are written.
pub type StreamFields = (StreamHead, (StreamChain, StreamTail));

/// The fields of `li`, in the order they are written.
pub open spec fn listener_fields(li: ListenerInfo) -> ListenerFields {
    (li.id, (li.handle, (li.is_reuse_port, li.tls_config)))
}

/// The fields of `si`, in the order they are written.
pub open spec fn stream_fields(si: StreamInfo) -> StreamFields {
    let head = ((si.id, si.handle), (si.accept_handle, si.accept_id));
    let chain = ((si.write_state, si.first_slab), (si.last_slab, si.slab_offset));
    let tail = (si.is_accepted, (si.tls_server, si.tls_client));
    (head, (chain, tail))
}

/// The text that shows a listener: its id, handle, whether it reuses its port and whether it
/// has a TLS configuration.
pub open spec fn listener_text(li: ListenerInfo) -> Seq<char> {
    "ListenerInfo[id="@ + dec_chars(li.id as nat) + ",handle="@ + int_chars(li.handle as int) + ",is_reuse_port="@
        + bool_chars(li.is_reuse_port) + ",has_tls_config="@ + bool_chars(li.tls_config is Some) + "]"@
}

impl ListenerInfo {
    /// The text that shows the listener.
    pub fn describe(&self) -> (r: String)
        ensures
            r@ == listener_text(*self),
    {
        let mut s = String::new();
        s.append("ListenerInfo[id=");
        append_decimal(&mut s, self.id);
        s.append(",handle=");
        append_signed(&mut s, self.handle as i64);
        s.append(",is_reuse_port=");
        append_bool(&mut s, self.is_reuse_port);
        s.append(",has_tls_config=");
        append_bool(&mut s, self.tls_config.is_some());
        s.append("]");
        proof {
            assert(s@ =~= listener_text(*self));
        }
        s
    }
}

impl Serializable for ConnectionInfo {
    /// A tag byte, zero for a listener and one for a stream, then the fields in order.
    open spec fn ser_bytes(&self) -> Seq<u8> {
        match *self {
            ConnectionInfo::ListenerInfo(li) => seq![0u8] + listener_fields(li).ser_bytes(),
            ConnectionInfo::StreamInfo(si) => seq![1u8] + stream_fields(si).ser_bytes(),
        }
    }

    /// The tag byte, then the fields of the kind it names.
    open spec fn reads(before: Seq<u8>, after: Seq<u8>, v: ConnectionInfo) -> bool {
        let rest = before.subrange(1, before.len() as int);
        &&& before.len() >= 1
        &&& match v {
            ConnectionInfo::ListenerInfo(li) => before[0] == 0 && ListenerFields::reads(rest, after, listener_fields(li)),
            ConnectionInfo::StreamInfo(si) => before[0] == 1 && StreamFields::reads(rest, after, stream_fields(si)),
        }
    }

    /// Every connection info reads back as itself.
    open spec fn round_trips(&self) -> bool {
        true
    }

    proof fn lemma_roundtrip(v: ConnectionInfo, rest: Seq<u8>) {
        let all = v.ser_bytes() + rest;
        match v {
            ConnectionInfo::ListenerInfo(li) => {
                ListenerFields::lemma_roundtrip(listener_fields(li), rest);
                assert(all.subrange(1, all.len() as int) =~= listener_fields(li).ser_bytes() + rest);
            },
            ConnectionInfo::StreamInfo(si) => {
                StreamFields::lemma_roundtrip(stream_fields(si), rest);
                assert(all.subrange(1, all.len() as int) =~= stream_fields(si).ser_bytes() + rest);
            },
        }
    }

    /// A tag byte of zero or one, then readable fields of that kind.
    open spec fn readable(before: Seq<u8>) -> bool {
        let rest = before.subrange(1, before.len() as int);
        &&& before.len() >= 1
        &&& (before[0] == 0 && ListenerFields::readable(rest)) || (before[0] == 1 && StreamFields::readable(rest))
    }

    proof fn lemma_reads_unique(
        before: Seq<u8>,
        after1: Seq<u8>,
        after2: Seq<u8>,
        v1: ConnectionInfo,
        v2: ConnectionInfo,
    ) {
        let rest = before.subrange(1, before.len() as int);
        match v1 {
            ConnectionInfo::ListenerInfo(l1) => match v2 {
                ConnectionInfo::ListenerInfo(l2) => ListenerFields::lemma_reads_unique(
                    rest,
                    after1,
                    after2,
                    listener_fields(l1),
                    listener_fields(l2),
                ),
                ConnectionInfo::StreamInfo(_) => {},
            },
            ConnectionInfo::StreamInfo(s1) => match v2 {
                ConnectionInfo::StreamInfo(s2) => StreamFields::lemma_reads_unique(
                    rest,
                    after1,
                    after2,
                    stream_fields(s1),
                    stream_fields(s2),
                ),
                ConnectionInfo::ListenerInfo(_) => {},
            },
        }
    }

    /// A tag byte other than zero or one is refused as corrupted data.
    fn read<R: Reader>(reader: &mut R) -> (r: Result<ConnectionInfo, Error>)
        ensures
            old(reader).remaining().len() >= 1 && old(reader).remaining()[0] >= 2 ==> r is Err,
            old(reader).fails_only_at_end() && old(reader).remaining().len() >= 1 && old(reader).remaining()[0] >= 2 ==> (r matches Err(e) && is_err_of(e, ErrKind::CorruptedData, "Unexpected type in ConnectionInfo"@)),
    {
        let t = reader.read_u8()?;
        if t == 0 {
            let f = ListenerFields::read(reader)?;
            let li = ListenerInfo { id: f.0, handle: f.1.0, is_reuse_port: f.1.1.0, tls_config: f.1.1.1 };
            assert(listener_fields(li) == f);
            Ok(ConnectionInfo::ListenerInfo(li))
        } else if t == 1 {
            let f = StreamFields::read(reader)?;
            let (head, (chain, tail)) = f;
            let si = StreamInfo {
                id: head.0.0,
                handle: head.0.1,
                accept_handle: head.1.0,
                accept_id: head.1.1,
                write_state: chain.0.0,
                first_slab: chain.0.1,
                last_slab: chain.1.0,
                slab_offset: chain.1.1,
                is_accepted: tail.0,
                tls_server: tail.1.0,
                tls_client: tail.1.1,
            };
            assert(stream_fields(si) == f);
            Ok(ConnectionInfo::StreamInfo(si))
        } else {
            Err(err(ErrKind::CorruptedData, "Unexpected type in ConnectionInfo"))
        }
    }

    fn write<W: Writer>(&self, writer: &mut W) -> (r: Result<(), Error>) {
        match self {
            ConnectionInfo::ListenerInfo(li) => {
                match writer.write_u8(0) {
                    Ok(()) => {},
                    Err(e) => {
                        proof {
                            assert(self.ser_bytes().subrange(0, 1) =~= seq![0u8]);
                            lemma_refused_prefix(*old(writer), seq![0u8], self.ser_bytes(), *writer, e);
                        }
                        return Err(e);
                    },
                }
                let ghost mid = *writer;
                let f: ListenerFields = (li.id, (li.handle, (li.is_reuse_port, li.tls_config)));
                match f.write(writer) {
                    Ok(()) => {},
                    Err(e) => {
                        proof {
                            lemma_refused_later(*old(writer), seq![0u8], mid, f.ser_bytes(), *writer, e);
                        }
                        return Err(e);
                    },
                }
            },
            ConnectionInfo::StreamInfo(si) => {
                match writer.write_u8(1) {
                    Ok(()) => {},
                    Err(e) => {
                        proof {
                            assert(self.ser_bytes().subrange(0, 1) =~= seq![1u8]);
                            lemma_refused_prefix(*old(writer), seq![1u8], self.ser_bytes(), *writer, e);
                        }
                        return Err(e);
                    },
                }
                let ghost mid = *writer;
                let head = ((si.id, si.handle), (si.accept_handle, si.accept_id));
                let chain = ((si.write_state, si.first_slab), (si.last_slab, si.slab_offset));
                let tail = (si.is_accepted, (si.tls_server, si.tls_client));
                let f: StreamFields = (head, (chain, tail));
                match f.write(writer) {
                    Ok(()) => {},
                    Err(e) => {
                        proof {
                            lemma_refused_later(*old(writer), seq![1u8], mid, f.ser_bytes(), *writer, e);
                        }
                        return Err(e);
                    },
                }
            },
        }
        assert(writer.written() =~= old(writer).written() + self.ser_bytes());
        Ok(())
    }
}

/// Every connection info, listener or stream, reads back as itself from the bytes it
/// writes, whatever follows them.
pub proof fn law_connection_info_reads_back(ci: ConnectionInfo, rest: Seq<u8>)
    ensures
        ConnectionInfo::reads(ci.ser_bytes() + rest, rest, ci),
{
    ConnectionInfo::lemma_roundtrip(ci, rest);
}

} // verus!
