use vstd::prelude::*;
use crate::error::{err, is_err_of, map_err, ErrKind, Error};

verus! {

/// Data waits in the write buffer.
pub const WRITE_STATE_FLAG_PENDING: u8 = 1;

/// The connection is to be closed.
pub const WRITE_STATE_FLAG_CLOSE: u8 = 2;

/// The read callback is to be run once the buffer is written.
pub const WRITE_STATE_FLAG_TRIGGER_ON_READ: u8 = 4;

/// Reads and writes are to be suspended.
pub const WRITE_STATE_FLAG_SUSPEND: u8 = 8;

/// Reads and writes are to be resumed.
pub const WRITE_STATE_FLAG_RESUME: u8 = 16;

/// The largest piece of plaintext handed to TLS at once.
pub const TLS_CHUNKS: usize = 5_120;

/// The error number of a write or read that would block.
pub const EAGAIN: i32 = 11;

/// The error number of a write or read that would block, on some systems.
pub const ETEMPUNAVAILABLE: i32 = 35;

/// The error number of a write or read that would block, on windows.
pub const WINNONBLOCKING: i32 = 10035;

/// Whether an error number only says that the call would block.
pub open spec fn would_block(errno: i32) -> bool {
    errno == EAGAIN || errno == ETEMPUNAVAILABLE || errno == WINNONBLOCKING
}

/// Whether bit `flag` is set in `flags`.
pub open spec fn has_flag(flags: u8, flag: u8) -> bool {
    flags & flag != 0
}

/// The state shared by a connection's write handles and its event loop: the bytes waiting
/// to be written and the flags.
#[derive(Debug)]
pub struct WriteState {
    /// The bytes waiting to be written.
    pub write_buffer: Vec<u8>,
    /// The flags.
    pub flags: u8,
}

/// What a request on a write handle asks of the caller afterwards.
#[derive(Debug, Clone, Copy, PartialEq, Eq, Structural)]
pub enum Notify {
    /// Nothing more.
    Nothing,
    /// Put the connection id on the write queue and wake the event loop.
    Enqueue,
}

/// What a write of some bytes leads to.
#[derive(Debug, PartialEq, Eq)]
pub enum WritePlan {
    /// Write the bytes to the socket now.
    WriteNow,
    /// Add the bytes to the write buffer.
    Queue,
}

/// How a flush of the write buffer ended.
#[derive(Debug, Clone, Copy, PartialEq, Eq, Structural)]
pub struct FlushEnd {
    /// Whether the connection is to be closed.
    pub close: bool,
    /// Whether the read callback is to be run.
    pub trigger_on_read: bool,
}

/// The event a connection taken from the write queue asks the event loop for.
#[derive(Debug, Clone, Copy, PartialEq, Eq, Structural)]
pub enum QueuedEvent {
    /// Stop watching it: its owner suspended it.
    Suspend,
    /// Watch it again: its owner resumed it.
    Resume,
    /// Watch it for writing.
    Write,
}

impl WriteState {
    /// An empty buffer and no flag.
    pub fn new() -> (r: WriteState)
        ensures
            r.write_buffer@ == Seq::<u8>::empty(),
            r.flags == 0,
    {
        WriteState { write_buffer: Vec::new(), flags: 0 }
    }

    /// Sets `flag`.
    pub fn set_flag(&mut self, flag: u8)
        ensures
            final(self).flags == old(self).flags | flag,
            final(self).write_buffer == old(self).write_buffer,
    {
        self.flags = self.flags | flag;
    }

    /// Clears `flag`.
    pub fn unset_flag(&mut self, flag: u8)
        ensures
            final(self).flags == old(self).flags & !flag,
            final(self).write_buffer == old(self).write_buffer,
    {
        self.flags = self.flags & !flag;
    }

    /// Whether any bit of `flag` is set.
    pub fn is_set(&self, flag: u8) -> (r: bool)
        ensures
            r == has_flag(self.flags, flag),
    {
        self.flags & flag != 0
    }

    /// Suspends reads and writes, unless the connection is closing: clears the resume flag
    /// and sets the suspend flag.
    pub fn suspend(&mut self) -> (r: Notify)
        ensures
            has_flag(old(self).flags, WRITE_STATE_FLAG_CLOSE) ==> r == Notify::Nothing && *final(self) == *old(self),
            !has_flag(old(self).flags, WRITE_STATE_FLAG_CLOSE) ==> r == Notify::Enqueue && final(self).flags == (
            old(self).flags & !WRITE_STATE_FLAG_RESUME) | WRITE_STATE_FLAG_SUSPEND && final(self).write_buffer
                == old(self).write_buffer,
    {
        if self.is_set(WRITE_STATE_FLAG_CLOSE) {
            return Notify::Nothing;
        }
        self.unset_flag(WRITE_STATE_FLAG_RESUME);
        self.set_flag(WRITE_STATE_FLAG_SUSPEND);
        Notify::Enqueue
    }

    /// Resumes reads and writes, unless the connection is closing: sets the resume flag
    /// and clears the suspend flag.
    pub fn resume(&mut self) -> (r: Notify)
        ensures
            has_flag(old(self).flags, WRITE_STATE_FLAG_CLOSE) ==> r == Notify::Nothing && *final(self) == *old(self),
            !has_flag(old(self).flags, WRITE_STATE_FLAG_CLOSE) ==> r == Notify::Enqueue && final(self).flags == (
            old(self).flags | WRITE_STATE_FLAG_RESUME) & !WRITE_STATE_FLAG_SUSPEND && final(self).write_buffer
                == old(self).write_buffer,
    {
        if self.is_set(WRITE_STATE_FLAG_CLOSE) {
            return Notify::Nothing;
        }
        self.set_flag(WRITE_STATE_FLAG_RESUME);
        self.unset_flag(WRITE_STATE_FLAG_SUSPEND);
        Notify::Enqueue
    }

    /// Asks for the connection to be closed; a second request does nothing.
    pub fn close(&mut self) -> (r: Notify)
        ensures
            has_flag(old(self).flags, WRITE_STATE_FLAG_CLOSE) ==> r == Notify::Nothing && *final(self) == *old(self),
            !has_flag(old(self).flags, WRITE_STATE_FLAG_CLOSE) ==> r == Notify::Enqueue && final(self).flags
                == old(self).flags | WRITE_STATE_FLAG_CLOSE && final(self).write_buffer == old(self).write_buffer,
    {
        if self.is_set(WRITE_STATE_FLAG_CLOSE) {
            return Notify::Nothing;
        }
        self.set_flag(WRITE_STATE_FLAG_CLOSE);
        Notify::Enqueue
    }

    /// Asks for the read callback to be run once the buffer is written.
    pub fn trigger_on_read(&mut self) -> (r: Notify)
        ensures
            r == Notify::Enqueue,
            final(self).flags == old(self).flags | WRITE_STATE_FLAG_TRIGGER_ON_READ,
            final(self).write_buffer == old(self).write_buffer,
    {
        self.set_flag(WRITE_STATE_FLAG_TRIGGER_ON_READ);
        Notify::Enqueue
    }

    /// Decides what a write of some bytes does: a closed or suspended handle refuses it
    /// with an IO error; with bytes already pending they join the buffer; otherwise they go
    /// to the socket now.
    pub fn write_plan(&self) -> (r: Result<WritePlan, Error>)
        ensures
            has_flag(self.flags, WRITE_STATE_FLAG_CLOSE) ==> (r matches Err(e) && is_err_of(
                e,
                ErrKind::IO,
                "write handle closed"@,
            )),
            !has_flag(self.flags, WRITE_STATE_FLAG_CLOSE) && has_flag(self.flags, WRITE_STATE_FLAG_SUSPEND) ==> (r matches Err(
                e,
            ) && is_err_of(e, ErrKind::IO, "write handle suspended"@)),
            !has_flag(self.flags, WRITE_STATE_FLAG_CLOSE) && !has_flag(self.flags, WRITE_STATE_FLAG_SUSPEND) ==> r
                == Ok::<WritePlan, Error>(
                if has_flag(self.flags, WRITE_STATE_FLAG_PENDING) {
                    WritePlan::Queue
                } else {
                    WritePlan::WriteNow
                },
            ),
    {
        if self.is_set(WRITE_STATE_FLAG_CLOSE) {
            return Err(err(ErrKind::IO, "write handle closed"));
        }
        if self.is_set(WRITE_STATE_FLAG_SUSPEND) {
            return Err(err(ErrKind::IO, "write handle suspended"));
        }
        if self.is_set(WRITE_STATE_FLAG_PENDING) {
            Ok(WritePlan::Queue)
        } else {
            Ok(WritePlan::WriteNow)
        }
    }

    /// Adds `data` to the buffer and marks it pending. The connection goes on the write
    /// queue only when nothing was pending before.
    pub fn queue_data(&mut self, data: &[u8]) -> (r: Notify)
        ensures
            final(self).write_buffer@ == old(self).write_buffer@ + data@,
            final(self).flags == old(self).flags | WRITE_STATE_FLAG_PENDING,
            r == if has_flag(old(self).flags, WRITE_STATE_FLAG_PENDING) {
                Notify::Nothing
            } else {
                Notify::Enqueue
            },
    {
        let was_pending = self.is_set(WRITE_STATE_FLAG_PENDING);
        self.set_flag(WRITE_STATE_FLAG_PENDING);
        self.write_buffer.extend_from_slice(data);
        if was_pending {
            Notify::Nothing
        } else {
            Notify::Enqueue
        }
    }

    /// Drops the first `n` bytes of the buffer, which the socket took.
    pub fn consume(&mut self, n: usize)
        requires
            n <= old(self).write_buffer@.len(),
        ensures
            final(self).write_buffer@ == old(self).write_buffer@.subrange(n as int, old(self).write_buffer@.len() as int),
            final(self).flags == old(self).flags,
    {
        let rest = self.write_buffer.split_off(n);
        self.write_buffer = rest;
    }

    /// Ends a flush once the buffer is empty: clears the pending flag; a requested close
    /// wins over a requested read callback, which is cleared when taken.
    pub fn flush_done(&mut self) -> (r: FlushEnd)
        ensures
            final(self).write_buffer == old(self).write_buffer,
            r.close == has_flag(old(self).flags, WRITE_STATE_FLAG_CLOSE),
            r.trigger_on_read == (!has_flag(old(self).flags, WRITE_STATE_FLAG_CLOSE) && has_flag(
                old(self).flags,
                WRITE_STATE_FLAG_TRIGGER_ON_READ,
            )),
            final(self).flags == if r.trigger_on_read {
                old(self).flags & !WRITE_STATE_FLAG_PENDING & !WRITE_STATE_FLAG_TRIGGER_ON_READ
            } else {
                old(self).flags & !WRITE_STATE_FLAG_PENDING
            },
    {
        let ghost f0 = self.flags;
        self.unset_flag(WRITE_STATE_FLAG_PENDING);
        let ghost f1 = self.flags;
        assert(has_flag(f1, WRITE_STATE_FLAG_CLOSE) == has_flag(f0, WRITE_STATE_FLAG_CLOSE)) by (bit_vector)
            requires
                f1 == f0 & !1u8,
        ;
        assert(has_flag(f1, WRITE_STATE_FLAG_TRIGGER_ON_READ) == has_flag(f0, WRITE_STATE_FLAG_TRIGGER_ON_READ)) by (bit_vector)
            requires
                f1 == f0 & !1u8,
        ;
        if self.is_set(WRITE_STATE_FLAG_CLOSE) {
            FlushEnd { close: true, trigger_on_read: false }
        } else if self.is_set(WRITE_STATE_FLAG_TRIGGER_ON_READ) {
            self.unset_flag(WRITE_STATE_FLAG_TRIGGER_ON_READ);
            FlushEnd { close: false, trigger_on_read: true }
        } else {
            FlushEnd { close: false, trigger_on_read: false }
        }
    }

    /// Takes the request that put the connection on the write queue: a suspension or a
    /// resumption, which clears both flags, or else a write.
    pub fn take_queued_event(&mut self) -> (r: QueuedEvent)
        ensures
            final(self).write_buffer == old(self).write_buffer,
            has_flag(old(self).flags, WRITE_STATE_FLAG_SUSPEND) ==> r == QueuedEvent::Suspend,
            !has_flag(old(self).flags, WRITE_STATE_FLAG_SUSPEND) && has_flag(old(self).flags, WRITE_STATE_FLAG_RESUME)
                ==> r == QueuedEvent::Resume,
            !has_flag(old(self).flags, WRITE_STATE_FLAG_SUSPEND) && !has_flag(old(self).flags, WRITE_STATE_FLAG_RESUME)
                ==> r == QueuedEvent::Write && final(self).flags == old(self).flags,
            r != QueuedEvent::Write ==> final(self).flags == old(self).flags & !WRITE_STATE_FLAG_SUSPEND
                & !WRITE_STATE_FLAG_RESUME,
    {
        if self.is_set(WRITE_STATE_FLAG_SUSPEND) {
            self.unset_flag(WRITE_STATE_FLAG_SUSPEND);
            self.unset_flag(WRITE_STATE_FLAG_RESUME);
            QueuedEvent::Suspend
        } else if self.is_set(WRITE_STATE_FLAG_RESUME) {
            self.unset_flag(WRITE_STATE_FLAG_SUSPEND);
            self.unset_flag(WRITE_STATE_FLAG_RESUME);
            QueuedEvent::Resume
        } else {
            QueuedEvent::Write
        }
    }
}

/// What follows a write to the socket that returned `written` for `data_len` bytes, with
/// `errno` the error number and `errno_text` its description: an IO error when the write
/// failed for another reason than blocking; else the offset from which the bytes must
/// wait in the buffer (all of them when the write failed; none when it took all).
pub fn after_write(written: isize, errno: i32, errno_text: &str, data_len: usize) -> (r: Result<usize, Error>)
    requires
        written <= data_len,
    ensures
        (errno != 0 || written < 0) && !would_block(errno) ==> (r matches Err(e) && is_err_of(
            e,
            ErrKind::IO,
            "writing generated error"@ + ": "@ + errno_text@,
        )),
        (errno != 0 || written < 0) && would_block(errno) ==> r == Ok::<usize, Error>(0),
        !(errno != 0 || written < 0) ==> r == Ok::<usize, Error>(written as usize),
{
    if errno != 0 || written < 0 {
        if errno != EAGAIN && errno != ETEMPUNAVAILABLE && errno != WINNONBLOCKING {
            return Err(map_err(ErrKind::IO, "writing generated error", errno_text));
        }
        return Ok(0);
    }
    Ok(written as usize)
}

/// The `i`-th piece of `len` bytes cut in pieces of `TLS_CHUNKS` bytes: its start and end.
pub open spec fn tls_chunk(len: nat, i: nat) -> (nat, nat) {
    (i * 5120, if (i + 1) * 5120 < len { (i + 1) * 5120 } else { len })
}

/// The number of pieces: one at least, even for no bytes.
pub open spec fn tls_chunk_count(len: nat) -> nat {
    if len == 0 {
        1
    } else {
        ((len + 5119) / 5120) as nat
    }
}

/// Returns the pieces in which `len` bytes of plaintext are handed to TLS: from the start,
/// `TLS_CHUNKS` bytes at a time, the last piece taking what is left (a single empty piece
/// for no bytes).
pub fn tls_chunks(len: usize) -> (r: Vec<(usize, usize)>)
    ensures
        r@.len() == tls_chunk_count(len as nat),
        forall|i: int|
            0 <= i < r@.len() ==> (#[trigger] r@[i]).0 as nat == tls_chunk(len as nat, i as nat).0 && r@[i].1 as nat
                == tls_chunk(len as nat, i as nat).1,
{
    let mut r: Vec<(usize, usize)> = Vec::new();
    let mut start: usize = 0;
    loop
        invariant
            start as nat == r@.len() * 5120,
            start <= len,
            start < len || r@.len() == 0,
            forall|i: int|
                0 <= i < r@.len() ==> (#[trigger] r@[i]).0 as nat == tls_chunk(len as nat, i as nat).0 && r@[i].1 as nat
                    == tls_chunk(len as nat, i as nat).1,
        decreases len - start + 1,
    {
        let mut end = len;
        if len - start > TLS_CHUNKS {
            end = start + TLS_CHUNKS;
        }
        let ghost i = r@.len();
        assert(start as nat == i * 5120);
        assert((i + 1) * 5120 == start + 5120) by (nonlinear_arith)
            requires
                start as nat == i * 5120,
        ;
        r.push((start, end));
        if end == len {
            proof {
                if len == 0 {
                    assert(r@.len() == 1);
                } else {
                    assert(i * 5120 < len);
                    assert(len <= (i + 1) * 5120);
                    assert((len + 5119) / 5120 == i + 1) by (nonlinear_arith)
                        requires
                            i * 5120 < len,
                            len <= (i + 1) * 5120,
                    ;
                }
            }
            return r;
        }
        start = start + TLS_CHUNKS;
    }
}

} // verus!
