use vstd::prelude::*;
use crate::conn_info::Handle;
use crate::error::{foreign_lead, foreign_name, from_foreign, Error, ForeignError};
use bitvec::vec::BitVec;

verus! {

/// What a thread asks of the poller for a socket.
#[derive(Debug, Clone, Copy, PartialEq, Eq, Structural)]
pub enum EventTypeIn {
    /// Watch for bytes to read.
    Read,
    /// Watch a listener for connections.
    Accept,
    /// Watch again a socket whose reading was suspended.
    Resume,
    /// Watch for room to write, and for bytes to read.
    Write,
    /// Stop watching the socket.
    Suspend,
}

/// A request to the poller.
#[derive(Debug, Clone, Copy, PartialEq, Eq, Structural)]
pub struct EventIn {
    /// The socket.
    pub handle: Handle,
    /// What is asked.
    pub etype: EventTypeIn,
}

/// How a socket's registration with the poller changes.
#[derive(Debug, Clone, Copy, PartialEq, Eq, Structural)]
pub enum CtlOp {
    /// The socket is registered.
    Add,
    /// The registration of the socket is changed.
    Mod,
    /// The socket is unregistered.
    Del,
}

/// What the poller reports for a socket, every report being edge-triggered.
#[derive(Debug, Clone, Copy, PartialEq, Eq, Structural)]
pub struct Interest {
    /// Bytes to read.
    pub read: bool,
    /// Room to write.
    pub write: bool,
    /// The peer closing its side.
    pub hangup: bool,
    /// Reports only on changes.
    pub edge: bool,
}

/// A change to make to the poller.
#[derive(Debug, Clone, Copy, PartialEq, Eq, Structural)]
pub struct Registration {
    /// The socket.
    pub handle: Handle,
    /// How its registration changes.
    pub op: CtlOp,
    /// What is to be reported for it.
    pub interest: Interest,
}

/// What the poller reported for a socket.
#[derive(Debug, Clone, Copy, PartialEq, Eq, Structural)]
pub enum EventType {
    /// Bytes can be read.
    Read,
    /// Bytes can be written.
    Write,
}

/// An event for a thread to process.
#[derive(Debug, Clone, Copy, PartialEq, Eq, Structural)]
pub struct Event {
    /// The socket.
    pub handle: Handle,
    /// What happened.
    pub etype: EventType,
}

/// The interest of a read, accept or resume request.
pub open spec fn read_interest() -> Interest {
    Interest { read: true, write: false, hangup: true, edge: true }
}

/// The interest of a write request.
pub open spec fn write_interest() -> Interest {
    Interest { read: true, write: true, hangup: true, edge: true }
}

/// The interest of a suspend request.
pub open spec fn no_interest() -> Interest {
    Interest { read: false, write: false, hangup: false, edge: false }
}

/// Whether a request watches for reading (a read, an accept or a resume).
pub open spec fn is_read_class(t: EventTypeIn) -> bool {
    t == EventTypeIn::Read || t == EventTypeIn::Accept || t == EventTypeIn::Resume
}

/// `bits` grown to `n` entries, the new ones set to `fill`.
pub open spec fn grown(bits: Seq<bool>, n: nat, fill: bool) -> Seq<bool> {
    bits + Seq::new((n - bits.len()) as nat, |i: int| fill)
}

/// The entries a request sees: grown to a hundred past the socket, with unregistered
/// entries, for a read-class request on a socket past the last entry; with registered
/// entries for a write or suspend request on a socket beyond the end.
pub open spec fn seen_bits(bits: Seq<bool>, evt: EventIn) -> Seq<bool> {
    let fd = evt.handle as int;
    if is_read_class(evt.etype) {
        if fd >= bits.len() {
            grown(bits, (fd + 100) as nat, false)
        } else {
            bits
        }
    } else if fd > bits.len() {
        grown(bits, (fd + 100) as nat, true)
    } else {
        bits
    }
}

/// The registered sockets after a request: the socket is registered, except after a
/// suspend request.
pub open spec fn bits_after(bits: Seq<bool>, evt: EventIn) -> Seq<bool> {
    seen_bits(bits, evt).update(evt.handle as int, evt.etype != EventTypeIn::Suspend)
}

/// The change a request makes to the poller: a suspend unregisters the socket; another
/// request changes the registration of a registered socket and registers another.
pub open spec fn op_for(bits: Seq<bool>, evt: EventIn) -> CtlOp {
    if evt.etype == EventTypeIn::Suspend {
        CtlOp::Del
    } else if seen_bits(bits, evt)[evt.handle as int] {
        CtlOp::Mod
    } else {
        CtlOp::Add
    }
}

/// What a request asks the poller to report.
pub open spec fn interest_for(t: EventTypeIn) -> Interest {
    if is_read_class(t) {
        read_interest()
    } else if t == EventTypeIn::Write {
        write_interest()
    } else {
        no_interest()
    }
}

/// The error of an integer that does not fit the type it is converted to.
pub open spec fn conversion_error(e: Error) -> bool {
    &&& e.spec_kind().name() == foreign_name(ForeignError::TryFromInt)
    &&& e.spec_kind().message() == foreign_lead(ForeignError::TryFromInt) + "out of range integral type conversion attempted"@
}

/// The error of an integer conversion that failed.
fn conversion_failed() -> (e: Error)
    ensures
        conversion_error(e),
{
    from_foreign(ForeignError::TryFromInt, "out of range integral type conversion attempted")
}

/// A bitvec bit-vector. Its contents are private: the functions below are the only ones
/// that touch it.
#[verifier::external_body]
pub struct Bits {
    v: BitVec,
}

/// The bits a bit-vector holds, in order.
pub uninterp spec fn bitvec_bits(v: Bits) -> Seq<bool>;

/// The most bits a bitvec bit-vector can hold: `usize::MAX >> 3`.
pub open spec fn bitvec_max_bits() -> nat {
    (usize::MAX / 8) as nat
}

/// `BitVec::with_capacity`: an empty bit-vector with room for `n` bits. bitvec's source
/// asserts that `n` is at most `usize::MAX >> 3`.
#[verifier::external_body]
fn bitvec_with_capacity(n: usize) -> (r: Bits)
    requires
        n <= bitvec_max_bits(),
    ensures
        bitvec_bits(r) == Seq::<bool>::empty(),
{
    Bits { v: BitVec::with_capacity(n) }
}

/// `BitVec::len`: the number of bits.
#[verifier::external_body]
fn bitvec_len(v: &Bits) -> (r: usize)
    ensures
        r == bitvec_bits(*v).len(),
{
    v.v.len()
}

/// `BitVec::resize`: grows the bit-vector to `n` bits with copies of `fill`, or cuts it to
/// its first `n` bits. bitvec's source asserts that `n` is at most `usize::MAX >> 3` when
/// the vector grows.
#[verifier::external_body]
fn bitvec_resize(v: &mut Bits, n: usize, fill: bool)
    requires
        n <= bitvec_max_bits(),
    ensures
        n >= bitvec_bits(*old(v)).len() ==> bitvec_bits(*final(v)) == grown(bitvec_bits(*old(v)), n as nat, fill),
        n < bitvec_bits(*old(v)).len() ==> bitvec_bits(*final(v)) == bitvec_bits(*old(v)).subrange(0, n as int),
{
    v.v.resize(n, fill)
}

/// `BitSlice::get` with an index: the bit at `i`, or `None` past the end.
#[verifier::external_body]
fn bitvec_get(v: &Bits, i: usize) -> (r: Option<bool>)
    ensures
        r == if i < bitvec_bits(*v).len() {
            Some(bitvec_bits(*v)[i as int])
        } else {
            None
        },
{
    match v.v.get(i) {
        Some(b) => Some(*b),
        None => None,
    }
}

/// `BitSlice::replace`: writes `value` at `i` and returns the bit that was there. bitvec
/// panics on an index past the end.
#[verifier::external_body]
fn bitvec_replace(v: &mut Bits, i: usize, value: bool) -> (r: bool)
    requires
        i < bitvec_bits(*old(v)).len(),
    ensures
        r == bitvec_bits(*old(v))[i as int],
        bitvec_bits(*final(v)) == bitvec_bits(*old(v)).update(i as int, value),
{
    v.v.replace(i, value)
}

/// `BitSlice::set`: writes `value` at `i`. bitvec panics on an index past the end.
#[verifier::external_body]
fn bitvec_set(v: &mut Bits, i: usize, value: bool)
    requires
        i < bitvec_bits(*old(v)).len(),
    ensures
        bitvec_bits(*final(v)) == bitvec_bits(*old(v)).update(i as int, value),
{
    v.v.set(i, value)
}

/// Which sockets are registered with the poller, by socket number.
pub struct FilterSet {
    bits: Bits,
}

impl FilterSet {
    /// Whether each socket is registered.
    pub closed spec fn view(&self) -> Seq<bool> {
        bitvec_bits(self.bits)
    }

    /// No socket registered, with room reserved for `n` sockets.
    pub fn new(n: usize) -> (r: FilterSet)
        requires
            n <= bitvec_max_bits(),
        ensures
            r.view() == Seq::<bool>::empty(),
    {
        FilterSet { bits: bitvec_with_capacity(n) }
    }

    /// The change to make to the poller for `evt`, recorded in the set. A read, accept or
    /// resume request registers the socket for reading (a change when it is registered
    /// already), growing the set to a hundred past the socket when it has no entry for it;
    /// a write request registers it for writing too, growing the set, with registered
    /// entries, only when the socket lies past its end; a suspend request unregisters it,
    /// growing the set the same way. A negative socket, or a set longer than a socket number
    /// can be, is refused as a failed integer conversion. (A write or suspend request on the
    /// socket just past the last entry is outside the contract: it finds no entry to set; so is
    /// a socket whose entries would pass the most bits a bit-vector holds.)
    pub fn register(&mut self, evt: &EventIn) -> (r: Result<Registration, Error>)
        requires
            evt.handle <= i32::MAX - 100,
            evt.handle + 100 <= bitvec_max_bits(),
            !is_read_class(evt.etype) ==> evt.handle != old(self).view().len(),
        ensures
            old(self).view().len() > i32::MAX || evt.handle < 0 <==> r is Err,
            r matches Err(e) ==> conversion_error(e) && final(self).view() == old(self).view(),
            r matches Ok(reg) ==> {
                &&& reg.handle == evt.handle
                &&& reg.op == op_for(old(self).view(), *evt)
                &&& reg.interest == interest_for(evt.etype)
                &&& final(self).view() == bits_after(old(self).view(), *evt)
            },
    {
        let len = bitvec_len(&self.bits);
        if len > 2147483647usize {
            return Err(conversion_failed());
        }
        let fd = evt.handle;
        let len32: i32 = len as i32;
        if evt.handle < 0 {
            return Err(conversion_failed());
        }
        let h: usize = fd as usize;
        match evt.etype {
            EventTypeIn::Read | EventTypeIn::Accept | EventTypeIn::Resume => {
                if fd >= len32 {
                    bitvec_resize(&mut self.bits, (fd + 100) as usize, false);
                }
                let op = match bitvec_get(&self.bits, h) {
                    Some(true) => CtlOp::Mod,
                    _ => CtlOp::Add,
                };
                bitvec_replace(&mut self.bits, h, true);
                Ok(Registration { handle: fd, op, interest: Interest { read: true, write: false, hangup: true, edge: true } })
            },
            EventTypeIn::Write => {
                if fd > len32 {
                    bitvec_resize(&mut self.bits, (fd + 100) as usize, true);
                }
                let op = match bitvec_get(&self.bits, h) {
                    Some(true) => CtlOp::Mod,
                    _ => CtlOp::Add,
                };
                bitvec_set(&mut self.bits, h, true);
                Ok(Registration { handle: fd, op, interest: Interest { read: true, write: true, hangup: true, edge: true } })
            },
            EventTypeIn::Suspend => {
                if fd > len32 {
                    bitvec_resize(&mut self.bits, (fd + 100) as usize, true);
                }
                bitvec_set(&mut self.bits, h, false);
                Ok(Registration { handle: fd, op: CtlOp::Del, interest: Interest { read: false, write: false, hangup: false, edge: false } })
            },
        }
    }
}

/// The events of the poller's reports, each a socket and whether it can be written and
/// read: for each report in turn, a write event when it can be written, then a read event
/// when it can be read.
pub open spec fn events_of(reports: Seq<(Handle, bool, bool)>) -> Seq<Event>
    decreases reports.len(),
{
    if reports.len() == 0 {
        Seq::empty()
    } else {
        let (h, w, r) = reports.last();
        let writes = if w {
            seq![Event { handle: h, etype: EventType::Write }]
        } else {
            Seq::empty()
        };
        let reads = if r {
            seq![Event { handle: h, etype: EventType::Read }]
        } else {
            Seq::empty()
        };
        events_of(reports.drop_last()) + writes + reads
    }
}

/// Turns the poller's reports into the events to process.
pub fn events_from(reports: &[(Handle, bool, bool)]) -> (r: Vec<Event>)
    ensures
        r@ == events_of(reports@),
{
    let mut r: Vec<Event> = Vec::new();
    let mut i: usize = 0;
    while i < reports.len()
        invariant
            i <= reports@.len(),
            r@ == events_of(reports@.subrange(0, i as int)),
        decreases reports@.len() - i,
    {
        let (h, w, rd) = reports[i];
        if w {
            r.push(Event { handle: h, etype: EventType::Write });
        }
        if rd {
            r.push(Event { handle: h, etype: EventType::Read });
        }
        proof {
            let s = reports@.subrange(0, i + 1);
            assert(s.drop_last() =~= reports@.subrange(0, i as int));
            assert(s.last() == reports@[i as int]);
        }
        i = i + 1;
    }
    assert(reports@.subrange(0, reports@.len() as int) =~= reports@);
    r
}

/// How long the poller may wait, in milliseconds: not at all when a wakeup is asked for,
/// else what is left of the housekeeping period since the last wait ended.
pub open spec fn wait_millis(wakeup_requested: bool, frequency: u128, now: u128, last: u128) -> int {
    if wakeup_requested {
        0
    } else if frequency >= now - last {
        frequency - (now - last)
    } else {
        0
    }
}

/// Returns how long the poller may wait; a wait too long for the poller's timeout is
/// refused as a failed integer conversion.
pub fn wait_time(wakeup_requested: bool, frequency: u128, now: u128, last: u128) -> (r: Result<isize, Error>)
    requires
        now >= last,
    ensures
        wait_millis(wakeup_requested, frequency, now, last) <= isize::MAX <==> r is Ok,
        r matches Ok(t) ==> t == wait_millis(wakeup_requested, frequency, now, last),
        r matches Err(e) ==> conversion_error(e),
{
    let diff = now - last;
    let sleep: u128 = if wakeup_requested {
        0
    } else {
        frequency.saturating_sub(diff)
    };
    if sleep > isize::MAX as u128 {
        return Err(conversion_failed());
    }
    Ok(sleep as isize)
}

/// A socket registered by a request is modified, not added, by the next request that
/// registers it; a suspended socket is added again by the next one.
pub proof fn law_register_twice_modifies(bits: Seq<bool>, first: EventIn, second: EventTypeIn)
    requires
        first.handle >= 0,
        !is_read_class(first.etype) ==> first.handle != bits.len(),
        second != EventTypeIn::Suspend,
    ensures
        ({
            let after = bits_after(bits, first);
            let next = EventIn { handle: first.handle, etype: second };
            &&& first.etype != EventTypeIn::Suspend ==> op_for(after, next) == CtlOp::Mod
            &&& first.etype == EventTypeIn::Suspend ==> op_for(after, next) == CtlOp::Add
        }),
{
    let after = bits_after(bits, first);
    let next = EventIn { handle: first.handle, etype: second };
    let fd = first.handle as int;
    assert(seen_bits(bits, first).len() > fd);
    assert(seen_bits(after, next) =~= after);
}

} // verus!
