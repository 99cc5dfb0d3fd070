use vstd::prelude::*;
use crate::error::{err, is_err_of, ErrKind, Error};

verus! {

/// The size of a reference on this machine, as `std::mem::size_of::<&char>()` gives it.
/// It depends on the machine: nothing is stated of it.
#[verifier::external_body]
fn reference_size() -> usize {
    std::mem::size_of::<&char>()
}

/// Whether a machine whose references take `ref_size` bytes may run the program: only
/// 64-bit machines may, and `debug_startup_32` makes any machine count as 32-bit.
pub open spec fn arch_supported(ref_size: usize, debug_startup_32: bool) -> bool {
    ref_size == 8 && !debug_startup_32
}

/// Refuses to start on anything but a 64-bit machine, with an illegal-state error.
pub fn check_arch(ref_size: usize, debug_startup_32: bool) -> (r: Result<(), Error>)
    ensures
        r is Ok <==> arch_supported(ref_size, debug_startup_32),
        r matches Err(e) ==> is_err_of(e, ErrKind::IllegalState, "Only 64 bit arch supported"@),
{
    if ref_size == 8 && !debug_startup_32 {
        Ok(())
    } else {
        Err(err(ErrKind::IllegalState, "Only 64 bit arch supported"))
    }
}

/// Starts the program: checks that the machine is a 64-bit one.
pub fn real_main(debug_startup_32: bool) -> (r: Result<(), Error>)
    ensures
        debug_startup_32 ==> (r matches Err(e) && is_err_of(e, ErrKind::IllegalState, "Only 64 bit arch supported"@)),
        r is Ok ==> !debug_startup_32,
{
    let size = reference_size();
    check_arch(size, debug_startup_32)
}

/// The first port that tests try, and the base of the random start.
pub const FIRST_PORT: u16 = 9000;

/// The next port to try and the next value of the counter: the counter's value, and the
/// counter plus one; except that the first time, when the counter is 9000, a random offset
/// below 10 000 picks the port, 9000 plus the offset, and is added to the counter too.
/// The counter wraps around as an atomic `u16` does.
pub open spec fn port_step(next: u16, rand: u16) -> (u16, u16) {
    let bumped = ((next + 1) % 65536) as u16;
    if next == FIRST_PORT {
        let offset = rand % 10_000;
        ((offset + 9000) as u16, ((bumped + offset) % 65536) as u16)
    } else {
        (next, bumped)
    }
}

/// Returns the next port to try for a free port, and the new value of the counter.
pub fn next_port_candidate(next: u16, rand: u16) -> (r: (u16, u16))
    ensures
        r == port_step(next, rand),
{
    let bumped = next.wrapping_add(1);
    if next == FIRST_PORT {
        let offset = rand % 10_000;
        (offset + 9000, bumped.wrapping_add(offset))
    } else {
        (next, bumped)
    }
}

/// Calls `portpicker::is_free`: whether the port can be bound now. That depends on the
/// machine: nothing is stated of it.
#[verifier::external_body]
fn port_is_free(port: u16) -> bool {
    portpicker::is_free(port)
}

/// Tries one port: takes the next candidate from the counter (drawing the random offset
/// with `rand::random` the first time) and returns it when it is free.
pub fn try_next_port(counter: &mut u16) -> (r: Option<u16>)
    ensures
        exists|rand: u16| {
            let (port, next) = #[trigger] port_step(*old(counter), rand);
            &&& *final(counter) == next
            &&& r matches Some(p) ==> p == port
        },
{
    let rand = if *counter == FIRST_PORT { crate::rng::random_u16() } else { 0 };
    let (port, next) = next_port_candidate(*counter, rand);
    *counter = next;
    assert(port_step(*old(counter), rand) == (port, next));
    if port_is_free(port) {
        Some(port)
    } else {
        None
    }
}

} // verus!
