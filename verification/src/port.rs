//! Ephemeral port allocation.

use vstd::prelude::*;

verus! {

/// First port of the ephemeral range.
pub const EPHEMERAL_PORT_MIN: u16 = 49152;

/// Last port of the ephemeral range.
pub const EPHEMERAL_PORT_MAX: u16 = 65535;

/// The port handed out after `last`: one higher, and back to the start of the
/// range after its end.
pub open spec fn next_ephemeral_port(last: u16) -> u16 {
    if last == EPHEMERAL_PORT_MAX {
        EPHEMERAL_PORT_MIN
    } else {
        (last + 1) as u16
    }
}

/// The port handed out by the `n`-th allocation after `last` (`n == 0` is
/// `last` itself).
pub open spec fn nth_ephemeral_port(last: u16, n: nat) -> u16
    decreases n,
{
    if n == 0 {
        last
    } else {
        next_ephemeral_port(nth_ephemeral_port(last, (n - 1) as nat))
    }
}

/// Advances the counter and returns the port it now holds.
///
/// No check is made against ports that are in use.
pub fn get_ephemeral_port(counter: &mut u16) -> (port: u16)
    ensures
        port == next_ephemeral_port(*old(counter)),
        *final(counter) == port,
        port != 0,
        *old(counter) >= EPHEMERAL_PORT_MIN ==> port >= EPHEMERAL_PORT_MIN,
{
    if *counter == 65535 {
        *counter = 49152;
    } else {
        *counter = *counter + 1;
    }
    *counter
}

/// Allocation is monotonic inside the range and wraps exactly at its end: from
/// a counter in the range every allocation stays in the range, the port after
/// `last < 65535` is `last + 1`, and the port after 65535 is 49152.
pub proof fn lemma_ephemeral_port_range(last: u16, n: nat)
    requires
        last >= EPHEMERAL_PORT_MIN,
    ensures
        nth_ephemeral_port(last, n) >= EPHEMERAL_PORT_MIN,
        nth_ephemeral_port(last, n) != 0,
        nth_ephemeral_port(last, n) < EPHEMERAL_PORT_MAX ==> nth_ephemeral_port(last, n + 1)
            == nth_ephemeral_port(last, n) + 1,
        nth_ephemeral_port(last, n) == EPHEMERAL_PORT_MAX ==> nth_ephemeral_port(last, n + 1)
            == EPHEMERAL_PORT_MIN,
    decreases n,
{
    if n > 0 {
        lemma_ephemeral_port_range(last, (n - 1) as nat);
    }
    assert(nth_ephemeral_port(last, n + 1) == next_ephemeral_port(
        nth_ephemeral_port(last, n),
    ));
}

} // verus!
