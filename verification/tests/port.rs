use rcore_socket::iface::NetStack;
use rcore_socket::port::get_ephemeral_port;

#[test]
fn first_port_follows_the_seed() {
    let mut counter: u16 = 49152;
    assert_eq!(get_ephemeral_port(&mut counter), 49153);
    assert_eq!(counter, 49153);
    assert_eq!(get_ephemeral_port(&mut counter), 49154);
}

#[test]
fn wraps_to_start_of_range_after_last_port() {
    let mut counter: u16 = 65534;
    assert_eq!(get_ephemeral_port(&mut counter), 65535);
    assert_eq!(get_ephemeral_port(&mut counter), 49152);
    assert_eq!(get_ephemeral_port(&mut counter), 49153);
}

#[test]
fn a_full_cycle_is_monotonic_and_never_zero() {
    let mut counter: u16 = 49152;
    let mut last: u16 = 49152;
    let mut n: u32 = 0;
    while n < 16383 {
        let port = get_ephemeral_port(&mut counter);
        assert_eq!(port, last + 1);
        assert_ne!(port, 0);
        last = port;
        n += 1;
    }
    assert_eq!(last, 65535);
    assert_eq!(get_ephemeral_port(&mut counter), 49152);
}

#[test]
fn a_counter_below_the_range_still_never_yields_zero() {
    let mut counter: u16 = 0;
    assert_eq!(get_ephemeral_port(&mut counter), 1);
    let mut counter: u16 = 65535;
    assert_eq!(get_ephemeral_port(&mut counter), 49152);
}

#[test]
fn the_stack_starts_at_the_seed() {
    let mut net = NetStack::new(None);
    assert_eq!(net.ephemeral_port, 49152);
    assert_eq!(net.next_port(), 49153);
    assert_eq!(net.next_port(), 49154);
    assert_eq!(net.ephemeral_port, 49154);
}

#[test]
fn poll_request_is_taken_once() {
    let mut net = NetStack::new(None);
    assert!(!net.take_poll_request());
    net.poll_pending = true;
    assert!(net.take_poll_request());
    assert!(!net.take_poll_request());
}
