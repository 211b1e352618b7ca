use rcore_socket::pipe::{Pipe, PipeData, PipeEnd};

#[test]
fn pair_is_read_then_write() {
    let (r, w) = Pipe::create_pair();
    assert_eq!(r.direction, PipeEnd::Read);
    assert_eq!(w.direction, PipeEnd::Write);
}

#[test]
fn empty_pipe_cannot_be_read() {
    let (r, w) = Pipe::create_pair();
    let mut data = PipeData::new();
    assert!(!r.can_read(&data));
    assert!(!w.can_read(&data));
    let mut buf = [0xaau8; 4];
    assert_eq!(r.read_at(&mut data, 0, &mut buf), 0);
    assert_eq!(buf, [0xaa; 4]);
}

#[test]
fn octets_come_out_one_by_one_in_order() {
    let (r, w) = Pipe::create_pair();
    let mut data = PipeData::new();
    assert_eq!(w.write_at(&mut data, 0, b"xyz"), 1);
    assert_eq!(w.write_at(&mut data, 7, b"b"), 1);
    assert!(r.can_read(&data));
    assert!(!w.can_read(&data));
    let mut buf = [0u8; 3];
    assert_eq!(r.read_at(&mut data, 0, &mut buf), 1);
    assert_eq!(buf, [b'x', 0, 0]);
    assert_eq!(r.read_at(&mut data, 5, &mut buf), 1);
    assert_eq!(buf, [b'b', 0, 0]);
    assert!(!r.can_read(&data));
    assert_eq!(r.read_at(&mut data, 0, &mut buf), 0);
}

#[test]
fn wrong_end_does_nothing() {
    let (r, w) = Pipe::create_pair();
    let mut data = PipeData::new();
    assert_eq!(r.write_at(&mut data, 0, b"a"), 0);
    assert_eq!(data.buf.len(), 0);
    assert_eq!(w.write_at(&mut data, 0, b"a"), 1);
    let mut buf = [9u8; 1];
    assert_eq!(w.read_at(&mut data, 0, &mut buf), 0);
    assert_eq!(buf, [9]);
    assert_eq!(data.buf.len(), 1);
}

#[test]
fn empty_write_takes_nothing() {
    let (_r, w) = Pipe::create_pair();
    let mut data = PipeData::new();
    assert_eq!(w.write_at(&mut data, 0, b""), 0);
    assert_eq!(data.buf.len(), 0);
}
