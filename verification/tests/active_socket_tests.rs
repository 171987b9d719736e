use demikernel_core::active_socket::{ActiveSocketData, POP_SIZE_MAX};
use demikernel_core::buffer::DemiBuffer;
use demikernel_core::fail::{EAGAIN, EIO};
use socket2::{Domain, Socket, Type};

fn new_data() -> ActiveSocketData<u32> {
    let socket = Socket::new(Domain::IPV4, Type::DGRAM, None).expect("udp socket");
    ActiveSocketData::new(socket)
}

fn buf(bytes: &[u8]) -> DemiBuffer {
    DemiBuffer::from_slice(bytes).unwrap()
}

#[test]
fn send_partial_then_rest_completes_the_push() {
    let mut data = new_data();
    let ticket = data.push(Some(7), buf(&[1, 2, 3, 4]));
    assert!(data.take_send_result(ticket).is_none());

    let out = data.poll_send().expect("message to send");
    assert_eq!(out.addr, Some(7));
    assert_eq!(out.buffer.as_slice(), &[1, 2, 3, 4]);
    data.poll_send_done(out, Ok(3));
    assert!(data.take_send_result(ticket).is_none());

    let out = data.poll_send().expect("rest of the message");
    assert_eq!(out.buffer.as_slice(), &[4]);
    assert_eq!(out.ticket, ticket);
    data.poll_send_done(out, Ok(1));
    assert!(data.poll_send().is_none());
    assert!(matches!(data.take_send_result(ticket), Some(Ok(()))));
    assert!(data.take_send_result(ticket).is_none());
}

#[test]
fn empty_push_completes_at_once() {
    let mut data = new_data();
    let ticket = data.push(None, buf(&[]));
    assert!(data.poll_send().is_none());
    assert!(matches!(data.take_send_result(ticket), Some(Ok(()))));
}

#[test]
fn send_errors_retry_or_fail() {
    let mut data = new_data();
    let t1 = data.push(None, buf(&[5, 6]));
    let t2 = data.push(None, buf(&[7]));
    assert_ne!(t1, t2);
    let out = data.poll_send().unwrap();
    data.poll_send_done(out, Err(EAGAIN));
    // Retried: the same message comes first again.
    let out = data.poll_send().unwrap();
    assert_eq!(out.ticket, t1);
    data.poll_send_done(out, Err(EIO));
    match data.take_send_result(t1) {
        Some(Err(e)) => assert_eq!(e.errno, EIO),
        _ => panic!("push should have failed"),
    }
    let out = data.poll_send().unwrap();
    assert_eq!(out.ticket, t2);
}

#[test]
fn receive_and_pop_in_parts() {
    let mut data = new_data();
    assert!(data.poll_recv_ready());
    let mut bytes = vec![0u8; POP_SIZE_MAX];
    bytes[..5].copy_from_slice(&[1, 2, 3, 4, 5]);
    data.poll_recv(buf(&bytes), Ok((5, Some(9))));
    assert!(data.poll_recv_ready());

    match data.pop(2) {
        Some(Ok((addr, b))) => {
            assert_eq!(addr, Some(9));
            assert_eq!(b.as_slice(), &[1, 2]);
        },
        _ => panic!("data expected"),
    }
    match data.pop(100) {
        Some(Ok((addr, b))) => {
            assert_eq!(addr, Some(9));
            assert_eq!(b.as_slice(), &[3, 4, 5]);
        },
        _ => panic!("data expected"),
    }
    assert!(data.pop(100).is_none());

    // A retryable error is dropped; another one is queued.
    data.poll_recv(buf(&bytes), Err(EAGAIN));
    assert!(data.pop(1).is_none());
    data.poll_recv(buf(&bytes), Err(EIO));
    match data.pop(1) {
        Some(Err(e)) => assert_eq!(e.errno, EIO),
        _ => panic!("error expected"),
    }

    // An empty read means the peer has closed.
    data.poll_recv(buf(&bytes), Ok((0, None)));
    assert!(!data.poll_recv_ready());
    match data.pop(10) {
        Some(Ok((None, b))) => assert!(b.is_empty()),
        _ => panic!("end of stream expected"),
    }
}

#[test]
fn push_front_goes_first() {
    let mut data = new_data();
    let bytes = vec![7u8; 4];
    data.poll_recv(buf(&bytes), Ok((4, Some(1))));
    data.push_front(buf(&[1]), Some(2));
    match data.pop(10) {
        Some(Ok((Some(2), b))) => assert_eq!(b.as_slice(), &[1]),
        _ => panic!("pushed-back data expected"),
    }
    let _ = data.socket();
    let _ = data.socket_mut();
}

#[test]
fn each_push_gets_a_fresh_ticket_and_its_own_outcome() {
    let mut data = new_data();
    assert_eq!(data.next_ticket(), 0);
    let t0 = data.push(None, buf(&[1]));
    let t1 = data.push(None, buf(&[2, 3]));
    assert_eq!((t0, t1), (0, 1));
    assert_eq!(data.next_ticket(), 2);
    let out = data.poll_send().unwrap();
    assert_eq!(out.ticket, t0);
    data.poll_send_done(out, Err(EIO));
    let out = data.poll_send().unwrap();
    assert_eq!(out.ticket, t1);
    data.poll_send_done(out, Ok(2));
    assert!(matches!(data.take_send_result(t1), Some(Ok(()))));
    match data.take_send_result(t0) {
        Some(Err(e)) => {
            assert_eq!(e.errno, EIO);
            assert!(e.cause.contains("failed to send on socket"));
        },
        _ => panic!("outcome of the first push expected"),
    }
    let t2 = data.push(None, buf(&[4]));
    assert_eq!(t2, 2);
    assert!(data.take_send_result(t2).is_none());
}
