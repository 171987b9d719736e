use demikernel_core::buffer::DemiBuffer;
use demikernel_core::fail::{should_retry, EAGAIN, EINVAL, EIO};

#[test]
fn buffer_adjust_trim_split() {
    let mut b = DemiBuffer::from_slice(&[1, 2, 3, 4, 5, 6]).unwrap();
    assert_eq!(b.len(), 6);
    b.adjust(2).unwrap();
    assert_eq!(b.as_slice(), &[3, 4, 5, 6]);
    b.trim(1).unwrap();
    assert_eq!(b.as_slice(), &[3, 4, 5]);
    let back = b.split_back(1).unwrap();
    assert_eq!(b.as_slice(), &[3]);
    assert_eq!(back.as_slice(), &[4, 5]);
    assert_eq!(b.adjust(2).unwrap_err().errno, EINVAL);
    assert_eq!(b.trim(2).unwrap_err().errno, EINVAL);
    assert_eq!(b.split_back(2).unwrap_err().errno, EINVAL);
    assert_eq!(b.as_slice(), &[3]);
    assert_eq!(b.get(0), 3);
    b.adjust(1).unwrap();
    assert!(b.is_empty());
}

#[test]
fn buffer_constructors() {
    let z = DemiBuffer::new(5);
    assert_eq!(z.as_slice(), &[0, 0, 0, 0, 0]);
    let h = DemiBuffer::new_with_headroom(3, 10);
    assert_eq!(h.as_slice(), &[0, 0, 0]);
    let big = vec![0u8; 65535];
    assert_eq!(DemiBuffer::from_slice(&big).unwrap_err().errno, EINVAL);
    assert_eq!(DemiBuffer::from_slice(&big[..65534]).unwrap().len(), 65534);
    let c = DemiBuffer::from_slice(&[9, 8]).unwrap();
    let d = c.clone();
    assert_eq!(d.as_slice(), c.as_slice());
}

#[test]
fn retry_errors() {
    assert!(should_retry(EAGAIN));
    assert!(should_retry(115));
    assert!(should_retry(114));
    assert!(!should_retry(EIO));
    assert!(!should_retry(EINVAL));
}
