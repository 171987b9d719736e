//! Core logic of a kernel-bypass network stack: packet buffers, Ethernet and
//! IPv4 header handling, raw-socket addressing, the bookkeeping of an active
//! socket's send and receive queues, reference-counted waker pages and the
//! scheduler's group registry.

pub mod fail;
pub mod buffer;
pub mod ipv4;
pub mod ethernet;
pub mod arp;
pub mod page;
pub mod scheduler;
pub mod active_socket;
pub mod rawsocket;
pub mod linux;
