# demikernel_core

Verified core of a kernel-bypass network stack, written in Verus.

`src/` is the verified library:

- `buffer` — packet buffers (`DemiBuffer`): a window of bytes with headroom,
  with `adjust`, `trim`, `prepend`, `split_back`.
- `ipv4` — the IPv4 header checksum, `Ipv4Header::parse_and_strip` with the
  exact conditions under which a datagram is refused, and `build_ipv4_header`;
  a header written with valid fields is proved to be accepted and read back.
- `ethernet`, `arp` — Ethernet II headers and ARP messages (writing, parsing,
  and the ARP query frame); written headers are proved to parse back.
- `page` — waker pages in a page table and the reference-counted
  `WakerPageRef`; raw waker references decode back to page and slot.
- `scheduler` — the registry of task groups, kept in a `slab::Slab`.
- `active_socket` — the send and receive queues of an active socket, as steps
  that take the outcome of each read and write.
- `rawsocket`, `linux` — link-layer socket addresses, the checks on raw-socket
  system call results, and the raw-socket runtime's logic.

`app/` holds what the library leaves to its caller: the system calls on raw
sockets, reading and writing `socket2` sockets, the asynchronous push and pop,
and the task scheduler around the group registry.
