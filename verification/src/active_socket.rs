//! The bookkeeping of an active (connected or bound) socket: the queue of
//! outgoing messages, the queue of incoming ones, and the outcome of each push.
//!
//! Reading from and writing to the operating system's socket is the caller's
//! work: `poll_send` hands out the message to write and
//! `poll_send_done` takes what the write gave; `poll_recv_ready` tells whether
//! to read and `poll_recv` takes what the read gave. Socket addresses are
//! carried through unread, as values of the parameter type `A`.

use vstd::prelude::*;
use std::collections::VecDeque;
use socket2::Socket;
use crate::buffer::DemiBuffer;
use crate::fail::{Fail, cause_with_errno, should_retry, spec_should_retry};

verus! {

#[verifier::external_type_specification]
#[verifier::external_body]
pub struct ExSocket(Socket);

/// Size of the buffer that one receive fills at most.
pub const POP_SIZE_MAX: usize = 9216;

/// An outgoing message: where it goes (for an unconnected socket), the bytes
/// still to send, and the ticket of the push that waits for its outcome.
#[derive(Debug)]
pub struct Outgoing<A> {
    pub addr: Option<A>,
    pub buffer: DemiBuffer,
    pub ticket: u64,
}

/// What the receive queue holds: received data with its sender, or an error.
pub type Received<A> = Result<(Option<A>, DemiBuffer), Fail>;

/// An active socket and its queues.
pub struct ActiveSocketData<A> {
    socket: Socket,
    send_queue: VecDeque<Outgoing<A>>,
    recv_queue: VecDeque<Received<A>>,
    closed: bool,
    send_results: Vec<(u64, Result<(), Fail>)>,
    next_ticket: u64,
}

/// The outcome recorded for the push with ticket `t`: the first entry of
/// `results` with that ticket, and its position.
pub open spec fn first_result_index(results: Seq<(u64, Result<(), Fail>)>, t: u64) -> int {
    choose|i: int|
        0 <= i < results.len() && results[i].0 == t && forall|j: int|
            0 <= j < i ==> #[trigger] results[j].0 != t
}

/// Whether a message with ticket `t` waits in the send queue `q`.
pub open spec fn ticket_queued<A>(q: Seq<Outgoing<A>>, t: u64) -> bool {
    exists|i: int| 0 <= i < q.len() && #[trigger] q[i].ticket == t
}

/// Whether an outcome is recorded under ticket `t` in `results`.
pub open spec fn ticket_recorded(results: Seq<(u64, Result<(), Fail>)>, t: u64) -> bool {
    exists|i: int| 0 <= i < results.len() && #[trigger] results[i].0 == t
}

/// The tickets of the send queue `q` and of the outcomes `r` are all below
/// `next`, and each is in one place at most.
pub open spec fn tickets_wf<A>(q: Seq<Outgoing<A>>, r: Seq<(u64, Result<(), Fail>)>, next: u64) -> bool {
    &&& forall|i: int| 0 <= i < q.len() ==> #[trigger] q[i].ticket < next
    &&& forall|i: int| 0 <= i < r.len() ==> #[trigger] r[i].0 < next
    &&& forall|i: int, j: int|
        #![trigger q[i], q[j]]
        0 <= i < q.len() && 0 <= j < q.len() && i != j ==> q[i].ticket != q[j].ticket
    &&& forall|i: int, j: int|
        #![trigger r[i], r[j]]
        0 <= i < r.len() && 0 <= j < r.len() && i != j ==> r[i].0 != r[j].0
    &&& forall|i: int, j: int|
        #![trigger q[i], r[j]]
        0 <= i < q.len() && 0 <= j < r.len() ==> q[i].ticket != r[j].0
}

impl<A: Copy> ActiveSocketData<A> {
    /// The tickets in use are all below the next ticket, and each is in one
    /// place at most: once in the send queue, or once among the outcomes.
    pub closed spec fn wf(&self) -> bool {
        tickets_wf(self.send_queue@, self.send_results@, self.next_ticket)
    }

    /// Messages waiting to be sent, first to go first.
    pub closed spec fn spec_send_queue(&self) -> Seq<Outgoing<A>> {
        self.send_queue@
    }

    /// Received data and errors waiting to be popped, oldest first.
    pub closed spec fn spec_recv_queue(&self) -> Seq<Received<A>> {
        self.recv_queue@
    }

    /// Whether the peer has closed the connection (an empty read was seen).
    pub closed spec fn spec_closed(&self) -> bool {
        self.closed
    }

    /// Outcomes of pushes that are done and not yet collected, oldest first.
    pub closed spec fn spec_send_results(&self) -> Seq<(u64, Result<(), Fail>)> {
        self.send_results@
    }

    /// The ticket the next push gets.
    pub fn next_ticket(&self) -> (t: u64)
        ensures
            t == self.spec_next_ticket(),
    {
        self.next_ticket
    }

    /// The ticket the next push gets.
    pub closed spec fn spec_next_ticket(&self) -> u64 {
        self.next_ticket
    }

    /// The operating system's socket.
    pub closed spec fn spec_socket(&self) -> Socket {
        self.socket
    }

    /// Bookkeeping for `socket`: both queues empty, no outcome pending, not
    /// closed.
    pub fn new(socket: Socket) -> (r: ActiveSocketData<A>)
        ensures
            r.spec_socket() == socket,
            r.spec_send_queue() == Seq::<Outgoing<A>>::empty(),
            r.spec_recv_queue() == Seq::<Received<A>>::empty(),
            !r.spec_closed(),
            r.spec_send_results() == Seq::<(u64, Result<(), Fail>)>::empty(),
            r.spec_next_ticket() == 0,
            r.wf(),
    {
        ActiveSocketData {
            socket,
            send_queue: VecDeque::new(),
            recv_queue: VecDeque::new(),
            closed: false,
            send_results: Vec::new(),
            next_ticket: 0,
        }
    }

    /// Queues `buffer` for sending (to `addr`, when given) and returns the
    /// ticket under which the outcome will be recorded: a ticket that no
    /// message and no outcome holds yet. An empty buffer asks only to learn
    /// when the socket is ready for writing. Tickets are not reused, so fewer
    /// than `u64::MAX` pushes can be made.
    pub fn push(&mut self, addr: Option<A>, buffer: DemiBuffer) -> (ticket: u64)
        requires
            old(self).wf(),
            old(self).spec_next_ticket() < u64::MAX,
        ensures
            final(self).wf(),
            ticket == old(self).spec_next_ticket(),
            !ticket_queued(old(self).spec_send_queue(), ticket),
            !ticket_recorded(final(self).spec_send_results(), ticket),
            final(self).spec_next_ticket() == ticket + 1,
            final(self).spec_send_queue() == old(self).spec_send_queue().push(
                Outgoing { addr, buffer, ticket },
            ),
            final(self).spec_recv_queue() == old(self).spec_recv_queue(),
            final(self).spec_send_results() == old(self).spec_send_results(),
            final(self).spec_closed() == old(self).spec_closed(),
            final(self).spec_socket() == old(self).spec_socket(),
    {
        let ticket = self.next_ticket;
        self.next_ticket = self.next_ticket + 1;
        self.send_queue.push_back(Outgoing { addr, buffer, ticket });
        proof {
            let q = self.send_queue@;
            assert(forall|i: int| 0 <= i < q.len() - 1 ==> q[i] == old(self).send_queue@[i]);
        }
        ticket
    }

    /// Takes the outcome of the push with ticket `ticket`, if it is known.
    pub fn take_send_result(&mut self, ticket: u64) -> (r: Option<Result<(), Fail>>)
        requires
            old(self).wf(),
    ensures
            final(self).wf(),
            (exists|i: int|
                0 <= i < old(self).spec_send_results().len()
                    && #[trigger] old(self).spec_send_results()[i].0 == ticket) ==> {
                let i = first_result_index(old(self).spec_send_results(), ticket);
                &&& r == Some(old(self).spec_send_results()[i].1)
                &&& final(self).spec_send_results() == old(self).spec_send_results().remove(i)
            },
            !(exists|i: int|
                0 <= i < old(self).spec_send_results().len()
                    && #[trigger] old(self).spec_send_results()[i].0 == ticket) ==> {
                &&& r is None
                &&& final(self).spec_send_results() == old(self).spec_send_results()
            },
            final(self).spec_send_queue() == old(self).spec_send_queue(),
            final(self).spec_recv_queue() == old(self).spec_recv_queue(),
            final(self).spec_next_ticket() == old(self).spec_next_ticket(),
            final(self).spec_closed() == old(self).spec_closed(),
            final(self).spec_socket() == old(self).spec_socket(),
    {
        let n = self.send_results.len();
        let mut i: usize = 0;
        while i < n
            invariant
                n == self.send_results@.len(),
                self.send_results@ == old(self).send_results@,
                self.send_queue@ == old(self).send_queue@,
                self.recv_queue@ == old(self).recv_queue@,
                self.next_ticket == old(self).next_ticket,
                self.closed == old(self).closed,
                self.socket == old(self).socket,
                tickets_wf(old(self).send_queue@, old(self).send_results@, old(self).next_ticket),
                i <= n,
                forall|j: int| 0 <= j < i ==> #[trigger] self.send_results@[j].0 != ticket,
            decreases n - i,
        {
            if self.send_results[i].0 == ticket {
                proof {
                    let k = first_result_index(old(self).send_results@, ticket);
                    assert(0 <= i < self.send_results@.len() && self.send_results@[i as int].0
                        == ticket && forall|j: int|
                        0 <= j < i ==> #[trigger] self.send_results@[j].0 != ticket);
                    assert(k == i);
                    assert(old(self).spec_send_results()[i as int].0 == ticket);
                }
                let (_, result) = self.send_results.remove(i);
                proof {
                    let r0 = old(self).send_results@;
                    let r1 = self.send_results@;
                    assert forall|k: int| 0 <= k < r1.len() implies #[trigger] r1[k] == (if k < i {
                        r0[k]
                    } else {
                        r0[k + 1]
                    }) by {}
                    assert(tickets_wf(self.send_queue@, r1, self.next_ticket)) by {
                        assert forall|a: int, b: int|
                            0 <= a < r1.len() && 0 <= b < r1.len() && a != b implies #[trigger] r1[a].0
                            != #[trigger] r1[b].0 by {
                            let a0 = if a < i { a } else { a + 1 };
                            let b0 = if b < i { b } else { b + 1 };
                            assert(r0[a0] == r1[a] && r0[b0] == r1[b]);
                        }
                        assert forall|a: int, b: int|
                            0 <= a < self.send_queue@.len() && 0 <= b < r1.len() implies #[trigger] self.send_queue@[a].ticket
                            != #[trigger] r1[b].0 by {
                            let b0 = if b < i { b } else { b + 1 };
                            assert(r0[b0] == r1[b]);
                        }
                        assert forall|b: int| 0 <= b < r1.len() implies #[trigger] r1[b].0 < self.next_ticket by {
                            let b0 = if b < i { b } else { b + 1 };
                            assert(r0[b0] == r1[b]);
                        }
                    }
                }
                return Some(result);
            }
            i = i + 1;
        }
        None
    }

    /// Starts sending: takes the first outgoing message off the send queue.
    /// A message with an empty buffer is done at once (its outcome is recorded
    /// as a success) and nothing is handed out; otherwise the message is handed
    /// out to be written to the socket, after which `poll_send_done` must be
    /// called with it.
    pub fn poll_send(&mut self) -> (r: Option<Outgoing<A>>)
        requires
            old(self).wf(),
    ensures
            final(self).wf(),
            r matches Some(out) ==> out.ticket < final(self).spec_next_ticket() && !ticket_queued(
                final(self).spec_send_queue(),
                out.ticket,
            ) && !ticket_recorded(final(self).spec_send_results(), out.ticket),
            old(self).spec_send_queue().len() == 0 ==> r is None && final(self).spec_send_queue()
                == old(self).spec_send_queue() && final(self).spec_send_results() == old(
                self,
            ).spec_send_results(),
            old(self).spec_send_queue().len() > 0 ==> {
                let first = old(self).spec_send_queue()[0];
                &&& final(self).spec_send_queue() == old(self).spec_send_queue().drop_first()
                &&& first.buffer@.len() == 0 ==> r is None && final(self).spec_send_results() == old(
                    self,
                ).spec_send_results().push((first.ticket, Ok(())))
                &&& first.buffer@.len() > 0 ==> r == Some(first) && final(self).spec_send_results()
                    == old(self).spec_send_results()
            },
            final(self).spec_recv_queue() == old(self).spec_recv_queue(),
            final(self).spec_next_ticket() == old(self).spec_next_ticket(),
            final(self).spec_closed() == old(self).spec_closed(),
            final(self).spec_socket() == old(self).spec_socket(),
    {
        match self.send_queue.pop_front() {
            Some(out) => {
                if out.buffer.is_empty() {
                    // A dummy request to detect when the socket has connected.
                    self.send_results.push((out.ticket, Ok(())));
                    None
                } else {
                    Some(out)
                }
            },
            None => None,
        }
    }

    /// Finishes sending `out` given the outcome of the write: the number of
    /// bytes the socket took, or the error number of the failure. When all the
    /// bytes went out the push succeeded; when some are left, or the error is
    /// one to retry, the rest goes back to the front of the send queue; any
    /// other error is the push's outcome.
    pub fn poll_send_done(&mut self, out: Outgoing<A>, io_result: Result<usize, i32>)
        requires
            old(self).wf(),
            out.ticket < old(self).spec_next_ticket(),
            !ticket_queued(old(self).spec_send_queue(), out.ticket),
            !ticket_recorded(old(self).spec_send_results(), out.ticket),
            io_result matches Ok(n) ==> n <= out.buffer@.len(),
        ensures
            final(self).wf(),
            final(self).spec_recv_queue() == old(self).spec_recv_queue(),
            final(self).spec_next_ticket() == old(self).spec_next_ticket(),
            final(self).spec_closed() == old(self).spec_closed(),
            final(self).spec_socket() == old(self).spec_socket(),
            match io_result {
                Ok(n) => if n == out.buffer@.len() {
                    &&& final(self).spec_send_queue() == old(self).spec_send_queue()
                    &&& final(self).spec_send_results() == old(self).spec_send_results().push(
                        (out.ticket, Ok(())),
                    )
                } else {
                    &&& final(self).spec_send_results() == old(self).spec_send_results()
                    &&& final(self).spec_send_queue().len() == old(self).spec_send_queue().len() + 1
                    &&& final(self).spec_send_queue().drop_first() == old(self).spec_send_queue()
                    &&& final(self).spec_send_queue()[0].addr == out.addr
                    &&& final(self).spec_send_queue()[0].ticket == out.ticket
                    &&& final(self).spec_send_queue()[0].buffer@ == out.buffer@.skip(n as int)
                },
                Err(errno) => if spec_should_retry(errno) {
                    &&& final(self).spec_send_results() == old(self).spec_send_results()
                    &&& final(self).spec_send_queue() == seq![out] + old(self).spec_send_queue()
                } else {
                    &&& final(self).spec_send_queue() == old(self).spec_send_queue()
                    &&& final(self).spec_send_results().len() == old(self).spec_send_results().len()
                        + 1
                    &&& final(self).spec_send_results().drop_last() == old(self).spec_send_results()
                    &&& final(self).spec_send_results().last().0 == out.ticket
                    &&& final(self).spec_send_results().last().1 matches Err(e) && e.errno == errno
                },
            },
    {
        let Outgoing { addr, mut buffer, ticket } = out;
        match io_result {
            Ok(nbytes) => {
                // Cannot fail: the socket took no more bytes than the buffer held.
                let _adjusted = buffer.adjust(nbytes);
                if buffer.is_empty() {
                    // Done sending this buffer.
                    self.send_results.push((ticket, Ok(())));
                } else {
                    // Only part of the buffer went out: try the rest later.
                    self.send_queue.push_front(Outgoing { addr, buffer, ticket });
                }
            },
            Err(errno) => {
                if should_retry(errno) {
                    // Put the buffer back and try again later.
                    self.send_queue.push_front(Outgoing { addr, buffer, ticket });
                } else {
                    let cause = cause_with_errno("failed to send on socket", errno);
                    self.send_results.push((ticket, Err(Fail::with_cause(errno, cause))));
                }
            },
        }
    }

    /// Whether the socket should be read: not once the peer has closed.
    pub fn poll_recv_ready(&self) -> (ready: bool)
        ensures
            ready == !self.spec_closed(),
    {
        !self.closed
    }

    /// Takes the outcome of a read into `buffer` (of `POP_SIZE_MAX` bytes):
    /// the number of bytes read and the sender, or the error number of the
    /// failure. Read data, cut to the bytes read, joins the back of the receive
    /// queue; an empty read means the peer has closed. An error that is not one
    /// to retry joins the queue too; one to retry is dropped.
    pub fn poll_recv(&mut self, buffer: DemiBuffer, io_result: Result<(usize, Option<A>), i32>)
        requires
            io_result matches Ok((n, _)) ==> n <= buffer@.len(),
        ensures
            old(self).spec_closed() ==> final(self).spec_closed(),
            final(self).spec_recv_queue().len() <= old(self).spec_recv_queue().len() + 1,
            final(self).spec_recv_queue().subrange(0, old(self).spec_recv_queue().len() as int)
                == old(self).spec_recv_queue(),
            final(self).wf() == old(self).wf(),
            final(self).spec_send_queue() == old(self).spec_send_queue(),
            final(self).spec_send_results() == old(self).spec_send_results(),
            final(self).spec_next_ticket() == old(self).spec_next_ticket(),
            final(self).spec_socket() == old(self).spec_socket(),
            match io_result {
                Ok((n, addr)) => {
                    &&& final(self).spec_closed() == (old(self).spec_closed() || n == 0)
                    &&& final(self).spec_recv_queue().len() == old(self).spec_recv_queue().len() + 1
                    &&& final(self).spec_recv_queue().drop_last() == old(self).spec_recv_queue()
                    &&& final(self).spec_recv_queue().last() matches Ok((a, b)) && a == addr && b@
                        == buffer@.take(n as int)
                },
                Err(errno) => {
                    &&& final(self).spec_closed() == old(self).spec_closed()
                    &&& spec_should_retry(errno) ==> final(self).spec_recv_queue() == old(
                        self,
                    ).spec_recv_queue()
                    &&& !spec_should_retry(errno) ==> {
                        &&& final(self).spec_recv_queue().len() == old(self).spec_recv_queue().len()
                            + 1
                        &&& final(self).spec_recv_queue().drop_last() == old(self).spec_recv_queue()
                        &&& final(self).spec_recv_queue().last() matches Err(e) && e.errno == errno
                    }
                },
            },
    {
        let mut buffer = buffer;
        match io_result {
            Ok((num_bytes, addr)) => {
                let len = buffer.len();
                match buffer.trim(len - num_bytes) {
                    Err(e) => {
                        self.recv_queue.push_back(Err(e));
                    },
                    Ok(()) => {
                        if buffer.is_empty() {
                            self.closed = true;
                        }
                        self.recv_queue.push_back(Ok((addr, buffer)));
                    },
                }
            },
            Err(errno) => {
                if !should_retry(errno) {
                    let cause = cause_with_errno("failed to receive on socket", errno);
                    self.recv_queue.push_back(Err(Fail::with_cause(errno, cause)));
                }
            },
        }
    }

    /// Pops what is at the front of the receive queue, if anything: an error,
    /// or received data cut to at most `size` bytes. Data past `size` stays at
    /// the front of the queue for the next pop.
    pub fn pop(&mut self, size: usize) -> (r: Option<Received<A>>)
        ensures
            final(self).wf() == old(self).wf(),
            final(self).spec_send_queue() == old(self).spec_send_queue(),
            final(self).spec_send_results() == old(self).spec_send_results(),
            final(self).spec_next_ticket() == old(self).spec_next_ticket(),
            final(self).spec_closed() == old(self).spec_closed(),
            final(self).spec_socket() == old(self).spec_socket(),
            old(self).spec_recv_queue().len() == 0 ==> r is None && final(self).spec_recv_queue()
                == old(self).spec_recv_queue(),
            old(self).spec_recv_queue().len() > 0 ==> match old(self).spec_recv_queue()[0] {
                Err(e) => {
                    &&& r == Some(old(self).spec_recv_queue()[0])
                    &&& final(self).spec_recv_queue() == old(self).spec_recv_queue().drop_first()
                },
                Ok((addr, data)) => {
                    &&& r matches Some(Ok((a, b))) && a == addr && b@ == data@.take(
                        if data@.len() <= size {
                            data@.len() as int
                        } else {
                            size as int
                        },
                    )
                    &&& data@.len() <= size ==> final(self).spec_recv_queue() == old(
                        self,
                    ).spec_recv_queue().drop_first()
                    &&& data@.len() > size ==> {
                        &&& final(self).spec_recv_queue().len() == old(self).spec_recv_queue().len()
                        &&& final(self).spec_recv_queue().drop_first() == old(
                            self,
                        ).spec_recv_queue().drop_first()
                        &&& final(self).spec_recv_queue()[0] matches Ok((a2, rest)) && a2 == addr
                            && rest@ == data@.skip(size as int)
                    }
                },
            },
    {
        match self.recv_queue.pop_front() {
            None => None,
            Some(Err(e)) => Some(Err(e)),
            Some(Ok((addr, buffer))) => {
                let mut buffer = buffer;
                // Figure out how much data we got.
                let len = buffer.len();
                let bytes_read: usize = if len < size {
                    len
                } else {
                    size
                };
                // Leave what is past `size` for the next read.
                if let Ok(remainder) = buffer.split_back(bytes_read) {
                    if !remainder.is_empty() {
                        self.push_front(remainder, addr);
                    }
                }
                Some(Ok((addr, buffer)))
            },
        }
    }

    /// Puts received data back at the front of the receive queue.
    pub fn push_front(&mut self, buf: DemiBuffer, addr: Option<A>)
        ensures
            final(self).wf() == old(self).wf(),
            final(self).spec_recv_queue() == seq![Ok((addr, buf))] + old(self).spec_recv_queue(),
            final(self).spec_send_queue() == old(self).spec_send_queue(),
            final(self).spec_send_results() == old(self).spec_send_results(),
            final(self).spec_next_ticket() == old(self).spec_next_ticket(),
            final(self).spec_closed() == old(self).spec_closed(),
            final(self).spec_socket() == old(self).spec_socket(),
    {
        self.recv_queue.push_front(Ok((addr, buf)));
    }

    /// In a well-formed socket a message waiting in the send queue has no
    /// outcome recorded under its ticket, and its ticket is below the next one.
    pub proof fn lemma_queued_ticket_has_no_outcome(&self, ticket: u64)
        requires
            self.wf(),
            ticket_queued(self.spec_send_queue(), ticket),
        ensures
            !ticket_recorded(self.spec_send_results(), ticket),
            ticket < self.spec_next_ticket(),
    {
        let q = self.send_queue@;
        let r = self.send_results@;
        let i = choose|i: int| 0 <= i < q.len() && #[trigger] q[i].ticket == ticket;
        assert forall|j: int| 0 <= j < r.len() implies #[trigger] r[j].0 != ticket by {
            assert(q[i].ticket != r[j].0);
        }
    }

    /// A push is answered with its own outcome. Every method keeps the socket
    /// well-formed, and in a well-formed socket at most one outcome is recorded
    /// under each ticket: so the outcome that `take_send_result` gives for a
    /// push's ticket is the one that `poll_send_done` (or `poll_send`, for an
    /// empty buffer) recorded for that push's message, and no other.
    pub proof fn lemma_push_answered_with_own_outcome(&self, ticket: u64, i: int)
        requires
            self.wf(),
            0 <= i < self.spec_send_results().len(),
            self.spec_send_results()[i].0 == ticket,
        ensures
            first_result_index(self.spec_send_results(), ticket) == i,
            forall|j: int|
                0 <= j < self.spec_send_results().len() && j != i ==> #[trigger] self.spec_send_results()[j].0
                    != ticket,
    {
        let r = self.send_results@;
        assert forall|j: int| 0 <= j < r.len() && j != i implies #[trigger] r[j].0 != ticket by {
            assert(r[i].0 != r[j].0);
        }
        assert(0 <= i < r.len() && r[i].0 == ticket && forall|j: int| 0 <= j < i ==> #[trigger] r[j].0 != ticket);
        let k = first_result_index(r, ticket);
        if k != i {
            assert(r[k].0 != ticket);
        }
    }

    /// The operating system's socket.
    pub fn socket(&self) -> (s: &Socket)
        ensures
            *s == self.spec_socket(),
    {
        &self.socket
    }

    /// The operating system's socket, for changing its options.
    pub fn socket_mut(&mut self) -> (s: &mut Socket)
        ensures
            final(self).wf() == old(self).wf(),
            *s == old(self).spec_socket(),
            final(self).spec_socket() == *final(s),
            final(self).spec_send_queue() == old(self).spec_send_queue(),
            final(self).spec_recv_queue() == old(self).spec_recv_queue(),
            final(self).spec_send_results() == old(self).spec_send_results(),
            final(self).spec_next_ticket() == old(self).spec_next_ticket(),
            final(self).spec_closed() == old(self).spec_closed(),
    {
        &mut self.socket
    }
}

/// A pop loses no received byte: the bytes it returns, followed by the bytes it
/// leaves at the front of the queue (when the data was longer than asked for),
/// are the data that was at the front.
pub proof fn lemma_pop_keeps_every_byte(data: Seq<u8>, size: usize)
    ensures
        data.take(
            if data.len() <= size {
                data.len() as int
            } else {
                size as int
            },
        ) + (if data.len() > size {
            data.skip(size as int)
        } else {
            Seq::<u8>::empty()
        }) == data,
{
    if data.len() > size {
        assert(data.take(size as int) + data.skip(size as int) =~= data);
    } else {
        assert(data.take(data.len() as int) + Seq::<u8>::empty() =~= data);
    }
}

/// Once the outcome of a push is recorded, and no outcome was pending under
/// its ticket, taking the outcome for that ticket gives exactly the recorded
/// one and leaves the other pending outcomes as they were. In a well-formed
/// socket this is so for every push: its ticket has no outcome while its
/// message is queued (`lemma_queued_ticket_has_no_outcome`), `poll_send` hands
/// the message out with none recorded, and `poll_send_done` records one.
pub proof fn lemma_recorded_outcome_is_taken(
    results: Seq<(u64, Result<(), Fail>)>,
    ticket: u64,
    outcome: Result<(), Fail>,
)
    requires
        !ticket_recorded(results, ticket),
    ensures
        exists|i: int|
            0 <= i < results.push((ticket, outcome)).len() && #[trigger] results.push(
                (ticket, outcome),
            )[i].0 == ticket,
        first_result_index(results.push((ticket, outcome)), ticket) == results.len(),
        results.push((ticket, outcome))[first_result_index(results.push((ticket, outcome)), ticket)].1
            == outcome,
        results.push((ticket, outcome)).remove(
            first_result_index(results.push((ticket, outcome)), ticket),
        ) == results,
{
    let r = results.push((ticket, outcome));
    assert(r[results.len() as int].0 == ticket);
    let k = first_result_index(r, ticket);
    assert(0 <= k < r.len() && r[k].0 == ticket && forall|j: int| 0 <= j < k ==> #[trigger] r[j].0 != ticket);
    if k < results.len() {
        assert(r[k] == results[k]);
    }
    if k > results.len() as int {
        assert(r[results.len() as int].0 == ticket);
    }
    assert(r.remove(k) =~= results);
}

} // verus!
