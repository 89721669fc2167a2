use vstd::prelude::*;
use std::collections::VecDeque;

verus! {

/// A remote operation that a producer asks for.
pub enum Op {
    Get { key: Vec<u8> },
    Put { key: Vec<u8>, value: Vec<u8> },
}

/// An operation with the token of the one-shot reply that awaits its result.
pub struct Command {
    pub id: u64,
    pub op: Op,
}

/// What the remote side answered for an operation.
pub enum Outcome {
    /// A read returned this value, or none.
    Value(Option<Vec<u8>>),
    /// A write was stored.
    Stored,
    /// The connection failed.
    Failed,
}

/// A result addressed to the reply of the command that asked for it.
pub struct Reply {
    pub id: u64,
    pub outcome: Outcome,
}

/// Why a command was not queued.
#[derive(PartialEq, Eq, Structural, Debug, Clone, Copy)]
pub enum SubmitError {
    /// The queue holds as many commands as it may.
    Full,
    /// The owner of the connection has exited.
    Closed,
    /// Every reply token has been handed out.
    Exhausted,
}

/// Funnels commands of many producers through one owner of a connection: a
/// bounded first-in first-out queue, at most one command in flight, and a
/// fresh reply token for each command.
pub struct Multiplexer {
    queue: VecDeque<Command>,
    capacity: usize,
    open: bool,
    in_flight: Option<u64>,
    next_id: u64,
}

impl Multiplexer {
    /// The commands waiting, oldest first.
    pub closed spec fn pending(&self) -> Seq<Command> {
        self.queue@
    }

    /// The most commands that may wait at once.
    pub closed spec fn capacity(&self) -> nat {
        self.capacity as nat
    }

    /// Whether the owner still takes commands.
    pub closed spec fn is_open(&self) -> bool {
        self.open
    }

    /// The token of the command that the owner is serving, if any.
    pub closed spec fn in_flight(&self) -> Option<u64> {
        self.in_flight
    }

    /// The number of tokens handed out so far; the next one is this number.
    pub closed spec fn issued(&self) -> nat {
        self.next_id as nat
    }

    /// Tokens of waiting commands are distinct, all handed out already, and
    /// differ from the one in flight; the queue keeps within its bound.
    pub closed spec fn wf(&self) -> bool {
        &&& self.capacity > 0
        &&& self.queue@.len() <= self.capacity
        &&& forall|i: int, j: int|
            0 <= i < j < self.queue@.len() ==> self.queue@[i].id != self.queue@[j].id
        &&& forall|i: int| 0 <= i < self.queue@.len() ==> (#[trigger] self.queue@[i]).id < self.next_id
        &&& match self.in_flight {
            Some(t) => t < self.next_id && forall|i: int|
                0 <= i < self.queue@.len() ==> (#[trigger] self.queue@[i]).id != t,
            None => true,
        }
    }

    /// A multiplexer whose queue takes up to `capacity` commands.
    pub fn new(capacity: usize) -> (r: Multiplexer)
        requires
            capacity > 0,
        ensures
            r.wf(),
            r.is_open(),
            r.capacity() == capacity,
            r.pending() == Seq::<Command>::empty(),
            r.in_flight() == None::<u64>,
            r.issued() == 0,
    {
        Multiplexer { queue: VecDeque::new(), capacity, open: true, in_flight: None, next_id: 0 }
    }

    /// Queues `op` under a fresh reply token and returns the token; fails at
    /// once where the owner has exited or the queue is full.
    pub fn submit(&mut self, op: Op) -> (r: Result<u64, SubmitError>)
        requires
            old(self).wf(),
        ensures
            final(self).wf(),
            final(self).capacity() == old(self).capacity(),
            final(self).is_open() == old(self).is_open(),
            final(self).in_flight() == old(self).in_flight(),
            !old(self).is_open() ==> r == Err::<u64, SubmitError>(SubmitError::Closed),
            old(self).is_open() && old(self).pending().len() == old(self).capacity() ==> r == Err::<
                u64,
                SubmitError,
            >(SubmitError::Full),
            old(self).is_open() && old(self).pending().len() < old(self).capacity()
                && old(self).issued() == u64::MAX ==> r == Err::<u64, SubmitError>(
                SubmitError::Exhausted,
            ),
            old(self).is_open() && old(self).pending().len() < old(self).capacity()
                && old(self).issued() < u64::MAX ==> r == Ok::<u64, SubmitError>(
                old(self).issued() as u64,
            ),
            match r {
                Ok(id) => final(self).pending() == old(self).pending().push(Command { id, op })
                    && final(self).issued() == old(self).issued() + 1,
                Err(_) => final(self).pending() == old(self).pending() && final(self).issued()
                    == old(self).issued(),
            },
    {
        if !self.open {
            return Err(SubmitError::Closed);
        }
        if self.queue.len() >= self.capacity {
            return Err(SubmitError::Full);
        }
        if self.next_id == u64::MAX {
            return Err(SubmitError::Exhausted);
        }
        let id = self.next_id;
        self.queue.push_back(Command { id, op });
        self.next_id = self.next_id + 1;
        Ok(id)
    }

    /// The owner takes the oldest waiting command where none is in flight.
    pub fn next_command(&mut self) -> (r: Option<Command>)
        requires
            old(self).wf(),
        ensures
            final(self).wf(),
            final(self).capacity() == old(self).capacity(),
            final(self).is_open() == old(self).is_open(),
            final(self).issued() == old(self).issued(),
            old(self).in_flight() is None && old(self).pending().len() > 0 ==> r is Some,
            match r {
                Some(c) => old(self).in_flight() is None && old(self).pending().len() > 0
                    && c == old(self).pending()[0] && final(self).pending()
                    == old(self).pending().drop_first() && final(self).in_flight() == Some(c.id),
                None => final(self).pending() == old(self).pending() && final(self).in_flight()
                    == old(self).in_flight(),
            },
    {
        if self.in_flight.is_some() {
            return None;
        }
        let r = self.queue.pop_front();
        match r {
            Some(c) => {
                self.in_flight = Some(c.id);
                Some(c)
            },
            None => None,
        }
    }

    /// The owner reports the outcome of the command in flight; the result is
    /// addressed to that command's reply token.
    pub fn complete(&mut self, outcome: Outcome) -> (r: Option<Reply>)
        requires
            old(self).wf(),
        ensures
            final(self).wf(),
            final(self).capacity() == old(self).capacity(),
            final(self).is_open() == old(self).is_open(),
            final(self).issued() == old(self).issued(),
            final(self).pending() == old(self).pending(),
            final(self).in_flight() == None::<u64>,
            match old(self).in_flight() {
                Some(id) => r == Some(Reply { id, outcome }),
                None => r is None,
            },
    {
        match self.in_flight {
            Some(id) => {
                self.in_flight = None;
                Some(Reply { id, outcome })
            },
            None => None,
        }
    }

    /// The owner exits: no command is taken from then on, and the tokens of
    /// the commands left waiting or in flight are returned, each to be told
    /// that no reply will come.
    pub fn close(&mut self) -> (r: Vec<u64>)
        requires
            old(self).wf(),
        ensures
            final(self).wf(),
            !final(self).is_open(),
            final(self).capacity() == old(self).capacity(),
            final(self).issued() == old(self).issued(),
            final(self).pending() == Seq::<Command>::empty(),
            final(self).in_flight() == None::<u64>,
            r@ == abandoned(old(self).in_flight(), old(self).pending()),
    {
        self.open = false;
        let mut r: Vec<u64> = Vec::new();
        match self.in_flight {
            Some(id) => r.push(id),
            None => {},
        }
        self.in_flight = None;
        let ghost q = self.queue@;
        let ghost start = r@;
        let mut i: usize = 0;
        while i < self.queue.len()
            invariant
                self.queue@ == q,
                0 <= i <= q.len(),
                r@ == start + q.subrange(0, i as int).map_values(|c: Command| c.id),
            decreases q.len() - i,
        {
            r.push(self.queue[i].id);
            i = i + 1;
            proof {
                assert(q.subrange(0, i as int).map_values(|c: Command| c.id) =~= q.subrange(
                    0,
                    i - 1,
                ).map_values(|c: Command| c.id).push(q[i - 1].id));
            }
        }
        proof {
            assert(q.subrange(0, q.len() as int) =~= q);
        }
        self.queue.clear();
        r
    }
}

/// The tokens whose replies will never come once the owner exits: the one in
/// flight, then those waiting, oldest first.
pub open spec fn abandoned(in_flight: Option<u64>, pending: Seq<Command>) -> Seq<u64> {
    let waiting = pending.map_values(|c: Command| c.id);
    match in_flight {
        Some(t) => seq![t] + waiting,
        None => waiting,
    }
}

/// Correlation: in a well-formed multiplexer no two commands waiting or in
/// flight share a reply token, so each result reaches one caller alone.
pub proof fn lemma_tokens_unique(m: Multiplexer)
    requires
        m.wf(),
    ensures
        forall|i: int, j: int|
            0 <= i < m.pending().len() && 0 <= j < m.pending().len() && i != j ==> m.pending()[i].id
                != m.pending()[j].id,
        forall|i: int|
            0 <= i < m.pending().len() && m.in_flight() is Some ==> (#[trigger] m.pending()[i]).id
                != m.in_flight()->0,
        forall|i: int| 0 <= i < m.pending().len() ==> (#[trigger] m.pending()[i]).id < m.issued(),
        m.in_flight() is Some ==> m.in_flight()->0 < m.issued(),
{
    assert forall|i: int, j: int|
        0 <= i < m.pending().len() && 0 <= j < m.pending().len() && i != j implies m.pending()[i].id
        != m.pending()[j].id by {
        if i > j {
            assert(m.queue@[j].id != m.queue@[i].id);
        }
    }
}

} // verus!
