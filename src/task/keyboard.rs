//! The scancode queue between the keyboard interrupt and the keyboard task:
//! the interrupt pushes, the task polls, and a single waker slot lets a
//! waiting task be woken by the next push.
use std::collections::VecDeque;
use vstd::prelude::*;

verus! {

/// Capacity of the kernel's scancode queue.
pub const SCANCODE_QUEUE_SIZE: usize = 100;

/// What the interrupt handler must do after a push.
#[derive(Clone, Copy, Debug, PartialEq, Eq)]
pub struct PushOutcome {
    /// The task to wake, if one was waiting.
    pub wake: Option<u64>,
    /// The queue was full for the first time: warn that input is dropped.
    pub warn: bool,
}

/// The abstract state of a scancode queue.
pub ghost struct ScancodeQueueModel {
    /// The queued scancodes, oldest first.
    pub items: Seq<u8>,
    pub capacity: int,
    /// A scancode has been dropped because the queue was full.
    pub overflowed: bool,
    /// The task waiting for the next scancode.
    pub waker: Option<u64>,
}

impl ScancodeQueueModel {
    /// The queue never holds more than its capacity.
    pub open spec fn wf(self) -> bool {
        0 < self.capacity && self.items.len() <= self.capacity
    }

    /// The state after the interrupt pushes `b`: it is queued when there is
    /// room (and the waiting task is taken to be woken); otherwise it is
    /// dropped and the overflow is latched.
    pub open spec fn after_push(self, b: u8) -> ScancodeQueueModel {
        if self.items.len() < self.capacity {
            ScancodeQueueModel { items: self.items.push(b), waker: None, ..self }
        } else {
            ScancodeQueueModel { overflowed: true, ..self }
        }
    }

    /// What a push of `b` asks the interrupt handler to do.
    pub open spec fn push_outcome(self, b: u8) -> PushOutcome {
        if self.items.len() < self.capacity {
            PushOutcome { wake: self.waker, warn: false }
        } else {
            PushOutcome { wake: None, warn: !self.overflowed }
        }
    }

    /// The state after the interrupt pushes each of `bytes` in turn.
    pub open spec fn after_pushes(self, bytes: Seq<u8>) -> ScancodeQueueModel
        decreases bytes.len(),
    {
        if bytes.len() == 0 {
            self
        } else {
            self.after_push(bytes[0]).after_pushes(bytes.drop_first())
        }
    }

    /// The state after task `task` polls: the oldest scancode is taken, or,
    /// with none queued, the task waits for the next push.
    pub open spec fn after_poll(self, task: u64) -> ScancodeQueueModel {
        if self.items.len() > 0 {
            ScancodeQueueModel { items: self.items.drop_first(), ..self }
        } else {
            ScancodeQueueModel { waker: Some(task), ..self }
        }
    }

    /// What a poll returns: the oldest scancode, `None` while none is queued.
    pub open spec fn poll_result(self) -> Option<u8> {
        if self.items.len() > 0 {
            Some(self.items[0])
        } else {
            None
        }
    }

    /// The scancodes that `n` successive polls by `task` return.
    pub open spec fn polled(self, task: u64, n: nat) -> Seq<Option<u8>>
        decreases n,
    {
        if n == 0 {
            Seq::empty()
        } else {
            seq![self.poll_result()] + self.after_poll(task).polled(task, (n - 1) as nat)
        }
    }
}

/// A bounded first-in first-out queue of scancodes with one waker slot.
pub struct ScancodeQueue {
    items: VecDeque<u8>,
    capacity: usize,
    overflowed: bool,
    waker: Option<u64>,
}

impl View for ScancodeQueue {
    type V = ScancodeQueueModel;

    closed spec fn view(&self) -> ScancodeQueueModel {
        ScancodeQueueModel {
            items: self.items@,
            capacity: self.capacity as int,
            overflowed: self.overflowed,
            waker: self.waker,
        }
    }
}

impl ScancodeQueue {
    /// An empty queue that holds up to `capacity` scancodes.
    pub fn new(capacity: usize) -> (r: ScancodeQueue)
        requires
            capacity > 0,
        ensures
            r@ == (ScancodeQueueModel {
                items: Seq::empty(),
                capacity: capacity as int,
                overflowed: false,
                waker: None,
            }),
            r@.wf(),
    {
        ScancodeQueue { items: VecDeque::new(), capacity, overflowed: false, waker: None }
    }

    /// Called by the keyboard interrupt with the scancode it read.
    pub fn push(&mut self, scancode: u8) -> (r: PushOutcome)
        requires
            old(self)@.wf(),
        ensures
            final(self)@ == old(self)@.after_push(scancode),
            r == old(self)@.push_outcome(scancode),
            final(self)@.wf(),
    {
        if self.items.len() < self.capacity {
            self.items.push_back(scancode);
            let wake = self.waker.take();
            PushOutcome { wake, warn: false }
        } else {
            let warn = !self.overflowed;
            self.overflowed = true;
            PushOutcome { wake: None, warn }
        }
    }

    /// Called by the keyboard task `task`: the oldest scancode, or `None`
    /// after registering `task` to be woken by the next push.
    pub fn poll_next(&mut self, task: u64) -> (r: Option<u8>)
        requires
            old(self)@.wf(),
        ensures
            final(self)@ == old(self)@.after_poll(task),
            r == old(self)@.poll_result(),
            final(self)@.wf(),
    {
        match self.items.pop_front() {
            Some(b) => {
                assert(self@.items =~= old(self)@.items.drop_first());
                Some(b)
            },
            None => {
                self.waker = Some(task);
                None
            },
        }
    }

    /// How many scancodes are queued.
    pub fn len(&self) -> (r: usize)
        ensures
            r == self@.items.len(),
    {
        self.items.len()
    }
}

/// Pushes that find room keep every scancode, in push order.
proof fn lemma_pushes_append(m: ScancodeQueueModel, bytes: Seq<u8>)
    requires
        m.items.len() + bytes.len() <= m.capacity,
    ensures
        m.after_pushes(bytes).items == m.items + bytes,
        m.after_pushes(bytes).capacity == m.capacity,
    decreases bytes.len(),
{
    if bytes.len() > 0 {
        let n = m.after_push(bytes[0]);
        lemma_pushes_append(n, bytes.drop_first());
        assert(m.items.push(bytes[0]) + bytes.drop_first() =~= m.items + bytes);
    }
}

/// Polls return the queued scancodes oldest first.
proof fn lemma_polls_in_order(m: ScancodeQueueModel, task: u64, n: nat)
    requires
        n <= m.items.len(),
    ensures
        m.polled(task, n) == m.items.take(n as int).map_values(|b: u8| Some(b)),
    decreases n,
{
    if n > 0 {
        lemma_polls_in_order(m.after_poll(task), task, (n - 1) as nat);
        assert(m.polled(task, n) =~= m.items.take(n as int).map_values(|b: u8| Some(b)));
    }
}

/// When the queue has room for them, scancodes pushed by the interrupt are
/// polled by the keyboard task in push order, none lost.
pub proof fn lemma_scancodes_in_push_order(m: ScancodeQueueModel, bytes: Seq<u8>, task: u64)
    requires
        m.items.len() + bytes.len() <= m.capacity,
    ensures
        m.after_pushes(bytes).polled(task, (m.items.len() + bytes.len()) as nat) == (m.items
            + bytes).map_values(|b: u8| Some(b)),
{
    lemma_pushes_append(m, bytes);
    let k = (m.items.len() + bytes.len()) as nat;
    lemma_polls_in_order(m.after_pushes(bytes), task, k);
    assert((m.items + bytes).take(k as int) =~= m.items + bytes);
}

/// A task that found the queue empty is woken by the next push that finds
/// room, and its next poll returns that scancode.
pub proof fn lemma_wake_not_missed(m: ScancodeQueueModel, task: u64, b: u8)
    requires
        m.wf(),
        m.items.len() == 0,
    ensures
        m.poll_result() is None,
        m.after_poll(task).push_outcome(b).wake == Some(task),
        m.after_poll(task).after_push(b).poll_result() == Some(b),
{
}

} // verus!
