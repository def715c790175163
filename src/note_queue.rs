//! Bounded FIFO of note events, from the control side to the audio side.
//!
//! Events are stored one byte each (high bit: note on; low seven bits: note)
//! in a ring with a write cursor and a read cursor. The queue is empty when
//! the cursors are equal and full when advancing the write cursor would reach
//! the read cursor, so a ring of `capacity` slots holds `capacity - 1` events.
use vstd::prelude::*;

verus! {

/// Number of ring slots of a queue made by `NoteQueue::new`.
pub const NOTE_QUEUE_SIZE: usize = 64;

/// The stored byte for an event.
pub open spec fn encode_event(is_on: bool, note: u8) -> u8 {
    if is_on {
        (0x80u8 | (note & 0x7fu8)) as u8
    } else {
        (note & 0x7fu8) as u8
    }
}

/// The event a stored byte stands for.
pub open spec fn decode_event(raw: u8) -> (bool, u8) {
    ((raw & 0x80u8) != 0, (raw & 0x7fu8) as u8)
}

/// Position in a ring of `cap` slots that lies `i` slots after `start`.
pub open spec fn ring_index(start: nat, i: nat, cap: nat) -> nat {
    if start + i < cap {
        start + i
    } else {
        (start + i - cap) as nat
    }
}

/// Number of slots from `read` forward to `write` in a ring of `cap` slots.
pub open spec fn ring_distance(read: nat, write: nat, cap: nat) -> nat {
    if write >= read {
        (write - read) as nat
    } else {
        (write + cap - read) as nat
    }
}

pub struct NoteQueue {
    slots: Vec<u8>,
    write_head: usize,
    read_head: usize,
}

impl View for NoteQueue {
    /// The pending events, oldest first, each as (is note on, note).
    type V = Seq<(bool, u8)>;

    closed spec fn view(&self) -> Seq<(bool, u8)> {
        let cap = self.slots@.len();
        Seq::new(
            ring_distance(self.read_head as nat, self.write_head as nat, cap),
            |i: int| decode_event(self.slots@[ring_index(self.read_head as nat, i as nat, cap) as int]),
        )
    }
}

proof fn lemma_encode_decode(is_on: bool, note: u8)
    ensures
        decode_event(encode_event(is_on, note)) == (is_on, (note % 128) as u8),
{
    if is_on {
        assert((0x80u8 | (note & 0x7fu8)) & 0x80u8 != 0) by (bit_vector);
        assert((0x80u8 | (note & 0x7fu8)) & 0x7fu8 == note % 128) by (bit_vector);
    } else {
        assert((note & 0x7fu8) & 0x80u8 == 0) by (bit_vector);
        assert((note & 0x7fu8) & 0x7fu8 == note % 128) by (bit_vector);
    }
}

impl NoteQueue {
    /// Number of ring slots; at most `capacity() - 1` events are held.
    pub closed spec fn capacity(&self) -> nat {
        self.slots@.len()
    }

    pub closed spec fn wf(&self) -> bool {
        &&& self.slots@.len() >= 1
        &&& self.read_head < self.slots@.len()
        &&& self.write_head < self.slots@.len()
    }

    /// An empty queue with `NOTE_QUEUE_SIZE` slots.
    pub fn new() -> (q: NoteQueue)
        ensures
            q.wf(),
            q.capacity() == NOTE_QUEUE_SIZE,
            q@ == Seq::<(bool, u8)>::empty(),
    {
        NoteQueue::with_capacity(NOTE_QUEUE_SIZE)
    }

    /// An empty queue with `capacity` slots, holding up to `capacity - 1` events.
    pub fn with_capacity(capacity: usize) -> (q: NoteQueue)
        requires
            capacity >= 1,
        ensures
            q.wf(),
            q.capacity() == capacity,
            q@ == Seq::<(bool, u8)>::empty(),
    {
        let mut slots: Vec<u8> = Vec::new();
        let mut i: usize = 0;
        while i < capacity
            invariant
                i <= capacity,
                slots@.len() == i,
            decreases capacity - i,
        {
            slots.push(0xff);
            i = i + 1;
        }
        let q = NoteQueue { slots, write_head: 0, read_head: 0 };
        assert(q@ =~= Seq::<(bool, u8)>::empty());
        q
    }

    /// Whether no event is pending.
    pub fn is_empty(&self) -> (r: bool)
        requires
            self.wf(),
        ensures
            r == (self@.len() == 0),
    {
        self.write_head == self.read_head
    }

    /// Queues a note-on for `note` (its low seven bits). Returns false, leaving
    /// the queue as it was, when the queue is full.
    pub fn push_note_on(&mut self, note: u8) -> (r: bool)
        requires
            old(self).wf(),
        ensures
            final(self).wf(),
            final(self).capacity() == old(self).capacity(),
            r == (old(self)@.len() + 1 < old(self).capacity()),
            r ==> final(self)@ == old(self)@.push((true, (note % 128) as u8)),
            !r ==> final(self)@ == old(self)@,
    {
        proof {
            lemma_encode_decode(true, note);
        }
        self.push_raw(0x80u8 | (note & 0x7fu8))
    }

    /// Queues a note-off for `note` (its low seven bits). Returns false, leaving
    /// the queue as it was, when the queue is full.
    pub fn push_note_off(&mut self, note: u8) -> (r: bool)
        requires
            old(self).wf(),
        ensures
            final(self).wf(),
            final(self).capacity() == old(self).capacity(),
            r == (old(self)@.len() + 1 < old(self).capacity()),
            r ==> final(self)@ == old(self)@.push((false, (note % 128) as u8)),
            !r ==> final(self)@ == old(self)@,
    {
        proof {
            lemma_encode_decode(false, note);
        }
        self.push_raw(note & 0x7fu8)
    }

    fn push_raw(&mut self, value: u8) -> (r: bool)
        requires
            old(self).wf(),
        ensures
            final(self).wf(),
            final(self).capacity() == old(self).capacity(),
            r == (old(self)@.len() + 1 < old(self).capacity()),
            r ==> final(self)@ == old(self)@.push(decode_event(value)),
            !r ==> final(self)@ == old(self)@,
    {
        let cap = self.slots.len();
        let head = self.write_head;
        let next = if head + 1 == cap {
            0
        } else {
            head + 1
        };
        if next == self.read_head {
            return false;
        }
        let ghost before = self@;
        self.slots.set(head, value);
        self.write_head = next;
        assert(self@ =~= before.push(decode_event(value)));
        true
    }

    /// Removes and returns the oldest event, or None when empty.
    pub fn pop(&mut self) -> (r: Option<(bool, u8)>)
        requires
            old(self).wf(),
        ensures
            final(self).wf(),
            final(self).capacity() == old(self).capacity(),
            old(self)@.len() == 0 ==> r == None::<(bool, u8)> && final(self)@ == old(self)@,
            old(self)@.len() > 0 ==> r == Some(old(self)@[0]) && final(self)@
                == old(self)@.drop_first(),
    {
        let tail = self.read_head;
        if tail == self.write_head {
            return None;
        }
        let raw = self.slots[tail];
        let is_on = raw & 0x80u8 != 0;
        let note = raw & 0x7fu8;
        let cap = self.slots.len();
        let ghost before = self@;
        self.read_head = if tail + 1 == cap {
            0
        } else {
            tail + 1
        };
        assert(self@ =~= before.drop_first());
        Some((is_on, note))
    }

    /// Hands every pending event to `callback`, oldest first (each call gets
    /// what `pop` returns), leaving the queue empty.
    pub fn drain<F: FnMut(bool, u8)>(&mut self, callback: F)
        requires
            old(self).wf(),
            forall|is_on: bool, note: u8| call_requires(callback, (is_on, note)),
        ensures
            final(self).wf(),
            final(self).capacity() == old(self).capacity(),
            final(self)@.len() == 0,
            forall|i: int|
                0 <= i < old(self)@.len() ==> call_ensures(
                    callback,
                    ((#[trigger] old(self)@[i]).0, old(self)@[i].1),
                    (),
                ),
    {
        let mut callback = callback;
        let ghost start = self@;
        let ghost cb = callback;
        let ghost mut done: int = 0;
        loop
            invariant
                self.wf(),
                self.capacity() == old(self).capacity(),
                forall|is_on: bool, note: u8| call_requires(cb, (is_on, note)),
                0 <= done <= start.len(),
                self@ == start.subrange(done, start.len() as int),
                callback == cb,
                forall|i: int| 0 <= i < done ==> call_ensures(cb, ((#[trigger] start[i]).0, start[i].1), ()),
            ensures
                self.wf(),
                self@.len() == 0,
                done == start.len(),
            decreases self@.len(),
        {
            match self.pop() {
                Some((is_on, note)) => {
                    callback(is_on, note);
                    proof {
                        done = done + 1;
                    }
                },
                None => break,
            }
        }
    }
}

/// The pending events after pushing each of `events` in turn, none refused.
pub open spec fn pushed_all(pending: Seq<(bool, u8)>, events: Seq<(bool, u8)>) -> Seq<
    (bool, u8),
>
    decreases events.len(),
{
    if events.len() == 0 {
        pending
    } else {
        pushed_all(pending, events.drop_last()).push(events.last())
    }
}

/// The events that popping until empty returns, in the order returned.
pub open spec fn drained(pending: Seq<(bool, u8)>) -> Seq<(bool, u8)>
    decreases pending.len(),
{
    if pending.len() == 0 {
        Seq::empty()
    } else {
        seq![pending[0]].add(drained(pending.drop_first()))
    }
}

/// First in, first out: starting from an empty queue of `capacity` slots,
/// each of up to `capacity - 1` pushed events is accepted, and popping until
/// empty returns exactly those events in the order they were pushed.
pub proof fn lemma_fifo(capacity: nat, events: Seq<(bool, u8)>)
    requires
        capacity >= 1,
        events.len() <= capacity - 1,
    ensures
        forall|i: int|
            0 <= i < events.len() ==> #[trigger] pushed_all(Seq::empty(), events.take(i)).len()
                + 1 < capacity,
        pushed_all(Seq::empty(), events) == events,
        drained(pushed_all(Seq::empty(), events)) == events,
{
    assert forall|i: int| 0 <= i < events.len() implies #[trigger] pushed_all(
        Seq::empty(),
        events.take(i),
    ).len() + 1 < capacity by {
        lemma_pushed_all_appends(Seq::empty(), events.take(i));
    }
    lemma_pushed_all_appends(Seq::empty(), events);
    assert(Seq::<(bool, u8)>::empty() + events =~= events);
    lemma_drained_is_identity(events);
}

proof fn lemma_pushed_all_appends(pending: Seq<(bool, u8)>, events: Seq<(bool, u8)>)
    ensures
        pushed_all(pending, events) == pending + events,
    decreases events.len(),
{
    if events.len() > 0 {
        lemma_pushed_all_appends(pending, events.drop_last());
        assert((pending + events.drop_last()).push(events.last()) =~= pending + events);
    } else {
        assert(pending + events =~= pending);
    }
}

proof fn lemma_drained_is_identity(pending: Seq<(bool, u8)>)
    ensures
        drained(pending) == pending,
    decreases pending.len(),
{
    if pending.len() > 0 {
        lemma_drained_is_identity(pending.drop_first());
        assert(seq![pending[0]].add(pending.drop_first()) =~= pending);
    } else {
        assert(pending =~= Seq::empty());
    }
}

} // verus!
