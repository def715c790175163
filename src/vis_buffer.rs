//! Double buffer that carries rendered samples to a monitoring reader.
//!
//! Two equal-length buffers: the front one is what readers see, the back one
//! is being filled. Each push writes the back buffer at the write cursor; when
//! the cursor wraps, the just-filled buffer becomes the front. The sample type
//! is a parameter, so the buffer holds whatever the renderer produces.
use vstd::prelude::*;

verus! {

/// Length of each buffer made by `VisBuffer::new`.
pub const VIS_BUFFER_SIZE: usize = 2048;

/// Mathematical state of a double buffer.
pub struct VisModel<T> {
    /// What a reader sees: the most recently completed buffer.
    pub front: Seq<T>,
    /// The buffer being filled.
    pub back: Seq<T>,
    /// Where the next sample goes in `back`.
    pub write_pos: nat,
}

impl<T> VisModel<T> {
    pub open spec fn wf(self) -> bool {
        &&& self.front.len() >= 1
        &&& self.back.len() == self.front.len()
        &&& self.write_pos < self.front.len()
    }

    /// State after pushing `x`.
    pub open spec fn pushed(self, x: T) -> VisModel<T> {
        let back = self.back.update(self.write_pos as int, x);
        if self.write_pos + 1 == self.front.len() {
            VisModel { front: back, back: self.front, write_pos: 0 }
        } else {
            VisModel { front: self.front, back, write_pos: self.write_pos + 1 }
        }
    }

    /// State after pushing the samples of `s` in order.
    pub open spec fn pushed_all(self, s: Seq<T>) -> VisModel<T>
        decreases s.len(),
    {
        if s.len() == 0 {
            self
        } else {
            self.pushed_all(s.drop_last()).pushed(s.last())
        }
    }
}

pub struct VisBuffer<T> {
    buffers: [Vec<T>; 2],
    write_pos: usize,
    front: usize,
}

impl<T> View for VisBuffer<T> {
    type V = VisModel<T>;

    closed spec fn view(&self) -> VisModel<T> {
        VisModel {
            front: self.buffers[self.front as int]@,
            back: self.buffers[1 - self.front]@,
            write_pos: self.write_pos as nat,
        }
    }
}

impl<T: Copy> VisBuffer<T> {
    /// The buffer is usable and its view is well-formed, so the laws below
    /// apply to `self@`.
    pub open spec fn wf(&self) -> bool {
        &&& self.front_index_valid()
        &&& self@.wf()
    }

    /// The front index names one of the two buffers.
    pub closed spec fn front_index_valid(&self) -> bool {
        self.front < 2
    }

    /// Two buffers of `VIS_BUFFER_SIZE` samples, all `silence`.
    pub fn new(silence: T) -> (b: VisBuffer<T>)
        ensures
            b.wf(),
            b@.front == Seq::new(VIS_BUFFER_SIZE as nat, |i: int| silence),
            b@.back == b@.front,
            b@.write_pos == 0,
    {
        VisBuffer::with_len(VIS_BUFFER_SIZE, silence)
    }

    /// Two buffers of `len` samples, all `silence`.
    pub fn with_len(len: usize, silence: T) -> (b: VisBuffer<T>)
        requires
            len >= 1,
        ensures
            b.wf(),
            b@.front == Seq::new(len as nat, |i: int| silence),
            b@.back == b@.front,
            b@.write_pos == 0,
    {
        let mut a: Vec<T> = Vec::new();
        let mut c: Vec<T> = Vec::new();
        let mut i: usize = 0;
        while i < len
            invariant
                i <= len,
                a@ == Seq::new(i as nat, |j: int| silence),
                c@ == a@,
            decreases len - i,
        {
            a.push(silence);
            c.push(silence);
            i = i + 1;
            assert(a@ =~= Seq::new(i as nat, |j: int| silence));
        }
        VisBuffer { buffers: [a, c], write_pos: 0, front: 0 }
    }

    /// Length of each buffer.
    pub fn len(&self) -> (r: usize)
        requires
            self.wf(),
        ensures
            r == self@.front.len(),
    {
        if self.front == 0 {
            self.buffers[0].len()
        } else {
            self.buffers[1].len()
        }
    }

    /// Writes `sample` into the back buffer; when that completes the back
    /// buffer, it becomes the front.
    pub fn push(&mut self, sample: T)
        requires
            old(self).wf(),
        ensures
            final(self).wf(),
            final(self)@ == old(self)@.pushed(sample),
    {
        let front = self.front;
        let back: usize = 1 - front;
        let pos = self.write_pos;
        let len = self.buffers[back].len();
        let ghost before = self@;
        if back == 0 {
            self.buffers[0].set(pos, sample);
        } else {
            self.buffers[1].set(pos, sample);
        }
        let next_pos: usize = if pos + 1 == len {
            0
        } else {
            pos + 1
        };
        self.write_pos = next_pos;
        if next_pos == 0 {
            self.front = back;
        }
        assert(self@ == before.pushed(sample));
    }

    /// The most recently completed buffer.
    pub fn read_front(&self) -> (r: &[T])
        requires
            self.wf(),
        ensures
            r@ == self@.front,
    {
        if self.front == 0 {
            self.buffers[0].as_slice()
        } else {
            self.buffers[1].as_slice()
        }
    }
}

/// Pushing a run of samples that stops short of the end of the back buffer
/// writes them at the cursor, moves the cursor past them and leaves the front
/// untouched.
pub proof fn lemma_partial_push_keeps_front<T>(m: VisModel<T>, s: Seq<T>)
    requires
        m.wf(),
        m.write_pos + s.len() < m.front.len(),
    ensures
        m.pushed_all(s).front == m.front,
        m.pushed_all(s).write_pos == m.write_pos + s.len(),
        m.pushed_all(s).back == m.back.take(m.write_pos as int) + s + m.back.skip(
            m.write_pos + s.len() as int,
        ),
    decreases s.len(),
{
    let w = m.write_pos as int;
    if s.len() == 0 {
        assert(m.back =~= m.back.take(w) + s + m.back.skip(w));
    } else {
        let t = s.drop_last();
        lemma_partial_push_keeps_front(m, t);
        let p = m.pushed_all(t);
        assert(p.back.update(w + t.len(), s.last()) =~= m.back.take(w) + s + m.back.skip(
            w + s.len(),
        ));
    }
}

/// Pushing exactly one buffer's worth of samples from the start of a cycle
/// publishes them: the front then holds exactly those samples, in order, and
/// the next cycle starts.
pub proof fn lemma_full_cycle_publishes<T>(m: VisModel<T>, s: Seq<T>)
    requires
        m.wf(),
        m.write_pos == 0,
        s.len() == m.front.len(),
    ensures
        m.pushed_all(s).front == s,
        m.pushed_all(s).back == m.front,
        m.pushed_all(s).write_pos == 0,
{
    let t = s.drop_last();
    lemma_partial_push_keeps_front(m, t);
    let p = m.pushed_all(t);
    assert(p.back.update(t.len() as int, s.last()) =~= s);
}

} // verus!
