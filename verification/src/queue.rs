//! First-in first-out queues over a ring buffer of fixed capacity.
use vstd::prelude::*;

verus! {

/// The index `x` of a ring of `len` slots, where `x < 2 * len`.
pub open spec fn wrap(x: int, len: int) -> int {
    if x < len {
        x
    } else {
        x - len
    }
}

/// Whether slot `i` holds an element of the queue that starts at `read` and
/// holds `count` elements.
pub open spec fn ring_holds(read: int, count: int, len: int, i: int) -> bool {
    if read + count <= len {
        read <= i < read + count
    } else {
        i >= read || i < read + count - len
    }
}

/// A queue implementation that hands values back in the order it received them.
pub trait Queue<T>: Sized {
    type Error;

    /// The values in the queue, oldest first.
    spec fn spec_queue(&self) -> Seq<T>;

    /// The number of values the queue can hold.
    spec fn spec_capacity(&self) -> nat;

    /// The queue's bookkeeping is consistent.
    spec fn queue_wf(&self) -> bool;

    /// Appends `value`, unless the queue is full; a full queue hands the value back.
    fn try_enqueue(&mut self, value: T) -> (r: Result<(), Self::Error>)
        requires
            old(self).queue_wf(),
        ensures
            final(self).queue_wf(),
            final(self).spec_capacity() == old(self).spec_capacity(),
            old(self).spec_queue().len() < old(self).spec_capacity() ==> r is Ok
                && final(self).spec_queue() == old(self).spec_queue().push(value),
            old(self).spec_queue().len() >= old(self).spec_capacity() ==> r is Err
                && final(self).spec_queue() == old(self).spec_queue(),
    ;

    /// Appends `value`; a full queue first gives up its oldest value, which
    /// is returned.
    fn enqueue_replace(&mut self, value: T) -> (r: Option<T>)
        requires
            old(self).queue_wf(),
            old(self).spec_capacity() > 0,
        ensures
            final(self).queue_wf(),
            final(self).spec_capacity() == old(self).spec_capacity(),
            old(self).spec_queue().len() < old(self).spec_capacity() ==> r is None
                && final(self).spec_queue() == old(self).spec_queue().push(value),
            old(self).spec_queue().len() >= old(self).spec_capacity() ==> r == Some(old(self).spec_queue()[0])
                && final(self).spec_queue() == old(self).spec_queue().drop_first().push(value),
    ;

    /// Removes and returns the oldest value, if any.
    fn dequeue(&mut self) -> (r: Option<T>)
        requires
            old(self).queue_wf(),
        ensures
            final(self).queue_wf(),
            final(self).spec_capacity() == old(self).spec_capacity(),
            old(self).spec_queue().len() == 0 ==> r is None && final(self).spec_queue() == old(self).spec_queue(),
            old(self).spec_queue().len() > 0 ==> r == Some(old(self).spec_queue()[0])
                && final(self).spec_queue() == old(self).spec_queue().drop_first(),
    ;

    /// Appends `value` to a queue that is not full.
    fn enqueue(&mut self, value: T)
        requires
            old(self).queue_wf(),
            old(self).spec_queue().len() < old(self).spec_capacity(),
        ensures
            final(self).queue_wf(),
            final(self).spec_capacity() == old(self).spec_capacity(),
            final(self).spec_queue() == old(self).spec_queue().push(value),
    {
        let _ = self.try_enqueue(value);
    }
}

/// The error of a queue that is full; it hands back the value that did not fit.
#[derive(Clone, Copy, Debug, PartialEq, Eq, Hash, Default)]
pub struct RingQueueFullError<T>(pub T);

/// The positions of a ring queue in its buffer.
struct RingQueueData {
    read_head: usize,
    write_head: usize,
    count: usize,
}

impl RingQueueData {
    /// The positions are consistent with a buffer of `len` slots whose slots
    /// hold a value exactly where the queue holds one.
    spec fn wf<T>(&self, buf: Seq<Option<T>>) -> bool {
        let len = buf.len() as int;
        &&& len <= usize::MAX
        &&& self.count <= len
        &&& len == 0 ==> self.read_head == 0 && self.write_head == 0
        &&& len > 0 ==> self.read_head < len && self.write_head < len
            && self.write_head == wrap(self.read_head + self.count, len)
        &&& forall|i: int| 0 <= i < len ==>
            (#[trigger] buf[i] is Some <==> ring_holds(self.read_head as int, self.count as int, len, i))
    }

    /// The values of the queue, oldest first.
    spec fn view<T>(&self, buf: Seq<Option<T>>) -> Seq<T> {
        Seq::new(
            self.count as nat,
            |d: int| buf[wrap(self.read_head + d, buf.len() as int)]->Some_0,
        )
    }

    fn new() -> (r: Self)
        ensures
            r.read_head == 0 && r.write_head == 0 && r.count == 0,
    {
        Self { read_head: 0, write_head: 0, count: 0 }
    }

    fn try_enqueue<T>(&mut self, buf: &mut Vec<Option<T>>, value: T) -> (r: Result<(), RingQueueFullError<T>>)
        requires
            old(self).wf(old(buf)@),
        ensures
            final(self).wf(final(buf)@),
            final(buf)@.len() == old(buf)@.len(),
            old(self).count < old(buf)@.len() ==> r is Ok
                && final(self).view(final(buf)@) == old(self).view(old(buf)@).push(value),
            old(self).count >= old(buf)@.len() ==> r == Err::<(), RingQueueFullError<T>>(RingQueueFullError(value))
                && final(self).view(final(buf)@) == old(self).view(old(buf)@)
                && *final(self) == *old(self) && final(buf)@ == old(buf)@,
    {
        if self.count < buf.len() {
            let ghost old_buf = buf@;
            let ghost len = buf@.len() as int;
            let ghost rh = self.read_head as int;
            let ghost c = self.count as int;
            let wh = self.write_head;
            assert(!ring_holds(rh, c, len, wh as int));
            buf.set(wh, Some(value));
            self.write_head = self.write_head + 1;
            if self.write_head >= buf.len() {
                self.write_head = 0;
            }
            self.count = self.count + 1;
            proof {
                assert forall|i: int| 0 <= i < len implies
                    (#[trigger] buf@[i] is Some <==> ring_holds(rh, c + 1, len, i)) by {
                    if i != wh {
                        assert(buf@[i] == old_buf[i]);
                    }
                }
                let nv = self.view(buf@);
                let ov = Self::view(&RingQueueData { read_head: rh as usize, write_head: wh, count: c as usize }, old_buf);
                assert forall|d: int| 0 <= d < c implies #[trigger] nv[d] == ov[d] by {
                    assert(wrap(rh + d, len) != wh as int);
                }
                assert(nv[c] == value);
                assert(nv =~= ov.push(value));
            }
            Ok(())
        } else {
            Err(RingQueueFullError(value))
        }
    }

    fn enqueue_replace<T>(&mut self, buf: &mut Vec<Option<T>>, value: T) -> (r: Option<T>)
        requires
            old(self).wf(old(buf)@),
            old(buf)@.len() > 0,
        ensures
            final(self).wf(final(buf)@),
            final(buf)@.len() == old(buf)@.len(),
            old(self).count < old(buf)@.len() ==> r is None
                && final(self).view(final(buf)@) == old(self).view(old(buf)@).push(value),
            old(self).count >= old(buf)@.len() ==> r == Some(old(self).view(old(buf)@)[0])
                && final(self).view(final(buf)@) == old(self).view(old(buf)@).drop_first().push(value),
    {
        if self.count < buf.len() {
            let _ = self.try_enqueue(buf, value);
            None
        } else {
            let oldest = self.dequeue(buf);
            let _ = self.try_enqueue(buf, value);
            oldest
        }
    }

    fn dequeue<T>(&mut self, buf: &mut Vec<Option<T>>) -> (r: Option<T>)
        requires
            old(self).wf(old(buf)@),
        ensures
            final(self).wf(final(buf)@),
            final(buf)@.len() == old(buf)@.len(),
            old(self).count == 0 ==> r is None && *final(self) == *old(self) && final(buf)@ == old(buf)@,
            old(self).count > 0 ==> r == Some(old(self).view(old(buf)@)[0])
                && final(self).view(final(buf)@) == old(self).view(old(buf)@).drop_first(),
    {
        if self.count > 0 {
            let ghost old_buf = buf@;
            let ghost len = buf@.len() as int;
            let ghost rh = self.read_head as int;
            let ghost c = self.count as int;
            let ghost ov = self.view(buf@);
            let rhx = self.read_head;
            assert(ring_holds(rh, c, len, rh));
            assert(buf@[rh] is Some);
            let value = buf[rhx].take();
            self.inc_read_head(buf);
            self.count = self.count - 1;
            proof {
                let nrh = self.read_head as int;
                assert(nrh == wrap(rh + 1, len));
                assert forall|i: int| 0 <= i < len implies
                    (#[trigger] buf@[i] is Some <==> ring_holds(nrh, c - 1, len, i)) by {
                    if i != rh {
                        assert(buf@[i] == old_buf[i]);
                    }
                }
                let nv = self.view(buf@);
                assert forall|d: int| 0 <= d < c - 1 implies #[trigger] nv[d] == ov[d + 1] by {
                    assert(wrap(nrh + d, len) == wrap(rh + d + 1, len));
                    assert(wrap(rh + d + 1, len) != rh);
                }
                assert(nv =~= ov.drop_first());
            }
            value
        } else {
            None
        }
    }

    fn inc_write_head<T>(&mut self, buf: &Vec<Option<T>>)
        requires
            old(self).write_head < buf@.len() <= usize::MAX,
        ensures
            final(self).write_head == wrap(old(self).write_head + 1, buf@.len() as int),
            final(self).read_head == old(self).read_head,
            final(self).count == old(self).count,
    {
        self.write_head = self.write_head + 1;
        if self.write_head >= buf.len() {
            self.write_head = 0;
        }
    }

    fn inc_read_head<T>(&mut self, buf: &Vec<Option<T>>)
        requires
            old(self).read_head < buf@.len() <= usize::MAX,
        ensures
            final(self).read_head == wrap(old(self).read_head + 1, buf@.len() as int),
            final(self).write_head == old(self).write_head,
            final(self).count == old(self).count,
    {
        self.read_head = self.read_head + 1;
        if self.read_head >= buf.len() {
            self.read_head = 0;
        }
    }
}

/// A buffer of `len` empty slots.
fn empty_slots<T>(len: usize) -> (r: Vec<Option<T>>)
    ensures
        r@.len() == len,
        forall|i: int| 0 <= i < len ==> #[trigger] r@[i] is None,
{
    let mut v: Vec<Option<T>> = Vec::new();
    for i in 0..len
        invariant
            v@.len() == i,
            forall|j: int| 0 <= j < i ==> #[trigger] v@[j] is None,
    {
        v.push(None);
    }
    v
}

/// A ring queue whose buffer is allocated on the heap, with a capacity chosen
/// when it is made.
pub struct HeapRingQueue<T> {
    buf: Vec<Option<T>>,
    data: RingQueueData,
}

impl<T> HeapRingQueue<T> {
    /// The queue's bookkeeping is consistent.
    pub closed spec fn wf(&self) -> bool {
        self.data.wf(self.buf@)
    }

    /// The values in the queue, oldest first.
    pub closed spec fn view_queue(&self) -> Seq<T> {
        self.data.view(self.buf@)
    }

    /// The number of values the queue can hold.
    pub closed spec fn capacity(&self) -> nat {
        self.buf@.len()
    }

    /// An empty queue that can hold `len` values.
    pub fn new(len: usize) -> (r: Self)
        ensures
            r.wf(),
            r.view_queue() == Seq::<T>::empty(),
            r.capacity() == len,
    {
        let r = Self { buf: empty_slots(len), data: RingQueueData::new() };
        proof {
            assert(r.data.view(r.buf@) =~= Seq::<T>::empty());
        }
        r
    }

    /// Appends `value`, unless the queue is full; a full queue hands the value back.
    pub fn try_enqueue(&mut self, value: T) -> (r: Result<(), RingQueueFullError<T>>)
        requires
            old(self).wf(),
        ensures
            final(self).wf(),
            final(self).capacity() == old(self).capacity(),
            old(self).view_queue().len() < old(self).capacity() ==> r is Ok
                && final(self).view_queue() == old(self).view_queue().push(value),
            old(self).view_queue().len() >= old(self).capacity() ==>
                r == Err::<(), RingQueueFullError<T>>(RingQueueFullError(value))
                && final(self).view_queue() == old(self).view_queue(),
    {
        self.data.try_enqueue(&mut self.buf, value)
    }

    /// Appends `value`; a full queue first gives up its oldest value, which
    /// is returned.
    fn enqueue_replace(&mut self, value: T) -> (r: Option<T>)
        requires
            old(self).wf(),
            old(self).capacity() > 0,
        ensures
            final(self).wf(),
            final(self).capacity() == old(self).capacity(),
            old(self).view_queue().len() < old(self).capacity() ==> r is None
                && final(self).view_queue() == old(self).view_queue().push(value),
            old(self).view_queue().len() >= old(self).capacity() ==> r == Some(old(self).view_queue()[0])
                && final(self).view_queue() == old(self).view_queue().drop_first().push(value),
    {
        self.data.enqueue_replace(&mut self.buf, value)
    }

    /// Removes and returns the oldest value, if any.
    pub fn dequeue(&mut self) -> (r: Option<T>)
        requires
            old(self).wf(),
        ensures
            final(self).wf(),
            final(self).capacity() == old(self).capacity(),
            old(self).view_queue().len() == 0 ==> r is None && final(self).view_queue() == old(self).view_queue(),
            old(self).view_queue().len() > 0 ==> r == Some(old(self).view_queue()[0])
                && final(self).view_queue() == old(self).view_queue().drop_first(),
    {
        self.data.dequeue(&mut self.buf)
    }
}

impl<T> Queue<T> for HeapRingQueue<T> {
    type Error = RingQueueFullError<T>;

    open spec fn spec_queue(&self) -> Seq<T> {
        self.view_queue()
    }

    open spec fn spec_capacity(&self) -> nat {
        self.capacity()
    }

    open spec fn queue_wf(&self) -> bool {
        self.wf()
    }

    fn try_enqueue(&mut self, value: T) -> (r: Result<(), Self::Error>) {
        HeapRingQueue::try_enqueue(self, value)
    }

    fn enqueue_replace(&mut self, value: T) -> (r: Option<T>) {
        HeapRingQueue::enqueue_replace(self, value)
    }

    fn dequeue(&mut self) -> (r: Option<T>) {
        HeapRingQueue::dequeue(self)
    }
}

/// A ring queue of capacity `N`.
pub struct ArrayRingQueue<T, const N: usize> {
    buf: Vec<Option<T>>,
    data: RingQueueData,
}

impl<T, const N: usize> ArrayRingQueue<T, N> {
    /// The queue's bookkeeping is consistent, and its capacity is `N`.
    pub closed spec fn wf(&self) -> bool {
        self.data.wf(self.buf@) && self.buf@.len() == N
    }

    /// The values in the queue, oldest first.
    pub closed spec fn view_queue(&self) -> Seq<T> {
        self.data.view(self.buf@)
    }

    /// An empty queue.
    pub fn new() -> (r: Self)
        ensures
            r.wf(),
            r.view_queue() == Seq::<T>::empty(),
    {
        let r = Self { buf: empty_slots(N), data: RingQueueData::new() };
        proof {
            assert(r.data.view(r.buf@) =~= Seq::<T>::empty());
        }
        r
    }

    /// Appends `value`, unless the queue holds `N` values; a full queue hands the value back.
    pub fn try_enqueue(&mut self, value: T) -> (r: Result<(), RingQueueFullError<T>>)
        requires
            old(self).wf(),
        ensures
            final(self).wf(),
            old(self).view_queue().len() < N ==> r is Ok
                && final(self).view_queue() == old(self).view_queue().push(value),
            old(self).view_queue().len() >= N ==>
                r == Err::<(), RingQueueFullError<T>>(RingQueueFullError(value))
                && final(self).view_queue() == old(self).view_queue(),
    {
        self.data.try_enqueue(&mut self.buf, value)
    }

    /// Appends `value`; a full queue first gives up its oldest value, which
    /// is returned.
    fn enqueue_replace(&mut self, value: T) -> (r: Option<T>)
        requires
            old(self).wf(),
            N > 0,
        ensures
            final(self).wf(),
            old(self).view_queue().len() < N ==> r is None
                && final(self).view_queue() == old(self).view_queue().push(value),
            old(self).view_queue().len() >= N ==> r == Some(old(self).view_queue()[0])
                && final(self).view_queue() == old(self).view_queue().drop_first().push(value),
    {
        self.data.enqueue_replace(&mut self.buf, value)
    }

    /// Removes and returns the oldest value, if any.
    pub fn dequeue(&mut self) -> (r: Option<T>)
        requires
            old(self).wf(),
        ensures
            final(self).wf(),
            old(self).view_queue().len() == 0 ==> r is None && final(self).view_queue() == old(self).view_queue(),
            old(self).view_queue().len() > 0 ==> r == Some(old(self).view_queue()[0])
                && final(self).view_queue() == old(self).view_queue().drop_first(),
    {
        self.data.dequeue(&mut self.buf)
    }
}

impl<T, const N: usize> Queue<T> for ArrayRingQueue<T, N> {
    type Error = RingQueueFullError<T>;

    open spec fn spec_queue(&self) -> Seq<T> {
        self.view_queue()
    }

    open spec fn spec_capacity(&self) -> nat {
        N as nat
    }

    open spec fn queue_wf(&self) -> bool {
        self.wf()
    }

    fn try_enqueue(&mut self, value: T) -> (r: Result<(), Self::Error>) {
        ArrayRingQueue::try_enqueue(self, value)
    }

    fn enqueue_replace(&mut self, value: T) -> (r: Option<T>) {
        ArrayRingQueue::enqueue_replace(self, value)
    }

    fn dequeue(&mut self) -> (r: Option<T>) {
        ArrayRingQueue::dequeue(self)
    }
}

/// Values come out of a queue in the order they went in: on a queue that
/// holds values, enqueueing and then dequeueing is dequeueing and then
/// enqueueing, with the oldest value coming out; a value enqueued into an
/// empty queue is the next one out, leaving the queue empty.
pub proof fn lemma_fifo<T>(q: Seq<T>, v: T)
    ensures
        q.len() > 0 ==> q.push(v)[0] == q[0] && q.push(v).drop_first() == q.drop_first().push(v),
        q.len() == 0 ==> q.push(v)[0] == v && q.push(v).drop_first() == Seq::<T>::empty(),
{
    if q.len() > 0 {
        assert(q.push(v).drop_first() =~= q.drop_first().push(v));
    } else {
        assert(q.push(v).drop_first() =~= Seq::<T>::empty());
    }
}

} // verus!
