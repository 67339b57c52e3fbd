use chos_lib::queue::{ArrayRingQueue, HeapRingQueue, Queue, RingQueueFullError};

#[test]
fn heap_ring_queue_fifo() {
    let mut q = HeapRingQueue::new(2);
    assert_eq!(q.dequeue(), None);
    assert_eq!(q.try_enqueue(1), Ok(()));
    assert_eq!(q.try_enqueue(2), Ok(()));
    assert_eq!(q.try_enqueue(3), Err(RingQueueFullError(3)));
    assert_eq!(q.dequeue(), Some(1));
    assert_eq!(q.try_enqueue(4), Ok(()));
    assert_eq!(q.dequeue(), Some(2));
    assert_eq!(q.dequeue(), Some(4));
    assert_eq!(q.dequeue(), None);
}

#[test]
fn array_ring_queue_wraps() {
    let mut q: ArrayRingQueue<u32, 3> = ArrayRingQueue::new();
    for round in 0..5u32 {
        assert!(q.try_enqueue(round).is_ok());
        assert!(q.try_enqueue(round + 100).is_ok());
        assert_eq!(q.dequeue(), Some(round));
        assert_eq!(q.dequeue(), Some(round + 100));
    }
    assert_eq!(q.dequeue(), None);
}

#[test]
fn zero_capacity_queue() {
    let mut q = HeapRingQueue::new(0);
    assert_eq!(q.try_enqueue('a'), Err(RingQueueFullError('a')));
    assert_eq!(q.dequeue(), None);
}

#[test]
fn queue_trait_enqueue() {
    let mut q = HeapRingQueue::new(1);
    Queue::enqueue(&mut q, 9u8);
    assert_eq!(Queue::dequeue(&mut q), Some(9));
}

#[test]
fn enqueue_replace_gives_up_the_oldest_when_full() {
    let mut q = HeapRingQueue::new(2);
    assert_eq!(Queue::enqueue_replace(&mut q, 1), None);
    assert_eq!(Queue::enqueue_replace(&mut q, 2), None);
    assert_eq!(Queue::enqueue_replace(&mut q, 3), Some(1));
    assert_eq!(Queue::enqueue_replace(&mut q, 4), Some(2));
    assert_eq!(q.dequeue(), Some(3));
    assert_eq!(q.dequeue(), Some(4));
    assert_eq!(q.dequeue(), None);
    let mut a: ArrayRingQueue<u8, 1> = ArrayRingQueue::new();
    assert_eq!(Queue::enqueue_replace(&mut a, 7), None);
    assert_eq!(Queue::enqueue_replace(&mut a, 8), Some(7));
    assert_eq!(a.dequeue(), Some(8));
}
