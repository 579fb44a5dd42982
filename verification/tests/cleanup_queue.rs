use favilla::cleanup_queue::{CleanupQueue, ResourceHandle};
use favilla::handles::{BufferHandle, MemoryHandle};

#[test]
fn delay_is_one_full_rotation() {
    let mut queue = CleanupQueue::new(2);
    let buffer = BufferHandle { raw: 11 };

    // queued while slot 0 is current
    queue.queue_buffer(buffer);

    // the next tick services slot 0 and must not destroy the resource
    let (buffers, memory) = queue.tick();
    assert!(buffers.is_empty());
    assert!(memory.is_empty());

    // the tick after that, slot 0 current again, drains it
    let (buffers, memory) = queue.tick();
    assert_eq!(buffers, vec![buffer]);
    assert!(memory.is_empty());

    // and it is gone afterwards
    let (buffers, _) = queue.tick();
    assert!(buffers.is_empty());
}

#[test]
fn memory_is_delayed_like_buffers() {
    let mut queue = CleanupQueue::new(3);
    let memory = MemoryHandle { raw: 21 };
    queue.queue_memory(memory);

    let (_, drained) = queue.tick();
    assert!(drained.is_empty());
    let (_, drained) = queue.tick();
    assert!(drained.is_empty());
    let (_, drained) = queue.tick();
    assert_eq!(drained, vec![memory]);
}

#[test]
fn queue_dispatches_on_resource_kind() {
    let mut queue = CleanupQueue::new(1);
    let buffer = BufferHandle { raw: 1 };
    let memory = MemoryHandle { raw: 2 };
    queue.queue(ResourceHandle::Buffer(buffer));
    queue.queue(ResourceHandle::Memory(memory));

    // with a single slot, the next tick drains everything
    let (buffers, memories) = queue.tick();
    assert_eq!(buffers, vec![buffer]);
    assert_eq!(memories, vec![memory]);
}

#[test]
fn destroy_drains_every_bucket_in_slot_order() {
    let mut queue = CleanupQueue::new(2);
    let first = BufferHandle { raw: 1 };
    let second = BufferHandle { raw: 2 };
    let memory = MemoryHandle { raw: 3 };

    queue.queue_buffer(first); // goes to slot 1 (one behind current slot 0)
    queue.tick(); // current becomes 1
    queue.queue_buffer(second); // goes to slot 0
    queue.queue_memory(memory); // goes to slot 0

    let (buffers, memories) = queue.destroy();
    assert_eq!(buffers, vec![second, first]);
    assert_eq!(memories, vec![memory]);

    // everything is gone afterwards
    let (buffers, memories) = queue.destroy();
    assert!(buffers.is_empty());
    assert!(memories.is_empty());
}

#[test]
fn tick_preserves_resources_of_other_slots() {
    let mut queue = CleanupQueue::new(4);
    let buffer = BufferHandle { raw: 9 };
    queue.queue_buffer(buffer);
    for _ in 0..3 {
        let (buffers, _) = queue.tick();
        assert!(buffers.is_empty());
    }
    let (buffers, _) = queue.tick();
    assert_eq!(buffers, vec![buffer]);
}
