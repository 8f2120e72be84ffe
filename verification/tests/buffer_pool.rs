use rusticore::BufferPool;

#[test]
/// Tests the functionality of the `BufferPool`.
/// This test checks if a buffer can be acquired from the pool, released back,
/// and verifies that the pool's size is maintained correctly.
fn test_buffer_pool() {
    let mut pool = BufferPool::new(5);

    // Acquire a buffer
    let buffer = pool.acquire();
    assert!(buffer.is_some(), "Buffer should be acquired successfully");
    assert!(
        pool.current_size() < pool.max_size(),
        "Current size should be less than max size"
    );

    // Release the buffer
    if let Some(buf) = buffer {
        pool.release(buf);
    }

    // Check if the pool size is valid after release
    assert_eq!(
        pool.current_size(),
        pool.max_size(),
        "Current size should equal max size after release"
    );
}

#[test]
/// After `capacity` sequential acquire/release cycles with no overlap, the
/// available count equals the capacity exactly.
fn pool_round_trip_cycles() {
    let mut pool = BufferPool::new(5);
    for _ in 0..5 {
        let buffer = pool.acquire().expect("pool should not be empty");
        pool.release(buffer);
    }
    assert_eq!(pool.current_size(), 5);
    assert_eq!(pool.fallback_count_value(), 0);
    assert_eq!(pool.discard_count_value(), 0);
}

#[test]
/// Releasing more buffers than were acquired discards the excess: the
/// available count never rises above the capacity, and each discarded
/// buffer is recorded.
fn pool_discard_beyond_capacity() {
    let mut pool = BufferPool::new(2);
    let a = pool.acquire().expect("first acquire");
    let b = pool.acquire().expect("second acquire");
    assert_eq!(pool.current_size(), 0);
    pool.release(a);
    pool.release(b);
    assert_eq!(pool.current_size(), 2);
    // a third release finds the pool full: the buffer is dropped
    pool.release(Vec::new());
    assert_eq!(pool.current_size(), 2);
    assert_eq!(pool.discard_count_value(), 1);
}

#[test]
/// An exhausted pool refuses an acquire rather than inventing capacity.
fn pool_refuses_when_empty() {
    let mut pool = BufferPool::new(1);
    let first = pool.acquire();
    assert!(first.is_some());
    let second = pool.acquire();
    assert!(second.is_none());
}

#[test]
/// An acquired buffer comes back cleared even if it went in full.
fn pool_clears_on_acquire() {
    let mut pool = BufferPool::new(1);
    let mut buf = pool.acquire().expect("acquire");
    buf.extend_from_slice(b"leftover bytes");
    pool.release(buf);
    let again = pool.acquire().expect("acquire again");
    assert!(again.is_empty());
}
