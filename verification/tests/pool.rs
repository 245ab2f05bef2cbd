use rusty_pi::tstack::{stack_top, PoolError, StackPool, MAX_THREADS, STACK_BASE, STACK_SIZE};

#[test]
fn test_alloc_lowest_first() {
    let mut pool = StackPool::new(MAX_THREADS);
    assert_eq!(pool.stack_alloc(), Some(0));
    assert_eq!(pool.stack_alloc(), Some(1));
    assert_eq!(pool.stack_alloc(), Some(2));
}

#[test]
fn test_alloc_exhaustion_returns_none() {
    let mut pool = StackPool::new(MAX_THREADS);
    for i in 0..MAX_THREADS {
        assert_eq!(pool.stack_alloc(), Some(i));
    }
    assert_eq!(pool.stack_alloc(), None);
    assert_eq!(pool.stack_alloc(), None);
}

#[test]
fn test_in_use_never_exceeds_capacity() {
    let mut pool = StackPool::new(4);
    let mut live: usize = 0;
    // a mixed run of allocations and releases
    for round in 0..3 {
        for _ in 0..6 {
            if pool.stack_alloc().is_some() {
                live += 1;
            }
            let used = pool.free.iter().filter(|f| !**f).count();
            assert_eq!(used, live);
            assert!(used <= 4);
        }
        for i in 0..(2 + round) {
            if pool.stack_free(i).is_ok() {
                live -= 1;
            }
        }
    }
}

#[test]
fn test_double_free_rejected() {
    let mut pool = StackPool::new(MAX_THREADS);
    assert_eq!(pool.stack_alloc(), Some(0));
    assert_eq!(pool.stack_free(0), Ok(()));
    assert_eq!(pool.stack_free(0), Err(PoolError::DoubleFree));
    assert_eq!(pool.stack_free(1), Err(PoolError::DoubleFree));
}

#[test]
fn test_free_out_of_range_rejected() {
    let mut pool = StackPool::new(MAX_THREADS);
    assert_eq!(pool.stack_free(MAX_THREADS), Err(PoolError::InvalidIndex));
    assert_eq!(pool.stack_free(1000), Err(PoolError::InvalidIndex));
}

#[test]
fn test_released_slot_is_reused_lowest() {
    let mut pool = StackPool::new(MAX_THREADS);
    assert_eq!(pool.stack_alloc(), Some(0));
    assert_eq!(pool.stack_alloc(), Some(1));
    assert_eq!(pool.stack_alloc(), Some(2));
    assert_eq!(pool.stack_free(1), Ok(()));
    assert_eq!(pool.stack_alloc(), Some(1));
}

#[test]
fn test_stack_top_layout() {
    assert_eq!(stack_top(0), STACK_BASE + STACK_SIZE as u32);
    assert_eq!(stack_top(7), STACK_BASE + 8 * STACK_SIZE as u32);
}
