use kode_bridge::buffer_pool::{BufferPool, GlobalBufferPools, PoolClass};

#[test]
fn test_buffer_pool_basic() {
    let mut pool = BufferPool::new(1024, 4);

    {
        let mut buf1 = pool.get();
        buf1.extend_from_slice(b"hello");
        assert_eq!(buf1.len(), 5);
        assert!(buf1.capacity() >= 1024);
        pool.recycle(buf1);
    }

    // The buffer went back to the pool.
    assert_eq!(pool.size(), 1);

    let mut buf2 = pool.get();
    assert_eq!(buf2.len(), 0); // cleared
    buf2.extend_from_slice(b"world");
    assert_eq!(buf2.as_slice(), b"world");
}

#[test]
fn test_buffer_pool_max_size() {
    let mut pool = BufferPool::new(1024, 2);

    let buf1 = pool.get();
    let buf2 = pool.get();
    let buf3 = pool.get();

    // When all buffers come back, only 2 are retained.
    pool.recycle(buf1);
    pool.recycle(buf2);
    pool.recycle(buf3);

    assert_eq!(pool.size(), 2);
}

#[test]
fn test_global_pools() {
    let mut pools = GlobalBufferPools::new();

    let mut small_buf = pools.get_small();
    small_buf.extend_from_slice(b"small");

    let mut medium_buf = pools.get_medium();
    medium_buf.extend_from_slice(b"medium data");

    let mut large_buf = pools.get_large();
    large_buf.extend_from_slice(b"large data payload");

    assert_eq!(small_buf.as_slice(), b"small");
    assert_eq!(medium_buf.as_slice(), b"medium data");
    assert_eq!(large_buf.as_slice(), b"large data payload");

    assert!(small_buf.capacity() >= 1024);
    assert!(medium_buf.capacity() >= 8192);
    assert!(large_buf.capacity() >= 65536);
}

#[test]
fn test_buffer_selection() {
    let mut pools = GlobalBufferPools::new();

    let buf1 = pools.get_buffer(512); // small
    let buf2 = pools.get_buffer(4096); // medium
    let buf3 = pools.get_buffer(32768); // large

    assert!(buf1.capacity() >= 1024);
    assert!(buf2.capacity() >= 8192);
    assert!(buf3.capacity() >= 65536);
}

#[test]
fn pool_classes_follow_size_limits() {
    assert_eq!(GlobalBufferPools::class_for_size(0), PoolClass::Small);
    assert_eq!(GlobalBufferPools::class_for_size(2048), PoolClass::Small);
    assert_eq!(GlobalBufferPools::class_for_size(2049), PoolClass::Medium);
    assert_eq!(GlobalBufferPools::class_for_size(16384), PoolClass::Medium);
    assert_eq!(GlobalBufferPools::class_for_size(16385), PoolClass::Large);
    assert_eq!(GlobalBufferPools::class_for_size(131072), PoolClass::Large);
    assert_eq!(GlobalBufferPools::class_for_size(131073), PoolClass::ExtraLarge);
}

#[test]
fn warm_up_fills_to_the_pool_limit() {
    let mut pool = BufferPool::new(1024, 3);
    let created = pool.warm_up(5);
    assert_eq!(created, 3);
    assert_eq!(pool.size(), 3);
    let again = pool.warm_up(2);
    assert_eq!(again, 0);
    assert_eq!(pool.size(), 3);
}

#[test]
fn get_takes_an_idle_buffer_first() {
    let mut pool = BufferPool::new(1024, 4);
    pool.warm_up(2);
    let b = pool.get();
    assert_eq!(pool.size(), 1);
    assert!(b.is_empty());
    assert!(pool.recycle(b));
    assert_eq!(pool.size(), 2);
}

#[test]
fn small_buffers_are_not_retained() {
    let mut pool = BufferPool::new(16, 4);
    let b = pool.get();
    // A buffer below the retained minimum capacity is dropped.
    if b.capacity() < 1024 {
        assert!(!pool.recycle(b));
        assert_eq!(pool.size(), 0);
    }
}

#[test]
fn global_stats_count_idle_buffers() {
    let mut pools = GlobalBufferPools::new();
    pools.warm_up();
    let stats = pools.stats();
    assert_eq!(stats.small_pool_size, 16);
    assert_eq!(stats.medium_pool_size, 32);
    assert_eq!(stats.large_pool_size, 8);
    assert_eq!(stats.extra_large_pool_size, 4);
    let buf = pools.get_small();
    assert_eq!(pools.stats().small_pool_size, 15);
    pools.recycle(PoolClass::Small, buf);
    assert_eq!(pools.stats().small_pool_size, 16);
}

#[test]
fn pooled_buffer_edits() {
    let mut pool = BufferPool::default_pool();
    let mut b = pool.get();
    b.push(1);
    b.extend_from_slice(&[2, 3]);
    assert_eq!(b.as_vec(), &vec![1u8, 2, 3]);
    b.as_mut_vec().push(4);
    assert_eq!(b.len(), 4);
    b.clear();
    assert!(b.is_empty());
    b.reserve(10);
    assert!(b.capacity() >= 10);
}

#[test]
fn extra_large_buffers() {
    let mut pools = GlobalBufferPools::new();
    let b = pools.get_extra_large();
    assert!(b.capacity() >= 1048576);
    assert_eq!(GlobalBufferPools::class_for_size(2_000_000), PoolClass::ExtraLarge);
    let b2 = pools.get_buffer(2_000_000);
    assert!(b2.capacity() >= 1048576);
    assert!(pools.recycle(PoolClass::ExtraLarge, b));
    assert_eq!(pools.stats().extra_large_pool_size, 1);
}

#[test]
fn recycle_keeps_exactly_large_buffers_with_room() {
    let mut pool = BufferPool::new(16, 1);
    let a = pool.get();
    assert!(!pool.recycle_with_capacity(a, 1023));
    assert_eq!(pool.size(), 0);
    let b = pool.get();
    assert!(pool.recycle_with_capacity(b, 1024));
    assert_eq!(pool.size(), 1);
    let c = BufferPool::new(16, 1).get();
    assert!(!pool.recycle_with_capacity(c, 4096));
    assert_eq!(pool.size(), 1);
}

#[test]
fn global_pools_touch_only_the_chosen_pool() {
    let mut pools = GlobalBufferPools::new();
    pools.warm_up();
    let _b = pools.get_buffer(20_000);
    let s = pools.stats();
    assert_eq!(
        (s.small_pool_size, s.medium_pool_size, s.large_pool_size, s.extra_large_pool_size),
        (16, 32, 7, 4)
    );
    let _m = pools.get_medium();
    let s = pools.stats();
    assert_eq!((s.small_pool_size, s.medium_pool_size, s.large_pool_size), (16, 31, 7));
}
