use minlock::dims::{updated_dimensions, Dimensions};
use minlock::pool::{BufferSlotPool, PoolError};

#[test]
fn dimensions_stride_and_len() {
    let d = Dimensions { width: 3, height: 2 };
    assert_eq!(d.stride(), 12);
    assert_eq!(d.len(), 24);
    assert_eq!(d.checked_len(), Some(24));
}

#[test]
fn checked_len_detects_stride_overflow() {
    // 4 * 0x4000_0000 == 2^32, one past u32::MAX.
    let d = Dimensions { width: 0x4000_0000, height: 1 };
    assert_eq!(d.checked_len(), None);
}

#[test]
fn checked_len_handles_large_frames() {
    // The largest frame whose stride still fits: its byte length is
    // computed exactly (and happens to fit a 64-bit address space).
    let d = Dimensions { width: u32::MAX / 4, height: u32::MAX };
    assert_eq!(d.checked_len(), Some(0xFFFF_FFFCusize * 0xFFFF_FFFFusize));
}

#[test]
fn updated_dimensions_gates_configure() {
    let cur = Dimensions { width: 800, height: 600 };
    // (0, 0) means "not yet ready".
    assert_eq!(updated_dimensions(&cur, 0, 0), None);
    assert_eq!(updated_dimensions(&cur, 0, 600), None);
    // A size equal to the current one in either direction is ignored.
    assert_eq!(updated_dimensions(&cur, 800, 600), None);
    assert_eq!(updated_dimensions(&cur, 800, 700), None);
    assert_eq!(
        updated_dimensions(&cur, 1024, 768),
        Some(Dimensions { width: 1024, height: 768 })
    );
}

#[test]
fn acquire_zeroes_and_shapes_slot() {
    let mut pool = BufferSlotPool::create(64);
    let i = pool.get_next_buffer(2, 2).unwrap();
    assert_eq!(i, 0);
    let s = pool.slot(i);
    assert_eq!(s.width(), 2);
    assert_eq!(s.height(), 2);
    assert_eq!(s.stride(), 8);
    assert_eq!(s.offset(), 0);
    assert_eq!(s.byte_len(), 16);
    assert!(!s.is_busy());
    assert!(s.is_bound());
    for off in 0..16 {
        assert_eq!(pool.read_byte(i, off), 0);
    }
}

#[test]
fn reuse_returns_same_offset_and_zero_filled() {
    let mut pool = BufferSlotPool::create(64);
    let i = pool.get_next_buffer(2, 2).unwrap();
    let offset = pool.slot(i).offset();
    // The renderer scribbles over the buffer, it is presented, released.
    for off in 0..16 {
        pool.write_byte(i, off, 0xAB);
    }
    pool.attach_to_surface(i);
    assert!(pool.slot(i).is_busy());
    pool.release(i);
    assert!(!pool.slot(i).is_busy());
    // Re-acquiring the same shape yields the same slot, zero-filled again.
    let j = pool.get_next_buffer(2, 2).unwrap();
    assert_eq!(j, i);
    assert_eq!(pool.slot(j).offset(), offset);
    for off in 0..16 {
        assert_eq!(pool.read_byte(j, off), 0);
    }
    // Nothing new was allocated.
    assert_eq!(pool.slot_count(), 1);
    assert_eq!(pool.len(), 16);
}

#[test]
fn reshape_keeps_memory_updates_dimensions() {
    let mut pool = BufferSlotPool::create(16);
    let i = pool.get_next_buffer(4, 1).unwrap();
    let offset = pool.slot(i).offset();
    pool.attach_to_surface(i);
    pool.release(i);
    // Same byte length (16), different shape: the slot is reshaped in place.
    let j = pool.get_next_buffer(1, 4).unwrap();
    assert_eq!(j, i);
    assert_eq!(pool.slot(j).offset(), offset);
    assert_eq!(pool.slot(j).byte_len(), 16);
    assert_eq!(pool.slot(j).width(), 1);
    assert_eq!(pool.slot(j).height(), 4);
    assert_eq!(pool.slot_count(), 1);
}

#[test]
fn dims_match_wins_over_len_match() {
    let mut pool = BufferSlotPool::create(64);
    let a = pool.get_next_buffer(4, 1).unwrap();
    pool.attach_to_surface(a);
    let b = pool.get_next_buffer(2, 2).unwrap();
    assert_ne!(a, b);
    pool.attach_to_surface(b);
    pool.release(a);
    pool.release(b);
    // Both slots are free and 16 bytes long; the one whose shape already
    // matches is reused, even though the other comes first.
    let c = pool.get_next_buffer(2, 2).unwrap();
    assert_eq!(c, b);
    assert_eq!(pool.slot(a).width(), 4);
}

#[test]
fn growth_at_least_doubles_and_keeps_offsets() {
    let mut pool = BufferSlotPool::create(16);
    let a = pool.get_next_buffer(2, 2).unwrap();
    pool.attach_to_surface(a);
    assert_eq!(pool.capacity(), 16);
    // A second 16-byte slot no longer fits: capacity doubles.
    let b = pool.get_next_buffer(2, 2).unwrap();
    assert_eq!(pool.slot(b).offset(), 16);
    assert_eq!(pool.capacity(), 32);
    assert_eq!(pool.slot(a).offset(), 0);
    pool.attach_to_surface(b);
    // A slot larger than twice the capacity grows to exactly what is needed.
    let c = pool.get_next_buffer(8, 4).unwrap();
    assert_eq!(pool.slot(c).offset(), 32);
    assert_eq!(pool.capacity(), 32 + 128);
    assert_eq!(pool.slot(a).offset(), 0);
    assert_eq!(pool.slot(b).offset(), 16);
    assert_eq!(pool.len(), 32 + 128);
}

#[test]
fn busy_slots_are_never_handed_out() {
    let mut pool = BufferSlotPool::create(64);
    let a = pool.get_next_buffer(2, 2).unwrap();
    pool.attach_to_surface(a);
    let b = pool.get_next_buffer(2, 2).unwrap();
    assert_ne!(a, b);
}

#[test]
fn release_of_free_slot_is_noop() {
    let mut pool = BufferSlotPool::create(64);
    let a = pool.get_next_buffer(2, 2).unwrap();
    assert!(!pool.slot(a).is_busy());
    pool.release(a);
    assert!(!pool.slot(a).is_busy());
    assert_eq!(pool.slot_count(), 1);
}

#[test]
fn slot_ranges_stay_disjoint() {
    let mut pool = BufferSlotPool::create(8);
    let mut held = Vec::new();
    for k in 0..4u32 {
        let i = pool.get_next_buffer(k + 1, 2).unwrap();
        pool.attach_to_surface(i);
        held.push(i);
    }
    pool.release(held[1]);
    let r = pool.get_next_buffer(2, 1).unwrap();
    pool.attach_to_surface(r);
    held.push(r);
    let ranges: Vec<(usize, usize)> = held
        .iter()
        .map(|&i| (pool.slot(i).offset(), pool.slot(i).byte_len()))
        .collect();
    for x in 0..ranges.len() {
        for y in 0..ranges.len() {
            if held[x] != held[y] {
                let (ox, lx) = ranges[x];
                let (oy, ly) = ranges[y];
                assert!(ox + lx <= oy || oy + ly <= ox);
            }
        }
    }
}

#[test]
fn overflowing_request_is_fatal_error() {
    let mut pool = BufferSlotPool::create(16);
    assert_eq!(
        pool.get_next_buffer(u32::MAX, u32::MAX),
        Err(PoolError::SizeOverflow)
    );
    assert_eq!(pool.get_next_buffer(0x4000_0000, 1), Err(PoolError::SizeOverflow));
    // The failed acquisition left the pool untouched.
    assert_eq!(pool.slot_count(), 0);
    assert_eq!(pool.len(), 0);
    assert_eq!(pool.capacity(), 16);
}

#[test]
fn write_byte_then_read_byte() {
    let mut pool = BufferSlotPool::create(64);
    let a = pool.get_next_buffer(2, 2).unwrap();
    pool.write_byte(a, 5, 0x7F);
    assert_eq!(pool.read_byte(a, 5), 0x7F);
    assert_eq!(pool.read_byte(a, 4), 0);
    assert_eq!(pool.read_byte(a, 6), 0);
}
