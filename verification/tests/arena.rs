use demucs_core::gpu::arena::{Arena, Grant};
use demucs_core::gpu::tensor::{BufferId, DevTensor};
use demucs_core::error::{Detail, Error};

const LIMIT: u64 = 1 << 40;

/// A buffer of `elements` elements, made by a driver that never refuses.
fn tensor(arena: &mut Arena, elements: u64) -> (u64, u64) {
    match arena.allocate(elements * 4, LIMIT, "work").unwrap() {
        Grant::Reuse { id, size } => (id, size),
        Grant::Create { size } => (arena.created_buffer(size), size),
    }
}

fn upload(arena: &mut Arena, elements: u64) -> u64 {
    let (id, _) = tensor(arena, elements);
    arena.mark_host_written(id);
    id
}

fn detached() -> BufferId {
    BufferId { plan: 0, index: 0 }
}

#[test]
fn tensor_geometry_is_derived_from_the_last_dimension() {
    let tensor = DevTensor {
        buffer: detached(),
        offset: 0,
        shape: vec![4, 61, 60, 384],
    };
    assert_eq!(tensor.len(), 4 * 61 * 60 * 384);
    assert_eq!(tensor.rows(), 4);
    assert_eq!(tensor.cols(), 384);
}

#[test]
fn reshape_has_to_preserve_length() {
    let tensor = DevTensor {
        buffer: detached(),
        offset: 0,
        shape: vec![2, 6],
    };
    assert!(tensor.with_shape(vec![3, 4]).is_ok());
    assert!(tensor.with_shape(vec![5, 5]).is_err());
    assert_eq!(
        tensor.with_shape(vec![5, 5]).unwrap_err().message(),
        "reshape from [2, 6] to [5, 5] is not length preserving"
    );
}

#[test]
fn slices_stay_inside_the_parent() {
    let tensor = DevTensor {
        buffer: detached(),
        offset: 0,
        shape: vec![4, 8],
    };
    // 32 elements total: a 16-element window starting at 16 exactly fits.
    assert!(tensor.slice(0, vec![2, 8]).is_ok());
    assert!(tensor.slice(16, vec![2, 8]).is_ok());
    assert!(tensor.slice(17, vec![2, 8]).is_err());
    assert!(tensor.slice(0, vec![5, 8]).is_err());
}

#[test]
fn slices_are_byte_offset() {
    let tensor = DevTensor {
        buffer: detached(),
        offset: 1024,
        shape: vec![4, 8],
    };
    let sliced = tensor.slice(8, vec![8]).unwrap();
    assert_eq!(sliced.offset, 1024 + 32);
}

/// A binding offset has to be 32-byte aligned, and only aligned tensors can
/// ever be bound, so a slice that lands mid-alignment is rejected.
#[test]
fn a_slice_must_keep_the_binding_offset_aligned() {
    let tensor = DevTensor {
        buffer: detached(),
        offset: 1024,
        shape: vec![4, 8],
    };
    let err = tensor.slice(3, vec![8]).unwrap_err().message();
    assert!(err.contains("alignment"), "{err}");
    assert_eq!(
        err,
        "slice at element 3 of a tensor at byte 1024 lands on byte 1036, which is not a multiple \
         of the 32-byte binding offset alignment (shape [8] of parent [4, 8] with 32 elements)"
    );
}

#[test]
fn slices_of_slices_compose() {
    let tensor = DevTensor {
        buffer: detached(),
        offset: 64,
        shape: vec![8, 16],
    };
    let inner = tensor.slice(16, vec![64]).unwrap().slice(8, vec![8]).unwrap();
    let direct = tensor.slice(24, vec![8]).unwrap();
    assert_eq!(inner.offset, direct.offset);
    assert_eq!(inner.offset, 64 + 24 * 4);
}

/// When the last view of a tensor dies, the very next same-sized allocation is
/// served from the shelves instead of the driver.
#[test]
fn a_dropped_pooled_tensor_is_handed_out_again() {
    let mut arena = Arena::new(64 << 20);
    let (first, _) = tensor(&mut arena, 1 << 18);
    arena.release(first);
    assert_eq!(arena.pooled_bytes(), 1 << 20);
    assert_eq!(arena.allocations(), 0);
    let (second, _) = tensor(&mut arena, 1 << 18);
    assert_eq!(second, first);
    assert_eq!(arena.reused(), 1);
    assert_eq!(arena.created(), 1);
    assert_eq!(arena.allocations(), 1);
}

/// A slice outlives the tensor it came from and still keeps the buffer alive.
#[test]
fn a_live_view_keeps_the_buffer_out_of_the_pool() {
    let mut arena = Arena::new(64 << 20);
    let (parent, _) = tensor(&mut arena, 1 << 18);
    arena.share(parent);
    let half = parent;
    assert!(arena.release(parent).is_empty());
    let (other, _) = tensor(&mut arena, 1 << 18);
    assert_ne!(half, other);
    assert_eq!(arena.reused(), 0);
    assert_eq!(arena.allocations(), 2);
}

/// A buffer the host wrote into is never handed out again.
#[test]
fn a_host_written_tensor_is_never_recycled() {
    let mut arena = Arena::new(64 << 20);
    let first = upload(&mut arena, 1 << 18);
    assert_eq!(arena.release(first), vec![first]);
    let (second, _) = tensor(&mut arena, 1 << 18);
    assert_ne!(first, second);
    assert_eq!(arena.reused(), 0);
}

/// The shelf is a coarse filter, not a size guarantee: `1 MiB + 4` bytes and
/// `2 MiB` share one.
#[test]
fn a_pooled_buffer_that_is_too_small_is_not_handed_out() {
    let mut arena = Arena::new(64 << 20);
    let (small, size) = tensor(&mut arena, (1 << 20) + 1);
    assert!(size >= ((1 << 20) + 1) * 4);
    arena.release(small);
    let (_, size) = tensor(&mut arena, 2 << 20);
    assert_eq!(arena.reused(), 0, "the small buffer must not serve the big request");
    assert_eq!(arena.created(), 2);
    assert!(size >= (2 << 20) * 4);
}

#[test]
fn an_allocation_below_the_minimum_is_never_pooled() {
    let mut arena = Arena::new(64 << 20);
    let (first, _) = tensor(&mut arena, 4);
    assert_eq!(arena.release(first), vec![first]);
    let (second, _) = tensor(&mut arena, 4);
    assert_ne!(first, second);
    assert_eq!(arena.reused(), 0);
    assert_eq!(arena.created(), 2);
}

/// The cap bounds what idles, so drifting shapes cannot accumulate without limit.
#[test]
fn the_pool_does_not_retain_past_its_cap() {
    let mut arena = Arena::new(2 << 20);
    let (first, _) = tensor(&mut arena, 1 << 20);
    assert_eq!(arena.release(first), vec![first]);
    // 4 MiB would exceed the 2 MiB cap.
    assert_eq!(arena.pooled_bytes(), 0);
    tensor(&mut arena, 1 << 20);
    assert_eq!(arena.created(), 2);
    assert_eq!(arena.reused(), 0);
    assert_eq!(arena.allocations(), 1);
}

#[test]
fn the_live_set_falls_as_tensors_die() {
    let mut arena = Arena::new(64 << 20);
    let (a, _) = tensor(&mut arena, 1 << 18);
    let (b, _) = tensor(&mut arena, 1 << 18);
    assert_eq!(arena.bytes_resident(), 2 << 20);
    assert_eq!(arena.allocations(), 2);
    arena.release(a);
    arena.release(b);
    assert_eq!(arena.bytes_resident(), 0);
    assert_eq!(arena.allocations(), 0);
    assert_eq!(arena.peak(), 2 << 20);
}

#[test]
fn the_best_fit_within_four_times_serves() {
    let mut arena = Arena::new(1 << 30);
    let (large, _) = tensor(&mut arena, 5 << 18);
    let (near, near_size) = tensor(&mut arena, 3 << 18);
    let (far, _) = tensor(&mut arena, 9 << 18);
    for id in [large, near, far] {
        assert!(arena.release(id).is_empty());
    }
    assert_eq!(arena.idle_buffers(), 3);
    // Two MiB: three MiB fit best, nine are out of reach.
    assert_eq!(
        arena.allocate(2 << 20, LIMIT, "work").unwrap(),
        Grant::Reuse { id: near, size: near_size }
    );
    assert_eq!(arena.allocate(2 << 20, LIMIT, "work").unwrap(), Grant::Reuse { id: large, size: 5 << 20 });
    assert_eq!(arena.allocate(2 << 20, LIMIT, "work").unwrap(), Grant::Create { size: 2 << 20 });
}

#[test]
fn smaller_idle_buffers_make_room_for_larger_ones() {
    let mut arena = Arena::new(6 << 20);
    let (one, _) = tensor(&mut arena, 1 << 18);
    let (two, _) = tensor(&mut arena, 2 << 18);
    let (four, _) = tensor(&mut arena, 4 << 18);
    assert!(arena.release(one).is_empty());
    assert!(arena.release(two).is_empty());
    // Three MiB idle; four more do not fit until the smallest leaves.
    assert_eq!(arena.release(four), vec![one]);
    assert_eq!(arena.pooled_bytes(), 6 << 20);
    // One as large as those that idle makes nobody leave.
    let Grant::Create { size } = arena.allocate(5 << 20, LIMIT, "work").unwrap() else {
        panic!("nothing idle holds five MiB");
    };
    let five = arena.created_buffer(size);
    let Grant::Reuse { id, .. } = arena.allocate(4 << 20, LIMIT, "work").unwrap() else {
        panic!("four MiB idle");
    };
    assert_eq!(id, four);
    assert_eq!(arena.release(five), vec![two]);
    assert_eq!(arena.release(four), vec![four]);
}

#[test]
fn a_dedicated_buffer_is_never_a_recycled_one() {
    let mut arena = Arena::new(64 << 20);
    let (first, _) = tensor(&mut arena, 1 << 18);
    arena.release(first);
    assert_eq!(
        arena.alloc_dedicated(1 << 20, LIMIT, "work").unwrap(),
        Grant::Create { size: 1 << 20 }
    );
}

#[test]
fn a_buffer_past_the_limit_is_refused() {
    let mut arena = Arena::new(64 << 20);
    let error = arena.allocate(9 << 20, 8 << 20, "work").unwrap_err();
    assert_eq!(
        error,
        Error::GpuOf(Detail::BufferLimit { label: "work".into(), wanted: 9, limit: 8 })
    );
    assert_eq!(
        error.message(),
        "work needs 9 MiB, more than the 8 MiB a single buffer may hold"
    );
    assert_eq!(arena.alloc_dedicated(9 << 20, 8 << 20, "work").unwrap_err(), error);
    assert_eq!(arena.allocations(), 0);
}

#[test]
fn a_reset_starts_the_counters_again_and_keeps_what_idles() {
    let mut arena = Arena::new(64 << 20);
    let (first, _) = tensor(&mut arena, 1 << 18);
    arena.release(first);
    tensor(&mut arena, 1 << 18);
    tensor(&mut arena, 1 << 19);
    arena.reset();
    assert_eq!((arena.peak(), arena.created(), arena.created_bytes(), arena.reused()), (0, 0, 0, 0));
    assert_eq!(arena.allocations(), 2);
    assert!(arena.is_live(first));
    assert!(!arena.is_live(77));
}

#[test]
fn sizes_are_rounded_up() {
    let mut arena = Arena::new(0);
    assert_eq!(arena.allocate(0, LIMIT, "work").unwrap(), Grant::Create { size: 256 });
    assert_eq!(arena.allocate(257, LIMIT, "work").unwrap(), Grant::Create { size: 512 });
}

#[test]
fn a_cleared_buffer_is_never_recycled() {
    let mut arena = Arena::new(64 << 20);
    let (id, _) = tensor(&mut arena, 1 << 18);
    assert_eq!(arena.clear(id, 3), vec![0, 0, 0]);
    assert_eq!(arena.release(id), vec![id]);
    assert_eq!(arena.idle_buffers(), 0);
}
