use synaptix_kernels_cuda::error::KernelError;
use synaptix_kernels_cuda::launch::{launch1, span, KernelCache, Launch, Span};
use synaptix_kernels_cuda::{release_device_caches, DeviceCaches};
use synaptix_kernels_cuda::tma::{
    desc_bytes, make_tma_desc_2d_u8, make_tma_desc_2d_u8_swz, make_tma_desc_2d_u8_swz_l2,
    make_tma_desc_3d_u8, DescArena, L2Promotion, SlotAction, Swizzle, TmaMap2d, TmaMap3d, ARENA_SLOTS,
    TMA_DESC_BYTES,
};

#[test]
fn slots_are_exclusive_until_reclaimed() {
    let mut arena = DescArena::new(4096);
    assert_eq!(arena.take_slot(0), Ok(SlotAction::Take(0)));
    assert_eq!(arena.take_slot(0), Ok(SlotAction::Take(1)));
    arena.put_back(1);
    assert_eq!(arena.take_slot(0), Ok(SlotAction::Take(1)));
    arena.release(0);
    assert_eq!(arena.take_slot(0), Ok(SlotAction::Take(2)));
    arena.reclaim_pending();
    assert_eq!(arena.take_slot(0), Ok(SlotAction::Take(0)));
    assert_eq!(arena.slot_address(0), 4096);
    assert_eq!(arena.slot_address(3), 4096 + 384);
}

#[test]
fn exhausted_arena() {
    let mut arena = DescArena::new(0);
    let mut seen = vec![false; ARENA_SLOTS as usize];
    for _ in 0..ARENA_SLOTS {
        match arena.take_slot(0) {
            Ok(SlotAction::Take(s)) => {
                assert!(!seen[s as usize]);
                seen[s as usize] = true;
            }
            _ => panic!("no slot"),
        }
    }
    assert_eq!(arena.take_slot(0), Ok(SlotAction::Reclaim));
    assert_eq!(arena.take_slot(1), Ok(SlotAction::ClearCaches));
    assert_eq!(arena.take_slot(2), Err(KernelError::Cuda("TMA desc arena exhausted")));
    arena.release(77);
    assert_eq!(arena.take_slot(0), Ok(SlotAction::Reclaim));
    arena.reclaim_pending();
    assert_eq!(arena.take_slot(1), Ok(SlotAction::Take(77)));
}

#[test]
fn slot_addresses_lie_apart() {
    let arena = DescArena::new(1 << 20);
    for s in 1..100 {
        assert_eq!(arena.slot_address(s) - arena.slot_address(s - 1), TMA_DESC_BYTES as u64);
    }
}

#[test]
fn descriptor_fields() {
    let m = make_tma_desc_2d_u8(100, 256, 64, 128);
    let want = TmaMap2d {
        global_dim: (256, 100),
        global_stride: 256,
        box_dim: (128, 64),
        elem_strides: (1, 1),
        swizzle: Swizzle::Plain,
        l2: L2Promotion::Off,
    };
    assert_eq!(m, want);
    let m = make_tma_desc_2d_u8_swz(100, 256, 64, 128, Swizzle::Bytes64);
    assert_eq!(m, TmaMap2d { swizzle: Swizzle::Bytes64, ..want });
    let m = make_tma_desc_2d_u8_swz_l2(100, 256, 64, 128, Swizzle::Bytes128, L2Promotion::Bytes256);
    assert_eq!(m, TmaMap2d { swizzle: Swizzle::Bytes128, l2: L2Promotion::Bytes256, ..want });
    let m = make_tma_desc_3d_u8(64, 8, 3, 512, 4096, 32, 4, 1);
    assert_eq!(
        m,
        TmaMap3d {
            global_dim: (64, 8, 3),
            global_strides: (512, 4096),
            box_dim: (32, 4, 1),
            elem_strides: (1, 1, 1),
        }
    );
}

#[test]
fn descriptor_words_as_bytes() {
    let mut words = [0u64; 16];
    words[0] = 0x0807060504030201;
    words[15] = u64::MAX - 1;
    let bytes = desc_bytes(&words);
    assert_eq!(bytes.len(), 128);
    assert_eq!(bytes[..8], [1, 2, 3, 4, 5, 6, 7, 8]);
    assert_eq!(bytes[120..], [0xfe, 0xff, 0xff, 0xff, 0xff, 0xff, 0xff, 0xff]);
    for i in 0..16 {
        assert_eq!(bytes[8 * i..8 * i + 8], words[i].to_le_bytes());
    }
}

#[test]
fn loaded_kernels_by_context() {
    let mut cache: KernelCache<&str> = KernelCache::new();
    assert_eq!(cache.get(1), None);
    cache.push(1, "a");
    cache.push(2, "b");
    assert_eq!(cache.get(1), Some(&"a"));
    assert_eq!(cache.get(2), Some(&"b"));
    cache.push(1, "c");
    assert_eq!(cache.get(1), Some(&"a"));
    assert_eq!(cache.get(3), None);
}

#[test]
fn plain_launches_and_spans() {
    let want = Launch { kernel: "k", grid: (3, 1, 1), block: (256, 1, 1), shared_mem_bytes: 0 };
    assert_eq!(launch1("k", 3, 256), want);
    assert_eq!(span(8, 5, 2), Span { start: 8, end: 18 });
    assert_eq!(span(8, 0, 2), Span { start: 8, end: 8 });
}

#[test]
fn released_bytes() {
    let mut caches = DeviceCaches { descriptors: 7, mxfp8_scratch: 10, chunk_scan: 20, linear_prefill: 30 };
    assert_eq!(release_device_caches(&mut caches), (7, 60));
    assert_eq!(caches, DeviceCaches { descriptors: 0, mxfp8_scratch: 0, chunk_scan: 0, linear_prefill: 0 });
    assert_eq!(release_device_caches(&mut caches), (0, 0));
}
