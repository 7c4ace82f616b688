use rand_chacha::rand_core::Rng;
use rand_chacha::rand_core::SeedableRng;
use rand_chacha::ChaCha8Rng;
use usb_test::allocator::{EndpointSpaceAllocator, END_OFFSET, START_OFFSET};

const START: u32 = START_OFFSET;

#[test]
fn test_alloc() {
    let mut rng = ChaCha8Rng::seed_from_u64(0);

    let mut allocs = EndpointSpaceAllocator::new();
    assert_eq!(allocs.allocate(128), Some(START));
    assert_eq!(allocs.allocate(64), Some(START + 128));
    assert_eq!(allocs.allocate(256), Some(START + 128 + 64));
    assert_eq!(allocs.allocate(128), Some(START + 128 + 64 + 256));
    assert_eq!(allocs.allocate(128), Some(START + 128 + 64 + 256 + 128));
    assert_eq!(allocs.allocate(128), Some(START + 128 + 64 + 256 + 128 + 128));
    assert_eq!(allocs.allocate(0xFF00), None);

    // create two holes and fill first hole, interleaved
    assert_eq!(allocs.free(START + 128 + 64), true);
    let mut last_alloc = 0;
    // consistency check and print out
    for &(offset, len) in allocs.entries().iter() {
        assert!(offset >= last_alloc, "new offset is inside last allocation!");
        println!("{}-{}", offset, offset + len);
        last_alloc = offset + len;
    }

    assert_eq!(allocs.allocate(128), Some(START + 128 + 64));
    assert_eq!(allocs.free(START + 128 + 64 + 256 + 128), true);
    assert_eq!(allocs.allocate(128), Some(START + 128 + 64 + 128));

    // alloc something that doesn't fit at all
    assert_eq!(allocs.allocate(256), Some(START + 128 + 64 + 256 + 128 + 128 + 128));

    // fill second hole
    assert_eq!(allocs.allocate(128), Some(START + 128 + 64 + 256 + 128));

    // final tail alloc
    assert_eq!(allocs.allocate(64), Some(START + 128 + 64 + 256 + 128 + 128 + 128 + 256));

    println!("after structured test:");
    let mut last_alloc = 0;
    // consistency check and print out
    for &(offset, len) in allocs.entries().iter() {
        assert!(offset >= last_alloc, "new offset is inside last allocation!");
        println!("{}-{}({})", offset, offset + len, len);
        last_alloc = offset + len;
    }

    // random alloc/dealloc and check for overlapping regions
    let mut tracker = Vec::<u32>::new();
    for _ in 0..10240 {
        if rng.next_u32() % 2 == 0 {
            if tracker.len() > 0 {
                let index = tracker.remove((rng.next_u32() % tracker.len() as u32) as usize);
                assert_eq!(allocs.free(index), true);
            }
        } else {
            let req = rng.next_u32() % 256;
            if let Some(offset) = allocs.allocate(req) {
                tracker.push(offset);
            }
        }
    }

    let mut last_alloc = 0;
    // consistency check and print out
    println!("after random test:");
    for &(offset, len) in allocs.entries().iter() {
        assert!(offset >= last_alloc, "new offset is inside last allocation!");
        assert!(offset & 0xF == 0, "misaligned allocation detected");
        println!("{}-{}({})", offset, offset + len, len);
        last_alloc = offset + len;
    }
}

// Range base 80, end 65280: first-fit placements, exhaustion, and hole reuse.
// Freeing the 256-byte region at 272 (or the 128-byte region at 656) leaves a
// hole that a 128-byte request fills at the same base.
#[test]
fn alloc_concrete_scenario() {
    assert_eq!(START, 80);
    assert_eq!(END_OFFSET, 65280);
    let mut allocs = EndpointSpaceAllocator::new();
    assert_eq!(allocs.allocate(128), Some(80));
    assert_eq!(allocs.allocate(64), Some(208));
    assert_eq!(allocs.allocate(256), Some(272));
    assert_eq!(allocs.allocate(128), Some(528));
    assert_eq!(allocs.allocate(128), Some(656));
    assert_eq!(allocs.allocate(128), Some(784));
    assert_eq!(allocs.allocate(65280), None); // too large
    assert_eq!(allocs.free(272), true);
    assert_eq!(allocs.allocate(128), Some(272)); // hole reused
    assert_eq!(allocs.free(656), true);
    // first fit: the rest of the 256-byte hole comes before the one at 656
    assert_eq!(allocs.allocate(128), Some(400));
    assert_eq!(allocs.allocate(128), Some(656));
}

#[test]
fn alloc_zero_size_rejected() {
    let mut allocs = EndpointSpaceAllocator::new();
    assert_eq!(allocs.allocate(0), None);
    assert_eq!(allocs.len(), 0);
    assert_eq!(allocs.allocate(32), Some(START));
    assert_eq!(allocs.allocate(0), None);
    assert_eq!(allocs.len(), 1);
    assert_eq!(allocs.entries()[0], (START, 32));
}

#[test]
fn free_of_unknown_base_is_reported() {
    let mut allocs = EndpointSpaceAllocator::new();
    assert_eq!(allocs.free(START), false);
    assert_eq!(allocs.allocate(48), Some(START));
    // an interior offset of a live region is not a base
    assert_eq!(allocs.free(START + 16), false);
    assert_eq!(allocs.len(), 1);
    assert_eq!(allocs.free(START), true);
    // double free is reported, not fatal
    assert_eq!(allocs.free(START), false);
    assert_eq!(allocs.len(), 0);
}

#[test]
fn alloc_exhaustion() {
    let mut allocs = EndpointSpaceAllocator::new();
    // one byte more than the whole range
    assert_eq!(allocs.allocate(END_OFFSET - START + 1), None);
    // the whole range exactly
    assert_eq!(allocs.allocate(END_OFFSET - START), Some(START));
    assert_eq!(allocs.allocate(1), None);
    assert_eq!(allocs.free(START), true);
    // a region that leaves a tail too small for the next request
    assert_eq!(allocs.allocate(END_OFFSET - START - 64), Some(START));
    assert_eq!(allocs.allocate(128), None);
    assert_eq!(allocs.allocate(64), Some(END_OFFSET - 64));
}

#[test]
fn alloc_offsets_are_aligned() {
    let mut allocs = EndpointSpaceAllocator::new();
    for req in [1u32, 15, 16, 17, 31, 33, 100, 255] {
        let offset = allocs.allocate(req).expect("in-range request");
        assert_eq!(offset % 16, 0, "misaligned allocation detected");
    }
}

#[test]
fn live_regions_never_overlap() {
    let mut allocs = EndpointSpaceAllocator::new();
    let mut bases = Vec::new();
    for req in [100u32, 1, 16, 250, 3, 77] {
        bases.push(allocs.allocate(req).unwrap());
    }
    assert_eq!(allocs.free(bases[1]), true);
    assert_eq!(allocs.free(bases[4]), true);
    assert!(allocs.allocate(5).is_some());
    assert!(allocs.allocate(200).is_some());
    let entries = allocs.entries();
    for w in entries.windows(2) {
        let (off_a, len_a) = w[0];
        let (off_b, _) = w[1];
        assert!(off_a + len_a <= off_b, "live regions overlap");
    }
}
