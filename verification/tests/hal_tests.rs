use ros_kernel::hal::HalImpl;

#[test]
fn dma_alloc_uses_last_frame() {
    assert_eq!(HalImpl::dma_alloc(&vec![0x80005]), 0x8000_5000);
    assert_eq!(HalImpl::dma_alloc(&vec![0x80007, 0x80006, 0x80005]), 0x8000_5000);
}

#[test]
fn dma_dealloc_lists_consecutive_frames() {
    assert_eq!(HalImpl::dma_dealloc(0x8000_5000, 3), vec![0x80005, 0x80006, 0x80007]);
    assert_eq!(HalImpl::dma_dealloc(0x8000_5000, 0), Vec::<usize>::new());
}

#[test]
fn dma_dealloc_takes_back_what_alloc_gave() {
    let frames = vec![0x80010, 0x80011];
    let pa = HalImpl::dma_alloc(&frames);
    assert_eq!(HalImpl::dma_dealloc(pa, 1), vec![0x80011]);
}

#[test]
fn address_translation_is_identity() {
    assert_eq!(HalImpl::phys_to_virt(0x8020_0000), 0x8020_0000);
    assert_eq!(HalImpl::virt_to_phys(0x8020_0000), 0x8020_0000);
    assert_eq!(HalImpl::virt_to_phys(HalImpl::phys_to_virt(0x1234)), 0x1234);
}

#[test]
fn dma_round_trip_gives_back_the_allocated_run() {
    // the allocator hands out a run highest first; its last frame is the base
    let frames = vec![0x80013, 0x80012, 0x80011, 0x80010];
    let pa = HalImpl::dma_alloc(&frames);
    assert_eq!(pa, 0x8001_0000);
    let mut back = HalImpl::dma_dealloc(pa, frames.len());
    assert_eq!(back, vec![0x80010, 0x80011, 0x80012, 0x80013]);
    back.reverse();
    assert_eq!(back, frames);
}
