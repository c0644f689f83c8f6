//! Address arithmetic of the DMA layer that the virtio block driver runs on: physical
//! addresses of frames, the frames of a DMA region, and the identity mapping between
//! physical and kernel virtual addresses.

use vstd::prelude::*;
use vstd::arithmetic::power2::{pow2, lemma2_to64};
use vstd::bits::{lemma_usize_shl_is_mul, lemma_usize_shr_is_div};

verus! {

/// Number of address bits inside a page.
pub const PAGE_SIZE_BITS: usize = 12;

/// The DMA services that the kernel gives the virtio driver.
pub struct HalImpl;

/// The frame numbers `ppn_base`, `ppn_base + 1`, ..., `ppn_base + pages - 1`.
pub open spec fn frame_run(ppn_base: int, pages: int) -> Seq<usize> {
    Seq::new(pages as nat, |i: int| (ppn_base + i) as usize)
}

/// The physical address of the DMA region made of `frames`: that of the last frame.
pub open spec fn dma_base_addr(frames: Seq<usize>) -> usize {
    frames.last() << PAGE_SIZE_BITS
}

/// The frames of the DMA region of `pages` pages at `paddr`, lowest first.
pub open spec fn dma_frames(paddr: usize, pages: int) -> Seq<usize> {
    frame_run((paddr >> PAGE_SIZE_BITS) as int, pages)
}

impl HalImpl {
    /// Physical address of a DMA region, given the frame numbers that the frame
    /// allocator handed out for it: the region starts at the last of them.
    pub fn dma_alloc(frames: &Vec<usize>) -> (paddr: usize)
        requires
            frames@.len() > 0,
        ensures
            paddr == dma_base_addr(frames@),
    {
        let ppn_base = frames[frames.len() - 1];
        let pa = ppn_base << PAGE_SIZE_BITS;
        pa
    }

    /// The frames of the DMA region of `pages` pages at `paddr`, in the order they are
    /// given back to the frame allocator.
    pub fn dma_dealloc(paddr: usize, pages: usize) -> (frames: Vec<usize>)
        requires
            (paddr >> PAGE_SIZE_BITS) + pages <= usize::MAX,
        ensures
            frames@ == dma_frames(paddr, pages as int),
    {
        let mut ppn_base: usize = paddr >> PAGE_SIZE_BITS;
        let mut frames: Vec<usize> = Vec::new();
        let mut i: usize = 0;
        while i < pages
            invariant
                i <= pages,
                ppn_base == (paddr >> PAGE_SIZE_BITS) + i,
                (paddr >> PAGE_SIZE_BITS) + pages <= usize::MAX,
                frames@ == frame_run((paddr >> PAGE_SIZE_BITS) as int, i as int),
            decreases pages - i,
        {
            frames.push(ppn_base);
            ppn_base = ppn_base + 1;
            i = i + 1;
            proof {
                assert(frames@ =~= frame_run((paddr >> PAGE_SIZE_BITS) as int, i as int));
            }
        }
        frames
    }

    /// The kernel maps physical memory at the same addresses.
    pub fn phys_to_virt(paddr: usize) -> (vaddr: usize)
        ensures
            vaddr == paddr,
    {
        paddr
    }

    /// The kernel maps physical memory at the same addresses.
    pub fn virt_to_phys(vaddr: usize) -> (paddr: usize)
        ensures
            paddr == vaddr,
    {
        vaddr
    }
}

/// Frames as the frame allocator hands them out for a region of `pages` pages:
/// consecutive frames, highest first, so that the last is the region's base.
pub open spec fn is_frame_run_down(frames: Seq<usize>, pages: int) -> bool {
    &&& pages >= 1
    &&& frames.len() == pages
    &&& forall|i: int| 0 <= i < pages ==> #[trigger] frames[i] == frames.last() + (pages - 1 - i)
}

/// Giving back the region at the address that `dma_alloc` answered for `frames`
/// gives back exactly those frames, lowest first, provided the base frame's address
/// fits in a `usize` and the highest frame is not the last one a `usize` can number.
pub proof fn lemma_dealloc_returns_alloc_frames(frames: Seq<usize>, pages: usize)
    requires
        is_frame_run_down(frames, pages as int),
        frames.last() * 4096 <= usize::MAX,
        frames[0] < usize::MAX,
    ensures
        dma_base_addr(frames) == frames.last() * 4096,
        (dma_base_addr(frames) >> PAGE_SIZE_BITS) + pages <= usize::MAX,
        dma_frames(dma_base_addr(frames), pages as int) == frames.reverse(),
{
    let base = frames.last();
    lemma2_to64();
    assert(pow2(12) == 4096);
    lemma_usize_shl_is_mul(base, 12);
    let pa: usize = base << 12usize;
    lemma_usize_shr_is_div(pa, 12);
    assert(pa as nat / 4096 == base) by (nonlinear_arith)
        requires
            pa == base * 4096,
    ;
    assert(frames[0] == base + (pages - 1));
    assert(frame_run(base as int, pages as int) =~= frames.reverse());
}

/// The frames given back for a region are `pages` consecutive frames, lowest first,
/// starting at the frame that holds `paddr` (the address divided by the page size).
pub proof fn lemma_dma_frames_consecutive(paddr: usize, pages: int, i: int)
    requires
        0 <= i < pages,
        (paddr >> PAGE_SIZE_BITS) + pages <= usize::MAX,
    ensures
        dma_frames(paddr, pages).len() == pages,
        dma_frames(paddr, pages)[i] == paddr / 4096 + i,
{
    lemma2_to64();
    lemma_usize_shr_is_div(paddr, 12);
}

} // verus!
