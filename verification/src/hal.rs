//! Memory bookkeeping for a virtio device: a bump allocator of DMA pages,
//! the split of a queue's backing block into its three rings, and the
//! address arithmetic of a register window.
//!
//! Addresses are plain numbers here. Virtual and physical addresses
//! coincide, and nothing in this module dereferences one.

use vstd::prelude::*;

verus! {

/// Granule of DMA allocation, in bytes.
pub const PAGE_SIZE: usize = 4096;

/// Reads `virtio_drivers::PAGE_SIZE`, the page size that the virtio queue
/// code works with. The contract claims that the constant is 4096.
#[verifier::external_body]
fn device_page_size() -> (n: usize)
    ensures
        n == PAGE_SIZE,
{
    virtio_drivers::PAGE_SIZE
}

/// A run of `len` bytes that starts at address `addr`.
#[derive(Clone, Copy, Debug, PartialEq, Eq, Structural)]
pub struct Region {
    pub addr: usize,
    pub len: usize,
}

impl Region {
    /// First address past the region.
    pub open spec fn end(&self) -> int {
        self.addr + self.len
    }

    /// The two regions share no byte.
    pub open spec fn disjoint(&self, other: &Region) -> bool {
        self.end() <= other.addr || other.end() <= self.addr
    }

    /// Every byte of the region lies in `[start, start + len)`.
    pub open spec fn within(&self, start: int, len: int) -> bool {
        start <= self.addr && self.end() <= start + len
    }
}

/// Byte offsets of the three parts of a virtqueue inside its backing block,
/// as the queue protocol chose them.
#[derive(Clone, Copy, Debug, PartialEq, Eq, Structural)]
pub struct QueueLayout {
    pub descriptor_table_offset: usize,
    pub avail_ring_offset: usize,
    pub used_ring_offset: usize,
}

impl QueueLayout {
    /// The offsets come in the order table, available ring, used ring, and
    /// the last of them lies inside a block of `len` bytes.
    pub open spec fn fits(&self, len: int) -> bool {
        &&& self.descriptor_table_offset < self.avail_ring_offset
        &&& self.avail_ring_offset < self.used_ring_offset
        &&& self.used_ring_offset <= len
    }
}

/// The three parts of a virtqueue as memory, each borrowed exclusively.
pub struct QueueMutRef<'a> {
    pub descriptor_table: &'a mut [u8],
    pub avail_ring: &'a mut [u8],
    pub used_ring: &'a mut [u8],
}

impl QueueLayout {
    /// Cuts `block` into descriptor table, available ring and used ring at
    /// the offsets of the layout. Each part starts at its offset and runs
    /// up to the next part, the used ring up to the end of the block, so
    /// no two parts share a byte. What lies before the descriptor table
    /// stays as it is.
    ///
    /// The answer is `None` when the offsets are not strictly increasing
    /// or the used ring would start past the end of the block.
    pub fn split<'a>(&self, block: &'a mut [u8]) -> (out: Option<QueueMutRef<'a>>)
        ensures
            out.is_some() <==> self.fits(old(block)@.len() as int),
            out matches Some(q) ==> {
                &&& q.descriptor_table@ == old(block)@.subrange(
                    self.descriptor_table_offset as int,
                    self.avail_ring_offset as int,
                )
                &&& q.avail_ring@ == old(block)@.subrange(
                    self.avail_ring_offset as int,
                    self.used_ring_offset as int,
                )
                &&& q.used_ring@ == old(block)@.skip(self.used_ring_offset as int)
                &&& final(block)@ == old(block)@.take(self.descriptor_table_offset as int)
                    + final(q.descriptor_table)@ + final(q.avail_ring)@ + final(q.used_ring)@
            },
            out is None ==> final(block)@ == old(block)@,
    {
        let table_offset = self.descriptor_table_offset;
        let avail_offset = self.avail_ring_offset;
        let used_offset = self.used_ring_offset;
        if !(table_offset < avail_offset && avail_offset < used_offset && used_offset
            <= block.len()) {
            return None;
        }
        let (_, from_table) = block.split_at_mut(table_offset);
        let (descriptor_table, from_avail) = from_table.split_at_mut(avail_offset - table_offset);
        let (avail_ring, used_ring) = from_avail.split_at_mut(used_offset - avail_offset);
        assert(descriptor_table@ =~= old(block)@.subrange(
            table_offset as int,
            avail_offset as int,
        ));
        assert(avail_ring@ =~= old(block)@.subrange(avail_offset as int, used_offset as int));
        assert(used_ring@ =~= old(block)@.skip(used_offset as int));
        Some(QueueMutRef { descriptor_table, avail_ring, used_ring })
    }
}

/// The three parts of a virtqueue, each as a range of addresses.
#[derive(Clone, Copy, Debug, PartialEq, Eq, Structural)]
pub struct QueueRegions {
    pub descriptor_table: Region,
    pub avail_ring: Region,
    pub used_ring: Region,
}

impl QueueRegions {
    /// No two of the three parts share a byte.
    pub open spec fn pairwise_disjoint(&self) -> bool {
        &&& self.descriptor_table.disjoint(&self.avail_ring)
        &&& self.descriptor_table.disjoint(&self.used_ring)
        &&& self.avail_ring.disjoint(&self.used_ring)
    }
}

/// One block of DMA memory: `size` bytes starting at physical address `pa`.
/// A block is never handed back.
#[derive(Debug)]
pub struct Page {
    pa: usize,
    size: usize,
}

impl Page {
    /// Address of the first byte.
    pub closed spec fn start(&self) -> int {
        self.pa as int
    }

    /// Number of bytes.
    pub closed spec fn len(&self) -> int {
        self.size as int
    }

    /// First address past the block.
    pub open spec fn end(&self) -> int {
        self.start() + self.len()
    }

    /// What `queue_ref_mut` hands out for `layout`: each part starts at its
    /// offset from the block's start and runs up to the next part, the used
    /// ring up to the block's end.
    pub open spec fn queue_regions(&self, layout: &QueueLayout) -> QueueRegions {
        QueueRegions {
            descriptor_table: Region {
                addr: (self.start() + layout.descriptor_table_offset) as usize,
                len: (layout.avail_ring_offset - layout.descriptor_table_offset) as usize,
            },
            avail_ring: Region {
                addr: (self.start() + layout.avail_ring_offset) as usize,
                len: (layout.used_ring_offset - layout.avail_ring_offset) as usize,
            },
            used_ring: Region {
                addr: (self.start() + layout.used_ring_offset) as usize,
                len: (self.len() - layout.used_ring_offset) as usize,
            },
        }
    }

    pub fn new(pa: usize, size: usize) -> (page: Self)
        ensures
            page.start() == pa,
            page.len() == size,
    {
        Page { pa, size }
    }

    /// Physical address of the block.
    pub fn paddr(&self) -> (addr: usize)
        ensures
            addr == self.start(),
    {
        self.pa
    }

    /// Virtual address of the block, which is its physical address.
    pub fn vaddr(&self) -> (addr: usize)
        ensures
            addr == self.start(),
    {
        self.pa
    }

    /// Length of the block in bytes.
    pub fn size(&self) -> (n: usize)
        ensures
            n == self.len(),
    {
        self.size
    }

    /// Says where in the block descriptor table, available ring and used
    /// ring lie for the offsets of `layout`, as the addresses that the
    /// device is told. `QueueLayout::split` cuts the block's memory the same
    /// way.
    ///
    /// The answer is `None` when the offsets are not strictly increasing,
    /// when the used ring would start past the block's end, or when the
    /// block itself does not fit in the address space.
    pub fn queue_ref_mut(&self, layout: &QueueLayout) -> (out: Option<QueueRegions>)
        ensures
            out.is_some() <==> layout.fits(self.len()) && self.end() <= usize::MAX,
            out matches Some(q) ==> {
                &&& q == self.queue_regions(layout)
                &&& q.descriptor_table.addr == self.start() + layout.descriptor_table_offset
                &&& q.avail_ring.addr == self.start() + layout.avail_ring_offset
                &&& q.used_ring.addr == self.start() + layout.used_ring_offset
                &&& q.descriptor_table.end() == q.avail_ring.addr
                &&& q.avail_ring.end() == q.used_ring.addr
                &&& q.used_ring.end() == self.end()
                &&& q.descriptor_table.within(self.start(), self.len())
                &&& q.avail_ring.within(self.start(), self.len())
                &&& q.used_ring.within(self.start(), self.len())
                &&& q.pairwise_disjoint()
            },
    {
        let table_offset = layout.descriptor_table_offset;
        let avail_offset = layout.avail_ring_offset;
        let used_offset = layout.used_ring_offset;
        if !(table_offset < avail_offset && avail_offset < used_offset && used_offset
            <= self.size) {
            return None;
        }
        if self.size > usize::MAX - self.pa {
            return None;
        }
        let descriptor_table = Region {
            addr: self.pa + table_offset,
            len: avail_offset - table_offset,
        };
        let avail_ring = Region { addr: self.pa + avail_offset, len: used_offset - avail_offset };
        let used_ring = Region { addr: self.pa + used_offset, len: self.size - used_offset };
        Some(QueueRegions { descriptor_table, avail_ring, used_ring })
    }
}

/// A window of device registers: `len` bytes of memory-mapped I/O starting
/// at `base`.
///
/// The length is a declaration, not a fence: `addr_at` does not hold an
/// offset against it, so a caller compares the offset with `len()` first.
#[derive(Debug)]
pub struct SafeIoRegion {
    base: usize,
    len: usize,
}

impl SafeIoRegion {
    /// Address of the first register.
    pub closed spec fn start(&self) -> int {
        self.base as int
    }

    /// Declared length of the window in bytes.
    pub closed spec fn span(&self) -> int {
        self.len as int
    }

    pub fn new(base: usize, len: usize) -> (region: Self)
        ensures
            region.start() == base,
            region.span() == len,
    {
        SafeIoRegion { base, len }
    }

    /// Physical address of the window.
    pub fn paddr(&self) -> (addr: usize)
        ensures
            addr == self.start(),
    {
        self.base
    }

    /// Virtual address of the window, which is its physical address.
    pub fn vaddr(&self) -> (addr: usize)
        ensures
            addr == self.start(),
    {
        self.base
    }

    /// Declared length of the window in bytes.
    pub fn len(&self) -> (n: usize)
        ensures
            n == self.span(),
    {
        self.len
    }

    /// Address of the register `off` bytes into the window, or `None` when
    /// that address does not fit in a `usize`.
    pub fn addr_at(&self, off: usize) -> (addr: Option<usize>)
        ensures
            addr.is_some() <==> self.start() + off <= usize::MAX,
            addr matches Some(a) ==> a == self.start() + off,
    {
        self.base.checked_add(off)
    }
}

/// Address that a bump allocator reaches from `watermark` after handing out
/// `pages` pages.
pub open spec fn bump(watermark: int, pages: int) -> int {
    watermark + pages * PAGE_SIZE
}

/// Address that a bump allocator reaches from `watermark` after serving the
/// requests of `pages` one after the other.
pub open spec fn bump_all(watermark: int, pages: Seq<usize>) -> int
    decreases pages.len(),
{
    if pages.len() == 0 {
        watermark
    } else {
        bump(bump_all(watermark, pages.drop_last()), pages.last() as int)
    }
}

/// Start of the block that the `i`-th of the requests `pages` receives from
/// an allocator that begins at `watermark`.
pub open spec fn nth_start(watermark: int, pages: Seq<usize>, i: int) -> int {
    bump_all(watermark, pages.take(i))
}

/// End of that block.
pub open spec fn nth_end(watermark: int, pages: Seq<usize>, i: int) -> int {
    bump(nth_start(watermark, pages, i), pages[i] as int)
}

/// Serving more requests never moves the watermark back.
pub proof fn lemma_bump_all_monotonic(watermark: int, pages: Seq<usize>, i: int, j: int)
    requires
        0 <= i <= j <= pages.len(),
    ensures
        bump_all(watermark, pages.take(i)) <= bump_all(watermark, pages.take(j)),
    decreases j - i,
{
    if i < j {
        lemma_bump_all_monotonic(watermark, pages, i, j - 1);
        assert(pages.take(j).drop_last() =~= pages.take(j - 1));
        assert(pages.take(j).last() * PAGE_SIZE >= 0) by (nonlinear_arith)
            requires
                pages.take(j).last() >= 0,
        ;
    }
}

/// Blocks handed out by one bump allocator never overlap: of any two
/// requests in a run, the earlier one's block ends where or before the later
/// one's begins, and each block is as long as its request times the page
/// size.
pub proof fn lemma_allocations_disjoint(watermark: int, pages: Seq<usize>, i: int, j: int)
    requires
        0 <= i < j < pages.len(),
    ensures
        nth_end(watermark, pages, i) <= nth_start(watermark, pages, j),
        nth_end(watermark, pages, i) - nth_start(watermark, pages, i) == pages[i] * PAGE_SIZE,
        nth_end(watermark, pages, j) - nth_start(watermark, pages, j) == pages[j] * PAGE_SIZE,
{
    assert(pages.take(i + 1).drop_last() =~= pages.take(i));
    assert(pages.take(i + 1).last() == pages[i]);
    assert(nth_end(watermark, pages, i) == bump_all(watermark, pages.take(i + 1)));
    lemma_bump_all_monotonic(watermark, pages, i + 1, j);
}

/// One allocation moves an allocator along its run: if it stood where the
/// `i`-th request of the run begins and served that request, the block it
/// gave is the `i`-th block of the run, and it now stands where the next
/// request begins.
pub proof fn lemma_allocation_step(
    watermark: int,
    pages: Seq<usize>,
    i: int,
    before: MyHalImpl,
    after: MyHalImpl,
    out: Option<Page>,
)
    requires
        0 <= i < pages.len(),
        before.watermark() == nth_start(watermark, pages, i),
        MyHalImpl::allocates(&before, pages[i], &after, out),
        out is Some,
    ensures
        out->0.start() == nth_start(watermark, pages, i),
        out->0.end() == nth_end(watermark, pages, i),
        after.watermark() == nth_start(watermark, pages, i + 1),
{
    assert(pages.take(i + 1).drop_last() =~= pages.take(i));
    assert(pages.take(i + 1).last() == pages[i]);
}

/// The DMA allocator: a watermark that only moves forward. Everything
/// below it has been handed out, and nothing is ever taken back.
#[derive(Debug)]
pub struct MyHalImpl {
    next: usize,
}

impl MyHalImpl {
    /// Lowest address not handed out yet.
    pub closed spec fn watermark(&self) -> int {
        self.next as int
    }

    /// What an allocation of `pages` pages does: when the block fits below
    /// the top of the address space, it starts at the old watermark, is
    /// `pages` pages long, and the watermark moves to its end. When it does
    /// not fit, nothing changes.
    pub open spec fn allocates(
        before: &MyHalImpl,
        pages: usize,
        after: &MyHalImpl,
        out: Option<Page>,
    ) -> bool {
        if bump(before.watermark(), pages as int) <= usize::MAX {
            &&& out matches Some(page)
            &&& page.start() == before.watermark()
            &&& page.len() == pages * PAGE_SIZE
            &&& after.watermark() == bump(before.watermark(), pages as int)
            &&& after.watermark() >= before.watermark()
        } else {
            &&& out is None
            &&& after.watermark() == before.watermark()
        }
    }

    /// An allocator whose first block will start at `start`, the first
    /// address above what is already in use.
    pub fn new(start: usize) -> (hal: Self)
        ensures
            hal.watermark() == start,
    {
        MyHalImpl { next: start }
    }

    /// Lowest address not handed out yet.
    pub fn next_free(&self) -> (addr: usize)
        ensures
            addr == self.watermark(),
    {
        self.next
    }

    /// Reserves `pages` pages for a virtqueue.
    pub fn dma_alloc(&mut self, pages: usize) -> (out: Option<Page>)
        ensures
            Self::allocates(old(self), pages, final(self), out),
    {
        self.reserve(pages)
    }

    /// Reserves `pages` pages for a plain data buffer. The allocation is the
    /// same as for a queue.
    pub fn dma_alloc_buf(&mut self, pages: usize) -> (out: Option<Page>)
        ensures
            Self::allocates(old(self), pages, final(self), out),
    {
        self.reserve(pages)
    }

    /// Physical address of a virtual address: the same number.
    pub fn to_paddr(va: usize) -> (pa: usize)
        ensures
            pa == va,
    {
        va
    }

    fn reserve(&mut self, pages: usize) -> (out: Option<Page>)
        ensures
            Self::allocates(old(self), pages, final(self), out),
    {
        let start = self.next;
        match pages.checked_mul(device_page_size()) {
            Some(size) => match start.checked_add(size) {
                Some(end) => {
                    self.next = end;
                    Some(Page::new(start, size))
                },
                None => None,
            },
            None => {
                assert(start + pages * PAGE_SIZE > usize::MAX) by (nonlinear_arith)
                    requires
                        pages * PAGE_SIZE > usize::MAX,
                        start >= 0,
                ;
                None
            },
        }
    }
}

} // verus!
