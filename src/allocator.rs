//! The per-memory-type allocator: pool allocations with a validated header,
//! page allocations with placement strategies, and a one-shot reservation.
use crate::efi::{EfiError, MemoryType, UEFI_PAGE_SIZE};
use crate::layout::{
    checked_round_up, is_power_of_two, layout_parts_valid, lemma_round_up, round_up, Layout,
};
use crate::space::{
    strategy_address, AddressRange, AllocationInfo, AllocationStrategy, MemorySpace, Owner,
    PageState, SpaceView,
};
use vstd::prelude::*;

verus! {

/// The signature of a live pool header.
pub const POOL_SIG: u32 = 0x04151980;

/// Alignment of every pool buffer.
pub const UEFI_POOL_ALIGN: usize = 8;

/// Bytes between the start of a pool block, where its header lies, and the buffer.
pub const POOL_HEADER_SIZE: usize = 24;

/// The default page-allocation granularity: one page.
pub const DEFAULT_PAGE_ALLOCATION_GRANULARITY: usize = 0x1000;

/// Counters of an allocator's activity. They never decrease; each saturates
/// at `usize::MAX`.
#[derive(Debug, Clone, Copy, PartialEq, Eq, Structural)]
pub struct AllocationStatistics {
    /// Successful byte-granular (pool) allocations.
    pub pool_allocation_calls: usize,
    /// Successful byte-granular (pool) frees.
    pub pool_free_calls: usize,
    /// Successful page allocations.
    pub page_allocation_calls: usize,
    /// Successful page frees.
    pub page_free_calls: usize,
    /// Bytes in the reservation, zero without one.
    pub reserved_size: usize,
    /// Bytes handed out of the reservation so far.
    pub reserved_used: usize,
    /// Pages claimed from the free memory of the space so far.
    pub claimed_pages: usize,
}

impl AllocationStatistics {
    pub open spec fn zero() -> AllocationStatistics {
        AllocationStatistics {
            pool_allocation_calls: 0,
            pool_free_calls: 0,
            page_allocation_calls: 0,
            page_free_calls: 0,
            reserved_size: 0,
            reserved_used: 0,
            claimed_pages: 0,
        }
    }

    /// Every counter of `self` is at least the matching counter of `before`.
    pub open spec fn dominates(self, before: AllocationStatistics) -> bool {
        &&& self.pool_allocation_calls >= before.pool_allocation_calls
        &&& self.pool_free_calls >= before.pool_free_calls
        &&& self.page_allocation_calls >= before.page_allocation_calls
        &&& self.page_free_calls >= before.page_free_calls
        &&& self.reserved_size >= before.reserved_size
        &&& self.reserved_used >= before.reserved_used
        &&& self.claimed_pages >= before.claimed_pages
    }

    fn new() -> (r: AllocationStatistics)
        ensures
            r == AllocationStatistics::zero(),
    {
        AllocationStatistics {
            pool_allocation_calls: 0,
            pool_free_calls: 0,
            page_allocation_calls: 0,
            page_free_calls: 0,
            reserved_size: 0,
            reserved_used: 0,
            claimed_pages: 0,
        }
    }
}

/// A block of pool memory: its first address, its size, and whether it is in use.
#[derive(Debug, Clone, Copy, PartialEq, Eq, Structural)]
pub struct PoolBlock {
    pub address: usize,
    pub size: usize,
    pub live: bool,
}

/// `x`, or `usize::MAX` when `x` is larger.
pub open spec fn capped(x: int) -> usize {
    if x > usize::MAX {
        usize::MAX
    } else {
        x as usize
    }
}

/// Size of the pool block that serves a request of `size` bytes: a whole
/// number of pool alignment units, at least one.
pub open spec fn block_size_for(size: int) -> int {
    if size == 0 {
        UEFI_POOL_ALIGN as int
    } else {
        round_up(size, UEFI_POOL_ALIGN as int)
    }
}

/// A pool request of `size` bytes forms a valid layout, header included.
pub open spec fn pool_request_valid(size: int) -> bool {
    layout_parts_valid(size, UEFI_POOL_ALIGN as int) && layout_parts_valid(
        POOL_HEADER_SIZE + size,
        UEFI_POOL_ALIGN as int,
    )
}

/// Two blocks share no address.
pub open spec fn blocks_disjoint(b1: PoolBlock, b2: PoolBlock) -> bool {
    b1.address + b1.size <= b2.address || b2.address + b2.size <= b1.address
}

/// Every address of `[s, e)` lies in the space, on a pool page of `o`.
pub open spec fn range_in_pool(sp: SpaceView, o: Owner, s: int, e: int) -> bool {
    forall|a: int|
        s <= a < e ==> sp.base <= a < sp.end() && #[trigger] sp.pages[sp.page_of(a)]
            == PageState::Pool(o)
}

/// A page request is well formed: at least one page, an alignment that is a
/// whole number of pages, and a page-aligned address in the strategy.
pub open spec fn page_request_valid(
    strategy: AllocationStrategy,
    pages: int,
    alignment: int,
) -> bool {
    &&& pages >= 1
    &&& alignment >= UEFI_PAGE_SIZE
    &&& alignment % (UEFI_PAGE_SIZE as int) == 0
    &&& match strategy_address(strategy) {
        Some(a) => a % UEFI_PAGE_SIZE == 0,
        None => true,
    }
}

/// Allocates memory of one UEFI memory type from a [`MemorySpace`].
///
/// Pages claimed by this allocator are marked with its [`Owner`], the pair of
/// its handle and memory type; it frees only pages marked so.
pub struct UefiAllocator {
    owner: Owner,
    granularity: usize,
    reserved: Option<AddressRange>,
    stats: AllocationStatistics,
    blocks: Vec<PoolBlock>,
    backing: Vec<AddressRange>,
    bump_next: usize,
    bump_end: usize,
}

/// The mathematical model of a [`UefiAllocator`].
pub struct AllocatorView {
    /// Handle and memory type under which pages are claimed.
    pub owner: Owner,
    /// Bytes in which page requests are rounded up and aligned.
    pub granularity: nat,
    /// The reservation, once made.
    pub reserved: Option<AddressRange>,
    pub stats: AllocationStatistics,
    /// Every pool block ever carved, live or free.
    pub blocks: Seq<PoolBlock>,
    /// Ranges of pool backing memory claimed from the space.
    pub backing: Seq<AddressRange>,
    /// Unused tail `[bump_next, bump_end)` of the latest backing range.
    pub bump_next: int,
    pub bump_end: int,
}

impl View for UefiAllocator {
    type V = AllocatorView;

    closed spec fn view(&self) -> AllocatorView {
        AllocatorView {
            owner: self.owner,
            granularity: self.granularity as nat,
            reserved: self.reserved,
            stats: self.stats,
            blocks: self.blocks@,
            backing: self.backing@,
            bump_next: self.bump_next as int,
            bump_end: self.bump_end as int,
        }
    }
}

impl AllocatorView {
    /// The granularity in pages.
    pub open spec fn granularity_pages(self) -> int {
        self.granularity as int / UEFI_PAGE_SIZE as int
    }

    /// Pages actually claimed for a request of `pages` pages.
    pub open spec fn rounded_pages(self, pages: int) -> int {
        round_up(pages, self.granularity_pages())
    }

    /// Alignment actually used for a request aligned to `alignment`.
    pub open spec fn effective_alignment(self, alignment: int) -> int {
        if alignment >= self.granularity {
            alignment
        } else {
            self.granularity as int
        }
    }

    pub open spec fn wf(self) -> bool {
        &&& self.granularity as int % (UEFI_PAGE_SIZE as int) == 0
        &&& self.granularity >= UEFI_PAGE_SIZE
        &&& self.granularity <= usize::MAX
        &&& 0 <= self.bump_next <= self.bump_end <= usize::MAX
        &&& self.reserved is None ==> self.stats.reserved_size == 0
        &&& forall|i: int|
            0 <= i < self.blocks.len() ==> #[trigger] self.blocks[i].size >= 1
                && self.blocks[i].address + self.blocks[i].size <= usize::MAX
        &&& forall|i: int, k: int|
            0 <= i < self.blocks.len() && 0 <= k < self.blocks.len() && i != k
                ==> blocks_disjoint(#[trigger] self.blocks[i], #[trigger] self.blocks[k])
        &&& forall|i: int|
            0 <= i < self.blocks.len() ==> self.bump_next == self.bump_end
                || #[trigger] self.blocks[i].address + self.blocks[i].size <= self.bump_next
                || self.bump_end <= self.blocks[i].address
    }

    /// The reservation lies page-aligned in the space and its pages are all held by the owner.
    pub open spec fn reservation_held(self, sp: SpaceView) -> bool {
        match self.reserved {
            Some(r) => {
                &&& sp.base <= r.start <= r.end <= sp.end()
                &&& (r.start - sp.base) % (UEFI_PAGE_SIZE as int) == 0
                &&& (r.end - sp.base) % (UEFI_PAGE_SIZE as int) == 0
                &&& forall|j: int|
                    0 <= j < sp.pages.len() && r.has(sp.addr(j)) ==> #[trigger] sp.pages[j].is_held_by(
                        self.owner,
                    )
            },
            None => true,
        }
    }

    /// The allocator's bookkeeping agrees with the space it allocates from.
    pub open spec fn consistent(self, sp: SpaceView) -> bool {
        &&& self.wf()
        &&& sp.wf()
        &&& self.reservation_held(sp)
        &&& forall|i: int|
            0 <= i < self.blocks.len() ==> range_in_pool(
                sp,
                self.owner,
                #[trigger] self.blocks[i].address as int,
                self.blocks[i].address + self.blocks[i].size,
            )
        &&& range_in_pool(sp, self.owner, self.bump_next, self.bump_end)
    }

    /// Some run of `k` pages fits in the reservation.
    pub open spec fn reserve_hit(
        self,
        sp: SpaceView,
        strategy: AllocationStrategy,
        k: int,
        align: int,
    ) -> bool {
        match self.reserved {
            Some(r) => !sp.no_candidate(
                k,
                align,
                PageState::Reserved(self.owner),
                r.start as int,
                r.end as int,
                strategy,
            ),
            None => false,
        }
    }

    /// Run `[j, j + k)` is where the allocator places `k` pages: the preferred
    /// run inside its reservation when there is one, else the preferred run of
    /// free pages.
    pub open spec fn chosen_run(
        self,
        sp: SpaceView,
        strategy: AllocationStrategy,
        k: int,
        align: int,
        j: int,
    ) -> bool {
        if self.reserve_hit(sp, strategy, k, align) {
            let r = self.reserved->Some_0;
            sp.is_preferred(
                j,
                k,
                align,
                PageState::Reserved(self.owner),
                r.start as int,
                r.end as int,
                strategy,
            )
        } else {
            sp.is_preferred(j, k, align, PageState::Free, 0, usize::MAX as int, strategy)
        }
    }

    /// Some run of `k` pages can be placed.
    pub open spec fn can_place(
        self,
        sp: SpaceView,
        strategy: AllocationStrategy,
        k: int,
        align: int,
    ) -> bool {
        self.reserve_hit(sp, strategy, k, align) || !sp.no_candidate(
            k,
            align,
            PageState::Free,
            0,
            usize::MAX as int,
            strategy,
        )
    }

    /// Statistics after `k` pages were claimed, from the reservation or from free memory.
    pub open spec fn stats_after_claim(
        stats: AllocationStatistics,
        k: int,
        from_reserve: bool,
    ) -> AllocationStatistics {
        AllocationStatistics {
            reserved_used: if from_reserve {
                capped(stats.reserved_used + k * UEFI_PAGE_SIZE)
            } else {
                stats.reserved_used
            },
            claimed_pages: if from_reserve {
                stats.claimed_pages
            } else {
                capped(stats.claimed_pages + k)
            },
            ..stats
        }
    }

    /// Block `i` is free, of `bs` bytes, and aligned to `align`.
    pub open spec fn free_fit(self, i: int, bs: int, align: int) -> bool {
        &&& 0 <= i < self.blocks.len()
        &&& !self.blocks[i].live
        &&& self.blocks[i].size == bs
        &&& self.blocks[i].address as int % align == 0
    }

    /// Block `i` is the first free block that fits.
    pub open spec fn first_free_fit(self, i: int, bs: int, align: int) -> bool {
        &&& self.free_fit(i, bs, align)
        &&& forall|i2: int| 0 <= i2 < i ==> !#[trigger] self.free_fit(i2, bs, align)
    }

    pub open spec fn has_free_fit(self, bs: int, align: int) -> bool {
        exists|i: int| #[trigger] self.free_fit(i, bs, align)
    }

    /// A block of `bs` bytes aligned to `align` fits in the unused tail.
    pub open spec fn bump_fits(self, bs: int, align: int) -> bool {
        round_up(self.bump_next, align) + bs <= self.bump_end
    }

    /// Pages of a new backing range that holds a block of `bs` bytes aligned to `align`.
    pub open spec fn expansion_pages(self, bs: int, align: int) -> int {
        self.rounded_pages(round_up(bs + align - 1, UEFI_PAGE_SIZE as int) / UEFI_PAGE_SIZE as int)
    }

    /// A block of `bs` bytes aligned to `align` can be allocated.
    pub open spec fn can_allocate(self, sp: SpaceView, bs: int, align: int) -> bool {
        ||| self.has_free_fit(bs, align)
        ||| self.bump_fits(bs, align)
        ||| self.can_place(
            sp,
            AllocationStrategy::BottomUp(None),
            self.expansion_pages(bs, align),
            self.granularity as int,
        )
    }

    /// `(a2, sp2)` is the state after a block of `bs` bytes aligned to `align`
    /// was allocated at `address` from `(self, sp)`: the first free block that
    /// fits is reused; failing that the block is carved from the unused tail;
    /// failing that a new backing range is claimed, placed bottom-up, and the
    /// block carved from its start.
    pub open spec fn allocated(
        self,
        sp: SpaceView,
        bs: int,
        align: int,
        address: int,
        a2: AllocatorView,
        sp2: SpaceView,
    ) -> bool {
        let stats = AllocationStatistics {
            pool_allocation_calls: self.stats.pool_allocation_calls.saturating_add(1),
            ..self.stats
        };
        let block = PoolBlock { address: address as usize, size: bs as usize, live: true };
        &&& sp2.base == sp.base
        &&& if self.has_free_fit(bs, align) {
            exists|i: int|
                {
                    &&& #[trigger] self.first_free_fit(i, bs, align)
                    &&& address == self.blocks[i].address
                    &&& a2 == AllocatorView {
                        blocks: self.blocks.update(i, block),
                        stats,
                        ..self
                    }
                    &&& sp2.pages == sp.pages
                }
        } else if self.bump_fits(bs, align) {
            &&& address == round_up(self.bump_next, align)
            &&& a2 == AllocatorView {
                blocks: self.blocks.push(block),
                bump_next: address + bs,
                stats,
                ..self
            }
            &&& sp2.pages == sp.pages
        } else {
            let k = self.expansion_pages(bs, align);
            let strategy = AllocationStrategy::BottomUp(None);
            let g = self.granularity as int;
            exists|j: int|
                {
                    &&& #[trigger] self.chosen_run(sp, strategy, k, g, j)
                    &&& address == round_up(sp.addr(j), align)
                    &&& sp2.pages == sp.with_run(j, k, PageState::Pool(self.owner))
                    &&& a2 == AllocatorView {
                        blocks: self.blocks.push(block),
                        backing: self.backing.push(
                            AddressRange { start: sp.addr(j) as usize, end: sp.addr(j + k) as usize },
                        ),
                        bump_next: address + bs,
                        bump_end: sp.addr(j + k),
                        stats: AllocatorView::stats_after_claim(
                            stats,
                            k,
                            self.reserve_hit(sp, strategy, k, g),
                        ),
                        ..self
                    }
                }
        }
    }

    /// Block `i` is a live block at `address` of `bs` bytes.
    pub open spec fn live_block(self, i: int, address: int, bs: int) -> bool {
        &&& 0 <= i < self.blocks.len()
        &&& self.blocks[i].live
        &&& self.blocks[i].address == address
        &&& self.blocks[i].size == bs
    }

    /// `a2` is the state after the block at `address` of `bs` bytes was released.
    pub open spec fn released(self, address: int, bs: int, a2: AllocatorView) -> bool {
        if exists|i: int| #[trigger] self.live_block(i, address, bs) {
            exists|i: int|
                {
                    &&& #[trigger] self.live_block(i, address, bs)
                    &&& a2 == AllocatorView {
                        blocks: self.blocks.update(
                            i,
                            PoolBlock { live: false, ..self.blocks[i] },
                        ),
                        stats: AllocationStatistics {
                            pool_free_calls: self.stats.pool_free_calls.saturating_add(1),
                            ..self.stats
                        },
                        ..self
                    }
                }
        } else {
            a2 == self
        }
    }

    /// The outcome of freeing the pool buffer at `buffer`, judged by the header
    /// in front of it: a missing header or a wrong signature is an invalid
    /// parameter, a header of another memory type is not found.
    pub open spec fn free_pool_outcome(self, sp: SpaceView, buffer: int) -> Result<(), EfiError> {
        let h = buffer - POOL_HEADER_SIZE;
        if h < 0 || !sp.headers.contains_key(h as usize) {
            Err(EfiError::InvalidParameter)
        } else if sp.headers[h as usize].signature != POOL_SIG {
            Err(EfiError::InvalidParameter)
        } else if sp.headers[h as usize].memory_type != self.owner.memory_type {
            Err(EfiError::NotFound)
        } else {
            Ok(())
        }
    }

    /// `(a2, sp2)` is the state after `pages` pages were allocated with
    /// `strategy` and `alignment` from `(self, sp)`, giving `range`: the request
    /// was well formed, the run is the one the allocator chooses for the
    /// rounded page count and effective alignment, and its pages now belong to
    /// the allocator as a page allocation.
    pub open spec fn pages_allocated(
        self,
        sp: SpaceView,
        strategy: AllocationStrategy,
        pages: int,
        alignment: int,
        range: AddressRange,
        a2: AllocatorView,
        sp2: SpaceView,
    ) -> bool {
        let k = self.rounded_pages(pages);
        let align = self.effective_alignment(alignment);
        let j = sp.page_of(range.start as int);
        let from_reserve = self.reserve_hit(sp, strategy, k, align);
        &&& page_request_valid(strategy, pages, alignment)
        &&& self.chosen_run(sp, strategy, k, align, j)
        &&& range.start == sp.addr(j)
        &&& range.end == sp.addr(j + k)
        &&& sp2.base == sp.base
        &&& sp2.headers == sp.headers
        &&& sp2.pages == sp.with_run(j, k, PageState::Pages(self.owner))
        &&& a2 == AllocatorView {
            stats: AllocationStatistics {
                page_allocation_calls: self.stats.page_allocation_calls.saturating_add(1),
                ..AllocatorView::stats_after_claim(self.stats, k, from_reserve)
            },
            ..self
        }
    }

    /// The result of freeing `pages` pages at `address`: an unaligned address
    /// or a zero count is an invalid parameter; pages that are not all page
    /// allocations of this allocator are not found.
    pub open spec fn free_pages_outcome(self, sp: SpaceView, address: int, pages: int) -> Result<
        (),
        EfiError,
    > {
        let k = self.rounded_pages(pages);
        let j = sp.page_of(address);
        if !(pages >= 1 && address % UEFI_PAGE_SIZE as int == 0) {
            Err(EfiError::InvalidParameter)
        } else if !(address >= sp.base && sp.run_in_state(j, k, PageState::Pages(self.owner))) {
            Err(EfiError::NotFound)
        } else {
            Ok(())
        }
    }

    /// `(a2, sp2)` is the state after the pages at `address` were freed.
    pub open spec fn pages_freed(
        self,
        sp: SpaceView,
        address: int,
        pages: int,
        a2: AllocatorView,
        sp2: SpaceView,
    ) -> bool {
        let k = self.rounded_pages(pages);
        let j = sp.page_of(address);
        &&& self.free_pages_outcome(sp, address, pages) == Ok::<(), EfiError>(())
        &&& sp2.base == sp.base
        &&& sp2.headers == sp.headers
        &&& sp2.pages == self.pages_after_free(sp, j, k)
        &&& a2 == AllocatorView {
            stats: AllocationStatistics {
                page_free_calls: self.stats.page_free_calls.saturating_add(1),
                ..self.stats
            },
            ..self
        }
    }

    /// The result of reserving `pages` pages: only one reservation is made,
    /// the count must be positive, and a run of free pages must exist.
    pub open spec fn reserve_outcome(self, sp: SpaceView, pages: int) -> Result<(), EfiError> {
        if self.reserved is Some {
            Err(EfiError::AlreadyStarted)
        } else if pages < 1 {
            Err(EfiError::InvalidParameter)
        } else if sp.no_candidate(
            self.rounded_pages(pages),
            self.granularity as int,
            PageState::Free,
            0,
            usize::MAX as int,
            AllocationStrategy::BottomUp(None),
        ) {
            Err(EfiError::OutOfResources)
        } else {
            Ok(())
        }
    }

    /// `(a2, sp2)` is the state after a reservation of `pages` pages: the
    /// lowest run of free pages of the rounded count, aligned to the
    /// granularity, is now reserved for this allocator.
    pub open spec fn reservation_made(
        self,
        sp: SpaceView,
        pages: int,
        a2: AllocatorView,
        sp2: SpaceView,
    ) -> bool {
        let k = self.rounded_pages(pages);
        let g = self.granularity as int;
        let range = a2.reserved->Some_0;
        let j = sp.page_of(range.start as int);
        &&& self.reserve_outcome(sp, pages) == Ok::<(), EfiError>(())
        &&& a2.reserved is Some
        &&& sp.is_preferred(
            j,
            k,
            g,
            PageState::Free,
            0,
            usize::MAX as int,
            AllocationStrategy::BottomUp(None),
        )
        &&& range.start == sp.addr(j)
        &&& range.end == sp.addr(j + k)
        &&& sp2.base == sp.base
        &&& sp2.headers == sp.headers
        &&& sp2.pages == sp.with_run(j, k, PageState::Reserved(self.owner))
        &&& a2 == AllocatorView {
            reserved: Some(range),
            stats: AllocationStatistics {
                reserved_size: capped(k * UEFI_PAGE_SIZE),
                claimed_pages: capped(self.stats.claimed_pages + k),
                ..self.stats
            },
            ..self
        }
    }

    /// `(a2, sp2)` is the state after a pool buffer of `size` bytes was
    /// allocated at `buffer`: the block in front of it was allocated by the
    /// pool engine and holds a live header with this allocator's memory type.
    pub open spec fn pool_allocated(
        self,
        sp: SpaceView,
        size: int,
        buffer: int,
        a2: AllocatorView,
        sp2: SpaceView,
    ) -> bool {
        let h = (buffer - POOL_HEADER_SIZE) as usize;
        let info = sp2.headers[h];
        &&& pool_request_valid(size)
        &&& buffer >= POOL_HEADER_SIZE
        &&& buffer % UEFI_POOL_ALIGN as int == 0
        &&& self.allocated(
            sp,
            block_size_for(POOL_HEADER_SIZE + size),
            UEFI_POOL_ALIGN as int,
            h as int,
            a2,
            sp2,
        )
        &&& sp2.headers == sp.headers.insert(h, info)
        &&& info.signature == POOL_SIG
        &&& info.memory_type == self.owner.memory_type
        &&& info.layout.spec_size() == POOL_HEADER_SIZE + size
        &&& info.layout.spec_align() == UEFI_POOL_ALIGN
    }

    /// `(a2, sp2)` is the state after the pool buffer at `buffer` was freed:
    /// its header signature is zeroed and the block it records is released.
    pub open spec fn pool_freed(self, sp: SpaceView, buffer: int, a2: AllocatorView, sp2: SpaceView) -> bool {
        let h = (buffer - POOL_HEADER_SIZE) as usize;
        let info = sp.headers[h];
        &&& self.free_pool_outcome(sp, buffer) == Ok::<(), EfiError>(())
        &&& sp2.headers == sp.headers.insert(h, AllocationInfo { signature: 0, ..info })
        &&& sp2.pages == sp.pages
        &&& sp2.base == sp.base
        &&& self.released(h as int, block_size_for(info.layout.spec_size() as int), a2)
    }

    /// The page state that page `j` returns to when freed.
    pub open spec fn freed_state(self, sp: SpaceView, j: int) -> PageState {
        match self.reserved {
            Some(r) => if r.has(sp.addr(j)) {
                PageState::Reserved(self.owner)
            } else {
                PageState::Free
            },
            None => PageState::Free,
        }
    }

    /// The pages of `sp` after the run `[j, j + k)` is freed.
    pub open spec fn pages_after_free(self, sp: SpaceView, j: int, k: int) -> Seq<PageState> {
        Seq::new(
            sp.pages.len(),
            |i: int|
                if j <= i < j + k {
                    self.freed_state(sp, i)
                } else {
                    sp.pages[i]
                },
        )
    }
}

/// If `sp2` keeps every pool page of `o` and the reservation stays held, the
/// allocator stays consistent with it.
pub proof fn lemma_consistent_kept(a: AllocatorView, sp: SpaceView, sp2: SpaceView)
    requires
        a.consistent(sp),
        sp2.base == sp.base,
        sp2.pages.len() == sp.pages.len(),
        forall|j: int|
            0 <= j < sp.pages.len() && sp.pages[j] == PageState::Pool(a.owner) ==> sp2.pages[j]
                == PageState::Pool(a.owner),
        a.reservation_held(sp2),
    ensures
        a.consistent(sp2),
{
    assert forall|i: int| 0 <= i < a.blocks.len() implies range_in_pool(
        sp2,
        a.owner,
        #[trigger] a.blocks[i].address as int,
        a.blocks[i].address + a.blocks[i].size,
    ) by {
        assert forall|x: int|
            a.blocks[i].address <= x < a.blocks[i].address + a.blocks[i].size implies sp2.base <= x
            < sp2.end() && #[trigger] sp2.pages[sp2.page_of(x)] == PageState::Pool(a.owner) by {
            assert(sp.pages[sp.page_of(x)] == PageState::Pool(a.owner));
        }
    }
    assert forall|x: int| a.bump_next <= x < a.bump_end implies sp2.base <= x < sp2.end()
        && #[trigger] sp2.pages[sp2.page_of(x)] == PageState::Pool(a.owner) by {
        assert(sp.pages[sp.page_of(x)] == PageState::Pool(a.owner));
    }
}

/// An address inside the pages `[j, j + k)` lies on one of them.
pub proof fn lemma_page_of_in_run(sp: SpaceView, j: int, k: int, x: int)
    requires
        sp.addr(j) <= x < sp.addr(j + k),
    ensures
        j <= sp.page_of(x) < j + k,
{
    assert(j <= (x - sp.base) / 4096 < j + k) by (nonlinear_arith)
        requires
            sp.base + j * 4096 <= x < sp.base + (j + k) * 4096,
    ;
}

/// A run of more pages than `usize` can count cannot be placed.
pub proof fn lemma_no_place_for_oversized(
    a: AllocatorView,
    sp: SpaceView,
    strategy: AllocationStrategy,
    k: int,
    align: int,
)
    requires
        a.consistent(sp),
        k > usize::MAX,
    ensures
        !a.can_place(sp, strategy, k, align),
{
    assert(sp.pages.len() < k) by (nonlinear_arith)
        requires
            sp.base + sp.pages.len() * 4096 <= usize::MAX,
            sp.base >= 0,
            k > usize::MAX,
    ;
    match a.reserved {
        Some(r) => {
            assert(sp.no_candidate(k, align, PageState::Reserved(a.owner), r.start as int, r.end as int, strategy));
        },
        None => {},
    }
    assert(sp.no_candidate(k, align, PageState::Free, 0, usize::MAX as int, strategy));
}

/// Claiming the chosen run keeps the reservation held.
pub proof fn lemma_reservation_kept_by_claim(
    a: AllocatorView,
    sp: SpaceView,
    sp2: SpaceView,
    j: int,
    k: int,
    from_reserve: bool,
    strategy: AllocationStrategy,
    align: int,
)
    requires
        a.consistent(sp),
        a.chosen_run(sp, strategy, k, align, j),
        from_reserve == a.reserve_hit(sp, strategy, k, align),
        sp2.base == sp.base,
        sp2.pages.len() == sp.pages.len(),
        forall|x: int| 0 <= x < sp.pages.len() && !(j <= x < j + k) ==> sp2.pages[x] == sp.pages[x],
        forall|x: int| j <= x < j + k ==> sp2.pages[x].is_held_by(a.owner),
    ensures
        a.reservation_held(sp2),
{
    match a.reserved {
        Some(r) => {
            assert forall|x: int| 0 <= x < sp2.pages.len() && r.has(sp2.addr(x)) implies #[trigger] sp2.pages[x].is_held_by(a.owner) by {
                assert(sp.pages[x].is_held_by(a.owner));
            }
        },
        None => {},
    }
}

/// A run longer than the address space cannot be placed.
pub proof fn lemma_no_place_when_too_long(
    a: AllocatorView,
    sp: SpaceView,
    strategy: AllocationStrategy,
    k: int,
    align: int,
)
    requires
        a.consistent(sp),
        k * UEFI_PAGE_SIZE > usize::MAX,
    ensures
        !a.can_place(sp, strategy, k, align),
{
    assert(sp.pages.len() < k) by (nonlinear_arith)
        requires
            sp.base + sp.pages.len() * 4096 <= usize::MAX,
            sp.base >= 0,
            k * 4096 > usize::MAX,
    ;
    match a.reserved {
        Some(r) => {
            assert(sp.no_candidate(k, align, PageState::Reserved(a.owner), r.start as int, r.end as int, strategy));
        },
        None => {},
    }
    assert(sp.no_candidate(k, align, PageState::Free, 0, usize::MAX as int, strategy));
}

/// Consistency does not depend on the pool headers.
pub proof fn lemma_consistent_ignores_headers(a: AllocatorView, sp: SpaceView, sp2: SpaceView)
    requires
        a.consistent(sp),
        sp2.base == sp.base,
        sp2.pages == sp.pages,
    ensures
        a.consistent(sp2),
{
    match a.reserved {
        Some(r) => {
            assert forall|j: int| 0 <= j < sp2.pages.len() && r.has(sp2.addr(j)) implies #[trigger] sp2.pages[j].is_held_by(a.owner) by {
                assert(sp.pages[j].is_held_by(a.owner));
            }
        },
        None => {},
    }
    lemma_consistent_kept(a, sp, sp2);
}

/// Marking block `i` live or free keeps the allocator consistent.
pub proof fn lemma_relabel_keeps_consistent(a: AllocatorView, sp: SpaceView, i: int, live: bool)
    requires
        a.consistent(sp),
        0 <= i < a.blocks.len(),
    ensures
        (AllocatorView {
            blocks: a.blocks.update(i, PoolBlock { live, ..a.blocks[i] }),
            ..a
        }).consistent(sp),
{
    let a2 = AllocatorView { blocks: a.blocks.update(i, PoolBlock { live, ..a.blocks[i] }), ..a };
    assert forall|x: int| 0 <= x < a2.blocks.len() implies a2.blocks[x].address == a.blocks[x].address
        && a2.blocks[x].size == a.blocks[x].size by {}
    assert forall|x: int, y: int|
        0 <= x < a2.blocks.len() && 0 <= y < a2.blocks.len() && x != y implies blocks_disjoint(
        #[trigger] a2.blocks[x],
        #[trigger] a2.blocks[y],
    ) by {
        assert(blocks_disjoint(a.blocks[x], a.blocks[y]));
    }
    assert forall|x: int| 0 <= x < a2.blocks.len() implies range_in_pool(
        sp,
        a2.owner,
        #[trigger] a2.blocks[x].address as int,
        a2.blocks[x].address + a2.blocks[x].size,
    ) by {
        assert(range_in_pool(sp, a.owner, a.blocks[x].address as int, a.blocks[x].address + a.blocks[x].size));
    }
    assert forall|x: int| 0 <= x < a2.blocks.len() implies a2.bump_next == a2.bump_end
        || #[trigger] a2.blocks[x].address + a2.blocks[x].size <= a2.bump_next || a2.bump_end
        <= a2.blocks[x].address by {
        assert(a.blocks[x].address == a2.blocks[x].address);
    }
}

/// Carving a block from the unused tail keeps the allocator consistent.
pub proof fn lemma_carve_keeps_consistent(
    a: AllocatorView,
    sp: SpaceView,
    bs: int,
    align: int,
    address: int,
)
    requires
        a.consistent(sp),
        bs >= 1,
        align >= 1,
        a.bump_fits(bs, align),
        address == round_up(a.bump_next, align),
    ensures
        (AllocatorView {
            blocks: a.blocks.push(PoolBlock { address: address as usize, size: bs as usize, live: true }),
            bump_next: address + bs,
            ..a
        }).consistent(sp),
{
    lemma_round_up(a.bump_next, align);
    let block = PoolBlock { address: address as usize, size: bs as usize, live: true };
    let a2 = AllocatorView { blocks: a.blocks.push(block), bump_next: address + bs, ..a };
    let n = a.blocks.len() as int;
    assert forall|x: int| 0 <= x < n implies #[trigger] a.blocks[x].address + a.blocks[x].size
        <= a.bump_next || a.bump_end <= a.blocks[x].address by {}
    assert forall|x: int, y: int|
        0 <= x < a2.blocks.len() && 0 <= y < a2.blocks.len() && x != y implies blocks_disjoint(
        #[trigger] a2.blocks[x],
        #[trigger] a2.blocks[y],
    ) by {
        if x < n && y < n {
            assert(blocks_disjoint(a.blocks[x], a.blocks[y]));
        } else if x < n {
            assert(a.blocks[x].address + a.blocks[x].size <= a.bump_next || a.bump_end
                <= a.blocks[x].address);
        } else {
            assert(a.blocks[y].address + a.blocks[y].size <= a.bump_next || a.bump_end
                <= a.blocks[y].address);
        }
    }
    assert forall|x: int| 0 <= x < a2.blocks.len() implies #[trigger] a2.blocks[x].size >= 1
        && a2.blocks[x].address + a2.blocks[x].size <= usize::MAX by {
        if x < n {
            assert(a.blocks[x].size >= 1);
        }
    }
    assert forall|x: int| 0 <= x < a2.blocks.len() implies a2.bump_next == a2.bump_end
        || #[trigger] a2.blocks[x].address + a2.blocks[x].size <= a2.bump_next || a2.bump_end
        <= a2.blocks[x].address by {
        if x < n {
            assert(a.blocks[x].address + a.blocks[x].size <= a.bump_next || a.bump_end
                <= a.blocks[x].address);
        }
    }
    assert forall|x: int| 0 <= x < a2.blocks.len() implies range_in_pool(
        sp,
        a2.owner,
        #[trigger] a2.blocks[x].address as int,
        a2.blocks[x].address + a2.blocks[x].size,
    ) by {
        if x < n {
            assert(range_in_pool(sp, a.owner, a.blocks[x].address as int, a.blocks[x].address
                + a.blocks[x].size));
        } else {
            assert forall|y: int| address <= y < address + bs implies sp.base <= y < sp.end()
                && #[trigger] sp.pages[sp.page_of(y)] == PageState::Pool(a.owner) by {
                assert(a.bump_next <= y < a.bump_end);
            }
        }
    }
    assert forall|y: int| a2.bump_next <= y < a2.bump_end implies sp.base <= y < sp.end()
        && #[trigger] sp.pages[sp.page_of(y)] == PageState::Pool(a.owner) by {
        assert(a.bump_next <= y < a.bump_end);
    }
}

/// A new backing range holds a block of `bs` bytes at any alignment `align`.
pub proof fn lemma_expansion_pages(a: AllocatorView, bs: int, align: int)
    requires
        a.wf(),
        bs >= 1,
        align >= 1,
    ensures
        a.expansion_pages(bs, align) * UEFI_PAGE_SIZE >= bs + align - 1,
        a.expansion_pages(bs, align) >= 1,
{
    let need = bs + align - 1;
    let np = round_up(need, UEFI_PAGE_SIZE as int) / UEFI_PAGE_SIZE as int;
    let gk = a.expansion_pages(bs, align);
    lemma_round_up(need, UEFI_PAGE_SIZE as int);
    assert(a.granularity_pages() >= 1);
    assert(np * UEFI_PAGE_SIZE == round_up(need, UEFI_PAGE_SIZE as int));
    lemma_round_up(np, a.granularity_pages());
    assert(gk * UEFI_PAGE_SIZE >= need) by (nonlinear_arith)
        requires
            gk >= np,
            np * UEFI_PAGE_SIZE >= need,
    ;
}

impl UefiAllocator {
    /// A new allocator for `memory_type`, identified by `allocator_handle`,
    /// which claims memory in multiples of `page_allocation_granularity` bytes.
    pub fn new(
        memory_type: MemoryType,
        allocator_handle: usize,
        page_allocation_granularity: usize,
    ) -> (r: UefiAllocator)
        requires
            page_allocation_granularity >= UEFI_PAGE_SIZE,
            page_allocation_granularity % UEFI_PAGE_SIZE == 0,
        ensures
            r@.owner == (Owner { handle: allocator_handle, memory_type }),
            r@.granularity == page_allocation_granularity,
            r@.reserved is None,
            r@.stats == AllocationStatistics::zero(),
            r@.blocks.len() == 0,
            r@.backing.len() == 0,
            r@.bump_next == 0,
            r@.bump_end == 0,
            forall|sp: SpaceView| sp.wf() ==> r@.consistent(sp),
    {
        UefiAllocator {
            owner: Owner { handle: allocator_handle, memory_type },
            granularity: page_allocation_granularity,
            reserved: None,
            stats: AllocationStatistics::new(),
            blocks: Vec::new(),
            backing: Vec::new(),
            bump_next: 0,
            bump_end: 0,
        }
    }

    /// Forgets all bookkeeping: pool blocks, backing ranges, the reservation
    /// and the statistics. Memory already claimed stays claimed in the space.
    pub fn reset(&mut self)
        ensures
            final(self)@.owner == old(self)@.owner,
            final(self)@.granularity == old(self)@.granularity,
            final(self)@.reserved is None,
            final(self)@.stats == AllocationStatistics::zero(),
            final(self)@.blocks.len() == 0,
            final(self)@.backing.len() == 0,
            final(self)@.bump_next == 0,
            final(self)@.bump_end == 0,
            old(self)@.wf() ==> forall|sp: SpaceView| sp.wf() ==> final(self)@.consistent(sp),
    {
        self.reserved = None;
        self.stats = AllocationStatistics::new();
        self.blocks = Vec::new();
        self.backing = Vec::new();
        self.bump_next = 0;
        self.bump_end = 0;
    }

    /// The memory type this allocator serves.
    pub fn memory_type(&self) -> (r: MemoryType)
        ensures
            r == self@.owner.memory_type,
    {
        self.owner.memory_type
    }

    /// The handle that identifies this allocator's owner.
    pub fn handle(&self) -> (r: usize)
        ensures
            r == self@.owner.handle,
    {
        self.owner.handle
    }

    /// The page-allocation granularity in bytes.
    pub fn page_allocation_granularity(&self) -> (r: usize)
        ensures
            r == self@.granularity,
    {
        self.granularity
    }

    /// The reserved range, if a reservation was made.
    pub fn reserved_range(&self) -> (r: Option<AddressRange>)
        ensures
            r == self@.reserved,
    {
        self.reserved
    }

    /// A snapshot of the statistics.
    pub fn stats(&self) -> (r: AllocationStatistics)
        ensures
            r == self@.stats,
    {
        self.stats
    }

    /// The ranges of pool backing memory claimed so far.
    pub fn get_memory_ranges(&self) -> (r: Vec<AddressRange>)
        ensures
            r@ == self@.backing,
    {
        self.backing.clone()
    }

    /// Whether `address` lies in pool backing memory of this allocator.
    pub fn contains(&self, address: usize) -> (r: bool)
        ensures
            r == exists|i: int| 0 <= i < self@.backing.len() && #[trigger] self@.backing[i].has(
                address as int,
            ),
    {
        let mut i: usize = 0;
        while i < self.backing.len()
            invariant
                i <= self@.backing.len(),
                forall|x: int| 0 <= x < i ==> !#[trigger] self@.backing[x].has(address as int),
            decreases self@.backing.len() - i,
        {
            if self.backing[i].contains(address) {
                return true;
            }
            i = i + 1;
        }
        false
    }

    /// Pages for a request of `pages` pages, or `None` when that overflows.
    fn rounded_pages(&self, pages: usize) -> (r: Option<usize>)
        requires
            self@.wf(),
        ensures
            match r {
                Some(k) => k == self@.rounded_pages(pages as int),
                None => self@.rounded_pages(pages as int) > usize::MAX,
            },
    {
        checked_round_up(pages, self.granularity / UEFI_PAGE_SIZE)
    }

    /// Finds where `k` pages go: the preferred run in the reservation if any
    /// fits, else the preferred run of free pages. Also says which it was.
    fn place_run(
        &self,
        space: &MemorySpace,
        strategy: &AllocationStrategy,
        k: usize,
        align: usize,
    ) -> (r: Option<(usize, bool)>)
        requires
            self@.consistent(space@),
            k >= 1,
            align >= 1,
        ensures
            match r {
                Some((j, from_reserve)) => {
                    &&& self@.chosen_run(space@, *strategy, k as int, align as int, j as int)
                    &&& from_reserve == self@.reserve_hit(
                        space@,
                        *strategy,
                        k as int,
                        align as int,
                    )
                },
                None => !self@.can_place(space@, *strategy, k as int, align as int),
            },
    {
        match self.reserved {
            Some(r) => {
                match space.find_run(
                    strategy,
                    k,
                    align,
                    PageState::Reserved(self.owner),
                    r.start,
                    r.end,
                ) {
                    Some(j) => {
                        return Some((j, true));
                    },
                    None => {},
                }
            },
            None => {},
        }
        match space.find_run(strategy, k, align, PageState::Free, 0, usize::MAX) {
            Some(j) => Some((j, false)),
            None => None,
        }
    }

    /// Allocates `pages` pages placed by `allocation_strategy` and aligned to
    /// `alignment`, and returns their address range.
    ///
    /// The request is rounded up to the page-allocation granularity, and the
    /// alignment raised to it. Pages come from the reservation while it has
    /// room, else from free memory.
    pub fn allocate_pages(
        &mut self,
        space: &mut MemorySpace,
        allocation_strategy: AllocationStrategy,
        pages: usize,
        alignment: usize,
    ) -> (r: Result<AddressRange, EfiError>)
        requires
            old(self)@.consistent(old(space)@),
        ensures
            final(self)@.consistent(final(space)@),
            final(self)@.stats.dominates(old(self)@.stats),
            match r {
                Ok(range) => old(self)@.pages_allocated(
                    old(space)@,
                    allocation_strategy,
                    pages as int,
                    alignment as int,
                    range,
                    final(self)@,
                    final(space)@,
                ),
                Err(e) => {
                    &&& final(self)@ == old(self)@
                    &&& final(space)@ == old(space)@
                    &&& if page_request_valid(allocation_strategy, pages as int, alignment as int) {
                        e == EfiError::OutOfResources && !old(self)@.can_place(
                            old(space)@,
                            allocation_strategy,
                            old(self)@.rounded_pages(pages as int),
                            old(self)@.effective_alignment(alignment as int),
                        )
                    } else {
                        e == EfiError::InvalidParameter
                    }
                },
            },
    {
        let ghost a = self@;
        let ghost sp = space@;
        let strategy_address_ok = match allocation_strategy {
            AllocationStrategy::BottomUp(Some(x)) => x % UEFI_PAGE_SIZE == 0,
            AllocationStrategy::TopDown(Some(x)) => x % UEFI_PAGE_SIZE == 0,
            AllocationStrategy::Address(x) => x % UEFI_PAGE_SIZE == 0,
            _ => true,
        };
        if pages == 0 || alignment < UEFI_PAGE_SIZE || alignment % UEFI_PAGE_SIZE != 0
            || !strategy_address_ok {
            return Err(EfiError::InvalidParameter);
        }
        let align = if alignment >= self.granularity {
            alignment
        } else {
            self.granularity
        };
        let k = match self.rounded_pages(pages) {
            Some(k) => k,
            None => {
                proof {
                    lemma_no_place_for_oversized(a, sp, allocation_strategy, a.rounded_pages(pages as int), align as int);
                }
                return Err(EfiError::OutOfResources);
            },
        };
        proof {
            lemma_round_up(pages as int, a.granularity_pages());
        }
        let (j, from_reserve) = match self.place_run(space, &allocation_strategy, k, align) {
            Some(found) => found,
            None => {
                return Err(EfiError::OutOfResources);
            },
        };
        proof {
            assert(sp.addr(j + k) <= sp.end()) by (nonlinear_arith)
                requires
                    j + k <= sp.pages.len(),
            ;
        }
        space.set_run(j, k, PageState::Pages(self.owner));
        let start = space.base() + j * UEFI_PAGE_SIZE;
        let end = start + k * UEFI_PAGE_SIZE;
        self.claim_stats(k, from_reserve);
        self.stats.page_allocation_calls = self.stats.page_allocation_calls.saturating_add(1);
        proof {
            let sp2 = space@;
            assert(sp.page_of(start as int) == j);
            assert forall|x: int| 0 <= x < sp.pages.len() && sp.pages[x] == PageState::Pool(a.owner) implies sp2.pages[x] == PageState::Pool(a.owner) by {
                if j <= x < j + k {
                    assert(sp.pages[x] == if from_reserve { PageState::Reserved(a.owner) } else { PageState::Free });
                }
            }
            lemma_reservation_kept_by_claim(a, sp, sp2, j as int, k as int, from_reserve, allocation_strategy, align as int);
            lemma_consistent_kept(a, sp, sp2);
        }
        Ok(AddressRange { start, end })
    }

    /// Frees `pages` pages at `address`, which this allocator handed out.
    ///
    /// The count is rounded up to the page-allocation granularity as it was
    /// when the pages were allocated. Pages inside the reservation return to it
    /// and stay unavailable to other allocators; all others become free.
    pub fn free_pages(&mut self, space: &mut MemorySpace, address: usize, pages: usize) -> (r:
        Result<(), EfiError>)
        requires
            old(self)@.consistent(old(space)@),
        ensures
            final(self)@.consistent(final(space)@),
            final(self)@.stats.dominates(old(self)@.stats),
            r == old(self)@.free_pages_outcome(old(space)@, address as int, pages as int),
            match r {
                Ok(()) => old(self)@.pages_freed(
                    old(space)@,
                    address as int,
                    pages as int,
                    final(self)@,
                    final(space)@,
                ),
                Err(_) => final(self)@ == old(self)@ && final(space)@ == old(space)@,
            },
    {
        let ghost a = self@;
        let ghost sp = space@;
        if pages == 0 || address % UEFI_PAGE_SIZE != 0 {
            return Err(EfiError::InvalidParameter);
        }
        let k = match self.rounded_pages(pages) {
            Some(k) => k,
            None => {
                return Err(EfiError::NotFound);
            },
        };
        let base = space.base();
        if address < base {
            return Err(EfiError::NotFound);
        }
        let j = (address - base) / UEFI_PAGE_SIZE;
        if !space.run_in_state(j, k, PageState::Pages(self.owner)) {
            return Err(EfiError::NotFound);
        }
        let end = j + k;
        let mut i: usize = j;
        while i < end
            invariant
                a == self@,
                a.consistent(sp),
                base as int == sp.base,
                sp.run_in_state(j as int, k as int, PageState::Pages(a.owner)),
                end == j + k,
                j <= i <= end,
                space@.base == sp.base,
                space@.headers == sp.headers,
                space@.pages.len() == sp.pages.len(),
                forall|x: int|
                    0 <= x < sp.pages.len() ==> space@.pages[x] == if j <= x < i {
                        a.freed_state(sp, x)
                    } else {
                        sp.pages[x]
                    },
            decreases end - i,
        {
            assert(sp.addr(i as int) < sp.end()) by (nonlinear_arith)
                requires
                    i < sp.pages.len(),
            ;
            let page_address = base + i * UEFI_PAGE_SIZE;
            let st = match self.reserved {
                Some(r) => if r.contains(page_address) {
                    PageState::Reserved(self.owner)
                } else {
                    PageState::Free
                },
                None => PageState::Free,
            };
            space.set_page(i, st);
            i = i + 1;
        }
        self.stats.page_free_calls = self.stats.page_free_calls.saturating_add(1);
        proof {
            let sp2 = space@;
            assert(sp2.pages =~= a.pages_after_free(sp, j as int, k as int));
            assert forall|x: int| 0 <= x < sp.pages.len() && sp.pages[x] == PageState::Pool(a.owner) implies sp2.pages[x] == PageState::Pool(a.owner) by {
                if j <= x < j + k {
                    assert(sp.pages[x] == PageState::Pages(a.owner));
                }
            }
            match a.reserved {
                Some(r) => {
                    assert forall|x: int| 0 <= x < sp2.pages.len() && r.has(sp2.addr(x)) implies #[trigger] sp2.pages[x].is_held_by(a.owner) by {
                        assert(sp.pages[x].is_held_by(a.owner));
                    }
                },
                None => {},
            }
            lemma_consistent_kept(a, sp, sp2);
            assert(self@ == AllocatorView {
                stats: AllocationStatistics {
                    page_free_calls: a.stats.page_free_calls.saturating_add(1),
                    ..a.stats
                },
                ..a
            });
        }
        Ok(())
    }

    /// Reserves a contiguous range of at least `pages` pages for this allocator.
    ///
    /// Later allocations are placed inside the reservation while it has room,
    /// so the memory map stays the same from boot to boot as long as usage
    /// stays within it. The reservation is made once: a second call fails with
    /// `AlreadyStarted`.
    pub fn reserve_memory_pages(&mut self, space: &mut MemorySpace, pages: usize) -> (r: Result<
        (),
        EfiError,
    >)
        requires
            old(self)@.consistent(old(space)@),
        ensures
            final(self)@.consistent(final(space)@),
            final(self)@.stats.dominates(old(self)@.stats),
            r == old(self)@.reserve_outcome(old(space)@, pages as int),
            match r {
                Ok(()) => old(self)@.reservation_made(
                    old(space)@,
                    pages as int,
                    final(self)@,
                    final(space)@,
                ),
                Err(_) => final(self)@ == old(self)@ && final(space)@ == old(space)@,
            },
    {
        let ghost a = self@;
        let ghost sp = space@;
        if self.reserved.is_some() {
            return Err(EfiError::AlreadyStarted);
        }
        if pages == 0 {
            return Err(EfiError::InvalidParameter);
        }
        let strategy = AllocationStrategy::BottomUp(None);
        let k = match self.rounded_pages(pages) {
            Some(k) => k,
            None => {
                proof {
                    let k = a.rounded_pages(pages as int);
                    assert(sp.pages.len() < k) by (nonlinear_arith)
                        requires
                            sp.base + sp.pages.len() * 4096 <= usize::MAX,
                            sp.base >= 0,
                            k > usize::MAX,
                    ;
                    assert(sp.no_candidate(k, a.granularity as int, PageState::Free, 0, usize::MAX as int, strategy));
                }
                return Err(EfiError::OutOfResources);
            },
        };
        proof {
            lemma_round_up(pages as int, a.granularity_pages());
        }
        let j = match space.find_run(&strategy, k, self.granularity, PageState::Free, 0, usize::MAX) {
            Some(j) => j,
            None => {
                return Err(EfiError::OutOfResources);
            },
        };
        proof {
            assert(sp.addr(j + k) <= sp.end()) by (nonlinear_arith)
                requires
                    j + k <= sp.pages.len(),
            ;
        }
        space.set_run(j, k, PageState::Reserved(self.owner));
        let start = space.base() + j * UEFI_PAGE_SIZE;
        let end = start + k * UEFI_PAGE_SIZE;
        self.reserved = Some(AddressRange { start, end });
        self.stats.reserved_size = k * UEFI_PAGE_SIZE;
        self.stats.claimed_pages = self.stats.claimed_pages.saturating_add(k);
        proof {
            let sp2 = space@;
            assert(sp.page_of(start as int) == j);
            assert forall|x: int| 0 <= x < sp.pages.len() && sp.pages[x] == PageState::Pool(a.owner) implies sp2.pages[x] == PageState::Pool(a.owner) by {
                if j <= x < j + k {
                    assert(sp.pages[x] == PageState::Free);
                }
            }
            let r = AddressRange { start, end };
            assert forall|x: int| 0 <= x < sp2.pages.len() && r.has(sp2.addr(x)) implies #[trigger] sp2.pages[x].is_held_by(a.owner) by {
                assert(j <= x < j + k);
            }
            assert(self@.reservation_held(sp2));
            lemma_consistent_kept(a, sp, sp2);
            assert(self@ == AllocatorView {
                reserved: Some(r),
                stats: AllocationStatistics {
                    reserved_size: capped(k * UEFI_PAGE_SIZE),
                    claimed_pages: capped(a.stats.claimed_pages + k),
                    ..a.stats
                },
                ..a
            });
        }
        Ok(())
    }

    /// Reuses the first free block of `bs` bytes aligned to `align`.
    fn take_free_block(&mut self, bs: usize, align: usize) -> (r: Option<usize>)
        requires
            old(self)@.wf(),
            align >= 1,
        ensures
            match r {
                Some(address) => exists|i: int|
                    {
                        &&& #[trigger] old(self)@.first_free_fit(i, bs as int, align as int)
                        &&& address == old(self)@.blocks[i].address
                        &&& final(self)@ == AllocatorView {
                            blocks: old(self)@.blocks.update(
                                i,
                                PoolBlock { address, size: bs, live: true },
                            ),
                            ..old(self)@
                        }
                    },
                None => !old(self)@.has_free_fit(bs as int, align as int) && final(self)@ == old(
                    self,
                )@,
            },
    {
        let ghost a = self@;
        let mut i: usize = 0;
        while i < self.blocks.len()
            invariant
                a == self@,
                a == old(self)@,
                i <= a.blocks.len(),
                align >= 1,
                forall|i2: int| 0 <= i2 < i ==> !#[trigger] a.free_fit(i2, bs as int, align as int),
            decreases a.blocks.len() - i,
        {
            let b = self.blocks[i];
            if !b.live && b.size == bs && b.address % align == 0 {
                self.blocks.set(i, PoolBlock { address: b.address, size: bs, live: true });
                proof {
                    assert(a.first_free_fit(i as int, bs as int, align as int));
                    assert(self@.blocks =~= a.blocks.update(i as int, PoolBlock { address: b.address, size: bs, live: true }));
                }
                return Some(b.address);
            }
            i = i + 1;
        }
        proof {
            assert forall|i2: int| !#[trigger] a.free_fit(i2, bs as int, align as int) by {
                if 0 <= i2 < i {
                }
            }
        }
        None
    }

    /// Carves a block of `bs` bytes aligned to `align` from the unused tail.
    fn carve(&mut self, bs: usize, align: usize) -> (r: Option<usize>)
        requires
            old(self)@.wf(),
            align >= 1,
        ensures
            match r {
                Some(address) => {
                    &&& old(self)@.bump_fits(bs as int, align as int)
                    &&& address == round_up(old(self)@.bump_next, align as int)
                    &&& final(self)@ == AllocatorView {
                        blocks: old(self)@.blocks.push(PoolBlock { address, size: bs, live: true }),
                        bump_next: address + bs,
                        ..old(self)@
                    }
                },
                None => !old(self)@.bump_fits(bs as int, align as int) && final(self)@ == old(
                    self,
                )@,
            },
    {
        let start = match checked_round_up(self.bump_next, align) {
            Some(s) => s,
            None => {
                return None;
            },
        };
        if start > self.bump_end || bs > self.bump_end - start {
            return None;
        }
        self.blocks.push(PoolBlock { address: start, size: bs, live: true });
        self.bump_next = start + bs;
        Some(start)
    }

    /// Claims a new backing range for a block of `bs` bytes aligned to
    /// `align`, placed bottom-up, and makes it the unused tail.
    fn expand(&mut self, space: &mut MemorySpace, bs: usize, align: usize) -> (r: bool)
        requires
            old(self)@.consistent(old(space)@),
            align >= 1,
            bs >= 1,
        ensures
            final(self)@.consistent(final(space)@),
            final(space)@.headers == old(space)@.headers,
            final(space)@.base == old(space)@.base,
            ({
                let a = old(self)@;
                let sp = old(space)@;
                let k = a.expansion_pages(bs as int, align as int);
                let strategy = AllocationStrategy::BottomUp(None);
                let g = a.granularity as int;
                if r {
                    exists|j: int|
                        {
                            &&& #[trigger] a.chosen_run(sp, strategy, k, g, j)
                            &&& final(space)@.pages == sp.with_run(j, k, PageState::Pool(a.owner))
                            &&& final(self)@ == AllocatorView {
                                backing: a.backing.push(
                                    AddressRange {
                                        start: sp.addr(j) as usize,
                                        end: sp.addr(j + k) as usize,
                                    },
                                ),
                                bump_next: sp.addr(j),
                                bump_end: sp.addr(j + k),
                                stats: AllocatorView::stats_after_claim(
                                    a.stats,
                                    k,
                                    a.reserve_hit(sp, strategy, k, g),
                                ),
                                ..a
                            }
                            &&& sp.addr(j + k) - sp.addr(j) >= bs + align - 1
                        }
                } else {
                    &&& !a.can_place(sp, strategy, k, g)
                    &&& final(self)@ == a
                    &&& final(space)@ == sp
                }
            }),
    {
        let ghost a = self@;
        let ghost sp = space@;
        let strategy = AllocationStrategy::BottomUp(None);
        let ghost need = bs + align - 1;
        let ghost np = round_up(need, UEFI_PAGE_SIZE as int) / UEFI_PAGE_SIZE as int;
        let ghost gk = a.expansion_pages(bs as int, align as int);
        proof {
            lemma_round_up(need, UEFI_PAGE_SIZE as int);
            lemma_round_up(np, a.granularity_pages());
            assert(a.granularity_pages() >= 1);
            assert(np * UEFI_PAGE_SIZE == round_up(need, UEFI_PAGE_SIZE as int));
            assert(gk * UEFI_PAGE_SIZE >= need) by (nonlinear_arith)
                requires
                    gk >= np,
                    np * UEFI_PAGE_SIZE >= need,
            ;
        }
        let k = match bs.checked_add(align - 1) {
            Some(need_exec) => {
                match checked_round_up(need_exec, UEFI_PAGE_SIZE) {
                    Some(bytes) => {
                        match self.rounded_pages(bytes / UEFI_PAGE_SIZE) {
                            Some(k) => k,
                            None => {
                                proof {
                                    lemma_no_place_for_oversized(a, sp, strategy, gk, a.granularity as int);
                                }
                                return false;
                            },
                        }
                    },
                    None => {
                        proof {
                            lemma_no_place_when_too_long(a, sp, strategy, gk, a.granularity as int);
                        }
                        return false;
                    },
                }
            },
            None => {
                proof {
                    lemma_no_place_when_too_long(a, sp, strategy, gk, a.granularity as int);
                }
                return false;
            },
        };
        let (j, from_reserve) = match self.place_run(space, &strategy, k, self.granularity) {
            Some(found) => found,
            None => {
                return false;
            },
        };
        proof {
            assert(sp.addr(j + k) <= sp.end()) by (nonlinear_arith)
                requires
                    j + k <= sp.pages.len(),
            ;
        }
        space.set_run(j, k, PageState::Pool(self.owner));
        let start = space.base() + j * UEFI_PAGE_SIZE;
        let end = start + k * UEFI_PAGE_SIZE;
        self.backing.push(AddressRange { start, end });
        self.claim_stats(k, from_reserve);
        proof {
            let sp2 = space@;
            assert forall|x: int| 0 <= x < sp.pages.len() && sp.pages[x] == PageState::Pool(a.owner) implies sp2.pages[x] == PageState::Pool(a.owner) by {}
            lemma_reservation_kept_by_claim(a, sp, sp2, j as int, k as int, from_reserve, strategy, a.granularity as int);
            lemma_consistent_kept(a, sp, sp2);
            let st = if from_reserve { PageState::Reserved(a.owner) } else { PageState::Free };
            assert(sp.run_in_state(j as int, k as int, st));
            assert forall|i: int| 0 <= i < a.blocks.len() implies #[trigger] a.blocks[i].address + a.blocks[i].size <= start || end <= a.blocks[i].address by {
                let b = a.blocks[i];
                if !(b.address + b.size <= start || end <= b.address) {
                    let x: int = if b.address >= start { b.address as int } else { start as int };
                    assert(sp.pages[sp.page_of(x)] == PageState::Pool(a.owner));
                    lemma_page_of_in_run(sp, j as int, k as int, x);
                }
            }
            assert forall|x: int| start <= x < end implies sp2.base <= x < sp2.end() && #[trigger] sp2.pages[sp2.page_of(x)] == PageState::Pool(a.owner) by {
                lemma_page_of_in_run(sp, j as int, k as int, x);
            }
        }
        self.bump_next = start;
        self.bump_end = end;
        proof {
            assert(end - start == k * UEFI_PAGE_SIZE);
            let sp2 = space@;
            assert(a.consistent(sp2));
            assert(self@.blocks == a.blocks);
            assert(forall|i: int|
            0 <= i < self@.blocks.len() ==> self@.bump_next == self@.bump_end
                || #[trigger] self@.blocks[i].address + self@.blocks[i].size <= self@.bump_next
                || self@.bump_end <= self@.blocks[i].address);
        }
        true
    }

    /// Allocates a block for `layout` from the pool engine and returns its address.
    ///
    /// This is the byte-granular allocation that pool allocations and the
    /// global-allocator surface build on; it writes no header.
    #[verifier::rlimit(80)]
    pub fn allocate(&mut self, space: &mut MemorySpace, layout: Layout) -> (r: Result<usize, EfiError>)
        requires
            old(self)@.consistent(old(space)@),
        ensures
            final(self)@.consistent(final(space)@),
            final(self)@.stats.dominates(old(self)@.stats),
            final(space)@.headers == old(space)@.headers,
            ({
                let bs = block_size_for(layout.spec_size() as int);
                let align = layout.spec_align() as int;
                match r {
                    Ok(address) => {
                        &&& address as int % align == 0
                        &&& address >= UEFI_PAGE_SIZE
                        &&& address + bs <= usize::MAX
                        &&& old(self)@.allocated(
                            old(space)@,
                            bs,
                            align,
                            address as int,
                            final(self)@,
                            final(space)@,
                        )
                    },
                    Err(e) => {
                        &&& e == EfiError::OutOfResources
                        &&& !old(self)@.can_allocate(old(space)@, bs, align)
                        &&& final(self)@ == old(self)@
                        &&& final(space)@ == old(space)@
                    },
                }
            }),
    {
        let ghost a = self@;
        let ghost sp = space@;
        let size = layout.size();
        let align = layout.align();
        let ghost gbs = block_size_for(size as int);
        proof {
            lemma_round_up(size as int, UEFI_POOL_ALIGN as int);
            lemma_expansion_pages(a, gbs, align as int);
        }
        let bs = if size == 0 {
            UEFI_POOL_ALIGN
        } else {
            match checked_round_up(size, UEFI_POOL_ALIGN) {
                Some(b) => b,
                None => {
                    proof {
                        lemma_no_place_when_too_long(a, sp, AllocationStrategy::BottomUp(None), a.expansion_pages(gbs, align as int), a.granularity as int);
                        assert forall|i: int| !#[trigger] a.free_fit(i, gbs, align as int) by {}
                    }
                    return Err(EfiError::OutOfResources);
                },
            }
        };
        let stats = AllocationStatistics {
            pool_allocation_calls: self.stats.pool_allocation_calls.saturating_add(1),
            ..self.stats
        };
        match self.take_free_block(bs, align) {
            Some(address) => {
                proof {
                    let i = choose|i: int| #[trigger] a.first_free_fit(i, bs as int, align as int)
                        && address == a.blocks[i].address && self@ == AllocatorView {
                        blocks: a.blocks.update(i, PoolBlock { address, size: bs, live: true }),
                        ..a
                    };
                    lemma_relabel_keeps_consistent(a, sp, i, true);
                    assert(PoolBlock { live: true, ..a.blocks[i] } == PoolBlock { address, size: bs, live: true });
                    assert(range_in_pool(sp, a.owner, a.blocks[i].address as int, a.blocks[i].address + a.blocks[i].size));
                    assert(sp.pages[sp.page_of(address as int)] == PageState::Pool(a.owner));
                }
                self.stats = stats;
                return Ok(address);
            },
            None => {},
        }
        match self.carve(bs, align) {
            Some(address) => {
                proof {
                    lemma_round_up(a.bump_next, align as int);
                    lemma_carve_keeps_consistent(a, sp, bs as int, align as int, address as int);
                    assert(sp.pages[sp.page_of(address as int)] == PageState::Pool(a.owner));
                }
                self.stats = stats;
                return Ok(address);
            },
            None => {},
        }
        if !self.expand(space, bs, align) {
            proof {
                assert(!a.has_free_fit(bs as int, align as int));
            }
            return Err(EfiError::OutOfResources);
        }
        let ghost a1 = self@;
        let ghost sp1 = space@;
        proof {
            lemma_round_up(a1.bump_next, align as int);
        }
        match self.carve(bs, align) {
            Some(address) => {
                proof {
                    lemma_carve_keeps_consistent(a1, sp1, bs as int, align as int, address as int);
                    assert(sp1.pages[sp1.page_of(address as int)] == PageState::Pool(a.owner));
                }
                self.stats = AllocationStatistics {
                    pool_allocation_calls: self.stats.pool_allocation_calls.saturating_add(1),
                    ..self.stats
                };
                proof {
                    let k = a.expansion_pages(bs as int, align as int);
                    let strategy = AllocationStrategy::BottomUp(None);
                    let g = a.granularity as int;
                    let j = choose|j: int|
                        {
                            &&& #[trigger] a.chosen_run(sp, strategy, k, g, j)
                            &&& sp1.pages == sp.with_run(j, k, PageState::Pool(a.owner))
                            &&& a1 == AllocatorView {
                                backing: a.backing.push(
                                    AddressRange {
                                        start: sp.addr(j) as usize,
                                        end: sp.addr(j + k) as usize,
                                    },
                                ),
                                bump_next: sp.addr(j),
                                bump_end: sp.addr(j + k),
                                stats: AllocatorView::stats_after_claim(
                                    a.stats,
                                    k,
                                    a.reserve_hit(sp, strategy, k, g),
                                ),
                                ..a
                            }
                            &&& sp.addr(j + k) - sp.addr(j) >= bs + align - 1
                        };
                    assert(self@.stats == AllocatorView::stats_after_claim(stats, k, a.reserve_hit(sp, strategy, k, g)));
                }
                Ok(address)
            },
            None => {
                proof {
                    assert(false);
                }
                Err(EfiError::OutOfResources)
            },
        }
    }

    /// Releases the live block at `address` that was allocated for `layout`;
    /// does nothing when there is no such block.
    pub fn deallocate(&mut self, address: usize, layout: Layout)
        requires
            old(self)@.wf(),
        ensures
            old(self)@.released(
                address as int,
                block_size_for(layout.spec_size() as int),
                final(self)@,
            ),
            final(self)@.stats.dominates(old(self)@.stats),
            forall|sp: SpaceView| old(self)@.consistent(sp) ==> final(self)@.consistent(sp),
    {
        let ghost a = self@;
        let size = layout.size();
        let bs = if size == 0 {
            UEFI_POOL_ALIGN
        } else {
            match checked_round_up(size, UEFI_POOL_ALIGN) {
                Some(b) => b,
                None => {
                    proof {
                        assert forall|i: int| !#[trigger] a.live_block(i, address as int, block_size_for(size as int)) by {}
                    }
                    return;
                },
            }
        };
        let mut i: usize = 0;
        while i < self.blocks.len()
            invariant
                a == self@,
                a == old(self)@,
                i <= a.blocks.len(),
                bs == block_size_for(size as int),
                size == layout.spec_size(),
                forall|i2: int| 0 <= i2 < i ==> !#[trigger] a.live_block(i2, address as int, bs as int),
            decreases a.blocks.len() - i,
        {
            let b = self.blocks[i];
            if b.live && b.address == address && b.size == bs {
                self.blocks.set(i, PoolBlock { address: b.address, size: b.size, live: false });
                self.stats.pool_free_calls = self.stats.pool_free_calls.saturating_add(1);
                proof {
                    assert(a.live_block(i as int, address as int, bs as int));
                    assert(self@.blocks =~= a.blocks.update(i as int, PoolBlock { live: false, ..a.blocks[i as int] }));
                    assert(self@ == AllocatorView {
                        blocks: a.blocks.update(i as int, PoolBlock { live: false, ..a.blocks[i as int] }),
                        stats: AllocationStatistics {
                            pool_free_calls: a.stats.pool_free_calls.saturating_add(1),
                            ..a.stats
                        },
                        ..a
                    });
                    assert forall|sp: SpaceView| a.consistent(sp) implies self@.consistent(sp) by {
                        lemma_relabel_keeps_consistent(a, sp, i as int, false);
                    }
                    assert(a.released(address as int, bs as int, self@));
                }
                return;
            }
            i = i + 1;
        }
        proof {
            assert forall|i2: int| !#[trigger] a.live_block(i2, address as int, bs as int) by {
                if 0 <= i2 < i {
                }
            }
        }
    }

    /// Allocates memory for `layout`; returns its address, or 0 when no memory is left.
    pub fn global_alloc(&mut self, space: &mut MemorySpace, layout: Layout) -> (r: usize)
        requires
            old(self)@.consistent(old(space)@),
        ensures
            final(self)@.consistent(final(space)@),
            final(space)@.headers == old(space)@.headers,
            ({
                let bs = block_size_for(layout.spec_size() as int);
                let align = layout.spec_align() as int;
                if old(self)@.can_allocate(old(space)@, bs, align) {
                    &&& r != 0
                    &&& r as int % align == 0
                    &&& old(self)@.allocated(
                        old(space)@,
                        bs,
                        align,
                        r as int,
                        final(self)@,
                        final(space)@,
                    )
                } else {
                    &&& r == 0
                    &&& final(self)@ == old(self)@
                    &&& final(space)@ == old(space)@
                }
            }),
    {
        match self.allocate(space, layout) {
            Ok(address) => address,
            Err(_) => 0,
        }
    }

    /// Releases memory that [`Self::global_alloc`] returned for `layout`.
    pub fn dealloc(&mut self, address: usize, layout: Layout)
        requires
            old(self)@.wf(),
        ensures
            old(self)@.released(
                address as int,
                block_size_for(layout.spec_size() as int),
                final(self)@,
            ),
            forall|sp: SpaceView| old(self)@.consistent(sp) ==> final(self)@.consistent(sp),
    {
        self.deallocate(address, layout)
    }

    /// Allocates a pool buffer of `size` bytes and returns its address.
    ///
    /// A header recording the pool signature, this allocator's memory type and
    /// the combined layout is written in front of the buffer. The buffer is
    /// aligned to [`UEFI_POOL_ALIGN`].
    pub fn allocate_pool(&mut self, space: &mut MemorySpace, size: usize) -> (r: Result<usize, EfiError>)
        requires
            old(self)@.consistent(old(space)@),
        ensures
            final(self)@.consistent(final(space)@),
            final(self)@.stats.dominates(old(self)@.stats),
            match r {
                Ok(buffer) => old(self)@.pool_allocated(
                    old(space)@,
                    size as int,
                    buffer as int,
                    final(self)@,
                    final(space)@,
                ),
                Err(e) => {
                    &&& e == EfiError::OutOfResources
                    &&& !(pool_request_valid(size as int) && old(self)@.can_allocate(
                        old(space)@,
                        block_size_for(POOL_HEADER_SIZE + size),
                        UEFI_POOL_ALIGN as int,
                    ))
                    &&& final(self)@ == old(self)@
                    &&& final(space)@ == old(space)@
                },
            },
    {
        proof {
            reveal_with_fuel(is_power_of_two, 4);
            lemma_round_up(POOL_HEADER_SIZE as int, UEFI_POOL_ALIGN as int);
        }
        let header = match Layout::from_size_align(POOL_HEADER_SIZE, UEFI_POOL_ALIGN) {
            Ok(l) => l,
            Err(_) => {
                return Err(EfiError::OutOfResources);
            },
        };
        let payload = match Layout::from_size_align(size, UEFI_POOL_ALIGN) {
            Ok(l) => l,
            Err(_) => {
                return Err(EfiError::OutOfResources);
            },
        };
        let (layout, offset) = match header.extend(&payload) {
            Ok(x) => x,
            Err(_) => {
                return Err(EfiError::OutOfResources);
            },
        };
        let block = match self.allocate(space, layout) {
            Ok(address) => address,
            Err(e) => {
                return Err(e);
            },
        };
        let info = AllocationInfo {
            signature: POOL_SIG,
            memory_type: self.owner.memory_type,
            layout,
        };
        let ghost mid = space@;
        space.write_header(block, info);
        proof {
            lemma_consistent_ignores_headers(self@, mid, space@);
            assert(offset == POOL_HEADER_SIZE);
            assert((block + offset) % 8 == 0);
        }
        Ok(block + offset)
    }

    /// Frees a pool buffer that [`Self::allocate_pool`] returned.
    ///
    /// The header in front of `buffer` must carry the pool signature, or the
    /// free is rejected with `InvalidParameter`; it must carry this allocator's
    /// memory type, or the free is rejected with `NotFound`. Otherwise the
    /// signature is zeroed, so that the same buffer cannot be freed twice, and
    /// the block is released.
    pub fn free_pool(&mut self, space: &mut MemorySpace, buffer: usize) -> (r: Result<(), EfiError>)
        requires
            old(self)@.consistent(old(space)@),
        ensures
            final(self)@.consistent(final(space)@),
            final(self)@.stats.dominates(old(self)@.stats),
            r == old(self)@.free_pool_outcome(old(space)@, buffer as int),
            match r {
                Ok(()) => old(self)@.pool_freed(
                    old(space)@,
                    buffer as int,
                    final(self)@,
                    final(space)@,
                ),
                Err(_) => final(self)@ == old(self)@ && final(space)@ == old(space)@,
            },
    {
        if buffer < POOL_HEADER_SIZE {
            return Err(EfiError::InvalidParameter);
        }
        let h = buffer - POOL_HEADER_SIZE;
        let info = match space.header(h) {
            Some(info) => info,
            None => {
                return Err(EfiError::InvalidParameter);
            },
        };
        if info.signature != POOL_SIG {
            return Err(EfiError::InvalidParameter);
        }
        if info.memory_type != self.owner.memory_type {
            return Err(EfiError::NotFound);
        }
        let ghost before = space@;
        space.write_header(h, AllocationInfo { signature: 0, ..info });
        proof {
            lemma_consistent_ignores_headers(self@, before, space@);
        }
        self.deallocate(h, info.layout);
        Ok(())
    }

    /// Records a claim of `k` pages in the statistics.
    fn claim_stats(&mut self, k: usize, from_reserve: bool)
        ensures
            final(self)@ == (AllocatorView {
                stats: AllocatorView::stats_after_claim(old(self)@.stats, k as int, from_reserve),
                ..old(self)@
            }),
    {
        if from_reserve {
            let bytes = if k <= usize::MAX / UEFI_PAGE_SIZE {
                k * UEFI_PAGE_SIZE
            } else {
                usize::MAX
            };
            self.stats.reserved_used = self.stats.reserved_used.saturating_add(bytes);
            assert(self.stats.reserved_used == capped(old(self)@.stats.reserved_used + k * UEFI_PAGE_SIZE));
        } else {
            self.stats.claimed_pages = self.stats.claimed_pages.saturating_add(k);
        }
    }
}

} // verus!
