//! Properties that hold across calls of the allocator, proved over the
//! predicates that the operations' contracts use.
use crate::allocator::{
    block_size_for, AllocatorView, POOL_HEADER_SIZE, POOL_SIG, UEFI_POOL_ALIGN,
};
use crate::efi::{EfiError, UEFI_PAGE_SIZE};
use crate::layout::{lemma_round_up, round_up};
use crate::space::{AddressRange, AllocationStrategy, Owner, PageState, SpaceView};
use crate::allocator::page_request_valid;
use vstd::prelude::*;

verus! {

/// A multiple of a multiple of `p` is a multiple of `p`.
pub proof fn lemma_mod_of_multiple(x: int, m: int, p: int)
    requires
        x >= 0,
        m > 0,
        p > 0,
        x % m == 0,
        m % p == 0,
    ensures
        x % p == 0,
{
    vstd::arithmetic::div_mod::lemma_fundamental_div_mod(x, m);
    vstd::arithmetic::div_mod::lemma_fundamental_div_mod(m, p);
    let q = x / m;
    let t = m / p;
    assert(x == p * (t * q)) by (nonlinear_arith)
        requires
            x == m * q,
            m == p * t,
    ;
    vstd::arithmetic::div_mod::lemma_mod_multiples_basic(t * q, p);
    assert(p * (t * q) == (t * q) * p) by (nonlinear_arith);
}

/// A request of at least one page claims at least one page.
pub proof fn lemma_rounded_positive(a: AllocatorView, pages: int)
    requires
        a.wf(),
        pages >= 1,
    ensures
        a.rounded_pages(pages) >= pages,
        a.rounded_pages(pages) % a.granularity_pages() == 0,
{
    lemma_round_up(pages, a.granularity_pages());
}

/// Page ranges are isolated by memory type: when allocators `a` and `b` of
/// different memory types each hold a range of page allocations, freeing one
/// allocator's range through the other fails with `NotFound`, in both
/// directions. A failed free changes neither allocator nor the space.
pub proof fn lemma_type_isolation(
    a: AllocatorView,
    b: AllocatorView,
    sp: SpaceView,
    a_start: int,
    a_pages: int,
    b_start: int,
    b_pages: int,
)
    requires
        a.wf(),
        b.wf(),
        a.owner.memory_type != b.owner.memory_type,
        a.free_pages_outcome(sp, a_start, a_pages) == Ok::<(), EfiError>(()),
        b.free_pages_outcome(sp, b_start, b_pages) == Ok::<(), EfiError>(()),
    ensures
        a.free_pages_outcome(sp, b_start, b_pages) == Err::<(), EfiError>(EfiError::NotFound),
        b.free_pages_outcome(sp, a_start, a_pages) == Err::<(), EfiError>(EfiError::NotFound),
{
    lemma_rounded_positive(a, a_pages);
    lemma_rounded_positive(b, a_pages);
    lemma_rounded_positive(a, b_pages);
    lemma_rounded_positive(b, b_pages);
    let ja = sp.page_of(a_start);
    let jb = sp.page_of(b_start);
    assert(sp.pages[ja] == PageState::Pages(a.owner));
    assert(sp.pages[jb] == PageState::Pages(b.owner));
}

/// A pool buffer can be freed right after it is allocated; once freed, its
/// block is free again with the size and alignment of the request, so the
/// next pool allocation of the same size reuses a freed block rather than
/// claiming new memory.
pub proof fn lemma_pool_round_trip(
    a: AllocatorView,
    sp: SpaceView,
    size: int,
    buffer: usize,
    a2: AllocatorView,
    sp2: SpaceView,
    a3: AllocatorView,
    sp3: SpaceView,
)
    requires
        a.consistent(sp),
        a.pool_allocated(sp, size, buffer as int, a2, sp2),
    ensures
        a2.free_pool_outcome(sp2, buffer as int) == Ok::<(), EfiError>(()),
        a2.pool_freed(sp2, buffer as int, a3, sp3) ==> a3.has_free_fit(
            block_size_for(POOL_HEADER_SIZE + size),
            UEFI_POOL_ALIGN as int,
        ),
{
    let h = buffer - POOL_HEADER_SIZE;
    let bs = block_size_for(POOL_HEADER_SIZE + size);
    let align = UEFI_POOL_ALIGN as int;
    assert(sp2.headers.contains_key(h as usize));
    lemma_round_up(POOL_HEADER_SIZE + size, UEFI_POOL_ALIGN as int);
    assert(bs <= usize::MAX);
    lemma_allocated_block_live(a, sp, bs, align, h, a2, sp2);
    if a2.pool_freed(sp2, buffer as int, a3, sp3) {
        let i = choose|i: int| #[trigger] a2.live_block(i, h, bs);
        assert(a2.released(h, bs, a3));
        let i2 = choose|i2: int|
            {
                &&& #[trigger] a2.live_block(i2, h, bs)
                &&& a3 == AllocatorView {
                    blocks: a2.blocks.update(i2, crate::allocator::PoolBlock { live: false, ..a2.blocks[i2] }),
                    stats: crate::allocator::AllocationStatistics {
                        pool_free_calls: a2.stats.pool_free_calls.saturating_add(1),
                        ..a2.stats
                    },
                    ..a2
                }
            };
        assert(a3.free_fit(i2, bs, align));
    }
}

/// After an allocation, the engine holds a live block at the returned
/// address with the size of the request.
pub proof fn lemma_allocated_block_live(
    a: AllocatorView,
    sp: SpaceView,
    bs: int,
    align: int,
    address: int,
    a2: AllocatorView,
    sp2: SpaceView,
)
    requires
        a.allocated(sp, bs, align, address, a2, sp2),
        0 <= bs <= usize::MAX,
        0 <= address <= usize::MAX,
    ensures
        exists|i: int| #[trigger] a2.live_block(i, address, bs),
{
    let block = crate::allocator::PoolBlock {
        address: address as usize,
        size: bs as usize,
        live: true,
    };
    if a.has_free_fit(bs, align) {
        let i = choose|i: int|
            {
                &&& #[trigger] a.first_free_fit(i, bs, align)
                &&& address == a.blocks[i].address
                &&& a2 == AllocatorView {
                    blocks: a.blocks.update(i, block),
                    stats: crate::allocator::AllocationStatistics {
                        pool_allocation_calls: a.stats.pool_allocation_calls.saturating_add(1),
                        ..a.stats
                    },
                    ..a
                }
                &&& sp2.pages == sp.pages
            };
        assert(a2.live_block(i, address, bs));
    } else {
        assert(a2.blocks.last() == block) by {
            if a.bump_fits(bs, align) {
            } else {
                let k = a.expansion_pages(bs, align);
                let strategy = AllocationStrategy::BottomUp(None);
                let g = a.granularity as int;
                let j = choose|j: int|
                    {
                        &&& #[trigger] a.chosen_run(sp, strategy, k, g, j)
                        &&& address == round_up(sp.addr(j), align)
                        &&& sp2.pages == sp.with_run(j, k, PageState::Pool(a.owner))
                        &&& a2 == AllocatorView {
                            blocks: a.blocks.push(block),
                            backing: a.backing.push(
                                AddressRange {
                                    start: sp.addr(j) as usize,
                                    end: sp.addr(j + k) as usize,
                                },
                            ),
                            bump_next: address + bs,
                            bump_end: sp.addr(j + k),
                            stats: AllocatorView::stats_after_claim(
                                crate::allocator::AllocationStatistics {
                                    pool_allocation_calls: a.stats.pool_allocation_calls.saturating_add(1),
                                    ..a.stats
                                },
                                k,
                                a.reserve_hit(sp, strategy, k, g),
                            ),
                            ..a
                        }
                    };
            }
        }
        assert(a2.live_block(a2.blocks.len() - 1, address, bs));
    }
}

/// The header in front of a pool buffer carries the pool signature and the
/// allocator's memory type once the buffer is allocated, and no longer
/// carries the signature once the buffer is freed.
pub proof fn lemma_header_integrity(
    a: AllocatorView,
    sp: SpaceView,
    size: int,
    buffer: usize,
    a2: AllocatorView,
    sp2: SpaceView,
    a3: AllocatorView,
    sp3: SpaceView,
)
    requires
        a.pool_allocated(sp, size, buffer as int, a2, sp2),
    ensures
        ({
            let h = (buffer - POOL_HEADER_SIZE) as usize;
            &&& sp2.headers.contains_key(h)
            &&& sp2.headers[h].signature == POOL_SIG
            &&& sp2.headers[h].memory_type == a.owner.memory_type
            &&& a2.pool_freed(sp2, buffer as int, a3, sp3) ==> sp3.headers.contains_key(h)
                && sp3.headers[h].signature != POOL_SIG
        }),
{
}

/// A page allocation starts on a page boundary aligned to the effective
/// alignment, and spans the request rounded up to the granularity. When the
/// request is at most one granule, or a whole number of granules, that span
/// is the larger of the request and the granularity.
pub proof fn lemma_page_alignment_and_size(
    a: AllocatorView,
    sp: SpaceView,
    strategy: AllocationStrategy,
    pages: int,
    alignment: int,
    range: AddressRange,
    a2: AllocatorView,
    sp2: SpaceView,
)
    requires
        a.consistent(sp),
        a.pages_allocated(sp, strategy, pages, alignment, range, a2, sp2),
    ensures
        range.start as int % a.effective_alignment(alignment) == 0,
        range.start as int % UEFI_PAGE_SIZE as int == 0,
        range.end - range.start == a.rounded_pages(pages) * UEFI_PAGE_SIZE,
        (range.end - range.start) % a.granularity as int == 0,
        pages * UEFI_PAGE_SIZE <= a.granularity || pages % a.granularity_pages() == 0 ==> range.end
            - range.start == if pages * UEFI_PAGE_SIZE >= a.granularity {
            pages * UEFI_PAGE_SIZE
        } else {
            a.granularity as int
        },
{
    let k = a.rounded_pages(pages);
    let align = a.effective_alignment(alignment);
    let gp = a.granularity_pages();
    lemma_rounded_positive(a, pages);
    lemma_round_up(pages, gp);
    lemma_mod_of_multiple(range.start as int, align, UEFI_PAGE_SIZE as int);
    assert(a.granularity == gp * UEFI_PAGE_SIZE);
    vstd::arithmetic::div_mod::lemma_fundamental_div_mod(k, gp);
    assert(k * UEFI_PAGE_SIZE == (k / gp) * a.granularity) by (nonlinear_arith)
        requires
            k == gp * (k / gp),
            a.granularity == gp * UEFI_PAGE_SIZE,
    ;
    vstd::arithmetic::div_mod::lemma_mod_multiples_basic(k / gp, a.granularity as int);
    if pages <= gp {
        assert(k == gp);
    }
    if pages % gp == 0 {
        assert(k == pages);
        vstd::arithmetic::div_mod::lemma_fundamental_div_mod(pages, gp);
        assert(pages >= gp) by (nonlinear_arith)
            requires
                pages == gp * (pages / gp),
                pages >= 1,
                gp >= 1,
        ;
    }
}

/// Freeing a page allocation and then asking for the same page count at its
/// start address with the exact-address strategy places the new allocation on
/// the identical range: the request is well formed, a run can be placed, and
/// the run chosen is the freed one.
pub proof fn lemma_exact_address_placement(
    a: AllocatorView,
    sp: SpaceView,
    strategy: AllocationStrategy,
    pages: int,
    alignment: int,
    range: AddressRange,
    a2: AllocatorView,
    sp2: SpaceView,
    a3: AllocatorView,
    sp3: SpaceView,
)
    requires
        a.consistent(sp),
        a.pages_allocated(sp, strategy, pages, alignment, range, a2, sp2),
        a2.pages_freed(sp2, range.start as int, pages, a3, sp3),
    ensures
        ({
            let s = AllocationStrategy::Address(range.start);
            let k = a3.rounded_pages(pages);
            let align = a3.effective_alignment(alignment);
            let j = sp3.page_of(range.start as int);
            &&& page_request_valid(s, pages, alignment)
            &&& a3.can_place(sp3, s, k, align)
            &&& a3.chosen_run(sp3, s, k, align, j)
            &&& sp3.addr(j) == range.start
            &&& sp3.addr(j + k) == range.end
        }),
{
    let s = AllocationStrategy::Address(range.start);
    let k = a.rounded_pages(pages);
    let align = a.effective_alignment(alignment);
    let j = sp.page_of(range.start as int);
    let o = a.owner;
    lemma_rounded_positive(a, pages);
    lemma_mod_of_multiple(range.start as int, align, UEFI_PAGE_SIZE as int);
    assert(sp3.page_of(range.start as int) == j);
    if a.reserve_hit(sp, strategy, k, align) {
        let r = a.reserved->Some_0;
        assert(sp.is_candidate(j, k, align, PageState::Reserved(o), r.start as int, r.end as int, strategy));
        assert forall|x: int| j <= x < j + k implies sp3.pages[x] == PageState::Reserved(o) by {
            assert(r.has(sp.addr(x)));
        }
        assert(sp3.is_candidate(j, k, align, PageState::Reserved(o), r.start as int, r.end as int, s));
        assert forall|j2: int| j2 < j implies !#[trigger] sp3.is_candidate(j2, k, align, PageState::Reserved(o), r.start as int, r.end as int, s) by {}
        assert(a3.reserve_hit(sp3, s, k, align));
    } else {
        assert(sp.is_candidate(j, k, align, PageState::Free, 0, usize::MAX as int, strategy));
        assert forall|x: int| j <= x < j + k implies sp3.pages[x] == PageState::Free by {
            assert(sp.pages[x] == PageState::Free);
            match a.reserved {
                Some(r) => {
                    if r.has(sp.addr(x)) {
                        assert(sp.pages[x].is_held_by(o));
                    }
                },
                None => {},
            }
        }
        assert(sp3.is_candidate(j, k, align, PageState::Free, 0, usize::MAX as int, s));
        match a3.reserved {
            Some(r) => {
                assert forall|j2: int| !#[trigger] sp3.is_candidate(j2, k, align, PageState::Reserved(o), r.start as int, r.end as int, s) by {
                    if sp3.is_candidate(j2, k, align, PageState::Reserved(o), r.start as int, r.end as int, s) {
                        assert(j2 == j);
                        assert(sp3.pages[j] == PageState::Free);
                    }
                }
            },
            None => {},
        }
        assert(!a3.reserve_hit(sp3, s, k, align));
        assert forall|j2: int| j2 < j implies !#[trigger] sp3.is_candidate(j2, k, align, PageState::Free, 0, usize::MAX as int, s) by {}
    }
}

/// The reservation `[r.start, r.start + used)` is all page allocations of the
/// owner and the rest of it is still reserved; both ends are granule aligned.
pub open spec fn reserved_prefix(a: AllocatorView, sp: SpaceView, used: int) -> bool {
    match a.reserved {
        Some(r) => {
            &&& sp.base <= r.start
            &&& r.end <= sp.end()
            &&& (r.start - sp.base) % UEFI_PAGE_SIZE as int == 0
            &&& 0 <= used
            &&& r.start + used <= r.end
            &&& used % a.granularity as int == 0
            &&& r.start as int % a.granularity as int == 0
            &&& forall|j: int|
                0 <= j < sp.pages.len() && r.start <= sp.addr(j) < r.start + used
                    ==> #[trigger] sp.pages[j] == PageState::Pages(a.owner)
            &&& forall|j: int|
                0 <= j < sp.pages.len() && r.start + used <= sp.addr(j) < r.end
                    ==> #[trigger] sp.pages[j] == PageState::Reserved(a.owner)
        },
        None => false,
    }
}

/// Right after a reservation of `pages` pages, the whole reserved range is
/// unused, granule aligned, and at least `pages` pages long.
pub proof fn lemma_reservation_fresh(
    a: AllocatorView,
    sp: SpaceView,
    pages: int,
    a2: AllocatorView,
    sp2: SpaceView,
)
    requires
        a.consistent(sp),
        a.reservation_made(sp, pages, a2, sp2),
    ensures
        reserved_prefix(a2, sp2, 0),
        ({
            let r = a2.reserved->Some_0;
            &&& r.end - r.start >= pages * UEFI_PAGE_SIZE
            &&& (r.end - r.start) % a.granularity as int == 0
        }),
{
    let r = a2.reserved->Some_0;
    let k = a.rounded_pages(pages);
    let j = sp.page_of(r.start as int);
    lemma_rounded_positive(a, pages);
    let gp = a.granularity_pages();
    vstd::arithmetic::div_mod::lemma_fundamental_div_mod(k, gp);
    assert(a.granularity == gp * UEFI_PAGE_SIZE);
    assert(k * UEFI_PAGE_SIZE == (k / gp) * a.granularity) by (nonlinear_arith)
        requires
            k == gp * (k / gp),
            a.granularity == gp * UEFI_PAGE_SIZE,
    ;
    vstd::arithmetic::div_mod::lemma_mod_multiples_basic(k / gp, a.granularity as int);
    assert forall|x: int| 0 <= x < sp2.pages.len() && r.start <= sp2.addr(x) < r.end implies #[trigger] sp2.pages[x] == PageState::Reserved(a.owner) by {}
}

/// With the first `used` bytes of the reservation in use and room for one
/// more granule, a bottom-up allocation of up to one granule of pages lands
/// right after them, and then the first `used` plus one granule bytes are in
/// use.
pub proof fn lemma_reserved_granule_step(
    a: AllocatorView,
    sp: SpaceView,
    used: int,
    pages: int,
    range: AddressRange,
    a2: AllocatorView,
    sp2: SpaceView,
)
    requires
        a.wf(),
        sp.wf(),
        reserved_prefix(a, sp, used),
        used + a.granularity <= a.reserved->Some_0.end - a.reserved->Some_0.start,
        1 <= pages <= a.granularity_pages(),
        a.pages_allocated(
            sp,
            AllocationStrategy::BottomUp(None),
            pages,
            UEFI_PAGE_SIZE as int,
            range,
            a2,
            sp2,
        ),
    ensures
        range.start == a.reserved->Some_0.start + used,
        range.end == a.reserved->Some_0.start + used + a.granularity,
        a2.wf(),
        sp2.wf(),
        a2.reserved == a.reserved,
        a2.granularity == a.granularity,
        reserved_prefix(a2, sp2, used + a.granularity),
{
    let r = a.reserved->Some_0;
    let o = a.owner;
    let g = a.granularity as int;
    let gp = a.granularity_pages();
    let s = AllocationStrategy::BottomUp(None);
    lemma_round_up(pages, gp);
    let k = a.rounded_pages(pages);
    assert(k == gp);
    let align = a.effective_alignment(UEFI_PAGE_SIZE as int);
    assert(align == g);
    assert(g == gp * UEFI_PAGE_SIZE);
    let start = r.start + used;
    vstd::arithmetic::div_mod::lemma_fundamental_div_mod(r.start as int - sp.base, UEFI_PAGE_SIZE as int);
    let j0 = sp.page_of(start);
    assert(sp.addr(j0) == start) by {
        assert(used % g == 0);
        lemma_mod_of_multiple(used, g, UEFI_PAGE_SIZE as int);
        lemma_mod_of_multiple(r.start as int, g, UEFI_PAGE_SIZE as int);
        vstd::arithmetic::div_mod::lemma_fundamental_div_mod(start - sp.base, UEFI_PAGE_SIZE as int);
    }
    assert(start % g == 0) by {
        vstd::arithmetic::div_mod::lemma_fundamental_div_mod(used, g);
        vstd::arithmetic::div_mod::lemma_fundamental_div_mod(r.start as int, g);
        assert(start == g * (used / g + r.start as int / g)) by (nonlinear_arith)
            requires
                used == g * (used / g),
                r.start as int == g * (r.start as int / g),
                start == r.start + used,
        ;
        vstd::arithmetic::div_mod::lemma_mod_multiples_basic(used / g + r.start as int / g, g);
    }
    assert(sp.addr(j0 + k) == start + g);
    assert(0 <= j0 && j0 + k <= sp.pages.len());
    assert forall|x: int| j0 <= x < j0 + k implies sp.pages[x] == PageState::Reserved(o) by {}
    assert(sp.is_candidate(j0, k, align, PageState::Reserved(o), r.start as int, r.end as int, s));
    assert(a.reserve_hit(sp, s, k, align));
    let j = sp.page_of(range.start as int);
    assert(sp.is_candidate(j, k, align, PageState::Reserved(o), r.start as int, r.end as int, s));
    if j < j0 {
        assert(sp.pages[j] == PageState::Pages(o));
    }
    assert(j == j0);
    assert forall|x: int| 0 <= x < sp2.pages.len() && r.start <= sp2.addr(x) < r.start + used + g implies #[trigger] sp2.pages[x] == PageState::Pages(o) by {
        if sp2.addr(x) < start {
            assert(sp.pages[x] == PageState::Pages(o));
        }
    }
    assert forall|x: int| 0 <= x < sp2.pages.len() && r.start + used + g <= sp2.addr(x) < r.end implies #[trigger] sp2.pages[x] == PageState::Reserved(o) by {
        assert(sp.pages[x] == PageState::Reserved(o));
    }
    assert((used + g) % g == 0) by {
        vstd::arithmetic::div_mod::lemma_fundamental_div_mod(used, g);
        vstd::arithmetic::div_mod::lemma_mod_multiples_basic(used / g + 1, g);
        assert(used + g == (used / g + 1) * g) by (nonlinear_arith)
            requires
                used == g * (used / g),
        ;
    }
}

/// Reservation contiguity: after a reservation, a series of bottom-up
/// allocations of up to one granule of pages each, as many as the reservation
/// holds granules, places allocation `i` at `i` granules into the reserved
/// range, so all of them lie in that one contiguous range.
pub proof fn lemma_reservation_contiguity(
    views: Seq<AllocatorView>,
    spaces: Seq<SpaceView>,
    ranges: Seq<AddressRange>,
    pages: int,
)
    requires
        views.len() == ranges.len() + 1,
        spaces.len() == views.len(),
        views[0].consistent(spaces[0]),
        reserved_prefix(views[0], spaces[0], 0),
        ranges.len() * views[0].granularity <= views[0].reserved->Some_0.end
            - views[0].reserved->Some_0.start,
        1 <= pages <= views[0].granularity_pages(),
        forall|i: int|
            0 <= i < ranges.len() ==> #[trigger] views[i].pages_allocated(
                spaces[i],
                AllocationStrategy::BottomUp(None),
                pages,
                UEFI_PAGE_SIZE as int,
                ranges[i],
                views[i + 1],
                spaces[i + 1],
            ),
    ensures
        forall|i: int|
            0 <= i < ranges.len() ==> {
                let r = views[0].reserved->Some_0;
                let g = views[0].granularity as int;
                &&& #[trigger] ranges[i].start == r.start + i * g
                &&& ranges[i].end == r.start + (i + 1) * g
                &&& r.start <= ranges[i].start
                &&& ranges[i].end <= r.end
            },
{
    lemma_reservation_contiguity_upto(views, spaces, ranges, pages, ranges.len() as int);
}

proof fn lemma_reservation_contiguity_upto(
    views: Seq<AllocatorView>,
    spaces: Seq<SpaceView>,
    ranges: Seq<AddressRange>,
    pages: int,
    m: int,
)
    requires
        0 <= m <= ranges.len(),
        views.len() == ranges.len() + 1,
        spaces.len() == views.len(),
        views[0].consistent(spaces[0]),
        reserved_prefix(views[0], spaces[0], 0),
        ranges.len() * views[0].granularity <= views[0].reserved->Some_0.end
            - views[0].reserved->Some_0.start,
        1 <= pages <= views[0].granularity_pages(),
        forall|i: int|
            0 <= i < ranges.len() ==> #[trigger] views[i].pages_allocated(
                spaces[i],
                AllocationStrategy::BottomUp(None),
                pages,
                UEFI_PAGE_SIZE as int,
                ranges[i],
                views[i + 1],
                spaces[i + 1],
            ),
    ensures
        views[m].wf(),
        spaces[m].wf(),
        views[m].reserved == views[0].reserved,
        views[m].granularity == views[0].granularity,
        reserved_prefix(views[m], spaces[m], m * views[0].granularity),
        forall|i: int|
            0 <= i < m ==> {
                let r = views[0].reserved->Some_0;
                let g = views[0].granularity as int;
                &&& #[trigger] ranges[i].start == r.start + i * g
                &&& ranges[i].end == r.start + (i + 1) * g
                &&& r.start <= ranges[i].start
                &&& ranges[i].end <= r.end
            },
    decreases m,
{
    if m > 0 {
        lemma_reservation_contiguity_upto(views, spaces, ranges, pages, m - 1);
        let g = views[0].granularity as int;
        let r = views[0].reserved->Some_0;
        assert((m - 1) * g + g == m * g) by (nonlinear_arith);
        assert(m * g <= ranges.len() * g) by (nonlinear_arith)
            requires
                m <= ranges.len(),
                g >= 0,
        ;
        let i = m - 1;
        assert(views[i].pages_allocated(
            spaces[i],
            AllocationStrategy::BottomUp(None),
            pages,
            UEFI_PAGE_SIZE as int,
            ranges[i],
            views[i + 1],
            spaces[i + 1],
        ));
        assert(i + 1 == m);
        lemma_reserved_granule_step(views[m - 1], spaces[m - 1], (m - 1) * g, pages, ranges[m - 1], views[m], spaces[m]);
        assert(0 <= (m - 1) * g) by (nonlinear_arith)
            requires
                m >= 1,
                g >= 0,
        ;
    } else {
        assert(0 * views[0].granularity == 0);
    }
}

/// A reservation is made once: after one succeeds, every further reservation
/// request on the same allocator fails with `AlreadyStarted`.
pub proof fn lemma_second_reservation_refused(
    a: AllocatorView,
    sp: SpaceView,
    pages: int,
    a2: AllocatorView,
    sp2: SpaceView,
    more_pages: int,
)
    requires
        a.reservation_made(sp, pages, a2, sp2),
    ensures
        a2.reserve_outcome(sp2, more_pages) == Err::<(), EfiError>(EfiError::AlreadyStarted),
{
}

/// Once the reservation is used up, no run fits in it, and a page allocation
/// that still succeeds lies wholly outside the reserved range.
pub proof fn lemma_allocation_beyond_reservation(
    a: AllocatorView,
    sp: SpaceView,
    strategy: AllocationStrategy,
    pages: int,
    alignment: int,
    range: AddressRange,
    a2: AllocatorView,
    sp2: SpaceView,
)
    requires
        a.consistent(sp),
        reserved_prefix(a, sp, a.reserved->Some_0.end - a.reserved->Some_0.start),
        a.reserved->Some_0.start < a.reserved->Some_0.end,
        a.pages_allocated(sp, strategy, pages, alignment, range, a2, sp2),
    ensures
        !a.reserve_hit(sp, strategy, a.rounded_pages(pages), a.effective_alignment(alignment)),
        range.end <= a.reserved->Some_0.start || a.reserved->Some_0.end <= range.start,
{
    let r = a.reserved->Some_0;
    let o = a.owner;
    let k = a.rounded_pages(pages);
    let align = a.effective_alignment(alignment);
    lemma_rounded_positive(a, pages);
    assert forall|j2: int| !#[trigger] sp.is_candidate(j2, k, align, PageState::Reserved(o), r.start as int, r.end as int, strategy) by {
        if sp.is_candidate(j2, k, align, PageState::Reserved(o), r.start as int, r.end as int, strategy) {
            assert(sp.pages[j2] == PageState::Reserved(o));
            assert(sp.pages[j2] == PageState::Pages(o));
        }
    }
    let j = sp.page_of(range.start as int);
    assert(sp.is_candidate(j, k, align, PageState::Free, 0, usize::MAX as int, strategy));
    if !(range.end <= r.start || r.end <= range.start) {
        let x = if sp.addr(j) >= r.start { j } else { sp.page_of(r.start as int) };
        vstd::arithmetic::div_mod::lemma_fundamental_div_mod(r.start as int - sp.base, UEFI_PAGE_SIZE as int);
        assert(sp.addr(sp.page_of(r.start as int)) == r.start);
        assert(j <= x < j + k);
        assert(sp.run_in_state(j, k, PageState::Free));
        assert(sp.pages[x] == PageState::Free);
        assert(r.has(sp.addr(x)));
        assert(sp.pages[x].is_held_by(o));
    }
}

/// Pages freed inside the reservation stay out of reach of every other
/// allocator: no run any other allocator would choose overlaps them.
pub proof fn lemma_reserved_free_unavailable(
    a: AllocatorView,
    b: AllocatorView,
    sp: SpaceView,
    address: int,
    pages: int,
    a2: AllocatorView,
    sp2: SpaceView,
    strategy: AllocationStrategy,
    k: int,
    align: int,
    j: int,
)
    requires
        a.consistent(sp),
        a.reserved is Some,
        a.reserved->Some_0.start <= address,
        address + a.rounded_pages(pages) * UEFI_PAGE_SIZE <= a.reserved->Some_0.end,
        a.pages_freed(sp, address, pages, a2, sp2),
        b.owner != a.owner,
        k >= 1,
        b.chosen_run(sp2, strategy, k, align, j),
    ensures
        ({
            let f = sp.page_of(address);
            j + k <= f || f + a.rounded_pages(pages) <= j
        }),
{
    let f = sp.page_of(address);
    let ka = a.rounded_pages(pages);
    let r = a.reserved->Some_0;
    vstd::arithmetic::div_mod::lemma_fundamental_div_mod(address - sp.base, UEFI_PAGE_SIZE as int);
    assert(sp.addr(f) == address);
    if !(j + k <= f || f + ka <= j) {
        let x = if j >= f { j } else { f };
        assert(f <= x < f + ka);
        assert(r.has(sp.addr(x)));
        assert(sp2.pages[x] == a.freed_state(sp, x));
        assert(sp2.pages[x] == PageState::Reserved(a.owner));
        if b.reserve_hit(sp2, strategy, k, align) {
            let rb = b.reserved->Some_0;
            assert(sp2.run_in_state(j, k, PageState::Reserved(b.owner)));
            assert(sp2.pages[x] == PageState::Reserved(b.owner));
        } else {
            assert(sp2.run_in_state(j, k, PageState::Free));
            assert(sp2.pages[x] == PageState::Free);
        }
    }
}

/// Pages freed outside the reservation become available to other
/// allocators: another allocator asking, with the exact-address strategy, for
/// at most as many pages at the freed address, at an alignment the address
/// meets, gets exactly that run.
pub proof fn lemma_unreserved_free_available(
    a: AllocatorView,
    b: AllocatorView,
    sp: SpaceView,
    address: int,
    pages: int,
    a2: AllocatorView,
    sp2: SpaceView,
    k: int,
    align: int,
)
    requires
        a.consistent(sp),
        match a.reserved {
            Some(r) => address + a.rounded_pages(pages) * UEFI_PAGE_SIZE <= r.start || r.end
                <= address,
            None => true,
        },
        a.pages_freed(sp, address, pages, a2, sp2),
        0 <= address <= usize::MAX,
        1 <= k <= a.rounded_pages(pages),
        align >= 1,
        address % align == 0,
    ensures
        ({
            let s = AllocationStrategy::Address(address as usize);
            &&& b.can_place(sp2, s, k, align)
            &&& b.chosen_run(sp2, s, k, align, sp.page_of(address))
        }),
{
    let s = AllocationStrategy::Address(address as usize);
    let f = sp.page_of(address);
    let ka = a.rounded_pages(pages);
    lemma_rounded_positive(a, pages);
    vstd::arithmetic::div_mod::lemma_fundamental_div_mod(address - sp.base, UEFI_PAGE_SIZE as int);
    assert(sp.addr(f) == address);
    assert forall|x: int| f <= x < f + k implies sp2.pages[x] == PageState::Free by {
        match a.reserved {
            Some(r) => {
                assert(!r.has(sp.addr(x)));
            },
            None => {},
        }
    }
    assert(sp2.is_candidate(f, k, align, PageState::Free, 0, usize::MAX as int, s));
    match b.reserved {
        Some(r) => {
            assert forall|j2: int| !#[trigger] sp2.is_candidate(j2, k, align, PageState::Reserved(b.owner), r.start as int, r.end as int, s) by {
                if sp2.is_candidate(j2, k, align, PageState::Reserved(b.owner), r.start as int, r.end as int, s) {
                    assert(j2 == f);
                    assert(sp2.pages[f] == PageState::Free);
                }
            }
        },
        None => {},
    }
    assert forall|j2: int| j2 < f implies !#[trigger] sp2.is_candidate(j2, k, align, PageState::Free, 0, usize::MAX as int, s) by {}
}


/// The number of pages among the first `n` that an allocator with owner `o`
/// could still claim: free pages and pages reserved for it.
pub open spec fn available_pages(sp: SpaceView, o: Owner, n: int) -> int
    decreases n,
{
    if n <= 0 {
        0
    } else {
        available_pages(sp, o, n - 1) + if sp.pages[n - 1] == PageState::Free || sp.pages[n - 1]
            == PageState::Reserved(o) {
            1int
        } else {
            0int
        }
    }
}

proof fn lemma_available_monotone(sp: SpaceView, o: Owner, m: int, n: int)
    requires
        0 <= m <= n,
    ensures
        available_pages(sp, o, m) <= available_pages(sp, o, n),
    decreases n - m,
{
    if m < n {
        lemma_available_monotone(sp, o, m, n - 1);
    }
}

proof fn lemma_available_run(sp: SpaceView, o: Owner, j: int, k: int, st: PageState)
    requires
        sp.run_in_state(j, k, st),
        k >= 0,
        st == PageState::Free || st == PageState::Reserved(o),
    ensures
        available_pages(sp, o, j + k) >= available_pages(sp, o, j) + k,
    decreases k,
{
    if k > 0 {
        assert(sp.run_in_state(j, k - 1, st));
        lemma_available_run(sp, o, j, k - 1, st);
        assert(sp.pages[j + k - 1] == st);
    }
}

/// A run of `k` claimable pages means at least `k` claimable pages.
proof fn lemma_candidate_needs_available(
    sp: SpaceView,
    o: Owner,
    j: int,
    k: int,
    st: PageState,
)
    requires
        sp.run_in_state(j, k, st),
        k >= 0,
        st == PageState::Free || st == PageState::Reserved(o),
    ensures
        available_pages(sp, o, sp.pages.len() as int) >= k,
{
    lemma_available_run(sp, o, j, k, st);
    lemma_available_monotone(sp, o, j + k, sp.pages.len() as int);
    lemma_available_monotone(sp, o, 0, j);
}

/// A page request for more pages than the allocator could still claim cannot
/// be placed, so it fails with `OutOfResources` and leaves the allocator and
/// the space as they were.
pub proof fn lemma_out_of_resources_pages(
    a: AllocatorView,
    sp: SpaceView,
    strategy: AllocationStrategy,
    pages: int,
    alignment: int,
)
    requires
        a.consistent(sp),
        a.rounded_pages(pages) > available_pages(sp, a.owner, sp.pages.len() as int),
    ensures
        !a.can_place(sp, strategy, a.rounded_pages(pages), a.effective_alignment(alignment)),
{
    lemma_no_place_beyond_available(a, sp, strategy, a.rounded_pages(pages), a.effective_alignment(alignment));
}

proof fn lemma_no_place_beyond_available(
    a: AllocatorView,
    sp: SpaceView,
    strategy: AllocationStrategy,
    k: int,
    align: int,
)
    requires
        a.consistent(sp),
        k > available_pages(sp, a.owner, sp.pages.len() as int),
    ensures
        !a.can_place(sp, strategy, k, align),
{
    lemma_available_monotone(sp, a.owner, 0, sp.pages.len() as int);
    assert forall|j: int| !#[trigger] sp.is_candidate(j, k, align, PageState::Free, 0, usize::MAX as int, strategy) by {
        if sp.is_candidate(j, k, align, PageState::Free, 0, usize::MAX as int, strategy) {
            lemma_candidate_needs_available(sp, a.owner, j, k, PageState::Free);
        }
    }
    match a.reserved {
        Some(r) => {
            assert forall|j: int| !#[trigger] sp.is_candidate(j, k, align, PageState::Reserved(a.owner), r.start as int, r.end as int, strategy) by {
                if sp.is_candidate(j, k, align, PageState::Reserved(a.owner), r.start as int, r.end as int, strategy) {
                    lemma_candidate_needs_available(sp, a.owner, j, k, PageState::Reserved(a.owner));
                }
            }
        },
        None => {},
    }
}

/// A pool request that fits in no free block, not in the unused tail, and
/// needs more new pages than the allocator could still claim cannot be
/// allocated, so it fails with `OutOfResources` and leaves the allocator and
/// the space as they were.
pub proof fn lemma_out_of_resources_pool(a: AllocatorView, sp: SpaceView, size: int)
    requires
        a.consistent(sp),
        size >= 0,
        forall|i: int|
            0 <= i < a.blocks.len() && !a.blocks[i].live ==> #[trigger] a.blocks[i].size
                < block_size_for(POOL_HEADER_SIZE + size),
        a.bump_end - a.bump_next < block_size_for(POOL_HEADER_SIZE + size),
        a.expansion_pages(block_size_for(POOL_HEADER_SIZE + size), UEFI_POOL_ALIGN as int)
            > available_pages(sp, a.owner, sp.pages.len() as int),
    ensures
        !a.can_allocate(sp, block_size_for(POOL_HEADER_SIZE + size), UEFI_POOL_ALIGN as int),
{
    let bs = block_size_for(POOL_HEADER_SIZE + size);
    let align = UEFI_POOL_ALIGN as int;
    assert forall|i: int| !#[trigger] a.free_fit(i, bs, align) by {
        if a.free_fit(i, bs, align) {
            assert(a.blocks[i].size < bs);
        }
    }
    lemma_round_up(a.bump_next, align);
    lemma_no_place_beyond_available(
        a,
        sp,
        AllocationStrategy::BottomUp(None),
        a.expansion_pages(bs, align),
        a.granularity as int,
    );
}

} // verus!
