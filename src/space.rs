//! The physical address space that all allocators draw from.
//!
//! The space is a contiguous run of pages starting at a page-aligned base.
//! Each page is free, reserved for one allocator, or claimed by one allocator
//! for page allocations or for pool backing. The space also holds the pool
//! headers that allocators write in front of their pool buffers, keyed by the
//! address of the header, so that any allocator can read a header that
//! another one wrote.
use crate::efi::{EfiError, MemoryType, UEFI_PAGE_SIZE};
use crate::layout::Layout;
use std::collections::HashMap;
use vstd::prelude::*;

verus! {

broadcast use vstd::std_specs::hash::group_hash_axioms;

/// The identity under which an allocator claims pages: its handle and memory type.
#[derive(Debug, Clone, Copy, PartialEq, Eq, Structural)]
pub struct Owner {
    pub handle: usize,
    pub memory_type: MemoryType,
}

/// What a page of the memory space is used for.
#[derive(Debug, Clone, Copy, PartialEq, Eq, Structural)]
pub enum PageState {
    /// Available to any allocator.
    Free,
    /// Set aside for the reservation of one allocator, not in use.
    Reserved(Owner),
    /// Handed out by one allocator as a page allocation.
    Pages(Owner),
    /// Backing memory of one allocator's pool.
    Pool(Owner),
}

impl PageState {
    /// The page is claimed or reserved by `o`.
    pub open spec fn is_held_by(self, o: Owner) -> bool {
        match self {
            PageState::Free => false,
            PageState::Reserved(p) => p == o,
            PageState::Pages(p) => p == o,
            PageState::Pool(p) => p == o,
        }
    }
}

/// A half-open range of addresses `[start, end)`.
#[derive(Debug, Clone, Copy, PartialEq, Eq, Structural)]
pub struct AddressRange {
    pub start: usize,
    pub end: usize,
}

impl AddressRange {
    pub open spec fn has(self, a: int) -> bool {
        self.start <= a < self.end
    }

    /// Whether `address` lies in the range.
    pub fn contains(&self, address: usize) -> (r: bool)
        ensures
            r == self.has(address as int),
    {
        self.start <= address && address < self.end
    }

    /// The number of bytes in the range (zero for an inverted range).
    pub fn len(&self) -> (r: usize)
        ensures
            r == if self.start <= self.end {
                self.end - self.start
            } else {
                0
            },
    {
        if self.start <= self.end {
            self.end - self.start
        } else {
            0
        }
    }
}

/// Where in the address space a page allocation is placed.
#[derive(Debug, Clone, Copy, PartialEq, Eq, Structural)]
pub enum AllocationStrategy {
    /// Lowest suitable address; with `Some(max)` the allocation must end at or below `max`.
    BottomUp(Option<usize>),
    /// Highest suitable address; with `Some(min)` the allocation must start at or above `min`.
    TopDown(Option<usize>),
    /// Exactly the given address, or nothing.
    Address(usize),
}

/// The address an allocation strategy names, if any.
pub open spec fn strategy_address(s: AllocationStrategy) -> Option<usize> {
    match s {
        AllocationStrategy::BottomUp(a) => a,
        AllocationStrategy::TopDown(a) => a,
        AllocationStrategy::Address(a) => Some(a),
    }
}

/// Whether `strategy` admits an allocation of `len` bytes at `start`.
pub open spec fn strategy_admits(strategy: AllocationStrategy, start: int, len: int) -> bool {
    match strategy {
        AllocationStrategy::BottomUp(Some(max)) => start + len - 1 <= max,
        AllocationStrategy::TopDown(Some(min)) => start >= min,
        AllocationStrategy::Address(a) => start == a,
        _ => true,
    }
}

/// The bookkeeping record written in front of every pool buffer.
#[derive(Debug, Clone, Copy, PartialEq, Eq, Structural)]
pub struct AllocationInfo {
    /// The pool signature while the allocation is live, zero once it is freed.
    pub signature: u32,
    /// The memory type of the allocator that made the allocation.
    pub memory_type: MemoryType,
    /// The combined header and payload layout that was allocated.
    pub layout: Layout,
}

/// The physical address space: page states and the pool headers stored in it.
pub struct MemorySpace {
    base: usize,
    pages: Vec<PageState>,
    headers: HashMap<usize, AllocationInfo>,
}

/// The mathematical model of a [`MemorySpace`].
pub struct SpaceView {
    /// Address of the first page.
    pub base: int,
    /// State of each page, the `j`th page starting at `base + j * UEFI_PAGE_SIZE`.
    pub pages: Seq<PageState>,
    /// Pool headers, by the address at which each is stored.
    pub headers: Map<usize, AllocationInfo>,
}

impl SpaceView {
    pub open spec fn wf(self) -> bool {
        &&& self.base % (UEFI_PAGE_SIZE as int) == 0
        &&& self.base >= UEFI_PAGE_SIZE
        &&& self.end() <= usize::MAX
    }

    /// Address of page `j`.
    pub open spec fn addr(self, j: int) -> int {
        self.base + j * (UEFI_PAGE_SIZE as int)
    }

    /// One past the last address of the space.
    pub open spec fn end(self) -> int {
        self.addr(self.pages.len() as int)
    }

    /// Index of the page holding address `a`.
    pub open spec fn page_of(self, a: int) -> int {
        (a - self.base) / (UEFI_PAGE_SIZE as int)
    }

    /// Pages `[j, j + k)` all lie in the space and are in state `st`.
    pub open spec fn run_in_state(self, j: int, k: int, st: PageState) -> bool {
        &&& 0 <= j
        &&& j + k <= self.pages.len()
        &&& forall|i: int| j <= i < j + k ==> self.pages[i] == st
    }

    /// Pages `[j, j + k)` could hold an allocation: they lie in the window
    /// `[lo, hi)`, start at a multiple of `align`, suit `strategy`, and are all
    /// in state `st`.
    pub open spec fn is_candidate(
        self,
        j: int,
        k: int,
        align: int,
        st: PageState,
        lo: int,
        hi: int,
        strategy: AllocationStrategy,
    ) -> bool {
        &&& self.run_in_state(j, k, st)
        &&& self.addr(j) % align == 0
        &&& lo <= self.addr(j)
        &&& self.addr(j + k) <= hi
        &&& strategy_admits(strategy, self.addr(j), k * (UEFI_PAGE_SIZE as int))
    }

    /// `j` is the candidate that `strategy` picks: the highest one for
    /// top-down placement, the lowest one otherwise.
    pub open spec fn is_preferred(
        self,
        j: int,
        k: int,
        align: int,
        st: PageState,
        lo: int,
        hi: int,
        strategy: AllocationStrategy,
    ) -> bool {
        &&& self.is_candidate(j, k, align, st, lo, hi, strategy)
        &&& if strategy is TopDown {
            forall|j2: int| j < j2 ==> !#[trigger] self.is_candidate(j2, k, align, st, lo, hi, strategy)
        } else {
            forall|j2: int| j2 < j ==> !#[trigger] self.is_candidate(j2, k, align, st, lo, hi, strategy)
        }
    }

    /// No run of pages is a candidate.
    pub open spec fn no_candidate(
        self,
        k: int,
        align: int,
        st: PageState,
        lo: int,
        hi: int,
        strategy: AllocationStrategy,
    ) -> bool {
        forall|j: int| !#[trigger] self.is_candidate(j, k, align, st, lo, hi, strategy)
    }

    /// The pages of `self` with `[j, j + k)` set to `st`.
    pub open spec fn with_run(self, j: int, k: int, st: PageState) -> Seq<PageState> {
        Seq::new(self.pages.len(), |i: int| if j <= i < j + k { st } else { self.pages[i] })
    }
}

impl View for MemorySpace {
    type V = SpaceView;

    closed spec fn view(&self) -> SpaceView {
        SpaceView { base: self.base as int, pages: self.pages@, headers: self.headers@ }
    }
}

impl MemorySpace {
    /// A space of `size` bytes of free memory starting at `base`.
    ///
    /// Fails with `InvalidParameter` unless `base` is a non-zero multiple of the
    /// page size, `size` is a multiple of the page size, and the range fits in
    /// the address space.
    pub fn new(base: usize, size: usize) -> (r: Result<MemorySpace, EfiError>)
        ensures
            match r {
                Ok(s) => {
                    &&& s@.wf()
                    &&& s@.base == base
                    &&& s@.pages.len() * UEFI_PAGE_SIZE == size
                    &&& forall|j: int| 0 <= j < s@.pages.len() ==> s@.pages[j] == PageState::Free
                    &&& s@.headers.is_empty()
                },
                Err(e) => {
                    &&& e == EfiError::InvalidParameter
                    &&& !(base % UEFI_PAGE_SIZE == 0 && base >= UEFI_PAGE_SIZE && size
                        % UEFI_PAGE_SIZE == 0 && base + size <= usize::MAX)
                },
            },
    {
        if base % UEFI_PAGE_SIZE != 0 || base < UEFI_PAGE_SIZE || size % UEFI_PAGE_SIZE != 0
            || size > usize::MAX - base {
            return Err(EfiError::InvalidParameter);
        }
        let n = size / UEFI_PAGE_SIZE;
        let mut pages: Vec<PageState> = Vec::new();
        let mut i: usize = 0;
        while i < n
            invariant
                i <= n,
                pages@.len() == i,
                forall|j: int| 0 <= j < i ==> pages@[j] == PageState::Free,
            decreases n - i,
        {
            pages.push(PageState::Free);
            i = i + 1;
        }
        Ok(MemorySpace { base, pages, headers: HashMap::new() })
    }

    /// Address of the first page.
    pub fn base(&self) -> (r: usize)
        ensures
            r == self@.base,
    {
        self.base
    }

    /// Number of pages in the space.
    pub fn page_count(&self) -> (r: usize)
        ensures
            r == self@.pages.len(),
    {
        self.pages.len()
    }

    /// State of page `j`.
    pub fn page_state(&self, j: usize) -> (r: PageState)
        requires
            j < self@.pages.len(),
        ensures
            r == self@.pages[j as int],
    {
        self.pages[j]
    }

    /// The pool header stored at `address`, if one was ever written there.
    pub fn header(&self, address: usize) -> (r: Option<AllocationInfo>)
        ensures
            r == (if self@.headers.contains_key(address) {
                Some(self@.headers[address])
            } else {
                None
            }),
    {
        match self.headers.get(&address) {
            Some(info) => Some(*info),
            None => None,
        }
    }

    /// Stores `info` as the header at `address`.
    pub(crate) fn write_header(&mut self, address: usize, info: AllocationInfo)
        ensures
            final(self)@.headers == old(self)@.headers.insert(address, info),
            final(self)@.base == old(self)@.base,
            final(self)@.pages == old(self)@.pages,
    {
        self.headers.insert(address, info);
    }

    /// Sets pages `[j, j + k)` to `st`.
    pub(crate) fn set_run(&mut self, j: usize, k: usize, st: PageState)
        requires
            j + k <= old(self)@.pages.len(),
        ensures
            final(self)@.pages == old(self)@.with_run(j as int, k as int, st),
            final(self)@.base == old(self)@.base,
            final(self)@.headers == old(self)@.headers,
    {
        let ghost before = self@;
        let n = self.pages.len();
        let end = j + k;
        let mut i: usize = j;
        while i < end
            invariant
                end == j + k,
                j <= i <= j + k,
                j + k <= before.pages.len(),
                self@.base == before.base,
                self@.headers == before.headers,
                self@.pages.len() == before.pages.len(),
                forall|x: int|
                    0 <= x < before.pages.len() ==> self@.pages[x] == if j <= x < i {
                        st
                    } else {
                        before.pages[x]
                    },
            decreases j + k - i,
        {
            self.pages.set(i, st);
            i = i + 1;
        }
        assert(self@.pages =~= before.with_run(j as int, k as int, st));
    }

    /// Sets page `j` to `st`.
    pub(crate) fn set_page(&mut self, j: usize, st: PageState)
        requires
            j < old(self)@.pages.len(),
        ensures
            final(self)@.pages == old(self)@.pages.update(j as int, st),
            final(self)@.base == old(self)@.base,
            final(self)@.headers == old(self)@.headers,
    {
        self.pages.set(j, st);
    }

    /// Whether pages `[j, j + k)` all lie in the space and are in state `st`.
    pub(crate) fn run_in_state(&self, j: usize, k: usize, st: PageState) -> (r: bool)
        ensures
            r == self@.run_in_state(j as int, k as int, st),
    {
        if j > self.pages.len() || k > self.pages.len() - j {
            return false;
        }
        let end = j + k;
        let mut i: usize = j;
        while i < end
            invariant
                end == j + k,
                j <= i <= j + k,
                j + k <= self@.pages.len(),
                forall|x: int| j <= x < i ==> self@.pages[x] == st,
            decreases j + k - i,
        {
            if self.pages[i] != st {
                return false;
            }
            i = i + 1;
        }
        true
    }

    fn is_candidate(
        &self,
        j: usize,
        k: usize,
        align: usize,
        st: PageState,
        lo: usize,
        hi: usize,
        strategy: &AllocationStrategy,
    ) -> (r: bool)
        requires
            self@.wf(),
            j + k <= self@.pages.len(),
            align >= 1,
            k >= 1,
        ensures
            r == self@.is_candidate(
                j as int,
                k as int,
                align as int,
                st,
                lo as int,
                hi as int,
                *strategy,
            ),
    {
        let ghost sp = self@;
        assert(sp.addr(j + k) <= sp.end()) by (nonlinear_arith)
            requires
                j + k <= sp.pages.len(),
        ;
        let start = self.base + j * UEFI_PAGE_SIZE;
        let len = k * UEFI_PAGE_SIZE;
        if start % align != 0 || start < lo || start + len > hi {
            return false;
        }
        let admitted = match strategy {
            AllocationStrategy::BottomUp(Some(max)) => start + (len - 1) <= *max,
            AllocationStrategy::TopDown(Some(min)) => start >= *min,
            AllocationStrategy::Address(a) => start == *a,
            _ => true,
        };
        if !admitted {
            return false;
        }
        self.run_in_state(j, k, st)
    }

    /// Finds the run of `k` pages in state `st` that `strategy` picks within the
    /// window `[lo, hi)`, aligned to `align`; the index of its first page.
    pub(crate) fn find_run(
        &self,
        strategy: &AllocationStrategy,
        k: usize,
        align: usize,
        st: PageState,
        lo: usize,
        hi: usize,
    ) -> (r: Option<usize>)
        requires
            self@.wf(),
            k >= 1,
            align >= 1,
        ensures
            match r {
                Some(j) => self@.is_preferred(
                    j as int,
                    k as int,
                    align as int,
                    st,
                    lo as int,
                    hi as int,
                    *strategy,
                ),
                None => self@.no_candidate(k as int, align as int, st, lo as int, hi as int, *strategy),
            },
    {
        let ghost sp = self@;
        let n = self.pages.len();
        if k > n {
            return None;
        }
        match strategy {
            AllocationStrategy::Address(a) => {
                let a = *a;
                if a < self.base || (a - self.base) % UEFI_PAGE_SIZE != 0 {
                    return None;
                }
                let j = (a - self.base) / UEFI_PAGE_SIZE;
                if j > n - k {
                    return None;
                }
                if self.is_candidate(j, k, align, st, lo, hi, strategy) {
                    Some(j)
                } else {
                    None
                }
            },
            AllocationStrategy::TopDown(_) => {
                let mut j: usize = n - k + 1;
                while j > 0
                    invariant
                        sp == self@,
                        sp.wf(),
                        n == sp.pages.len(),
                        k <= n,
                        k >= 1,
                        align >= 1,
                        *strategy is TopDown,
                        j <= n - k + 1,
                        forall|j2: int|
                            j <= j2 ==> !#[trigger] sp.is_candidate(
                                j2,
                                k as int,
                                align as int,
                                st,
                                lo as int,
                                hi as int,
                                *strategy,
                            ),
                    decreases j,
                {
                    j = j - 1;
                    if self.is_candidate(j, k, align, st, lo, hi, strategy) {
                        return Some(j);
                    }
                }
                None
            },
            AllocationStrategy::BottomUp(_) => {
                let mut j: usize = 0;
                while j <= n - k
                    invariant
                        sp == self@,
                        sp.wf(),
                        n == sp.pages.len(),
                        k <= n,
                        k >= 1,
                        align >= 1,
                        *strategy is BottomUp,
                        j <= n - k + 1,
                        forall|j2: int|
                            j2 < j ==> !#[trigger] sp.is_candidate(
                                j2,
                                k as int,
                                align as int,
                                st,
                                lo as int,
                                hi as int,
                                *strategy,
                            ),
                    decreases n - k + 1 - j,
                {
                    if self.is_candidate(j, k, align, st, lo, hi, strategy) {
                        return Some(j);
                    }
                    j = j + 1;
                }
                None
            },
        }
    }
}

} // verus!
