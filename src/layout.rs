//! Size and alignment of a memory request.
use vstd::prelude::*;

verus! {

/// `n` is a positive power of two.
pub open spec fn is_power_of_two(n: int) -> bool
    decreases n,
{
    if n <= 0 {
        false
    } else if n == 1 {
        true
    } else {
        n % 2 == 0 && is_power_of_two(n / 2)
    }
}

/// The rules a size and an alignment must meet to form a [`Layout`]: the
/// alignment is a power of two, and the size rounded up to it fits in `isize`.
pub open spec fn layout_parts_valid(size: int, align: int) -> bool {
    is_power_of_two(align) && size <= isize::MAX - (align - 1)
}

/// `x` rounded up to the next multiple of `m`.
pub open spec fn round_up(x: int, m: int) -> int
    recommends
        m > 0,
{
    if x % m == 0 {
        x
    } else {
        x - x % m + m
    }
}

/// Rounding up lands on the next multiple of `m`, less than `m` past `x`.
pub proof fn lemma_round_up(x: int, m: int)
    requires
        x >= 0,
        m > 0,
    ensures
        round_up(x, m) % m == 0,
        x <= round_up(x, m) < x + m,
        x % m == 0 ==> round_up(x, m) == x,
        0 < x <= m ==> round_up(x, m) == m,
{
    vstd::arithmetic::div_mod::lemma_fundamental_div_mod(x, m);
    vstd::arithmetic::div_mod::lemma_mod_pos_bound(x, m);
    if x % m != 0 {
        vstd::arithmetic::div_mod::lemma_mod_multiples_basic(x / m + 1, m);
        assert((x / m + 1) * m == m * (x / m) + m) by (nonlinear_arith);
    }
    if 0 < x < m {
        vstd::arithmetic::div_mod::lemma_small_mod(x as nat, m as nat);
    }
    if x == m {
        vstd::arithmetic::div_mod::lemma_mod_multiples_basic(1, m);
    }
}

/// `x` rounded up to a multiple of `m`, or `None` when that overflows.
pub(crate) fn checked_round_up(x: usize, m: usize) -> (r: Option<usize>)
    requires
        m > 0,
    ensures
        match r {
            Some(v) => v == round_up(x as int, m as int),
            None => round_up(x as int, m as int) > usize::MAX,
        },
{
    proof {
        lemma_round_up(x as int, m as int);
        vstd::arithmetic::div_mod::lemma_mod_pos_bound(x as int, m as int);
        vstd::arithmetic::div_mod::lemma_fundamental_div_mod(x as int, m as int);
        vstd::arithmetic::mul::lemma_mul_nonnegative(m as int, x as int / m as int);
    }
    let rem = x % m;
    if rem == 0 {
        Some(x)
    } else {
        (x - rem).checked_add(m)
    }
}

/// The size and alignment of a block of memory.
#[derive(Debug, Clone, Copy, PartialEq, Eq, Structural)]
pub struct Layout {
    size: usize,
    align: usize,
}

/// A size and alignment that do not form a valid [`Layout`].
#[derive(Debug, Clone, Copy, PartialEq, Eq, Structural)]
pub struct LayoutError;

fn check_power_of_two(n: usize) -> (r: bool)
    ensures
        r == is_power_of_two(n as int),
{
    let mut m: usize = n;
    while m > 1 && m % 2 == 0
        invariant
            m <= n,
            is_power_of_two(n as int) == is_power_of_two(m as int),
        decreases m,
    {
        m = m / 2;
    }
    m == 1
}

impl Layout {
    #[verifier::type_invariant]
    spec fn layout_invariant(self) -> bool {
        layout_parts_valid(self.size as int, self.align as int)
    }

    pub closed spec fn spec_size(&self) -> nat {
        self.size as nat
    }

    pub closed spec fn spec_align(&self) -> nat {
        self.align as nat
    }

    /// Every `Layout` value holds a valid size and alignment.
    pub open spec fn wf(&self) -> bool {
        layout_parts_valid(self.spec_size() as int, self.spec_align() as int)
    }

    /// Builds a layout; fails exactly when the parts break the layout rules.
    pub fn from_size_align(size: usize, align: usize) -> (r: Result<Layout, LayoutError>)
        ensures
            match r {
                Ok(l) => layout_parts_valid(size as int, align as int) && l.spec_size() == size
                    && l.spec_align() == align,
                Err(_) => !layout_parts_valid(size as int, align as int),
            },
    {
        if !check_power_of_two(align) {
            return Err(LayoutError);
        }
        let max: usize = isize::MAX as usize;
        if align - 1 > max || size > max - (align - 1) {
            return Err(LayoutError);
        }
        Ok(Layout { size, align })
    }

    pub fn size(&self) -> (r: usize)
        ensures
            r == self.spec_size(),
            self.wf(),
    {
        proof {
            use_type_invariant(self);
        }
        self.size
    }

    pub fn align(&self) -> (r: usize)
        ensures
            r == self.spec_align(),
            self.wf(),
    {
        proof {
            use_type_invariant(self);
        }
        self.align
    }

    /// The layout of `self` followed by `next`, and the offset of `next` in it.
    ///
    /// `next` starts at the size of `self` rounded up to the alignment of
    /// `next`; the result takes the larger alignment and no trailing padding.
    pub fn extend(&self, next: &Layout) -> (r: Result<(Layout, usize), LayoutError>)
        requires
            self.wf(),
            next.wf(),
        ensures
            ({
                let offset = round_up(self.spec_size() as int, next.spec_align() as int);
                let align = if self.spec_align() >= next.spec_align() {
                    self.spec_align()
                } else {
                    next.spec_align()
                };
                match r {
                    Ok((l, off)) => off == offset && l.spec_size() == offset + next.spec_size()
                        && l.spec_align() == align && l.wf(),
                    Err(_) => !layout_parts_valid(offset + next.spec_size(), align as int),
                }
            }),
    {
        let new_align = if self.align >= next.align {
            self.align
        } else {
            next.align
        };
        assert(next.align >= 1);
        let rem = self.size % next.align;
        assert(rem <= self.size) by (nonlinear_arith)
            requires
                rem == self.size % next.align,
                next.align >= 1,
        ;
        let offset = if rem == 0 {
            self.size
        } else {
            match (self.size - rem).checked_add(next.align) {
                Some(o) => o,
                None => return Err(LayoutError),
            }
        };
        let new_size = match offset.checked_add(next.size) {
            Some(s) => s,
            None => return Err(LayoutError),
        };
        match Layout::from_size_align(new_size, new_align) {
            Ok(l) => Ok((l, offset)),
            Err(e) => Err(e),
        }
    }
}

} // verus!
