//! The line-oriented text dump of an allocator, for serial-console capture.
use crate::allocator::{AllocationStatistics, AllocatorView, UefiAllocator};
use crate::efi::{memory_type_name, string_for_memory_type};
use crate::space::AddressRange;
use vstd::prelude::*;
use vstd::string::StringExecFns;

verus! {

/// The text of one hexadecimal digit `d < 16`.
pub open spec fn digit_text(d: nat) -> Seq<char> {
    if d == 0 {
        "0"@
    } else if d == 1 {
        "1"@
    } else if d == 2 {
        "2"@
    } else if d == 3 {
        "3"@
    } else if d == 4 {
        "4"@
    } else if d == 5 {
        "5"@
    } else if d == 6 {
        "6"@
    } else if d == 7 {
        "7"@
    } else if d == 8 {
        "8"@
    } else if d == 9 {
        "9"@
    } else if d == 10 {
        "a"@
    } else if d == 11 {
        "b"@
    } else if d == 12 {
        "c"@
    } else if d == 13 {
        "d"@
    } else if d == 14 {
        "e"@
    } else {
        "f"@
    }
}

/// `n` in decimal, without leading zeros.
pub open spec fn decimal_text(n: nat) -> Seq<char>
    decreases n,
{
    if n < 10 {
        digit_text(n)
    } else {
        decimal_text(n / 10) + digit_text(n % 10)
    }
}

/// `n` in lower-case hexadecimal, without prefix or leading zeros.
pub open spec fn hex_digits_text(n: nat) -> Seq<char>
    decreases n,
{
    if n < 16 {
        digit_text(n)
    } else {
        hex_digits_text(n / 16) + digit_text(n % 16)
    }
}

/// `n` in lower-case hexadecimal with a `0x` prefix.
pub open spec fn hex_text(n: nat) -> Seq<char> {
    "0x"@ + hex_digits_text(n)
}

/// A range as `0xSTART..0xEND`.
pub open spec fn range_text(r: AddressRange) -> Seq<char> {
    hex_text(r.start as nat) + ".."@ + hex_text(r.end as nat)
}

/// One indented line per range.
pub open spec fn ranges_text(rs: Seq<AddressRange>) -> Seq<char>
    decreases rs.len(),
{
    if rs.len() == 0 {
        Seq::empty()
    } else {
        ranges_text(rs.drop_last()) + "  "@ + range_text(rs.last()) + "\n"@
    }
}

/// A statistics line: `  name: value`.
pub open spec fn stat_line(name: Seq<char>, value: usize) -> Seq<char> {
    "  "@ + name + ": "@ + decimal_text(value as nat) + "\n"@
}

pub open spec fn stats_text(s: AllocationStatistics) -> Seq<char> {
    stat_line("pool_allocation_calls"@, s.pool_allocation_calls) + stat_line(
        "pool_free_calls"@,
        s.pool_free_calls,
    ) + stat_line("page_allocation_calls"@, s.page_allocation_calls) + stat_line(
        "page_free_calls"@,
        s.page_free_calls,
    ) + stat_line("reserved_size"@, s.reserved_size) + stat_line("reserved_used"@, s.reserved_used)
        + stat_line("claimed_pages"@, s.claimed_pages)
}

/// The dump of an allocator: memory type by name and by code, pool backing
/// ranges, the reserved range, and the statistics.
pub open spec fn allocator_text(a: AllocatorView) -> Seq<char> {
    "Memory Type: "@ + memory_type_name(a.owner.memory_type) + "\n"@ + "Memory Type: "@
        + decimal_text(a.owner.memory_type as nat) + "\n"@ + "Allocation Ranges:\n"@ + ranges_text(
        a.backing,
    ) + "Bucket Range: "@ + match a.reserved {
        Some(r) => range_text(r),
        None => "None"@,
    } + "\n"@ + "Allocation Stats:\n"@ + stats_text(a.stats)
}

fn digit_str(d: usize) -> (r: &'static str)
    requires
        d < 16,
    ensures
        r@ == digit_text(d as nat),
{
    match d {
        0 => "0",
        1 => "1",
        2 => "2",
        3 => "3",
        4 => "4",
        5 => "5",
        6 => "6",
        7 => "7",
        8 => "8",
        9 => "9",
        10 => "a",
        11 => "b",
        12 => "c",
        13 => "d",
        14 => "e",
        _ => "f",
    }
}

fn push_decimal(s: &mut String, n: usize)
    ensures
        final(s)@ == old(s)@ + decimal_text(n as nat),
    decreases n,
{
    if n >= 10 {
        push_decimal(s, n / 10);
    }
    s.append(digit_str(n % 10));
    proof {
        if n >= 10 {
            assert(old(s)@ + decimal_text(n as nat) =~= old(s)@ + decimal_text((n / 10) as nat)
                + digit_text((n % 10) as nat));
        }
    }
}

fn push_hex_digits(s: &mut String, n: usize)
    ensures
        final(s)@ == old(s)@ + hex_digits_text(n as nat),
    decreases n,
{
    if n >= 16 {
        push_hex_digits(s, n / 16);
    }
    s.append(digit_str(n % 16));
    proof {
        if n >= 16 {
            assert(old(s)@ + hex_digits_text(n as nat) =~= old(s)@ + hex_digits_text(
                (n / 16) as nat,
            ) + digit_text((n % 16) as nat));
        }
    }
}

fn push_range(s: &mut String, r: &AddressRange)
    ensures
        final(s)@ == old(s)@ + range_text(*r),
{
    s.append("0x");
    push_hex_digits(s, r.start);
    s.append("..");
    s.append("0x");
    push_hex_digits(s, r.end);
    proof {
        assert(final(s)@ =~= old(s)@ + range_text(*r));
    }
}

fn push_stat(s: &mut String, name: &str, value: usize)
    ensures
        final(s)@ == old(s)@ + stat_line(name@, value),
{
    s.append("  ");
    s.append(name);
    s.append(": ");
    push_decimal(s, value);
    s.append("\n");
    proof {
        assert(final(s)@ =~= old(s)@ + stat_line(name@, value));
    }
}

fn push_stats(s: &mut String, st: &AllocationStatistics)
    ensures
        final(s)@ == old(s)@ + stats_text(*st),
{
    let ghost s0 = s@;
    push_stat(s, "pool_allocation_calls", st.pool_allocation_calls);
    push_stat(s, "pool_free_calls", st.pool_free_calls);
    push_stat(s, "page_allocation_calls", st.page_allocation_calls);
    push_stat(s, "page_free_calls", st.page_free_calls);
    push_stat(s, "reserved_size", st.reserved_size);
    push_stat(s, "reserved_used", st.reserved_used);
    push_stat(s, "claimed_pages", st.claimed_pages);
    proof {
        assert(s@ =~= s0 + stats_text(*st));
    }
}

impl UefiAllocator {
    /// The text dump of this allocator, one item per line.
    pub fn to_string(&self) -> (r: String)
        ensures
            r@ == allocator_text(self@),
    {
        let mut s = String::new();
        s.append("Memory Type: ");
        s.append(string_for_memory_type(self.memory_type()));
        s.append("\n");
        s.append("Memory Type: ");
        push_decimal(&mut s, self.memory_type() as usize);
        s.append("\n");
        s.append("Allocation Ranges:\n");
        let ghost head = s@;
        let ranges = self.get_memory_ranges();
        let mut i: usize = 0;
        while i < ranges.len()
            invariant
                i <= ranges@.len(),
                ranges@ == self@.backing,
                s@ == head + ranges_text(ranges@.take(i as int)),
            decreases ranges@.len() - i,
        {
            let ghost before = s@;
            s.append("  ");
            push_range(&mut s, &ranges[i]);
            s.append("\n");
            proof {
                let t = ranges@.take(i + 1);
                assert(t.drop_last() =~= ranges@.take(i as int));
                assert(s@ =~= head + ranges_text(t));
            }
            i = i + 1;
        }
        proof {
            assert(ranges@.take(i as int) =~= ranges@);
        }
        s.append("Bucket Range: ");
        match self.reserved_range() {
            Some(r) => push_range(&mut s, &r),
            None => s.append("None"),
        }
        s.append("\n");
        s.append("Allocation Stats:\n");
        let st = self.stats();
        push_stats(&mut s, &st);
        proof {
            assert(s@ =~= allocator_text(self@));
        }
        s
    }
}

} // verus!
