//! A memory-mapped UART: register layout, line-status decisions, and the
//! boot-progress tag written through it. The register accesses themselves
//! are volatile MMIO and are performed by the caller.
use vstd::prelude::*;

verus! {

/// Offset of the transmit holding (and receive buffer) register.
pub const THR_REGISTER_OFFSET: usize = 0x00;

/// Offset of the line status register.
pub const LSR_REGISTER_OFFSET: usize = 0x14;

/// Line status: transmitter empty.
pub const LSR_TEMPT: u8 = 0x40;

/// Line status: transmit holding register ready.
pub const LSR_TXRDY: u8 = 0x20;

/// Line status: received data ready.
pub const LSR_RXRDY: u8 = 0x01;

/// A UART whose registers are mapped at `base_address`.
#[derive(Debug)]
pub struct Uart {
    base_address: usize,
}

impl Uart {
    pub closed spec fn spec_base_address(&self) -> usize {
        self.base_address
    }

    pub fn new(base_address: usize) -> (r: Uart)
        ensures
            r.spec_base_address() == base_address,
    {
        Uart { base_address }
    }

    pub fn base_address(&self) -> (r: usize)
        ensures
            r == self.spec_base_address(),
    {
        self.base_address
    }

    /// Address of the register at `offset`, or `None` past the address space.
    pub fn register_address(&self, offset: usize) -> (r: Option<usize>)
        ensures
            match r {
                Some(a) => a == self.spec_base_address() + offset,
                None => self.spec_base_address() + offset > usize::MAX,
            },
    {
        self.base_address.checked_add(offset)
    }

    /// A byte may be written once the line status shows the transmitter
    /// empty and the holding register ready.
    pub fn can_transmit(line_status: u8) -> (r: bool)
        ensures
            r == (line_status & (LSR_TEMPT | LSR_TXRDY) == (LSR_TEMPT | LSR_TXRDY)),
    {
        line_status & (LSR_TEMPT | LSR_TXRDY) == (LSR_TEMPT | LSR_TXRDY)
    }

    /// A byte may be read once the line status shows received data ready.
    pub fn has_received(line_status: u8) -> (r: bool)
        ensures
            r == (line_status & LSR_RXRDY != 0),
    {
        line_status & LSR_RXRDY != 0
    }
}

/// The digit byte of a boot-progress tag: `'0'` plus the low byte of `idx`.
pub open spec fn tag_digit(idx: usize) -> u8 {
    (48 + idx % 256) as u8
}

/// The bytes of boot-progress tag `idx`: `XXX_` (88, 88, 88, 95), a digit,
/// and a newline (10).
///
/// The digit is `'0'` plus the low byte of `idx`, which must stay a byte.
pub fn hack_tag(idx: usize) -> (r: Vec<u8>)
    requires
        idx % 256 < 208,
    ensures
        r@ == seq![88u8, 88u8, 88u8, 95u8, tag_digit(idx), 10u8],
{
    let digit: u8 = 48u8 + (idx % 256) as u8;
    let mut tag: Vec<u8> = Vec::new();
    tag.push(88u8);
    tag.push(88u8);
    tag.push(88u8);
    tag.push(95u8);
    tag.push(digit);
    tag.push(10u8);
    proof {
        assert(tag@ =~= seq![88u8, 88u8, 88u8, 95u8, tag_digit(idx), 10u8]);
    }
    tag
}

} // verus!
