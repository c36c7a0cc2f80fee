//! Readiness of an I/O source, as a set of flags.
use vstd::prelude::*;

verus! {

/// Bit of `Ready`: readable.
pub const READABLE: u8 = 0b00_0001;
/// Bit of `Ready`: writable.
pub const WRITABLE: u8 = 0b00_0010;
/// Bit of `Ready`: the read side is closed.
pub const READ_CLOSED: u8 = 0b00_0100;
/// Bit of `Ready`: the write side is closed.
pub const WRITE_CLOSED: u8 = 0b00_1000;
/// Bit of `Ready`: a pending read was canceled.
pub const READ_CANCELED: u8 = 0b01_0000;
/// Bit of `Ready`: a pending write was canceled.
pub const WRITE_CANCELED: u8 = 0b10_0000;

/// Bits of `Ready`: both cancel flags.
pub const CANCELED: u8 = 0b11_0000;
/// Bits of `Ready`: every flag of the read direction.
pub const READ_ALL: u8 = 0b01_0101;
/// Bits of `Ready`: every flag of the write direction.
pub const WRITE_ALL: u8 = 0b10_1010;

/// A set of readiness flags.
#[derive(Clone, Copy, PartialEq, Eq, Structural, Debug)]
pub struct Ready(pub u8);

/// The direction an operation waits in.
#[derive(Clone, Copy, PartialEq, Eq, Structural, Debug)]
pub enum Direction {
    Read,
    Write,
}

/// Whether the flag `bit` is set in `r`.
pub open spec fn has_flag(r: Ready, bit: u8) -> bool {
    r.0 & bit != 0
}

proof fn lemma_bits(a: u8, b: u8, c: u8)
    by (bit_vector)
    requires
        c == 1 || c == 2 || c == 4 || c == 8 || c == 16 || c == 32,
    ensures
        ((a | b) & c != 0) == ((a & c != 0) || (b & c != 0)),
        ((a & b) & c != 0) == ((a & c != 0) && (b & c != 0)),
        ((a & !b) & c != 0) == ((a & c != 0) && !(b & c != 0)),
{
}

proof fn lemma_flag_values()
    by (bit_vector)
    ensures
        0u8 & 1u8 == 0u8,
        0u8 & 2u8 == 0u8,
        0u8 & 4u8 == 0u8,
        0u8 & 8u8 == 0u8,
        0u8 & 16u8 == 0u8,
        0u8 & 32u8 == 0u8,
        21u8 & 1u8 != 0u8,
        21u8 & 2u8 == 0u8,
        21u8 & 4u8 != 0u8,
        21u8 & 8u8 == 0u8,
        21u8 & 16u8 != 0u8,
        21u8 & 32u8 == 0u8,
        42u8 & 1u8 == 0u8,
        42u8 & 2u8 != 0u8,
        42u8 & 4u8 == 0u8,
        42u8 & 8u8 != 0u8,
        42u8 & 16u8 == 0u8,
        42u8 & 32u8 != 0u8,
        48u8 & 1u8 == 0u8,
        48u8 & 2u8 == 0u8,
        48u8 & 4u8 == 0u8,
        48u8 & 8u8 == 0u8,
        48u8 & 16u8 != 0u8,
        48u8 & 32u8 != 0u8,
{
}

/// The flags of `Ready` values are exactly these six bits: two values with
/// the same flags are equal.
pub proof fn lemma_ready_ext(a: Ready, b: Ready)
    requires
        a.0 < 64,
        b.0 < 64,
        has_flag(a, READABLE) == has_flag(b, READABLE),
        has_flag(a, WRITABLE) == has_flag(b, WRITABLE),
        has_flag(a, READ_CLOSED) == has_flag(b, READ_CLOSED),
        has_flag(a, WRITE_CLOSED) == has_flag(b, WRITE_CLOSED),
        has_flag(a, READ_CANCELED) == has_flag(b, READ_CANCELED),
        has_flag(a, WRITE_CANCELED) == has_flag(b, WRITE_CANCELED),
    ensures
        a == b,
{
    let x = a.0;
    let y = b.0;
    assert(x == y) by (bit_vector)
        requires
            x < 64,
            y < 64,
            (x & 1 != 0) == (y & 1 != 0),
            (x & 2 != 0) == (y & 2 != 0),
            (x & 4 != 0) == (y & 4 != 0),
            (x & 8 != 0) == (y & 8 != 0),
            (x & 16 != 0) == (y & 16 != 0),
            (x & 32 != 0) == (y & 32 != 0),
    ;
}

/// One of the six flags.
pub open spec fn is_flag(bit: u8) -> bool {
    bit == READABLE || bit == WRITABLE || bit == READ_CLOSED || bit == WRITE_CLOSED
        || bit == READ_CANCELED || bit == WRITE_CANCELED
}

impl Ready {
    pub fn empty() -> (r: Ready)
        ensures
            r == Ready(0),
    {
        Ready(0)
    }

    /// Both cancel flags.
    pub fn canceled() -> (r: Ready)
        ensures
            r == Ready(CANCELED),
    {
        Ready(CANCELED)
    }

    /// The readiness reported by an event of the poller.
    pub fn from_event(readable: bool, writable: bool, read_closed: bool, write_closed: bool) -> (r: Ready)
        ensures
            has_flag(r, READABLE) == readable,
            has_flag(r, WRITABLE) == writable,
            has_flag(r, READ_CLOSED) == read_closed,
            has_flag(r, WRITE_CLOSED) == write_closed,
            !has_flag(r, READ_CANCELED),
            !has_flag(r, WRITE_CANCELED),
            r.0 < 64,
    {
        let a: u8 = if readable { READABLE } else { 0 };
        let b: u8 = if writable { WRITABLE } else { 0 };
        let c: u8 = if read_closed { READ_CLOSED } else { 0 };
        let d: u8 = if write_closed { WRITE_CLOSED } else { 0 };
        let bits: u8 = a | b | c | d;
        proof {
            assert({
                &&& (bits & 1 != 0) == (a == 1)
                &&& (bits & 2 != 0) == (b == 2)
                &&& (bits & 4 != 0) == (c == 4)
                &&& (bits & 8 != 0) == (d == 8)
                &&& bits & 16 == 0
                &&& bits & 32 == 0
                &&& bits < 64
            }) by (bit_vector)
                requires
                    a == 0 || a == 1,
                    b == 0 || b == 2,
                    c == 0 || c == 4,
                    d == 0 || d == 8,
                    bits == a | b | c | d,
            ;
        }
        Ready(bits)
    }

    /// Every flag of either set (`|`).
    pub fn union(self, other: Ready) -> (r: Ready)
        ensures
            r.0 == self.0 | other.0,
            forall|bit: u8| is_flag(bit) ==> #[trigger] has_flag(r, bit) == (has_flag(self, bit) || has_flag(other, bit)),
    {
        proof {
            assert forall|bit: u8| is_flag(bit) implies #[trigger] has_flag(Ready(self.0 | other.0), bit) == (has_flag(self, bit) || has_flag(other, bit)) by {
                lemma_bits(self.0, other.0, bit);
            }
        }
        Ready(self.0 | other.0)
    }

    /// The flags of both sets (`&`).
    pub fn intersection(self, other: Ready) -> (r: Ready)
        ensures
            r.0 == self.0 & other.0,
            forall|bit: u8| is_flag(bit) ==> #[trigger] has_flag(r, bit) == (has_flag(self, bit) && has_flag(other, bit)),
    {
        proof {
            assert forall|bit: u8| is_flag(bit) implies #[trigger] has_flag(Ready(self.0 & other.0), bit) == (has_flag(self, bit) && has_flag(other, bit)) by {
                lemma_bits(self.0, other.0, bit);
            }
        }
        Ready(self.0 & other.0)
    }

    /// The flags of `self` that `other` does not have (`-`).
    pub fn difference(self, other: Ready) -> (r: Ready)
        ensures
            r.0 == self.0 & !other.0,
            forall|bit: u8| is_flag(bit) ==> #[trigger] has_flag(r, bit) == (has_flag(self, bit) && !has_flag(other, bit)),
    {
        proof {
            assert forall|bit: u8| is_flag(bit) implies #[trigger] has_flag(Ready(self.0 & !other.0), bit) == (has_flag(self, bit) && !has_flag(other, bit)) by {
                lemma_bits(self.0, other.0, bit);
            }
        }
        Ready(self.0 & !other.0)
    }

    pub fn is_empty(self) -> (r: bool)
        ensures
            r == (self.0 == 0),
    {
        self.0 == 0
    }

    /// Readable, or the read side is closed.
    pub fn is_readable(self) -> (r: bool)
        ensures
            r == (has_flag(self, READABLE) || has_flag(self, READ_CLOSED)),
    {
        self.0 & READABLE != 0 || self.is_read_closed()
    }

    /// Writable, or the write side is closed.
    pub fn is_writable(self) -> (r: bool)
        ensures
            r == (has_flag(self, WRITABLE) || has_flag(self, WRITE_CLOSED)),
    {
        self.0 & WRITABLE != 0 || self.is_write_closed()
    }

    pub fn is_read_closed(self) -> (r: bool)
        ensures
            r == has_flag(self, READ_CLOSED),
    {
        self.0 & READ_CLOSED != 0
    }

    pub fn is_write_closed(self) -> (r: bool)
        ensures
            r == has_flag(self, WRITE_CLOSED),
    {
        self.0 & WRITE_CLOSED != 0
    }

    /// Some pending operation was canceled.
    pub fn is_canceled(self) -> (r: bool)
        ensures
            r == (has_flag(self, READ_CANCELED) || has_flag(self, WRITE_CANCELED)),
    {
        let r = self.0 & CANCELED != 0;
        proof {
            let x = self.0;
            assert((x & 48u8 != 0) == ((x & 16u8 != 0) || (x & 32u8 != 0))) by (bit_vector);
        }
        r
    }
}

impl Direction {
    /// Every flag that concerns this direction.
    pub fn mask(self) -> (r: Ready)
        ensures
            r == (match self {
                Direction::Read => Ready(READ_ALL),
                Direction::Write => Ready(WRITE_ALL),
            }),
            forall|bit: u8| is_flag(bit) ==> #[trigger] has_flag(r, bit) == (match self {
                Direction::Read => bit == READABLE || bit == READ_CLOSED || bit == READ_CANCELED,
                Direction::Write => bit == WRITABLE || bit == WRITE_CLOSED || bit == WRITE_CANCELED,
            }),
    {
        proof {
            lemma_flag_values();
        }
        match self {
            Direction::Read => Ready(READ_ALL),
            Direction::Write => Ready(WRITE_ALL),
        }
    }
}

} // verus!
