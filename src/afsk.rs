//! Audio frequency-shift keying of bytes into mark and space tone bits.
use vstd::prelude::*;

verus! {

/// Duration of one transmitted bit, in microseconds (1.92 ms).
pub const BIT_MICROS: u64 = 1920;

/// Sine cycles of a mark (set) bit within one bit period.
pub const MARK_CYCLES: u32 = 4;

/// Sine cycles of a space (clear) bit within one bit period.
pub const SPACE_CYCLES: u32 = 3;

/// One transmitted bit.
#[derive(Clone, Copy, Debug, PartialEq, Eq, Structural)]
pub enum AfskBit {
    Mark,
    Space,
}

/// The bit that stands for bit `k` (least significant first) of `byte`.
pub open spec fn bit_of(byte: u8, k: int) -> AfskBit {
    if (byte >> (k as u8)) & 1u8 == 1u8 {
        AfskBit::Mark
    } else {
        AfskBit::Space
    }
}

impl AfskBit {
    pub open spec fn cycles_spec(self) -> u32 {
        match self {
            AfskBit::Mark => MARK_CYCLES,
            AfskBit::Space => SPACE_CYCLES,
        }
    }

    /// Mark for a set bit, space for a clear one.
    pub fn from_bool(set: bool) -> (r: AfskBit)
        ensures
            r == (if set { AfskBit::Mark } else { AfskBit::Space }),
    {
        if set {
            AfskBit::Mark
        } else {
            AfskBit::Space
        }
    }

    /// Number of sine cycles sent during one bit period.
    pub fn cycles(self) -> (r: u32)
        ensures
            r == self.cycles_spec(),
    {
        match self {
            AfskBit::Mark => MARK_CYCLES,
            AfskBit::Space => SPACE_CYCLES,
        }
    }
}

/// The eight bits of one byte, least significant first.
#[derive(Clone, Copy, Debug)]
pub struct AfskByte {
    pub bits: [AfskBit; 8],
}

impl AfskByte {
    /// The bits that `byte` is sent as.
    pub open spec fn encodes(self, byte: u8) -> bool {
        forall|k: int| 0 <= k < 8 ==> #[trigger] self.bits@[k] == bit_of(byte, k)
    }

    /// Splits `byte` into its bits, least significant first.
    pub fn from_byte(byte: u8) -> (r: AfskByte)
        ensures
            r.encodes(byte),
    {
        let b0 = AfskBit::from_bool(byte & 1 == 1);
        let b1 = AfskBit::from_bool((byte >> 1u8) & 1 == 1);
        let b2 = AfskBit::from_bool((byte >> 2u8) & 1 == 1);
        let b3 = AfskBit::from_bool((byte >> 3u8) & 1 == 1);
        let b4 = AfskBit::from_bool((byte >> 4u8) & 1 == 1);
        let b5 = AfskBit::from_bool((byte >> 5u8) & 1 == 1);
        let b6 = AfskBit::from_bool((byte >> 6u8) & 1 == 1);
        let b7 = AfskBit::from_bool((byte >> 7u8) & 1 == 1);
        assert(byte & 1 == (byte >> 0u8) & 1) by (bit_vector);
        let r = AfskByte { bits: [b0, b1, b2, b3, b4, b5, b6, b7] };
        assert(r.bits@ =~= seq![b0, b1, b2, b3, b4, b5, b6, b7]);
        r
    }
}

/// Encodes each byte of `bytes` in order.
pub fn encode_bytes(bytes: &Vec<u8>) -> (r: Vec<AfskByte>)
    ensures
        r@.len() == bytes@.len(),
        forall|i: int| 0 <= i < bytes@.len() ==> #[trigger] r@[i].encodes(bytes@[i]),
{
    let mut r: Vec<AfskByte> = Vec::new();
    let mut i: usize = 0;
    while i < bytes.len()
        invariant
            i <= bytes@.len(),
            r@.len() == i,
            forall|j: int| 0 <= j < i ==> #[trigger] r@[j].encodes(bytes@[j]),
        decreases bytes@.len() - i,
    {
        r.push(AfskByte::from_byte(bytes[i]));
        i = i + 1;
    }
    r
}

} // verus!
