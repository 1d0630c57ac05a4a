use vstd::prelude::*;

verus! {

/// The bits of `b` in reverse order: bit 0 becomes bit 7 and so on.
pub open spec fn spec_reverse_bits(b: u8) -> u8 {
    ((b & 0x01) << 7) | ((b & 0x02) << 5) | ((b & 0x04) << 3) | ((b & 0x08) << 1) | ((b & 0x10)
        >> 1) | ((b & 0x20) >> 3) | ((b & 0x40) >> 5) | ((b & 0x80) >> 7)
}

/// Reverses the bit order of one byte.
pub fn reverse_bits(b: u8) -> (r: u8)
    ensures
        r == spec_reverse_bits(b),
{
    ((b & 0x01) << 7) | ((b & 0x02) << 5) | ((b & 0x04) << 3) | ((b & 0x08) << 1) | ((b & 0x10)
        >> 1) | ((b & 0x20) >> 3) | ((b & 0x40) >> 5) | ((b & 0x80) >> 7)
}

/// Reversing the bit order of a byte twice gives the byte back.
pub proof fn lemma_reverse_bits_involution(b: u8)
    ensures
        spec_reverse_bits(spec_reverse_bits(b)) == b,
{
    let r = spec_reverse_bits(b);
    let rr = spec_reverse_bits(r);
    assert(rr == b) by (bit_vector)
        requires
            r == ((b & 0x01) << 7) | ((b & 0x02) << 5) | ((b & 0x04) << 3) | ((b & 0x08) << 1) | (
            (b & 0x10) >> 1) | ((b & 0x20) >> 3) | ((b & 0x40) >> 5) | ((b & 0x80) >> 7),
            rr == ((r & 0x01) << 7) | ((r & 0x02) << 5) | ((r & 0x04) << 3) | ((r & 0x08) << 1) | (
            (r & 0x10) >> 1) | ((r & 0x20) >> 3) | ((r & 0x40) >> 5) | ((r & 0x80) >> 7),
    ;
}

/// The value a stored flag byte denotes: stored directly when the header
/// selected little-endian flag bits, stored bit-reversed otherwise. This
/// switch is independent of the integer byte order.
pub open spec fn spec_decode_flag_byte(b: u8, flags_little_endian: bool) -> u8 {
    if flags_little_endian {
        b
    } else {
        spec_reverse_bits(b)
    }
}

/// Applies the flag bit-order correction to a stored flag byte.
pub fn decode_flag_byte(b: u8, flags_little_endian: bool) -> (r: u8)
    ensures
        r == spec_decode_flag_byte(b, flags_little_endian),
{
    if flags_little_endian {
        b
    } else {
        reverse_bits(b)
    }
}

/// Archive-wide format flags. Bits: `0x01` big-endian stamp, `0x02`
/// entries carry ids, `0x04` entries carry paths, `0x08` entries carry
/// names, `0x10` data offsets are 64-bit, `0x20` entries may be
/// compressed. Any other bit makes the byte invalid.
#[derive(Debug, Clone, Copy, PartialEq, Eq, Structural)]
pub struct Bnd4Flags {
    pub bits: u8,
}

impl Bnd4Flags {
    /// A byte denotes a flag set only when every set bit is a known flag.
    pub open spec fn spec_valid_bits(bits: u8) -> bool {
        bits & 0xC0 == 0
    }

    pub open spec fn spec_from_bits(bits: u8) -> Option<Bnd4Flags> {
        if Self::spec_valid_bits(bits) {
            Some(Bnd4Flags { bits })
        } else {
            None
        }
    }

    pub fn from_bits(bits: u8) -> (r: Option<Bnd4Flags>)
        ensures
            r == Self::spec_from_bits(bits),
    {
        if bits & 0xC0 == 0 {
            Some(Bnd4Flags { bits })
        } else {
            None
        }
    }

    pub open spec fn spec_has_long_offsets(self) -> bool {
        self.bits & 0x10 != 0
    }

    /// True when entry data offsets are stored as 64-bit integers.
    pub fn has_long_offsets(&self) -> (r: bool)
        ensures
            r == self.spec_has_long_offsets(),
    {
        self.bits & 0x10 != 0
    }

    pub open spec fn spec_supports_filenames(self) -> bool {
        self.bits & 0x0C != 0
    }

    /// True when entries carry a name offset (paths or bare names).
    pub fn supports_filenames(&self) -> (r: bool)
        ensures
            r == self.spec_supports_filenames(),
    {
        self.bits & 0x0C != 0
    }

    pub open spec fn spec_supports_ids(self) -> bool {
        self.bits & 0x02 != 0
    }

    /// True when entries carry a numeric id.
    pub fn supports_ids(&self) -> (r: bool)
        ensures
            r == self.spec_supports_ids(),
    {
        self.bits & 0x02 != 0
    }

    pub open spec fn spec_supports_compression(self) -> bool {
        self.bits & 0x20 != 0
    }

    /// True when entries carry a decompressed size and may be compressed.
    pub fn supports_compression(&self) -> (r: bool)
        ensures
            r == self.spec_supports_compression(),
    {
        self.bits & 0x20 != 0
    }
}

/// Per-entry flags. Bits: `0x02` the entry has an id, `0x04` a name,
/// `0x08` a second name, `0x20` the payload is individually compressed,
/// `0x40` unknown but accepted. Any other bit makes the byte invalid.
#[derive(Debug, Clone, Copy, PartialEq, Eq, Structural)]
pub struct Bnd4EntryFlags {
    pub bits: u8,
}

impl Bnd4EntryFlags {
    /// A byte denotes a flag set only when every set bit is a known flag.
    pub open spec fn spec_valid_bits(bits: u8) -> bool {
        bits & 0x91 == 0
    }

    pub open spec fn spec_from_bits(bits: u8) -> Option<Bnd4EntryFlags> {
        if Self::spec_valid_bits(bits) {
            Some(Bnd4EntryFlags { bits })
        } else {
            None
        }
    }

    pub fn from_bits(bits: u8) -> (r: Option<Bnd4EntryFlags>)
        ensures
            r == Self::spec_from_bits(bits),
    {
        if bits & 0x91 == 0 {
            Some(Bnd4EntryFlags { bits })
        } else {
            None
        }
    }

    pub open spec fn spec_is_compressed(self) -> bool {
        self.bits & 0x20 != 0
    }

    /// True when the entry payload is wrapped in its own container.
    pub fn is_compressed(&self) -> (r: bool)
        ensures
            r == self.spec_is_compressed(),
    {
        self.bits & 0x20 != 0
    }
}

/// Law: a flag byte parses identically whether it is stored directly and
/// the header selects little-endian flag bits, or stored bit-reversed and
/// the header does not. This holds for the archive format flags and for
/// the per-entry flags alike, since both decode the same corrected byte.
pub proof fn lemma_flag_bit_order(b: u8)
    ensures
        Bnd4Flags::spec_from_bits(spec_decode_flag_byte(b, true)) == Bnd4Flags::spec_from_bits(
            spec_decode_flag_byte(spec_reverse_bits(b), false),
        ),
        Bnd4EntryFlags::spec_from_bits(spec_decode_flag_byte(b, true))
            == Bnd4EntryFlags::spec_from_bits(
            spec_decode_flag_byte(spec_reverse_bits(b), false),
        ),
{
    lemma_reverse_bits_involution(b);
}

} // verus!
