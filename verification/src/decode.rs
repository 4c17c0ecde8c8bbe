use vstd::prelude::*;

verus! {

/// The four 4-bit fields of one instruction word, together with the derived
/// composites that the opcode semantics read: the 12-bit address `addr`
/// (low three nibbles) and the 8-bit immediate `kk` (low two nibbles).
/// The register indices of an instruction are `n1` (X) and `n2` (Y).
#[derive(Clone, Copy)]
pub struct Fields {
    pub n0: u8,
    pub n1: u8,
    pub n2: u8,
    pub n3: u8,
    pub addr: u16,
    pub kk: u8,
}

/// Highest nibble of an instruction word.
pub open spec fn nib0(w: u16) -> u8 {
    (w / 0x1000) as u8
}

/// Second nibble of an instruction word (register index X).
pub open spec fn nib1(w: u16) -> u8 {
    ((w / 0x100) % 0x10) as u8
}

/// Third nibble of an instruction word (register index Y).
pub open spec fn nib2(w: u16) -> u8 {
    ((w / 0x10) % 0x10) as u8
}

/// Lowest nibble of an instruction word.
pub open spec fn nib3(w: u16) -> u8 {
    (w % 0x10) as u8
}

/// The 12-bit address field of an instruction word.
pub open spec fn addr_of(w: u16) -> u16 {
    w % 0x1000
}

/// The 8-bit immediate field of an instruction word.
pub open spec fn kk_of(w: u16) -> u8 {
    (w % 0x100) as u8
}

/// The decoded fields of an instruction word, as one record.
pub open spec fn spec_decode(w: u16) -> Fields {
    Fields {
        n0: nib0(w),
        n1: nib1(w),
        n2: nib2(w),
        n3: nib3(w),
        addr: addr_of(w),
        kk: kk_of(w),
    }
}

/// Reassembles an instruction word from its four nibble fields.
pub open spec fn word_of(n0: u8, n1: u8, n2: u8, n3: u8) -> u16 {
    (n0 * 0x1000 + n1 * 0x100 + n2 * 0x10 + n3) as u16
}

/// Splits an instruction word into its nibble fields and composites.
/// Total over all 65536 words; dispatch decides separately whether the
/// word has a meaning.
pub fn decode(w: u16) -> (f: Fields)
    ensures
        f == spec_decode(w),
{
    Fields {
        n0: (w / 0x1000) as u8,
        n1: ((w / 0x100) % 0x10) as u8,
        n2: ((w / 0x10) % 0x10) as u8,
        n3: (w % 0x10) as u8,
        addr: w % 0x1000,
        kk: (w % 0x100) as u8,
    }
}

/// Reconstructing a word from its four decoded nibble fields yields the
/// word exactly, for every 16-bit word.
pub proof fn lemma_decode_round_trip(w: u16)
    ensures
        word_of(nib0(w), nib1(w), nib2(w), nib3(w)) == w,
{
    assert(((w / 0x1000) % 0x10) * 0x1000 + ((w / 0x100) % 0x10) * 0x100 + ((w / 0x10) % 0x10)
        * 0x10 + (w % 0x10) == w) by (bit_vector);
    assert(w / 0x1000 < 0x10) by (bit_vector);
}

/// A word built from four nibbles decodes back to those nibbles, and its
/// address and immediate fields are the matching nibble sums.
pub proof fn lemma_word_fields(n0: u8, n1: u8, n2: u8, n3: u8)
    requires
        n0 < 0x10,
        n1 < 0x10,
        n2 < 0x10,
        n3 < 0x10,
    ensures
        nib0(word_of(n0, n1, n2, n3)) == n0,
        nib1(word_of(n0, n1, n2, n3)) == n1,
        nib2(word_of(n0, n1, n2, n3)) == n2,
        nib3(word_of(n0, n1, n2, n3)) == n3,
        addr_of(word_of(n0, n1, n2, n3)) == n1 * 0x100 + n2 * 0x10 + n3,
        kk_of(word_of(n0, n1, n2, n3)) == n2 * 0x10 + n3,
{
    let w = word_of(n0, n1, n2, n3);
    assert(n0 < 0x10 && n1 < 0x10 && n2 < 0x10 && n3 < 0x10 ==> ((n0 * 0x1000 + n1 * 0x100 + n2
        * 0x10 + n3) as u16) / 0x1000 == n0 && ((n0 * 0x1000 + n1 * 0x100 + n2 * 0x10
        + n3) as u16) / 0x100 % 0x10 == n1 && ((n0 * 0x1000 + n1 * 0x100 + n2 * 0x10
        + n3) as u16) / 0x10 % 0x10 == n2 && ((n0 * 0x1000 + n1 * 0x100 + n2 * 0x10
        + n3) as u16) % 0x10 == n3 && ((n0 * 0x1000 + n1 * 0x100 + n2 * 0x10 + n3) as u16) % 0x1000
        == n1 * 0x100 + n2 * 0x10 + n3 && ((n0 * 0x1000 + n1 * 0x100 + n2 * 0x10 + n3) as u16)
        % 0x100 == n2 * 0x10 + n3) by (bit_vector);
}

} // verus!
