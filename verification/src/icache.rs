//! One line of the direct-mapped instruction cache: four instruction words,
//! plus a packed word holding the address tag in bits [31:12] and the index
//! of the first valid word in bits [4:2].
//!
//! The packing lets the tag and valid index be set from a program counter
//! with a single mask, `pc & 0xfffff00c`; pushing the index out of the
//! [0, 3] range (by setting bit 4) invalidates the whole line without
//! touching the tag or the cached words.

use vstd::prelude::*;
use crate::instruction::Instruction;

verus! {

/// The cached words and packed tag of one line, as plain values.
pub ghost struct LineView {
    /// Packed tag (bits [31:12]) and first-valid-index (bits [4:2]).
    pub tag_valid: u32,
    /// The four cached instruction words.
    pub words: Seq<u32>,
}

/// The address tag stored in a packed tag/valid word.
pub open spec fn tag_spec(tag_valid: u32) -> u32 {
    tag_valid & 0xffff_f000
}

/// The first valid word index stored in a packed tag/valid word. Values
/// above 3 mean that no word of the line is valid.
pub open spec fn valid_index_spec(tag_valid: u32) -> u32 {
    (tag_valid >> 2) & 7
}

/// Instruction cache line: 4 words, direct-mapped.
#[derive(Clone, Copy)]
pub struct ICacheLine {
    /// Packed tag and first-valid-index word.
    pub tag_valid: u32,
    /// The four cached instruction words.
    pub line: [Instruction; 4],
}

impl View for ICacheLine {
    type V = LineView;

    open spec fn view(&self) -> LineView {
        LineView {
            tag_valid: self.tag_valid,
            words: Seq::new(4, |i: int| self.line@[i].0),
        }
    }
}

impl ICacheLine {
    /// A fresh line: tag 0 and every word valid, each word filled with a
    /// trap value (a BREAK encoding) so that stale contents fail fast if
    /// ever executed.
    pub fn new() -> (r: ICacheLine)
        ensures
            r@.tag_valid == 0,
            r@.words == Seq::new(4, |i: int| 0xbad0du32),
    {
        let r = ICacheLine {
            tag_valid: 0,
            line: [
                Instruction(0xbad0d),
                Instruction(0xbad0d),
                Instruction(0xbad0d),
                Instruction(0xbad0d),
            ],
        };
        proof {
            assert(r@.words =~= Seq::new(4, |i: int| 0xbad0du32));
        }
        r
    }

    /// The line's address tag.
    pub fn tag(&self) -> (r: u32)
        ensures
            r == tag_spec(self@.tag_valid),
    {
        self.tag_valid & 0xffff_f000
    }

    /// The index of the line's first valid word; above 3 the entire line
    /// is invalid.
    pub fn valid_index(&self) -> (r: u32)
        ensures
            r == valid_index_spec(self@.tag_valid),
            r < 8,
    {
        let r = (self.tag_valid >> 2u32) & 7;
        proof {
            let tv = self.tag_valid;
            assert((tv >> 2) & 7 < 8) by (bit_vector);
        }
        r
    }

    /// Set the line's tag and first-valid-index from `pc`, the address of
    /// the first valid word cached in the line.
    pub fn set_tag_valid(&mut self, pc: u32)
        ensures
            final(self)@ == (LineView { tag_valid: pc & 0xffff_f00c, ..old(self)@ }),
    {
        self.tag_valid = pc & 0xffff_f00c;
    }

    /// Invalidate the entire line by pushing the first-valid-index out of
    /// range; the tag and the cached words are preserved.
    pub fn invalidate(&mut self)
        ensures
            final(self)@ == (LineView { tag_valid: old(self)@.tag_valid | 0x10, ..old(self)@ }),
    {
        self.tag_valid = self.tag_valid | 0x10;
    }

    /// The cached word at `index`.
    pub fn instruction(&self, index: u32) -> (r: Instruction)
        requires
            index < 4,
        ensures
            r.0 == self@.words[index as int],
    {
        self.line[index as usize]
    }

    /// Replace the cached word at `index`.
    pub fn set_instruction(&mut self, index: u32, instruction: Instruction)
        requires
            index < 4,
        ensures
            final(self)@ == (LineView {
                words: old(self)@.words.update(index as int, instruction.0),
                ..old(self)@
            }),
    {
        self.line[index as usize] = instruction;
        proof {
            assert(self@.words =~= old(self)@.words.update(index as int, instruction.0));
        }
    }
}

/// After `set_tag_valid(pc)` the tag is the high bits of `pc` and the first
/// valid index is the word index of `pc` within its line.
pub proof fn lemma_set_tag_valid(pc: u32)
    by (bit_vector)
    ensures
        tag_spec(pc & 0xffff_f00c) == pc & 0xffff_f000,
        valid_index_spec(pc & 0xffff_f00c) == pc / 4 % 4,
{
}

/// Invalidating pushes the first valid index out of the [0, 3] range while
/// preserving the tag.
pub proof fn lemma_invalidate(tag_valid: u32)
    by (bit_vector)
    ensures
        valid_index_spec(tag_valid | 0x10) > 3,
        tag_spec(tag_valid | 0x10) == tag_spec(tag_valid),
{
}

} // verus!
