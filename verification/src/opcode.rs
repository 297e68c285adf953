//! Decoding of two raw instruction bytes into a four-nibble opcode record.

use vstd::prelude::*;

verus! {

/// A two-byte instruction word decoded into four 4-bit fields, named by
/// position: `ll` and `lr` are the high and low nibble of the first byte,
/// `rl` and `rr` those of the second byte.
#[derive(Debug)]
pub struct OpCode {
    pub ll: u8,
    pub lr: u8,
    pub rl: u8,
    pub rr: u8,
}

impl OpCode {
    /// All four fields are nibbles: values in [0, 15].
    pub open spec fn wf(self) -> bool {
        self.ll < 16 && self.lr < 16 && self.rl < 16 && self.rr < 16
    }

    /// The 12-bit address assembled from the three trailing nibbles.
    pub open spec fn nnn(self) -> int {
        self.lr * 0x100 + self.rl * 0x10 + self.rr
    }

    /// The 8-bit immediate assembled from the two trailing nibbles.
    pub open spec fn nn(self) -> int {
        self.rl * 0x10 + self.rr
    }

    /// Splits two raw bytes into their four nibbles. Any byte pair decodes
    /// to a structurally valid record.
    pub fn new(lhs: u8, rhs: u8) -> (op: OpCode)
        ensures
            op.wf(),
            op.ll == lhs / 16,
            op.lr == lhs % 16,
            op.rl == rhs / 16,
            op.rr == rhs % 16,
    {
        let op = OpCode {
            ll: (lhs & 0xF0) >> 4,
            lr: lhs & 0x0F,
            rl: (rhs & 0xF0) >> 4,
            rr: rhs & 0x0F,
        };
        proof {
            assert((lhs & 0xF0) >> 4u8 == lhs / 16 && (lhs & 0x0F) == lhs % 16)
                by (bit_vector);
            assert((rhs & 0xF0) >> 4u8 == rhs / 16 && (rhs & 0x0F) == rhs % 16)
                by (bit_vector);
        }
        op
    }

    /// The 12-bit address operand, always below 0x1000.
    pub fn get_nnn(&self) -> (r: usize)
        requires
            self.wf(),
        ensures
            r == self.nnn(),
            r < 0x1000,
    {
        let a: u8 = self.lr;
        let b: u8 = self.rl;
        let c: u8 = self.rr;
        let r: usize = ((a as usize) << 8) | ((b as usize) << 4) | (c as usize);
        proof {
            assert(((a as usize) << 8) | ((b as usize) << 4) | (c as usize)
                == (a as usize) * 0x100 + (b as usize) * 0x10 + (c as usize))
                by (bit_vector)
                requires
                    a < 16 && b < 16 && c < 16,
            ;
        }
        r
    }

    /// The 8-bit immediate operand.
    pub fn get_nn(&self) -> (r: u8)
        requires
            self.wf(),
        ensures
            r == self.nn(),
    {
        let b: u8 = self.rl;
        let c: u8 = self.rr;
        let r: u8 = (b << 4) | c;
        proof {
            assert((b << 4u8) | c == b * 0x10 + c) by (bit_vector)
                requires
                    b < 16 && c < 16,
            ;
        }
        r
    }
}

} // verus!
