//! A capacity-bounded, append-only byte sink for encoded output.
//!
//! The capacity is the largest x86-64 instruction length; a writer proves
//! before each write that the total never exceeds it, so no write can fail
//! at run time.

use vstd::prelude::*;

use crate::inst::i32_le_bytes;

verus! {

/// The largest x86-64 instruction length, and so the encoder's capacity.
pub const MAX_INST_LEN: usize = 15;

/// An append-only byte buffer holding at most `MAX_INST_LEN` bytes.
pub struct Encoder {
    bytes: Vec<u8>,
}

impl View for Encoder {
    type V = Seq<u8>;

    closed spec fn view(&self) -> Seq<u8> {
        self.bytes@
    }
}

impl Encoder {
    /// The capacity bound: a well-formed encoder never outgrows the largest
    /// instruction length. Constructors establish it and every write keeps
    /// it, since each write demands room beforehand.
    pub open spec fn wf(self) -> bool {
        self@.len() <= MAX_INST_LEN
    }

    /// An empty encoder.
    pub fn new() -> (r: Encoder)
        ensures
            r@ == Seq::<u8>::empty(),
            r.wf(),
    {
        let bytes = Vec::new();

        Encoder { bytes }
    }

    /// Appends one byte.
    pub fn write_u8(&mut self, value: u8)
        requires
            old(self)@.len() < MAX_INST_LEN,
        ensures
            final(self)@ == old(self)@.push(value),
            final(self).wf(),
    {
        self.bytes.push(value);
    }

    /// Appends the four little-endian bytes of a signed 32-bit value.
    pub fn write_i32(&mut self, value: i32)
        requires
            old(self)@.len() + 4 <= MAX_INST_LEN,
        ensures
            final(self)@ == old(self)@ + i32_le_bytes(value),
            final(self).wf(),
    {
        let v = #[verifier::truncate] (value as u32);

        self.write_u8((v & 0xFF) as u8);
        self.write_u8(((v >> 8u32) & 0xFF) as u8);
        self.write_u8(((v >> 16u32) & 0xFF) as u8);
        self.write_u8(((v >> 24u32) & 0xFF) as u8);

        proof {
            assert(self@ =~= old(self)@ + i32_le_bytes(value));
        }
    }

    /// Appends a whole byte slice.
    pub fn write_bytes(&mut self, bytes: &[u8])
        requires
            old(self)@.len() + bytes@.len() <= MAX_INST_LEN,
        ensures
            final(self)@ == old(self)@ + bytes@,
            final(self).wf(),
    {
        let ghost orig = self@;
        let n = bytes.len();

        for i in 0..n
            invariant
                n == bytes@.len(),
                orig.len() + n <= MAX_INST_LEN,
                self@ == orig + bytes@.take(i as int),
        {
            self.write_u8(bytes[i]);

            proof {
                assert(self@ =~= orig + bytes@.take(i + 1));
            }
        }

        proof {
            assert(self@ =~= orig + bytes@);
        }
    }

    /// Hands the written bytes out.
    pub fn into_vec(self) -> (r: Vec<u8>)
        ensures
            r@ == self@,
    {
        self.bytes
    }
}

} // verus!
