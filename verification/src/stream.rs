//! The positioned stream decoder: drives the codec repeatedly over a byte
//! buffer, pairing each decoded instruction with the address at which it
//! begins, and resolves relative displacements against the *following*
//! instruction's address, matching the hardware's RIP-relative semantics.

use vstd::prelude::*;

use crate::inst::Inst;
use crate::inst::lemma_decode_round_trip;
use crate::inst::spec_decode;

verus! {

/// Instruction pointer alongside an instruction.
#[derive(Clone, Copy, PartialEq, Eq, Structural)]
pub struct WithIp {
    ip: usize,
    inst: Inst,
}

impl WithIp {
    /// The address at which the instruction begins.
    pub closed spec fn spec_ip(self) -> int {
        self.ip as int
    }

    /// The instruction itself.
    pub closed spec fn spec_inst(self) -> Inst {
        self.inst
    }

    /// The resolved absolute target of the instruction's relative
    /// displacement, if it carries one: the displacement is added to the
    /// address *after* the instruction, the following instruction's
    /// address.
    pub open spec fn spec_abs_addr(self) -> Option<int> {
        match self.spec_inst().spec_rel_addr() {
            Some(d) => Some(self.spec_ip() + self.spec_inst().spec_len() + d),
            None => None,
        }
    }

    pub fn new(ip: usize, inst: Inst) -> (r: Self)
        ensures
            r.spec_ip() == ip,
            r.spec_inst() == inst,
    {
        Self { ip, inst }
    }

    /// Resolves the relative address (if present).
    pub fn abs_addr(self) -> (r: Option<usize>)
        requires
            self.spec_ip() + self.spec_inst().spec_len() <= usize::MAX,
            self.spec_inst().spec_rel_addr() is Some ==> 0 <= self.spec_ip()
                + self.spec_inst().spec_len() + self.spec_inst().spec_rel_addr()->Some_0
                <= usize::MAX,
        ensures
            r is Some <==> self.spec_abs_addr() is Some,
            r is Some ==> r->Some_0 == self.spec_abs_addr()->Some_0,
    {
        // Relative addresses are calculated from the ip after the current
        // instruction.
        let ip = self.ip + self.inst.len();

        let rel = match self.inst.rel_addr() {
            Some(rel) => rel,
            None => {
                return None;
            },
        };

        if rel >= 0 {
            Some(ip + (rel as usize))
        } else {
            let magnitude = (-(rel as i64)) as usize;

            Some(ip - magnitude)
        }
    }

    pub fn ip(self) -> (r: usize)
        ensures
            r == self.spec_ip(),
    {
        self.ip
    }

    pub fn display(self) -> (r: Inst)
        ensures
            r == self.spec_inst(),
    {
        self.inst
    }
}

/// Relative address resolution: an instruction that carries displacement
/// `d` and stands at address `ip` resolves to `ip` plus its own length
/// plus `d` — the address of the following instruction, displaced by `d`.
pub proof fn lemma_abs_addr_resolution(w: WithIp, d: int)
    requires
        w.spec_inst().spec_rel_addr() == Some(d),
    ensures
        w.spec_abs_addr() == Some(w.spec_ip() + w.spec_inst().spec_len() + d),
{
}

/// The indirect call resolves through the pointer slot six bytes past its
/// own address: at address `ip` with displacement `d` it targets
/// `ip + 6 + d`.
pub proof fn lemma_call_indirect_resolution(w: WithIp, d: i32)
    requires
        w.spec_inst() == Inst::Call(d),
    ensures
        w.spec_abs_addr() == Some(w.spec_ip() + 6 + d),
{
}

/// Instruction iterator (decoder): a cursor over a borrowed byte buffer.
///
/// Each advance decodes at the current offset and moves past the decoded
/// instruction; the first undecodable byte ends the stream permanently.
pub struct InstIter<'a> {
    bytes: &'a [u8],
    ip: usize,
    offset: usize,
}

impl<'a> InstIter<'a> {
    /// The underlying buffer.
    pub closed spec fn spec_bytes(self) -> Seq<u8> {
        self.bytes@
    }

    /// The base address of the buffer's first byte.
    pub closed spec fn spec_ip(self) -> int {
        self.ip as int
    }

    /// The cursor: how many bytes have been decoded so far.
    pub closed spec fn spec_offset(self) -> int {
        self.offset as int
    }

    /// A well-formed cursor stays within the buffer, and the addresses it
    /// produces stay within the machine's range.
    pub open spec fn wf(self) -> bool {
        &&& self.spec_offset() <= self.spec_bytes().len()
        &&& self.spec_ip() + self.spec_bytes().len() <= usize::MAX
    }

    pub fn from_bytes(ip: usize, bytes: &'a [u8]) -> (r: Self)
        requires
            ip + bytes@.len() <= usize::MAX,
        ensures
            r.wf(),
            r.spec_bytes() == bytes@,
            r.spec_ip() == ip,
            r.spec_offset() == 0,
    {
        let offset: usize = 0;

        Self { bytes, ip, offset }
    }

    /// Decodes the instruction at the cursor, pairs it with its absolute
    /// address, and advances past it. On the first head that no pattern
    /// matches the stream ends and the cursor no longer moves: a single
    /// bad byte terminates the whole stream.
    pub fn next(&mut self) -> (r: Option<WithIp>)
        requires
            old(self).wf(),
        ensures
            final(self).wf(),
            final(self).spec_bytes() == old(self).spec_bytes(),
            final(self).spec_ip() == old(self).spec_ip(),
            match spec_decode(old(self).spec_bytes().skip(old(self).spec_offset())) {
                Some(inst) => {
                    &&& r is Some
                    &&& r->Some_0.spec_inst() == inst
                    &&& r->Some_0.spec_ip() == old(self).spec_ip() + old(self).spec_offset()
                    &&& final(self).spec_offset() == old(self).spec_offset() + inst.spec_len()
                },
                None => {
                    &&& r is None
                    &&& final(self).spec_offset() == old(self).spec_offset()
                },
            },
    {
        let rest = &self.bytes[self.offset..self.bytes.len()];

        match Inst::from_bytes(rest) {
            Some(inst) => {
                proof {
                    lemma_decode_round_trip(self.bytes@.skip(self.offset as int), inst);
                }

                let ip = self.ip + self.offset;

                self.offset += inst.len();

                Some(WithIp::new(ip, inst))
            },
            None => None,
        }
    }
}

} // verus!
