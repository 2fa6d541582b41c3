//! The instruction codec: decoding a raw byte buffer into a structured
//! instruction value, re-encoding that value into the exact original bytes,
//! and the per-variant length computation.
//!
//! Decoding tries a fixed, ordered set of byte-prefix patterns against the
//! front of the buffer, most specific first; the ordering is part of the
//! contract, since some patterns overlap (a bare `0x50` push against one
//! preceded by the `0x41` extension prefix).

use vstd::prelude::*;

use crate::encoder::Encoder;
use crate::reg::Reg;
use crate::reg::reg_of_bits;

verus! {

/// The REX.W prefix byte: operand-size extension.
pub const REX_W: u8 = 0x48;

/// The REX.B prefix byte: register-number extension.
pub const REX_B: u8 = 0x41;

/// A register or a signed 32-bit integer (immediate or displacement).
#[derive(Clone, Copy, Debug, PartialEq, Eq, Structural)]
pub enum Arg {
    Reg(Reg),
    Int(i32),
}

/// An instruction.
///
/// `Call` is the indirect call through a RIP-relative pointer slot;
/// `CallDirect` is the direct relative call.
#[derive(Clone, Copy, Debug, PartialEq, Eq, Structural)]
pub enum Inst {
    Call(i32),
    CallDirect(i32),
    Lea(Reg, Arg),
    Mov(Reg, Arg),
    Pop(Reg),
    Push(Arg),
    Jmp(i32),
    Ret,
    Syscall,
    Xor(Reg, Reg),
}

/// The signed 32-bit value carried little-endian by the four bytes
/// `a`, `b`, `c`, `d`.
pub open spec fn le_i32(a: u8, b: u8, c: u8, d: u8) -> i32 {
    ((a as u32) | ((b as u32) << 8) | ((c as u32) << 16) | ((d as u32) << 24)) as i32
}

/// The four little-endian bytes of a signed 32-bit value.
pub open spec fn i32_le_bytes(v: i32) -> Seq<u8> {
    seq![
        (v as u32 & 0xFF) as u8,
        ((v as u32 >> 8) & 0xFF) as u8,
        ((v as u32 >> 16) & 0xFF) as u8,
        ((v as u32 >> 24) & 0xFF) as u8,
    ]
}

/// The low byte of a signed 32-bit value.
pub open spec fn low_byte(v: i32) -> u8 {
    (v as u32 & 0xFF) as u8
}

/// The sign-extension of a byte to a signed 32-bit value.
pub open spec fn sign_ext8(b: u8) -> i32 {
    b as i8 as i32
}

/// Reading four little-endian bytes back from a value yields the bytes.
pub proof fn lemma_i32_le_bytes_of_le_i32(a: u8, b: u8, c: u8, d: u8)
    ensures
        i32_le_bytes(le_i32(a, b, c, d)) == seq![a, b, c, d],
{
    assert(((((a as u32) | ((b as u32) << 8) | ((c as u32) << 16) | ((d as u32) << 24)) as i32)
        as u32 & 0xFF) as u8 == a) by (bit_vector);
    assert((((((a as u32) | ((b as u32) << 8) | ((c as u32) << 16) | ((d as u32) << 24)) as i32)
        as u32 >> 8) & 0xFF) as u8 == b) by (bit_vector);
    assert((((((a as u32) | ((b as u32) << 8) | ((c as u32) << 16) | ((d as u32) << 24)) as i32)
        as u32 >> 16) & 0xFF) as u8 == c) by (bit_vector);
    assert((((((a as u32) | ((b as u32) << 8) | ((c as u32) << 16) | ((d as u32) << 24)) as i32)
        as u32 >> 24) & 0xFF) as u8 == d) by (bit_vector);
    assert(i32_le_bytes(le_i32(a, b, c, d)) =~= seq![a, b, c, d]);
}

/// A value survives the trip through its four little-endian bytes.
pub proof fn lemma_le_i32_of_i32_le_bytes(v: i32)
    ensures
        le_i32(
            i32_le_bytes(v)[0],
            i32_le_bytes(v)[1],
            i32_le_bytes(v)[2],
            i32_le_bytes(v)[3],
        ) == v,
{
    assert(((((v as u32 & 0xFF) as u8 as u32) | ((((v as u32 >> 8) & 0xFF) as u8 as u32) << 8)
        | ((((v as u32 >> 16) & 0xFF) as u8 as u32) << 16) | ((((v as u32 >> 24) & 0xFF) as u8
        as u32) << 24)) as i32) == v) by (bit_vector);
}

/// A byte survives sign-extension followed by taking the low byte, and a
/// sign-extended value is within the 8-bit signed range.
pub proof fn lemma_sign_ext8_low_byte(b: u8)
    ensures
        low_byte(sign_ext8(b)) == b,
        -128 <= sign_ext8(b) <= 127,
{
    assert((b as i8 as i32) as u32 & 0xFF == b) by (bit_vector);
    assert(-128 <= (b as i8 as i32) <= 127) by (bit_vector);
}

/// The low byte of a value already in the 8-bit signed range sign-extends
/// back to the value.
pub proof fn lemma_low_byte_sign_ext8(v: i32)
    requires
        -128 <= v <= 127,
    ensures
        sign_ext8(low_byte(v)) == v,
{
    assert(-128 <= v <= 127 ==> ((v as u32 & 0xFF) as u8) as i8 as i32 == v) by (bit_vector);
}

impl Inst {
    /// An instruction value that the codec's table covers: the combinations
    /// of variant and operands that decoding can produce and that encoding
    /// accepts.
    pub open spec fn wf(self) -> bool {
        match self {
            Inst::Call(_) => true,
            Inst::CallDirect(_) => true,
            Inst::Lea(r, a) => r == Reg::Rcx && a is Int,
            Inst::Mov(r, a) => r == Reg::Rax && a is Int,
            Inst::Pop(_) => true,
            Inst::Push(a) => match a {
                Arg::Reg(_) => true,
                Arg::Int(v) => -128 <= v <= 127,
            },
            Inst::Jmp(_) => true,
            Inst::Ret => true,
            Inst::Syscall => true,
            Inst::Xor(_, _) => false,
        }
    }

    /// The byte length of the instruction's canonical encoding.
    ///
    /// A pure function of the variant, except that a pushed or popped
    /// extended register adds one byte for the `0x41` prefix.
    pub open spec fn spec_len(self) -> int {
        match self {
            Inst::Call(_) => 6,
            Inst::CallDirect(_) => 5,
            Inst::Lea(_, _) => 7,
            Inst::Mov(_, _) => 7,
            Inst::Pop(r) => if r.spec_is_hi() {
                2
            } else {
                1
            },
            Inst::Push(a) => match a {
                Arg::Reg(r) => if r.spec_is_hi() {
                    2
                } else {
                    1
                },
                Arg::Int(_) => 2,
            },
            Inst::Jmp(_) => 6,
            Inst::Ret => 1,
            Inst::Syscall => 2,
            Inst::Xor(_, _) => 3,
        }
    }

    /// The canonical byte encoding of a well-formed instruction: exactly one
    /// byte pattern per variant, the one the decode table recognizes.
    pub open spec fn encoding(self) -> Seq<u8> {
        match self {
            Inst::Call(rel) => seq![0xFFu8, 0x15u8] + i32_le_bytes(rel),
            Inst::CallDirect(rel) => seq![0xE8u8] + i32_le_bytes(rel),
            Inst::Lea(_, a) => seq![REX_W, 0x8Du8, 0x0Du8] + i32_le_bytes(a->Int_0),
            Inst::Mov(_, a) => seq![REX_W, 0x8Bu8, 0x05u8] + i32_le_bytes(a->Int_0),
            Inst::Pop(r) => if r.spec_is_hi() {
                seq![REX_B, (0x58 + r.spec_base_bits()) as u8]
            } else {
                seq![(0x58 + r.spec_base_bits()) as u8]
            },
            Inst::Push(a) => match a {
                Arg::Reg(r) => if r.spec_is_hi() {
                    seq![REX_B, (0x50 + r.spec_base_bits()) as u8]
                } else {
                    seq![(0x50 + r.spec_base_bits()) as u8]
                },
                Arg::Int(v) => seq![0x6Au8, low_byte(v)],
            },
            Inst::Jmp(rel) => seq![0xFFu8, 0x25u8] + i32_le_bytes(rel),
            Inst::Ret => seq![0xC3u8],
            Inst::Syscall => seq![0x0Fu8, 0x05u8],
            Inst::Xor(_, _) => Seq::empty(),
        }
    }
}

/// The decode table, applied to the front of a byte sequence: the fixed,
/// ordered patterns tried first-match-wins, longer and more specific
/// prefixes before shorter ones that would shadow them.
pub open spec fn spec_decode(b: Seq<u8>) -> Option<Inst> {
    if b.len() >= 7 && b[0] == REX_W && b[1] == 0x8B && b[2] == 0x05 {
        Some(Inst::Mov(Reg::Rax, Arg::Int(le_i32(b[3], b[4], b[5], b[6]))))
    } else if b.len() >= 7 && b[0] == REX_W && b[1] == 0x8D && b[2] == 0x0D {
        Some(Inst::Lea(Reg::Rcx, Arg::Int(le_i32(b[3], b[4], b[5], b[6]))))
    } else if b.len() >= 6 && b[0] == 0xFF && b[1] == 0x25 {
        Some(Inst::Jmp(le_i32(b[2], b[3], b[4], b[5])))
    } else if b.len() >= 6 && b[0] == 0xFF && b[1] == 0x15 {
        Some(Inst::Call(le_i32(b[2], b[3], b[4], b[5])))
    } else if b.len() >= 5 && b[0] == 0xE8 {
        Some(Inst::CallDirect(le_i32(b[1], b[2], b[3], b[4])))
    } else if b.len() >= 2 && b[0] == 0x6A {
        Some(Inst::Push(Arg::Int(sign_ext8(b[1]))))
    } else if b.len() >= 2 && b[0] == 0x0F && b[1] == 0x05 {
        Some(Inst::Syscall)
    } else if b.len() >= 2 && b[0] == REX_B && 0x50 <= b[1] && b[1] <= 0x57 {
        Some(Inst::Push(Arg::Reg(reg_of_bits(b[1] - 0x50 + 8))))
    } else if b.len() >= 2 && b[0] == REX_B && 0x58 <= b[1] && b[1] <= 0x5F {
        Some(Inst::Pop(reg_of_bits(b[1] - 0x58 + 8)))
    } else if b.len() >= 1 && b[0] == 0xC3 {
        Some(Inst::Ret)
    } else if b.len() >= 1 && 0x50 <= b[0] && b[0] <= 0x57 {
        Some(Inst::Push(Arg::Reg(reg_of_bits(b[0] - 0x50))))
    } else if b.len() >= 1 && 0x58 <= b[0] && b[0] <= 0x5F {
        Some(Inst::Pop(reg_of_bits(b[0] - 0x58)))
    } else {
        None
    }
}

/// Reads the signed 32-bit little-endian value at `off`.
fn read_i32_le(bytes: &[u8], off: usize) -> (r: i32)
    requires
        off + 4 <= bytes@.len(),
    ensures
        r == le_i32(
            bytes@[off as int],
            bytes@[off as int + 1],
            bytes@[off as int + 2],
            bytes@[off as int + 3],
        ),
{
    let a = bytes[off];
    let b = bytes[off + 1];
    let c = bytes[off + 2];
    let d = bytes[off + 3];

    #[verifier::truncate]
    (((a as u32) | ((b as u32) << 8u32) | ((c as u32) << 16u32) | ((d as u32) << 24u32)) as i32)
}

/// Sign-extends a byte to a signed 32-bit value.
fn sign_extend8(b: u8) -> (r: i32)
    ensures
        r == sign_ext8(b),
{
    #[verifier::truncate]
    (b as i8) as i32
}

impl Inst {
    /// Decode the instruction at the front of `bytes`.
    ///
    /// The patterns are tried in the table's fixed order, first match wins;
    /// trailing buffer content beyond the matched length is ignored. A
    /// pattern that needs more bytes than are present simply fails to match,
    /// and a head that no pattern matches yields nothing: no bytes are
    /// consumed and no partial match is reported.
    pub fn from_bytes(bytes: &[u8]) -> (r: Option<Inst>)
        ensures
            r == spec_decode(bytes@),
    {
        let n = bytes.len();

        if n >= 7 && bytes[0] == REX_W && bytes[1] == 0x8B && bytes[2] == 0x05 {
            Some(Inst::Mov(Reg::Rax, Arg::Int(read_i32_le(bytes, 3))))
        } else if n >= 7 && bytes[0] == REX_W && bytes[1] == 0x8D && bytes[2] == 0x0D {
            Some(Inst::Lea(Reg::Rcx, Arg::Int(read_i32_le(bytes, 3))))
        } else if n >= 6 && bytes[0] == 0xFF && bytes[1] == 0x25 {
            Some(Inst::Jmp(read_i32_le(bytes, 2)))
        } else if n >= 6 && bytes[0] == 0xFF && bytes[1] == 0x15 {
            Some(Inst::Call(read_i32_le(bytes, 2)))
        } else if n >= 5 && bytes[0] == 0xE8 {
            Some(Inst::CallDirect(read_i32_le(bytes, 1)))
        } else if n >= 2 && bytes[0] == 0x6A {
            Some(Inst::Push(Arg::Int(sign_extend8(bytes[1]))))
        } else if n >= 2 && bytes[0] == 0x0F && bytes[1] == 0x05 {
            Some(Inst::Syscall)
        } else if n >= 2 && bytes[0] == REX_B && 0x50 <= bytes[1] && bytes[1] <= 0x57 {
            Some(Inst::Push(Arg::Reg(Reg::from_base_bits(bytes[1] - 0x50, true))))
        } else if n >= 2 && bytes[0] == REX_B && 0x58 <= bytes[1] && bytes[1] <= 0x5F {
            Some(Inst::Pop(Reg::from_base_bits(bytes[1] - 0x58, true)))
        } else if n >= 1 && bytes[0] == 0xC3 {
            Some(Inst::Ret)
        } else if n >= 1 && 0x50 <= bytes[0] && bytes[0] <= 0x57 {
            Some(Inst::Push(Arg::Reg(Reg::from_base_bits(bytes[0] - 0x50, false))))
        } else if n >= 1 && 0x58 <= bytes[0] && bytes[0] <= 0x5F {
            Some(Inst::Pop(Reg::from_base_bits(bytes[0] - 0x58, false)))
        } else {
            None
        }
    }

    /// Encode the instruction into its canonical byte sequence, the exact
    /// syntactic inverse of the decode table: each variant maps to exactly
    /// one byte pattern.
    pub fn to_bytes(&self) -> (r: Vec<u8>)
        requires
            self.wf(),
        ensures
            r@ == self.encoding(),
            r@.len() == self.spec_len(),
    {
        let mut bytes = Encoder::new();

        match self {
            Inst::Call(rel) => {
                bytes.write_u8(0xFF);
                bytes.write_u8(0x15);
                bytes.write_i32(*rel);
            },
            Inst::CallDirect(rel) => {
                bytes.write_u8(0xE8);
                bytes.write_i32(*rel);
            },
            Inst::Lea(_, Arg::Int(rel)) => {
                bytes.write_u8(REX_W);
                bytes.write_u8(0x8D);
                bytes.write_u8(0x0D);
                bytes.write_i32(*rel);
            },
            Inst::Mov(_, Arg::Int(rel)) => {
                bytes.write_u8(REX_W);
                bytes.write_u8(0x8B);
                bytes.write_u8(0x05);
                bytes.write_i32(*rel);
            },
            Inst::Pop(reg) => {
                if reg.is_hi() {
                    bytes.write_u8(REX_B);
                    bytes.write_u8(0x58 + reg.base_bits());
                } else {
                    bytes.write_u8(0x58 + reg.bits());
                }
            },
            Inst::Push(Arg::Reg(reg)) => {
                if reg.is_hi() {
                    bytes.write_u8(REX_B);
                    bytes.write_u8(0x50 + reg.base_bits());
                } else {
                    bytes.write_u8(0x50 + reg.bits());
                }
            },
            Inst::Push(Arg::Int(imm)) => {
                bytes.write_u8(0x6A);
                bytes.write_u8(low_byte_exec(*imm));
            },
            Inst::Jmp(rel) => {
                bytes.write_u8(0xFF);
                bytes.write_u8(0x25);
                bytes.write_i32(*rel);
            },
            Inst::Ret => {
                bytes.write_u8(0xC3);
            },
            Inst::Syscall => {
                bytes.write_u8(0x0F);
                bytes.write_u8(0x05);
            },
            _ => {
                proof {
                    assert(false);
                }
            },
        }

        proof {
            assert(bytes@ =~= self.encoding());
        }

        bytes.into_vec()
    }

    /// The byte length of the instruction's canonical encoding (at most 15).
    pub fn len(&self) -> (r: usize)
        ensures
            r == self.spec_len(),
    {
        match self {
            Inst::Call(_) => 6,
            Inst::CallDirect(_) => 5,
            Inst::Lea(_, _) => 7,
            Inst::Mov(_, _) => 7,
            Inst::Pop(reg) => {
                if reg.is_hi() {
                    2
                } else {
                    1
                }
            },
            Inst::Push(Arg::Reg(reg)) => {
                if reg.is_hi() {
                    2
                } else {
                    1
                }
            },
            Inst::Push(Arg::Int(_)) => 2,
            Inst::Jmp(_) => 6,
            Inst::Ret => 1,
            Inst::Syscall => 2,
            Inst::Xor(_, _) => 3,
        }
    }

    /// The instruction-pointer-relative displacement, for the variants that
    /// carry one.
    pub open spec fn spec_rel_addr(self) -> Option<int> {
        match self {
            Inst::Call(rel) => Some(rel as int),
            Inst::CallDirect(rel) => Some(rel as int),
            Inst::Jmp(rel) => Some(rel as int),
            Inst::Mov(_, Arg::Int(rel)) => Some(rel as int),
            _ => None,
        }
    }

    /// Returns the relative displacement if present in this instruction.
    ///
    /// Only the RIP-relative variants (both calls, the jump and the
    /// RIP-relative load) carry one; the rest have nothing to resolve.
    pub fn rel_addr(&self) -> (r: Option<isize>)
        ensures
            r is Some <==> self.spec_rel_addr() is Some,
            r is Some ==> r->Some_0 as int == self.spec_rel_addr()->Some_0,
    {
        let rel = match self {
            Inst::Call(rel) | Inst::CallDirect(rel) | Inst::Jmp(rel) => rel,
            Inst::Mov(_, Arg::Int(rel)) => rel,
            _ => {
                return None;
            },
        };

        Some(*rel as isize)
    }
}

/// Round trip, decode first: any instruction the decode table produces is
/// well formed, consumes at least one byte and no more than the buffer
/// holds, and re-encodes to exactly the bytes it matched.
pub proof fn lemma_decode_round_trip(b: Seq<u8>, i: Inst)
    requires
        spec_decode(b) == Some(i),
    ensures
        i.wf(),
        0 < i.spec_len() <= b.len(),
        i.encoding().len() == i.spec_len(),
        i.encoding() == b.take(i.spec_len()),
{
    if b.len() >= 7 && b[0] == REX_W && b[1] == 0x8B && b[2] == 0x05 {
        lemma_i32_le_bytes_of_le_i32(b[3], b[4], b[5], b[6]);
        assert(i.encoding() =~= b.take(i.spec_len()));
    } else if b.len() >= 7 && b[0] == REX_W && b[1] == 0x8D && b[2] == 0x0D {
        lemma_i32_le_bytes_of_le_i32(b[3], b[4], b[5], b[6]);
        assert(i.encoding() =~= b.take(i.spec_len()));
    } else if b.len() >= 6 && b[0] == 0xFF && b[1] == 0x25 {
        lemma_i32_le_bytes_of_le_i32(b[2], b[3], b[4], b[5]);
        assert(i.encoding() =~= b.take(i.spec_len()));
    } else if b.len() >= 6 && b[0] == 0xFF && b[1] == 0x15 {
        lemma_i32_le_bytes_of_le_i32(b[2], b[3], b[4], b[5]);
        assert(i.encoding() =~= b.take(i.spec_len()));
    } else if b.len() >= 5 && b[0] == 0xE8 {
        lemma_i32_le_bytes_of_le_i32(b[1], b[2], b[3], b[4]);
        assert(i.encoding() =~= b.take(i.spec_len()));
    } else if b.len() >= 2 && b[0] == 0x6A {
        lemma_sign_ext8_low_byte(b[1]);
        assert(i.encoding() =~= b.take(i.spec_len()));
    } else if b.len() >= 2 && b[0] == 0x0F && b[1] == 0x05 {
        assert(i.encoding() =~= b.take(i.spec_len()));
    } else if b.len() >= 2 && b[0] == REX_B && 0x50 <= b[1] && b[1] <= 0x57 {
        crate::reg::lemma_reg_bits_bijective(reg_of_bits(b[1] - 0x50 + 8), b[1] - 0x50 + 8);
        assert(i.encoding() =~= b.take(i.spec_len()));
    } else if b.len() >= 2 && b[0] == REX_B && 0x58 <= b[1] && b[1] <= 0x5F {
        crate::reg::lemma_reg_bits_bijective(reg_of_bits(b[1] - 0x58 + 8), b[1] - 0x58 + 8);
        assert(i.encoding() =~= b.take(i.spec_len()));
    } else if b.len() >= 1 && b[0] == 0xC3 {
        assert(i.encoding() =~= b.take(i.spec_len()));
    } else if b.len() >= 1 && 0x50 <= b[0] && b[0] <= 0x57 {
        crate::reg::lemma_reg_bits_bijective(reg_of_bits(b[0] - 0x50), b[0] - 0x50);
        assert(i.encoding() =~= b.take(i.spec_len()));
    } else if b.len() >= 1 && 0x58 <= b[0] && b[0] <= 0x5F {
        crate::reg::lemma_reg_bits_bijective(reg_of_bits(b[0] - 0x58), b[0] - 0x58);
        assert(i.encoding() =~= b.take(i.spec_len()));
    } else {
        assert(false);
    }
}

/// Round trip, encode first: a well-formed instruction's canonical
/// encoding decodes back to the identical instruction, whatever trailing
/// bytes follow it in the buffer.
pub proof fn lemma_encode_decode(i: Inst, extra: Seq<u8>)
    requires
        i.wf(),
    ensures
        spec_decode(i.encoding() + extra) == Some(i),
{
    let b = i.encoding() + extra;

    match i {
        Inst::Call(rel) => {
            lemma_le_i32_of_i32_le_bytes(rel);
        },
        Inst::CallDirect(rel) => {
            lemma_le_i32_of_i32_le_bytes(rel);
        },
        Inst::Lea(_, a) => {
            lemma_le_i32_of_i32_le_bytes(a->Int_0);
        },
        Inst::Mov(_, a) => {
            lemma_le_i32_of_i32_le_bytes(a->Int_0);
        },
        Inst::Pop(r) => {
            crate::reg::lemma_reg_bits_bijective(r, 0);
            assert(spec_decode(b) == Some(i));
        },
        Inst::Push(Arg::Reg(r)) => {
            crate::reg::lemma_reg_bits_bijective(r, 0);
            assert(spec_decode(b) == Some(i));
        },
        Inst::Push(Arg::Int(v)) => {
            lemma_low_byte_sign_ext8(v);
        },
        Inst::Jmp(rel) => {
            lemma_le_i32_of_i32_le_bytes(rel);
        },
        Inst::Ret => {},
        Inst::Syscall => {},
        Inst::Xor(_, _) => {},
    }
}

/// Decoding fails only where nothing matches: a buffer the decoder refuses
/// has no well-formed instruction's encoding at its head.
pub proof fn lemma_decode_none(b: Seq<u8>, i: Inst)
    requires
        spec_decode(b) is None,
        i.wf(),
    ensures
        !i.encoding().is_prefix_of(b),
{
    if i.encoding().is_prefix_of(b) {
        let rest = b.skip(i.encoding().len() as int);

        assert(b =~= i.encoding() + rest);
        lemma_encode_decode(i, rest);
    }
}

/// Extended-register round trip: a push or pop of an extended register
/// encodes at length 2, with the `0x41` prefix in front, and decodes back
/// to the identical register; for a base register the length is 1 and no
/// prefix is emitted.
pub proof fn lemma_push_pop_reg_round_trip(r: Reg)
    ensures
        Inst::Push(Arg::Reg(r)).wf(),
        Inst::Pop(r).wf(),
        Inst::Push(Arg::Reg(r)).spec_len() == if r.spec_is_hi() {
            2int
        } else {
            1int
        },
        Inst::Pop(r).spec_len() == if r.spec_is_hi() {
            2int
        } else {
            1int
        },
        Inst::Push(Arg::Reg(r)).encoding().len() == Inst::Push(Arg::Reg(r)).spec_len(),
        Inst::Pop(r).encoding().len() == Inst::Pop(r).spec_len(),
        r.spec_is_hi() ==> Inst::Push(Arg::Reg(r)).encoding()[0] == REX_B,
        r.spec_is_hi() ==> Inst::Pop(r).encoding()[0] == REX_B,
        !r.spec_is_hi() ==> Inst::Push(Arg::Reg(r)).encoding()[0] != REX_B,
        !r.spec_is_hi() ==> Inst::Pop(r).encoding()[0] != REX_B,
        spec_decode(Inst::Push(Arg::Reg(r)).encoding()) == Some(Inst::Push(Arg::Reg(r))),
        spec_decode(Inst::Pop(r).encoding()) == Some(Inst::Pop(r)),
{
    crate::reg::lemma_reg_bits_bijective(r, 0);
    lemma_encode_decode(Inst::Push(Arg::Reg(r)), Seq::empty());
    lemma_encode_decode(Inst::Pop(r), Seq::empty());
    assert(Inst::Push(Arg::Reg(r)).encoding() + Seq::<u8>::empty() =~= Inst::Push(
        Arg::Reg(r),
    ).encoding());
    assert(Inst::Pop(r).encoding() + Seq::<u8>::empty() =~= Inst::Pop(r).encoding());
}

/// The low byte of a signed 32-bit value.
fn low_byte_exec(v: i32) -> (r: u8)
    ensures
        r == low_byte(v),
{
    let u = #[verifier::truncate] (v as u32);

    (u & 0xFF) as u8
}

} // verus!
