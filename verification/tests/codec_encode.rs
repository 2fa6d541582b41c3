use instcodec::Arg;
use instcodec::Inst;
use instcodec::Reg;

#[test]
fn encode_call_indirect() {
    let inst = Inst::Call(0x69696969);
    assert_eq!(inst.to_bytes(), vec![0xFF, 0x15, 0x69, 0x69, 0x69, 0x69]);
    assert_eq!(inst.len(), 6);
}

#[test]
fn encode_call_direct() {
    let inst = Inst::CallDirect(-2);
    assert_eq!(inst.to_bytes(), vec![0xE8, 0xFE, 0xFF, 0xFF, 0xFF]);
    assert_eq!(inst.len(), 5);
}

#[test]
fn encode_lea() {
    let inst = Inst::Lea(Reg::Rcx, Arg::Int(-1));
    assert_eq!(
        inst.to_bytes(),
        vec![0x48, 0x8D, 0x0D, 0xFF, 0xFF, 0xFF, 0xFF]
    );
    assert_eq!(inst.len(), 7);
}

#[test]
fn encode_mov() {
    let inst = Inst::Mov(Reg::Rax, Arg::Int(0x04030201));
    assert_eq!(
        inst.to_bytes(),
        vec![0x48, 0x8B, 0x05, 0x01, 0x02, 0x03, 0x04]
    );
    assert_eq!(inst.len(), 7);
}

#[test]
fn encode_jmp() {
    let inst = Inst::Jmp(0x10);
    assert_eq!(inst.to_bytes(), vec![0xFF, 0x25, 0x10, 0x00, 0x00, 0x00]);
    assert_eq!(inst.len(), 6);
}

#[test]
fn encode_push_imm_extremes() {
    assert_eq!(Inst::Push(Arg::Int(127)).to_bytes(), vec![0x6A, 0x7F]);
    assert_eq!(Inst::Push(Arg::Int(-128)).to_bytes(), vec![0x6A, 0x80]);
    assert_eq!(Inst::Push(Arg::Int(-1)).to_bytes(), vec![0x6A, 0xFF]);
    assert_eq!(Inst::Push(Arg::Int(0)).len(), 2);
}

#[test]
fn encode_ret_and_syscall() {
    assert_eq!(Inst::Ret.to_bytes(), vec![0xC3]);
    assert_eq!(Inst::Ret.len(), 1);
    assert_eq!(Inst::Syscall.to_bytes(), vec![0x0F, 0x05]);
    assert_eq!(Inst::Syscall.len(), 2);
}

#[test]
fn encode_push_pop_registers() {
    assert_eq!(Inst::Push(Arg::Reg(Reg::Rax)).to_bytes(), vec![0x50]);
    assert_eq!(Inst::Push(Arg::Reg(Reg::Rdi)).to_bytes(), vec![0x57]);
    assert_eq!(Inst::Push(Arg::Reg(Reg::R8)).to_bytes(), vec![0x41, 0x50]);
    assert_eq!(Inst::Pop(Reg::Rax).to_bytes(), vec![0x58]);
    assert_eq!(Inst::Pop(Reg::Rsp).to_bytes(), vec![0x5C]);
    assert_eq!(Inst::Pop(Reg::R15).to_bytes(), vec![0x41, 0x5F]);
}

#[test]
fn round_trip_every_table_row() {
    // Decoding then re-encoding returns exactly the consumed bytes, and the
    // reported length is exactly how many bytes were consumed.
    let buffers: Vec<Vec<u8>> = vec![
        vec![0x48, 0x8B, 0x05, 0x01, 0x02, 0x03, 0x04],
        vec![0x48, 0x8D, 0x0D, 0xFF, 0xFF, 0xFF, 0xFF],
        vec![0xFF, 0x25, 0x10, 0x00, 0x00, 0x00],
        vec![0xFF, 0x15, 0x69, 0x69, 0x69, 0x69],
        vec![0xE8, 0xFE, 0xFF, 0xFF, 0xFF],
        vec![0x6A, 0x80],
        vec![0x0F, 0x05],
        vec![0x41, 0x52],
        vec![0x41, 0x5B],
        vec![0xC3],
        vec![0x55],
        vec![0x5E],
    ];

    for buffer in &buffers {
        // With trailing garbage appended, the same prefix must round-trip.
        let mut padded = buffer.clone();
        padded.push(0x90);

        for bytes in [&buffer[..], &padded[..]] {
            let inst = Inst::from_bytes(bytes)
                .unwrap_or_else(|| panic!("failed to decode {bytes:02X?}"));
            let n = inst.len();
            assert_eq!(inst.to_bytes(), &bytes[..n], "round trip of {bytes:02X?}");
        }
    }
}

#[test]
fn round_trip_displacement_extremes() {
    for v in [i32::MIN, i32::MAX, 0, 1, -1] {
        for inst in [Inst::Call(v), Inst::CallDirect(v), Inst::Jmp(v)] {
            let bytes = inst.to_bytes();
            assert_eq!(bytes.len(), inst.len());
            assert_eq!(Inst::from_bytes(&bytes), Some(inst));
        }

        let mov = Inst::Mov(Reg::Rax, Arg::Int(v));
        assert_eq!(Inst::from_bytes(&mov.to_bytes()), Some(mov));

        let lea = Inst::Lea(Reg::Rcx, Arg::Int(v));
        assert_eq!(Inst::from_bytes(&lea.to_bytes()), Some(lea));
    }
}
