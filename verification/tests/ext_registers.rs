use instcodec::Arg;
use instcodec::Inst;
use instcodec::Reg;

const BASE_REGS: [Reg; 8] = [
    Reg::Rax,
    Reg::Rcx,
    Reg::Rdx,
    Reg::Rbx,
    Reg::Rsp,
    Reg::Rbp,
    Reg::Rsi,
    Reg::Rdi,
];

const EXT_REGS: [Reg; 8] = [
    Reg::R8,
    Reg::R9,
    Reg::R10,
    Reg::R11,
    Reg::R12,
    Reg::R13,
    Reg::R14,
    Reg::R15,
];

#[test]
fn extended_register_push_pop_round_trip() {
    for reg in EXT_REGS {
        let push = Inst::Push(Arg::Reg(reg));
        let bytes = push.to_bytes();
        assert_eq!(bytes.len(), 2);
        assert_eq!(bytes[0], 0x41);
        assert_eq!(push.len(), 2);
        assert_eq!(Inst::from_bytes(&bytes), Some(push));

        let pop = Inst::Pop(reg);
        let bytes = pop.to_bytes();
        assert_eq!(bytes.len(), 2);
        assert_eq!(bytes[0], 0x41);
        assert_eq!(pop.len(), 2);
        assert_eq!(Inst::from_bytes(&bytes), Some(pop));
    }
}

#[test]
fn base_register_push_pop_round_trip() {
    for reg in BASE_REGS {
        let push = Inst::Push(Arg::Reg(reg));
        let bytes = push.to_bytes();
        assert_eq!(bytes.len(), 1);
        assert_ne!(bytes[0], 0x41);
        assert_eq!(push.len(), 1);
        assert_eq!(Inst::from_bytes(&bytes), Some(push));

        let pop = Inst::Pop(reg);
        let bytes = pop.to_bytes();
        assert_eq!(bytes.len(), 1);
        assert_ne!(bytes[0], 0x41);
        assert_eq!(pop.len(), 1);
        assert_eq!(Inst::from_bytes(&bytes), Some(pop));
    }
}
