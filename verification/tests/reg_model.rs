use instcodec::Reg;

#[test]
fn try_parse_all_sixteen_numbers() {
    let expected = [
        Reg::Rax,
        Reg::Rcx,
        Reg::Rdx,
        Reg::Rbx,
        Reg::Rsp,
        Reg::Rbp,
        Reg::Rsi,
        Reg::Rdi,
        Reg::R8,
        Reg::R9,
        Reg::R10,
        Reg::R11,
        Reg::R12,
        Reg::R13,
        Reg::R14,
        Reg::R15,
    ];

    for b in 0u8..16 {
        let reg = Reg::try_parse(b).unwrap();
        assert_eq!(reg, expected[b as usize]);
        assert_eq!(reg.bits(), b);
        assert_eq!(reg.base_bits(), b & 0b0111);
        assert_eq!(reg.is_hi(), b >= 8);
        assert_eq!(reg.is_lo(), b < 8);
    }
}

#[test]
fn try_parse_ignores_upper_bits() {
    assert_eq!(Reg::try_parse(0xF8), Some(Reg::R8));
    assert_eq!(Reg::try_parse(0x17), Some(Reg::Rdi));
    assert_eq!(Reg::try_parse(0x50), Some(Reg::Rax));
}

#[test]
fn base_bits_shared_between_siblings() {
    assert_eq!(Reg::Rax.base_bits(), Reg::R8.base_bits());
    assert_eq!(Reg::Rdi.base_bits(), Reg::R15.base_bits());
    assert_eq!(Reg::Rax.bits(), 0);
    assert_eq!(Reg::R8.bits(), 8);
    assert_eq!(Reg::Rdi.bits(), 7);
    assert_eq!(Reg::R15.bits(), 15);
}

#[test]
fn extension_split() {
    assert!(Reg::Rsp.is_lo());
    assert!(!Reg::Rsp.is_hi());
    assert!(Reg::R12.is_hi());
    assert!(!Reg::R12.is_lo());
}
