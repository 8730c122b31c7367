use sysjack::regs::{align, walign, RegError, UserRegs, MAX, WORD_SIZE};

fn sample() -> UserRegs {
    UserRegs {
        r15: 15,
        r14: 14,
        r13: 13,
        r12: 12,
        rbp: 100,
        rbx: 101,
        r11: 11,
        r10: 10,
        r9: 9,
        r8: 8,
        rax: 200,
        rcx: 201,
        rdx: 202,
        rsi: 203,
        rdi: 204,
        orig_rax: 257,
        rip: 0x40_1002,
        cs: 0x33,
        eflags: 0x246,
        rsp: 0x7ffc_0000_1000,
        ss: 0x2b,
        fs_base: 1,
        gs_base: 2,
        ds: 3,
        es: 4,
        fs: 5,
        gs: 6,
    }
}

#[test]
fn arguments_come_in_calling_convention_order() {
    let regs = sample();
    assert_eq!(regs.get_arguments(), vec![204, 203, 202, 10, 8, 9]);
}

#[test]
fn sysno_is_read_from_orig_rax() {
    let regs = sample();
    assert_eq!(regs.get_sysno(), 257);
    assert_eq!(regs.get_ret(), 200);
}

#[test]
fn set_sysno_writes_the_accumulator_only() {
    let mut regs = sample();
    assert_eq!(regs.set_sysno(41), Ok(()));
    let mut expected = sample();
    expected.rax = 41;
    assert_eq!(regs, expected);
    assert_eq!(regs.get_sysno(), 257);
}

#[test]
fn set_ret_reads_back() {
    let mut regs = sample();
    regs.set_ret(&MAX);
    assert_eq!(regs.get_ret(), MAX);
    let mut expected = sample();
    expected.rax = MAX;
    assert_eq!(regs, expected);
}

#[test]
fn each_argument_slot_reads_back() {
    for idx in 1..=6usize {
        let mut regs = sample();
        assert_eq!(regs.set_argument(idx, &(1000 + idx as u64)), Ok(()));
        let mut expected = sample().get_arguments();
        expected[idx - 1] = 1000 + idx as u64;
        assert_eq!(regs.get_arguments(), expected);
        assert_eq!(regs.get_ret(), 200);
        assert_eq!(regs.rip, 0x40_1002);
    }
}

#[test]
fn argument_index_zero_is_invalid() {
    let mut regs = sample();
    assert_eq!(regs.set_argument(0, &1), Err(RegError::InvalidIndex));
    assert_eq!(regs, sample());
}

#[test]
fn argument_index_seven_is_too_large() {
    let mut regs = sample();
    assert_eq!(regs.set_argument(7, &1), Err(RegError::IndexTooLarge));
    assert_eq!(regs.set_argument(usize::MAX, &1), Err(RegError::IndexTooLarge));
    assert_eq!(regs, sample());
}

#[test]
fn set_arguments_applies_by_position() {
    let mut regs = sample();
    assert_eq!(regs.set_arguments(&[1, 2, 3]), Ok(()));
    assert_eq!(regs.get_arguments(), vec![1, 2, 3, 10, 8, 9]);
    let mut all = sample();
    assert_eq!(all.set_arguments(&[1, 2, 3, 4, 5, 6]), Ok(()));
    assert_eq!(all.get_arguments(), vec![1, 2, 3, 4, 5, 6]);
    assert_eq!(all.rax, 200);
}

#[test]
fn set_arguments_refuses_an_empty_list() {
    let mut regs = sample();
    assert_eq!(regs.set_arguments(&[]), Err(RegError::NoArguments));
    assert_eq!(regs, sample());
}

#[test]
fn set_arguments_refuses_seven_values() {
    let mut regs = sample();
    assert_eq!(regs.set_arguments(&[1, 2, 3, 4, 5, 6, 7]), Err(RegError::TooManyArguments));
    assert_eq!(regs, sample());
}

#[test]
fn ip_backup_moves_back_by_two() {
    let mut regs = sample();
    assert_eq!(regs.ip_backup(), Ok(()));
    assert_eq!(regs.rip, 0x40_1000);
    let mut expected = sample();
    expected.rip = 0x40_1000;
    assert_eq!(regs, expected);
}

#[test]
fn ip_backup_refuses_an_address_below_two() {
    let mut regs = sample();
    regs.rip = 1;
    assert_eq!(regs.ip_backup(), Err(RegError::IpTooLow));
    assert_eq!(regs.rip, 1);
    regs.rip = 2;
    assert_eq!(regs.ip_backup(), Ok(()));
    assert_eq!(regs.rip, 0);
}

#[test]
fn rewinding_after_each_trap_returns_to_the_same_site() {
    let mut regs = sample();
    for _ in 0..5 {
        assert_eq!(regs.ip_backup(), Ok(()));
        assert_eq!(regs.rip, 0x40_1000);
        regs.rip += 2;
    }
    assert_eq!(regs, sample());
}

#[test]
fn zeroed_clears_return_and_arguments() {
    let regs = UserRegs::zeroed(&sample());
    assert_eq!(regs.get_arguments(), vec![0, 0, 0, 0, 0, 0]);
    assert_eq!(regs.rax, 0);
    let mut expected = sample();
    expected.rax = 0;
    expected.rdi = 0;
    expected.rsi = 0;
    expected.rdx = 0;
    expected.r10 = 0;
    expected.r8 = 0;
    expected.r9 = 0;
    assert_eq!(regs, expected);
}

#[test]
fn align_rounds_up_to_the_next_multiple() {
    assert_eq!(align(0, 8), 0);
    assert_eq!(align(1, 8), 8);
    assert_eq!(align(8, 8), 8);
    assert_eq!(align(13, 8), 16);
    assert_eq!(align(13, 4), 16);
    assert_eq!(align(17, 16), 32);
    assert_eq!(align(5, 1), 5);
}

#[test]
fn walign_rounds_up_to_whole_words() {
    assert_eq!(WORD_SIZE, 8);
    assert_eq!(walign(0), 0);
    assert_eq!(walign(7), 8);
    assert_eq!(walign(110), 112);
    assert_eq!(walign(112), 112);
}
