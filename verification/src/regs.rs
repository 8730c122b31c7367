use vstd::prelude::*;
use nc::syscalls::Sysno;

verus! {

/// One machine word of the traced process.
pub type Word = u64;

/// A machine word read as a signed number.
pub type SWord = i64;

/// The content of one register.
pub type Reg = Word;

/// Number of bytes in a [`Word`].
pub const WORD_SIZE: usize = 8;

/// The register value with every bit set.
pub const MAX: Reg = 0xffff_ffff_ffff_ffff;

/// Width in bytes of the instruction that traps into the kernel.
pub const TRAP_WIDTH: Word = 2;

/// Number of registers that carry syscall arguments.
pub const ARG_SLOTS: usize = 6;

/// `arg` rounded up to the next multiple of `step`, for `step > 0`.
pub open spec fn spec_align(arg: int, step: int) -> int {
    ((arg + step - 1) / step) * step
}

/// `arg` rounded up to the next multiple of the word size.
pub open spec fn spec_walign(arg: int) -> int {
    spec_align(arg, 8)
}

/// Rounds `arg` up to the next multiple of `step`.
pub fn align(arg: usize, step: usize) -> (r: usize)
    requires
        step > 0,
        spec_align(arg as int, step as int) <= usize::MAX,
    ensures
        r == spec_align(arg as int, step as int),
        r % step == 0,
        arg <= r < arg + step,
{
    let rest: usize = arg % step;
    proof {
        lemma_round_up(arg as int, step as int);
    }
    if rest == 0 {
        arg
    } else {
        arg + (step - rest)
    }
}

/// Rounds `arg` up to the next multiple of the word size.
pub fn walign(arg: usize) -> (r: usize)
    requires
        spec_walign(arg as int) <= usize::MAX,
    ensures
        r == spec_walign(arg as int),
        r % 8 == 0,
        arg <= r < arg + 8,
{
    align(arg, WORD_SIZE)
}

/// Rounding up adds what is missing to the next multiple, and nothing to a multiple.
pub proof fn lemma_round_up(arg: int, step: int)
    requires
        arg >= 0,
        step > 0,
    ensures
        spec_align(arg, step) == if arg % step == 0 {
            arg
        } else {
            arg + step - arg % step
        },
        spec_align(arg, step) % step == 0,
        arg <= spec_align(arg, step) < arg + step,
{
    let q = arg / step;
    let m = arg % step;
    vstd::arithmetic::div_mod::lemma_fundamental_div_mod(arg, step);
    assert(arg == step * q + m);
    if m == 0 {
        // arg + step - 1 == step * q + (step - 1)
        vstd::arithmetic::div_mod::lemma_fundamental_div_mod_converse(
            arg + step - 1,
            step,
            q,
            step - 1,
        );
        assert(spec_align(arg, step) == q * step);
        assert(q * step == step * q) by (nonlinear_arith);
        vstd::arithmetic::div_mod::lemma_mod_multiples_basic(q, step);
    } else {
        // arg + step - 1 == step * (q + 1) + (m - 1)
        assert(step * (q + 1) == step * q + step) by (nonlinear_arith);
        vstd::arithmetic::div_mod::lemma_fundamental_div_mod_converse(
            arg + step - 1,
            step,
            q + 1,
            m - 1,
        );
        assert(spec_align(arg, step) == (q + 1) * step);
        assert((q + 1) * step == step * q + step) by (nonlinear_arith);
        vstd::arithmetic::div_mod::lemma_mod_multiples_basic(q + 1, step);
    }
}

/// Why a register operation was refused.
#[derive(Clone, Copy, Debug, PartialEq, Eq, Structural)]
pub enum RegError {
    /// The argument index lies above the last argument slot.
    IndexTooLarge,
    /// The argument index is zero; slots are counted from one.
    InvalidIndex,
    /// No argument values were given.
    NoArguments,
    /// More argument values were given than there are slots.
    TooManyArguments,
    /// The instruction pointer lies too low to be moved back over a trap instruction.
    IpTooLow,
}

/// A snapshot of the general-purpose registers of a stopped process, in the layout the
/// kernel reports for the x86-64 architecture.
#[derive(Clone, Copy, Debug, PartialEq, Eq, Structural)]
pub struct UserRegs {
    pub r15: Reg,
    pub r14: Reg,
    pub r13: Reg,
    pub r12: Reg,
    pub rbp: Reg,
    pub rbx: Reg,
    pub r11: Reg,
    pub r10: Reg,
    pub r9: Reg,
    pub r8: Reg,
    pub rax: Reg,
    pub rcx: Reg,
    pub rdx: Reg,
    pub rsi: Reg,
    pub rdi: Reg,
    pub orig_rax: Reg,
    pub rip: Reg,
    pub cs: Reg,
    pub eflags: Reg,
    pub rsp: Reg,
    pub ss: Reg,
    pub fs_base: Reg,
    pub gs_base: Reg,
    pub ds: Reg,
    pub es: Reg,
    pub fs: Reg,
    pub gs: Reg,
}

impl UserRegs {
    /// The number of the syscall at which the process stopped.
    pub open spec fn spec_sysno(self) -> Sysno {
        self.orig_rax as usize
    }

    /// The value the process will see as the syscall's result.
    pub open spec fn spec_ret(self) -> Reg {
        self.rax
    }

    /// The six argument slots, in calling-convention order.
    pub open spec fn spec_arguments(self) -> Seq<Reg> {
        seq![self.rdi, self.rsi, self.rdx, self.r10, self.r8, self.r9]
    }

    /// The snapshot with the syscall number to execute set to `sysno`.
    pub open spec fn with_sysno(self, sysno: Sysno) -> UserRegs {
        UserRegs { rax: sysno as u64, ..self }
    }

    /// The snapshot with the return register set to `ret`.
    pub open spec fn with_ret(self, ret: Reg) -> UserRegs {
        UserRegs { rax: ret, ..self }
    }

    /// The snapshot with argument slot `idx`, counted from one, set to `val`; unchanged for
    /// an index outside `1..=6`.
    pub open spec fn with_argument(self, idx: int, val: Reg) -> UserRegs {
        if idx == 1 {
            UserRegs { rdi: val, ..self }
        } else if idx == 2 {
            UserRegs { rsi: val, ..self }
        } else if idx == 3 {
            UserRegs { rdx: val, ..self }
        } else if idx == 4 {
            UserRegs { r10: val, ..self }
        } else if idx == 5 {
            UserRegs { r8: val, ..self }
        } else if idx == 6 {
            UserRegs { r9: val, ..self }
        } else {
            self
        }
    }

    /// The snapshot with the first `values.len()` argument slots set to `values`, the
    /// remaining slots untouched.
    pub open spec fn with_arguments(self, values: Seq<Reg>) -> UserRegs {
        UserRegs {
            rdi: if values.len() > 0 { values[0] } else { self.rdi },
            rsi: if values.len() > 1 { values[1] } else { self.rsi },
            rdx: if values.len() > 2 { values[2] } else { self.rdx },
            r10: if values.len() > 3 { values[3] } else { self.r10 },
            r8: if values.len() > 4 { values[4] } else { self.r8 },
            r9: if values.len() > 5 { values[5] } else { self.r9 },
            ..self
        }
    }

    /// The snapshot with the instruction pointer moved back over one trap instruction.
    pub open spec fn rewound(self) -> UserRegs {
        UserRegs { rip: (self.rip - TRAP_WIDTH) as u64, ..self }
    }

    /// The snapshot with the instruction pointer moved forward over one trap instruction,
    /// as the processor leaves it after executing the trap.
    pub open spec fn past_trap(self) -> UserRegs {
        UserRegs { rip: (self.rip + TRAP_WIDTH) as u64, ..self }
    }

    /// The snapshot with the return register and all six argument slots cleared.
    pub open spec fn spec_zeroed(self) -> UserRegs {
        UserRegs { rax: 0, rdi: 0, rsi: 0, rdx: 0, r10: 0, r8: 0, r9: 0, ..self }
    }

    /// A copy of `curr_regs` with the return register and the argument slots cleared.
    pub fn zeroed(curr_regs: &Self) -> (r: Self)
        ensures
            r == curr_regs.spec_zeroed(),
    {
        let mut regs = *curr_regs;
        regs.rax = 0;
        regs.rdi = 0;
        regs.rsi = 0;
        regs.rdx = 0;
        regs.r10 = 0;
        regs.r8 = 0;
        regs.r9 = 0;
        regs
    }

    /// Moves the instruction pointer back over one trap instruction, so that resuming the
    /// process enters the same trap again. Refused, with the snapshot untouched, when the
    /// instruction pointer is lower than the width of a trap instruction.
    pub fn ip_backup(&mut self) -> (r: Result<(), RegError>)
        ensures
            old(self).rip >= TRAP_WIDTH ==> r == Ok::<(), RegError>(()) && *final(self) == old(
                self,
            ).rewound(),
            old(self).rip < TRAP_WIDTH ==> r == Err::<(), RegError>(RegError::IpTooLow)
                && *final(self) == *old(self),
    {
        if self.rip < TRAP_WIDTH {
            Err(RegError::IpTooLow)
        } else {
            self.rip = self.rip - TRAP_WIDTH;
            Ok(())
        }
    }

    /// Sets the number of the syscall that the process executes when it is resumed.
    pub fn set_sysno(&mut self, sysno: Sysno) -> (r: Result<(), RegError>)
        ensures
            r == Ok::<(), RegError>(()),
            *final(self) == old(self).with_sysno(sysno),
    {
        self.rax = sysno as u64;
        Ok(())
    }

    /// The number of the syscall at which the process stopped.
    pub fn get_sysno(&self) -> (r: Sysno)
        ensures
            r == self.spec_sysno(),
    {
        self.orig_rax as usize
    }

    /// The content of the return register.
    pub fn get_ret(&self) -> (r: Reg)
        ensures
            r == self.spec_ret(),
    {
        self.rax
    }

    /// Sets the return register.
    pub fn set_ret(&mut self, ret: &Reg)
        ensures
            *final(self) == old(self).with_ret(*ret),
    {
        self.rax = *ret;
    }

    /// The six argument slots, in calling-convention order.
    pub fn get_arguments(&self) -> (r: Vec<Reg>)
        ensures
            r@ == self.spec_arguments(),
    {
        let r = vec![self.rdi, self.rsi, self.rdx, self.r10, self.r8, self.r9];
        assert(r@ =~= self.spec_arguments());
        r
    }

    /// Sets argument slot `idx`, counted from one. An index outside `1..=6` is refused and
    /// leaves the snapshot untouched.
    pub fn set_argument(&mut self, idx: usize, val: &Reg) -> (r: Result<(), RegError>)
        ensures
            1 <= idx <= ARG_SLOTS ==> r == Ok::<(), RegError>(()),
            idx > ARG_SLOTS ==> r == Err::<(), RegError>(RegError::IndexTooLarge),
            idx == 0 ==> r == Err::<(), RegError>(RegError::InvalidIndex),
            *final(self) == old(self).with_argument(idx as int, *val),
    {
        if idx > ARG_SLOTS {
            Err(RegError::IndexTooLarge)
        } else {
            if idx == 1 {
                self.rdi = *val;
            } else if idx == 2 {
                self.rsi = *val;
            } else if idx == 3 {
                self.rdx = *val;
            } else if idx == 4 {
                self.r10 = *val;
            } else if idx == 5 {
                self.r8 = *val;
            } else if idx == 6 {
                self.r9 = *val;
            } else {
                return Err(RegError::InvalidIndex);
            }
            Ok(())
        }
    }

    /// Sets the leading argument slots to `values`, in order. An empty list and a list
    /// longer than the number of slots are refused and leave the snapshot untouched.
    pub fn set_arguments(&mut self, values: &[Reg]) -> (r: Result<(), RegError>)
        ensures
            values@.len() == 0 ==> r == Err::<(), RegError>(RegError::NoArguments) && *final(self)
                == *old(self),
            values@.len() > ARG_SLOTS ==> r == Err::<(), RegError>(RegError::TooManyArguments)
                && *final(self) == *old(self),
            1 <= values@.len() <= ARG_SLOTS ==> r == Ok::<(), RegError>(()) && *final(self) == old(
                self,
            ).with_arguments(values@),
    {
        if values.len() == 0 {
            Err(RegError::NoArguments)
        } else if values.len() > ARG_SLOTS {
            Err(RegError::TooManyArguments)
        } else {
            let mut idx: usize = 1;
            while idx < values.len() + 1
                invariant
                    1 <= idx <= values@.len() + 1,
                    values@.len() <= ARG_SLOTS,
                    *self == old(self).with_arguments(values@.take(idx - 1)),
                decreases values@.len() + 1 - idx,
            {
                let set = self.set_argument(idx, &values[idx - 1]);
                assert(set is Ok);
                idx = idx + 1;
            }
            assert(values@.take(values@.len() as int) =~= values@);
            Ok(())
        }
    }
}

/// What is written to a settable field is what is read from it afterwards, and writing one
/// field leaves the others as they were: the syscall number to execute and the return value
/// share the return register, each argument slot is its own register, and moving the
/// instruction pointer touches nothing else.
pub proof fn lemma_settable_fields_read_back(regs: UserRegs, sysno: Sysno, val: Reg, idx: int)
    requires
        1 <= idx <= ARG_SLOTS,
    ensures
        regs.with_ret(val).spec_ret() == val,
        regs.with_ret(val).spec_arguments() == regs.spec_arguments(),
        regs.with_ret(val).rip == regs.rip,
        regs.with_ret(val).spec_sysno() == regs.spec_sysno(),
        regs.with_sysno(sysno).rax == sysno,
        regs.with_sysno(sysno).spec_arguments() == regs.spec_arguments(),
        regs.with_sysno(sysno).rip == regs.rip,
        regs.with_argument(idx, val).spec_arguments() == regs.spec_arguments().update(
            idx - 1,
            val,
        ),
        regs.with_argument(idx, val).spec_ret() == regs.spec_ret(),
        regs.with_argument(idx, val).rip == regs.rip,
        regs.with_argument(idx, val).spec_sysno() == regs.spec_sysno(),
        regs.rip >= TRAP_WIDTH ==> regs.rewound().rip == regs.rip - TRAP_WIDTH,
        regs.rewound().spec_arguments() == regs.spec_arguments(),
        regs.rewound().spec_ret() == regs.spec_ret(),
        regs.rewound().spec_sysno() == regs.spec_sysno(),
{
    assert(regs.with_argument(idx, val).spec_arguments() =~= regs.spec_arguments().update(
        idx - 1,
        val,
    ));
}

/// Setting the leading argument slots from a list is the same as setting them one by one.
pub proof fn lemma_arguments_read_back(regs: UserRegs, values: Seq<Reg>)
    requires
        1 <= values.len() <= ARG_SLOTS,
    ensures
        regs.with_arguments(values).spec_arguments().take(values.len() as int) == values,
        regs.with_arguments(values).spec_arguments().skip(values.len() as int)
            == regs.spec_arguments().skip(values.len() as int),
        regs.with_arguments(values).rax == regs.rax,
        regs.with_arguments(values).rip == regs.rip,
        regs.with_arguments(values).orig_rax == regs.orig_rax,
{
    let after = regs.with_arguments(values).spec_arguments();
    assert(after.take(values.len() as int) =~= values);
    assert(after.skip(values.len() as int) =~= regs.spec_arguments().skip(values.len() as int));
}

/// The processor steps forward over a trap instruction when it executes it, and the rewind
/// steps back by the same width.
pub open spec fn replayed(regs: UserRegs, rounds: nat) -> UserRegs
    decreases rounds,
{
    if rounds == 0 {
        regs
    } else {
        replayed(regs, (rounds - 1) as nat).rewound().past_trap()
    }
}

/// Rewinding is stable under replay: a process stopped just behind a trap instruction that
/// is rewound and runs through the trap again, any number of times, stops at the same
/// address with the same registers, and every rewind points at the same trap site.
pub proof fn lemma_rewind_replays_same_site(regs: UserRegs, rounds: nat)
    requires
        regs.rip >= TRAP_WIDTH,
    ensures
        replayed(regs, rounds) == regs,
        replayed(regs, rounds).rewound().rip == regs.rip - TRAP_WIDTH,
        regs.rewound().past_trap() == regs,
    decreases rounds,
{
    if rounds > 0 {
        lemma_rewind_replays_same_site(regs, (rounds - 1) as nat);
    }
}

} // verus!
