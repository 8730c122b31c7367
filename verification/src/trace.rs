use vstd::prelude::*;
use std::collections::BTreeMap;
use nc::syscalls::Sysno;
use nix::unistd::Pid;
use crate::ctrl::{Activation, ActivationError, Instruction, Script, SkipControl, Val};
use crate::regs::{Reg, RegError, UserRegs, Word, MAX};
use crate::session::{resolve_seq, Session};
use crate::store::{NamedStore, Unbound};

verus! {

/// A process identifier as the `nix` crate holds it. Nothing here looks inside.
#[verifier::external_type_specification]
#[verifier::external_body]
pub struct ExPid(Pid);

/// The process under trace.
pub struct Tracee {
    pid: Pid,
}

impl Tracee {
    /// The identifier of the process.
    pub closed spec fn spec_pid(&self) -> Pid {
        self.pid
    }

    /// The process with the identifier `pid`.
    pub fn new(pid: Pid) -> (r: Self)
        ensures
            r.spec_pid() == pid,
    {
        Tracee { pid }
    }

    /// The identifier of the process.
    pub fn pid(&self) -> (r: Pid)
        ensures
            r == self.spec_pid(),
    {
        self.pid
    }
}

/// The number of the syscall that moves the end of the heap.
pub const BRK_SYSNO: Sysno = 12;

/// Why a hook was refused.
#[derive(Clone, Copy, Debug, PartialEq, Eq, Structural)]
pub enum HookError {
    /// A script is already hooked at this syscall number.
    AlreadyHooked { sysno: Sysno },
}

/// Why a session stopped.
#[derive(Clone, Debug, PartialEq, Eq)]
pub enum SyncError {
    /// The event is not an answer to what the tracer asked for last.
    OutOfStep,
    /// The activation could not be evaluated.
    Activation { cause: ActivationError },
    /// A value names a slot to which nothing was bound.
    NotFound { name: String },
    /// The registers for an injected syscall could not be set up.
    Registers { error: RegError },
    /// An `Alloc` instruction carries an empty blob.
    ZeroSizedBlob,
    /// The query for the end of the heap returned an error.
    BrkFailed { ret: Reg },
    /// The blob does not fit between the end of the heap and the top of the address space.
    BlobTooLarge,
    /// The heap did not grow to the address that was asked for.
    BrkMismatch { expected: Reg, got: Reg },
}

/// What the driver of a session has to do to the traced process next.
#[derive(Clone, Copy, Debug, PartialEq, Eq, Structural)]
pub enum Action {
    /// Wait for the first stop of the process and set the trace options: the process dies
    /// with the tracer, and syscall-stops are told apart from signal-stops.
    Attach,
    /// Resume the process to its next syscall-stop, wait for the stop and read the registers.
    Step,
    /// Write the registers.
    WriteRegs { regs: UserRegs },
    /// Write one word into the memory of the process.
    Poke { addr: Word, data: Word },
    /// Resume the process and detach from it.
    Detach,
}

/// What the driver reports back.
#[derive(Clone, Copy, Debug, PartialEq, Eq, Structural)]
pub enum Event {
    /// The session begins: the process exists and is about to stop at its first trap.
    Launch,
    /// An `Attach`, `WriteRegs`, `Poke` or `Detach` was carried out.
    Done,
    /// A `Step` was carried out; these are the registers at the stop.
    Stopped { regs: UserRegs },
}

/// Why a syscall is being injected.
#[derive(Clone, Copy, Debug, PartialEq, Eq, Structural)]
pub enum Purpose {
    /// For a `Call` instruction.
    Call,
    /// For an `Alloc` instruction, to learn where the heap ends. `armed` holds the registers
    /// that were written for the query.
    BrkQuery { armed: UserRegs },
    /// For an `Alloc` instruction, to move the end of the heap from `base` to `target`.
    BrkMove { base: Word, target: Word },
}

/// Where a session stands: what the tracer asked for last and what it does with the answer.
/// `sysno` is the number at which the running script is hooked and `pc` the position of the
/// instruction that is being executed.
#[derive(Clone, Copy, Debug, PartialEq, Eq, Structural)]
pub enum Phase {
    /// Nothing was asked for: the session did not begin yet, or it stopped on an error.
    Idle,
    /// `Attach` was asked for.
    Attaching,
    /// `Step` was asked for, to the next syscall of the process itself.
    Trapping,
    /// `Detach` was asked for, at a syscall that no script is hooked at.
    Releasing,
    /// `Step` was asked for, to let the intercepted syscall run to its exit.
    Keeping { sysno: Sysno },
    /// `WriteRegs` was asked for, with the registers of an injected syscall.
    Arming { sysno: Sysno, pc: usize, purpose: Purpose },
    /// `Step` was asked for, to the entry of an injected syscall.
    Entering { sysno: Sysno, pc: usize, purpose: Purpose },
    /// `Step` was asked for, to the exit of an injected syscall that was entered with the
    /// registers `enter`.
    Exiting { sysno: Sysno, pc: usize, purpose: Purpose, enter: UserRegs },
    /// `Poke` was asked for, with one word of a blob that is copied to `base`; `next` is the
    /// position of the word behind it.
    Poking { sysno: Sysno, pc: usize, base: Word, next: usize },
    /// `WriteRegs` was asked for, with the return value of a `Ret` instruction.
    Returning { sysno: Sysno, pc: usize },
    /// `Detach` was asked for, by a `Ret` instruction.
    Leaving { sysno: Sysno, pc: usize },
}

/// The number of the heap syscall, as the `nc` crate gives it for this architecture:
/// `nc::SYS_BRK`, which is 12 on x86-64 Linux.
#[verifier::external_body]
fn brk_sysno() -> (r: Sysno)
    ensures
        r == BRK_SYSNO,
{
    nc::SYS_BRK
}

/// Resolves each value of `vals` against `store`, in order, and stops at the first name that
/// is not bound.
pub fn resolve_all(vals: &Vec<Val>, store: &NamedStore<Reg>) -> (r: Result<Vec<Reg>, Unbound>)
    ensures
        match resolve_seq(vals@, store@) {
            Ok(regs) => r matches Ok(out) && out@ == regs,
            Err(unbound) => r == Err::<Vec<Reg>, Unbound>(unbound),
        },
{
    let mut out: Vec<Reg> = Vec::new();
    let mut i: usize = 0;
    assert(vals@.take(0) =~= Seq::<Val>::empty());
    while i < vals.len()
        invariant
            i <= vals@.len(),
            resolve_seq(vals@.take(i as int), store@) == Ok::<Seq<Reg>, Unbound>(out@),
        decreases vals@.len() - i,
    {
        let ghost prefix = vals@.take(i + 1);
        assert(prefix.drop_last() =~= vals@.take(i as int));
        assert(prefix.last() == vals@[i as int]);
        match vals[i].resolve(store) {
            Ok(reg) => {
                out.push(reg);
            },
            Err(unbound) => {
                proof {
                    lemma_resolve_seq_fails_on(vals@, store@, i + 1);
                }
                return Err(unbound);
            },
        }
        i = i + 1;
    }
    assert(vals@.take(vals@.len() as int) =~= vals@);
    Ok(out)
}

/// A list of values whose head does not resolve does not resolve either, and fails on the
/// same name.
proof fn lemma_resolve_seq_fails_on(vals: Seq<Val>, store: Map<Seq<char>, Reg>, n: int)
    requires
        0 <= n <= vals.len(),
        resolve_seq(vals.take(n), store) is Err,
    ensures
        resolve_seq(vals, store) == resolve_seq(vals.take(n), store),
    decreases vals.len() - n,
{
    if n == vals.len() {
        assert(vals.take(n) =~= vals);
    } else {
        assert(vals.take(n + 1).drop_last() =~= vals.take(n));
        lemma_resolve_seq_fails_on(vals, store, n + 1);
    }
}

/// What a resolved list of arguments says, with the list as a sequence.
pub open spec fn viewed(args: Result<Vec<Reg>, Unbound>) -> Result<Seq<Reg>, Unbound> {
    match args {
        Ok(regs) => Ok(regs@),
        Err(unbound) => Err(unbound),
    }
}

/// One trace session: the hooks, the named slots, the registers at the most recent stop, and
/// where the session stands. The tracer decides; a driver carries out what it asks for
/// and reports back.
pub struct Tracer<'a, A: Activation + Clone> {
    tracee: &'a Tracee,
    hooks: BTreeMap<Sysno, Script<A>>,
    mregs: NamedStore<UserRegs>,
    mval: NamedStore<Reg>,
    curr_regs: Option<UserRegs>,
    phase: Phase,
}

impl<'a, A: Activation + Clone> View for Tracer<'a, A> {
    type V = Session<A>;

    closed spec fn view(&self) -> Session<A> {
        Session {
            tracee: *self.tracee,
            hooks: self.hooks@,
            regs: self.mregs@,
            vals: self.mval@,
            curr: self.curr_regs,
            phase: self.phase,
        }
    }
}

impl<'a, A: Activation + Clone> Tracer<'a, A> {
    /// A tracer for `tracee`, with no hook and no saved name, that waits for the session to
    /// begin.
    pub fn new(tracee: &'a Tracee) -> (r: Tracer<'a, A>)
        ensures
            r@ == Session::<A>::initial(*tracee),
    {
        Tracer {
            tracee,
            hooks: BTreeMap::new(),
            mregs: NamedStore::new(),
            mval: NamedStore::new(),
            curr_regs: None,
            phase: Phase::Idle,
        }
    }

    /// Hooks `script` at syscall `sysno`. Refused, with the tracer untouched, where a script
    /// is hooked at this number already.
    pub fn hook(&mut self, sysno: Sysno, script: Script<A>) -> (r: Result<(), HookError>)
        ensures
            (final(self)@, r) == old(self)@.hooked(sysno, script),
    {
        broadcast use vstd::std_specs::btree::group_btree_axioms;

        if self.hooks.contains_key(&sysno) {
            Err(HookError::AlreadyHooked { sysno })
        } else {
            self.hooks.insert(sysno, script);
            Ok(())
        }
    }

    /// The process that the session traces.
    pub fn tracee(&self) -> (r: &'a Tracee)
        ensures
            *r == self@.tracee,
    {
        self.tracee
    }

    /// Where the session stands.
    pub fn phase(&self) -> (r: Phase)
        ensures
            r == self@.phase,
    {
        self.phase
    }

    /// The registers at the most recent stop.
    pub fn current(&self) -> (r: Option<UserRegs>)
        ensures
            r == self@.curr,
    {
        self.curr_regs
    }

    /// Whether a script is hooked at `sysno`.
    pub fn is_hooked(&self, sysno: Sysno) -> (r: bool)
        ensures
            r == self@.hooks.contains_key(sysno),
    {
        broadcast use vstd::std_specs::btree::group_btree_axioms;

        self.hooks.contains_key(&sysno)
    }

    /// The register snapshot saved under `name`, if there is one.
    pub fn saved_regs(&self, name: &str) -> (r: Option<UserRegs>)
        ensures
            r == (if self@.regs.contains_key(name@) {
                Some(self@.regs[name@])
            } else {
                None
            }),
    {
        self.mregs.get(&name.to_owned())
    }

    /// The value saved under `name`, if there is one.
    pub fn saved_val(&self, name: &str) -> (r: Option<Reg>)
        ensures
            r == (if self@.vals.contains_key(name@) {
                Some(self@.vals[name@])
            } else {
                None
            }),
    {
        self.mval.get(&name.to_owned())
    }

    /// Saves a register snapshot under `name`, in place of what was saved there before.
    fn save_regs(&mut self, regs: &UserRegs, name: &str)
        ensures
            final(self)@ == (Session { regs: old(self)@.regs.insert(name@, *regs), ..old(self)@ }),
    {
        self.mregs.bind(name.to_owned(), *regs);
    }

    /// Saves a value under `name`, in place of what was saved there before.
    fn save_reg(&mut self, val: &Reg, name: &str)
        ensures
            final(self)@ == (Session { vals: old(self)@.vals.insert(name@, *val), ..old(self)@ }),
    {
        self.mval.bind(name.to_owned(), *val);
    }

    /// Resolves `val` against the values saved in this session.
    pub fn resolve_val(&self, val: &Val) -> (r: Result<Reg, SyncError>)
        ensures
            match val.resolution(self@.vals) {
                Ok(reg) => r == Ok::<Reg, SyncError>(reg),
                Err(unbound) => r == Err::<Reg, SyncError>(
                    SyncError::NotFound { name: unbound.name },
                ),
            },
    {
        match val.resolve(&self.mval) {
            Ok(reg) => Ok(reg),
            Err(unbound) => Err(SyncError::NotFound { name: unbound.name }),
        }
    }

    fn ask(&mut self, phase: Phase, action: Action) -> (r: Result<Action, SyncError>)
        ensures
            (final(self)@, r) == old(self)@.ask(phase, action),
    {
        self.phase = phase;
        Ok(action)
    }

    fn fail(&mut self, error: SyncError) -> (r: Result<Action, SyncError>)
        ensures
            (final(self)@, r) == old(self)@.fail(error),
    {
        self.phase = Phase::Idle;
        Err(error)
    }

    fn start_call(
        &mut self,
        sysno: Sysno,
        pc: usize,
        number: Sysno,
        args: Result<Vec<Reg>, Unbound>,
    ) -> (r: Result<Action, SyncError>)
        requires
            old(self)@.curr is Some,
        ensures
            (final(self)@, r) == old(self)@.start_call(sysno, pc, number, viewed(args)),
    {
        let mut base = self.curr_regs.unwrap();
        match base.ip_backup() {
            Err(error) => {
                return self.fail(SyncError::Registers { error });
            },
            Ok(_) => {},
        }
        let _ = base.set_sysno(number);
        match args {
            Err(unbound) => self.fail(SyncError::NotFound { name: unbound.name }),
            Ok(args) => match base.set_arguments(args.as_slice()) {
                Err(error) => self.fail(SyncError::Registers { error }),
                Ok(_) => self.ask(
                    Phase::Arming { sysno, pc, purpose: Purpose::Call },
                    Action::WriteRegs { regs: base },
                ),
            },
        }
    }

    fn start_alloc(&mut self, sysno: Sysno, pc: usize, words: usize) -> (r: Result<
        Action,
        SyncError,
    >)
        requires
            old(self)@.curr is Some,
        ensures
            (final(self)@, r) == old(self)@.start_alloc(sysno, pc, words as nat),
    {
        let mut base = self.curr_regs.unwrap();
        if words == 0 {
            return self.fail(SyncError::ZeroSizedBlob);
        }
        match base.ip_backup() {
            Err(error) => {
                return self.fail(SyncError::Registers { error });
            },
            Ok(_) => {},
        }
        let _ = base.set_sysno(brk_sysno());
        let _ = base.set_argument(1, &MAX);
        self.ask(
            Phase::Arming { sysno, pc, purpose: Purpose::BrkQuery { armed: base } },
            Action::WriteRegs { regs: base },
        )
    }

    fn start_ret(&mut self, sysno: Sysno, pc: usize, ret: Result<Reg, Unbound>) -> (r: Result<
        Action,
        SyncError,
    >)
        requires
            old(self)@.curr is Some,
        ensures
            (final(self)@, r) == old(self)@.start_ret(sysno, pc, ret),
    {
        let mut base = self.curr_regs.unwrap();
        match ret {
            Err(unbound) => self.fail(SyncError::NotFound { name: unbound.name }),
            Ok(ret) => {
                base.set_ret(&ret);
                self.ask(Phase::Returning { sysno, pc }, Action::WriteRegs { regs: base })
            },
        }
    }

    fn dispatch(&mut self, sysno: Sysno, pc: usize) -> (r: Result<Action, SyncError>)
        ensures
            (final(self)@, r) == old(self)@.dispatch(sysno, pc as int),
    {
        broadcast use vstd::std_specs::btree::group_btree_axioms;

        if self.curr_regs.is_none() {
            return Err(SyncError::OutOfStep);
        }
        let script = match self.hooks.get(&sysno) {
            Some(script) => script,
            None => {
                return Err(SyncError::OutOfStep);
            },
        };
        if pc >= script.intrs.len() {
            return self.ask(Phase::Trapping, Action::Step);
        }
        match &script.intrs[pc] {
            Instruction::Call { ctrl, sysno: number, vals } => {
                let number = *number;
                let args = resolve_all(vals, &self.mval);
                self.start_call(sysno, pc, number, args)
            },
            Instruction::Alloc { blob, name } => {
                let words = blob.len();
                self.start_alloc(sysno, pc, words)
            },
            Instruction::Ret { val } => {
                let ret = val.resolve(&self.mval);
                self.start_ret(sysno, pc, ret)
            },
        }
    }

    /// Runs the script hooked at `sysno`, given in `fired` what its activation answered to the
    /// arguments of the syscall at which the process is stopped. Out of step, with the tracer
    /// untouched, where the tracer is not waiting at a stop or no script is hooked at `sysno`.
    pub fn run_script(&mut self, sysno: Sysno, fired: Result<bool, ActivationError>) -> (r:
        Result<Action, SyncError>)
        ensures
            (final(self)@, r) == old(self)@.run(sysno, fired),
    {
        broadcast use vstd::std_specs::btree::group_btree_axioms;

        let regs = match (self.phase, self.curr_regs) {
            (Phase::Trapping, Some(regs)) => regs,
            _ => {
                return Err(SyncError::OutOfStep);
            },
        };
        let script = match self.hooks.get(&sysno) {
            Some(script) => script,
            None => {
                return Err(SyncError::OutOfStep);
            },
        };
        match fired {
            Err(cause) => self.fail(SyncError::Activation { cause }),
            Ok(false) => self.ask(Phase::Trapping, Action::Step),
            Ok(true) => match &script.starter.skip_ctrl {
                SkipControl::Skip { regs_enter_name } => {
                    let enter_name = regs_enter_name.clone();
                    self.save_regs(&regs, enter_name.as_str());
                    self.dispatch(sysno, 0)
                },
                SkipControl::Keep { regs_enter_name, regs_exit_name, ret_name } => {
                    let enter_name = regs_enter_name.clone();
                    self.save_regs(&regs, enter_name.as_str());
                    self.ask(Phase::Keeping { sysno }, Action::Step)
                },
            },
        }
    }

    fn kept(&mut self, sysno: Sysno, regs: UserRegs) -> (r: Result<Action, SyncError>)
        ensures
            (final(self)@, r) == old(self)@.kept(sysno, regs),
    {
        broadcast use vstd::std_specs::btree::group_btree_axioms;

        let script = match self.hooks.get(&sysno) {
            Some(script) => script,
            None => {
                return Err(SyncError::OutOfStep);
            },
        };
        match &script.starter.skip_ctrl {
            SkipControl::Skip { regs_enter_name } => Err(SyncError::OutOfStep),
            SkipControl::Keep { regs_enter_name, regs_exit_name, ret_name } => {
                let exit_name = regs_exit_name.clone();
                let ret_name = ret_name.clone();
                self.curr_regs = Some(regs);
                self.save_regs(&regs, exit_name.as_str());
                self.save_reg(&regs.get_ret(), ret_name.as_str());
                self.dispatch(sysno, 0)
            },
        }
    }

    fn poke_from(&mut self, sysno: Sysno, pc: usize, base: Word, off: usize) -> (r: Result<
        Action,
        SyncError,
    >)
        ensures
            (final(self)@, r) == old(self)@.poke_from(sysno, pc, base, off),
    {
        broadcast use vstd::std_specs::btree::group_btree_axioms;

        let script = match self.hooks.get(&sysno) {
            Some(script) => script,
            None => {
                return Err(SyncError::OutOfStep);
            },
        };
        if pc >= script.intrs.len() {
            return Err(SyncError::OutOfStep);
        }
        match &script.intrs[pc] {
            Instruction::Alloc { blob, name } => {
                if off < blob.len() {
                    let data = blob[off];
                    let addr = match (off as u64).checked_mul(8) {
                        Some(bytes) => base.checked_add(bytes),
                        None => None,
                    };
                    match addr {
                        Some(addr) => self.ask(
                            Phase::Poking { sysno, pc, base, next: off + 1 },
                            Action::Poke { addr, data },
                        ),
                        None => self.fail(SyncError::BlobTooLarge),
                    }
                } else {
                    let name = name.clone();
                    self.save_reg(&base, name.as_str());
                    self.dispatch(sysno, pc + 1)
                }
            },
            _ => Err(SyncError::OutOfStep),
        }
    }

    fn left(&mut self, sysno: Sysno, pc: usize) -> (r: Result<Action, SyncError>)
        ensures
            (final(self)@, r) == old(self)@.left(sysno, pc),
    {
        broadcast use vstd::std_specs::btree::group_btree_axioms;

        let script = match self.hooks.get(&sysno) {
            Some(script) => script,
            None => {
                return Err(SyncError::OutOfStep);
            },
        };
        if pc >= script.intrs.len() {
            return Err(SyncError::OutOfStep);
        }
        match &script.intrs[pc] {
            Instruction::Ret { val } => self.dispatch(sysno, pc + 1),
            _ => Err(SyncError::OutOfStep),
        }
    }

    fn exited(
        &mut self,
        sysno: Sysno,
        pc: usize,
        purpose: Purpose,
        enter: UserRegs,
        exit: UserRegs,
    ) -> (r: Result<Action, SyncError>)
        ensures
            (final(self)@, r) == old(self)@.exited(sysno, pc, purpose, enter, exit),
    {
        broadcast use vstd::std_specs::btree::group_btree_axioms;

        let script = match self.hooks.get(&sysno) {
            Some(script) => script,
            None => {
                return Err(SyncError::OutOfStep);
            },
        };
        if pc >= script.intrs.len() {
            return Err(SyncError::OutOfStep);
        }
        match (purpose, &script.intrs[pc]) {
            (Purpose::Call, Instruction::Call { ctrl, sysno: number, vals }) => {
                let enter_name = ctrl.regs_enter_name.clone();
                let exit_name = ctrl.regs_exit_name.clone();
                let ret_name = ctrl.ret_name.clone();
                self.curr_regs = Some(exit);
                self.save_regs(&enter, enter_name.as_str());
                self.save_regs(&exit, exit_name.as_str());
                self.save_reg(&exit.get_ret(), ret_name.as_str());
                self.dispatch(sysno, pc + 1)
            },
            (Purpose::BrkQuery { armed }, Instruction::Alloc { blob, name }) => {
                let words = blob.len();
                self.curr_regs = Some(exit);
                let base = exit.get_ret();
                if base > 0x7fff_ffff_ffff_ffff {
                    return self.fail(SyncError::BrkFailed { ret: base });
                }
                let target = match (words as u64).checked_mul(8) {
                    Some(bytes) => base.checked_add(bytes),
                    None => None,
                };
                match target {
                    None => self.fail(SyncError::BlobTooLarge),
                    Some(target) => {
                        let mut regs = armed;
                        let _ = regs.set_argument(1, &target);
                        self.ask(
                            Phase::Arming { sysno, pc, purpose: Purpose::BrkMove { base, target } },
                            Action::WriteRegs { regs },
                        )
                    },
                }
            },
            (Purpose::BrkMove { base, target }, Instruction::Alloc { blob, name }) => {
                self.curr_regs = Some(exit);
                let got = exit.get_ret();
                if got != target {
                    self.fail(SyncError::BrkMismatch { expected: target, got })
                } else {
                    self.poke_from(sysno, pc, base, 0)
                }
            },
            _ => Err(SyncError::OutOfStep),
        }
    }

    /// Takes the driver's report of what happened to the traced process and answers with
    /// what to do next. Where the report is a stop at a hooked syscall, the activation of the
    /// hooked script is asked with the six argument registers, and the script runs on its
    /// answer. A report that does not answer the last request is out of step and leaves the
    /// tracer untouched; every other error ends the session.
    pub fn sync(&mut self, event: Event) -> (r: Result<Action, SyncError>)
        ensures
            exists|fired: Result<bool, ActivationError>| #[trigger]
                old(self)@.admits(event, fired) && (final(self)@, r) == old(self)@.step(
                    event,
                    fired,
                ),
    {
        broadcast use vstd::std_specs::btree::group_btree_axioms;

        let ghost idle: Result<bool, ActivationError> = Ok(false);
        match (self.phase, event) {
            (Phase::Idle, Event::Launch) => {
                assert(old(self)@.admits(event, idle));
                self.ask(Phase::Attaching, Action::Attach)
            },
            (Phase::Attaching, Event::Done) => {
                assert(old(self)@.admits(event, idle));
                self.ask(Phase::Trapping, Action::Step)
            },
            (Phase::Trapping, Event::Stopped { regs }) => {
                self.curr_regs = Some(regs);
                let sysno = regs.get_sysno();
                match self.hooks.get(&sysno) {
                    None => {
                        assert(old(self)@.admits(event, idle));
                        self.ask(Phase::Releasing, Action::Detach)
                    },
                    Some(script) => {
                        let args = regs.get_arguments();
                        let fired = script.starter.activation.signal(args.as_slice());
                        assert(old(self)@.admits(event, fired));
                        self.run_script(sysno, fired)
                    },
                }
            },
            (Phase::Releasing, Event::Done) => {
                assert(old(self)@.admits(event, idle));
                self.ask(Phase::Trapping, Action::Step)
            },
            (Phase::Keeping { sysno }, Event::Stopped { regs }) => {
                assert(old(self)@.admits(event, idle));
                self.kept(sysno, regs)
            },
            (Phase::Arming { sysno, pc, purpose }, Event::Done) => {
                assert(old(self)@.admits(event, idle));
                self.ask(Phase::Entering { sysno, pc, purpose }, Action::Step)
            },
            (Phase::Entering { sysno, pc, purpose }, Event::Stopped { regs }) => {
                assert(old(self)@.admits(event, idle));
                self.curr_regs = Some(regs);
                self.ask(Phase::Exiting { sysno, pc, purpose, enter: regs }, Action::Step)
            },
            (Phase::Exiting { sysno, pc, purpose, enter }, Event::Stopped { regs }) => {
                assert(old(self)@.admits(event, idle));
                self.exited(sysno, pc, purpose, enter, regs)
            },
            (Phase::Poking { sysno, pc, base, next }, Event::Done) => {
                assert(old(self)@.admits(event, idle));
                self.poke_from(sysno, pc, base, next)
            },
            (Phase::Returning { sysno, pc }, Event::Done) => {
                assert(old(self)@.admits(event, idle));
                self.ask(Phase::Leaving { sysno, pc }, Action::Detach)
            },
            (Phase::Leaving { sysno, pc }, Event::Done) => {
                assert(old(self)@.admits(event, idle));
                self.left(sysno, pc)
            },
            _ => {
                assert(old(self)@.admits(event, idle));
                Err(SyncError::OutOfStep)
            },
        }
    }
}

} // verus!
