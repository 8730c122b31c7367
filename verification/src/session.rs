use vstd::prelude::*;
use nc::syscalls::Sysno;
use crate::ctrl::{Activation, ActivationError, Instruction, Script, SkipControl, Val};
use crate::regs::{Reg, RegError, UserRegs, Word, ARG_SLOTS, MAX, TRAP_WIDTH};
use crate::store::Unbound;
use crate::trace::{Action, Event, HookError, Phase, Purpose, SyncError, Tracee, BRK_SYSNO};

verus! {

/// Whether `out` is something that activation `a` may answer to `args`.
pub open spec fn may_signal<A: Activation>(
    a: A,
    args: Seq<Reg>,
    out: Result<bool, ActivationError>,
) -> bool {
    if args.len() < a.arity() {
        out == Err::<bool, ActivationError>(ActivationError::ArgumentNotEnough)
    } else {
        out matches Ok(fired) && a.answers(args.take(a.arity() as int), fired)
    }
}

/// The values that a list of script values stands for, given the bindings of the value
/// store; or the first name in the list that is not bound.
pub open spec fn resolve_seq(vals: Seq<Val>, store: Map<Seq<char>, Reg>) -> Result<
    Seq<Reg>,
    Unbound,
>
    decreases vals.len(),
{
    if vals.len() == 0 {
        Ok(Seq::empty())
    } else {
        match resolve_seq(vals.drop_last(), store) {
            Err(unbound) => Err(unbound),
            Ok(head) => match vals.last().resolution(store) {
                Ok(reg) => Ok(head.push(reg)),
                Err(unbound) => Err(unbound),
            },
        }
    }
}

/// The registers that make a process, stopped with the registers `curr`, execute syscall
/// `sysno` with the leading arguments `args` at the trap it just passed.
pub open spec fn armed(curr: UserRegs, sysno: Sysno, args: Seq<Reg>) -> UserRegs {
    curr.rewound().with_sysno(sysno).with_arguments(args)
}

/// The state of a session.
pub struct Session<A: Activation> {
    /// The process that the session traces.
    pub tracee: Tracee,
    /// The script hooked at each syscall number.
    pub hooks: Map<Sysno, Script<A>>,
    /// The register snapshots saved under names.
    pub regs: Map<Seq<char>, UserRegs>,
    /// The values saved under names.
    pub vals: Map<Seq<char>, Reg>,
    /// The registers at the most recent stop.
    pub curr: Option<UserRegs>,
    /// Where the session stands.
    pub phase: Phase,
}

impl<A: Activation> Session<A> {
    /// A session on `tracee` with no hook, no saved name and nothing asked for.
    pub open spec fn initial(tracee: Tracee) -> Self {
        Session {
            tracee,
            hooks: Map::empty(),
            regs: Map::empty(),
            vals: Map::empty(),
            curr: None,
            phase: Phase::Idle,
        }
    }

    /// Hooking `script` at `sysno`: refused where a script is hooked there already.
    pub open spec fn hooked(self, sysno: Sysno, script: Script<A>) -> (Self, Result<
        (),
        HookError,
    >) {
        if self.hooks.contains_key(sysno) {
            (self, Err(HookError::AlreadyHooked { sysno }))
        } else {
            (Session { hooks: self.hooks.insert(sysno, script), ..self }, Ok(()))
        }
    }

    /// The session goes on: it asks for `action` and stands at `phase`.
    pub open spec fn ask(self, phase: Phase, action: Action) -> (Self, Result<Action, SyncError>) {
        (Session { phase, ..self }, Ok(action))
    }

    /// The session stops on `error`.
    pub open spec fn fail(self, error: SyncError) -> (Self, Result<Action, SyncError>) {
        (Session { phase: Phase::Idle, ..self }, Err(error))
    }

    /// The event does not fit: it is refused and the session stays as it is.
    pub open spec fn stray(self) -> (Self, Result<Action, SyncError>) {
        (self, Err(SyncError::OutOfStep))
    }

    /// The process stopped with the registers `regs`.
    pub open spec fn saw(self, regs: UserRegs) -> Self {
        Session { curr: Some(regs), ..self }
    }

    /// Instruction `pc` of the script hooked at `sysno`, if there is one.
    pub open spec fn instr(self, sysno: Sysno, pc: int) -> Option<Instruction> {
        if self.hooks.contains_key(sysno) && 0 <= pc < self.hooks[sysno].intrs@.len() {
            Some(self.hooks[sysno].intrs@[pc])
        } else {
            None
        }
    }

    /// Begins a `Call` instruction: the current registers are rewound to the trap and loaded
    /// with the syscall number `number` and the arguments, which come resolved in `args`.
    pub open spec fn start_call(
        self,
        sysno: Sysno,
        pc: usize,
        number: Sysno,
        args: Result<Seq<Reg>, Unbound>,
    ) -> (Self, Result<Action, SyncError>) {
        let curr = self.curr->Some_0;
        if curr.rip < TRAP_WIDTH {
            self.fail(SyncError::Registers { error: RegError::IpTooLow })
        } else {
            match args {
                Err(unbound) => self.fail(SyncError::NotFound { name: unbound.name }),
                Ok(args) => if args.len() == 0 {
                    self.fail(SyncError::Registers { error: RegError::NoArguments })
                } else if args.len() > ARG_SLOTS {
                    self.fail(SyncError::Registers { error: RegError::TooManyArguments })
                } else {
                    self.ask(
                        Phase::Arming { sysno, pc, purpose: Purpose::Call },
                        Action::WriteRegs { regs: armed(curr, number, args) },
                    )
                },
            }
        }
    }

    /// Begins an `Alloc` instruction for a blob of `words` words: an empty blob is refused;
    /// otherwise the end of the heap is asked for, by a heap syscall whose argument changes
    /// nothing.
    pub open spec fn start_alloc(self, sysno: Sysno, pc: usize, words: nat) -> (Self, Result<
        Action,
        SyncError,
    >) {
        let curr = self.curr->Some_0;
        if words == 0 {
            self.fail(SyncError::ZeroSizedBlob)
        } else if curr.rip < TRAP_WIDTH {
            self.fail(SyncError::Registers { error: RegError::IpTooLow })
        } else {
            let regs = curr.rewound().with_sysno(BRK_SYSNO).with_argument(1, MAX);
            self.ask(
                Phase::Arming { sysno, pc, purpose: Purpose::BrkQuery { armed: regs } },
                Action::WriteRegs { regs },
            )
        }
    }

    /// Begins a `Ret` instruction: the value, which comes resolved in `ret`, is put into the
    /// return register of the current registers.
    pub open spec fn start_ret(self, sysno: Sysno, pc: usize, ret: Result<Reg, Unbound>) -> (
        Self,
        Result<Action, SyncError>,
    ) {
        let curr = self.curr->Some_0;
        match ret {
            Err(unbound) => self.fail(SyncError::NotFound { name: unbound.name }),
            Ok(ret) => self.ask(
                Phase::Returning { sysno, pc },
                Action::WriteRegs { regs: curr.with_ret(ret) },
            ),
        }
    }

    /// Executes the script hooked at `sysno` from instruction `pc` on, up to the next thing
    /// to ask for. Behind the last instruction the script is over and the process is stepped
    /// to its next syscall.
    pub open spec fn dispatch(self, sysno: Sysno, pc: int) -> (Self, Result<Action, SyncError>) {
        if self.curr is None || !self.hooks.contains_key(sysno) {
            self.stray()
        } else {
            match self.instr(sysno, pc) {
                None => self.ask(Phase::Trapping, Action::Step),
                Some(Instruction::Call { ctrl, sysno: number, vals }) => self.start_call(
                    sysno,
                    pc as usize,
                    number,
                    resolve_seq(vals@, self.vals),
                ),
                Some(Instruction::Alloc { blob, name }) => self.start_alloc(
                    sysno,
                    pc as usize,
                    blob@.len(),
                ),
                Some(Instruction::Ret { val }) => self.start_ret(
                    sysno,
                    pc as usize,
                    val.resolution(self.vals),
                ),
            }
        }
    }

    /// Runs the script hooked at `sysno`, given what its activation answered at the stop the
    /// session is waiting at. If the activation fired, the registers at the stop are saved
    /// under the name of the skip policy; a skipped syscall is then overwritten by the first
    /// instruction, a kept one is first stepped to its exit. If it did not fire, the process
    /// goes on to its next syscall.
    pub open spec fn run(self, sysno: Sysno, fired: Result<bool, ActivationError>) -> (
        Self,
        Result<Action, SyncError>,
    ) {
        if !(self.phase is Trapping) || self.curr is None || !self.hooks.contains_key(sysno) {
            self.stray()
        } else {
            match fired {
                Err(cause) => self.fail(SyncError::Activation { cause }),
                Ok(false) => self.ask(Phase::Trapping, Action::Step),
                Ok(true) => match self.hooks[sysno].starter.skip_ctrl {
                    SkipControl::Skip { regs_enter_name } => Session {
                        regs: self.regs.insert(regs_enter_name@, self.curr->Some_0),
                        ..self
                    }.dispatch(sysno, 0),
                    SkipControl::Keep { regs_enter_name, regs_exit_name, ret_name } => Session {
                        regs: self.regs.insert(regs_enter_name@, self.curr->Some_0),
                        ..self
                    }.ask(Phase::Keeping { sysno }, Action::Step),
                },
            }
        }
    }

    /// The process stopped at a syscall of its own: a hooked one runs its script, if the
    /// activation fires; another one is let go.
    pub open spec fn trapped(self, regs: UserRegs, fired: Result<bool, ActivationError>) -> (
        Self,
        Result<Action, SyncError>,
    ) {
        let seen = self.saw(regs);
        if seen.hooks.contains_key(regs.spec_sysno()) {
            seen.run(regs.spec_sysno(), fired)
        } else {
            seen.ask(Phase::Releasing, Action::Detach)
        }
    }

    /// The kept syscall reached its exit: its registers and its return value are saved, and
    /// the first instruction begins.
    pub open spec fn kept(self, sysno: Sysno, regs: UserRegs) -> (Self, Result<
        Action,
        SyncError,
    >) {
        if !self.hooks.contains_key(sysno) {
            self.stray()
        } else {
            match self.hooks[sysno].starter.skip_ctrl {
                SkipControl::Keep { regs_enter_name, regs_exit_name, ret_name } => Session {
                    curr: Some(regs),
                    regs: self.regs.insert(regs_exit_name@, regs),
                    vals: self.vals.insert(ret_name@, regs.spec_ret()),
                    ..self
                }.dispatch(sysno, 0),
                SkipControl::Skip { regs_enter_name } => self.stray(),
            }
        }
    }

    /// Copies the blob of the `Alloc` instruction from word `off` on: the word is poked to
    /// its place, `off` words behind `base`; behind the last word `base` is bound to the name
    /// of the instruction and the next instruction begins.
    pub open spec fn poke_from(self, sysno: Sysno, pc: usize, base: Word, off: usize) -> (
        Self,
        Result<Action, SyncError>,
    ) {
        match self.instr(sysno, pc as int) {
            Some(Instruction::Alloc { blob, name }) => if off < blob@.len() {
                if base + 8 * off > MAX {
                    self.fail(SyncError::BlobTooLarge)
                } else {
                    self.ask(
                        Phase::Poking { sysno, pc, base, next: (off + 1) as usize },
                        Action::Poke { addr: (base + 8 * off) as Word, data: blob@[off as int] },
                    )
                }
            } else {
                Session { vals: self.vals.insert(name@, base), ..self }.dispatch(sysno, pc + 1)
            },
            _ => self.stray(),
        }
    }

    /// A `Ret` instruction released the process: the script goes on behind it.
    pub open spec fn left(self, sysno: Sysno, pc: usize) -> (Self, Result<Action, SyncError>) {
        match self.instr(sysno, pc as int) {
            Some(Instruction::Ret { val }) => self.dispatch(sysno, pc + 1),
            _ => self.stray(),
        }
    }

    /// An injected syscall, entered with the registers `enter`, reached its exit with the
    /// registers `exit`.
    pub open spec fn exited(
        self,
        sysno: Sysno,
        pc: usize,
        purpose: Purpose,
        enter: UserRegs,
        exit: UserRegs,
    ) -> (Self, Result<Action, SyncError>) {
        match (purpose, self.instr(sysno, pc as int)) {
            (Purpose::Call, Some(Instruction::Call { ctrl, sysno: number, vals })) => Session {
                curr: Some(exit),
                regs: self.regs.insert(ctrl.regs_enter_name@, enter).insert(
                    ctrl.regs_exit_name@,
                    exit,
                ),
                vals: self.vals.insert(ctrl.ret_name@, exit.spec_ret()),
                ..self
            }.dispatch(sysno, pc + 1),
            (Purpose::BrkQuery { armed }, Some(Instruction::Alloc { blob, name })) => {
                let base = exit.spec_ret();
                if base > i64::MAX {
                    self.saw(exit).fail(SyncError::BrkFailed { ret: base })
                } else if base + 8 * blob@.len() > MAX {
                    self.saw(exit).fail(SyncError::BlobTooLarge)
                } else {
                    let target = (base + 8 * blob@.len()) as Word;
                    self.saw(exit).ask(
                        Phase::Arming { sysno, pc, purpose: Purpose::BrkMove { base, target } },
                        Action::WriteRegs { regs: armed.with_argument(1, target) },
                    )
                }
            },
            (Purpose::BrkMove { base, target }, Some(Instruction::Alloc { blob, name })) => {
                if exit.spec_ret() != target {
                    self.saw(exit).fail(
                        SyncError::BrkMismatch { expected: target, got: exit.spec_ret() },
                    )
                } else {
                    self.saw(exit).poke_from(sysno, pc, base, 0)
                }
            },
            _ => self.stray(),
        }
    }

    /// One step of the session: what becomes of it on `event`, and what it asks for next.
    /// `fired` is what the activation answers, where the event is a stop at a hooked syscall;
    /// elsewhere it plays no part.
    pub open spec fn step(self, event: Event, fired: Result<bool, ActivationError>) -> (
        Self,
        Result<Action, SyncError>,
    ) {
        match (self.phase, event) {
            (Phase::Idle, Event::Launch) => self.ask(Phase::Attaching, Action::Attach),
            (Phase::Attaching, Event::Done) => self.ask(Phase::Trapping, Action::Step),
            (Phase::Trapping, Event::Stopped { regs }) => self.trapped(regs, fired),
            (Phase::Releasing, Event::Done) => self.ask(Phase::Trapping, Action::Step),
            (Phase::Keeping { sysno }, Event::Stopped { regs }) => self.kept(sysno, regs),
            (Phase::Arming { sysno, pc, purpose }, Event::Done) => self.ask(
                Phase::Entering { sysno, pc, purpose },
                Action::Step,
            ),
            (Phase::Entering { sysno, pc, purpose }, Event::Stopped { regs }) => self.saw(
                regs,
            ).ask(Phase::Exiting { sysno, pc, purpose, enter: regs }, Action::Step),
            (Phase::Exiting { sysno, pc, purpose, enter }, Event::Stopped { regs }) => self.exited(
                sysno,
                pc,
                purpose,
                enter,
                regs,
            ),
            (Phase::Poking { sysno, pc, base, next }, Event::Done) => self.poke_from(
                sysno,
                pc,
                base,
                next,
            ),
            (Phase::Returning { sysno, pc }, Event::Done) => self.ask(
                Phase::Leaving { sysno, pc },
                Action::Detach,
            ),
            (Phase::Leaving { sysno, pc }, Event::Done) => self.left(sysno, pc),
            _ => self.stray(),
        }
    }

    /// Whether `fired` is an answer that the activation may give on `event`: at a stop at a
    /// hooked syscall, one that the activation of the hooked script may give to the six
    /// argument registers; elsewhere, where no activation is asked, any.
    pub open spec fn admits(self, event: Event, fired: Result<bool, ActivationError>) -> bool {
        match (self.phase, event) {
            (Phase::Trapping, Event::Stopped { regs }) => self.hooks.contains_key(
                regs.spec_sysno(),
            ) ==> may_signal(
                self.hooks[regs.spec_sysno()].starter.activation,
                regs.spec_arguments(),
                fired,
            ),
            _ => true,
        }
    }
}

impl<A: Activation> Session<A> {
    /// Whether `event` is an answer to what a session at `phase` asked for last.
    pub open spec fn expects(phase: Phase, event: Event) -> bool {
        match (phase, event) {
            (Phase::Idle, Event::Launch) => true,
            (Phase::Attaching, Event::Done) => true,
            (Phase::Trapping, Event::Stopped { regs }) => true,
            (Phase::Releasing, Event::Done) => true,
            (Phase::Keeping { sysno }, Event::Stopped { regs }) => true,
            (Phase::Arming { sysno, pc, purpose }, Event::Done) => true,
            (Phase::Entering { sysno, pc, purpose }, Event::Stopped { regs }) => true,
            (Phase::Exiting { sysno, pc, purpose, enter }, Event::Stopped { regs }) => true,
            (Phase::Poking { sysno, pc, base, next }, Event::Done) => true,
            (Phase::Returning { sysno, pc }, Event::Done) => true,
            (Phase::Leaving { sysno, pc }, Event::Done) => true,
            _ => false,
        }
    }

    /// Whether instruction `pc` of the script hooked at `sysno` is the one that an injected
    /// syscall with this purpose belongs to: a `Call` for a call, an `Alloc` with a blob that
    /// is not empty for a heap syscall.
    pub open spec fn serves(self, sysno: Sysno, pc: usize, purpose: Purpose) -> bool {
        match (purpose, self.instr(sysno, pc as int)) {
            (Purpose::Call, Some(Instruction::Call { ctrl, sysno: number, vals })) => true,
            (Purpose::BrkQuery { armed }, Some(Instruction::Alloc { blob, name })) => blob@.len()
                > 0,
            (Purpose::BrkMove { base, target }, Some(Instruction::Alloc { blob, name })) => blob@.len()
                > 0 && base + 8 * blob@.len() == target,
            _ => false,
        }
    }

    /// Whether the session is in a state that it can reach: what its phase refers to exists
    /// and is of the kind that the phase is about.
    pub open spec fn consistent(self) -> bool {
        match self.phase {
            Phase::Idle => true,
            Phase::Attaching => true,
            Phase::Trapping => true,
            Phase::Releasing => self.curr is Some,
            Phase::Keeping { sysno } => self.curr is Some && self.hooks.contains_key(sysno)
                && self.hooks[sysno].starter.skip_ctrl is Keep,
            Phase::Arming { sysno, pc, purpose } => self.curr is Some && self.serves(
                sysno,
                pc,
                purpose,
            ),
            Phase::Entering { sysno, pc, purpose } => self.curr is Some && self.serves(
                sysno,
                pc,
                purpose,
            ),
            Phase::Exiting { sysno, pc, purpose, enter } => self.curr is Some && self.serves(
                sysno,
                pc,
                purpose,
            ),
            Phase::Poking { sysno, pc, base, next } => self.curr is Some && (self.instr(
                sysno,
                pc as int,
            ) matches Some(Instruction::Alloc { blob, name }) && 0 < next <= blob@.len() && base + 8
                * blob@.len() <= MAX),
            Phase::Returning { sysno, pc } => self.curr is Some && self.instr(sysno, pc as int)
                matches Some(Instruction::Ret { val }),
            Phase::Leaving { sysno, pc } => self.curr is Some && self.instr(sysno, pc as int)
                matches Some(Instruction::Ret { val }),
        }
    }
}

/// A second hook at a number that is hooked already is refused and changes nothing: the
/// script that was hooked first stays.
pub proof fn lemma_second_hook_is_refused<A: Activation>(
    session: Session<A>,
    sysno: Sysno,
    first: Script<A>,
    second: Script<A>,
)
    ensures
        ({
            let (once, _) = session.hooked(sysno, first);
            let (twice, answer) = once.hooked(sysno, second);
            &&& answer == Err::<(), HookError>(HookError::AlreadyHooked { sysno })
            &&& twice == once
            &&& once.hooks.contains_key(sysno)
            &&& !session.hooks.contains_key(sysno) ==> once.hooks[sysno] == first
            &&& session.hooks.contains_key(sysno) ==> once == session
        }),
{
}

/// Hooking a script takes no script away and replaces none, and leaves the named slots and
/// the state of the session as they are.
pub proof fn lemma_hook_keeps_the_rest<A: Activation>(
    session: Session<A>,
    sysno: Sysno,
    script: Script<A>,
    other: Sysno,
)
    requires
        session.hooks.contains_key(other),
    ensures
        session.hooked(sysno, script).0.hooks.contains_key(other),
        session.hooked(sysno, script).0.hooks[other] == session.hooks[other],
        session.hooked(sysno, script).0.regs == session.regs,
        session.hooked(sysno, script).0.vals == session.vals,
        session.hooked(sysno, script).0.curr == session.curr,
        session.hooked(sysno, script).0.phase == session.phase,
        session.consistent() ==> session.hooked(sysno, script).0.consistent(),
{
}

/// Executing instructions changes no hook and removes no name.
proof fn lemma_dispatch_keeps<A: Activation>(session: Session<A>, sysno: Sysno, pc: int)
    ensures
        session.dispatch(sysno, pc).0.hooks == session.hooks,
        session.dispatch(sysno, pc).0.tracee == session.tracee,
        session.dispatch(sysno, pc).0.regs == session.regs,
        session.dispatch(sysno, pc).0.vals == session.vals,
        session.dispatch(sysno, pc).0.curr == session.curr,
{
}

/// A step of the session changes no hook and not the traced process, and removes no name
/// from the named slots: a name that is bound stays bound.
pub proof fn lemma_step_keeps_hooks_and_names<A: Activation>(
    session: Session<A>,
    event: Event,
    fired: Result<bool, ActivationError>,
)
    ensures
        session.step(event, fired).0.hooks == session.hooks,
        session.step(event, fired).0.tracee == session.tracee,
        session.regs.dom().subset_of(session.step(event, fired).0.regs.dom()),
        session.vals.dom().subset_of(session.step(event, fired).0.vals.dom()),
{
    let after = session.step(event, fired).0;
    match (session.phase, event) {
        (Phase::Trapping, Event::Stopped { regs }) => {
            let seen = session.saw(regs);
            let sysno = regs.spec_sysno();
            if seen.hooks.contains_key(sysno) && fired == Ok::<bool, ActivationError>(true) {
                match seen.hooks[sysno].starter.skip_ctrl {
                    SkipControl::Skip { regs_enter_name } => {
                        lemma_dispatch_keeps(
                            Session {
                                regs: seen.regs.insert(regs_enter_name@, seen.curr->Some_0),
                                ..seen
                            },
                            sysno,
                            0,
                        );
                    },
                    SkipControl::Keep { regs_enter_name, regs_exit_name, ret_name } => {},
                }
            }
        },
        (Phase::Keeping { sysno }, Event::Stopped { regs }) => {
            if session.hooks.contains_key(sysno) {
                match session.hooks[sysno].starter.skip_ctrl {
                    SkipControl::Keep { regs_enter_name, regs_exit_name, ret_name } => {
                        lemma_dispatch_keeps(
                            Session {
                                curr: Some(regs),
                                regs: session.regs.insert(regs_exit_name@, regs),
                                vals: session.vals.insert(ret_name@, regs.spec_ret()),
                                ..session
                            },
                            sysno,
                            0,
                        );
                    },
                    SkipControl::Skip { regs_enter_name } => {},
                }
            }
        },
        (Phase::Exiting { sysno, pc, purpose, enter }, Event::Stopped { regs }) => {
            match (purpose, session.instr(sysno, pc as int)) {
                (Purpose::Call, Some(Instruction::Call { ctrl, sysno: number, vals })) => {
                    lemma_dispatch_keeps(
                        Session {
                            curr: Some(regs),
                            regs: session.regs.insert(ctrl.regs_enter_name@, enter).insert(
                                ctrl.regs_exit_name@,
                                regs,
                            ),
                            vals: session.vals.insert(ctrl.ret_name@, regs.spec_ret()),
                            ..session
                        },
                        sysno,
                        pc + 1,
                    );
                },
                (Purpose::BrkMove { base, target }, Some(Instruction::Alloc { blob, name })) => {
                    lemma_poke_keeps(session.saw(regs), sysno, pc, base, 0);
                },
                _ => {},
            }
        },
        (Phase::Poking { sysno, pc, base, next }, Event::Done) => {
            lemma_poke_keeps(session, sysno, pc, base, next);
        },
        (Phase::Leaving { sysno, pc }, Event::Done) => {
            lemma_dispatch_keeps(session, sysno, pc + 1);
        },
        _ => {},
    }
}

/// Copying a blob changes no hook and removes no name.
proof fn lemma_poke_keeps<A: Activation>(
    session: Session<A>,
    sysno: Sysno,
    pc: usize,
    base: Word,
    off: usize,
)
    ensures
        session.poke_from(sysno, pc, base, off).0.hooks == session.hooks,
        session.poke_from(sysno, pc, base, off).0.tracee == session.tracee,
        session.poke_from(sysno, pc, base, off).0.regs == session.regs,
        session.poke_from(sysno, pc, base, off).0.curr == session.curr,
        session.vals.dom().subset_of(session.poke_from(sysno, pc, base, off).0.vals.dom()),
{
    match session.instr(sysno, pc as int) {
        Some(Instruction::Alloc { blob, name }) => {
            if !(off < blob@.len()) {
                lemma_dispatch_keeps(
                    Session { vals: session.vals.insert(name@, base), ..session },
                    sysno,
                    pc + 1,
                );
            }
        },
        _ => {},
    }
}

/// Where the heap does not end at the address that was asked for, the session stops on the
/// mismatch, with the address asked for and the address found, and binds nothing: the named
/// values are as they were, the name of the `Alloc` instruction among them.
pub proof fn lemma_brk_mismatch_binds_nothing<A: Activation>(
    session: Session<A>,
    sysno: Sysno,
    pc: usize,
    base: Word,
    target: Word,
    enter: UserRegs,
    exit: UserRegs,
    fired: Result<bool, ActivationError>,
)
    requires
        session.phase == (Phase::Exiting {
            sysno,
            pc,
            purpose: Purpose::BrkMove { base, target },
            enter,
        }),
        session.instr(sysno, pc as int) matches Some(Instruction::Alloc { blob, name }),
        exit.spec_ret() != target,
    ensures
        session.step(Event::Stopped { regs: exit }, fired).1 == Err::<Action, SyncError>(
            SyncError::BrkMismatch { expected: target, got: exit.spec_ret() },
        ),
        session.step(Event::Stopped { regs: exit }, fired).0.vals == session.vals,
        session.step(Event::Stopped { regs: exit }, fired).0.regs == session.regs,
        session.step(Event::Stopped { regs: exit }, fired).0.phase == Phase::Idle,
{
}

/// Every injected syscall is armed at the trap that the process passed last: the registers
/// written for a `Call` and for the heap query of an `Alloc` are the current ones with the
/// instruction pointer moved back by the width of the trap instruction, and the registers
/// written for the heap move of an `Alloc` point where those of its query pointed.
pub proof fn lemma_injection_rewinds_to_trap<A: Activation>(
    session: Session<A>,
    event: Event,
    fired: Result<bool, ActivationError>,
)
    ensures
        ({
            let (after, answer) = session.step(event, fired);
            answer matches Ok(Action::WriteRegs { regs }) ==> match after.phase {
                Phase::Arming { sysno, pc, purpose: Purpose::Call } => after.curr is Some
                    && regs.rip == after.curr->Some_0.rip - TRAP_WIDTH,
                Phase::Arming { sysno, pc, purpose: Purpose::BrkQuery { armed } } => after.curr
                    is Some && regs == armed && regs.rip == after.curr->Some_0.rip - TRAP_WIDTH,
                Phase::Arming { sysno, pc, purpose: Purpose::BrkMove { base, target } } => {
                    session.phase matches Phase::Exiting {
                        sysno: s,
                        pc: p,
                        purpose: Purpose::BrkQuery { armed },
                        enter,
                    } && regs.rip == armed.rip
                },
                Phase::Returning { sysno, pc } => after.curr is Some && regs.rip
                    == after.curr->Some_0.rip,
                _ => false,
            }
        }),
{
    let (after, answer) = session.step(event, fired);
    match (session.phase, event) {
        (Phase::Trapping, Event::Stopped { regs }) => {
            let seen = session.saw(regs);
            let sysno = regs.spec_sysno();
            if seen.hooks.contains_key(sysno) && fired == Ok::<bool, ActivationError>(true) {
                match seen.hooks[sysno].starter.skip_ctrl {
                    SkipControl::Skip { regs_enter_name } => {
                        lemma_dispatch_arms(
                            Session {
                                regs: seen.regs.insert(regs_enter_name@, seen.curr->Some_0),
                                ..seen
                            },
                            sysno,
                            0,
                        );
                    },
                    SkipControl::Keep { regs_enter_name, regs_exit_name, ret_name } => {},
                }
            }
        },
        (Phase::Keeping { sysno }, Event::Stopped { regs }) => {
            if session.hooks.contains_key(sysno) {
                match session.hooks[sysno].starter.skip_ctrl {
                    SkipControl::Keep { regs_enter_name, regs_exit_name, ret_name } => {
                        lemma_dispatch_arms(
                            Session {
                                curr: Some(regs),
                                regs: session.regs.insert(regs_exit_name@, regs),
                                vals: session.vals.insert(ret_name@, regs.spec_ret()),
                                ..session
                            },
                            sysno,
                            0,
                        );
                    },
                    SkipControl::Skip { regs_enter_name } => {},
                }
            }
        },
        (Phase::Exiting { sysno, pc, purpose, enter }, Event::Stopped { regs }) => {
            match (purpose, session.instr(sysno, pc as int)) {
                (Purpose::Call, Some(Instruction::Call { ctrl, sysno: number, vals })) => {
                    lemma_dispatch_arms(
                        Session {
                            curr: Some(regs),
                            regs: session.regs.insert(ctrl.regs_enter_name@, enter).insert(
                                ctrl.regs_exit_name@,
                                regs,
                            ),
                            vals: session.vals.insert(ctrl.ret_name@, regs.spec_ret()),
                            ..session
                        },
                        sysno,
                        pc + 1,
                    );
                },
                (Purpose::BrkMove { base, target }, Some(Instruction::Alloc { blob, name })) => {
                    lemma_poke_arms(session.saw(regs), sysno, pc, base, 0);
                },
                _ => {},
            }
        },
        (Phase::Poking { sysno, pc, base, next }, Event::Done) => {
            lemma_poke_arms(session, sysno, pc, base, next);
        },
        (Phase::Leaving { sysno, pc }, Event::Done) => {
            lemma_dispatch_arms(session, sysno, pc + 1);
        },
        _ => {},
    }
}

/// The registers that the first step of an instruction writes.
proof fn lemma_dispatch_arms<A: Activation>(session: Session<A>, sysno: Sysno, pc: int)
    ensures
        ({
            let (after, answer) = session.dispatch(sysno, pc);
            answer matches Ok(Action::WriteRegs { regs }) ==> after.curr is Some && match after.phase {
                Phase::Arming { sysno, pc, purpose: Purpose::Call } => regs.rip
                    == after.curr->Some_0.rip - TRAP_WIDTH,
                Phase::Arming { sysno, pc, purpose: Purpose::BrkQuery { armed } } => regs == armed
                    && regs.rip == after.curr->Some_0.rip - TRAP_WIDTH,
                Phase::Returning { sysno, pc } => regs.rip == after.curr->Some_0.rip,
                _ => false,
            }
        }),
{
}

/// The registers that the step behind a poke writes.
proof fn lemma_poke_arms<A: Activation>(
    session: Session<A>,
    sysno: Sysno,
    pc: usize,
    base: Word,
    off: usize,
)
    ensures
        ({
            let (after, answer) = session.poke_from(sysno, pc, base, off);
            answer matches Ok(Action::WriteRegs { regs }) ==> after.curr is Some && match after.phase {
                Phase::Arming { sysno, pc, purpose: Purpose::Call } => regs.rip
                    == after.curr->Some_0.rip - TRAP_WIDTH,
                Phase::Arming { sysno, pc, purpose: Purpose::BrkQuery { armed } } => regs == armed
                    && regs.rip == after.curr->Some_0.rip - TRAP_WIDTH,
                Phase::Returning { sysno, pc } => regs.rip == after.curr->Some_0.rip,
                _ => false,
            }
        }),
{
    match session.instr(sysno, pc as int) {
        Some(Instruction::Alloc { blob, name }) => {
            if !(off < blob@.len()) {
                lemma_dispatch_arms(
                    Session { vals: session.vals.insert(name@, base), ..session },
                    sysno,
                    pc + 1,
                );
            }
        },
        _ => {},
    }
}

/// Executing instructions of a hooked script, with the registers of a stop at hand, leads to
/// a state that the session can be in, and is never out of step.
proof fn lemma_dispatch_stays_consistent<A: Activation>(session: Session<A>, sysno: Sysno, pc: int)
    requires
        session.curr is Some,
        session.hooks.contains_key(sysno),
        0 <= pc,
    ensures
        session.dispatch(sysno, pc).0.consistent(),
        session.dispatch(sysno, pc).1 != Err::<Action, SyncError>(SyncError::OutOfStep),
{
    match session.instr(sysno, pc) {
        Some(instr) => {
            let intrs = session.hooks[sysno].intrs;
            assert(pc < intrs@.len() == intrs.len());
        },
        None => {},
    }
}

/// Copying a blob that fits below the top of the address space leads to a state that the
/// session can be in, is never out of step and never finds the blob too large.
proof fn lemma_poke_stays_consistent<A: Activation>(
    session: Session<A>,
    sysno: Sysno,
    pc: usize,
    base: Word,
    off: usize,
)
    requires
        session.curr is Some,
        session.instr(sysno, pc as int) matches Some(Instruction::Alloc { blob, name }) && off
            <= blob@.len() && base + 8 * blob@.len() <= MAX,
    ensures
        session.poke_from(sysno, pc, base, off).0.consistent(),
        session.poke_from(sysno, pc, base, off).1 != Err::<Action, SyncError>(
            SyncError::OutOfStep,
        ),
        session.poke_from(sysno, pc, base, off).1 != Err::<Action, SyncError>(
            SyncError::BlobTooLarge,
        ),
{
    match session.instr(sysno, pc as int) {
        Some(Instruction::Alloc { blob, name }) => {
            if off < blob@.len() {
                assert(off + 1 <= blob@.len() == blob.len());
            } else {
                let bound = Session { vals: session.vals.insert(name@, base), ..session };
                lemma_dispatch_stays_consistent(bound, sysno, pc + 1);
                lemma_dispatch_never_too_large(bound, sysno, pc + 1);
            }
        },
        _ => {},
    }
}

/// No instruction begins with finding a blob too large.
proof fn lemma_dispatch_never_too_large<A: Activation>(session: Session<A>, sysno: Sysno, pc: int)
    ensures
        session.dispatch(sysno, pc).1 != Err::<Action, SyncError>(SyncError::BlobTooLarge),
{
}

/// A session that begins idle and is only stepped stays in states that it can be in. In such
/// a state a report is out of step exactly where it does not answer the last request, and
/// the copy of a blob, once the heap has grown for it, never finds the blob too large.
pub proof fn lemma_step_stays_consistent<A: Activation>(
    session: Session<A>,
    event: Event,
    fired: Result<bool, ActivationError>,
)
    requires
        session.consistent(),
    ensures
        session.step(event, fired).0.consistent(),
        session.step(event, fired).1 == Err::<Action, SyncError>(SyncError::OutOfStep)
            <==> !Session::<A>::expects(session.phase, event),
        !Session::<A>::expects(session.phase, event) ==> session.step(event, fired).0 == session,
        session.phase is Poking ==> session.step(event, fired).1 != Err::<Action, SyncError>(
            SyncError::BlobTooLarge,
        ),
{
    match (session.phase, event) {
        (Phase::Trapping, Event::Stopped { regs }) => {
            let seen = session.saw(regs);
            let sysno = regs.spec_sysno();
            if seen.hooks.contains_key(sysno) && fired == Ok::<bool, ActivationError>(true) {
                match seen.hooks[sysno].starter.skip_ctrl {
                    SkipControl::Skip { regs_enter_name } => {
                        lemma_dispatch_stays_consistent(
                            Session {
                                regs: seen.regs.insert(regs_enter_name@, seen.curr->Some_0),
                                ..seen
                            },
                            sysno,
                            0,
                        );
                    },
                    SkipControl::Keep { regs_enter_name, regs_exit_name, ret_name } => {},
                }
            }
        },
        (Phase::Keeping { sysno }, Event::Stopped { regs }) => {
            match session.hooks[sysno].starter.skip_ctrl {
                SkipControl::Keep { regs_enter_name, regs_exit_name, ret_name } => {
                    lemma_dispatch_stays_consistent(
                        Session {
                            curr: Some(regs),
                            regs: session.regs.insert(regs_exit_name@, regs),
                            vals: session.vals.insert(ret_name@, regs.spec_ret()),
                            ..session
                        },
                        sysno,
                        0,
                    );
                },
                SkipControl::Skip { regs_enter_name } => {},
            }
        },
        (Phase::Exiting { sysno, pc, purpose, enter }, Event::Stopped { regs }) => {
            match (purpose, session.instr(sysno, pc as int)) {
                (Purpose::Call, Some(Instruction::Call { ctrl, sysno: number, vals })) => {
                    lemma_dispatch_stays_consistent(
                        Session {
                            curr: Some(regs),
                            regs: session.regs.insert(ctrl.regs_enter_name@, enter).insert(
                                ctrl.regs_exit_name@,
                                regs,
                            ),
                            vals: session.vals.insert(ctrl.ret_name@, regs.spec_ret()),
                            ..session
                        },
                        sysno,
                        pc + 1,
                    );
                },
                (Purpose::BrkMove { base, target }, Some(Instruction::Alloc { blob, name })) => {
                    if regs.spec_ret() == target {
                        lemma_poke_stays_consistent(session.saw(regs), sysno, pc, base, 0);
                    }
                },
                _ => {},
            }
        },
        (Phase::Poking { sysno, pc, base, next }, Event::Done) => {
            lemma_poke_stays_consistent(session, sysno, pc, base, next);
        },
        (Phase::Leaving { sysno, pc }, Event::Done) => {
            lemma_dispatch_stays_consistent(session, sysno, pc + 1);
        },
        _ => {},
    }
}

/// A session begins in a state that it can be in.
pub proof fn lemma_initial_is_consistent<A: Activation>(tracee: Tracee)
    ensures
        Session::<A>::initial(tracee).consistent(),
        Session::<A>::initial(tracee).hooks == Map::<Sysno, Script<A>>::empty(),
{
}

/// A blob is copied one word at a time, each word once and in order: once the heap has grown
/// as asked, word 0 is poked to the old end of the heap; after word `next - 1`, word `next`
/// is poked `next` words further on; after the last word nothing more is poked, and the old
/// end of the heap is bound to the name of the instruction. No name is bound before that.
pub proof fn lemma_alloc_copies_word_by_word<A: Activation>(
    session: Session<A>,
    event: Event,
    fired: Result<bool, ActivationError>,
)
    requires
        session.consistent(),
    ensures
        ({
            let (after, answer) = session.step(event, fired);
            match (session.phase, event) {
                (
                    Phase::Exiting { sysno, pc, purpose: Purpose::BrkMove { base, target }, enter },
                    Event::Stopped { regs },
                ) => session.instr(sysno, pc as int) matches Some(
                    Instruction::Alloc { blob, name },
                ) && (regs.spec_ret() == target ==> answer == Ok::<
                    Action,
                    SyncError,
                >(Action::Poke { addr: base, data: blob@[0] }) && after.phase == (Phase::Poking {
                    sysno,
                    pc,
                    base,
                    next: 1,
                }) && after.vals == session.vals),
                (Phase::Poking { sysno, pc, base, next }, Event::Done) => session.instr(
                    sysno,
                    pc as int,
                ) matches Some(Instruction::Alloc { blob, name }) && (next < blob@.len()
                    ==> answer == Ok::<Action, SyncError>(
                    Action::Poke { addr: (base + 8 * next) as Word, data: blob@[next as int] },
                ) && after.phase == (Phase::Poking { sysno, pc, base, next: (next + 1) as usize })
                    && after.vals == session.vals) && (next == blob@.len() ==> !(answer matches Ok(
                    Action::Poke { addr, data },
                )) && after.vals == session.vals.insert(name@, base)),
                _ => true,
            }
        }),
{
    match (session.phase, event) {
        (Phase::Poking { sysno, pc, base, next }, Event::Done) => {
            match session.instr(sysno, pc as int) {
                Some(Instruction::Alloc { blob, name }) => {
                    if next < blob@.len() {
                        assert(next + 1 <= blob@.len() == blob.len());
                    } else {
                        let bound = Session { vals: session.vals.insert(name@, base), ..session };
                        lemma_dispatch_keeps(bound, sysno, pc + 1);
                        lemma_dispatch_never_pokes(bound, sysno, pc + 1);
                    }
                },
                _ => {},
            }
        },
        _ => {},
    }
}

/// No instruction begins with a poke.
proof fn lemma_dispatch_never_pokes<A: Activation>(session: Session<A>, sysno: Sysno, pc: int)
    ensures
        !(session.dispatch(sysno, pc).1 matches Ok(Action::Poke { addr, data })),
{
}

} // verus!
