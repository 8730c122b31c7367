use vstd::prelude::*;
use nc::syscalls::Sysno;
use crate::regs::{Reg, Word};
use crate::store::{NamedStore, Unbound};

verus! {

/// What happens to the syscall at which a script fires.
#[derive(Clone, Debug, PartialEq, Eq)]
pub enum SkipControl {
    /// The syscall does not run: its registers are saved under `regs_enter_name` and then
    /// overwritten by the first injected call.
    Skip { regs_enter_name: String },
    /// The syscall runs to its exit before anything is injected: the registers at entry, the
    /// registers at exit and the return value are saved under the three names.
    Keep { regs_enter_name: String, regs_exit_name: String, ret_name: String },
}

/// What a script asks for when an injected syscall fails.
#[derive(Clone, Copy, Debug, PartialEq, Eq, Structural)]
pub enum FailControl {
    /// Return the value of the first failed syscall.
    Default,
    /// Fall back to the intercepted syscall.
    Fallback,
}

/// A register-sized value of a script: given as it is, or by the name of a slot that an
/// earlier instruction filled.
#[derive(Clone, Debug, PartialEq, Eq)]
pub enum Val {
    /// The value itself.
    Raw(Reg),
    /// The name of a slot of the value store.
    Var(String),
}

/// Why an activation could not be evaluated.
#[derive(Clone, Copy, Debug, PartialEq, Eq, Structural)]
pub enum ActivationError {
    /// Fewer arguments were handed over than the predicate takes.
    ArgumentNotEnough,
}

/// The three names under which an injected call leaves its registers at entry, its registers
/// at exit and its return value.
#[derive(Clone, Debug, PartialEq, Eq)]
pub struct CallControl {
    pub regs_enter_name: String,
    pub regs_exit_name: String,
    pub ret_name: String,
}

impl CallControl {
    /// The three names, in the order: registers at entry, registers at exit, return value.
    pub fn new(regs_enter_name: String, regs_exit_name: String, ret_name: String) -> (r: Self)
        ensures
            r == (CallControl { regs_enter_name, regs_exit_name, ret_name }),
    {
        CallControl { regs_enter_name, regs_exit_name, ret_name }
    }
}

impl Val {
    /// What the value stands for, given the bindings of the value store: the constant itself,
    /// or what the name is bound to; for a name that is not bound, the name.
    pub open spec fn resolution(self, vals: Map<Seq<char>, Reg>) -> Result<Reg, Unbound> {
        match self {
            Val::Raw(reg) => Ok(reg),
            Val::Var(name) => if vals.contains_key(name@) {
                Ok(vals[name@])
            } else {
                Err(Unbound { name })
            },
        }
    }

    /// Resolves the value against `store`. A constant resolves to itself; a name resolves to
    /// the value last bound to it, and fails with the name where nothing was bound to it.
    pub fn resolve(&self, store: &NamedStore<Reg>) -> (r: Result<Reg, Unbound>)
        ensures
            r == self.resolution(store@),
    {
        match self {
            Val::Raw(reg) => Ok(*reg),
            Val::Var(name) => match store.get(name) {
                Some(reg) => Ok(reg),
                None => Err(Unbound { name: name.clone() }),
            },
        }
    }
}

/// A name resolves to the value that was bound to it last, whatever was bound to it before
/// and whatever was bound to other names since; a name that was never bound does not
/// resolve; a constant resolves to itself in every store.
pub proof fn lemma_var_resolves_to_last_binding(
    vals: Map<Seq<char>, Reg>,
    name: String,
    other: String,
    first: Reg,
    last: Reg,
    aside: Reg,
)
    requires
        other@ != name@,
    ensures
        Val::Var(name).resolution(vals.insert(name@, first).insert(name@, last)) == Ok::<
            Reg,
            Unbound,
        >(last),
        Val::Var(name).resolution(vals.insert(name@, last).insert(other@, aside)) == Ok::<
            Reg,
            Unbound,
        >(last),
        !vals.contains_key(name@) ==> Val::Var(name).resolution(vals) == Err::<Reg, Unbound>(
            Unbound { name },
        ),
        !vals.contains_key(name@) ==> Val::Var(name).resolution(vals.insert(other@, aside))
            == Err::<Reg, Unbound>(Unbound { name }),
        Val::Raw(first).resolution(vals) == Ok::<Reg, Unbound>(first),
{
}

/// A predicate over the leading arguments of an intercepted syscall, which decides whether a
/// script fires.
pub trait Activation {
    /// How many arguments the predicate takes.
    spec fn arity(&self) -> nat;

    /// Whether the predicate may answer `fired` when it is given exactly `args`.
    spec fn answers(&self, args: Seq<Reg>, fired: bool) -> bool;

    /// Evaluates the predicate on the first `arity` values of `args`. Fails where `args` holds
    /// fewer values than that.
    fn signal(&self, args: &[Reg]) -> (r: Result<bool, ActivationError>)
        ensures
            args@.len() < self.arity() ==> r == Err::<bool, ActivationError>(
                ActivationError::ArgumentNotEnough,
            ),
            args@.len() >= self.arity() ==> (r matches Ok(fired) && self.answers(
                args@.take(self.arity() as int),
                fired,
            )),
    ;
}

/// An activation that asks a function of the first argument.
pub struct Unary<F: Fn(Reg) -> bool> {
    pred: F,
}

impl<F: Fn(Reg) -> bool + Copy> Clone for Unary<F> {
    fn clone(&self) -> (r: Self)
        ensures
            r == *self,
    {
        *self
    }
}

impl<F: Fn(Reg) -> bool + Copy> Copy for Unary<F> {

}

impl<F: Fn(Reg) -> bool> Unary<F> {
    #[verifier::type_invariant]
    spec fn total(&self) -> bool {
        forall|a: Reg| call_requires(self.pred, (a,))
    }

    /// The function that is asked.
    pub closed spec fn spec_pred(&self) -> F {
        self.pred
    }

    /// Wraps `pred`, which must accept every argument.
    pub fn new(pred: F) -> (r: Self)
        requires
            forall|a: Reg| call_requires(pred, (a,)),
        ensures
            r.spec_pred() == pred,
    {
        Unary { pred }
    }
}

impl<F: Fn(Reg) -> bool> Activation for Unary<F> {
    open spec fn arity(&self) -> nat {
        1
    }

    open spec fn answers(&self, args: Seq<Reg>, fired: bool) -> bool {
        call_ensures(self.spec_pred(), (args[0],), fired)
    }

    fn signal(&self, args: &[Reg]) -> (r: Result<bool, ActivationError>) {
        proof {
            use_type_invariant(self);
        }
        if args.len() < 1 {
            Err(ActivationError::ArgumentNotEnough)
        } else {
            Ok((self.pred)(args[0]))
        }
    }
}

/// An activation that asks a function of the first two arguments.
pub struct Binary<F: Fn(Reg, Reg) -> bool> {
    pred: F,
}

impl<F: Fn(Reg, Reg) -> bool + Copy> Clone for Binary<F> {
    fn clone(&self) -> (r: Self)
        ensures
            r == *self,
    {
        *self
    }
}

impl<F: Fn(Reg, Reg) -> bool + Copy> Copy for Binary<F> {

}

impl<F: Fn(Reg, Reg) -> bool> Binary<F> {
    #[verifier::type_invariant]
    spec fn total(&self) -> bool {
        forall|a: Reg, b: Reg| call_requires(self.pred, (a, b))
    }

    /// The function that is asked.
    pub closed spec fn spec_pred(&self) -> F {
        self.pred
    }

    /// Wraps `pred`, which must accept every pair of arguments.
    pub fn new(pred: F) -> (r: Self)
        requires
            forall|a: Reg, b: Reg| call_requires(pred, (a, b)),
        ensures
            r.spec_pred() == pred,
    {
        Binary { pred }
    }
}

impl<F: Fn(Reg, Reg) -> bool> Activation for Binary<F> {
    open spec fn arity(&self) -> nat {
        2
    }

    open spec fn answers(&self, args: Seq<Reg>, fired: bool) -> bool {
        call_ensures(self.spec_pred(), (args[0], args[1]), fired)
    }

    fn signal(&self, args: &[Reg]) -> (r: Result<bool, ActivationError>) {
        proof {
            use_type_invariant(self);
        }
        if args.len() < 2 {
            Err(ActivationError::ArgumentNotEnough)
        } else {
            Ok((self.pred)(args[0], args[1]))
        }
    }
}

/// An activation that asks a function of the first three arguments.
pub struct Ternary<F: Fn(Reg, Reg, Reg) -> bool> {
    pred: F,
}

impl<F: Fn(Reg, Reg, Reg) -> bool + Copy> Clone for Ternary<F> {
    fn clone(&self) -> (r: Self)
        ensures
            r == *self,
    {
        *self
    }
}

impl<F: Fn(Reg, Reg, Reg) -> bool + Copy> Copy for Ternary<F> {

}

impl<F: Fn(Reg, Reg, Reg) -> bool> Ternary<F> {
    #[verifier::type_invariant]
    spec fn total(&self) -> bool {
        forall|a: Reg, b: Reg, c: Reg| call_requires(self.pred, (a, b, c))
    }

    /// The function that is asked.
    pub closed spec fn spec_pred(&self) -> F {
        self.pred
    }

    /// Wraps `pred`, which must accept every triple of arguments.
    pub fn new(pred: F) -> (r: Self)
        requires
            forall|a: Reg, b: Reg, c: Reg| call_requires(pred, (a, b, c)),
        ensures
            r.spec_pred() == pred,
    {
        Ternary { pred }
    }
}

impl<F: Fn(Reg, Reg, Reg) -> bool> Activation for Ternary<F> {
    open spec fn arity(&self) -> nat {
        3
    }

    open spec fn answers(&self, args: Seq<Reg>, fired: bool) -> bool {
        call_ensures(self.spec_pred(), (args[0], args[1], args[2]), fired)
    }

    fn signal(&self, args: &[Reg]) -> (r: Result<bool, ActivationError>) {
        proof {
            use_type_invariant(self);
        }
        if args.len() < 3 {
            Err(ActivationError::ArgumentNotEnough)
        } else {
            Ok((self.pred)(args[0], args[1], args[2]))
        }
    }
}

/// An activation that asks a function of the first four arguments.
pub struct Quaternary<F: Fn(Reg, Reg, Reg, Reg) -> bool> {
    pred: F,
}

impl<F: Fn(Reg, Reg, Reg, Reg) -> bool + Copy> Clone for Quaternary<F> {
    fn clone(&self) -> (r: Self)
        ensures
            r == *self,
    {
        *self
    }
}

impl<F: Fn(Reg, Reg, Reg, Reg) -> bool + Copy> Copy for Quaternary<F> {

}

impl<F: Fn(Reg, Reg, Reg, Reg) -> bool> Quaternary<F> {
    #[verifier::type_invariant]
    spec fn total(&self) -> bool {
        forall|a: Reg, b: Reg, c: Reg, d: Reg| call_requires(self.pred, (a, b, c, d))
    }

    /// The function that is asked.
    pub closed spec fn spec_pred(&self) -> F {
        self.pred
    }

    /// Wraps `pred`, which must accept every quadruple of arguments.
    pub fn new(pred: F) -> (r: Self)
        requires
            forall|a: Reg, b: Reg, c: Reg, d: Reg| call_requires(pred, (a, b, c, d)),
        ensures
            r.spec_pred() == pred,
    {
        Quaternary { pred }
    }
}

impl<F: Fn(Reg, Reg, Reg, Reg) -> bool> Activation for Quaternary<F> {
    open spec fn arity(&self) -> nat {
        4
    }

    open spec fn answers(&self, args: Seq<Reg>, fired: bool) -> bool {
        call_ensures(self.spec_pred(), (args[0], args[1], args[2], args[3]), fired)
    }

    fn signal(&self, args: &[Reg]) -> (r: Result<bool, ActivationError>) {
        proof {
            use_type_invariant(self);
        }
        if args.len() < 4 {
            Err(ActivationError::ArgumentNotEnough)
        } else {
            Ok((self.pred)(args[0], args[1], args[2], args[3]))
        }
    }
}

/// What starts a script: the predicate that lets it fire, and what becomes of the syscall at
/// which it fires.
#[derive(Clone)]
pub struct ScriptStarter<A: Activation> {
    pub activation: A,
    pub skip_ctrl: SkipControl,
}

impl<A: Activation> ScriptStarter<A> {
    /// A starter that fires on `activation` and treats the syscall as `skip_ctrl` says.
    pub fn new(activation: A, skip_ctrl: SkipControl) -> (r: Self)
        ensures
            r == (ScriptStarter { activation, skip_ctrl }),
    {
        ScriptStarter { activation, skip_ctrl }
    }
}

/// One step of a script.
#[derive(Clone, Debug, PartialEq, Eq)]
pub enum Instruction {
    /// Run syscall `sysno` in the traced process with the arguments `vals`, and save its
    /// registers and return value under the names of `ctrl`.
    Call { ctrl: CallControl, sysno: Sysno, vals: Vec<Val> },
    /// Grow the heap of the traced process by the size of `blob`, copy `blob` there and bind
    /// the address of the copy to `name`.
    Alloc { blob: Vec<Word>, name: String },
    /// Let the intercepted syscall return `val` and release the traced process.
    Ret { val: Val },
}

/// Why a script could not be built.
#[derive(Clone, Copy, Debug, PartialEq, Eq, Structural)]
pub enum ScriptBuilderError {
    /// No starter was given.
    NoStarter,
    /// No instruction was given.
    NoInstruction,
    /// The last instruction is not a `Ret`.
    LastNotRet,
}

/// Whether a list of instructions may form a script: it is not empty and ends in a `Ret`.
pub open spec fn ends_in_ret(intrs: Seq<Instruction>) -> bool {
    intrs.len() > 0 && intrs.last() is Ret
}

/// What to inject when a hooked syscall is intercepted.
#[derive(Clone)]
pub struct Script<A: Activation> {
    pub starter: ScriptStarter<A>,
    pub fail_ctrl: FailControl,
    pub intrs: Vec<Instruction>,
}

impl<A: Activation> Script<A> {
    /// Whether the script is one that a builder hands out.
    pub open spec fn wf(&self) -> bool {
        ends_in_ret(self.intrs@)
    }

    /// A builder that holds nothing yet.
    pub fn builder() -> (r: ScriptBuilder<A>)
        ensures
            r.spec_head() is None,
            r.spec_intrs() == Seq::<Instruction>::empty(),
    {
        ScriptBuilder { head: None, intrs: Vec::new() }
    }
}

/// Collects the parts of a script, in the order in which they are given.
pub struct ScriptBuilder<A: Activation> {
    head: Option<(ScriptStarter<A>, FailControl)>,
    intrs: Vec<Instruction>,
}

impl<A: Activation> ScriptBuilder<A> {
    /// The starter and the failure policy, once they were given.
    pub closed spec fn spec_head(&self) -> Option<(ScriptStarter<A>, FailControl)> {
        self.head
    }

    /// The instructions given so far.
    pub closed spec fn spec_intrs(&self) -> Seq<Instruction> {
        self.intrs@
    }

    /// Sets the starter and the failure policy; what was set before is replaced.
    pub fn new(&mut self, starter: ScriptStarter<A>, fail_ctrl: FailControl) -> (r: &mut Self)
        ensures
            r.spec_head() == Some((starter, fail_ctrl)),
            r.spec_intrs() == old(self).spec_intrs(),
            *final(self) == *final(r),
    {
        self.head = Some((starter, fail_ctrl));
        self
    }

    /// Appends a `Call` instruction.
    pub fn call(&mut self, ctrl: CallControl, sysno: Sysno, vals: Vec<Val>) -> (r: &mut Self)
        ensures
            r.spec_head() == old(self).spec_head(),
            r.spec_intrs() == old(self).spec_intrs().push(Instruction::Call { ctrl, sysno, vals }),
            *final(self) == *final(r),
    {
        self.intrs.push(Instruction::Call { ctrl, sysno, vals });
        self
    }

    /// Appends an `Alloc` instruction.
    pub fn allocate(&mut self, blob: Vec<Word>, name: String) -> (r: &mut Self)
        ensures
            r.spec_head() == old(self).spec_head(),
            r.spec_intrs() == old(self).spec_intrs().push(Instruction::Alloc { blob, name }),
            *final(self) == *final(r),
    {
        self.intrs.push(Instruction::Alloc { blob, name });
        self
    }

    /// Appends a `Ret` instruction.
    pub fn ret(&mut self, val: Val) -> (r: &mut Self)
        ensures
            r.spec_head() == old(self).spec_head(),
            r.spec_intrs() == old(self).spec_intrs().push(Instruction::Ret { val }),
            *final(self) == *final(r),
    {
        self.intrs.push(Instruction::Ret { val });
        self
    }

    /// What `build` answers for a builder with this head and these instructions: the first
    /// fault found, looking for a missing starter, then for an empty list, then at the last
    /// instruction; `None` where there is no fault.
    pub open spec fn fault(
        head: Option<(ScriptStarter<A>, FailControl)>,
        intrs: Seq<Instruction>,
    ) -> Option<ScriptBuilderError> {
        if head is None {
            Some(ScriptBuilderError::NoStarter)
        } else if intrs.len() == 0 {
            Some(ScriptBuilderError::NoInstruction)
        } else if !(intrs.last() is Ret) {
            Some(ScriptBuilderError::LastNotRet)
        } else {
            None
        }
    }

    /// Hands out the script, or says what is missing: a script needs a starter, at least one
    /// instruction, and a `Ret` as its last instruction.
    pub fn build(self) -> (r: Result<Script<A>, ScriptBuilderError>)
        ensures
            match Self::fault(self.spec_head(), self.spec_intrs()) {
                Some(e) => r == Err::<Script<A>, ScriptBuilderError>(e),
                None => r matches Ok(script) && script.wf() && self.spec_head() == Some(
                    (script.starter, script.fail_ctrl),
                ) && script.intrs@ == self.spec_intrs(),
            },
    {
        match self.head {
            None => Err(ScriptBuilderError::NoStarter),
            Some((starter, fail_ctrl)) => {
                let n = self.intrs.len();
                if n < 1 {
                    Err(ScriptBuilderError::NoInstruction)
                } else {
                    let last_is_ret = match &self.intrs[n - 1] {
                        Instruction::Ret { .. } => true,
                        _ => false,
                    };
                    if last_is_ret {
                        Ok(Script { starter, fail_ctrl, intrs: self.intrs })
                    } else {
                        Err(ScriptBuilderError::LastNotRet)
                    }
                }
            },
        }
    }
}

/// A builder that was given a starter and whose last instruction is a `Ret` builds; a
/// builder without a starter, without instructions, or with another last instruction does
/// not, whatever else it holds.
pub proof fn lemma_build_needs_starter_and_final_ret<A: Activation>(
    head: Option<(ScriptStarter<A>, FailControl)>,
    intrs: Seq<Instruction>,
    val: Val,
)
    ensures
        ScriptBuilder::<A>::fault(head, intrs) is None <==> head is Some && ends_in_ret(intrs),
        ScriptBuilder::<A>::fault(None, intrs) is Some,
        ScriptBuilder::<A>::fault(head, Seq::empty()) is Some,
        head is Some ==> ScriptBuilder::<A>::fault(head, intrs.push(Instruction::Ret { val }))
            is None,
        head is Some ==> ScriptBuilder::<A>::fault(head, seq![Instruction::Ret { val }]) is None,
{
    assert(intrs.push(Instruction::Ret { val }).last() == (Instruction::Ret { val }));
    assert(seq![Instruction::Ret { val }].last() == (Instruction::Ret { val }));
}

} // verus!
