use sysjack::ctrl::{
    Activation, ActivationError, Binary, CallControl, FailControl, Instruction, Quaternary,
    Script, ScriptBuilderError, ScriptStarter, SkipControl, Ternary, Unary, Val,
};
use sysjack::store::{NamedStore, Unbound};

fn skip() -> SkipControl {
    SkipControl::Skip { regs_enter_name: "enter".to_owned() }
}

fn names(prefix: &str) -> CallControl {
    CallControl::new(
        format!("{}_regs_enter", prefix),
        format!("{}_regs_exit", prefix),
        format!("{}_ret", prefix),
    )
}

#[test]
fn call_control_keeps_its_three_names() {
    let ctrl = names("socket");
    assert_eq!(ctrl.regs_enter_name, "socket_regs_enter");
    assert_eq!(ctrl.regs_exit_name, "socket_regs_exit");
    assert_eq!(ctrl.ret_name, "socket_ret");
}

#[test]
fn unary_needs_one_argument() {
    let act = Unary::new(|a: u64| a == 7);
    assert_eq!(act.signal(&[]), Err(ActivationError::ArgumentNotEnough));
    assert_eq!(act.signal(&[7]), Ok(true));
    assert_eq!(act.signal(&[8]), Ok(false));
    assert_eq!(act.signal(&[7, 1, 2, 3, 4, 5]), Ok(true));
    assert_eq!(act.signal(&[8, 7, 7, 7, 7, 7]), Ok(false));
}

#[test]
fn binary_needs_two_arguments() {
    let act = Binary::new(|a: u64, b: u64| a + 1 == b);
    assert_eq!(act.signal(&[]), Err(ActivationError::ArgumentNotEnough));
    assert_eq!(act.signal(&[1]), Err(ActivationError::ArgumentNotEnough));
    assert_eq!(act.signal(&[1, 2]), Ok(true));
    assert_eq!(act.signal(&[2, 1]), Ok(false));
    assert_eq!(act.signal(&[1, 2, 9, 9]), Ok(true));
}

#[test]
fn ternary_needs_three_arguments() {
    let act = Ternary::new(|a: u64, b: u64, c: u64| a == 1 && b == 2 && c == 3);
    assert_eq!(act.signal(&[1, 2]), Err(ActivationError::ArgumentNotEnough));
    assert_eq!(act.signal(&[1, 2, 3]), Ok(true));
    assert_eq!(act.signal(&[1, 2, 4]), Ok(false));
    assert_eq!(act.signal(&[1, 2, 3, 4, 5, 6]), Ok(true));
}

#[test]
fn quaternary_needs_four_arguments() {
    let act = Quaternary::new(|a: u64, b: u64, c: u64, d: u64| a + b + c == d);
    assert_eq!(act.signal(&[1, 2, 3]), Err(ActivationError::ArgumentNotEnough));
    assert_eq!(act.signal(&[1, 2, 3, 6]), Ok(true));
    assert_eq!(act.signal(&[1, 2, 3, 7]), Ok(false));
    assert_eq!(act.signal(&[1, 2, 3, 6, 0, 0]), Ok(true));
}

#[test]
fn an_activation_sees_its_arguments_in_order() {
    let act = Quaternary::new(|a: u64, b: u64, c: u64, d: u64| {
        a == 10 && b == 20 && c == 30 && d == 40
    });
    assert_eq!(act.signal(&[10, 20, 30, 40, 50, 60]), Ok(true));
    assert_eq!(act.signal(&[40, 30, 20, 10, 50, 60]), Ok(false));
}

#[test]
fn a_raw_value_resolves_to_itself() {
    let store: NamedStore<u64> = NamedStore::new();
    assert_eq!(Val::Raw(0).resolve(&store), Ok(0));
    assert_eq!(Val::Raw(u64::MAX).resolve(&store), Ok(u64::MAX));
}

#[test]
fn a_name_resolves_to_its_last_binding() {
    let mut store: NamedStore<u64> = NamedStore::new();
    store.bind("fd".to_owned(), 3);
    assert_eq!(Val::Var("fd".to_owned()).resolve(&store), Ok(3));
    store.bind("other".to_owned(), 9);
    store.bind("fd".to_owned(), 4);
    assert_eq!(Val::Var("fd".to_owned()).resolve(&store), Ok(4));
    assert_eq!(Val::Var("other".to_owned()).resolve(&store), Ok(9));
}

#[test]
fn an_unbound_name_does_not_resolve() {
    let mut store: NamedStore<u64> = NamedStore::new();
    assert_eq!(
        Val::Var("fd".to_owned()).resolve(&store),
        Err(Unbound { name: "fd".to_owned() })
    );
    store.bind("socket_ret".to_owned(), 3);
    assert_eq!(
        Val::Var("SocketRet".to_owned()).resolve(&store),
        Err(Unbound { name: "SocketRet".to_owned() })
    );
}

#[test]
fn a_builder_without_starter_does_not_build() {
    let mut builder = Script::<Unary<fn(u64) -> bool>>::builder();
    builder.ret(Val::Raw(0));
    assert_eq!(builder.build().err(), Some(ScriptBuilderError::NoStarter));
    let empty = Script::<Unary<fn(u64) -> bool>>::builder();
    assert_eq!(empty.build().err(), Some(ScriptBuilderError::NoStarter));
}

#[test]
fn a_builder_without_instruction_does_not_build() {
    let mut builder = Script::builder();
    builder.new(ScriptStarter::new(Unary::new(|a: u64| a == 0), skip()), FailControl::Default);
    assert_eq!(builder.build().err(), Some(ScriptBuilderError::NoInstruction));
}

#[test]
fn a_script_that_ends_in_a_call_does_not_build() {
    let mut builder = Script::builder();
    builder
        .new(ScriptStarter::new(Unary::new(|a: u64| a == 0), skip()), FailControl::Default)
        .ret(Val::Raw(0))
        .call(names("socket"), 41, vec![Val::Raw(1)]);
    assert_eq!(builder.build().err(), Some(ScriptBuilderError::LastNotRet));
}

#[test]
fn a_script_that_ends_in_an_alloc_does_not_build() {
    let mut builder = Script::builder();
    builder
        .new(ScriptStarter::new(Unary::new(|a: u64| a == 0), skip()), FailControl::Default)
        .allocate(vec![1, 2], "blob".to_owned());
    assert_eq!(builder.build().err(), Some(ScriptBuilderError::LastNotRet));
}

#[test]
fn a_starter_and_one_ret_build() {
    let mut builder = Script::builder();
    builder
        .new(ScriptStarter::new(Unary::new(|a: u64| a == 0), skip()), FailControl::Fallback)
        .ret(Val::Raw(5));
    let script = builder.build().ok().expect("a minimal script builds");
    assert_eq!(script.fail_ctrl, FailControl::Fallback);
    assert_eq!(script.starter.skip_ctrl, skip());
    assert_eq!(script.intrs, vec![Instruction::Ret { val: Val::Raw(5) }]);
    assert_eq!(script.starter.activation.signal(&[0]), Ok(true));
}

#[test]
fn a_script_keeps_its_instructions_in_order() {
    let mut builder = Script::builder();
    builder
        .new(ScriptStarter::new(Binary::new(|a: u64, b: u64| a == b), skip()), FailControl::Default)
        .call(names("socket"), 41, vec![Val::Raw(1), Val::Raw(1), Val::Raw(0)])
        .allocate(vec![7, 8], "addr".to_owned())
        .call(names("connect"), 42, vec![Val::Var("socket_ret".to_owned())])
        .ret(Val::Var("connect_ret".to_owned()));
    let script = builder.build().ok().expect("the script ends in a ret");
    assert_eq!(
        script.intrs,
        vec![
            Instruction::Call {
                ctrl: names("socket"),
                sysno: 41,
                vals: vec![Val::Raw(1), Val::Raw(1), Val::Raw(0)],
            },
            Instruction::Alloc { blob: vec![7, 8], name: "addr".to_owned() },
            Instruction::Call {
                ctrl: names("connect"),
                sysno: 42,
                vals: vec![Val::Var("socket_ret".to_owned())],
            },
            Instruction::Ret { val: Val::Var("connect_ret".to_owned()) },
        ]
    );
}

#[test]
fn a_later_starter_replaces_an_earlier_one() {
    let zero = |a: u64| a == 0;
    let mut builder = Script::builder();
    builder.new(ScriptStarter::new(Unary::new(zero), skip()), FailControl::Default).ret(Val::Raw(1));
    let keep = SkipControl::Keep {
        regs_enter_name: "e".to_owned(),
        regs_exit_name: "x".to_owned(),
        ret_name: "r".to_owned(),
    };
    builder.new(ScriptStarter::new(Unary::new(zero), keep.clone()), FailControl::Fallback);
    let script = builder.build().ok().expect("the script ends in a ret");
    assert_eq!(script.starter.skip_ctrl, keep);
    assert_eq!(script.fail_ctrl, FailControl::Fallback);
}
