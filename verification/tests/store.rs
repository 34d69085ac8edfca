use sieve::compiler::grammar::Capability;
use sieve::runtime::machine::{Begin, Instruction, RunState, Step};
use sieve::runtime::store::{VarStore, VarTarget};
use sieve::runtime::variable::Variable;

fn text(s: &str) -> Variable {
    Variable::String(s.to_string())
}

#[test]
fn set_global_then_read_gives_the_value() {
    let mut v = VarStore::new();
    assert_eq!(v.global("a"), None);
    v.set(VarTarget::Global("a".to_string()), text("one"));
    v.set(VarTarget::Global("b".to_string()), Variable::Integer(2));
    assert_eq!(v.global("a"), Some(&text("one")));
    v.set(VarTarget::Global("a".to_string()), text("two"));
    assert_eq!(v.global("a"), Some(&text("two")));
    assert_eq!(v.global("b"), Some(&Variable::Integer(2)));
    assert_eq!(v.global.len(), 2);
    assert_eq!(v.global("A"), None);
}

#[test]
fn locals_are_numbered_from_the_frame() {
    let mut v = VarStore::new();
    assert_eq!(v.push_frame(2), 0);
    v.set(VarTarget::Local(1), text("x"));
    assert_eq!(v.local(0), Some(&text("")));
    assert_eq!(v.local(1), Some(&text("x")));
    // A frame without the variable leaves everything as it was.
    v.set(VarTarget::Local(5), text("y"));
    assert_eq!(v.local(5), None);
    assert_eq!(v.local.len(), 2);
    // An included script has its own locals.
    let prev = v.push_frame(1);
    assert_eq!(prev, 0);
    assert_eq!(v.local_base, 2);
    v.set(VarTarget::Local(0), text("inner"));
    assert_eq!(v.local(0), Some(&text("inner")));
    assert_eq!(v.local(1), None);
    v.pop_frame(prev);
    assert_eq!(v.local.len(), 2);
    assert_eq!(v.local(1), Some(&text("x")));
}

#[test]
fn set_steps_write_the_variables() {
    let mut s = RunState::new(10, vec![Capability::FileInto]);
    assert_eq!(s.begin(), Ok(Begin::Run));
    let step = s.exec_step(Instruction::SetVariable {
        target: VarTarget::Global("subject".to_string()),
        value: text("hello"),
    });
    assert_eq!(step, Ok(Step::Continue));
    assert_eq!(s.pos, 1);
    assert_eq!(s.vars.global("subject"), Some(&text("hello")));
    assert_eq!(s.disposition.final_action, sieve::runtime::machine::RunState::new(10, vec![]).disposition.final_action);
}
