use sieve::compiler::grammar::Capability;
use sieve::runtime::disposition::FinalAction;
use sieve::runtime::handler::Input;
use sieve::runtime::machine::{Begin, Instruction, PendingState, RunState, Step};
use sieve::runtime::RuntimeError;

fn started(limit: u64) -> RunState {
    let mut s = RunState::new(limit, vec![Capability::FileInto]);
    assert_eq!(s.begin(), Ok(Begin::Run));
    s
}

#[test]
fn jumps_follow_the_last_test() {
    let mut s = started(100);
    assert_eq!(s.exec_step(Instruction::TestFalse), Ok(Step::Continue));
    assert_eq!(s.exec_step(Instruction::Jz(7)), Ok(Step::Continue));
    assert_eq!(s.pos, 7);
    assert_eq!(s.exec_step(Instruction::Jnz(2)), Ok(Step::Continue));
    assert_eq!(s.pos, 8);
    assert_eq!(s.exec_step(Instruction::TestTrue), Ok(Step::Continue));
    assert_eq!(s.exec_step(Instruction::Jnz(2)), Ok(Step::Continue));
    assert_eq!(s.pos, 2);
    assert_eq!(s.exec_step(Instruction::Jmp(40)), Ok(Step::Continue));
    assert_eq!(s.pos, 40);
    assert_eq!(s.num_instructions, 6);
}

#[test]
fn cpu_limit_aborts_and_keeps() {
    let mut s = started(2);
    s.exec_step(Instruction::Discard).unwrap();
    s.exec_step(Instruction::Command).unwrap();
    assert_eq!(s.exec_step(Instruction::Command), Err(RuntimeError::CPULimitReached));
    assert_eq!(s.pending, PendingState::Aborted);
    assert_eq!(s.disposition.final_action, Some(FinalAction::Keep { flags: vec![], message_id: 0 }));
}

#[test]
fn require_checks_capabilities() {
    let mut s = started(100);
    assert_eq!(s.exec_step(Instruction::Require(vec![Capability::FileInto])), Ok(Step::Continue));
    assert_eq!(
        s.exec_step(Instruction::Require(vec![Capability::FileInto, Capability::Envelope])),
        Err(RuntimeError::CapabilityNotAllowed(Capability::Envelope))
    );
    let mut t = started(100);
    assert_eq!(
        t.exec_step(Instruction::Require(vec![Capability::Other("x-y".to_string())])),
        Err(RuntimeError::CapabilityNotSupported("x-y".to_string()))
    );
}

#[test]
fn host_answers_tests() {
    let mut s = started(100);
    assert_eq!(s.exec_step(Instruction::TestHost { is_not: true }), Ok(Step::Pending));
    assert_eq!(s.begin(), Err(RuntimeError::AwaitingInput));
    s.resume(&Input::Bool(false));
    assert_eq!(s.pending, PendingState::Running);
    assert!(s.test_result);
    s.exec_step(Instruction::TestHost { is_not: false }).unwrap();
    s.resume(&Input::Continue);
    assert!(!s.test_result);
}

#[test]
fn fileinto_cancels_keep_and_stop_finishes() {
    let mut s = started(100);
    assert_eq!(s.exec_step(Instruction::FileInto { copy: false }), Ok(Step::Perform));
    assert_eq!(s.disposition.final_action, None);
    assert_eq!(s.exec_step(Instruction::Stop), Ok(Step::Finish));
    assert_eq!(s.depth, 0);
    let mut r = started(100);
    r.exec_step(Instruction::Reject).unwrap();
    assert_eq!(r.exec_step(Instruction::Error("bad".to_string())), Err(RuntimeError::ScriptErrorMessage("bad".to_string())));
    assert_eq!(r.disposition.final_action, None);
}

#[test]
fn refused_redirect_keeps_the_message() {
    let mut s = started(100);
    assert_eq!(s.exec_step(Instruction::Redirect { copy: false, goes_out: false }), Ok(Step::Continue));
    assert_eq!(s.disposition.final_action, Some(FinalAction::Keep { flags: vec![], message_id: 0 }));
    assert_eq!(s.pos, 1);
    assert_eq!(s.exec_step(Instruction::Redirect { copy: false, goes_out: true }), Ok(Step::Perform));
    assert_eq!(s.disposition.final_action, None);
    assert_eq!(
        sieve::runtime::machine::redirect_instruction(&None, false),
        Instruction::Redirect { copy: false, goes_out: false }
    );
}

#[test]
fn instruction_count_stops_one_past_the_limit() {
    let mut s = started(1);
    assert_eq!(s.exec_step(Instruction::Command), Ok(Step::Perform));
    assert_eq!(s.num_instructions, 1);
    assert_eq!(s.exec_step(Instruction::Command), Err(RuntimeError::CPULimitReached));
    assert_eq!(s.num_instructions, 2);
    assert_eq!(s.begin(), Ok(Begin::FinishAborted));
    let mut z = started(0);
    assert_eq!(z.exec_step(Instruction::Keep(vec![])), Err(RuntimeError::CPULimitReached));
}
