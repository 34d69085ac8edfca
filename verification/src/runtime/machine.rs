//! The interpreter's state machine: one step per instruction of the
//! compiled script, with the CPU limit, the capability check of `require`,
//! tests whose answer the host gives, jumps, and the final action. What an
//! action command does to the message is done by the functions of the
//! actions; the host runs the loop, fetches each instruction, carries out
//! the steps that ask for it, and hands back its answers.

use crate::compiler::grammar::{Capability, CapabilityView, Comparator};
use crate::runtime::disposition::{
    after_discard, after_fileinto, after_keep, after_redirect, after_reject, is_keep, Disposition,
};
use crate::runtime::handler::Input;
use crate::runtime::store::{set_ok, VarStore, VarTarget};
use crate::runtime::variable::Variable;
use crate::runtime::RuntimeError;
use vstd::prelude::*;

verus! {

/// Where a run stands: not started, running, waiting for the host's answer
/// to a test, finished, or aborted.
#[derive(Debug, Clone, Copy, PartialEq, Eq, Structural)]
pub enum PendingState {
    Idle,
    Running,
    Test { is_not: bool },
    Finished,
    Aborted,
}

/// An instruction of a compiled script, as the state machine reads it.
#[derive(Debug, PartialEq, Eq)]
pub enum Instruction {
    /// Jump when the last test failed.
    Jz(usize),
    /// Jump when the last test succeeded.
    Jnz(usize),
    Jmp(usize),
    Discard,
    Stop,
    /// The end of an included script.
    Return,
    TestTrue,
    TestFalse,
    /// A test whose answer the host gives (negated when `is_not`).
    TestHost { is_not: bool },
    Require(Vec<Capability>),
    Error(String),
    Invalid { name: String, line_num: u32, line_pos: u32 },
    Keep(Vec<String>),
    FileInto { copy: bool },
    /// A redirect: `goes_out` when `plan_redirect` lets it go out (a
    /// refused redirect changes nothing).
    Redirect { copy: bool, goes_out: bool },
    Reject,
    /// `set` (and `let`): writes the value the host computed for it.
    SetVariable { target: VarTarget, value: Variable },
    /// Any other command: the host carries it out with the functions of the
    /// actions.
    Command,
}

/// What the host does after a step.
#[derive(Debug, Clone, Copy, PartialEq, Eq, Structural)]
pub enum Step {
    /// Fetch the instruction at the new position.
    Continue,
    /// The script stopped: hand over the final action.
    Finish,
    /// The included script ended: go back to the one that included it.
    PopFrame,
    /// Wait for the host's answer, then resume.
    Pending,
    /// Carry out the command, then continue.
    Perform,
}

/// What the host does when a run is asked to go on.
#[derive(Debug, Clone, Copy, PartialEq, Eq, Structural)]
pub enum Begin {
    Run,
    Finished,
    FinishAborted,
}

/// The state of a run.
pub struct RunState {
    pub pending: PendingState,
    pub pos: usize,
    pub depth: usize,
    pub test_result: bool,
    pub num_instructions: u64,
    pub cpu_limit: u64,
    pub disposition: Disposition,
    pub allowed: Vec<Capability>,
    pub vars: VarStore,
}

/// Whether the host allows a capability.
pub open spec fn allows(allowed: Seq<Capability>, c: CapabilityView) -> bool {
    exists|i: int| 0 <= i < allowed.len() && #[trigger] allowed[i]@ == c
}

/// The first of `caps` the host does not allow.
pub open spec fn first_refused(allowed: Seq<Capability>, caps: Seq<Capability>) -> Option<int>
    decreases caps.len(),
{
    if caps.len() == 0 {
        None
    } else {
        match first_refused(allowed, caps.drop_last()) {
            Some(k) => Some(k),
            None => if !allows(allowed, caps.last()@) {
                Some(caps.len() - 1)
            } else {
                None
            },
        }
    }
}

/// The error `require` gives for a capability the host does not allow.
pub open spec fn refusal(c: Capability) -> RuntimeError {
    match c {
        Capability::Other(n) => RuntimeError::CapabilityNotSupported(n),
        _ => RuntimeError::CapabilityNotAllowed(c),
    }
}

/// Whether `t` is `s` aborted: no frames left, the run marked aborted,
/// and the message kept as it came unless it was rejected or the run
/// aborted before (see `Disposition::abort`).
pub open spec fn aborted(s: RunState, t: RunState) -> bool {
    &&& t.pending == PendingState::Aborted
    &&& t.depth == 0
    &&& t.pos == s.pos
    &&& t.test_result == s.test_result
    &&& t.num_instructions == s.num_instructions
    &&& t.cpu_limit == s.cpu_limit
    &&& t.allowed == s.allowed
    &&& t.vars == s.vars
    &&& t.disposition.aborted
    &&& t.disposition.rejected == s.disposition.rejected
    &&& t.disposition.has_changes == s.disposition.has_changes
    &&& t.disposition.flags == s.disposition.flags
    &&& t.disposition.last_message_id == s.disposition.last_message_id
    &&& t.disposition.main_message_id == s.disposition.main_message_id
    &&& t.disposition.num_out_messages == s.disposition.num_out_messages
    &&& if !s.disposition.aborted && !s.disposition.rejected {
        is_keep(t.disposition.final_action, seq![], 0)
    } else {
        t.disposition.final_action == s.disposition.final_action
    }
}

/// One step of a running script on the instruction `op`: the instruction
/// count goes up, and past the CPU limit the run aborts; otherwise jumps
/// follow the last test, tests set it (or wait for the host), `require`
/// aborts on the first capability the host does not allow, `error` and an
/// invalid instruction abort, `stop` finishes, the disposition commands
/// change the final action, and any other command goes to the host.
pub open spec fn step_ok(s: RunState, op: Instruction, t: RunState, r: Result<Step, RuntimeError>) -> bool {
    let n = (s.num_instructions + 1) as u64;
    let c = RunState { num_instructions: n, ..s };
    let next = RunState { pos: (s.pos + 1) as usize, ..c };
    if s.num_instructions + 1 > s.cpu_limit {
        aborted(c, t) && r == Err::<Step, RuntimeError>(RuntimeError::CPULimitReached)
    } else {
        match op {
            Instruction::Jz(target) => r == Ok::<Step, RuntimeError>(Step::Continue) && t == RunState {
                pos: if !s.test_result {
                    target
                } else {
                    (s.pos + 1) as usize
                },
                ..c
            },
            Instruction::Jnz(target) => r == Ok::<Step, RuntimeError>(Step::Continue) && t == RunState {
                pos: if s.test_result {
                    target
                } else {
                    (s.pos + 1) as usize
                },
                ..c
            },
            Instruction::Jmp(target) => r == Ok::<Step, RuntimeError>(Step::Continue) && t == RunState {
                pos: target,
                ..c
            },
            Instruction::Discard => r == Ok::<Step, RuntimeError>(Step::Continue) && t == RunState {
                disposition: after_discard(s.disposition),
                ..next
            },
            Instruction::Stop => r == Ok::<Step, RuntimeError>(Step::Finish) && t == RunState { depth: 0, ..next },
            Instruction::Return => r == Ok::<Step, RuntimeError>(Step::PopFrame) && t == next,
            Instruction::TestTrue => r == Ok::<Step, RuntimeError>(Step::Continue) && t == RunState {
                test_result: true,
                ..next
            },
            Instruction::TestFalse => r == Ok::<Step, RuntimeError>(Step::Continue) && t == RunState {
                test_result: false,
                ..next
            },
            Instruction::TestHost { is_not } => r == Ok::<Step, RuntimeError>(Step::Pending) && t == RunState {
                pending: PendingState::Test { is_not },
                ..next
            },
            Instruction::Require(caps) => match first_refused(s.allowed@, caps@) {
                Some(k) => aborted(next, t) && r == Err::<Step, RuntimeError>(refusal(caps@[k])),
                None => r == Ok::<Step, RuntimeError>(Step::Continue) && t == next,
            },
            Instruction::Error(m) => aborted(next, t) && r == Err::<Step, RuntimeError>(
                RuntimeError::ScriptErrorMessage(m),
            ),
            Instruction::Invalid { name, line_num, line_pos } => aborted(c, t) && r == Err::<Step, RuntimeError>(
                RuntimeError::InvalidInstruction { name, line_num, line_pos },
            ),
            Instruction::Keep(flags) => r == Ok::<Step, RuntimeError>(Step::Perform) && t == RunState {
                disposition: after_keep(s.disposition, flags),
                ..next
            },
            Instruction::FileInto { copy } => r == Ok::<Step, RuntimeError>(Step::Perform) && t == RunState {
                disposition: after_fileinto(s.disposition, copy),
                ..next
            },
            Instruction::Redirect { copy, goes_out } => if goes_out {
                r == Ok::<Step, RuntimeError>(Step::Perform) && t == RunState {
                    disposition: after_redirect(s.disposition, copy),
                    ..next
                }
            } else {
                r == Ok::<Step, RuntimeError>(Step::Continue) && t == next
            },
            Instruction::Reject => r == Ok::<Step, RuntimeError>(Step::Perform) && t == RunState {
                disposition: after_reject(s.disposition),
                ..next
            },
            Instruction::SetVariable { target, value } => r == Ok::<Step, RuntimeError>(Step::Continue) && set_ok(
                s.vars,
                target,
                value@,
                t.vars,
            ) && t == RunState { vars: t.vars, ..next },
            Instruction::Command => r == Ok::<Step, RuntimeError>(Step::Perform) && t == next,
        }
    }
}

/// A step that goes on never goes past the CPU limit, and every step
/// counts one instruction.
pub proof fn lemma_cpu_limit(s: RunState, op: Instruction, t: RunState, r: Result<Step, RuntimeError>)
    requires
        s.num_instructions < u64::MAX,
        step_ok(s, op, t, r),
    ensures
        t.num_instructions == s.num_instructions + 1,
        r is Ok ==> t.num_instructions <= s.cpu_limit,
{
}

/// A step that fails leaves the run aborted, and the message kept with no
/// flags unless it was rejected or the run aborted before: an error never
/// loses the message.
pub proof fn lemma_error_keeps(s: RunState, op: Instruction, t: RunState, r: Result<Step, RuntimeError>)
    requires
        step_ok(s, op, t, r),
        r is Err,
    ensures
        t.pending == PendingState::Aborted,
        !s.disposition.aborted && !s.disposition.rejected ==> is_keep(t.disposition.final_action, seq![], 0),
{
}

/// The redirect instruction for a redirect that `plan_redirect` planned:
/// it goes out exactly when the plan let it.
pub fn redirect_instruction(plan: &Option<crate::runtime::actions::action_redirect::RedirectPlan>, copy: bool) -> (r: Instruction)
    ensures
        r == (Instruction::Redirect { copy, goes_out: plan is Some }),
{
    Instruction::Redirect { copy, goes_out: plan.is_some() }
}

/// A refused redirect leaves the final action and the message numbers as
/// they were.
pub proof fn lemma_refused_redirect_keeps(s: RunState, copy: bool, t: RunState, r: Result<Step, RuntimeError>)
    requires
        step_ok(s, Instruction::Redirect { copy, goes_out: false }, t, r),
        s.num_instructions + 1 <= s.cpu_limit,
    ensures
        t.disposition == s.disposition,
        r == Ok::<Step, RuntimeError>(Step::Continue),
{
}

/// The instruction count of a run: never more than one past the CPU
/// limit, and past it only once the run aborted.
pub open spec fn count_ok(s: RunState) -> bool {
    &&& s.num_instructions <= s.cpu_limit + 1
    &&& s.pending != PendingState::Aborted ==> s.num_instructions <= s.cpu_limit
}

/// Every step keeps the instruction count within the CPU limit and one;
/// a step fails with `CPULimitReached` exactly when it takes the count past
/// the limit.
pub proof fn lemma_step_count(s: RunState, op: Instruction, t: RunState, r: Result<Step, RuntimeError>)
    requires
        count_ok(s),
        s.cpu_limit < u64::MAX,
        s.pending == PendingState::Running,
        step_ok(s, op, t, r),
    ensures
        count_ok(t),
        (r == Err::<Step, RuntimeError>(RuntimeError::CPULimitReached)) <==> t.num_instructions == s.cpu_limit + 1,
{
}

/// Whether two capabilities are the same.
fn same_capability(a: &Capability, b: &Capability) -> (r: bool)
    ensures
        r == (a@ == b@),
{
    match (a, b) {
        (Capability::Envelope, Capability::Envelope) => true,
        (Capability::FileInto, Capability::FileInto) => true,
        (Capability::EncodedCharacter, Capability::EncodedCharacter) => true,
        (Capability::Comparator(x), Capability::Comparator(y)) => match (x, y) {
            (Comparator::Elbonia, Comparator::Elbonia) => true,
            (Comparator::Octet, Comparator::Octet) => true,
            (Comparator::AsciiCaseMap, Comparator::AsciiCaseMap) => true,
            (Comparator::AsciiNumeric, Comparator::AsciiNumeric) => true,
            (Comparator::Other(p), Comparator::Other(q)) => crate::text::str_eq(p.as_str(), q.as_str()),
            _ => false,
        },
        (Capability::Other(p), Capability::Other(q)) => crate::text::str_eq(p.as_str(), q.as_str()),
        _ => false,
    }
}

/// Whether the host allows `c` (see `allows`).
fn is_allowed(allowed: &Vec<Capability>, c: &Capability) -> (r: bool)
    ensures
        r == allows(allowed@, c@),
{
    let mut i: usize = 0;
    while i < allowed.len()
        invariant
            i <= allowed@.len(),
            forall|j: int| 0 <= j < i ==> #[trigger] allowed@[j]@ != c@,
        decreases allowed@.len() - i,
    {
        if same_capability(&allowed[i], c) {
            return true;
        }
        i += 1;
    }
    false
}

/// The first capability the host does not allow (see `first_refused`).
fn find_refused(allowed: &Vec<Capability>, caps: &Vec<Capability>) -> (r: Option<usize>)
    ensures
        match r {
            Some(k) => first_refused(allowed@, caps@) == Some(k as int) && k < caps@.len(),
            None => first_refused(allowed@, caps@) is None,
        },
{
    let mut i: usize = 0;
    while i < caps.len()
        invariant
            i <= caps@.len(),
            first_refused(allowed@, caps@.take(i as int)) is None,
        decreases caps@.len() - i,
    {
        assert(caps@.take(i + 1).drop_last() =~= caps@.take(i as int));
        assert(caps@.take(i + 1).last() == caps@[i as int]);
        if !is_allowed(allowed, &caps[i]) {
            proof {
                lemma_refused_extends(allowed@, caps@, i + 1);
            }
            return Some(i);
        }
        i += 1;
    }
    assert(caps@.take(i as int) =~= caps@);
    None
}

proof fn lemma_refused_extends(allowed: Seq<Capability>, caps: Seq<Capability>, n: int)
    requires
        0 <= n <= caps.len(),
        first_refused(allowed, caps.take(n)) is Some,
    ensures
        first_refused(allowed, caps) == first_refused(allowed, caps.take(n)),
    decreases caps.len(),
{
    if n < caps.len() {
        assert(caps.drop_last().take(n) =~= caps.take(n));
        lemma_refused_extends(allowed, caps.drop_last(), n);
    } else {
        assert(caps.take(n) =~= caps);
    }
}

impl RunState {
    /// A run not started yet, with the CPU limit and the capabilities the
    /// host allows.
    pub fn new(cpu_limit: u64, allowed: Vec<Capability>) -> (r: RunState)
        ensures
            r.pending == PendingState::Idle,
            r.pos == 0,
            r.depth == 0,
            !r.test_result,
            r.num_instructions == 0,
            r.cpu_limit == cpu_limit,
            count_ok(r),
            r.allowed == allowed,
            r.vars.local@.len() == 0,
            r.vars.local_base == 0,
            crate::runtime::store::globals_map(r.vars.global@) == Map::<Seq<char>, crate::runtime::variable::VariableView>::empty(),
            is_keep(r.disposition.final_action, seq![], 0),
            !r.disposition.has_changes && !r.disposition.rejected && !r.disposition.aborted,
    {
        RunState {
            pending: PendingState::Idle,
            pos: 0,
            depth: 0,
            test_result: false,
            num_instructions: 0,
            cpu_limit,
            disposition: Disposition::new(),
            allowed,
            vars: VarStore::new(),
        }
    }

    /// Aborts the run (see `aborted`).
    pub fn abort(&mut self)
        ensures
            aborted(*old(self), *final(self)),
            count_ok(*old(self)) ==> count_ok(*final(self)),
    {
        self.disposition.abort();
        self.depth = 0;
        self.pending = PendingState::Aborted;
    }

    /// What a run asked to go on does first: a run not started starts its
    /// script; a finished one stays finished; an aborted one hands over its
    /// final action; a running one goes on; one that waits for an answer
    /// is an error.
    pub fn begin(&mut self) -> (r: Result<Begin, RuntimeError>)
        ensures
            count_ok(*old(self)) ==> count_ok(*final(self)),
            match old(self).pending {
                PendingState::Idle => r == Ok::<Begin, RuntimeError>(Begin::Run) && *final(self) == RunState {
                    pending: PendingState::Running,
                    depth: if old(self).depth < usize::MAX {
                        (old(self).depth + 1) as usize
                    } else {
                        old(self).depth
                    },
                    pos: 0,
                    test_result: false,
                    ..*old(self)
                },
                PendingState::Finished => r == Ok::<Begin, RuntimeError>(Begin::Finished) && *final(self) == *old(self),
                PendingState::Aborted => r == Ok::<Begin, RuntimeError>(Begin::FinishAborted) && *final(self) == *old(self),
                PendingState::Running => r == Ok::<Begin, RuntimeError>(Begin::Run) && *final(self) == *old(self),
                PendingState::Test { .. } => r == Err::<Begin, RuntimeError>(RuntimeError::AwaitingInput) && *final(self)
                    == *old(self),
            },
    {
        match self.pending {
            PendingState::Idle => {
                self.pending = PendingState::Running;
                self.depth = if self.depth < usize::MAX { self.depth + 1 } else { self.depth };
                self.pos = 0;
                self.test_result = false;
                Ok(Begin::Run)
            },
            PendingState::Finished => Ok(Begin::Finished),
            PendingState::Aborted => Ok(Begin::FinishAborted),
            PendingState::Running => Ok(Begin::Run),
            PendingState::Test { .. } => Err(RuntimeError::AwaitingInput),
        }
    }

    /// The host's answer to the test the run waits for: the test holds when
    /// the answer is `true`, negated when the test asked so; the run goes
    /// on. Any other state takes no answer.
    pub fn resume(&mut self, input: &Input)
        ensures
            count_ok(*old(self)) ==> count_ok(*final(self)),
            match old(self).pending {
                PendingState::Test { is_not } => *final(self) == RunState {
                    pending: PendingState::Running,
                    test_result: (*input == Input::Bool(true)) != is_not,
                    ..*old(self)
                },
                PendingState::Running => *final(self) == *old(self),
                _ => *final(self) == *old(self),
            },
    {
        match self.pending {
            PendingState::Test { is_not } => {
                let yes = match input {
                    Input::Bool(b) => *b,
                    _ => false,
                };
                self.test_result = yes != is_not;
                self.pending = PendingState::Running;
            },
            _ => {},
        }
    }

    /// One step of the running script on the instruction `op` (see
    /// `step_ok`).
    pub fn exec_step(&mut self, op: Instruction) -> (r: Result<Step, RuntimeError>)
        requires
            old(self).pending == PendingState::Running,
            old(self).pos < usize::MAX,
            old(self).num_instructions < u64::MAX,
            old(self).disposition.has_changes ==> old(self).disposition.last_message_id < usize::MAX,
        ensures
            step_ok(*old(self), op, *final(self), r),
            count_ok(*old(self)) ==> count_ok(*final(self)),
    {
        if self.num_instructions >= self.cpu_limit {
            self.num_instructions = self.num_instructions + 1;
            self.abort();
            return Err(RuntimeError::CPULimitReached);
        }
        self.num_instructions = self.num_instructions + 1;
        let next: usize = self.pos + 1;
        match op {
            Instruction::Jz(target) => {
                self.pos = if !self.test_result { target } else { next };
                Ok(Step::Continue)
            },
            Instruction::Jnz(target) => {
                self.pos = if self.test_result { target } else { next };
                Ok(Step::Continue)
            },
            Instruction::Jmp(target) => {
                self.pos = target;
                Ok(Step::Continue)
            },
            Instruction::Discard => {
                self.pos = next;
                self.disposition.discard();
                Ok(Step::Continue)
            },
            Instruction::Stop => {
                self.pos = next;
                self.depth = 0;
                Ok(Step::Finish)
            },
            Instruction::Return => {
                self.pos = next;
                Ok(Step::PopFrame)
            },
            Instruction::TestTrue => {
                self.pos = next;
                self.test_result = true;
                Ok(Step::Continue)
            },
            Instruction::TestFalse => {
                self.pos = next;
                self.test_result = false;
                Ok(Step::Continue)
            },
            Instruction::TestHost { is_not } => {
                self.pos = next;
                self.pending = PendingState::Test { is_not };
                Ok(Step::Pending)
            },
            Instruction::Require(caps) => {
                self.pos = next;
                match find_refused(&self.allowed, &caps) {
                    Some(k) => {
                        let mut caps = caps;
                        let c = caps.swap_remove(k);
                        self.abort();
                        Err(
                            match c {
                                Capability::Other(n) => RuntimeError::CapabilityNotSupported(n),
                                other => RuntimeError::CapabilityNotAllowed(other),
                            },
                        )
                    },
                    None => Ok(Step::Continue),
                }
            },
            Instruction::Error(m) => {
                self.pos = next;
                self.abort();
                Err(RuntimeError::ScriptErrorMessage(m))
            },
            Instruction::Invalid { name, line_num, line_pos } => {
                self.abort();
                Err(RuntimeError::InvalidInstruction { name, line_num, line_pos })
            },
            Instruction::Keep(flags) => {
                self.pos = next;
                self.disposition.keep(flags);
                Ok(Step::Perform)
            },
            Instruction::FileInto { copy } => {
                self.pos = next;
                self.disposition.file_into(copy);
                Ok(Step::Perform)
            },
            Instruction::Redirect { copy, goes_out } => {
                self.pos = next;
                if goes_out {
                    self.disposition.redirect(copy);
                    Ok(Step::Perform)
                } else {
                    Ok(Step::Continue)
                }
            },
            Instruction::Reject => {
                self.pos = next;
                self.disposition.reject();
                Ok(Step::Perform)
            },
            Instruction::SetVariable { target, value } => {
                self.pos = next;
                self.vars.set(target, value);
                Ok(Step::Continue)
            },
            Instruction::Command => {
                self.pos = next;
                Ok(Step::Perform)
            },
        }
    }
}

} // verus!
