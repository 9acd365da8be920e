//! Outcomes of running a generated program on the target, and the decisions
//! of the debugger rendezvous protocol.
use crate::model::{lookup_symbol, sym_lookup};
use crate::prog::Inst;
use crate::script::{chars_of, find_from, find_pattern};
use crate::wire::{
    data_var, entities, hook_var, hook_var_name, isr_task_var_name, le32, lemma_entities_index,
    state_var, to_task_state_var, u32_at,
};
use vstd::prelude::*;
use vstd::string::*;

verus! {

/// What the target reports after running a test case. Reserved for
/// coverage-style feedback; it carries nothing yet.
#[derive(Clone, Copy, Debug, PartialEq, Eq, Structural)]
pub struct Feedback;

/// How running one generated program ended.
#[derive(Clone, Debug)]
pub enum ExecResult {
    /// The program ran to completion.
    Success(Feedback),
    /// The run failed, for the reason given (a timeout, a debugger error,
    /// the build script's own report).
    Failed(String),
    /// The kernel crashed, with the crash information it left.
    Crashed(String),
}

/// The task-side stub has started and waits for its calls.
pub const STATE_TASK_READY: u32 = 0x0001;

/// The harness has written the calls; the stub may run them.
pub const STATE_DATA_READY: u32 = 0x0010;

/// The stub has run its calls.
pub const STATE_EXEC_FINISH: u32 = 0x1000;

/// Value of `OS_STATE` once the kernel's crash hook has run.
pub const OS_CRASHED: u32 = 1;

/// Name of the target variable holding the kernel state.
pub const OS_STATE_VAR: &'static str = "OS_STATE";

/// Name of the target buffer holding the crash information.
pub const OS_CRASH_INFO_VAR: &'static str = "OS_CRASH_INFO";

/// Rounds of reading task states before waiting for readiness fails.
pub const READY_RETRIES: u32 = 600;

/// Pause between readiness rounds, in milliseconds.
pub const READY_POLL_MS: u64 = 5;

/// Rounds of monitoring before a run times out.
pub const MONITOR_RETRIES: u32 = 200;

/// Pause between monitoring rounds, in milliseconds.
pub const MONITOR_POLL_MS: u64 = 50;

/// Reads of the crash information before giving up on it.
pub const CRASH_INFO_RETRIES: u32 = 100;

/// Pause before each read of the crash information, in milliseconds.
pub const CRASH_POLL_MS: u64 = 200;

/// Extra attempts at attaching to the debugger.
pub const ATTACH_RETRIES: u32 = 3;

/// Pause between attach attempts, in milliseconds.
pub const ATTACH_POLL_MS: u64 = 100;

/// Size of the crash information buffer.
pub const CRASH_INFO_LEN: usize = 1024;

/// The reason given when a run does not finish in time.
pub open spec fn time_out_reason() -> Seq<char> {
    seq!['T', 'i', 'm', 'e', ' ', 'o', 'u', 't']
}

pub fn time_out() -> (r: String)
    ensures
        r@ == time_out_reason(),
{
    let r = String::from_str("Time out");
    proof {
        reveal_strlit("Time out");
    }
    assert(r@ =~= time_out_reason());
    r
}

/// What to do after a round of reading the task states while waiting for
/// a task to become ready.
#[derive(Clone, Copy, Debug, PartialEq, Eq, Structural)]
pub enum ReadyStep {
    /// A task is ready.
    Ready,
    /// The state of the task at this position could not be read.
    ReadFailed(usize),
    /// Pause, then read again; the round count so far.
    Retry(u32),
    /// No task became ready in time.
    TimedOut,
}

/// Decides the next step of waiting for readiness, after round `retry`
/// read `states` (one entry per task, `None` where the read failed).
pub fn wait_ready_step(retry: u32, states: &Vec<Option<u32>>) -> (r: ReadyStep)
    ensures
        match r {
            ReadyStep::ReadFailed(i) => i < states@.len() && states@[i as int] is None && forall|k: int|
                0 <= k < i ==> states@[k] is Some,
            _ => forall|k: int| 0 <= k < states@.len() ==> states@[k] is Some,
        },
        (forall|k: int| 0 <= k < states@.len() ==> states@[k] is Some) ==> (r == ReadyStep::Ready
            <==> exists|k: int| 0 <= k < states@.len() && states@[k] == Some(STATE_TASK_READY)),
        r matches ReadyStep::Retry(n) ==> retry < READY_RETRIES && n == retry + 1,
        r == ReadyStep::TimedOut ==> retry >= READY_RETRIES,
        (forall|k: int| 0 <= k < states@.len() ==> states@[k] is Some) && !(exists|k: int|
            0 <= k < states@.len() && states@[k] == Some(STATE_TASK_READY)) ==> (r
            == ReadyStep::TimedOut <==> retry >= READY_RETRIES),
{
    let mut ready = false;
    let mut i: usize = 0;
    while i < states.len()
        invariant
            i <= states@.len(),
            forall|k: int| 0 <= k < i ==> states@[k] is Some,
            ready == exists|k: int| 0 <= k < i && states@[k] == Some(STATE_TASK_READY),
        decreases states@.len() - i,
    {
        match states[i] {
            None => {
                return ReadyStep::ReadFailed(i);
            },
            Some(v) => {
                if v == STATE_TASK_READY {
                    ready = true;
                }
            },
        }
        i = i + 1;
    }
    if ready {
        ReadyStep::Ready
    } else if retry < READY_RETRIES {
        ReadyStep::Retry(retry + 1)
    } else {
        ReadyStep::TimedOut
    }
}

/// Some task reports that it has run its calls; states that could not be
/// read count as not finished.
pub fn exec_finished(states: &Vec<Option<u32>>) -> (r: bool)
    ensures
        r == exists|k: int| 0 <= k < states@.len() && states@[k] == Some(STATE_EXEC_FINISH),
{
    let mut i: usize = 0;
    while i < states.len()
        invariant
            i <= states@.len(),
            forall|k: int| 0 <= k < i ==> states@[k] != Some(STATE_EXEC_FINISH),
        decreases states@.len() - i,
    {
        if let Some(v) = states[i] {
            if v == STATE_EXEC_FINISH {
                return true;
            }
        }
        i = i + 1;
    }
    false
}

/// The kernel state says it crashed; a state that could not be read counts
/// as zero.
pub fn os_crashed(os_state: Option<u32>) -> (r: bool)
    ensures
        r == (os_state == Some(OS_CRASHED)),
{
    match os_state {
        Some(v) => v == OS_CRASHED,
        None => false,
    }
}

/// What to do after a try at reading the crash information.
#[derive(Clone, Debug)]
pub enum CrashPoll {
    Got(String),
    /// Pause, then read again; the number of reads so far.
    Again(u32),
    GiveUp,
}

/// Decides the next step after read number `retry` of the crash
/// information gave `info`.
pub fn crash_poll_step(retry: u32, info: Option<String>) -> (r: CrashPoll)
    ensures
        match info {
            Some(s) => r matches CrashPoll::Got(t) && t == s,
            None => if retry < CRASH_INFO_RETRIES {
                r matches CrashPoll::Again(n) && n == retry + 1
            } else {
                r is GiveUp
            },
        },
{
    match info {
        Some(s) => CrashPoll::Got(s),
        None => if retry < CRASH_INFO_RETRIES {
            CrashPoll::Again(retry + 1)
        } else {
            CrashPoll::GiveUp
        },
    }
}

/// What to do after a round of monitoring.
#[derive(Clone, Debug)]
pub enum Monitor {
    /// The run is over.
    Done(ExecResult),
    /// Pause, then monitor again; the round count so far.
    Again(u32),
}

/// Decides the next step after monitoring round `retry`: a finished task
/// ends the run with success (as soon as any task finishes), else collected
/// crash information ends it as a crash, else the run goes on until the
/// rounds are used up and then fails with "Time out".
pub fn monitor_step(retry: u32, finished: bool, crash: Option<String>) -> (r: Monitor)
    ensures
        finished ==> r == Monitor::Done(ExecResult::Success(Feedback)),
        !finished && crash is Some ==> r == Monitor::Done(ExecResult::Crashed(crash->Some_0)),
        !finished && crash is None && retry < MONITOR_RETRIES ==> r == Monitor::Again((retry + 1) as u32),
        !finished && crash is None && retry >= MONITOR_RETRIES ==> (r matches Monitor::Done(
            ExecResult::Failed(s),
        ) && s@ == time_out_reason()),
{
    if finished {
        Monitor::Done(ExecResult::Success(Feedback))
    } else {
        match crash {
            Some(info) => Monitor::Done(ExecResult::Crashed(info)),
            None => if retry < MONITOR_RETRIES {
                Monitor::Again(retry + 1)
            } else {
                Monitor::Done(ExecResult::Failed(time_out()))
            },
        }
    }
}

/// The bytes of a C string held in `buf`: those before the first NUL, or
/// all of them when there is none.
pub open spec fn c_str_bytes(buf: Seq<u8>) -> Seq<u8>
    decreases buf.len(),
{
    if buf.len() == 0 || buf[0] == 0 {
        Seq::empty()
    } else {
        seq![buf[0]] + c_str_bytes(buf.drop_first())
    }
}

pub fn c_str_prefix(buf: &Vec<u8>) -> (r: Vec<u8>)
    ensures
        r@ == c_str_bytes(buf@),
{
    let mut out: Vec<u8> = Vec::new();
    let mut i: usize = 0;
    assert(buf@.skip(0) =~= buf@);
    assert(out@ + c_str_bytes(buf@) =~= c_str_bytes(buf@));
    while i < buf.len() && buf[i] != 0
        invariant
            i <= buf@.len(),
            out@ + c_str_bytes(buf@.skip(i as int)) == c_str_bytes(buf@),
        decreases buf@.len() - i,
    {
        assert(buf@.skip(i as int).drop_first() =~= buf@.skip(i + 1));
        assert(out@.push(buf[i as int]) + c_str_bytes(buf@.skip(i + 1)) =~= out@ + c_str_bytes(
            buf@.skip(i as int),
        ));
        out.push(buf[i]);
        i = i + 1;
    }
    assert(out@ + c_str_bytes(buf@.skip(i as int)) =~= out@);
    out
}

/// The word in the first four bytes of `b`, little-endian.
pub fn u32_from_le(b: &Vec<u8>) -> (r: u32)
    requires
        b@.len() >= 4,
    ensures
        r == u32_at(b@, 0),
{
    let x = b[0] as u32 + 256 * b[1] as u32 + 65536 * b[2] as u32 + 16777216 * b[3] as u32;
    x
}

/// The four little-endian bytes of `x`, as written to a state variable.
pub fn le_bytes(x: u32) -> (r: Vec<u8>)
    ensures
        r@ == le32(x),
{
    let v: Vec<u8> = vec![(x % 256) as u8, ((x / 256) % 256) as u8, ((x / 65536) % 256) as u8, ((x
        / 16777216) % 256) as u8];
    assert(v@ =~= le32(x));
    v
}

/// The state of the debugger's script interpreter.
#[derive(Clone, Copy, Debug, PartialEq, Eq, Structural)]
pub enum PracticeState {
    NotRunning,
    Running,
    WindowOpen,
}

impl PracticeState {
    /// The state the debugger reports as `code`.
    pub fn from_code(code: i32) -> (r: Option<PracticeState>)
        ensures
            code == 0 <==> r == Some(PracticeState::NotRunning),
            code == 1 <==> r == Some(PracticeState::Running),
            code == 2 <==> r == Some(PracticeState::WindowOpen),
            r is None <==> !(0 <= code <= 2),
    {
        match code {
            0 => Some(PracticeState::NotRunning),
            1 => Some(PracticeState::Running),
            2 => Some(PracticeState::WindowOpen),
            _ => None,
        }
    }
}

/// A restart command runs a script (and must be waited for) when it holds
/// `DO` or `do`.
pub fn needs_practice_wait(restart_cmd: &str) -> (r: bool)
    ensures
        r == (find_from(restart_cmd@, seq!['D', 'O'], 0) is Some || find_from(
            restart_cmd@,
            seq!['d', 'o'],
            0,
        ) is Some),
{
    let v = chars_of(restart_cmd);
    let upper = chars_of("DO");
    let lower = chars_of("do");
    proof {
        reveal_strlit("DO");
        reveal_strlit("do");
        assert(upper@ =~= seq!['D', 'O']);
        assert(lower@ =~= seq!['d', 'o']);
    }
    find_pattern(&v, &upper).is_some() || find_pattern(&v, &lower).is_some()
}

/// What to do after an attempt at attaching to the debugger.
#[derive(Clone, Copy, Debug, PartialEq, Eq, Structural)]
pub enum AttachStep {
    Attached,
    /// Pause, then try again; the retries so far.
    Retry(u32),
    /// Give up with the debugger's code.
    Fail(i32),
}

/// Decides the next step after attempt `retry` returned `code` (zero is
/// success).
pub fn attach_step(retry: u32, code: i32) -> (r: AttachStep)
    ensures
        code == 0 ==> r == AttachStep::Attached,
        code != 0 && retry < ATTACH_RETRIES ==> r == AttachStep::Retry((retry + 1) as u32),
        code != 0 && retry >= ATTACH_RETRIES ==> r == AttachStep::Fail(code),
{
    if code == 0 {
        AttachStep::Attached
    } else if retry < ATTACH_RETRIES {
        AttachStep::Retry(retry + 1)
    } else {
        AttachStep::Fail(code)
    }
}

/// Decides whether a debugger memory access that returned `code` after
/// `waited` milliseconds of retrying is tried again, and if so with how
/// long waited then: accesses are retried every `interval` milliseconds for
/// as long as the wait stays within `timeout`.
pub fn redo_step(waited: u64, interval: u64, timeout: u64, code: i32) -> (r: Option<u64>)
    ensures
        code == 0 ==> r is None,
        code != 0 && waited + interval <= timeout ==> r == Some((waited + interval) as u64),
        code != 0 && waited + interval > timeout ==> r is None,
{
    if code == 0 {
        None
    } else if interval <= timeout && waited <= timeout - interval {
        Some(waited + interval)
    } else {
        None
    }
}

/// The addresses of the target variables a run uses, looked up once per
/// session.
pub struct Session {
    /// The state variable of each task, with its address.
    pub state_addrs: Vec<(String, u32)>,
    /// The data variable of each entity, with its address.
    pub data_addrs: Vec<(String, u32)>,
    pub os_state_addr: u32,
    pub crash_info_addr: u32,
}

/// The names of the task state variables of `p`, in task order.
pub fn state_var_names(p: &Inst) -> (r: Vec<String>)
    ensures
        r@.len() == p.tasks@.len(),
        forall|i: int| 0 <= i < r@.len() ==> (#[trigger] r@[i])@ == state_var(p.tasks@[i].id@),
{
    let mut r: Vec<String> = Vec::new();
    let mut i: usize = 0;
    while i < p.tasks.len()
        invariant
            i <= p.tasks@.len(),
            r@.len() == i,
            forall|k: int| 0 <= k < i ==> (#[trigger] r@[k])@ == state_var(p.tasks@[k].id@),
        decreases p.tasks@.len() - i,
    {
        r.push(to_task_state_var(p.tasks[i].id.as_str()));
        i = i + 1;
    }
    r
}

/// The names of the data variables of `p`, in layout order.
pub fn data_var_names(p: &Inst) -> (r: Vec<String>)
    ensures
        r@.len() == entities(*p).len(),
        forall|i: int| 0 <= i < r@.len() ==> (#[trigger] r@[i])@ == entities(*p)[i].0,
{
    proof {
        lemma_entities_index(*p);
    }
    let hooks = p.hooks.hook_kinds();
    let ghost nh = hooks@.len() as int;
    let ghost ni = p.isr@.len() as int;
    let ghost ents = entities(*p);
    let mut r: Vec<String> = Vec::new();
    let mut i: usize = 0;
    while i < hooks.len()
        invariant
            hooks@ == p.hooks.present(),
            nh == hooks@.len(),
            ents == entities(*p),
            forall|k: int| 0 <= k < nh ==> #[trigger] ents[k].0 == hook_var(hooks@[k]),
            i <= nh,
            r@.len() == i,
            forall|k: int| 0 <= k < i ==> (#[trigger] r@[k])@ == ents[k].0,
        decreases hooks@.len() - i,
    {
        r.push(String::from_str(hook_var_name(hooks[i])));
        i = i + 1;
    }
    let mut i: usize = 0;
    while i < p.isr.len()
        invariant
            nh == p.hooks.present().len(),
            ni == p.isr@.len(),
            ents == entities(*p),
            forall|k: int| 0 <= k < ni ==> #[trigger] ents[nh + k].0 == data_var(p.isr@[k].meta.id@),
            i <= ni,
            r@.len() == nh + i,
            forall|k: int| 0 <= k < nh + i ==> (#[trigger] r@[k])@ == ents[k].0,
        decreases p.isr@.len() - i,
    {
        r.push(isr_task_var_name(p.isr[i].meta.id.as_str()));
        i = i + 1;
    }
    let mut i: usize = 0;
    while i < p.tasks.len()
        invariant
            nh == p.hooks.present().len(),
            ni == p.isr@.len(),
            ents == entities(*p),
            ents.len() == nh + ni + p.tasks@.len(),
            forall|k: int|
                0 <= k < p.tasks@.len() ==> #[trigger] ents[nh + ni + k].0 == data_var(p.tasks@[k].id@),
            i <= p.tasks@.len(),
            r@.len() == nh + ni + i,
            forall|k: int| 0 <= k < nh + ni + i ==> (#[trigger] r@[k])@ == ents[k].0,
        decreases p.tasks@.len() - i,
    {
        r.push(isr_task_var_name(p.tasks[i].id.as_str()));
        i = i + 1;
    }
    r
}

/// The address of the data variable of each laid-out buffer, in order. A
/// variable without an address is named in the error.
pub fn data_addresses(session: &Session, buffers: &Vec<(String, Vec<u8>)>) -> (r: Result<Vec<u32>, String>)
    ensures
        match r {
            Ok(addrs) => addrs@.len() == buffers@.len() && forall|i: int|
                0 <= i < addrs@.len() ==> Some(#[trigger] addrs@[i]) == sym_lookup(
                    session.data_addrs@,
                    buffers@[i].0@,
                ),
            Err(name) => exists|i: int|
                0 <= i < buffers@.len() && (#[trigger] buffers@[i]).0@ == name@ && sym_lookup(
                    session.data_addrs@,
                    name@,
                ) is None,
        },
{
    let mut addrs: Vec<u32> = Vec::new();
    let mut i: usize = 0;
    while i < buffers.len()
        invariant
            i <= buffers@.len(),
            addrs@.len() == i,
            forall|k: int|
                0 <= k < i ==> Some(#[trigger] addrs@[k]) == sym_lookup(session.data_addrs@, buffers@[k].0@),
        decreases buffers@.len() - i,
    {
        match lookup_symbol(&session.data_addrs, &buffers[i].0) {
            Some(a) => {
                addrs.push(a);
            },
            None => {
                return Err(buffers[i].0.clone());
            },
        }
        i = i + 1;
    }
    Ok(addrs)
}

/// The position of the last write whose code (zero for success) reports a
/// failure, if any.
pub fn last_failed_write(codes: &Vec<i32>) -> (r: Option<usize>)
    ensures
        r is None <==> forall|i: int| 0 <= i < codes@.len() ==> codes@[i] == 0,
        r matches Some(i) ==> i < codes@.len() && codes@[i as int] != 0 && forall|j: int|
            i < j < codes@.len() ==> codes@[j] == 0,
{
    let mut i = codes.len();
    while i > 0
        invariant
            i <= codes@.len(),
            forall|j: int| i <= j < codes@.len() ==> codes@[j] == 0,
        decreases i,
    {
        if codes[i - 1] != 0 {
            return Some(i - 1);
        }
        i = i - 1;
    }
    None
}

/// The message for a failed write of the buffer of variable `name`.
pub open spec fn write_failure(name: Seq<char>) -> Seq<char> {
    "failed to write test case data to symbol \""@ + name + "\""@
}

/// The outcome of writing every laid-out buffer, given the code of each
/// write (all are attempted, in order): success when every write
/// succeeded, otherwise the failure of the last write that failed. The
/// target stays halted on failure.
pub fn write_all(buffers: &Vec<(String, Vec<u8>)>, codes: &Vec<i32>) -> (r: Result<(), String>)
    requires
        codes@.len() == buffers@.len(),
    ensures
        r is Ok <==> forall|i: int| 0 <= i < codes@.len() ==> codes@[i] == 0,
        r matches Err(m) ==> exists|i: int|
            0 <= i < codes@.len() && codes@[i] != 0 && (forall|j: int|
                i < j < codes@.len() ==> codes@[j] == 0) && m@ == write_failure(
                (#[trigger] buffers@[i]).0@,
            ),
{
    match last_failed_write(codes) {
        None => Ok(()),
        Some(i) => {
            let mut m = String::from_str("failed to write test case data to symbol \"");
            m.append(buffers[i].0.as_str());
            m.append("\"");
            assert(buffers@[i as int].0@ == buffers[i as int].0@);
            Err(m)
        },
    }
}

} // verus!
