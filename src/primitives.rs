//! Context-sensitive call factories: random calls that are legal for the
//! task, ISR or hook they are generated for.
//!
//! With a small probability a factory puts a random register-sized integer
//! where a named entity belongs, to exercise the kernel's parameter checks.
use crate::model::{APPConfig, HookType, InstType, Task};
use crate::prog::{Call, CallKind, Value};
use crate::rng::{chance, coin, rand_below, rand_i64, rand_index};
use vstd::prelude::*;

verus! {

/// Width of the target's registers.
#[derive(Clone, Copy, Debug, PartialEq, Eq, Structural)]
pub enum RegWidth {
    Bits8,
    Bits16,
    Bits32,
    Bits64,
}

impl RegWidth {
    pub open spec fn spec_bits(self) -> u8 {
        match self {
            RegWidth::Bits8 => 8,
            RegWidth::Bits16 => 16,
            RegWidth::Bits32 => 32,
            RegWidth::Bits64 => 64,
        }
    }

    pub fn bits(self) -> (r: u8)
        ensures
            r == self.spec_bits(),
    {
        match self {
            RegWidth::Bits8 => 8,
            RegWidth::Bits16 => 16,
            RegWidth::Bits32 => 32,
            RegWidth::Bits64 => 64,
        }
    }

    /// The width of `bits` bits; only 8, 16, 32 and 64 are widths.
    pub fn from_bits(bits: u8) -> (r: Option<RegWidth>)
        ensures
            r is Some <==> (bits == 8 || bits == 16 || bits == 32 || bits == 64),
            r matches Some(w) ==> w.spec_bits() == bits,
    {
        match bits {
            8 => Some(RegWidth::Bits8),
            16 => Some(RegWidth::Bits16),
            32 => Some(RegWidth::Bits32),
            64 => Some(RegWidth::Bits64),
            _ => None,
        }
    }
}

/// `n` lies in the range of a signed or unsigned register of width `w`.
/// Unsigned draws for 64-bit registers are kept to 32 bits, so that they fit
/// a signed 64-bit value.
pub open spec fn reg_range(n: i64, signed: bool, w: RegWidth) -> bool {
    match w {
        RegWidth::Bits8 => if signed {
            -128 <= n <= 127
        } else {
            0 <= n <= 255
        },
        RegWidth::Bits16 => if signed {
            -32768 <= n <= 32767
        } else {
            0 <= n <= 65535
        },
        RegWidth::Bits32 => if signed {
            -2147483648 <= n <= 2147483647
        } else {
            0 <= n <= 4294967295
        },
        RegWidth::Bits64 => signed || 0 <= n <= 4294967295,
    }
}

fn rand_reg_num(signed: bool, w: RegWidth) -> (r: i64)
    ensures
        reg_range(r, signed, w),
{
    match w {
        RegWidth::Bits8 => if signed {
            rand_below(256) as i64 - 128
        } else {
            rand_below(256) as i64
        },
        RegWidth::Bits16 => if signed {
            rand_below(65536) as i64 - 32768
        } else {
            rand_below(65536) as i64
        },
        RegWidth::Bits32 => if signed {
            rand_below(4294967296) as i64 - 2147483648
        } else {
            rand_below(4294967296) as i64
        },
        RegWidth::Bits64 => if signed {
            rand_i64()
        } else {
            rand_below(4294967296) as i64
        },
    }
}

/// A random signed register value.
pub fn rand_reg_signed(w: RegWidth) -> (r: i64)
    ensures
        reg_range(r, true, w),
{
    rand_reg_num(true, w)
}

/// A random unsigned register value.
pub fn rand_reg_unsigned(w: RegWidth) -> (r: i64)
    ensures
        reg_range(r, false, w),
{
    rand_reg_num(false, w)
}

/// `v` is the symbol of one of `names`.
pub open spec fn named_in(v: Value, names: Seq<String>) -> bool {
    v matches Value::Symbol(x) && exists|i: int| 0 <= i < names.len() && (#[trigger] names[i])@ == x@
}

/// `v` is a number of a register of width `w`.
pub open spec fn num_arg(v: Value, w: RegWidth) -> bool {
    v matches Value::Num(n) && (reg_range(n, true, w) || reg_range(n, false, w))
}

/// `v` names one of `names`, or is a register-sized number put in its place.
pub open spec fn arg_of(v: Value, names: Seq<String>, w: RegWidth) -> bool {
    named_in(v, names) || num_arg(v, w)
}

pub open spec fn task_ids(app: APPConfig) -> Seq<String> {
    app.tasks@.map_values(|t: Task| t.id)
}

/// `s` names an entity of `app`: a task, an event or a resource of a
/// task, a counter, an alarm, or the default application mode.
pub open spec fn known(app: APPConfig, s: Seq<char>) -> bool {
    ||| exists|i: int| 0 <= i < app.tasks@.len() && (#[trigger] app.tasks@[i]).id@ == s
    ||| exists|i: int, j: int|
        0 <= i < app.tasks@.len() && 0 <= j < app.tasks@[i].events@.len() && (
        #[trigger] app.tasks@[i].events@[j])@ == s
    ||| exists|i: int, j: int|
        0 <= i < app.tasks@.len() && 0 <= j < app.tasks@[i].resources@.len() && (
        #[trigger] app.tasks@[i].resources@[j])@ == s
    ||| exists|i: int| 0 <= i < app.counters@.len() && (#[trigger] app.counters@[i])@ == s
    ||| exists|i: int| 0 <= i < app.alarms@.len() && (#[trigger] app.alarms@[i])@ == s
    ||| s == "OSDEFAULTAPPMODE"@
}

/// A symbol argument names an entity of `app`; other arguments pass.
pub open spec fn arg_known(v: Value, app: APPConfig) -> bool {
    match v {
        Value::Symbol(x) => known(app, x@),
        _ => true,
    }
}

/// Every symbol among the arguments of `c` names an entity of `app`.
pub open spec fn symbols_known(c: Call, app: APPConfig) -> bool {
    forall|j: int| 0 <= j < c.args@.len() ==> arg_known(#[trigger] c.args@[j], app)
}

/// `symbols_known` for a call of at most three arguments, argument by
/// argument.
pub open spec fn args_known(c: Call, app: APPConfig) -> bool {
    &&& c.args@.len() <= 3
    &&& c.args@.len() > 0 ==> arg_known(c.args@[0], app)
    &&& c.args@.len() > 1 ==> arg_known(c.args@[1], app)
    &&& c.args@.len() > 2 ==> arg_known(c.args@[2], app)
}

pub proof fn lemma_args_known(c: Call, app: APPConfig)
    requires
        args_known(c, app),
    ensures
        symbols_known(c, app),
{
    assert forall|j: int| 0 <= j < c.args@.len() implies arg_known(#[trigger] c.args@[j], app) by {
        if j == 0 {
        } else if j == 1 {
        } else {
            assert(j == 2);
        }
    }
}

/// `t` is one of the tasks of `app`, with its events and resources.
pub open spec fn of_app(app: APPConfig, t: Task) -> bool {
    exists|i: int|
        0 <= i < app.tasks@.len() && (#[trigger] app.tasks@[i]).id@ == t.id@ && app.tasks@[i].events@
            == t.events@ && app.tasks@[i].resources@ == t.resources@
}

/// A task context is one of the tasks of `app`.
pub open spec fn tp_of_app(app: APPConfig, tp: InstType) -> bool {
    match tp {
        InstType::Task(t) => of_app(app, t),
        _ => true,
    }
}

proof fn lemma_known_task(app: APPConfig, v: Value)
    requires
        named_in(v, task_ids(app)),
    ensures
        arg_known(v, app),
{
    let x = v->Symbol_0;
    let i = choose|i: int| 0 <= i < task_ids(app).len() && (#[trigger] task_ids(app)[i])@ == x@;
    assert(app.tasks@[i].id == task_ids(app)[i]);
}

proof fn lemma_known_event(app: APPConfig, t: Task, v: Value)
    requires
        of_app(app, t),
        named_in(v, t.events@),
    ensures
        arg_known(v, app),
{
    let x = v->Symbol_0;
    let i = choose|i: int|
        0 <= i < app.tasks@.len() && (#[trigger] app.tasks@[i]).id@ == t.id@ && app.tasks@[i].events@
            == t.events@ && app.tasks@[i].resources@ == t.resources@;
    let j = choose|j: int| 0 <= j < t.events@.len() && (#[trigger] t.events@[j])@ == x@;
    assert(app.tasks@[i].events@[j]@ == x@);
}

proof fn lemma_known_resource(app: APPConfig, t: Task, v: Value)
    requires
        of_app(app, t),
        named_in(v, t.resources@),
    ensures
        arg_known(v, app),
{
    let x = v->Symbol_0;
    let i = choose|i: int|
        0 <= i < app.tasks@.len() && (#[trigger] app.tasks@[i]).id@ == t.id@ && app.tasks@[i].events@
            == t.events@ && app.tasks@[i].resources@ == t.resources@;
    let j = choose|j: int| 0 <= j < t.resources@.len() && (#[trigger] t.resources@[j])@ == x@;
    assert(app.tasks@[i].resources@[j]@ == x@);
}

proof fn lemma_known_task_id(app: APPConfig, t: Task, x: Seq<char>)
    requires
        of_app(app, t),
        x == t.id@,
    ensures
        known(app, x),
{
    let i = choose|i: int|
        0 <= i < app.tasks@.len() && (#[trigger] app.tasks@[i]).id@ == t.id@ && app.tasks@[i].events@
            == t.events@ && app.tasks@[i].resources@ == t.resources@;
    assert(app.tasks@[i].id@ == x);
}

/// The raw interrupt enable/disable services, the only ones a category-1
/// ISR may use.
pub open spec fn isr1_kind(k: CallKind) -> bool {
    k == CallKind::DisableAllInterrupts || k == CallKind::EnableAllInterrupts || k
        == CallKind::SuspendAllInterrupts || k == CallKind::ResumeAllInterrupts || k
        == CallKind::SuspendOSInterrupts || k == CallKind::ResumeOSInterrupts
}

/// The counter and alarm services.
pub open spec fn counter_kind(k: CallKind) -> bool {
    k == CallKind::IncrementCounter || k == CallKind::GetAlarmBase || k == CallKind::GetAlarm || k
        == CallKind::SetRelAlarm || k == CallKind::SetAbsAlarm || k == CallKind::CancelAlarm || k
        == CallKind::GetCounterValue || k == CallKind::GetElapsedValue
}

/// The calls that may be generated for the context `tp`.
pub open spec fn allowed(tp: InstType, k: CallKind) -> bool {
    match tp {
        InstType::Task(_) => k != CallKind::TerminateTask && k != CallKind::ChainTask,
        InstType::Isr(isr) => if isr.is_isr1 {
            isr1_kind(k)
        } else {
            isr1_kind(k) || counter_kind(k) || k == CallKind::ActivateTask || k == CallKind::GetTaskID
                || k == CallKind::GetTaskState || k == CallKind::SetEvent || k == CallKind::GetEvent
                || k == CallKind::ReleaseResource || k == CallKind::GetActiveApplicationMode || k
                == CallKind::ShutdownOS
        },
        InstType::Hook(h) => match h {
            HookType::Startup => k == CallKind::GetActiveApplicationMode || k == CallKind::ShutdownOS,
            HookType::Shutdown => k == CallKind::GetActiveApplicationMode,
            _ => k == CallKind::GetTaskID || k == CallKind::GetTaskState || k
                == CallKind::SuspendAllInterrupts || k == CallKind::ResumeAllInterrupts || k
                == CallKind::GetEvent || k == CallKind::GetAlarmBase || k == CallKind::GetAlarm || k
                == CallKind::GetActiveApplicationMode || (h == HookType::Error && k
                == CallKind::ShutdownOS),
        },
    }
}

/// A hook context: STARTUP may only query the application mode or shut
/// down, SHUTDOWN may only query the mode, and the other hooks make the
/// family's own calls `other`.
pub open spec fn hook_family(h: HookType, k: CallKind, other: bool) -> bool {
    match h {
        HookType::Startup => k == CallKind::GetActiveApplicationMode || k == CallKind::ShutdownOS,
        HookType::Shutdown => k == CallKind::GetActiveApplicationMode,
        _ => other,
    }
}

/// The calls of the task-management family for the context `tp`.
pub open spec fn task_family(tp: InstType, k: CallKind) -> bool {
    match tp {
        InstType::Task(_) => k == CallKind::ActivateTask || k == CallKind::Schedule || k
            == CallKind::ForceSchedule || k == CallKind::GetTaskID || k == CallKind::GetTaskState,
        InstType::Isr(isr) => if isr.is_isr1 {
            isr1_kind(k)
        } else {
            k == CallKind::ActivateTask || k == CallKind::GetTaskID || k == CallKind::GetTaskState
        },
        InstType::Hook(h) => hook_family(h, k, k == CallKind::GetTaskID || k == CallKind::GetTaskState),
    }
}

/// The calls of the interrupt family for the context `tp`.
pub open spec fn int_family(tp: InstType, k: CallKind) -> bool {
    match tp {
        InstType::Hook(h) => hook_family(
            h,
            k,
            k == CallKind::SuspendAllInterrupts || k == CallKind::ResumeAllInterrupts,
        ),
        _ => isr1_kind(k),
    }
}

/// The calls of the resource family for the context `tp`.
pub open spec fn res_family(tp: InstType, k: CallKind) -> bool {
    match tp {
        InstType::Task(_) => k == CallKind::GetResource || k == CallKind::ReleaseResource,
        InstType::Isr(isr) => if isr.is_isr1 {
            isr1_kind(k)
        } else {
            k == CallKind::ReleaseResource
        },
        InstType::Hook(_) => k == CallKind::GetActiveApplicationMode,
    }
}

/// The calls of the event family for the context `tp`.
pub open spec fn event_family(tp: InstType, k: CallKind) -> bool {
    match tp {
        InstType::Task(_) => k == CallKind::SetEvent || k == CallKind::ClearEvent || k
            == CallKind::GetEvent || k == CallKind::WaitEvent,
        InstType::Isr(isr) => if isr.is_isr1 {
            isr1_kind(k)
        } else {
            k == CallKind::SetEvent || k == CallKind::GetEvent
        },
        InstType::Hook(h) => hook_family(h, k, k == CallKind::GetEvent),
    }
}

/// The calls of the counter and alarm family for the context `tp`.
pub open spec fn cnt_family(tp: InstType, k: CallKind) -> bool {
    match tp {
        InstType::Task(_) => counter_kind(k),
        InstType::Isr(isr) => if isr.is_isr1 {
            isr1_kind(k)
        } else {
            counter_kind(k)
        },
        InstType::Hook(h) => hook_family(h, k, k == CallKind::GetAlarmBase || k == CallKind::GetAlarm),
    }
}

/// The calls of the start, shutdown and application-mode family for the
/// context `tp`.
pub open spec fn other_family(tp: InstType, k: CallKind) -> bool {
    match tp {
        InstType::Task(_) => k == CallKind::GetActiveApplicationMode || k == CallKind::StartOS || k
            == CallKind::ShutdownOS,
        InstType::Isr(isr) => if isr.is_isr1 {
            isr1_kind(k)
        } else {
            k == CallKind::GetActiveApplicationMode || k == CallKind::ShutdownOS
        },
        InstType::Hook(h) => match h {
            HookType::Error | HookType::Startup => k == CallKind::GetActiveApplicationMode || k
                == CallKind::ShutdownOS,
            _ => k == CallKind::GetActiveApplicationMode,
        },
    }
}

/// A uniformly chosen name of `names`.
fn pick(names: &Vec<String>) -> (r: &String)
    requires
        names@.len() > 0,
    ensures
        exists|i: int| 0 <= i < names@.len() && names@[i] == *r,
{
    let i = rand_index(names.len());
    &names[i]
}

/// A uniformly chosen task of `app`.
fn pick_task(app: &APPConfig) -> (r: &Task)
    requires
        app.tasks@.len() > 0,
    ensures
        exists|i: int| 0 <= i < app.tasks@.len() && app.tasks@[i] == *r,
{
    let i = rand_index(app.tasks.len());
    &app.tasks[i]
}

/// A uniformly chosen task of `app` that has events, if there is one.
fn pick_task_with_events(app: &APPConfig) -> (r: Option<&Task>)
    ensures
        r matches Some(t) ==> t.events@.len() > 0 && exists|i: int|
            0 <= i < app.tasks@.len() && app.tasks@[i] == *t,
        r is None ==> forall|i: int| 0 <= i < app.tasks@.len() ==> (#[trigger] app.tasks@[i]).events@.len() == 0,
{
    let mut idx: Vec<usize> = Vec::new();
    let mut i: usize = 0;
    while i < app.tasks.len()
        invariant
            i <= app.tasks@.len(),
            forall|k: int|
                0 <= k < idx@.len() ==> (#[trigger] idx@[k]) < app.tasks@.len() && app.tasks@[idx@[k] as int].events@.len() > 0,
            idx@.len() == 0 ==> forall|k: int| 0 <= k < i ==> (#[trigger] app.tasks@[k]).events@.len() == 0,
        decreases app.tasks@.len() - i,
    {
        if app.tasks[i].events.len() > 0 {
            idx.push(i);
        }
        i = i + 1;
    }
    if idx.len() == 0 {
        None
    } else {
        let k = idx[rand_index(idx.len())];
        Some(&app.tasks[k])
    }
}

proof fn lemma_task_named(app: APPConfig, t: Task, x: String)
    requires
        exists|i: int| 0 <= i < app.tasks@.len() && app.tasks@[i] == t,
        x@ == t.id@,
    ensures
        named_in(Value::Symbol(x), task_ids(app)),
        arg_known(Value::Symbol(x), app),
        of_app(app, t),
{
    let i = choose|i: int| 0 <= i < app.tasks@.len() && app.tasks@[i] == t;
    assert(task_ids(app)[i] == t.id);
    assert(app.tasks@[i].id@ == x@);
}

proof fn lemma_named(names: Seq<String>, n: String, x: String)
    requires
        exists|i: int| 0 <= i < names.len() && names[i] == n,
        x@ == n@,
    ensures
        named_in(Value::Symbol(x), names),
{
    let i = choose|i: int| 0 <= i < names.len() && names[i] == n;
    assert(names[i]@ == x@);
}

pub fn activate_task(app: &APPConfig, w: RegWidth) -> (r: Call)
    ensures
        args_known(r, *app),
        r.name == CallKind::ActivateTask,
        r.well_formed(),
        arg_of(r.args@[0], task_ids(*app), w),
{
    if app.tasks.len() == 0 || chance(100) {
        Call::activate_task_1(rand_reg_signed(w))
    } else {
        let t = pick_task(app);
        let r = Call::activate_task(t.id.as_str());
        proof {
            lemma_task_named(*app, *t, r.args@[0]->Symbol_0);
        }
        r
    }
}

pub fn chain_task(app: &APPConfig, w: RegWidth) -> (r: Call)
    ensures
        args_known(r, *app),
        r.name == CallKind::ChainTask,
        r.well_formed(),
        arg_of(r.args@[0], task_ids(*app), w),
{
    if app.tasks.len() == 0 || chance(100) {
        Call::chain_task_1(rand_reg_signed(w))
    } else {
        let t = pick_task(app);
        let r = Call::chain_task(t.id.as_str());
        proof {
            lemma_task_named(*app, *t, r.args@[0]->Symbol_0);
        }
        r
    }
}

fn get_task_state(app: &APPConfig, w: RegWidth) -> (r: Call)
    ensures
        args_known(r, *app),
        r.name == CallKind::GetTaskState,
        r.well_formed(),
        arg_of(r.args@[0], task_ids(*app), w),
{
    if app.tasks.len() == 0 || chance(100) {
        Call::get_task_state_1(rand_reg_signed(w))
    } else {
        let t = pick_task(app);
        let r = Call::get_task_state(t.id.as_str());
        proof {
            lemma_task_named(*app, *t, r.args@[0]->Symbol_0);
        }
        r
    }
}

fn get_res(app: &APPConfig, t: &Task, w: RegWidth) -> (r: Call)
    requires
        of_app(*app, *t),
    ensures
        args_known(r, *app),
        r.name == CallKind::GetResource,
        r.well_formed(),
        arg_of(r.args@[0], t.resources@, w),
{
    if t.resources.len() == 0 || chance(100) {
        Call::get_res_1(rand_reg_unsigned(w))
    } else {
        let res = pick(&t.resources);
        let r = Call::get_res(res.as_str());
        proof {
            lemma_named(t.resources@, *res, r.args@[0]->Symbol_0);
        }
        r
    }
}

fn release_res(res: Option<&str>, w: RegWidth) -> (r: Call)
    ensures
                r.name == CallKind::ReleaseResource,
        r.well_formed(),
        match res {
            Some(s) => r.args@[0] matches Value::Symbol(x) && x@ == s@,
            None => num_arg(r.args@[0], w),
        },
{
    match res {
        Some(s) => Call::release_res(s),
        None => Call::release_res_1(rand_reg_unsigned(w)),
    }
}

fn set_task_event(app: &APPConfig, t: &Task, w: RegWidth) -> (r: Call)
    requires
        of_app(*app, *t),
    ensures
        args_known(r, *app),
        r.name == CallKind::SetEvent,
        r.well_formed(),
        r.args@[0] matches Value::Symbol(x) && x@ == t.id@,
        arg_of(r.args@[1], t.events@, w),
{
    if t.events.len() > 0 && chance(920) {
        let e = pick(&t.events);
        let r = Call::set_event(t.id.as_str(), e.as_str());
        proof {
            lemma_named(t.events@, *e, r.args@[1]->Symbol_0);
        }
        r
    } else {
        Call::set_event_2(t.id.as_str(), rand_reg_unsigned(w))
    }
}

fn set_event(app: &APPConfig, w: RegWidth) -> (r: Call)
    ensures
        args_known(r, *app),
        r.name == CallKind::SetEvent,
        r.well_formed(),
        arg_of(r.args@[0], task_ids(*app), w),
{
    match pick_task_with_events(app) {
        Some(t) => {
            let r = set_task_event(app, t, w);
            proof {
                lemma_task_named(*app, *t, r.args@[0]->Symbol_0);
            }
            r
        },
        None => Call::set_event_1(rand_reg_signed(w), rand_reg_unsigned(w)),
    }
}

fn clear_event(app: &APPConfig, t: &Task, w: RegWidth) -> (r: Call)
    requires
        of_app(*app, *t),
    ensures
        args_known(r, *app),
        r.name == CallKind::ClearEvent,
        r.well_formed(),
        arg_of(r.args@[0], t.events@, w),
{
    if t.events.len() > 0 && chance(910) {
        let e = pick(&t.events);
        let r = Call::clear_event(e.as_str());
        proof {
            lemma_named(t.events@, *e, r.args@[0]->Symbol_0);
        }
        r
    } else {
        Call::clear_event_1(rand_reg_unsigned(w))
    }
}

fn get_event(app: &APPConfig, w: RegWidth) -> (r: Call)
    ensures
        args_known(r, *app),
        r.name == CallKind::GetEvent,
        r.well_formed(),
        arg_of(r.args@[0], task_ids(*app), w),
{
    match pick_task_with_events(app) {
        Some(t) => if chance(910) {
            let r = Call::get_event(t.id.as_str());
            proof {
                lemma_task_named(*app, *t, r.args@[0]->Symbol_0);
            }
            r
        } else {
            Call::get_event_1(rand_reg_unsigned(w))
        },
        None => Call::get_event_1(rand_reg_unsigned(w)),
    }
}

fn wait_event(app: &APPConfig, t: &Task, w: RegWidth) -> (r: Call)
    requires
        of_app(*app, *t),
    ensures
        args_known(r, *app),
        r.name == CallKind::WaitEvent,
        r.well_formed(),
        arg_of(r.args@[0], t.events@, w),
{
    if t.events.len() > 0 && chance(910) {
        let e = pick(&t.events);
        let r = Call::wait_event(e.as_str());
        proof {
            lemma_named(t.events@, *e, r.args@[0]->Symbol_0);
        }
        r
    } else {
        Call::wait_event_1(rand_reg_unsigned(w))
    }
}

fn inc_counter(app: &APPConfig, w: RegWidth) -> (r: Call)
    ensures
        args_known(r, *app),
        r.name == CallKind::IncrementCounter,
        r.well_formed(),
        arg_of(r.args@[0], app.counters@, w),
{
    if app.counters.len() == 0 {
        Call::inc_counter_1(rand_reg_unsigned(w))
    } else if chance(910) {
        let c = pick(&app.counters);
        let r = Call::inc_counter(c.as_str());
        proof {
            lemma_named(app.counters@, *c, r.args@[0]->Symbol_0);
        }
        r
    } else {
        Call::inc_counter_1(rand_reg_signed(w))
    }
}

fn get_counter_value(app: &APPConfig, w: RegWidth) -> (r: Call)
    ensures
        args_known(r, *app),
        r.name == CallKind::GetCounterValue,
        r.well_formed(),
        arg_of(r.args@[0], app.counters@, w),
{
    if app.counters.len() == 0 {
        Call::get_counter_value_1(rand_reg_unsigned(w))
    } else if chance(910) {
        let c = pick(&app.counters);
        let r = Call::get_counter_value(c.as_str());
        proof {
            lemma_named(app.counters@, *c, r.args@[0]->Symbol_0);
        }
        r
    } else {
        Call::get_counter_value_1(rand_reg_signed(w))
    }
}

fn get_elapsed(app: &APPConfig, w: RegWidth) -> (r: Call)
    ensures
        args_known(r, *app),
        r.name == CallKind::GetElapsedValue,
        r.well_formed(),
        arg_of(r.args@[0], app.counters@, w),
{
    if app.counters.len() == 0 {
        Call::get_elapsed_1(rand_reg_unsigned(w))
    } else if chance(910) {
        let c = pick(&app.counters);
        let r = Call::get_elapsed(c.as_str());
        proof {
            lemma_named(app.counters@, *c, r.args@[0]->Symbol_0);
        }
        r
    } else {
        Call::get_elapsed_1(rand_reg_signed(w))
    }
}

fn get_alarm_base(app: &APPConfig, w: RegWidth) -> (r: Call)
    ensures
        args_known(r, *app),
        r.name == CallKind::GetAlarmBase,
        r.well_formed(),
        arg_of(r.args@[0], app.alarms@, w),
{
    if app.alarms.len() == 0 {
        Call::get_alarm_base_1(rand_reg_unsigned(w))
    } else if chance(910) {
        let a = pick(&app.alarms);
        let r = Call::get_alarm_base(a.as_str());
        proof {
            lemma_named(app.alarms@, *a, r.args@[0]->Symbol_0);
        }
        r
    } else {
        Call::get_alarm_base_1(rand_reg_signed(w))
    }
}

pub fn get_alarm(app: &APPConfig, w: RegWidth) -> (r: Call)
    ensures
        args_known(r, *app),
        r.name == CallKind::GetAlarm,
        r.well_formed(),
        arg_of(r.args@[0], app.alarms@, w),
{
    if app.alarms.len() == 0 {
        Call::get_alarm_1(rand_reg_unsigned(w))
    } else if chance(910) {
        let a = pick(&app.alarms);
        let r = Call::get_alarm(a.as_str());
        proof {
            lemma_named(app.alarms@, *a, r.args@[0]->Symbol_0);
        }
        r
    } else {
        Call::get_alarm_1(rand_reg_signed(w))
    }
}

fn set_rel_alarm(app: &APPConfig, w: RegWidth) -> (r: Call)
    ensures
        args_known(r, *app),
        r.name == CallKind::SetRelAlarm,
        r.well_formed(),
        arg_of(r.args@[0], app.alarms@, w),
        num_arg(r.args@[1], w),
        num_arg(r.args@[2], w),
{
    if app.alarms.len() > 0 && chance(910) {
        let a = pick(&app.alarms);
        let r = Call::set_rel_alarm(a.as_str(), rand_reg_unsigned(w), rand_reg_unsigned(w));
        proof {
            lemma_named(app.alarms@, *a, r.args@[0]->Symbol_0);
        }
        r
    } else {
        Call::set_rel_alarm_1(rand_reg_signed(w), rand_reg_unsigned(w), rand_reg_unsigned(w))
    }
}

fn set_abs_alarm(app: &APPConfig, w: RegWidth) -> (r: Call)
    ensures
        args_known(r, *app),
        r.name == CallKind::SetAbsAlarm,
        r.well_formed(),
        arg_of(r.args@[0], app.alarms@, w),
        num_arg(r.args@[1], w),
        num_arg(r.args@[2], w),
{
    if app.alarms.len() > 0 && chance(910) {
        let a = pick(&app.alarms);
        let r = Call::set_abs_alarm(a.as_str(), rand_reg_unsigned(w), rand_reg_unsigned(w));
        proof {
            lemma_named(app.alarms@, *a, r.args@[0]->Symbol_0);
        }
        r
    } else {
        Call::set_abs_alarm_1(rand_reg_signed(w), rand_reg_unsigned(w), rand_reg_unsigned(w))
    }
}

pub fn cancel_alarm(app: &APPConfig, w: RegWidth) -> (r: Call)
    ensures
        args_known(r, *app),
        r.name == CallKind::CancelAlarm,
        r.well_formed(),
        arg_of(r.args@[0], app.alarms@, w),
{
    if app.alarms.len() > 0 && chance(910) {
        let a = pick(&app.alarms);
        let r = Call::cancel_alarm(a.as_str());
        proof {
            lemma_named(app.alarms@, *a, r.args@[0]->Symbol_0);
        }
        r
    } else {
        Call::cancel_alarm_1(rand_reg_signed(w))
    }
}

/// A shutdown with a random status byte.
fn shutdown() -> (r: Call)
    ensures
        forall|app: APPConfig| args_known(r, app),
        r.name == CallKind::ShutdownOS,
        r.well_formed(),
        r.args@[0] matches Value::Num(n) && 0 <= n <= 255,
{
    Call::shutdown(rand_below(256) as i64)
}

fn rand_isr1() -> (r: Call)
    ensures
        forall|app: APPConfig| args_known(r, app),
        isr1_kind(r.name),
        r.well_formed(),
{
    match rand_below(6) {
        0 => Call::disable_int(),
        1 => Call::enable_int(),
        2 => Call::suspend_int(),
        3 => Call::resume_int(),
        4 => Call::suspend_os_int(),
        _ => Call::resume_os_int(),
    }
}

fn rand_startup_hook() -> (r: Call)
    ensures
        forall|app: APPConfig| args_known(r, app),
        r.name == CallKind::GetActiveApplicationMode || r.name == CallKind::ShutdownOS,
        r.well_formed(),
{
    if coin() {
        Call::get_app_mode()
    } else {
        shutdown()
    }
}

fn rand_shutdown_hook() -> (r: Call)
    ensures
        forall|app: APPConfig| args_known(r, app),
        r.name == CallKind::GetActiveApplicationMode,
        r.well_formed(),
{
    Call::get_app_mode()
}

fn rand_cnt_all(app: &APPConfig, w: RegWidth) -> (r: Call)
    ensures
        args_known(r, *app),
        counter_kind(r.name),
        r.well_formed(),
{
    match rand_below(8) {
        0 => inc_counter(app, w),
        1 => get_alarm_base(app, w),
        2 => get_alarm(app, w),
        3 => set_rel_alarm(app, w),
        4 => set_abs_alarm(app, w),
        5 => cancel_alarm(app, w),
        6 => get_counter_value(app, w),
        _ => get_elapsed(app, w),
    }
}

/// A task-management call.
pub fn rand_task_call(app: &APPConfig, tp: &InstType, w: RegWidth) -> (r: Call)
    requires
        tp_of_app(*app, *tp),
    ensures
        task_family(*tp, r.name),
        args_known(r, *app),
        allowed(*tp, r.name),
        r.well_formed(),
{
    match tp {
        InstType::Task(_) => match rand_below(5) {
            0 => activate_task(app, w),
            1 => Call::sched(),
            2 => Call::f_sched(),
            3 => Call::get_task_id(),
            _ => get_task_state(app, w),
        },
        InstType::Isr(isr) => if isr.is_isr1 {
            rand_isr1()
        } else {
            match rand_below(3) {
                0 => activate_task(app, w),
                1 => Call::get_task_id(),
                _ => get_task_state(app, w),
            }
        },
        InstType::Hook(h) => match h {
            HookType::Startup => rand_startup_hook(),
            HookType::Shutdown => rand_shutdown_hook(),
            _ => if coin() {
                Call::get_task_id()
            } else {
                get_task_state(app, w)
            },
        },
    }
}

/// An interrupt-control call.
pub fn rand_int_call(app: &APPConfig, tp: &InstType, w: RegWidth) -> (r: Call)
    requires
        tp_of_app(*app, *tp),
    ensures
        int_family(*tp, r.name),
        args_known(r, *app),
        allowed(*tp, r.name),
        r.well_formed(),
{
    match tp {
        InstType::Hook(h) => match h {
            HookType::Startup => rand_startup_hook(),
            HookType::Shutdown => rand_shutdown_hook(),
            _ => if coin() {
                Call::suspend_int()
            } else {
                Call::resume_int()
            },
        },
        _ => rand_isr1(),
    }
}

/// A resource call.
pub fn rand_res_call(app: &APPConfig, tp: &InstType, w: RegWidth) -> (r: Call)
    requires
        tp_of_app(*app, *tp),
    ensures
        res_family(*tp, r.name),
        args_known(r, *app),
        allowed(*tp, r.name),
        r.well_formed(),
{
    match tp {
        InstType::Task(t) => if coin() {
            get_res(app, t, w)
        } else {
            release_res(None, w)
        },
        InstType::Isr(isr) => if isr.is_isr1 {
            rand_isr1()
        } else {
            release_res(None, w)
        },
        InstType::Hook(_) => rand_shutdown_hook(),
    }
}

/// An event call.
pub fn rand_event_call(app: &APPConfig, tp: &InstType, w: RegWidth) -> (r: Call)
    requires
        tp_of_app(*app, *tp),
    ensures
        event_family(*tp, r.name),
        args_known(r, *app),
        allowed(*tp, r.name),
        r.well_formed(),
{
    match tp {
        InstType::Task(t) => match rand_below(4) {
            0 => set_event(app, w),
            1 => clear_event(app, t, w),
            2 => get_event(app, w),
            _ => wait_event(app, t, w),
        },
        InstType::Isr(isr) => if isr.is_isr1 {
            rand_isr1()
        } else if coin() {
            set_event(app, w)
        } else {
            get_event(app, w)
        },
        InstType::Hook(h) => match h {
            HookType::Startup => rand_startup_hook(),
            HookType::Shutdown => rand_shutdown_hook(),
            _ => get_event(app, w),
        },
    }
}

/// A counter or alarm call.
pub fn rand_cnt_call(app: &APPConfig, tp: &InstType, w: RegWidth) -> (r: Call)
    requires
        tp_of_app(*app, *tp),
    ensures
        cnt_family(*tp, r.name),
        args_known(r, *app),
        allowed(*tp, r.name),
        r.well_formed(),
{
    match tp {
        InstType::Task(_) => rand_cnt_all(app, w),
        InstType::Isr(isr) => if isr.is_isr1 {
            rand_isr1()
        } else {
            rand_cnt_all(app, w)
        },
        InstType::Hook(h) => match h {
            HookType::Startup => rand_startup_hook(),
            HookType::Shutdown => rand_shutdown_hook(),
            _ => if coin() {
                get_alarm_base(app, w)
            } else {
                get_alarm(app, w)
            },
        },
    }
}

/// A start, shutdown or application-mode call.
pub fn rand_other(app: &APPConfig, tp: &InstType, w: RegWidth) -> (r: Call)
    requires
        tp_of_app(*app, *tp),
    ensures
        other_family(*tp, r.name),
        args_known(r, *app),
        allowed(*tp, r.name),
        r.well_formed(),
{
    match tp {
        InstType::Task(_) => match rand_below(3) {
            0 => Call::get_app_mode(),
            1 => Call::start_os(),
            _ => shutdown(),
        },
        InstType::Isr(isr) => if isr.is_isr1 {
            rand_isr1()
        } else if coin() {
            Call::get_app_mode()
        } else {
            shutdown()
        },
        InstType::Hook(h) => match h {
            HookType::Error | HookType::Startup => rand_startup_hook(),
            _ => rand_shutdown_hook(),
        },
    }
}

/// A random call that is legal for the context `tp`, from one of six
/// families chosen uniformly: task, interrupt, resource, event,
/// counter/alarm, and other.
pub fn rand_call(app: &APPConfig, tp: &InstType, w: RegWidth) -> (r: Call)
    requires
        tp_of_app(*app, *tp),
    ensures
        args_known(r, *app),
        symbols_known(r, *app),
        task_family(*tp, r.name) || int_family(*tp, r.name) || res_family(*tp, r.name) || event_family(
            *tp,
            r.name,
        ) || cnt_family(*tp, r.name) || other_family(*tp, r.name),
        allowed(*tp, r.name),
        r.well_formed(),
{
    let r = match rand_below(6) {
        0 => rand_task_call(app, tp, w),
        1 => rand_int_call(app, tp, w),
        2 => rand_res_call(app, tp, w),
        3 => rand_event_call(app, tp, w),
        4 => rand_cnt_call(app, tp, w),
        _ => rand_other(app, tp, w),
    };
    proof {
        lemma_args_known(r, *app);
    }
    r
}

} // verus!
