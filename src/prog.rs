//! The program model: the system-call vocabulary, call arguments, and the
//! per-entity call sequences of a generated program.
use crate::model::{APPConfig, HookSet, HookType, ISR};
use vstd::prelude::*;
use vstd::string::*;

verus! {

/// The closed vocabulary of system calls that a generated program may use.
///
/// Each kind has a fixed wire identifier (see [`CallKind::id`]); the table is
/// the contract with the receiver that runs on the target.
#[derive(Clone, Copy, Debug, PartialEq, Eq, Structural)]
pub enum CallKind {
    ActivateTask,
    TerminateTask,
    ChainTask,
    Schedule,
    ForceSchedule,
    GetTaskID,
    GetTaskState,
    DisableAllInterrupts,
    EnableAllInterrupts,
    SuspendAllInterrupts,
    ResumeAllInterrupts,
    SuspendOSInterrupts,
    ResumeOSInterrupts,
    GetResource,
    ReleaseResource,
    SetEvent,
    ClearEvent,
    GetEvent,
    WaitEvent,
    IncrementCounter,
    GetAlarmBase,
    GetAlarm,
    SetRelAlarm,
    SetAbsAlarm,
    CancelAlarm,
    GetActiveApplicationMode,
    StartOS,
    ShutdownOS,
    GetCounterValue,
    GetElapsedValue,
}

/// Number of call kinds in the vocabulary.
pub const CALL_KINDS: u32 = 30;

impl CallKind {
    /// The wire identifier of each call kind.
    pub open spec fn spec_id(self) -> u32 {
        match self {
            CallKind::ActivateTask => 0,
            CallKind::TerminateTask => 1,
            CallKind::ChainTask => 2,
            CallKind::Schedule => 3,
            CallKind::ForceSchedule => 4,
            CallKind::GetTaskID => 5,
            CallKind::GetTaskState => 6,
            CallKind::DisableAllInterrupts => 7,
            CallKind::EnableAllInterrupts => 8,
            CallKind::SuspendAllInterrupts => 9,
            CallKind::ResumeAllInterrupts => 10,
            CallKind::SuspendOSInterrupts => 11,
            CallKind::ResumeOSInterrupts => 12,
            CallKind::GetResource => 13,
            CallKind::ReleaseResource => 14,
            CallKind::SetEvent => 15,
            CallKind::ClearEvent => 16,
            CallKind::GetEvent => 17,
            CallKind::WaitEvent => 18,
            CallKind::IncrementCounter => 19,
            CallKind::GetAlarmBase => 20,
            CallKind::GetAlarm => 21,
            CallKind::SetRelAlarm => 22,
            CallKind::SetAbsAlarm => 23,
            CallKind::CancelAlarm => 24,
            CallKind::GetActiveApplicationMode => 25,
            CallKind::StartOS => 26,
            CallKind::ShutdownOS => 27,
            CallKind::GetCounterValue => 28,
            CallKind::GetElapsedValue => 29,
        }
    }

    /// The call kind whose wire identifier is `id`, if any.
    pub open spec fn spec_from_id(id: u32) -> Option<CallKind> {
        if id == 0 {
            Some(CallKind::ActivateTask)
        } else
        if id == 1 {
            Some(CallKind::TerminateTask)
        } else
        if id == 2 {
            Some(CallKind::ChainTask)
        } else
        if id == 3 {
            Some(CallKind::Schedule)
        } else
        if id == 4 {
            Some(CallKind::ForceSchedule)
        } else
        if id == 5 {
            Some(CallKind::GetTaskID)
        } else
        if id == 6 {
            Some(CallKind::GetTaskState)
        } else
        if id == 7 {
            Some(CallKind::DisableAllInterrupts)
        } else
        if id == 8 {
            Some(CallKind::EnableAllInterrupts)
        } else
        if id == 9 {
            Some(CallKind::SuspendAllInterrupts)
        } else
        if id == 10 {
            Some(CallKind::ResumeAllInterrupts)
        } else
        if id == 11 {
            Some(CallKind::SuspendOSInterrupts)
        } else
        if id == 12 {
            Some(CallKind::ResumeOSInterrupts)
        } else
        if id == 13 {
            Some(CallKind::GetResource)
        } else
        if id == 14 {
            Some(CallKind::ReleaseResource)
        } else
        if id == 15 {
            Some(CallKind::SetEvent)
        } else
        if id == 16 {
            Some(CallKind::ClearEvent)
        } else
        if id == 17 {
            Some(CallKind::GetEvent)
        } else
        if id == 18 {
            Some(CallKind::WaitEvent)
        } else
        if id == 19 {
            Some(CallKind::IncrementCounter)
        } else
        if id == 20 {
            Some(CallKind::GetAlarmBase)
        } else
        if id == 21 {
            Some(CallKind::GetAlarm)
        } else
        if id == 22 {
            Some(CallKind::SetRelAlarm)
        } else
        if id == 23 {
            Some(CallKind::SetAbsAlarm)
        } else
        if id == 24 {
            Some(CallKind::CancelAlarm)
        } else
        if id == 25 {
            Some(CallKind::GetActiveApplicationMode)
        } else
        if id == 26 {
            Some(CallKind::StartOS)
        } else
        if id == 27 {
            Some(CallKind::ShutdownOS)
        } else
        if id == 28 {
            Some(CallKind::GetCounterValue)
        } else
        if id == 29 {
            Some(CallKind::GetElapsedValue)
        } else {
            None
        }
    }

    /// The name of each call kind, as the kernel API spells it.
    pub open spec fn spec_name(self) -> Seq<char> {
        match self {
            CallKind::ActivateTask => "ActivateTask"@,
            CallKind::TerminateTask => "TerminateTask"@,
            CallKind::ChainTask => "ChainTask"@,
            CallKind::Schedule => "Schedule"@,
            CallKind::ForceSchedule => "ForceSchedule"@,
            CallKind::GetTaskID => "GetTaskID"@,
            CallKind::GetTaskState => "GetTaskState"@,
            CallKind::DisableAllInterrupts => "DisableAllInterrupts"@,
            CallKind::EnableAllInterrupts => "EnableAllInterrupts"@,
            CallKind::SuspendAllInterrupts => "SuspendAllInterrupts"@,
            CallKind::ResumeAllInterrupts => "ResumeAllInterrupts"@,
            CallKind::SuspendOSInterrupts => "SuspendOSInterrupts"@,
            CallKind::ResumeOSInterrupts => "ResumeOSInterrupts"@,
            CallKind::GetResource => "GetResource"@,
            CallKind::ReleaseResource => "ReleaseResource"@,
            CallKind::SetEvent => "SetEvent"@,
            CallKind::ClearEvent => "ClearEvent"@,
            CallKind::GetEvent => "GetEvent"@,
            CallKind::WaitEvent => "WaitEvent"@,
            CallKind::IncrementCounter => "IncrementCounter"@,
            CallKind::GetAlarmBase => "GetAlarmBase"@,
            CallKind::GetAlarm => "GetAlarm"@,
            CallKind::SetRelAlarm => "SetRelAlarm"@,
            CallKind::SetAbsAlarm => "SetAbsAlarm"@,
            CallKind::CancelAlarm => "CancelAlarm"@,
            CallKind::GetActiveApplicationMode => "GetActiveApplicationMode"@,
            CallKind::StartOS => "StartOS"@,
            CallKind::ShutdownOS => "ShutdownOS"@,
            CallKind::GetCounterValue => "GetCounterValue"@,
            CallKind::GetElapsedValue => "GetElapsedValue"@,
        }
    }

    /// The number of arguments that calls of this kind carry.
    pub open spec fn arity(self) -> nat {
        match self {
            CallKind::TerminateTask
            | CallKind::Schedule
            | CallKind::ForceSchedule
            | CallKind::DisableAllInterrupts
            | CallKind::EnableAllInterrupts
            | CallKind::SuspendAllInterrupts
            | CallKind::ResumeAllInterrupts
            | CallKind::SuspendOSInterrupts
            | CallKind::ResumeOSInterrupts
            | CallKind::GetActiveApplicationMode => 0,
            CallKind::ActivateTask
            | CallKind::ChainTask
            | CallKind::GetTaskID
            | CallKind::GetResource
            | CallKind::ReleaseResource
            | CallKind::ClearEvent
            | CallKind::WaitEvent
            | CallKind::IncrementCounter
            | CallKind::CancelAlarm
            | CallKind::StartOS
            | CallKind::ShutdownOS => 1,
            CallKind::GetTaskState
            | CallKind::SetEvent
            | CallKind::GetEvent
            | CallKind::GetAlarmBase
            | CallKind::GetAlarm
            | CallKind::GetCounterValue => 2,
            CallKind::SetRelAlarm
            | CallKind::SetAbsAlarm
            | CallKind::GetElapsedValue => 3,
        }
    }

    pub fn id(self) -> (r: u32)
        ensures
            r == self.spec_id(),
    {
        match self {
            CallKind::ActivateTask => 0,
            CallKind::TerminateTask => 1,
            CallKind::ChainTask => 2,
            CallKind::Schedule => 3,
            CallKind::ForceSchedule => 4,
            CallKind::GetTaskID => 5,
            CallKind::GetTaskState => 6,
            CallKind::DisableAllInterrupts => 7,
            CallKind::EnableAllInterrupts => 8,
            CallKind::SuspendAllInterrupts => 9,
            CallKind::ResumeAllInterrupts => 10,
            CallKind::SuspendOSInterrupts => 11,
            CallKind::ResumeOSInterrupts => 12,
            CallKind::GetResource => 13,
            CallKind::ReleaseResource => 14,
            CallKind::SetEvent => 15,
            CallKind::ClearEvent => 16,
            CallKind::GetEvent => 17,
            CallKind::WaitEvent => 18,
            CallKind::IncrementCounter => 19,
            CallKind::GetAlarmBase => 20,
            CallKind::GetAlarm => 21,
            CallKind::SetRelAlarm => 22,
            CallKind::SetAbsAlarm => 23,
            CallKind::CancelAlarm => 24,
            CallKind::GetActiveApplicationMode => 25,
            CallKind::StartOS => 26,
            CallKind::ShutdownOS => 27,
            CallKind::GetCounterValue => 28,
            CallKind::GetElapsedValue => 29,
        }
    }

    pub fn from_id(id: u32) -> (r: Option<CallKind>)
        ensures
            r == CallKind::spec_from_id(id),
            r is None <==> id >= CALL_KINDS,
    {
        match id {
            0 => Some(CallKind::ActivateTask),
            1 => Some(CallKind::TerminateTask),
            2 => Some(CallKind::ChainTask),
            3 => Some(CallKind::Schedule),
            4 => Some(CallKind::ForceSchedule),
            5 => Some(CallKind::GetTaskID),
            6 => Some(CallKind::GetTaskState),
            7 => Some(CallKind::DisableAllInterrupts),
            8 => Some(CallKind::EnableAllInterrupts),
            9 => Some(CallKind::SuspendAllInterrupts),
            10 => Some(CallKind::ResumeAllInterrupts),
            11 => Some(CallKind::SuspendOSInterrupts),
            12 => Some(CallKind::ResumeOSInterrupts),
            13 => Some(CallKind::GetResource),
            14 => Some(CallKind::ReleaseResource),
            15 => Some(CallKind::SetEvent),
            16 => Some(CallKind::ClearEvent),
            17 => Some(CallKind::GetEvent),
            18 => Some(CallKind::WaitEvent),
            19 => Some(CallKind::IncrementCounter),
            20 => Some(CallKind::GetAlarmBase),
            21 => Some(CallKind::GetAlarm),
            22 => Some(CallKind::SetRelAlarm),
            23 => Some(CallKind::SetAbsAlarm),
            24 => Some(CallKind::CancelAlarm),
            25 => Some(CallKind::GetActiveApplicationMode),
            26 => Some(CallKind::StartOS),
            27 => Some(CallKind::ShutdownOS),
            28 => Some(CallKind::GetCounterValue),
            29 => Some(CallKind::GetElapsedValue),
            _ => None,
        }
    }

    pub fn name(self) -> (r: &'static str)
        ensures
            r@ == self.spec_name(),
    {
        match self {
            CallKind::ActivateTask => "ActivateTask",
            CallKind::TerminateTask => "TerminateTask",
            CallKind::ChainTask => "ChainTask",
            CallKind::Schedule => "Schedule",
            CallKind::ForceSchedule => "ForceSchedule",
            CallKind::GetTaskID => "GetTaskID",
            CallKind::GetTaskState => "GetTaskState",
            CallKind::DisableAllInterrupts => "DisableAllInterrupts",
            CallKind::EnableAllInterrupts => "EnableAllInterrupts",
            CallKind::SuspendAllInterrupts => "SuspendAllInterrupts",
            CallKind::ResumeAllInterrupts => "ResumeAllInterrupts",
            CallKind::SuspendOSInterrupts => "SuspendOSInterrupts",
            CallKind::ResumeOSInterrupts => "ResumeOSInterrupts",
            CallKind::GetResource => "GetResource",
            CallKind::ReleaseResource => "ReleaseResource",
            CallKind::SetEvent => "SetEvent",
            CallKind::ClearEvent => "ClearEvent",
            CallKind::GetEvent => "GetEvent",
            CallKind::WaitEvent => "WaitEvent",
            CallKind::IncrementCounter => "IncrementCounter",
            CallKind::GetAlarmBase => "GetAlarmBase",
            CallKind::GetAlarm => "GetAlarm",
            CallKind::SetRelAlarm => "SetRelAlarm",
            CallKind::SetAbsAlarm => "SetAbsAlarm",
            CallKind::CancelAlarm => "CancelAlarm",
            CallKind::GetActiveApplicationMode => "GetActiveApplicationMode",
            CallKind::StartOS => "StartOS",
            CallKind::ShutdownOS => "ShutdownOS",
            CallKind::GetCounterValue => "GetCounterValue",
            CallKind::GetElapsedValue => "GetElapsedValue",
        }
    }
}

/// The wire identifier of a call kind.
pub fn id_of(kind: CallKind) -> (r: u32)
    ensures
        r == kind.spec_id(),
        r < CALL_KINDS,
{
    kind.id()
}

/// Every call kind has an identifier below the vocabulary size, and mapping a
/// kind to its identifier and back gives the kind again; mapping an identifier
/// of the table to its kind and back gives the identifier again.
pub proof fn lemma_call_id_round_trip(kind: CallKind, id: u32)
    ensures
        kind.spec_id() < CALL_KINDS,
        CallKind::spec_from_id(kind.spec_id()) == Some(kind),
        id < CALL_KINDS ==> CallKind::spec_from_id(id) is Some,
        CallKind::spec_from_id(id) matches Some(k) ==> k.spec_id() == id,
{
}

/// Distinct call kinds have distinct wire identifiers.
pub proof fn lemma_call_id_injective(a: CallKind, b: CallKind)
    ensures
        a.spec_id() == b.spec_id() ==> a == b,
{
    lemma_call_id_round_trip(a, 0);
    lemma_call_id_round_trip(b, 0);
}

/// What a pointer argument stands for; the receiver on the target supplies
/// the storage, so only the pointee type name is recorded.
#[derive(Clone, Debug)]
pub enum PtrValue {
    Out(String),
    Ref(String),
    Null,
}

/// An argument of a call.
#[derive(Clone, Debug)]
pub enum Value {
    /// A named entity, resolved through the application's symbol table.
    Symbol(String),
    /// A raw integer, used to feed type-violating values to the kernel.
    Num(i64),
    Ptr(PtrValue),
}

/// `v` is the symbol `s`.
pub open spec fn sym_arg(v: Value, s: Seq<char>) -> bool {
    match v {
        Value::Symbol(x) => x@ == s,
        _ => false,
    }
}

/// `v` is an output pointer to a value of the type named `t`.
pub open spec fn out_arg(v: Value, t: Seq<char>) -> bool {
    match v {
        Value::Ptr(PtrValue::Out(x)) => x@ == t,
        _ => false,
    }
}

impl Value {
    pub fn symbol(&self) -> (r: Option<String>)
        ensures
            match *self {
                Value::Symbol(s) => r == Some(s),
                _ => r is None,
            },
    {
        match self {
            Value::Symbol(s) => Some(s.clone()),
            _ => None,
        }
    }
}

fn out_ptr(t: &str) -> (r: Value)
    ensures
        out_arg(r, t@),
{
    Value::Ptr(PtrValue::Out(String::from_str(t)))
}

fn sym(s: &str) -> (r: Value)
    ensures
        sym_arg(r, s@),
{
    Value::Symbol(String::from_str(s))
}

/// A system call: its kind and its arguments.
#[derive(Clone, Debug)]
pub struct Call {
    pub name: CallKind,
    pub args: Vec<Value>,
}

impl Call {
    /// The call carries as many arguments as its kind takes.
    pub open spec fn well_formed(self) -> bool {
        self.args@.len() == self.name.arity()
    }

    pub fn activate_task(id: &str) -> (r: Call)
        ensures
            r.name == CallKind::ActivateTask,
            r.args@.len() == 1,
            sym_arg(r.args@[0], id@),
    {
        Call { name: CallKind::ActivateTask, args: vec![sym(id)] }
    }

    pub fn activate_task_1(id: i64) -> (r: Call)
        ensures
            r.name == CallKind::ActivateTask,
            r.args@.len() == 1,
            r.args@[0] == Value::Num(id),
    {
        Call { name: CallKind::ActivateTask, args: vec![Value::Num(id)] }
    }

    pub fn term_task() -> (r: Call)
        ensures
            r.name == CallKind::TerminateTask,
            r.args@.len() == 0,
    {
        Call { name: CallKind::TerminateTask, args: vec![] }
    }

    pub fn chain_task(id: &str) -> (r: Call)
        ensures
            r.name == CallKind::ChainTask,
            r.args@.len() == 1,
            sym_arg(r.args@[0], id@),
    {
        Call { name: CallKind::ChainTask, args: vec![sym(id)] }
    }

    pub fn chain_task_1(id: i64) -> (r: Call)
        ensures
            r.name == CallKind::ChainTask,
            r.args@.len() == 1,
            r.args@[0] == Value::Num(id),
    {
        Call { name: CallKind::ChainTask, args: vec![Value::Num(id)] }
    }

    pub fn sched() -> (r: Call)
        ensures
            r.name == CallKind::Schedule,
            r.args@.len() == 0,
    {
        Call { name: CallKind::Schedule, args: vec![] }
    }

    pub fn f_sched() -> (r: Call)
        ensures
            r.name == CallKind::ForceSchedule,
            r.args@.len() == 0,
    {
        Call { name: CallKind::ForceSchedule, args: vec![] }
    }

    pub fn get_task_id() -> (r: Call)
        ensures
            r.name == CallKind::GetTaskID,
            r.args@.len() == 1,
            out_arg(r.args@[0], "TaskType"@),
    {
        Call { name: CallKind::GetTaskID, args: vec![out_ptr("TaskType")] }
    }

    pub fn get_task_state(id: &str) -> (r: Call)
        ensures
            r.name == CallKind::GetTaskState,
            r.args@.len() == 2,
            sym_arg(r.args@[0], id@),
            out_arg(r.args@[1], "TaskStateType"@),
    {
        Call { name: CallKind::GetTaskState, args: vec![sym(id), out_ptr("TaskStateType")] }
    }

    pub fn get_task_state_1(id: i64) -> (r: Call)
        ensures
            r.name == CallKind::GetTaskState,
            r.args@.len() == 2,
            r.args@[0] == Value::Num(id),
            out_arg(r.args@[1], "TaskStateType"@),
    {
        Call { name: CallKind::GetTaskState, args: vec![Value::Num(id), out_ptr("TaskStateType")] }
    }

    pub fn disable_int() -> (r: Call)
        ensures
            r.name == CallKind::DisableAllInterrupts,
            r.args@.len() == 0,
    {
        Call { name: CallKind::DisableAllInterrupts, args: vec![] }
    }

    pub fn enable_int() -> (r: Call)
        ensures
            r.name == CallKind::EnableAllInterrupts,
            r.args@.len() == 0,
    {
        Call { name: CallKind::EnableAllInterrupts, args: vec![] }
    }

    pub fn suspend_int() -> (r: Call)
        ensures
            r.name == CallKind::SuspendAllInterrupts,
            r.args@.len() == 0,
    {
        Call { name: CallKind::SuspendAllInterrupts, args: vec![] }
    }

    pub fn resume_int() -> (r: Call)
        ensures
            r.name == CallKind::ResumeAllInterrupts,
            r.args@.len() == 0,
    {
        Call { name: CallKind::ResumeAllInterrupts, args: vec![] }
    }

    pub fn suspend_os_int() -> (r: Call)
        ensures
            r.name == CallKind::SuspendOSInterrupts,
            r.args@.len() == 0,
    {
        Call { name: CallKind::SuspendOSInterrupts, args: vec![] }
    }

    pub fn resume_os_int() -> (r: Call)
        ensures
            r.name == CallKind::ResumeOSInterrupts,
            r.args@.len() == 0,
    {
        Call { name: CallKind::ResumeOSInterrupts, args: vec![] }
    }

    pub fn get_res(res_id: &str) -> (r: Call)
        ensures
            r.name == CallKind::GetResource,
            r.args@.len() == 1,
            sym_arg(r.args@[0], res_id@),
    {
        Call { name: CallKind::GetResource, args: vec![sym(res_id)] }
    }

    pub fn get_res_1(res_id: i64) -> (r: Call)
        ensures
            r.name == CallKind::GetResource,
            r.args@.len() == 1,
            r.args@[0] == Value::Num(res_id),
    {
        Call { name: CallKind::GetResource, args: vec![Value::Num(res_id)] }
    }

    pub fn release_res(res_id: &str) -> (r: Call)
        ensures
            r.name == CallKind::ReleaseResource,
            r.args@.len() == 1,
            sym_arg(r.args@[0], res_id@),
    {
        Call { name: CallKind::ReleaseResource, args: vec![sym(res_id)] }
    }

    pub fn release_res_1(res_id: i64) -> (r: Call)
        ensures
            r.name == CallKind::ReleaseResource,
            r.args@.len() == 1,
            r.args@[0] == Value::Num(res_id),
    {
        Call { name: CallKind::ReleaseResource, args: vec![Value::Num(res_id)] }
    }

    pub fn set_event(tid: &str, mask: &str) -> (r: Call)
        ensures
            r.name == CallKind::SetEvent,
            r.args@.len() == 2,
            sym_arg(r.args@[0], tid@),
            sym_arg(r.args@[1], mask@),
    {
        Call { name: CallKind::SetEvent, args: vec![sym(tid), sym(mask)] }
    }

    pub fn set_event_1(tid: i64, mask: i64) -> (r: Call)
        ensures
            r.name == CallKind::SetEvent,
            r.args@.len() == 2,
            r.args@[0] == Value::Num(tid),
            r.args@[1] == Value::Num(mask),
    {
        Call { name: CallKind::SetEvent, args: vec![Value::Num(tid), Value::Num(mask)] }
    }

    pub fn set_event_2(tid: &str, mask: i64) -> (r: Call)
        ensures
            r.name == CallKind::SetEvent,
            r.args@.len() == 2,
            sym_arg(r.args@[0], tid@),
            r.args@[1] == Value::Num(mask),
    {
        Call { name: CallKind::SetEvent, args: vec![sym(tid), Value::Num(mask)] }
    }

    pub fn set_event_3(tid: i64, mask: &str) -> (r: Call)
        ensures
            r.name == CallKind::SetEvent,
            r.args@.len() == 2,
            r.args@[0] == Value::Num(tid),
            sym_arg(r.args@[1], mask@),
    {
        Call { name: CallKind::SetEvent, args: vec![Value::Num(tid), sym(mask)] }
    }

    pub fn clear_event(mask: &str) -> (r: Call)
        ensures
            r.name == CallKind::ClearEvent,
            r.args@.len() == 1,
            sym_arg(r.args@[0], mask@),
    {
        Call { name: CallKind::ClearEvent, args: vec![sym(mask)] }
    }

    pub fn clear_event_1(mask: i64) -> (r: Call)
        ensures
            r.name == CallKind::ClearEvent,
            r.args@.len() == 1,
            r.args@[0] == Value::Num(mask),
    {
        Call { name: CallKind::ClearEvent, args: vec![Value::Num(mask)] }
    }

    pub fn get_event(tid: &str) -> (r: Call)
        ensures
            r.name == CallKind::GetEvent,
            r.args@.len() == 2,
            sym_arg(r.args@[0], tid@),
            out_arg(r.args@[1], "EventMaskType"@),
    {
        Call { name: CallKind::GetEvent, args: vec![sym(tid), out_ptr("EventMaskType")] }
    }

    pub fn get_event_1(tid: i64) -> (r: Call)
        ensures
            r.name == CallKind::GetEvent,
            r.args@.len() == 2,
            r.args@[0] == Value::Num(tid),
            out_arg(r.args@[1], "EventMaskType"@),
    {
        Call { name: CallKind::GetEvent, args: vec![Value::Num(tid), out_ptr("EventMaskType")] }
    }

    pub fn wait_event(mask: &str) -> (r: Call)
        ensures
            r.name == CallKind::WaitEvent,
            r.args@.len() == 1,
            sym_arg(r.args@[0], mask@),
    {
        Call { name: CallKind::WaitEvent, args: vec![sym(mask)] }
    }

    pub fn wait_event_1(mask: i64) -> (r: Call)
        ensures
            r.name == CallKind::WaitEvent,
            r.args@.len() == 1,
            r.args@[0] == Value::Num(mask),
    {
        Call { name: CallKind::WaitEvent, args: vec![Value::Num(mask)] }
    }

    pub fn inc_counter(counter: &str) -> (r: Call)
        ensures
            r.name == CallKind::IncrementCounter,
            r.args@.len() == 1,
            sym_arg(r.args@[0], counter@),
    {
        Call { name: CallKind::IncrementCounter, args: vec![sym(counter)] }
    }

    pub fn inc_counter_1(counter: i64) -> (r: Call)
        ensures
            r.name == CallKind::IncrementCounter,
            r.args@.len() == 1,
            r.args@[0] == Value::Num(counter),
    {
        Call { name: CallKind::IncrementCounter, args: vec![Value::Num(counter)] }
    }

    pub fn get_counter_value(cid: &str) -> (r: Call)
        ensures
            r.name == CallKind::GetCounterValue,
            r.args@.len() == 2,
            sym_arg(r.args@[0], cid@),
            out_arg(r.args@[1], "TickType"@),
    {
        Call { name: CallKind::GetCounterValue, args: vec![sym(cid), out_ptr("TickType")] }
    }

    pub fn get_counter_value_1(cid: i64) -> (r: Call)
        ensures
            r.name == CallKind::GetCounterValue,
            r.args@.len() == 2,
            r.args@[0] == Value::Num(cid),
            out_arg(r.args@[1], "TickType"@),
    {
        Call { name: CallKind::GetCounterValue, args: vec![Value::Num(cid), out_ptr("TickType")] }
    }

    pub fn get_elapsed(cid: &str) -> (r: Call)
        ensures
            r.name == CallKind::GetElapsedValue,
            r.args@.len() == 3,
            sym_arg(r.args@[0], cid@),
            out_arg(r.args@[1], "TickType"@),
            out_arg(r.args@[2], "TickType"@),
    {
        Call { name: CallKind::GetElapsedValue, args: vec![sym(cid), out_ptr("TickType"), out_ptr("TickType")] }
    }

    pub fn get_elapsed_1(cid: i64) -> (r: Call)
        ensures
            r.name == CallKind::GetElapsedValue,
            r.args@.len() == 3,
            r.args@[0] == Value::Num(cid),
            out_arg(r.args@[1], "TickType"@),
            out_arg(r.args@[2], "TickType"@),
    {
        Call { name: CallKind::GetElapsedValue, args: vec![Value::Num(cid), out_ptr("TickType"), out_ptr("TickType")] }
    }

    pub fn get_alarm_base(aid: &str) -> (r: Call)
        ensures
            r.name == CallKind::GetAlarmBase,
            r.args@.len() == 2,
            sym_arg(r.args@[0], aid@),
            out_arg(r.args@[1], "AlarmBaseType"@),
    {
        Call { name: CallKind::GetAlarmBase, args: vec![sym(aid), out_ptr("AlarmBaseType")] }
    }

    pub fn get_alarm_base_1(aid: i64) -> (r: Call)
        ensures
            r.name == CallKind::GetAlarmBase,
            r.args@.len() == 2,
            r.args@[0] == Value::Num(aid),
            out_arg(r.args@[1], "AlarmBaseType"@),
    {
        Call { name: CallKind::GetAlarmBase, args: vec![Value::Num(aid), out_ptr("AlarmBaseType")] }
    }

    pub fn get_alarm(aid: &str) -> (r: Call)
        ensures
            r.name == CallKind::GetAlarm,
            r.args@.len() == 2,
            sym_arg(r.args@[0], aid@),
            out_arg(r.args@[1], "TickType"@),
    {
        Call { name: CallKind::GetAlarm, args: vec![sym(aid), out_ptr("TickType")] }
    }

    pub fn get_alarm_1(aid: i64) -> (r: Call)
        ensures
            r.name == CallKind::GetAlarm,
            r.args@.len() == 2,
            r.args@[0] == Value::Num(aid),
            out_arg(r.args@[1], "TickType"@),
    {
        Call { name: CallKind::GetAlarm, args: vec![Value::Num(aid), out_ptr("TickType")] }
    }

    pub fn set_rel_alarm(aid: &str, inc: i64, cycle: i64) -> (r: Call)
        ensures
            r.name == CallKind::SetRelAlarm,
            r.args@.len() == 3,
            sym_arg(r.args@[0], aid@),
            r.args@[1] == Value::Num(inc),
            r.args@[2] == Value::Num(cycle),
    {
        Call { name: CallKind::SetRelAlarm, args: vec![sym(aid), Value::Num(inc), Value::Num(cycle)] }
    }

    pub fn set_rel_alarm_1(aid: i64, inc: i64, cycle: i64) -> (r: Call)
        ensures
            r.name == CallKind::SetRelAlarm,
            r.args@.len() == 3,
            r.args@[0] == Value::Num(aid),
            r.args@[1] == Value::Num(inc),
            r.args@[2] == Value::Num(cycle),
    {
        Call { name: CallKind::SetRelAlarm, args: vec![Value::Num(aid), Value::Num(inc), Value::Num(cycle)] }
    }

    pub fn set_abs_alarm(aid: &str, start: i64, cycle: i64) -> (r: Call)
        ensures
            r.name == CallKind::SetAbsAlarm,
            r.args@.len() == 3,
            sym_arg(r.args@[0], aid@),
            r.args@[1] == Value::Num(start),
            r.args@[2] == Value::Num(cycle),
    {
        Call { name: CallKind::SetAbsAlarm, args: vec![sym(aid), Value::Num(start), Value::Num(cycle)] }
    }

    pub fn set_abs_alarm_1(aid: i64, start: i64, cycle: i64) -> (r: Call)
        ensures
            r.name == CallKind::SetAbsAlarm,
            r.args@.len() == 3,
            r.args@[0] == Value::Num(aid),
            r.args@[1] == Value::Num(start),
            r.args@[2] == Value::Num(cycle),
    {
        Call { name: CallKind::SetAbsAlarm, args: vec![Value::Num(aid), Value::Num(start), Value::Num(cycle)] }
    }

    pub fn cancel_alarm(aid: &str) -> (r: Call)
        ensures
            r.name == CallKind::CancelAlarm,
            r.args@.len() == 1,
            sym_arg(r.args@[0], aid@),
    {
        Call { name: CallKind::CancelAlarm, args: vec![sym(aid)] }
    }

    pub fn cancel_alarm_1(aid: i64) -> (r: Call)
        ensures
            r.name == CallKind::CancelAlarm,
            r.args@.len() == 1,
            r.args@[0] == Value::Num(aid),
    {
        Call { name: CallKind::CancelAlarm, args: vec![Value::Num(aid)] }
    }

    pub fn get_app_mode() -> (r: Call)
        ensures
            r.name == CallKind::GetActiveApplicationMode,
            r.args@.len() == 0,
    {
        Call { name: CallKind::GetActiveApplicationMode, args: vec![] }
    }

    pub fn start_os() -> (r: Call)
        ensures
            r.name == CallKind::StartOS,
            r.args@.len() == 1,
            sym_arg(r.args@[0], "OSDEFAULTAPPMODE"@),
    {
        Call { name: CallKind::StartOS, args: vec![sym("OSDEFAULTAPPMODE")] }
    }

    pub fn shutdown(err: i64) -> (r: Call)
        ensures
            r.name == CallKind::ShutdownOS,
            r.args@.len() == 1,
            r.args@[0] == Value::Num(err),
    {
        Call { name: CallKind::ShutdownOS, args: vec![Value::Num(err)] }
    }
}

/// The call sequence of one task.
#[derive(Clone, Debug)]
pub struct TaskInst {
    pub id: String,
    pub seq: Vec<Call>,
}

impl TaskInst {
    pub fn new(id: String) -> (r: TaskInst)
        ensures
            r.id == id,
            r.seq@.len() == 0,
    {
        TaskInst { id, seq: Vec::new() }
    }
}

/// The call sequence of one ISR.
#[derive(Clone, Debug)]
pub struct ISRInst {
    pub meta: ISR,
    pub seq: Vec<Call>,
}

impl ISRInst {
    pub fn with_meta(meta: &ISR) -> (r: ISRInst)
        ensures
            r.meta == *meta,
            r.seq@.len() == 0,
    {
        ISRInst { meta: meta.duplicate(), seq: Vec::new() }
    }
}

/// The hook at position `i` of the fixed order
/// ERROR, PRE_TASK, POST_TASK, STARTUP, SHUTDOWN.
pub open spec fn hook_at(i: nat) -> HookType {
    if i == 0 {
        HookType::Error
    } else if i == 1 {
        HookType::PreTask
    } else if i == 2 {
        HookType::PostTask
    } else if i == 3 {
        HookType::Startup
    } else {
        HookType::Shutdown
    }
}

/// Number of hook kinds.
pub const HOOK_KINDS: usize = 5;

pub fn hook_at_index(i: usize) -> (r: HookType)
    requires
        i < HOOK_KINDS,
    ensures
        r == hook_at(i as nat),
{
    if i == 0 {
        HookType::Error
    } else if i == 1 {
        HookType::PreTask
    } else if i == 2 {
        HookType::PostTask
    } else if i == 3 {
        HookType::Startup
    } else {
        HookType::Shutdown
    }
}

/// The hook sequences of a program; a hook that is not enabled has none.
#[derive(Clone, Debug)]
pub struct HookInst {
    pub enabled: HookSet,
    pub error: Option<Vec<Call>>,
    pub startup: Option<Vec<Call>>,
    pub shutdown: Option<Vec<Call>>,
    pub pre_task: Option<Vec<Call>>,
    pub post_task: Option<Vec<Call>>,
}

impl HookInst {
    /// The sequence kept for hook `h`, if any.
    pub open spec fn slot(self, h: HookType) -> Option<Vec<Call>> {
        match h {
            HookType::Error => self.error,
            HookType::PreTask => self.pre_task,
            HookType::PostTask => self.post_task,
            HookType::Startup => self.startup,
            HookType::Shutdown => self.shutdown,
        }
    }

    /// The calls of hook `h`; empty for an absent hook.
    pub open spec fn calls(self, h: HookType) -> Seq<Call> {
        match self.slot(h) {
            Some(v) => v@,
            None => Seq::empty(),
        }
    }

    /// A sequence is present exactly for the enabled hooks.
    pub open spec fn wf(self) -> bool {
        forall|h: HookType| (#[trigger] self.slot(h)) is Some <==> self.enabled.has(h)
    }

    /// The present hooks at positions `i` and later of the fixed order.
    pub open spec fn present_from(self, i: nat) -> Seq<HookType>
        decreases 5 - i,
    {
        if i >= 5 {
            Seq::empty()
        } else if self.slot(hook_at(i)) is Some {
            seq![hook_at(i)] + self.present_from(i + 1)
        } else {
            self.present_from(i + 1)
        }
    }

    /// The present hooks, in the fixed order.
    pub open spec fn present(self) -> Seq<HookType> {
        self.present_from(0)
    }

    pub fn new(enabled: HookSet) -> (r: HookInst)
        ensures
            r.enabled == enabled,
            r.wf(),
            forall|h: HookType| #[trigger] r.calls(h).len() == 0,
    {
        let mut ret = HookInst {
            enabled,
            error: None,
            startup: None,
            shutdown: None,
            pre_task: None,
            post_task: None,
        };
        if enabled.contains(HookType::Error) {
            ret.error = Some(Vec::new());
        }
        if enabled.contains(HookType::Startup) {
            ret.startup = Some(Vec::new());
        }
        if enabled.contains(HookType::Shutdown) {
            ret.shutdown = Some(Vec::new());
        }
        if enabled.contains(HookType::PreTask) {
            ret.pre_task = Some(Vec::new());
        }
        if enabled.contains(HookType::PostTask) {
            ret.post_task = Some(Vec::new());
        }
        ret
    }

    pub fn get(&self, h: HookType) -> (r: Option<&Vec<Call>>)
        ensures
            match r {
                Some(v) => self.slot(h) == Some(*v),
                None => self.slot(h) is None,
            },
    {
        match h {
            HookType::Error => self.error.as_ref(),
            HookType::PreTask => self.pre_task.as_ref(),
            HookType::PostTask => self.post_task.as_ref(),
            HookType::Startup => self.startup.as_ref(),
            HookType::Shutdown => self.shutdown.as_ref(),
        }
    }

    /// Appends `c` to the sequence of hook `h`.
    pub fn push(&mut self, h: HookType, c: Call)
        requires
            old(self).slot(h) is Some,
        ensures
            final(self).enabled == old(self).enabled,
            final(self).slot(h) is Some,
            final(self).calls(h) == old(self).calls(h).push(c),
            forall|g: HookType| g != h ==> #[trigger] final(self).slot(g) == old(self).slot(g),
    {
        match h {
            HookType::Error => {
                if let Some(v) = &mut self.error {
                    v.push(c);
                }
            },
            HookType::PreTask => {
                if let Some(v) = &mut self.pre_task {
                    v.push(c);
                }
            },
            HookType::PostTask => {
                if let Some(v) = &mut self.post_task {
                    v.push(c);
                }
            },
            HookType::Startup => {
                if let Some(v) = &mut self.startup {
                    v.push(c);
                }
            },
            HookType::Shutdown => {
                if let Some(v) = &mut self.shutdown {
                    v.push(c);
                }
            },
        }
    }

    /// Walks the present hooks in the fixed order.
    pub fn iter_hook(&self) -> (r: IterHook<'_>)
        ensures
            r.hook == *self,
            r.i == 0,
    {
        IterHook { i: 0, hook: self }
    }

    /// The present hooks, in the fixed order.
    pub fn hook_kinds(&self) -> (r: Vec<HookType>)
        ensures
            r@ == self.present(),
    {
        let mut it = self.iter_hook();
        let mut r: Vec<HookType> = Vec::new();
        while it.i < HOOK_KINDS
            invariant
                it.hook == *self,
                it.i <= HOOK_KINDS,
                r@ + self.present_from(it.i as nat) == self.present(),
            decreases HOOK_KINDS - it.i,
        {
            match it.next() {
                Some((h, _)) => {
                    r.push(h);
                },
                None => {},
            }
        }
        proof {
            assert(self.present_from(it.i as nat) =~= Seq::empty());
            assert(r@ + Seq::empty() =~= r@);
        }
        r
    }
}

proof fn lemma_present_from(hooks: HookInst, i: nat)
    requires
        i <= 5,
    ensures
        forall|k: int|
            0 <= k < hooks.present_from(i).len() ==> (#[trigger] hooks.present_from(i)[k]).rank() >= i
                && hooks.slot(hooks.present_from(i)[k]) is Some,
        forall|h: HookType|
            h.rank() >= i && (#[trigger] hooks.slot(h)) is Some ==> hooks.present_from(i).contains(h),
        forall|a: int, b: int|
            0 <= a < b < hooks.present_from(i).len() ==> (#[trigger] hooks.present_from(i)[a]).rank()
                < (#[trigger] hooks.present_from(i)[b]).rank(),
    decreases 5 - i,
{
    if i < 5 {
        lemma_present_from(hooks, i + 1);
        let rest = hooks.present_from(i + 1);
        let cur = hook_at(i);
        assert(cur.rank() == i);
        if hooks.slot(cur) is Some {
            let all = hooks.present_from(i);
            assert(all == seq![cur] + rest);
            assert forall|k: int| 0 <= k < all.len() implies (#[trigger] all[k]).rank() >= i
                && hooks.slot(all[k]) is Some by {
                if k > 0 {
                    assert(all[k] == rest[k - 1]);
                }
            }
            assert forall|h: HookType| h.rank() >= i && (#[trigger] hooks.slot(h)) is Some implies all.contains(h) by {
                if h.rank() == i {
                    assert(h == cur);
                    assert(all[0] == h);
                } else {
                    let k = choose|k: int| 0 <= k < rest.len() && rest[k] == h;
                    assert(all[k + 1] == h);
                }
            }
            assert forall|a: int, b: int| 0 <= a < b < all.len() implies (#[trigger] all[a]).rank()
                < (#[trigger] all[b]).rank() by {
                assert(all[b] == rest[b - 1]);
                if a > 0 {
                    assert(all[a] == rest[a - 1]);
                }
            }
        } else {
            assert forall|h: HookType| h.rank() >= i && (#[trigger] hooks.slot(h)) is Some implies hooks.present_from(i).contains(h) by {
                if h.rank() == i {
                    assert(h == cur);
                }
            }
        }
    }
}

/// The hooks that [`HookInst::iter_hook`] yields are exactly those with a
/// sequence (for a well-formed `HookInst`, the enabled ones), each once, in
/// the fixed order ERROR, PRE_TASK, POST_TASK, STARTUP, SHUTDOWN.
pub proof fn lemma_present_order(hooks: HookInst)
    ensures
        forall|k: int| 0 <= k < hooks.present().len() ==> (#[trigger] hooks.slot(hooks.present()[k])) is Some,
        forall|h: HookType| (#[trigger] hooks.slot(h)) is Some ==> hooks.present().contains(h),
        hooks.wf() ==> forall|h: HookType| hooks.present().contains(h) <==> #[trigger] hooks.enabled.has(h),
        forall|a: int, b: int|
            0 <= a < b < hooks.present().len() ==> (#[trigger] hooks.present()[a]).rank()
                < (#[trigger] hooks.present()[b]).rank(),
{
    lemma_present_from(hooks, 0);
    let p = hooks.present();
    assert forall|k: int| 0 <= k < p.len() implies (#[trigger] hooks.slot(p[k])) is Some by {
        assert(hooks.slot(p[k]) is Some);
    }
    if hooks.wf() {
        assert forall|h: HookType| p.contains(h) <==> #[trigger] hooks.enabled.has(h) by {
            if p.contains(h) {
                let k = choose|k: int| 0 <= k < p.len() && p[k] == h;
                assert(hooks.slot(p[k]) is Some);
            }
            if hooks.enabled.has(h) {
                assert(hooks.slot(h) is Some);
            }
        }
    }
}

/// A cursor over the present hooks of a [`HookInst`].
pub struct IterHook<'a> {
    /// Position in the fixed hook order of the next hook to look at.
    pub i: usize,
    pub hook: &'a HookInst,
}

impl<'a> IterHook<'a> {
    /// The hooks that are still to come.
    pub open spec fn remaining(self) -> Seq<HookType> {
        self.hook.present_from(self.i as nat)
    }

    /// The next present hook and its calls, or `None` when all have been
    /// seen.
    pub fn next(&mut self) -> (r: Option<(HookType, &'a Vec<Call>)>)
        requires
            old(self).i <= HOOK_KINDS,
        ensures
            final(self).hook == old(self).hook,
            final(self).i <= HOOK_KINDS,
            final(self).i > old(self).i || old(self).i == HOOK_KINDS,
            match r {
                Some((h, v)) => {
                    &&& old(self).remaining().len() > 0
                    &&& h == old(self).remaining()[0]
                    &&& old(self).hook.slot(h) == Some(*v)
                    &&& final(self).remaining() == old(self).remaining().drop_first()
                },
                None => old(self).remaining().len() == 0 && final(self).i == HOOK_KINDS,
            },
    {
        while self.i < HOOK_KINDS
            invariant
                self.hook == old(self).hook,
                old(self).i <= self.i <= HOOK_KINDS,
                self.remaining() == old(self).remaining(),
            decreases HOOK_KINDS - self.i,
        {
            let h = hook_at_index(self.i);
            self.i = self.i + 1;
            if let Some(v) = self.hook.get(h) {
                return Some((h, v));
            }
        }
        None
    }
}

/// A generated program: one call sequence per task, per ISR and per enabled
/// hook.
#[derive(Clone, Debug)]
pub struct Inst {
    pub tasks: Vec<TaskInst>,
    pub hooks: HookInst,
    pub isr: Vec<ISRInst>,
}

impl Inst {
    /// The program has one task sequence per configured task and one ISR
    /// sequence per configured ISR, in the configured order, and a hook
    /// sequence exactly for each enabled hook.
    pub open spec fn shaped_for(self, app: APPConfig) -> bool {
        &&& self.tasks@.len() == app.tasks@.len()
        &&& forall|i: int|
            0 <= i < self.tasks@.len() ==> (#[trigger] self.tasks@[i]).id == app.tasks@[i].id
        &&& self.isr@.len() == app.isr@.len()
        &&& forall|i: int|
            0 <= i < self.isr@.len() ==> (#[trigger] self.isr@[i]).meta == app.isr@[i]
        &&& self.hooks.enabled == app.enabled_hook
        &&& self.hooks.wf()
    }

    /// Every sequence of the program is empty.
    pub open spec fn is_blank(self) -> bool {
        &&& forall|i: int| 0 <= i < self.tasks@.len() ==> (#[trigger] self.tasks@[i]).seq@.len() == 0
        &&& forall|i: int| 0 <= i < self.isr@.len() ==> (#[trigger] self.isr@[i]).seq@.len() == 0
        &&& forall|h: HookType| #[trigger] self.hooks.calls(h).len() == 0
    }

    pub fn new(app: &APPConfig) -> (r: Inst)
        ensures
            r.shaped_for(*app),
            r.is_blank(),
    {
        let mut isr: Vec<ISRInst> = Vec::new();
        let mut i: usize = 0;
        while i < app.isr.len()
            invariant
                i <= app.isr@.len(),
                isr@.len() == i,
                forall|j: int| 0 <= j < i ==> (#[trigger] isr@[j]).meta == app.isr@[j] && isr@[j].seq@.len() == 0,
            decreases app.isr@.len() - i,
        {
            isr.push(ISRInst::with_meta(&app.isr[i]));
            i = i + 1;
        }
        let mut tasks: Vec<TaskInst> = Vec::new();
        let mut i: usize = 0;
        while i < app.tasks.len()
            invariant
                i <= app.tasks@.len(),
                tasks@.len() == i,
                forall|j: int| 0 <= j < i ==> (#[trigger] tasks@[j]).id == app.tasks@[j].id && tasks@[j].seq@.len() == 0,
            decreases app.tasks@.len() - i,
        {
            tasks.push(TaskInst::new(app.tasks[i].id.clone()));
            i = i + 1;
        }
        let hooks = HookInst::new(app.enabled_hook);
        Inst { tasks, hooks, isr }
    }
}

} // verus!
