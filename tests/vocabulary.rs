use rtkaller::prog::{id_of, Call, CallKind, PtrValue, Value};

const TABLE: [(CallKind, &str, u32); 30] = [
    (CallKind::ActivateTask, "ActivateTask", 0),
    (CallKind::TerminateTask, "TerminateTask", 1),
    (CallKind::ChainTask, "ChainTask", 2),
    (CallKind::Schedule, "Schedule", 3),
    (CallKind::ForceSchedule, "ForceSchedule", 4),
    (CallKind::GetTaskID, "GetTaskID", 5),
    (CallKind::GetTaskState, "GetTaskState", 6),
    (CallKind::DisableAllInterrupts, "DisableAllInterrupts", 7),
    (CallKind::EnableAllInterrupts, "EnableAllInterrupts", 8),
    (CallKind::SuspendAllInterrupts, "SuspendAllInterrupts", 9),
    (CallKind::ResumeAllInterrupts, "ResumeAllInterrupts", 10),
    (CallKind::SuspendOSInterrupts, "SuspendOSInterrupts", 11),
    (CallKind::ResumeOSInterrupts, "ResumeOSInterrupts", 12),
    (CallKind::GetResource, "GetResource", 13),
    (CallKind::ReleaseResource, "ReleaseResource", 14),
    (CallKind::SetEvent, "SetEvent", 15),
    (CallKind::ClearEvent, "ClearEvent", 16),
    (CallKind::GetEvent, "GetEvent", 17),
    (CallKind::WaitEvent, "WaitEvent", 18),
    (CallKind::IncrementCounter, "IncrementCounter", 19),
    (CallKind::GetAlarmBase, "GetAlarmBase", 20),
    (CallKind::GetAlarm, "GetAlarm", 21),
    (CallKind::SetRelAlarm, "SetRelAlarm", 22),
    (CallKind::SetAbsAlarm, "SetAbsAlarm", 23),
    (CallKind::CancelAlarm, "CancelAlarm", 24),
    (CallKind::GetActiveApplicationMode, "GetActiveApplicationMode", 25),
    (CallKind::StartOS, "StartOS", 26),
    (CallKind::ShutdownOS, "ShutdownOS", 27),
    (CallKind::GetCounterValue, "GetCounterValue", 28),
    (CallKind::GetElapsedValue, "GetElapsedValue", 29),
];

#[test]
fn call_ids_match_table() {
    for (kind, name, id) in TABLE.iter() {
        assert_eq!(kind.id(), *id);
        assert_eq!(id_of(*kind), *id);
        assert_eq!(kind.name(), *name);
    }
}

#[test]
fn call_id_round_trip() {
    for id in 0..30u32 {
        let kind = CallKind::from_id(id).unwrap();
        assert_eq!(kind.id(), id);
        let by_name = TABLE.iter().find(|(_, n, _)| *n == kind.name()).unwrap();
        assert_eq!(by_name.2, id);
    }
    assert!(CallKind::from_id(30).is_none());
    assert!(CallKind::from_id(0xFFFF).is_none());
}

fn sym(v: &Value) -> &str {
    match v {
        Value::Symbol(s) => s.as_str(),
        _ => panic!("not a symbol"),
    }
}

#[test]
fn constructors_fix_shape() {
    let c = Call::activate_task("Task1");
    assert_eq!(c.name, CallKind::ActivateTask);
    assert_eq!(c.args.len(), 1);
    assert_eq!(sym(&c.args[0]), "Task1");

    let c = Call::get_elapsed("Counter1");
    assert_eq!(c.name, CallKind::GetElapsedValue);
    assert_eq!(c.args.len(), 3);
    assert!(matches!(&c.args[1], Value::Ptr(PtrValue::Out(t)) if t == "TickType"));

    let c = Call::set_event_2("Task2", 5);
    assert_eq!(c.name, CallKind::SetEvent);
    assert_eq!(sym(&c.args[0]), "Task2");
    assert!(matches!(c.args[1], Value::Num(5)));

    let c = Call::set_rel_alarm_1(-1, 2, 3);
    assert_eq!(c.name, CallKind::SetRelAlarm);
    assert!(matches!(c.args[0], Value::Num(-1)));
    assert!(matches!(c.args[2], Value::Num(3)));

    let c = Call::start_os();
    assert_eq!(c.name, CallKind::StartOS);
    assert_eq!(sym(&c.args[0]), "OSDEFAULTAPPMODE");

    assert!(Call::term_task().args.is_empty());
    assert_eq!(Call::shutdown(7).name, CallKind::ShutdownOS);
}

#[test]
fn value_symbol_accessor() {
    assert_eq!(Value::Symbol("Event1".to_string()).symbol(), Some("Event1".to_string()));
    assert_eq!(Value::Num(3).symbol(), None);
    assert_eq!(Value::Ptr(PtrValue::Null).symbol(), None);
}

#[test]
fn call_text_renders_arguments() {
    assert_eq!(Call::activate_task("Task1").to_text(), "ActivateTask(Task1)");
    assert_eq!(Call::term_task().to_text(), "TerminateTask()");
    assert_eq!(Call::set_event_1(-12, 40).to_text(), "SetEvent(-12, 40)");
    assert_eq!(
        Call::get_task_state("Task3").to_text(),
        "GetTaskState(Task3, &(TaskStateType){0})"
    );
    assert_eq!(
        Call::set_abs_alarm_1(i64::MIN, 0, 9).to_text(),
        "SetAbsAlarm(-9223372036854775808, 0, 9)"
    );
}
