use rtkaller::gen::{gen, should_stop, Context, TaskState};
use rtkaller::model::{APPConfig, HookSet, HookType, InstType, ISR, Task};
use rtkaller::primitives::{
    activate_task, cancel_alarm, get_alarm, rand_call, rand_event_call, rand_reg_signed,
    rand_reg_unsigned, rand_res_call, rand_task_call, RegWidth,
};
use rtkaller::prog::{Call, CallKind, Inst, Value};

const INTERRUPTS: [CallKind; 6] = [
    CallKind::DisableAllInterrupts,
    CallKind::EnableAllInterrupts,
    CallKind::SuspendAllInterrupts,
    CallKind::ResumeAllInterrupts,
    CallKind::SuspendOSInterrupts,
    CallKind::ResumeOSInterrupts,
];

fn with_isr1(mut app: APPConfig) -> APPConfig {
    app.isr.push(ISR { is_isr1: true, id: "fast_isr".to_string(), handler: None });
    app
}

fn entity_lens(p: &Inst) -> Vec<usize> {
    let mut v: Vec<usize> = p.tasks.iter().map(|t| t.seq.len()).collect();
    v.extend(p.isr.iter().map(|i| i.seq.len()));
    let mut it = p.hooks.iter_hook();
    while let Some((_, s)) = it.next() {
        v.push(s.len());
    }
    v
}

#[test]
fn generated_program_is_complete() {
    let app = APPConfig::default();
    for _ in 0..50 {
        let p = gen(&app, RegWidth::Bits32);
        assert_eq!(p.tasks.len(), 3);
        assert_eq!(p.isr.len(), 3);
        let lens = entity_lens(&p);
        assert_eq!(lens.len(), 3 + 3 + 4);
        assert!(lens.iter().all(|n| *n > 0));
        assert!(lens.iter().any(|n| *n >= 4));
    }
}

#[test]
fn every_task_ends_with_termination() {
    let app = APPConfig::default();
    for _ in 0..50 {
        let p = gen(&app, RegWidth::Bits16);
        for t in p.tasks.iter() {
            let last = t.seq.last().unwrap();
            assert!(last.name == CallKind::TerminateTask || last.name == CallKind::ChainTask);
            for c in &t.seq[..t.seq.len() - 1] {
                assert!(c.name != CallKind::TerminateTask && c.name != CallKind::ChainTask);
            }
        }
    }
}

/// Replays a task's own sequence: after a GetResource or WaitEvent on a
/// symbol, and until the state could have been left, no blocking call may
/// follow. Waking by another entity is not visible here, so only the
/// holding rule is checked along the sequence.
#[test]
fn holding_task_never_blocks() {
    let app = APPConfig::default();
    for _ in 0..50 {
        let p = gen(&app, RegWidth::Bits32);
        for t in p.tasks.iter() {
            let mut holding: Option<String> = None;
            let mut waiting = false;
            for c in t.seq.iter() {
                if let Some(r) = &holding {
                    assert!(
                        c.name != CallKind::Schedule
                            && c.name != CallKind::WaitEvent
                            && c.name != CallKind::GetResource
                    );
                    if c.name == CallKind::ReleaseResource {
                        if let Some(Value::Symbol(s)) = c.args.first() {
                            if s == r {
                                holding = None;
                            }
                        }
                    }
                } else if !waiting {
                    if let Some(Value::Symbol(s)) = c.args.first() {
                        if c.name == CallKind::GetResource {
                            holding = Some(s.clone());
                        } else if c.name == CallKind::WaitEvent {
                            waiting = true;
                        }
                    }
                } else {
                    // Another entity may have woken the task in between.
                    waiting = false;
                }
            }
        }
    }
}

#[test]
fn category1_isr_only_toggles_interrupts() {
    let app = with_isr1(APPConfig::default());
    for _ in 0..50 {
        let p = gen(&app, RegWidth::Bits8);
        let fast = p.isr.iter().find(|i| i.meta.is_isr1).unwrap();
        assert!(!fast.seq.is_empty());
        assert!(fast.seq.iter().all(|c| INTERRUPTS.contains(&c.name)));
    }
    let ctx = InstType::Isr(ISR { is_isr1: true, id: "fast_isr".to_string(), handler: None });
    for _ in 0..500 {
        assert!(INTERRUPTS.contains(&rand_call(&app, &ctx, RegWidth::Bits32).name));
    }
}

#[test]
fn hook_contexts_are_restricted() {
    let app = APPConfig::default();
    for _ in 0..300 {
        let c = rand_call(&app, &InstType::Hook(HookType::Shutdown), RegWidth::Bits32);
        assert_eq!(c.name, CallKind::GetActiveApplicationMode);
        let c = rand_call(&app, &InstType::Hook(HookType::Startup), RegWidth::Bits32);
        assert!(c.name == CallKind::GetActiveApplicationMode || c.name == CallKind::ShutdownOS);
        let c = rand_call(&app, &InstType::Hook(HookType::PreTask), RegWidth::Bits32);
        assert!(c.name != CallKind::ShutdownOS && c.name != CallKind::Schedule);
    }
}

#[test]
fn task_context_never_terminates_early() {
    let app = APPConfig::default();
    let ctx = InstType::Task(app.tasks[0].clone());
    for _ in 0..500 {
        let c = rand_call(&app, &ctx, RegWidth::Bits64);
        assert!(c.name != CallKind::TerminateTask && c.name != CallKind::ChainTask);
    }
}

#[test]
fn register_values_stay_in_range() {
    for _ in 0..500 {
        let s = rand_reg_signed(RegWidth::Bits8);
        assert!((-128..=127).contains(&s));
        let u = rand_reg_unsigned(RegWidth::Bits16);
        assert!((0..=65535).contains(&u));
        let u = rand_reg_unsigned(RegWidth::Bits64);
        assert!((0..=u32::MAX as i64).contains(&u));
    }
    assert_eq!(RegWidth::from_bits(16), Some(RegWidth::Bits16));
    assert_eq!(RegWidth::from_bits(12), None);
    assert_eq!(RegWidth::Bits64.bits(), 64);
}

#[test]
fn factories_name_configured_entities() {
    let app = APPConfig::default();
    for _ in 0..200 {
        match &activate_task(&app, RegWidth::Bits32).args[0] {
            Value::Symbol(s) => assert!(app.tasks.iter().any(|t| &t.id == s)),
            Value::Num(n) => assert!(i32::try_from(*n).is_ok()),
            _ => panic!("pointer argument"),
        }
        match &get_alarm(&app, RegWidth::Bits32).args[0] {
            Value::Symbol(s) => assert!(app.alarms.contains(s)),
            Value::Num(_) => {}
            _ => panic!("pointer argument"),
        }
    }
    let empty = APPConfig { alarms: vec![], ..APPConfig::default() };
    assert!(matches!(cancel_alarm(&empty, RegWidth::Bits8).args[0], Value::Num(_)));
}

#[test]
fn stop_condition() {
    let app = APPConfig {
        enabled_hook: HookSet::empty().with(HookType::Startup),
        isr: vec![],
        tasks: vec![Task { id: "T".to_string(), events: vec![], resources: vec![] }],
        counters: vec![],
        alarms: vec![],
        sym_val: vec![],
    };
    let mut p = Inst::new(&app);
    assert!(!should_stop(&p));
    for _ in 0..4 {
        p.tasks[0].seq.push(Call::sched());
    }
    assert!(!should_stop(&p));
    p.hooks.push(HookType::Startup, Call::get_app_mode());
    assert!(should_stop(&p));
}

#[test]
fn fresh_context_is_normal() {
    let p = Inst::new(&APPConfig::default());
    let ctx = Context::new(&p);
    assert_eq!(ctx.states.len(), 3);
    assert!(ctx.states.iter().all(|s| matches!(s, TaskState::Normal)));
    assert_eq!(TaskState::WaitEvent("E".to_string()).waiting_event(), Some("E".to_string()));
    assert_eq!(TaskState::HoldRes("R".to_string()).waiting_event(), None);
}

#[test]
fn generated_symbols_resolve_when_named() {
    let mut app = APPConfig::default();
    let names = [
        "Task1", "Task2", "Task3", "Event1", "Event2", "Event3", "Resource1", "Resource2",
        "Resource3", "Counter1", "Counter2", "Alarm1", "Alarm2", "Alarm3", "OSDEFAULTAPPMODE",
    ];
    app.sym_val = names.iter().enumerate().map(|(i, n)| (n.to_string(), i as u32)).collect();
    for _ in 0..100 {
        let p = gen(&app, RegWidth::Bits32);
        match rtkaller::wire::serialize(&p, &app) {
            Ok(bufs) => assert_eq!(bufs.len(), 3 + 3 + 4),
            Err(rtkaller::wire::SerializeError::Overflow) => {}
            Err(e) => panic!("unexpected {:?}", e),
        }
    }
}

#[test]
fn families_keep_to_their_calls() {
    let app = APPConfig::default();
    let task = InstType::Task(app.tasks[0].clone());
    for _ in 0..300 {
        let k = rand_task_call(&app, &task, RegWidth::Bits32).name;
        assert!([
            CallKind::ActivateTask,
            CallKind::Schedule,
            CallKind::ForceSchedule,
            CallKind::GetTaskID,
            CallKind::GetTaskState
        ]
        .contains(&k));
        let k = rand_event_call(&app, &task, RegWidth::Bits32).name;
        assert!([CallKind::SetEvent, CallKind::ClearEvent, CallKind::GetEvent, CallKind::WaitEvent]
            .contains(&k));
        let k = rand_res_call(&app, &task, RegWidth::Bits32).name;
        assert!(k == CallKind::GetResource || k == CallKind::ReleaseResource);
    }
}
