use rtkaller::model::{APPConfig, HookSet, HookType, ISR, Task};
use rtkaller::prog::{Call, Inst, Value};
use rtkaller::wire::{
    hook_var_name, isr_task_var_name, serialize, serialize_calls, to_task_state_var,
    SerializeError, BUF_LEN,
};

fn table(pairs: &[(&str, u32)]) -> Vec<(String, u32)> {
    pairs.iter().map(|(k, v)| (k.to_string(), *v)).collect()
}

#[test]
fn single_activate_task_layout() {
    let calls = vec![Call::activate_task("Task1")];
    let buf = serialize_calls(&calls, &table(&[("Task1", 7)])).unwrap();
    assert_eq!(buf.len(), 1024);
    let head: [u8; 24] = [
        0, 0, 0, 0, 7, 0, 0, 0, 0, 0, 0, 0, 0, 0, 0, 0, 0, 0, 0, 0, 0xFF, 0xFF, 0, 0,
    ];
    assert_eq!(&buf[..24], &head[..]);
    assert!(buf[24..].iter().all(|b| *b == 0));
}

fn read_u32(b: &[u8], at: usize) -> u32 {
    u32::from_le_bytes([b[at], b[at + 1], b[at + 2], b[at + 3]])
}

#[test]
fn serialized_records_read_back() {
    let calls = vec![
        Call::set_event("Task2", "Event3"),
        Call::shutdown(-1),
        Call::get_task_id(),
        Call::set_rel_alarm("Alarm1", 0x1_0000_0005, 9),
    ];
    let t = table(&[("Task2", 1), ("Event3", 2), ("Alarm1", 3), ("Task2", 99)]);
    let buf = serialize_calls(&calls, &t).unwrap();
    let mut records = vec![];
    let mut at = 0;
    while read_u32(&buf, at) != 0xFFFF {
        let slots: Vec<u32> = (0..4).map(|k| read_u32(&buf, at + 4 + 4 * k)).collect();
        records.push((read_u32(&buf, at), slots));
        at += 20;
    }
    assert_eq!(
        records,
        vec![
            (15, vec![1, 2, 0, 0]),
            (27, vec![0xFFFF_FFFF, 0, 0, 0]),
            (5, vec![0, 0, 0, 0]),
            (22, vec![3, 5, 9, 0]),
        ]
    );
    assert_eq!(at, 80);
}

#[test]
fn unknown_symbol_is_reported() {
    let calls = vec![Call::activate_task("Task1"), Call::set_event("Task1", "EventX")];
    match serialize_calls(&calls, &table(&[("Task1", 0)])) {
        Err(SerializeError::UnknownSymbol(s)) => assert_eq!(s, "EventX"),
        other => panic!("unexpected {:?}", other),
    }
}

#[test]
fn too_many_calls_overflow() {
    let fits: Vec<Call> = (0..51).map(|_| Call::sched()).collect();
    let buf = serialize_calls(&fits, &vec![]).unwrap();
    assert_eq!(buf.len(), BUF_LEN);
    assert_eq!(read_u32(&buf, 1020), 0xFFFF);
    let too_many: Vec<Call> = (0..52).map(|_| Call::sched()).collect();
    assert!(matches!(serialize_calls(&too_many, &vec![]), Err(SerializeError::Overflow)));
    let wide = vec![Call { name: rtkaller::prog::CallKind::SetEvent, args: vec![Value::Num(1); 5] }];
    assert!(matches!(serialize_calls(&wide, &vec![]), Err(SerializeError::Overflow)));
}

#[test]
fn variable_names() {
    assert_eq!(hook_var_name(HookType::Error), "ERROR_HOOK_DATA");
    assert_eq!(hook_var_name(HookType::PreTask), "PRE_TASK_DATA");
    assert_eq!(hook_var_name(HookType::PostTask), "POST_TASK_DATA");
    assert_eq!(hook_var_name(HookType::Startup), "STARTUP_DATA");
    assert_eq!(hook_var_name(HookType::Shutdown), "SHUTDOWN_DATA");
    assert_eq!(isr_task_var_name("Task1"), "Task1_DATA");
    assert_eq!(to_task_state_var("Task1"), "Task1_STATE");
}

fn small_app() -> APPConfig {
    APPConfig {
        enabled_hook: HookSet::empty().with(HookType::Startup).with(HookType::Error),
        isr: vec![ISR::new_isr2("isr1".to_string(), None)],
        tasks: vec![Task { id: "T".to_string(), events: vec![], resources: vec![] }],
        counters: vec![],
        alarms: vec![],
        sym_val: table(&[("T", 4)]),
    }
}

#[test]
fn serialize_program_in_layout_order() {
    let app = small_app();
    let mut p = Inst::new(&app);
    p.tasks[0].seq.push(Call::activate_task("T"));
    p.hooks.push(HookType::Startup, Call::get_app_mode());
    let out = serialize(&p, &app).unwrap();
    let names: Vec<&str> = out.iter().map(|(n, _)| n.as_str()).collect();
    assert_eq!(names, vec!["ERROR_HOOK_DATA", "STARTUP_DATA", "isr1_DATA", "T_DATA"]);
    assert_eq!(read_u32(&out[0].1, 0), 0xFFFF);
    assert_eq!(read_u32(&out[1].1, 0), 25);
    assert_eq!(read_u32(&out[3].1, 0), 0);
    assert_eq!(read_u32(&out[3].1, 4), 4);
}

#[test]
fn serialize_program_reports_unknown_symbol() {
    let app = small_app();
    let mut p = Inst::new(&app);
    p.tasks[0].seq.push(Call::chain_task("Other"));
    assert!(matches!(serialize(&p, &app), Err(SerializeError::UnknownSymbol(s)) if s == "Other"));
}

#[test]
fn empty_sequence_is_just_terminator() {
    let buf = serialize_calls(&vec![], &vec![]).unwrap();
    assert_eq!(buf.len(), 1024);
    assert_eq!(&buf[..4], &[0xFF, 0xFF, 0, 0]);
    assert!(buf[4..].iter().all(|b| *b == 0));
}
