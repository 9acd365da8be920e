use rtkaller::model::{APPConfig, HookSet, HookType, ISR, Task};
use rtkaller::prog::{Call, ISRInst, Inst, TaskInst};
use rtkaller::render::{include_line, to_c};

#[test]
fn task_and_isr_text() {
    let mut t = TaskInst::new("Task1".to_string());
    t.seq.push(Call::get_res("Resource1"));
    t.seq.push(Call::term_task());
    assert_eq!(
        t.to_cprog(),
        "TASK(Task1)\n{\n    GetResource(Resource1);\n    TerminateTask();\n}\n\n"
    );
    let mut i = ISRInst::with_meta(&ISR { is_isr1: true, id: "fast".to_string(), handler: None });
    i.seq.push(Call::disable_int());
    assert_eq!(i.to_cprog(), "ISR1(fast)\n{\n    DisableAllInterrupts();\n}\n\n");
}

#[test]
fn program_text_order() {
    let app = APPConfig {
        enabled_hook: HookSet::empty().with(HookType::Shutdown),
        isr: vec![ISR::new_isr2("isr".to_string(), None)],
        tasks: vec![Task { id: "T".to_string(), events: vec![], resources: vec![] }],
        counters: vec![],
        alarms: vec![],
        sym_val: vec![],
    };
    let mut p = Inst::new(&app);
    p.hooks.push(HookType::Shutdown, Call::get_app_mode());
    p.tasks[0].seq.push(Call::get_task_id());
    let text = to_c(&p, Some(include_line("ee.h").as_str()));
    assert_eq!(
        text,
        "#include\"ee.h\"\n\
         void ShutdownHook(StatusType Error)\n{\n    GetActiveApplicationMode();\n}\n\n\
         ISR2(isr)\n{\n}\n\n\
         TASK(T)\n{\n    GetTaskID(&(TaskType){0});\n}\n\n"
    );
    assert_eq!(to_c(&p, None), p.to_cprog());
}
