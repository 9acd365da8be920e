use rtkaller::model::{lookup_symbol, APPConfig, HookType, ISR};
use rtkaller::prog::Inst;

#[test]
fn default_application() {
    let app = APPConfig::default();
    assert!(app.enabled_hook.contains(HookType::Error));
    assert!(app.enabled_hook.contains(HookType::PreTask));
    assert!(app.enabled_hook.contains(HookType::PostTask));
    assert!(app.enabled_hook.contains(HookType::Startup));
    assert!(!app.enabled_hook.contains(HookType::Shutdown));
    let ids: Vec<&str> = app.tasks.iter().map(|t| t.id.as_str()).collect();
    assert_eq!(ids, vec!["Task1", "Task2", "Task3"]);
    assert_eq!(app.tasks[1].events, vec!["Event1", "Event3"]);
    assert_eq!(app.tasks[2].resources, vec!["Resource2", "Resource3"]);
    assert_eq!(app.isr[2].handler.as_deref(), Some("isr3_handler"));
    assert!(app.isr.iter().all(|i| !i.is_isr1));
    assert_eq!(app.counters, vec!["Counter1", "Counter2"]);
    assert_eq!(app.alarms, vec!["Alarm1", "Alarm2", "Alarm3"]);
    assert!(app.sym_val.is_empty());
}

#[test]
fn new_isr2_and_program_shape() {
    let isr = ISR::new_isr2("h".to_string(), Some("h_fn".to_string()));
    assert!(!isr.is_isr1);
    assert_eq!(isr.duplicate().handler, Some("h_fn".to_string()));
    let p = Inst::new(&APPConfig::default());
    assert_eq!(p.tasks.len(), 3);
    assert_eq!(p.isr[1].meta.id, "isr2_handler");
    assert!(p.hooks.shutdown.is_none());
    assert!(p.hooks.error.as_ref().unwrap().is_empty());
}

#[test]
fn symbol_lookup_first_wins() {
    let t = vec![("A".to_string(), 1), ("B".to_string(), 2), ("A".to_string(), 3)];
    assert_eq!(lookup_symbol(&t, &"A".to_string()), Some(1));
    assert_eq!(lookup_symbol(&t, &"B".to_string()), Some(2));
    assert_eq!(lookup_symbol(&t, &"C".to_string()), None);
}
