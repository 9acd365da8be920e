use rtkaller::model::{HookSet, HookType};
use rtkaller::prog::{Call, HookInst};

#[test]
fn iter_hook_fixed_order() {
    let all = HookSet::all();
    let mut hooks = HookInst::new(all);
    hooks.push(HookType::Shutdown, Call::get_app_mode());
    let mut it = hooks.iter_hook();
    let mut seen = vec![];
    while let Some((h, calls)) = it.next() {
        seen.push((h, calls.len()));
    }
    assert_eq!(
        seen,
        vec![
            (HookType::Error, 0),
            (HookType::PreTask, 0),
            (HookType::PostTask, 0),
            (HookType::Startup, 0),
            (HookType::Shutdown, 1),
        ]
    );
    assert!(it.next().is_none());
}

#[test]
fn iter_hook_skips_disabled() {
    let set = HookSet::empty().with(HookType::Shutdown).with(HookType::PreTask);
    let hooks = HookInst::new(set);
    assert_eq!(hooks.hook_kinds(), vec![HookType::PreTask, HookType::Shutdown]);
    assert!(hooks.error.is_none() && hooks.startup.is_none() && hooks.post_task.is_none());
    assert!(hooks.get(HookType::PreTask).unwrap().is_empty());
    assert!(HookInst::new(HookSet::empty()).iter_hook().next().is_none());
}

#[test]
fn hook_set_bits() {
    let d = HookSet::empty().with(HookType::Error).with(HookType::Startup);
    assert_eq!(d.bits, 0b1001);
    assert!(d.contains(HookType::Startup) && !d.contains(HookType::Shutdown));
    assert!(HookSet::all().is_all());
    assert!(HookSet::empty().is_empty());
    assert!(!HookSet { bits: 0xFF }.is_all());
}
