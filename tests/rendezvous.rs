use rtkaller::exec::{
    attach_step, c_str_prefix, crash_poll_step, exec_finished, le_bytes, monitor_step,
    needs_practice_wait, os_crashed, redo_step, state_var_names, data_var_names, u32_from_le,
    wait_ready_step, write_all, data_addresses, last_failed_write, AttachStep, CrashPoll, ExecResult, Monitor, PracticeState,
    ReadyStep, Session, STATE_DATA_READY, STATE_EXEC_FINISH, STATE_TASK_READY,
};
use rtkaller::model::APPConfig;
use rtkaller::prog::Inst;
use rtkaller::wire::serialize;

#[test]
fn protocol_constants() {
    assert_eq!(STATE_TASK_READY, 0x0001);
    assert_eq!(STATE_DATA_READY, 0x0010);
    assert_eq!(STATE_EXEC_FINISH, 0x1000);
}

#[test]
fn waiting_for_ready() {
    assert_eq!(wait_ready_step(0, &vec![Some(0), Some(1)]), ReadyStep::Ready);
    assert_eq!(wait_ready_step(3, &vec![Some(0), Some(0)]), ReadyStep::Retry(4));
    assert_eq!(wait_ready_step(600, &vec![Some(0)]), ReadyStep::TimedOut);
    assert_eq!(wait_ready_step(0, &vec![Some(1), None]), ReadyStep::ReadFailed(1));
}

#[test]
fn monitoring() {
    assert!(exec_finished(&vec![None, Some(0x1000)]));
    assert!(!exec_finished(&vec![Some(0x10), None]));
    assert!(os_crashed(Some(1)) && !os_crashed(None) && !os_crashed(Some(2)));
    assert!(matches!(monitor_step(0, true, None), Monitor::Done(ExecResult::Success(_))));
    assert!(matches!(
        monitor_step(5, false, Some("trap".to_string())),
        Monitor::Done(ExecResult::Crashed(s)) if s == "trap"
    ));
    assert!(matches!(monitor_step(5, false, None), Monitor::Again(6)));
    assert!(matches!(
        monitor_step(200, false, None),
        Monitor::Done(ExecResult::Failed(s)) if s == "Time out"
    ));
    assert!(matches!(crash_poll_step(0, None), CrashPoll::Again(1)));
    assert!(matches!(crash_poll_step(100, None), CrashPoll::GiveUp));
    assert!(matches!(crash_poll_step(7, Some("x".to_string())), CrashPoll::Got(s) if s == "x"));
}

#[test]
fn memory_words_and_strings() {
    assert_eq!(u32_from_le(&vec![0x10, 0, 0, 0]), 0x10);
    assert_eq!(u32_from_le(&vec![0x78, 0x56, 0x34, 0x12, 0xFF]), 0x1234_5678);
    assert_eq!(le_bytes(STATE_DATA_READY), vec![0x10, 0, 0, 0]);
    assert_eq!(c_str_prefix(&vec![b'o', b'k', 0, b'x']), b"ok".to_vec());
    assert_eq!(c_str_prefix(&vec![b'a', b'b']), b"ab".to_vec());
}

#[test]
fn debugger_session_decisions() {
    assert!(needs_practice_wait("DO restart.cmm"));
    assert!(needs_practice_wait("do restart.cmm"));
    assert!(!needs_practice_wait("SYStem.Up"));
    assert_eq!(PracticeState::from_code(1), Some(PracticeState::Running));
    assert_eq!(PracticeState::from_code(3), None);
    assert_eq!(attach_step(0, 0), AttachStep::Attached);
    assert_eq!(attach_step(2, -1), AttachStep::Retry(3));
    assert_eq!(attach_step(3, -1), AttachStep::Fail(-1));
    assert_eq!(redo_step(0, 5, 10000, 0), None);
    assert_eq!(redo_step(0, 5, 10000, 3), Some(5));
    assert_eq!(redo_step(9996, 5, 10000, 3), None);
}

#[test]
fn variable_addresses() {
    let app = APPConfig { sym_val: vec![], ..APPConfig::default() };
    let p = Inst::new(&app);
    assert_eq!(state_var_names(&p), vec!["Task1_STATE", "Task2_STATE", "Task3_STATE"]);
    let names = data_var_names(&p);
    assert_eq!(names.len(), 4 + 3 + 3);
    assert_eq!(names[0], "ERROR_HOOK_DATA");
    assert_eq!(names[4], "isr1_handler_DATA");
    let session = Session {
        state_addrs: vec![],
        data_addrs: names.iter().enumerate().map(|(i, n)| (n.clone(), 0x100 * i as u32)).collect(),
        os_state_addr: 0,
        crash_info_addr: 0,
    };
    let buffers = serialize(&p, &app).unwrap();
    assert_eq!(data_addresses(&session, &buffers).unwrap()[9], 0x900);
    let partial = Session { data_addrs: vec![], ..session };
    assert_eq!(data_addresses(&partial, &buffers), Err("ERROR_HOOK_DATA".to_string()));
}

#[test]
fn every_write_counts() {
    let buffers: Vec<(String, Vec<u8>)> =
        vec![("A_DATA".to_string(), vec![]), ("B_DATA".to_string(), vec![]), ("C_DATA".to_string(), vec![])];
    assert_eq!(write_all(&buffers, &vec![0, 0, 0]), Ok(()));
    assert_eq!(
        write_all(&buffers, &vec![5, 0, -1]),
        Err("failed to write test case data to symbol \"C_DATA\"".to_string())
    );
    assert_eq!(
        write_all(&buffers, &vec![5, 0, 0]),
        Err("failed to write test case data to symbol \"A_DATA\"".to_string())
    );
    assert_eq!(last_failed_write(&vec![1, 2, 0]), Some(1));
    assert_eq!(last_failed_write(&vec![]), None);
}
