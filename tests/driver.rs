use rtkaller::driver::{case_file_name, dir_for_digest, failure_dir, hex_lower, push_decimal, record_outcome};
use rtkaller::exec::{time_out, ExecResult, Feedback};
use rtkaller::model::APPConfig;
use rtkaller::prog::{Call, Inst};
use rtkaller::script::extract_result;
use rtkaller::{State, Stats};

fn case_with(n: usize) -> Inst {
    let mut p = Inst::new(&APPConfig::default());
    for _ in 0..n {
        p.tasks[0].seq.push(Call::sched());
    }
    p
}

#[test]
fn stats_counters() {
    let mut s = Stats::new();
    assert_eq!((s.exec(), s.failed(), s.crashed()), (0, 0, 0));
    assert_eq!(s.inc_exec(), 0);
    assert_eq!(s.inc_exec(), 1);
    assert_eq!(s.inc_failed(), 0);
    assert_eq!(s.inc_crashed(), 0);
    assert_eq!((s.exec(), s.failed(), s.crashed()), (2, 1, 1));
    let mut top = Stats { crashed: 0, failed: 0, executed: usize::MAX };
    assert_eq!(top.inc_exec(), usize::MAX);
    assert_eq!(top.exec(), usize::MAX);
}

#[test]
fn ring_evicts_oldest() {
    let n = 3;
    let mut state = State::with_capacity(n);
    for k in 0..n + 1 {
        state.insert_exec(case_with(k));
    }
    assert_eq!(state.len(), n);
    for i in 0..n {
        assert_eq!(state.get(i).tasks[0].seq.len(), i + 1);
    }
    let mut none = State::with_capacity(0);
    none.insert_exec(case_with(1));
    assert_eq!(none.len(), 0);
}

#[test]
fn success_is_kept_in_ring() {
    let mut stats = Stats::new();
    let mut state = State::with_capacity(64);
    let out = "building...\nrtkaller: result=success\n".to_string();
    let result = extract_result(out).unwrap();
    assert!(matches!(result, ExecResult::Success(Feedback)));
    let saved = record_outcome(&mut stats, &mut state, case_with(2), result);
    assert!(saved.is_none());
    assert_eq!(stats.exec(), 1);
    assert_eq!(state.len(), 1);
}

#[test]
fn crash_is_saved_by_digest() {
    let mut stats = Stats::new();
    let mut state = State::with_capacity(64);
    let out = "boom\nrtkaller: result=crashed\n".to_string();
    let result = extract_result(out.clone()).unwrap();
    let req = record_outcome(&mut stats, &mut state, case_with(1), result).unwrap();
    assert_eq!(req.dir, "crashed/8d3af999eca2fe1570542f54fd0a1de7");
    assert_eq!(req.file, "p0");
    assert_eq!(req.reason, out);
    assert_eq!(req.case.tasks[0].seq.len(), 1);
    assert_eq!(stats.crashed(), 1);
    assert_eq!(state.len(), 0);
}

#[test]
fn timeout_is_counted_as_failure() {
    let mut stats = Stats::new();
    let mut state = State::with_capacity(4);
    let result = ExecResult::Failed(time_out());
    let req = record_outcome(&mut stats, &mut state, case_with(0), result).unwrap();
    assert_eq!(req.reason, "Time out");
    assert_eq!(req.dir, "failed/ef7e5b1dd0c827cea3da16ea7f4561bb");
    assert_eq!(stats.failed(), 1);
}

#[test]
fn same_reason_same_dir_new_file() {
    let mut stats = Stats::new();
    let mut state = State::with_capacity(4);
    let a = record_outcome(&mut stats, &mut state, case_with(0), ExecResult::Failed("x".to_string()))
        .unwrap();
    let b = record_outcome(&mut stats, &mut state, case_with(0), ExecResult::Failed("x".to_string()))
        .unwrap();
    assert_eq!(a.dir, b.dir);
    assert_eq!(a.file, "p0");
    assert_eq!(b.file, "p1");
    assert_eq!(failure_dir("failed", ""), "failed/d41d8cd98f00b204e9800998ecf8427e");
}

#[test]
fn names_and_digits() {
    assert_eq!(case_file_name(0), "p0");
    assert_eq!(case_file_name(1207), "p1207");
    assert_eq!(hex_lower(&vec![0x00, 0xab, 0x5f, 0xff]), "00ab5fff");
    assert_eq!(dir_for_digest("crashed", &vec![1, 2]), "crashed/0102");
    let mut s = "n=".to_string();
    push_decimal(&mut s, u64::MAX);
    assert_eq!(s, "n=18446744073709551615");
}
