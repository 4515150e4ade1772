use scheduler::{Action, Policy, ProcessRecord, ProcessState, Scheduler};

fn names(list: &[&str]) -> Vec<String> {
    list.iter().map(|s| s.to_string()).collect()
}

/// Drive an engine to completion against a simulated operating system.
///
/// `rem[i]` is the remaining run time of record `i` in milliseconds; a
/// negative entry means the spawn fails. Appends one entry per interesting
/// action to `log`.
fn drive_to_completion(s: &mut Scheduler, rem: &mut [i64], log: &mut Vec<String>) {
    let mut next_pid = 500;
    let mut guard = 0;
    loop {
        guard += 1;
        assert!(guard < 10_000, "engine did not finish");
        match s.step() {
            Action::Spawn { idx } => {
                if rem[idx] < 0 {
                    log.push(format!("spawnfail{}", idx));
                    s.on_spawned(None);
                } else {
                    next_pid += 1;
                    log.push(format!("spawn{}", idx));
                    s.on_spawned(Some(next_pid));
                }
            }
            Action::RunQuantum { idx, quantum_ms, .. } => {
                log.push(format!("run{}", idx));
                rem[idx] -= quantum_ms as i64;
                if rem[idx] < 0 {
                    rem[idx] = 0;
                }
                s.on_stopped();
            }
            Action::Resume { idx, .. } => {
                log.push(format!("resume{}", idx));
                s.on_resumed();
            }
            Action::PollExit { idx, .. } => {
                s.on_polled(rem[idx] == 0);
            }
            Action::WaitExit { idx, .. } => {
                log.push(format!("wait{}", idx));
                rem[idx] = 0;
                s.on_wait_returned();
            }
            Action::Pause => {
                log.push("pause".to_string());
            }
            Action::Finished => break,
        }
        let mut running = 0;
        for i in 0..s.len() {
            if s.state_of(i) == ProcessState::Running {
                running += 1;
            }
        }
        assert!(running <= 1, "two records running at once");
    }
}

#[test]
fn fcfs_two_records_run_in_order() {
    let ns = names(&["sleep0", "true0"]);
    let mut s = Scheduler::new(&ns, Policy::Fcfs, 0);
    let mut rem = [10i64, 10];
    let mut log = Vec::new();
    drive_to_completion(&mut s, &mut rem, &mut log);
    // visited in file order; the second never starts before the first exits
    assert_eq!(log, vec!["spawn0", "wait0", "spawn1", "wait1"]);
    assert_eq!(s.state_of(0), ProcessState::Exited);
    assert_eq!(s.state_of(1), ProcessState::Exited);
    assert!(s.is_finished());
}

#[test]
fn fcfs_three_records_enter_running_in_file_order() {
    let ns = names(&["a", "b", "c"]);
    let mut s = Scheduler::new(&ns, Policy::Fcfs, 0);
    let mut rem = [5i64, 5, 5];
    let mut log = Vec::new();
    drive_to_completion(&mut s, &mut rem, &mut log);
    assert_eq!(log, vec!["spawn0", "wait0", "spawn1", "wait1", "spawn2", "wait2"]);
    for i in 0..s.len() {
        assert_eq!(s.state_of(i), ProcessState::Exited);
    }
}

#[test]
fn rr_one_record_cycles_through_stop_and_resume() {
    // one process that needs 200 ms under a 50 ms quantum: four bursts,
    // three stop/resume cycles before it exits
    let ns = names(&["p200"]);
    let mut s = Scheduler::new(&ns, Policy::Rr, 50);
    let mut rem = [200i64];
    let mut log = Vec::new();
    drive_to_completion(&mut s, &mut rem, &mut log);
    let runs = log.iter().filter(|e| *e == "run0").count();
    let resumes = log.iter().filter(|e| *e == "resume0").count();
    assert_eq!(runs, 4);
    assert_eq!(resumes, 3);
    assert!(resumes >= 3);
    assert_eq!(
        log,
        vec![
            "spawn0", "run0", "pause", "resume0", "run0", "pause", "resume0", "run0", "pause",
            "resume0", "run0",
        ]
    );
    assert_eq!(s.state_of(0), ProcessState::Exited);
    assert!(s.is_finished());
}

#[test]
fn rr_two_records_visited_in_order_every_sweep() {
    let ns = names(&["a", "b"]);
    let mut s = Scheduler::new(&ns, Policy::Rr, 30);
    let mut rem = [60i64, 60];
    let mut log = Vec::new();
    drive_to_completion(&mut s, &mut rem, &mut log);
    assert_eq!(
        log,
        vec![
            "spawn0", "run0", "spawn1", "run1", "pause", "resume0", "run0", "resume1", "run1",
        ]
    );
    assert_eq!(s.state_of(0), ProcessState::Exited);
    assert_eq!(s.state_of(1), ProcessState::Exited);
}

#[test]
fn rr_quantum_is_carried_on_every_run_action() {
    let ns = names(&["p"]);
    let mut s = Scheduler::new(&ns, Policy::Rr, 75);
    match s.step() {
        Action::Spawn { idx } => {
            assert_eq!(idx, 0);
            s.on_spawned(Some(9));
        }
        a => panic!("expected a spawn, got {:?}", a),
    }
    match s.step() {
        Action::RunQuantum { idx, pid, quantum_ms } => {
            assert_eq!(idx, 0);
            assert_eq!(pid, 9);
            assert_eq!(quantum_ms, 75);
        }
        a => panic!("expected a quantum grant, got {:?}", a),
    }
}

#[test]
fn stop_and_resume_on_exited_record_change_nothing() {
    let mut r = ProcessRecord::new("prog".to_string());
    r.apply_spawn_result(Some(7));
    r.observe_exit(true);
    assert_eq!(r.state, ProcessState::Exited);
    r.request_stop();
    assert_eq!(r.state, ProcessState::Exited);
    r.request_resume();
    assert_eq!(r.state, ProcessState::Exited);
    r.observe_exit(false);
    r.observe_exit(true);
    assert_eq!(r.state, ProcessState::Exited);
    assert_eq!(r.pid, Some(7));
    assert!(!r.failed);
    assert_eq!(r.name, "prog");
}

#[test]
fn exited_record_stays_exited_across_engine_and_monitor() {
    let ns = names(&["p"]);
    let mut s = Scheduler::new(&ns, Policy::Rr, 10);
    match s.step() {
        Action::Spawn { .. } => s.on_spawned(Some(42)),
        a => panic!("expected a spawn, got {:?}", a),
    }
    match s.step() {
        Action::RunQuantum { .. } => {
            // the process exits during its quantum and the monitor sees it
            // before the stop signal lands
            s.monitor_observe(0, true);
            assert_eq!(s.state_of(0), ProcessState::Exited);
            s.on_stopped();
        }
        a => panic!("expected a quantum grant, got {:?}", a),
    }
    assert_eq!(s.state_of(0), ProcessState::Exited);
    // later monitor passes and engine steps leave it exited
    s.monitor_observe(0, true);
    s.monitor_observe(0, false);
    assert_eq!(s.state_of(0), ProcessState::Exited);
    match s.step() {
        Action::Finished => {}
        a => panic!("expected completion, got {:?}", a),
    }
    assert!(s.is_finished());
    assert_eq!(s.state_of(0), ProcessState::Exited);
}

#[test]
fn failed_spawn_record_is_inert_under_fcfs() {
    let ns = names(&["missing", "ok"]);
    let mut s = Scheduler::new(&ns, Policy::Fcfs, 0);
    let mut rem = [-1i64, 5];
    let mut log = Vec::new();
    drive_to_completion(&mut s, &mut rem, &mut log);
    assert_eq!(log, vec!["spawnfail0", "spawn1", "wait1"]);
    // the record that could not spawn never ran and never exited; the run
    // still completed for the rest
    assert_eq!(s.state_of(0), ProcessState::New);
    assert!(s.is_inert(0));
    assert_eq!(s.pid_of(0), None);
    assert_eq!(s.state_of(1), ProcessState::Exited);
    assert!(s.is_finished());
}

#[test]
fn failed_spawn_record_is_inert_under_rr() {
    let ns = names(&["missing", "ok"]);
    let mut s = Scheduler::new(&ns, Policy::Rr, 20);
    let mut rem = [-1i64, 20];
    let mut log = Vec::new();
    drive_to_completion(&mut s, &mut rem, &mut log);
    assert_eq!(log, vec!["spawnfail0", "spawn1", "run1"]);
    assert_eq!(s.state_of(0), ProcessState::New);
    assert!(s.is_inert(0));
    assert_eq!(s.state_of(1), ProcessState::Exited);
    assert!(s.is_finished());
}

#[test]
fn monitor_targets_lists_live_records_only() {
    let ns = names(&["a", "b", "c"]);
    let mut s = Scheduler::new(&ns, Policy::Rr, 10);
    match s.step() {
        Action::Spawn { .. } => s.on_spawned(Some(11)),
        a => panic!("expected a spawn, got {:?}", a),
    }
    match s.step() {
        Action::RunQuantum { .. } => s.on_stopped(),
        a => panic!("expected a quantum grant, got {:?}", a),
    }
    match s.step() {
        Action::Spawn { .. } => s.on_spawned(Some(12)),
        a => panic!("expected a spawn, got {:?}", a),
    }
    // records 0 and 1 have live handles; record 2 was never spawned
    let t = s.monitor_targets();
    assert_eq!(t, vec![(0usize, 11), (1usize, 12)]);
    s.monitor_observe(0, true);
    assert_eq!(s.state_of(0), ProcessState::Exited);
    let t2 = s.monitor_targets();
    assert_eq!(t2, vec![(1usize, 12)]);
    // an observation that saw no exit changes nothing
    s.monitor_observe(1, false);
    assert_eq!(s.state_of(1), ProcessState::Running);
}

#[test]
fn settled_check_counts_exited_and_inert() {
    let mut v = vec![ProcessRecord::new("x".to_string())];
    assert!(!scheduler::engine::check_all_settled(&v));
    assert!(!v[0].is_settled());
    v[0].apply_spawn_result(Some(3));
    assert!(!scheduler::engine::check_all_settled(&v));
    v[0].observe_exit(true);
    assert!(v[0].is_settled());
    assert!(scheduler::engine::check_all_settled(&v));

    let mut w = vec![ProcessRecord::new("y".to_string())];
    w[0].apply_spawn_result(None);
    assert!(w[0].failed);
    assert!(w[0].is_settled());
    assert!(scheduler::engine::check_all_settled(&w));
    assert!(scheduler::engine::check_all_settled(&Vec::new()));
}

#[test]
fn empty_process_list_finishes_at_once() {
    let mut f = Scheduler::new(&Vec::new(), Policy::Fcfs, 0);
    match f.step() {
        Action::Finished => {}
        a => panic!("expected completion, got {:?}", a),
    }
    assert!(f.is_finished());

    let mut r = Scheduler::new(&Vec::new(), Policy::Rr, 10);
    match r.step() {
        Action::Finished => {}
        a => panic!("expected completion, got {:?}", a),
    }
    assert!(r.is_finished());
}

#[test]
fn new_engine_records_match_names() {
    let ns = names(&["one", "two"]);
    let s = Scheduler::new(&ns, Policy::Fcfs, 0);
    assert_eq!(s.len(), 2);
    assert_eq!(s.name_of(0), "one");
    assert_eq!(s.name_of(1), "two");
    assert_eq!(s.state_of(0), ProcessState::New);
    assert_eq!(s.state_of(1), ProcessState::New);
    assert_eq!(s.pid_of(0), None);
    assert!(!s.is_inert(0));
    assert!(!s.is_finished());
}
