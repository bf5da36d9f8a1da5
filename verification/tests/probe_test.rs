use minishell::machine::Machine;
use minishell::probe::{
    probe_workers, CellColor, ProbeResult, ProbeResults, ProbeStatus, SummaryLevel, DEFAULT_WORKERS, PROBE_DOTS,
};

fn machine(id: i64) -> Machine {
    Machine {
        id,
        num: id as i32,
        nat_ip: "".into(),
        ip: format!("10.0.0.{}", id),
        username: "root".into(),
        password: "".into(),
        port: 22,
        private_key_path: "".into(),
        device: "".into(),
        remark: "".into(),
    }
}

#[test]
fn result_constructors() {
    assert_eq!(ProbeResult::ok(12), ProbeResult { status: ProbeStatus::Reachable, latency_ms: Some(12) });
    assert_eq!(ProbeResult::down(), ProbeResult { status: ProbeStatus::Down, latency_ms: None });
    assert_eq!(ProbeResult::unknown(), ProbeResult { status: ProbeStatus::Unknown, latency_ms: None });
}

#[test]
fn worker_count_is_bounded_by_the_jobs() {
    assert_eq!(probe_workers(DEFAULT_WORKERS, 3), 3);
    assert_eq!(probe_workers(DEFAULT_WORKERS, 20), 8);
    assert_eq!(probe_workers(0, 0), 1);
    assert_eq!(probe_workers(4, 0), 1);
}

#[test]
fn cells_by_latency_and_state() {
    let mut r = ProbeResults::new();
    r.record(1, ProbeResult::ok(42));
    r.record(2, ProbeResult::ok(100));
    r.record(3, ProbeResult::ok(500));
    r.record(4, ProbeResult::down());
    assert_eq!(r.cell_for(1, false, 0), ("● 42ms".to_string(), CellColor::Green));
    assert_eq!(r.cell_for(2, true, 0), ("● 100ms".to_string(), CellColor::Yellow));
    assert_eq!(r.cell_for(3, true, 0), ("● 500ms".to_string(), CellColor::Red));
    assert_eq!(r.cell_for(4, true, 0), ("● down".to_string(), CellColor::Red));
    assert_eq!(r.cell_for(9, true, 0), ("·".to_string(), CellColor::DarkGray));
    assert_eq!(PROBE_DOTS, 5);
    assert_eq!(r.cell_for(9, false, 0), ("▪▫▫▫▫".to_string(), CellColor::DarkGray));
    assert_eq!(r.cell_for(9, false, 7), ("▫▫▪▫▫".to_string(), CellColor::DarkGray));
}

#[test]
fn recording_again_replaces_and_clear_forgets() {
    let mut r = ProbeResults::new();
    r.record(1, ProbeResult::down());
    r.record(1, ProbeResult::ok(5));
    assert_eq!(r.cell_for(1, true, 0).0, "● 5ms");
    r.clear();
    assert_eq!(r.cell_for(1, true, 0).0, "·");
}

#[test]
fn summaries() {
    let ms = vec![machine(1), machine(2), machine(3)];
    let mut r = ProbeResults::new();
    assert_eq!(r.summary(&ms, false), ("探测中…".to_string(), SummaryLevel::Probing));
    assert_eq!(r.summary(&Vec::new(), true), ("0/0 可达".to_string(), SummaryLevel::Empty));
    assert_eq!(
        r.summary(&ms, true),
        ("0/3 可达 · 0 不可达 · 3 未测".to_string(), SummaryLevel::NoneReachable)
    );
    r.record(1, ProbeResult::ok(3));
    r.record(2, ProbeResult::down());
    r.record(77, ProbeResult::ok(3));
    assert_eq!(
        r.summary(&ms, true),
        ("1/3 可达 · 1 不可达 · 1 未测".to_string(), SummaryLevel::Partial)
    );
    r.record(2, ProbeResult::ok(3));
    r.record(3, ProbeResult::ok(3));
    assert_eq!(
        r.summary(&ms, true),
        ("3/3 可达 · 0 不可达 · 0 未测".to_string(), SummaryLevel::AllOk)
    );
}
