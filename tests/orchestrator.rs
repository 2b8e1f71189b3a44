use model_loader::error::LoaderError;
use model_loader::orchestrator::{
    Action, ModelManifest, Orchestrator, Signal, MAX_CONCURRENT_DOWNLOAD,
};

fn manifest(n: usize) -> ModelManifest {
    ModelManifest {
        file_names: (0..n).map(|i| format!("file{}", i)).collect(),
        revision: "rev1".to_string(),
    }
}

/// Drives a download with successes only; returns every file handed out,
/// the largest number in flight, and the number of signals fed in.
fn run_all_successes(n: usize) -> (Vec<String>, usize, usize) {
    let (mut o, mut action) = Orchestrator::start("org/model", manifest(n));
    let mut handed_out = Vec::new();
    let mut queue = Vec::new();
    let mut peak = 0;
    let mut signals = 0;
    loop {
        match action {
            Action::Await(tasks) => {
                for t in tasks {
                    assert_eq!(t.model_id, "org/model");
                    handed_out.push(t.file_name.clone());
                    queue.push(t.file_name);
                }
                peak = peak.max(o.active_count());
                assert!(o.is_awaiting());
                let done = queue.remove(0);
                signals += 1;
                action = o.on_signal(Signal::Success(done));
            }
            Action::Materialize(rev) => {
                assert_eq!(rev, "rev1");
                break;
            }
            Action::Abort(e) => panic!("unexpected abort: {:?}", e),
        }
    }
    assert_eq!(o.dispatched_count(), n);
    assert_eq!(o.drained_count(), n);
    assert!(!o.is_awaiting());
    (handed_out, peak, signals)
}

#[test]
fn empty_manifest_goes_straight_to_materialize() {
    let (o, action) = Orchestrator::start("org/model", manifest(0));
    assert_eq!(o.dispatched_count(), 0);
    assert_eq!(o.drained_count(), 0);
    assert!(!o.is_awaiting());
    match action {
        Action::Materialize(rev) => assert_eq!(rev, "rev1"),
        _ => panic!("expected materialize"),
    }
}

#[test]
fn small_manifest_runs_fully_concurrently() {
    let (o, action) = Orchestrator::start("org/model", manifest(5));
    assert_eq!(o.dispatched_count(), 5);
    assert_eq!(o.active_count(), 5);
    match action {
        Action::Await(tasks) => {
            let names: Vec<String> = tasks.into_iter().map(|t| t.file_name).collect();
            assert_eq!(names, vec!["file0", "file1", "file2", "file3", "file4"]);
        }
        _ => panic!("expected tasks"),
    }
}

#[test]
fn exactly_eight_manifest_dispatches_all() {
    let (o, _) = Orchestrator::start("org/model", manifest(8));
    assert_eq!(o.dispatched_count(), 8);
    assert_eq!(o.active_count(), MAX_CONCURRENT_DOWNLOAD);
}

#[test]
fn large_manifest_never_exceeds_ceiling() {
    let (o, _) = Orchestrator::start("org/model", manifest(20));
    assert_eq!(o.dispatched_count(), MAX_CONCURRENT_DOWNLOAD);
    let (handed_out, peak, signals) = run_all_successes(20);
    assert_eq!(peak, MAX_CONCURRENT_DOWNLOAD);
    assert_eq!(signals, 20);
    let expected: Vec<String> = (0..20).map(|i| format!("file{}", i)).collect();
    assert_eq!(handed_out, expected);
}

#[test]
fn every_file_dispatched_and_drained_once() {
    for n in [1usize, 3, 8, 9, 17] {
        let (handed_out, peak, signals) = run_all_successes(n);
        assert_eq!(handed_out.len(), n);
        assert_eq!(signals, n);
        assert_eq!(peak, n.min(MAX_CONCURRENT_DOWNLOAD));
    }
}

#[test]
fn one_failure_of_ten_aborts_without_materialize() {
    let (mut o, action) = Orchestrator::start("org/model", manifest(10));
    assert!(matches!(action, Action::Await(ref t) if t.len() == 8));
    let a = o.on_signal(Signal::Success("file0".to_string()));
    assert!(matches!(a, Action::Await(ref t) if t.len() == 1 && t[0].file_name == "file8"));
    let a = o.on_signal(Signal::Success("file1".to_string()));
    assert!(matches!(a, Action::Await(ref t) if t.len() == 1 && t[0].file_name == "file9"));
    let a = o.on_signal(Signal::Failure("simulated network error".to_string()));
    match a {
        Action::Abort(e) => {
            assert_eq!(e, LoaderError::Registry("simulated network error".to_string()))
        }
        _ => panic!("expected abort"),
    }
    assert!(o.is_failed());
    assert!(!o.is_awaiting());
    assert_eq!(o.drained_count(), 3);
}

#[test]
fn timeout_aborts_with_its_own_error() {
    let (mut o, _) = Orchestrator::start("org/model", manifest(2));
    let a = o.on_signal(Signal::TimedOut);
    assert!(matches!(a, Action::Abort(LoaderError::Timeout)));
    assert!(o.is_failed());
    assert!(!o.is_awaiting());
}

#[test]
fn last_success_asks_for_materialize() {
    let (mut o, _) = Orchestrator::start("org/model", manifest(2));
    let a = o.on_signal(Signal::Success("file0".to_string()));
    assert!(matches!(a, Action::Await(ref t) if t.is_empty()));
    let a = o.on_signal(Signal::Success("file1".to_string()));
    assert!(matches!(a, Action::Materialize(ref r) if r == "rev1"));
}
