use tinypng::CompressionJob;
use tinypng::CompressionOutcome;
use tinypng::Scheduler;
use tinypng::TinyPngError;

fn jobs_from(paths: &[&str]) -> Vec<CompressionJob> {
    paths
        .iter()
        .map(|p| CompressionJob {
            path: String::from(*p),
        })
        .collect()
}

fn ok_outcome(path: &str, input: u64, output: u64) -> CompressionOutcome {
    CompressionOutcome {
        path: String::from(path),
        result: Ok((input, output)),
    }
}

fn err_outcome(path: &str) -> CompressionOutcome {
    CompressionOutcome {
        path: String::from(path),
        result: Err(TinyPngError::Transport(String::from("timed out"))),
    }
}

#[test]
fn initial_dispatch_takes_first_jobs_in_order() {
    let s = Scheduler::new(jobs_from(&["a", "b", "c", "d", "e"]), 2);
    assert_eq!(s.in_flight, vec!["a".to_string(), "b".to_string()]);
    assert_eq!(s.next, 2);
    assert!(s.outcomes.is_empty());
    assert!(!s.is_finished());
}

#[test]
fn cap_larger_than_batch_dispatches_everything() {
    let s = Scheduler::new(jobs_from(&["a", "b"]), 8);
    assert_eq!(s.in_flight.len(), 2);
    assert_eq!(s.next, 2);
}

#[test]
fn zero_cap_produces_no_outcomes() {
    let s = Scheduler::new(jobs_from(&["a", "b"]), 0);
    assert!(s.in_flight.is_empty());
    assert!(s.outcomes.is_empty());
    assert_eq!(s.next, 0);
}

#[test]
fn empty_batch_is_finished_immediately() {
    let s = Scheduler::new(Vec::new(), 4);
    assert!(s.in_flight.is_empty());
    assert!(s.outcomes.is_empty());
    assert!(s.is_finished());
}

#[test]
fn completion_refills_the_freed_slot() {
    let mut s = Scheduler::new(jobs_from(&["a", "b", "c"]), 2);
    assert!(s.has_in_flight(&"b".to_string()));
    assert!(!s.has_in_flight(&"c".to_string()));

    // "b" finishes first: its slot goes to "c", the next pending job.
    let launched = s.complete(ok_outcome("b", 100, 50));
    assert_eq!(launched, Some("c".to_string()));
    assert_eq!(s.in_flight, vec!["a".to_string(), "c".to_string()]);
    assert_eq!(s.outcomes.len(), 1);
    assert_eq!(s.outcomes[0].path, "b");

    // Nothing pending any more: completions stop launching.
    let launched = s.complete(err_outcome("a"));
    assert_eq!(launched, None);
    let launched = s.complete(ok_outcome("c", 10, 20));
    assert_eq!(launched, None);
    assert!(s.is_finished());
    assert_eq!(s.outcomes.len(), 3);
}

#[test]
fn outcomes_cover_every_path_once() {
    let paths = ["a", "b", "c", "d", "e"];
    let mut s = Scheduler::new(jobs_from(&paths), 2);
    // Complete in an order the network might produce, always finishing
    // whichever in-flight job sits last.
    while !s.is_finished() {
        let path = s.in_flight.last().unwrap().clone();
        assert!(s.has_in_flight(&path));
        s.complete(ok_outcome(&path, 10, 5));
        assert!(s.in_flight.len() <= 2);
    }
    assert_eq!(s.outcomes.len(), paths.len());
    let mut seen: Vec<String> = s.outcomes.iter().map(|o| o.path.clone()).collect();
    seen.sort();
    assert_eq!(seen, vec!["a", "b", "c", "d", "e"]);
}

#[test]
fn duplicate_paths_are_independent_jobs() {
    let mut s = Scheduler::new(jobs_from(&["same", "same", "same"]), 2);
    assert_eq!(s.in_flight, vec!["same".to_string(), "same".to_string()]);
    let launched = s.complete(ok_outcome("same", 10, 5));
    assert_eq!(launched, Some("same".to_string()));
    s.complete(ok_outcome("same", 10, 5));
    s.complete(err_outcome("same"));
    assert!(s.is_finished());
    assert_eq!(s.outcomes.len(), 3);
}

#[test]
fn pool_stays_saturated_until_the_queue_drains() {
    let mut s = Scheduler::new(jobs_from(&["a", "b", "c", "d", "e", "f"]), 3);
    let mut completed: usize = 0;
    while !s.is_finished() {
        let remaining = s.jobs.len() - completed;
        assert_eq!(s.in_flight.len(), remaining.min(3));
        let path = s.in_flight[0].clone();
        s.complete(ok_outcome(&path, 2, 1));
        completed += 1;
    }
    assert_eq!(completed, 6);
}
