use flick_sync::sync::{LockCounts, LockedFile, Parallel};

fn poll_round(scheduler: &mut Parallel, ready: &[bool], started: &mut Vec<usize>) -> bool {
    scheduler.fill();
    let mut index = 0;
    while index < scheduler.running.len() {
        let job = scheduler.running[index];
        if !started.contains(&job) {
            started.push(job);
        }
        index = scheduler.on_polled(index, ready[job]);
    }
    scheduler.done()
}

#[test]
fn limits_parallelism_and_backfills_slots() {
    let mut scheduler = Parallel::new(4, 2);
    let mut ready = [false; 4];
    let mut started = Vec::new();

    assert!(!poll_round(&mut scheduler, &ready, &mut started));
    assert_eq!(started, vec![0, 1]);

    ready[0] = true;
    assert!(!poll_round(&mut scheduler, &ready, &mut started));
    assert_eq!(started, vec![0, 1, 2]);

    ready[1] = true;
    assert!(!poll_round(&mut scheduler, &ready, &mut started));
    assert_eq!(started, vec![0, 1, 2, 3]);

    ready[2] = true;
    ready[3] = true;
    assert!(poll_round(&mut scheduler, &ready, &mut started));
}

#[test]
fn no_job_runs_without_slots() {
    let mut scheduler = Parallel::new(2, 0);
    let mut started = Vec::new();
    assert!(!poll_round(&mut scheduler, &[true, true], &mut started));
    assert!(started.is_empty());
    let mut empty = Parallel::new(0, 3);
    assert!(poll_round(&mut empty, &[], &mut started));
}

#[test]
fn lock_counts_follow_guards() {
    let mut locks = LockCounts::new();
    assert!(locks.acquire("server/video"));
    assert!(!locks.acquire("server/video"));
    assert!(locks.acquire("other"));
    assert!(!locks.release("server/video"));
    assert!(locks.release("server/video"));
    assert!(locks.acquire("server/video"));
    assert!(locks.release("other"));
    assert_eq!(locks.entries.len(), 1);
}

#[test]
fn locked_file_names() {
    let file = LockedFile::new("server/Movie (2020)/Movie (2020).mkv".to_string());
    assert_eq!(file.file_name(), "Movie (2020)");
    assert_eq!(LockedFile::new("a/.hidden".to_string()).file_name(), ".hidden");
    assert_eq!(LockedFile::new("a/archive.tar.gz".to_string()).file_name(), "archive.tar");
    assert_eq!(LockedFile::new("noext".to_string()).file_name(), "noext");
    assert_eq!(LockedFile::new("a/..".to_string()).try_file_name(), None);
}
