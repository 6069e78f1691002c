use rust_scheduler_service::repo::InMemorySchedulerRepo;
use rust_scheduler_service::schedule::{Schedule, Timestamp};

fn schedule(id: u64, filename: &str) -> Schedule {
    Schedule {
        id,
        client_id: 7,
        filename: filename.to_string(),
        vendor: "vendor".to_string(),
        target: "target".to_string(),
        cron_expression: "0 0 5 * * *".to_string(),
        next_run: Some(Timestamp { seconds: 1_700_000_000, nanos: 5 }),
    }
}

#[test]
fn create_numbers_from_one_and_ignores_given_id() {
    let mut repo = InMemorySchedulerRepo::new();
    assert_eq!(repo.create(schedule(99, "a")), 1);
    assert_eq!(repo.create(schedule(99, "b")), 2);
    let all = repo.get_all();
    assert_eq!(all.len(), 2);
    assert_eq!(all[0].id, 1);
    assert_eq!(all[0].filename, "a");
    assert_eq!(all[1].id, 2);
    assert_eq!(all[1].filename, "b");
    assert_eq!(all[1].next_run, Some(Timestamp { seconds: 1_700_000_000, nanos: 5 }));
}

#[test]
fn get_missing_id_is_none() {
    let mut repo = InMemorySchedulerRepo::new();
    repo.create(schedule(0, "a"));
    assert!(repo.get(2).is_none());
    assert!(repo.get(0).is_none());
}

#[test]
fn negative_id_reads_as_unsigned() {
    let mut repo = InMemorySchedulerRepo::new();
    repo.create(schedule(0, "a"));
    repo.update(1, schedule(u64::MAX, "max"));
    let found = repo.get(-1).unwrap();
    assert_eq!(found.filename, "max");
    assert_eq!(found.id, u64::MAX);
}

#[test]
fn update_replaces_first_match_with_given_schedule() {
    let mut repo = InMemorySchedulerRepo::new();
    repo.create(schedule(0, "a"));
    repo.create(schedule(0, "b"));
    repo.update(2, schedule(2, "b2"));
    let all = repo.get_all();
    assert_eq!(all[0].filename, "a");
    assert_eq!(all[1].filename, "b2");
    assert_eq!(repo.get(2).unwrap().filename, "b2");
}

#[test]
fn update_can_change_the_id() {
    let mut repo = InMemorySchedulerRepo::new();
    repo.create(schedule(0, "a"));
    repo.update(1, schedule(5, "moved"));
    assert!(repo.get(1).is_none());
    assert_eq!(repo.get(5).unwrap().filename, "moved");
}

#[test]
fn update_missing_id_changes_nothing() {
    let mut repo = InMemorySchedulerRepo::new();
    repo.create(schedule(0, "a"));
    repo.update(3, schedule(3, "c"));
    let all = repo.get_all();
    assert_eq!(all.len(), 1);
    assert_eq!(all[0].filename, "a");
}

#[test]
fn delete_removes_every_match_and_keeps_order() {
    let mut repo = InMemorySchedulerRepo::new();
    repo.create(schedule(0, "a"));
    repo.create(schedule(0, "b"));
    repo.create(schedule(0, "c"));
    repo.update(3, schedule(1, "c1"));
    repo.delete(1);
    let all = repo.get_all();
    assert_eq!(all.len(), 1);
    assert_eq!(all[0].filename, "b");
    assert!(repo.get(1).is_none());
    repo.delete(1);
    assert_eq!(repo.len(), 1);
}

#[test]
fn reused_id_after_delete_finds_older_schedule() {
    // ids are the count plus one, so a delete can make a new id collide
    let mut repo = InMemorySchedulerRepo::new();
    repo.create(schedule(0, "first"));
    repo.create(schedule(0, "second"));
    repo.delete(1);
    let id = repo.create(schedule(0, "third"));
    assert_eq!(id, 2);
    assert_eq!(repo.get(2).unwrap().filename, "second");
    assert_eq!(repo.len(), 2);
}
