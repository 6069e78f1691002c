use rust_scheduler_service::handlers::{get_next_runs, health, next_runs_reply, Cron, NextRuns, PREVIEW_RUNS};
use rust_scheduler_service::repo::InMemorySchedulerRepo;
use rust_scheduler_service::schedule::Schedule;

// 2024-01-01T00:00:00Z
const NEW_YEAR_2024: i64 = 1_704_067_200;

fn cron(expression: &str) -> Cron {
    Cron { expression: expression.to_string() }
}

fn sample_schedule(id: u64) -> Schedule {
    Schedule {
        id,
        client_id: 1,
        filename: "test.txt".to_string(),
        vendor: "vendor".to_string(),
        target: "target".to_string(),
        cron_expression: "0 5 * * *".to_string(),
        next_run: None,
    }
}

#[test]
fn test_get_all_schedules() {
    let repo = InMemorySchedulerRepo::default();
    let schedules = repo.get_all();
    assert!(schedules.is_empty());
}

#[test]
fn test_create_a_schedule() {
    let mut repo = InMemorySchedulerRepo::default();
    let id = repo.create(sample_schedule(0));
    assert_eq!(id, 1);
    let schedules = repo.get_all();
    assert_eq!(schedules.len(), 1);
    assert_eq!(schedules[0].filename, "test.txt");
}

#[test]
fn test_get_schedule() {
    let mut repo = InMemorySchedulerRepo::default();
    repo.create(sample_schedule(1));
    let schedule = repo.get(1);
    assert!(schedule.is_some());
    assert_eq!(schedule.unwrap().filename, "test.txt");
}

#[test]
fn health_reports_ok() {
    assert_eq!(health().status, "OK");
}

#[test]
fn reply_without_runs_is_empty_utc() {
    let reply: NextRuns = next_runs_reply(None);
    assert_eq!(reply.timezone, "UTC");
    assert!(reply.next_runs.is_empty());
}

#[test]
fn reply_keeps_given_runs() {
    let runs = vec!["a".to_string(), "b".to_string()];
    let reply = next_runs_reply(Some(runs.clone()));
    assert_eq!(reply.timezone, "UTC");
    assert_eq!(reply.next_runs, runs);
}

#[test]
fn five_field_expression_is_rejected() {
    // the cron crate wants a seconds field first
    let reply = get_next_runs(&cron("0 5 * * *"), NEW_YEAR_2024);
    assert_eq!(reply.timezone, "UTC");
    assert!(reply.next_runs.is_empty());
}

#[test]
fn garbage_expression_gives_no_runs() {
    let reply = get_next_runs(&cron("not a cron"), NEW_YEAR_2024);
    assert!(reply.next_runs.is_empty());
}

#[test]
fn daily_expression_lists_ten_runs() {
    let reply = get_next_runs(&cron("0 0 5 * * *"), NEW_YEAR_2024);
    assert_eq!(reply.timezone, "UTC");
    assert_eq!(reply.next_runs.len(), PREVIEW_RUNS);
    assert_eq!(reply.next_runs[0], "2024-01-01T05:00:00+00:00");
    assert_eq!(reply.next_runs[1], "2024-01-02T05:00:00+00:00");
    assert_eq!(reply.next_runs[9], "2024-01-10T05:00:00+00:00");
}

#[test]
fn runs_start_strictly_after_now() {
    // exactly at a firing second, that second is not listed again
    let five_am = NEW_YEAR_2024 + 5 * 3600;
    let reply = get_next_runs(&cron("0 0 5 * * *"), five_am);
    assert_eq!(reply.next_runs[0], "2024-01-02T05:00:00+00:00");
}

#[test]
fn runs_stop_when_schedule_ends() {
    let reply = get_next_runs(&cron("0 0 0 1 1 * 2099-2100"), NEW_YEAR_2024);
    assert_eq!(
        reply.next_runs,
        vec!["2099-01-01T00:00:00+00:00".to_string(), "2100-01-01T00:00:00+00:00".to_string()]
    );
}

#[test]
fn past_only_schedule_has_no_runs() {
    let reply = get_next_runs(&cron("0 0 0 1 1 * 2020"), NEW_YEAR_2024);
    assert!(reply.next_runs.is_empty());
}

#[test]
fn preview_texts_are_whole_second_utc_and_ascending() {
    let reply = get_next_runs(&cron("0 */7 * * * *"), NEW_YEAR_2024 + 59);
    assert_eq!(reply.next_runs.len(), PREVIEW_RUNS);
    assert_eq!(reply.next_runs[0], "2024-01-01T00:07:00+00:00");
    for text in &reply.next_runs {
        assert_eq!(text.len(), 25);
        assert!(text.ends_with("+00:00"));
    }
    for pair in reply.next_runs.windows(2) {
        assert!(pair[0] < pair[1]);
    }
}
