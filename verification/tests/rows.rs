use rust_scheduler_service::cron_schedule::{next_run_after, ScheduleError};
use rust_scheduler_service::rows::{insert_row_for, reschedule, schedule_from_row, schedules_from_rows, ScheduleRow};
use rust_scheduler_service::schedule::{Schedule, Timestamp};

const NEW_YEAR_2024: i64 = 1_704_067_200;

fn row(id: i64, client_id: i64) -> ScheduleRow {
    ScheduleRow {
        id,
        client_id,
        filename: "f.csv".to_string(),
        vendor: "v".to_string(),
        target: "t".to_string(),
        cron_expression: "0 0 5 * * *".to_string(),
        next_run: Timestamp { seconds: NEW_YEAR_2024, nanos: 250 },
    }
}

fn schedule(expression: &str, next_run: Option<Timestamp>) -> Schedule {
    Schedule {
        id: 4,
        client_id: u64::MAX,
        filename: "f.csv".to_string(),
        vendor: "v".to_string(),
        target: "t".to_string(),
        cron_expression: expression.to_string(),
        next_run,
    }
}

#[test]
fn row_becomes_schedule() {
    let s = schedule_from_row(row(12, 34));
    assert_eq!(s.id, 12);
    assert_eq!(s.client_id, 34);
    assert_eq!(s.filename, "f.csv");
    assert_eq!(s.cron_expression, "0 0 5 * * *");
    assert_eq!(s.next_run, Some(Timestamp { seconds: NEW_YEAR_2024, nanos: 250 }));
}

#[test]
fn negative_row_ids_wrap() {
    let s = schedule_from_row(row(-1, -2));
    assert_eq!(s.id, u64::MAX);
    assert_eq!(s.client_id, u64::MAX - 1);
}

#[test]
fn next_run_after_is_first_firing() {
    assert_eq!(
        next_run_after("0 30 9 * * *", NEW_YEAR_2024),
        Ok(Timestamp { seconds: NEW_YEAR_2024 + 9 * 3600 + 30 * 60, nanos: 0 })
    );
}

#[test]
fn next_run_after_reports_errors() {
    assert_eq!(next_run_after("0 5 * * *", NEW_YEAR_2024), Err(ScheduleError::InvalidCronExpression));
    assert_eq!(next_run_after("0 0 0 1 1 * 1999", NEW_YEAR_2024), Err(ScheduleError::NoUpcomingRun));
}

#[test]
fn insert_row_computes_missing_next_run() {
    let r = insert_row_for(schedule("0 0 5 * * *", None), NEW_YEAR_2024).ok().unwrap();
    assert_eq!(r.client_id, -1);
    assert_eq!(r.filename, "f.csv");
    assert_eq!(r.next_run, Timestamp { seconds: NEW_YEAR_2024 + 5 * 3600, nanos: 0 });
}

#[test]
fn insert_row_keeps_given_next_run() {
    let given = Timestamp { seconds: 5, nanos: 7 };
    let r = insert_row_for(schedule("not parsed", Some(given)), NEW_YEAR_2024).ok().unwrap();
    assert_eq!(r.next_run, given);
    assert_eq!(r.cron_expression, "not parsed");
}

#[test]
fn insert_row_fails_on_bad_expression() {
    let r = insert_row_for(schedule("bad", None), NEW_YEAR_2024);
    assert!(matches!(r, Err(ScheduleError::InvalidCronExpression)));
    let r = insert_row_for(schedule("0 0 0 1 1 * 1999", None), NEW_YEAR_2024);
    assert!(matches!(r, Err(ScheduleError::NoUpcomingRun)));
}

#[test]
fn client_id_survives_read_then_write() {
    let s = schedule_from_row(row(1, -42));
    let r = insert_row_for(Schedule { next_run: None, ..s }, NEW_YEAR_2024).ok().unwrap();
    assert_eq!(r.client_id, -42);
}

#[test]
fn rows_read_back_in_order() {
    let schedules = schedules_from_rows(vec![row(1, 10), row(-3, 20), row(2, 30)]);
    let ids: Vec<u64> = schedules.iter().map(|s| s.id).collect();
    assert_eq!(ids, vec![1, u64::MAX - 2, 2]);
    assert_eq!(schedules[2].client_id, 30);
    assert!(schedules_from_rows(Vec::new()).is_empty());
}

#[test]
fn reschedule_sends_row_and_moves_next_run() {
    let d = reschedule(row(9, 3), NEW_YEAR_2024 + 6 * 3600);
    assert_eq!(d.row_id, 9);
    assert_eq!(d.schedule.id, 9);
    assert_eq!(d.schedule.next_run, Some(Timestamp { seconds: NEW_YEAR_2024, nanos: 250 }));
    assert_eq!(d.next_run, Ok(Timestamp { seconds: NEW_YEAR_2024 + 86_400 + 5 * 3600, nanos: 0 }));
}

#[test]
fn reschedule_reports_bad_expression() {
    let mut r = row(1, 1);
    r.cron_expression = "0 5 * * *".to_string();
    let d = reschedule(r, NEW_YEAR_2024);
    assert_eq!(d.row_id, 1);
    assert_eq!(d.next_run, Err(ScheduleError::InvalidCronExpression));
}

#[test]
fn given_next_run_reads_back_unchanged() {
    let given = Timestamp { seconds: NEW_YEAR_2024, nanos: 3 };
    let r = insert_row_for(schedule("0 0 5 * * *", Some(given)), NEW_YEAR_2024).ok().unwrap();
    let stored = ScheduleRow {
        id: 77,
        client_id: r.client_id,
        filename: r.filename,
        vendor: r.vendor,
        target: r.target,
        cron_expression: r.cron_expression,
        next_run: r.next_run,
    };
    let back = schedule_from_row(stored);
    assert_eq!(back.id, 77);
    assert_eq!(back.client_id, u64::MAX);
    assert_eq!(back.next_run, Some(given));
}
