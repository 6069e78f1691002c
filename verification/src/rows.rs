use crate::cron_schedule::{
    cron_accepts, cron_next_after, next_run_after, ScheduleError, EARLIEST_SECOND,
    LAST_CRON_SECOND, LATEST_SECOND,
};
use crate::schedule::{views, Schedule, ScheduleView, Timestamp};
use vstd::prelude::*;

verus! {

/// A stored schedule as the database holds it: signed ids and a next run that
/// is always set.
pub struct ScheduleRow {
    pub id: i64,
    pub client_id: i64,
    pub filename: String,
    pub vendor: String,
    pub target: String,
    pub cron_expression: String,
    pub next_run: Timestamp,
}

/// The values written to the database when a schedule is stored; the id is
/// left to the database, and the next run is always set.
pub struct NewScheduleRow {
    pub client_id: i64,
    pub filename: String,
    pub vendor: String,
    pub target: String,
    pub cron_expression: String,
    pub next_run: Timestamp,
}

/// The value of a stored row, with its texts as character sequences.
pub struct RowView {
    pub id: i64,
    pub client_id: i64,
    pub filename: Seq<char>,
    pub vendor: Seq<char>,
    pub target: Seq<char>,
    pub cron_expression: Seq<char>,
    pub next_run: Timestamp,
}

/// The value of a row to insert, with its texts as character sequences.
pub struct NewRowView {
    pub client_id: i64,
    pub filename: Seq<char>,
    pub vendor: Seq<char>,
    pub target: Seq<char>,
    pub cron_expression: Seq<char>,
    pub next_run: Timestamp,
}

impl View for ScheduleRow {
    type V = RowView;

    open spec fn view(&self) -> RowView {
        RowView {
            id: self.id,
            client_id: self.client_id,
            filename: self.filename@,
            vendor: self.vendor@,
            target: self.target@,
            cron_expression: self.cron_expression@,
            next_run: self.next_run,
        }
    }
}

impl View for NewScheduleRow {
    type V = NewRowView;

    open spec fn view(&self) -> NewRowView {
        NewRowView {
            client_id: self.client_id,
            filename: self.filename@,
            vendor: self.vendor@,
            target: self.target@,
            cron_expression: self.cron_expression@,
            next_run: self.next_run,
        }
    }
}

/// The schedule read back from a stored row: the ids are reinterpreted as
/// unsigned (two's complement) and the next run is present.
pub open spec fn schedule_of_row(row: RowView) -> ScheduleView {
    ScheduleView {
        id: row.id as u64,
        client_id: row.client_id as u64,
        filename: row.filename,
        vendor: row.vendor,
        target: row.target,
        cron_expression: row.cron_expression,
        next_run: Some(row.next_run),
    }
}

/// The schedules read back from a sequence of stored rows, in the same order.
pub open spec fn schedules_of_rows(rows: Seq<RowView>) -> Seq<ScheduleView> {
    rows.map_values(|r: RowView| schedule_of_row(r))
}

/// The values of a sequence of rows.
pub open spec fn row_views(rows: Seq<ScheduleRow>) -> Seq<RowView> {
    rows.map_values(|r: ScheduleRow| r@)
}

/// The next run stored with a new schedule, seen from the second `now`: the
/// schedule's own next run when it comes with one; otherwise the first firing
/// time of its cron expression after `now`.
pub open spec fn stored_next_run(schedule_next_run: Option<Timestamp>, expression: Seq<char>, now: i64) -> Timestamp {
    match schedule_next_run {
        Some(t) => t,
        None => Timestamp { seconds: cron_next_after(expression, now)->0, nanos: 0 },
    }
}

/// The row inserted for a new schedule, seen from the second `now`: the
/// client id reinterpreted as signed, the texts as they are, and the stored
/// next run.
pub open spec fn new_row_of(schedule: ScheduleView, now: i64) -> NewRowView {
    NewRowView {
        client_id: schedule.client_id as i64,
        filename: schedule.filename,
        vendor: schedule.vendor,
        target: schedule.target,
        cron_expression: schedule.cron_expression,
        next_run: stored_next_run(schedule.next_run, schedule.cron_expression, now),
    }
}

/// The row that the database holds once it has stored `row` under the id `id`.
pub open spec fn stored_row(id: i64, row: NewRowView) -> RowView {
    RowView {
        id,
        client_id: row.client_id,
        filename: row.filename,
        vendor: row.vendor,
        target: row.target,
        cron_expression: row.cron_expression,
        next_run: row.next_run,
    }
}

/// The schedule read back from a stored row.
pub fn schedule_from_row(row: ScheduleRow) -> (s: Schedule)
    ensures
        s@ == schedule_of_row(row@),
        s.id == row.id as u64,
        s.client_id == row.client_id as u64,
        s.filename@ == row.filename@,
        s.vendor@ == row.vendor@,
        s.target@ == row.target@,
        s.cron_expression@ == row.cron_expression@,
        s.next_run == Some(row.next_run),
{
    Schedule {
        id: row.id as u64,
        client_id: row.client_id as u64,
        filename: row.filename,
        vendor: row.vendor,
        target: row.target,
        cron_expression: row.cron_expression,
        next_run: Some(row.next_run),
    }
}

/// The schedules read back from stored rows, in the rows' order.
pub fn schedules_from_rows(rows: Vec<ScheduleRow>) -> (schedules: Vec<Schedule>)
    ensures
        views(schedules@) == schedules_of_rows(row_views(rows@)),
        schedules@.len() == rows@.len(),
        forall|i: int|
            0 <= i < rows@.len() ==> {
                &&& #[trigger] schedules@[i].id == rows@[i].id as u64
                &&& schedules@[i].client_id == rows@[i].client_id as u64
                &&& schedules@[i].filename@ == rows@[i].filename@
                &&& schedules@[i].vendor@ == rows@[i].vendor@
                &&& schedules@[i].target@ == rows@[i].target@
                &&& schedules@[i].cron_expression@ == rows@[i].cron_expression@
                &&& schedules@[i].next_run == Some(rows@[i].next_run)
            },
{
    let ghost original = rows@;
    let mut rows = rows;
    let mut reversed: Vec<Schedule> = Vec::new();
    while rows.len() > 0
        invariant
            rows@.len() + reversed@.len() == original.len(),
            rows@ == original.take(rows@.len() as int),
            forall|k: int|
                0 <= k < reversed@.len() ==> #[trigger] reversed@[k]@ == schedule_of_row(
                    original[original.len() - 1 - k]@,
                ),
        decreases rows@.len(),
    {
        let row = rows.pop().unwrap();
        let s = schedule_from_row(row);
        reversed.push(s);
        assert(rows@ =~= original.take(rows@.len() as int));
    }
    let mut schedules: Vec<Schedule> = Vec::new();
    while reversed.len() > 0
        invariant
            reversed@.len() + schedules@.len() == original.len(),
            forall|k: int|
                0 <= k < reversed@.len() ==> #[trigger] reversed@[k]@ == schedule_of_row(
                    original[original.len() - 1 - k]@,
                ),
            forall|k: int|
                0 <= k < schedules@.len() ==> #[trigger] schedules@[k]@ == schedule_of_row(
                    original[k]@,
                ),
        decreases reversed@.len(),
    {
        let s = reversed.pop().unwrap();
        schedules.push(s);
    }
    assert(views(schedules@) =~= schedules_of_rows(row_views(original)));
    assert forall|i: int| 0 <= i < original.len() implies {
        &&& #[trigger] schedules@[i].id == original[i].id as u64
        &&& schedules@[i].client_id == original[i].client_id as u64
        &&& schedules@[i].filename@ == original[i].filename@
        &&& schedules@[i].vendor@ == original[i].vendor@
        &&& schedules@[i].target@ == original[i].target@
        &&& schedules@[i].cron_expression@ == original[i].cron_expression@
        &&& schedules@[i].next_run == Some(original[i].next_run)
    } by {
        assert(schedules@[i]@ == schedule_of_row(original[i]@));
    }
    schedules
}

/// The row to insert for a new schedule, seen from the second `now`. The
/// client id is reinterpreted as signed. A schedule that comes with a next run
/// keeps it, and its expression is not looked at. A schedule without one gets
/// the first firing time of its cron expression after `now`; that fails when
/// the expression is rejected or never fires again.
pub fn insert_row_for(schedule: Schedule, now: i64) -> (r: Result<NewScheduleRow, ScheduleError>)
    requires
        EARLIEST_SECOND <= now < LATEST_SECOND,
    ensures
        match r {
            Ok(row) => {
                &&& row@ == new_row_of(schedule@, now)
                &&& row.client_id == schedule.client_id as i64
                &&& row.filename@ == schedule.filename@
                &&& row.vendor@ == schedule.vendor@
                &&& row.target@ == schedule.target@
                &&& row.cron_expression@ == schedule.cron_expression@
                &&& schedule.next_run matches Some(t) ==> row.next_run == t
                &&& schedule.next_run is None ==> cron_next_after(schedule.cron_expression@, now)
                    == Some(row.next_run.seconds)
                &&& schedule.next_run is None ==> {
                    &&& cron_accepts(schedule.cron_expression@)
                    &&& cron_next_after(schedule.cron_expression@, now) is Some
                    &&& now < row.next_run.seconds <= LAST_CRON_SECOND
                    &&& 0 <= row.next_run.seconds
                    &&& row.next_run.nanos == 0
                }
            },
            Err(ScheduleError::InvalidCronExpression) => {
                &&& schedule.next_run is None
                &&& !cron_accepts(schedule.cron_expression@)
            },
            Err(ScheduleError::NoUpcomingRun) => {
                &&& schedule.next_run is None
                &&& cron_accepts(schedule.cron_expression@)
                &&& cron_next_after(schedule.cron_expression@, now) is None
            },
        },
{
    let next_run = match schedule.next_run {
        Some(t) => t,
        None => next_run_after(schedule.cron_expression.as_str(), now)?,
    };
    Ok(
        NewScheduleRow {
            client_id: schedule.client_id as i64,
            filename: schedule.filename,
            vendor: schedule.vendor,
            target: schedule.target,
            cron_expression: schedule.cron_expression,
            next_run,
        },
    )
}

/// What one pass of the scheduler does with a due row: the schedule to hand
/// to the worker, the id of the row to update, and the row's new next run (or
/// why there is none).
pub struct Dispatch {
    pub schedule: Schedule,
    pub row_id: i64,
    pub next_run: Result<Timestamp, ScheduleError>,
}

/// Plans the handling of a due row at the second `now`: the schedule read
/// back from the row goes to the worker, and the row's next run moves to the
/// first firing time of its cron expression after `now`.
pub fn reschedule(row: ScheduleRow, now: i64) -> (d: Dispatch)
    requires
        EARLIEST_SECOND <= now < LATEST_SECOND,
    ensures
        d.schedule@ == schedule_of_row(row@),
        d.schedule.id == row.id as u64,
        d.schedule.client_id == row.client_id as u64,
        d.schedule.filename@ == row.filename@,
        d.schedule.vendor@ == row.vendor@,
        d.schedule.target@ == row.target@,
        d.schedule.cron_expression@ == row.cron_expression@,
        d.schedule.next_run == Some(row.next_run),
        d.row_id == row.id,
        match d.next_run {
            Ok(t) => {
                &&& cron_accepts(row.cron_expression@)
                &&& cron_next_after(row.cron_expression@, now) == Some(t.seconds)
                &&& t.nanos == 0
                &&& now < t.seconds <= LAST_CRON_SECOND
                &&& 0 <= t.seconds
            },
            Err(ScheduleError::InvalidCronExpression) => !cron_accepts(row.cron_expression@),
            Err(ScheduleError::NoUpcomingRun) => {
                &&& cron_accepts(row.cron_expression@)
                &&& cron_next_after(row.cron_expression@, now) is None
            },
        },
{
    let next_run = next_run_after(row.cron_expression.as_str(), now);
    let row_id = row.id;
    let schedule = schedule_from_row(row);
    Dispatch { schedule, row_id, next_run }
}

/// Law: reading a row back keeps each column in its own field: the ids are
/// read as unsigned, the texts are the row's, and the next run is present.
pub proof fn law_row_read_back_fields(row: RowView)
    ensures
        schedule_of_row(row).id == row.id as u64,
        schedule_of_row(row).client_id == row.client_id as u64,
        schedule_of_row(row).filename == row.filename,
        schedule_of_row(row).vendor == row.vendor,
        schedule_of_row(row).target == row.target,
        schedule_of_row(row).cron_expression == row.cron_expression,
        schedule_of_row(row).next_run == Some(row.next_run),
{
}

/// Law: reading many rows back gives one schedule per row, in the rows'
/// order, each with the columns of its own row.
pub proof fn law_rows_read_back_in_order(rows: Seq<RowView>)
    ensures
        schedules_of_rows(rows).len() == rows.len(),
        forall|i: int|
            0 <= i < rows.len() ==> {
                &&& #[trigger] schedules_of_rows(rows)[i].id == rows[i].id as u64
                &&& schedules_of_rows(rows)[i].client_id == rows[i].client_id as u64
                &&& schedules_of_rows(rows)[i].filename == rows[i].filename
                &&& schedules_of_rows(rows)[i].vendor == rows[i].vendor
                &&& schedules_of_rows(rows)[i].target == rows[i].target
                &&& schedules_of_rows(rows)[i].cron_expression == rows[i].cron_expression
                &&& schedules_of_rows(rows)[i].next_run == Some(rows[i].next_run)
            },
{
}

/// Law: the row inserted for a schedule carries the schedule's columns in
/// their own fields, the client id written as signed. Its next run is the
/// schedule's own when it has one, and otherwise the first firing of its cron
/// expression strictly after `now`.
pub proof fn law_insert_row_fields(schedule: ScheduleView, now: i64)
    ensures
        new_row_of(schedule, now).client_id == schedule.client_id as i64,
        new_row_of(schedule, now).filename == schedule.filename,
        new_row_of(schedule, now).vendor == schedule.vendor,
        new_row_of(schedule, now).target == schedule.target,
        new_row_of(schedule, now).cron_expression == schedule.cron_expression,
        schedule.next_run matches Some(t) ==> new_row_of(schedule, now).next_run == t,
        schedule.next_run is None && cron_next_after(schedule.cron_expression, now) is Some
            ==> cron_next_after(schedule.cron_expression, now) == Some(
            new_row_of(schedule, now).next_run.seconds,
        ) && new_row_of(schedule, now).next_run.nanos == 0,
{
}

/// A client id read from a row and written back is the row's client id: the
/// signed-to-unsigned reading and the unsigned-to-signed writing undo each other.
pub proof fn lemma_row_client_id_round_trip(client_id: i64)
    ensures
        (client_id as u64) as i64 == client_id,
{
    assert((client_id as u64) as i64 == client_id) by (bit_vector);
}

/// A schedule's client id written to a row and read back is the same client id.
pub proof fn lemma_schedule_client_id_round_trip(client_id: u64)
    ensures
        (client_id as i64) as u64 == client_id,
{
    assert((client_id as i64) as u64 == client_id) by (bit_vector);
}

/// Two distinct row ids stay distinct when read as unsigned.
pub proof fn lemma_row_ids_distinct(a: i64, b: i64)
    requires
        a != b,
    ensures
        a as u64 != b as u64,
{
    assert(a != b ==> a as u64 != b as u64) by (bit_vector);
}

/// Law: a schedule stored under the id `id` reads back as itself, under that
/// id, with the next run it was stored with: its client id, file, vendor,
/// target and cron expression come back unchanged.
pub proof fn law_read_back_after_insert(schedule: ScheduleView, now: i64, id: i64)
    ensures
        schedule_of_row(stored_row(id, new_row_of(schedule, now))) == (ScheduleView {
            id: id as u64,
            next_run: Some(stored_next_run(schedule.next_run, schedule.cron_expression, now)),
            ..schedule
        }),
{
    lemma_schedule_client_id_round_trip(schedule.client_id);
}

/// Law: a schedule that comes with a next run reads back exactly as it was
/// given, under the id the database chose.
pub proof fn law_read_back_keeps_given_next_run(schedule: ScheduleView, now: i64, id: i64)
    requires
        (schedule.next_run is Some),
    ensures
        schedule_of_row(stored_row(id, new_row_of(schedule, now))) == schedule.with_id(id as u64),
{
    law_read_back_after_insert(schedule, now, id);
}

/// Law: storing a new schedule under an id no stored row has adds exactly one
/// schedule to what is read back from the table: the earlier ones stay as they
/// were, none of them has the new id, and the new one comes last, as
/// `law_read_back_after_insert` describes.
pub proof fn law_table_read_back_after_insert(table: Seq<RowView>, schedule: ScheduleView, now: i64, id: i64)
    requires
        forall|i: int| 0 <= i < table.len() ==> #[trigger] table[i].id != id,
    ensures
        ({
            let after = schedules_of_rows(table.push(stored_row(id, new_row_of(schedule, now))));
            &&& after.len() == table.len() + 1
            &&& after.last() == schedule_of_row(stored_row(id, new_row_of(schedule, now)))
            &&& forall|i: int| 0 <= i < table.len() ==> after[i] == #[trigger] schedules_of_rows(table)[i]
            &&& forall|i: int| 0 <= i < table.len() ==> #[trigger] after[i].id != id as u64
        }),
{
    let after = schedules_of_rows(table.push(stored_row(id, new_row_of(schedule, now))));
    assert forall|i: int| 0 <= i < table.len() implies #[trigger] after[i].id != id as u64 by {
        assert(table.push(stored_row(id, new_row_of(schedule, now)))[i] == table[i]);
        lemma_row_ids_distinct(table[i].id, id);
    }
    assert forall|i: int| 0 <= i < table.len() implies after[i] == #[trigger] schedules_of_rows(table)[i] by {
        assert(table.push(stored_row(id, new_row_of(schedule, now)))[i] == table[i]);
    }
}

} // verus!
