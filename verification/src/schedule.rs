use vstd::prelude::*;

verus! {

/// A point in time as whole seconds since the Unix epoch plus a sub-second
/// part in nanoseconds.
#[derive(Clone, Copy, Debug, PartialEq, Eq, Structural)]
pub struct Timestamp {
    pub seconds: i64,
    pub nanos: u32,
}

impl Timestamp {
    /// The timestamp at the start of the given second.
    pub fn at_second(seconds: i64) -> (t: Timestamp)
        ensures
            t.seconds == seconds,
            t.nanos == 0,
    {
        Timestamp { seconds, nanos: 0 }
    }
}


/// A scheduled file transfer: which client's file goes to which vendor and
/// target, on which cron schedule, and when it runs next.
#[derive(Debug)]
pub struct Schedule {
    pub id: u64,
    pub client_id: u64,
    pub filename: String,
    pub vendor: String,
    pub target: String,
    pub cron_expression: String,
    pub next_run: Option<Timestamp>,
}

/// The value of a schedule, with its texts as character sequences.
pub struct ScheduleView {
    pub id: u64,
    pub client_id: u64,
    pub filename: Seq<char>,
    pub vendor: Seq<char>,
    pub target: Seq<char>,
    pub cron_expression: Seq<char>,
    pub next_run: Option<Timestamp>,
}

impl ScheduleView {
    /// The same schedule under another id.
    pub open spec fn with_id(self, id: u64) -> ScheduleView {
        ScheduleView { id, ..self }
    }
}

impl View for Schedule {
    type V = ScheduleView;

    open spec fn view(&self) -> ScheduleView {
        ScheduleView {
            id: self.id,
            client_id: self.client_id,
            filename: self.filename@,
            vendor: self.vendor@,
            target: self.target@,
            cron_expression: self.cron_expression@,
            next_run: self.next_run,
        }
    }
}

impl Clone for Schedule {
    fn clone(&self) -> (c: Self)
        ensures
            c@ == self@,
    {
        Schedule {
            id: self.id,
            client_id: self.client_id,
            filename: self.filename.clone(),
            vendor: self.vendor.clone(),
            target: self.target.clone(),
            cron_expression: self.cron_expression.clone(),
            next_run: self.next_run,
        }
    }
}

/// The values of a sequence of schedules.
pub open spec fn views(schedules: Seq<Schedule>) -> Seq<ScheduleView> {
    schedules.map_values(|s: Schedule| s@)
}

} // verus!
