use cron::Schedule as ParsedCron;
use std::str::FromStr;
use crate::schedule::Timestamp;
use vstd::prelude::*;

verus! {

#[verifier::external_type_specification]
#[verifier::external_body]
pub struct ExCronSchedule(ParsedCron);

#[verifier::external_type_specification]
#[verifier::external_body]
pub struct ExCronError(cron::error::Error);

/// The earliest whole second (Unix time) that a `chrono` UTC date-time can hold:
/// January 1 of the year -262143, midnight.
pub const EARLIEST_SECOND: i64 = -8_334_601_315_200i64;

/// The latest whole second (Unix time) that a `chrono` UTC date-time can hold:
/// December 31 of the year 262142, 23:59:59.
pub const LATEST_SECOND: i64 = 8_210_266_876_799i64;

/// The last second of the year 2100, the last year a cron schedule can name.
pub const LAST_CRON_SECOND: i64 = 4_133_980_799i64;

/// The first second of the year 0 and the last second of the year 9999: the
/// years that RFC 3339 text writes with four digits and no sign.
pub const FIRST_FOUR_DIGIT_SECOND: i64 = -62_167_219_200i64;

/// The last second of the year 9999.
pub const LAST_FOUR_DIGIT_SECOND: i64 = 253_402_300_799i64;

/// An ASCII decimal digit.
pub open spec fn is_ascii_digit(c: char) -> bool {
    '0' <= c <= '9'
}

/// The shape of the RFC 3339 text of a UTC date-time on a whole second in the
/// years 0 to 9999: `YYYY-MM-DDTHH:MM:SS+00:00`, with digits where the
/// letters stand and no fraction of a second.
pub open spec fn utc_rfc3339_shape(text: Seq<char>) -> bool {
    &&& text.len() == 25
    &&& text[4] == '-' && text[7] == '-' && text[10] == 'T'
    &&& text[13] == ':' && text[16] == ':'
    &&& text[19] == '+' && text[20] == '0' && text[21] == '0' && text[22] == ':'
    &&& text[23] == '0' && text[24] == '0'
    &&& forall|i: int|
        0 <= i < 19 && i != 4 && i != 7 && i != 10 && i != 13 && i != 16 ==> is_ascii_digit(
            #[trigger] text[i],
        )
}

/// A whole second that `chrono` can turn into a UTC date-time.
pub open spec fn representable(seconds: int) -> bool {
    EARLIEST_SECOND <= seconds <= LATEST_SECOND
}

/// Whether the `cron` crate accepts the text as a schedule expression.
pub uninterp spec fn cron_accepts(expression: Seq<char>) -> bool;

/// The first second, strictly after `after`, at which the schedule written as
/// `expression` fires, as the `cron` crate computes it; `None` when it finds
/// none (it never fires again, or `after` lies before the year 0, where the
/// crate's year search comes up empty).
pub uninterp spec fn cron_next_after(expression: Seq<char>, after: i64) -> Option<i64>;

/// The RFC 3339 text that `chrono` writes for the UTC date-time at the start of
/// the given second, such as `2024-01-01T05:00:00+00:00`.
pub uninterp spec fn rfc3339_text(seconds: i64) -> Seq<char>;

/// Why a schedule's next run could not be worked out.
#[derive(Clone, Copy, Debug, PartialEq, Eq, Structural)]
pub enum ScheduleError {
    /// The `cron` crate rejects the cron expression.
    InvalidCronExpression,
    /// The cron expression names no firing time after the given moment.
    NoUpcomingRun,
}

/// A parsed cron schedule together with the expression it was parsed from.
pub struct CronSchedule {
    schedule: ParsedCron,
    source: Ghost<Seq<char>>,
}

impl View for CronSchedule {
    type V = Seq<char>;

    closed spec fn view(&self) -> Seq<char> {
        self.source@
    }
}

/// Parses a cron expression with `cron::Schedule::from_str`.
/// Trusted: the result is `Ok` exactly when `cron` accepts the text, and an
/// accepted schedule remembers the text it came from.
#[verifier::external_body]
fn parse_cron(expression: &str) -> (r: Result<CronSchedule, cron::error::Error>)
    ensures
        r is Ok <==> cron_accepts(expression@),
        r matches Ok(s) ==> s@ == expression@,
{
    match ParsedCron::from_str(expression) {
        Ok(schedule) => Ok(CronSchedule { schedule, source: Ghost(expression@) }),
        Err(e) => Err(e),
    }
}

/// The next firing time of a schedule after a given second: the first item of
/// `cron::Schedule::after`, in UTC, taken back to Unix seconds.
/// Trusted: the result is `cron_next_after` of the schedule's expression, and
/// it lies strictly after `after`, no earlier than 1970 and no later than the
/// end of the year 2100 (the `cron` crate only names the years 1970 to 2100). The second after
/// `after` must be representable, as `cron` adds one second to it.
#[verifier::external_body]
fn next_fire_after(schedule: &CronSchedule, after: i64) -> (r: Option<i64>)
    requires
        EARLIEST_SECOND <= after < LATEST_SECOND,
    ensures
        r == cron_next_after(schedule@, after),
        r matches Some(t) ==> after < t <= LAST_CRON_SECOND && 0 <= t,
{
    let start = chrono::DateTime::from_timestamp(after, 0).unwrap();
    match schedule.schedule.after(&start).next() {
        Some(next) => Some(next.timestamp()),
        None => None,
    }
}

/// Writes the UTC date-time at the start of a second with
/// `chrono::DateTime::to_rfc3339`.
/// Trusted: the text is `rfc3339_text` of the second; for a second in the
/// years 0 to 9999 it has the shape `YYYY-MM-DDTHH:MM:SS+00:00` (chrono writes
/// four-digit years there, no fraction for a whole second, and `+00:00` for
/// UTC).
#[verifier::external_body]
pub(crate) fn rfc3339_utc(seconds: i64) -> (r: String)
    requires
        representable(seconds as int),
    ensures
        r@ == rfc3339_text(seconds),
        FIRST_FOUR_DIGIT_SECOND <= seconds <= LAST_FOUR_DIGIT_SECOND ==> utc_rfc3339_shape(r@),
{
    chrono::DateTime::from_timestamp(seconds, 0).unwrap().to_rfc3339()
}

/// Parses a cron expression; the error is `InvalidCronExpression` exactly
/// when `cron` rejects the text.
pub fn parse_expression(expression: &str) -> (r: Result<CronSchedule, ScheduleError>)
    ensures
        r is Ok <==> cron_accepts(expression@),
        r matches Ok(s) ==> s@ == expression@,
        r matches Err(e) ==> e == ScheduleError::InvalidCronExpression,
{
    match parse_cron(expression) {
        Ok(schedule) => Ok(schedule),
        Err(_) => Err(ScheduleError::InvalidCronExpression),
    }
}

/// The first firing time of the schedule `expression` strictly after the
/// second `now`, as a timestamp on a whole second.
pub fn next_run_after(expression: &str, now: i64) -> (r: Result<Timestamp, ScheduleError>)
    requires
        EARLIEST_SECOND <= now < LATEST_SECOND,
    ensures
        match r {
            Ok(t) => {
                &&& cron_accepts(expression@)
                &&& cron_next_after(expression@, now) == Some(t.seconds)
                &&& t.nanos == 0
                &&& now < t.seconds <= LAST_CRON_SECOND
                &&& 0 <= t.seconds
            },
            Err(ScheduleError::InvalidCronExpression) => !cron_accepts(expression@),
            Err(ScheduleError::NoUpcomingRun) => {
                &&& cron_accepts(expression@)
                &&& cron_next_after(expression@, now) is None
            },
        },
{
    let schedule = parse_expression(expression)?;
    match next_fire_after(&schedule, now) {
        Some(t) => Ok(Timestamp::at_second(t)),
        None => Err(ScheduleError::NoUpcomingRun),
    }
}

/// The firing times of the schedule `expression` after the second `after`,
/// in order, at most `count` of them: each one is the next firing time after
/// the one before, and the list stops early when the schedule never fires again.
pub open spec fn upcoming(expression: Seq<char>, after: i64, count: nat) -> Seq<i64>
    decreases count,
{
    if count == 0 {
        seq![]
    } else {
        match cron_next_after(expression, after) {
            None => seq![],
            Some(t) => seq![t] + upcoming(expression, t, (count - 1) as nat),
        }
    }
}

/// A sequence of seconds that lie strictly after `after`, each strictly later
/// than the one before it.
pub open spec fn strictly_increasing_after(times: Seq<i64>, after: i64) -> bool {
    &&& forall|i: int| 0 <= i < times.len() ==> after < #[trigger] times[i]
    &&& forall|i: int, j: int| 0 <= i < j < times.len() ==> times[i] < times[j]
}

/// Law: the upcoming runs are consecutive firings. The first is the first
/// firing strictly after `after`, each later one is the first firing strictly
/// after the one before it (so no firing lies between two listed runs), there
/// are at most `count` of them, and fewer only when the schedule has no firing
/// after the last one listed (after `after`, when none is listed).
pub proof fn law_upcoming_consecutive(expression: Seq<char>, after: i64, count: nat)
    ensures
        upcoming(expression, after, count).len() <= count,
        upcoming(expression, after, count).len() > 0 ==> cron_next_after(expression, after)
            == Some(upcoming(expression, after, count)[0]),
        forall|i: int|
            0 < i < upcoming(expression, after, count).len() ==> cron_next_after(
                expression,
                #[trigger] upcoming(expression, after, count)[i - 1],
            ) == Some(upcoming(expression, after, count)[i]),
        upcoming(expression, after, count).len() < count ==> if upcoming(
            expression,
            after,
            count,
        ).len() == 0 {
            cron_next_after(expression, after) is None
        } else {
            cron_next_after(expression, upcoming(expression, after, count).last()) is None
        },
    decreases count,
{
    if count > 0 {
        match cron_next_after(expression, after) {
            None => {},
            Some(t) => {
                let rest = upcoming(expression, t, (count - 1) as nat);
                law_upcoming_consecutive(expression, t, (count - 1) as nat);
                let r = upcoming(expression, after, count);
                assert(r == seq![t] + rest);
                assert forall|i: int| 0 < i < r.len() implies cron_next_after(
                    expression,
                    #[trigger] r[i - 1],
                ) == Some(r[i]) by {
                    assert(r[i] == rest[i - 1]);
                    if i > 1 {
                        assert(r[i - 1] == rest[i - 2]);
                    }
                }
                if rest.len() == 0 {
                    assert(r.last() == t);
                } else {
                    assert(r.last() == rest.last());
                }
            },
        }
    }
}

/// The next `count` firing times of a schedule after the second `after`.
pub fn upcoming_after(schedule: &CronSchedule, after: i64, count: usize) -> (runs: Vec<i64>)
    requires
        EARLIEST_SECOND <= after < LATEST_SECOND,
    ensures
        runs@ == upcoming(schedule@, after, count as nat),
        runs@.len() <= count,
        strictly_increasing_after(runs@, after),
        forall|i: int| 0 <= i < runs@.len() ==> 0 <= #[trigger] runs@[i] <= LAST_CRON_SECOND,
        runs@.len() > 0 ==> cron_next_after(schedule@, after) == Some(runs@[0]),
        forall|i: int|
            0 < i < runs@.len() ==> cron_next_after(schedule@, #[trigger] runs@[i - 1]) == Some(
                runs@[i],
            ),
        runs@.len() < count ==> if runs@.len() == 0 {
            cron_next_after(schedule@, after) is None
        } else {
            cron_next_after(schedule@, runs@.last()) is None
        },
{
    let mut runs: Vec<i64> = Vec::new();
    let mut previous: i64 = after;
    let mut taken: usize = 0;
    let mut finished: bool = false;
    while taken < count && !finished
        invariant
            taken <= count,
            runs@.len() == taken,
            EARLIEST_SECOND <= after < LATEST_SECOND,
            after <= previous < LATEST_SECOND,
            taken > 0 ==> previous == runs@[taken - 1],
            strictly_increasing_after(runs@, after),
            forall|i: int| 0 <= i < runs@.len() ==> 0 <= #[trigger] runs@[i] <= LAST_CRON_SECOND,
            upcoming(schedule@, after, count as nat) == runs@ + if finished {
                seq![]
            } else {
                upcoming(schedule@, previous, (count - taken) as nat)
            },
        decreases count - taken, if finished { 0int } else { 1int },
    {
        match next_fire_after(schedule, previous) {
            None => {
                finished = true;
            },
            Some(t) => {
                let ghost before = runs@;
                runs.push(t);
                assert(upcoming(schedule@, previous, (count - taken) as nat) == seq![t] + upcoming(
                    schedule@,
                    t,
                    (count - taken - 1) as nat,
                ));
                assert(before + (seq![t] + upcoming(schedule@, t, (count - taken - 1) as nat))
                    == runs@ + upcoming(schedule@, t, (count - taken - 1) as nat));
                previous = t;
                taken = taken + 1;
            },
        }
    }
    proof {
        law_upcoming_consecutive(schedule@, after, count as nat);
    }
    runs
}

} // verus!
