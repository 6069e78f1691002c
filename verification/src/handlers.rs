use crate::cron_schedule::{
    cron_accepts, parse_expression, rfc3339_text, rfc3339_utc, upcoming, upcoming_after,
    strictly_increasing_after, utc_rfc3339_shape, EARLIEST_SECOND, LAST_CRON_SECOND,
    LATEST_SECOND,
};
use vstd::prelude::*;
use vstd::string::*;

verus! {

/// How many upcoming firing times a cron preview lists.
pub const PREVIEW_RUNS: usize = 10;

/// The answer of the health check.
pub struct Health {
    pub status: String,
}

/// A cron expression sent for a preview of its firing times.
pub struct Cron {
    pub expression: String,
}

/// The preview of a cron expression: its next firing times in RFC 3339, and
/// the time zone they are given in.
pub struct NextRuns {
    pub timezone: String,
    pub next_runs: Vec<String>,
}

/// The texts of a sequence of strings.
pub open spec fn texts(strings: Seq<String>) -> Seq<Seq<char>> {
    strings.map_values(|s: String| s@)
}

/// The preview texts of `expression` seen from the second `now`: the next
/// firing times, at most `PREVIEW_RUNS` of them, each written in RFC 3339;
/// nothing when `cron` rejects the expression.
pub open spec fn preview_texts(expression: Seq<char>, now: i64) -> Seq<Seq<char>> {
    if cron_accepts(expression) {
        upcoming(expression, now, PREVIEW_RUNS as nat).map_values(|t: i64| rfc3339_text(t))
    } else {
        seq![]
    }
}

/// The health check answer: the service is up.
pub fn health() -> (h: Health)
    ensures
        h.status@ == "OK"@,
{
    Health { status: String::from_str("OK") }
}

/// Builds the preview answer in UTC from the formatted firing times, or from
/// nothing when the expression could not be parsed (an empty list).
pub fn next_runs_reply(runs: Option<Vec<String>>) -> (reply: NextRuns)
    ensures
        reply.timezone@ == "UTC"@,
        match runs {
            Some(v) => reply.next_runs@ == v@,
            None => reply.next_runs@.len() == 0,
        },
{
    let next_runs = match runs {
        Some(v) => v,
        None => Vec::new(),
    };
    NextRuns { timezone: String::from_str("UTC"), next_runs }
}

/// Previews a cron expression: its next `PREVIEW_RUNS` firing times after the
/// second `now`, in UTC and RFC 3339; an empty list when the expression is
/// not a valid cron expression.
pub fn get_next_runs(cron: &Cron, now: i64) -> (reply: NextRuns)
    requires
        EARLIEST_SECOND <= now < LATEST_SECOND,
    ensures
        reply.timezone@ == "UTC"@,
        texts(reply.next_runs@) == preview_texts(cron.expression@, now),
        reply.next_runs@.len() <= PREVIEW_RUNS,
        forall|i: int|
            0 <= i < reply.next_runs@.len() ==> utc_rfc3339_shape(#[trigger] reply.next_runs@[i]@),
        cron_accepts(cron.expression@) ==> {
            let times = upcoming(cron.expression@, now, PREVIEW_RUNS as nat);
            &&& strictly_increasing_after(times, now)
            &&& forall|i: int| 0 <= i < times.len() ==> 0 <= #[trigger] times[i] <= LAST_CRON_SECOND
        },
{
    match parse_expression(cron.expression.as_str()) {
        Ok(schedule) => {
            let times = upcoming_after(&schedule, now, PREVIEW_RUNS);
            let mut formatted: Vec<String> = Vec::new();
            let mut i: usize = 0;
            while i < times.len()
                invariant
                    i <= times@.len(),
                    EARLIEST_SECOND <= now,
                    times@.len() <= PREVIEW_RUNS,
                    formatted@.len() == i,
                    forall|k: int| 0 <= k < times@.len() ==> now < #[trigger] times@[k],
                    forall|k: int| 0 <= k < times@.len() ==> 0 <= #[trigger] times@[k] <= LAST_CRON_SECOND,
                    forall|k: int| 0 <= k < i ==> #[trigger] formatted@[k]@ == rfc3339_text(times@[k]),
                    forall|k: int| 0 <= k < i ==> utc_rfc3339_shape(#[trigger] formatted@[k]@),
                decreases times@.len() - i,
            {
                let text = rfc3339_utc(times[i]);
                formatted.push(text);
                i = i + 1;
            }
            assert(texts(formatted@) =~= times@.map_values(|t: i64| rfc3339_text(t)));
            next_runs_reply(Some(formatted))
        },
        Err(_) => next_runs_reply(None),
    }
}

} // verus!
