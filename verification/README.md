# rust_scheduler_service

A scheduling service for file transfers: clients register schedules (a file,
a vendor, a target and a cron expression), the service stores them, previews
the next firing times of cron expressions, and a background task hands due
schedules to a worker and moves their next run forward.

- `src/` is the library, verified with Verus:
  - `schedule`: the schedule model and timestamps;
  - `cron_schedule`: cron parsing and next-firing computation (through the
    `cron` and `chrono` crates), and the ordered list of upcoming runs;
  - `handlers`: health check and cron preview answers;
  - `rows`: how stored rows become schedules and schedules become rows;
  - `repo`: an in-memory schedule repository and its laws;
  - `settings`: the service settings and the check-interval setting.
- `app/` is the program around it: the HTTP API (axum), the Postgres
  repository (sqlx), configuration loading and the background tasks (tokio).
- `tests/` exercises the library on concrete values.
