# job_queue

A persistent job queue with priority scheduling, exponential backoff with
jitter, poison-pill detection (a dead-letter queue), a heartbeat monitor that
reclaims abandoned jobs, and starvation prevention.

- `src/` is the verified library: the job model (`job`), time (`clock`), the
  retry policy (`retry`), the job tables and every change made to them
  (`store`), payload checks of the job handlers (`handlers`, `json`), the
  worker's decisions (`executor`), the heartbeat monitor (`heartbeat`), the
  starvation scheduler (`scheduler`), request bodies (`requests`), rows as
  stored (`columns`), and proved properties of the queue as a whole (`laws`,
  and `lifecycle` for a job's life over any sequence of calls).
- `app/` is the service around it: the HTTP API (actix-web), SQLite
  persistence (sqlx), the worker pool and the periodic monitors (tokio), and
  the simulated handler work.
- `tests/` runs the library on concrete values.
