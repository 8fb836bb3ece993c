# ztask_web

A web front end for a task tracker whose tasks live in a zenoh key-value
store, one key per field (`projects/{project}/tasks/{task}/{field}`).

- `src/` is the verified library (Verus): the task model (`models`), reading
  stored entries into tasks and project summaries and ordering them
  (`queries`), the writes that creating, updating, editing and deleting a
  task make (`tasks`), the JSON text of history entries (`json`), status counts and duration texts (`metrics`), the
  decisions and page contents behind the pages (`handlers`), text handling
  (`text`), and properties relating several operations (`laws`).
- `app/` is the server around it: routes and handlers (axum), templates
  (askama), the zenoh connection, the clock, and the floating-point metrics
  (thresholds and donut segment arcs).
- `tests/` exercises the library on concrete values.
