# zero2prod

A small service that scrapes green coffee listings from Sweet Maria's, stores
them in a libSQL database, queues and runs scrape jobs, and recommends
listings close to a description.

- `src/` is the library, verified with Verus: the SQL that every route and
  job sends, the reduction of a listing page to its text and details, the
  decisions of the job runner, the migration runner and `POST /jobs` (as
  state machines from state and event to next state and action), the
  ranking of recommendations and the search for the most similar stored
  embedding, request validation, and the choice of
  database. Calls into `scraper`, `tiktoken-rs`, `uuid` and `chrono` stand
  behind small trusted wrappers whose contracts say what the library relies
  on.
- `app/` is the program around it: the HTTP server (actix-web), database
  access (libsql), HTTP fetching (reqwest), the OpenAI client, reading the
  configuration, and the floating-point similarity measures. It performs the
  actions that the library's state machines decide on.
- `tests/` runs the library on concrete inputs.

Run the server with no arguments; run a maintenance task with
`<program> migrate <path>...`, `<program> sm-scraper` or
`<program> fast-embed-similars`. The `fast-embed-scrapes` task needs the
`fastembed` model crate, which this build does not include: it reports an
error instead of embedding; a queued embedding job logs that error and is
then marked completed, as every job is once its work returns.
