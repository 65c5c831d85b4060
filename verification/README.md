# soziopolis_lingq_tool

Finds articles on Soziopolis, keeps them in a local library and uploads them
to LingQ as lessons.

- `src/` is the library, verified with Verus: reading listing and article
  pages (`soziopolis/`), walking a section's listing pages one page at a time
  (`soziopolis/walk.rs`), the import and upload bookkeeping (`services.rs`),
  LingQ requests and answers (`lingq.rs`), the library's cards, previews,
  topics and statistics, the job queue, and the app state machine
  (`gui/`): `App::update` takes a message and returns the new state with the
  work to run. Calls into scraper, regex and chrono stand behind small trusted
  wrappers whose contracts name what those crates compute.
- `app/` is the program around it: it reads commands from the terminal,
  turns them into messages, runs the work the state machine asks for
  (HTTP with reqwest, the SQLite library, job queue and history with rusqlite,
  the settings file with serde_json) and hands the outcomes back as messages.
- `tests/` exercises the library on concrete pages and values.
