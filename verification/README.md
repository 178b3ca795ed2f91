# docket

A small bug tracker. Each bug is a Markdown file with a YAML front matter
under `.docket/bugs/`, and each change to a bug is an event appended to a
JSON-lines log beside it.

- `src/` is the verified library:
  - `text.rs`: trimming, substring search and splitting on characters;
  - `bug.rs`: statuses, priorities, timestamps, bugs and the bug-file frame;
  - `event.rs`: events and the bug that replaying a log derives;
  - `order.rs`: the stable time orders of bugs and events;
  - `store.rs`: where a docket and its files are, and how ids are drawn;
  - `workflow.rs`: the decisions of the commands (status changes,
    finishing a bug, workspaces).
- `app/` is the command-line program: file, process and terminal I/O, and the
  serde records of bugs and events.
- `tests/` exercise the library.
