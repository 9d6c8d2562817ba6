# avc

The logic of a small label printing service for a chip programming line: it
writes the printer command text of a job's label, fills the job form from its
query (with defaults and URL-decoding), builds the links to that form, pages
the list of printed jobs, and reads the job to print from the handler
machine's JSON status answers.

- `src/` is the verified library (Verus): `decimal` (integer text), `label`
  (the label's command text), `job` (the job record), `form` (form decoding,
  defaults, links, paging), `machine` (JSON lookups for the tray), `paths`
  (where the files go).
- `app/` is the service around it: the Rocket routes and Maud pages, the
  SQLite job table, the label files, and the Windows tray icon.
- `tests/` exercises the library.
