# report_manager

The verified core of ReportManager, a local-first desktop application for
daily reports, weekly reports and meeting notes.

The library (`src/`, verified with Verus) decides everything that the
application stores and reads back:

- `models` — records, searches, navigation menus, preferences, and the SQL
  statements (text plus placeholder values) that the store executes;
- `records` — how a record becomes a row of the `records` table and back;
- `search` — how a record search becomes one statement (filters, trimming,
  page bounds);
- `actions` — reading the stored order of the menu action buttons;
- `preferences` — settings keys and defaults, reading preferences back,
  saving them together with the order of the navigation menus;
- `menus` — adding and deleting navigation menus;
- `seed` — the fixed menus, default settings and sample weekly reports;
- `schema` — the tables and which migration failures are expected;
- `window` — where the main window goes and how the shell reacts to tray and
  window events;
- `text`, `json` — exact text helpers and the JSON encodings (serde_json).

`app/` is the desktop shell around it: Tauri commands, the tray, window
geometry files, and a SQLite connection that executes the statements that the
library plans. `tests/` exercise the library, including against a real
in-memory SQLite store.
