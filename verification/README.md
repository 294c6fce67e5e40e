# rss_desktop_widget

The core of a desktop RSS widget, verified with Verus.

`src/` is the library. It reads feed documents into the items the widget
stores (titles and authors on one line, a chosen link, bounded content, plain
text, a stable identifier when an entry carries none), checks feed addresses,
keeps settings in range and in the settings table, decides the steps of a
fetch (three attempts, growing pauses, a 2 MB limit), decides which feeds are
due, and holds the store's schema and statements. Outside crates it calls
(`feed-rs`, `html2text`, `url`, `sha2`, `chrono`) stand behind small trusted
functions whose contracts name what they compute. Two inputs that make those
crates panic are kept away from them by verified scans in `src/markup.rs`: a
feed with a play time that holds a non-ASCII decimal digit or a run of 16 or
more digits is refused as unreadable, and HTML whose `colspan` may read as 0
(or as a number of ten or more digits) is shown as its own text rather than
rendered.

`app/` is the desktop shell: SQLite storage through `rusqlite`, HTTP through
`reqwest` and `tokio`, and the Tauri commands, tray and windows.

`tests/` exercises the library, including the store's statements against an
in-memory SQLite database.
