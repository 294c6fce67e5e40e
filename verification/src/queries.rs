//! The store's schema and statements. The store keeps feeds with unique
//! addresses, items unique per feed and identifier (deleted with their feed),
//! at most `ITEM_RETENTION` items overall (the newest by publication date),
//! settings by key, and the latest `LOG_RETENTION` refresh log entries.
use vstd::prelude::*;

verus! {

/// The store keeps at most this many items, the newest first.
pub const ITEM_RETENTION: i64 = 5000;

/// The store keeps at most this many refresh log entries.
pub const LOG_RETENTION: i64 = 80;

/// The refresh log view lists at most this many entries.
pub const LOG_PAGE: i64 = 50;

/// The tables and indexes, created when missing.
pub const SCHEMA: &'static str = r#"
CREATE TABLE IF NOT EXISTS feeds (
    id INTEGER PRIMARY KEY AUTOINCREMENT,
    title TEXT NOT NULL,
    url TEXT NOT NULL UNIQUE,
    enabled INTEGER NOT NULL DEFAULT 1,
    refresh_interval_minutes INTEGER NOT NULL DEFAULT 15,
    last_checked_at TEXT,
    last_error TEXT,
    created_at TEXT NOT NULL,
    updated_at TEXT NOT NULL
);

CREATE TABLE IF NOT EXISTS items (
    id INTEGER PRIMARY KEY AUTOINCREMENT,
    feed_id INTEGER NOT NULL,
    guid TEXT NOT NULL,
    title TEXT NOT NULL,
    link TEXT,
    author TEXT,
    published_at TEXT,
    content_text TEXT NOT NULL,
    content_html TEXT,
    read INTEGER NOT NULL DEFAULT 0,
    favorite INTEGER NOT NULL DEFAULT 0,
    created_at TEXT NOT NULL,
    updated_at TEXT NOT NULL,
    FOREIGN KEY(feed_id) REFERENCES feeds(id) ON DELETE CASCADE,
    UNIQUE(feed_id, guid)
);

CREATE TABLE IF NOT EXISTS settings (
    key TEXT PRIMARY KEY,
    value TEXT NOT NULL
);

CREATE TABLE IF NOT EXISTS refresh_logs (
    id INTEGER PRIMARY KEY AUTOINCREMENT,
    feed_id INTEGER,
    status TEXT NOT NULL,
    message TEXT,
    created_at TEXT NOT NULL
);

CREATE INDEX IF NOT EXISTS idx_items_feed_time ON items(feed_id, published_at);
CREATE INDEX IF NOT EXISTS idx_items_read ON items(read);
CREATE INDEX IF NOT EXISTS idx_items_favorite ON items(favorite);
CREATE INDEX IF NOT EXISTS idx_logs_time ON refresh_logs(created_at);
"#;

pub const SELECT_SETTINGS: &'static str = "SELECT key, value FROM settings";

pub const UPSERT_SETTING: &'static str = r#"
INSERT INTO settings (key, value)
VALUES (?1, ?2)
ON CONFLICT(key) DO UPDATE SET value = excluded.value
"#;

pub const INSERT_SETTING_IF_MISSING: &'static str =
    "INSERT OR IGNORE INTO settings (key, value) VALUES (?1, ?2)";

pub const LIST_FEEDS: &'static str = r#"
SELECT id, title, url, enabled, refresh_interval_minutes, last_checked_at, last_error,
       created_at, updated_at
FROM feeds
ORDER BY enabled DESC, title COLLATE NOCASE ASC
"#;

pub const LIST_ENABLED_FEEDS: &'static str = r#"
SELECT id, title, url, enabled, refresh_interval_minutes, last_checked_at, last_error,
       created_at, updated_at
FROM feeds
WHERE enabled = 1
ORDER BY title COLLATE NOCASE ASC
"#;

pub const GET_FEED: &'static str = r#"
SELECT id, title, url, enabled, refresh_interval_minutes, last_checked_at, last_error,
       created_at, updated_at
FROM feeds
WHERE id = ?1
"#;

pub const INSERT_FEED: &'static str = r#"
INSERT INTO feeds (title, url, enabled, refresh_interval_minutes, created_at, updated_at)
VALUES (?1, ?2, 1, ?3, ?4, ?4)
"#;

pub const UPDATE_FEED: &'static str = r#"
UPDATE feeds
SET title = ?1,
    url = ?2,
    enabled = ?3,
    refresh_interval_minutes = ?4,
    updated_at = ?5
WHERE id = ?6
"#;

pub const DELETE_FEED: &'static str = "DELETE FROM feeds WHERE id = ?1";

pub const LIST_ITEMS: &'static str = r#"
SELECT i.id, i.feed_id, f.title AS feed_title, i.title, i.link, i.author,
       i.published_at, i.content_text, i.content_html, i.read, i.favorite,
       i.guid, i.created_at
FROM items i
JOIN feeds f ON f.id = i.feed_id
WHERE (?1 IS NULL OR i.feed_id = ?1)
  AND (?2 != 'unread' OR i.read = 0)
  AND (?2 != 'favorite' OR i.favorite = 1)
  AND (
    ?3 IS NULL
    OR i.title LIKE '%' || ?3 || '%'
    OR i.content_text LIKE '%' || ?3 || '%'
    OR f.title LIKE '%' || ?3 || '%'
  )
ORDER BY COALESCE(i.published_at, i.created_at) DESC, i.id DESC
LIMIT ?4 OFFSET ?5
"#;

pub const SET_ITEM_READ: &'static str = "UPDATE items SET read = ?1, updated_at = ?2 WHERE id = ?3";

pub const SET_ITEM_FAVORITE: &'static str =
    "UPDATE items SET favorite = ?1, updated_at = ?2 WHERE id = ?3";

pub const GET_ITEM_LINK: &'static str = "SELECT link FROM items WHERE id = ?1";

pub const INSERT_ITEM: &'static str = r#"
INSERT OR IGNORE INTO items (
    feed_id, guid, title, link, author, published_at,
    content_text, content_html, read, favorite, created_at, updated_at
)
VALUES (?1, ?2, ?3, ?4, ?5, ?6, ?7, ?8, 0, 0, ?9, ?9)
"#;

pub const PRUNE_ITEMS: &'static str = r#"
DELETE FROM items
WHERE id NOT IN (
    SELECT id FROM items
    ORDER BY COALESCE(published_at, created_at) DESC, id DESC
    LIMIT 5000
)
"#;

pub const MARK_REFRESH_SUCCESS: &'static str = r#"
UPDATE feeds
SET last_checked_at = ?1,
    last_error = NULL,
    updated_at = ?1
WHERE id = ?2
"#;

pub const MARK_REFRESH_ERROR: &'static str = r#"
UPDATE feeds
SET last_checked_at = ?1,
    last_error = ?2,
    updated_at = ?1
WHERE id = ?3
"#;

pub const INSERT_REFRESH_LOG: &'static str = r#"
INSERT INTO refresh_logs (feed_id, status, message, created_at)
VALUES (?1, ?2, ?3, ?4)
"#;

pub const PRUNE_REFRESH_LOGS: &'static str = r#"
DELETE FROM refresh_logs
WHERE id NOT IN (
    SELECT id FROM refresh_logs ORDER BY id DESC LIMIT 80
)
"#;

pub const LIST_REFRESH_LOGS: &'static str = r#"
SELECT l.id, l.feed_id, f.title, l.status, l.message, l.created_at
FROM refresh_logs l
LEFT JOIN feeds f ON f.id = l.feed_id
ORDER BY l.id DESC
LIMIT 50
"#;

} // verus!
