//! Newsletter subscribers.
use vstd::prelude::*;

verus! {

/// The schema of the `subscriptions` table.
pub const INIT_TABLE: &'static str = "
CREATE TABLE IF NOT EXISTS subscriptions (
    id TEXT PRIMARY KEY,
    email TEXT NOT NULL UNIQUE,
    name TEXT NOT NULL,
    subscribed_at TEXT NOT NULL
);
";

} // verus!
