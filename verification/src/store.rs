//! The SQL that the machine store runs, and the search pattern it binds.

use vstd::prelude::*;
use crate::text::{push_str, string_of};

verus! {

/// Creates the machine table and its unique address index when missing.
pub const SCHEMA: &'static str = "CREATE TABLE IF NOT EXISTS machines (
                id          INTEGER PRIMARY KEY AUTOINCREMENT,
                num         INTEGER,
                ip          TEXT NOT NULL,
                nat_ip      TEXT DEFAULT '',
                port        INTEGER DEFAULT 22,
                username    TEXT NOT NULL,
                password    TEXT DEFAULT '',
                private_key TEXT DEFAULT '',
                device      TEXT DEFAULT '',
                remark      TEXT DEFAULT '',
                created_at  TEXT NOT NULL DEFAULT (datetime('now')),
                updated_at  TEXT NOT NULL DEFAULT (datetime('now'))
            );
            CREATE UNIQUE INDEX IF NOT EXISTS idx_machines_ip_port ON machines(ip, port);";

/// Every machine, oldest first.
pub const SELECT_ALL: &'static str = "SELECT id, num, ip, nat_ip, port, username, password, private_key, device, remark FROM machines ORDER BY id";

/// The machines whose address or remark matches the pattern `?1`, oldest first.
pub const SELECT_MATCHING: &'static str = "SELECT id, num, ip, nat_ip, port, username, password, private_key, device, remark FROM machines WHERE ip LIKE ?1 OR remark LIKE ?1 ORDER BY id";

/// The highest machine number, 0 when there is no machine.
pub const MAX_NUM: &'static str = "SELECT COALESCE(MAX(num), 0) FROM machines";

/// Counts the machines.
pub const COUNT_ALL: &'static str = "SELECT COUNT(*) FROM machines";

/// Adds a machine unless one with the same address and port exists.
pub const INSERT_MACHINE: &'static str = "INSERT OR IGNORE INTO machines (num, ip, nat_ip, port, username, password, private_key, device, remark)
                 VALUES (?1, ?2, ?3, ?4, ?5, ?6, ?7, ?8, ?9)";

/// Rewrites a machine's fields by id.
pub const UPDATE_MACHINE: &'static str = "UPDATE machines SET num=?1, ip=?2, nat_ip=?3, port=?4, username=?5, password=?6, private_key=?7, device=?8, remark=?9, updated_at=datetime('now') WHERE id=?10";

/// Removes a machine by id.
pub const DELETE_MACHINE: &'static str = "DELETE FROM machines WHERE id=?1";

/// The `LIKE` pattern matching text that contains `query`.
pub open spec fn like_pattern(query: Seq<char>) -> Seq<char> {
    seq!['%'] + query + seq!['%']
}

/// How to search for `query`: every machine for an empty query, otherwise
/// those whose address or remark contains it.
pub fn search_plan(query: &str) -> (r: (&'static str, Option<String>))
    ensures
        query@.len() == 0 ==> r.0@ == SELECT_ALL@ && r.1 is None,
        query@.len() > 0 ==> r.0@ == SELECT_MATCHING@ && (r.1 matches Some(p) && p@ == like_pattern(query@)),
{
    if query.is_empty() {
        (SELECT_ALL, None)
    } else {
        let mut v: Vec<char> = Vec::new();
        v.push('%');
        push_str(&mut v, query);
        v.push('%');
        assert(v@ =~= like_pattern(query@));
        (SELECT_MATCHING, Some(string_of(&v)))
    }
}

} // verus!
