//! The rows that a write inserts into the collection database.

use vstd::prelude::*;

verus! {

/// A row of the `notes` table, columns in table order.
#[derive(Debug, Clone, PartialEq, Eq)]
pub struct NoteRow {
    pub id: i64,
    pub guid: String,
    pub mid: i64,
    pub mtime: i64,
    pub usn: i64,
    pub tags: String,
    pub flds: String,
    pub sfld: String,
    pub csum: i64,
    pub flags: i64,
    pub data: String,
}

/// A row of the `cards` table, columns in table order.
#[derive(Debug, Clone, PartialEq, Eq)]
pub struct CardRow {
    pub id: i64,
    pub nid: i64,
    pub did: i64,
    pub ord: i64,
    pub mtime: i64,
    pub usn: i64,
    pub card_type: i64,
    pub queue: i64,
    pub due: i64,
    pub ivl: i64,
    pub factor: i64,
    pub reps: i64,
    pub lapses: i64,
    pub left: i64,
    pub odue: i64,
    pub odid: i64,
    pub flags: i64,
    pub data: String,
}

/// A row of the `revlog` table, columns in table order.
#[derive(Debug, Clone, Copy, PartialEq, Eq)]
pub struct RevlogRow {
    pub id: i64,
    pub cid: i64,
    pub usn: i64,
    pub ease: i64,
    pub ivl: i64,
    pub last_ivl: i64,
    pub factor: i64,
    pub time: i64,
    pub review_type: i64,
}

/// The note, card and review-log rows gathered during a write, each list in
/// insertion order.
pub struct Rows {
    pub notes: Vec<NoteRow>,
    pub cards: Vec<CardRow>,
    pub revlog: Vec<RevlogRow>,
}

impl Rows {
    /// No rows yet.
    pub fn new() -> (r: Rows)
        ensures
            r.notes@.len() == 0,
            r.cards@.len() == 0,
            r.revlog@.len() == 0,
    {
        Rows { notes: Vec::new(), cards: Vec::new(), revlog: Vec::new() }
    }
}

} // verus!
