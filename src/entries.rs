//! Rows of the side tables that schema version 12 and later add, and graves.

use vstd::prelude::*;
use crate::schema::SchemaVersion;

verus! {

/// A row of the `config` table.
#[derive(Debug, Clone)]
pub struct ConfigEntry {
    pub key: String,
    pub usn: i64,
    pub mtime_secs: i64,
    pub val: Vec<u8>,
}

/// A row of the `deck_config` table: a named bundle of scheduling settings.
#[derive(Debug, Clone)]
pub struct DeckConfigEntry {
    pub id: i64,
    pub name: String,
    pub mtime_secs: i64,
    pub usn: i64,
    pub config_blob: Vec<u8>,
}

/// A row of the `decks` table.
#[derive(Debug, Clone)]
pub struct DeckInfoEntry {
    pub id: i64,
    pub name: String,
    pub mtime_secs: i64,
    pub usn: i64,
    pub common: Vec<u8>,
    pub kind: Vec<u8>,
}

/// A row of the `notetypes` table.
#[derive(Debug, Clone)]
pub struct NotetypeEntry {
    pub id: i64,
    pub name: String,
    pub mtime_secs: i64,
    pub usn: i64,
    pub config: Vec<u8>,
}

/// A row of the `fields` table.
#[derive(Debug, Clone)]
pub struct FieldEntry {
    pub ntid: i64,
    pub ord: i64,
    pub name: String,
    pub config: Vec<u8>,
}

/// A row of the `templates` table.
#[derive(Debug, Clone)]
pub struct TemplateEntry {
    pub ntid: i64,
    pub ord: i64,
    pub name: String,
    pub mtime_secs: i64,
    pub usn: i64,
    pub config: Vec<u8>,
}

/// A row of the `tags` table.
#[derive(Debug, Clone)]
pub struct TagEntry {
    pub tag: String,
    pub usn: i64,
    pub collapsed: bool,
    pub config: Option<Vec<u8>>,
}

/// A tombstone: an object that was deleted, for sync.
#[derive(Debug, Clone, Copy, PartialEq, Eq, Structural)]
pub struct GraveEntry {
    pub oid: i64,
    pub kind: i64,
    pub usn: i64,
}

impl GraveEntry {
    /// The grave's values in the column order of revision `v`: object id,
    /// kind, usn when graves are keyed; else usn, object id, kind.
    pub fn columns(&self, v: SchemaVersion) -> (r: [i64; 3])
        ensures
            v == SchemaVersion::Modern ==> r@ == seq![self.oid, self.kind, self.usn],
            v != SchemaVersion::Modern ==> r@ == seq![self.usn, self.oid, self.kind],
    {
        let r = if v.keys_graves() {
            [self.oid, self.kind, self.usn]
        } else {
            [self.usn, self.oid, self.kind]
        };
        assert(v == SchemaVersion::Modern ==> r@ =~= seq![self.oid, self.kind, self.usn]);
        assert(v != SchemaVersion::Modern ==> r@ =~= seq![self.usn, self.oid, self.kind]);
        r
    }
}

/// Two graves of `gs` share object id and kind.
pub open spec fn has_duplicate_grave(gs: Seq<GraveEntry>) -> bool {
    exists|i: int, j: int|
        0 <= i < j < gs.len() && #[trigger] gs[i].oid == #[trigger] gs[j].oid && gs[i].kind
            == gs[j].kind
}

/// Whether two graves share object id and kind.
pub fn find_duplicate_grave(gs: &Vec<GraveEntry>) -> (r: bool)
    ensures
        r == has_duplicate_grave(gs@),
{
    let mut j: usize = 0;
    while j < gs.len()
        invariant
            j <= gs@.len(),
            forall|a: int, b: int|
                0 <= a < b < j ==> !(gs@[a].oid == gs@[b].oid && gs@[a].kind == gs@[b].kind),
        decreases gs@.len() - j,
    {
        let mut i: usize = 0;
        while i < j
            invariant
                i <= j < gs@.len(),
                forall|a: int| 0 <= a < i ==> !(gs@[a].oid == gs@[j as int].oid && gs@[a].kind
                    == gs@[j as int].kind),
            decreases j - i,
        {
            if gs[i].oid == gs[j].oid && gs[i].kind == gs[j].kind {
                assert(gs@[i as int].oid == gs@[j as int].oid);
                return true;
            }
            i = i + 1;
        }
        j = j + 1;
    }
    false
}

} // verus!
