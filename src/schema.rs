//! The table sets of the schema revisions that a package can target.

use vstd::prelude::*;

verus! {

/// A schema revision, grouped by the table set it needs.
#[derive(Debug, Clone, Copy, PartialEq, Eq, Structural)]
pub enum SchemaVersion {
    /// Below 12: collection, notes, cards, revlog and graves only.
    Legacy,
    /// 12 to 15: the side tables exist, and the legacy JSON blobs are still read.
    Mid,
    /// 16 and 17: the legacy JSON blobs are left as empty objects.
    PreModern,
    /// 18 and above: graves are keyed by object id and kind.
    Modern,
}

/// The revision group that a schema version number falls in.
pub open spec fn version_of(n: u32) -> SchemaVersion {
    if n < 12 {
        SchemaVersion::Legacy
    } else if n < 16 {
        SchemaVersion::Mid
    } else if n < 18 {
        SchemaVersion::PreModern
    } else {
        SchemaVersion::Modern
    }
}

/// A table of the collection database.
#[derive(Debug, Clone, Copy, PartialEq, Eq, Structural)]
pub enum Table {
    Collection,
    Notes,
    Cards,
    Revlog,
    Graves,
    Decks,
    DeckConfig,
    Notetypes,
    Templates,
    Fields,
    Config,
    Tags,
}

/// The tables that a revision creates, in the order they are created.
pub open spec fn tables_of(v: SchemaVersion) -> Seq<Table> {
    let base = seq![Table::Collection, Table::Notes, Table::Cards, Table::Revlog, Table::Graves];
    match v {
        SchemaVersion::Legacy => base,
        _ => base + seq![
            Table::Decks,
            Table::DeckConfig,
            Table::Notetypes,
            Table::Templates,
            Table::Fields,
            Table::Config,
            Table::Tags,
        ],
    }
}

/// Graves as a plain list: update sequence number, object id, kind.
pub const GRAVES_UNKEYED_DDL: &'static str = "CREATE TABLE graves (
    usn             integer not null,
    oid             integer not null,
    type            integer not null
);";

/// Graves keyed by object id and kind: object id, kind, update sequence number.
pub const GRAVES_KEYED_DDL: &'static str = "CREATE TABLE graves (
    oid             integer not null,
    type            integer not null,
    usn             integer not null,
    PRIMARY KEY (oid, type)
) without rowid;";

pub const COLLECTION_DDL: &'static str = "CREATE TABLE col (
    id              integer primary key,
    crt             integer not null,
    mod             integer not null,
    scm             integer not null,
    ver             integer not null,
    dty             integer not null,
    usn             integer not null,
    ls              integer not null,
    conf            text not null,
    models          text not null,
    decks           text not null,
    dconf           text not null,
    tags            text not null
);";

pub const NOTES_DDL: &'static str = "CREATE TABLE notes (
    id              integer primary key,
    guid            text not null,
    mid             integer not null,
    mod             integer not null,
    usn             integer not null,
    tags            text not null,
    flds            text not null,
    sfld            text not null,
    csum            integer not null,
    flags           integer not null,
    data            text not null
);
CREATE INDEX ix_notes_usn on notes (usn);
CREATE INDEX ix_notes_csum on notes (csum);";

pub const CARDS_DDL: &'static str = "CREATE TABLE cards (
    id              integer primary key,
    nid             integer not null,
    did             integer not null,
    ord             integer not null,
    mod             integer not null,
    usn             integer not null,
    type            integer not null,
    queue           integer not null,
    due             integer not null,
    ivl             integer not null,
    factor          integer not null,
    reps            integer not null,
    lapses          integer not null,
    left            integer not null,
    odue            integer not null,
    odid            integer not null,
    flags           integer not null,
    data            text not null
);
CREATE INDEX ix_cards_usn on cards (usn);
CREATE INDEX ix_cards_nid on cards (nid);
CREATE INDEX ix_cards_sched on cards (did, queue, due);";

pub const REVLOG_DDL: &'static str = "CREATE TABLE revlog (
    id              integer primary key,
    cid             integer not null,
    usn             integer not null,
    ease            integer not null,
    ivl             integer not null,
    lastIvl         integer not null,
    factor          integer not null,
    time            integer not null,
    type            integer not null
);
CREATE INDEX ix_revlog_usn on revlog (usn);
CREATE INDEX ix_revlog_cid on revlog (cid);";

pub const DECKS_DDL: &'static str = "CREATE TABLE decks (
    id              integer primary key not null,
    name            text not null,
    mtime_secs      integer not null,
    usn             integer not null,
    common          blob not null,
    kind            blob not null
);
CREATE INDEX ix_decks_usn ON decks (usn);";

pub const DECK_CONFIG_DDL: &'static str = "CREATE TABLE deck_config (
    id              integer primary key not null,
    name            text not null,
    mtime_secs      integer not null,
    usn             integer not null,
    config          blob not null
);
CREATE INDEX ix_deck_config_usn ON deck_config (usn);";

pub const NOTETYPES_DDL: &'static str = "CREATE TABLE notetypes (
    id              integer primary key not null,
    name            text not null,
    mtime_secs      integer not null,
    usn             integer not null,
    config          blob not null
);
CREATE INDEX ix_notetypes_usn ON notetypes (usn);";

pub const TEMPLATES_DDL: &'static str = "CREATE TABLE templates (
    ntid            integer not null,
    ord             integer not null,
    name            text not null,
    mtime_secs      integer not null,
    usn             integer not null,
    config          blob not null,
    PRIMARY KEY (ntid, ord)
) without rowid;
CREATE INDEX ix_templates_usn ON templates (usn);";

pub const FIELDS_DDL: &'static str = "CREATE TABLE fields (
    ntid            integer not null,
    ord             integer not null,
    name            text not null,
    config          blob not null,
    PRIMARY KEY (ntid, ord)
) without rowid;
CREATE INDEX ix_fields_ntid ON fields (ntid);";

pub const CONFIG_DDL: &'static str = "CREATE TABLE config (
    key             text not null primary key,
    usn             integer not null,
    mtime_secs      integer not null,
    val             blob not null
) without rowid;";

pub const TAGS_DDL: &'static str = "CREATE TABLE tags (
    tag             text not null primary key,
    usn             integer not null,
    collapsed       boolean not null,
    config          blob null
) without rowid;";

/// The statements that create table `t` under revision `v`.
pub open spec fn ddl_of(t: Table, v: SchemaVersion) -> &'static str {
    match t {
        Table::Collection => COLLECTION_DDL,
        Table::Notes => NOTES_DDL,
        Table::Cards => CARDS_DDL,
        Table::Revlog => REVLOG_DDL,
        Table::Graves => if v == SchemaVersion::Modern {
            GRAVES_KEYED_DDL
        } else {
            GRAVES_UNKEYED_DDL
        },
        Table::Decks => DECKS_DDL,
        Table::DeckConfig => DECK_CONFIG_DDL,
        Table::Notetypes => NOTETYPES_DDL,
        Table::Templates => TEMPLATES_DDL,
        Table::Fields => FIELDS_DDL,
        Table::Config => CONFIG_DDL,
        Table::Tags => TAGS_DDL,
    }
}

impl SchemaVersion {
    /// The revision group of a schema version number.
    pub fn from_number(n: u32) -> (r: SchemaVersion)
        ensures
            r == version_of(n),
    {
        if n < 12 {
            SchemaVersion::Legacy
        } else if n < 16 {
            SchemaVersion::Mid
        } else if n < 18 {
            SchemaVersion::PreModern
        } else {
            SchemaVersion::Modern
        }
    }

    /// Whether the side tables (decks, deck configs, notetypes, templates,
    /// fields, config, tags) exist.
    pub fn has_side_tables(&self) -> (r: bool)
        ensures
            r == (*self != SchemaVersion::Legacy),
    {
        !matches!(self, SchemaVersion::Legacy)
    }

    /// Whether the four legacy JSON blobs of the collection row are left empty.
    pub fn empties_legacy_blobs(&self) -> (r: bool)
        ensures
            r == (*self == SchemaVersion::PreModern || *self == SchemaVersion::Modern),
    {
        matches!(self, SchemaVersion::PreModern | SchemaVersion::Modern)
    }

    /// Whether graves are keyed by object id and kind.
    pub fn keys_graves(&self) -> (r: bool)
        ensures
            r == (*self == SchemaVersion::Modern),
    {
        matches!(self, SchemaVersion::Modern)
    }

    /// The tables this revision creates, in creation order.
    pub fn tables(&self) -> (r: Vec<Table>)
        ensures
            r@ == tables_of(*self),
    {
        let mut r: Vec<Table> = vec![
            Table::Collection,
            Table::Notes,
            Table::Cards,
            Table::Revlog,
            Table::Graves,
        ];
        if self.has_side_tables() {
            r.push(Table::Decks);
            r.push(Table::DeckConfig);
            r.push(Table::Notetypes);
            r.push(Table::Templates);
            r.push(Table::Fields);
            r.push(Table::Config);
            r.push(Table::Tags);
        }
        assert(r@ =~= tables_of(*self));
        r
    }
}

impl Table {
    /// The statements that create this table under revision `v`.
    pub fn ddl(&self, v: SchemaVersion) -> (r: &'static str)
        ensures
            r == ddl_of(*self, v),
    {
        match self {
            Table::Collection => COLLECTION_DDL,
            Table::Notes => NOTES_DDL,
            Table::Cards => CARDS_DDL,
            Table::Revlog => REVLOG_DDL,
            Table::Graves => if v.keys_graves() {
                GRAVES_KEYED_DDL
            } else {
                GRAVES_UNKEYED_DDL
            },
            Table::Decks => DECKS_DDL,
            Table::DeckConfig => DECK_CONFIG_DDL,
            Table::Notetypes => NOTETYPES_DDL,
            Table::Templates => TEMPLATES_DDL,
            Table::Fields => FIELDS_DDL,
            Table::Config => CONFIG_DDL,
            Table::Tags => TAGS_DDL,
        }
    }
}

} // verus!
