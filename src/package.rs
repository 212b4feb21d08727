//! A package: decks, media and side-table entries, and the write that turns
//! them into the rows and archive entries of an importable file.

use vstd::prelude::*;
use crate::allocator::IdAllocator;
use crate::collection::{
    bytes_of, copy_bytes, deck_confs_json, deck_confs_json_of, decks_json, decks_json_of,
    models_json, models_json_of, DEFAULT_CONF,
};
use vstd::string::StringSliceAdditionalSpecFns;
use crate::deck::{
    are_note_rows, are_notes_card_rows, notes_card_count, notes_ids_used, notes_revlog,
    notes_without_custom_ids, lemma_notes_ids_used_nonneg, Deck,
};
use crate::entries::{
    find_duplicate_grave, has_duplicate_grave, ConfigEntry, DeckConfigEntry, DeckInfoEntry,
    FieldEntry, GraveEntry, NotetypeEntry, TagEntry, TemplateEntry,
};
use crate::error::Error;
use crate::media::{
    archive_entries, are_archive_entries, file_name_of, manifest_of, media_manifest, ArchiveEntry,
    MediaFile, MediaSource,
};
use crate::note::{fresh_cards, ids_fresh, no_custom_ids, Note};
use crate::rows::{CardRow, NoteRow, RevlogRow, Rows};
use crate::schema::{tables_of, version_of, SchemaVersion, Table};

verus! {

/// The schema version a new package targets.
pub const DEFAULT_SCHEMA_VERSION: u32 = 11;

/// The config key whose value, when present, is the collection's tags blob.
pub const TAGS_KEY: &'static str = "tags";

/// Values of the collection row that the caller fixes instead of the defaults.
#[derive(Debug, Clone)]
pub struct CollectionOverrides {
    pub crt: Option<i64>,
    pub scm: Option<i64>,
    pub usn: Option<i64>,
    pub ls: Option<i64>,
    pub conf: Option<Vec<u8>>,
    pub models: Option<Vec<u8>>,
    pub decks: Option<Vec<u8>>,
    pub dconf: Option<Vec<u8>>,
}

/// The single row of the `col` table, columns in table order.
#[derive(Debug, Clone)]
pub struct CollectionRow {
    pub crt: i64,
    pub mtime: i64,
    pub scm: i64,
    pub ver: i64,
    pub dty: i64,
    pub usn: i64,
    pub ls: i64,
    pub conf: Vec<u8>,
    pub models: Vec<u8>,
    pub decks: Vec<u8>,
    pub dconf: Vec<u8>,
    pub tags: Vec<u8>,
}

/// Decks, media and side-table entries to be written as one package, with
/// the schema version it targets.
#[derive(Debug, Clone)]
pub struct Package {
    pub decks: Vec<Deck>,
    pub media_files: Vec<MediaFile>,
    pub configs: Vec<ConfigEntry>,
    pub deck_configs: Vec<DeckConfigEntry>,
    pub deck_infos: Vec<DeckInfoEntry>,
    pub notetypes: Vec<NotetypeEntry>,
    pub fields: Vec<FieldEntry>,
    pub templates: Vec<TemplateEntry>,
    pub graves: Vec<GraveEntry>,
    pub tags: Vec<TagEntry>,
    pub overrides: CollectionOverrides,
    pub schema_version: u32,
}

/// Everything a write produces: the tables to create, the rows to insert
/// into them, the media manifest and the archive entries in writing order.
/// The side-table entries and graves of the package go in as they are.
pub struct PackageImage {
    pub schema: SchemaVersion,
    pub tables: Vec<Table>,
    pub collection: CollectionRow,
    pub rows: Rows,
    pub manifest: Vec<u8>,
    pub entries: Vec<ArchiveEntry>,
}

/// The JSON text `{}`.
pub open spec fn empty_object() -> Seq<u8> {
    seq![123u8, 125u8]
}

/// The tags blob: the value of the last config entry keyed `tags`, else `{}`.
pub open spec fn tags_json_of(cs: Seq<ConfigEntry>) -> Seq<u8>
    decreases cs.len(),
{
    if cs.len() == 0 {
        empty_object()
    } else if cs.last().key@ == TAGS_KEY@ {
        cs.last().val@
    } else {
        tags_json_of(cs.drop_last())
    }
}

/// An optional override, or a default.
pub open spec fn or_default(o: Option<i64>, d: int) -> int {
    match o {
        Some(v) => v as int,
        None => d,
    }
}

/// An optional blob override, or a default.
pub open spec fn blob_or(o: Option<Vec<u8>>, d: Seq<u8>) -> Seq<u8> {
    match o {
        Some(v) => v@,
        None => d,
    }
}

/// The package holds entries for tables that only schema version 12 and
/// later have.
pub open spec fn has_side_entries(p: Package) -> bool {
    p.configs@.len() > 0 || p.deck_configs@.len() > 0 || p.deck_infos@.len() > 0
        || p.notetypes@.len() > 0 || p.fields@.len() > 0 || p.templates@.len() > 0
        || p.tags@.len() > 0
}

/// `c` is the collection row of package `p` written at `ms` milliseconds.
pub open spec fn is_collection_row(c: CollectionRow, p: Package, ms: int) -> bool {
    let v = version_of(p.schema_version);
    let legacy_empty = v == SchemaVersion::PreModern || v == SchemaVersion::Modern;
    &&& c.crt == or_default(p.overrides.crt, ms / 1000)
    &&& c.mtime == ms
    &&& c.scm == or_default(p.overrides.scm, ms)
    &&& c.ver == p.schema_version
    &&& c.dty == 0
    &&& c.usn == or_default(p.overrides.usn, -1)
    &&& c.ls == or_default(p.overrides.ls, 0)
    &&& c.conf@ == (if legacy_empty {
        empty_object()
    } else {
        blob_or(p.overrides.conf, DEFAULT_CONF.spec_bytes())
    })
    &&& c.models@ == (if legacy_empty {
        empty_object()
    } else {
        blob_or(p.overrides.models, models_json_of(p.decks@, (ms / 1000) as i64))
    })
    &&& c.decks@ == (if legacy_empty {
        empty_object()
    } else {
        blob_or(p.overrides.decks, decks_json_of(p.decks@))
    })
    &&& c.dconf@ == (if legacy_empty {
        empty_object()
    } else {
        blob_or(p.overrides.dconf, deck_confs_json_of(p.deck_configs@))
    })
    &&& c.tags@ == tags_json_of(p.configs@)
}

/// How far the notes of decks `ds` move the allocator.
pub open spec fn decks_ids_used(ds: Seq<Deck>) -> int
    decreases ds.len(),
{
    if ds.len() == 0 {
        0
    } else {
        decks_ids_used(ds.drop_last()) + notes_ids_used(ds.last().notes@)
    }
}

/// How many cards the notes of decks `ds` hold.
pub open spec fn decks_card_count(ds: Seq<Deck>) -> int
    decreases ds.len(),
{
    if ds.len() == 0 {
        0
    } else {
        decks_card_count(ds.drop_last()) + notes_card_count(ds.last().notes@)
    }
}

/// No card of any deck of `ds` carries its own id.
pub open spec fn decks_without_custom_ids(ds: Seq<Deck>) -> bool {
    forall|i: int| 0 <= i < ds.len() ==> notes_without_custom_ids((#[trigger] ds[i]).notes@)
}

/// `rs` are the note rows of decks `ds`, deck after deck, written while the
/// allocator went on from `start`.
pub open spec fn are_decks_note_rows(rs: Seq<NoteRow>, ds: Seq<Deck>, start: int, mtime: int)
    -> bool
    decreases ds.len(),
{
    if ds.len() == 0 {
        rs.len() == 0
    } else {
        let k = rs.len() - ds.last().notes@.len();
        &&& k >= 0
        &&& are_decks_note_rows(rs.take(k), ds.drop_last(), start, mtime)
        &&& are_note_rows(
            rs.skip(k),
            ds.last().notes@,
            start + decks_ids_used(ds.drop_last()),
            mtime,
        )
    }
}

/// `rs` are the card rows of decks `ds`, deck after deck, written while the
/// allocator went on from `start`.
pub open spec fn are_decks_card_rows(rs: Seq<CardRow>, ds: Seq<Deck>, start: int, mtime: int)
    -> bool
    decreases ds.len(),
{
    if ds.len() == 0 {
        rs.len() == 0
    } else {
        let k = rs.len() - notes_card_count(ds.last().notes@);
        &&& k >= 0
        &&& are_decks_card_rows(rs.take(k), ds.drop_last(), start, mtime)
        &&& are_notes_card_rows(
            rs.skip(k),
            ds.last().notes@,
            start + decks_ids_used(ds.drop_last()),
            ds.last().id as int,
            mtime,
        )
    }
}

/// The review-log rows of decks `ds`, deck after deck.
pub open spec fn decks_revlog(ds: Seq<Deck>, start: int) -> Seq<RevlogRow>
    decreases ds.len(),
{
    if ds.len() == 0 {
        Seq::empty()
    } else {
        decks_revlog(ds.drop_last(), start) + notes_revlog(
            ds.last().notes@,
            start + decks_ids_used(ds.drop_last()),
        )
    }
}

/// The package's media paths all name files, in order.
pub open spec fn media_from_paths(ms: Seq<MediaFile>, paths: Seq<&str>) -> bool {
    &&& ms.len() == paths.len()
    &&& forall|i: int|
        0 <= i < paths.len() ==> file_name_of((#[trigger] paths[i])@) == Some(ms[i].name@) && (
        ms[i].source matches MediaSource::Path(p) && p@ == paths[i]@)
}

impl CollectionOverrides {
    /// Nothing overridden.
    pub fn none() -> (r: CollectionOverrides)
        ensures
            r.crt is None && r.scm is None && r.usn is None && r.ls is None,
            r.conf is None && r.models is None && r.decks is None && r.dconf is None,
    {
        CollectionOverrides {
            crt: None,
            scm: None,
            usn: None,
            ls: None,
            conf: None,
            models: None,
            decks: None,
            dconf: None,
        }
    }
}

impl Package {
    /// A package of `decks` and the media files at `media_files`, shown under
    /// their file names. Fails on a path that names no file.
    pub fn new(decks: Vec<Deck>, media_files: Vec<&str>) -> (r: Result<Package, Error>)
        ensures
            r is Ok <==> forall|i: int|
                0 <= i < media_files@.len() ==> file_name_of((#[trigger] media_files@[i])@) is Some,
            r matches Ok(p) ==> {
                &&& p.decks@ == decks@
                &&& media_from_paths(p.media_files@, media_files@)
                &&& p.configs@.len() == 0 && p.deck_configs@.len() == 0
                &&& p.deck_infos@.len() == 0 && p.notetypes@.len() == 0
                &&& p.fields@.len() == 0 && p.templates@.len() == 0
                &&& p.graves@.len() == 0 && p.tags@.len() == 0
                &&& p.overrides.crt is None && p.overrides.scm is None
                &&& p.overrides.usn is None && p.overrides.ls is None
                &&& p.overrides.conf is None && p.overrides.models is None
                &&& p.overrides.decks is None && p.overrides.dconf is None
                &&& p.schema_version == DEFAULT_SCHEMA_VERSION
            },
            r matches Err(e) ==> e is InvalidMediaPath,
    {
        let mut media: Vec<MediaFile> = Vec::new();
        let mut i: usize = 0;
        while i < media_files.len()
            invariant
                i <= media_files@.len(),
                media_from_paths(media@, media_files@.take(i as int)),
            decreases media_files@.len() - i,
        {
            match MediaFile::from_path(media_files[i]) {
                Some(m) => {
                    let ghost prev = media@;
                    media.push(m);
                    proof {
                        let t = media_files@.take(i + 1);
                        assert forall|j: int| 0 <= j < t.len() implies file_name_of(
                            (#[trigger] t[j])@,
                        ) == Some(media@[j].name@) && (media@[j].source matches MediaSource::Path(
                            p,
                        ) && p@ == t[j]@) by {
                            if j < i {
                                assert(media@[j] == prev[j]);
                                assert(t[j] == media_files@.take(i as int)[j]);
                            }
                        }
                    }
                    i = i + 1;
                },
                None => {
                    return Err(Error::InvalidMediaPath(media_files[i].to_owned()));
                },
            }
        }
        assert(media_files@.take(i as int) =~= media_files@);
        Ok(
            Package {
                decks,
                media_files: media,
                configs: Vec::new(),
                deck_configs: Vec::new(),
                deck_infos: Vec::new(),
                notetypes: Vec::new(),
                fields: Vec::new(),
                templates: Vec::new(),
                graves: Vec::new(),
                tags: Vec::new(),
                overrides: CollectionOverrides::none(),
                schema_version: DEFAULT_SCHEMA_VERSION,
            },
        )
    }

    /// Adds a row of the `config` table.
    pub fn add_config_entry(&mut self, entry: ConfigEntry)
        ensures
            final(self).configs@ == old(self).configs@.push(entry),
            *final(self) == (Package { configs: final(self).configs, ..*old(self) }),
    {
        self.configs.push(entry);
    }

    /// Adds a row of the `deck_config` table.
    pub fn add_deck_config_entry(&mut self, entry: DeckConfigEntry)
        ensures
            final(self).deck_configs@ == old(self).deck_configs@.push(entry),
            *final(self) == (Package { deck_configs: final(self).deck_configs, ..*old(self) }),
    {
        self.deck_configs.push(entry);
    }

    /// Adds a row of the `decks` table.
    pub fn add_deck_info_entry(&mut self, entry: DeckInfoEntry)
        ensures
            final(self).deck_infos@ == old(self).deck_infos@.push(entry),
            *final(self) == (Package { deck_infos: final(self).deck_infos, ..*old(self) }),
    {
        self.deck_infos.push(entry);
    }

    /// Adds a row of the `notetypes` table.
    pub fn add_notetype_entry(&mut self, entry: NotetypeEntry)
        ensures
            final(self).notetypes@ == old(self).notetypes@.push(entry),
            *final(self) == (Package { notetypes: final(self).notetypes, ..*old(self) }),
    {
        self.notetypes.push(entry);
    }

    /// Adds a row of the `fields` table.
    pub fn add_field_entry(&mut self, entry: FieldEntry)
        ensures
            final(self).fields@ == old(self).fields@.push(entry),
            *final(self) == (Package { fields: final(self).fields, ..*old(self) }),
    {
        self.fields.push(entry);
    }

    /// Adds a row of the `templates` table.
    pub fn add_template_entry(&mut self, entry: TemplateEntry)
        ensures
            final(self).templates@ == old(self).templates@.push(entry),
            *final(self) == (Package { templates: final(self).templates, ..*old(self) }),
    {
        self.templates.push(entry);
    }

    /// Adds a grave.
    pub fn add_grave_entry(&mut self, entry: GraveEntry)
        ensures
            final(self).graves@ == old(self).graves@.push(entry),
            *final(self) == (Package { graves: final(self).graves, ..*old(self) }),
    {
        self.graves.push(entry);
    }

    /// Adds a row of the `tags` table.
    pub fn add_tag_entry(&mut self, entry: TagEntry)
        ensures
            final(self).tags@ == old(self).tags@.push(entry),
            *final(self) == (Package { tags: final(self).tags, ..*old(self) }),
    {
        self.tags.push(entry);
    }

    /// Adds a media file held in memory, shown under `name`.
    pub fn add_media_bytes(&mut self, name: &str, bytes: Vec<u8>)
        ensures
            final(self).media_files@.len() == old(self).media_files@.len() + 1,
            final(self).media_files@.drop_last() == old(self).media_files@,
            final(self).media_files@.last().name@ == name@,
            final(self).media_files@.last().source matches MediaSource::Bytes(b) && b@ == bytes@,
            *final(self) == (Package { media_files: final(self).media_files, ..*old(self) }),
    {
        let m = MediaFile::from_bytes(name, bytes);
        self.media_files.push(m);
        assert(self.media_files@.drop_last() =~= old(self).media_files@);
    }

    /// Targets schema version `v`.
    pub fn set_schema_version(&mut self, v: u32)
        ensures
            *final(self) == (Package { schema_version: v, ..*old(self) }),
    {
        self.schema_version = v;
    }

    /// Fixes values of the collection row instead of their defaults.
    pub fn set_overrides(&mut self, overrides: CollectionOverrides)
        ensures
            *final(self) == (Package { overrides, ..*old(self) }),
    {
        self.overrides = overrides;
    }

    /// Whether the package holds entries for tables of version 12 and later.
    pub fn holds_side_entries(&self) -> (r: bool)
        ensures
            r == has_side_entries(*self),
    {
        self.configs.len() > 0 || self.deck_configs.len() > 0 || self.deck_infos.len() > 0
            || self.notetypes.len() > 0 || self.fields.len() > 0 || self.templates.len() > 0
            || self.tags.len() > 0
    }

    /// The tags blob: the value of the last config entry keyed `tags`, else `{}`.
    pub fn tags_json(&self) -> (r: Vec<u8>)
        ensures
            r@ == tags_json_of(self.configs@),
    {
        let key = TAGS_KEY.to_owned();
        let mut found: Option<usize> = None;
        let mut i: usize = 0;
        while i < self.configs.len()
            invariant
                i <= self.configs@.len(),
                key@ == TAGS_KEY@,
                found matches Some(j) ==> j < i && tags_json_of(self.configs@.take(i as int))
                    == self.configs@[j as int].val@,
                found is None ==> tags_json_of(self.configs@.take(i as int)) == empty_object(),
            decreases self.configs@.len() - i,
        {
            assert(self.configs@.take(i + 1).drop_last() =~= self.configs@.take(i as int));
            if self.configs[i].key == key {
                found = Some(i);
            }
            i = i + 1;
        }
        assert(self.configs@.take(i as int) =~= self.configs@);
        match found {
            Some(j) => copy_bytes(&self.configs[j].val),
            None => {
                let r = vec![123u8, 125u8];
                assert(r@ =~= empty_object());
                r
            },
        }
    }

    /// Adds the rows of every deck's notes and cards, deck after deck, to
    /// `rows`, each write taking its ids from `ids`.
    pub fn write_deck_content_data(&self, rows: &mut Rows, mtime: i64, ids: &mut IdAllocator)
        -> (r: Result<(), Error>)
        requires
            old(rows).notes@.len() == 0,
            old(rows).cards@.len() == 0,
            old(rows).revlog@.len() == 0,
        ensures
            r is Ok <==> old(ids).upcoming() + decks_ids_used(self.decks@) <= i64::MAX,
            r is Err ==> r == Err::<(), Error>(Error::IdsExhausted),
            r is Ok ==> ({
                let start = old(ids).upcoming() as int;
                &&& final(ids).upcoming() == start + decks_ids_used(self.decks@)
                &&& are_decks_note_rows(final(rows).notes@, self.decks@, start, mtime as int)
                &&& final(rows).cards@.len() == decks_card_count(self.decks@)
                &&& are_decks_card_rows(final(rows).cards@, self.decks@, start, mtime as int)
                &&& final(rows).revlog@ == decks_revlog(self.decks@, start)
                &&& decks_without_custom_ids(self.decks@) ==> ids_fresh(
                    final(rows).notes@,
                    final(rows).cards@,
                    final(ids).upcoming() as int,
                )
            }),
    {
        let ghost start = old(ids).upcoming() as int;
        let ghost ds = self.decks@;
        proof {
            assert(ds.take(0) =~= Seq::<Deck>::empty());
            assert(rows.revlog@ =~= decks_revlog(ds.take(0), start));
        }
        let mut i: usize = 0;
        while i < self.decks.len()
            invariant
                ds == self.decks@,
                i <= ds.len(),
                start == old(ids).upcoming(),
                ids.upcoming() == start + decks_ids_used(ds.take(i as int)),
                are_decks_note_rows(rows.notes@, ds.take(i as int), start, mtime as int),
                rows.cards@.len() == decks_card_count(ds.take(i as int)),
                are_decks_card_rows(rows.cards@, ds.take(i as int), start, mtime as int),
                rows.revlog@ == decks_revlog(ds.take(i as int), start),
                decks_without_custom_ids(ds) ==> ids_fresh(
                    rows.notes@,
                    rows.cards@,
                    ids.upcoming() as int,
                ),
            decreases ds.len() - i,
        {
            let ghost b_notes = rows.notes@;
            let ghost b_cards = rows.cards@;
            let res = self.decks[i].write_notes_and_cards_to_db(rows, mtime, ids);
            let ghost t = ds.take(i + 1);
            proof {
                assert(t.drop_last() =~= ds.take(i as int));
                assert(t.last() == ds[i as int]);
                lemma_decks_ids_used_prefix(ds, i + 1);
                lemma_decks_ids_used_nonneg(ds.take(i + 1));
                lemma_notes_ids_used_nonneg(ds[i as int].notes@);
            }
            if res.is_err() {
                return Err(Error::IdsExhausted);
            }
            proof {
                let d = ds[i as int];
                let kn = b_notes.len() as int;
                let kc = b_cards.len() as int;
                assert(rows.notes@.take(kn) =~= b_notes);
                assert(rows.cards@.take(kc) =~= b_cards);
                assert(rows.notes@.len() - d.notes@.len() == kn);
                assert(rows.revlog@ =~= decks_revlog(t, start));
                if decks_without_custom_ids(ds) {
                    assert(notes_without_custom_ids(ds[i as int].notes@));
                }
            }
            i = i + 1;
        }
        assert(ds.take(ds.len() as int) =~= ds);
        Ok(())
    }

    /// Everything needed to write this package at `ms` milliseconds after the
    /// epoch: the tables of its schema version, the collection row, the rows
    /// of its notes, cards and review history, the media manifest and the
    /// archive entries. Fails when the package holds side-table entries that
    /// its schema version has no tables for, when graves that must be unique
    /// by object id and kind are not, or when the ids run out.
    pub fn write(&self, ms: i64) -> (r: Result<PackageImage, Error>)
        requires
            ms >= 0,
        ensures
            ({
                let v = version_of(self.schema_version);
                let refused = (v == SchemaVersion::Legacy && has_side_entries(*self)) || (v
                    == SchemaVersion::Modern && has_duplicate_grave(self.graves@));
                &&& r is Ok <==> !refused && ms + decks_ids_used(self.decks@) <= i64::MAX
                &&& (r matches Err(e) && e is Database) <==> refused
                &&& (r matches Err(e) && e is IdsExhausted) <==> !refused && ms + decks_ids_used(
                    self.decks@,
                ) > i64::MAX
            }),
            r matches Ok(img) ==> {
                let secs = ms / 1000;
                &&& img.schema == version_of(self.schema_version)
                &&& img.tables@ == tables_of(img.schema)
                &&& is_collection_row(img.collection, *self, ms as int)
                &&& are_decks_note_rows(img.rows.notes@, self.decks@, ms as int, secs as int)
                &&& img.rows.cards@.len() == decks_card_count(self.decks@)
                &&& are_decks_card_rows(img.rows.cards@, self.decks@, ms as int, secs as int)
                &&& img.rows.revlog@ == decks_revlog(self.decks@, ms as int)
                &&& decks_without_custom_ids(self.decks@) ==> ids_fresh(
                    img.rows.notes@,
                    img.rows.cards@,
                    ms + decks_ids_used(self.decks@),
                )
                &&& img.manifest@ == manifest_of(self.media_files@)
                &&& are_archive_entries(img.entries@, self.media_files@.len() as int)
            },
    {
        let schema = SchemaVersion::from_number(self.schema_version);
        if !schema.has_side_tables() && self.holds_side_entries() {
            return Err(Error::Database("the schema version has no side tables".to_owned()));
        }
        if schema.keys_graves() && find_duplicate_grave(&self.graves) {
            return Err(Error::Database("two graves share object id and kind".to_owned()));
        }
        let mut rows = Rows::new();
        let mut ids = IdAllocator::new(ms);
        let secs = ms / 1000;
        match self.write_deck_content_data(&mut rows, secs, &mut ids) {
            Ok(()) => {},
            Err(e) => {
                return Err(e);
            },
        }
        let collection = self.collection_row(ms);
        let manifest = media_manifest(&self.media_files);
        let entries = archive_entries(self.media_files.len());
        Ok(PackageImage { schema, tables: schema.tables(), collection, rows, manifest, entries })
    }

    /// The collection row of this package written at `ms` milliseconds.
    pub fn collection_row(&self, ms: i64) -> (r: CollectionRow)
        requires
            ms >= 0,
        ensures
            is_collection_row(r, *self, ms as int),
    {
        let v = SchemaVersion::from_number(self.schema_version);
        let secs = ms / 1000;
        let empties = v.empties_legacy_blobs();
        let conf = if empties {
            empty_blob()
        } else {
            match &self.overrides.conf {
                Some(b) => copy_bytes(b),
                None => bytes_of(DEFAULT_CONF),
            }
        };
        let models = if empties {
            empty_blob()
        } else {
            match &self.overrides.models {
                Some(b) => copy_bytes(b),
                None => models_json(&self.decks, secs),
            }
        };
        let decks = if empties {
            empty_blob()
        } else {
            match &self.overrides.decks {
                Some(b) => copy_bytes(b),
                None => decks_json(&self.decks),
            }
        };
        let dconf = if empties {
            empty_blob()
        } else {
            match &self.overrides.dconf {
                Some(b) => copy_bytes(b),
                None => deck_confs_json(&self.deck_configs),
            }
        };
        CollectionRow {
            crt: match self.overrides.crt {
                Some(c) => c,
                None => secs,
            },
            mtime: ms,
            scm: match self.overrides.scm {
                Some(s) => s,
                None => ms,
            },
            ver: self.schema_version as i64,
            dty: 0,
            usn: match self.overrides.usn {
                Some(u) => u,
                None => -1,
            },
            ls: match self.overrides.ls {
                Some(l) => l,
                None => 0,
            },
            conf,
            models,
            decks,
            dconf,
            tags: self.tags_json(),
        }
    }
}

/// How many templates the models of the notes of decks `ds` have, note by
/// note.
pub open spec fn decks_template_count(ds: Seq<Deck>) -> int
    decreases ds.len(),
{
    if ds.len() == 0 {
        0
    } else {
        decks_template_count(ds.drop_last()) + notes_template_count(ds.last().notes@)
    }
}

/// How many templates the models of notes `ns` have, note by note.
pub open spec fn notes_template_count(ns: Seq<Note>) -> int
    decreases ns.len(),
{
    if ns.len() == 0 {
        0
    } else {
        notes_template_count(ns.drop_last()) + ns.last().model.template_names@.len()
    }
}

/// Every note of decks `ds` has one new card per template of its model, as
/// `Note::new` makes it.
pub open spec fn notes_fan_out_by_template(ds: Seq<Deck>) -> bool {
    forall|i: int, j: int|
        0 <= i < ds.len() && 0 <= j < ds[i].notes@.len() ==> fresh_cards(
            (#[trigger] ds[i].notes@[j]).cards@,
            ds[i].notes@[j].model.template_names@.len() as int,
        )
}

/// When every note has one new card per template of its model, a write has
/// as many card rows as the notes' models have templates, and none of its
/// cards carries its own id, so every note and card id of the write is
/// distinct.
pub proof fn lemma_card_rows_follow_templates(ds: Seq<Deck>)
    requires
        notes_fan_out_by_template(ds),
    ensures
        decks_card_count(ds) == decks_template_count(ds),
        decks_without_custom_ids(ds),
    decreases ds.len(),
{
    if ds.len() > 0 {
        let pre = ds.drop_last();
        assert forall|i: int, j: int|
            0 <= i < pre.len() && 0 <= j < pre[i].notes@.len() implies fresh_cards(
            (#[trigger] pre[i].notes@[j]).cards@,
            pre[i].notes@[j].model.template_names@.len() as int,
        ) by {
            assert(pre[i] == ds[i]);
        }
        lemma_card_rows_follow_templates(pre);
        let ns = ds.last().notes@;
        assert(ds.last() == ds[ds.len() - 1]);
        assert(ns =~= ds[ds.len() - 1].notes@.take(ns.len() as int));
        lemma_notes_follow_templates(ns, ds.len() - 1, ds);
        assert forall|i: int| 0 <= i < ds.len() implies notes_without_custom_ids(
            (#[trigger] ds[i]).notes@,
        ) by {
            if i < ds.len() - 1 {
                assert(pre[i] == ds[i]);
            }
        }
    }
}

proof fn lemma_notes_follow_templates(ns: Seq<Note>, d: int, ds: Seq<Deck>)
    requires
        0 <= d < ds.len(),
        ns.len() <= ds[d].notes@.len(),
        ns == ds[d].notes@.take(ns.len() as int),
        notes_fan_out_by_template(ds),
    ensures
        notes_card_count(ns) == notes_template_count(ns),
        notes_without_custom_ids(ns),
    decreases ns.len(),
{
    if ns.len() > 0 {
        let k = ns.len() - 1;
        assert(ns.drop_last() =~= ds[d].notes@.take(k));
        lemma_notes_follow_templates(ns.drop_last(), d, ds);
        assert(ns.last() == ds[d].notes@[k]);
        assert(fresh_cards(
            ds[d].notes@[k].cards@,
            ds[d].notes@[k].model.template_names@.len() as int,
        ));
        let cs = ns.last().cards@;
        assert forall|i: int| 0 <= i < ns.len() implies no_custom_ids(
            (#[trigger] ns[i]).cards@,
        ) by {
            assert(ns[i] == ds[d].notes@[i]);
            let c = ns[i].cards@;
            assert(fresh_cards(c, ds[d].notes@[i].model.template_names@.len() as int));
            assert forall|m: int| 0 <= m < c.len() implies (
            #[trigger] c[m]).custom_card_id is None by {
                assert(c[m].custom_card_id is None);
            }
        }
    }
}

pub proof fn lemma_decks_ids_used_nonneg(ds: Seq<Deck>)
    ensures
        0 <= decks_ids_used(ds),
    decreases ds.len(),
{
    if ds.len() > 0 {
        lemma_decks_ids_used_nonneg(ds.drop_last());
        lemma_notes_ids_used_nonneg(ds.last().notes@);
    }
}

/// The decks of a prefix use no more ids than all of them.
pub proof fn lemma_decks_ids_used_prefix(ds: Seq<Deck>, i: int)
    requires
        0 <= i <= ds.len(),
    ensures
        decks_ids_used(ds.take(i)) <= decks_ids_used(ds),
    decreases ds.len() - i,
{
    if i < ds.len() {
        lemma_decks_ids_used_prefix(ds, i + 1);
        assert(ds.take(i + 1).drop_last() =~= ds.take(i));
        lemma_notes_ids_used_nonneg(ds[i].notes@);
    } else {
        assert(ds.take(i) =~= ds);
    }
}

fn empty_blob() -> (r: Vec<u8>)
    ensures
        r@ == empty_object(),
{
    let r = vec![123u8, 125u8];
    assert(r@ =~= empty_object());
    r
}

} // verus!
