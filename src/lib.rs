//! Builds importable flashcard packages: the relational rows of a collection
//! for a chosen schema revision, the collection metadata row with its JSON
//! blobs, and the media manifest of the archive that carries them.

use vstd::prelude::*;

pub mod allocator;
pub mod card;
pub mod collection;
pub mod deck;
pub mod entries;
pub mod error;
pub mod json;
pub mod media;
pub mod note;
pub mod package;
pub mod rows;
pub mod schema;

pub use allocator::IdAllocator;
pub use card::{Card, RevlogEntry};
pub use deck::{Deck, DeckDbEntry};
pub use entries::{
    ConfigEntry, DeckConfigEntry, DeckInfoEntry, FieldEntry, GraveEntry, NotetypeEntry, TagEntry,
    TemplateEntry,
};
pub use error::Error;
pub use media::{ArchiveEntry, EntryContent, MediaFile, MediaSource};
pub use note::{Model, Note};
pub use package::{CollectionOverrides, CollectionRow, Package, PackageImage};
pub use rows::{CardRow, NoteRow, RevlogRow, Rows};
pub use schema::{SchemaVersion, Table};

verus! {

} // verus!
