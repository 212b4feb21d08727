//! Decks: their notes, the models those notes use, the legacy descriptor of a
//! deck, and the rows a deck's notes are written as.

use vstd::prelude::*;
use crate::allocator::IdAllocator;
use crate::error::Error;
use crate::json::{decimal, decimal_of, json_quoted, object_of, pairs_view, quote, render_object};
use crate::note::{
    are_card_rows, cards_revlog, ids_fresh, is_note_row, no_custom_ids, note_ids_used, Model, Note,
};
use crate::rows::{CardRow, NoteRow, RevlogRow, Rows};

verus! {

/// A deck: its id, name and description, its notes in the order added, and
/// the models added to it, at most one per model id.
#[derive(Debug, Clone)]
pub struct Deck {
    pub id: i64,
    pub name: String,
    pub description: String,
    pub notes: Vec<Note>,
    pub models: Vec<Model>,
}

/// The legacy JSON descriptor of a deck, field by field.
#[derive(Debug, Clone)]
pub struct DeckDbEntry {
    pub collapsed: bool,
    pub conf: i64,
    pub desc: String,
    pub dyn_deck: i64,
    pub extend_new: i64,
    pub extend_rev: i64,
    pub id: i64,
    pub lrn_today: DailyCount,
    pub mtime: i64,
    pub name: String,
    pub new_today: DailyCount,
    pub rev_today: DailyCount,
    pub time_today: DailyCount,
    pub usn: i64,
}

/// A daily counter of a deck descriptor: the day it counts and the count,
/// written as a two-element array.
#[derive(Debug, Clone, Copy, PartialEq, Eq, Structural)]
pub struct DailyCount {
    pub day: i64,
    pub count: i64,
}

/// No two models share an id.
pub open spec fn unique_model_ids(ms: Seq<Model>) -> bool {
    forall|i: int, j: int| 0 <= i < j < ms.len() ==> ms[i].id != ms[j].id
}

/// JSON `true` or `false`.
pub open spec fn bool_json(b: bool) -> Seq<u8> {
    if b {
        seq![116u8, 114u8, 117u8, 101u8]
    } else {
        seq![102u8, 97u8, 108u8, 115u8, 101u8]
    }
}

/// A pair of integers as a JSON array.
pub open spec fn pair_json(p: DailyCount) -> Seq<u8> {
    seq![91u8] + decimal_of(p.day as int) + seq![44u8] + decimal_of(p.count as int) + seq![93u8]
}

/// The JSON text of a deck descriptor, keys in the order of its fields.
pub open spec fn deck_entry_json(e: DeckDbEntry) -> Seq<u8> {
    object_of(
        seq![
            (json_quoted("collapsed"@), bool_json(e.collapsed)),
            (json_quoted("conf"@), decimal_of(e.conf as int)),
            (json_quoted("desc"@), json_quoted(e.desc@)),
            (json_quoted("dyn"@), decimal_of(e.dyn_deck as int)),
            (json_quoted("extendNew"@), decimal_of(e.extend_new as int)),
            (json_quoted("extendRev"@), decimal_of(e.extend_rev as int)),
            (json_quoted("id"@), decimal_of(e.id as int)),
            (json_quoted("lrnToday"@), pair_json(e.lrn_today)),
            (json_quoted("mod"@), decimal_of(e.mtime as int)),
            (json_quoted("name"@), json_quoted(e.name@)),
            (json_quoted("newToday"@), pair_json(e.new_today)),
            (json_quoted("revToday"@), pair_json(e.rev_today)),
            (json_quoted("timeToday"@), pair_json(e.time_today)),
            (json_quoted("usn"@), decimal_of(e.usn as int)),
        ],
    )
}

/// The descriptor of a deck with id `id`, name `name` and description `desc`:
/// expanded, deck config 1, extension limits 10 and 50, every daily counter
/// zero, not yet synced.
pub open spec fn is_deck_entry(e: DeckDbEntry, id: i64, name: Seq<char>, desc: Seq<char>) -> bool {
    &&& !e.collapsed
    &&& e.conf == 1
    &&& e.desc@ == desc
    &&& e.dyn_deck == 0
    &&& e.extend_new == 10
    &&& e.extend_rev == 50
    &&& e.id == id
    &&& e.lrn_today == (DailyCount { day: 0, count: 0 })
    &&& e.mtime == 0
    &&& e.name@ == name
    &&& e.new_today == (DailyCount { day: 0, count: 0 })
    &&& e.rev_today == (DailyCount { day: 0, count: 0 })
    &&& e.time_today == (DailyCount { day: 0, count: 0 })
    &&& e.usn == -1
}

/// The JSON text of the descriptor of a deck with id `id`, name `name` and
/// description `desc`.
pub open spec fn deck_json_of(id: i64, name: Seq<char>, desc: Seq<char>) -> Seq<u8> {
    object_of(
        seq![
            (json_quoted("collapsed"@), bool_json(false)),
            (json_quoted("conf"@), decimal_of(1)),
            (json_quoted("desc"@), json_quoted(desc)),
            (json_quoted("dyn"@), decimal_of(0)),
            (json_quoted("extendNew"@), decimal_of(10)),
            (json_quoted("extendRev"@), decimal_of(50)),
            (json_quoted("id"@), decimal_of(id as int)),
            (json_quoted("lrnToday"@), pair_json(DailyCount { day: 0, count: 0 })),
            (json_quoted("mod"@), decimal_of(0)),
            (json_quoted("name"@), json_quoted(name)),
            (json_quoted("newToday"@), pair_json(DailyCount { day: 0, count: 0 })),
            (json_quoted("revToday"@), pair_json(DailyCount { day: 0, count: 0 })),
            (json_quoted("timeToday"@), pair_json(DailyCount { day: 0, count: 0 })),
            (json_quoted("usn"@), decimal_of(-1)),
        ],
    )
}

/// How far the notes `ns` move the allocator.
pub open spec fn notes_ids_used(ns: Seq<Note>) -> int
    decreases ns.len(),
{
    if ns.len() == 0 {
        0
    } else {
        notes_ids_used(ns.drop_last()) + note_ids_used(ns.last())
    }
}

/// How many cards the notes `ns` hold.
pub open spec fn notes_card_count(ns: Seq<Note>) -> int
    decreases ns.len(),
{
    if ns.len() == 0 {
        0
    } else {
        notes_card_count(ns.drop_last()) + ns.last().cards@.len()
    }
}

/// No card of any note of `ns` carries its own id.
pub open spec fn notes_without_custom_ids(ns: Seq<Note>) -> bool {
    forall|i: int| 0 <= i < ns.len() ==> no_custom_ids((#[trigger] ns[i]).cards@)
}

/// `rs` are the rows of notes `ns`, written while the allocator went on from
/// `start`.
pub open spec fn are_note_rows(rs: Seq<NoteRow>, ns: Seq<Note>, start: int, mtime: int) -> bool {
    &&& rs.len() == ns.len()
    &&& forall|i: int|
        0 <= i < ns.len() ==> #[trigger] is_note_row(
            rs[i],
            ns[i],
            start + notes_ids_used(ns.take(i)),
            mtime,
        )
}

/// `rs` are the card rows of notes `ns` of deck `did`, note after note,
/// written while the allocator went on from `start`.
pub open spec fn are_notes_card_rows(
    rs: Seq<CardRow>,
    ns: Seq<Note>,
    start: int,
    did: int,
    mtime: int,
) -> bool
    decreases ns.len(),
{
    if ns.len() == 0 {
        rs.len() == 0
    } else {
        let k = rs.len() - ns.last().cards@.len();
        let s = start + notes_ids_used(ns.drop_last());
        &&& k >= 0
        &&& are_notes_card_rows(rs.take(k), ns.drop_last(), start, did, mtime)
        &&& are_card_rows(rs.skip(k), ns.last().cards@, s + 1, s, did, mtime)
    }
}

/// The review-log rows of notes `ns`, note after note.
pub open spec fn notes_revlog(ns: Seq<Note>, start: int) -> Seq<RevlogRow>
    decreases ns.len(),
{
    if ns.len() == 0 {
        Seq::empty()
    } else {
        notes_revlog(ns.drop_last(), start) + cards_revlog(
            ns.last().cards@,
            start + notes_ids_used(ns.drop_last()) + 1,
        )
    }
}

impl Deck {
    /// The notes of this deck, in the order added.
    pub open spec fn note_seq(&self) -> Seq<Note> {
        self.notes@
    }

    /// The models added to this deck.
    pub open spec fn model_seq(&self) -> Seq<Model> {
        self.models@
    }

    /// A deck with no notes and no models.
    pub fn new(id: i64, name: &str, description: &str) -> (r: Deck)
        ensures
            r.id == id,
            r.name@ == name@,
            r.description@ == description@,
            r.note_seq().len() == 0,
            r.model_seq().len() == 0,
    {
        Deck {
            id,
            name: name.to_owned(),
            description: description.to_owned(),
            notes: Vec::new(),
            models: Vec::new(),
        }
    }

    /// Adds `note` after the deck's other notes.
    pub fn add_note(&mut self, note: Note)
        ensures
            final(self).note_seq() == old(self).note_seq().push(note),
            final(self).model_seq() == old(self).model_seq(),
            final(self).id == old(self).id,
            final(self).name == old(self).name,
            final(self).description == old(self).description,
    {
        self.notes.push(note);
    }

    /// Adds `model`, in place of the first model of the same id if there is
    /// one, else after the others.
    pub fn add_model(&mut self, model: Model)
        ensures
            (forall|i: int|
                0 <= i < old(self).model_seq().len() ==> old(self).model_seq()[i].id != model.id)
                ==> final(self).model_seq() == old(self).model_seq().push(model),
            (exists|i: int|
                0 <= i < old(self).model_seq().len() && old(self).model_seq()[i].id == model.id)
                ==> exists|i: int|
                0 <= i < old(self).model_seq().len() && old(self).model_seq()[i].id == model.id
                    && (forall|j: int| 0 <= j < i ==> old(self).model_seq()[j].id != model.id)
                    && final(self).model_seq() == old(self).model_seq().update(i, model),
            unique_model_ids(old(self).model_seq()) ==> unique_model_ids(final(self).model_seq()),
            final(self).note_seq() == old(self).note_seq(),
            final(self).id == old(self).id,
            final(self).name == old(self).name,
            final(self).description == old(self).description,
    {
        match position_of_model(&self.models, model.id) {
            Some(i) => {
                self.models.set(i, model);
                assert(self.models@ == old(self).models@.update(i as int, model));
            },
            None => {
                self.models.push(model);
                assert(forall|j: int|
                    0 <= j < old(self).models@.len() ==> self.models@[j] == old(self).models@[j]);
            },
        }
    }

    /// The notes of this deck, in the order added.
    pub fn notes(&self) -> (r: &Vec<Note>)
        ensures
            r@ == self.note_seq(),
    {
        &self.notes
    }

    /// The models added to this deck.
    pub fn models(&self) -> (r: &Vec<Model>)
        ensures
            r@ == self.model_seq(),
    {
        &self.models
    }

    /// The legacy descriptor of this deck, the same under every schema version.
    pub fn to_deck_db_entry(&self) -> (r: DeckDbEntry)
        ensures
            is_deck_entry(r, self.id, self.name@, self.description@),
    {
        DeckDbEntry {
            collapsed: false,
            conf: 1,
            desc: self.description.clone(),
            dyn_deck: 0,
            extend_new: 10,
            extend_rev: 50,
            id: self.id,
            lrn_today: DailyCount { day: 0, count: 0 },
            mtime: 0,
            name: self.name.clone(),
            new_today: DailyCount { day: 0, count: 0 },
            rev_today: DailyCount { day: 0, count: 0 },
            time_today: DailyCount { day: 0, count: 0 },
            usn: -1,
        }
    }

    /// The JSON text of this deck's legacy descriptor.
    pub fn to_json(&self) -> (r: Vec<u8>)
        ensures
            r@ == deck_json_of(self.id, self.name@, self.description@),
    {
        let e = self.to_deck_db_entry();
        let r = e.to_json();
        assert(deck_entry_json(e) =~= deck_json_of(self.id, self.name@, self.description@));
        r
    }

    /// Adds the rows of this deck's notes, note after note, each followed by
    /// its cards, to `rows`.
    pub fn write_notes_and_cards_to_db(&self, rows: &mut Rows, mtime: i64, ids: &mut IdAllocator)
        -> (r: Result<(), Error>)
        ensures
            r is Ok <==> old(ids).upcoming() + notes_ids_used(self.note_seq()) <= i64::MAX,
            r is Ok ==> ({
                let start = old(ids).upcoming() as int;
                let kn = old(rows).notes@.len() as int;
                let kc = old(rows).cards@.len() as int;
                &&& final(ids).upcoming() == start + notes_ids_used(self.note_seq())
                &&& final(rows).notes@.len() >= kn
                &&& final(rows).notes@.take(kn) == old(rows).notes@
                &&& are_note_rows(final(rows).notes@.skip(kn), self.note_seq(), start, mtime as int)
                &&& final(rows).cards@.len() == kc + notes_card_count(self.note_seq())
                &&& final(rows).cards@.take(kc) == old(rows).cards@
                &&& are_notes_card_rows(
                    final(rows).cards@.skip(kc),
                    self.note_seq(),
                    start,
                    self.id as int,
                    mtime as int,
                )
                &&& final(rows).revlog@ == old(rows).revlog@ + notes_revlog(self.note_seq(), start)
            }),
            r is Ok && notes_without_custom_ids(self.note_seq()) && ids_fresh(
                old(rows).notes@,
                old(rows).cards@,
                old(ids).upcoming() as int,
            ) ==> ids_fresh(final(rows).notes@, final(rows).cards@, final(ids).upcoming() as int),
    {
        let ghost start = old(ids).upcoming() as int;
        let ghost kn = old(rows).notes@.len() as int;
        let ghost kc = old(rows).cards@.len() as int;
        let ghost ns = self.notes@;
        proof {
            assert(ns.take(0) =~= Seq::<Note>::empty());
            assert(rows.cards@.skip(kc) =~= Seq::<CardRow>::empty());
            assert(rows.notes@.skip(kn) =~= Seq::<NoteRow>::empty());
            assert(rows.cards@.take(kc) =~= rows.cards@);
            assert(rows.notes@.take(kn) =~= rows.notes@);
            assert(rows.revlog@ =~= old(rows).revlog@ + notes_revlog(ns.take(0), start));
        }
        let mut i: usize = 0;
        while i < self.notes.len()
            invariant
                ns == self.notes@,
                i <= ns.len(),
                start == old(ids).upcoming(),
                kn == old(rows).notes@.len(),
                kc == old(rows).cards@.len(),
                ids.upcoming() == start + notes_ids_used(ns.take(i as int)),
                rows.notes@.len() >= kn,
                rows.notes@.take(kn) == old(rows).notes@,
                are_note_rows(rows.notes@.skip(kn), ns.take(i as int), start, mtime as int),
                rows.cards@.len() >= kc,
                rows.cards@.len() == kc + notes_card_count(ns.take(i as int)),
                rows.cards@.take(kc) == old(rows).cards@,
                notes_without_custom_ids(ns) && ids_fresh(
                    old(rows).notes@,
                    old(rows).cards@,
                    start,
                ) ==> ids_fresh(rows.notes@, rows.cards@, ids.upcoming() as int),
                are_notes_card_rows(
                    rows.cards@.skip(kc),
                    ns.take(i as int),
                    start,
                    self.id as int,
                    mtime as int,
                ),
                rows.revlog@ == old(rows).revlog@ + notes_revlog(ns.take(i as int), start),
            decreases ns.len() - i,
        {
            let ghost b_notes = rows.notes@;
            let ghost b_cards = rows.cards@;
            let res = self.notes[i].write_to_db(rows, mtime, self.id, ids);
            let ghost t = ns.take(i + 1);
            proof {
                assert(t.drop_last() =~= ns.take(i as int));
                assert(t.last() == ns[i as int]);
                lemma_notes_ids_used_prefix(ns, i + 1);
                lemma_notes_ids_used_nonneg(ns.take(i + 1));
            }
            if res.is_err() {
                return res;
            }
            proof {
                let n = ns[i as int];
                // note rows
                let sn = rows.notes@.skip(kn);
                let bn = b_notes.skip(kn);
                assert(sn.len() == i + 1);
                assert forall|j: int| 0 <= j < i + 1 implies #[trigger] is_note_row(
                    sn[j],
                    t[j],
                    start + notes_ids_used(t.take(j)),
                    mtime as int,
                ) by {
                    if j < i {
                        assert(sn[j] == bn[j]);
                        assert(t[j] == ns.take(i as int)[j]);
                        assert(t.take(j) =~= ns.take(i as int).take(j));
                    } else {
                        assert(sn[j] == rows.notes@.last());
                        assert(t.take(j) =~= ns.take(i as int));
                    }
                }
                assert(rows.notes@.take(kn) =~= old(rows).notes@);
                // card rows
                let sc = rows.cards@.skip(kc);
                let kk = sc.len() - n.cards@.len();
                assert(kk == b_cards.len() - kc);
                assert(sc.take(kk) =~= b_cards.skip(kc));
                assert(sc.skip(kk) =~= rows.cards@.skip(b_cards.len() as int));
                assert(rows.cards@.take(kc) =~= old(rows).cards@);
                // review log
                assert(rows.revlog@ =~= old(rows).revlog@ + notes_revlog(t, start));
                if notes_without_custom_ids(ns) {
                    assert(no_custom_ids(ns[i as int].cards@));
                }
            }
            i = i + 1;
        }
        assert(ns.take(ns.len() as int) =~= ns);
        Ok(())
    }
}

impl DeckDbEntry {
    /// The JSON text of this descriptor, keys in the order of its fields.
    pub fn to_json(&self) -> (r: Vec<u8>)
        ensures
            r@ == deck_entry_json(*self),
    {
        let mut es: Vec<(Vec<u8>, Vec<u8>)> = Vec::new();
        es.push((quote("collapsed"), bool_bytes(self.collapsed)));
        es.push((quote("conf"), decimal(self.conf)));
        es.push((quote("desc"), quote(self.desc.as_str())));
        es.push((quote("dyn"), decimal(self.dyn_deck)));
        es.push((quote("extendNew"), decimal(self.extend_new)));
        es.push((quote("extendRev"), decimal(self.extend_rev)));
        es.push((quote("id"), decimal(self.id)));
        es.push((quote("lrnToday"), pair_bytes(self.lrn_today)));
        es.push((quote("mod"), decimal(self.mtime)));
        es.push((quote("name"), quote(self.name.as_str())));
        es.push((quote("newToday"), pair_bytes(self.new_today)));
        es.push((quote("revToday"), pair_bytes(self.rev_today)));
        es.push((quote("timeToday"), pair_bytes(self.time_today)));
        es.push((quote("usn"), decimal(self.usn)));
        let r = render_object(&es);
        assert(pairs_view(es@) =~= seq![
            (json_quoted("collapsed"@), bool_json(self.collapsed)),
            (json_quoted("conf"@), decimal_of(self.conf as int)),
            (json_quoted("desc"@), json_quoted(self.desc@)),
            (json_quoted("dyn"@), decimal_of(self.dyn_deck as int)),
            (json_quoted("extendNew"@), decimal_of(self.extend_new as int)),
            (json_quoted("extendRev"@), decimal_of(self.extend_rev as int)),
            (json_quoted("id"@), decimal_of(self.id as int)),
            (json_quoted("lrnToday"@), pair_json(self.lrn_today)),
            (json_quoted("mod"@), decimal_of(self.mtime as int)),
            (json_quoted("name"@), json_quoted(self.name@)),
            (json_quoted("newToday"@), pair_json(self.new_today)),
            (json_quoted("revToday"@), pair_json(self.rev_today)),
            (json_quoted("timeToday"@), pair_json(self.time_today)),
            (json_quoted("usn"@), decimal_of(self.usn as int)),
        ]);
        r
    }
}

/// Where the first model with id `id` stands, if any.
fn position_of_model(ms: &Vec<Model>, id: i64) -> (r: Option<usize>)
    ensures
        r matches Some(i) ==> i < ms@.len() && ms@[i as int].id == id && forall|j: int|
            0 <= j < i ==> ms@[j].id != id,
        r is None ==> forall|j: int| 0 <= j < ms@.len() ==> ms@[j].id != id,
{
    let mut i: usize = 0;
    while i < ms.len()
        invariant
            i <= ms@.len(),
            forall|j: int| 0 <= j < i ==> ms@[j].id != id,
        decreases ms@.len() - i,
    {
        if ms[i].id == id {
            return Some(i);
        }
        i = i + 1;
    }
    None
}

fn bool_bytes(b: bool) -> (r: Vec<u8>)
    ensures
        r@ == bool_json(b),
{
    let r = if b {
        vec![116u8, 114u8, 117u8, 101u8]
    } else {
        vec![102u8, 97u8, 108u8, 115u8, 101u8]
    };
    assert(r@ =~= bool_json(b));
    r
}

fn pair_bytes(p: DailyCount) -> (r: Vec<u8>)
    ensures
        r@ == pair_json(p),
{
    let mut r: Vec<u8> = Vec::new();
    r.push(91u8);
    crate::json::push_decimal(&mut r, p.day);
    r.push(44u8);
    crate::json::push_decimal(&mut r, p.count);
    r.push(93u8);
    assert(r@ =~= pair_json(p));
    r
}

pub proof fn lemma_notes_ids_used_nonneg(ns: Seq<Note>)
    ensures
        0 <= notes_ids_used(ns),
    decreases ns.len(),
{
    if ns.len() > 0 {
        lemma_notes_ids_used_nonneg(ns.drop_last());
        crate::note::lemma_note_ids_used_pos(ns.last());
    }
}

/// The notes of a prefix use no more ids than all of them.
pub proof fn lemma_notes_ids_used_prefix(ns: Seq<Note>, i: int)
    requires
        0 <= i <= ns.len(),
    ensures
        notes_ids_used(ns.take(i)) <= notes_ids_used(ns),
    decreases ns.len() - i,
{
    if i < ns.len() {
        lemma_notes_ids_used_prefix(ns, i + 1);
        assert(ns.take(i + 1).drop_last() =~= ns.take(i));
        crate::note::lemma_note_ids_used_pos(ns[i]);
    } else {
        assert(ns.take(i) =~= ns);
    }
}

} // verus!
