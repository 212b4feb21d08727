//! Note types (models) and notes: what a note's row holds and how a note fans
//! out into its cards.

use vstd::prelude::*;
use vstd::string::StringExecFns;
use crate::allocator::IdAllocator;
use crate::card::{
    card_id_of, card_ids_used, is_card_row, revlog_rows_of, Card,
};
use crate::error::Error;
use crate::json::{
    array_of, decimal, decimal_of, items_view, json_quoted, object_of, quote, render_array,
    render_object,
};
use crate::rows::{CardRow, NoteRow, RevlogRow, Rows};

verus! {

/// Separates the field values of a note in its row.
pub const FIELD_SEPARATOR: &'static str = "\u{1f}";

/// A note type: its id, its name, the names of its fields and of its card
/// templates. A note of this model has one card per template.
#[derive(Debug, Clone)]
pub struct Model {
    pub id: i64,
    pub name: String,
    pub field_names: Vec<String>,
    pub template_names: Vec<String>,
}

/// A note: its model, field values, and the values that identify it (guid,
/// sort field, checksum of the sort field), with the cards it is written as.
#[derive(Debug, Clone)]
pub struct Note {
    pub model: Model,
    pub fields: Vec<String>,
    pub guid: String,
    pub sort_field: String,
    pub checksum: i64,
    pub tags: String,
    pub cards: Vec<Card>,
}

/// The texts of a list of strings.
pub open spec fn texts(xs: Seq<String>) -> Seq<Seq<char>> {
    xs.map_values(|x: String| x@)
}

/// Strings joined by the field separator.
pub open spec fn joined(xs: Seq<Seq<char>>) -> Seq<char>
    decreases xs.len(),
{
    if xs.len() == 0 {
        Seq::empty()
    } else if xs.len() == 1 {
        xs[0]
    } else {
        joined(xs.drop_last()) + FIELD_SEPARATOR@ + xs.last()
    }
}

/// The JSON texts of a list of strings.
pub open spec fn quoted_all(xs: Seq<String>) -> Seq<Seq<u8>> {
    xs.map_values(|x: String| json_quoted(x@))
}

/// The descriptor of model `m` as written for deck `did` at time `mtime`.
pub open spec fn model_json_of(m: Model, mtime: i64, did: i64) -> Seq<u8> {
    object_of(
        seq![
            (json_quoted("did"@), decimal_of(did as int)),
            (json_quoted("flds"@), array_of(quoted_all(m.field_names@))),
            (json_quoted("id"@), decimal_of(m.id as int)),
            (json_quoted("mod"@), decimal_of(mtime as int)),
            (json_quoted("name"@), json_quoted(m.name@)),
            (json_quoted("tmpls"@), array_of(quoted_all(m.template_names@))),
            (json_quoted("usn"@), decimal_of(-1)),
        ],
    )
}

/// How far the cards `cs` move the allocator.
pub open spec fn ids_used(cs: Seq<Card>) -> int
    decreases cs.len(),
{
    if cs.len() == 0 {
        0
    } else {
        ids_used(cs.drop_last()) + card_ids_used(cs.last())
    }
}

/// The id card `i` of `cs` is written with when the allocator stood at
/// `start` before the first of them.
pub open spec fn nth_card_id(cs: Seq<Card>, i: int, start: int) -> int {
    card_id_of(cs[i], start + ids_used(cs.take(i)))
}

/// `rs` are the rows of cards `cs` of note `nid` in deck `did`, modified at
/// `mtime`, written while the allocator went on from `start`.
pub open spec fn are_card_rows(
    rs: Seq<CardRow>,
    cs: Seq<Card>,
    start: int,
    nid: int,
    did: int,
    mtime: int,
) -> bool {
    &&& rs.len() == cs.len()
    &&& forall|i: int|
        0 <= i < cs.len() ==> #[trigger] is_card_row(
            rs[i],
            cs[i],
            nth_card_id(cs, i, start),
            nid,
            did,
            mtime,
        )
}

/// The review-log rows of cards `cs`, card after card.
pub open spec fn cards_revlog(cs: Seq<Card>, start: int) -> Seq<RevlogRow>
    decreases cs.len(),
{
    if cs.len() == 0 {
        Seq::empty()
    } else {
        cards_revlog(cs.drop_last(), start) + revlog_rows_of(
            cs.last().review_history@,
            nth_card_id(cs, cs.len() - 1, start) as i64,
        )
    }
}

/// `r` is the row of note `n` with id `id`, modified at `mtime`.
pub open spec fn is_note_row(r: NoteRow, n: Note, id: int, mtime: int) -> bool {
    &&& r.id == id
    &&& r.guid@ == n.guid@
    &&& r.mid == n.model.id
    &&& r.mtime == mtime
    &&& r.usn == -1
    &&& r.tags@ == n.tags@
    &&& r.flds@ == joined(texts(n.fields@))
    &&& r.sfld@ == n.sort_field@
    &&& r.csum == n.checksum
    &&& r.flags == 0
    &&& r.data@ == Seq::<char>::empty()
}

/// How far note `n` moves the allocator: one id for itself and one for each
/// card without its own id.
pub open spec fn note_ids_used(n: Note) -> int {
    1 + ids_used(n.cards@)
}

/// No card of `cs` carries its own id.
pub open spec fn no_custom_ids(cs: Seq<Card>) -> bool {
    forall|i: int| 0 <= i < cs.len() ==> (#[trigger] cs[i]).custom_card_id is None
}

/// The ids of note rows `ns` and card rows `cs` are all below `bound`, each
/// list strictly increasing, and no note shares an id with a card.
pub open spec fn ids_fresh(ns: Seq<NoteRow>, cs: Seq<CardRow>, bound: int) -> bool {
    &&& forall|i: int| 0 <= i < ns.len() ==> (#[trigger] ns[i]).id < bound
    &&& forall|i: int| 0 <= i < cs.len() ==> (#[trigger] cs[i]).id < bound
    &&& forall|i: int, j: int| 0 <= i < j < ns.len() ==> (#[trigger] ns[i]).id < (#[trigger] ns[j]).id
    &&& forall|i: int, j: int| 0 <= i < j < cs.len() ==> (#[trigger] cs[i]).id < (#[trigger] cs[j]).id
    &&& forall|i: int, j: int|
        0 <= i < ns.len() && 0 <= j < cs.len() ==> (#[trigger] ns[i]).id != (#[trigger] cs[j]).id
}

/// One new card for each template position below `k`, in order.
pub open spec fn fresh_cards(cs: Seq<Card>, k: int) -> bool {
    &&& cs.len() == k
    &&& forall|i: int|
        0 <= i < k ==> {
            let c = #[trigger] cs[i];
            &&& c.ord == i
            &&& !c.suspend
            &&& c.reps is None && c.lapses is None && c.ivl is None && c.due is None
            &&& c.factor is None && c.card_type is None && c.queue is None && c.left is None
            &&& c.review_history@.len() == 0
            &&& c.data is None
            &&& c.custom_card_id is None
            &&& c.usn == -1
        }
}

impl Model {
    /// A model with the given fields and card templates.
    pub fn new(id: i64, name: &str, field_names: Vec<String>, template_names: Vec<String>) -> (r:
        Model)
        ensures
            r.id == id,
            r.name@ == name@,
            r.field_names@ == field_names@,
            r.template_names@ == template_names@,
    {
        Model { id, name: name.to_owned(), field_names, template_names }
    }

    /// The descriptor of this model as written for deck `did` at time
    /// `mtime` (seconds): id, name, deck, modification time, and the names of
    /// fields and templates.
    pub fn to_db_entry(&self, mtime: i64, did: i64) -> (r: Vec<u8>)
        ensures
            r@ == model_json_of(*self, mtime, did),
    {
        let flds = quote_all(&self.field_names);
        let tmpls = quote_all(&self.template_names);
        let mut es: Vec<(Vec<u8>, Vec<u8>)> = Vec::new();
        es.push((quote("did"), decimal(did)));
        es.push((quote("flds"), render_array(&flds)));
        es.push((quote("id"), decimal(self.id)));
        es.push((quote("mod"), decimal(mtime)));
        es.push((quote("name"), quote(self.name.as_str())));
        es.push((quote("tmpls"), render_array(&tmpls)));
        es.push((quote("usn"), decimal(-1)));
        let r = render_object(&es);
        assert(crate::json::pairs_view(es@) =~= seq![
            (json_quoted("did"@), decimal_of(did as int)),
            (json_quoted("flds"@), array_of(quoted_all(self.field_names@))),
            (json_quoted("id"@), decimal_of(self.id as int)),
            (json_quoted("mod"@), decimal_of(mtime as int)),
            (json_quoted("name"@), json_quoted(self.name@)),
            (json_quoted("tmpls"@), array_of(quoted_all(self.template_names@))),
            (json_quoted("usn"@), decimal_of(-1)),
        ]);
        r
    }
}

/// The JSON texts of a list of strings.
fn quote_all(xs: &Vec<String>) -> (r: Vec<Vec<u8>>)
    ensures
        items_view(r@) == quoted_all(xs@),
{
    let mut r: Vec<Vec<u8>> = Vec::new();
    let mut i: usize = 0;
    while i < xs.len()
        invariant
            i <= xs@.len(),
            items_view(r@) == quoted_all(xs@.subrange(0, i as int)),
        decreases xs@.len() - i,
    {
        let q = quote(xs[i].as_str());
        let ghost prev = r@;
        r.push(q);
        proof {
            assert(r@ == prev.push(q));
            assert(items_view(prev.push(q)) =~= items_view(prev).push(q@));
            assert(xs@.subrange(0, i + 1) =~= xs@.subrange(0, i as int).push(xs@[i as int]));
            assert(quoted_all(xs@.subrange(0, i as int).push(xs@[i as int])) =~= quoted_all(
                xs@.subrange(0, i as int),
            ).push(json_quoted(xs@[i as int]@)));
        }
        i = i + 1;
        assert(items_view(r@) =~= quoted_all(xs@.subrange(0, i as int)));
    }
    assert(xs@.subrange(0, xs@.len() as int) =~= xs@);
    r
}

/// Field values joined by the field separator.
pub fn join_fields(xs: &Vec<String>) -> (r: String)
    ensures
        r@ == joined(texts(xs@)),
{
    let mut r = String::new();
    let mut i: usize = 0;
    while i < xs.len()
        invariant
            i <= xs@.len(),
            r@ == joined(texts(xs@.subrange(0, i as int))),
        decreases xs@.len() - i,
    {
        if i > 0 {
            r.append(FIELD_SEPARATOR);
        }
        r.append(xs[i].as_str());
        proof {
            let now = texts(xs@.subrange(0, i + 1));
            assert(now.drop_last() =~= texts(xs@.subrange(0, i as int)));
        }
        i = i + 1;
        assert(r@ =~= joined(texts(xs@.subrange(0, i as int))));
    }
    assert(xs@.subrange(0, xs@.len() as int) =~= xs@);
    r
}

impl Note {
    /// A note of `model` with one new card per template of the model.
    pub fn new(model: Model, fields: Vec<String>, guid: &str, sort_field: &str, checksum: i64) -> (r:
        Note)
        requires
            model.template_names@.len() < i64::MAX,
        ensures
            r.model == model,
            r.fields@ == fields@,
            r.guid@ == guid@,
            r.sort_field@ == sort_field@,
            r.checksum == checksum,
            r.tags@ == Seq::<char>::empty(),
            fresh_cards(r.cards@, model.template_names@.len() as int),
    {
        let n = model.template_names.len();
        let mut cards: Vec<Card> = Vec::new();
        let mut i: usize = 0;
        while i < n
            invariant
                n == model.template_names@.len(),
                n < i64::MAX,
                i <= n,
                fresh_cards(cards@, i as int),
            decreases n - i,
        {
            let c = Card::new(i as i64, false);
            let ghost prev = cards@;
            cards.push(c);
            i = i + 1;
            assert(forall|j: int| 0 <= j < i - 1 ==> cards@[j] == prev[j]);
        }
        Note {
            model,
            fields,
            guid: guid.to_owned(),
            sort_field: sort_field.to_owned(),
            checksum,
            tags: String::new(),
            cards,
        }
    }

    /// A note of `model` written as the given cards.
    pub fn with_cards(
        model: Model,
        fields: Vec<String>,
        guid: &str,
        sort_field: &str,
        checksum: i64,
        cards: Vec<Card>,
    ) -> (r: Note)
        ensures
            r.model == model,
            r.fields@ == fields@,
            r.guid@ == guid@,
            r.sort_field@ == sort_field@,
            r.checksum == checksum,
            r.tags@ == Seq::<char>::empty(),
            r.cards@ == cards@,
    {
        Note {
            model,
            fields,
            guid: guid.to_owned(),
            sort_field: sort_field.to_owned(),
            checksum,
            tags: String::new(),
            cards,
        }
    }

    /// The same note with its tags column set to `tags`.
    pub fn set_tags(self, tags: &str) -> (r: Note)
        ensures
            r.model == self.model,
            r.fields == self.fields,
            r.guid == self.guid,
            r.sort_field == self.sort_field,
            r.checksum == self.checksum,
            r.tags@ == tags@,
            r.cards == self.cards,
    {
        let mut n = self;
        n.tags = tags.to_owned();
        n
    }

    /// The model of this note.
    pub fn model(&self) -> (r: &Model)
        ensures
            *r == self.model,
    {
        &self.model
    }

    /// The row of this note under id `id`, modified at `mtime`.
    pub fn to_row(&self, id: i64, mtime: i64) -> (r: NoteRow)
        ensures
            is_note_row(r, *self, id as int, mtime as int),
    {
        NoteRow {
            id,
            guid: self.guid.clone(),
            mid: self.model.id,
            mtime,
            usn: -1,
            tags: self.tags.clone(),
            flds: join_fields(&self.fields),
            sfld: self.sort_field.clone(),
            csum: self.checksum,
            flags: 0,
            data: String::new(),
        }
    }

    /// Adds the row of this note, then those of its cards in order, to
    /// `rows`. The note takes the allocator's next id; each card its own id or
    /// the allocator's next one.
    pub fn write_to_db(&self, rows: &mut Rows, mtime: i64, did: i64, ids: &mut IdAllocator) -> (r:
        Result<(), Error>)
        ensures
            r is Ok <==> old(ids).upcoming() + note_ids_used(*self) <= i64::MAX,
            r is Ok ==> ({
                let start = old(ids).upcoming() as int;
                let k = old(rows).cards@.len();
                &&& final(ids).upcoming() == start + note_ids_used(*self)
                &&& final(rows).notes@.len() == old(rows).notes@.len() + 1
                &&& final(rows).notes@.drop_last() == old(rows).notes@
                &&& is_note_row(final(rows).notes@.last(), *self, start, mtime as int)
                &&& final(rows).cards@.len() == k + self.cards@.len()
                &&& final(rows).cards@.take(k as int) == old(rows).cards@
                &&& are_card_rows(
                    final(rows).cards@.skip(k as int),
                    self.cards@,
                    start + 1,
                    start,
                    did as int,
                    mtime as int,
                )
                &&& final(rows).revlog@ == old(rows).revlog@ + cards_revlog(self.cards@, start + 1)
            }),
            r is Ok && no_custom_ids(self.cards@) && ids_fresh(
                old(rows).notes@,
                old(rows).cards@,
                old(ids).upcoming() as int,
            ) ==> ids_fresh(final(rows).notes@, final(rows).cards@, final(ids).upcoming() as int),
    {
        let nid = match ids.next_id() {
            Some(id) => id,
            None => {
                proof { lemma_ids_used_nonneg(self.cards@); }
                return Err(Error::IdsExhausted);
            },
        };
        rows.notes.push(self.to_row(nid, mtime));
        let ghost notes_after = rows.notes@;
        let ghost start = nid as int;
        let ghost k = old(rows).cards@.len();
        let mut i: usize = 0;
        while i < self.cards.len()
            invariant
                i <= self.cards@.len(),
                rows.notes@ == notes_after,
                start == nid,
                start == old(ids).upcoming(),
                ids.upcoming() == start + 1 + ids_used(self.cards@.take(i as int)),
                rows.cards@.len() == k + i,
                rows.cards@.take(k as int) == old(rows).cards@,
                are_card_rows(
                    rows.cards@.skip(k as int),
                    self.cards@.take(i as int),
                    start + 1,
                    start,
                    did as int,
                    mtime as int,
                ),
                rows.revlog@ == old(rows).revlog@ + cards_revlog(
                    self.cards@.take(i as int),
                    start + 1,
                ),
            decreases self.cards@.len() - i,
        {
            let ghost before_cards = rows.cards@;
            match self.cards[i].write_to_db(rows, mtime, did, nid, ids) {
                Ok(()) => {},
                Err(e) => {
                    proof {
                        lemma_ids_used_prefix(self.cards@, i as int + 1);
                        lemma_ids_used_nonneg(self.cards@.take(i as int + 1));
                        assert(self.cards@.take(i as int + 1).drop_last() =~= self.cards@.take(
                            i as int,
                        ));
                    }
                    return Err(e);
                },
            }
            proof {
                let cs = self.cards@;
                let t = cs.take(i as int + 1);
                assert(t.drop_last() =~= cs.take(i as int));
                assert(t.last() == cs[i as int]);
                let sk = rows.cards@.skip(k as int);
                let bk = before_cards.skip(k as int);
                assert(sk.len() == i + 1);
                assert(sk[i as int] == rows.cards@.last());
                assert(t.take(i as int) =~= cs.take(i as int));
                assert(t[i as int] == cs[i as int]);
                assert(is_card_row(
                    sk[i as int],
                    t[i as int],
                    nth_card_id(t, i as int, start + 1),
                    start,
                    did as int,
                    mtime as int,
                ));
                assert forall|j: int| 0 <= j < i + 1 implies #[trigger] is_card_row(
                    sk[j],
                    t[j],
                    nth_card_id(t, j, start + 1),
                    start,
                    did as int,
                    mtime as int,
                ) by {
                    if j < i {
                        assert(sk[j] == bk[j]);
                        assert(t[j] == cs.take(i as int)[j]);
                        assert(t.take(j) =~= cs.take(i as int).take(j));
                        assert(is_card_row(
                            bk[j],
                            cs.take(i as int)[j],
                            nth_card_id(cs.take(i as int), j, start + 1),
                            start,
                            did as int,
                            mtime as int,
                        ));
                    }
                }
                assert(rows.cards@.take(k as int) =~= old(rows).cards@);
                assert(cards_revlog(t, start + 1) == cards_revlog(cs.take(i as int), start + 1)
                    + revlog_rows_of(
                    cs[i as int].review_history@,
                    nth_card_id(t, i as int, start + 1) as i64,
                ));
                assert(rows.revlog@ =~= old(rows).revlog@ + cards_revlog(t, start + 1));
            }
            i = i + 1;
        }
        assert(self.cards@.take(self.cards@.len() as int) =~= self.cards@);
        proof {
            lemma_ids_used_nonneg(self.cards@);
            let cs = self.cards@;
            if no_custom_ids(cs) && ids_fresh(old(rows).notes@, old(rows).cards@, start) {
                let sk = rows.cards@.skip(k as int);
                assert forall|j: int| 0 <= j < cs.len() implies #[trigger] sk[j].id == start + 1
                    + j by {
                    lemma_ids_used_auto(cs.take(j));
                    assert(is_card_row(
                        sk[j],
                        cs[j],
                        nth_card_id(cs, j, start + 1),
                        start,
                        did as int,
                        mtime as int,
                    ));
                }
                lemma_ids_used_auto(cs);
                assert(rows.notes@.drop_last() =~= old(rows).notes@);
                lemma_fresh_after_note(
                    old(rows).notes@,
                    old(rows).cards@,
                    rows.notes@,
                    rows.cards@,
                    start,
                    cs.len() as int,
                );
            }
        }
        Ok(())
    }
}

/// Among cards written one after another, a card with an id of its own is
/// written with exactly that id and leaves the next automatic id as it was;
/// the cards without one get strictly increasing ids, whatever ids the others
/// carry.
pub proof fn lemma_custom_ids_leave_automatic_ids(cs: Seq<Card>, start: int, i: int, j: int)
    requires
        0 <= i < j < cs.len(),
    ensures
        cs[i].custom_card_id matches Some(x) ==> nth_card_id(cs, i, start) == x && ids_used(
            cs.take(i + 1),
        ) == ids_used(cs.take(i)),
        cs[i].custom_card_id is None && cs[j].custom_card_id is None ==> nth_card_id(cs, i, start)
            < nth_card_id(cs, j, start),
{
    assert(cs.take(i + 1).drop_last() =~= cs.take(i));
    assert(cs.take(i + 1).last() == cs[i]);
    lemma_ids_used_prefix(cs.take(j), i + 1);
    assert(cs.take(j).take(i + 1) =~= cs.take(i + 1));
}

/// Cards without ids of their own use one id each.
pub proof fn lemma_ids_used_auto(cs: Seq<Card>)
    requires
        no_custom_ids(cs),
    ensures
        ids_used(cs) == cs.len(),
    decreases cs.len(),
{
    if cs.len() > 0 {
        assert(cs.last() == cs[cs.len() - 1]);
        lemma_ids_used_auto(cs.drop_last());
    }
}

/// Writing a note whose id is `start` and whose cards take the ids right
/// after it keeps every id distinct and below the allocator.
pub proof fn lemma_fresh_after_note(
    on: Seq<NoteRow>,
    oc: Seq<CardRow>,
    nn: Seq<NoteRow>,
    nc: Seq<CardRow>,
    start: int,
    len: int,
)
    requires
        ids_fresh(on, oc, start),
        nn.len() == on.len() + 1,
        nn.drop_last() == on,
        nn.last().id == start,
        len >= 0,
        nc.len() == oc.len() + len,
        nc.take(oc.len() as int) == oc,
        forall|j: int| 0 <= j < len ==> #[trigger] nc.skip(oc.len() as int)[j].id == start + 1 + j,
    ensures
        ids_fresh(nn, nc, start + 1 + len),
{
    let k = oc.len() as int;
    assert forall|i: int| 0 <= i < nn.len() implies (#[trigger] nn[i]).id <= start by {
        if i < on.len() {
            assert(nn[i] == on[i]);
        }
    }
    assert forall|i: int| 0 <= i < nc.len() implies (i < k ==> (#[trigger] nc[i]).id < start) && (i
        >= k ==> nc[i].id == start + 1 + (i - k)) by {
        if i < k {
            assert(nc[i] == oc[i]);
        } else {
            assert(nc[i] == nc.skip(k)[i - k]);
        }
    }
    assert forall|i: int, j: int| 0 <= i < j < nn.len() implies (#[trigger] nn[i]).id < (
    #[trigger] nn[j]).id by {
        assert(nn[i] == on[i]);
        if j < on.len() {
            assert(nn[j] == on[j]);
        }
    }
    assert forall|i: int, j: int| 0 <= i < j < nc.len() implies (#[trigger] nc[i]).id < (
    #[trigger] nc[j]).id by {
        if j < k {
            assert(nc[i] == oc[i]);
            assert(nc[j] == oc[j]);
        }
    }
    assert forall|i: int, j: int| 0 <= i < nn.len() && 0 <= j < nc.len() implies (
    #[trigger] nn[i]).id != (#[trigger] nc[j]).id by {
        if i < on.len() && j < k {
            assert(nn[i] == on[i]);
            assert(nc[j] == oc[j]);
        }
    }
}

/// A note moves the allocator by at least one.
pub proof fn lemma_note_ids_used_pos(n: Note)
    ensures
        note_ids_used(n) >= 1,
{
    lemma_ids_used_nonneg(n.cards@);
}

pub proof fn lemma_ids_used_nonneg(cs: Seq<Card>)
    ensures
        0 <= ids_used(cs) <= cs.len(),
    decreases cs.len(),
{
    if cs.len() > 0 {
        lemma_ids_used_nonneg(cs.drop_last());
    }
}

/// The cards of a prefix use no more ids than all of them.
proof fn lemma_ids_used_prefix(cs: Seq<Card>, i: int)
    requires
        0 <= i <= cs.len(),
    ensures
        ids_used(cs.take(i)) <= ids_used(cs),
    decreases cs.len() - i,
{
    if i < cs.len() {
        lemma_ids_used_prefix(cs, i + 1);
        assert(cs.take(i + 1).drop_last() =~= cs.take(i));
        lemma_ids_used_nonneg(cs.take(i + 1));
    } else {
        assert(cs.take(i) =~= cs);
    }
}

} // verus!
