//! Cards, their review history, and how they become rows.

use vstd::prelude::*;
use crate::allocator::IdAllocator;
use crate::error::Error;
use crate::rows::{CardRow, RevlogRow, Rows};

verus! {

/// One review of a card, as kept in the review log.
#[derive(Debug, Clone, Copy, PartialEq, Eq)]
pub struct RevlogEntry {
    /// When the review happened, in milliseconds; also the row's id.
    pub id: i64,
    /// The answer button pressed.
    pub ease: i32,
    /// Interval after the review.
    pub ivl: i32,
    /// Interval before the review.
    pub last_ivl: i32,
    /// Ease factor after the review.
    pub factor: i32,
    /// Time taken to answer, in milliseconds.
    pub time: i32,
    /// Kind of review: learning, review, relearning or cramming.
    pub review_type: i32,
    /// Update sequence number.
    pub usn: i32,
}

/// A card of a note: the template it comes from, and its scheduling state.
/// Absent review fields take the values of a new card when written.
#[derive(Debug, Clone)]
pub struct Card {
    /// Position of the card's template in its note's model.
    pub ord: i64,
    pub suspend: bool,
    pub reps: Option<i32>,
    pub lapses: Option<i32>,
    pub ivl: Option<i32>,
    pub due: Option<i64>,
    pub factor: Option<i32>,
    pub card_type: Option<i32>,
    pub queue: Option<i32>,
    pub left: Option<i32>,
    pub review_history: Vec<RevlogEntry>,
    pub data: Option<String>,
    /// An id to use instead of an automatically assigned one.
    pub custom_card_id: Option<i64>,
    /// Update sequence number; -1 means not yet synced.
    pub usn: i32,
}

/// An optional review field, or the new-card value 0.
pub open spec fn or_zero(x: Option<i32>) -> int {
    match x {
        Some(v) => v as int,
        None => 0,
    }
}

/// The queue a card is written with: -1 when suspended, else the given queue or 0.
pub open spec fn queue_of(c: Card) -> int {
    if c.suspend {
        -1
    } else {
        or_zero(c.queue)
    }
}

/// The text of a card's free-form data, empty when it has none.
pub open spec fn data_of(c: Card) -> Seq<char> {
    match c.data {
        Some(d) => d@,
        None => Seq::empty(),
    }
}

/// `r` is the row of card `c` with id `id`, in note `nid` and deck `did`,
/// modified at `mtime`.
pub open spec fn is_card_row(r: CardRow, c: Card, id: int, nid: int, did: int, mtime: int) -> bool {
    &&& r.id == id
    &&& r.nid == nid
    &&& r.did == did
    &&& r.ord == c.ord
    &&& r.mtime == mtime
    &&& r.usn == c.usn
    &&& r.card_type == or_zero(c.card_type)
    &&& r.queue == queue_of(c)
    &&& r.due == (match c.due {
        Some(d) => d as int,
        None => 0,
    })
    &&& r.ivl == or_zero(c.ivl)
    &&& r.factor == or_zero(c.factor)
    &&& r.reps == or_zero(c.reps)
    &&& r.lapses == or_zero(c.lapses)
    &&& r.left == or_zero(c.left)
    &&& r.odue == 0
    &&& r.odid == 0
    &&& r.flags == 0
    &&& r.data@ == data_of(c)
}

/// The review-log row of entry `e` of the card with id `cid`.
pub open spec fn revlog_row_of(e: RevlogEntry, cid: i64) -> RevlogRow {
    RevlogRow {
        id: e.id,
        cid,
        usn: e.usn as i64,
        ease: e.ease as i64,
        ivl: e.ivl as i64,
        last_ivl: e.last_ivl as i64,
        factor: e.factor as i64,
        time: e.time as i64,
        review_type: e.review_type as i64,
    }
}

/// The review-log rows of a history, in the order given.
pub open spec fn revlog_rows_of(h: Seq<RevlogEntry>, cid: i64) -> Seq<RevlogRow> {
    h.map_values(|e: RevlogEntry| revlog_row_of(e, cid))
}

/// The id a card is written with, given the allocator's next id: its own id
/// when it has one, else the allocator's.
pub open spec fn card_id_of(c: Card, upcoming: int) -> int {
    match c.custom_card_id {
        Some(id) => id as int,
        None => upcoming,
    }
}

/// How far a card moves the allocator: not at all when it has its own id.
pub open spec fn card_ids_used(c: Card) -> int {
    if c.custom_card_id is Some {
        0
    } else {
        1
    }
}

impl RevlogEntry {
    /// The row of this entry for the card with id `cid`.
    pub fn to_row(&self, cid: i64) -> (r: RevlogRow)
        ensures
            r == revlog_row_of(*self, cid),
    {
        RevlogRow {
            id: self.id,
            cid,
            usn: self.usn as i64,
            ease: self.ease as i64,
            ivl: self.ivl as i64,
            last_ivl: self.last_ivl as i64,
            factor: self.factor as i64,
            time: self.time as i64,
            review_type: self.review_type as i64,
        }
    }
}

impl Card {
    /// A new card for template `ord`, with no review data.
    pub fn new(ord: i64, suspend: bool) -> (r: Card)
        ensures
            r.ord == ord,
            r.suspend == suspend,
            r.reps is None,
            r.lapses is None,
            r.ivl is None,
            r.due is None,
            r.factor is None,
            r.card_type is None,
            r.queue is None,
            r.left is None,
            r.review_history@.len() == 0,
            r.data is None,
            r.custom_card_id is None,
            r.usn == -1,
    {
        Card {
            ord,
            suspend,
            reps: None,
            lapses: None,
            ivl: None,
            due: None,
            factor: None,
            card_type: None,
            queue: None,
            left: None,
            review_history: Vec::new(),
            data: None,
            custom_card_id: None,
            usn: -1,
        }
    }

    /// A card that already has a learning state.
    pub fn new_with_review_data(
        ord: i64,
        suspend: bool,
        reps: i32,
        lapses: i32,
        ivl: i32,
        due: i64,
        factor: i32,
        card_type: i32,
        queue: i32,
        left: i32,
    ) -> (r: Card)
        ensures
            r.ord == ord,
            r.suspend == suspend,
            r.reps == Some(reps),
            r.lapses == Some(lapses),
            r.ivl == Some(ivl),
            r.due == Some(due),
            r.factor == Some(factor),
            r.card_type == Some(card_type),
            r.queue == Some(queue),
            r.left == Some(left),
            r.review_history@.len() == 0,
            r.data is None,
            r.custom_card_id is None,
            r.usn == -1,
    {
        Card {
            ord,
            suspend,
            reps: Some(reps),
            lapses: Some(lapses),
            ivl: Some(ivl),
            due: Some(due),
            factor: Some(factor),
            card_type: Some(card_type),
            queue: Some(queue),
            left: Some(left),
            review_history: Vec::new(),
            data: None,
            custom_card_id: None,
            usn: -1,
        }
    }

    /// A card with a learning state, its review history and free-form data.
    pub fn new_with_review_history(
        ord: i64,
        suspend: bool,
        reps: i32,
        lapses: i32,
        ivl: i32,
        due: i64,
        factor: i32,
        card_type: i32,
        queue: i32,
        left: i32,
        review_history: Vec<RevlogEntry>,
        data: Option<String>,
    ) -> (r: Card)
        ensures
            r.ord == ord,
            r.suspend == suspend,
            r.reps == Some(reps),
            r.lapses == Some(lapses),
            r.ivl == Some(ivl),
            r.due == Some(due),
            r.factor == Some(factor),
            r.card_type == Some(card_type),
            r.queue == Some(queue),
            r.left == Some(left),
            r.review_history@ == review_history@,
            r.data == data,
            r.custom_card_id is None,
            r.usn == -1,
    {
        Card {
            ord,
            suspend,
            reps: Some(reps),
            lapses: Some(lapses),
            ivl: Some(ivl),
            due: Some(due),
            factor: Some(factor),
            card_type: Some(card_type),
            queue: Some(queue),
            left: Some(left),
            review_history,
            data,
            custom_card_id: None,
            usn: -1,
        }
    }

    /// The same card with update sequence number `usn`, kept when re-exporting.
    pub fn set_usn(self, usn: i32) -> (r: Card)
        ensures
            r == (Card { usn, ..self }),
    {
        let mut c = self;
        c.usn = usn;
        c
    }

    /// The same card written under id `id` instead of an automatic one.
    pub fn set_custom_card_id(self, id: i64) -> (r: Card)
        ensures
            r == (Card { custom_card_id: Some(id), ..self }),
    {
        let mut c = self;
        c.custom_card_id = Some(id);
        c
    }

    /// Position of the card's template in its note's model.
    pub fn ord(&self) -> (r: i64)
        ensures
            r == self.ord,
    {
        self.ord
    }

    /// The row of this card under id `id`, in note `nid` and deck `did`,
    /// modified at `mtime` (seconds).
    pub fn to_row(&self, id: i64, nid: i64, did: i64, mtime: i64) -> (r: CardRow)
        ensures
            is_card_row(r, *self, id as int, nid as int, did as int, mtime as int),
    {
        let queue: i64 = if self.suspend {
            -1
        } else {
            match self.queue {
                Some(q) => q as i64,
                None => 0,
            }
        };
        let data = match &self.data {
            Some(d) => d.clone(),
            None => String::new(),
        };
        CardRow {
            id,
            nid,
            did,
            ord: self.ord,
            mtime,
            usn: self.usn as i64,
            card_type: opt_or_zero(self.card_type),
            queue,
            due: match self.due {
                Some(d) => d,
                None => 0,
            },
            ivl: opt_or_zero(self.ivl),
            factor: opt_or_zero(self.factor),
            reps: opt_or_zero(self.reps),
            lapses: opt_or_zero(self.lapses),
            left: opt_or_zero(self.left),
            odue: 0,
            odid: 0,
            flags: 0,
            data,
        }
    }

    /// The id this card is written with: its own when it has one, which
    /// leaves the allocator as it was; else the allocator's next id.
    pub fn resolve_id(&self, ids: &mut IdAllocator) -> (r: Option<i64>)
        ensures
            self.custom_card_id is Some ==> r == self.custom_card_id && final(ids).upcoming()
                == old(ids).upcoming(),
            self.custom_card_id is None ==> (old(ids).upcoming() < i64::MAX ==> r == Some(
                old(ids).upcoming(),
            ) && final(ids).upcoming() == old(ids).upcoming() + 1),
            self.custom_card_id is None ==> (old(ids).upcoming() == i64::MAX ==> r is None
                && final(ids).upcoming() == old(ids).upcoming()),
    {
        match self.custom_card_id {
            Some(id) => Some(id),
            None => ids.next_id(),
        }
    }

    /// Adds this card's row and the rows of its review history, in the order
    /// given, to `rows`. The card's id is its own or the allocator's next one.
    pub fn write_to_db(
        &self,
        rows: &mut Rows,
        mtime: i64,
        did: i64,
        nid: i64,
        ids: &mut IdAllocator,
    ) -> (r: Result<(), Error>)
        ensures
            r is Err <==> (self.custom_card_id is None && old(ids).upcoming() == i64::MAX),
            r is Err ==> *final(rows) == *old(rows) && final(ids).upcoming() == old(ids).upcoming(),
            r is Ok ==> ({
                let id = card_id_of(*self, old(ids).upcoming() as int);
                &&& final(ids).upcoming() == old(ids).upcoming() + card_ids_used(*self)
                &&& final(rows).notes@ == old(rows).notes@
                &&& final(rows).cards@.len() == old(rows).cards@.len() + 1
                &&& final(rows).cards@.drop_last() == old(rows).cards@
                &&& is_card_row(
                    final(rows).cards@.last(),
                    *self,
                    id,
                    nid as int,
                    did as int,
                    mtime as int,
                )
                &&& final(rows).revlog@ == old(rows).revlog@ + revlog_rows_of(
                    self.review_history@,
                    id as i64,
                )
            }),
    {
        let id = match self.resolve_id(ids) {
            Some(id) => id,
            None => {
                return Err(Error::IdsExhausted);
            },
        };
        let row = self.to_row(id, nid, did, mtime);
        rows.cards.push(row);
        let ghost before = rows.revlog@;
        let mut i: usize = 0;
        while i < self.review_history.len()
            invariant
                i <= self.review_history@.len(),
                rows.notes@ == old(rows).notes@,
                rows.cards@ == old(rows).cards@.push(row),
                before == old(rows).revlog@,
                rows.revlog@ == before + revlog_rows_of(
                    self.review_history@.subrange(0, i as int),
                    id,
                ),
            decreases self.review_history@.len() - i,
        {
            let e = self.review_history[i].to_row(id);
            rows.revlog.push(e);
            i = i + 1;
            assert(rows.revlog@ =~= before + revlog_rows_of(
                self.review_history@.subrange(0, i as int),
                id,
            ));
        }
        assert(self.review_history@.subrange(0, self.review_history@.len() as int)
            =~= self.review_history@);
        assert(rows.cards@.drop_last() =~= old(rows).cards@);
        Ok(())
    }
}

fn opt_or_zero(x: Option<i32>) -> (r: i64)
    ensures
        r == or_zero(x),
{
    match x {
        Some(v) => v as i64,
        None => 0,
    }
}

} // verus!
