//! The JSON blobs of the collection row: models, decks and deck configs keyed
//! by id, the first entry of an id winning.

use vstd::prelude::*;
use vstd::string::StringSliceAdditionalSpecFns;
use crate::deck::{deck_json_of, Deck};
use crate::entries::DeckConfigEntry;
use crate::json::{
    object_of, pairs_view, quoted_decimal, quoted_decimal_of, render_object,
};
use crate::note::{model_json_of, Note};

verus! {

/// The built-in collection configuration.
pub const DEFAULT_CONF: &'static str = "{\"activeDecks\": [1], \"addToCur\": true, \"collapseTime\": 1200, \"curDeck\": 1, \"curModel\": \"1607392319\", \"dueCounts\": true, \"estTimes\": true, \"newBury\": true, \"newSpread\": 0, \"nextPos\": 1, \"sortBackwards\": false, \"sortType\": \"noteFld\", \"timeLim\": 0}";

/// The built-in deck config, kept under id 1.
pub const DEFAULT_DECK_CONF: &'static str = "{\"autoplay\": true, \"id\": 1, \"lapse\": {\"delays\": [10], \"leechAction\": 0, \"leechFails\": 8, \"minInt\": 1, \"mult\": 0}, \"maxTaken\": 60, \"mod\": 0, \"name\": \"Default\", \"new\": {\"bury\": true, \"delays\": [1, 10], \"initialFactor\": 2500, \"ints\": [1, 4, 7], \"order\": 1, \"perDay\": 20, \"separate\": true}, \"replayq\": true, \"rev\": {\"bury\": true, \"ease4\": 1.3, \"fuzz\": 0.05, \"ivlFct\": 1, \"maxIvl\": 36500, \"minSpace\": 1, \"perDay\": 100}, \"timer\": 0, \"usn\": 0}";

/// The name of the deck that always exists, under id 1.
pub const DEFAULT_DECK_NAME: &'static str = "Default";

/// Some member of `es` has key `k`.
pub open spec fn has_key(es: Seq<(Seq<u8>, Seq<u8>)>, k: Seq<u8>) -> bool {
    exists|i: int| 0 <= i < es.len() && #[trigger] es[i].0 == k
}

/// The members of `es`, each key kept at its first occurrence only.
pub open spec fn first_of_each_key(es: Seq<(Seq<u8>, Seq<u8>)>) -> Seq<(Seq<u8>, Seq<u8>)>
    decreases es.len(),
{
    if es.len() == 0 {
        Seq::empty()
    } else {
        let p = first_of_each_key(es.drop_last());
        if has_key(es.drop_last(), es.last().0) {
            p
        } else {
            p.push(es.last())
        }
    }
}

/// The model descriptors that the notes of deck `d` offer, note by note.
pub open spec fn deck_model_candidates(d: Deck, mtime: i64) -> Seq<(Seq<u8>, Seq<u8>)> {
    d.notes@.map_values(
        |n: Note| (quoted_decimal_of(n.model.id as int), model_json_of(n.model, mtime, d.id)),
    )
}

/// The model descriptors that the notes of decks `ds` offer, deck by deck.
pub open spec fn model_candidates(ds: Seq<Deck>, mtime: i64) -> Seq<(Seq<u8>, Seq<u8>)>
    decreases ds.len(),
{
    if ds.len() == 0 {
        Seq::empty()
    } else {
        model_candidates(ds.drop_last(), mtime) + deck_model_candidates(ds.last(), mtime)
    }
}

/// The models blob: each model used by a note, once, described for the
/// first deck whose notes use it.
pub open spec fn models_json_of(ds: Seq<Deck>, mtime: i64) -> Seq<u8> {
    object_of(first_of_each_key(model_candidates(ds, mtime)))
}

/// The descriptor of the default deck.
pub open spec fn default_deck_json() -> Seq<u8> {
    deck_json_of(1, DEFAULT_DECK_NAME@, Seq::empty())
}

/// Each deck's descriptor under its id, then the default deck under id 1.
pub open spec fn deck_candidates(ds: Seq<Deck>) -> Seq<(Seq<u8>, Seq<u8>)> {
    ds.map_values(
        |d: Deck| (quoted_decimal_of(d.id as int), deck_json_of(d.id, d.name@, d.description@)),
    ).push((quoted_decimal_of(1), default_deck_json()))
}

/// The decks blob: each deck once by id, and the default deck when no deck
/// has id 1.
pub open spec fn decks_json_of(ds: Seq<Deck>) -> Seq<u8> {
    object_of(first_of_each_key(deck_candidates(ds)))
}

/// Each deck config's JSON under its id, then the built-in config under id 1.
pub open spec fn deck_conf_candidates(cs: Seq<DeckConfigEntry>) -> Seq<(Seq<u8>, Seq<u8>)> {
    cs.map_values(|c: DeckConfigEntry| (quoted_decimal_of(c.id as int), c.config_blob@)).push(
        (quoted_decimal_of(1), DEFAULT_DECK_CONF.spec_bytes()),
    )
}

/// The deck-config blob: each entry once by id, and the built-in config under
/// id 1 unless an entry has that id.
pub open spec fn deck_confs_json_of(cs: Seq<DeckConfigEntry>) -> Seq<u8> {
    object_of(first_of_each_key(deck_conf_candidates(cs)))
}

/// A key is among the kept members exactly when it is among all members.
pub proof fn lemma_first_of_each_key_keys(es: Seq<(Seq<u8>, Seq<u8>)>, k: Seq<u8>)
    ensures
        has_key(first_of_each_key(es), k) == has_key(es, k),
    decreases es.len(),
{
    if es.len() > 0 {
        let d = es.drop_last();
        lemma_first_of_each_key_keys(d, k);
        let p = first_of_each_key(d);
        if has_key(es, k) {
            let i = choose|i: int| 0 <= i < es.len() && #[trigger] es[i].0 == k;
            if i < es.len() - 1 {
                assert(d[i].0 == k);
                if !has_key(d, es.last().0) {
                    let j = choose|j: int| 0 <= j < p.len() && #[trigger] p[j].0 == k;
                    assert(p.push(es.last())[j].0 == k);
                }
            } else {
                if has_key(d, es.last().0) {
                } else {
                    assert(p.push(es.last())[p.len() as int].0 == k);
                }
            }
        }
        if has_key(first_of_each_key(es), k) {
            if !has_key(d, es.last().0) {
                let q = p.push(es.last());
                let j = choose|j: int| 0 <= j < q.len() && #[trigger] q[j].0 == k;
                if j < p.len() {
                    assert(p[j].0 == k);
                    let m = choose|m: int| 0 <= m < d.len() && #[trigger] d[m].0 == k;
                    assert(es[m].0 == k);
                } else {
                    assert(es[es.len() - 1].0 == k);
                }
            } else {
                let m = choose|m: int| 0 <= m < d.len() && #[trigger] d[m].0 == k;
                assert(es[m].0 == k);
            }
        }
    }
}

/// Byte strings compared element by element.
pub fn bytes_equal(a: &Vec<u8>, b: &Vec<u8>) -> (r: bool)
    ensures
        r == (a@ == b@),
{
    if a.len() != b.len() {
        return false;
    }
    let mut i: usize = 0;
    while i < a.len()
        invariant
            a@.len() == b@.len(),
            i <= a@.len(),
            forall|j: int| 0 <= j < i ==> a@[j] == b@[j],
        decreases a@.len() - i,
    {
        if a[i] != b[i] {
            return false;
        }
        i = i + 1;
    }
    assert(a@ =~= b@);
    true
}

/// Whether some member of `es` has key `k`.
pub fn contains_key(es: &Vec<(Vec<u8>, Vec<u8>)>, k: &Vec<u8>) -> (r: bool)
    ensures
        r == has_key(pairs_view(es@), k@),
{
    let mut i: usize = 0;
    while i < es.len()
        invariant
            i <= es@.len(),
            forall|j: int| 0 <= j < i ==> #[trigger] es@[j].0@ != k@,
        decreases es@.len() - i,
    {
        if bytes_equal(&es[i].0, k) {
            assert(pairs_view(es@)[i as int].0 == k@);
            return true;
        }
        i = i + 1;
    }
    assert forall|j: int| 0 <= j < pairs_view(es@).len() implies #[trigger] pairs_view(
        es@,
    )[j].0 != k@ by {
        assert(es@[j].0@ != k@);
    }
    false
}

/// Adds the member `k: v` unless `out` has key `k` already.
fn add_if_new(out: &mut Vec<(Vec<u8>, Vec<u8>)>, k: Vec<u8>, v: Vec<u8>, Ghost(seen): Ghost<
    Seq<(Seq<u8>, Seq<u8>)>,
>)
    requires
        pairs_view(old(out)@) == first_of_each_key(seen),
    ensures
        pairs_view(final(out)@) == first_of_each_key(seen.push((k@, v@))),
{
    proof {
        lemma_first_of_each_key_keys(seen, k@);
        assert(seen.push((k@, v@)).drop_last() =~= seen);
    }
    if !contains_key(out, &k) {
        let ghost before = out@;
        out.push((k, v));
        assert(pairs_view(out@) =~= pairs_view(before).push((k@, v@)));
    }
}

/// The models blob of decks `ds` written at time `mtime` (seconds).
pub fn models_json(ds: &Vec<Deck>, mtime: i64) -> (r: Vec<u8>)
    ensures
        r@ == models_json_of(ds@, mtime),
{
    let mut out: Vec<(Vec<u8>, Vec<u8>)> = Vec::new();
    let mut i: usize = 0;
    assert(model_candidates(ds@.take(0), mtime) =~= Seq::empty());
    assert(pairs_view(out@) =~= first_of_each_key(Seq::empty()));
    while i < ds.len()
        invariant
            i <= ds@.len(),
            pairs_view(out@) == first_of_each_key(model_candidates(ds@.take(i as int), mtime)),
        decreases ds@.len() - i,
    {
        let d = &ds[i];
        let ghost pre = model_candidates(ds@.take(i as int), mtime);
        let ghost mine = deck_model_candidates(*d, mtime);
        let mut j: usize = 0;
        assert(pre + mine.take(0) =~= pre);
        while j < d.notes.len()
            invariant
                j <= d.notes@.len(),
                mine == deck_model_candidates(*d, mtime),
                mine.len() == d.notes@.len(),
                pairs_view(out@) == first_of_each_key(pre + mine.take(j as int)),
            decreases d.notes@.len() - j,
        {
            let n = &d.notes[j];
            let k = quoted_decimal(n.model.id);
            if !contains_key(&out, &k) {
                let v = n.model.to_db_entry(mtime, d.id);
                proof {
                    lemma_first_of_each_key_keys(pre + mine.take(j as int), k@);
                    assert((pre + mine.take(j + 1)).drop_last() =~= pre + mine.take(j as int));
                    assert(mine[j as int] == (k@, v@));
                }
                let ghost before = out@;
                out.push((k, v));
                assert(pairs_view(out@) =~= pairs_view(before).push(
                    (pre + mine.take(j + 1)).last(),
                ));
            } else {
                proof {
                    lemma_first_of_each_key_keys(pre + mine.take(j as int), k@);
                    assert((pre + mine.take(j + 1)).drop_last() =~= pre + mine.take(j as int));
                    assert(mine[j as int].0 == k@);
                }
            }
            j = j + 1;
        }
        proof {
            assert(mine.take(mine.len() as int) =~= mine);
            assert(ds@.take(i + 1).drop_last() =~= ds@.take(i as int));
        }
        i = i + 1;
    }
    assert(ds@.take(ds@.len() as int) =~= ds@);
    render_object(&out)
}

/// The decks blob of decks `ds`.
pub fn decks_json(ds: &Vec<Deck>) -> (r: Vec<u8>)
    ensures
        r@ == decks_json_of(ds@),
{
    let ghost all = deck_candidates(ds@);
    let mut out: Vec<(Vec<u8>, Vec<u8>)> = Vec::new();
    let mut i: usize = 0;
    assert(pairs_view(out@) =~= first_of_each_key(all.take(0)));
    while i < ds.len()
        invariant
            i <= ds@.len(),
            all == deck_candidates(ds@),
            all.len() == ds@.len() + 1,
            pairs_view(out@) == first_of_each_key(all.take(i as int)),
        decreases ds@.len() - i,
    {
        let k = quoted_decimal(ds[i].id);
        let v = ds[i].to_json();
        assert(all.take(i + 1) =~= all.take(i as int).push((k@, v@)));
        add_if_new(&mut out, k, v, Ghost(all.take(i as int)));
        i = i + 1;
    }
    let k = quoted_decimal(1);
    let default_deck = Deck::new(1, DEFAULT_DECK_NAME, "");
    let v = default_deck.to_json();
    proof {
        reveal_strlit("");
        assert(default_deck.description@ =~= Seq::<char>::empty());
    }
    assert(all =~= all.take(i as int).push((k@, v@)));
    add_if_new(&mut out, k, v, Ghost(all.take(i as int)));
    render_object(&out)
}

/// The deck-config blob of deck config entries `cs`.
pub fn deck_confs_json(cs: &Vec<DeckConfigEntry>) -> (r: Vec<u8>)
    ensures
        r@ == deck_confs_json_of(cs@),
{
    let ghost all = deck_conf_candidates(cs@);
    let mut out: Vec<(Vec<u8>, Vec<u8>)> = Vec::new();
    let mut i: usize = 0;
    assert(pairs_view(out@) =~= first_of_each_key(all.take(0)));
    while i < cs.len()
        invariant
            i <= cs@.len(),
            all == deck_conf_candidates(cs@),
            all.len() == cs@.len() + 1,
            pairs_view(out@) == first_of_each_key(all.take(i as int)),
        decreases cs@.len() - i,
    {
        let k = quoted_decimal(cs[i].id);
        let v = copy_bytes(&cs[i].config_blob);
        assert(all.take(i + 1) =~= all.take(i as int).push((k@, v@)));
        add_if_new(&mut out, k, v, Ghost(all.take(i as int)));
        i = i + 1;
    }
    let k = quoted_decimal(1);
    let v = bytes_of(DEFAULT_DECK_CONF);
    assert(all =~= all.take(i as int).push((k@, v@)));
    add_if_new(&mut out, k, v, Ghost(all.take(i as int)));
    render_object(&out)
}

/// A copy of `b`.
pub fn copy_bytes(b: &Vec<u8>) -> (r: Vec<u8>)
    ensures
        r@ == b@,
{
    let mut r: Vec<u8> = Vec::new();
    crate::json::push_all(&mut r, b.as_slice());
    r
}

/// The UTF-8 bytes of `s`.
pub fn bytes_of(s: &str) -> (r: Vec<u8>)
    ensures
        r@ == s.spec_bytes(),
{
    let mut r: Vec<u8> = Vec::new();
    crate::json::push_all(&mut r, s.as_bytes());
    r
}

} // verus!

verus! {

/// The decks blob always has a member under id 1; when no deck has id 1,
/// that member is the descriptor of the deck named `Default`.
pub proof fn lemma_default_deck_present(ds: Seq<Deck>)
    ensures
        has_key(first_of_each_key(deck_candidates(ds)), quoted_decimal_of(1)),
        (forall|i: int| 0 <= i < ds.len() ==> (#[trigger] ds[i]).id != 1) ==> first_of_each_key(
            deck_candidates(ds),
        ).last() == (quoted_decimal_of(1), default_deck_json()),
{
    let cs = deck_candidates(ds);
    assert(cs[cs.len() - 1].0 == quoted_decimal_of(1));
    lemma_first_of_each_key_keys(cs, quoted_decimal_of(1));
    if forall|i: int| 0 <= i < ds.len() ==> (#[trigger] ds[i]).id != 1 {
        assert(cs.drop_last() == ds.map_values(
            |d: Deck| (quoted_decimal_of(d.id as int), deck_json_of(d.id, d.name@, d.description@)),
        ));
        if has_key(cs.drop_last(), quoted_decimal_of(1)) {
            let j = choose|j: int|
                0 <= j < cs.drop_last().len() && #[trigger] cs.drop_last()[j].0 == quoted_decimal_of(
                    1,
                );
            crate::json::lemma_decimal_injective(ds[j].id as int, 1);
        }
    }
}

} // verus!
