use apkg_writer::json::{decimal, quoted_decimal, render_array, render_object};
use apkg_writer::{Card, Deck, IdAllocator, Model, Note, RevlogEntry};

#[test]
fn card_constructors() {
    let c = Card::new(2, false);
    assert_eq!(c.ord(), 2);
    assert_eq!(c.usn, -1);
    assert!(c.reps.is_none() && c.queue.is_none() && c.custom_card_id.is_none());
    let c = c.set_usn(12);
    assert_eq!(c.usn, 12);
    let r = Card::new_with_review_data(1, false, 5, 2, 30, 100, 2300, 2, 2, 1);
    assert_eq!((r.reps, r.lapses, r.ivl, r.due), (Some(5), Some(2), Some(30), Some(100)));
    assert_eq!((r.factor, r.card_type, r.queue, r.left), (Some(2300), Some(2), Some(2), Some(1)));
    let e = RevlogEntry { id: 1, ease: 3, ivl: 1, last_ivl: 0, factor: 2500, time: 10, review_type: 0, usn: 0 };
    let h = Card::new_with_review_history(0, true, 1, 0, 1, 2, 2500, 1, 1, 0, vec![e], None);
    assert_eq!(h.review_history.len(), 1);
    assert!(h.suspend && h.data.is_none());
}

#[test]
fn allocator_counts_up() {
    let mut a = IdAllocator::new(10);
    assert_eq!(a.next_id(), Some(10));
    assert_eq!(a.next_id(), Some(11));
    assert_eq!(a.peek(), 12);
    let mut b = IdAllocator::new(i64::MAX);
    assert_eq!(b.next_id(), None);
    assert_eq!(b.peek(), i64::MAX);
}

#[test]
fn override_leaves_allocator_alone() {
    let mut a = IdAllocator::new(100);
    let c = Card::new(0, false).set_custom_card_id(7);
    assert_eq!(c.resolve_id(&mut a), Some(7));
    assert_eq!(a.peek(), 100);
    assert_eq!(Card::new(0, false).resolve_id(&mut a), Some(100));
    assert_eq!(a.next_id(), Some(101));
}

#[test]
fn decimal_text() {
    assert_eq!(decimal(0), b"0");
    assert_eq!(decimal(-45), b"-45");
    assert_eq!(decimal(i64::MIN), i64::MIN.to_string().into_bytes());
    assert_eq!(decimal(i64::MAX), i64::MAX.to_string().into_bytes());
    assert_eq!(quoted_decimal(1607392319), b"\"1607392319\"");
}

#[test]
fn objects_and_arrays() {
    assert_eq!(render_object(&vec![]), b"{}");
    assert_eq!(render_array(&vec![]), b"[]");
    let es = vec![(b"\"a\"".to_vec(), b"1".to_vec()), (b"\"b\"".to_vec(), b"[2]".to_vec())];
    assert_eq!(render_object(&es), b"{\"a\":1,\"b\":[2]}");
    assert_eq!(render_array(&vec![b"1".to_vec(), b"\"x\"".to_vec()]), b"[1,\"x\"]");
}

#[test]
fn deck_descriptor_escapes_text() {
    let d = Deck::new(5, "Say \"hi\"", "line\nbreak");
    let e = d.to_deck_db_entry();
    assert_eq!(e.conf, 1);
    assert_eq!(e.extend_new, 10);
    assert_eq!(e.extend_rev, 50);
    assert_eq!(e.usn, -1);
    assert!(!e.collapsed);
    let j = String::from_utf8(d.to_json()).unwrap();
    assert!(j.contains("\"name\":\"Say \\\"hi\\\"\""));
    assert!(j.contains("\"desc\":\"line\\nbreak\""));
}

#[test]
fn deck_models_are_kept_once_per_id() {
    let mut d = Deck::new(1, "D", "");
    d.add_model(Model::new(1, "A", vec![], vec![]));
    d.add_model(Model::new(2, "B", vec![], vec![]));
    d.add_model(Model::new(1, "C", vec![], vec![]));
    assert_eq!(d.models().len(), 2);
    assert_eq!(d.models()[0].name, "C");
    assert_eq!(d.models()[1].name, "B");
    d.add_note(Note::new(Model::new(3, "M", vec![], vec!["T".into()]), vec![], "g", "", 0));
    assert_eq!(d.notes().len(), 1);
}

#[test]
fn note_fans_out_by_template() {
    let m = Model::new(9, "M", vec!["F".into()], vec!["T1".into(), "T2".into(), "T3".into()]);
    let n = Note::new(m, vec!["v".into()], "g", "v", 11).set_tags(" t ");
    assert_eq!(n.model().id, 9);
    assert_eq!(n.cards.len(), 3);
    assert_eq!(n.cards[2].ord, 2);
    let row = n.to_row(50, 60);
    assert_eq!((row.id, row.mid, row.mtime, row.csum, row.usn), (50, 9, 60, 11, -1));
    assert_eq!(row.tags, " t ");
    assert_eq!(row.guid, "g");
    let j = String::from_utf8(n.model.to_db_entry(60, 4)).unwrap();
    assert_eq!(j, "{\"did\":4,\"flds\":[\"F\"],\"id\":9,\"mod\":60,\"name\":\"M\",\"tmpls\":[\"T1\",\"T2\",\"T3\"],\"usn\":-1}");
}
