use apkg_writer::{
    Card, CollectionOverrides, ConfigEntry, Deck, DeckConfigEntry, EntryContent, Error,
    GraveEntry, Model, Note, Package, RevlogEntry, SchemaVersion, Table,
};

fn text(b: &[u8]) -> String {
    String::from_utf8(b.to_vec()).unwrap()
}

fn basic_model(templates: usize) -> Model {
    let names: Vec<String> = (0..templates).map(|i| format!("Card {}", i + 1)).collect();
    Model::new(
        1607392319,
        "Basic",
        vec!["Front".to_string(), "Back".to_string()],
        names,
    )
}

fn note_with(card: Card) -> Note {
    Note::with_cards(
        basic_model(1),
        vec!["Q".to_string(), "A".to_string()],
        "guid0",
        "Q",
        42,
        vec![card],
    )
}

fn one_card_package(card: Card, version: u32) -> Package {
    let mut deck = Deck::new(1, "D", "");
    deck.add_note(note_with(card));
    let mut p = Package::new(vec![deck], vec![]).unwrap();
    p.set_schema_version(version);
    p
}

#[test]
fn new_card_defaults_at_version_18() {
    let p = one_card_package(Card::new(0, false), 18);
    let img = p.write(1_700_000_000_123).unwrap();
    assert_eq!(img.rows.cards.len(), 1);
    let c = &img.rows.cards[0];
    assert_eq!(c.queue, 0);
    assert_eq!(c.card_type, 0);
    assert_eq!(c.ivl, 0);
    assert_eq!(c.factor, 0);
    assert_eq!(c.reps, 0);
    assert_eq!(c.lapses, 0);
    assert_eq!(c.left, 0);
    assert_eq!(c.odue, 0);
    assert_eq!(c.odid, 0);
    assert_eq!(c.due, 0);
    assert_eq!(c.usn, -1);
    assert_eq!(c.did, 1);
    assert_eq!(c.mtime, 1_700_000_000);
    assert_eq!(c.data, "");
    assert_eq!(img.collection.ver, 18);
    assert_eq!(img.schema, SchemaVersion::Modern);
}

#[test]
fn suspended_card_has_queue_minus_one() {
    let card = Card::new_with_review_data(0, true, 3, 1, 10, 500, 2500, 2, 2, 0);
    let p = one_card_package(card, 18);
    let img = p.write(1_000).unwrap();
    assert_eq!(img.rows.cards[0].queue, -1);
    assert_eq!(img.rows.cards[0].reps, 3);
    assert_eq!(img.rows.cards[0].factor, 2500);
    assert_eq!(img.rows.cards[0].due, 500);
}

#[test]
fn suspended_flag_wins_over_queue() {
    let mut card = Card::new(0, true);
    card.queue = Some(3);
    let row = card.to_row(7, 8, 9, 10);
    assert_eq!(row.queue, -1);
    card.suspend = false;
    assert_eq!(card.to_row(7, 8, 9, 10).queue, 3);
}

#[test]
fn ids_follow_the_timestamp_and_are_unique() {
    let mut d1 = Deck::new(10, "A", "");
    let mut d2 = Deck::new(20, "B", "");
    d1.add_note(Note::new(basic_model(2), vec!["a".into(), "b".into()], "g1", "a", 1));
    d1.add_note(Note::new(basic_model(3), vec!["c".into(), "d".into()], "g2", "c", 2));
    d2.add_note(Note::new(basic_model(1), vec!["e".into(), "f".into()], "g3", "e", 3));
    let p = Package::new(vec![d1, d2], vec![]).unwrap();
    let img = p.write(5_000).unwrap();
    assert_eq!(img.rows.notes.len(), 3);
    assert_eq!(img.rows.cards.len(), 2 + 3 + 1);
    let mut ids: Vec<i64> = img.rows.notes.iter().map(|n| n.id).collect();
    ids.extend(img.rows.cards.iter().map(|c| c.id));
    let mut sorted = ids.clone();
    sorted.sort();
    sorted.dedup();
    assert_eq!(sorted.len(), ids.len());
    assert_eq!(img.rows.notes[0].id, 5_000);
    assert_eq!(img.rows.cards[0].id, 5_001);
    assert_eq!(img.rows.cards[1].id, 5_002);
    assert_eq!(img.rows.notes[1].id, 5_003);
    assert_eq!(img.rows.cards[5].did, 20);
    assert_eq!(img.rows.cards[4].ord, 2);
    assert_eq!(img.rows.notes[2].flds, "e\u{1f}f");
}

#[test]
fn custom_card_id_is_used_and_does_not_advance() {
    let mut deck = Deck::new(1, "D", "");
    let custom = Card::new(0, false).set_custom_card_id(424242);
    let auto = Card::new(1, false);
    deck.add_note(Note::with_cards(
        basic_model(2),
        vec!["x".into(), "y".into()],
        "g",
        "x",
        0,
        vec![custom, auto],
    ));
    let p = Package::new(vec![deck], vec![]).unwrap();
    let img = p.write(9_000).unwrap();
    assert_eq!(img.rows.notes[0].id, 9_000);
    assert_eq!(img.rows.cards[0].id, 424242);
    assert_eq!(img.rows.cards[1].id, 9_001);
}

#[test]
fn review_history_rows_follow_the_card() {
    let h = vec![
        RevlogEntry { id: 300, ease: 3, ivl: 4, last_ivl: 1, factor: 2500, time: 6000, review_type: 1, usn: -1 },
        RevlogEntry { id: 100, ease: 1, ivl: 1, last_ivl: 0, factor: 2300, time: 9000, review_type: 0, usn: 5 },
    ];
    let card = Card::new_with_review_history(0, false, 2, 0, 4, 20, 2500, 2, 2, 0, h, Some("{\"s\":1}".into()));
    let p = one_card_package(card, 11);
    let img = p.write(2_000).unwrap();
    let cid = img.rows.cards[0].id;
    assert_eq!(img.rows.cards[0].data, "{\"s\":1}");
    assert_eq!(img.rows.revlog.len(), 2);
    assert_eq!(img.rows.revlog[0].id, 300);
    assert_eq!(img.rows.revlog[1].id, 100);
    assert_eq!(img.rows.revlog[1].usn, 5);
    assert!(img.rows.revlog.iter().all(|r| r.cid == cid));
}

#[test]
fn duplicate_graves_fail_only_when_keyed() {
    let mut p = one_card_package(Card::new(0, false), 18);
    p.add_grave_entry(GraveEntry { oid: 5, kind: 1, usn: -1 });
    p.add_grave_entry(GraveEntry { oid: 5, kind: 1, usn: 3 });
    assert!(matches!(p.write(1_000), Err(Error::Database(_))));
    p.set_schema_version(17);
    assert!(p.write(1_000).is_ok());
    p.set_schema_version(18);
    p.graves[1].kind = 2;
    assert!(p.write(1_000).is_ok());
}

#[test]
fn grave_columns_depend_on_version() {
    let g = GraveEntry { oid: 5, kind: 1, usn: -1 };
    assert_eq!(g.columns(SchemaVersion::Modern), [5, 1, -1]);
    assert_eq!(g.columns(SchemaVersion::Mid), [-1, 5, 1]);
}

#[test]
fn legacy_blobs_are_empty_from_version_16() {
    let mut d = Deck::new(7, "X", "");
    d.add_note(Note::new(basic_model(1), vec!["a".into(), "b".into()], "g", "a", 0));
    for v in [16u32, 17, 18, 30] {
        let mut p = Package::new(vec![d.clone(), Deck::new(8, "Y", "")], vec![]).unwrap();
        p.set_schema_version(v);
        let col = p.write(1_000).unwrap().collection;
        assert_eq!(col.conf, b"{}");
        assert_eq!(col.models, b"{}");
        assert_eq!(col.decks, b"{}");
        assert_eq!(col.dconf, b"{}");
    }
    let mut p = Package::new(vec![d], vec![]).unwrap();
    p.set_schema_version(15);
    let col = p.write(1_000).unwrap().collection;
    assert_ne!(col.decks, b"{}");
    assert!(text(&col.conf).starts_with("{\"activeDecks\": [1]"));
}

#[test]
fn default_deck_is_always_present() {
    let p = Package::new(vec![Deck::new(1234, "Mine", "about")], vec![]).unwrap();
    let col = p.write(1_000).unwrap().collection;
    let decks = text(&col.decks);
    assert_eq!(
        decks,
        "{\"1234\":{\"collapsed\":false,\"conf\":1,\"desc\":\"about\",\"dyn\":0,\"extendNew\":10,\"extendRev\":50,\"id\":1234,\"lrnToday\":[0,0],\"mod\":0,\"name\":\"Mine\",\"newToday\":[0,0],\"revToday\":[0,0],\"timeToday\":[0,0],\"usn\":-1},\"1\":{\"collapsed\":false,\"conf\":1,\"desc\":\"\",\"dyn\":0,\"extendNew\":10,\"extendRev\":50,\"id\":1,\"lrnToday\":[0,0],\"mod\":0,\"name\":\"Default\",\"newToday\":[0,0],\"revToday\":[0,0],\"timeToday\":[0,0],\"usn\":-1}}"
    );
}

#[test]
fn deck_one_replaces_the_default() {
    let p = Package::new(vec![Deck::new(1, "Own", "")], vec![]).unwrap();
    let decks = text(&p.write(1_000).unwrap().collection.decks);
    assert!(decks.contains("\"name\":\"Own\""));
    assert!(!decks.contains("Default"));
    assert_eq!(decks.matches("\"1\":").count(), 1);
}

#[test]
fn models_blob_lists_each_model_once() {
    let mut d1 = Deck::new(3, "A", "");
    let mut d2 = Deck::new(4, "B", "");
    d1.add_note(Note::new(basic_model(1), vec!["a".into(), "b".into()], "g1", "a", 0));
    d2.add_note(Note::new(basic_model(1), vec!["c".into(), "d".into()], "g2", "c", 0));
    let p = Package::new(vec![d1, d2], vec![]).unwrap();
    let models = text(&p.write(4_500).unwrap().collection.models);
    assert_eq!(
        models,
        "{\"1607392319\":{\"did\":3,\"flds\":[\"Front\",\"Back\"],\"id\":1607392319,\"mod\":4,\"name\":\"Basic\",\"tmpls\":[\"Card 1\"],\"usn\":-1}}"
    );
}

#[test]
fn deck_configs_merge_with_the_default() {
    let mut p = one_card_package(Card::new(0, false), 12);
    p.add_deck_config_entry(DeckConfigEntry {
        id: 5,
        name: "Fast".into(),
        mtime_secs: 0,
        usn: 0,
        config_blob: b"{\"x\":1}".to_vec(),
    });
    let dconf = text(&p.write(1_000).unwrap().collection.dconf);
    assert!(dconf.starts_with("{\"5\":{\"x\":1},\"1\":{\"autoplay\": true"));
}

#[test]
fn collection_row_times_and_overrides() {
    let mut p = one_card_package(Card::new(0, false), 11);
    let col = p.write(1_234_567).unwrap().collection;
    assert_eq!(col.crt, 1_234);
    assert_eq!(col.mtime, 1_234_567);
    assert_eq!(col.scm, 1_234_567);
    assert_eq!(col.usn, -1);
    assert_eq!(col.ls, 0);
    assert_eq!(col.dty, 0);
    assert_eq!(col.tags, b"{}");
    let mut o = CollectionOverrides::none();
    o.crt = Some(99);
    o.scm = Some(77);
    o.usn = Some(4);
    o.ls = Some(8);
    o.decks = Some(b"{\"9\":{}}".to_vec());
    p.set_overrides(o);
    let col = p.write(1_234_567).unwrap().collection;
    assert_eq!((col.crt, col.scm, col.usn, col.ls), (99, 77, 4, 8));
    assert_eq!(col.decks, b"{\"9\":{}}");
}

#[test]
fn tags_blob_comes_from_the_last_tags_config() {
    let mut p = one_card_package(Card::new(0, false), 18);
    for (key, val) in [("tags", "{\"a\":1}"), ("other", "x"), ("tags", "{\"b\":2}")] {
        p.add_config_entry(ConfigEntry { key: key.into(), usn: 0, mtime_secs: 0, val: val.as_bytes().to_vec() });
    }
    assert_eq!(p.write(1_000).unwrap().collection.tags, b"{\"b\":2}");
}

#[test]
fn side_entries_need_version_12() {
    let mut p = one_card_package(Card::new(0, false), 11);
    p.add_config_entry(ConfigEntry { key: "k".into(), usn: 0, mtime_secs: 0, val: vec![] });
    assert!(matches!(p.write(1_000), Err(Error::Database(_))));
    p.set_schema_version(12);
    let img = p.write(1_000).unwrap();
    assert!(img.tables.contains(&Table::Config));
}

#[test]
fn tables_by_version() {
    assert_eq!(SchemaVersion::from_number(11).tables().len(), 5);
    assert_eq!(SchemaVersion::from_number(12).tables().len(), 12);
    assert_eq!(SchemaVersion::from_number(16), SchemaVersion::PreModern);
    assert!(Table::Graves.ddl(SchemaVersion::Modern).contains("PRIMARY KEY (oid, type)"));
    assert!(!Table::Graves.ddl(SchemaVersion::PreModern).contains("PRIMARY KEY"));
    assert!(Table::Graves.ddl(SchemaVersion::Legacy).starts_with("CREATE TABLE graves (\n    usn"));
}

#[test]
fn ids_run_out_at_the_end_of_i64() {
    let p = one_card_package(Card::new(0, false), 11);
    assert!(matches!(p.write(i64::MAX), Err(Error::IdsExhausted)));
    assert!(matches!(p.write(i64::MAX - 1), Err(Error::IdsExhausted)));
    assert!(p.write(i64::MAX - 2).is_ok());
}

#[test]
fn media_manifest_and_entries_agree() {
    let mut p = Package::new(vec![], vec!["sound.mp3", "images/image.jpg"]).unwrap();
    p.add_media_bytes("inline \"x\".png", vec![1, 2, 3]);
    let img = p.write(1_000).unwrap();
    assert_eq!(
        text(&img.manifest),
        "{\"0\":\"sound.mp3\",\"1\":\"image.jpg\",\"2\":\"inline \\\"x\\\".png\"}"
    );
    assert_eq!(img.entries.len(), 5);
    assert_eq!(img.entries[0].name, b"collection.anki2");
    assert_eq!(img.entries[0].content, EntryContent::Database);
    assert_eq!(img.entries[1].name, b"media");
    assert_eq!(img.entries[1].content, EntryContent::Manifest);
    for i in 0..3 {
        assert_eq!(img.entries[i + 2].name, i.to_string().into_bytes());
        assert_eq!(img.entries[i + 2].content, EntryContent::Media(i));
    }
}

#[test]
fn media_path_without_file_name_is_refused() {
    assert!(matches!(Package::new(vec![], vec!["a.mp3", ".."]), Err(Error::InvalidMediaPath(_))));
    assert!(matches!(Package::new(vec![], vec!["/"]), Err(Error::InvalidMediaPath(_))));
    assert!(Package::new(vec![], vec![]).unwrap().media_files.is_empty());
}
