use dx_cover_sync::info::InfoRecord;
use dx_cover_sync::info::InfoStore;

fn rec(artist: &str, kana: &str) -> InfoRecord {
    InfoRecord {
        artist: artist.to_string(),
        title_kana: kana.to_string(),
    }
}

#[test]
fn upsert_appends_new_keys_in_order() {
    let mut store = InfoStore::new();
    assert_eq!(store.len(), 0);
    store.upsert("5_SongA".to_string(), "ArtistA".to_string(), "ソングA".to_string());
    store.upsert("5_SongB".to_string(), "ArtistB".to_string(), "ソングB".to_string());
    let entries = store.entries();
    assert_eq!(entries.len(), 2);
    assert_eq!(entries[0].0, "5_SongA");
    assert_eq!(entries[0].1.artist, "ArtistA");
    assert_eq!(entries[1].0, "5_SongB");
    assert_eq!(entries[1].1.title_kana, "ソングB");
}

#[test]
fn upsert_overwrites_in_place_and_keeps_the_order() {
    let mut store = InfoStore::new();
    store.upsert("5_SongA".to_string(), "old artist".to_string(), "old kana".to_string());
    store.upsert("5_SongB".to_string(), "ArtistB".to_string(), "kanaB".to_string());
    store.upsert("5_SongA".to_string(), "new artist".to_string(), "new kana".to_string());
    let entries = store.entries();
    assert_eq!(entries.len(), 2);
    assert_eq!(entries[0].0, "5_SongA");
    assert_eq!(entries[0].1.artist, "new artist");
    assert_eq!(entries[0].1.title_kana, "new kana");
    assert_eq!(entries[1].0, "5_SongB");
}

#[test]
fn upserts_never_shrink_the_store() {
    let mut store = InfoStore::new();
    let mut last = 0;
    for i in 0..5 {
        let key = if i % 2 == 0 { "even" } else { "odd" };
        store.upsert(key.to_string(), format!("artist {i}"), "kana".to_string());
        assert!(store.len() >= last);
        last = store.len();
    }
    assert_eq!(store.len(), 2);
}

#[test]
fn from_pairs_round_trips_an_existing_file() {
    let pairs = vec![
        ("1_B".to_string(), rec("b", "ビー")),
        ("1_A".to_string(), rec("a", "エー")),
    ];
    let store = InfoStore::from_pairs(&pairs);
    let out = store.entries();
    assert_eq!(out.len(), 2);
    assert_eq!(out[0].0, "1_B");
    assert_eq!(out[0].1.artist, "b");
    assert_eq!(out[1].0, "1_A");
    assert_eq!(out[1].1.title_kana, "エー");
}

#[test]
fn from_pairs_keeps_the_first_position_of_a_repeated_key() {
    let pairs = vec![
        ("k".to_string(), rec("first", "x")),
        ("other".to_string(), rec("o", "y")),
        ("k".to_string(), rec("second", "z")),
    ];
    let store = InfoStore::from_pairs(&pairs);
    let out = store.entries();
    assert_eq!(out.len(), 2);
    assert_eq!(out[0].0, "k");
    assert_eq!(out[0].1.artist, "second");
    assert_eq!(out[1].0, "other");
}
