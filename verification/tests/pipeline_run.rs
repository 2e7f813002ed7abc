use dx_cover_sync::category::SyncError;
use dx_cover_sync::info::InfoStore;
use dx_cover_sync::keyspace::VariantKeySpace;
use dx_cover_sync::pipeline::asset_sync_action;
use dx_cover_sync::pipeline::process_entry;
use dx_cover_sync::pipeline::AssetAction;
use dx_cover_sync::pipeline::CatalogEntry;
use dx_cover_sync::pipeline::EntryAction;

fn entry(catcode: &str, title: &str, standard: bool, deluxe: bool) -> CatalogEntry {
    CatalogEntry {
        artist: format!("artist of {title}"),
        catcode: catcode.to_string(),
        image_source_id: format!("{title}.png"),
        has_standard_chart: standard,
        has_deluxe_chart: deluxe,
        title: title.to_string(),
        title_kana: format!("kana of {title}"),
    }
}

fn space_of(keys: &[&str]) -> VariantKeySpace {
    let mut space = VariantKeySpace::new();
    for k in keys {
        space.insert_key(k.to_string());
    }
    space
}

#[test]
fn matched_entry_claims_key_upserts_and_names_the_asset() {
    let mut space = space_of(&["5_SongA_f"]);
    let mut store = InfoStore::new();
    let e = entry("maimai", "SongA", true, false);
    let r = process_entry(&mut space, &mut store, &e).unwrap();
    match r {
        EntryAction::Matched {
            asset_file,
            image_source_id,
        } => {
            assert_eq!(asset_file, "3fab3b62.png");
            assert_eq!(image_source_id, "SongA.png");
        }
        _ => panic!("the entry must match"),
    }
    assert!(!space.contains_key("5_SongA_f"));
    assert_eq!(space.len(), 0);
    let entries = store.entries();
    assert_eq!(entries.len(), 1);
    assert_eq!(entries[0].0, "5_SongA");
    assert_eq!(entries[0].1.artist, "artist of SongA");
    assert_eq!(entries[0].1.title_kana, "kana of SongA");
}

#[test]
fn unknown_category_aborts_and_changes_nothing() {
    let mut space = space_of(&["5_SongA_f"]);
    let mut store = InfoStore::new();
    store.upsert("5_Old".to_string(), "kept".to_string(), "kept".to_string());
    let e = entry("Jubeat", "SongA", true, false);
    let r = process_entry(&mut space, &mut store, &e);
    match r {
        Err(SyncError::UnknownCategory(code)) => assert_eq!(code, "Jubeat"),
        _ => panic!("an unknown category code must abort the run"),
    }
    assert_eq!(space.len(), 1);
    assert!(space.contains_key("5_SongA_f"));
    let entries = store.entries();
    assert_eq!(entries.len(), 1);
    assert_eq!(entries[0].0, "5_Old");
    assert_eq!(entries[0].1.artist, "kept");
}

#[test]
fn party_entry_is_skipped_without_classification() {
    let mut space = space_of(&["5_SongA_f"]);
    let mut store = InfoStore::new();
    let e = entry("宴会場", "SongA", true, true);
    let r = process_entry(&mut space, &mut store, &e).unwrap();
    assert!(matches!(r, EntryAction::SkippedParty));
    assert_eq!(space.len(), 1);
    assert_eq!(store.len(), 0);
}

#[test]
fn unmatched_entry_is_skipped_entirely() {
    let mut space = space_of(&["5_SongA_f"]);
    let mut store = InfoStore::new();
    let e = entry("maimai", "SongB", true, true);
    let r = process_entry(&mut space, &mut store, &e).unwrap();
    assert!(matches!(r, EntryAction::SkippedUnmatched));
    assert_eq!(space.len(), 1);
    assert_eq!(store.len(), 0);
}

#[test]
fn deluxe_chart_claims_the_t_key() {
    let mut space = space_of(&["5_SongA_t", "5_SongA_f"]);
    let mut store = InfoStore::new();
    let e = entry("maimai", "SongA", false, true);
    let r = process_entry(&mut space, &mut store, &e).unwrap();
    assert!(matches!(r, EntryAction::Matched { .. }));
    assert!(!space.contains_key("5_SongA_t"));
    assert!(space.contains_key("5_SongA_f"));
    assert_eq!(space.len(), 1);
}

#[test]
fn both_charts_claim_both_keys() {
    let mut space = space_of(&["5_SongA_t", "5_SongA_f", "5_SongB_f"]);
    let mut store = InfoStore::new();
    let e = entry("maimai", "SongA", true, true);
    let r = process_entry(&mut space, &mut store, &e).unwrap();
    assert!(matches!(r, EntryAction::Matched { .. }));
    assert_eq!(space.len(), 1);
    assert!(space.contains_key("5_SongB_f"));
}

#[test]
fn a_key_is_claimed_by_the_first_entry_only() {
    let mut space = space_of(&["5_SongA_f"]);
    let mut store = InfoStore::new();
    let first = entry("maimai", "SongA", true, false);
    let second = entry("maimai", "SongA", true, false);
    let r1 = process_entry(&mut space, &mut store, &first).unwrap();
    assert!(matches!(r1, EntryAction::Matched { .. }));
    let r2 = process_entry(&mut space, &mut store, &second).unwrap();
    assert!(matches!(r2, EntryAction::SkippedUnmatched));
    assert_eq!(space.len(), 0);
}

#[test]
fn title_fix_is_applied_before_matching() {
    let mut space = space_of(&["2_Bad Apple!! feat nomico_f"]);
    let mut store = InfoStore::new();
    let e = entry("niconico＆ボーカロイド", "Bad Apple!! feat.nomico", true, false);
    let r = process_entry(&mut space, &mut store, &e).unwrap();
    assert!(matches!(r, EntryAction::Matched { .. }));
    let entries = store.entries();
    assert_eq!(entries[0].0, "2_Bad Apple!! feat nomico");
}

#[test]
fn existing_asset_means_no_fetch() {
    assert_eq!(asset_sync_action(true), AssetAction::AlreadyPresent);
    assert_eq!(asset_sync_action(false), AssetAction::Fetch);
}

#[test]
fn second_run_on_unchanged_inputs_changes_nothing() {
    let catalog = vec![
        entry("maimai", "SongA", true, false),
        entry("POPS＆アニメ", "SongB", false, true),
        entry("maimai", "SongC", true, false),
    ];
    let keys = ["5_SongA_f", "1_SongB_t"];

    let mut space = space_of(&keys);
    let mut store = InfoStore::new();
    let mut fetched: Vec<String> = Vec::new();
    for e in &catalog {
        if let EntryAction::Matched { asset_file, .. } =
            process_entry(&mut space, &mut store, e).unwrap()
        {
            // First run: no asset exists yet, each match fetches.
            if asset_sync_action(fetched.contains(&asset_file)) == AssetAction::Fetch {
                fetched.push(asset_file);
            }
        }
    }
    assert_eq!(fetched.len(), 2);
    let first_entries = store.entries();

    // Second run: the key space is rebuilt from the same reference data and
    // the store continues from the persisted state.
    let mut space2 = space_of(&keys);
    let pairs = first_entries
        .iter()
        .map(|(k, v)| (k.clone(), v.clone()))
        .collect();
    let mut store2 = InfoStore::from_pairs(&pairs);
    let mut second_fetches = 0;
    for e in &catalog {
        if let EntryAction::Matched { asset_file, .. } =
            process_entry(&mut space2, &mut store2, e).unwrap()
        {
            if asset_sync_action(fetched.contains(&asset_file)) == AssetAction::Fetch {
                second_fetches += 1;
            }
        }
    }
    assert_eq!(second_fetches, 0);
    let second_entries = store2.entries();
    assert_eq!(first_entries.len(), second_entries.len());
    for (a, b) in first_entries.iter().zip(second_entries.iter()) {
        assert_eq!(a.0, b.0);
        assert_eq!(a.1.artist, b.1.artist);
        assert_eq!(a.1.title_kana, b.1.title_kana);
    }
}

#[test]
fn stopping_after_k_entries_leaves_exactly_k_upserts() {
    let catalog = vec![
        entry("maimai", "SongA", true, false),
        entry("maimai", "SongB", true, false),
        entry("maimai", "SongC", true, false),
    ];
    let keys = ["5_SongA_f", "5_SongB_f", "5_SongC_f"];
    for k in 0..catalog.len() {
        let mut space = space_of(&keys);
        let mut store = InfoStore::new();
        for e in catalog.iter().take(k) {
            process_entry(&mut space, &mut store, e).unwrap();
        }
        // The state persisted after the k-th write-back holds exactly the
        // upserts of the first k entries, in order.
        let entries = store.entries();
        assert_eq!(entries.len(), k);
        for (i, e) in catalog.iter().take(k).enumerate() {
            assert_eq!(entries[i].0, format!("5_{}", e.title));
            assert_eq!(entries[i].1.artist, e.artist);
        }
        assert_eq!(space.len(), keys.len() - k);
    }
}
