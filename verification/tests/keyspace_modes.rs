use dx_cover_sync::keyspace::VariantKeySpace;

fn strings(v: &[&str]) -> Vec<String> {
    v.iter().map(|s| s.to_string()).collect()
}

#[test]
fn level_lookup_mode_strips_the_last_two_characters() {
    // Lookup keys as they come out of the level-lookup file
    // {"1_SongA_fd": 10.0, "1_SongB_td": 8.0}; the ratings play no part.
    let keys = strings(&["1_SongA_fd", "1_SongB_td", "5_SongC_fxy"]);
    let space = VariantKeySpace::from_level_keys(&keys);
    assert_eq!(space.len(), 3);
    assert!(space.contains_key("1_SongA_"));
    assert!(space.contains_key("1_SongB_"));
    assert!(space.contains_key("5_SongC_f"));
    assert!(!space.contains_key("1_SongA_fd"));
    assert!(!space.contains_key("1_SongB_td"));
}

#[test]
fn level_lookup_mode_drops_short_keys() {
    let keys = strings(&["ab", "x", "", "abc"]);
    let space = VariantKeySpace::from_level_keys(&keys);
    assert_eq!(space.len(), 1);
    assert!(space.contains_key("a"));
}

#[test]
fn versions_mode_takes_the_union_of_all_groups() {
    let groups = vec![
        strings(&["1_SongA_f", "1_SongB_t"]),
        strings(&["1_SongB_t", "2_SongC_f"]),
    ];
    let space = VariantKeySpace::from_versions(&groups);
    assert_eq!(space.len(), 3);
    assert!(space.contains_key("1_SongA_f"));
    assert!(space.contains_key("1_SongB_t"));
    assert!(space.contains_key("2_SongC_f"));
}

#[test]
fn insert_and_remove_track_membership() {
    let mut space = VariantKeySpace::new();
    assert_eq!(space.len(), 0);
    space.insert_key("5_SongA_f".to_string());
    space.insert_key("5_SongA_f".to_string());
    assert_eq!(space.len(), 1);
    assert!(space.contains_key("5_SongA_f"));
    space.remove_key("absent");
    assert_eq!(space.len(), 1);
    space.remove_key("5_SongA_f");
    assert_eq!(space.len(), 0);
    assert!(!space.contains_key("5_SongA_f"));
}

#[test]
fn remaining_reports_unclaimed_keys() {
    let mut space = VariantKeySpace::from_versions(&vec![strings(&["1_A_f", "1_B_t"])]);
    space.remove_key("1_A_f");
    let left = space.remaining();
    assert_eq!(left.len(), 1);
    assert_eq!(left[0], "1_B_t");
}
