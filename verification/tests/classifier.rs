use dx_cover_sync::category::catcode_to_category;
use dx_cover_sync::category::is_party_catcode;
use dx_cover_sync::category::song_title_fixes;
use dx_cover_sync::category::title_fix_table;
use dx_cover_sync::category::SyncError;

#[test]
fn known_catcodes_map_to_their_ids() {
    assert_eq!(catcode_to_category("POPS＆アニメ").unwrap(), 1);
    assert_eq!(catcode_to_category("niconico＆ボーカロイド").unwrap(), 2);
    assert_eq!(catcode_to_category("東方Project").unwrap(), 3);
    assert_eq!(catcode_to_category("ゲーム＆バラエティ").unwrap(), 4);
    assert_eq!(catcode_to_category("maimai").unwrap(), 5);
    assert_eq!(catcode_to_category("オンゲキ＆CHUNITHM").unwrap(), 6);
}

#[test]
fn unknown_catcode_is_an_error_naming_the_code() {
    let r = catcode_to_category("Jubeat");
    match r {
        Err(SyncError::UnknownCategory(code)) => assert_eq!(code, "Jubeat"),
        _ => panic!("an unknown category code must be rejected"),
    }
    assert!(catcode_to_category("").is_err());
    assert!(catcode_to_category("pops＆アニメ").is_err());
}

#[test]
fn party_catcode_is_recognized() {
    assert!(is_party_catcode("宴会場"));
    assert!(!is_party_catcode("maimai"));
    assert!(!is_party_catcode(""));
}

#[test]
fn title_fix_corrects_the_known_spelling() {
    assert_eq!(
        song_title_fixes("Bad Apple!! feat.nomico"),
        "Bad Apple!! feat nomico"
    );
}

#[test]
fn title_fix_leaves_other_titles_alone() {
    assert_eq!(song_title_fixes("SongA"), "SongA");
    assert_eq!(song_title_fixes(""), "");
    assert_eq!(
        song_title_fixes("Bad Apple!! feat nomico"),
        "Bad Apple!! feat nomico"
    );
}

#[test]
fn fix_table_holds_the_known_correction() {
    let t = title_fix_table();
    assert_eq!(t.len(), 1);
    assert_eq!(t[0].0, "Bad Apple!! feat.nomico");
    assert_eq!(t[0].1, "Bad Apple!! feat nomico");
}
