use vstd::prelude::*;

use crate::addresser::asset_filename;
use crate::addresser::content_id;
use crate::addresser::spec_content_id;
use crate::category::catcode_to_category;
use crate::category::is_party_catcode;
use crate::category::song_title_fixes;
use crate::category::spec_category_of;
use crate::category::spec_is_party;
use crate::category::spec_title_fix;
use crate::category::SyncError;
use crate::info::has_entry_key;
use crate::info::spec_upsert;
use crate::info::InfoStore;
use crate::keys::info_key;
use crate::keys::lemma_variant_keys_distinct;
use crate::keys::spec_info_key;
use crate::keys::spec_variant_key;
use crate::keys::variant_key;
use crate::keyspace::VariantKeySpace;

verus! {

/// One catalog entry as the core sees it.  The chart flags say whether the
/// source lists a difficulty rating for the standard and the deluxe chart.
pub struct CatalogEntry {
    pub artist: String,
    pub catcode: String,
    pub image_source_id: String,
    pub has_standard_chart: bool,
    pub has_deluxe_chart: bool,
    pub title: String,
    pub title_kana: String,
}

/// What the per-entry pipeline decided.
pub enum EntryAction {
    /// The entry carries the excluded arcade-only/party category code and is
    /// ignored before classification.
    SkippedParty,
    /// No candidate variant key of the entry was present in the key space;
    /// no metadata or asset work is performed.
    SkippedUnmatched,
    /// The entry claimed at least one variant key.  Metadata was upserted;
    /// an asset under the returned file name is owed in the cover directory.
    Matched { asset_file: String, image_source_id: String },
}

/// How the key space changes when one entry claims its candidate keys.
pub open spec fn spec_space_after(
    space: Set<Seq<char>>,
    category: int,
    title: Seq<char>,
    has_standard: bool,
    has_deluxe: bool,
) -> Set<Seq<char>> {
    let kf = spec_variant_key(category, title, false);
    let kt = spec_variant_key(category, title, true);
    let with_f = if has_standard && space.contains(kf) {
        space.remove(kf)
    } else {
        space
    };
    if has_deluxe && space.contains(kt) {
        with_f.remove(kt)
    } else {
        with_f
    }
}

/// Matches one classified entry against the key space.  Each candidate key
/// that is present is claimed: removed exactly once, never to be claimed by
/// a later entry.  The space shrinks by exactly the number of claims.
pub fn reconcile_entry(
    space: &mut VariantKeySpace,
    category: i32,
    title: &str,
    has_standard: bool,
    has_deluxe: bool,
) -> (matched: bool)
    requires
        1 <= category <= 6,
    ensures
        ({
            let kf = spec_variant_key(category as int, title@, false);
            let kt = spec_variant_key(category as int, title@, true);
            let cf = has_standard && old(space)@.contains(kf);
            let ct = has_deluxe && old(space)@.contains(kt);
            &&& matched == (cf || ct)
            &&& final(space)@ == spec_space_after(
                old(space)@,
                category as int,
                title@,
                has_standard,
                has_deluxe,
            )
            &&& final(space)@.len() == old(space)@.len() - (if cf {
                1int
            } else {
                0int
            }) - (if ct {
                1int
            } else {
                0int
            })
        }),
{
    proof {
        lemma_variant_keys_distinct(category as int, title@);
    }
    let mut matched = false;
    if has_standard {
        let kf = variant_key(category, title, false);
        if space.contains_key(kf.as_str()) {
            space.remove_key(kf.as_str());
            matched = true;
        }
    }
    if has_deluxe {
        let kt = variant_key(category, title, true);
        if space.contains_key(kt.as_str()) {
            space.remove_key(kt.as_str());
            matched = true;
        }
    }
    matched
}

/// Drives one catalog entry through the whole pipeline: title
/// normalization, the party-category skip, classification, reconciliation,
/// and, for a matched entry, the metadata upsert and the derivation of the
/// content-addressed asset file name.  An unknown category code is fatal
/// and changes nothing.
pub fn process_entry(
    space: &mut VariantKeySpace,
    store: &mut InfoStore,
    entry: &CatalogEntry,
) -> (r: Result<EntryAction, SyncError>)
    ensures
        final(space)@ == spec_entry_space(old(space)@, *entry),
        final(store)@ == crate::info::apply_upserts(
            old(store)@,
            spec_entry_upserts(old(space)@, *entry),
        ),
        spec_is_party(entry.catcode@) ==> r == Ok::<EntryAction, SyncError>(
            EntryAction::SkippedParty,
        ) && final(space)@ == old(space)@ && final(store)@ == old(store)@,
        !spec_is_party(entry.catcode@) && spec_category_of(entry.catcode@) is None ==> (
        r matches Err(SyncError::UnknownCategory(bad)) && bad@ == entry.catcode@) && final(space)@
            == old(space)@ && final(store)@ == old(store)@,
        ({
            let title = spec_title_fix(entry.title@);
            let category = spec_category_of(entry.catcode@)->Some_0;
            (!spec_is_party(entry.catcode@) && spec_category_of(entry.catcode@) is Some) ==> {
                let kf = spec_variant_key(category as int, title, false);
                let kt = spec_variant_key(category as int, title, true);
                let cf = entry.has_standard_chart && old(space)@.contains(kf);
                let ct = entry.has_deluxe_chart && old(space)@.contains(kt);
                &&& final(space)@ == spec_space_after(
                    old(space)@,
                    category as int,
                    title,
                    entry.has_standard_chart,
                    entry.has_deluxe_chart,
                )
                &&& final(space)@.len() == old(space)@.len() - (if cf {
                    1int
                } else {
                    0int
                }) - (if ct {
                    1int
                } else {
                    0int
                })
                &&& !(cf || ct) ==> r == Ok::<EntryAction, SyncError>(
                    EntryAction::SkippedUnmatched,
                ) && final(store)@ == old(store)@
                &&& (cf || ct) ==> {
                    &&& final(store)@ == spec_upsert(
                        old(store)@,
                        spec_info_key(category as int, title),
                        entry.artist@,
                        entry.title_kana@,
                    )
                    &&& r matches Ok(
                        EntryAction::Matched { asset_file, image_source_id },
                    ) && asset_file@ == spec_content_id(category as int, title) + ".png"@
                        && image_source_id@ == entry.image_source_id@
                }
            }
        }),
{
    let title = song_title_fixes(entry.title.as_str());
    if is_party_catcode(entry.catcode.as_str()) {
        return Ok(EntryAction::SkippedParty);
    }
    let category = match catcode_to_category(entry.catcode.as_str()) {
        Ok(c) => c,
        Err(e) => {
            return Err(e);
        },
    };
    let matched = reconcile_entry(
        space,
        category,
        title.as_str(),
        entry.has_standard_chart,
        entry.has_deluxe_chart,
    );
    if !matched {
        return Ok(EntryAction::SkippedUnmatched);
    }
    let ikey = info_key(category, title.as_str());
    proof {
        crate::info::lemma_apply_single(
            store@,
            (spec_info_key(category as int, title@), entry.artist@, entry.title_kana@),
        );
    }
    store.upsert(ikey, entry.artist.clone(), entry.title_kana.clone());
    let stem = content_id(category, title.as_str());
    let file = asset_filename(stem.as_str());
    Ok(
        EntryAction::Matched {
            asset_file: file,
            image_source_id: entry.image_source_id.clone(),
        },
    )
}

/// How the key space changes when one entry of a run is processed: a party
/// or unknown-category entry leaves it alone, any other entry claims its
/// present candidate keys.
pub open spec fn spec_entry_space(space: Set<Seq<char>>, e: CatalogEntry) -> Set<Seq<char>> {
    if spec_is_party(e.catcode@) || spec_category_of(e.catcode@) is None {
        space
    } else {
        spec_space_after(
            space,
            spec_category_of(e.catcode@)->Some_0 as int,
            spec_title_fix(e.title@),
            e.has_standard_chart,
            e.has_deluxe_chart,
        )
    }
}

/// How many match operations one entry performs against a given space.
pub open spec fn spec_entry_claims(space: Set<Seq<char>>, e: CatalogEntry) -> int {
    if spec_is_party(e.catcode@) || spec_category_of(e.catcode@) is None {
        0
    } else {
        let category = spec_category_of(e.catcode@)->Some_0 as int;
        let title = spec_title_fix(e.title@);
        (if e.has_standard_chart && space.contains(spec_variant_key(category, title, false)) {
            1int
        } else {
            0int
        }) + (if e.has_deluxe_chart && space.contains(spec_variant_key(category, title, true)) {
            1int
        } else {
            0int
        })
    }
}

/// The key space left after a whole run over a sequence of entries, in
/// source order.
pub open spec fn spec_run_space(space: Set<Seq<char>>, entries: Seq<CatalogEntry>) -> Set<
    Seq<char>,
>
    decreases entries.len(),
{
    if entries.len() == 0 {
        space
    } else {
        spec_run_space(spec_entry_space(space, entries.first()), entries.drop_first())
    }
}

/// The total number of match operations of a whole run.
pub open spec fn spec_run_claims(space: Set<Seq<char>>, entries: Seq<CatalogEntry>) -> int
    decreases entries.len(),
{
    if entries.len() == 0 {
        0
    } else {
        spec_entry_claims(space, entries.first()) + spec_run_claims(
            spec_entry_space(space, entries.first()),
            entries.drop_first(),
        )
    }
}

/// The upserts one entry contributes to the metadata store: exactly one
/// for a matched entry, none otherwise.
pub open spec fn spec_entry_upserts(space: Set<Seq<char>>, e: CatalogEntry) -> Seq<
    (Seq<char>, Seq<char>, Seq<char>),
> {
    if spec_is_party(e.catcode@) || spec_category_of(e.catcode@) is None {
        Seq::empty()
    } else {
        let category = spec_category_of(e.catcode@)->Some_0 as int;
        let title = spec_title_fix(e.title@);
        let cf = e.has_standard_chart && space.contains(spec_variant_key(category, title, false));
        let ct = e.has_deluxe_chart && space.contains(spec_variant_key(category, title, true));
        if cf || ct {
            seq![(spec_info_key(category, title), e.artist@, e.title_kana@)]
        } else {
            Seq::empty()
        }
    }
}

/// All upserts of a run over a sequence of entries, in source order.
pub open spec fn spec_run_upserts(space: Set<Seq<char>>, entries: Seq<CatalogEntry>) -> Seq<
    (Seq<char>, Seq<char>, Seq<char>),
>
    decreases entries.len(),
{
    if entries.len() == 0 {
        Seq::empty()
    } else {
        spec_entry_upserts(space, entries.first()) + spec_run_upserts(
            spec_entry_space(space, entries.first()),
            entries.drop_first(),
        )
    }
}

/// The metadata store a whole run leaves behind.
pub open spec fn spec_run_store(
    space: Set<Seq<char>>,
    store: Seq<(Seq<char>, Seq<char>, Seq<char>)>,
    entries: Seq<CatalogEntry>,
) -> Seq<(Seq<char>, Seq<char>, Seq<char>)>
    decreases entries.len(),
{
    if entries.len() == 0 {
        store
    } else {
        spec_run_store(
            spec_entry_space(space, entries.first()),
            crate::info::apply_upserts(store, spec_entry_upserts(space, entries.first())),
            entries.drop_first(),
        )
    }
}

proof fn lemma_run_store_as_apply(
    space: Set<Seq<char>>,
    store: Seq<(Seq<char>, Seq<char>, Seq<char>)>,
    entries: Seq<CatalogEntry>,
)
    ensures
        spec_run_store(space, store, entries) == crate::info::apply_upserts(
            store,
            spec_run_upserts(space, entries),
        ),
    decreases entries.len(),
{
    if entries.len() > 0 {
        let e = entries.first();
        let mid_store = crate::info::apply_upserts(store, spec_entry_upserts(space, e));
        crate::info::lemma_apply_upserts_concat(
            store,
            spec_entry_upserts(space, e),
            spec_run_upserts(spec_entry_space(space, e), entries.drop_first()),
        );
        lemma_run_store_as_apply(spec_entry_space(space, e), mid_store, entries.drop_first());
    }
}

/// A sync run never reduces the metadata store: every entry it already
/// held keeps its position, and its key, to the end of the run.
pub proof fn lemma_run_never_shrinks(
    space: Set<Seq<char>>,
    store: Seq<(Seq<char>, Seq<char>, Seq<char>)>,
    entries: Seq<CatalogEntry>,
)
    ensures
        spec_run_store(space, store, entries).len() >= store.len(),
        forall|i: int|
            0 <= i < store.len() ==> #[trigger] spec_run_store(space, store, entries)[i].0
                == store[i].0,
{
    lemma_run_store_as_apply(space, store, entries);
    crate::info::lemma_apply_prefix(store, spec_run_upserts(space, entries));
}

/// Run idempotence on the metadata side: a second run over the same
/// reference key space and the same catalog, starting from the store the
/// first run left behind, leaves the store unchanged — so the info file
/// the second run writes is identical to the one already on disk.
pub proof fn lemma_second_run_store_unchanged(
    space: Set<Seq<char>>,
    store: Seq<(Seq<char>, Seq<char>, Seq<char>)>,
    entries: Seq<CatalogEntry>,
)
    requires
        crate::info::unique_entry_keys(store),
    ensures
        spec_run_store(space, spec_run_store(space, store, entries), entries) == spec_run_store(
            space,
            store,
            entries,
        ),
{
    let ups = spec_run_upserts(space, entries);
    lemma_run_store_as_apply(space, store, entries);
    let s1 = crate::info::apply_upserts(store, ups);
    lemma_run_store_as_apply(space, s1, entries);
    crate::info::lemma_apply_upserts_idempotent(store, ups);
}

/// Matching exclusivity over a whole run: every match operation removes a
/// key that is still present, no key is ever removed twice, and so the
/// leftover key space is exactly the initial size minus the number of
/// successful match operations — which therefore never exceeds the initial
/// size.
pub proof fn lemma_run_len_accounting(space: Set<Seq<char>>, entries: Seq<CatalogEntry>)
    requires
        space.finite(),
    ensures
        spec_run_space(space, entries).finite(),
        spec_run_space(space, entries).len() == space.len() - spec_run_claims(space, entries),
        0 <= spec_run_claims(space, entries) <= space.len(),
    decreases entries.len(),
{
    if entries.len() == 0 {
    } else {
        let e = entries.first();
        let mid = spec_entry_space(space, e);
        assert(mid.finite() && mid.len() == space.len() - spec_entry_claims(space, e)) by {
            if !(spec_is_party(e.catcode@) || spec_category_of(e.catcode@) is None) {
                let category = spec_category_of(e.catcode@)->Some_0 as int;
                let title = spec_title_fix(e.title@);
                let kf = spec_variant_key(category, title, false);
                let kt = spec_variant_key(category, title, true);
                lemma_variant_keys_distinct(category, title);
                if e.has_standard_chart && space.contains(kf) {
                    assert(space.remove(kf).len() == space.len() - 1);
                }
            }
        }
        lemma_run_len_accounting(mid, entries.drop_first());
    }
}

/// The asset synchronizer's policy for a matched entry.
#[derive(Debug, PartialEq, Eq, Structural, Clone, Copy)]
pub enum AssetAction {
    /// The target file already exists: nothing is fetched, which is what
    /// makes a re-run idempotent.
    AlreadyPresent,
    /// The target file is absent: its bytes must be obtained through the
    /// asset transport and written to the target path.
    Fetch,
}

/// Decides the asset work for a matched entry from whether the
/// content-addressed target file already exists.
pub fn asset_sync_action(target_exists: bool) -> (r: AssetAction)
    ensures
        r == (if target_exists {
            AssetAction::AlreadyPresent
        } else {
            AssetAction::Fetch
        }),
{
    if target_exists {
        AssetAction::AlreadyPresent
    } else {
        AssetAction::Fetch
    }
}

} // verus!
