use vstd::prelude::*;

use crate::text::str_eq;

verus! {

/// Fatal error of the reconciliation core: a catalog entry carries a
/// category code outside the fixed taxonomy, so the reference data is out of
/// date and the whole run must stop.
#[derive(Debug)]
pub enum SyncError {
    UnknownCategory(String),
}

/// The closed taxonomy: each of the six known category-code strings is bound
/// to exactly one integer id; every other string is invalid.
pub open spec fn spec_category_of(s: Seq<char>) -> Option<i32> {
    if s == "POPS＆アニメ"@ {
        Some(1i32)
    } else if s == "niconico＆ボーカロイド"@ {
        Some(2i32)
    } else if s == "東方Project"@ {
        Some(3i32)
    } else if s == "ゲーム＆バラエティ"@ {
        Some(4i32)
    } else if s == "maimai"@ {
        Some(5i32)
    } else if s == "オンゲキ＆CHUNITHM"@ {
        Some(6i32)
    } else {
        None
    }
}

/// Maps a source-provided category code to its category id, or reports the
/// code as unknown.  Success and failure are decided exactly by
/// `spec_category_of`.
pub fn catcode_to_category(catcode: &str) -> (r: Result<i32, SyncError>)
    ensures
        match spec_category_of(catcode@) {
            Some(c) => r == Ok::<i32, SyncError>(c),
            None => r matches Err(SyncError::UnknownCategory(bad)) && bad@ == catcode@,
        },
{
    if str_eq(catcode, "POPS＆アニメ") {
        Ok(1)
    } else if str_eq(catcode, "niconico＆ボーカロイド") {
        Ok(2)
    } else if str_eq(catcode, "東方Project") {
        Ok(3)
    } else if str_eq(catcode, "ゲーム＆バラエティ") {
        Ok(4)
    } else if str_eq(catcode, "maimai") {
        Ok(5)
    } else if str_eq(catcode, "オンゲキ＆CHUNITHM") {
        Ok(6)
    } else {
        Err(SyncError::UnknownCategory(catcode.to_owned()))
    }
}

/// The excluded arcade-only/party category code: entries carrying it are
/// skipped before classification and are never an error.
pub open spec fn spec_is_party(s: Seq<char>) -> bool {
    s == "宴会場"@
}

pub fn is_party_catcode(catcode: &str) -> (r: bool)
    ensures
        r == spec_is_party(catcode@),
{
    str_eq(catcode, "宴会場")
}

/// What the title normalization table maps a source title to: the canonical
/// spelling where a correction is known, the source spelling otherwise.
pub open spec fn spec_title_fix(s: Seq<char>) -> Seq<char> {
    if s == "Bad Apple!! feat.nomico"@ {
        "Bad Apple!! feat nomico"@
    } else {
        s
    }
}

/// The table of known title corrections, as (source spelling, canonical
/// spelling) pairs.  Kept as data so further corrections can be added.
pub fn title_fix_table() -> (t: Vec<(String, String)>)
    ensures
        t@.len() == 1,
        t@[0].0@ == "Bad Apple!! feat.nomico"@,
        t@[0].1@ == "Bad Apple!! feat nomico"@,
        forall|s: Seq<char>| spec_title_fix(s) == (if s == t@[0].0@ {
            t@[0].1@
        } else {
            s
        }),
{
    let mut t: Vec<(String, String)> = Vec::new();
    t.push(
        (
            String::from_str("Bad Apple!! feat.nomico"),
            String::from_str("Bad Apple!! feat nomico"),
        ),
    );
    t
}

/// Normalizes a source title through the correction table.
pub fn song_title_fixes(from_json: &str) -> (r: String)
    ensures
        r@ == spec_title_fix(from_json@),
{
    let table = title_fix_table();
    let n = table.len();
    let mut i: usize = 0;
    while i < n
        invariant
            n == table@.len(),
            i <= n,
            forall|j: int| 0 <= j < i ==> table@[j].0@ != from_json@,
            table@.len() == 1,
            table@[0].0@ == "Bad Apple!! feat.nomico"@,
            table@[0].1@ == "Bad Apple!! feat nomico"@,
        decreases n - i,
    {
        if str_eq(table[i].0.as_str(), from_json) {
            return table[i].1.clone();
        }
        i += 1;
    }
    from_json.to_owned()
}

} // verus!
