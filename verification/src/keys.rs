use vstd::prelude::*;

use vstd::string::StringExecFns;

verus! {

/// The single digit character naming a category id between 1 and 6.
pub open spec fn spec_digit_char(c: int) -> char {
    if c == 1 {
        '1'
    } else if c == 2 {
        '2'
    } else if c == 3 {
        '3'
    } else if c == 4 {
        '4'
    } else if c == 5 {
        '5'
    } else {
        '6'
    }
}

/// The key basis `"{category}_{title}"` shared by the metadata store and the
/// content-addressed asset identifier.
pub open spec fn spec_info_key(category: int, title: Seq<char>) -> Seq<char> {
    seq![spec_digit_char(category), '_'] + title
}

/// A variant key `"{category}_{title}_{suffix}"`: the info-key basis plus a
/// chart-type suffix, `f` for the standard chart and `t` for the deluxe one.
pub open spec fn spec_variant_key(category: int, title: Seq<char>, deluxe: bool) -> Seq<char> {
    spec_info_key(category, title) + seq!['_', if deluxe {
        't'
    } else {
        'f'
    }]
}

/// The two variant keys of one (category, title) pair differ, whatever the
/// pair: their last characters are the two distinct chart suffixes.
pub proof fn lemma_variant_keys_distinct(category: int, title: Seq<char>)
    ensures
        spec_variant_key(category, title, false) != spec_variant_key(category, title, true),
{
    let kf = spec_variant_key(category, title, false);
    let kt = spec_variant_key(category, title, true);
    assert(kf[kf.len() - 1] == 'f');
    assert(kt[kt.len() - 1] == 't');
}

pub fn info_key(category: i32, title: &str) -> (r: String)
    requires
        1 <= category <= 6,
    ensures
        r@ == spec_info_key(category as int, title@),
{
    let mut s = String::new();
    if category == 1 {
        s.append("1_");
    } else if category == 2 {
        s.append("2_");
    } else if category == 3 {
        s.append("3_");
    } else if category == 4 {
        s.append("4_");
    } else if category == 5 {
        s.append("5_");
    } else {
        s.append("6_");
    }
    proof {
        reveal_strlit("1_");
        reveal_strlit("2_");
        reveal_strlit("3_");
        reveal_strlit("4_");
        reveal_strlit("5_");
        reveal_strlit("6_");
        assert(s@ =~= seq![spec_digit_char(category as int), '_']);
    }
    s.append(title);
    proof {
        assert(s@ =~= spec_info_key(category as int, title@));
    }
    s
}

pub fn variant_key(category: i32, title: &str, deluxe: bool) -> (r: String)
    requires
        1 <= category <= 6,
    ensures
        r@ == spec_variant_key(category as int, title@, deluxe),
{
    let mut s = info_key(category, title);
    if deluxe {
        s.append("_t");
        proof {
            reveal_strlit("_t");
            assert(s@ =~= spec_variant_key(category as int, title@, true));
        }
    } else {
        s.append("_f");
        proof {
            reveal_strlit("_f");
            assert(s@ =~= spec_variant_key(category as int, title@, false));
        }
    }
    s
}

} // verus!
