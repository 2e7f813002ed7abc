use vstd::prelude::*;

use crate::text::str_eq;
use vstd::string::StrSliceExecFns;

verus! {

broadcast use vstd::set::group_set_axioms, vstd::seq_lib::seq_to_set_is_finite;

/// The union of all variant keys across a sequence of groups, as the
/// versions-mode reference input gives them.
pub open spec fn spec_union_of(groups: Seq<Seq<Seq<char>>>) -> Set<Seq<char>>
    decreases groups.len(),
{
    if groups.len() == 0 {
        Set::empty()
    } else {
        spec_union_of(groups.drop_last()) + groups.last().to_set()
    }
}

/// The keys a level-lookup mapping contributes: each key longer than two
/// characters, with its last two characters stripped.
pub open spec fn spec_level_keys(ks: Seq<Seq<char>>) -> Set<Seq<char>>
    decreases ks.len(),
{
    if ks.len() == 0 {
        Set::empty()
    } else {
        let rest = spec_level_keys(ks.drop_last());
        let k = ks.last();
        if k.len() > 2 {
            rest.insert(k.take(k.len() - 2))
        } else {
            rest
        }
    }
}

/// The set of expected chart variant keys, built once from the reference
/// lookup and consumed (shrunk) as catalog entries claim keys.  Membership,
/// not order, is what matters; the model is a finite set of character
/// sequences.
pub struct VariantKeySpace {
    keys: Vec<String>,
}

impl View for VariantKeySpace {
    type V = Set<Seq<char>>;

    closed spec fn view(&self) -> Set<Seq<char>> {
        self.key_seq().to_set()
    }
}

impl VariantKeySpace {
    pub closed spec fn key_seq(self) -> Seq<Seq<char>> {
        self.keys@.map_values(|s: String| s@)
    }

    #[verifier::type_invariant]
    spec fn inv(self) -> bool {
        self.key_seq().no_duplicates()
    }

    pub fn new() -> (r: Self)
        ensures
            r@ == Set::<Seq<char>>::empty(),
    {
        let r = VariantKeySpace { keys: Vec::new() };
        proof {
            assert(r.key_seq() =~= Seq::<Seq<char>>::empty());
            assert(r@ =~= Set::<Seq<char>>::empty());
        }
        r
    }

    pub fn len(&self) -> (r: usize)
        ensures
            r == self@.len(),
    {
        proof {
            use_type_invariant(&*self);
            self.key_seq().unique_seq_to_set();
        }
        self.keys.len()
    }

    pub fn contains_key(&self, k: &str) -> (r: bool)
        ensures
            r == self@.contains(k@),
    {
        let n = self.keys.len();
        let mut i: usize = 0;
        while i < n
            invariant
                n == self.keys@.len(),
                i <= n,
                forall|j: int| 0 <= j < i ==> self.key_seq()[j] != k@,
            decreases n - i,
        {
            if str_eq(self.keys[i].as_str(), k) {
                proof {
                    assert(self.key_seq()[i as int] == k@);
                    assert(self.key_seq().contains(k@));
                }
                return true;
            }
            i += 1;
        }
        proof {
            assert(!self.key_seq().contains(k@));
        }
        false
    }

    /// Adds a key; a key already present is not duplicated.
    pub fn insert_key(&mut self, k: String)
        ensures
            final(self)@ == old(self)@.insert(k@),
            final(self)@.len() == old(self)@.len() + (if old(self)@.contains(k@) {
                0int
            } else {
                1int
            }),
    {
        proof {
            use_type_invariant(&*self);
            old(self).key_seq().unique_seq_to_set();
        }
        let present = self.contains_key(k.as_str());
        if present {
            proof {
                assert(old(self)@.insert(k@) =~= old(self)@);
            }
        } else {
            let ghost olds = self.key_seq();
            let mut keys: Vec<String> = Vec::new();
            std::mem::swap(&mut keys, &mut self.keys);
            keys.push(k);
            proof {
                assert(keys@.map_values(|s: String| s@) =~= olds.push(k@));
                assert(olds.push(k@).no_duplicates()) by {
                    assert(forall|j: int|
                        0 <= j < olds.len() ==> olds.push(k@)[j] == olds[j]);
                    assert(!olds.contains(k@));
                }
            }
            self.keys = keys;
            proof {
                olds.lemma_push_to_set_commute(k@);
                assert(final(self)@ =~= old(self)@.insert(k@));
                final(self).key_seq().unique_seq_to_set();
            }
        }
    }

    /// Removes a key if present; absent keys are a no-op.  The model shrinks
    /// by exactly one element when and only when the key was present.
    pub fn remove_key(&mut self, k: &str)
        ensures
            final(self)@ == old(self)@.remove(k@),
            final(self)@.len() == old(self)@.len() - (if old(self)@.contains(k@) {
                1int
            } else {
                0int
            }),
    {
        proof {
            use_type_invariant(&*self);
            old(self).key_seq().unique_seq_to_set();
        }
        let n = self.keys.len();
        let mut i: usize = 0;
        while i < n
            invariant
                *self == *old(self),
                n == self.keys@.len(),
                i <= n,
                forall|j: int| 0 <= j < i ==> self.key_seq()[j] != k@,
                self.key_seq().no_duplicates(),
            decreases n - i,
        {
            if str_eq(self.keys[i].as_str(), k) {
                let ghost olds = self.key_seq();
                let ghost gi = i as int;
                let mut keys: Vec<String> = Vec::new();
                std::mem::swap(&mut keys, &mut self.keys);
                keys.remove(i);
                proof {
                    olds.remove_ensures(gi);
                    assert(keys@.map_values(|s: String| s@) =~= olds.remove(gi));
                    assert(olds.remove(gi).no_duplicates()) by {
                        assert(forall|p: int, q: int|
                            0 <= p < q < olds.remove(gi).len() ==> olds.remove(gi)[p]
                                != olds.remove(gi)[q]);
                    }
                }
                self.keys = keys;
                proof {
                    assert(olds[gi] == k@);
                    assert(old(self)@.contains(k@));
                    assert forall|x: Seq<char>| final(self)@.contains(x)
                        implies old(self)@.remove(k@).contains(x) by {
                        let j = choose|j: int|
                            0 <= j < olds.remove(gi).len() && olds.remove(gi)[j] == x;
                        if j < gi {
                            assert(olds[j] == x);
                        } else {
                            assert(olds[j + 1] == x);
                        }
                        assert(olds.contains(x));
                        assert(x != k@);
                    }
                    assert forall|x: Seq<char>| old(self)@.remove(k@).contains(x)
                        implies final(self)@.contains(x) by {
                        let j = choose|j: int| 0 <= j < olds.len() && olds[j] == x;
                        if j < gi {
                            assert(olds.remove(gi)[j] == x);
                        } else {
                            assert(j != gi);
                            assert(olds.remove(gi)[j - 1] == x);
                        }
                        assert(olds.remove(gi).contains(x));
                    }
                    assert(final(self)@ =~= old(self)@.remove(k@));
                    olds.unique_seq_to_set();
                    final(self).key_seq().unique_seq_to_set();
                }
                return;
            }
            i += 1;
        }
        proof {
            assert(!self.key_seq().contains(k@));
            assert(!old(self)@.contains(k@));
            assert(old(self)@.remove(k@) =~= old(self)@);
        }
    }

    /// Builds the space in versions mode: the input is a sequence of
    /// groups of variant keys, and the space is their union.
    pub fn from_versions(groups: &Vec<Vec<String>>) -> (r: Self)
        ensures
            r@ == spec_union_of(groups.deep_view()),
    {
        let ghost gv = groups.deep_view();
        let mut space = VariantKeySpace::new();
        let ng = groups.len();
        let mut g: usize = 0;
        proof {
            assert(gv.take(0) =~= Seq::<Seq<Seq<char>>>::empty());
        }
        while g < ng
            invariant
                ng == groups@.len(),
                g <= ng,
                gv == groups.deep_view(),
                space@ == spec_union_of(gv.take(g as int)),
            decreases ng - g,
        {
            let row = &groups[g];
            let nr = row.len();
            let mut j: usize = 0;
            proof {
                assert(gv[g as int] =~= row.deep_view());
                assert(gv[g as int].take(0) =~= Seq::<Seq<char>>::empty());
                assert(space@ =~= spec_union_of(gv.take(g as int)) + gv[g as int].take(
                    0,
                ).to_set());
            }
            while j < nr
                invariant
                    ng == groups@.len(),
                    g < ng,
                    nr == groups@[g as int]@.len(),
                    j <= nr,
                    gv == groups.deep_view(),
                    gv[g as int] == groups@[g as int].deep_view(),
                    space@ == spec_union_of(gv.take(g as int)) + gv[g as int].take(
                        j as int,
                    ).to_set(),
                decreases nr - j,
            {
                let ghost pre = space@;
                space.insert_key(groups[g][j].clone());
                proof {
                    let rowv = gv[g as int];
                    assert(rowv.take(j + 1) =~= rowv.take(j as int).push(rowv[j as int]));
                    rowv.take(j as int).lemma_push_to_set_commute(rowv[j as int]);
                    assert(space@ =~= spec_union_of(gv.take(g as int)) + rowv.take(
                        j + 1,
                    ).to_set());
                }
                j += 1;
            }
            proof {
                assert(gv[g as int].take(nr as int) =~= gv[g as int]);
                assert(gv.take(g + 1).drop_last() =~= gv.take(g as int));
                assert(gv.take(g + 1).last() == gv[g as int]);
            }
            g += 1;
        }
        proof {
            assert(gv.take(ng as int) =~= gv);
        }
        space
    }

    /// Builds the space in level-lookup mode: every lookup key longer than
    /// two characters contributes the key with its last two characters
    /// stripped; shorter keys are silently dropped.
    pub fn from_level_keys(keys: &Vec<String>) -> (r: Self)
        ensures
            r@ == spec_level_keys(keys.deep_view()),
    {
        let ghost kv = keys.deep_view();
        let mut space = VariantKeySpace::new();
        let n = keys.len();
        let mut i: usize = 0;
        proof {
            assert(kv.take(0) =~= Seq::<Seq<char>>::empty());
        }
        while i < n
            invariant
                n == keys@.len(),
                i <= n,
                kv == keys.deep_view(),
                space@ == spec_level_keys(kv.take(i as int)),
            decreases n - i,
        {
            let klen = keys[i].as_str().unicode_len();
            if klen > 2 {
                let stripped = keys[i].as_str().substring_char(0, klen - 2);
                space.insert_key(stripped.to_owned());
                proof {
                    assert(stripped@ =~= kv[i as int].take(kv[i as int].len() - 2));
                }
            }
            proof {
                assert(kv.take(i + 1).drop_last() =~= kv.take(i as int));
                assert(kv.take(i + 1).last() == kv[i as int]);
            }
            i += 1;
        }
        proof {
            assert(kv.take(n as int) =~= kv);
        }
        space
    }

    /// The keys never claimed by any entry, for the end-of-run report.
    pub fn remaining(&self) -> (r: &Vec<String>)
        ensures
            r@.map_values(|s: String| s@).to_set() == self@,
            r@.map_values(|s: String| s@).no_duplicates(),
            r@.len() == self@.len(),
    {
        proof {
            use_type_invariant(&*self);
            self.key_seq().unique_seq_to_set();
        }
        &self.keys
    }
}

} // verus!
