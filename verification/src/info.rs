use vstd::prelude::*;

use indexmap::IndexMap;

verus! {

/// A metadata record: the artist and the title pronunciation kept for one
/// `"{category}_{title}"` key.
#[derive(Clone, Debug)]
pub struct InfoRecord {
    pub artist: String,
    pub title_kana: String,
}

#[verifier::external_type_specification]
#[verifier::external_body]
#[verifier::reject_recursive_types(K)]
#[verifier::reject_recursive_types(V)]
#[verifier::reject_recursive_types(S)]
pub struct ExIndexMap<K, V, S>(IndexMap<K, V, S>);

/// The contents of the metadata mapping, in insertion order: one
/// (key, artist, title pronunciation) triple per entry.
pub uninterp spec fn imap_entries(m: IndexMap<String, InfoRecord>) -> Seq<
    (Seq<char>, Seq<char>, Seq<char>),
>;

pub open spec fn has_entry_key(
    entries: Seq<(Seq<char>, Seq<char>, Seq<char>)>,
    k: Seq<char>,
) -> bool {
    exists|i: int| 0 <= i < entries.len() && entries[i].0 == k
}

/// The position of the first entry holding a key.
pub open spec fn first_entry_index(
    entries: Seq<(Seq<char>, Seq<char>, Seq<char>)>,
    k: Seq<char>,
) -> int
    decreases entries.len(),
{
    if entries.len() == 0 {
        0
    } else if entries[0].0 == k {
        0
    } else {
        1 + first_entry_index(entries.drop_first(), k)
    }
}

pub proof fn lemma_first_entry_index(
    entries: Seq<(Seq<char>, Seq<char>, Seq<char>)>,
    k: Seq<char>,
)
    requires
        has_entry_key(entries, k),
    ensures
        0 <= first_entry_index(entries, k) < entries.len(),
        entries[first_entry_index(entries, k)].0 == k,
        forall|j: int| 0 <= j < first_entry_index(entries, k) ==> entries[j].0 != k,
    decreases entries.len(),
{
    if entries[0].0 == k {
    } else {
        let w = choose|i: int| 0 <= i < entries.len() && entries[i].0 == k;
        assert(entries.drop_first()[w - 1].0 == k);
        lemma_first_entry_index(entries.drop_first(), k);
        assert(forall|j: int|
            1 <= j < entries.len() ==> entries[j] == entries.drop_first()[j - 1]);
    }
}

/// How one upsert changes the mapping: an existing key keeps its place and
/// takes the new fields; a new key is appended at the end.
pub open spec fn spec_upsert(
    entries: Seq<(Seq<char>, Seq<char>, Seq<char>)>,
    k: Seq<char>,
    artist: Seq<char>,
    kana: Seq<char>,
) -> Seq<(Seq<char>, Seq<char>, Seq<char>)> {
    if has_entry_key(entries, k) {
        entries.update(first_entry_index(entries, k), (k, artist, kana))
    } else {
        entries.push((k, artist, kana))
    }
}

pub open spec fn unique_entry_keys(entries: Seq<(Seq<char>, Seq<char>, Seq<char>)>) -> bool {
    forall|i: int, j: int| 0 <= i < j < entries.len() ==> entries[i].0 != entries[j].0
}

/// The metadata mapping never shrinks: an upsert keeps or grows its length,
/// so a sync run only ever adds or updates entries.
pub proof fn lemma_upsert_never_shrinks(
    entries: Seq<(Seq<char>, Seq<char>, Seq<char>)>,
    k: Seq<char>,
    artist: Seq<char>,
    kana: Seq<char>,
)
    ensures
        spec_upsert(entries, k, artist, kana).len() >= entries.len(),
        spec_upsert(entries, k, artist, kana).len() == entries.len() + (if has_entry_key(
            entries,
            k,
        ) {
            0int
        } else {
            1int
        }),
{
    if has_entry_key(entries, k) {
        lemma_first_entry_index(entries, k);
    }
}

/// Upserting the same record twice leaves the mapping exactly as one upsert
/// does: a re-run that writes the same fields changes nothing.
pub proof fn lemma_upsert_idempotent(
    entries: Seq<(Seq<char>, Seq<char>, Seq<char>)>,
    k: Seq<char>,
    artist: Seq<char>,
    kana: Seq<char>,
)
    ensures
        spec_upsert(spec_upsert(entries, k, artist, kana), k, artist, kana) == spec_upsert(
            entries,
            k,
            artist,
            kana,
        ),
{
    let once = spec_upsert(entries, k, artist, kana);
    if has_entry_key(entries, k) {
        lemma_first_entry_index(entries, k);
        let i0 = first_entry_index(entries, k);
        assert(once[i0].0 == k);
        assert(has_entry_key(once, k));
        lemma_first_entry_index(once, k);
        assert(first_entry_index(once, k) == i0) by {
            let i1 = first_entry_index(once, k);
            assert(forall|j: int| 0 <= j < i0 ==> once[j].0 == entries[j].0);
            if i1 < i0 {
                assert(once[i1].0 == k);
            }
            if i1 > i0 {
                assert(once[i0].0 != k);
            }
        }
        assert(spec_upsert(once, k, artist, kana) =~= once);
    } else {
        assert(once[entries.len() as int].0 == k);
        assert(has_entry_key(once, k));
        lemma_first_entry_index(once, k);
        assert(first_entry_index(once, k) == entries.len()) by {
            let i1 = first_entry_index(once, k);
            if i1 < entries.len() {
                assert(once[i1] == entries[i1]);
                assert(has_entry_key(entries, k));
            }
        }
        assert(spec_upsert(once, k, artist, kana) =~= once);
    }
}

pub proof fn lemma_upsert_preserves_unique(
    entries: Seq<(Seq<char>, Seq<char>, Seq<char>)>,
    k: Seq<char>,
    artist: Seq<char>,
    kana: Seq<char>,
)
    requires
        unique_entry_keys(entries),
    ensures
        unique_entry_keys(spec_upsert(entries, k, artist, kana)),
{
    if has_entry_key(entries, k) {
        lemma_first_entry_index(entries, k);
        let i0 = first_entry_index(entries, k);
        let after = entries.update(i0, (k, artist, kana));
        assert forall|i: int, j: int| 0 <= i < j < after.len() implies after[i].0 != after[j].0 by {
            if i != i0 && j != i0 {
                assert(after[i].0 == entries[i].0 && after[j].0 == entries[j].0);
            } else if i == i0 {
                assert(after[j].0 == entries[j].0 && entries[i0].0 == k);
            } else {
                assert(after[i].0 == entries[i].0 && entries[i0].0 == k);
            }
        }
    } else {
        let after = entries.push((k, artist, kana));
        assert forall|i: int, j: int| 0 <= i < j < after.len() implies after[i].0 != after[j].0 by {
            if j == entries.len() {
                assert(after[i].0 == entries[i].0);
                assert(!has_entry_key(entries, k) ==> entries[i].0 != k);
            } else {
                assert(after[i].0 == entries[i].0 && after[j].0 == entries[j].0);
            }
        }
    }
}

/// Applies a sequence of pending upserts, first to last.
pub open spec fn apply_upserts(
    entries: Seq<(Seq<char>, Seq<char>, Seq<char>)>,
    ups: Seq<(Seq<char>, Seq<char>, Seq<char>)>,
) -> Seq<(Seq<char>, Seq<char>, Seq<char>)>
    decreases ups.len(),
{
    if ups.len() == 0 {
        entries
    } else {
        apply_upserts(
            spec_upsert(entries, ups.first().0, ups.first().1, ups.first().2),
            ups.drop_first(),
        )
    }
}

pub open spec fn key_in_upserts(
    ups: Seq<(Seq<char>, Seq<char>, Seq<char>)>,
    k: Seq<char>,
) -> bool {
    exists|i: int| 0 <= i < ups.len() && ups[i].0 == k
}

pub proof fn lemma_apply_single(
    entries: Seq<(Seq<char>, Seq<char>, Seq<char>)>,
    t: (Seq<char>, Seq<char>, Seq<char>),
)
    ensures
        apply_upserts(entries, seq![t]) == spec_upsert(entries, t.0, t.1, t.2),
{
    assert(seq![t].drop_first() =~= Seq::<(Seq<char>, Seq<char>, Seq<char>)>::empty());
    assert(seq![t].first() == t);
    let su = spec_upsert(entries, t.0, t.1, t.2);
    assert(apply_upserts(su, Seq::<(Seq<char>, Seq<char>, Seq<char>)>::empty()) == su);
}

pub proof fn lemma_apply_upserts_concat(
    entries: Seq<(Seq<char>, Seq<char>, Seq<char>)>,
    a: Seq<(Seq<char>, Seq<char>, Seq<char>)>,
    b: Seq<(Seq<char>, Seq<char>, Seq<char>)>,
)
    ensures
        apply_upserts(entries, a + b) == apply_upserts(apply_upserts(entries, a), b),
    decreases a.len(),
{
    if a.len() == 0 {
        assert(a + b =~= b);
    } else {
        assert((a + b).first() == a.first());
        assert((a + b).drop_first() =~= a.drop_first() + b);
        lemma_apply_upserts_concat(
            spec_upsert(entries, a.first().0, a.first().1, a.first().2),
            a.drop_first(),
            b,
        );
    }
}

proof fn lemma_has_key_drop_first(entries: Seq<(Seq<char>, Seq<char>, Seq<char>)>, k: Seq<char>)
    requires
        entries.len() > 0,
        entries[0].0 != k,
    ensures
        has_entry_key(entries, k) == has_entry_key(entries.drop_first(), k),
{
    if has_entry_key(entries, k) {
        let w = choose|i: int| 0 <= i < entries.len() && entries[i].0 == k;
        assert(entries.drop_first()[w - 1].0 == k);
    }
    if has_entry_key(entries.drop_first(), k) {
        let w = choose|i: int|
            0 <= i < entries.drop_first().len() && entries.drop_first()[i].0 == k;
        assert(entries[w + 1].0 == k);
    }
}

proof fn lemma_first_index_same_keys(
    s1: Seq<(Seq<char>, Seq<char>, Seq<char>)>,
    s2: Seq<(Seq<char>, Seq<char>, Seq<char>)>,
    k: Seq<char>,
)
    requires
        s1.len() == s2.len(),
        forall|i: int| 0 <= i < s1.len() ==> s1[i].0 == s2[i].0,
    ensures
        has_entry_key(s1, k) == has_entry_key(s2, k),
        first_entry_index(s1, k) == first_entry_index(s2, k),
    decreases s1.len(),
{
    if s1.len() == 0 {
        assert(!has_entry_key(s1, k) && !has_entry_key(s2, k));
    } else if s1[0].0 == k {
        assert(has_entry_key(s1, k) && has_entry_key(s2, k));
    } else {
        assert(forall|i: int|
            0 <= i < s1.drop_first().len() ==> s1.drop_first()[i].0 == s2.drop_first()[i].0);
        lemma_first_index_same_keys(s1.drop_first(), s2.drop_first(), k);
        lemma_has_key_drop_first(s1, k);
        lemma_has_key_drop_first(s2, k);
    }
}

/// With unique keys, the only position holding a key is its first position.
proof fn lemma_unique_key_index(
    entries: Seq<(Seq<char>, Seq<char>, Seq<char>)>,
    k: Seq<char>,
    i: int,
)
    requires
        unique_entry_keys(entries),
        0 <= i < entries.len(),
        entries[i].0 == k,
    ensures
        has_entry_key(entries, k),
        first_entry_index(entries, k) == i,
{
    assert(has_entry_key(entries, k));
    lemma_first_entry_index(entries, k);
    let f = first_entry_index(entries, k);
    if f < i {
        assert(entries[f].0 == entries[i].0);
    }
}

/// Upserting a record that is already present, unchanged, at its key's
/// first position changes nothing.
pub proof fn lemma_upsert_noop(
    entries: Seq<(Seq<char>, Seq<char>, Seq<char>)>,
    t: (Seq<char>, Seq<char>, Seq<char>),
)
    requires
        has_entry_key(entries, t.0),
        entries[first_entry_index(entries, t.0)] == t,
    ensures
        spec_upsert(entries, t.0, t.1, t.2) == entries,
{
    lemma_first_entry_index(entries, t.0);
    assert(entries.update(first_entry_index(entries, t.0), t) =~= entries);
}

/// Applying upserts never disturbs the keys already in the store: their
/// positions are kept, and an entry whose key no upsert names is untouched.
pub proof fn lemma_apply_prefix(
    entries: Seq<(Seq<char>, Seq<char>, Seq<char>)>,
    ups: Seq<(Seq<char>, Seq<char>, Seq<char>)>,
)
    ensures
        apply_upserts(entries, ups).len() >= entries.len(),
        forall|i: int|
            0 <= i < entries.len() ==> #[trigger] apply_upserts(entries, ups)[i].0
                == entries[i].0,
        forall|i: int|
            0 <= i < entries.len() && !key_in_upserts(ups, entries[i].0)
                ==> #[trigger] apply_upserts(entries, ups)[i] == entries[i],
    decreases ups.len(),
{
    if ups.len() > 0 {
        let u = ups.first();
        let su = spec_upsert(entries, u.0, u.1, u.2);
        if has_entry_key(entries, u.0) {
            lemma_first_entry_index(entries, u.0);
        }
        lemma_apply_prefix(su, ups.drop_first());
        assert forall|i: int|
            0 <= i < entries.len() && !key_in_upserts(ups, entries[i].0)
            implies #[trigger] apply_upserts(entries, ups)[i] == entries[i] by {
            assert(ups[0] == u);
            assert(entries[i].0 != u.0);
            assert(su[i] == entries[i]);
            assert(!key_in_upserts(ups.drop_first(), su[i].0)) by {
                if key_in_upserts(ups.drop_first(), su[i].0) {
                    let w = choose|j: int|
                        0 <= j < ups.drop_first().len() && ups.drop_first()[j].0 == su[i].0;
                    assert(ups[w + 1].0 == entries[i].0);
                }
            }
        }
    }
}

proof fn lemma_apply_preserves_unique(
    entries: Seq<(Seq<char>, Seq<char>, Seq<char>)>,
    ups: Seq<(Seq<char>, Seq<char>, Seq<char>)>,
)
    requires
        unique_entry_keys(entries),
    ensures
        unique_entry_keys(apply_upserts(entries, ups)),
    decreases ups.len(),
{
    if ups.len() > 0 {
        let u = ups.first();
        lemma_upsert_preserves_unique(entries, u.0, u.1, u.2);
        lemma_apply_preserves_unique(spec_upsert(entries, u.0, u.1, u.2), ups.drop_first());
    }
}

/// Two stores with the same keys in the same order, differing only at keys
/// that the upserts will write anyway, end up identical.
proof fn lemma_apply_same_outside(
    s1: Seq<(Seq<char>, Seq<char>, Seq<char>)>,
    s2: Seq<(Seq<char>, Seq<char>, Seq<char>)>,
    ups: Seq<(Seq<char>, Seq<char>, Seq<char>)>,
)
    requires
        unique_entry_keys(s1),
        s1.len() == s2.len(),
        forall|i: int| 0 <= i < s1.len() ==> s1[i].0 == s2[i].0,
        forall|i: int|
            0 <= i < s1.len() && !key_in_upserts(ups, s1[i].0) ==> s1[i] == s2[i],
    ensures
        apply_upserts(s1, ups) == apply_upserts(s2, ups),
    decreases ups.len(),
{
    if ups.len() == 0 {
        assert(s1 =~= s2);
    } else {
        let u = ups.first();
        let s1u = spec_upsert(s1, u.0, u.1, u.2);
        let s2u = spec_upsert(s2, u.0, u.1, u.2);
        lemma_first_index_same_keys(s1, s2, u.0);
        if has_entry_key(s1, u.0) {
            lemma_first_entry_index(s1, u.0);
            lemma_first_entry_index(s2, u.0);
        }
        lemma_upsert_preserves_unique(s1, u.0, u.1, u.2);
        assert(s1u.len() == s2u.len());
        assert(forall|i: int| 0 <= i < s1u.len() ==> s1u[i].0 == s2u[i].0);
        assert forall|i: int|
            0 <= i < s1u.len() && !key_in_upserts(ups.drop_first(), s1u[i].0)
            implies s1u[i] == s2u[i] by {
            let p = if has_entry_key(s1, u.0) {
                first_entry_index(s1, u.0)
            } else {
                s1.len() as int
            };
            if i == p {
                assert(s1u[i] == (u.0, u.1, u.2) && s2u[i] == (u.0, u.1, u.2));
            } else {
                assert(s1u[i] == s1[i] && s2u[i] == s2[i]);
                assert(s1[i].0 != u.0) by {
                    if s1[i].0 == u.0 {
                        if i < s1.len() {
                            lemma_unique_key_index(s1, u.0, i);
                        }
                    }
                }
                assert(!key_in_upserts(ups, s1[i].0)) by {
                    if key_in_upserts(ups, s1[i].0) {
                        let w = choose|j: int| 0 <= j < ups.len() && ups[j].0 == s1[i].0;
                        assert(w != 0);
                        assert(ups.drop_first()[w - 1].0 == s1u[i].0);
                    }
                }
            }
        }
        lemma_apply_same_outside(s1u, s2u, ups.drop_first());
    }
}

/// Replaying a whole sequence of upserts onto the store it already produced
/// changes nothing: the metadata merge is idempotent run over run.
pub proof fn lemma_apply_upserts_idempotent(
    entries: Seq<(Seq<char>, Seq<char>, Seq<char>)>,
    ups: Seq<(Seq<char>, Seq<char>, Seq<char>)>,
)
    requires
        unique_entry_keys(entries),
    ensures
        apply_upserts(apply_upserts(entries, ups), ups) == apply_upserts(entries, ups),
    decreases ups.len(),
{
    if ups.len() > 0 {
        let u = ups.first();
        let w = ups.drop_first();
        let su = spec_upsert(entries, u.0, u.1, u.2);
        lemma_upsert_preserves_unique(entries, u.0, u.1, u.2);
        let s1 = apply_upserts(su, w);
        lemma_apply_upserts_idempotent(su, w);
        lemma_apply_preserves_unique(su, w);
        lemma_apply_prefix(su, w);
        let p = if has_entry_key(entries, u.0) {
            first_entry_index(entries, u.0)
        } else {
            entries.len() as int
        };
        if has_entry_key(entries, u.0) {
            lemma_first_entry_index(entries, u.0);
        }
        assert(0 <= p < su.len() && su[p] == (u.0, u.1, u.2));
        assert(s1[p].0 == u.0);
        lemma_unique_key_index(s1, u.0, p);
        let s1u = spec_upsert(s1, u.0, u.1, u.2);
        if key_in_upserts(w, u.0) {
            lemma_first_entry_index(s1, u.0);
            assert(s1u.len() == s1.len());
            assert(forall|i: int| 0 <= i < s1.len() ==> s1u[i].0 == s1[i].0);
            assert forall|i: int|
                0 <= i < s1.len() && !key_in_upserts(w, s1[i].0) implies s1[i] == s1u[i] by {
                assert(i != p);
                assert(s1u[i] == s1[i]);
            }
            lemma_apply_same_outside(s1, s1u, w);
            assert(apply_upserts(s1, ups) == apply_upserts(s1u, w));
        } else {
            assert(s1[p] == su[p]);
            lemma_upsert_noop(s1, (u.0, u.1, u.2));
            assert(s1u == s1);
        }
    }
}

/// Relies on `indexmap::IndexMap::new`: a freshly built map is empty.
#[verifier::external_body]
fn imap_new() -> (m: IndexMap<String, InfoRecord>)
    ensures
        imap_entries(m) == Seq::<(Seq<char>, Seq<char>, Seq<char>)>::empty(),
{
    IndexMap::new()
}

/// Relies on `indexmap::IndexMap::insert`: an equivalent key already in the
/// map keeps its place in the order and only its value is replaced; a new
/// key is appended last.  `String` keys are equivalent exactly when their
/// character sequences are equal.
#[verifier::external_body]
fn imap_insert(m: &mut IndexMap<String, InfoRecord>, key: String, value: InfoRecord)
    ensures
        imap_entries(*final(m)) == spec_upsert(
            imap_entries(*old(m)),
            key@,
            value.artist@,
            value.title_kana@,
        ),
{
    m.insert(key, value);
}

/// Relies on `indexmap::IndexMap::len`: the number of entries in the map.
#[verifier::external_body]
fn imap_len(m: &IndexMap<String, InfoRecord>) -> (r: usize)
    ensures
        r == imap_entries(*m).len(),
{
    m.len()
}

/// Relies on `indexmap::IndexMap::iter`: iteration yields the entries in
/// their insertion order.
#[verifier::external_body]
fn imap_pairs(m: &IndexMap<String, InfoRecord>) -> (r: Vec<(String, InfoRecord)>)
    ensures
        r@.len() == imap_entries(*m).len(),
        forall|i: int|
            0 <= i < r@.len() ==> r@[i].0@ == imap_entries(*m)[i].0 && r@[i].1.artist@
                == imap_entries(*m)[i].1 && r@[i].1.title_kana@ == imap_entries(*m)[i].2,
{
    m.iter().map(|(k, v)| (k.clone(), v.clone())).collect()
}

/// The insertion-ordered metadata store persisted as the info file.  Its
/// model is the ordered sequence of (key, artist, pronunciation) triples;
/// keys are unique.
pub struct InfoStore {
    map: IndexMap<String, InfoRecord>,
}

impl View for InfoStore {
    type V = Seq<(Seq<char>, Seq<char>, Seq<char>)>;

    closed spec fn view(&self) -> Seq<(Seq<char>, Seq<char>, Seq<char>)> {
        imap_entries(self.map)
    }
}

/// What building a store from an ordered list of (key, record) pairs
/// yields: the pairs upserted one after the other into an empty store.
pub open spec fn spec_store_of(triples: Seq<(Seq<char>, Seq<char>, Seq<char>)>) -> Seq<
    (Seq<char>, Seq<char>, Seq<char>),
>
    decreases triples.len(),
{
    if triples.len() == 0 {
        Seq::empty()
    } else {
        spec_upsert(
            spec_store_of(triples.drop_last()),
            triples.last().0,
            triples.last().1,
            triples.last().2,
        )
    }
}

impl InfoStore {
    #[verifier::type_invariant]
    spec fn inv(self) -> bool {
        unique_entry_keys(imap_entries(self.map))
    }

    pub fn new() -> (r: Self)
        ensures
            r@ == Seq::<(Seq<char>, Seq<char>, Seq<char>)>::empty(),
    {
        InfoStore { map: imap_new() }
    }

    pub fn len(&self) -> (r: usize)
        ensures
            r == self@.len(),
    {
        imap_len(&self.map)
    }

    /// Upserts the metadata of one matched entry under its info key.
    pub fn upsert(&mut self, key: String, artist: String, title_kana: String)
        ensures
            final(self)@ == spec_upsert(old(self)@, key@, artist@, title_kana@),
            final(self)@.len() == old(self)@.len() + (if has_entry_key(old(self)@, key@) {
                0int
            } else {
                1int
            }),
    {
        proof {
            use_type_invariant(&*self);
        }
        let rec = InfoRecord { artist, title_kana };
        let mut m = imap_new();
        std::mem::swap(&mut m, &mut self.map);
        imap_insert(&mut m, key, rec);
        proof {
            lemma_upsert_preserves_unique(old(self)@, key@, artist@, title_kana@);
            lemma_upsert_never_shrinks(old(self)@, key@, artist@, title_kana@);
        }
        self.map = m;
    }

    /// Builds the store from the pairs read out of an existing info file, in
    /// file order.
    pub fn from_pairs(pairs: &Vec<(String, InfoRecord)>) -> (r: Self)
        ensures
            r@ == spec_store_of(
                pairs@.map_values(|p: (String, InfoRecord)| (p.0@, p.1.artist@, p.1.title_kana@)),
            ),
    {
        let ghost triples = pairs@.map_values(
            |p: (String, InfoRecord)| (p.0@, p.1.artist@, p.1.title_kana@),
        );
        let mut store = InfoStore::new();
        let n = pairs.len();
        let mut i: usize = 0;
        proof {
            assert(triples.take(0) =~= Seq::<(Seq<char>, Seq<char>, Seq<char>)>::empty());
        }
        while i < n
            invariant
                n == pairs@.len(),
                i <= n,
                triples == pairs@.map_values(
                    |p: (String, InfoRecord)| (p.0@, p.1.artist@, p.1.title_kana@),
                ),
                store@ == spec_store_of(triples.take(i as int)),
            decreases n - i,
        {
            let p = &pairs[i];
            store.upsert(p.0.clone(), p.1.artist.clone(), p.1.title_kana.clone());
            proof {
                assert(triples.take(i + 1).drop_last() =~= triples.take(i as int));
                assert(triples.take(i + 1).last() == triples[i as int]);
            }
            i += 1;
        }
        proof {
            assert(triples.take(n as int) =~= triples);
        }
        store
    }

    /// The entries in insertion order, for persisting the store.
    pub fn entries(&self) -> (r: Vec<(String, InfoRecord)>)
        ensures
            r@.len() == self@.len(),
            forall|i: int|
                0 <= i < r@.len() ==> r@[i].0@ == self@[i].0 && r@[i].1.artist@ == self@[i].1
                    && r@[i].1.title_kana@ == self@[i].2,
    {
        imap_pairs(&self.map)
    }
}

} // verus!
