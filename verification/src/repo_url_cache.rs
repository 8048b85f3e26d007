//! The repository URL cache that a companion tool keeps (`url.json`): a map
//! from `owner/repo` to the URL of the repository's page. The curator reads it
//! to fill in each repository's URL and to guess the owner of the data.
use crate::config::{chars_eq, find_char, first_index_of};
use crate::strings::{
    chars_ends_with, chars_of, ends_with, lemma_seq_lt_irreflexive, lemma_seq_lt_total, lemma_seq_lt_transitive, seq_lt,
    str_eq, str_less, string_from_chars, sub_chars, trim, trim_chars, trim_str, trimmed_nonempty,
};
use vstd::prelude::*;

verus! {

/// The keys of the cache entries, in order.
pub open spec fn entry_keys(e: Seq<(Seq<char>, Seq<char>)>) -> Seq<Seq<char>> {
    e.map_values(|p: (Seq<char>, Seq<char>)| p.0)
}

/// Keys strictly increase: the entries are ordered by key and no key repeats.
pub open spec fn keys_sorted(e: Seq<(Seq<char>, Seq<char>)>) -> bool {
    forall|i: int, j: int| 0 <= i < j < e.len() ==> seq_lt(#[trigger] e[i].0, #[trigger] e[j].0)
}

/// The URL recorded under `key`, if any.
pub open spec fn lookup(e: Seq<(Seq<char>, Seq<char>)>, key: Seq<char>) -> Option<Seq<char>>
    decreases e.len(),
{
    if e.len() == 0 {
        None
    } else if e.last().0 == key {
        Some(e.last().1)
    } else {
        lookup(e.drop_last(), key)
    }
}

/// The pairs as a map: a later pair replaces an earlier one with the same key.
pub open spec fn pairs_map(pairs: Seq<(Seq<char>, Seq<char>)>) -> Map<Seq<char>, Seq<char>>
    decreases pairs.len(),
{
    if pairs.len() == 0 {
        Map::empty()
    } else {
        pairs_map(pairs.drop_last()).insert(pairs.last().0, pairs.last().1)
    }
}

/// The URLs of the entries whose key ends with `suffix`, in key order.
pub open spec fn suffix_matches(e: Seq<(Seq<char>, Seq<char>)>, suffix: Seq<char>) -> Seq<Seq<char>>
    decreases e.len(),
{
    if e.len() == 0 {
        Seq::empty()
    } else if ends_with(e.last().0, suffix) {
        suffix_matches(e.drop_last(), suffix).push(e.last().1)
    } else {
        suffix_matches(e.drop_last(), suffix)
    }
}

/// What `resolve` answers: for a non-empty trimmed name, the entry
/// `owner/name` when an owner is given and it is recorded; otherwise the one
/// entry whose key ends with `/name`, when exactly one does.
pub open spec fn resolve_spec(
    e: Seq<(Seq<char>, Seq<char>)>,
    owner: Option<Seq<char>>,
    repo_name: Seq<char>,
) -> Option<Seq<char>> {
    let name = trim(repo_name);
    if name.len() == 0 {
        None
    } else {
        let direct = match owner {
            Some(o) => if trim(o).len() > 0 {
                lookup(e, trim(o) + seq!['/'] + name)
            } else {
                None
            },
            None => None,
        };
        if direct is Some {
            direct
        } else {
            let m = suffix_matches(e, seq!['/'] + name);
            if m.len() == 1 {
                Some(m[0])
            } else {
                None
            }
        }
    }
}

/// The owner part of a key, before its first `/`, when it has one.
pub open spec fn key_owner(key: Seq<char>) -> Option<Seq<char>> {
    match first_index_of(key, '/') {
        Some(i) => Some(key.take(i)),
        None => None,
    }
}

/// The repository part of a key, after its first `/`, when it has one.
pub open spec fn key_repo(key: Seq<char>) -> Option<Seq<char>> {
    match first_index_of(key, '/') {
        Some(i) => Some(key.skip(i + 1)),
        None => None,
    }
}

/// Whether `key` names a repository of `owner` whose name is in `names`.
pub open spec fn key_counts_for(key: Seq<char>, names: Set<Seq<char>>, owner: Seq<char>) -> bool {
    &&& key_owner(key) == Some(owner)
    &&& key_repo(key) is Some
    &&& names.contains(key_repo(key)->0)
}

/// How many of `keys` name a repository of `owner` whose name is in `names`.
pub open spec fn owner_count(keys: Seq<Seq<char>>, names: Set<Seq<char>>, owner: Seq<char>) -> nat
    decreases keys.len(),
{
    if keys.len() == 0 {
        0
    } else {
        owner_count(keys.drop_last(), names, owner) + if key_counts_for(keys.last(), names, owner) {
            1nat
        } else {
            0nat
        }
    }
}

/// `owner` has more matching entries than any other owner, and at least one.
pub open spec fn unique_top_owner(keys: Seq<Seq<char>>, names: Set<Seq<char>>, owner: Seq<char>) -> bool {
    &&& owner_count(keys, names, owner) > 0
    &&& forall|other: Seq<char>|
        other != owner ==> #[trigger] owner_count(keys, names, other) < owner_count(keys, names, owner)
}

/// What `infer_owner` answers: the owner with strictly the most entries whose
/// repository part is one of the trimmed, non-empty names, or nothing when no
/// owner has any or the top count is shared.
pub open spec fn infer_owner_spec(e: Seq<(Seq<char>, Seq<char>)>, names: Seq<Seq<char>>) -> Option<Seq<char>> {
    let keys = entry_keys(e);
    let set = trimmed_nonempty(names);
    if exists|o: Seq<char>| unique_top_owner(keys, set, o) {
        Some(choose|o: Seq<char>| unique_top_owner(keys, set, o))
    } else {
        None
    }
}

/// The repository URL cache: URLs by `owner/repo` key, ordered by key.
pub struct RepoUrlCache {
    entries: Vec<(String, String)>,
}

impl View for RepoUrlCache {
    type V = Seq<(Seq<char>, Seq<char>)>;

    closed spec fn view(&self) -> Seq<(Seq<char>, Seq<char>)> {
        self.entries.deep_view()
    }
}

impl RepoUrlCache {
    #[verifier::type_invariant]
    spec fn wf(self) -> bool {
        keys_sorted(self.entries.deep_view())
    }

    /// A cache with no entries.
    pub fn empty() -> (r: RepoUrlCache)
        ensures
            r@.len() == 0,
    {
        let r = RepoUrlCache { entries: Vec::new() };
        assert(r.entries.deep_view() =~= Seq::<(Seq<char>, Seq<char>)>::empty());
        r
    }

    /// A cache holding the given `(key, url)` pairs; when a key repeats, the
    /// last pair wins.
    pub fn from_entries(pairs: &[(&str, &str)]) -> (r: RepoUrlCache)
        ensures
            keys_sorted(r@),
            forall|k: Seq<char>| lookup(r@, k) == pairs_map(pair_views(pairs@)).get(k),
    {
        let mut entries: Vec<(String, String)> = Vec::new();
        let mut i: usize = 0;
        assert(entries.deep_view() =~= Seq::<(Seq<char>, Seq<char>)>::empty());
        assert(pair_views(pairs@).take(0) =~= Seq::<(Seq<char>, Seq<char>)>::empty());
        while i < pairs.len()
            invariant
                i <= pairs.len(),
                keys_sorted(entries.deep_view()),
                forall|k: Seq<char>|
                    lookup(entries.deep_view(), k) == pairs_map(pair_views(pairs@).take(i as int)).get(k),
            decreases pairs.len() - i,
        {
            let (k, v) = pairs[i];
            upsert(&mut entries, k.to_owned(), v.to_owned());
            assert(pair_views(pairs@).take(i + 1).drop_last() =~= pair_views(pairs@).take(i as int));
            i = i + 1;
        }
        assert(pair_views(pairs@).take(pairs@.len() as int) =~= pair_views(pairs@));
        RepoUrlCache { entries }
    }

    /// The URL of `repo_name`: the entry `owner/repo_name` when an owner is
    /// given and recorded, otherwise the single entry whose key ends with
    /// `/repo_name`; nothing when the name is blank or no single entry fits.
    pub fn resolve(&self, owner: Option<&str>, repo_name: &str) -> (r: Option<&str>)
        ensures
            r matches Some(u) ==> resolve_spec(self@, owner_view(owner), repo_name@) == Some(u@),
            r is None ==> resolve_spec(self@, owner_view(owner), repo_name@) is None,
    {
        let name = trim_str(repo_name);
        if name.as_str().is_empty() {
            return None;
        }
        let name_chars = chars_of(name.as_str());
        let mut slash: Vec<char> = Vec::new();
        slash.push('/');
        let ghost direct_none = true;
        match owner {
            Some(o) => {
                let o = trim_str(o);
                if !o.as_str().is_empty() {
                    let mut key = chars_of(o.as_str());
                    key.push('/');
                    let mut j: usize = 0;
                    while j < name_chars.len()
                        invariant
                            j <= name_chars.len(),
                            key@ == trim(owner->0@) + seq!['/'] + name_chars@.take(j as int),
                        decreases name_chars.len() - j,
                    {
                        key.push(name_chars[j]);
                        assert(name_chars@.take(j + 1) =~= name_chars@.take(j as int).push(name_chars@[j as int]));
                        j = j + 1;
                    }
                    assert(name_chars@.take(name_chars@.len() as int) =~= name_chars@);
                    if let Some(u) = self.lookup_key(&key) {
                        return Some(u);
                    }
                }
            },
            None => {},
        }
        let mut suffix = slash;
        let mut j: usize = 0;
        while j < name_chars.len()
            invariant
                j <= name_chars.len(),
                suffix@ == seq!['/'] + name_chars@.take(j as int),
            decreases name_chars.len() - j,
        {
            suffix.push(name_chars[j]);
            assert(name_chars@.take(j + 1) =~= name_chars@.take(j as int).push(name_chars@[j as int]));
            j = j + 1;
        }
        assert(name_chars@.take(name_chars@.len() as int) =~= name_chars@);
        self.single_suffix_match(&suffix)
    }

    /// The owner that most entries point to among the given repository
    /// names (trimmed; blank names ignored), counting each entry
    /// `owner/repo` whose `repo` is one of them. Nothing when no entry
    /// matches or the top count is shared.
    pub fn infer_owner(&self, repo_names: &[&str]) -> (r: Option<String>)
        ensures
            r matches Some(o) ==> infer_owner_spec(self@, name_views(repo_names@)) == Some(o@),
            r is None ==> infer_owner_spec(self@, name_views(repo_names@)) is None,
    {
        let ghost e = self@;
        let ghost keys = entry_keys(e);
        let ghost names = trimmed_nonempty(name_views(repo_names@));
        let mut owners: Vec<Vec<char>> = Vec::new();
        let mut counts: Vec<usize> = Vec::new();
        let mut i: usize = 0;
        while i < self.entries.len()
            invariant
                i <= self.entries.len(),
                e == self@,
                e.len() == self.entries.len(),
                keys == entry_keys(e),
                names == trimmed_nonempty(name_views(repo_names@)),
                owners.len() == counts.len(),
                forall|a: int, b: int| 0 <= a < b < owners.len() ==> #[trigger] owners@[a]@ != #[trigger] owners@[b]@,
                forall|a: int|
                    0 <= a < counts.len() ==> #[trigger] counts@[a] == owner_count(keys.take(i as int), names, owners@[a]@)
                        && counts@[a] > 0 && counts@[a] <= i,
                forall|o: Seq<char>|
                    #[trigger] owner_count(keys.take(i as int), names, o) > 0 ==> exists|a: int|
                        0 <= a < owners.len() && owners@[a]@ == o,
            decreases self.entries.len() - i,
        {
            let ghost prev = keys.take(i as int);
            assert(keys.take(i + 1).drop_last() =~= prev);
            assert(e[i as int] == (self.entries[i as int].0@, self.entries[i as int].1@));
            let key = chars_of(self.entries[i].0.as_str());
            assert(keys.take(i + 1).last() == key@);
            let ghost old_owners = owners@;
            let ghost mut hit: Seq<char> = Seq::empty();
            let ghost mut counted = false;
            match find_char(&key, '/') {
                Some(p) => {
                    let owner = sub_chars(&key, 0, p);
                    let repo = sub_chars(&key, p + 1, key.len());
                    assert(owner@ =~= key@.take(p as int));
                    assert(repo@ =~= key@.skip(p + 1));
                    if names_contain(repo_names, &repo) {
                        assert(forall|o: Seq<char>| key_counts_for(key@, names, o) <==> o == owner@);
                        proof {
                            hit = owner@;
                            counted = true;
                        }
                        let pos = position_of(&owners, &owner);
                        match pos {
                            Some(a) => {
                                let c = counts[a];
                                counts.set(a, c + 1);
                                assert(owners@[a as int]@ == hit);
                            },
                            None => {
                                owners.push(owner);
                                counts.push(1);
                                assert(owners@[owners.len() - 1]@ == hit);
                            },
                        }
                    } else {
                        assert(forall|o: Seq<char>| !key_counts_for(key@, names, o));
                    }
                    assert(counted ==> exists|a: int| 0 <= a < owners.len() && owners@[a]@ == hit);
                    assert(forall|o: Seq<char>| key_counts_for(key@, names, o) ==> counted && o == hit);
                },
                None => {
                    assert(forall|o: Seq<char>| !key_counts_for(key@, names, o));
                },
            }
            assert(counted ==> exists|a: int| 0 <= a < owners.len() && owners@[a]@ == hit);
            assert(forall|o: Seq<char>| key_counts_for(key@, names, o) ==> counted && o == hit);
            assert forall|o: Seq<char>| #[trigger] owner_count(keys.take(i + 1), names, o) > 0 implies exists|a: int|
                0 <= a < owners.len() && owners@[a]@ == o by {
                assert(owner_count(keys.take(i + 1), names, o) == owner_count(prev, names, o) + if key_counts_for(
                    key@,
                    names,
                    o,
                ) {
                    1nat
                } else {
                    0nat
                });
                if owner_count(prev, names, o) > 0 {
                    let a0 = choose|a: int| 0 <= a < old_owners.len() && old_owners[a]@ == o;
                    assert(owners@[a0] == old_owners[a0]);
                } else {
                    assert(key_counts_for(key@, names, o));
                    assert(counted && o == hit);
                }
            }
            i = i + 1;
        }
        assert(keys.take(i as int) =~= keys);
        let mut best: usize = 0;
        let mut best_count: usize = 0;
        let mut tie = false;
        let mut a: usize = 0;
        while a < counts.len()
            invariant
                a <= counts.len(),
                owners.len() == counts.len(),
                a == 0 ==> best_count == 0 && !tie,
                a > 0 ==> best < a && best_count == counts@[best as int],
                forall|j: int| 0 <= j < a ==> #[trigger] counts@[j] <= best_count,
                a > 0 ==> (tie <==> exists|j: int| 0 <= j < a && j != best && #[trigger] counts@[j] == best_count),
                forall|j: int| 0 <= j < counts.len() ==> #[trigger] counts@[j] > 0,
            decreases counts.len() - a,
        {
            if counts[a] > best_count {
                best = a;
                best_count = counts[a];
                tie = false;
            } else if counts[a] == best_count {
                tie = true;
            }
            a = a + 1;
        }
        if counts.len() == 0 {
            assert(!exists|o: Seq<char>| unique_top_owner(keys, names, o));
            return None;
        }
        if tie {
            assert(!exists|o: Seq<char>| unique_top_owner(keys, names, o)) by {
                let j = choose|j: int| 0 <= j < counts.len() && j != best && #[trigger] counts@[j] == best_count;
                assert forall|o: Seq<char>| !unique_top_owner(keys, names, o) by {
                    if unique_top_owner(keys, names, o) {
                        if o == owners@[best as int]@ {
                            assert(owner_count(keys, names, owners@[j]@) == owner_count(keys, names, o));
                        } else {
                            let c = choose|c: int| 0 <= c < owners.len() && owners@[c]@ == o;
                            assert(owner_count(keys, names, owners@[best as int]@) < owner_count(keys, names, o));
                            assert(counts@[c] <= best_count);
                        }
                    }
                }
            }
            return None;
        }
        let ghost top = owners@[best as int]@;
        assert(unique_top_owner(keys, names, top)) by {
            assert forall|other: Seq<char>| other != top implies #[trigger] owner_count(keys, names, other)
                < owner_count(keys, names, top) by {
                if owner_count(keys, names, other) > 0 {
                    let c = choose|c: int| 0 <= c < owners.len() && owners@[c]@ == other;
                    assert(c != best);
                    assert(counts@[c] <= best_count);
                }
            }
        }
        assert(infer_owner_spec(e, name_views(repo_names@)) == Some(top)) by {
            let o = choose|o: Seq<char>| unique_top_owner(keys, names, o);
            if o != top {
                assert(owner_count(keys, names, top) < owner_count(keys, names, o));
            }
        }
        Some(string_from_chars(&owners[best]))
    }

    /// The URL recorded under `key`, if any.
    fn lookup_key(&self, key: &Vec<char>) -> (r: Option<&str>)
        ensures
            r matches Some(u) ==> lookup(self@, key@) == Some(u@),
            r is None ==> lookup(self@, key@) is None,
    {
        let ghost e = self@;
        let mut i: usize = self.entries.len();
        assert(e.take(i as int) =~= e);
        while i > 0
            invariant
                i <= self.entries.len(),
                e == self@,
                e.len() == self.entries.len(),
                lookup(e, key@) == lookup(e.take(i as int), key@),
            decreases i,
        {
            let k = chars_of(self.entries[i - 1].0.as_str());
            assert(self.entries.deep_view()[i - 1] == (self.entries[i - 1].0@, self.entries[i - 1].1@));
            assert(e.take(i as int).drop_last() =~= e.take(i - 1));
            if chars_eq(&k, key) {
                return Some(self.entries[i - 1].1.as_str());
            }
            i = i - 1;
        }
        None
    }

    /// The URL of the single entry whose key ends with `suffix`, if exactly
    /// one does.
    fn single_suffix_match(&self, suffix: &Vec<char>) -> (r: Option<&str>)
        ensures
            r matches Some(u) ==> suffix_matches(self@, suffix@).len() == 1 && suffix_matches(self@, suffix@)[0] == u@,
            r is None ==> suffix_matches(self@, suffix@).len() != 1,
    {
        let ghost e = self@;
        let mut found: Option<usize> = None;
        let mut count: usize = 0;
        let mut i: usize = 0;
        assert(e.take(0) =~= Seq::<(Seq<char>, Seq<char>)>::empty());
        while i < self.entries.len()
            invariant
                i <= self.entries.len(),
                e == self@,
                e.len() == self.entries.len(),
                count == suffix_matches(e.take(i as int), suffix@).len(),
                count <= i,
                count >= 1 ==> (found matches Some(f) && f < self.entries.len() && suffix_matches(
                    e.take(i as int),
                    suffix@,
                )[0] == e[f as int].1),
            decreases self.entries.len() - i,
        {
            assert(e.take(i + 1).drop_last() =~= e.take(i as int));
            assert(e[i as int] == (self.entries[i as int].0@, self.entries[i as int].1@));
            let k = chars_of(self.entries[i].0.as_str());
            if chars_ends_with(&k, suffix) {
                if count == 0 {
                    found = Some(i);
                }
                count = count + 1;
            }
            i = i + 1;
        }
        assert(e.take(i as int) =~= e);
        if count == 1 {
            match found {
                Some(f) => {
                    assert(e[f as int] == (self.entries[f as int].0@, self.entries[f as int].1@));
                    Some(self.entries[f].1.as_str())
                },
                None => None,
            }
        } else {
            None
        }
    }
}

/// Some key counts for `owner` when its count is positive.
proof fn lemma_owner_count_positive(keys: Seq<Seq<char>>, names: Set<Seq<char>>, owner: Seq<char>)
    requires
        owner_count(keys, names, owner) > 0,
    ensures
        exists|k: int| 0 <= k < keys.len() && key_counts_for(#[trigger] keys[k], names, owner),
    decreases keys.len(),
{
    if key_counts_for(keys.last(), names, owner) {
        assert(key_counts_for(keys[keys.len() - 1], names, owner));
    } else {
        lemma_owner_count_positive(keys.drop_last(), names, owner);
        let k = choose|k: int| 0 <= k < keys.len() - 1 && key_counts_for(#[trigger] keys.drop_last()[k], names, owner);
        assert(keys.drop_last()[k] == keys[k]);
    }
}

/// Counting over two lists of keys adds up.
proof fn lemma_owner_count_concat(a: Seq<Seq<char>>, b: Seq<Seq<char>>, names: Set<Seq<char>>, owner: Seq<char>)
    ensures
        owner_count(a + b, names, owner) == owner_count(a, names, owner) + owner_count(b, names, owner),
    decreases b.len(),
{
    if b.len() == 0 {
        assert(a + b =~= a);
    } else {
        lemma_owner_count_concat(a, b.drop_last(), names, owner);
        assert((a + b).drop_last() =~= a + b.drop_last());
        assert((a + b).last() == b.last());
    }
}

/// Keys none of which counts for any owner count nothing.
proof fn lemma_owner_count_zero(keys: Seq<Seq<char>>, names: Set<Seq<char>>, owner: Seq<char>)
    requires
        forall|k: int| 0 <= k < keys.len() ==> !key_counts_for(#[trigger] keys[k], names, owner),
    ensures
        owner_count(keys, names, owner) == 0,
    decreases keys.len(),
{
    if keys.len() > 0 {
        assert(!key_counts_for(keys[keys.len() - 1], names, owner));
        assert forall|k: int| 0 <= k < keys.len() - 1 implies !key_counts_for(#[trigger] keys.drop_last()[k], names, owner) by {
            assert(keys.drop_last()[k] == keys[k]);
        }
        lemma_owner_count_zero(keys.drop_last(), names, owner);
    }
}

/// An owner is inferred only from an entry naming one of the given
/// repositories: some key `owner/repo` (split at its first `/`) has `repo`
/// equal to one of the names, trimmed and not blank.
pub proof fn law_owner_inferred_from_named_repos(e: Seq<(Seq<char>, Seq<char>)>, names: Seq<Seq<char>>)
    ensures
        infer_owner_spec(e, names) matches Some(o) ==> exists|k: int, p: int|
            #![trigger e[k].0[p]]
            0 <= k < e.len() && 0 <= p < e[k].0.len() && e[k].0[p] == '/' && (forall|q: int|
                0 <= q < p ==> e[k].0[q] != '/') && e[k].0.take(p) == o && exists|j: int|
                0 <= j < names.len() && trim(#[trigger] names[j]).len() > 0 && trim(names[j]) == e[k].0.skip(p + 1),
{
    let keys = entry_keys(e);
    let set = trimmed_nonempty(names);
    if let Some(o) = infer_owner_spec(e, names) {
        assert(unique_top_owner(keys, set, o));
        lemma_owner_count_positive(keys, set, o);
        let k = choose|k: int| 0 <= k < keys.len() && key_counts_for(#[trigger] keys[k], set, o);
        let key = keys[k];
        assert(key == e[k].0);
        let p = first_index_of(key, '/')->0;
        assert(first_index_of(key, '/') is Some);
        crate::config::lemma_first_index_of(key, '/');
        assert(0 <= p < key.len() && key[p] == '/' && forall|q: int| 0 <= q < p ==> key[q] != '/');
        assert(set.contains(key.skip(p + 1)));
        let j = choose|j: int| 0 <= j < names.len() && trim(#[trigger] names[j]) == key.skip(p + 1);
        assert(trim(names[j]).len() > 0);
        assert(e[k].0[p] == '/');
    }
}

/// Entries that name none of the given repositories change nothing of the
/// inferred owner: only entries naming them count.
pub proof fn law_owner_ignores_other_repos(
    e: Seq<(Seq<char>, Seq<char>)>,
    extra: Seq<(Seq<char>, Seq<char>)>,
    names: Seq<Seq<char>>,
)
    requires
        forall|k: int, j: int|
            0 <= k < extra.len() && 0 <= j < names.len() ==> key_repo(#[trigger] extra[k].0) != Some(
                trim(#[trigger] names[j]),
            ),
    ensures
        infer_owner_spec(e + extra, names) == infer_owner_spec(e, names),
{
    let set = trimmed_nonempty(names);
    let a = entry_keys(e);
    let b = entry_keys(extra);
    assert(entry_keys(e + extra) =~= a + b);
    assert forall|o: Seq<char>| owner_count(a + b, set, o) == #[trigger] owner_count(a, set, o) by {
        lemma_owner_count_concat(a, b, set, o);
        assert forall|k: int| 0 <= k < b.len() implies !key_counts_for(#[trigger] b[k], set, o) by {
            assert(b[k] == extra[k].0);
            if key_counts_for(b[k], set, o) {
                let r = key_repo(b[k])->0;
                assert(set.contains(r));
                let j = choose|j: int| 0 <= j < names.len() && trim(#[trigger] names[j]) == r;
                assert(key_repo(extra[k].0) != Some(trim(names[j])));
            }
        }
        lemma_owner_count_zero(b, set, o);
    }
    assert forall|o: Seq<char>| unique_top_owner(a + b, set, o) == unique_top_owner(a, set, o) by {
        assert(owner_count(a + b, set, o) == owner_count(a, set, o));
        if unique_top_owner(a, set, o) {
            assert forall|other: Seq<char>| other != o implies #[trigger] owner_count(a + b, set, other) < owner_count(
                a + b,
                set,
                o,
            ) by {
                assert(owner_count(a + b, set, other) == owner_count(a, set, other));
            }
        }
        if unique_top_owner(a + b, set, o) {
            assert forall|other: Seq<char>| other != o implies #[trigger] owner_count(a, set, other) < owner_count(
                a,
                set,
                o,
            ) by {
                assert(owner_count(a + b, set, other) == owner_count(a, set, other));
            }
        }
    }
    if exists|o: Seq<char>| unique_top_owner(a, set, o) {
        let o1 = choose|o: Seq<char>| unique_top_owner(a + b, set, o);
        let o2 = choose|o: Seq<char>| unique_top_owner(a, set, o);
        assert(unique_top_owner(a, set, o2));
        assert(unique_top_owner(a + b, set, o2));
        assert(unique_top_owner(a + b, set, o1));
        assert(unique_top_owner(a, set, o1));
        if o1 != o2 {
            assert(owner_count(a, set, o1) < owner_count(a, set, o2));
            assert(owner_count(a, set, o2) < owner_count(a, set, o1));
        }
    } else {
        assert forall|o: Seq<char>| !unique_top_owner(a + b, set, o) by {
            assert(unique_top_owner(a + b, set, o) == unique_top_owner(a, set, o));
        }
    }
}

/// A key that counts for `owner` makes its count positive.
proof fn lemma_owner_count_of_member(keys: Seq<Seq<char>>, names: Set<Seq<char>>, owner: Seq<char>, k: int)
    requires
        0 <= k < keys.len(),
        key_counts_for(keys[k], names, owner),
    ensures
        owner_count(keys, names, owner) > 0,
    decreases keys.len(),
{
    if k < keys.len() - 1 {
        assert(keys.drop_last()[k] == keys[k]);
        lemma_owner_count_of_member(keys.drop_last(), names, owner, k);
    }
}

/// When every entry naming one of the given repositories belongs to `owner`,
/// and at least one does, `owner` is inferred.
pub proof fn law_sole_owner_is_inferred(e: Seq<(Seq<char>, Seq<char>)>, names: Seq<Seq<char>>, owner: Seq<char>, k: int)
    requires
        0 <= k < e.len(),
        key_owner(e[k].0) == Some(owner),
        key_repo(e[k].0) matches Some(r) && trimmed_nonempty(names).contains(r),
        forall|j: int|
            0 <= j < e.len() && (key_repo(#[trigger] e[j].0) matches Some(r) && trimmed_nonempty(names).contains(r))
                ==> key_owner(e[j].0) == Some(owner),
    ensures
        infer_owner_spec(e, names) == Some(owner),
{
    let keys = entry_keys(e);
    let set = trimmed_nonempty(names);
    assert(keys[k] == e[k].0);
    lemma_owner_count_of_member(keys, set, owner, k);
    assert forall|other: Seq<char>| other != owner implies #[trigger] owner_count(keys, set, other) < owner_count(
        keys,
        set,
        owner,
    ) by {
        assert forall|j: int| 0 <= j < keys.len() implies !key_counts_for(#[trigger] keys[j], set, other) by {
            assert(keys[j] == e[j].0);
        }
        lemma_owner_count_zero(keys, set, other);
    }
    assert(unique_top_owner(keys, set, owner));
    let c = choose|o: Seq<char>| unique_top_owner(keys, set, o);
    if c != owner {
        assert(owner_count(keys, set, owner) < owner_count(keys, set, c));
        assert(owner_count(keys, set, c) < owner_count(keys, set, owner));
    }
}

/// One more entry for the inferred owner, naming one of the given
/// repositories, keeps that owner inferred.
pub proof fn law_more_entries_keep_the_owner(
    e: Seq<(Seq<char>, Seq<char>)>,
    names: Seq<Seq<char>>,
    owner: Seq<char>,
    entry: (Seq<char>, Seq<char>),
)
    requires
        infer_owner_spec(e, names) == Some(owner),
        key_owner(entry.0) == Some(owner),
        key_repo(entry.0) matches Some(r) && trimmed_nonempty(names).contains(r),
    ensures
        infer_owner_spec(e.push(entry), names) == Some(owner),
{
    let keys = entry_keys(e);
    let keys2 = entry_keys(e.push(entry));
    let set = trimmed_nonempty(names);
    assert(keys2 =~= keys.push(entry.0));
    assert(keys2.drop_last() =~= keys);
    assert(unique_top_owner(keys, set, owner));
    assert(key_counts_for(entry.0, set, owner));
    assert(owner_count(keys2, set, owner) == owner_count(keys, set, owner) + 1);
    assert forall|other: Seq<char>| other != owner implies #[trigger] owner_count(keys2, set, other) < owner_count(
        keys2,
        set,
        owner,
    ) by {
        assert(!key_counts_for(entry.0, set, other));
        assert(owner_count(keys2, set, other) == owner_count(keys, set, other));
        assert(owner_count(keys, set, other) < owner_count(keys, set, owner));
    }
    assert(unique_top_owner(keys2, set, owner));
    let c = choose|o: Seq<char>| unique_top_owner(keys2, set, o);
    if c != owner {
        assert(owner_count(keys2, set, owner) < owner_count(keys2, set, c));
        assert(owner_count(keys2, set, c) < owner_count(keys2, set, owner));
    }
}

/// The view of an optional owner.
pub open spec fn owner_view(owner: Option<&str>) -> Option<Seq<char>> {
    match owner {
        Some(o) => Some(o@),
        None => None,
    }
}

/// The views of a list of names.
pub open spec fn name_views(names: Seq<&str>) -> Seq<Seq<char>> {
    names.map_values(|n: &str| n@)
}

/// Whether `repo` is one of the trimmed, non-empty names.
fn names_contain(names: &[&str], repo: &Vec<char>) -> (r: bool)
    ensures
        r == trimmed_nonempty(name_views(names@)).contains(repo@),
{
    if repo.len() == 0 {
        return false;
    }
    let ghost nv = name_views(names@);
    let mut i: usize = 0;
    while i < names.len()
        invariant
            i <= names.len(),
            nv == name_views(names@),
            repo@.len() > 0,
            forall|k: int| 0 <= k < i ==> trim(#[trigger] nv[k]) != repo@,
        decreases names.len() - i,
    {
        let t = chars_of(trim_str(names[i]).as_str());
        if chars_eq(&t, repo) {
            assert(trim(nv[i as int]) == repo@);
            return true;
        }
        i = i + 1;
    }
    false
}

/// The position of `x` in `list`, if it is there.
fn position_of(list: &Vec<Vec<char>>, x: &Vec<char>) -> (r: Option<usize>)
    ensures
        r matches Some(a) ==> a < list.len() && list@[a as int]@ == x@,
        r is None ==> forall|a: int| 0 <= a < list.len() ==> #[trigger] list@[a]@ != x@,
{
    let mut i: usize = 0;
    while i < list.len()
        invariant
            i <= list.len(),
            forall|a: int| 0 <= a < i ==> #[trigger] list@[a]@ != x@,
        decreases list.len() - i,
    {
        if chars_eq(&list[i], x) {
            return Some(i);
        }
        i = i + 1;
    }
    None
}

/// The views of `(key, url)` pairs.
pub open spec fn pair_views(pairs: Seq<(&str, &str)>) -> Seq<(Seq<char>, Seq<char>)> {
    pairs.map_values(|p: (&str, &str)| (p.0@, p.1@))
}

/// Sets `key` to `value` in the key-ordered entries, replacing an existing
/// entry with that key or inserting one in order.
fn upsert(entries: &mut Vec<(String, String)>, key: String, value: String)
    requires
        keys_sorted(old(entries).deep_view()),
    ensures
        keys_sorted(final(entries).deep_view()),
        forall|k: Seq<char>|
            lookup(final(entries).deep_view(), k) == (if k == key@ {
                Some(value@)
            } else {
                lookup(old(entries).deep_view(), k)
            }),
{
    let ghost e = entries.deep_view();
    let mut i: usize = 0;
    while i < entries.len() && str_less(entries[i].0.as_str(), key.as_str())
        invariant
            i <= entries.len(),
            entries.deep_view() == e,
            keys_sorted(e),
            forall|k: int| 0 <= k < i ==> seq_lt(#[trigger] e[k].0, key@),
        decreases entries.len() - i,
    {
        assert(e[i as int] == (entries[i as int].0@, entries[i as int].1@));
        i = i + 1;
    }
    if i < entries.len() {
        assert(e[i as int] == (entries[i as int].0@, entries[i as int].1@));
    }
    if i < entries.len() && str_eq(entries[i].0.as_str(), key.as_str()) {
        let ghost kv = key@;
        let ghost vv = value@;
        entries.set(i, (key, value));
        let ghost ne = entries.deep_view();
        assert(ne =~= e.update(i as int, (kv, vv))) by {
            assert forall|k: int| 0 <= k < ne.len() implies ne[k] == e.update(i as int, (kv, vv))[k] by {
                if k != i {
                    assert(ne[k] == e[k]);
                }
            }
        }
        assert(keys_sorted(ne)) by {
            assert forall|a: int, b: int| 0 <= a < b < ne.len() implies seq_lt(#[trigger] ne[a].0, #[trigger] ne[b].0) by {
                assert(e[a].0 == ne[a].0 || a == i);
                assert(e[b].0 == ne[b].0 || b == i);
                assert(ne[i as int].0 == e[i as int].0);
            }
        }
        proof {
            lemma_lookup_update(e, i as int, kv, vv);
        }
    } else {
        let ghost kv = key@;
        let ghost vv = value@;
        entries.insert(i, (key, value));
        let ghost ne = entries.deep_view();
        assert(ne =~= e.insert(i as int, (kv, vv))) by {
            assert forall|k: int| 0 <= k < ne.len() implies ne[k] == e.insert(i as int, (kv, vv))[k] by {
                if k < i {
                    assert(ne[k] == e[k]);
                } else if k > i {
                    assert(ne[k] == e[k - 1]);
                }
            }
        }
        proof {
            if i < e.len() {
                lemma_seq_lt_total(e[i as int].0, kv);
            }
            assert forall|a: int, b: int| 0 <= a < b < ne.len() implies seq_lt(#[trigger] ne[a].0, #[trigger] ne[b].0) by {
                if a < i && b == i {
                } else if a < i && b > i {
                    if b - 1 > i {
                        lemma_seq_lt_transitive(kv, e[i as int].0, e[b - 1].0);
                    }
                    lemma_seq_lt_transitive(e[a].0, kv, e[b - 1].0);
                } else if a == i && b > i {
                    if b - 1 > i {
                        lemma_seq_lt_transitive(kv, e[i as int].0, e[b - 1].0);
                    }
                } else if a > i {
                    assert(ne[a] == e[a - 1] && ne[b] == e[b - 1]);
                } else {
                    assert(ne[a] == e[a] && ne[b] == e[b]);
                }
            }
            lemma_lookup_insert(e, i as int, kv, vv);
        }
    }
}

/// In key-ordered entries, the entry at position `i` is found under its key
/// and under no other.
proof fn lemma_lookup_at(e: Seq<(Seq<char>, Seq<char>)>, i: int)
    requires
        keys_sorted(e),
        0 <= i < e.len(),
    ensures
        lookup(e, e[i].0) == Some(e[i].1),
    decreases e.len(),
{
    if i == e.len() - 1 {
    } else {
        lemma_seq_lt_irreflexive(e[i].0);
        assert(seq_lt(e[i].0, e.last().0));
        let d = e.drop_last();
        assert(keys_sorted(d)) by {
            assert forall|a: int, b: int| 0 <= a < b < d.len() implies seq_lt(#[trigger] d[a].0, #[trigger] d[b].0) by {
                assert(d[a] == e[a] && d[b] == e[b]);
            }
        }
        lemma_lookup_at(d, i);
        assert(d[i] == e[i]);
    }
}

/// A key that no entry has is not found.
proof fn lemma_lookup_absent(e: Seq<(Seq<char>, Seq<char>)>, k: Seq<char>)
    requires
        forall|j: int| 0 <= j < e.len() ==> #[trigger] e[j].0 != k,
    ensures
        lookup(e, k) is None,
    decreases e.len(),
{
    if e.len() > 0 {
        let d = e.drop_last();
        assert forall|j: int| 0 <= j < d.len() implies #[trigger] d[j].0 != k by {
            assert(d[j] == e[j]);
        }
        lemma_lookup_absent(d, k);
    }
}

/// In key-ordered entries, the one found under `k`, if any, is the entry with
/// that key.
proof fn lemma_lookup_sorted(e: Seq<(Seq<char>, Seq<char>)>, k: Seq<char>)
    requires
        keys_sorted(e),
    ensures
        (exists|j: int| 0 <= j < e.len() && #[trigger] e[j].0 == k) ==> lookup(e, k) == Some(
            e[choose|j: int| 0 <= j < e.len() && #[trigger] e[j].0 == k].1,
        ),
        (forall|j: int| 0 <= j < e.len() ==> #[trigger] e[j].0 != k) ==> lookup(e, k) is None,
{
    if exists|j: int| 0 <= j < e.len() && #[trigger] e[j].0 == k {
        let j = choose|j: int| 0 <= j < e.len() && #[trigger] e[j].0 == k;
        lemma_lookup_at(e, j);
    } else {
        lemma_lookup_absent(e, k);
    }
}

/// Replacing the value at position `i` changes what is found under that key
/// alone.
proof fn lemma_lookup_update(e: Seq<(Seq<char>, Seq<char>)>, i: int, k: Seq<char>, v: Seq<char>)
    requires
        keys_sorted(e),
        0 <= i < e.len(),
        e[i].0 == k,
    ensures
        forall|q: Seq<char>|
            lookup(e.update(i, (k, v)), q) == (if q == k {
                Some(v)
            } else {
                lookup(e, q)
            }),
{
    let ne = e.update(i, (k, v));
    assert(keys_sorted(ne)) by {
        assert forall|a: int, b: int| 0 <= a < b < ne.len() implies seq_lt(#[trigger] ne[a].0, #[trigger] ne[b].0) by {
            assert(ne[a].0 == e[a].0 && ne[b].0 == e[b].0);
        }
    }
    assert forall|q: Seq<char>| lookup(ne, q) == (if q == k { Some(v) } else { lookup(e, q) }) by {
        lemma_lookup_sorted(e, q);
        lemma_lookup_sorted(ne, q);
        if q == k {
            lemma_lookup_at(ne, i);
        } else if exists|j: int| 0 <= j < e.len() && #[trigger] e[j].0 == q {
            let j = choose|j: int| 0 <= j < e.len() && #[trigger] e[j].0 == q;
            assert(ne[j] == e[j]);
            lemma_lookup_at(e, j);
            lemma_lookup_at(ne, j);
        } else {
            assert forall|j: int| 0 <= j < ne.len() implies #[trigger] ne[j].0 != q by {
                assert(ne[j].0 == e[j].0);
            }
        }
    }
}

/// Inserting a new key at position `i` of key-ordered entries changes what is
/// found under that key alone.
proof fn lemma_lookup_insert(e: Seq<(Seq<char>, Seq<char>)>, i: int, k: Seq<char>, v: Seq<char>)
    requires
        keys_sorted(e),
        keys_sorted(e.insert(i, (k, v))),
        0 <= i <= e.len(),
    ensures
        forall|q: Seq<char>|
            lookup(e.insert(i, (k, v)), q) == (if q == k {
                Some(v)
            } else {
                lookup(e, q)
            }),
{
    let ne = e.insert(i, (k, v));
    assert forall|q: Seq<char>| lookup(ne, q) == (if q == k { Some(v) } else { lookup(e, q) }) by {
        lemma_lookup_sorted(e, q);
        lemma_lookup_sorted(ne, q);
        if q == k {
            lemma_lookup_at(ne, i);
        } else if exists|j: int| 0 <= j < e.len() && #[trigger] e[j].0 == q {
            let j = choose|j: int| 0 <= j < e.len() && #[trigger] e[j].0 == q;
            lemma_lookup_at(e, j);
            if j < i {
                assert(ne[j] == e[j]);
                lemma_lookup_at(ne, j);
            } else {
                assert(ne[j + 1] == e[j]);
                lemma_lookup_at(ne, j + 1);
            }
        } else {
            assert forall|j: int| 0 <= j < ne.len() implies #[trigger] ne[j].0 != q by {
                if j < i {
                    assert(ne[j] == e[j]);
                } else if j > i {
                    assert(ne[j] == e[j - 1]);
                }
            }
        }
    }
}

} // verus!
