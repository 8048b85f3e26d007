//! Merging the repository list that GitHub reports into the curated data.
use crate::model::{
    list_contains, normalized_group, repo_views, stable_sort_newest_first, RepoData, Repo, RepoView,
    Timestamp, DEFAULT_GROUP_NAME,
};
use crate::strings::{str_eq, strictly_sorted, trim, trimmed_nonempty};
use vstd::prelude::*;

verus! {

/// How many repositories a sync added and how many it changed.
#[derive(Debug, Clone, Copy, PartialEq, Eq, Structural)]
pub struct SyncSummary {
    pub added: usize,
    pub updated: usize,
}

/// One public repository as GitHub lists it.
#[derive(Debug, Clone)]
pub struct FetchedRepo {
    pub name: String,
    pub created_at: Timestamp,
    pub updated_at: Timestamp,
    pub github_desc: String,
}

/// A listed repository as plain values.
pub struct FetchedView {
    pub name: Seq<char>,
    pub created_at: Timestamp,
    pub updated_at: Timestamp,
    pub github_desc: Seq<char>,
}

impl View for FetchedRepo {
    type V = FetchedView;

    open spec fn view(&self) -> FetchedView {
        FetchedView {
            name: self.name@,
            created_at: self.created_at,
            updated_at: self.updated_at,
            github_desc: self.github_desc@,
        }
    }
}

/// The views of listed repositories.
pub open spec fn fetched_views(s: Seq<FetchedRepo>) -> Seq<FetchedView> {
    s.map_values(|f: FetchedRepo| f@)
}

/// The position of the first repository named `name`, if any.
pub open spec fn find_name(s: Seq<RepoView>, name: Seq<char>) -> Option<int> {
    if exists|k: int| 0 <= k < s.len() && #[trigger] s[k].name == name {
        Some(
            choose|k: int|
                0 <= k < s.len() && #[trigger] s[k].name == name && forall|j: int| 0 <= j < k ==> s[j].name != name,
        )
    } else {
        None
    }
}

/// A newly listed repository as it is recorded: no URL, no descriptions of
/// our own, in the default group, without tags.
pub open spec fn fetched_as_repo(f: FetchedView) -> RepoView {
    RepoView {
        name: f.name,
        url: Seq::empty(),
        created_at: f.created_at,
        updated_at: Some(f.updated_at),
        github_desc: f.github_desc,
        desc_short: Seq::empty(),
        desc_long: Seq::empty(),
        group: DEFAULT_GROUP_NAME@,
        tags: Seq::empty(),
    }
}

/// A known repository with GitHub's creation time, update time and
/// description.
pub open spec fn with_fetched(e: RepoView, f: FetchedView) -> RepoView {
    RepoView { created_at: f.created_at, updated_at: Some(f.updated_at), github_desc: f.github_desc, ..e }
}

/// Whether GitHub reports something else than what is recorded.
pub open spec fn fetched_changes(e: RepoView, f: FetchedView) -> bool {
    e.created_at != f.created_at || e.updated_at != Some(f.updated_at) || e.github_desc != f.github_desc
}

/// The repositories after merging `fetched` in order, with how many were
/// added and how many changed: a listed repository updates the first one of
/// its name, or is appended when there is none.
pub open spec fn apply_fetched_spec(repos: Seq<RepoView>, fetched: Seq<FetchedView>) -> (Seq<RepoView>, nat, nat)
    decreases fetched.len(),
{
    if fetched.len() == 0 {
        (repos, 0, 0)
    } else {
        let prev = apply_fetched_spec(repos, fetched.drop_last());
        let rs = prev.0;
        let f = fetched.last();
        match find_name(rs, f.name) {
            Some(k) => (
                rs.update(k, with_fetched(rs[k], f)),
                prev.1,
                prev.2 + if fetched_changes(rs[k], f) {
                    1nat
                } else {
                    0nat
                },
            ),
            None => (rs.push(fetched_as_repo(f)), prev.1 + 1, prev.2),
        }
    }
}

/// The registered groups after a sync: unchanged unless a repository was
/// added and the default group was not registered; then normalized with the
/// default group added.
pub open spec fn groups_after_sync(groups: Seq<Seq<char>>, added: nat, result: Seq<Seq<char>>) -> bool {
    if added == 0 || groups.contains(DEFAULT_GROUP_NAME@) {
        result == groups
    } else {
        strictly_sorted(result) && result.to_set() == trimmed_nonempty(groups.push(DEFAULT_GROUP_NAME@))
    }
}

/// The position of the first repository named `name`, if any.
fn position_by_name(repos: &Vec<Repo>, name: &str) -> (r: Option<usize>)
    ensures
        r matches Some(k) ==> find_name(repo_views(repos@), name@) == Some(k as int) && k < repos.len(),
        r is None ==> find_name(repo_views(repos@), name@) is None,
{
    let ghost s = repo_views(repos@);
    let mut i: usize = 0;
    while i < repos.len()
        invariant
            i <= repos.len(),
            s == repo_views(repos@),
            forall|j: int| 0 <= j < i ==> s[j].name != name@,
        decreases repos.len() - i,
    {
        if str_eq(repos[i].name.as_str(), name) {
            assert(s[i as int].name == name@);
            proof {
                let k = choose|k: int|
                    0 <= k < s.len() && #[trigger] s[k].name == name@ && forall|j: int| 0 <= j < k ==> s[j].name != name@;
                if k < i {
                } else if k > i {
                    assert(s[i as int].name == name@);
                }
            }
            return Some(i);
        }
        i = i + 1;
    }
    None
}

/// Merges one listed repository into `repos`: updates the first repository
/// of its name, or appends it. Tells whether it was appended and whether an
/// existing record changed.
fn merge_one(repos: &mut Vec<Repo>, f: &FetchedRepo) -> (r: (bool, bool))
    ensures
        match find_name(repo_views(old(repos)@), f@.name) {
            Some(k) => {
                &&& repo_views(final(repos)@) == repo_views(old(repos)@).update(
                    k,
                    with_fetched(repo_views(old(repos)@)[k], f@),
                )
                &&& !r.0
                &&& r.1 == fetched_changes(repo_views(old(repos)@)[k], f@)
            },
            None => {
                &&& repo_views(final(repos)@) == repo_views(old(repos)@).push(fetched_as_repo(f@))
                &&& r.0
                &&& !r.1
            },
        },
{
    let ghost rs = repo_views(repos@);
    match position_by_name(repos, f.name.as_str()) {
        Some(k) => {
            let ghost before = repos@;
            let mut e = repos.remove(k);
            let ghost ev = e@;
            assert(ev == rs[k as int]);
            let mut changed = false;
            if !(e.created_at == f.created_at) {
                e.created_at = f.created_at;
                changed = true;
            }
            let same_updated = match e.updated_at {
                Some(t) => t == f.updated_at,
                None => false,
            };
            if !same_updated {
                e.updated_at = Some(f.updated_at);
                changed = true;
            }
            if !str_eq(e.github_desc.as_str(), f.github_desc.as_str()) {
                e.github_desc = f.github_desc.clone();
                changed = true;
            }
            assert(changed == fetched_changes(ev, f@));
            assert(e@ == with_fetched(ev, f@));
            let ghost mid = repos@;
            repos.insert(k, e);
            assert(repo_views(repos@) =~= rs.update(k as int, with_fetched(rs[k as int], f@))) by {
                assert forall|j: int| 0 <= j < rs.len() implies repo_views(repos@)[j] == rs.update(
                    k as int,
                    with_fetched(rs[k as int], f@),
                )[j] by {
                    if j < k {
                        assert(repos@[j] == mid[j]);
                        assert(mid[j] == before[j]);
                    } else if j > k {
                        assert(repos@[j] == mid[j - 1]);
                        assert(mid[j - 1] == before[j]);
                    }
                }
            }
            (false, changed)
        },
        None => {
            let repo = Repo {
                name: f.name.clone(),
                url: String::new(),
                created_at: f.created_at,
                updated_at: Some(f.updated_at),
                github_desc: f.github_desc.clone(),
                desc_short: String::new(),
                desc_long: String::new(),
                group: DEFAULT_GROUP_NAME.to_owned(),
                tags: Vec::new(),
            };
            assert(repo.tags.deep_view() =~= Seq::<Seq<char>>::empty());
            assert(repo@ == fetched_as_repo(f@));
            repos.push(repo);
            assert(repo_views(repos@) =~= rs.push(fetched_as_repo(f@)));
            (true, false)
        },
    }
}

/// Merges the repositories that GitHub lists into `data` (see
/// `apply_fetched_spec`), registers the default group when a repository
/// was added, records `today` as the date of the sync and sorts the
/// repositories newest first.
pub fn apply_fetched_repos(data: &mut RepoData, fetched: Vec<FetchedRepo>, today: String) -> (r: SyncSummary)
    ensures
        ({
            let res = apply_fetched_spec(repo_views(old(data).repos@), fetched_views(fetched@));
            &&& r.added == res.1
            &&& r.updated == res.2
            &&& stable_sort_newest_first(repo_views(final(data).repos@), res.0)
            &&& groups_after_sync(
                old(data).registered_groups.deep_view(),
                res.1,
                final(data).registered_groups.deep_view(),
            )
        }),
        final(data).meta.github_desc_updated_at@ == today@,
        final(data).meta.last_json_commit_push_date == old(data).meta.last_json_commit_push_date,
        final(data).meta.owner == old(data).meta.owner,
        final(data).registered_tags == old(data).registered_tags,
{
    let ghost fv = fetched_views(fetched@);
    let ghost start = repo_views(data.repos@);
    let ghost groups0 = data.registered_groups.deep_view();
    let ghost meta0 = data.meta;
    let ghost tags0 = data.registered_tags;
    let mut added: usize = 0;
    let mut updated: usize = 0;
    let mut i: usize = 0;
    proof {
        crate::model::lemma_default_group_trimmed();
    }
    assert(fv.take(0) =~= Seq::<FetchedView>::empty());
    while i < fetched.len()
        invariant
            i <= fetched.len(),
            fv == fetched_views(fetched@),
            meta0 == data.meta,
            tags0 == data.registered_tags,
            added <= i,
            updated <= i,
            ({
                let res = apply_fetched_spec(start, fv.take(i as int));
                &&& repo_views(data.repos@) == res.0
                &&& added == res.1
                &&& updated == res.2
                &&& groups_after_sync(groups0, res.1, data.registered_groups.deep_view())
            }),
            trim(DEFAULT_GROUP_NAME@) == DEFAULT_GROUP_NAME@,
            DEFAULT_GROUP_NAME@.len() > 0,
            normalized_group(DEFAULT_GROUP_NAME@) == DEFAULT_GROUP_NAME@,
        decreases fetched.len() - i,
    {
        let ghost prev = apply_fetched_spec(start, fv.take(i as int));
        assert(fv.take(i + 1).drop_last() =~= fv.take(i as int));
        assert(fv.take(i + 1).last() == fetched@[i as int]@);
        let f = &fetched[i];
        let ghost rs = repo_views(data.repos@);
        let (was_added, changed) = merge_one(&mut data.repos, f);
        if was_added {
            let ghost g_before = data.registered_groups.deep_view();
            data.ensure_registered_group(DEFAULT_GROUP_NAME);
            proof {
                if added > 0 && !groups0.contains(DEFAULT_GROUP_NAME@) {
                    // the default group is registered since the first addition
                    assert(trimmed_nonempty(groups0.push(DEFAULT_GROUP_NAME@)).contains(DEFAULT_GROUP_NAME@)) by {
                        assert(groups0.push(DEFAULT_GROUP_NAME@)[groups0.len() as int] == DEFAULT_GROUP_NAME@);
                    }
                    assert(g_before.to_set().contains(DEFAULT_GROUP_NAME@));
                    assert(g_before.contains(DEFAULT_GROUP_NAME@));
                }
            }
            added = added + 1;
        }
        if changed {
            updated = updated + 1;
        }
        i = i + 1;
    }
    assert(fv.take(i as int) =~= fv);
    data.meta.github_desc_updated_at = today;
    data.sort_repos();
    SyncSummary { added, updated }
}

/// What is curated locally of a repository is the same in `a` and `b`: its
/// name, URL, descriptions of our own, group and tags.
pub open spec fn same_local_fields(a: RepoView, b: RepoView) -> bool {
    &&& a.name == b.name
    &&& a.url == b.url
    &&& a.desc_short == b.desc_short
    &&& a.desc_long == b.desc_long
    &&& a.group == b.group
    &&& a.tags == b.tags
}

/// A sync keeps every known repository in its place with what is curated
/// locally untouched, and only appends the new ones, each as GitHub lists
/// it with nothing curated yet.
pub proof fn law_sync_keeps_local_fields(repos: Seq<RepoView>, fetched: Seq<FetchedView>)
    ensures
        apply_fetched_spec(repos, fetched).0.len() >= repos.len(),
        forall|k: int|
            0 <= k < repos.len() ==> same_local_fields(#[trigger] apply_fetched_spec(repos, fetched).0[k], repos[k]),
        forall|k: int|
            repos.len() <= k < apply_fetched_spec(repos, fetched).0.len() ==> {
                let r = #[trigger] apply_fetched_spec(repos, fetched).0[k];
                &&& r.url.len() == 0 && r.desc_short.len() == 0 && r.desc_long.len() == 0
                &&& r.group == DEFAULT_GROUP_NAME@ && r.tags.len() == 0
            },
    decreases fetched.len(),
{
    if fetched.len() > 0 {
        law_sync_keeps_local_fields(repos, fetched.drop_last());
        let prev = apply_fetched_spec(repos, fetched.drop_last());
        let f = fetched.last();
        let res = apply_fetched_spec(repos, fetched);
        match find_name(prev.0, f.name) {
            Some(k) => {
                assert(0 <= k < prev.0.len()) by {
                    lemma_find_name_bounds(prev.0, f.name);
                }
                assert forall|j: int| 0 <= j < repos.len() implies same_local_fields(#[trigger] res.0[j], repos[j]) by {
                    assert(same_local_fields(prev.0[j], repos[j]));
                }
            },
            None => {
                assert forall|j: int| 0 <= j < repos.len() implies same_local_fields(#[trigger] res.0[j], repos[j]) by {
                    assert(same_local_fields(prev.0[j], repos[j]));
                }
            },
        }
    }
}

/// Whether some repository of `s` is named `name`.
pub open spec fn has_name(s: Seq<RepoView>, name: Seq<char>) -> bool {
    exists|k: int| 0 <= k < s.len() && #[trigger] s[k].name == name
}

/// After a sync every repository that GitHub listed is recorded under its
/// name, and every repository recorded before keeps its name and place.
pub proof fn law_sync_lists_every_fetched_repo(repos: Seq<RepoView>, fetched: Seq<FetchedView>)
    ensures
        forall|i: int| 0 <= i < fetched.len() ==> has_name(apply_fetched_spec(repos, fetched).0, #[trigger] fetched[i].name),
        forall|j: int|
            0 <= j < repos.len() ==> #[trigger] apply_fetched_spec(repos, fetched).0[j].name == repos[j].name,
    decreases fetched.len(),
{
    if fetched.len() > 0 {
        let init = fetched.drop_last();
        law_sync_lists_every_fetched_repo(repos, init);
        law_sync_keeps_local_fields(repos, init);
        let prev = apply_fetched_spec(repos, init).0;
        let f = fetched.last();
        let res = apply_fetched_spec(repos, fetched).0;
        lemma_find_name_bounds(prev, f.name);
        assert(res.len() >= prev.len());
        assert(forall|m: int| 0 <= m < prev.len() ==> #[trigger] res[m].name == prev[m].name);
        assert(has_name(res, f.name)) by {
            match find_name(prev, f.name) {
                Some(k) => assert(res[k].name == f.name),
                None => assert(res[prev.len() as int].name == f.name),
            }
        }
        assert forall|i: int| 0 <= i < fetched.len() implies has_name(res, #[trigger] fetched[i].name) by {
            if i < fetched.len() - 1 {
                assert(init[i] == fetched[i]);
                assert(has_name(prev, init[i].name));
                let k = choose|k: int| 0 <= k < prev.len() && #[trigger] prev[k].name == init[i].name;
                assert(res[k].name == prev[k].name);
            }
        }
        assert forall|j: int| 0 <= j < repos.len() implies #[trigger] res[j].name == repos[j].name by {
            assert(prev[j].name == repos[j].name);
        }
    }
}

/// After a sync every recorded repository that GitHub lists carries what
/// GitHub reports of it: its creation time, its update time and its
/// description, from the last listing of its name. (Only the first of
/// several recorded repositories with one name is updated.)
pub proof fn law_sync_takes_githubs_fields(repos: Seq<RepoView>, fetched: Seq<FetchedView>)
    ensures
        forall|j: int, i: int|
            #![trigger apply_fetched_spec(repos, fetched).0[j], fetched[i]]
            0 <= j < repos.len() && (forall|q: int| 0 <= q < j ==> repos[q].name != repos[j].name) && 0 <= i
                < fetched.len() && fetched[i].name == repos[j].name && (forall|q: int|
                i < q < fetched.len() ==> fetched[q].name != repos[j].name) ==> {
                let r = apply_fetched_spec(repos, fetched).0[j];
                &&& r.updated_at == Some(fetched[i].updated_at)
                &&& r.created_at == fetched[i].created_at
                &&& r.github_desc == fetched[i].github_desc
            },
    decreases fetched.len(),
{
    if fetched.len() > 0 {
        let init = fetched.drop_last();
        law_sync_takes_githubs_fields(repos, init);
        law_sync_lists_every_fetched_repo(repos, init);
        law_sync_keeps_local_fields(repos, init);
        let prev = apply_fetched_spec(repos, init).0;
        let f = fetched.last();
        let res = apply_fetched_spec(repos, fetched).0;
        lemma_find_name_bounds(prev, f.name);
        assert forall|j: int, i: int|
            #![trigger apply_fetched_spec(repos, fetched).0[j], fetched[i]]
            0 <= j < repos.len() && (forall|q: int| 0 <= q < j ==> repos[q].name != repos[j].name) && 0 <= i
                < fetched.len() && fetched[i].name == repos[j].name && (forall|q: int|
                i < q < fetched.len() ==> fetched[q].name != repos[j].name) implies {
                let r = apply_fetched_spec(repos, fetched).0[j];
                &&& r.updated_at == Some(fetched[i].updated_at)
                &&& r.created_at == fetched[i].created_at
                &&& r.github_desc == fetched[i].github_desc
            } by {
            assert(prev[j].name == repos[j].name);
            if i == fetched.len() - 1 {
                assert forall|q: int| 0 <= q < j implies prev[q].name != f.name by {
                    assert(prev[q].name == repos[q].name);
                }
                lemma_find_name_first(prev, f.name, j);
            } else {
                assert(init[i] == fetched[i]);
                assert(f.name != repos[j].name);
                assert(forall|q: int| i < q < init.len() ==> init[q] == fetched[q]);
                let pr = prev[j];
                assert(pr.updated_at == Some(init[i].updated_at) && pr.created_at == init[i].created_at
                    && pr.github_desc == init[i].github_desc);
                match find_name(prev, f.name) {
                    Some(k) => {
                        assert(k != j);
                        assert(res[j] == prev[j]);
                    },
                    None => {
                        assert(res[j] == prev[j]);
                    },
                }
            }
        }
    }
}

/// A sync of one listed repository that is recorded adds nothing, and counts
/// it as updated exactly when GitHub reports another creation time, update
/// time or description than the one recorded.
pub proof fn law_sync_counts_changed_repos(repos: Seq<RepoView>, f: FetchedView, k: int)
    requires
        0 <= k < repos.len(),
        repos[k].name == f.name,
        forall|q: int| 0 <= q < k ==> repos[q].name != f.name,
    ensures
        apply_fetched_spec(repos, seq![f]).1 == 0,
        apply_fetched_spec(repos, seq![f]).2 <= 1,
        apply_fetched_spec(repos, seq![f]).2 == 1 <==> (repos[k].created_at != f.created_at || repos[k].updated_at
            != Some(f.updated_at) || repos[k].github_desc != f.github_desc),
        apply_fetched_spec(repos, seq![f]).0[k].updated_at == Some(f.updated_at),
{
    let fs = seq![f];
    assert(fs.drop_last() =~= Seq::<FetchedView>::empty());
    assert(fs.last() == f);
    assert(apply_fetched_spec(repos, fs.drop_last()) == (repos, 0nat, 0nat));
    lemma_find_name_first(repos, f.name, k);
    let res = apply_fetched_spec(repos, fs);
    assert(res.0 == repos.update(k, with_fetched(repos[k], f)));
}

/// A sync of one listed repository that is not recorded appends it, as
/// GitHub reports it (name, creation and update time, description), in the
/// default group with nothing curated yet, and counts it as added, not
/// updated; the recorded repositories stay as they were.
pub proof fn law_sync_adds_unknown_repo(repos: Seq<RepoView>, f: FetchedView)
    requires
        forall|q: int| 0 <= q < repos.len() ==> repos[q].name != f.name,
    ensures
        apply_fetched_spec(repos, seq![f]).1 == 1,
        apply_fetched_spec(repos, seq![f]).2 == 0,
        apply_fetched_spec(repos, seq![f]).0.len() == repos.len() + 1,
        apply_fetched_spec(repos, seq![f]).0.take(repos.len() as int) == repos,
        ({
            let r = apply_fetched_spec(repos, seq![f]).0[repos.len() as int];
            &&& r.name == f.name
            &&& r.created_at == f.created_at
            &&& r.updated_at == Some(f.updated_at)
            &&& r.github_desc == f.github_desc
            &&& r.url.len() == 0 && r.desc_short.len() == 0 && r.desc_long.len() == 0
            &&& r.group == DEFAULT_GROUP_NAME@
            &&& r.tags.len() == 0
        }),
{
    let fs = seq![f];
    assert(fs.drop_last() =~= Seq::<FetchedView>::empty());
    assert(fs.last() == f);
    assert(apply_fetched_spec(repos, fs.drop_last()) == (repos, 0nat, 0nat));
    assert(!(exists|k: int| 0 <= k < repos.len() && #[trigger] repos[k].name == f.name));
    assert(find_name(repos, f.name) is None);
    let res = apply_fetched_spec(repos, fs);
    assert(res.0 == repos.push(fetched_as_repo(f)));
    assert(res.0.take(repos.len() as int) =~= repos);
}

/// The first repository of a name is where `find_name` finds it.
proof fn lemma_find_name_first(s: Seq<RepoView>, name: Seq<char>, j: int)
    requires
        0 <= j < s.len(),
        s[j].name == name,
        forall|q: int| 0 <= q < j ==> s[q].name != name,
    ensures
        find_name(s, name) == Some(j),
{
    lemma_find_name_bounds(s, name);
    let k = find_name(s, name)->0;
    assert(find_name(s, name) is Some);
    if k < j {
        assert(s[k].name == name);
    } else if k > j {
        assert(forall|q: int| 0 <= q < k ==> s[q].name != name);
        assert(s[j].name != name);
    }
}

/// The position `find_name` gives is a position of the list.
proof fn lemma_find_name_bounds(s: Seq<RepoView>, name: Seq<char>)
    ensures
        find_name(s, name) matches Some(k) ==> 0 <= k < s.len() && s[k].name == name,
    decreases s.len(),
{
    if exists|k: int| 0 <= k < s.len() && #[trigger] s[k].name == name {
        lemma_min_name(s, name, choose|k: int| 0 <= k < s.len() && #[trigger] s[k].name == name);
    }
}

/// Some position of a name has a first one.
proof fn lemma_min_name(s: Seq<RepoView>, name: Seq<char>, i: int)
    requires
        0 <= i < s.len(),
        s[i].name == name,
    ensures
        exists|k: int|
            0 <= k < s.len() && #[trigger] s[k].name == name && forall|j: int| 0 <= j < k ==> s[j].name != name,
    decreases i,
{
    if exists|q: int| 0 <= q < i && #[trigger] s[q].name == name {
        let q = choose|q: int| 0 <= q < i && #[trigger] s[q].name == name;
        lemma_min_name(s, name, q);
    } else {
        assert(forall|j: int| 0 <= j < i ==> s[j].name != name);
    }
}

} // verus!
