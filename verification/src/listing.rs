//! The repository list of the main screen: which repositories the tag and
//! group filters let through, and in what order they are listed.
use crate::model::{ts_lt, Repo, RepoView, Timestamp};
use crate::modes::SortMode;
use crate::strings::{
    lemma_seq_lt_irreflexive, lemma_seq_lt_total, lemma_seq_lt_transitive, seq_lt, str_eq, str_less,
    strictly_sorted,
};
use vstd::prelude::*;

verus! {

/// -1, 0 or 1 as `a` is earlier than, the same as, or later than `b`.
pub open spec fn ts_cmp(a: Timestamp, b: Timestamp) -> int {
    if ts_lt(a, b) {
        -1
    } else if a == b {
        0
    } else {
        1
    }
}

/// -1, 0 or 1 as `a` sorts before, equal to, or after `b`.
pub open spec fn name_cmp(a: Seq<char>, b: Seq<char>) -> int {
    if seq_lt(a, b) {
        -1
    } else if a == b {
        0
    } else {
        1
    }
}

/// The time of the last update, or of creation when none is recorded.
pub open spec fn last_touched(r: RepoView) -> Timestamp {
    match r.updated_at {
        Some(t) => t,
        None => r.created_at,
    }
}

/// How two repositories compare in the list (-1: `l` first, 1: `r` first):
/// by creation time, newest first, then by last update, newest first; or
/// the other way round when sorting by modification; then by name.
pub open spec fn compare_repos_spec(l: RepoView, r: RepoView, mode: SortMode) -> int {
    let by_created = ts_cmp(r.created_at, l.created_at);
    let by_updated = ts_cmp(last_touched(r), last_touched(l));
    let by_name = name_cmp(l.name, r.name);
    match mode {
        SortMode::Created => if by_created != 0 {
            by_created
        } else if by_updated != 0 {
            by_updated
        } else {
            by_name
        },
        SortMode::Modified => if by_updated != 0 {
            by_updated
        } else if by_created != 0 {
            by_created
        } else {
            by_name
        },
    }
}

proof fn lemma_name_cmp(a: Seq<char>, b: Seq<char>, c: Seq<char>)
    ensures
        name_cmp(a, b) == -name_cmp(b, a),
        name_cmp(a, b) <= 0 && name_cmp(b, c) <= 0 ==> name_cmp(a, c) <= 0,
        name_cmp(a, b) < 0 && name_cmp(b, c) <= 0 ==> name_cmp(a, c) < 0,
        name_cmp(a, b) <= 0 && name_cmp(b, c) < 0 ==> name_cmp(a, c) < 0,
{
    lemma_seq_lt_total(a, b);
    lemma_seq_lt_total(b, c);
    lemma_seq_lt_total(a, c);
    lemma_seq_lt_irreflexive(a);
    lemma_seq_lt_irreflexive(b);
    if seq_lt(a, b) && seq_lt(b, c) {
        lemma_seq_lt_transitive(a, b, c);
    }
}

/// The comparison is antisymmetric and transitive.
pub proof fn lemma_compare_repos(a: RepoView, b: RepoView, c: RepoView, mode: SortMode)
    ensures
        compare_repos_spec(a, b, mode) == -compare_repos_spec(b, a, mode),
        compare_repos_spec(a, b, mode) <= 0 && compare_repos_spec(b, c, mode) <= 0 ==> compare_repos_spec(a, c, mode)
            <= 0,
        compare_repos_spec(a, b, mode) < 0 && compare_repos_spec(b, c, mode) <= 0 ==> compare_repos_spec(a, c, mode)
            < 0,
        compare_repos_spec(a, b, mode) <= 0 && compare_repos_spec(b, c, mode) < 0 ==> compare_repos_spec(a, c, mode)
            < 0,
{
    lemma_name_cmp(a.name, b.name, c.name);
}

fn ts_compare(a: Timestamp, b: Timestamp) -> (r: i8)
    ensures
        r == ts_cmp(a, b),
{
    if a.secs < b.secs || (a.secs == b.secs && a.nanos < b.nanos) {
        -1
    } else if a.secs == b.secs && a.nanos == b.nanos {
        0
    } else {
        1
    }
}

fn name_compare(a: &str, b: &str) -> (r: i8)
    ensures
        r == name_cmp(a@, b@),
{
    if str_less(a, b) {
        -1
    } else if str_eq(a, b) {
        0
    } else {
        1
    }
}

/// How two repositories compare in the list (see `compare_repos_spec`):
/// -1 when `left` comes first, 1 when `right` does, 0 when they tie.
pub fn compare_repos(left: &Repo, right: &Repo, sort_mode: SortMode) -> (r: i8)
    ensures
        r == compare_repos_spec(left@, right@, sort_mode),
{
    let by_created = ts_compare(right.created_at, left.created_at);
    let by_updated = ts_compare(right.updated_at_or_created(), left.updated_at_or_created());
    let by_name = name_compare(left.name.as_str(), right.name.as_str());
    match sort_mode {
        SortMode::Created => if by_created != 0 {
            by_created
        } else if by_updated != 0 {
            by_updated
        } else {
            by_name
        },
        SortMode::Modified => if by_updated != 0 {
            by_updated
        } else if by_created != 0 {
            by_created
        } else {
            by_name
        },
    }
}

/// Index `a` is listed before index `b`: its repository compares first, or
/// they tie and it comes first in the data.
pub open spec fn listed_before(repos: Seq<RepoView>, mode: SortMode, a: int, b: int) -> bool {
    compare_repos_spec(repos[a], repos[b], mode) < 0 || (compare_repos_spec(repos[a], repos[b], mode) == 0 && a < b)
}

/// The indices are listed in order: each before the ones after it.
pub open spec fn listed_in_order(repos: Seq<RepoView>, mode: SortMode, idx: Seq<usize>) -> bool {
    forall|i: int, j: int|
        0 <= i < j < idx.len() ==> listed_before(repos, mode, #[trigger] idx[i] as int, #[trigger] idx[j] as int)
}

/// The repository carries every tag of the filter.
pub open spec fn matches_tag_filter(r: RepoView, filter: Seq<Seq<char>>) -> bool {
    forall|k: int| 0 <= k < filter.len() ==> r.tags.contains(#[trigger] filter[k])
}

/// Whether the repository carries every tag of the filter (an empty filter
/// lets everything through).
pub fn repo_matches_tag_filter(repo: &Repo, filter: &Vec<String>) -> (r: bool)
    ensures
        r == matches_tag_filter(repo@, filter.deep_view()),
{
    let ghost f = filter.deep_view();
    let mut k: usize = 0;
    while k < filter.len()
        invariant
            k <= filter.len(),
            f == filter.deep_view(),
            forall|j: int| 0 <= j < k ==> repo@.tags.contains(#[trigger] f[j]),
        decreases filter.len() - k,
    {
        if !crate::model::list_contains(&repo.tags, filter[k].as_str()) {
            assert(f[k as int] == filter[k as int]@);
            return false;
        }
        assert(f[k as int] == filter[k as int]@);
        k = k + 1;
    }
    true
}

/// The repository is in the group of the filter, when there is one.
pub open spec fn in_group(r: RepoView, group: Option<Seq<char>>) -> bool {
    match group {
        Some(g) => r.group == g,
        None => true,
    }
}

/// The repository carries every tag of the tag filter and is in the group
/// of the group filter.
pub open spec fn passes_filters(r: RepoView, filter: Seq<Seq<char>>, group: Option<Seq<char>>) -> bool {
    matches_tag_filter(r, filter) && in_group(r, group)
}

/// The view of an optional string slice.
pub open spec fn opt_str_view(o: Option<&str>) -> Option<Seq<char>> {
    match o {
        Some(s) => Some(s@),
        None => None,
    }
}

/// Whether the repository passes the tag filter and the group filter.
pub fn repo_passes_filters(repo: &Repo, filter: &Vec<String>, group: Option<&str>) -> (r: bool)
    ensures
        r == passes_filters(repo@, filter.deep_view(), opt_str_view(group)),
{
    if !repo_matches_tag_filter(repo, filter) {
        return false;
    }
    match group {
        Some(g) => str_eq(repo.group.as_str(), g),
        None => true,
    }
}

/// The views of a list of repositories.
pub open spec fn views_of(repos: Seq<Repo>) -> Seq<RepoView> {
    repos.map_values(|r: Repo| r@)
}

/// The indices of the listed repositories: those that pass the filters,
/// each once, listed in order (see `listed_before`).
pub open spec fn visible_indices_spec(
    repos: Seq<RepoView>,
    filter: Seq<Seq<char>>,
    group: Option<Seq<char>>,
    mode: SortMode,
    idx: Seq<usize>,
) -> bool {
    &&& listed_in_order(repos, mode, idx)
    &&& forall|i: int| 0 <= i < idx.len() ==> (#[trigger] idx[i] as int) < repos.len() && passes_filters(repos[idx[i] as int], filter, group)
    &&& forall|j: int| 0 <= j < repos.len() && passes_filters(#[trigger] repos[j], filter, group) ==> idx.contains(j as usize)
}

/// The listed indices: the one list that meets `visible_indices_spec`.
pub open spec fn visible_list(
    repos: Seq<RepoView>,
    filter: Seq<Seq<char>>,
    group: Option<Seq<char>>,
    mode: SortMode,
) -> Seq<usize> {
    choose|idx: Seq<usize>| visible_indices_spec(repos, filter, group, mode, idx)
}

/// Listing order is a strict total order on distinct indices.
proof fn lemma_listed_before(repos: Seq<RepoView>, mode: SortMode, a: int, b: int, c: int)
    requires
        0 <= a < repos.len(),
        0 <= b < repos.len(),
        0 <= c < repos.len(),
    ensures
        !listed_before(repos, mode, a, a),
        a != b ==> (listed_before(repos, mode, a, b) || listed_before(repos, mode, b, a)),
        !(listed_before(repos, mode, a, b) && listed_before(repos, mode, b, a)),
        listed_before(repos, mode, a, b) && listed_before(repos, mode, b, c) ==> listed_before(repos, mode, a, c),
{
    lemma_compare_repos(repos[a], repos[a], repos[a], mode);
    lemma_compare_repos(repos[a], repos[b], repos[c], mode);
    lemma_compare_repos(repos[b], repos[a], repos[c], mode);
}

/// Two lists in listing order that hold the same indices are the same list.
proof fn lemma_listed_unique(repos: Seq<RepoView>, mode: SortMode, a: Seq<usize>, b: Seq<usize>)
    requires
        listed_in_order(repos, mode, a),
        listed_in_order(repos, mode, b),
        forall|i: int| 0 <= i < a.len() ==> (#[trigger] a[i] as int) < repos.len(),
        forall|i: int| 0 <= i < b.len() ==> (#[trigger] b[i] as int) < repos.len(),
        forall|x: usize| a.contains(x) <==> b.contains(x),
    ensures
        a == b,
    decreases a.len(),
{
    if a.len() == 0 {
        if b.len() > 0 {
            assert(b.contains(b[0]));
        }
        assert(a =~= b);
    } else if b.len() == 0 {
        assert(a.contains(a[0]));
    } else {
        assert(a.contains(a[0]));
        assert(b.contains(b[0]));
        let ia = choose|k: int| 0 <= k < a.len() && a[k] == b[0];
        let ib = choose|k: int| 0 <= k < b.len() && b[k] == a[0];
        if a[0] != b[0] {
            assert(ia > 0 && ib > 0);
            assert(listed_before(repos, mode, a[0] as int, a[ia] as int));
            assert(listed_before(repos, mode, b[0] as int, b[ib] as int));
            lemma_listed_before(repos, mode, a[0] as int, b[0] as int, a[0] as int);
        }
        let ta = a.drop_first();
        let tb = b.drop_first();
        assert forall|x: usize| ta.contains(x) <==> tb.contains(x) by {
            if ta.contains(x) {
                let k = choose|k: int| 0 <= k < ta.len() && ta[k] == x;
                assert(a[k + 1] == x);
                assert(a.contains(x));
                let m = choose|m: int| 0 <= m < b.len() && b[m] == x;
                if m == 0 {
                    assert(listed_before(repos, mode, a[0] as int, a[k + 1] as int));
                    lemma_listed_before(repos, mode, x as int, x as int, x as int);
                }
                assert(tb[m - 1] == x);
            }
            if tb.contains(x) {
                let k = choose|k: int| 0 <= k < tb.len() && tb[k] == x;
                assert(b[k + 1] == x);
                assert(b.contains(x));
                let m = choose|m: int| 0 <= m < a.len() && a[m] == x;
                if m == 0 {
                    assert(listed_before(repos, mode, b[0] as int, b[k + 1] as int));
                    lemma_listed_before(repos, mode, x as int, x as int, x as int);
                }
                assert(ta[m - 1] == x);
            }
        }
        assert(listed_in_order(repos, mode, ta)) by {
            assert forall|i: int, j: int| 0 <= i < j < ta.len() implies listed_before(
                repos,
                mode,
                #[trigger] ta[i] as int,
                #[trigger] ta[j] as int,
            ) by {
                assert(a[i + 1] == ta[i] && a[j + 1] == ta[j]);
            }
        }
        assert(listed_in_order(repos, mode, tb)) by {
            assert forall|i: int, j: int| 0 <= i < j < tb.len() implies listed_before(
                repos,
                mode,
                #[trigger] tb[i] as int,
                #[trigger] tb[j] as int,
            ) by {
                assert(b[i + 1] == tb[i] && b[j + 1] == tb[j]);
            }
        }
        assert forall|i: int| 0 <= i < ta.len() implies (#[trigger] ta[i] as int) < repos.len() by {
            assert(ta[i] == a[i + 1]);
        }
        assert forall|i: int| 0 <= i < tb.len() implies (#[trigger] tb[i] as int) < repos.len() by {
            assert(tb[i] == b[i + 1]);
        }
        lemma_listed_unique(repos, mode, ta, tb);
        assert(a =~= seq![a[0]] + ta);
        assert(b =~= seq![b[0]] + tb);
    }
}

/// A list that meets `visible_indices_spec` is the listed indices.
pub proof fn lemma_visible_list(
    repos: Seq<RepoView>,
    filter: Seq<Seq<char>>,
    group: Option<Seq<char>>,
    mode: SortMode,
    idx: Seq<usize>,
)
    requires
        visible_indices_spec(repos, filter, group, mode, idx),
    ensures
        visible_list(repos, filter, group, mode) == idx,
{
    let c = visible_list(repos, filter, group, mode);
    assert(visible_indices_spec(repos, filter, group, mode, c));
    assert forall|x: usize| c.contains(x) <==> idx.contains(x) by {
        if c.contains(x) {
            let k = choose|k: int| 0 <= k < c.len() && c[k] == x;
            assert(passes_filters(repos[x as int], filter, group));
        }
        if idx.contains(x) {
            let k = choose|k: int| 0 <= k < idx.len() && idx[k] == x;
            assert(passes_filters(repos[x as int], filter, group));
        }
    }
    lemma_listed_unique(repos, mode, c, idx);
}

/// The indices of the listed repositories, in list order (see
/// `visible_indices_spec`).
pub fn visible_repo_indices(
    repos: &Vec<Repo>,
    tag_filter: &Vec<String>,
    group_filter: Option<&str>,
    sort_mode: SortMode,
) -> (r: Vec<usize>)
    ensures
        visible_indices_spec(views_of(repos@), tag_filter.deep_view(), opt_str_view(group_filter), sort_mode, r@),
        r@ == visible_list(views_of(repos@), tag_filter.deep_view(), opt_str_view(group_filter), sort_mode),
{
    let ghost rv = views_of(repos@);
    let ghost f = tag_filter.deep_view();
    let ghost g = opt_str_view(group_filter);
    let mut out: Vec<usize> = Vec::new();
    let mut i: usize = 0;
    while i < repos.len()
        invariant
            i <= repos.len(),
            rv == views_of(repos@),
            f == tag_filter.deep_view(),
            g == opt_str_view(group_filter),
            listed_in_order(rv, sort_mode, out@),
            forall|k: int| 0 <= k < out.len() ==> (#[trigger] out@[k] as int) < i && passes_filters(rv[out@[k] as int], f, g),
            forall|j: int| 0 <= j < i && passes_filters(#[trigger] rv[j], f, g) ==> out@.contains(j as usize),
        decreases repos.len() - i,
    {
        assert(rv[i as int] == repos@[i as int]@);
        if repo_passes_filters(&repos[i], tag_filter, group_filter) {
            let mut pos: usize = 0;
            while pos < out.len() && compare_repos(&repos[out[pos]], &repos[i], sort_mode) <= 0
                invariant
                    pos <= out.len(),
                    i < repos.len(),
                    rv == views_of(repos@),
                    forall|k: int| 0 <= k < out.len() ==> (#[trigger] out@[k] as int) < i,
                    forall|k: int| 0 <= k < pos ==> listed_before(rv, sort_mode, #[trigger] out@[k] as int, i as int),
                decreases out.len() - pos,
            {
                assert(rv[out@[pos as int] as int] == repos@[out@[pos as int] as int]@);
                pos = pos + 1;
            }
            if pos < out.len() {
                assert(rv[out@[pos as int] as int] == repos@[out@[pos as int] as int]@);
            }
            let ghost old_out = out@;
            out.insert(pos, i);
            proof {
                assert forall|a: int, b: int| 0 <= a < b < out@.len() implies listed_before(
                    rv,
                    sort_mode,
                    #[trigger] out@[a] as int,
                    #[trigger] out@[b] as int,
                ) by {
                    let ii = i as int;
                    if a < pos && b == pos {
                        assert(out@[a] == old_out[a]);
                    } else if a < pos && b > pos {
                        assert(out@[a] == old_out[a] && out@[b] == old_out[b - 1]);
                    } else if a == pos && b > pos {
                        let y = old_out[b - 1] as int;
                        let p = old_out[pos as int] as int;
                        assert(out@[b] == old_out[b - 1]);
                        // i compares before the entry it was inserted ahead of, which is not after y
                        assert(compare_repos_spec(rv[p], rv[ii], sort_mode) > 0);
                        lemma_compare_repos(rv[ii], rv[p], rv[y], sort_mode);
                        lemma_compare_repos(rv[p], rv[ii], rv[y], sort_mode);
                        if b - 1 > pos {
                            assert(listed_before(rv, sort_mode, p, y));
                            lemma_compare_repos(rv[ii], rv[p], rv[y], sort_mode);
                        }
                    } else if a > pos {
                        assert(out@[a] == old_out[a - 1] && out@[b] == old_out[b - 1]);
                    } else {
                        assert(out@[a] == old_out[a] && out@[b] == old_out[b]);
                    }
                }
                assert forall|j: int| 0 <= j < i + 1 && passes_filters(#[trigger] rv[j], f, g) implies out@.contains(
                    j as usize,
                ) by {
                    if j == i {
                        assert(out@[pos as int] == i);
                    } else {
                        let k = choose|k: int| 0 <= k < old_out.len() && old_out[k] == j as usize;
                        if k < pos {
                            assert(out@[k] == j as usize);
                        } else {
                            assert(out@[k + 1] == j as usize);
                        }
                    }
                }
                assert forall|k: int| 0 <= k < out.len() implies (#[trigger] out@[k] as int) < i + 1
                    && passes_filters(rv[out@[k] as int], f, g) by {
                    if k < pos {
                        assert(out@[k] == old_out[k]);
                    } else if k > pos {
                        assert(out@[k] == old_out[k - 1]);
                    }
                }
            }
        }
        i = i + 1;
    }
    proof {
        lemma_visible_list(rv, f, g, sort_mode, out@);
    }
    out
}


/// `out` is `input` reordered by the permutation `p` (`out[k] == input[p[k]]`).
pub open spec fn index_reordering(out: Seq<usize>, input: Seq<usize>, p: Seq<int>) -> bool {
    &&& out.len() == input.len()
    &&& p.len() == input.len()
    &&& forall|k: int| 0 <= k < p.len() ==> 0 <= #[trigger] p[k] < input.len() && out[k] == input[p[k]]
    &&& forall|k: int, l: int| 0 <= k < l < p.len() ==> #[trigger] p[k] != #[trigger] p[l]
    &&& forall|j: int| 0 <= j < input.len() ==> #[trigger] crate::model::hits(p, j)
}

/// The indices' repositories come in list order.
pub open spec fn indices_in_order(repos: Seq<RepoView>, mode: SortMode, out: Seq<usize>) -> bool {
    forall|i: int, j: int|
        0 <= i < j < out.len() ==> compare_repos_spec(
            repos[#[trigger] out[i] as int],
            repos[#[trigger] out[j] as int],
            mode,
        ) <= 0
}

/// `out` is `input` sorted into list order, indices whose repositories
/// compare equal keeping their order.
pub open spec fn stably_sorted_indices(repos: Seq<RepoView>, mode: SortMode, input: Seq<usize>, out: Seq<usize>) -> bool {
    &&& indices_in_order(repos, mode, out)
    &&& exists|p: Seq<int>|
        index_reordering(out, input, p) && forall|k: int, l: int|
            0 <= k < l < p.len() && compare_repos_spec(repos[out[k] as int], repos[out[l] as int], mode) == 0
                ==> #[trigger] p[k] < #[trigger] p[l]
}

/// Inserting `x` before the first index whose repository compares after
/// its own keeps the order and extends the stable reordering by `x`.
proof fn lemma_insert_index(
    repos: Seq<RepoView>,
    mode: SortMode,
    ov: Seq<usize>,
    input: Seq<usize>,
    p: Seq<int>,
    x: usize,
    pos: int,
)
    requires
        forall|k: int| 0 <= k < ov.len() ==> (#[trigger] ov[k] as int) < repos.len(),
        (x as int) < repos.len(),
        index_reordering(ov, input, p),
        indices_in_order(repos, mode, ov),
        forall|k: int, l: int|
            0 <= k < l < p.len() && compare_repos_spec(repos[ov[k] as int], repos[ov[l] as int], mode) == 0
                ==> #[trigger] p[k] < #[trigger] p[l],
        0 <= pos <= ov.len(),
        forall|k: int| 0 <= k < pos ==> compare_repos_spec(repos[#[trigger] ov[k] as int], repos[x as int], mode) <= 0,
        pos < ov.len() ==> compare_repos_spec(repos[ov[pos] as int], repos[x as int], mode) > 0,
    ensures
        index_reordering(ov.insert(pos, x), input.push(x), p.insert(pos, input.len() as int)),
        indices_in_order(repos, mode, ov.insert(pos, x)),
        forall|k: int, l: int|
            0 <= k < l < p.len() + 1 && compare_repos_spec(
                repos[ov.insert(pos, x)[k] as int],
                repos[ov.insert(pos, x)[l] as int],
                mode,
            ) == 0 ==> #[trigger] p.insert(pos, input.len() as int)[k] < #[trigger] p.insert(pos, input.len() as int)[l],
{
    let no = ov.insert(pos, x);
    let ni = input.push(x);
    let np = p.insert(pos, input.len() as int);
    let n = input.len() as int;
    assert forall|k: int| 0 <= k < np.len() implies 0 <= #[trigger] np[k] < ni.len() && no[k] == ni[np[k]] by {
        if k < pos {
            assert(np[k] == p[k] && no[k] == ov[k]);
        } else if k > pos {
            assert(np[k] == p[k - 1] && no[k] == ov[k - 1]);
        }
    }
    assert forall|k: int, l: int| 0 <= k < l < np.len() implies #[trigger] np[k] != #[trigger] np[l] by {
        if k != pos && l != pos {
            let k0 = if k < pos { k } else { k - 1 };
            let l0 = if l < pos { l } else { l - 1 };
            assert(np[k] == p[k0] && np[l] == p[l0]);
            assert(p[k0] != p[l0]);
        } else if k == pos {
            assert(np[l] == p[l - 1]);
        } else {
            assert(np[k] == p[k]);
        }
    }
    assert forall|j: int| 0 <= j < ni.len() implies #[trigger] crate::model::hits(np, j) by {
        if j == n {
            assert(np[pos] == j);
        } else {
            assert(crate::model::hits(p, j));
            let k0 = choose|k: int| 0 <= k < p.len() && p[k] == j;
            if k0 < pos {
                assert(np[k0] == j);
            } else {
                assert(np[k0 + 1] == j);
            }
        }
    }
    assert forall|i: int, j: int| 0 <= i < j < no.len() implies compare_repos_spec(
        repos[#[trigger] no[i] as int],
        repos[#[trigger] no[j] as int],
        mode,
    ) <= 0 by {
        if i < pos && j == pos {
        } else if i < pos && j > pos {
            assert(no[i] == ov[i] && no[j] == ov[j - 1]);
        } else if i == pos && j > pos {
            let y = ov[j - 1] as int;
            let q = ov[pos] as int;
            assert(no[j] == ov[j - 1]);
            lemma_compare_repos(repos[x as int], repos[q], repos[y], mode);
            lemma_compare_repos(repos[q], repos[x as int], repos[y], mode);
        } else if i > pos {
            assert(no[i] == ov[i - 1] && no[j] == ov[j - 1]);
        } else {
            assert(no[i] == ov[i] && no[j] == ov[j]);
        }
    }
    assert forall|k: int, l: int|
        0 <= k < l < p.len() + 1 && compare_repos_spec(repos[no[k] as int], repos[no[l] as int], mode) == 0 implies #[trigger] np[k]
        < #[trigger] np[l] by {
        if k != pos && l != pos {
            let k0 = if k < pos { k } else { k - 1 };
            let l0 = if l < pos { l } else { l - 1 };
            assert(np[k] == p[k0] && np[l] == p[l0]);
            assert(no[k] == ov[k0] && no[l] == ov[l0]);
        } else if l == pos {
            assert(np[k] == p[k]);
        } else {
            let y = ov[l - 1] as int;
            let q = ov[pos] as int;
            assert(no[l] == ov[l - 1]);
            lemma_compare_repos(repos[x as int], repos[q], repos[y], mode);
            lemma_compare_repos(repos[q], repos[x as int], repos[y], mode);
        }
    }
}

/// Sorts the indices into list order (see `stably_sorted_indices`): by the
/// repositories' comparison, indices whose repositories compare equal
/// keeping their order.
pub fn sort_repo_indices(indices: &mut Vec<usize>, repos: &Vec<Repo>, sort_mode: SortMode)
    requires
        forall|k: int| 0 <= k < old(indices)@.len() ==> (#[trigger] old(indices)@[k] as int) < repos@.len(),
    ensures
        stably_sorted_indices(views_of(repos@), sort_mode, old(indices)@, final(indices)@),
{
    let ghost rv = views_of(repos@);
    let ghost orig = indices@;
    let ghost n = orig.len();
    let mut rest: Vec<usize> = Vec::new();
    std::mem::swap(&mut rest, indices);
    let mut out: Vec<usize> = Vec::new();
    let ghost mut p: Seq<int> = Seq::empty();
    assert(rest@ =~= orig.subrange(0, n as int));
    assert(orig.take(0) =~= Seq::<usize>::empty());
    while rest.len() > 0
        invariant
            n == orig.len(),
            rv == views_of(repos@),
            forall|k: int| 0 <= k < orig.len() ==> (#[trigger] orig[k] as int) < repos@.len(),
            rest.len() + out.len() == n,
            rest@ == orig.subrange(out.len() as int, n as int),
            forall|k: int| 0 <= k < out@.len() ==> (#[trigger] out@[k] as int) < repos@.len(),
            index_reordering(out@, orig.take(out.len() as int), p),
            indices_in_order(rv, sort_mode, out@),
            forall|k: int, l: int|
                0 <= k < l < p.len() && compare_repos_spec(rv[out@[k] as int], rv[out@[l] as int], sort_mode) == 0
                    ==> #[trigger] p[k] < #[trigger] p[l],
        decreases rest.len(),
    {
        let ghost i = out.len() as int;
        let ghost ov = out@;
        let ghost rs = rest@;
        let x = rest.remove(0);
        assert(x == orig[i]);
        let mut pos: usize = 0;
        while pos < out.len() && compare_repos(&repos[out[pos]], &repos[x], sort_mode) <= 0
            invariant
                pos <= out.len(),
                ov == out@,
                rv == views_of(repos@),
                (x as int) < repos@.len(),
                forall|k: int| 0 <= k < out@.len() ==> (#[trigger] out@[k] as int) < repos@.len(),
                forall|k: int| 0 <= k < pos ==> compare_repos_spec(rv[#[trigger] ov[k] as int], rv[x as int], sort_mode) <= 0,
            decreases out.len() - pos,
        {
            assert(rv[out@[pos as int] as int] == repos@[out@[pos as int] as int]@);
            assert(rv[x as int] == repos@[x as int]@);
            pos = pos + 1;
        }
        if pos < out.len() {
            assert(rv[out@[pos as int] as int] == repos@[out@[pos as int] as int]@);
            assert(rv[x as int] == repos@[x as int]@);
        }
        proof {
            lemma_insert_index(rv, sort_mode, ov, orig.take(i), p, x, pos as int);
            p = p.insert(pos as int, i);
        }
        out.insert(pos, x);
        assert(orig.take(i).push(orig[i]) =~= orig.take(i + 1));
        assert(rest@ =~= orig.subrange(i + 1, n as int)) by {
            assert forall|k: int| 0 <= k < rest@.len() implies rest@[k] == rs[k + 1] by {}
        }
        assert forall|k: int| 0 <= k < out@.len() implies (#[trigger] out@[k] as int) < repos@.len() by {
            if k < pos {
                assert(out@[k] == ov[k]);
            } else if k > pos {
                assert(out@[k] == ov[k - 1]);
            }
        }
    }
    assert(orig.take(n as int) =~= orig);
    *indices = out;
}


/// No more repositories are listed than there are.
pub proof fn lemma_visible_len(
    repos: Seq<RepoView>,
    filter: Seq<Seq<char>>,
    group: Option<Seq<char>>,
    mode: SortMode,
    idx: Seq<usize>,
)
    requires
        visible_indices_spec(repos, filter, group, mode, idx),
    ensures
        idx.len() <= repos.len(),
{
    let m = idx.map_values(|x: usize| x as int);
    assert forall|i: int, j: int| 0 <= i < m.len() && 0 <= j < m.len() && i != j implies m[i] != m[j] by {
        let (lo, hi) = if i < j { (i, j) } else { (j, i) };
        assert(listed_before(repos, mode, idx[lo] as int, idx[hi] as int));
        lemma_listed_before(repos, mode, idx[lo] as int, idx[lo] as int, idx[lo] as int);
    }
    assert(m.no_duplicates());
    m.unique_seq_to_set();
    vstd::set_lib::lemma_int_range(0, repos.len() as int);
    assert(m.to_set().subset_of(vstd::set_lib::set_int_range(0, repos.len() as int))) by {
        assert forall|x: int| m.to_set().contains(x) implies vstd::set_lib::set_int_range(0, repos.len() as int).contains(x) by {
            let k = choose|k: int| 0 <= k < m.len() && m[k] == x;
            assert(idx[k] as int == x);
        }
    }
    vstd::set_lib::lemma_len_subset(m.to_set(), vstd::set_lib::set_int_range(0, repos.len() as int));
}


/// Under a tag filter a repository is listed only if it carries every tag
/// of the filter (and is in the group, when one is chosen); every such
/// repository is listed.
pub proof fn law_listed_repos_carry_every_filter_tag(
    repos: Seq<RepoView>,
    filter: Seq<Seq<char>>,
    group: Option<Seq<char>>,
    mode: SortMode,
    idx: Seq<usize>,
)
    requires
        visible_indices_spec(repos, filter, group, mode, idx),
    ensures
        forall|i: int, k: int|
            0 <= i < idx.len() && 0 <= k < filter.len() ==> (idx[i] as int) < repos.len() && #[trigger] repos[
                idx[i] as int
            ].tags.contains(#[trigger] filter[k]),
        forall|i: int|
            0 <= i < idx.len() ==> match group {
                Some(g) => #[trigger] repos[idx[i] as int].group == g,
                None => true,
            },
        forall|j: int|
            #![trigger repos[j]]
            0 <= j < repos.len() && (forall|k: int| 0 <= k < filter.len() ==> #[trigger] repos[j].tags.contains(filter[k]))
                && (group matches Some(g) ==> repos[j].group == g) ==> idx.contains(j as usize),
{
    assert forall|i: int, k: int|
        0 <= i < idx.len() && 0 <= k < filter.len() implies (idx[i] as int) < repos.len() && #[trigger] repos[
        idx[i] as int
    ].tags.contains(#[trigger] filter[k]) by {
        assert(passes_filters(repos[idx[i] as int], filter, group));
    }
    assert forall|i: int| 0 <= i < idx.len() implies match group {
        Some(g) => #[trigger] repos[idx[i] as int].group == g,
        None => true,
    } by {
        assert(passes_filters(repos[idx[i] as int], filter, group));
    }
    assert forall|j: int|
        #![trigger repos[j]]
        0 <= j < repos.len() && (forall|k: int| 0 <= k < filter.len() ==> #[trigger] repos[j].tags.contains(filter[k]))
            && (group matches Some(g) ==> repos[j].group == g) implies idx.contains(j as usize) by {
        assert(passes_filters(repos[j], filter, group));
    }
}

/// Adding a tag to the filter never lists more repositories: what is listed
/// under the longer filter is listed under the shorter one.
pub proof fn law_more_filter_tags_list_no_more(
    repos: Seq<RepoView>,
    filter: Seq<Seq<char>>,
    tag: Seq<char>,
    group: Option<Seq<char>>,
    mode: SortMode,
    fewer: Seq<usize>,
    more: Seq<usize>,
)
    requires
        visible_indices_spec(repos, filter, group, mode, fewer),
        visible_indices_spec(repos, filter.push(tag), group, mode, more),
    ensures
        forall|i: int| 0 <= i < more.len() ==> fewer.contains(#[trigger] more[i]),
        more.len() <= fewer.len(),
{
    assert forall|i: int| 0 <= i < more.len() implies fewer.contains(#[trigger] more[i]) by {
        let j = more[i] as int;
        assert(passes_filters(repos[j], filter.push(tag), group));
        assert forall|k: int| 0 <= k < filter.len() implies repos[j].tags.contains(#[trigger] filter[k]) by {
            assert(filter.push(tag)[k] == filter[k]);
        }
        assert(passes_filters(repos[j], filter, group));
    }
    lemma_indices_subset_len(repos, mode, more, fewer);
}

/// A list in listing order that holds only members of another such list is
/// no longer than it.
proof fn lemma_indices_subset_len(repos: Seq<RepoView>, mode: SortMode, small: Seq<usize>, big: Seq<usize>)
    requires
        listed_in_order(repos, mode, small),
        listed_in_order(repos, mode, big),
        forall|i: int| 0 <= i < small.len() ==> (#[trigger] small[i] as int) < repos.len(),
        forall|i: int| 0 <= i < big.len() ==> (#[trigger] big[i] as int) < repos.len(),
        forall|i: int| 0 <= i < small.len() ==> big.contains(#[trigger] small[i]),
    ensures
        small.len() <= big.len(),
{
    let s = small.map_values(|x: usize| x as int);
    let b = big.map_values(|x: usize| x as int);
    assert forall|i: int, j: int| 0 <= i < s.len() && 0 <= j < s.len() && i != j implies s[i] != s[j] by {
        let (lo, hi) = if i < j { (i, j) } else { (j, i) };
        assert(listed_before(repos, mode, small[lo] as int, small[hi] as int));
        lemma_listed_before(repos, mode, small[lo] as int, small[lo] as int, small[lo] as int);
    }
    assert forall|i: int, j: int| 0 <= i < b.len() && 0 <= j < b.len() && i != j implies b[i] != b[j] by {
        let (lo, hi) = if i < j { (i, j) } else { (j, i) };
        assert(listed_before(repos, mode, big[lo] as int, big[hi] as int));
        lemma_listed_before(repos, mode, big[lo] as int, big[lo] as int, big[lo] as int);
    }
    assert(s.no_duplicates());
    assert(b.no_duplicates());
    s.unique_seq_to_set();
    b.unique_seq_to_set();
    assert(s.to_set().subset_of(b.to_set())) by {
        assert forall|x: int| s.to_set().contains(x) implies b.to_set().contains(x) by {
            let k = choose|k: int| 0 <= k < s.len() && s[k] == x;
            assert(big.contains(small[k]));
            let m = choose|m: int| 0 <= m < big.len() && big[m] == small[k];
            assert(b[m] == x);
        }
    }
    vstd::set_lib::lemma_len_subset(s.to_set(), b.to_set());
}
} // verus!
