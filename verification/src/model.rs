//! The curated data (`repos.json`): the repositories, the registered tags and
//! groups, and the rules that keep them normalized and ordered.
use crate::strings::{
    insert_sorted_unique, normalize_string_list, normalized_list, strictly_sorted, trim, trim_str,
    trimmed_nonempty,
};
use crate::repo_url_cache::{infer_owner_spec, name_views, resolve_spec, RepoUrlCache};
use vstd::prelude::*;

verus! {

/// The group of a repository that has been assigned none.
pub const DEFAULT_GROUP_NAME: &'static str = "ungrouped";

/// A point in time, UTC: whole seconds since the Unix epoch and the nanoseconds
/// within that second (below one billion).
#[derive(Debug, Clone, Copy, PartialEq, Eq, Structural)]
pub struct Timestamp {
    pub secs: i64,
    pub nanos: u32,
}

/// `a` is strictly earlier than `b`.
pub open spec fn ts_lt(a: Timestamp, b: Timestamp) -> bool {
    a.secs < b.secs || (a.secs == b.secs && a.nanos < b.nanos)
}

/// Whether `a` is strictly earlier than `b`.
pub fn timestamp_before(a: Timestamp, b: Timestamp) -> (r: bool)
    ensures
        r == ts_lt(a, b),
{
    a.secs < b.secs || (a.secs == b.secs && a.nanos < b.nanos)
}

/// Bookkeeping of the data file.
#[derive(Debug, Clone, Default)]
pub struct Meta {
    /// The UTC date (`YYYY-MM-DD`) of the last GitHub description sync.
    pub github_desc_updated_at: String,
    /// The UTC date of the last JSON snapshot push.
    pub last_json_commit_push_date: String,
    /// The GitHub account that owns the repositories, when known.
    pub owner: String,
}

/// One curated repository.
#[derive(Debug, Clone)]
pub struct Repo {
    pub name: String,
    pub url: String,
    pub created_at: Timestamp,
    pub updated_at: Option<Timestamp>,
    pub github_desc: String,
    pub desc_short: String,
    pub desc_long: String,
    pub group: String,
    pub tags: Vec<String>,
}

/// The time of the last update, or of creation when none is recorded.
pub open spec fn updated_or_created(r: Repo) -> Timestamp {
    match r.updated_at {
        Some(t) => t,
        None => r.created_at,
    }
}

impl Repo {
    /// The time of the last update, or of creation when none is recorded.
    pub fn updated_at_or_created(&self) -> (r: Timestamp)
        ensures
            r == updated_or_created(*self),
    {
        match self.updated_at {
            Some(t) => t,
            None => self.created_at,
        }
    }
}

/// The contents of a repository record as plain values.
pub struct RepoView {
    pub name: Seq<char>,
    pub url: Seq<char>,
    pub created_at: Timestamp,
    pub updated_at: Option<Timestamp>,
    pub github_desc: Seq<char>,
    pub desc_short: Seq<char>,
    pub desc_long: Seq<char>,
    pub group: Seq<char>,
    pub tags: Seq<Seq<char>>,
}

impl View for Repo {
    type V = RepoView;

    open spec fn view(&self) -> RepoView {
        RepoView {
            name: self.name@,
            url: self.url@,
            created_at: self.created_at,
            updated_at: self.updated_at,
            github_desc: self.github_desc@,
            desc_short: self.desc_short@,
            desc_long: self.desc_long@,
            group: self.group@,
            tags: self.tags.deep_view(),
        }
    }
}

/// The views of a list of repositories.
pub open spec fn repo_views(s: Seq<Repo>) -> Seq<RepoView> {
    s.map_values(|r: Repo| r@)
}

/// Newest first: no repository was created before one that follows it.
pub open spec fn newest_first(s: Seq<RepoView>) -> bool {
    forall|i: int, j: int|
        0 <= i < j < s.len() ==> !ts_lt(#[trigger] s[i].created_at, #[trigger] s[j].created_at)
}

/// Some entry of `p` is `j`.
pub open spec fn hits(p: Seq<int>, j: int) -> bool {
    exists|k: int| 0 <= k < p.len() && p[k] == j
}

/// `out` is `input` reordered by the permutation `p` (`out[k] == input[p[k]]`),
/// and entries created at the same moment keep their relative order.
pub open spec fn stable_reordering(out: Seq<RepoView>, input: Seq<RepoView>, p: Seq<int>) -> bool {
    &&& out.len() == input.len()
    &&& p.len() == input.len()
    &&& forall|k: int| 0 <= k < p.len() ==> 0 <= #[trigger] p[k] < input.len() && out[k] == input[p[k]]
    &&& forall|k: int, l: int| 0 <= k < l < p.len() ==> #[trigger] p[k] != #[trigger] p[l]
    &&& forall|j: int| 0 <= j < input.len() ==> #[trigger] hits(p, j)
    &&& forall|k: int, l: int|
        0 <= k < l < p.len() && out[k].created_at == out[l].created_at ==> #[trigger] p[k] < #[trigger] p[l]
}

/// `out` is `input` sorted newest first by creation time, by a stable sort.
pub open spec fn stable_sort_newest_first(out: Seq<RepoView>, input: Seq<RepoView>) -> bool {
    newest_first(out) && exists|p: Seq<int>| stable_reordering(out, input, p)
}

/// Inserting `x` before the first entry created strictly before it keeps the
/// list newest first and extends the stable reordering by `x`.
proof fn lemma_insert_newest_first(
    ov: Seq<RepoView>,
    input: Seq<RepoView>,
    p: Seq<int>,
    x: RepoView,
    pos: int,
)
    requires
        stable_reordering(ov, input, p),
        newest_first(ov),
        0 <= pos <= ov.len(),
        forall|k: int| 0 <= k < pos ==> !ts_lt(#[trigger] ov[k].created_at, x.created_at),
        pos < ov.len() ==> ts_lt(ov[pos].created_at, x.created_at),
    ensures
        stable_reordering(ov.insert(pos, x), input.push(x), p.insert(pos, input.len() as int)),
        newest_first(ov.insert(pos, x)),
{
    let no = ov.insert(pos, x);
    let ni = input.push(x);
    let np = p.insert(pos, input.len() as int);
    let n = input.len() as int;
    assert forall|k: int| 0 <= k < np.len() implies 0 <= #[trigger] np[k] < ni.len() && no[k] == ni[np[k]] by {
        if k < pos {
            assert(np[k] == p[k] && no[k] == ov[k]);
        } else if k > pos {
            assert(np[k] == p[k - 1] && no[k] == ov[k - 1]);
        }
    }
    assert forall|k: int, l: int| 0 <= k < l < np.len() implies #[trigger] np[k] != #[trigger] np[l] by {
        if k != pos && l != pos {
            let k0 = if k < pos { k } else { k - 1 };
            let l0 = if l < pos { l } else { l - 1 };
            assert(np[k] == p[k0] && np[l] == p[l0]);
            assert(p[k0] != p[l0]);
        } else if k == pos {
            assert(np[l] == p[l - 1]);
        } else {
            assert(np[k] == p[k]);
        }
    }
    assert forall|j: int| 0 <= j < ni.len() implies #[trigger] hits(np, j) by {
        if j == n {
            assert(np[pos] == j);
        } else {
            assert(hits(p, j));
            let k0 = choose|k: int| 0 <= k < p.len() && p[k] == j;
            if k0 < pos {
                assert(np[k0] == j);
            } else {
                assert(np[k0 + 1] == j);
            }
        }
    }
    assert forall|i: int, j: int| 0 <= i < j < no.len() implies !ts_lt(
        #[trigger] no[i].created_at,
        #[trigger] no[j].created_at,
    ) by {
        if i < pos && j == pos {
        } else if i < pos && j > pos {
            assert(no[i] == ov[i] && no[j] == ov[j - 1]);
        } else if i == pos && j > pos {
            assert(no[j] == ov[j - 1]);
            if j - 1 > pos {
                assert(!ts_lt(ov[pos].created_at, ov[j - 1].created_at));
            }
        } else if i > pos {
            assert(no[i] == ov[i - 1] && no[j] == ov[j - 1]);
        } else {
            assert(no[i] == ov[i] && no[j] == ov[j]);
        }
    }
    assert forall|k: int, l: int|
        0 <= k < l < np.len() && no[k].created_at == no[l].created_at implies #[trigger] np[k]
        < #[trigger] np[l] by {
        if k != pos && l != pos {
            let k0 = if k < pos { k } else { k - 1 };
            let l0 = if l < pos { l } else { l - 1 };
            assert(np[k] == p[k0] && np[l] == p[l0]);
            assert(no[k] == ov[k0] && no[l] == ov[l0]);
        } else if l == pos {
            assert(np[k] == p[k]);
        } else {
            assert(no[l] == ov[l - 1]);
            if l - 1 > pos {
                assert(!ts_lt(ov[pos].created_at, ov[l - 1].created_at));
            }
        }
    }
}

/// `input` sorted newest first by creation time; entries created at the same
/// moment keep their order.
fn sort_newest_first(input: Vec<Repo>) -> (out: Vec<Repo>)
    ensures
        stable_sort_newest_first(repo_views(out@), repo_views(input@)),
{
    let ghost orig = repo_views(input@);
    let ghost n = orig.len();
    let mut rest = input;
    let mut out: Vec<Repo> = Vec::new();
    let ghost mut p: Seq<int> = Seq::empty();
    assert(repo_views(rest@) =~= orig.subrange(0, n as int));
    assert(repo_views(out@) =~= Seq::<RepoView>::empty());
    assert(orig.take(0) =~= Seq::<RepoView>::empty());
    while rest.len() > 0
        invariant
            n == orig.len(),
            rest.len() + out.len() == n,
            repo_views(rest@) == orig.subrange(out.len() as int, n as int),
            newest_first(repo_views(out@)),
            stable_reordering(repo_views(out@), orig.take(out.len() as int), p),
        decreases rest.len(),
    {
        let ghost i = out.len() as int;
        let ghost ov = repo_views(out@);
        let ghost rv = repo_views(rest@);
        let ghost rs = rest@;
        let x = rest.remove(0);
        assert(x@ == orig[i]) by {
            assert(rv[0] == orig[i]);
        }
        let mut pos: usize = 0;
        while pos < out.len() && !timestamp_before(out[pos].created_at, x.created_at)
            invariant
                pos <= out.len(),
                ov == repo_views(out@),
                forall|k: int| 0 <= k < pos ==> !ts_lt(#[trigger] ov[k].created_at, x@.created_at),
            decreases out.len() - pos,
        {
            pos = pos + 1;
        }
        proof {
            lemma_insert_newest_first(ov, orig.take(i), p, x@, pos as int);
            p = p.insert(pos as int, i);
        }
        out.insert(pos, x);
        assert(repo_views(out@) =~= ov.insert(pos as int, orig[i]));
        assert(orig.take(i).push(orig[i]) =~= orig.take(i + 1));
        assert(repo_views(rest@) =~= orig.subrange(i + 1, n as int)) by {
            assert forall|k: int| 0 <= k < rest@.len() implies repo_views(rest@)[k] == rv[k + 1] by {
                assert(rest@[k] == rs[k + 1]);
            }
        }
    }
    assert(orig.take(n as int) =~= orig);
    out
}

/// Everything that `repos.json` holds.
#[derive(Debug, Clone)]
pub struct RepoData {
    pub meta: Meta,
    pub registered_tags: Vec<String>,
    pub registered_groups: Vec<String>,
    pub repos: Vec<Repo>,
}

/// The group a repository is filed under: the trimmed name, or the default
/// group when that is empty.
pub open spec fn normalized_group(group: Seq<char>) -> Seq<char> {
    if trim(group).len() == 0 {
        DEFAULT_GROUP_NAME@
    } else {
        trim(group)
    }
}

/// The group a repository is filed under: the trimmed name, or `ungrouped`
/// when that is empty.
pub fn normalized_group_name(group: &str) -> (r: String)
    ensures
        r@ == normalized_group(group@),
{
    let t = trim_str(group);
    if t.as_str().is_empty() {
        DEFAULT_GROUP_NAME.to_owned()
    } else {
        t
    }
}

/// A repository as normalization leaves it: URL trimmed, group normalized,
/// tags normalized.
pub open spec fn normalized_repo(r: RepoView) -> RepoView {
    RepoView { url: trim(r.url), group: normalized_group(r.group), tags: normalized_list(r.tags), ..r }
}

/// The groups that the repositories are filed under.
pub open spec fn repo_groups(repos: Seq<RepoView>) -> Set<Seq<char>> {
    Set::new(|g: Seq<char>| exists|k: int| 0 <= k < repos.len() && normalized_group(#[trigger] repos[k].group) == g)
}

/// The registered groups after normalization: the trimmed, non-empty
/// registered groups (the default group when there are none) and every
/// group a repository is filed under.
pub open spec fn normalized_groups(groups: Seq<Seq<char>>, repos: Seq<RepoView>) -> Set<Seq<char>> {
    let base = if trimmed_nonempty(groups) == Set::<Seq<char>>::empty() {
        set![DEFAULT_GROUP_NAME@]
    } else {
        trimmed_nonempty(groups)
    };
    base.union(repo_groups(repos))
}

/// `r` with its URL trimmed, its group normalized and its tags normalized.
fn normalize_repo(r: Repo) -> (n: Repo)
    ensures
        n@ == normalized_repo(r@),
{
    let mut n = r;
    let url = trim_str(n.url.as_str());
    n.url = url;
    let group = normalized_group_name(n.group.as_str());
    n.group = group;
    normalize_string_list(&mut n.tags);
    n
}

/// The names of the repositories, in order.
pub open spec fn repo_names(repos: Seq<RepoView>) -> Seq<Seq<char>> {
    repos.map_values(|r: RepoView| r.name)
}

/// The owner after a refresh from the URL cache: the recorded owner, or,
/// when none is recorded, the one the cache points to for these repositories.
pub open spec fn refreshed_owner(
    owner: Seq<char>,
    repos: Seq<RepoView>,
    cache: Seq<(Seq<char>, Seq<char>)>,
) -> Seq<char> {
    if owner.len() == 0 {
        match infer_owner_spec(cache, repo_names(repos)) {
            Some(o) => o,
            None => owner,
        }
    } else {
        owner
    }
}

/// The owner as the cache lookup takes it: none when blank.
pub open spec fn owner_option(owner: Seq<char>) -> Option<Seq<char>> {
    if owner.len() == 0 {
        None
    } else {
        Some(owner)
    }
}

/// A repository after a refresh from the URL cache: its URL replaced by the
/// cached one when the cache resolves its name.
pub open spec fn refreshed_repo(r: RepoView, owner: Seq<char>, cache: Seq<(Seq<char>, Seq<char>)>) -> RepoView {
    match resolve_spec(cache, owner_option(owner), r.name) {
        Some(u) => RepoView { url: u, ..r },
        None => r,
    }
}

/// A copy of the strings of `v`.
pub fn clone_strings(v: &Vec<String>) -> (r: Vec<String>)
    ensures
        r.deep_view() == v.deep_view(),
{
    let mut r: Vec<String> = Vec::new();
    let mut i: usize = 0;
    while i < v.len()
        invariant
            i <= v.len(),
            r.deep_view() == v.deep_view().take(i as int),
        decreases v.len() - i,
    {
        let ghost before = r.deep_view();
        let c = v[i].clone();
        assert(c@ == v.deep_view()[i as int]);
        r.push(c);
        assert(r.deep_view() =~= before.push(c@));
        assert(r.deep_view() =~= v.deep_view().take(i + 1));
        i = i + 1;
    }
    assert(v.deep_view().take(i as int) =~= v.deep_view());
    r
}

impl Meta {
    /// A copy of the bookkeeping.
    pub fn duplicate(&self) -> (r: Meta)
        ensures
            r.github_desc_updated_at@ == self.github_desc_updated_at@,
            r.last_json_commit_push_date@ == self.last_json_commit_push_date@,
            r.owner@ == self.owner@,
    {
        Meta {
            github_desc_updated_at: self.github_desc_updated_at.clone(),
            last_json_commit_push_date: self.last_json_commit_push_date.clone(),
            owner: self.owner.clone(),
        }
    }
}

impl Repo {
    /// A copy of the record.
    pub fn duplicate(&self) -> (r: Repo)
        ensures
            r@ == self@,
    {
        Repo {
            name: self.name.clone(),
            url: self.url.clone(),
            created_at: self.created_at,
            updated_at: self.updated_at,
            github_desc: self.github_desc.clone(),
            desc_short: self.desc_short.clone(),
            desc_long: self.desc_long.clone(),
            group: self.group.clone(),
            tags: clone_strings(&self.tags),
        }
    }
}

/// A copy of the repositories.
pub fn clone_repos(v: &Vec<Repo>) -> (r: Vec<Repo>)
    ensures
        repo_views(r@) == repo_views(v@),
{
    let mut r: Vec<Repo> = Vec::new();
    let mut i: usize = 0;
    while i < v.len()
        invariant
            i <= v.len(),
            repo_views(r@) == repo_views(v@).take(i as int),
        decreases v.len() - i,
    {
        let ghost before = repo_views(r@);
        r.push(v[i].duplicate());
        assert(repo_views(r@) =~= before.push(v@[i as int]@));
        assert(repo_views(v@).take(i + 1) =~= repo_views(v@).take(i as int).push(v@[i as int]@));
        i = i + 1;
    }
    assert(repo_views(v@).take(i as int) =~= repo_views(v@));
    r
}

/// A stable newest-first ordering stays one when every entry is mapped by a
/// function that keeps creation times.
pub proof fn lemma_stable_sort_map(out: Seq<RepoView>, input: Seq<RepoView>, f: spec_fn(RepoView) -> RepoView)
    requires
        stable_sort_newest_first(out, input),
        forall|r: RepoView| #[trigger] f(r).created_at == r.created_at,
    ensures
        stable_sort_newest_first(out.map_values(f), input.map_values(f)),
{
    let p = choose|p: Seq<int>| stable_reordering(out, input, p);
    let mo = out.map_values(f);
    let mi = input.map_values(f);
    assert(newest_first(mo)) by {
        assert forall|i: int, j: int| 0 <= i < j < mo.len() implies !ts_lt(
            #[trigger] mo[i].created_at,
            #[trigger] mo[j].created_at,
        ) by {
            assert(mo[i].created_at == out[i].created_at);
            assert(mo[j].created_at == out[j].created_at);
        }
    }
    assert(stable_reordering(mo, mi, p)) by {
        assert forall|k: int, l: int|
            0 <= k < l < p.len() && mo[k].created_at == mo[l].created_at implies #[trigger] p[k]
            < #[trigger] p[l] by {
            assert(mo[k].created_at == out[k].created_at);
            assert(mo[l].created_at == out[l].created_at);
        }
        assert forall|k: int| 0 <= k < p.len() implies 0 <= #[trigger] p[k] < mi.len() && mo[k] == mi[p[k]] by {
            assert(out[k] == input[p[k]]);
        }
    }
}

/// Reordering keeps the set of trimmed, non-empty names.
pub proof fn lemma_stable_sort_names(out: Seq<RepoView>, input: Seq<RepoView>)
    requires
        stable_sort_newest_first(out, input),
    ensures
        trimmed_nonempty(repo_names(out)) == trimmed_nonempty(repo_names(input)),
{
    let p = choose|p: Seq<int>| stable_reordering(out, input, p);
    let no = repo_names(out);
    let ni = repo_names(input);
    assert forall|t: Seq<char>| trimmed_nonempty(no).contains(t) <==> trimmed_nonempty(ni).contains(t) by {
        if trimmed_nonempty(no).contains(t) {
            let i = choose|i: int| 0 <= i < no.len() && trim(#[trigger] no[i]) == t;
            assert(out[i] == input[p[i]]);
            assert(trim(ni[p[i]]) == t);
        }
        if trimmed_nonempty(ni).contains(t) {
            let j = choose|j: int| 0 <= j < ni.len() && trim(#[trigger] ni[j]) == t;
            assert(hits(p, j));
            let k = choose|k: int| 0 <= k < p.len() && p[k] == j;
            assert(out[k] == input[j]);
            assert(trim(no[k]) == t);
        }
    }
    assert(trimmed_nonempty(no) =~= trimmed_nonempty(ni));
}

/// The effect of `ensure_registered_group(group)`: the normalized group
/// name registered (the list normalized again when it was not there), and
/// nothing else changed.
pub open spec fn group_registered(a: RepoData, b: RepoData, group: Seq<char>) -> bool {
    let g = normalized_group(group);
    &&& b.registered_groups.deep_view() == if a.registered_groups.deep_view().contains(g) {
        a.registered_groups.deep_view()
    } else {
        normalized_list(a.registered_groups.deep_view().push(g))
    }
    &&& b == RepoData { registered_groups: b.registered_groups, ..a }
}

/// Whether `name` is one of `list`.
pub fn list_contains(list: &Vec<String>, name: &str) -> (r: bool)
    ensures
        r == list.deep_view().contains(name@),
{
    let mut i: usize = 0;
    while i < list.len()
        invariant
            i <= list.len(),
            forall|k: int| 0 <= k < i ==> list.deep_view()[k] != name@,
        decreases list.len() - i,
    {
        if crate::strings::str_eq(list[i].as_str(), name) {
            assert(list.deep_view()[i as int] == name@);
            return true;
        }
        i = i + 1;
    }
    false
}

/// `b` is `a` normalized (see `RepoData::normalize`).
pub open spec fn normalized_data(a: RepoData, b: RepoData) -> bool {
    &&& b.registered_tags.deep_view() == normalized_list(a.registered_tags.deep_view())
    &&& b.meta.owner@ == trim(a.meta.owner@)
    &&& b.meta.github_desc_updated_at == a.meta.github_desc_updated_at
    &&& b.meta.last_json_commit_push_date == a.meta.last_json_commit_push_date
    &&& strictly_sorted(b.registered_groups.deep_view())
    &&& b.registered_groups.deep_view().to_set() == normalized_groups(
        a.registered_groups.deep_view(),
        repo_views(a.repos@),
    )
    &&& stable_sort_newest_first(
        repo_views(b.repos@),
        repo_views(a.repos@).map_values(|r: RepoView| normalized_repo(r)),
    )
}

/// The default group's name has no surrounding white space.
pub proof fn lemma_default_group_trimmed()
    ensures
        trim(DEFAULT_GROUP_NAME@) == DEFAULT_GROUP_NAME@,
        DEFAULT_GROUP_NAME@.len() > 0,
        normalized_group(DEFAULT_GROUP_NAME@) == DEFAULT_GROUP_NAME@,
{
    reveal_strlit("ungrouped");
    let d = DEFAULT_GROUP_NAME@;
    assert(d[0] == 'u');
    assert(d.last() == 'd');
    assert(crate::strings::trim_start(d) == d);
    assert(crate::strings::trim_end(d) == d);
}

/// A normalized group name is non-empty and has no surrounding white
/// space, and normalizing it again changes nothing.
proof fn lemma_normalized_group_fixed(g: Seq<char>)
    ensures
        normalized_group(g).len() > 0,
        trim(normalized_group(g)) == normalized_group(g),
        normalized_group(normalized_group(g)) == normalized_group(g),
{
    lemma_default_group_trimmed();
    crate::strings::lemma_trim_idempotent(g);
}

/// Normalizing a normalized repository changes nothing.
proof fn lemma_normalized_repo_idempotent(r: RepoView)
    ensures
        normalized_repo(normalized_repo(r)) == normalized_repo(r),
{
    crate::strings::lemma_trim_idempotent(r.url);
    lemma_normalized_group_fixed(r.group);
    crate::strings::lemma_normalized_list_idempotent(r.tags);
}

/// Timestamps neither of which is before the other are equal.
proof fn lemma_ts_equal(a: Timestamp, b: Timestamp)
    requires
        !ts_lt(a, b),
        !ts_lt(b, a),
    ensures
        a == b,
{
}

/// A stable reordering between two newest-first lists leaves the first
/// `k` entries in place.
proof fn lemma_sorted_reordering_prefix(out: Seq<RepoView>, input: Seq<RepoView>, p: Seq<int>, k: int)
    requires
        stable_reordering(out, input, p),
        newest_first(out),
        newest_first(input),
        0 <= k <= p.len(),
    ensures
        forall|j: int| 0 <= j < k ==> #[trigger] p[j] == j,
    decreases k,
{
    if k > 0 {
        lemma_sorted_reordering_prefix(out, input, p, k - 1);
        let j = k - 1;
        if p[j] != j {
            if p[j] < j {
                let q = p[j];
                assert(p[q] == q);
                assert(p[q] != p[j]);
            }
            let m = p[j];
            assert(hits(p, j));
            let l = choose|l: int| 0 <= l < p.len() && p[l] == j;
            if l < j {
                assert(p[l] == l);
            }
            assert(l > j);
            assert(out[j] == input[m]);
            assert(out[l] == input[j]);
            assert(!ts_lt(out[j].created_at, out[l].created_at));
            assert(!ts_lt(input[j].created_at, input[m].created_at));
            lemma_ts_equal(input[j].created_at, input[m].created_at);
            assert(out[j].created_at == out[l].created_at);
            assert(p[j] < p[l]);
        }
    }
}

/// Stably sorting a list that is already newest first leaves it as it is.
pub proof fn lemma_stable_sort_of_sorted(out: Seq<RepoView>, input: Seq<RepoView>)
    requires
        stable_sort_newest_first(out, input),
        newest_first(input),
    ensures
        out == input,
{
    let p = choose|p: Seq<int>| stable_reordering(out, input, p);
    lemma_sorted_reordering_prefix(out, input, p, p.len() as int);
    assert forall|k: int| 0 <= k < out.len() implies out[k] == input[k] by {
        assert(p[k] == k);
    }
    assert(out =~= input);
}

/// A list of names in normal form: strictly sorted, each name non-empty and
/// without surrounding white space.
pub open spec fn clean_list(s: Seq<Seq<char>>) -> bool {
    &&& strictly_sorted(s)
    &&& forall|i: int| 0 <= i < s.len() ==> (#[trigger] s[i]).len() > 0 && trim(s[i]) == s[i]
}

/// The normalized form of any list is a list in normal form.
proof fn lemma_normalized_list_clean(values: Seq<Seq<char>>)
    ensures
        clean_list(normalized_list(values)),
{
    let s = normalized_list(values);
    crate::strings::lemma_normalized_list_props(values);
    assert forall|i: int| 0 <= i < s.len() implies (#[trigger] s[i]).len() > 0 && trim(s[i]) == s[i] by {
        assert(s.to_set().contains(s[i]));
        assert(trimmed_nonempty(values).contains(s[i]));
        let k = choose|k: int| 0 <= k < values.len() && trim(#[trigger] values[k]) == s[i];
        crate::strings::lemma_trim_idempotent(values[k]);
    }
}

/// What normalized data looks like: the registered tags and groups in
/// normal form, at least one group registered, the owner trimmed, and
/// every repository with a trimmed URL, a registered group and its tags in
/// normal form; the repositories are the given ones normalized and sorted
/// newest first, stably.
pub proof fn law_normalize_shape(d0: RepoData, d1: RepoData)
    requires
        normalized_data(d0, d1),
    ensures
        clean_list(d1.registered_tags.deep_view()),
        clean_list(d1.registered_groups.deep_view()),
        d1.registered_groups@.len() > 0,
        trim(d1.meta.owner@) == d1.meta.owner@,
        forall|k: int|
            0 <= k < d1.repos@.len() ==> {
                let r = #[trigger] repo_views(d1.repos@)[k];
                &&& trim(r.url) == r.url
                &&& d1.registered_groups.deep_view().contains(r.group)
                &&& clean_list(r.tags)
            },
        stable_sort_newest_first(
            repo_views(d1.repos@),
            repo_views(d0.repos@).map_values(|r: RepoView| normalized_repo(r)),
        ),
{
    lemma_normalized_list_clean(d0.registered_tags.deep_view());
    crate::strings::lemma_trim_idempotent(d0.meta.owner@);
    lemma_default_group_trimmed();
    let r0 = repo_views(d0.repos@);
    let m0 = r0.map_values(|r: RepoView| normalized_repo(r));
    let r1 = repo_views(d1.repos@);
    let p = choose|p: Seq<int>| stable_reordering(r1, m0, p);
    let g0 = d0.registered_groups.deep_view();
    let g1 = d1.registered_groups.deep_view();
    assert forall|g: Seq<char>| #[trigger] g1.to_set().contains(g) implies g.len() > 0 && trim(g) == g by {
        if trimmed_nonempty(g0).contains(g) {
            let k = choose|k: int| 0 <= k < g0.len() && trim(#[trigger] g0[k]) == g;
            crate::strings::lemma_trim_idempotent(g0[k]);
        } else if repo_groups(r0).contains(g) {
            let k = choose|k: int| 0 <= k < r0.len() && normalized_group(#[trigger] r0[k].group) == g;
            lemma_normalized_group_fixed(r0[k].group);
        }
    }
    assert forall|i: int| 0 <= i < g1.len() implies (#[trigger] g1[i]).len() > 0 && trim(g1[i]) == g1[i] by {
        assert(g1.to_set().contains(g1[i]));
    }
    if trimmed_nonempty(g0) == Set::<Seq<char>>::empty() {
        assert(g1.to_set().contains(DEFAULT_GROUP_NAME@));
    } else {
        assert(exists|t: Seq<char>| trimmed_nonempty(g0).contains(t)) by {
            if !(exists|t: Seq<char>| trimmed_nonempty(g0).contains(t)) {
                assert(trimmed_nonempty(g0) =~= Set::<Seq<char>>::empty());
            }
        }
        let t = choose|t: Seq<char>| trimmed_nonempty(g0).contains(t);
        assert(g1.to_set().contains(t));
    }
    assert(g1.len() > 0);
    assert forall|k: int| 0 <= k < d1.repos@.len() implies {
        let r = #[trigger] repo_views(d1.repos@)[k];
        &&& trim(r.url) == r.url
        &&& d1.registered_groups.deep_view().contains(r.group)
        &&& clean_list(r.tags)
    } by {
        let x = r0[p[k]];
        assert(r1[k] == m0[p[k]]);
        assert(r1[k] == normalized_repo(x));
        crate::strings::lemma_trim_idempotent(x.url);
        lemma_normalized_list_clean(x.tags);
        assert(repo_groups(r0).contains(normalized_group(x.group)));
        assert(g1.to_set().contains(normalized_group(x.group)));
    }
}

/// Normalizing normalized data changes nothing: the tags, the groups, the
/// owner, the dates and every repository stay as they are.
pub proof fn law_normalize_idempotent(d0: RepoData, d1: RepoData, d2: RepoData)
    requires
        normalized_data(d0, d1),
        normalized_data(d1, d2),
    ensures
        d2.registered_tags.deep_view() == d1.registered_tags.deep_view(),
        d2.registered_groups.deep_view() == d1.registered_groups.deep_view(),
        d2.meta.owner@ == d1.meta.owner@,
        d2.meta.github_desc_updated_at == d1.meta.github_desc_updated_at,
        d2.meta.last_json_commit_push_date == d1.meta.last_json_commit_push_date,
        repo_views(d2.repos@) == repo_views(d1.repos@),
{
    // tags and owner
    crate::strings::lemma_normalized_list_idempotent(d0.registered_tags.deep_view());
    crate::strings::lemma_trim_idempotent(d0.meta.owner@);
    // repositories: every one is already normalized, and the list is newest first
    let r0 = repo_views(d0.repos@);
    let m0 = r0.map_values(|r: RepoView| normalized_repo(r));
    let r1 = repo_views(d1.repos@);
    let p = choose|p: Seq<int>| stable_reordering(r1, m0, p);
    assert forall|k: int| 0 <= k < r1.len() implies normalized_repo(#[trigger] r1[k]) == r1[k] by {
        assert(r1[k] == m0[p[k]]);
        lemma_normalized_repo_idempotent(r0[p[k]]);
    }
    assert(r1.map_values(|r: RepoView| normalized_repo(r)) =~= r1);
    lemma_stable_sort_of_sorted(repo_views(d2.repos@), r1);
    // groups: every registered group is normalized, and every group in use is registered
    let g0 = d0.registered_groups.deep_view();
    let g1 = d1.registered_groups.deep_view();
    assert forall|g: Seq<char>| #[trigger] g1.to_set().contains(g) implies g.len() > 0 && trim(g) == g by {
        lemma_default_group_trimmed();
        if trimmed_nonempty(g0).contains(g) {
            let k = choose|k: int| 0 <= k < g0.len() && trim(#[trigger] g0[k]) == g;
            crate::strings::lemma_trim_idempotent(g0[k]);
        } else if repo_groups(r0).contains(g) {
            let k = choose|k: int| 0 <= k < r0.len() && normalized_group(#[trigger] r0[k].group) == g;
            lemma_normalized_group_fixed(r0[k].group);
        }
    }
    assert(trimmed_nonempty(g1) =~= g1.to_set()) by {
        assert forall|g: Seq<char>| #[trigger] trimmed_nonempty(g1).contains(g) implies g1.to_set().contains(g) by {
            let i = choose|i: int| 0 <= i < g1.len() && trim(#[trigger] g1[i]) == g && g.len() > 0;
            assert(g1.to_set().contains(g1[i]));
        }
        assert forall|g: Seq<char>| #[trigger] g1.to_set().contains(g) implies trimmed_nonempty(g1).contains(g) by {
            let i = choose|i: int| 0 <= i < g1.len() && g1[i] == g;
            assert(trim(g1[i]) == g);
        }
    }
    assert(g1.to_set() != Set::<Seq<char>>::empty()) by {
        if trimmed_nonempty(g0) == Set::<Seq<char>>::empty() {
            assert(g1.to_set().contains(DEFAULT_GROUP_NAME@));
        } else {
            assert(exists|t: Seq<char>| trimmed_nonempty(g0).contains(t)) by {
                if !(exists|t: Seq<char>| trimmed_nonempty(g0).contains(t)) {
                    assert(trimmed_nonempty(g0) =~= Set::<Seq<char>>::empty());
                }
            }
            let t = choose|t: Seq<char>| trimmed_nonempty(g0).contains(t);
            assert(g1.to_set().contains(t));
        }
    }
    assert forall|g: Seq<char>| #[trigger] repo_groups(r1).contains(g) implies g1.to_set().contains(g) by {
        let k = choose|k: int| 0 <= k < r1.len() && normalized_group(#[trigger] r1[k].group) == g;
        assert(r1[k] == m0[p[k]]);
        lemma_normalized_group_fixed(r0[p[k]].group);
        assert(normalized_group(r0[p[k]].group) == g);
        assert(repo_groups(r0).contains(g));
    }
    assert(normalized_groups(g1, r1) =~= g1.to_set());
    crate::strings::lemma_strictly_sorted_unique(d2.registered_groups.deep_view(), g1);
}

impl RepoData {
    /// Data with no repositories and no tags, and only the default group registered.
    pub fn empty() -> (r: RepoData)
        ensures
            r.meta.github_desc_updated_at@.len() == 0,
            r.meta.last_json_commit_push_date@.len() == 0,
            r.meta.owner@.len() == 0,
            r.registered_tags@.len() == 0,
            r.registered_groups.deep_view() == seq![DEFAULT_GROUP_NAME@],
            r.repos@.len() == 0,
    {
        let mut groups: Vec<String> = Vec::new();
        groups.push(DEFAULT_GROUP_NAME.to_owned());
        assert(groups.deep_view() =~= seq![DEFAULT_GROUP_NAME@]);
        RepoData {
            meta: Meta { github_desc_updated_at: String::new(), last_json_commit_push_date: String::new(), owner: String::new() },
            registered_tags: Vec::new(),
            registered_groups: groups,
            repos: Vec::new(),
        }
    }

    /// Normalizes the data as it is read and before it is written: tags and
    /// groups trimmed, deduplicated and sorted, the owner trimmed, each
    /// repository's URL trimmed and its group and tags normalized, every
    /// group in use registered (the default group when none is), and the
    /// repositories sorted newest first.
    pub fn normalize(&mut self)
        ensures
            normalized_data(*old(self), *final(self)),
            final(self).registered_tags.deep_view() == normalized_list(old(self).registered_tags.deep_view()),
            final(self).meta.owner@ == trim(old(self).meta.owner@),
            final(self).meta.github_desc_updated_at == old(self).meta.github_desc_updated_at,
            final(self).meta.last_json_commit_push_date == old(self).meta.last_json_commit_push_date,
            strictly_sorted(final(self).registered_groups.deep_view()),
            final(self).registered_groups.deep_view().to_set() == normalized_groups(
                old(self).registered_groups.deep_view(),
                repo_views(old(self).repos@),
            ),
            stable_sort_newest_first(
                repo_views(final(self).repos@),
                repo_views(old(self).repos@).map_values(|r: RepoView| normalized_repo(r)),
            ),
    {
        let ghost old_groups = self.registered_groups.deep_view();
        let ghost orig = repo_views(self.repos@);
        normalize_string_list(&mut self.registered_tags);
        normalize_string_list(&mut self.registered_groups);
        let owner = trim_str(self.meta.owner.as_str());
        self.meta.owner = owner;
        let ghost base = self.registered_groups.deep_view().to_set();
        if self.registered_groups.len() == 0 {
            self.registered_groups.push(DEFAULT_GROUP_NAME.to_owned());
            assert(trimmed_nonempty(old_groups) =~= Set::<Seq<char>>::empty());
            assert(self.registered_groups.deep_view() =~= seq![DEFAULT_GROUP_NAME@]);
            assert(self.registered_groups.deep_view().to_set() =~= set![DEFAULT_GROUP_NAME@]) by {
                assert(self.registered_groups.deep_view()[0] == DEFAULT_GROUP_NAME@);
            }
        } else {
            assert(base.contains(self.registered_groups.deep_view()[0]));
            assert(trimmed_nonempty(old_groups) != Set::<Seq<char>>::empty());
        }
        let ghost base2 = self.registered_groups.deep_view().to_set();
        let ghost tags0 = self.registered_tags;
        let ghost meta0 = self.meta;
        let mut rest: Vec<Repo> = Vec::new();
        std::mem::swap(&mut rest, &mut self.repos);
        let ghost n = orig.len();
        let mut done: Vec<Repo> = Vec::new();
        assert(repo_views(rest@) =~= orig.subrange(0, n as int));
        assert(repo_groups(orig.take(0)) =~= Set::<Seq<char>>::empty());
        assert(base2.union(repo_groups(orig.take(0))) =~= base2);
        while rest.len() > 0
            invariant
                n == orig.len(),
                self.registered_tags == tags0,
                self.meta == meta0,
                rest.len() + done.len() == n,
                repo_views(rest@) == orig.subrange(done.len() as int, n as int),
                repo_views(done@) == orig.take(done.len() as int).map_values(|r: RepoView| normalized_repo(r)),
                strictly_sorted(self.registered_groups.deep_view()),
                self.registered_groups.deep_view().to_set() == base2.union(repo_groups(orig.take(done.len() as int))),
            decreases rest.len(),
        {
            let ghost i = done.len() as int;
            let ghost rv = repo_views(rest@);
            let ghost rs = rest@;
            let r = rest.remove(0);
            assert(r@ == orig[i]) by {
                assert(rv[0] == orig[i]);
            }
            let r = normalize_repo(r);
            let ghost gs = self.registered_groups.deep_view().to_set();
            if !list_contains(&self.registered_groups, r.group.as_str()) {
                let g = r.group.clone();
                insert_sorted_unique(&mut self.registered_groups, g);
            }
            assert(self.registered_groups.deep_view().to_set() =~= gs.insert(normalized_group(orig[i].group)));
            assert(repo_groups(orig.take(i + 1)) =~= repo_groups(orig.take(i)).insert(normalized_group(orig[i].group))) by {
                assert(orig.take(i + 1)[i] == orig[i]);
                assert forall|g: Seq<char>| #[trigger] repo_groups(orig.take(i + 1)).contains(g) implies repo_groups(
                    orig.take(i),
                ).insert(normalized_group(orig[i].group)).contains(g) by {
                    let k = choose|k: int| 0 <= k < i + 1 && normalized_group(#[trigger] orig.take(i + 1)[k].group) == g;
                    if k < i {
                        assert(orig.take(i)[k] == orig.take(i + 1)[k]);
                    }
                }
                assert forall|g: Seq<char>| #[trigger] repo_groups(orig.take(i)).contains(g) implies repo_groups(
                    orig.take(i + 1),
                ).contains(g) by {
                    let k = choose|k: int| 0 <= k < i && normalized_group(#[trigger] orig.take(i)[k].group) == g;
                    assert(orig.take(i)[k] == orig.take(i + 1)[k]);
                }
            }
            let ghost dv = repo_views(done@);
            let ghost nr = r@;
            done.push(r);
            assert(repo_views(done@) =~= dv.push(nr));
            assert(orig.take(i + 1).map_values(|r: RepoView| normalized_repo(r)) =~= orig.take(i).map_values(
                |r: RepoView| normalized_repo(r),
            ).push(normalized_repo(orig[i])));
            assert(repo_views(rest@) =~= orig.subrange(i + 1, n as int)) by {
                assert forall|k: int| 0 <= k < rest@.len() implies repo_views(rest@)[k] == rv[k + 1] by {
                    assert(rest@[k] == rs[k + 1]);
                }
            }
        }
        assert(orig.take(n as int) =~= orig);
        self.repos = done;
        self.sort_repos();
    }

    /// A copy of the data.
    pub fn duplicate(&self) -> (r: RepoData)
        ensures
            r.meta.github_desc_updated_at@ == self.meta.github_desc_updated_at@,
            r.meta.last_json_commit_push_date@ == self.meta.last_json_commit_push_date@,
            r.meta.owner@ == self.meta.owner@,
            r.registered_tags.deep_view() == self.registered_tags.deep_view(),
            r.registered_groups.deep_view() == self.registered_groups.deep_view(),
            repo_views(r.repos@) == repo_views(self.repos@),
    {
        RepoData {
            meta: self.meta.duplicate(),
            registered_tags: clone_strings(&self.registered_tags),
            registered_groups: clone_strings(&self.registered_groups),
            repos: clone_repos(&self.repos),
        }
    }

    /// Fills in from the URL cache: when no owner is recorded, the owner the
    /// cache points to for these repositories; then each repository's URL,
    /// where the cache resolves its name.
    pub fn refresh_repo_urls_from_cache(&mut self, cache: &RepoUrlCache)
        ensures
            final(self).meta.owner@ == refreshed_owner(old(self).meta.owner@, repo_views(old(self).repos@), cache@),
            final(self).meta.github_desc_updated_at == old(self).meta.github_desc_updated_at,
            final(self).meta.last_json_commit_push_date == old(self).meta.last_json_commit_push_date,
            final(self).registered_tags == old(self).registered_tags,
            final(self).registered_groups == old(self).registered_groups,
            repo_views(final(self).repos@) == repo_views(old(self).repos@).map_values(
                |r: RepoView| refreshed_repo(r, final(self).meta.owner@, cache@),
            ),
    {
        let ghost orig = repo_views(self.repos@);
        if self.meta.owner.as_str().is_empty() {
            let mut names: Vec<&str> = Vec::new();
            let mut i: usize = 0;
            while i < self.repos.len()
                invariant
                    i <= self.repos.len(),
                    orig == repo_views(self.repos@),
                    name_views(names@) == repo_names(orig).take(i as int),
                decreases self.repos.len() - i,
            {
                let ghost before = name_views(names@);
                let nm = self.repos[i].name.as_str();
                assert(nm@ == orig[i as int].name);
                names.push(nm);
                assert(name_views(names@) =~= before.push(nm@));
                assert(name_views(names@) =~= repo_names(orig).take(i + 1));
                i = i + 1;
            }
            assert(repo_names(orig).take(i as int) =~= repo_names(orig));
            let inferred = cache.infer_owner(names.as_slice());
            if let Some(o) = inferred {
                self.meta.owner = o;
            }
        }
        let owner = self.meta.owner.clone();
        let ghost ov = owner@;
        let mut rest: Vec<Repo> = Vec::new();
        std::mem::swap(&mut rest, &mut self.repos);
        let ghost n = orig.len();
        let mut done: Vec<Repo> = Vec::new();
        assert(repo_views(rest@) =~= orig.subrange(0, n as int));
        while rest.len() > 0
            invariant
                n == orig.len(),
                rest.len() + done.len() == n,
                ov == owner@,
                repo_views(rest@) == orig.subrange(done.len() as int, n as int),
                repo_views(done@) == orig.take(done.len() as int).map_values(
                    |r: RepoView| refreshed_repo(r, ov, cache@),
                ),
            decreases rest.len(),
        {
            let ghost i = done.len() as int;
            let ghost rv = repo_views(rest@);
            let ghost rs = rest@;
            let mut r = rest.remove(0);
            assert(r@ == orig[i]) by {
                assert(rv[0] == orig[i]);
            }
            let owner_arg: Option<&str> = if owner.as_str().is_empty() {
                None
            } else {
                Some(owner.as_str())
            };
            let resolved = cache.resolve(owner_arg, r.name.as_str());
            if let Some(u) = resolved {
                r.url = u.to_owned();
            }
            let ghost dv = repo_views(done@);
            let ghost nr = r@;
            assert(nr == refreshed_repo(orig[i], ov, cache@));
            done.push(r);
            assert(repo_views(done@) =~= dv.push(nr));
            assert(orig.take(i + 1).map_values(|r: RepoView| refreshed_repo(r, ov, cache@)) =~= orig.take(
                i,
            ).map_values(|r: RepoView| refreshed_repo(r, ov, cache@)).push(refreshed_repo(orig[i], ov, cache@)));
            assert(repo_views(rest@) =~= orig.subrange(i + 1, n as int)) by {
                assert forall|k: int| 0 <= k < rest@.len() implies repo_views(rest@)[k] == rv[k + 1] by {
                    assert(rest@[k] == rs[k + 1]);
                }
            }
        }
        assert(orig.take(n as int) =~= orig);
        self.repos = done;
    }

    /// The data as it is written: a normalized copy, filled in from the URL
    /// cache.
    pub fn prepared_for_serialization(&self, cache: &RepoUrlCache) -> (r: RepoData)
        ensures
            r.registered_tags.deep_view() == normalized_list(self.registered_tags.deep_view()),
            r.meta.owner@ == refreshed_owner(trim(self.meta.owner@), repo_views(self.repos@), cache@),
            r.meta.github_desc_updated_at@ == self.meta.github_desc_updated_at@,
            r.meta.last_json_commit_push_date@ == self.meta.last_json_commit_push_date@,
            strictly_sorted(r.registered_groups.deep_view()),
            r.registered_groups.deep_view().to_set() == normalized_groups(
                self.registered_groups.deep_view(),
                repo_views(self.repos@),
            ),
            stable_sort_newest_first(
                repo_views(r.repos@),
                repo_views(self.repos@).map_values(
                    |v: RepoView| refreshed_repo(normalized_repo(v), r.meta.owner@, cache@),
                ),
            ),
    {
        let mut n = self.duplicate();
        n.normalize();
        let ghost sorted = repo_views(n.repos@);
        let ghost orig = repo_views(self.repos@);
        let ghost normalized = orig.map_values(|r: RepoView| normalized_repo(r));
        proof {
            lemma_stable_sort_names(sorted, normalized);
            assert(repo_names(normalized) =~= repo_names(orig));
        }
        n.refresh_repo_urls_from_cache(cache);
        let ghost owner = n.meta.owner@;
        proof {
            let f = |r: RepoView| refreshed_repo(r, owner, cache@);
            lemma_stable_sort_map(sorted, normalized, f);
            assert(repo_views(n.repos@) =~= sorted.map_values(f));
            assert(normalized.map_values(f) =~= orig.map_values(
                |v: RepoView| refreshed_repo(normalized_repo(v), owner, cache@),
            ));
        }
        n
    }

    /// Sorts the repositories newest first by creation time; repositories
    /// created at the same moment keep their order.
    pub fn sort_repos(&mut self)
        ensures
            final(self).meta == old(self).meta,
            final(self).registered_tags == old(self).registered_tags,
            final(self).registered_groups == old(self).registered_groups,
            stable_sort_newest_first(repo_views(final(self).repos@), repo_views(old(self).repos@)),
    {
        let mut input: Vec<Repo> = Vec::new();
        std::mem::swap(&mut input, &mut self.repos);
        self.repos = sort_newest_first(input);
    }

    /// Registers `group` (normalized by `normalized_group_name`) unless it is
    /// registered already; a new group is added and the list normalized again.
    pub fn ensure_registered_group(&mut self, group: &str)
        ensures
            final(self).meta == old(self).meta,
            final(self).registered_tags == old(self).registered_tags,
            final(self).repos == old(self).repos,
            old(self).registered_groups.deep_view().contains(normalized_group(group@)) ==> final(self).registered_groups
                == old(self).registered_groups,
            !old(self).registered_groups.deep_view().contains(normalized_group(group@)) ==> {
                &&& strictly_sorted(final(self).registered_groups.deep_view())
                &&& final(self).registered_groups.deep_view().to_set() == trimmed_nonempty(
                    old(self).registered_groups.deep_view().push(normalized_group(group@)),
                )
            },
            group_registered(*old(self), *final(self), group@),
    {
        let g = normalized_group_name(group);
        if list_contains(&self.registered_groups, g.as_str()) {
            return;
        }
        let ghost before = self.registered_groups.deep_view();
        self.registered_groups.push(g);
        assert(self.registered_groups.deep_view() =~= before.push(normalized_group(group@)));
        normalize_string_list(&mut self.registered_groups);
    }
}

} // verus!
