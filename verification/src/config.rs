//! The configuration file (`config.toml`): a small TOML subset with one
//! `[json_auto_push]` section whose `repo` key names the GitHub repository that
//! receives the daily `repos.json` backup.
use crate::strings::{
    append_str, chars_of, decimal, is_white_space, string_from_chars, sub_chars, trim, trim_chars,
    usize_to_string,
};
use vstd::prelude::*;

verus! {

/// The text written to a fresh configuration file.
pub const DEFAULT_CONFIG: &'static str = "# own-repos-curator configuration\n# Set the GitHub repository used for the daily repos.json backup.\n# Example: repo = \"your-account/your-backup-repo\"\n[json_auto_push]\nrepo = \"\"\n";

/// The pieces of `s` between newline characters (at least one, possibly empty).
pub open spec fn split_newlines(s: Seq<char>) -> Seq<Seq<char>>
    decreases s.len(),
{
    if s.len() == 0 {
        seq![Seq::empty()]
    } else {
        let p = split_newlines(s.drop_last());
        if s.last() == '\n' {
            p.push(Seq::empty())
        } else {
            p.update(p.len() - 1, p.last().push(s.last()))
        }
    }
}

/// A line without the carriage return that ended it.
pub open spec fn strip_cr(l: Seq<char>) -> Seq<char> {
    if l.len() > 0 && l.last() == '\r' {
        l.drop_last()
    } else {
        l
    }
}

/// The lines of `s` as `str::lines` yields them: split at `\n` or `\r\n`, the
/// final line ending optional, a bare trailing `\r` kept in the last line.
pub open spec fn lines_of(s: Seq<char>) -> Seq<Seq<char>> {
    let p = split_newlines(s);
    let init = p.drop_last().map_values(|l: Seq<char>| strip_cr(l));
    if p.last().len() == 0 {
        init
    } else {
        init.push(p.last())
    }
}

pub proof fn lemma_split_newlines_len(s: Seq<char>)
    ensures
        split_newlines(s).len() >= 1,
        split_newlines(s).len() <= s.len() + 1,
    decreases s.len(),
{
    if s.len() > 0 {
        lemma_split_newlines_len(s.drop_last());
    }
}

/// The lines of `s` (`str::lines`).
pub fn split_lines(s: &Vec<char>) -> (r: Vec<Vec<char>>)
    ensures
        r.deep_view() == lines_of(s@),
        r.len() <= s.len(),
{
    let mut out: Vec<Vec<char>> = Vec::new();
    let mut cur: Vec<char> = Vec::new();
    let mut i: usize = 0;
    while i < s.len()
        invariant
            i <= s.len(),
            out.deep_view().push(cur@) == split_newlines(s@.take(i as int)).drop_last().map_values(
                |l: Seq<char>| strip_cr(l),
            ).push(split_newlines(s@.take(i as int)).last()),
            out.len() + cur.len() <= i,
        decreases s.len() - i,
    {
        let ghost p = split_newlines(s@.take(i as int));
        proof {
            lemma_split_newlines_len(s@.take(i as int));
            assert(s@.take(i + 1).drop_last() =~= s@.take(i as int));
        }
        assert(out.deep_view() =~= p.drop_last().map_values(|l: Seq<char>| strip_cr(l))) by {
            assert(out.deep_view() =~= out.deep_view().push(cur@).drop_last());
        }
        assert(cur@ == p.last()) by {
            assert(out.deep_view().push(cur@).last() == cur@);
        }
        proof {
            crate::strings::lemma_chars_deep_view(cur);
        }
        let c = s[i];
        if c == '\n' {
            let mut line = cur;
            if line.len() > 0 && line[line.len() - 1] == '\r' {
                line.pop();
            }
            assert(line@ == strip_cr(p.last()));
            proof {
                crate::strings::lemma_chars_deep_view(line);
            }
            let ghost before = out.deep_view();
            out.push(line);
            assert(out.deep_view() =~= before.push(strip_cr(p.last())));
            cur = Vec::new();
            let ghost q = split_newlines(s@.take(i + 1));
            assert(q == p.push(Seq::empty()));
            assert(q.drop_last() =~= p);
            assert(out.deep_view() =~= q.drop_last().map_values(|l: Seq<char>| strip_cr(l)));
            assert(out.deep_view().push(cur@) =~= q.drop_last().map_values(|l: Seq<char>| strip_cr(l)).push(q.last()));
        } else {
            cur.push(c);
            let ghost q = split_newlines(s@.take(i + 1));
            assert(q == p.update(p.len() - 1, p.last().push(c)));
            assert(q.drop_last() =~= p.drop_last());
            assert(out.deep_view().push(cur@) =~= q.drop_last().map_values(|l: Seq<char>| strip_cr(l)).push(q.last()));
        }
        i = i + 1;
    }
    assert(s@.take(s@.len() as int) =~= s@);
    let ghost p = split_newlines(s@);
    assert(out.deep_view() =~= out.deep_view().push(cur@).drop_last());
    assert(out.deep_view().push(cur@).last() == cur@);
    let ghost init = p.drop_last().map_values(|l: Seq<char>| strip_cr(l));
    assert(out.deep_view() == init);
    assert(cur@ == p.last());
    proof {
        crate::strings::lemma_chars_deep_view(cur);
    }
    if cur.len() > 0 {
        let ghost before = out.deep_view();
        out.push(cur);
        assert(out.deep_view() =~= before.push(p.last()));
    }
    out
}

/// Where a comment starts in `s`, scanning from `i`: the first `#` outside a
/// double-quoted string, or the end of the line.
pub open spec fn comment_start(s: Seq<char>, i: int, in_string: bool) -> int
    decreases s.len() - i,
{
    if i >= s.len() || i < 0 {
        s.len() as int
    } else if s[i] == '"' {
        comment_start(s, i + 1, !in_string)
    } else if s[i] == '#' && !in_string {
        i
    } else {
        comment_start(s, i + 1, in_string)
    }
}

/// The line without its comment.
pub open spec fn strip_comment_spec(s: Seq<char>) -> Seq<char> {
    s.take(comment_start(s, 0, false))
}

proof fn lemma_comment_start_bounds(s: Seq<char>, i: int, in_string: bool)
    requires
        0 <= i <= s.len(),
    ensures
        i <= comment_start(s, i, in_string) <= s.len(),
    decreases s.len() - i,
{
    if i < s.len() {
        if s[i] == '"' {
            lemma_comment_start_bounds(s, i + 1, !in_string);
        } else if !(s[i] == '#' && !in_string) {
            lemma_comment_start_bounds(s, i + 1, in_string);
        }
    }
}

/// The line without its comment: cut at the first `#` that is not inside a
/// double-quoted string.
pub fn strip_comment(line: &Vec<char>) -> (r: Vec<char>)
    ensures
        r@ == strip_comment_spec(line@),
{
    let mut in_string = false;
    let mut i: usize = 0;
    while i < line.len()
        invariant
            i <= line.len(),
            comment_start(line@, i as int, in_string) == comment_start(line@, 0, false),
        decreases line.len() - i,
    {
        let c = line[i];
        if c == '"' {
            in_string = !in_string;
        } else if c == '#' && !in_string {
            return sub_chars(line, 0, i);
        }
        i = i + 1;
    }
    sub_chars(line, 0, line.len())
}

/// Why a section header was refused.
#[derive(Debug, Clone, Copy, PartialEq, Eq)]
pub enum SectionError {
    /// The header is not of the form `[...]`.
    NotBracketed,
    /// The name between the brackets is empty.
    EmptyName,
}

/// Why a key/value line was refused.
#[derive(Debug, Clone, Copy, PartialEq, Eq)]
pub enum KeyValueError {
    /// No `=` in the line.
    MissingEquals,
    /// Nothing before the `=`.
    EmptyKey,
}

/// Why a value was not accepted as a string literal.
#[derive(Debug, Clone, Copy, PartialEq, Eq)]
pub enum LiteralError {
    /// The value is not wrapped in double quotes.
    NotQuoted,
    /// The value holds a backslash.
    EscapeUnsupported,
}

/// Why a text was not accepted as an `owner/repo` reference.
#[derive(Debug, Clone, Copy, PartialEq, Eq)]
pub enum RepoRefError {
    /// No `/` between owner and repository.
    MissingSlash,
    /// A component is empty, starts or ends with `.`, holds `..`, or holds a
    /// character other than ASCII letters, digits, `.`, `_` and `-`.
    InvalidComponent,
}

/// Why the configuration text was refused; lines are numbered from 1.
#[derive(Debug, Clone, Copy, PartialEq, Eq)]
pub enum ConfigError {
    InvalidSection { line: usize, reason: SectionError },
    InvalidKeyValue { line: usize, reason: KeyValueError },
    InvalidRepoValue { line: usize, reason: LiteralError },
    InvalidRepo(RepoRefError),
}

/// The section name of a header line, or why it is refused.
pub open spec fn parse_section_spec(line: Seq<char>) -> Result<Seq<char>, SectionError> {
    if line.len() == 0 || line.last() != ']' || line[0] != '[' {
        Err(SectionError::NotBracketed)
    } else if line.len() < 2 {
        Err(SectionError::NotBracketed)
    } else {
        let name = trim(line.subrange(1, line.len() - 1));
        if name.len() == 0 {
            Err(SectionError::EmptyName)
        } else {
            Ok(name)
        }
    }
}

/// The section name of a `[name]` header line.
pub fn parse_section(line: &Vec<char>) -> (r: Result<Vec<char>, SectionError>)
    ensures
        match (r, parse_section_spec(line@)) {
            (Ok(a), Ok(b)) => a@ == b,
            (Err(a), Err(b)) => a == b,
            _ => false,
        },
{
    let n = line.len();
    if n == 0 || line[n - 1] != ']' || line[0] != '[' {
        return Err(SectionError::NotBracketed);
    }
    if n < 2 {
        return Err(SectionError::NotBracketed);
    }
    let inner = sub_chars(line, 1, n - 1);
    let name = trim_chars(&inner);
    if name.len() == 0 {
        Err(SectionError::EmptyName)
    } else {
        Ok(name)
    }
}

/// The position of the first occurrence of `c` in `s`, if any.
pub open spec fn first_index_of(s: Seq<char>, c: char) -> Option<int> {
    if s.contains(c) {
        Some(choose|i: int| 0 <= i < s.len() && s[i] == c && forall|j: int| 0 <= j < i ==> s[j] != c)
    } else {
        None
    }
}

/// Some occurrence of `c` at or before `i` is the first one.
proof fn lemma_first_occurrence_exists(s: Seq<char>, c: char, i: int)
    requires
        0 <= i < s.len(),
        s[i] == c,
    ensures
        exists|k: int| 0 <= k < s.len() && s[k] == c && forall|j: int| 0 <= j < k ==> s[j] != c,
    decreases i,
{
    if exists|q: int| 0 <= q < i && s[q] == c {
        let q = choose|q: int| 0 <= q < i && s[q] == c;
        lemma_first_occurrence_exists(s, c, q);
    } else {
        assert(forall|j: int| 0 <= j < i ==> s[j] != c);
    }
}

/// `first_index_of` gives the first occurrence, and nothing only when there
/// is none.
pub proof fn lemma_first_index_of(s: Seq<char>, c: char)
    ensures
        first_index_of(s, c) matches Some(i) ==> 0 <= i < s.len() && s[i] == c && forall|j: int| 0 <= j < i ==> s[j] != c,
        first_index_of(s, c) is None ==> !s.contains(c),
{
    if s.contains(c) {
        let i = choose|i: int| 0 <= i < s.len() && s[i] == c;
        lemma_first_occurrence_exists(s, c, i);
    }
}

/// The position of the first occurrence of `c` in `v`, if any.
pub fn find_char(v: &Vec<char>, c: char) -> (r: Option<usize>)
    ensures
        match r {
            Some(i) => first_index_of(v@, c) == Some(i as int) && i < v.len() && v@[i as int] == c
                && forall|j: int| 0 <= j < i ==> v@[j] != c,
            None => first_index_of(v@, c) is None && !v@.contains(c),
        },
{
    let mut i: usize = 0;
    while i < v.len()
        invariant
            i <= v.len(),
            forall|j: int| 0 <= j < i ==> v@[j] != c,
        decreases v.len() - i,
    {
        if v[i] == c {
            assert(v@.contains(c));
            proof {
                let k = choose|k: int| 0 <= k < v@.len() && v@[k] == c && forall|j: int| 0 <= j < k ==> v@[j] != c;
                if k < i {
                } else if k > i {
                    assert(v@[i as int] == c);
                }
                assert(k == i);
            }
            return Some(i);
        }
        i = i + 1;
    }
    None
}

/// The trimmed key and value of a `key = value` line, or why it is refused.
pub open spec fn parse_key_value_spec(line: Seq<char>) -> Result<(Seq<char>, Seq<char>), KeyValueError> {
    match first_index_of(line, '=') {
        None => Err(KeyValueError::MissingEquals),
        Some(i) => {
            let key = trim(line.take(i));
            let value = trim(line.skip(i + 1));
            if key.len() == 0 {
                Err(KeyValueError::EmptyKey)
            } else {
                Ok((key, value))
            }
        },
    }
}

/// Splits a `key = value` line at its first `=` and trims both sides.
pub fn parse_key_value(line: &Vec<char>) -> (r: Result<(Vec<char>, Vec<char>), KeyValueError>)
    ensures
        match (r, parse_key_value_spec(line@)) {
            (Ok((k, v)), Ok((a, b))) => k@ == a && v@ == b,
            (Err(a), Err(b)) => a == b,
            _ => false,
        },
{
    let i = match find_char(line, '=') {
        None => return Err(KeyValueError::MissingEquals),
        Some(i) => i,
    };
    let key = trim_chars(&sub_chars(line, 0, i));
    let value = trim_chars(&sub_chars(line, i + 1, line.len()));
    assert(line@.subrange(0, i as int) =~= line@.take(i as int));
    assert(line@.subrange(i + 1, line@.len() as int) =~= line@.skip(i + 1));
    if key.len() == 0 {
        Err(KeyValueError::EmptyKey)
    } else {
        Ok((key, value))
    }
}

/// The text between the double quotes of a string literal, or why it is refused.
pub open spec fn parse_string_literal_spec(value: Seq<char>) -> Result<Seq<char>, LiteralError> {
    if value.len() < 2 || value[0] != '"' || value.last() != '"' {
        Err(LiteralError::NotQuoted)
    } else if value.subrange(1, value.len() - 1).contains('\\') {
        Err(LiteralError::EscapeUnsupported)
    } else {
        Ok(value.subrange(1, value.len() - 1))
    }
}

/// The text between the double quotes of a string literal; escape sequences are not supported.
pub fn parse_string_literal(value: &Vec<char>) -> (r: Result<Vec<char>, LiteralError>)
    ensures
        match (r, parse_string_literal_spec(value@)) {
            (Ok(a), Ok(b)) => a@ == b,
            (Err(a), Err(b)) => a == b,
            _ => false,
        },
{
    let n = value.len();
    if n < 2 || value[0] != '"' || value[n - 1] != '"' {
        return Err(LiteralError::NotQuoted);
    }
    let inner = sub_chars(value, 1, n - 1);
    if crate::tags::contains_char(&inner, '\\') {
        Err(LiteralError::EscapeUnsupported)
    } else {
        Ok(inner)
    }
}


/// A character allowed in a GitHub owner or repository name.
pub open spec fn is_repo_char(c: char) -> bool {
    ('a' <= c && c <= 'z') || ('A' <= c && c <= 'Z') || ('0' <= c && c <= '9') || c == '.' || c == '_'
        || c == '-'
}

/// A valid owner or repository name: non-empty, no leading or trailing `.`,
/// no `..`, only ASCII letters, digits, `.`, `_` and `-`.
pub open spec fn valid_repo_component(v: Seq<char>) -> bool {
    &&& v.len() > 0
    &&& v[0] != '.'
    &&& v.last() != '.'
    &&& forall|i: int| 0 <= i < v.len() - 1 ==> !(v[i] == '.' && #[trigger] v[i + 1] == '.')
    &&& forall|i: int| 0 <= i < v.len() ==> is_repo_char(#[trigger] v[i])
}

/// Whether `v` is a valid owner or repository name.
pub fn is_valid_repo_component(v: &Vec<char>) -> (r: bool)
    ensures
        r == valid_repo_component(v@),
{
    let n = v.len();
    if n == 0 || v[0] == '.' || v[n - 1] == '.' {
        return false;
    }
    let mut i: usize = 0;
    while i < n
        invariant
            n == v.len(),
            i <= n,
            forall|k: int| 0 <= k < i ==> is_repo_char(#[trigger] v@[k]),
            forall|k: int| 0 <= k < i && k < n - 1 ==> !(v@[k] == '.' && #[trigger] v@[k + 1] == '.'),
        decreases n - i,
    {
        let c = v[i];
        let ok = ('a' <= c && c <= 'z') || ('A' <= c && c <= 'Z') || ('0' <= c && c <= '9') || c == '.'
            || c == '_' || c == '-';
        if !ok {
            return false;
        }
        if i + 1 < n && c == '.' && v[i + 1] == '.' {
            return false;
        }
        i = i + 1;
    }
    true
}

/// The reference that `value` denotes: the trimmed text, when it splits at its
/// first `/` into a valid owner and a valid repository name.
pub open spec fn repo_ref_spec(value: Seq<char>) -> Result<Seq<char>, RepoRefError> {
    let t = trim(value);
    match first_index_of(t, '/') {
        None => Err(RepoRefError::MissingSlash),
        Some(i) => if valid_repo_component(t.take(i)) && valid_repo_component(t.skip(i + 1)) {
            Ok(t)
        } else {
            Err(RepoRefError::InvalidComponent)
        },
    }
}

/// A repository reference parses back to itself: the text of a parsed
/// reference is a valid reference, the same one.
pub proof fn law_repo_ref_reparses(value: Seq<char>)
    requires
        repo_ref_spec(value) is Ok,
    ensures
        repo_ref_spec(repo_ref_spec(value)->Ok_0) == repo_ref_spec(value),
{
    crate::strings::lemma_trim_idempotent(value);
}

/// A GitHub owner or repository name as GitHub allows it: non-empty, made
/// of ASCII letters of either case, digits, `.`, `_` and `-`, not starting
/// or ending with `.`, with no `..`.
pub open spec fn github_name(v: Seq<char>) -> bool {
    &&& v.len() > 0
    &&& v[0] != '.'
    &&& v[v.len() - 1] != '.'
    &&& forall|i: int| 0 <= i < v.len() - 1 ==> !(#[trigger] v[i] == '.' && v[i + 1] == '.')
    &&& forall|i: int|
        0 <= i < v.len() ==> {
            let c = #[trigger] v[i];
            ||| 'a' <= c <= 'z'
            ||| 'A' <= c <= 'Z'
            ||| '0' <= c <= '9'
            ||| c == '.'
            ||| c == '_'
            ||| c == '-'
        }
}

/// Every `owner/repo` whose two parts are names GitHub allows is accepted as
/// a repository reference, and denotes exactly that text.
pub proof fn law_github_names_are_accepted(owner: Seq<char>, repo: Seq<char>)
    requires
        github_name(owner),
        github_name(repo),
    ensures
        repo_ref_spec(owner + seq!['/'] + repo) == Ok::<Seq<char>, RepoRefError>(owner + seq!['/'] + repo),
{
    let t = owner + seq!['/'] + repo;
    assert(!crate::strings::is_white_space(t[0])) by {
        assert(t[0] == owner[0]);
    }
    assert(!crate::strings::is_white_space(t.last())) by {
        assert(t.last() == repo[repo.len() - 1]);
    }
    assert(crate::strings::trim_start(t) == t);
    assert(crate::strings::trim_end(t) == t);
    assert(trim(t) == t);
    let p = owner.len() as int;
    assert(t[p] == '/');
    assert(t.contains('/'));
    let i = choose|i: int| 0 <= i < t.len() && t[i] == '/' && forall|j: int| 0 <= j < i ==> t[j] != '/';
    assert(first_index_of(t, '/') == Some(i));
    assert(i == p) by {
        if i < p {
            assert(t[i] == owner[i]);
        } else if i > p {
            assert(t[p] == '/');
        }
    }
    assert(t.take(p) =~= owner);
    assert(t.skip(p + 1) =~= repo);
    assert(valid_repo_component(owner)) by {
        assert forall|k: int| 0 <= k < owner.len() implies is_repo_char(#[trigger] owner[k]) by {
            let c = owner[k];
        }
    }
    assert(valid_repo_component(repo)) by {
        assert forall|k: int| 0 <= k < repo.len() implies is_repo_char(#[trigger] repo[k]) by {
            let c = repo[k];
        }
    }
}

/// What is accepted as a repository reference is the trimmed text, split at
/// its first `/` into an owner and a repository name that GitHub allows.
pub proof fn law_accepted_refs_are_github_names(value: Seq<char>)
    ensures
        repo_ref_spec(value) matches Ok(t) ==> {
            &&& t == trim(value)
            &&& exists|p: int|
                0 <= p < t.len() && #[trigger] t[p] == '/' && (forall|q: int| 0 <= q < p ==> t[q] != '/')
                    && github_name(t.take(p)) && github_name(t.skip(p + 1))
        },
{
    if let Ok(t) = repo_ref_spec(value) {
        lemma_first_index_of(t, '/');
        let p = first_index_of(t, '/')->0;
        let o = t.take(p);
        let r = t.skip(p + 1);
        assert(valid_repo_component(o) && valid_repo_component(r));
        assert(github_name(o)) by {
            assert forall|i: int| 0 <= i < o.len() - 1 implies !(#[trigger] o[i] == '.' && o[i + 1] == '.') by {
                assert(!(o[i] == '.' && o[i + 1] == '.'));
            }
            assert forall|i: int| 0 <= i < o.len() implies {
                let c = #[trigger] o[i];
                ||| 'a' <= c <= 'z'
                ||| 'A' <= c <= 'Z'
                ||| '0' <= c <= '9'
                ||| c == '.'
                ||| c == '_'
                ||| c == '-'
            } by {
                assert(is_repo_char(o[i]));
            }
        }
        assert(github_name(r)) by {
            assert forall|i: int| 0 <= i < r.len() - 1 implies !(#[trigger] r[i] == '.' && r[i + 1] == '.') by {
                assert(!(r[i] == '.' && r[i + 1] == '.'));
            }
            assert forall|i: int| 0 <= i < r.len() implies {
                let c = #[trigger] r[i];
                ||| 'a' <= c <= 'z'
                ||| 'A' <= c <= 'Z'
                ||| '0' <= c <= '9'
                ||| c == '.'
                ||| c == '_'
                ||| c == '-'
            } by {
                assert(is_repo_char(r[i]));
            }
        }
        assert(t[p] == '/');
    }
}

/// A GitHub repository in `owner/repo` form.
#[derive(Debug, Clone, PartialEq, Eq)]
pub struct GitHubRepoRef(String);

impl View for GitHubRepoRef {
    type V = Seq<char>;

    closed spec fn view(&self) -> Seq<char> {
        self.0@
    }
}

/// `s` with every `/` written as `__`.
pub open spec fn slash_to_underscores(s: Seq<char>) -> Seq<char>
    decreases s.len(),
{
    if s.len() == 0 {
        Seq::empty()
    } else if s.last() == '/' {
        slash_to_underscores(s.drop_last()) + seq!['_', '_']
    } else {
        slash_to_underscores(s.drop_last()).push(s.last())
    }
}

impl GitHubRepoRef {
    /// Parses `owner/repo` (surrounding white space ignored); both parts must be
    /// valid GitHub names.
    pub fn parse(value: &str) -> (r: Result<GitHubRepoRef, RepoRefError>)
        ensures
            match (r, repo_ref_spec(value@)) {
                (Ok(a), Ok(b)) => a@ == b,
                (Err(a), Err(b)) => a == b,
                _ => false,
            },
    {
        let t = trim_chars(&chars_of(value));
        let i = match find_char(&t, '/') {
            None => return Err(RepoRefError::MissingSlash),
            Some(i) => i,
        };
        let owner = sub_chars(&t, 0, i);
        let repo = sub_chars(&t, i + 1, t.len());
        assert(t@.subrange(0, i as int) =~= t@.take(i as int));
        assert(t@.subrange(i + 1, t@.len() as int) =~= t@.skip(i + 1));
        if !is_valid_repo_component(&owner) || !is_valid_repo_component(&repo) {
            return Err(RepoRefError::InvalidComponent);
        }
        Ok(GitHubRepoRef(string_from_chars(&t)))
    }

    /// A copy of the reference.
    pub fn duplicate(&self) -> (r: GitHubRepoRef)
        ensures
            r@ == self@,
    {
        GitHubRepoRef(self.0.clone())
    }

    /// The `owner/repo` text.
    pub fn as_str(&self) -> (r: &str)
        ensures
            r@ == self@,
    {
        self.0.as_str()
    }

    /// The name of the directory that holds a clone of this repository:
    /// `owner__repo`.
    pub fn directory_name(&self) -> (r: String)
        ensures
            r@ == slash_to_underscores(self@),
    {
        let v = chars_of(self.0.as_str());
        let mut out: Vec<char> = Vec::new();
        let mut i: usize = 0;
        while i < v.len()
            invariant
                i <= v.len(),
                out@ == slash_to_underscores(v@.take(i as int)),
            decreases v.len() - i,
        {
            assert(v@.take(i + 1).drop_last() =~= v@.take(i as int));
            if v[i] == '/' {
                out.push('_');
                out.push('_');
                assert(out@ =~= slash_to_underscores(v@.take(i as int)) + seq!['_', '_']);
            } else {
                out.push(v[i]);
            }
            i = i + 1;
        }
        assert(v@.take(v@.len() as int) =~= v@);
        string_from_chars(&out)
    }
}

/// The `[json_auto_push]` settings: the backup repository, if one is set.
#[derive(Debug, Clone, PartialEq, Eq)]
pub struct JsonAutoPushConfig {
    pub repo: Option<GitHubRepoRef>,
}

/// The application's configuration.
#[derive(Debug, Clone, PartialEq, Eq)]
pub struct AppConfig {
    pub json_auto_push: JsonAutoPushConfig,
}

/// An optional repository reference, as text.
pub open spec fn opt_repo_view(o: Option<GitHubRepoRef>) -> Option<Seq<char>> {
    match o {
        Some(r) => Some(r@),
        None => None,
    }
}

/// The backup repository of a configuration, as text.
pub open spec fn config_repo(c: AppConfig) -> Option<Seq<char>> {
    opt_repo_view(c.json_auto_push.repo)
}

impl Default for AppConfig {
    fn default() -> (r: AppConfig)
        ensures
            r.json_auto_push.repo is None,
    {
        AppConfig { json_auto_push: JsonAutoPushConfig { repo: None } }
    }
}

/// The state of the parser between lines: the current section and the repository seen so far.
pub type ParseState = (Seq<char>, Option<Seq<char>>);

/// The effect of one line on the parser state; `line_no` counts from 1.
#[verifier::opaque]
pub open spec fn config_step(st: ParseState, raw_line: Seq<char>, line_no: int) -> Result<ParseState, ConfigError> {
    let line = trim(strip_comment_spec(raw_line));
    if line.len() == 0 {
        Ok(st)
    } else if line[0] == '[' {
        match parse_section_spec(line) {
            Err(e) => Err(ConfigError::InvalidSection { line: line_no as usize, reason: e }),
            Ok(name) => Ok((name, st.1)),
        }
    } else {
        match parse_key_value_spec(line) {
            Err(e) => Err(ConfigError::InvalidKeyValue { line: line_no as usize, reason: e }),
            Ok((key, value)) => if st.0 == "json_auto_push"@ && key == "repo"@ {
                match parse_string_literal_spec(value) {
                    Err(e) => Err(ConfigError::InvalidRepoValue { line: line_no as usize, reason: e }),
                    Ok(p) => if trim(p).len() == 0 {
                        Ok((st.0, None))
                    } else {
                        match repo_ref_spec(p) {
                            Err(e) => Err(ConfigError::InvalidRepo(e)),
                            Ok(r) => Ok((st.0, Some(r))),
                        }
                    },
                }
            } else {
                Ok(st)
            },
        }
    }
}

/// The parser state after the first `n` lines, or the first error among them.
pub open spec fn config_prefix(lines: Seq<Seq<char>>, n: int) -> Result<ParseState, ConfigError>
    decreases n,
{
    if n <= 0 {
        Ok((Seq::empty(), None))
    } else {
        match config_prefix(lines, n - 1) {
            Err(e) => Err(e),
            Ok(st) => config_step(st, lines[n - 1], n),
        }
    }
}

/// The backup repository that the configuration text sets, or the first error in it.
pub open spec fn parse_config_spec(raw: Seq<char>) -> Result<Option<Seq<char>>, ConfigError> {
    match config_prefix(lines_of(raw), lines_of(raw).len() as int) {
        Ok(st) => Ok(st.1),
        Err(e) => Err(e),
    }
}

/// Once a line fails, the parse of every longer prefix fails the same way.
pub proof fn lemma_config_error_sticks(lines: Seq<Seq<char>>, m: int, n: int)
    requires
        0 <= m <= n,
        config_prefix(lines, m) is Err,
    ensures
        config_prefix(lines, n) == config_prefix(lines, m),
    decreases n - m,
{
    if n > m {
        lemma_config_error_sticks(lines, m, n - 1);
    }
}

/// Whether two character vectors are equal.
pub fn chars_eq(a: &Vec<char>, b: &Vec<char>) -> (r: bool)
    ensures
        r == (a@ == b@),
{
    if a.len() != b.len() {
        return false;
    }
    let mut i: usize = 0;
    while i < a.len()
        invariant
            i <= a.len(),
            a.len() == b.len(),
            forall|k: int| 0 <= k < i ==> a@[k] == b@[k],
        decreases a.len() - i,
    {
        if a[i] != b[i] {
            return false;
        }
        i = i + 1;
    }
    assert(a@ =~= b@);
    true
}

/// Applies one configuration line to the parser state.
fn config_line_step(
    section: &mut Vec<char>,
    repo: &mut Option<GitHubRepoRef>,
    raw_line: &Vec<char>,
    line_no: usize,
) -> (r: Result<(), ConfigError>)
    ensures
        match config_step((old(section)@, opt_repo_view(*old(repo))), raw_line@, line_no as int) {
            Ok(st) => r is Ok && final(section)@ == st.0 && opt_repo_view(*final(repo)) == st.1,
            Err(e) => r == Err::<(), ConfigError>(e),
        },
{
    reveal(config_step);
    let section_name = chars_of("json_auto_push");
    let repo_key = chars_of("repo");
    let line = trim_chars(&strip_comment(raw_line));
    if line.len() == 0 {
        return Ok(());
    }
    if line[0] == '[' {
        match parse_section(&line) {
            Err(e) => Err(ConfigError::InvalidSection { line: line_no, reason: e }),
            Ok(name) => {
                *section = name;
                Ok(())
            },
        }
    } else {
        match parse_key_value(&line) {
            Err(e) => Err(ConfigError::InvalidKeyValue { line: line_no, reason: e }),
            Ok((key, value)) => {
                if chars_eq(section, &section_name) && chars_eq(&key, &repo_key) {
                    match parse_string_literal(&value) {
                        Err(e) => Err(ConfigError::InvalidRepoValue { line: line_no, reason: e }),
                        Ok(p) => {
                            let tp = trim_chars(&p);
                            if tp.len() == 0 {
                                *repo = None;
                                Ok(())
                            } else {
                                let ps = string_from_chars(&p);
                                match GitHubRepoRef::parse(ps.as_str()) {
                                    Err(e) => Err(ConfigError::InvalidRepo(e)),
                                    Ok(rr) => {
                                        *repo = Some(rr);
                                        Ok(())
                                    },
                                }
                            }
                        },
                    }
                } else {
                    Ok(())
                }
            },
        }
    }
}

impl AppConfig {
    /// Parses the configuration text line by line: comments (`#` outside
    /// double quotes) and blank lines are skipped, `[name]` opens a section, and
    /// `repo = "owner/repo"` inside `[json_auto_push]` sets the backup
    /// repository (an empty string unsets it). Other keys are ignored.
    pub fn parse(raw: &str) -> (r: Result<AppConfig, ConfigError>)
        ensures
            match (r, parse_config_spec(raw@)) {
                (Ok(c), Ok(repo)) => config_repo(c) == repo,
                (Err(a), Err(b)) => a == b,
                _ => false,
            },
    {
        let text = chars_of(raw);
        let lines = split_lines(&text);
        let ghost ls = lines_of(raw@);
        let mut section: Vec<char> = Vec::new();
        let mut repo: Option<GitHubRepoRef> = None;
        let mut i: usize = 0;
        while i < lines.len()
            invariant
                i <= lines.len(),
                lines.len() <= text.len(),
                lines.deep_view() == ls,
                ls == lines_of(raw@),
                config_prefix(ls, i as int) == Ok::<ParseState, ConfigError>((section@, opt_repo_view(repo))),
            decreases lines.len() - i,
        {
            proof {
                crate::strings::lemma_chars_deep_view(lines[i as int]);
            }
            assert(ls[i as int] == lines[i as int]@);
            let ghost st: ParseState = (section@, opt_repo_view(repo));
            assert(config_prefix(ls, i + 1) == config_step(st, ls[i as int], i + 1));
            let step = config_line_step(&mut section, &mut repo, &lines[i], i + 1);
            if let Err(e) = step {
                assert(config_step(st, ls[i as int], i + 1) == Err::<ParseState, ConfigError>(e));
                proof {
                    lemma_config_error_sticks(ls, i + 1, ls.len() as int);
                }
                return Err(e);
            }
            i = i + 1;
        }
        Ok(AppConfig { json_auto_push: JsonAutoPushConfig { repo } })
    }

    /// The configuration from the text of the configuration file, or, when
    /// there is no file yet (`None`), from the default text that is written
    /// in its place.
    pub fn load_or_init(existing: Option<&str>) -> (r: Result<AppConfig, ConfigError>)
        ensures
            match (r, parse_config_spec(
                match existing {
                    Some(raw) => raw@,
                    None => DEFAULT_CONFIG@,
                },
            )) {
                (Ok(c), Ok(repo)) => config_repo(c) == repo,
                (Err(a), Err(b)) => a == b,
                _ => false,
            },
    {
        match existing {
            Some(raw) => AppConfig::parse(raw),
            None => AppConfig::parse(DEFAULT_CONFIG),
        }
    }
}

impl SectionError {
    /// The text of the refusal.
    pub fn message(&self) -> (r: &'static str)
        ensures
            r@ == match *self {
                SectionError::NotBracketed => "section header must be wrapped with []"@,
                SectionError::EmptyName => "section name cannot be empty"@,
            },
    {
        match self {
            SectionError::NotBracketed => "section header must be wrapped with []",
            SectionError::EmptyName => "section name cannot be empty",
        }
    }
}

impl KeyValueError {
    /// The text of the refusal.
    pub fn message(&self) -> (r: &'static str)
        ensures
            r@ == match *self {
                KeyValueError::MissingEquals => "expected '=' in key/value pair"@,
                KeyValueError::EmptyKey => "key cannot be empty"@,
            },
    {
        match self {
            KeyValueError::MissingEquals => "expected '=' in key/value pair",
            KeyValueError::EmptyKey => "key cannot be empty",
        }
    }
}

impl LiteralError {
    /// The text of the refusal.
    pub fn message(&self) -> (r: &'static str)
        ensures
            r@ == match *self {
                LiteralError::NotQuoted => "expected a double-quoted string"@,
                LiteralError::EscapeUnsupported => "escape sequences are not supported in config.toml"@,
            },
    {
        match self {
            LiteralError::NotQuoted => "expected a double-quoted string",
            LiteralError::EscapeUnsupported => "escape sequences are not supported in config.toml",
        }
    }
}

/// The text of a refused repository reference.
pub open spec fn repo_ref_message(e: RepoRefError) -> Seq<char> {
    match e {
        RepoRefError::MissingSlash => "GitHub repo must be in owner/repo format"@,
        RepoRefError::InvalidComponent => "GitHub repo may only contain ASCII letters, digits, '.', '_' and '-'"@,
    }
}

impl RepoRefError {
    /// The text of the refusal.
    pub fn message(&self) -> (r: &'static str)
        ensures
            r@ == repo_ref_message(*self),
    {
        match self {
            RepoRefError::MissingSlash => "GitHub repo must be in owner/repo format",
            RepoRefError::InvalidComponent => "GitHub repo may only contain ASCII letters, digits, '.', '_' and '-'",
        }
    }
}

/// The text of a refused configuration: where it went wrong, or, for a bad
/// repository reference, what is wrong with it.
pub open spec fn config_error_message(e: ConfigError) -> Seq<char> {
    match e {
        ConfigError::InvalidSection { line, .. } => "invalid section at line "@ + decimal(line as nat),
        ConfigError::InvalidKeyValue { line, .. } => "invalid key/value at line "@ + decimal(line as nat),
        ConfigError::InvalidRepoValue { line, .. } => "invalid repo value at line "@ + decimal(line as nat),
        ConfigError::InvalidRepo(r) => repo_ref_message(r),
    }
}

impl ConfigError {
    /// The text of the refusal (see `config_error_message`).
    pub fn message(&self) -> (r: String)
        ensures
            r@ == config_error_message(*self),
    {
        match self {
            ConfigError::InvalidSection { line, .. } => {
                let mut s = "invalid section at line ".to_owned();
                append_str(&mut s, usize_to_string(*line).as_str());
                s
            },
            ConfigError::InvalidKeyValue { line, .. } => {
                let mut s = "invalid key/value at line ".to_owned();
                append_str(&mut s, usize_to_string(*line).as_str());
                s
            },
            ConfigError::InvalidRepoValue { line, .. } => {
                let mut s = "invalid repo value at line ".to_owned();
                append_str(&mut s, usize_to_string(*line).as_str());
                s
            },
            ConfigError::InvalidRepo(r) => r.message().to_owned(),
        }
    }
}

} // verus!
