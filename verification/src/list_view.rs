//! The repository list of the main screen as text: the lines of each
//! listed repository, as the texts of their spans.
use crate::config::{lines_of, split_lines};
use crate::modes::DescDisplayMode;
use crate::panel_text::{spans_view, styled_view, StyledSpan, Tone};
use crate::right_pane::lines_view;
use crate::strings::{chars_of, string_from_chars, trim, trim_str};
use vstd::prelude::*;

verus! {

/// The tags of a repository line: ` [`, the tags separated by `, `, `]`.
pub open spec fn tag_spans(tags: Seq<Seq<char>>) -> Seq<Seq<char>>
    decreases tags.len(),
{
    if tags.len() == 0 {
        Seq::empty()
    } else if tags.len() == 1 {
        seq![tags[0]]
    } else {
        tag_spans(tags.drop_last()) + seq![", "@, tags.last()]
    }
}

/// The first line of a listed repository: its name, its group in angle
/// brackets, then its tags in square brackets when it has any.
pub open spec fn repo_line_spec(name: Seq<char>, group: Seq<char>, tags: Seq<Seq<char>>) -> Seq<Seq<char>> {
    let head = seq![name, " <"@, group, ">"@];
    if tags.len() == 0 {
        head
    } else {
        head + seq![" ["@] + tag_spans(tags) + seq!["]"@]
    }
}

/// The lines of a listed repository: its first line, then, as the display
/// mode says, its one-line description indented by two spaces and each
/// line of its three-line description indented by four, when they are not
/// blank.
pub open spec fn repo_item_lines_spec(
    name: Seq<char>,
    group: Seq<char>,
    desc_short: Seq<char>,
    desc_long: Seq<char>,
    tags: Seq<Seq<char>>,
    mode: DescDisplayMode,
) -> Seq<Seq<Seq<char>>> {
    let first = seq![repo_line_spec(name, group, tags)];
    let short = trim(desc_short);
    let long = trim(desc_long);
    let with_short = if mode != DescDisplayMode::RightPane && short.len() > 0 {
        first.push(seq!["  "@, short])
    } else {
        first
    };
    if mode == DescDisplayMode::LeftShortAndLong && long.len() > 0 {
        with_short + lines_of(long).map_values(|l: Seq<char>| seq!["    "@, l])
    } else {
        with_short
    }
}

/// The first line of a listed repository (see `repo_line_spec`).
pub fn repo_line(repo_name: &str, group_name: &str, display_tags: &Vec<String>) -> (r: Vec<String>)
    ensures
        r.deep_view() == repo_line_spec(repo_name@, group_name@, display_tags.deep_view()),
{
    let mut spans: Vec<String> = Vec::new();
    spans.push(repo_name.to_owned());
    spans.push(" <".to_owned());
    spans.push(group_name.to_owned());
    spans.push(">".to_owned());
    let ghost head = seq![repo_name@, " <"@, group_name@, ">"@];
    assert(spans.deep_view() =~= head);
    if display_tags.len() == 0 {
        return spans;
    }
    spans.push(" [".to_owned());
    let ghost tv = display_tags.deep_view();
    let mut i: usize = 0;
    assert(spans.deep_view() =~= head + seq![" ["@] + tag_spans(tv.take(0)));
    while i < display_tags.len()
        invariant
            i <= display_tags.len(),
            tv == display_tags.deep_view(),
            spans.deep_view() == head + seq![" ["@] + tag_spans(tv.take(i as int)),
        decreases display_tags.len() - i,
    {
        let ghost before = spans.deep_view();
        assert(tv.take(i + 1).drop_last() =~= tv.take(i as int));
        assert(tv.take(i + 1).last() == tv[i as int]);
        if i > 0 {
            spans.push(", ".to_owned());
        }
        spans.push(display_tags[i].clone());
        if i > 0 {
            assert(spans.deep_view() =~= before + seq![", "@, tv[i as int]]);
        } else {
            assert(tv.take(1) =~= seq![tv[0]]);
            assert(spans.deep_view() =~= before + seq![tv[0]]);
        }
        i = i + 1;
    }
    assert(tv.take(i as int) =~= tv);
    let ghost before = spans.deep_view();
    spans.push("]".to_owned());
    assert(spans.deep_view() =~= before + seq!["]"@]);
    spans
}

/// The lines of a listed repository (see `repo_item_lines_spec`).
pub fn repo_item_lines(
    repo_name: &str,
    group_name: &str,
    desc_short: &str,
    desc_long: &str,
    display_tags: &Vec<String>,
    desc_display_mode: DescDisplayMode,
) -> (r: Vec<Vec<String>>)
    ensures
        lines_view(r@) == repo_item_lines_spec(
            repo_name@,
            group_name@,
            desc_short@,
            desc_long@,
            display_tags.deep_view(),
            desc_display_mode,
        ),
{
    let mut lines: Vec<Vec<String>> = Vec::new();
    lines.push(repo_line(repo_name, group_name, display_tags));
    let ghost first = seq![repo_line_spec(repo_name@, group_name@, display_tags.deep_view())];
    assert(lines_view(lines@) =~= first);
    let short = trim_str(desc_short);
    if desc_display_mode.shows_inline_short_desc() && !short.as_str().is_empty() {
        let mut line: Vec<String> = Vec::new();
        line.push("  ".to_owned());
        line.push(short);
        assert(line.deep_view() =~= seq!["  "@, trim(desc_short@)]);
        let ghost before = lines_view(lines@);
        lines.push(line);
        assert(lines_view(lines@) =~= before.push(seq!["  "@, trim(desc_short@)]));
    }
    let long = trim_str(desc_long);
    if desc_display_mode.shows_inline_long_desc() && !long.as_str().is_empty() {
        let ls = split_lines(&chars_of(long.as_str()));
        let ghost start = lines_view(lines@);
        let ghost want = lines_of(long@).map_values(|l: Seq<char>| seq!["    "@, l]);
        let mut i: usize = 0;
        assert(want.take(0) =~= Seq::<Seq<Seq<char>>>::empty());
        assert(lines_view(lines@) =~= start + want.take(0));
        while i < ls.len()
            invariant
                i <= ls.len(),
                ls.deep_view() == lines_of(long@),
                want == lines_of(long@).map_values(|l: Seq<char>| seq!["    "@, l]),
                lines_view(lines@) == start + want.take(i as int),
            decreases ls.len() - i,
        {
            let ghost before = lines_view(lines@);
            let text = string_from_chars(&ls[i]);
            assert(text@ == ls.deep_view()[i as int]);
            let mut line: Vec<String> = Vec::new();
            line.push("    ".to_owned());
            line.push(text);
            assert(line.deep_view() =~= want[i as int]);
            lines.push(line);
            assert(lines_view(lines@) =~= before.push(want[i as int]));
            assert(want.take(i + 1) =~= want.take(i as int).push(want[i as int]));
            i = i + 1;
        }
        assert(want.take(i as int) =~= want);
    }
    lines
}

/// The name of a sort order in the list's title.
pub open spec fn sort_label(m: crate::modes::SortMode) -> Seq<char> {
    match m {
        crate::modes::SortMode::Created => "create"@,
        crate::modes::SortMode::Modified => "modify"@,
    }
}

/// The repository list's title: how many repositories are listed of how
/// many, the sort order and the filter label.
pub open spec fn list_title_spec(visible: nat, total: nat, sort: crate::modes::SortMode, filter: Seq<char>) -> Seq<char> {
    " own-repos-curator "@ + crate::strings::decimal(visible) + "/"@ + crate::strings::decimal(total) + " | sort:"@
        + sort_label(sort) + " | "@ + filter + " "@
}

/// The repository list's title (see `list_title_spec`).
pub fn list_title(visible: usize, total: usize, sort: crate::modes::SortMode, filter: &str) -> (r: String)
    ensures
        r@ == list_title_spec(visible as nat, total as nat, sort, filter@),
{
    let mut s = " own-repos-curator ".to_owned();
    crate::strings::append_str(&mut s, crate::strings::usize_to_string(visible).as_str());
    crate::strings::append_str(&mut s, "/");
    crate::strings::append_str(&mut s, crate::strings::usize_to_string(total).as_str());
    crate::strings::append_str(&mut s, " | sort:");
    crate::strings::append_str(&mut s, sort.label());
    crate::strings::append_str(&mut s, " | ");
    crate::strings::append_str(&mut s, filter);
    crate::strings::append_str(&mut s, " ");
    s
}


/// The tones of the tag spans of a repository line: each tag in its colour,
/// the separators between them soft.
pub open spec fn tag_tones(n: nat) -> Seq<Tone>
    decreases n,
{
    if n == 0 {
        Seq::empty()
    } else if n == 1 {
        seq![Tone::TagName]
    } else {
        tag_tones((n - 1) as nat) + seq![Tone::Soft, Tone::TagName]
    }
}

/// The tones of a repository line with `n` tags: the name as the accent,
/// the group in its colour, the tags in theirs, the rest soft.
pub open spec fn repo_line_tones(n: nat) -> Seq<Tone> {
    let head = seq![Tone::Accent, Tone::Soft, Tone::GroupName, Tone::Soft];
    if n == 0 {
        head
    } else {
        head + seq![Tone::Soft] + tag_tones(n) + seq![Tone::Soft]
    }
}

/// The tones of line `row` of a listed repository with `n` tags: its first
/// line as `repo_line_tones` says, each description line with a muted
/// indent and soft text.
pub open spec fn item_line_tones(row: int, n: nat) -> Seq<Tone> {
    if row == 0 {
        repo_line_tones(n)
    } else {
        seq![Tone::Muted, Tone::Soft]
    }
}

/// Texts paired with their tones.
pub open spec fn with_tones(texts: Seq<Seq<char>>, tones: Seq<Tone>) -> Seq<(Seq<char>, Tone)> {
    Seq::new(texts.len(), |i: int| (texts[i], tones[i]))
}

/// The lines of a listed repository, each span with its tone.
pub open spec fn repo_item_styled_spec(lines: Seq<Seq<Seq<char>>>, n: nat) -> Seq<Seq<(Seq<char>, Tone)>> {
    Seq::new(lines.len(), |row: int| with_tones(lines[row], item_line_tones(row, n)))
}

proof fn lemma_tag_tones_len(tags: Seq<Seq<char>>)
    ensures
        tag_tones(tags.len()).len() == tag_spans(tags).len(),
    decreases tags.len(),
{
    if tags.len() > 1 {
        lemma_tag_tones_len(tags.drop_last());
    }
}

/// The tones of a repository line with `n` tags (see `repo_line_tones`).
fn repo_line_tone_vec(n: usize) -> (r: Vec<Tone>)
    ensures
        r@ == repo_line_tones(n as nat),
{
    let mut r: Vec<Tone> = Vec::new();
    r.push(Tone::Accent);
    r.push(Tone::Soft);
    r.push(Tone::GroupName);
    r.push(Tone::Soft);
    let ghost head = seq![Tone::Accent, Tone::Soft, Tone::GroupName, Tone::Soft];
    assert(r@ =~= head);
    if n == 0 {
        return r;
    }
    r.push(Tone::Soft);
    let mut i: usize = 0;
    assert(r@ =~= head + seq![Tone::Soft] + tag_tones(0));
    while i < n
        invariant
            i <= n,
            r@ == head + seq![Tone::Soft] + tag_tones(i as nat),
        decreases n - i,
    {
        let ghost before = r@;
        if i > 0 {
            r.push(Tone::Soft);
        }
        r.push(Tone::TagName);
        if i > 0 {
            assert(r@ =~= before + seq![Tone::Soft, Tone::TagName]);
        } else {
            assert(r@ =~= before + seq![Tone::TagName]);
        }
        i = i + 1;
    }
    r.push(Tone::Soft);
    assert(r@ =~= repo_line_tones(n as nat));
    r
}

/// The texts paired with the tones, in order.
fn zip_spans(texts: Vec<String>, tones: &Vec<Tone>) -> (r: Vec<StyledSpan>)
    requires
        texts@.len() == tones@.len(),
    ensures
        spans_view(r@) == with_tones(texts.deep_view(), tones@),
{
    let ghost tv = texts.deep_view();
    let mut r: Vec<StyledSpan> = Vec::new();
    let mut i: usize = 0;
    while i < texts.len()
        invariant
            i <= texts.len(),
            texts@.len() == tones@.len(),
            tv == texts.deep_view(),
            spans_view(r@) == with_tones(tv, tones@).take(i as int),
        decreases texts.len() - i,
    {
        let ghost before = spans_view(r@);
        let text = texts[i].clone();
        r.push(StyledSpan { text, tone: tones[i] });
        assert(spans_view(r@) =~= before.push((tv[i as int], tones@[i as int])));
        assert(with_tones(tv, tones@).take(i + 1) =~= with_tones(tv, tones@).take(i as int).push(
            (tv[i as int], tones@[i as int]),
        ));
        i = i + 1;
    }
    assert(with_tones(tv, tones@).take(i as int) =~= with_tones(tv, tones@));
    r
}

/// The lines of a listed repository (see `repo_item_lines_spec`), each span
/// with its tone (see `repo_item_styled_spec`).
pub fn repo_item_styled_lines(
    repo_name: &str,
    group_name: &str,
    desc_short: &str,
    desc_long: &str,
    display_tags: &Vec<String>,
    desc_display_mode: DescDisplayMode,
) -> (r: Vec<Vec<StyledSpan>>)
    ensures
        styled_view(r@) == repo_item_styled_spec(
            repo_item_lines_spec(
                repo_name@,
                group_name@,
                desc_short@,
                desc_long@,
                display_tags.deep_view(),
                desc_display_mode,
            ),
            display_tags@.len(),
        ),
{
    let lines = repo_item_lines(repo_name, group_name, desc_short, desc_long, display_tags, desc_display_mode);
    let ghost lv = lines_view(lines@);
    let ghost want = repo_item_styled_spec(lv, display_tags@.len());
    let first_tones = repo_line_tone_vec(display_tags.len());
    let mut desc_tones: Vec<Tone> = Vec::new();
    desc_tones.push(Tone::Muted);
    desc_tones.push(Tone::Soft);
    proof {
        lemma_tag_tones_len(display_tags.deep_view());
        assert(desc_tones@ =~= seq![Tone::Muted, Tone::Soft]);
    }
    let mut out: Vec<Vec<StyledSpan>> = Vec::new();
    let mut row: usize = 0;
    while row < lines.len()
        invariant
            row <= lines.len(),
            lv == lines_view(lines@),
            lv.len() == lines@.len(),
            want == repo_item_styled_spec(lv, display_tags@.len()),
            first_tones@ == repo_line_tones(display_tags@.len()),
            desc_tones@ == seq![Tone::Muted, Tone::Soft],
            lv.len() > 0 ==> lv[0].len() == first_tones@.len(),
            forall|k: int| 1 <= k < lv.len() ==> #[trigger] lv[k].len() == 2,
            styled_view(out@) == want.take(row as int),
        decreases lines.len() - row,
    {
        let ghost before = styled_view(out@);
        let texts = lines[row].clone();
        assert(texts.deep_view() == lv[row as int]);
        let line = if row == 0 {
            zip_spans(texts, &first_tones)
        } else {
            zip_spans(texts, &desc_tones)
        };
        out.push(line);
        assert(styled_view(out@) =~= before.push(want[row as int]));
        assert(want.take(row + 1) =~= want.take(row as int).push(want[row as int]));
        row = row + 1;
    }
    assert(want.take(row as int) =~= want);
    out
}

} // verus!
