//! The text of the panels and overlays, span by span with the tone each
//! span is drawn in: the log pane, the tag catalog and group summary, the
//! binding modes, filter mode and the main help.
use crate::curator_view::{upper_char, FilterModeState, GroupBindingModeState, GroupCatalogState, TagBindingModeState};
use crate::curator::FilterModeFocus;
use crate::layout::sat_sub;
use crate::right_pane::{GroupSummaryEntry, TagCatalogEntry, TagCatalogState};
use crate::strings::{append_str, decimal, join_with, push_char, u128_to_string, usize_to_string};
use vstd::prelude::*;

verus! {

/// How a span is drawn.
#[derive(Debug, Clone, Copy, PartialEq, Eq, Structural)]
pub enum Tone {
    /// The surrounding text's style.
    Plain,
    /// A title or a key label.
    Title,
    /// Emphasized: a heading or something in force.
    Strong,
    /// A figure or a marker to notice.
    Warning,
    /// Secondary text.
    Muted,
    /// Ordinary text of a panel.
    Soft,
    /// A value shown plainly in an overlay.
    Body,
    /// A tag name, in the tag's colour.
    TagName,
    /// A group name, in the group's colour.
    GroupName,
    /// The name of a listed repository.
    Accent,
    /// The name of the selected repository, heading a panel.
    Heading,
}

/// A span of text and how it is drawn.
#[derive(Debug, Clone, PartialEq, Eq)]
pub struct StyledSpan {
    pub text: String,
    pub tone: Tone,
}

/// The spans of a line as text and tone.
pub open spec fn spans_view(l: Seq<StyledSpan>) -> Seq<(Seq<char>, Tone)> {
    l.map_values(|s: StyledSpan| (s.text@, s.tone))
}

/// Lines of spans as text and tone.
pub open spec fn styled_view(lines: Seq<Vec<StyledSpan>>) -> Seq<Seq<(Seq<char>, Tone)>> {
    lines.map_values(|l: Vec<StyledSpan>| spans_view(l@))
}

fn push_span(line: &mut Vec<StyledSpan>, text: String, tone: Tone)
    ensures
        spans_view(final(line)@) == spans_view(old(line)@).push((text@, tone)),
{
    let ghost before = spans_view(line@);
    let ghost t = text@;
    line.push(StyledSpan { text, tone });
    assert(spans_view(line@) =~= before.push((t, tone)));
}

fn push_line(out: &mut Vec<Vec<StyledSpan>>, line: Vec<StyledSpan>)
    ensures
        styled_view(final(out)@) == styled_view(old(out)@).push(spans_view(line@)),
{
    let ghost before = styled_view(out@);
    let ghost l = spans_view(line@);
    out.push(line);
    assert(styled_view(out@) =~= before.push(l));
}

/// A line of one span.
fn one_span(text: String, tone: Tone) -> (r: Vec<StyledSpan>)
    ensures
        spans_view(r@) == seq![(text@, tone)],
{
    let mut line: Vec<StyledSpan> = Vec::new();
    push_span(&mut line, text, tone);
    assert(spans_view(line@) =~= seq![(text@, tone)]);
    line
}

/// An empty line.
fn blank() -> (r: Vec<StyledSpan>)
    ensures
        spans_view(r@) == Seq::<(Seq<char>, Tone)>::empty(),
{
    let line: Vec<StyledSpan> = Vec::new();
    assert(spans_view(line@) =~= Seq::<(Seq<char>, Tone)>::empty());
    line
}

/// `a` followed by the decimal form of `n`.
fn with_number(a: &str, n: usize) -> (r: String)
    ensures
        r@ == a@ + decimal(n as nat),
{
    crate::strings::cat2(a, usize_to_string(n).as_str())
}

/// The decimal form of `n + 1`.
fn successor_text(n: usize) -> (r: String)
    ensures
        r@ == decimal(n as nat + 1),
{
    u128_to_string(n as u128 + 1)
}

// ---------------------------------------------------------------- log pane

/// The log pane's lines: collapsed, the status and the latest log entry on
/// one line; expanded, the status, then as many of the last entries as fit
/// in `height` rows less the borders and the status line.
pub open spec fn log_pane_lines_spec(status: Seq<char>, log: Seq<Seq<char>>, expanded: bool, height: int) -> Seq<
    Seq<(Seq<char>, Tone)>,
> {
    if !expanded {
        seq![
            seq![
                ("status: "@, Tone::Muted),
                (status, Tone::Soft),
                (" | log: "@, Tone::Muted),
                if log.len() > 0 {
                    (log.last(), Tone::Soft)
                } else {
                    ("debug log is empty"@, Tone::Muted)
                },
            ],
        ]
    } else {
        let start = sat_sub(log.len() as int, sat_sub(height, 3));
        seq![seq![("status: "@, Tone::Muted), (status, Tone::Soft)]] + if log.len() == 0 {
            seq![seq![("debug log is empty"@, Tone::Muted)]]
        } else {
            log.skip(start).map_values(|e: Seq<char>| seq![(e, Tone::Plain)])
        }
    }
}

/// The log pane's lines (see `log_pane_lines_spec`).
pub fn log_pane_lines(status: &str, log: &Vec<String>, expanded: bool, height: u16) -> (r: Vec<Vec<StyledSpan>>)
    ensures
        styled_view(r@) == log_pane_lines_spec(status@, log.deep_view(), expanded, height as int),
{
    let ghost lv = log.deep_view();
    let mut out: Vec<Vec<StyledSpan>> = Vec::new();
    assert(styled_view(out@) =~= Seq::<Seq<(Seq<char>, Tone)>>::empty());
    let mut first: Vec<StyledSpan> = Vec::new();
    assert(spans_view(first@) =~= Seq::<(Seq<char>, Tone)>::empty());
    push_span(&mut first, "status: ".to_owned(), Tone::Muted);
    push_span(&mut first, status.to_owned(), Tone::Soft);
    if !expanded {
        push_span(&mut first, " | log: ".to_owned(), Tone::Muted);
        let ghost last = if log.len() > 0 {
            (lv.last(), Tone::Soft)
        } else {
            ("debug log is empty"@, Tone::Muted)
        };
        if log.len() > 0 {
            push_span(&mut first, log[log.len() - 1].clone(), Tone::Soft);
            assert(log[log.len() - 1]@ == lv.last());
        } else {
            push_span(&mut first, "debug log is empty".to_owned(), Tone::Muted);
        }
        assert(spans_view(first@) =~= seq![
            ("status: "@, Tone::Muted),
            (status@, Tone::Soft),
            (" | log: "@, Tone::Muted),
            last,
        ]);
        push_line(&mut out, first);
        assert(styled_view(out@) =~= log_pane_lines_spec(status@, lv, expanded, height as int));
        return out;
    }
    assert(spans_view(first@) =~= seq![("status: "@, Tone::Muted), (status@, Tone::Soft)]);
    push_line(&mut out, first);
    let ghost head = seq![seq![("status: "@, Tone::Muted), (status@, Tone::Soft)]];
    assert(styled_view(out@) =~= head);
    if log.len() == 0 {
        push_line(&mut out, one_span("debug log is empty".to_owned(), Tone::Muted));
        assert(styled_view(out@) =~= log_pane_lines_spec(status@, lv, expanded, height as int));
        return out;
    }
    let visible: usize = if height >= 3 {
        (height - 3) as usize
    } else {
        0
    };
    let start: usize = if log.len() >= visible {
        log.len() - visible
    } else {
        0
    };
    assert(start as int == sat_sub(lv.len() as int, sat_sub(height as int, 3)));
    let ghost want = lv.skip(start as int).map_values(|e: Seq<char>| seq![(e, Tone::Plain)]);
    let mut i: usize = start;
    while i < log.len()
        invariant
            start <= i <= log.len(),
            lv == log.deep_view(),
            want == lv.skip(start as int).map_values(|e: Seq<char>| seq![(e, Tone::Plain)]),
            styled_view(out@) == head + want.take(i - start),
        decreases log.len() - i,
    {
        let ghost before = styled_view(out@);
        let line = one_span(log[i].clone(), Tone::Plain);
        assert(log[i as int]@ == lv[i as int]);
        push_line(&mut out, line);
        assert(want[i - start] == seq![(lv[i as int], Tone::Plain)]);
        assert(want.take(i + 1 - start) =~= want.take(i - start).push(want[i - start]));
        i = i + 1;
    }
    assert(want.take(i - start) =~= want);
    out
}

// ------------------------------------------------------------- tag catalog

/// The filter label of a catalog title: `filter` (`filter*` while filter
/// mode is open), then the number of active filters or `off`.
pub open spec fn filter_label_spec(count: nat, editing: bool) -> Seq<char> {
    (if editing {
        "filter*"@
    } else {
        "filter"@
    }) + ":"@ + if count == 0 {
        "off"@
    } else {
        decimal(count)
    }
}

/// The filter label of a catalog title (see `filter_label_spec`).
pub fn tag_filter_label(count: usize, editing: bool) -> (r: String)
    ensures
        r@ == filter_label_spec(count as nat, editing),
{
    let mut s = if editing {
        "filter*".to_owned()
    } else {
        "filter".to_owned()
    };
    append_str(&mut s, ":");
    if count == 0 {
        append_str(&mut s, "off");
    } else {
        append_str(&mut s, usize_to_string(count).as_str());
    }
    s
}

/// The tag catalog's title: the page, the number of tags and the filter
/// label, or only the filter label when there are no pages.
pub open spec fn tag_catalog_title_spec(s: TagCatalogState) -> Seq<char> {
    let label = filter_label_spec(s.active_filter_count as nat, s.filter_mode_active);
    if s.page_count > 0 {
        " 登録済みtag一覧 "@ + decimal(s.page as nat + 1) + "/"@ + decimal(s.page_count as nat) + "  total:"@
            + decimal(s.total_tags as nat) + "  "@ + label + " "@
    } else {
        " 登録済みtag一覧 "@ + label + " "@
    }
}

/// The tag catalog's title (see `tag_catalog_title_spec`).
pub fn tag_catalog_title(state: &TagCatalogState) -> (r: String)
    ensures
        r@ == tag_catalog_title_spec(*state),
{
    let label = tag_filter_label(state.active_filter_count, state.filter_mode_active);
    let mut s = " 登録済みtag一覧 ".to_owned();
    if state.page_count > 0 {
        append_str(&mut s, successor_text(state.page).as_str());
        append_str(&mut s, "/");
        append_str(&mut s, usize_to_string(state.page_count).as_str());
        append_str(&mut s, "  total:");
        append_str(&mut s, usize_to_string(state.total_tags).as_str());
        append_str(&mut s, "  ");
    }
    append_str(&mut s, label.as_str());
    append_str(&mut s, " ");
    s
}

/// A key and its uppercase joined by `sep`.
fn key_pair(key: char, sep: &str) -> (r: String)
    ensures
        r@ == seq![key] + sep@ + seq![upper_char(key)],
{
    let mut s = String::new();
    push_char(&mut s, key);
    append_str(&mut s, sep);
    push_char(&mut s, crate::curator_view::to_ascii_upper(key));
    assert(s@ =~= seq![key] + sep@ + seq![upper_char(key)]);
    s
}

/// One tag of the catalog: whether it filters, its keys, and the tag.
pub open spec fn tag_catalog_entry_spec(e: TagCatalogEntry) -> Seq<(Seq<char>, Tone)> {
    seq![
        if e.filter_active {
            ("[x] "@, Tone::Warning)
        } else {
            ("[ ] "@, Tone::Muted)
        },
        (seq![e.key] + " / "@ + seq![upper_char(e.key)], Tone::Muted),
        (" "@, Tone::Plain),
        (e.tag@, Tone::TagName),
    ]
}

/// The lines of the tag catalog's entries, one per tag.
pub fn tag_catalog_lines(state: &TagCatalogState) -> (r: Vec<Vec<StyledSpan>>)
    ensures
        styled_view(r@) == state.entries@.map_values(|e: TagCatalogEntry| tag_catalog_entry_spec(e)),
{
    let ghost want = state.entries@.map_values(|e: TagCatalogEntry| tag_catalog_entry_spec(e));
    let mut out: Vec<Vec<StyledSpan>> = Vec::new();
    let mut i: usize = 0;
    while i < state.entries.len()
        invariant
            i <= state.entries.len(),
            want == state.entries@.map_values(|e: TagCatalogEntry| tag_catalog_entry_spec(e)),
            styled_view(out@) == want.take(i as int),
        decreases state.entries.len() - i,
    {
        let e = &state.entries[i];
        let mut line: Vec<StyledSpan> = Vec::new();
        if e.filter_active {
            push_span(&mut line, "[x] ".to_owned(), Tone::Warning);
        } else {
            push_span(&mut line, "[ ] ".to_owned(), Tone::Muted);
        }
        push_span(&mut line, key_pair(e.key, " / "), Tone::Muted);
        push_span(&mut line, " ".to_owned(), Tone::Plain);
        push_span(&mut line, e.tag.clone(), Tone::TagName);
        assert(spans_view(line@) =~= want[i as int]);
        push_line(&mut out, line);
        assert(want.take(i + 1) =~= want.take(i as int).push(want[i as int]));
        i = i + 1;
    }
    assert(want.take(i as int) =~= want);
    out
}

// ----------------------------------------------------------- group summary

/// `d` right-aligned in three columns, as `{:>3}` writes it.
pub open spec fn pad_left3(d: Seq<char>) -> Seq<char> {
    if d.len() >= 3 {
        d
    } else {
        Seq::new((3 - d.len()) as nat, |i: int| ' ') + d
    }
}

/// The group summary's title: which repositories it counts and how many
/// groups it lists.
pub open spec fn group_summary_title_spec(count: nat, filtered: bool) -> Seq<char> {
    (if filtered {
        " 表示repo group集計 unique:"@
    } else {
        " 全repo group集計 unique:"@
    }) + decimal(count) + " "@
}

/// The group summary's title (see `group_summary_title_spec`).
pub fn group_summary_title(count: usize, filtered: bool) -> (r: String)
    ensures
        r@ == group_summary_title_spec(count as nat, filtered),
{
    let mut s = if filtered {
        " 表示repo group集計 unique:".to_owned()
    } else {
        " 全repo group集計 unique:".to_owned()
    };
    append_str(&mut s, usize_to_string(count).as_str());
    append_str(&mut s, " ");
    s
}

/// One group of the summary: the number of repositories, then the group.
pub open spec fn group_summary_entry_spec(e: GroupSummaryEntry) -> Seq<(Seq<char>, Tone)> {
    seq![(pad_left3(decimal(e.count as nat)), Tone::Warning), (" "@, Tone::Plain), (e.group@, Tone::GroupName)]
}

fn pad_left3_string(d: String) -> (r: String)
    ensures
        r@ == pad_left3(d@),
{
    let n = crate::curator_tags::char_count(d.as_str());
    if n >= 3 {
        return d;
    }
    let mut s = String::new();
    let mut k: usize = n;
    while k < 3
        invariant
            n <= k <= 3,
            n == d@.len(),
            s@ == Seq::new((k - n) as nat, |i: int| ' '),
        decreases 3 - k,
    {
        push_char(&mut s, ' ');
        assert(s@ =~= Seq::new((k + 1 - n) as nat, |i: int| ' '));
        k = k + 1;
    }
    append_str(&mut s, d.as_str());
    s
}

/// The lines of the group summary's entries, one per group.
pub fn group_summary_lines(entries: &[GroupSummaryEntry]) -> (r: Vec<Vec<StyledSpan>>)
    ensures
        styled_view(r@) == entries@.map_values(|e: GroupSummaryEntry| group_summary_entry_spec(e)),
{
    let ghost want = entries@.map_values(|e: GroupSummaryEntry| group_summary_entry_spec(e));
    let mut out: Vec<Vec<StyledSpan>> = Vec::new();
    let mut i: usize = 0;
    while i < entries.len()
        invariant
            i <= entries.len(),
            want == entries@.map_values(|e: GroupSummaryEntry| group_summary_entry_spec(e)),
            styled_view(out@) == want.take(i as int),
        decreases entries.len() - i,
    {
        let e = &entries[i];
        let mut line: Vec<StyledSpan> = Vec::new();
        push_span(&mut line, pad_left3_string(usize_to_string(e.count)), Tone::Warning);
        push_span(&mut line, " ".to_owned(), Tone::Plain);
        push_span(&mut line, e.group.clone(), Tone::GroupName);
        assert(spans_view(line@) =~= want[i as int]);
        push_line(&mut out, line);
        assert(want.take(i + 1) =~= want.take(i as int).push(want[i as int]));
        i = i + 1;
    }
    assert(want.take(i as int) =~= want);
    out
}

// ------------------------------------------------------------ line helpers

/// A line without spans.
pub open spec fn no_spans() -> Seq<(Seq<char>, Tone)> {
    Seq::empty()
}

/// A line of one span.
pub open spec fn line1(text: Seq<char>, tone: Tone) -> Seq<(Seq<char>, Tone)> {
    seq![(text, tone)]
}

/// Key lines, each a line of its own in the soft tone.
pub open spec fn keybind_block(lines: Seq<Seq<char>>) -> Seq<Seq<(Seq<char>, Tone)>> {
    lines.map_values(|l: Seq<char>| line1(l, Tone::Soft))
}

/// Plain lines, each a line of its own.
pub open spec fn plain_block(lines: Seq<Seq<char>>) -> Seq<Seq<(Seq<char>, Tone)>> {
    lines.map_values(|l: Seq<char>| line1(l, Tone::Plain))
}

fn new_lines() -> (r: Vec<Vec<StyledSpan>>)
    ensures
        styled_view(r@) == Seq::<Seq<(Seq<char>, Tone)>>::empty(),
{
    let out: Vec<Vec<StyledSpan>> = Vec::new();
    assert(styled_view(out@) =~= Seq::<Seq<(Seq<char>, Tone)>>::empty());
    out
}

fn push_one(out: &mut Vec<Vec<StyledSpan>>, text: String, tone: Tone)
    ensures
        styled_view(final(out)@) == styled_view(old(out)@).push(line1(text@, tone)),
{
    push_line(out, one_span(text, tone));
}

fn push_blank(out: &mut Vec<Vec<StyledSpan>>)
    ensures
        styled_view(final(out)@) == styled_view(old(out)@).push(no_spans()),
{
    push_line(out, blank());
}

/// Appends each line of `lines` as a line of one span in `tone`.
fn push_each(out: &mut Vec<Vec<StyledSpan>>, lines: Vec<String>, tone: Tone)
    ensures
        styled_view(final(out)@) == styled_view(old(out)@) + lines.deep_view().map_values(
            |l: Seq<char>| line1(l, tone),
        ),
{
    let ghost start = styled_view(out@);
    let ghost want = lines.deep_view().map_values(|l: Seq<char>| line1(l, tone));
    let mut i: usize = 0;
    while i < lines.len()
        invariant
            i <= lines.len(),
            want == lines.deep_view().map_values(|l: Seq<char>| line1(l, tone)),
            styled_view(out@) == start + want.take(i as int),
        decreases lines.len() - i,
    {
        let ghost before = styled_view(out@);
        push_one(out, lines[i].clone(), tone);
        assert(lines[i as int]@ == lines.deep_view()[i as int]);
        assert(want.take(i + 1) =~= want.take(i as int).push(want[i as int]));
        assert(styled_view(out@) =~= start + want.take(i + 1));
        i = i + 1;
    }
    assert(want.take(i as int) =~= want);
}

// ------------------------------------------------------------ binding modes

/// The lines of tag binding mode's overlay: what it is, that nothing is
/// saved yet, its keys, the number of tags the repository is to have, and
/// the tags to be added and removed (or that there is no change).
pub open spec fn tag_binding_mode_lines_spec(s: TagBindingModeState) -> Seq<Seq<(Seq<char>, Tone)>> {
    let added = s.added_tags.deep_view();
    let removed = s.removed_tags.deep_view();
    seq![
        line1("通常画面のtag紐付けモード"@, Tone::Title),
        line1("tag変更はまだ保存されていません。"@, Tone::Plain),
        no_spans(),
        line1("操作キー"@, Tone::Strong),
    ] + keybind_block(crate::help_text::mode_lines_spec(crate::help_text::tag_binding_shared_spec())) + seq![
        no_spans(),
        line1("現在のtag数: "@ + decimal(s.pending_count as nat), Tone::Plain),
    ] + (if added.len() > 0 {
        seq![line1("追加予定: "@ + join_with(added, ", "@), Tone::Plain)]
    } else {
        Seq::empty()
    }) + (if removed.len() > 0 {
        seq![line1("削除予定: "@ + join_with(removed, ", "@), Tone::Plain)]
    } else {
        Seq::empty()
    }) + (if added.len() == 0 && removed.len() == 0 {
        seq![line1("未確定の変更はありません。"@, Tone::Soft)]
    } else {
        Seq::empty()
    })
}

/// The lines of tag binding mode's overlay (see `tag_binding_mode_lines_spec`).
pub fn tag_binding_mode_lines(state: &TagBindingModeState) -> (r: Vec<Vec<StyledSpan>>)
    ensures
        styled_view(r@) == tag_binding_mode_lines_spec(*state),
{
    let mut out = new_lines();
    push_one(&mut out, "通常画面のtag紐付けモード".to_owned(), Tone::Title);
    push_one(&mut out, "tag変更はまだ保存されていません。".to_owned(), Tone::Plain);
    push_blank(&mut out);
    push_one(&mut out, "操作キー".to_owned(), Tone::Strong);
    let ghost head = styled_view(out@);
    push_each(&mut out, crate::help_text::tag_binding_mode_keybind_lines(), Tone::Soft);
    push_blank(&mut out);
    push_one(&mut out, with_number("現在のtag数: ", state.pending_count), Tone::Plain);
    let ghost mid = styled_view(out@);
    if state.added_tags.len() > 0 {
        let joined = crate::strings::join_strings(&state.added_tags, ", ");
        push_one(&mut out, crate::strings::cat2("追加予定: ", joined.as_str()), Tone::Plain);
    }
    let ghost after_added = styled_view(out@);
    if state.removed_tags.len() > 0 {
        let joined = crate::strings::join_strings(&state.removed_tags, ", ");
        push_one(&mut out, crate::strings::cat2("削除予定: ", joined.as_str()), Tone::Plain);
    }
    let ghost after_removed = styled_view(out@);
    if state.added_tags.len() == 0 && state.removed_tags.len() == 0 {
        push_one(&mut out, "未確定の変更はありません。".to_owned(), Tone::Soft);
    }
    proof {
        let s = *state;
        let added = s.added_tags.deep_view();
        let removed = s.removed_tags.deep_view();
        let a = if added.len() > 0 {
            seq![line1("追加予定: "@ + join_with(added, ", "@), Tone::Plain)]
        } else {
            Seq::<Seq<(Seq<char>, Tone)>>::empty()
        };
        let b = if removed.len() > 0 {
            seq![line1("削除予定: "@ + join_with(removed, ", "@), Tone::Plain)]
        } else {
            Seq::<Seq<(Seq<char>, Tone)>>::empty()
        };
        let c = if added.len() == 0 && removed.len() == 0 {
            seq![line1("未確定の変更はありません。"@, Tone::Soft)]
        } else {
            Seq::<Seq<(Seq<char>, Tone)>>::empty()
        };
        assert(after_added =~= mid + a);
        assert(after_removed =~= mid + a + b);
        assert(styled_view(out@) =~= mid + a + b + c);
        assert(head =~= seq![
            line1("通常画面のtag紐付けモード"@, Tone::Title),
            line1("tag変更はまだ保存されていません。"@, Tone::Plain),
            no_spans(),
            line1("操作キー"@, Tone::Strong),
        ]);
    }
    out
}

/// The page line of a group catalog: the page (from one), the number of
/// pages (at least one) and the number of groups.
pub open spec fn group_page_line_spec(c: GroupCatalogState) -> Seq<char> {
    "group page: "@ + decimal(c.page as nat + 1) + "/"@ + decimal(
        if c.page_count > 0 {
            c.page_count as nat
        } else {
            1
        },
    ) + " (total:"@ + decimal(c.total_groups as nat) + ")"@
}

fn group_page_line(c: &GroupCatalogState) -> (r: String)
    ensures
        r@ == group_page_line_spec(*c),
{
    let mut s = "group page: ".to_owned();
    append_str(&mut s, successor_text(c.page).as_str());
    append_str(&mut s, "/");
    let count = if c.page_count > 0 {
        c.page_count
    } else {
        1
    };
    append_str(&mut s, usize_to_string(count).as_str());
    append_str(&mut s, " (total:");
    append_str(&mut s, usize_to_string(c.total_groups).as_str());
    append_str(&mut s, ")");
    s
}

/// One group of a catalog: its key, whether it is the one chosen, and the
/// group.
pub open spec fn group_catalog_entry_spec(e: crate::curator_view::GroupCatalogEntry) -> Seq<(Seq<char>, Tone)> {
    seq![
        (seq![e.key] + " "@, Tone::Title),
        if e.selected {
            ("[x] "@, Tone::Strong)
        } else {
            ("[ ] "@, Tone::Soft)
        },
        (e.group@, Tone::Body),
    ]
}

/// The groups of a catalog page, or `empty` when it has none.
pub open spec fn group_catalog_block(c: GroupCatalogState, empty: Seq<char>) -> Seq<Seq<(Seq<char>, Tone)>> {
    if c.entries@.len() == 0 {
        seq![line1(empty, Tone::Soft)]
    } else {
        c.entries@.map_values(|e: crate::curator_view::GroupCatalogEntry| group_catalog_entry_spec(e))
    }
}

fn push_group_catalog(out: &mut Vec<Vec<StyledSpan>>, c: &GroupCatalogState, empty: &str)
    ensures
        styled_view(final(out)@) == styled_view(old(out)@) + group_catalog_block(*c, empty@),
{
    let ghost start = styled_view(out@);
    if c.entries.len() == 0 {
        push_one(out, empty.to_owned(), Tone::Soft);
        assert(styled_view(out@) =~= start + group_catalog_block(*c, empty@));
        return;
    }
    let ghost want = c.entries@.map_values(|e: crate::curator_view::GroupCatalogEntry| group_catalog_entry_spec(e));
    let mut i: usize = 0;
    while i < c.entries.len()
        invariant
            i <= c.entries.len(),
            c.entries@.len() > 0,
            want == c.entries@.map_values(|e: crate::curator_view::GroupCatalogEntry| group_catalog_entry_spec(e)),
            styled_view(out@) == start + want.take(i as int),
        decreases c.entries.len() - i,
    {
        let e = &c.entries[i];
        let mut line: Vec<StyledSpan> = Vec::new();
        let mut key = String::new();
        push_char(&mut key, e.key);
        append_str(&mut key, " ");
        push_span(&mut line, key, Tone::Title);
        if e.selected {
            push_span(&mut line, "[x] ".to_owned(), Tone::Strong);
        } else {
            push_span(&mut line, "[ ] ".to_owned(), Tone::Soft);
        }
        push_span(&mut line, e.group.clone(), Tone::Body);
        assert(spans_view(line@) =~= want[i as int]);
        push_line(out, line);
        assert(want.take(i + 1) =~= want.take(i as int).push(want[i as int]));
        assert(styled_view(out@) =~= start + want.take(i + 1));
        i = i + 1;
    }
    assert(want.take(i as int) =~= want);
}

/// The lines of group binding mode's overlay: what it is, that a key
/// assigns at once, its keys, the group now and the one chosen, the page,
/// and the groups of the page.
pub open spec fn group_binding_mode_lines_spec(s: GroupBindingModeState, c: GroupCatalogState) -> Seq<
    Seq<(Seq<char>, Tone)>,
> {
    seq![
        line1("通常画面のgroup割り当てモード"@, Tone::Title),
        line1("表示中の小文字キーを押すと即時確定します。"@, Tone::Plain),
        no_spans(),
        line1("操作キー"@, Tone::Strong),
    ] + keybind_block(crate::help_text::mode_lines_spec(crate::help_text::group_binding_shared_spec())) + seq![
        no_spans(),
        line1("現在: "@ + s.original_group@, Tone::Plain),
        line1("選択候補: "@ + s.pending_group@, Tone::Plain),
        line1(group_page_line_spec(c), Tone::Plain),
        no_spans(),
        line1("このpageのショートカット"@, Tone::Strong),
    ] + group_catalog_block(c, "登録済みgroup がまだありません。Ctrl+G で作成できます。"@)
}

/// The lines of group binding mode's overlay (see
/// `group_binding_mode_lines_spec`).
pub fn group_binding_mode_lines(state: &GroupBindingModeState, catalog: &GroupCatalogState) -> (r: Vec<
    Vec<StyledSpan>,
>)
    ensures
        styled_view(r@) == group_binding_mode_lines_spec(*state, *catalog),
{
    let mut out = new_lines();
    push_one(&mut out, "通常画面のgroup割り当てモード".to_owned(), Tone::Title);
    push_one(&mut out, "表示中の小文字キーを押すと即時確定します。".to_owned(), Tone::Plain);
    push_blank(&mut out);
    push_one(&mut out, "操作キー".to_owned(), Tone::Strong);
    let ghost head = styled_view(out@);
    push_each(&mut out, crate::help_text::group_binding_mode_keybind_lines(), Tone::Soft);
    let ghost keys = styled_view(out@);
    push_blank(&mut out);
    push_one(&mut out, crate::strings::cat2("現在: ", state.original_group.as_str()), Tone::Plain);
    push_one(&mut out, crate::strings::cat2("選択候補: ", state.pending_group.as_str()), Tone::Plain);
    push_one(&mut out, group_page_line(catalog), Tone::Plain);
    push_blank(&mut out);
    push_one(&mut out, "このpageのショートカット".to_owned(), Tone::Strong);
    let ghost mid = styled_view(out@);
    push_group_catalog(&mut out, catalog, "登録済みgroup がまだありません。Ctrl+G で作成できます。");
    proof {
        assert(head =~= seq![
            line1("通常画面のgroup割り当てモード"@, Tone::Title),
            line1("表示中の小文字キーを押すと即時確定します。"@, Tone::Plain),
            no_spans(),
            line1("操作キー"@, Tone::Strong),
        ]);
        assert(mid =~= keys + seq![
            no_spans(),
            line1("現在: "@ + state.original_group@, Tone::Plain),
            line1("選択候補: "@ + state.pending_group@, Tone::Plain),
            line1(group_page_line_spec(*catalog), Tone::Plain),
            no_spans(),
            line1("このpageのショートカット"@, Tone::Strong),
        ]);
    }
    out
}

// -------------------------------------------------------------- filter mode

/// The tags of a filter, each emphasized, separated by commas.
pub open spec fn tag_list_spans(tags: Seq<Seq<char>>) -> Seq<(Seq<char>, Tone)>
    decreases tags.len(),
{
    if tags.len() == 0 {
        Seq::empty()
    } else if tags.len() == 1 {
        seq![(tags[0], Tone::Strong)]
    } else {
        tag_list_spans(tags.drop_last()) + seq![(", "@, Tone::Soft), (tags.last(), Tone::Strong)]
    }
}

/// The line of the tags being chosen, or `(なし)` when there are none.
pub open spec fn active_tags_line_spec(tags: Seq<Seq<char>>) -> Seq<(Seq<char>, Tone)> {
    if tags.len() == 0 {
        seq![("  "@, Tone::Muted), ("(なし)"@, Tone::Soft)]
    } else {
        seq![("  "@, Tone::Muted)] + tag_list_spans(tags)
    }
}

fn active_tags_line(tags: &Vec<String>) -> (r: Vec<StyledSpan>)
    ensures
        spans_view(r@) == active_tags_line_spec(tags.deep_view()),
{
    let ghost tv = tags.deep_view();
    let mut line: Vec<StyledSpan> = Vec::new();
    assert(spans_view(line@) =~= Seq::<(Seq<char>, Tone)>::empty());
    push_span(&mut line, "  ".to_owned(), Tone::Muted);
    if tags.len() == 0 {
        push_span(&mut line, "(なし)".to_owned(), Tone::Soft);
        assert(spans_view(line@) =~= active_tags_line_spec(tv));
        return line;
    }
    let ghost head = seq![("  "@, Tone::Muted)];
    assert(tv.take(0) =~= Seq::<Seq<char>>::empty());
    let mut i: usize = 0;
    while i < tags.len()
        invariant
            i <= tags.len(),
            tv == tags.deep_view(),
            spans_view(line@) == head + tag_list_spans(tv.take(i as int)),
        decreases tags.len() - i,
    {
        let ghost before = tag_list_spans(tv.take(i as int));
        assert(tv.take(i + 1).drop_last() =~= tv.take(i as int));
        assert(tags[i as int]@ == tv[i as int]);
        if i > 0 {
            push_span(&mut line, ", ".to_owned(), Tone::Soft);
        }
        push_span(&mut line, tags[i].clone(), Tone::Strong);
        assert(spans_view(line@) =~= head + tag_list_spans(tv.take(i + 1)));
        i = i + 1;
    }
    assert(tv.take(i as int) =~= tv);
    line
}

/// One tag of the catalog in filter mode: its keys, whether it filters,
/// and the tag.
pub open spec fn filter_tag_entry_spec(e: TagCatalogEntry) -> Seq<(Seq<char>, Tone)> {
    seq![
        (seq![e.key] + "/"@ + seq![upper_char(e.key)] + " "@, Tone::Title),
        if e.filter_active {
            ("[ON ] "@, Tone::Strong)
        } else {
            ("[OFF] "@, Tone::Soft)
        },
        (e.tag@, Tone::Body),
    ]
}

/// The page line of the tag catalog in filter mode.
pub open spec fn tag_page_line_spec(c: TagCatalogState) -> Seq<char> {
    "tag page: "@ + decimal(c.page as nat + 1) + "/"@ + decimal(
        if c.page_count > 0 {
            c.page_count as nat
        } else {
            1
        },
    ) + " (total:"@ + decimal(c.total_tags as nat) + ")"@
}

fn tag_page_line(c: &TagCatalogState) -> (r: String)
    ensures
        r@ == tag_page_line_spec(*c),
{
    let mut s = "tag page: ".to_owned();
    append_str(&mut s, successor_text(c.page).as_str());
    append_str(&mut s, "/");
    let count = if c.page_count > 0 {
        c.page_count
    } else {
        1
    };
    append_str(&mut s, usize_to_string(count).as_str());
    append_str(&mut s, " (total:");
    append_str(&mut s, usize_to_string(c.total_tags).as_str());
    append_str(&mut s, ")");
    s
}

/// The tags of the catalog page in filter mode, or a message when there
/// are none.
pub open spec fn filter_tag_block(c: TagCatalogState) -> Seq<Seq<(Seq<char>, Tone)>> {
    if c.entries@.len() == 0 {
        seq![line1("登録済みtag がまだありません。n で作成できます。"@, Tone::Soft)]
    } else {
        c.entries@.map_values(|e: TagCatalogEntry| filter_tag_entry_spec(e))
    }
}

fn push_filter_tags(out: &mut Vec<Vec<StyledSpan>>, c: &TagCatalogState)
    ensures
        styled_view(final(out)@) == styled_view(old(out)@) + filter_tag_block(*c),
{
    let ghost start = styled_view(out@);
    if c.entries.len() == 0 {
        push_one(out, "登録済みtag がまだありません。n で作成できます。".to_owned(), Tone::Soft);
        assert(styled_view(out@) =~= start + filter_tag_block(*c));
        return;
    }
    let ghost want = c.entries@.map_values(|e: TagCatalogEntry| filter_tag_entry_spec(e));
    let mut i: usize = 0;
    while i < c.entries.len()
        invariant
            i <= c.entries.len(),
            c.entries@.len() > 0,
            want == c.entries@.map_values(|e: TagCatalogEntry| filter_tag_entry_spec(e)),
            styled_view(out@) == start + want.take(i as int),
        decreases c.entries.len() - i,
    {
        let e = &c.entries[i];
        let mut line: Vec<StyledSpan> = Vec::new();
        let mut keys = key_pair(e.key, "/");
        append_str(&mut keys, " ");
        push_span(&mut line, keys, Tone::Title);
        if e.filter_active {
            push_span(&mut line, "[ON ] ".to_owned(), Tone::Strong);
        } else {
            push_span(&mut line, "[OFF] ".to_owned(), Tone::Soft);
        }
        push_span(&mut line, e.tag.clone(), Tone::Body);
        assert(spans_view(line@) =~= want[i as int]);
        push_line(out, line);
        assert(want.take(i + 1) =~= want.take(i as int).push(want[i as int]));
        assert(styled_view(out@) =~= start + want.take(i + 1));
        i = i + 1;
    }
    assert(want.take(i as int) =~= want);
}

/// The name of a filter focus.
pub open spec fn focus_label(f: FilterModeFocus) -> Seq<char> {
    match f {
        FilterModeFocus::Group => "group"@,
        FilterModeFocus::Tag => "tag"@,
    }
}

/// The lines of filter mode's overlay: the focus and its keys, how many
/// repositories the filters let through, the group and tags chosen, and
/// the shortcuts of the page of the focus.
pub open spec fn filter_mode_lines_spec(s: FilterModeState, tags: TagCatalogState, groups: GroupCatalogState) -> Seq<
    Seq<(Seq<char>, Tone)>,
> {
    seq![
        line1("絞り込みモード ("@ + focus_label(s.focus) + ")"@, Tone::Title),
        line1(
            match s.focus {
                FilterModeFocus::Group => "a-z でgroup選択 / A-Zどれでもgroup解除"@,
                FilterModeFocus::Tag => "a-z でtag ON / A-Z でtag OFF"@,
            },
            Tone::Plain,
        ),
        line1(
            match s.focus {
                FilterModeFocus::Group => "Ctrl+T でtagへ切替 / Enter適用 / Esc取消 / ←→でpage移動"@,
                FilterModeFocus::Tag => "Ctrl+G でgroupへ切替 / Enter適用 / Esc取消 / ←→でpage移動"@,
            },
            Tone::Plain,
        ),
        line1(
            "表示予定repo: "@ + decimal(s.visible_repo_count as nat) + "/"@ + decimal(s.total_repo_count as nat),
            Tone::Plain,
        ),
        no_spans(),
        line1("現在の絞り込み"@, Tone::Strong),
        match s.active_group {
            Some(g) => seq![("group: "@, Tone::Muted), (g@, Tone::Strong)],
            None => seq![("group: "@, Tone::Muted), ("(なし)"@, Tone::Soft)],
        },
        line1("tags:"@, Tone::Muted),
        active_tags_line_spec(s.active_tags.deep_view()),
        no_spans(),
        line1("このpageのショートカット"@, Tone::Strong),
    ] + match s.focus {
        FilterModeFocus::Group => seq![line1(group_page_line_spec(groups), Tone::Plain)] + group_catalog_block(
            groups,
            "登録済みgroup がまだありません。"@,
        ),
        FilterModeFocus::Tag => seq![line1(tag_page_line_spec(tags), Tone::Plain)] + filter_tag_block(tags),
    }
}

/// The lines of filter mode's overlay (see `filter_mode_lines_spec`).
pub fn filter_mode_lines(state: &FilterModeState, tags: &TagCatalogState, groups: &GroupCatalogState) -> (r: Vec<
    Vec<StyledSpan>,
>)
    ensures
        styled_view(r@) == filter_mode_lines_spec(*state, *tags, *groups),
{
    let mut out = new_lines();
    let label = match state.focus {
        FilterModeFocus::Group => "group",
        FilterModeFocus::Tag => "tag",
    };
    push_one(&mut out, crate::strings::cat3("絞り込みモード (", label, ")"), Tone::Title);
    match state.focus {
        FilterModeFocus::Group => {
            push_one(&mut out, "a-z でgroup選択 / A-Zどれでもgroup解除".to_owned(), Tone::Plain);
            push_one(&mut out, "Ctrl+T でtagへ切替 / Enter適用 / Esc取消 / ←→でpage移動".to_owned(), Tone::Plain);
        },
        FilterModeFocus::Tag => {
            push_one(&mut out, "a-z でtag ON / A-Z でtag OFF".to_owned(), Tone::Plain);
            push_one(&mut out, "Ctrl+G でgroupへ切替 / Enter適用 / Esc取消 / ←→でpage移動".to_owned(), Tone::Plain);
        },
    }
    let mut counts = with_number("表示予定repo: ", state.visible_repo_count);
    append_str(&mut counts, "/");
    append_str(&mut counts, usize_to_string(state.total_repo_count).as_str());
    push_one(&mut out, counts, Tone::Plain);
    push_blank(&mut out);
    push_one(&mut out, "現在の絞り込み".to_owned(), Tone::Strong);
    let mut group_line: Vec<StyledSpan> = Vec::new();
    assert(spans_view(group_line@) =~= Seq::<(Seq<char>, Tone)>::empty());
    push_span(&mut group_line, "group: ".to_owned(), Tone::Muted);
    match &state.active_group {
        Some(g) => push_span(&mut group_line, g.clone(), Tone::Strong),
        None => push_span(&mut group_line, "(なし)".to_owned(), Tone::Soft),
    }
    proof {
        let st = *state;
        let want = match st.active_group {
            Some(g) => seq![("group: "@, Tone::Muted), (g@, Tone::Strong)],
            None => seq![("group: "@, Tone::Muted), ("(なし)"@, Tone::Soft)],
        };
        assert(spans_view(group_line@) =~= want);
    }
    push_line(&mut out, group_line);
    push_one(&mut out, "tags:".to_owned(), Tone::Muted);
    push_line(&mut out, active_tags_line(&state.active_tags));
    push_blank(&mut out);
    push_one(&mut out, "このpageのショートカット".to_owned(), Tone::Strong);
    let ghost head = styled_view(out@);
    match state.focus {
        FilterModeFocus::Group => {
            push_one(&mut out, group_page_line(groups), Tone::Plain);
            push_group_catalog(&mut out, groups, "登録済みgroup がまだありません。");
        },
        FilterModeFocus::Tag => {
            push_one(&mut out, tag_page_line(tags), Tone::Plain);
            push_filter_tags(&mut out, tags);
        },
    }
    proof {
        let s = *state;
        let want_head = seq![
            line1("絞り込みモード ("@ + focus_label(s.focus) + ")"@, Tone::Title),
            line1(
                match s.focus {
                    FilterModeFocus::Group => "a-z でgroup選択 / A-Zどれでもgroup解除"@,
                    FilterModeFocus::Tag => "a-z でtag ON / A-Z でtag OFF"@,
                },
                Tone::Plain,
            ),
            line1(
                match s.focus {
                    FilterModeFocus::Group => "Ctrl+T でtagへ切替 / Enter適用 / Esc取消 / ←→でpage移動"@,
                    FilterModeFocus::Tag => "Ctrl+G でgroupへ切替 / Enter適用 / Esc取消 / ←→でpage移動"@,
                },
                Tone::Plain,
            ),
            line1(
                "表示予定repo: "@ + decimal(s.visible_repo_count as nat) + "/"@ + decimal(s.total_repo_count as nat),
                Tone::Plain,
            ),
            no_spans(),
            line1("現在の絞り込み"@, Tone::Strong),
            match s.active_group {
                Some(g) => seq![("group: "@, Tone::Muted), (g@, Tone::Strong)],
                None => seq![("group: "@, Tone::Muted), ("(なし)"@, Tone::Soft)],
            },
            line1("tags:"@, Tone::Muted),
            active_tags_line_spec(s.active_tags.deep_view()),
            no_spans(),
            line1("このpageのショートカット"@, Tone::Strong),
        ];
        assert(head =~= want_head);
    }
    out
}

// ---------------------------------------------------------------- help

/// The lines of a binding mode's help: a title between blank lines, the
/// key lines, and, while the mode is open, what it is about.
pub open spec fn binding_help_lines_spec(
    title: Seq<char>,
    keys: Seq<Seq<char>>,
    details: Seq<Seq<char>>,
) -> Seq<Seq<(Seq<char>, Tone)>> {
    seq![no_spans(), line1(title, Tone::Title), no_spans()] + plain_block(keys) + if details.len() > 0 {
        seq![no_spans()] + plain_block(details)
    } else {
        Seq::empty()
    }
}

/// What tag binding mode's help says of the open mode: the repository, how
/// many tags it is to have, and the tags to be added and removed.
pub open spec fn tag_binding_details_spec(s: Option<TagBindingModeState>) -> Seq<Seq<char>> {
    match s {
        None => Seq::empty(),
        Some(s) => seq![" repo   : "@ + s.repo_name@, " tag数  : "@ + decimal(s.pending_count as nat)] + (if s.added_tags@.len()
            > 0 {
            seq![" 追加予定: "@ + join_with(s.added_tags.deep_view(), ", "@)]
        } else {
            Seq::empty()
        }) + (if s.removed_tags@.len() > 0 {
            seq![" 削除予定: "@ + join_with(s.removed_tags.deep_view(), ", "@)]
        } else {
            Seq::empty()
        }),
    }
}

/// What group binding mode's help says of the open mode: the repository,
/// its group and the group chosen.
pub open spec fn group_binding_details_spec(s: Option<GroupBindingModeState>) -> Seq<Seq<char>> {
    match s {
        None => Seq::empty(),
        Some(s) => seq![
            " repo   : "@ + s.repo_name@,
            " 現在   : "@ + s.original_group@,
            " 選択候補: "@ + s.pending_group@,
        ],
    }
}

fn push_strings(v: &mut Vec<String>, s: String)
    ensures
        final(v).deep_view() == old(v).deep_view().push(s@),
{
    let ghost before = v.deep_view();
    let ghost t = s@;
    v.push(s);
    assert(v.deep_view() =~= before.push(t));
}

fn binding_help_lines(title: &str, keys: Vec<String>, details: Vec<String>) -> (r: Vec<Vec<StyledSpan>>)
    ensures
        styled_view(r@) == binding_help_lines_spec(title@, keys.deep_view(), details.deep_view()),
{
    let mut out = new_lines();
    push_blank(&mut out);
    push_one(&mut out, title.to_owned(), Tone::Title);
    push_blank(&mut out);
    let ghost head = styled_view(out@);
    push_each(&mut out, keys, Tone::Plain);
    let ghost with_keys = styled_view(out@);
    if details.len() > 0 {
        push_blank(&mut out);
        push_each(&mut out, details, Tone::Plain);
    }
    proof {
        assert(head =~= seq![no_spans(), line1(title@, Tone::Title), no_spans()]);
        if details@.len() > 0 {
            assert(styled_view(out@) =~= with_keys + (seq![no_spans()] + plain_block(details.deep_view())));
        } else {
            assert(styled_view(out@) =~= with_keys + Seq::<Seq<(Seq<char>, Tone)>>::empty());
        }
    }
    out
}

/// The lines of tag binding mode's help.
pub fn tag_binding_help_lines(state: Option<&TagBindingModeState>) -> (r: Vec<Vec<StyledSpan>>)
    ensures
        styled_view(r@) == binding_help_lines_spec(
            "tag紐付けモード help"@,
            crate::help_text::help_lines_spec(crate::help_text::tag_binding_shared_spec()),
            tag_binding_details_spec(
                match state {
                    Some(s) => Some(*s),
                    None => None,
                },
            ),
        ),
{
    let mut details: Vec<String> = Vec::new();
    assert(details.deep_view() =~= Seq::<Seq<char>>::empty());
    if let Some(s) = state {
        push_strings(&mut details, crate::strings::cat2(" repo   : ", s.repo_name.as_str()));
        push_strings(&mut details, with_number(" tag数  : ", s.pending_count));
        let ghost two = details.deep_view();
        if s.added_tags.len() > 0 {
            let joined = crate::strings::join_strings(&s.added_tags, ", ");
            push_strings(&mut details, crate::strings::cat2(" 追加予定: ", joined.as_str()));
        }
        let ghost three = details.deep_view();
        if s.removed_tags.len() > 0 {
            let joined = crate::strings::join_strings(&s.removed_tags, ", ");
            push_strings(&mut details, crate::strings::cat2(" 削除予定: ", joined.as_str()));
        }
        proof {
            let a = if s.added_tags@.len() > 0 {
                seq![" 追加予定: "@ + join_with(s.added_tags.deep_view(), ", "@)]
            } else {
                Seq::<Seq<char>>::empty()
            };
            let b = if s.removed_tags@.len() > 0 {
                seq![" 削除予定: "@ + join_with(s.removed_tags.deep_view(), ", "@)]
            } else {
                Seq::<Seq<char>>::empty()
            };
            assert(two =~= seq![" repo   : "@ + s.repo_name@, " tag数  : "@ + decimal(s.pending_count as nat)]);
            assert(three =~= two + a);
            assert(details.deep_view() =~= two + a + b);
        }
    }
    binding_help_lines("tag紐付けモード help", crate::help_text::tag_binding_help_keybind_lines(), details)
}

/// The lines of group binding mode's help.
pub fn group_binding_help_lines(state: Option<&GroupBindingModeState>) -> (r: Vec<Vec<StyledSpan>>)
    ensures
        styled_view(r@) == binding_help_lines_spec(
            "group割り当てモード help"@,
            crate::help_text::help_lines_spec(crate::help_text::group_binding_shared_spec()),
            group_binding_details_spec(
                match state {
                    Some(s) => Some(*s),
                    None => None,
                },
            ),
        ),
{
    let mut details: Vec<String> = Vec::new();
    assert(details.deep_view() =~= Seq::<Seq<char>>::empty());
    if let Some(s) = state {
        push_strings(&mut details, crate::strings::cat2(" repo   : ", s.repo_name.as_str()));
        push_strings(&mut details, crate::strings::cat2(" 現在   : ", s.original_group.as_str()));
        push_strings(&mut details, crate::strings::cat2(" 選択候補: ", s.pending_group.as_str()));
        assert(details.deep_view() =~= seq![
            " repo   : "@ + s.repo_name@,
            " 現在   : "@ + s.original_group@,
            " 選択候補: "@ + s.pending_group@,
        ]);
    }
    binding_help_lines("group割り当てモード help", crate::help_text::group_binding_help_keybind_lines(), details)
}

/// The lines of the main help: one per command.
pub open spec fn main_help_spec() -> Seq<Seq<char>> {
    seq![
        " t      : tag紐付けモードに入る"@,
        " mode中 ? : tag紐付けモード専用help"@,
        " g      : group割り当てモードに入る"@,
        " mode中 ? : group割り当てモード専用help"@,
        " /      : tag絞り込みモードに入る"@,
        " mode中 a-z / A-Z : tag絞り込み ON / OFF"@,
        " Shift+T: tag manager"@,
        " Shift+G: group manager"@,
        " Shift+L: debug log 1行/50% 切替"@,
        " Shift+D: desc 右下/左1行/左1行+3行 循環"@,
        " ← / →  : 登録済みtag page 切替"@,
        " e      : 1行説明を編集"@,
        " l      : 3行説明を編集"@,
        " n      : 新規tagを追加"@,
        " Ctrl+G : 新規groupを追加して現repoへ割当"@,
        " r      : GitHub から repo 一覧を同期"@,
        " s      : sort create/modify 切替"@,
        " j / k  : repo選択を移動"@,
        " ↑ / ↓  : repo選択を移動"@,
        " ?      : ヘルプ表示/非表示"@,
        " Esc    : パネルまたはヘルプを閉じる"@,
        " q      : 終了"@,
    ]
}

/// The lines of the main help (see `main_help_spec`).
pub fn main_help_lines() -> (r: Vec<String>)
    ensures
        r.deep_view() == main_help_spec(),
{
    let mut v: Vec<String> = Vec::new();
    assert(v.deep_view() =~= Seq::<Seq<char>>::empty());
    push_strings(&mut v, " t      : tag紐付けモードに入る".to_owned());
    push_strings(&mut v, " mode中 ? : tag紐付けモード専用help".to_owned());
    push_strings(&mut v, " g      : group割り当てモードに入る".to_owned());
    push_strings(&mut v, " mode中 ? : group割り当てモード専用help".to_owned());
    push_strings(&mut v, " /      : tag絞り込みモードに入る".to_owned());
    push_strings(&mut v, " mode中 a-z / A-Z : tag絞り込み ON / OFF".to_owned());
    push_strings(&mut v, " Shift+T: tag manager".to_owned());
    push_strings(&mut v, " Shift+G: group manager".to_owned());
    push_strings(&mut v, " Shift+L: debug log 1行/50% 切替".to_owned());
    push_strings(&mut v, " Shift+D: desc 右下/左1行/左1行+3行 循環".to_owned());
    push_strings(&mut v, " ← / →  : 登録済みtag page 切替".to_owned());
    push_strings(&mut v, " e      : 1行説明を編集".to_owned());
    push_strings(&mut v, " l      : 3行説明を編集".to_owned());
    push_strings(&mut v, " n      : 新規tagを追加".to_owned());
    push_strings(&mut v, " Ctrl+G : 新規groupを追加して現repoへ割当".to_owned());
    push_strings(&mut v, " r      : GitHub から repo 一覧を同期".to_owned());
    push_strings(&mut v, " s      : sort create/modify 切替".to_owned());
    push_strings(&mut v, " j / k  : repo選択を移動".to_owned());
    push_strings(&mut v, " ↑ / ↓  : repo選択を移動".to_owned());
    push_strings(&mut v, " ?      : ヘルプ表示/非表示".to_owned());
    push_strings(&mut v, " Esc    : パネルまたはヘルプを閉じる".to_owned());
    push_strings(&mut v, " q      : 終了".to_owned());
    assert(v.deep_view() =~= main_help_spec());
    v
}


/// What filter mode's help says of the filters being chosen: how many
/// repositories they would list, of how many.
pub open spec fn filter_help_details_spec(s: Option<FilterModeState>) -> Seq<Seq<char>> {
    match s {
        None => Seq::empty(),
        Some(s) => seq![
            " 表示予定repo: "@ + decimal(s.visible_repo_count as nat) + "/"@ + decimal(s.total_repo_count as nat),
        ],
    }
}

/// The lines of filter mode's help.
pub fn filter_help_lines(state: Option<&FilterModeState>) -> (r: Vec<Vec<StyledSpan>>)
    ensures
        styled_view(r@) == binding_help_lines_spec(
            "絞り込みモード help"@,
            crate::help_text::filter_help_keys_spec(),
            filter_help_details_spec(
                match state {
                    Some(s) => Some(*s),
                    None => None,
                },
            ),
        ),
{
    let mut details: Vec<String> = Vec::new();
    assert(details.deep_view() =~= Seq::<Seq<char>>::empty());
    if let Some(s) = state {
        let mut line = with_number(" 表示予定repo: ", s.visible_repo_count);
        append_str(&mut line, "/");
        append_str(&mut line, usize_to_string(s.total_repo_count).as_str());
        push_strings(&mut details, line);
    }
    binding_help_lines("絞り込みモード help", crate::help_text::filter_help_keybind_lines(), details)
}

/// The lines of the progress window of a background job: its title, what it
/// reports doing, and the seconds it has run.
pub open spec fn sync_progress_lines_spec(s: crate::background::SyncProgressState) -> Seq<Seq<(Seq<char>, Tone)>> {
    seq![
        line1(s.title@, Tone::Title),
        seq![("状態: "@, Tone::Muted), (s.phase@, Tone::Soft)],
        seq![("経過: "@, Tone::Muted), (decimal(s.elapsed_secs as nat) + "秒"@, Tone::Warning)],
    ]
}

/// The lines of the progress window (see `sync_progress_lines_spec`).
pub fn sync_progress_lines(state: &crate::background::SyncProgressState) -> (r: Vec<Vec<StyledSpan>>)
    ensures
        styled_view(r@) == sync_progress_lines_spec(*state),
{
    let mut out = new_lines();
    push_one(&mut out, state.title.clone(), Tone::Title);
    let mut phase: Vec<StyledSpan> = Vec::new();
    assert(spans_view(phase@) =~= Seq::<(Seq<char>, Tone)>::empty());
    push_span(&mut phase, "状態: ".to_owned(), Tone::Muted);
    push_span(&mut phase, state.phase.clone(), Tone::Soft);
    assert(spans_view(phase@) =~= seq![("状態: "@, Tone::Muted), (state.phase@, Tone::Soft)]);
    push_line(&mut out, phase);
    let mut elapsed: Vec<StyledSpan> = Vec::new();
    assert(spans_view(elapsed@) =~= Seq::<(Seq<char>, Tone)>::empty());
    push_span(&mut elapsed, "経過: ".to_owned(), Tone::Muted);
    let mut secs = crate::strings::u128_to_string(state.elapsed_secs as u128);
    append_str(&mut secs, "秒");
    push_span(&mut elapsed, secs, Tone::Warning);
    assert(spans_view(elapsed@) =~= seq![
        ("経過: "@, Tone::Muted),
        (decimal(state.elapsed_secs as nat) + "秒"@, Tone::Warning),
    ]);
    push_line(&mut out, elapsed);
    assert(styled_view(out@) =~= sync_progress_lines_spec(*state));
    out
}


/// The panels of the right pane about the selected repository.
#[derive(Debug, Clone, Copy, PartialEq, Eq, Structural)]
pub enum RepoPanel {
    /// Its descriptions (see `right_pane::desc_lines_spec`).
    Desc,
    /// Its tags (see `right_pane::tag_detail_lines_spec`).
    TagDetail,
}

/// The tone of span `i` of line `row` (of `count` spans) of a panel about the
/// selected repository. Both panels head with the repository's name. In the
/// description panel the group line shows its label muted, the group as a
/// figure and the key hint soft; other lines have a muted label and soft
/// text. In the tag panel the tag count is plain body text, a tag line shows
/// its key muted and the tag in its colour, and other lines are soft.
pub open spec fn repo_panel_tone(panel: RepoPanel, row: int, i: int, count: int) -> Tone {
    if row == 0 {
        Tone::Heading
    } else {
        match panel {
            RepoPanel::Desc => if row == 1 {
                if i == 0 {
                    Tone::Muted
                } else if i == 1 {
                    Tone::Warning
                } else {
                    Tone::Soft
                }
            } else if i == 0 {
                Tone::Muted
            } else {
                Tone::Soft
            },
            RepoPanel::TagDetail => if count == 3 {
                if i == 0 {
                    Tone::Muted
                } else if i == 1 {
                    Tone::Plain
                } else {
                    Tone::TagName
                }
            } else if row == 1 {
                Tone::Body
            } else {
                Tone::Soft
            },
        }
    }
}

/// The lines of a panel about the selected repository, each span with its
/// tone (see `repo_panel_tone`).
pub open spec fn repo_panel_styled(panel: RepoPanel, lines: Seq<Seq<Seq<char>>>) -> Seq<Seq<(Seq<char>, Tone)>> {
    Seq::new(
        lines.len(),
        |row: int| Seq::new(lines[row].len(), |i: int| (lines[row][i], repo_panel_tone(panel, row, i, lines[row].len() as int))),
    )
}

/// The tone of a span (see `repo_panel_tone`).
fn repo_panel_tone_of(panel: RepoPanel, row: usize, i: usize, count: usize) -> (r: Tone)
    ensures
        r == repo_panel_tone(panel, row as int, i as int, count as int),
{
    if row == 0 {
        return Tone::Heading;
    }
    match panel {
        RepoPanel::Desc => if row == 1 {
            if i == 0 {
                Tone::Muted
            } else if i == 1 {
                Tone::Warning
            } else {
                Tone::Soft
            }
        } else if i == 0 {
            Tone::Muted
        } else {
            Tone::Soft
        },
        RepoPanel::TagDetail => if count == 3 {
            if i == 0 {
                Tone::Muted
            } else if i == 1 {
                Tone::Plain
            } else {
                Tone::TagName
            }
        } else if row == 1 {
            Tone::Body
        } else {
            Tone::Soft
        },
    }
}

/// The lines of a panel about the selected repository with their tones (see
/// `repo_panel_styled`).
pub fn repo_panel_styled_lines(panel: RepoPanel, lines: Vec<Vec<String>>) -> (r: Vec<Vec<StyledSpan>>)
    ensures
        styled_view(r@) == repo_panel_styled(panel, crate::right_pane::lines_view(lines@)),
{
    let ghost lv = crate::right_pane::lines_view(lines@);
    let ghost want = repo_panel_styled(panel, lv);
    let mut out: Vec<Vec<StyledSpan>> = Vec::new();
    let mut row: usize = 0;
    while row < lines.len()
        invariant
            row <= lines.len(),
            lv == crate::right_pane::lines_view(lines@),
            want == repo_panel_styled(panel, lv),
            styled_view(out@) == want.take(row as int),
        decreases lines.len() - row,
    {
        let line = &lines[row];
        let ghost texts = lv[row as int];
        assert(texts == line.deep_view());
        let mut spans: Vec<StyledSpan> = Vec::new();
        let mut i: usize = 0;
        while i < line.len()
            invariant
                i <= line.len(),
                texts == line.deep_view(),
                row < lv.len(),
                want == repo_panel_styled(panel, lv),
                texts == lv[row as int],
                spans_view(spans@) == want[row as int].take(i as int),
            decreases line.len() - i,
        {
            let ghost before = spans_view(spans@);
            let tone = repo_panel_tone_of(panel, row, i, line.len());
            spans.push(StyledSpan { text: line[i].clone(), tone });
            assert(spans_view(spans@) =~= before.push(want[row as int][i as int]));
            assert(want[row as int].take(i + 1) =~= want[row as int].take(i as int).push(want[row as int][i as int]));
            i = i + 1;
        }
        assert(want[row as int].take(i as int) =~= want[row as int]);
        let ghost before = styled_view(out@);
        out.push(spans);
        assert(styled_view(out@) =~= before.push(want[row as int]));
        assert(want.take(row + 1) =~= want.take(row as int).push(want[row as int]));
        row = row + 1;
    }
    assert(want.take(row as int) =~= want);
    out
}
} // verus!
