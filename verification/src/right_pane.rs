//! The right pane of the main screen: how tall each of its sections wants to
//! be, and how the available rows are shared among them.
use crate::config::{lines_of, split_lines};
use crate::layout::{ceil_div, div_ceil_u128, max_int, min_int, sat_sub};
use crate::strings::{chars_of, string_from_chars, trim, trim_str};
use vstd::prelude::*;

verus! {

/// How many columns `text` takes on a terminal, as `unicode-width` measures
/// a string.
pub uninterp spec fn display_width(text: Seq<char>) -> nat;

/// The display width of a span of text: `ratatui::text::Span::width`, the
/// `unicode-width` width of its content. Only that it is a function of the
/// text is stated; the Unicode width tables are not written out.
#[verifier::external_body]
fn span_width(text: &str) -> (r: usize)
    ensures
        r == display_width(text@),
{
    ratatui::text::Span::raw(text).width()
}

/// One line of text as the texts of its spans.
pub open spec fn line_width(spans: Seq<Seq<char>>) -> nat
    decreases spans.len(),
{
    if spans.len() == 0 {
        0
    } else {
        line_width(spans.drop_last()) + display_width(spans.last())
    }
}

/// How many rows the lines take when wrapped at `inner` columns: each line
/// at least one.
pub open spec fn paragraph_rows(lines: Seq<Seq<Seq<char>>>, inner: int) -> int
    decreases lines.len(),
{
    if lines.len() == 0 {
        0
    } else {
        paragraph_rows(lines.drop_last(), inner) + ceil_div(max_int(line_width(lines.last()) as int, 1), inner)
    }
}

/// `a + b` saturated at `u16::MAX`.
pub open spec fn sat_add_u16(a: int, b: int) -> int {
    min_int(a + b, 0xffff)
}

/// The height of a bordered paragraph: its wrapped rows (counted modulo
/// 2^16) plus two border rows, saturating; nothing when the area has no
/// width.
pub open spec fn paragraph_height_spec(area_width: int, lines: Seq<Seq<Seq<char>>>) -> int {
    if area_width == 0 {
        0
    } else {
        let inner = max_int(sat_sub(area_width, 2), 1);
        sat_add_u16(paragraph_rows(lines, inner) % 0x10000, 2)
    }
}

/// The views of lines of spans.
pub open spec fn lines_view(lines: Seq<Vec<String>>) -> Seq<Seq<Seq<char>>> {
    lines.map_values(|l: Vec<String>| l.deep_view())
}

/// The display width of a line of spans, which cannot overflow 128 bits.
fn line_width_u128(spans: &Vec<String>) -> (r: u128)
    ensures
        r == line_width(spans.deep_view()),
{
    let mut acc: u128 = 0;
    let mut i: usize = 0;
    while i < spans.len()
        invariant
            i <= spans.len(),
            acc == line_width(spans.deep_view().take(i as int)),
            acc <= i * 0xffff_ffff_ffff_ffffu128,
        decreases spans.len() - i,
    {
        assert(spans.deep_view().take(i + 1).drop_last() =~= spans.deep_view().take(i as int));
        let w = span_width(spans[i].as_str());
        assert(spans.deep_view()[i as int] == spans[i as int]@);
        proof {
            let ii = i as int;
            assert(acc + w <= (ii + 1) * 0xffff_ffff_ffff_ffff) by (nonlinear_arith)
                requires
                    acc <= ii * 0xffff_ffff_ffff_ffff,
                    w <= 0xffff_ffff_ffff_ffff,
            ;
            assert((ii + 1) * 0xffff_ffff_ffff_ffff < 0x1_0000_0000_0000_0000_0000_0000_0000_0000) by (nonlinear_arith)
                requires
                    ii + 1 <= 0x1_0000_0000_0000_0000,
            ;
        }
        acc = acc + w as u128;
        i = i + 1;
    }
    assert(spans.deep_view().take(i as int) =~= spans.deep_view());
    acc
}

/// The width of the widest of the lines, 0 when there are none.
pub open spec fn widest(lines: Seq<Seq<Seq<char>>>) -> int
    decreases lines.len(),
{
    if lines.len() == 0 {
        0
    } else {
        max_int(widest(lines.drop_last()), line_width(lines.last()) as int)
    }
}

/// The width the repository list asks for: its widest line plus four
/// columns (the borders and the selection marker) or its title plus two
/// (the borders), whichever is more, at most `u16::MAX`.
pub open spec fn list_desired_width_spec(lines: Seq<Seq<Seq<char>>>, title: Seq<char>) -> int {
    min_int(max_int(widest(lines) + 4, display_width(title) as int + 2), 0xffff)
}

/// The width the repository list asks for (see `list_desired_width_spec`),
/// given all the lines of its entries and its title.
pub fn list_desired_width(lines: &Vec<Vec<String>>, title: &str) -> (r: u16)
    ensures
        r == list_desired_width_spec(lines_view(lines@), title@),
{
    let ghost lv = lines_view(lines@);
    let mut widest_so_far: u128 = 0;
    let mut i: usize = 0;
    assert(lv.take(0) =~= Seq::<Seq<Seq<char>>>::empty());
    while i < lines.len()
        invariant
            i <= lines.len(),
            lv == lines_view(lines@),
            widest_so_far == widest(lv.take(i as int)),
            widest_so_far <= 0xffff_ffff_ffff_ffff_ffff_ffff_ffff_ffffu128,
        decreases lines.len() - i,
    {
        assert(lv.take(i + 1).drop_last() =~= lv.take(i as int));
        let w = line_width_u128(&lines[i]);
        assert(lv[i as int] == lines@[i as int].deep_view());
        if w > widest_so_far {
            widest_so_far = w;
        }
        i = i + 1;
    }
    assert(lv.take(i as int) =~= lv);
    let title_width = span_width(title) as u128;
    let content = if widest_so_far > 0xffff {
        0xffffu128
    } else {
        widest_so_far + 4
    };
    let heading = title_width + 2;
    let want = if content >= heading {
        content
    } else {
        heading
    };
    if want > 0xffff {
        0xffff
    } else {
        want as u16
    }
}

/// The height of a bordered paragraph holding `lines` in an area
/// `area_width` columns wide (see `paragraph_height_spec`).
pub fn paragraph_height_for_lines(area_width: u16, lines: &Vec<Vec<String>>) -> (r: u16)
    ensures
        r == paragraph_height_spec(area_width as int, lines_view(lines@)),
{
    if area_width == 0 {
        return 0;
    }
    let sub = area_width.saturating_sub(2);
    let inner: u16 = if sub < 1 {
        1
    } else {
        sub
    };
    let ghost lv = lines_view(lines@);
    let mut acc: u32 = 0;
    let mut i: usize = 0;
    while i < lines.len()
        invariant
            i <= lines.len(),
            inner > 0,
            lv == lines_view(lines@),
            acc < 0x10000,
            acc == paragraph_rows(lv.take(i as int), inner as int) % 0x10000,
        decreases lines.len() - i,
    {
        assert(lv.take(i + 1).drop_last() =~= lv.take(i as int));
        assert(lv[i as int] == lines[i as int].deep_view());
        let w = line_width_u128(&lines[i]);
        let w1: u128 = if w < 1 {
            1
        } else {
            w
        };
        let rows = div_ceil_u128(w1, inner as u128);
        let ghost prev = paragraph_rows(lv.take(i as int), inner as int);
        proof {
            vstd::arithmetic::div_mod::lemma_add_mod_noop(prev, rows as int, 0x10000);
        }
        let part: u32 = (rows % 0x10000) as u32;
        acc = (acc + part) % 0x10000;
        i = i + 1;
    }
    assert(lv.take(i as int) =~= lv);
    let total = acc + 2;
    if total > 0xffff {
        0xffff
    } else {
        total as u16
    }
}

/// The height of a bordered paragraph holding one line of text.
pub fn paragraph_height_for_message(area_width: u16, message: &str) -> (r: u16)
    ensures
        r == paragraph_height_spec(area_width as int, seq![seq![message@]]),
{
    let mut line: Vec<String> = Vec::new();
    line.push(message.to_owned());
    let mut lines: Vec<Vec<String>> = Vec::new();
    lines.push(line);
    assert(lines_view(lines@) =~= seq![seq![message@]]) by {
        assert(lines@[0].deep_view() =~= seq![message@]);
    }
    paragraph_height_for_lines(area_width, &lines)
}

/// The height of a bordered list of `item_count` items: one row each
/// (counted modulo 2^16) plus two border rows, saturating.
pub open spec fn list_height_spec(item_count: int) -> int {
    sat_add_u16(item_count % 0x10000, 2)
}

/// The height of a bordered list (see `list_height_spec`).
pub fn list_height(item_count: usize) -> (r: u16)
    ensures
        r == list_height_spec(item_count as int),
{
    let n: u32 = (item_count % 0x10000) as u32;
    let total = n + 2;
    if total > 0xffff {
        0xffff
    } else {
        total as u16
    }
}

/// One line of the group summary: a group and how many shown repositories
/// are in it.
#[derive(Debug, Clone, PartialEq, Eq)]
pub struct GroupSummaryEntry {
    pub group: String,
    pub count: usize,
}

/// One registered tag on the current page of the tag catalog.
#[derive(Debug, Clone, PartialEq, Eq)]
pub struct TagCatalogEntry {
    pub key: char,
    pub filter_active: bool,
    pub tag: String,
}

/// The tag catalog as the right pane shows it.
#[derive(Debug, Clone, PartialEq, Eq)]
pub struct TagCatalogState {
    pub entries: Vec<TagCatalogEntry>,
    pub page: usize,
    pub page_count: usize,
    pub total_tags: usize,
    pub active_filter_count: usize,
    pub filter_mode_active: bool,
}

/// One tag of the selected repository with the keys that turn it on and off.
#[derive(Debug, Clone, PartialEq, Eq)]
pub struct SelectedRepoTagDetailEntry {
    pub key_hint: String,
    pub tag: String,
}

/// The tags of the selected repository as the right pane shows them.
#[derive(Debug, Clone, PartialEq, Eq)]
pub struct SelectedRepoTagDetailState {
    pub repo_name: String,
    pub tag_count: usize,
    pub entries: Vec<SelectedRepoTagDetailEntry>,
}

/// The descriptions of the selected repository as the right pane shows them.
#[derive(Debug, Clone, PartialEq, Eq)]
pub struct SelectedRepoDescState {
    pub repo_name: String,
    pub github_desc: String,
    pub desc_short: String,
    pub desc_long: String,
    pub group: String,
    pub group_key_hint: String,
}

/// The message shown when there is no group summary, for a filtered view or
/// not.
pub open spec fn group_summary_message(filtered_view: bool) -> Seq<char> {
    if filtered_view {
        "表示中repoに一致する group 集計はありません。"@
    } else {
        "group 集計はまだありません。repo に group を割り当てるとここに表示されます。"@
    }
}

/// The message shown when there is no group summary (see
/// `group_summary_message`).
pub fn group_summary_empty_message(filtered_view: bool) -> (r: &'static str)
    ensures
        r@ == group_summary_message(filtered_view),
{
    if filtered_view {
        "表示中repoに一致する group 集計はありません。"
    } else {
        "group 集計はまだありません。repo に group を割り当てるとここに表示されます。"
    }
}

/// The title of the empty group summary: which repositories it counts.
pub open spec fn group_summary_empty_title_spec(filtered_view: bool) -> Seq<char> {
    if filtered_view {
        " 表示repo group集計 "@
    } else {
        " 全repo group集計 "@
    }
}

/// The title of the empty group summary (see `group_summary_empty_title_spec`).
pub fn group_summary_empty_title(filtered_view: bool) -> (r: &'static str)
    ensures
        r@ == group_summary_empty_title_spec(filtered_view),
{
    if filtered_view {
        " 表示repo group集計 "
    } else {
        " 全repo group集計 "
    }
}

/// The height the group summary wants: one row per entry, or the height of
/// its message when it is empty.
pub fn group_summary_desired_height(area_width: u16, entries: &[GroupSummaryEntry], filtered_view: bool) -> (r: u16)
    ensures
        entries@.len() == 0 ==> r == paragraph_height_spec(
            area_width as int,
            seq![seq![group_summary_message(filtered_view)]],
        ),
        entries@.len() > 0 ==> r == list_height_spec(entries@.len() as int),
{
    if entries.len() == 0 {
        paragraph_height_for_message(area_width, group_summary_empty_message(filtered_view))
    } else {
        list_height(entries.len())
    }
}

/// The message shown when the tag catalog has no entry on its page.
pub open spec fn tag_catalog_message(total_tags: int) -> Seq<char> {
    if total_tags == 0 {
        "登録済みtag がまだありません。n で最初のtagを作成できます。"@
    } else {
        "この page に表示する登録済みtag がありません。← / → で page を切り替えてください。"@
    }
}

/// The message shown when the tag catalog has no entry on its page (see
/// `tag_catalog_message`).
pub fn tag_catalog_empty_message(total_tags: usize) -> (r: &'static str)
    ensures
        r@ == tag_catalog_message(total_tags as int),
{
    if total_tags == 0 {
        "登録済みtag がまだありません。n で最初のtagを作成できます。"
    } else {
        "この page に表示する登録済みtag がありません。← / → で page を切り替えてください。"
    }
}

/// The height the tag catalog wants: one row per entry, or the height of its
/// message when the page is empty.
pub fn tag_catalog_desired_height(area_width: u16, state: &TagCatalogState) -> (r: u16)
    ensures
        state.entries@.len() == 0 ==> r == paragraph_height_spec(
            area_width as int,
            seq![seq![tag_catalog_message(state.total_tags as int)]],
        ),
        state.entries@.len() > 0 ==> r == list_height_spec(state.entries@.len() as int),
{
    if state.entries.len() == 0 {
        paragraph_height_for_message(area_width, tag_catalog_empty_message(state.total_tags))
    } else {
        list_height(state.entries.len())
    }
}

/// The lines of a description block: each line of the text indented by two
/// spaces, or a placeholder when the text is blank.
pub open spec fn desc_block(text: Seq<char>) -> Seq<Seq<Seq<char>>> {
    if trim(text).len() == 0 {
        seq![seq!["  "@, "(未設定)"@]]
    } else {
        lines_of(text).map_values(|l: Seq<char>| seq!["  "@, l])
    }
}

/// The one-line description as shown: its text, or a placeholder when blank.
pub open spec fn short_desc_line(text: Seq<char>) -> Seq<Seq<char>> {
    if trim(text).len() == 0 {
        seq!["1行: "@, "(未設定)"@]
    } else {
        seq!["1行: "@, text]
    }
}

/// The lines (as span texts) that describe the selected repository: its
/// name, its group with the group's shortcut, the GitHub description, the
/// one-line description and the three-line description.
pub open spec fn desc_lines_spec(s: SelectedRepoDescState) -> Seq<Seq<Seq<char>>> {
    seq![
        seq![s.repo_name@],
        seq!["group: "@, s.group@, " ("@ + s.group_key_hint@ + ")"@],
        seq!["GitHub:"@],
    ] + desc_block(s.github_desc@) + seq![short_desc_line(s.desc_short@), seq!["3行:"@]] + desc_block(
        s.desc_long@,
    )
}

/// A line of two spans.
fn two_spans(a: &str, b: String) -> (r: Vec<String>)
    ensures
        r.deep_view() == seq![a@, b@],
{
    let mut v: Vec<String> = Vec::new();
    v.push(a.to_owned());
    v.push(b);
    assert(v.deep_view() =~= seq![a@, b@]);
    v
}

/// Appends the description block of `text` (see `desc_block`).
fn push_desc_block(out: &mut Vec<Vec<String>>, text: &str)
    ensures
        lines_view(final(out)@) == lines_view(old(out)@) + desc_block(text@),
{
    if trim_str(text).as_str().is_empty() {
        let ghost before = lines_view(out@);
        out.push(two_spans("  ", "(未設定)".to_owned()));
        assert(lines_view(out@) =~= before + desc_block(text@));
        return;
    }
    let ls = split_lines(&chars_of(text));
    let ghost start = lines_view(out@);
    let ghost want = lines_of(text@).map_values(|l: Seq<char>| seq!["  "@, l]);
    let mut i: usize = 0;
    while i < ls.len()
        invariant
            i <= ls.len(),
            ls.deep_view() == lines_of(text@),
            want == lines_of(text@).map_values(|l: Seq<char>| seq!["  "@, l]),
            lines_view(out@) == start + want.take(i as int),
        decreases ls.len() - i,
    {
        let ghost before = lines_view(out@);
        let line = string_from_chars(&ls[i]);
        assert(line@ == ls.deep_view()[i as int]);
        out.push(two_spans("  ", line));
        assert(lines_view(out@) =~= before.push(seq!["  "@, line@]));
        assert(want.take(i + 1) =~= want.take(i as int).push(want[i as int]));
        i = i + 1;
    }
    assert(want.take(i as int) =~= want);
}

/// The lines (as span texts) that describe the selected repository (see
/// `desc_lines_spec`).
pub fn selected_repo_desc_lines(state: &SelectedRepoDescState) -> (r: Vec<Vec<String>>)
    ensures
        lines_view(r@) == desc_lines_spec(*state),
{
    let mut out: Vec<Vec<String>> = Vec::new();
    let mut first: Vec<String> = Vec::new();
    first.push(state.repo_name.clone());
    out.push(first);
    let mut second: Vec<String> = Vec::new();
    second.push("group: ".to_owned());
    second.push(state.group.clone());
    let mut hint = " (".to_owned();
    crate::strings::append_str(&mut hint, state.group_key_hint.as_str());
    crate::strings::append_str(&mut hint, ")");
    second.push(hint);
    out.push(second);
    let mut third: Vec<String> = Vec::new();
    third.push("GitHub:".to_owned());
    out.push(third);
    assert(lines_view(out@) =~= seq![
        seq![state.repo_name@],
        seq!["group: "@, state.group@, " ("@ + state.group_key_hint@ + ")"@],
        seq!["GitHub:"@],
    ]) by {
        assert(out@[0].deep_view() =~= seq![state.repo_name@]);
        assert(out@[1].deep_view() =~= seq!["group: "@, state.group@, " ("@ + state.group_key_hint@ + ")"@]);
        assert(out@[2].deep_view() =~= seq!["GitHub:"@]);
    }
    push_desc_block(&mut out, state.github_desc.as_str());
    let ghost before = lines_view(out@);
    if trim_str(state.desc_short.as_str()).as_str().is_empty() {
        out.push(two_spans("1行: ", "(未設定)".to_owned()));
    } else {
        out.push(two_spans("1行: ", state.desc_short.clone()));
    }
    let mut long_title: Vec<String> = Vec::new();
    long_title.push("3行:".to_owned());
    out.push(long_title);
    assert(lines_view(out@) =~= before + seq![short_desc_line(state.desc_short@), seq!["3行:"@]]) by {
        assert(out@[out@.len() - 1].deep_view() =~= seq!["3行:"@]);
    }
    push_desc_block(&mut out, state.desc_long.as_str());
    out
}

/// The height the description section wants: that of the selected
/// repository's description lines, or of a message when none is selected.
pub fn selected_repo_desc_desired_height(area_width: u16, state: Option<&SelectedRepoDescState>) -> (r: u16)
    ensures
        state matches Some(s) ==> r == paragraph_height_spec(area_width as int, desc_lines_spec(*s)),
        state is None ==> r == paragraph_height_spec(area_width as int, seq![seq!["条件に一致するrepoがありません。"@]]),
{
    match state {
        Some(s) => {
            let lines = selected_repo_desc_lines(s);
            paragraph_height_for_lines(area_width, &lines)
        },
        None => paragraph_height_for_message(area_width, "条件に一致するrepoがありません。"),
    }
}

/// How the rows are shared: each section in turn gets what it wants, or what
/// is left; the last section gets all that is left.
pub open spec fn packed_heights_spec(total: int, desired: Seq<u16>) -> Seq<int>
    decreases desired.len(),
{
    if desired.len() == 0 {
        Seq::empty()
    } else if desired.len() == 1 {
        seq![total]
    } else {
        let h = min_int(desired[0] as int, total);
        seq![h] + packed_heights_spec(total - h, desired.drop_first())
    }
}

/// The sum of a sequence of integers.
pub open spec fn sum_ints(s: Seq<int>) -> int
    decreases s.len(),
{
    if s.len() == 0 {
        0
    } else {
        s[0] + sum_ints(s.drop_first())
    }
}

/// When there is at least one section, the shares add up to all the rows,
/// and only the last section may get more than it wants.
pub proof fn lemma_packed_heights_fill(total: int, desired: Seq<u16>)
    requires
        total >= 0,
        desired.len() > 0,
    ensures
        sum_ints(packed_heights_spec(total, desired)) == total,
        packed_heights_spec(total, desired).len() == desired.len(),
        forall|k: int|
            0 <= k < desired.len() - 1 ==> 0 <= #[trigger] packed_heights_spec(total, desired)[k] <= desired[k],
    decreases desired.len(),
{
    if desired.len() > 1 {
        let h = min_int(desired[0] as int, total);
        lemma_packed_heights_fill(total - h, desired.drop_first());
        let rest = packed_heights_spec(total - h, desired.drop_first());
        assert((seq![h] + rest).drop_first() =~= rest);
        assert((seq![h] + rest)[0] == h);
        assert(packed_heights_spec(total, desired) == seq![h] + rest);
        assert(sum_ints(seq![h] + rest) == h + sum_ints(rest));
        assert forall|k: int| 0 <= k < desired.len() - 1 implies 0 <= #[trigger] packed_heights_spec(
            total,
            desired,
        )[k] <= desired[k] by {
            if k > 0 {
                assert(packed_heights_spec(total, desired)[k] == rest[k - 1]);
                assert(desired.drop_first()[k - 1] == desired[k]);
            }
        }
    } else {
        assert(seq![total].drop_first() =~= Seq::<int>::empty());
        assert(sum_ints(Seq::<int>::empty()) == 0);
        assert(sum_ints(seq![total]) == total + sum_ints(seq![total].drop_first()));
    }
}

/// The views of heights.
pub open spec fn heights_view(v: Seq<u16>) -> Seq<int> {
    v.map_values(|h: u16| h as int)
}

/// Shares `total_height` rows among sections that want `desired_heights`
/// rows each (see `packed_heights_spec`).
pub fn packed_heights(total_height: u16, desired_heights: &[u16]) -> (r: Vec<u16>)
    ensures
        heights_view(r@) == packed_heights_spec(total_height as int, desired_heights@),
{
    let mut heights: Vec<u16> = Vec::new();
    if desired_heights.len() == 0 {
        assert(heights_view(heights@) =~= Seq::<int>::empty());
        return heights;
    }
    let mut remaining = total_height;
    let mut i: usize = 0;
    let ghost d = desired_heights@;
    assert(d.skip(0) =~= d);
    assert(heights_view(heights@) + packed_heights_spec(remaining as int, d) =~= packed_heights_spec(remaining as int, d));
    while i < desired_heights.len()
        invariant
            i <= desired_heights.len(),
            d == desired_heights@,
            d.len() > 0,
            heights_view(heights@) + packed_heights_spec(remaining as int, d.skip(i as int)) == packed_heights_spec(
                total_height as int,
                d,
            ),
            i < d.len() || packed_heights_spec(remaining as int, d.skip(i as int)).len() == 0,
        decreases desired_heights.len() - i,
    {
        let ghost rest = d.skip(i as int);
        let ghost before = heights_view(heights@);
        let height = if i + 1 == desired_heights.len() {
            remaining
        } else if desired_heights[i] < remaining {
            desired_heights[i]
        } else {
            remaining
        };
        heights.push(height);
        assert(heights_view(heights@) =~= before.push(height as int));
        if i + 1 == desired_heights.len() {
            assert(rest.len() == 1);
            assert(d.skip(i + 1) =~= Seq::<u16>::empty());
            assert(before.push(height as int) =~= before + packed_heights_spec(remaining as int, rest));
        } else {
            assert(rest.drop_first() =~= d.skip(i + 1));
            assert(rest[0] == desired_heights[i as int]);
            assert(before + packed_heights_spec(remaining as int, rest) =~= before.push(height as int)
                + packed_heights_spec(remaining - height, d.skip(i + 1)));
        }
        remaining = remaining.saturating_sub(height);
        i = i + 1;
    }
    assert(d.skip(i as int) =~= Seq::<u16>::empty());
    assert(heights_view(heights@) + Seq::<int>::empty() =~= heights_view(heights@));
    heights
}

/// A rectangle of the screen, in cells.
#[derive(Debug, Clone, Copy, PartialEq, Eq, Structural)]
pub struct Area {
    pub x: u16,
    pub y: u16,
    pub width: u16,
    pub height: u16,
}

/// The rectangles of sections stacked from the top of `area`, starting
/// `offset` rows down: each as tall as requested, cut off at the bottom of
/// the area.
pub open spec fn stacked_spec(area: Area, offset: int, heights: Seq<u16>) -> Seq<Area>
    decreases heights.len(),
{
    if heights.len() == 0 {
        Seq::empty()
    } else {
        let h = min_int(heights[0] as int, sat_sub(area.height as int, offset));
        let r = Area { x: area.x, y: min_int(area.y + offset, 0xffff) as u16, width: area.width, height: h as u16 };
        seq![r] + stacked_spec(area, min_int(offset + h, 0xffff), heights.drop_first())
    }
}

/// The rectangles of sections of the given heights stacked from the top of
/// `area` (see `stacked_spec`).
pub fn stacked_rects(area: Area, heights: &[u16]) -> (r: Vec<Area>)
    ensures
        r@ == stacked_spec(area, 0, heights@),
{
    let mut out: Vec<Area> = Vec::new();
    let mut offset: u16 = 0;
    let mut i: usize = 0;
    let ghost hs = heights@;
    assert(hs.skip(0) =~= hs);
    while i < heights.len()
        invariant
            i <= heights.len(),
            hs == heights@,
            out@ + stacked_spec(area, offset as int, hs.skip(i as int)) == stacked_spec(area, 0, hs),
        decreases heights.len() - i,
    {
        let ghost rest = hs.skip(i as int);
        let ghost before = out@;
        let room = area.height.saturating_sub(offset);
        let height = if heights[i] < room {
            heights[i]
        } else {
            room
        };
        let rect = Area { x: area.x, y: area.y.saturating_add(offset), width: area.width, height };
        out.push(rect);
        assert(rest[0] == heights[i as int]);
        assert(rest.drop_first() =~= hs.skip(i + 1));
        assert(out@ =~= before.push(rect));
        assert(before + stacked_spec(area, offset as int, rest) =~= before.push(rect) + stacked_spec(
            area,
            offset.saturating_add(height) as int,
            hs.skip(i + 1),
        ));
        offset = offset.saturating_add(height);
        i = i + 1;
    }
    assert(hs.skip(i as int) =~= Seq::<u16>::empty());
    assert(out@ + Seq::<Area>::empty() =~= out@);
    out
}


/// `s` padded with spaces on the right to `width` characters, as Rust's
/// `{:<width}` writes it.
pub open spec fn pad_right(s: Seq<char>, width: nat) -> Seq<char> {
    if s.len() >= width {
        s
    } else {
        s + Seq::new((width - s.len()) as nat, |i: int| ' ')
    }
}

fn pad_right_string(s: &str, width: usize) -> (r: String)
    ensures
        r@ == pad_right(s@, width as nat),
{
    let mut out = s.to_owned();
    let n = crate::curator_tags::char_count(s);
    let mut k: usize = n;
    while k < width
        invariant
            n == s@.len(),
            n <= k <= width || (n > width && k == n),
            out@ == s@ + Seq::new((k - n) as nat, |i: int| ' '),
        decreases width - k,
    {
        let ghost before = out@;
        crate::strings::push_char(&mut out, ' ');
        assert(out@ =~= s@ + Seq::new((k + 1 - n) as nat, |i: int| ' '));
        k = k + 1;
    }
    assert(n >= width ==> out@ =~= s@);
    out
}

/// The lines (as span texts) of the selected repository's tags: its name,
/// the number of tags, then each tag after its keys (padded to 11
/// characters), or a placeholder when it has none.
pub open spec fn tag_detail_lines_spec(s: SelectedRepoTagDetailState) -> Seq<Seq<Seq<char>>> {
    let head = seq![seq![s.repo_name@], seq!["tag数: "@ + crate::strings::decimal(s.tag_count as nat)]];
    if s.entries@.len() == 0 {
        head + seq![seq!["(tagなし)"@]]
    } else {
        head + s.entries@.map_values(
            |e: SelectedRepoTagDetailEntry| seq![pad_right(e.key_hint@, 11), " "@, e.tag@],
        )
    }
}

/// The lines of the selected repository's tags (see `tag_detail_lines_spec`).
pub fn selected_repo_tag_detail_lines(state: &SelectedRepoTagDetailState) -> (r: Vec<Vec<String>>)
    ensures
        lines_view(r@) == tag_detail_lines_spec(*state),
{
    let mut out: Vec<Vec<String>> = Vec::new();
    let mut first: Vec<String> = Vec::new();
    first.push(state.repo_name.clone());
    out.push(first);
    let mut second: Vec<String> = Vec::new();
    second.push(crate::strings::cat2("tag数: ", crate::strings::usize_to_string(state.tag_count).as_str()));
    out.push(second);
    let ghost head = seq![seq![state.repo_name@], seq!["tag数: "@ + crate::strings::decimal(state.tag_count as nat)]];
    assert(lines_view(out@) =~= head) by {
        assert(out@[0].deep_view() =~= seq![state.repo_name@]);
        assert(out@[1].deep_view() =~= seq!["tag数: "@ + crate::strings::decimal(state.tag_count as nat)]);
    }
    if state.entries.len() == 0 {
        let mut none: Vec<String> = Vec::new();
        none.push("(tagなし)".to_owned());
        out.push(none);
        assert(lines_view(out@) =~= head + seq![seq!["(tagなし)"@]]) by {
            assert(out@[2].deep_view() =~= seq!["(tagなし)"@]);
        }
        return out;
    }
    let ghost want = state.entries@.map_values(
        |e: SelectedRepoTagDetailEntry| seq![pad_right(e.key_hint@, 11), " "@, e.tag@],
    );
    let mut i: usize = 0;
    while i < state.entries.len()
        invariant
            i <= state.entries.len(),
            want == state.entries@.map_values(
                |e: SelectedRepoTagDetailEntry| seq![pad_right(e.key_hint@, 11), " "@, e.tag@],
            ),
            lines_view(out@) == head + want.take(i as int),
        decreases state.entries.len() - i,
    {
        let ghost before = lines_view(out@);
        let e = &state.entries[i];
        let mut line: Vec<String> = Vec::new();
        line.push(pad_right_string(e.key_hint.as_str(), 11));
        line.push(" ".to_owned());
        line.push(e.tag.clone());
        assert(line.deep_view() =~= want[i as int]);
        out.push(line);
        assert(lines_view(out@) =~= before.push(want[i as int]));
        assert(want.take(i + 1) =~= want.take(i as int).push(want[i as int]));
        i = i + 1;
    }
    assert(want.take(i as int) =~= want);
    out
}

/// The height the tag section wants: that of the selected repository's tag
/// lines, or of a message when none is selected.
pub fn selected_repo_tag_detail_desired_height(area_width: u16, state: Option<&SelectedRepoTagDetailState>) -> (r: u16)
    ensures
        r == tag_detail_height_spec(area_width as int, state),
{
    match state {
        Some(s) => {
            let lines = selected_repo_tag_detail_lines(s);
            paragraph_height_for_lines(area_width, &lines)
        },
        None => paragraph_height_for_message(area_width, "条件に一致するrepoがありません。"),
    }
}

/// The height the group summary wants (see `group_summary_desired_height`).
pub open spec fn group_summary_height_spec(area_width: int, entries: int, filtered: bool) -> int {
    if entries == 0 {
        paragraph_height_spec(area_width, seq![seq![group_summary_message(filtered)]])
    } else {
        list_height_spec(entries)
    }
}

/// The height the tag catalog wants (see `tag_catalog_desired_height`).
pub open spec fn tag_catalog_height_spec(area_width: int, state: TagCatalogState) -> int {
    if state.entries@.len() == 0 {
        paragraph_height_spec(area_width, seq![seq![tag_catalog_message(state.total_tags as int)]])
    } else {
        list_height_spec(state.entries@.len() as int)
    }
}

/// The height the tag section wants.
pub open spec fn tag_detail_height_spec(area_width: int, state: Option<&SelectedRepoTagDetailState>) -> int {
    match state {
        Some(s) => paragraph_height_spec(area_width, tag_detail_lines_spec(*s)),
        None => paragraph_height_spec(area_width, seq![seq!["条件に一致するrepoがありません。"@]]),
    }
}

/// The height the description section wants.
pub open spec fn desc_height_spec(area_width: int, state: Option<&SelectedRepoDescState>) -> int {
    match state {
        Some(s) => paragraph_height_spec(area_width, desc_lines_spec(*s)),
        None => paragraph_height_spec(area_width, seq![seq!["条件に一致するrepoがありません。"@]]),
    }
}

/// Where the right pane's sections go.
#[derive(Debug, Clone, Copy, PartialEq, Eq)]
pub struct RightPaneLayout {
    pub group_summary: Area,
    pub tag_catalog: Area,
    pub tag_detail: Area,
    pub desc: Option<Area>,
}

/// The rows the sections get (see `packed_heights_spec`), as `u16`.
pub open spec fn packed_u16(total: int, desired: Seq<u16>) -> Seq<u16> {
    packed_heights_spec(total, desired).map_values(|h: int| h as u16)
}

/// The layout of the right pane: the group summary, the tag catalog, the
/// selected repository's tags and, when shown, its descriptions, stacked
/// from the top, each as tall as it wants while rows remain, the last one
/// taking the rest.
pub open spec fn right_pane_spec(area: Area, desired: Seq<u16>, show_desc: bool) -> RightPaneLayout {
    let rects = stacked_spec(area, 0, packed_u16(area.height as int, desired));
    RightPaneLayout {
        group_summary: rects[0],
        tag_catalog: rects[1],
        tag_detail: rects[2],
        desc: if show_desc {
            Some(rects[3])
        } else {
            None
        },
    }
}

/// Lays out the right pane (see `right_pane_spec`) for the given contents.
pub fn layout_right_pane(
    area: Area,
    group_summary: &[GroupSummaryEntry],
    group_summary_filtered: bool,
    tag_catalog: &TagCatalogState,
    tag_detail: Option<&SelectedRepoTagDetailState>,
    desc: Option<&SelectedRepoDescState>,
    show_desc: bool,
) -> (r: RightPaneLayout)
    ensures
        ({
            let base = seq![
                group_summary_height_spec(area.width as int, group_summary@.len() as int, group_summary_filtered) as u16,
                tag_catalog_height_spec(area.width as int, *tag_catalog) as u16,
                tag_detail_height_spec(area.width as int, tag_detail) as u16,
            ];
            let desired = if show_desc {
                base.push(desc_height_spec(area.width as int, desc) as u16)
            } else {
                base
            };
            r == right_pane_spec(area, desired, show_desc)
        }),
{
    let mut desired: Vec<u16> = Vec::new();
    desired.push(group_summary_desired_height(area.width, group_summary, group_summary_filtered));
    desired.push(tag_catalog_desired_height(area.width, tag_catalog));
    desired.push(selected_repo_tag_detail_desired_height(area.width, tag_detail));
    if show_desc {
        desired.push(selected_repo_desc_desired_height(area.width, desc));
    }
    proof {
        let base = seq![
            group_summary_height_spec(area.width as int, group_summary@.len() as int, group_summary_filtered) as u16,
            tag_catalog_height_spec(area.width as int, *tag_catalog) as u16,
            tag_detail_height_spec(area.width as int, tag_detail) as u16,
        ];
        if show_desc {
            assert(desired@ =~= base.push(desc_height_spec(area.width as int, desc) as u16));
        } else {
            assert(desired@ =~= base);
        }
    }
    let heights = packed_heights(area.height, desired.as_slice());
    proof {
        lemma_packed_heights_fill(area.height as int, desired@);
        assert(heights@ =~= packed_u16(area.height as int, desired@)) by {
            assert forall|k: int| 0 <= k < heights@.len() implies heights@[k] == packed_u16(
                area.height as int,
                desired@,
            )[k] by {
                assert(heights_view(heights@)[k] == heights@[k] as int);
            }
        }
    }
    let rects = stacked_rects(area, heights.as_slice());
    proof {
        lemma_stacked_len(area, 0, heights@);
    }
    RightPaneLayout {
        group_summary: rects[0],
        tag_catalog: rects[1],
        tag_detail: rects[2],
        desc: if show_desc {
            Some(rects[3])
        } else {
            None
        },
    }
}

/// There are as many rectangles as heights.
proof fn lemma_stacked_len(area: Area, offset: int, heights: Seq<u16>)
    ensures
        stacked_spec(area, offset, heights).len() == heights.len(),
    decreases heights.len(),
{
    if heights.len() > 0 {
        let h = min_int(heights[0] as int, sat_sub(area.height as int, offset));
        lemma_stacked_len(area, min_int(offset + h, 0xffff), heights.drop_first());
    }
}

} // verus!
