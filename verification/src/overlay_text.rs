//! The fixed text and the sizes of the overlays: the tag and group
//! managers, the titles of the mode overlays and the progress window.
use crate::curator::FilterModeFocus;
use crate::strings::{cat2, cat3, decimal, usize_to_string};
use vstd::prelude::*;

verus! {

/// Which registered names a manager overlay lists.
#[derive(Debug, Clone, Copy, PartialEq, Eq, Structural)]
pub enum ManagerKind {
    Tags,
    Groups,
}

/// The word for one listed name.
pub open spec fn manager_noun(kind: ManagerKind) -> Seq<char> {
    match kind {
        ManagerKind::Tags => "tag"@,
        ManagerKind::Groups => "group"@,
    }
}

fn noun_str(kind: ManagerKind) -> (r: &'static str)
    ensures
        r@ == manager_noun(kind),
{
    match kind {
        ManagerKind::Tags => "tag",
        ManagerKind::Groups => "group",
    }
}

/// The manager overlay's title.
pub open spec fn manager_title_spec(kind: ManagerKind) -> Seq<char> {
    match kind {
        ManagerKind::Tags => " Tag Manager "@,
        ManagerKind::Groups => " Group Manager "@,
    }
}

/// The manager overlay's title (see `manager_title_spec`).
pub fn manager_title(kind: ManagerKind) -> (r: String)
    ensures
        r@ == manager_title_spec(kind),
{
    match kind {
        ManagerKind::Tags => " Tag Manager ".to_owned(),
        ManagerKind::Groups => " Group Manager ".to_owned(),
    }
}

/// The three key lines at the top of a manager overlay.
pub open spec fn manager_header_spec(kind: ManagerKind) -> Seq<Seq<char>> {
    seq![
        "j/k: move    n: new "@ + manager_noun(kind),
        "Enter: new when empty    r: rename global"@,
        "Esc: close"@,
    ]
}

/// The key lines of a manager overlay (see `manager_header_spec`).
pub fn manager_header_lines(kind: ManagerKind) -> (r: Vec<String>)
    ensures
        r.deep_view() == manager_header_spec(kind),
{
    let mut r: Vec<String> = Vec::new();
    r.push(cat2("j/k: move    n: new ", noun_str(kind)));
    r.push("Enter: new when empty    r: rename global".to_owned());
    r.push("Esc: close".to_owned());
    assert(r.deep_view() =~= manager_header_spec(kind));
    r
}

/// What a manager overlay lists when nothing is registered.
pub open spec fn manager_empty_spec(kind: ManagerKind) -> Seq<char> {
    manager_noun(kind) + " がありません。n で新規作成してください。"@
}

/// What a manager overlay lists when nothing is registered.
pub fn manager_empty_message(kind: ManagerKind) -> (r: String)
    ensures
        r@ == manager_empty_spec(kind),
{
    cat2(noun_str(kind), " がありません。n で新規作成してください。")
}

/// The count below a manager overlay's list, as `"2 tags"`.
pub open spec fn manager_footer_spec(kind: ManagerKind, count: nat) -> Seq<char> {
    decimal(count) + " "@ + manager_noun(kind) + "s"@
}

/// The count below a manager overlay's list (see `manager_footer_spec`).
pub fn manager_footer(kind: ManagerKind, count: usize) -> (r: String)
    ensures
        r@ == manager_footer_spec(kind, count as nat),
{
    let mut s = cat3(usize_to_string(count).as_str(), " ", noun_str(kind));
    crate::strings::append_str(&mut s, "s");
    s
}

/// The height of a manager overlay: nine rows more than its entries, at
/// least 12 and at most 26.
pub open spec fn manager_popup_height_spec(count: int) -> int {
    if count + 9 < 12 {
        12
    } else if count + 9 > 26 {
        26
    } else {
        count + 9
    }
}

/// The height of a manager overlay (see `manager_popup_height_spec`).
pub fn manager_popup_height(count: usize) -> (r: u16)
    ensures
        r == manager_popup_height_spec(count as int),
{
    if count < 3 {
        12
    } else if count > 17 {
        26
    } else {
        (count + 9) as u16
    }
}

/// The title of filter mode's overlay, naming the focus.
pub open spec fn filter_mode_title_spec(focus: FilterModeFocus) -> Seq<char> {
    match focus {
        FilterModeFocus::Group => " Filter: group "@,
        FilterModeFocus::Tag => " Filter: tag "@,
    }
}

/// The title of filter mode's overlay (see `filter_mode_title_spec`).
pub fn filter_mode_title(focus: FilterModeFocus) -> (r: String)
    ensures
        r@ == filter_mode_title_spec(focus),
{
    match focus {
        FilterModeFocus::Group => " Filter: group ".to_owned(),
        FilterModeFocus::Tag => " Filter: tag ".to_owned(),
    }
}

/// The title of tag binding mode's overlay, naming the repository.
pub fn tag_binding_mode_title(repo_name: &str) -> (r: String)
    ensures
        r@ == " Tag Bind Mode: "@ + repo_name@ + " "@,
{
    cat3(" Tag Bind Mode: ", repo_name, " ")
}

/// The title of group binding mode's overlay, naming the repository.
pub fn group_binding_mode_title(repo_name: &str) -> (r: String)
    ensures
        r@ == " Group Bind Mode: "@ + repo_name@ + " "@,
{
    cat3(" Group Bind Mode: ", repo_name, " ")
}

/// The size of the progress window in an area of `width` by `height`: 64
/// columns and 7 rows, less where the area is smaller (four columns of it
/// left free), and never 0.
pub open spec fn sync_popup_size_spec(width: int, height: int) -> (int, int) {
    let room = if width - 4 < 1 {
        1
    } else {
        width - 4
    };
    (if room < 64 {
        room
    } else {
        64
    }, if height < 1 {
        1
    } else if height < 7 {
        height
    } else {
        7
    })
}

/// The size of the progress window (see `sync_popup_size_spec`).
pub fn sync_popup_size(width: u16, height: u16) -> (r: (u16, u16))
    ensures
        (r.0 as int, r.1 as int) == sync_popup_size_spec(width as int, height as int),
{
    let room: u16 = if width < 5 {
        1
    } else {
        width - 4
    };
    let w: u16 = if room < 64 {
        room
    } else {
        64
    };
    let h: u16 = if height < 1 {
        1
    } else if height < 7 {
        height
    } else {
        7
    };
    (w, h)
}

} // verus!
