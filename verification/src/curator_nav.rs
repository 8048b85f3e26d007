//! Moving around the main screen: the list selection, the pages of
//! registered tags and groups, the sort order and the display toggles.
use crate::curator::{log_push, synced, App};
use crate::listing::views_of;
use crate::modes::{cycle_spec, DescDisplayMode, SortMode};
use crate::strings::{append_str, decimal, str_eq, usize_to_string};
use crate::tags::{clamp_tag_page, page_count_spec, tag_page_count};
use vstd::prelude::*;

verus! {

/// The name of the repository at position `p` of `v`.
pub open spec fn name_at(v: Seq<usize>, repos: Seq<crate::model::Repo>, p: int) -> Seq<char> {
    repos[v[p] as int].name@
}

/// The first position in `v` whose repository in `repos` is named `name`,
/// if any.
pub open spec fn first_position_in(v: Seq<usize>, repos: Seq<crate::model::Repo>, name: Seq<char>) -> Option<int> {
    if exists|p: int| 0 <= p < v.len() && #[trigger] name_at(v, repos, p) == name {
        Some(
            choose|p: int|
                0 <= p < v.len() && #[trigger] name_at(v, repos, p) == name && forall|q: int|
                    0 <= q < p ==> #[trigger] name_at(v, repos, q) != name,
        )
    } else {
        None
    }
}

/// The first list position whose repository is named `name`, if any.
pub open spec fn first_position_named(a: App, name: Seq<char>) -> Option<int> {
    first_position_in(a.visible(), a.data.repos@, name)
}

/// The first position of a name carried at position `i` is at or before
/// `i`, and carries the name.
pub proof fn lemma_first_position_before(v: Seq<usize>, repos: Seq<crate::model::Repo>, name: Seq<char>, i: int)
    requires
        0 <= i < v.len(),
        repos[v[i] as int].name@ == name,
    ensures
        first_position_in(v, repos, name) matches Some(p) && 0 <= p <= i && repos[v[p] as int].name@ == name,
    decreases i,
{
    assert(name_at(v, repos, i) == name);
    if exists|q: int| 0 <= q < i && #[trigger] name_at(v, repos, q) == name {
        let q = choose|q: int| 0 <= q < i && #[trigger] name_at(v, repos, q) == name;
        lemma_first_position_before(v, repos, name, q);
        return;
    }
    assert(forall|q: int| 0 <= q < i ==> #[trigger] name_at(v, repos, q) != name);
    let p = choose|p: int|
        0 <= p < v.len() && #[trigger] name_at(v, repos, p) == name && forall|q: int|
            0 <= q < p ==> #[trigger] name_at(v, repos, q) != name;
    assert(first_position_in(v, repos, name) == Some(p));
    if p > i {
        assert(name_at(v, repos, i) != name);
    }
}

/// The state after `restore_selection(name)`: synced, then on the first
/// listed repository named `name` when there is one.
#[verifier::opaque]
pub open spec fn restored(a: App, name: Option<Seq<char>>) -> App {
    let s = synced(a);
    match name {
        Some(n) => match first_position_named(s, n) {
            Some(p) => App { selected: Some(p as usize), ..s },
            None => s,
        },
        None => s,
    }
}

/// Restoring the selection changes only the selection, the page of
/// registered tags and the tag manager's selection.
pub broadcast proof fn lemma_restored_frame(a: App, n: Option<Seq<char>>)
    ensures
        #[trigger] restored(a, n) == (App {
            selected: restored(a, n).selected,
            registered_tag_page: restored(a, n).registered_tag_page,
            tag_manager: restored(a, n).tag_manager,
            ..a
        }),
{
    reveal(restored);
}

/// The view of an optional name.
pub open spec fn opt_name(o: Option<String>) -> Option<Seq<char>> {
    match o {
        Some(s) => Some(s@),
        None => None,
    }
}

/// The name of the selected repository, if any.
pub open spec fn selected_name(a: App) -> Option<Seq<char>> {
    match a.selected_data_index() {
        Some(i) => Some(a.data.repos@[i as int].name@),
        None => None,
    }
}

/// The status line of a page move: `registered <what> page: <page>/<count>`.
pub open spec fn page_message(what: Seq<char>, page: int, count: int) -> Seq<char> {
    "registered "@ + what + " page: "@ + decimal(page as nat) + "/"@ + decimal(count as nat)
}

fn page_status(what: &str, page: usize, count: usize) -> (r: String)
    ensures
        r@ == page_message(what@, page as int, count as int),
{
    let mut s = "registered ".to_owned();
    append_str(&mut s, what);
    append_str(&mut s, " page: ");
    append_str(&mut s, usize_to_string(page).as_str());
    append_str(&mut s, "/");
    append_str(&mut s, usize_to_string(count).as_str());
    s
}

/// The effect of a page move over the registered tags (or groups) to the
/// next (or previous) page: nothing when there is no such page, else the
/// page changes and the status line tells the new page.
pub open spec fn page_moved(a: App, b: App, groups: bool, forward: bool) -> bool {
    let len = if groups {
        a.data.registered_groups@.len()
    } else {
        a.data.registered_tags@.len()
    };
    let page = if groups {
        a.registered_group_page as int
    } else {
        a.registered_tag_page as int
    };
    let count = page_count_spec(len as int);
    let what = if groups {
        "group"@
    } else {
        "tag"@
    };
    if count <= 1 || (forward && page + 1 >= count) || (!forward && page == 0) {
        b == a
    } else {
        let np = if forward {
            page + 1
        } else {
            page - 1
        };
        &&& b.status_message@ == page_message(what, np + 1, count)
        &&& if groups {
            b == App { registered_group_page: np as usize, status_message: b.status_message, ..a }
        } else {
            b == App { registered_tag_page: np as usize, status_message: b.status_message, ..a }
        }
    }
}

/// The effect of `move_up`: nothing when the list is empty, else the
/// selection one up (the first when there is none).
pub open spec fn moved_up(a: App, b: App) -> bool {
    if a.visible().len() == 0 {
        b == a
    } else {
        b == App {
            selected: Some(
                match a.selected {
                    Some(i) => if i > 0 {
                        (i - 1) as usize
                    } else {
                        0usize
                    },
                    None => 0usize,
                },
            ),
            ..a
        }
    }
}

/// The effect of `move_down`: nothing when the list is empty, else the
/// selection one down, stopping at the last (the first when there is none).
pub open spec fn moved_down(a: App, b: App) -> bool {
    if a.visible().len() == 0 {
        b == a
    } else {
        b == App {
            selected: Some(
                match a.selected {
                    Some(i) => if (i as int) < a.visible().len() - 1 {
                        (i + 1) as usize
                    } else {
                        (a.visible().len() - 1) as usize
                    },
                    None => 0usize,
                },
            ),
            ..a
        }
    }
}

/// How many rows a page move skips in the repository list.
pub const LIST_PAGE_STEP: usize = 10;

/// The effect of `move_page_up`: nothing when the list is empty, else the
/// selection ten up, stopping at the first (the first when there is none).
pub open spec fn moved_page_up(a: App, b: App) -> bool {
    if a.visible().len() == 0 {
        b == a
    } else {
        b == App {
            selected: Some(
                match a.selected {
                    Some(i) => if i >= 10 {
                        (i - 10) as usize
                    } else {
                        0usize
                    },
                    None => 0usize,
                },
            ),
            ..a
        }
    }
}

/// The effect of `move_page_down`: nothing when the list is empty, else the
/// selection ten down, stopping at the last (the first when there is none).
pub open spec fn moved_page_down(a: App, b: App) -> bool {
    if a.visible().len() == 0 {
        b == a
    } else {
        b == App {
            selected: Some(
                match a.selected {
                    Some(i) => if (i as int) + 10 < a.visible().len() - 1 {
                        (i + 10) as usize
                    } else {
                        (a.visible().len() - 1) as usize
                    },
                    None => 0usize,
                },
            ),
            ..a
        }
    }
}

/// The effect of `toggle_sort_mode`: the other order, the selection kept
/// on the same repository, and the status line naming the new order.
pub open spec fn sort_toggled(a: App, b: App) -> bool {
    let toggled = App {
        sort_mode: match a.sort_mode {
            SortMode::Created => SortMode::Modified,
            SortMode::Modified => SortMode::Created,
        },
        ..a
    };
    let r = restored(toggled, selected_name(a));
    &&& b.status_message@ == "sort: "@ + match toggled.sort_mode {
        SortMode::Created => "create"@,
        SortMode::Modified => "modify"@,
    }
    &&& b == (App { status_message: b.status_message, ..r })
}

/// The effect of `toggle_debug_log_pane`: the pane expanded or collapsed,
/// with a status line and a log entry saying which.
pub open spec fn debug_pane_toggled(a: App, b: App) -> bool {
    &&& b.debug_log_expanded == !a.debug_log_expanded
    &&& b.status_message@ == if b.debug_log_expanded {
        "debug log: 画面下部50%"@
    } else {
        "debug log: 1行"@
    }
    &&& b.debug_log.view_log() == log_push(
        a.debug_log.view_log(),
        if b.debug_log_expanded {
            "debug log pane expanded: bottom 50%"@
        } else {
            "debug log pane collapsed: single line"@
        },
    )
    &&& b == (App {
        debug_log_expanded: b.debug_log_expanded,
        status_message: b.status_message,
        debug_log: b.debug_log,
        ..a
    })
}

/// The effect of `cycle_desc_display_mode`: the next mode, with a status
/// line and a log entry naming it.
pub open spec fn desc_mode_cycled(a: App, b: App) -> bool {
    &&& b.desc_display_mode == cycle_spec(a.desc_display_mode)
    &&& b.status_message@ == match b.desc_display_mode {
        DescDisplayMode::RightPane => "desc表示: 右下paneに1行/3行説明"@,
        DescDisplayMode::LeftShort => "desc表示: 左paneに1行説明"@,
        DescDisplayMode::LeftShortAndLong => "desc表示: 左paneに1行説明+3行説明"@,
    }
    &&& b.debug_log.view_log() == log_push(
        a.debug_log.view_log(),
        match b.desc_display_mode {
            DescDisplayMode::RightPane => "description display mode: right pane detail mode"@,
            DescDisplayMode::LeftShort => "description display mode: left pane short description"@,
            DescDisplayMode::LeftShortAndLong => "description display mode: left pane short and long descriptions"@,
        },
    )
    &&& b == (App {
        desc_display_mode: b.desc_display_mode,
        status_message: b.status_message,
        debug_log: b.debug_log,
        ..a
    })
}

impl App {
    /// Puts the list selection back on the repository named `repo_name`
    /// after the list may have changed (see `restored`).
    pub fn restore_selection(&mut self, repo_name: Option<&str>)
        ensures
            *final(self) == restored(
                *old(self),
                match repo_name {
                    Some(n) => Some(n@),
                    None => None,
                },
            ),
    {
        reveal(restored);
        self.sync_selection();
        let name = match repo_name {
            Some(n) => n,
            None => return,
        };
        let v = self.visible_repo_indices();
        let ghost s = *self;
        let mut p: usize = 0;
        while p < v.len()
            invariant
                p <= v.len(),
                *self == s,
                s == synced(*old(self)),
                repo_name == Some(name),
                v@ == s.visible(),
                crate::listing::visible_indices_spec(
                    views_of(self.data.repos@),
                    self.effective_tag_filter(),
                    self.effective_group(),
                    self.sort_mode,
                    v@,
                ),
                forall|q: int| 0 <= q < p ==> s.data.repos@[v@[q] as int].name@ != name@,
            decreases v.len() - p,
        {
            assert(v@[p as int] < self.data.repos.len());
            if str_eq(self.data.repos[v[p]].name.as_str(), name) {
                assert(s.data.repos@[v@[p as int] as int].name@ == name@);
                assert(v@ == s.visible());
                proof {
                    lemma_first_position_before(v@, s.data.repos@, name@, p as int);
                    let c = first_position_in(v@, s.data.repos@, name@)->0;
                    if c < p {
                        assert(s.data.repos@[v@[c] as int].name@ != name@);
                    }
                    assert(c == p);
                    assert(first_position_named(s, name@) == Some(p as int));
                    reveal(restored);
                }
                self.selected = Some(p);
                return;
            }
            p = p + 1;
        }
    }

    /// Moves the selection one repository up (to the first when there is
    /// none); nothing when the list is empty.
    pub fn move_up(&mut self)
        ensures
            moved_up(*old(self), *final(self)),
    {
        let len = self.visible_repo_count();
        if len == 0 {
            return;
        }
        let i = match self.selected {
            Some(i) => i.saturating_sub(1),
            None => 0,
        };
        self.selected = Some(i);
    }

    /// Moves the selection one repository down, stopping at the last (to the
    /// first when there is none); nothing when the list is empty.
    pub fn move_down(&mut self)
        ensures
            moved_down(*old(self), *final(self)),
    {
        let len = self.visible_repo_count();
        if len == 0 {
            return;
        }
        let i = match self.selected {
            Some(i) => {
                let up = i.saturating_add(1);
                if up < len - 1 {
                    up
                } else {
                    len - 1
                }
            },
            None => 0,
        };
        self.selected = Some(i);
    }

    /// Moves the selection a page up (see `moved_page_up`).
    pub fn move_page_up(&mut self)
        ensures
            moved_page_up(*old(self), *final(self)),
    {
        let len = self.visible_repo_count();
        if len == 0 {
            return;
        }
        let i = match self.selected {
            Some(i) => i.saturating_sub(LIST_PAGE_STEP),
            None => 0,
        };
        self.selected = Some(i);
    }

    /// Moves the selection a page down (see `moved_page_down`).
    pub fn move_page_down(&mut self)
        ensures
            moved_page_down(*old(self), *final(self)),
    {
        let len = self.visible_repo_count();
        if len == 0 {
            return;
        }
        let i = match self.selected {
            Some(i) => {
                let down = i.saturating_add(LIST_PAGE_STEP);
                if down < len - 1 {
                    down
                } else {
                    len - 1
                }
            },
            None => 0,
        };
        self.selected = Some(i);
    }

    /// The position of the selection in the list, if any.
    pub fn selected_index(&self) -> (r: Option<usize>)
        ensures
            r == self.selected,
    {
        self.selected
    }

    /// Shows the previous page of registered tags, if there is one.
    pub fn prev_registered_tag_page(&mut self)
        ensures
            page_moved(*old(self), *final(self), false, false),
    {
        let count = tag_page_count(self.data.registered_tags.len());
        if count <= 1 || self.registered_tag_page == 0 {
            return;
        }
        self.registered_tag_page = self.registered_tag_page - 1;
        self.status_message = page_status("tag", self.registered_tag_page + 1, count);
    }

    /// Shows the next page of registered tags, if there is one.
    pub fn next_registered_tag_page(&mut self)
        ensures
            page_moved(*old(self), *final(self), false, true),
    {
        let count = tag_page_count(self.data.registered_tags.len());
        if count <= 1 || self.registered_tag_page >= count - 1 {
            return;
        }
        self.registered_tag_page = self.registered_tag_page + 1;
        self.status_message = page_status("tag", self.registered_tag_page + 1, count);
    }

    /// Shows the previous page of registered groups, if there is one.
    pub fn prev_registered_group_page(&mut self)
        ensures
            page_moved(*old(self), *final(self), true, false),
    {
        let count = tag_page_count(self.data.registered_groups.len());
        if count <= 1 || self.registered_group_page == 0 {
            return;
        }
        self.registered_group_page = self.registered_group_page - 1;
        self.status_message = page_status("group", self.registered_group_page + 1, count);
    }

    /// Shows the next page of registered groups, if there is one.
    pub fn next_registered_group_page(&mut self)
        ensures
            page_moved(*old(self), *final(self), true, true),
    {
        let count = tag_page_count(self.data.registered_groups.len());
        if count <= 1 || self.registered_group_page >= count - 1 {
            return;
        }
        self.registered_group_page = self.registered_group_page + 1;
        self.status_message = page_status("group", self.registered_group_page + 1, count);
    }

    /// Switches between newest-created and most-recently-updated order,
    /// keeping the selected repository selected.
    pub fn toggle_sort_mode(&mut self)
        ensures
            sort_toggled(*old(self), *final(self)),
    {
        let name = self.selected_repo_name();
        let ghost before = *self;
        self.sort_mode = self.sort_mode.toggle();
        let ghost toggled = *self;
        assert(toggled == (App {
            sort_mode: match before.sort_mode {
                SortMode::Created => SortMode::Modified,
                SortMode::Modified => SortMode::Created,
            },
            ..before
        }));
        match &name {
            Some(n) => {
                assert(Some(n@) == selected_name(before));
                self.restore_selection(Some(n.as_str()));
            },
            None => self.restore_selection(None),
        }
        assert(*self == restored(toggled, selected_name(before)));
        proof {
            lemma_restored_frame(toggled, selected_name(before));
        }
        let mut s = "sort: ".to_owned();
        append_str(&mut s, self.sort_mode.label());
        self.status_message = s;
    }

    /// Expands or collapses the debug log pane.
    pub fn toggle_debug_log_pane(&mut self)
        ensures
            debug_pane_toggled(*old(self), *final(self)),
    {
        self.debug_log_expanded = !self.debug_log_expanded;
        if self.debug_log_expanded {
            self.status_message = "debug log: 画面下部50%".to_owned();
            self.push_debug_log("debug log pane expanded: bottom 50%");
        } else {
            self.status_message = "debug log: 1行".to_owned();
            self.push_debug_log("debug log pane collapsed: single line");
        }
    }

    /// Moves to the next description display mode.
    pub fn cycle_desc_display_mode(&mut self)
        ensures
            desc_mode_cycled(*old(self), *final(self)),
    {
        self.desc_display_mode = self.desc_display_mode.cycle();
        self.status_message = self.desc_display_mode.status_message().to_owned();
        let msg = self.desc_display_mode.debug_log_message();
        self.push_debug_log(msg);
    }
}

} // verus!
