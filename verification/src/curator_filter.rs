//! Filter mode: choosing the group and the tags that the repository list is
//! narrowed to.
use crate::curator::{log_push, App, Effect, FilterMode, FilterModeFocus, HelpScreen};
use crate::curator_groups::{current_group_shortcut, no_groups_message};
use crate::curator_nav::{opt_name, restored, selected_name};
use crate::curator_tags::{current_tag_shortcut, no_tags_message, only_logged, page_number};
use crate::keys::{
    debug_char, debug_str, describe_key_code, describe_key_spec, char_debug, is_ascii_alpha, is_ascii_letter,
    is_ascii_upper, is_ascii_uppercase, str_debug, Key, KeyCode,
};
use crate::model::list_contains;
use crate::strings::{
    append_str, cat2, cat4, decimal, insert_sorted_unique, join_strings, join_with, remove_sorted, strictly_sorted,
    usize_to_string,
};
use vstd::prelude::*;

verus! {

broadcast use crate::curator_nav::lemma_restored_frame;

/// The status line while filter mode acts on `focus`.
pub open spec fn focus_message(focus: FilterModeFocus) -> Seq<char> {
    match focus {
        FilterModeFocus::Group => "group絞り込みモード: a-z 選択 / A-Z 解除 / Ctrl+Tでtag / Enter確定 / Esc取消"@,
        FilterModeFocus::Tag => "tag絞り込みモード: a-z ON / A-Z OFF / Ctrl+Gでgroup / Enter確定 / Esc取消"@,
    }
}

/// The status line while filter mode acts on `focus`.
pub fn filter_focus_status_message(focus: FilterModeFocus) -> (r: String)
    ensures
        r@ == focus_message(focus),
{
    match focus {
        FilterModeFocus::Group => "group絞り込みモード: a-z 選択 / A-Z 解除 / Ctrl+Tでtag / Enter確定 / Esc取消".to_owned(),
        FilterModeFocus::Tag => "tag絞り込みモード: a-z ON / A-Z OFF / Ctrl+Gでgroup / Enter確定 / Esc取消".to_owned(),
    }
}

/// The status line after filter mode is confirmed.
pub open spec fn filter_status_spec(changed: bool, group: Option<Seq<char>>, tags: Seq<Seq<char>>) -> Seq<char> {
    if !changed {
        "絞り込み変更なし"@
    } else if group is None && tags.len() == 0 {
        "絞り込み解除"@
    } else {
        let group_part = match group {
            Some(g) => seq!["group="@ + g],
            None => Seq::<Seq<char>>::empty(),
        };
        let parts = if tags.len() > 0 {
            group_part.push("tags="@ + join_with(tags, ", "@))
        } else {
            group_part
        };
        "絞り込み更新: "@ + join_with(parts, " / "@)
    }
}

/// The view of an optional string slice.
pub open spec fn opt_str(o: Option<&str>) -> Option<Seq<char>> {
    match o {
        Some(s) => Some(s@),
        None => None,
    }
}

/// The status line after filter mode is confirmed: unchanged, cleared, or
/// the group and tags now in force.
pub fn filter_status_message(changed: bool, group_filter: Option<&str>, tag_filter: &Vec<String>) -> (r: String)
    ensures
        r@ == filter_status_spec(changed, opt_str(group_filter), tag_filter.deep_view()),
{
    if !changed {
        return "絞り込み変更なし".to_owned();
    }
    if group_filter.is_none() && tag_filter.len() == 0 {
        return "絞り込み解除".to_owned();
    }
    let mut parts: Vec<String> = Vec::new();
    if let Some(g) = group_filter {
        parts.push(cat2("group=", g));
    }
    if tag_filter.len() > 0 {
        let ghost before = parts.deep_view();
        let joined = join_strings(tag_filter, ", ");
        parts.push(cat2("tags=", joined.as_str()));
        assert(parts.deep_view() =~= before.push("tags="@ + join_with(tag_filter.deep_view(), ", "@)));
    }
    let ghost group_part = match opt_str(group_filter) {
        Some(g) => seq!["group="@ + g],
        None => Seq::<Seq<char>>::empty(),
    };
    assert(tag_filter.len() == 0 ==> parts.deep_view() =~= group_part);
    assert(tag_filter.len() > 0 ==> parts.deep_view() =~= group_part.push(
        "tags="@ + join_with(tag_filter.deep_view(), ", "@),
    ));
    cat2("絞り込み更新: ", join_strings(&parts, " / ").as_str())
}

/// How `Debug` writes an optional string.
pub open spec fn opt_debug(o: Option<Seq<char>>) -> Seq<char> {
    match o {
        Some(s) => "Some("@ + str_debug(s) + ")"@,
        None => "None"@,
    }
}

fn opt_debug_string(o: &Option<String>) -> (r: String)
    ensures
        r@ == opt_debug(opt_name(*o)),
{
    match o {
        Some(s) => crate::strings::cat3("Some(", debug_str(s.as_str()).as_str(), ")"),
        None => "None".to_owned(),
    }
}

/// How `Debug` writes a focus.
pub open spec fn focus_debug(f: FilterModeFocus) -> Seq<char> {
    match f {
        FilterModeFocus::Group => "Group"@,
        FilterModeFocus::Tag => "Tag"@,
    }
}

fn focus_debug_str(f: FilterModeFocus) -> (r: &'static str)
    ensures
        r@ == focus_debug(f),
{
    match f {
        FilterModeFocus::Group => "Group",
        FilterModeFocus::Tag => "Tag",
    }
}

/// The effect of `begin_filter_mode`.
pub open spec fn filter_begun(a: App, b: App) -> bool {
    &&& b.filter_mode matches Some(m) && m.focus == FilterModeFocus::Group && opt_name(m.original_group) == opt_name(
        a.group_filter,
    ) && opt_name(m.pending_group) == opt_name(a.group_filter) && m.original_tags.deep_view()
        == a.tag_filter.deep_view() && m.pending_tags.deep_view() == a.tag_filter.deep_view() && opt_name(
        m.selected_repo_name,
    ) == selected_name(a)
    &&& b.status_message@ == focus_message(FilterModeFocus::Group)
    &&& b.debug_log.view_log() == log_push(
        a.debug_log.view_log(),
        "filter_mode opened: group="@ + opt_debug(opt_name(a.group_filter)) + " tags="@ + decimal(
            a.tag_filter@.len(),
        ),
    )
    &&& b == App {
        help_screen: None,
        filter_mode: b.filter_mode,
        status_message: b.status_message,
        debug_log: b.debug_log,
        ..a
    }
}

/// The effect of `switch_filter_focus(focus)`.
pub open spec fn focus_switched(a: App, b: App, focus: FilterModeFocus) -> bool {
    match a.filter_mode {
        None => only_logged(a, b, "switch_filter_focus ignored: mode inactive"@),
        Some(m) => {
            &&& b.filter_mode matches Some(n) && n.focus == focus && n.original_group == m.original_group
                && n.pending_group == m.pending_group && n.original_tags == m.original_tags && n.pending_tags
                == m.pending_tags && n.selected_repo_name == m.selected_repo_name
            &&& b.status_message@ == focus_message(focus)
            &&& if m.focus != focus {
                b.debug_log.view_log() == log_push(
                    a.debug_log.view_log(),
                    "filter_mode focus switched: "@ + focus_debug(focus),
                )
            } else {
                b.debug_log == a.debug_log
            }
            &&& b == App { filter_mode: b.filter_mode, status_message: b.status_message, debug_log: b.debug_log, ..a }
        },
    }
}

/// The effect of `cancel_filter_mode`: the filters in force before are
/// kept and the selection goes back to the repository selected then.
pub open spec fn filter_cancelled(a: App, b: App) -> bool {
    match a.filter_mode {
        None => only_logged(a, b, "cancel_filter_mode skipped: mode inactive"@),
        Some(m) => {
            let r = restored(App { filter_mode: None, ..a }, opt_name(m.selected_repo_name));
            &&& b.status_message@ == "絞り込みをキャンセル"@
            &&& b.debug_log.view_log() == log_push(a.debug_log.view_log(), "filter_mode cancelled"@)
            &&& b == App { status_message: b.status_message, debug_log: b.debug_log, ..r }
        },
    }
}

/// The effect of `confirm_filter_mode`: the chosen filters are applied.
pub open spec fn filter_confirmed(a: App, b: App) -> bool {
    match a.filter_mode {
        None => only_logged(a, b, "confirm_filter_mode skipped: mode inactive"@),
        Some(m) => {
            let changed = opt_name(m.pending_group) != opt_name(m.original_group) || m.pending_tags.deep_view()
                != m.original_tags.deep_view();
            &&& opt_name(b.group_filter) == opt_name(m.pending_group)
            &&& b.tag_filter.deep_view() == m.pending_tags.deep_view()
            &&& b.status_message@ == filter_status_spec(changed, opt_name(m.pending_group), m.pending_tags.deep_view())
            &&& b.debug_log.view_log() == log_push(
                a.debug_log.view_log(),
                "filter_mode confirmed: group="@ + opt_debug(opt_name(m.pending_group)) + " tags="@ + decimal(
                    m.pending_tags@.len(),
                ),
            )
            &&& b == App {
                status_message: b.status_message,
                debug_log: b.debug_log,
                ..restored(
                    App { filter_mode: None, group_filter: b.group_filter, tag_filter: b.tag_filter, ..a },
                    selected_name(a),
                )
            }
        },
    }
}

/// The effect of `handle_tag_filter_shortcut(ch)`: a lowercase letter turns
/// the tag bound to it on in the pending tag filter, an uppercase one turns
/// it off; the selection stays on the same repository.
pub open spec fn tag_filter_shortcut_handled(a: App, b: App, ch: char) -> bool {
    match current_tag_shortcut(a, ch) {
        None => {
            &&& b.debug_log.view_log() == log_push(
                a.debug_log.view_log(),
                "tag_filter shortcut ignored: no binding for "@ + seq![ch],
            )
            &&& if a.data.registered_tags@.len() == 0 {
                b.status_message@ == no_tags_message() && b == App {
                    status_message: b.status_message,
                    debug_log: b.debug_log,
                    ..a
                }
            } else {
                b == App { debug_log: b.debug_log, ..a }
            }
        },
        Some(tag) => match a.filter_mode {
            None => only_logged(a, b, "handle_tag_filter_shortcut ignored: mode inactive"@),
            Some(m) => {
                let had = m.pending_tags.deep_view().contains(tag);
                &&& b.filter_mode matches Some(n) && n.focus == m.focus && n.original_group == m.original_group
                    && n.pending_group == m.pending_group && n.original_tags == m.original_tags
                    && n.selected_repo_name == m.selected_repo_name && strictly_sorted(n.pending_tags.deep_view())
                    && if is_ascii_upper(ch) {
                    n.pending_tags.deep_view().to_set() == m.pending_tags.deep_view().to_set().remove(tag)
                } else {
                    n.pending_tags.deep_view().to_set() == m.pending_tags.deep_view().to_set().insert(tag)
                }
                &&& b.status_message@ == if is_ascii_upper(ch) {
                    if had {
                        "tag絞り込み候補 OFF: "@ + tag
                    } else {
                        "tag絞り込み候補 OFF済み: "@ + tag
                    }
                } else {
                    if had {
                        "tag絞り込み候補 ON済み: "@ + tag
                    } else {
                        "tag絞り込み候補 ON: "@ + tag
                    }
                }
                &&& b == App {
                    status_message: b.status_message,
                    ..restored(App { filter_mode: b.filter_mode, ..a }, selected_name(a))
                }
            },
        },
    }
}

/// The effect of `handle_group_filter_shortcut(ch)`: an uppercase letter
/// clears the pending group, a lowercase one picks the group bound to it;
/// the selection stays on the same repository.
pub open spec fn group_filter_shortcut_handled(a: App, b: App, ch: char) -> bool {
    if is_ascii_upper(ch) {
        match a.filter_mode {
            None => only_logged(a, b, "handle_group_filter_shortcut ignored: mode inactive"@),
            Some(m) => {
                &&& b.filter_mode matches Some(n) && n.pending_group is None && n.focus == m.focus
                    && n.original_group == m.original_group && n.original_tags == m.original_tags
                    && n.pending_tags == m.pending_tags && n.selected_repo_name == m.selected_repo_name
                &&& b.status_message@ == if m.pending_group is Some {
                    "group絞り込み候補 解除"@
                } else {
                    "group絞り込み候補 解除済み"@
                }
                &&& b == App {
                    status_message: b.status_message,
                    ..restored(App { filter_mode: b.filter_mode, ..a }, selected_name(a))
                }
            },
        }
    } else {
        match current_group_shortcut(a, ch) {
            None => {
                &&& b.debug_log.view_log() == log_push(
                    a.debug_log.view_log(),
                    "group_filter shortcut ignored: no binding for "@ + seq![ch],
                )
                &&& if a.data.registered_groups@.len() == 0 {
                    b.status_message@ == no_groups_message() && b == App {
                        status_message: b.status_message,
                        debug_log: b.debug_log,
                        ..a
                    }
                } else {
                    b == App { debug_log: b.debug_log, ..a }
                }
            },
            Some(group) => match a.filter_mode {
                None => only_logged(a, b, "handle_group_filter_shortcut ignored: mode inactive"@),
                Some(m) => {
                    &&& b.filter_mode matches Some(n) && opt_name(n.pending_group) == Some(group) && n.focus
                        == m.focus && n.original_group == m.original_group && n.original_tags == m.original_tags
                        && n.pending_tags == m.pending_tags && n.selected_repo_name == m.selected_repo_name
                    &&& b.status_message@ == "group絞り込み候補: "@ + group
                    &&& b == App {
                        status_message: b.status_message,
                        ..restored(App { filter_mode: b.filter_mode, ..a }, selected_name(a))
                    }
                },
            },
        }
    }
}

impl App {
    /// Opens filter mode on the filters in force (see `filter_begun`).
    pub fn begin_filter_mode(&mut self)
        requires
            old(self).wf(),
        ensures
            filter_begun(*old(self), *final(self)),
            final(self).wf(),
    {
        let name = self.selected_repo_name();
        let pending_tags = crate::model::clone_strings(&self.tag_filter);
        let original_tags = crate::model::clone_strings(&self.tag_filter);
        let log = cat4(
            "filter_mode opened: group=",
            opt_debug_string(&self.group_filter).as_str(),
            " tags=",
            usize_to_string(self.tag_filter.len()).as_str(),
        );
        let original_group = match &self.group_filter {
            Some(g) => Some(g.clone()),
            None => None,
        };
        let pending_group = match &self.group_filter {
            Some(g) => Some(g.clone()),
            None => None,
        };
        self.help_screen = None;
        self.filter_mode = Some(FilterMode {
            focus: FilterModeFocus::Group,
            original_group,
            pending_group,
            original_tags,
            pending_tags,
            selected_repo_name: name,
        });
        self.status_message = filter_focus_status_message(FilterModeFocus::Group);
        self.push_debug_log(log.as_str());
    }

    /// Sets which filter the letters act on (see `focus_switched`).
    pub fn switch_filter_focus(&mut self, focus: FilterModeFocus)
        ensures
            focus_switched(*old(self), *final(self), focus),
    {
        let mode = match self.filter_mode.take() {
            Some(m) => m,
            None => {
                self.push_debug_log("switch_filter_focus ignored: mode inactive");
                return;
            },
        };
        let changed = mode.focus != focus;
        self.filter_mode = Some(FilterMode {
            focus,
            original_group: mode.original_group,
            pending_group: mode.pending_group,
            original_tags: mode.original_tags,
            pending_tags: mode.pending_tags,
            selected_repo_name: mode.selected_repo_name,
        });
        self.status_message = filter_focus_status_message(focus);
        if changed {
            let log = cat2("filter_mode focus switched: ", focus_debug_str(focus));
            self.push_debug_log(log.as_str());
        }
    }

    /// Leaves filter mode without changing the filters (see
    /// `filter_cancelled`).
    pub fn cancel_filter_mode(&mut self)
        ensures
            filter_cancelled(*old(self), *final(self)),
    {
        let mode = match self.filter_mode.take() {
            Some(m) => m,
            None => {
                self.push_debug_log("cancel_filter_mode skipped: mode inactive");
                return;
            },
        };
        match &mode.selected_repo_name {
            Some(n) => self.restore_selection(Some(n.as_str())),
            None => self.restore_selection(None),
        }
        self.status_message = "絞り込みをキャンセル".to_owned();
        self.push_debug_log("filter_mode cancelled");
    }

    /// Applies the chosen filters (see `filter_confirmed`).
    pub fn confirm_filter_mode(&mut self)
        requires
            old(self).wf(),
        ensures
            filter_confirmed(*old(self), *final(self)),
            final(self).wf(),
    {
        let name = self.selected_repo_name();
        let mode = match self.filter_mode.take() {
            Some(m) => m,
            None => {
                self.push_debug_log("confirm_filter_mode skipped: mode inactive");
                return;
            },
        };
        let same_group = match (&mode.pending_group, &mode.original_group) {
            (Some(a), Some(b)) => crate::strings::str_eq(a.as_str(), b.as_str()),
            (None, None) => true,
            _ => false,
        };
        let changed = !same_group || !crate::curator_tags::same_lists(&mode.pending_tags, &mode.original_tags);
        let log = cat4(
            "filter_mode confirmed: group=",
            opt_debug_string(&mode.pending_group).as_str(),
            " tags=",
            usize_to_string(mode.pending_tags.len()).as_str(),
        );
        self.group_filter = mode.pending_group;
        self.tag_filter = mode.pending_tags;
        match &name {
            Some(n) => self.restore_selection(Some(n.as_str())),
            None => self.restore_selection(None),
        }
        let group_ref: Option<&str> = match &self.group_filter {
            Some(g) => Some(g.as_str()),
            None => None,
        };
        self.status_message = filter_status_message(changed, group_ref, &self.tag_filter);
        self.push_debug_log(log.as_str());
    }

    /// Turns the tag bound to `ch` on or off in the pending tag filter (see
    /// `tag_filter_shortcut_handled`).
    pub fn handle_tag_filter_shortcut(&mut self, ch: char)
        requires
            old(self).wf(),
        ensures
            tag_filter_shortcut_handled(*old(self), *final(self), ch),
            final(self).wf(),
    {
        let tag = match self.tag_for_current_page_shortcut(ch) {
            Some(t) => t,
            None => {
                if !self.has_registered_tags() {
                    self.status_message = "登録済みtag がまだありません。n で作成できます".to_owned();
                }
                let mut log = "tag_filter shortcut ignored: no binding for ".to_owned();
                crate::strings::push_char(&mut log, ch);
                assert(log@ =~= "tag_filter shortcut ignored: no binding for "@ + seq![ch]);
                self.push_debug_log(log.as_str());
                return;
            },
        };
        let name = self.selected_repo_name();
        let mut mode = match self.filter_mode.take() {
            Some(m) => m,
            None => {
                self.push_debug_log("handle_tag_filter_shortcut ignored: mode inactive");
                return;
            },
        };
        let status = if is_ascii_uppercase(ch) {
            if remove_sorted(&mut mode.pending_tags, tag.as_str()) {
                cat2("tag絞り込み候補 OFF: ", tag.as_str())
            } else {
                cat2("tag絞り込み候補 OFF済み: ", tag.as_str())
            }
        } else {
            let had = list_contains(&mode.pending_tags, tag.as_str());
            insert_sorted_unique(&mut mode.pending_tags, tag.clone());
            if had {
                cat2("tag絞り込み候補 ON済み: ", tag.as_str())
            } else {
                cat2("tag絞り込み候補 ON: ", tag.as_str())
            }
        };
        self.filter_mode = Some(mode);
        match &name {
            Some(n) => self.restore_selection(Some(n.as_str())),
            None => self.restore_selection(None),
        }
        self.status_message = status;
    }

    /// Clears the pending group (uppercase) or picks the group bound to `ch`
    /// (see `group_filter_shortcut_handled`).
    pub fn handle_group_filter_shortcut(&mut self, ch: char)
        requires
            old(self).wf(),
        ensures
            group_filter_shortcut_handled(*old(self), *final(self), ch),
            final(self).wf(),
    {
        let name = self.selected_repo_name();
        if is_ascii_uppercase(ch) {
            let mode = match self.filter_mode.take() {
                Some(m) => m,
                None => {
                    self.push_debug_log("handle_group_filter_shortcut ignored: mode inactive");
                    return;
                },
            };
            let had = mode.pending_group.is_some();
            self.filter_mode = Some(FilterMode {
                focus: mode.focus,
                original_group: mode.original_group,
                pending_group: None,
                original_tags: mode.original_tags,
                pending_tags: mode.pending_tags,
                selected_repo_name: mode.selected_repo_name,
            });
            match &name {
                Some(n) => self.restore_selection(Some(n.as_str())),
                None => self.restore_selection(None),
            }
            self.status_message = if had {
                "group絞り込み候補 解除".to_owned()
            } else {
                "group絞り込み候補 解除済み".to_owned()
            };
                return;
        }
        let group = match self.group_for_current_page_shortcut(ch) {
            Some(g) => g,
            None => {
                if !self.has_registered_groups() {
                    self.status_message = "登録済みgroup がまだありません。Ctrl+G で作成できます".to_owned();
                }
                let mut log = "group_filter shortcut ignored: no binding for ".to_owned();
                crate::strings::push_char(&mut log, ch);
                assert(log@ =~= "group_filter shortcut ignored: no binding for "@ + seq![ch]);
                self.push_debug_log(log.as_str());
                return;
            },
        };
        let mode = match self.filter_mode.take() {
            Some(m) => m,
            None => {
                self.push_debug_log("handle_group_filter_shortcut ignored: mode inactive");
                return;
            },
        };
        let status = cat2("group絞り込み候補: ", group.as_str());
        self.filter_mode = Some(FilterMode {
            focus: mode.focus,
            original_group: mode.original_group,
            pending_group: Some(group),
            original_tags: mode.original_tags,
            pending_tags: mode.pending_tags,
            selected_repo_name: mode.selected_repo_name,
        });
        match &name {
            Some(n) => self.restore_selection(Some(n.as_str())),
            None => self.restore_selection(None),
        }
        self.status_message = status;
    }
}


/// The focus of filter mode, the group filter when it is not open.
pub open spec fn current_focus(a: App) -> FilterModeFocus {
    match a.filter_mode {
        Some(m) => m.focus,
        None => FilterModeFocus::Group,
    }
}

/// The first log line of `handle_filter_mode_key`.
pub open spec fn filter_first_log(a: App, key: Key) -> Seq<char> {
    "handle_filter_mode_key: code="@ + describe_key_spec(key.code) + " focus="@ + focus_debug(current_focus(a))
        + " tag_page="@ + decimal(a.registered_tag_page as nat + 1) + " group_page="@ + decimal(
        a.registered_group_page as nat + 1,
    )
}

/// One key in filter mode, after the first log line: Ctrl+T and Ctrl+G move
/// the focus to the tags or the group, Enter applies, Esc cancels, `?` opens
/// the filter help, the arrows change the page of the focused list and a
/// letter acts on the focused filter.
pub open spec fn filter_key_step(a: App, b: App, key: Key) -> bool {
    let focus = current_focus(a);
    let groups = focus == FilterModeFocus::Group;
    if key.ctrl && (key.code == KeyCode::Char('t') || key.code == KeyCode::Char('T')) {
        focus_switched(a, b, FilterModeFocus::Tag)
    } else if key.ctrl && (key.code == KeyCode::Char('g') || key.code == KeyCode::Char('G')) {
        focus_switched(a, b, FilterModeFocus::Group)
    } else {
        match key.code {
            KeyCode::Enter => filter_confirmed(a, b),
            KeyCode::Esc => filter_cancelled(a, b),
            KeyCode::Char('?') => {
                &&& b.debug_log.view_log() == log_push(a.debug_log.view_log(), "filter help opened"@)
                &&& b == App { help_screen: Some(HelpScreen::Filter), debug_log: b.debug_log, ..a }
            },
            KeyCode::Left => crate::curator_nav::page_moved(a, b, groups, false),
            KeyCode::Right => crate::curator_nav::page_moved(a, b, groups, true),
            KeyCode::Char(c) => if is_ascii_alpha(c) {
                if groups {
                    group_filter_shortcut_handled(a, b, c)
                } else {
                    tag_filter_shortcut_handled(a, b, c)
                }
            } else {
                only_logged(a, b, "filter_mode key ignored"@)
            },
            _ => only_logged(a, b, "filter_mode key ignored"@),
        }
    }
}

impl App {
    /// Handles a key in filter mode (see `filter_key_step`).
    pub fn handle_filter_mode_key(&mut self, key: Key)
        requires
            old(self).wf(),
        ensures
            exists|mid: App|
                #[trigger] only_logged(*old(self), mid, filter_first_log(*old(self), key)) && filter_key_step(
                    mid,
                    *final(self),
                    key,
                ),
            final(self).wf(),
    {
        let focus = match &self.filter_mode {
            Some(m) => m.focus,
            None => FilterModeFocus::Group,
        };
        let first = crate::strings::cat3(
            cat4(
                "handle_filter_mode_key: code=",
                describe_key_code(&key.code).as_str(),
                " focus=",
                focus_debug_str(focus),
            ).as_str(),
            cat2(" tag_page=", page_number(self.registered_tag_page).as_str()).as_str(),
            cat2(" group_page=", page_number(self.registered_group_page).as_str()).as_str(),
        );
        self.push_debug_log(first.as_str());
        let ghost mid = *self;
        assert(first@ == filter_first_log(*old(self), key));
        assert(only_logged(*old(self), mid, filter_first_log(*old(self), key)));
        if key.ctrl {
            match key.code {
                KeyCode::Char('t') | KeyCode::Char('T') => {
                    self.switch_filter_focus(FilterModeFocus::Tag);
                    assert(filter_key_step(mid, *self, key));
                    return;
                },
                KeyCode::Char('g') | KeyCode::Char('G') => {
                    self.switch_filter_focus(FilterModeFocus::Group);
                    assert(filter_key_step(mid, *self, key));
                    return;
                },
                _ => {},
            }
        }
        match key.code {
            KeyCode::Enter => self.confirm_filter_mode(),
            KeyCode::Esc => self.cancel_filter_mode(),
            KeyCode::Char('?') => {
                self.help_screen = Some(HelpScreen::Filter);
                self.push_debug_log("filter help opened");
            },
            KeyCode::Left => match focus {
                FilterModeFocus::Group => self.prev_registered_group_page(),
                FilterModeFocus::Tag => self.prev_registered_tag_page(),
            },
            KeyCode::Right => match focus {
                FilterModeFocus::Group => self.next_registered_group_page(),
                FilterModeFocus::Tag => self.next_registered_tag_page(),
            },
            KeyCode::Char(c) => {
                if is_ascii_letter(c) {
                    match focus {
                        FilterModeFocus::Group => self.handle_group_filter_shortcut(c),
                        FilterModeFocus::Tag => self.handle_tag_filter_shortcut(c),
                    }
                } else {
                    self.push_debug_log("filter_mode key ignored");
                }
            },
            _ => {
                self.push_debug_log("filter_mode key ignored");
            },
        }
        assert(filter_key_step(mid, *self, key));
    }
}

} // verus!
