//! Groups on the curator's screens: assigning a group to the selected
//! repository, the group manager, and the group name input.
use crate::config::{split_newlines, strip_cr};
use crate::curator::{
    log_push, page_shortcut, shortcut_on_page, AfterPersist, App, Effect, GroupBindingMode, GroupInput,
    GroupInputMode, GroupManager, HelpScreen,
};
use crate::curator_tags::{char_count, only_logged, page_number, replace_all, status_and_log};
use crate::keys::{debug_str, describe_key_code, describe_key_spec, is_ascii_alpha, is_ascii_letter, str_debug, Key, KeyCode};
use crate::model::{group_registered, list_contains, normalized_group};
use crate::strings::{
    cat2, cat4, chars_of, decimal, join_strings, join_with, normalize_string_list, normalized_list,
    str_eq, string_from_chars, trim, trim_str, usize_to_string,
};
use crate::text_box::{
    area_lines, at_end, box_ok, key_pressed, lemma_flattened_join, new_single_line_text_box, press_key, text_box_cursor,
    text_box_lines, TextBox,
};
use vstd::prelude::*;

verus! {

/// The text of a one-line text area opened on `text`: its lines (split at
/// `\n`, each without a trailing `\r`) joined with spaces.
pub open spec fn single_line(text: Seq<char>) -> Seq<char> {
    join_with(split_newlines(text).map_values(|l: Seq<char>| strip_cr(l)), " "@)
}

/// The lines of `text` as a text area takes them: split at `\n`, each
/// without a trailing `\r`.
pub fn textarea_lines(text: &str) -> (r: Vec<String>)
    ensures
        r.deep_view() == split_newlines(text@).map_values(|l: Seq<char>| strip_cr(l)),
{
    let c = chars_of(text);
    let mut out: Vec<String> = Vec::new();
    let mut cur: Vec<char> = Vec::new();
    let mut i: usize = 0;
    assert(c@.take(0) =~= Seq::<char>::empty());
    while i < c.len()
        invariant
            i <= c.len(),
            c@ == text@,
            out.deep_view().push(strip_cr(cur@)) == split_newlines(c@.take(i as int)).map_values(
                |l: Seq<char>| strip_cr(l),
            ),
            split_newlines(c@.take(i as int)).last() == cur@,
        decreases c.len() - i,
    {
        assert(c@.take(i + 1).drop_last() =~= c@.take(i as int));
        let ghost prev = split_newlines(c@.take(i as int));
        proof {
            crate::config::lemma_split_newlines_len(c@.take(i as int));
        }
        let ghost pm = prev.map_values(|l: Seq<char>| strip_cr(l));
        assert(out.deep_view() =~= pm.drop_last());
        if c[i] == '\n' {
            let ghost ov = out.deep_view();
            let line = strip_cr_chars(&cur);
            out.push(string_from_chars(&line));
            cur = Vec::new();
            assert(out.deep_view() =~= ov.push(strip_cr(prev.last())));
            assert(split_newlines(c@.take(i + 1)) == prev.push(Seq::empty()));
            assert(out.deep_view().push(strip_cr(cur@)) =~= split_newlines(c@.take(i + 1)).map_values(
                |l: Seq<char>| strip_cr(l),
            ));
        } else {
            let ghost old_cur = cur@;
            cur.push(c[i]);
            let ghost np = prev.update(prev.len() - 1, prev.last().push(c@[i as int]));
            assert(split_newlines(c@.take(i + 1)) == np);
            assert(np.map_values(|l: Seq<char>| strip_cr(l)) =~= pm.drop_last().push(strip_cr(cur@)));
            assert(out.deep_view().push(strip_cr(cur@)) =~= split_newlines(c@.take(i + 1)).map_values(
                |l: Seq<char>| strip_cr(l),
            ));
        }
        i = i + 1;
    }
    assert(c@.take(i as int) =~= c@);
    let ghost ov = out.deep_view();
    let last = strip_cr_chars(&cur);
    out.push(string_from_chars(&last));
    assert(out.deep_view() =~= ov.push(strip_cr(cur@)));
    out
}

/// `l` without a trailing `\r`.
fn strip_cr_chars(l: &Vec<char>) -> (r: Vec<char>)
    ensures
        r@ == strip_cr(l@),
{
    if l.len() > 0 && l[l.len() - 1] == '\r' {
        crate::strings::sub_chars(l, 0, l.len() - 1)
    } else {
        crate::strings::sub_chars(l, 0, l.len())
    }
}

/// An empty one-line text box.
pub fn empty_single_line_box() -> (r: TextBox)
    ensures
        text_box_lines(r) == seq![Seq::<char>::empty()],
        text_box_cursor(r) == (0nat, 0nat, false),
        join_with(text_box_lines(r), " "@).len() == 0,
{
    let r = new_single_line_text_box("");
    proof {
        reveal_strlit("");
        assert(""@ =~= Seq::<char>::empty());
        assert(split_newlines(Seq::<char>::empty()) =~= seq![Seq::<char>::empty()]);
    }
    r
}

/// The message shown when a group is needed and none is registered.
pub open spec fn no_groups_message() -> Seq<char> {
    "登録済みgroup がまだありません。Ctrl+G で作成できます"@
}

/// The group bound to `ch` on the shown page of registered groups.
pub open spec fn current_group_shortcut(a: App, ch: char) -> Option<Seq<char>> {
    page_shortcut(a.data.registered_groups.deep_view(), a.registered_group_page as int, ch)
}

/// The first position of `name` in `list`, or 0.
pub open spec fn position_or_zero(list: Seq<Seq<char>>, name: Seq<char>) -> usize {
    if list.contains(name) {
        (choose|i: int| 0 <= i < list.len() && list[i] == name && forall|j: int| 0 <= j < i ==> list[j] != name) as usize
    } else {
        0
    }
}

/// The first position of `name` in `list`, or 0.
pub fn find_position_or_zero(list: &Vec<String>, name: &str) -> (r: usize)
    ensures
        r == position_or_zero(list.deep_view(), name@),
{
    let ghost l = list.deep_view();
    let mut i: usize = 0;
    while i < list.len()
        invariant
            i <= list.len(),
            l == list.deep_view(),
            forall|j: int| 0 <= j < i ==> l[j] != name@,
        decreases list.len() - i,
    {
        if str_eq(list[i].as_str(), name) {
            assert(l[i as int] == name@);
            proof {
                let c = choose|c: int| 0 <= c < l.len() && l[c] == name@ && forall|j: int| 0 <= j < c ==> l[j] != name@;
                if c < i {
                } else if c > i {
                }
            }
            return i;
        }
        i = i + 1;
    }
    0
}

/// The effect of `begin_group_binding_mode`.
pub open spec fn group_binding_begun(a: App, b: App) -> bool {
    if a.data.registered_groups@.len() == 0 {
        status_and_log(a, b, no_groups_message(), "begin_group_binding_mode failed: no registered groups"@)
    } else if a.selected_data_index() is None {
        status_and_log(a, b, "group編集対象のrepoがありません"@, "begin_group_binding_mode failed: no selected repo"@)
    } else {
        let i = a.selected_data_index()->0;
        let repo = a.data.repos@[i as int];
        &&& b.group_binding_mode matches Some(m) && m.repo_index == i && m.repo_name@ == repo.name@
            && m.original_group@ == repo.group@ && m.pending_group@ == repo.group@
        &&& b.status_message@ == "group割り当てモード開始: ? で専用help"@
        &&& b.debug_log.view_log() == log_push(
            a.debug_log.view_log(),
            "group_binding_mode opened: repo="@ + repo.name@ + " page="@ + decimal(a.registered_group_page as nat + 1),
        )
        &&& b == App {
            help_screen: None,
            group_binding_mode: b.group_binding_mode,
            status_message: b.status_message,
            debug_log: b.debug_log,
            ..a
        }
    }
}

/// The effect of `cancel_group_binding_mode`.
pub open spec fn group_binding_cancelled(a: App, b: App) -> bool {
    &&& b.status_message@ == "group割り当てをキャンセル"@
    &&& b.debug_log.view_log() == log_push(a.debug_log.view_log(), "group_binding_mode cancelled"@)
    &&& b == App {
        help_screen: None,
        group_binding_mode: None,
        status_message: b.status_message,
        debug_log: b.debug_log,
        ..a
    }
}

/// The effect of `confirm_group_binding_mode`: with a change, the pending
/// group is registered, given to the repository, and a write is asked for.
pub open spec fn group_binding_confirmed(a: App, b: App, r: Effect) -> bool {
    match a.group_binding_mode {
        None => r == Effect::Nothing && only_logged(a, b, "confirm_group_binding_mode skipped: mode inactive"@),
        Some(m) => if m.pending_group@ == m.original_group@ {
            &&& r == Effect::Nothing
            &&& b.status_message@ == "group変更なし"@
            &&& b.debug_log.view_log() == log_push(a.debug_log.view_log(), "group_binding_mode confirmed: no changes"@)
            &&& b == App {
                help_screen: None,
                group_binding_mode: None,
                status_message: b.status_message,
                debug_log: b.debug_log,
                ..a
            }
        } else if m.repo_index >= a.data.repos@.len() {
            &&& r == Effect::Nothing
            &&& group_registered(a.data, b.data, m.pending_group@)
            &&& b.status_message@ == "group編集対象のrepoがありません"@
            &&& b.debug_log.view_log() == log_push(
                a.debug_log.view_log(),
                "confirm_group_binding_mode failed: selected repo index missing"@,
            )
            &&& b == App {
                data: b.data,
                help_screen: None,
                group_binding_mode: None,
                status_message: b.status_message,
                debug_log: b.debug_log,
                ..a
            }
        } else {
            let i = m.repo_index as int;
            &&& r == Effect::Persist
            &&& b.data.registered_groups.deep_view() == if a.data.registered_groups.deep_view().contains(
                normalized_group(m.pending_group@),
            ) {
                a.data.registered_groups.deep_view()
            } else {
                normalized_list(a.data.registered_groups.deep_view().push(normalized_group(m.pending_group@)))
            }
            &&& b.data.repos@.len() == a.data.repos@.len()
            &&& forall|k: int| 0 <= k < a.data.repos@.len() && k != i ==> b.data.repos@[k] == a.data.repos@[k]
            &&& b.data.repos@[i].group@ == m.pending_group@
            &&& b.data.repos@[i] == (crate::model::Repo { group: b.data.repos@[i].group, ..a.data.repos@[i] })
            &&& b.data == (crate::model::RepoData {
                repos: b.data.repos,
                registered_groups: b.data.registered_groups,
                ..a.data
            })
            &&& b.pending matches Some(AfterPersist::GroupBindingConfirmed { repo_index, repo_name, previous_group })
                && repo_index == m.repo_index && repo_name@ == m.repo_name@ && previous_group@ == a.data.repos@[i].group@
            &&& b == App { data: b.data, pending: b.pending, ..a }
        },
    }
}

/// The effect of `handle_group_shortcut(ch)`: with a group bound to `ch`
/// and group binding mode on, the group becomes the pending one and is
/// confirmed at once.
pub open spec fn group_shortcut_handled(a: App, b: App, ch: char, r: Effect) -> bool {
    match current_group_shortcut(a, ch) {
        None => r == Effect::Nothing && if a.data.registered_groups@.len() == 0 {
            b == App { status_message: b.status_message, ..a } && b.status_message@ == no_groups_message()
        } else {
            b == a
        },
        Some(group) => match a.group_binding_mode {
            None => r == Effect::Nothing && only_logged(a, b, "handle_group_shortcut ignored: mode inactive"@),
            Some(m) => exists|mid: App|
                {
                    &&& #[trigger] mid.group_binding_mode matches Some(n) && n.pending_group@ == group
                        && n.repo_index == m.repo_index && n.repo_name == m.repo_name && n.original_group
                        == m.original_group
                    &&& mid.debug_log.view_log() == log_push(a.debug_log.view_log(), "group shortcut selected: "@ + group)
                    &&& mid == App { group_binding_mode: mid.group_binding_mode, debug_log: mid.debug_log, ..a }
                    &&& group_binding_confirmed(mid, b, r)
                },
        },
    }
}


/// The effect of `open_group_manager`: the manager open on the selected
/// repository's group (the first group when it is not registered or nothing
/// is selected).
pub open spec fn group_manager_opened(a: App, b: App) -> bool {
    &&& b.group_manager == Some(
        GroupManager {
            selected: match a.selected_data_index() {
                Some(i) => position_or_zero(a.data.registered_groups.deep_view(), a.data.repos@[i as int].group@),
                None => 0,
            },
        },
    )
    &&& b.status_message@ == "group manager: j/k移動 n新規 r改名 Escで閉じる"@
    &&& b.debug_log.view_log() == log_push(
        a.debug_log.view_log(),
        "open_group_manager: registered_groups="@ + decimal(a.data.registered_groups@.len()),
    )
    &&& b == (App { group_manager: b.group_manager, status_message: b.status_message, debug_log: b.debug_log, ..a })
}

impl App {
    /// The group bound to `ch` (either case) on the shown page of
    /// registered groups.
    pub fn group_for_current_page_shortcut(&self, ch: char) -> (r: Option<String>)
        ensures
            r matches Some(t) ==> current_group_shortcut(*self, ch) == Some(t@),
            r is None ==> current_group_shortcut(*self, ch) is None,
    {
        shortcut_on_page(&self.data.registered_groups, self.registered_group_page, ch)
    }

    /// Registers `group` (see `RepoData::ensure_registered_group`).
    pub fn ensure_registered_group(&mut self, group: &str)
        ensures
            group_registered(old(self).data, final(self).data, group@),
            *final(self) == (App { data: final(self).data, ..*old(self) }),
    {
        self.data.ensure_registered_group(group);
    }

    /// Opens group binding mode on the selected repository (see
    /// `group_binding_begun`).
    pub fn begin_group_binding_mode(&mut self)
        ensures
            group_binding_begun(*old(self), *final(self)),
    {
        if !self.has_registered_groups() {
            self.status_message = "登録済みgroup がまだありません。Ctrl+G で作成できます".to_owned();
            self.push_debug_log("begin_group_binding_mode failed: no registered groups");
            return;
        }
        let index = match self.selected_repo_data_index() {
            Some(i) => i,
            None => {
                self.status_message = "group編集対象のrepoがありません".to_owned();
                self.push_debug_log("begin_group_binding_mode failed: no selected repo");
                return;
            },
        };
        let name = self.data.repos[index].name.clone();
        let group = self.data.repos[index].group.clone();
        let log = cat4("group_binding_mode opened: repo=", name.as_str(), " page=", page_number(self.registered_group_page).as_str());
        self.help_screen = None;
        self.group_binding_mode = Some(GroupBindingMode {
            repo_index: index,
            repo_name: name,
            original_group: group.clone(),
            pending_group: group,
        });
        self.status_message = "group割り当てモード開始: ? で専用help".to_owned();
        self.push_debug_log(log.as_str());
    }

    /// Leaves group binding mode without changes.
    pub fn cancel_group_binding_mode(&mut self)
        ensures
            group_binding_cancelled(*old(self), *final(self)),
    {
        self.help_screen = None;
        self.group_binding_mode = None;
        self.status_message = "group割り当てをキャンセル".to_owned();
        self.push_debug_log("group_binding_mode cancelled");
    }

    /// Gives the pending group to the repository (see
    /// `group_binding_confirmed`).
    pub fn confirm_group_binding_mode(&mut self) -> (r: Effect)
        ensures
            group_binding_confirmed(*old(self), *final(self), r),
    {
        let (index, pending, same) = match &self.group_binding_mode {
            Some(m) => (m.repo_index, m.pending_group.clone(), str_eq(m.pending_group.as_str(), m.original_group.as_str())),
            None => {
                self.push_debug_log("confirm_group_binding_mode skipped: mode inactive");
                return Effect::Nothing;
            },
        };
        if same {
            self.help_screen = None;
            self.group_binding_mode = None;
            self.status_message = "group変更なし".to_owned();
            self.push_debug_log("group_binding_mode confirmed: no changes");
            return Effect::Nothing;
        }
        self.data.ensure_registered_group(pending.as_str());
        if index >= self.data.repos.len() {
            self.help_screen = None;
            self.group_binding_mode = None;
            self.status_message = "group編集対象のrepoがありません".to_owned();
            self.push_debug_log("confirm_group_binding_mode failed: selected repo index missing");
            return Effect::Nothing;
        }
        let name = match &self.group_binding_mode {
            Some(m) => m.repo_name.clone(),
            None => return Effect::Nothing,
        };
        let ghost before = self.data.repos@;
        let mut repo = self.data.repos.remove(index);
        let previous = repo.group.clone();
        repo.group = pending;
        let ghost updated = repo;
        let ghost mid = self.data.repos@;
        self.data.repos.insert(index, repo);
        assert(self.data.repos@ =~= before.update(index as int, updated)) by {
            assert forall|k: int| 0 <= k < before.len() implies self.data.repos@[k] == before.update(index as int, updated)[k] by {
                if k < index {
                    assert(mid[k] == before[k]);
                } else if k > index {
                    assert(mid[k - 1] == before[k]);
                }
            }
        }
        self.pending = Some(AfterPersist::GroupBindingConfirmed { repo_index: index, repo_name: name, previous_group: previous });
        Effect::Persist
    }

    /// Makes the group bound to `ch` the pending one and confirms it (see
    /// `group_shortcut_handled`).
    pub fn handle_group_shortcut(&mut self, ch: char) -> (r: Effect)
        ensures
            group_shortcut_handled(*old(self), *final(self), ch, r),
    {
        let group = match self.group_for_current_page_shortcut(ch) {
            Some(g) => g,
            None => {
                if !self.has_registered_groups() {
                    self.status_message = "登録済みgroup がまだありません。Ctrl+G で作成できます".to_owned();
                }
                return Effect::Nothing;
            },
        };
        let mode = match self.group_binding_mode.take() {
            Some(m) => m,
            None => {
                self.push_debug_log("handle_group_shortcut ignored: mode inactive");
                return Effect::Nothing;
            },
        };
        self.group_binding_mode = Some(GroupBindingMode {
            repo_index: mode.repo_index,
            repo_name: mode.repo_name,
            original_group: mode.original_group,
            pending_group: group.clone(),
        });
        let log = cat2("group shortcut selected: ", group.as_str());
        self.push_debug_log(log.as_str());
        let ghost mid = *self;
        let r = self.confirm_group_binding_mode();
        assert(group_binding_confirmed(mid, *self, r));
        r
    }
}

/// The effect of `begin_new_group_input` (assigning) or
/// `begin_new_registered_group_input` (registering only).
pub open spec fn group_input_begun(a: App, b: App, registered_only: bool) -> bool {
    &&& b.group_input matches Some(t) && text_box_lines(t.textarea) == seq![Seq::<char>::empty()] && text_box_cursor(
        t.textarea,
    ) == (0nat, 0nat, false) && t.text().len() == 0 && t.mode == if registered_only {
        GroupInputMode::CreateRegisteredOnly
    } else {
        GroupInputMode::CreateAndAssignToSelectedRepo
    }
    &&& b.status_message@ == "新規group: Enterで保存 / Escでキャンセル"@
    &&& b.debug_log.view_log() == log_push(
        a.debug_log.view_log(),
        if registered_only {
            "group_input overlay opened: CreateRegisteredOnly"@
        } else {
            "group_input overlay opened: CreateAndAssignToSelectedRepo"@
        },
    )
    &&& b == App { group_input: b.group_input, status_message: b.status_message, debug_log: b.debug_log, ..a }
}

/// The registered group the group manager has selected.
pub open spec fn manager_group(a: App) -> Option<Seq<char>> {
    match a.group_manager {
        Some(m) => if m.selected < a.data.registered_groups@.len() {
            Some(a.data.registered_groups.deep_view()[m.selected as int])
        } else {
            None
        },
        None => None,
    }
}

/// The first log line of `handle_group_manager_key`.
pub open spec fn group_manager_first_log(a: App, key: Key) -> Seq<char> {
    "handle_group_manager_key: code="@ + describe_key_spec(key.code) + " registered_groups="@ + decimal(
        a.data.registered_groups@.len(),
    )
}

/// One key in the group manager, after the first log line: Esc or `g`
/// closes it, `j`/`k` (or the arrows) move the selection, `n` opens the
/// group input to register a group (as does Enter when none is registered),
/// `r` opens it to rename the selected group.
pub open spec fn group_manager_key_step(a: App, b: App, key: Key, r: Effect) -> bool {
    let len = a.data.registered_groups@.len() as int;
    match key.code {
        KeyCode::Esc | KeyCode::Char('g') => {
            &&& r == Effect::Nothing
            &&& b.status_message@ == "group manager を閉じました"@
            &&& b.debug_log.view_log() == log_push(a.debug_log.view_log(), "group_manager closed"@)
            &&& b == App { group_manager: None, status_message: b.status_message, debug_log: b.debug_log, ..a }
        },
        KeyCode::Char('j') | KeyCode::Down => r == Effect::Nothing && b == App {
            group_manager: match a.group_manager {
                Some(m) => Some(
                    GroupManager {
                        selected: if len == 0 {
                            0
                        } else if (m.selected as int) + 1 < len - 1 {
                            (m.selected + 1) as usize
                        } else {
                            (len - 1) as usize
                        },
                    },
                ),
                None => None,
            },
            ..a
        },
        KeyCode::Char('k') | KeyCode::Up => r == Effect::Nothing && b == App {
            group_manager: match a.group_manager {
                Some(m) => Some(
                    GroupManager {
                        selected: if len == 0 || m.selected == 0 {
                            0
                        } else {
                            (m.selected - 1) as usize
                        },
                    },
                ),
                None => None,
            },
            ..a
        },
        KeyCode::Char('n') | KeyCode::Char('N') => r == Effect::Nothing && group_input_begun(a, b, true),
        KeyCode::Enter => if len == 0 {
            r == Effect::Nothing && group_input_begun(a, b, true)
        } else {
            r == Effect::Nothing && only_logged(a, b, "group_manager key ignored"@)
        },
        KeyCode::Char('r') => match manager_group(a) {
            None => r == Effect::Nothing && b == App { status_message: b.status_message, ..a } && b.status_message@
                == "rename対象のgroupがありません"@,
            Some(from) => {
                &&& r == Effect::Nothing
                &&& b.group_input matches Some(t) && t.text() == single_line(from) && box_ok(t.textarea) && text_box_cursor(
                    t.textarea,
                ) == at_end(text_box_lines(t.textarea)) && (t.mode matches GroupInputMode::RenameGlobal {
                    from: f,
                } && f@ == from)
                &&& b.status_message@ == "group rename: Enterで保存 / Escでキャンセル"@
                &&& b.debug_log.view_log() == log_push(a.debug_log.view_log(), "group rename overlay opened"@)
                &&& b == App { group_input: b.group_input, status_message: b.status_message, debug_log: b.debug_log, ..a }
            },
        },
        _ => r == Effect::Nothing && only_logged(a, b, "group_manager key ignored"@),
    }
}

/// The manager selection after saving `group`: its first position among the
/// registered groups, or 0.
pub open spec fn manager_on_group(a: App, b: App, group: Seq<char>) -> bool {
    b == App {
        group_manager: match a.group_manager {
            Some(_) => Some(GroupManager { selected: position_or_zero(a.data.registered_groups.deep_view(), group) }),
            None => None,
        },
        ..a
    }
}

/// The trimmed text of the group input.
pub open spec fn group_input_value(a: App) -> Seq<char> {
    trim(a.group_input->0.text())
}

/// The effect of `save_group_input`.
pub open spec fn group_input_saved(a: App, b: App, r: Effect) -> bool {
    match a.group_input {
        None => r == Effect::Nothing && only_logged(a, b, "save_group_input skipped: no input"@),
        Some(input) => {
            let value = trim(input.text());
            let first = "save_group_input: trimmed_value="@ + str_debug(value);
            if value.len() == 0 {
                &&& r == Effect::Nothing
                &&& b.status_message@ == "groupは空にできません"@
                &&& b.debug_log.view_log() == crate::curator::log_pushes(
                    a.debug_log.view_log(),
                    seq![first, "save_group_input rejected: empty"@],
                )
                &&& b == App { status_message: b.status_message, debug_log: b.debug_log, ..a }
            } else {
                match input.mode {
                    GroupInputMode::CreateAndAssignToSelectedRepo => match a.selected_data_index() {
                        None => {
                            &&& r == Effect::Nothing
                            &&& b.status_message@ == "group設定対象のrepoがありません"@
                            &&& b.debug_log.view_log() == crate::curator::log_pushes(
                                a.debug_log.view_log(),
                                seq![first, "save_group_input failed: no selected repo"@],
                            )
                            &&& b == App {
                                group_input: None,
                                status_message: b.status_message,
                                debug_log: b.debug_log,
                                ..a
                            }
                        },
                        Some(i) => if a.data.repos@[i as int].group@ == value && a.data.registered_groups.deep_view().contains(
                            value,
                        ) {
                            &&& r == Effect::Nothing
                            &&& b.status_message@ == "group変更なし"@
                            &&& b.debug_log.view_log() == crate::curator::log_pushes(
                                a.debug_log.view_log(),
                                seq![first, "save_group_input skipped: selected repo already in group"@],
                            )
                            &&& b == App {
                                group_input: None,
                                status_message: b.status_message,
                                debug_log: b.debug_log,
                                ..a
                            }
                        } else {
                            &&& r == Effect::Persist
                            &&& b.data.registered_groups.deep_view() == if a.data.registered_groups.deep_view().contains(
                                normalized_group(value),
                            ) {
                                a.data.registered_groups.deep_view()
                            } else {
                                normalized_list(a.data.registered_groups.deep_view().push(normalized_group(value)))
                            }
                            &&& b.data.repos@.len() == a.data.repos@.len()
                            &&& forall|k: int| 0 <= k < a.data.repos@.len() && k != i ==> b.data.repos@[k] == a.data.repos@[k]
                            &&& b.data.repos@[i as int].group@ == value
                            &&& b.data.repos@[i as int] == (crate::model::Repo {
                                group: b.data.repos@[i as int].group,
                                ..a.data.repos@[i as int]
                            })
                            &&& b.data == (crate::model::RepoData {
                                repos: b.data.repos,
                                registered_groups: b.data.registered_groups,
                                ..a.data
                            })
                            &&& b.pending matches Some(
                                AfterPersist::GroupAssigned { index, repo_name, previous_group, value: v },
                            ) && index == i && repo_name@ == a.data.repos@[i as int].name@ && previous_group@
                                == a.data.repos@[i as int].group@ && v@ == value
                            &&& b.debug_log.view_log() == log_push(a.debug_log.view_log(), first)
                            &&& b == App { group_input: None, data: b.data, pending: b.pending, debug_log: b.debug_log, ..a }
                        },
                    },
                    GroupInputMode::CreateRegisteredOnly => {
                        &&& r == Effect::Persist
                        &&& group_registered(a.data, b.data, value)
                        &&& b.pending matches Some(AfterPersist::GroupAdded { value: v }) && v@ == value
                        &&& b.debug_log.view_log() == log_push(a.debug_log.view_log(), first)
                        &&& b == App { group_input: None, data: b.data, pending: b.pending, debug_log: b.debug_log, ..a }
                    },
                    GroupInputMode::RenameGlobal { from } => {
                        let renamed = normalized_list(replace_all(a.data.registered_groups.deep_view(), from@, value));
                        &&& r == Effect::Persist
                        &&& b.data.registered_groups.deep_view() == if renamed.contains(normalized_group(value)) {
                            renamed
                        } else {
                            normalized_list(renamed.push(normalized_group(value)))
                        }
                        &&& b.data.repos@.len() == a.data.repos@.len()
                        &&& forall|k: int|
                            0 <= k < a.data.repos@.len() ==> (#[trigger] b.data.repos@[k]).group@ == (if a.data.repos@[k].group@
                                == from@ {
                                value
                            } else {
                                a.data.repos@[k].group@
                            }) && b.data.repos@[k] == (crate::model::Repo {
                                group: b.data.repos@[k].group,
                                ..a.data.repos@[k]
                            })
                        &&& b.data == (crate::model::RepoData {
                            repos: b.data.repos,
                            registered_groups: b.data.registered_groups,
                            ..a.data
                        })
                        &&& b.pending matches Some(AfterPersist::GroupRenamed { from: f, value: v }) && f@ == from@ && v@
                            == value
                        &&& b.debug_log.view_log() == log_push(a.debug_log.view_log(), first)
                        &&& b == App { group_input: None, data: b.data, pending: b.pending, debug_log: b.debug_log, ..a }
                    },
                }
            }
        },
    }
}

impl App {
    /// The registered group the group manager has selected, if any.
    pub fn current_group_manager_group(&self) -> (r: Option<String>)
        ensures
            r matches Some(t) ==> manager_group(*self) == Some(t@),
            r is None ==> manager_group(*self) is None,
    {
        match self.group_manager {
            Some(m) => if m.selected < self.data.registered_groups.len() {
                Some(self.data.registered_groups[m.selected].clone())
            } else {
                None
            },
            None => None,
        }
    }

    /// Opens the group manager on the selected repository's group (the
    /// first group when it is not registered or nothing is selected).
    pub fn open_group_manager(&mut self)
        ensures
            group_manager_opened(*old(self), *final(self)),
    {
        let selected = match self.selected_repo_data_index() {
            Some(i) => find_position_or_zero(&self.data.registered_groups, self.data.repos[i].group.as_str()),
            None => 0,
        };
        self.group_manager = Some(GroupManager { selected });
        self.status_message = "group manager: j/k移動 n新規 r改名 Escで閉じる".to_owned();
        let log = cat2("open_group_manager: registered_groups=", usize_to_string(self.data.registered_groups.len()).as_str());
        self.push_debug_log(log.as_str());
    }

    /// Opens the group input to create a group and give it to the selected
    /// repository.
    pub fn begin_new_group_input(&mut self)
        ensures
            group_input_begun(*old(self), *final(self), false),
    {
        let textarea = empty_single_line_box();
        self.group_input = Some(GroupInput { mode: GroupInputMode::CreateAndAssignToSelectedRepo, textarea });
        self.status_message = "新規group: Enterで保存 / Escでキャンセル".to_owned();
        self.push_debug_log("group_input overlay opened: CreateAndAssignToSelectedRepo");
    }

    /// Opens the group input to register a group.
    pub fn begin_new_registered_group_input(&mut self)
        ensures
            group_input_begun(*old(self), *final(self), true),
    {
        let textarea = empty_single_line_box();
        self.group_input = Some(GroupInput { mode: GroupInputMode::CreateRegisteredOnly, textarea });
        self.status_message = "新規group: Enterで保存 / Escでキャンセル".to_owned();
        self.push_debug_log("group_input overlay opened: CreateRegisteredOnly");
    }

    /// Handles a key in the group manager (see `group_manager_key_step`).
    pub fn handle_group_manager_key(&mut self, key: Key) -> (r: Effect)
        ensures
            exists|mid: App|
                #[trigger] only_logged(*old(self), mid, group_manager_first_log(*old(self), key))
                    && group_manager_key_step(mid, *final(self), key, r),
    {
        let first = cat4(
            "handle_group_manager_key: code=",
            describe_key_code(&key.code).as_str(),
            " registered_groups=",
            usize_to_string(self.data.registered_groups.len()).as_str(),
        );
        self.push_debug_log(first.as_str());
        let ghost mid = *self;
        let len = self.data.registered_groups.len();
        let r = match key.code {
            KeyCode::Esc | KeyCode::Char('g') => {
                self.group_manager = None;
                self.status_message = "group manager を閉じました".to_owned();
                self.push_debug_log("group_manager closed");
                Effect::Nothing
            },
            KeyCode::Char('j') | KeyCode::Down => {
                if let Some(m) = self.group_manager {
                    let sel = if len == 0 {
                        0
                    } else {
                        let up = m.selected.saturating_add(1);
                        if up < len - 1 {
                            up
                        } else {
                            len - 1
                        }
                    };
                    self.group_manager = Some(GroupManager { selected: sel });
                }
                Effect::Nothing
            },
            KeyCode::Char('k') | KeyCode::Up => {
                if let Some(m) = self.group_manager {
                    let sel = if len == 0 {
                        0
                    } else {
                        m.selected.saturating_sub(1)
                    };
                    self.group_manager = Some(GroupManager { selected: sel });
                }
                Effect::Nothing
            },
            KeyCode::Char('n') | KeyCode::Char('N') => {
                self.begin_new_registered_group_input();
                Effect::Nothing
            },
            KeyCode::Enter => {
                if len == 0 {
                    self.begin_new_registered_group_input();
                    Effect::Nothing
                } else {
                    self.push_debug_log("group_manager key ignored");
                    Effect::Nothing
                }
            },
            KeyCode::Char('r') => {
                match self.current_group_manager_group() {
                    None => {
                        self.status_message = "rename対象のgroupがありません".to_owned();
                        Effect::Nothing
                    },
                    Some(from) => {
                        let textarea = new_single_line_text_box(from.as_str());
                        proof {
                            lemma_flattened_join(area_lines(from@));
                        }
                        self.group_input = Some(GroupInput { mode: GroupInputMode::RenameGlobal { from }, textarea });
                        self.status_message = "group rename: Enterで保存 / Escでキャンセル".to_owned();
                        self.push_debug_log("group rename overlay opened");
                        Effect::Nothing
                    },
                }
            },
            _ => {
                self.push_debug_log("group_manager key ignored");
                Effect::Nothing
            },
        };
        proof {
            assert(first@ == group_manager_first_log(*old(self), key));
            assert(only_logged(*old(self), mid, group_manager_first_log(*old(self), key)));
            assert(group_manager_key_step(mid, *self, key, r));
        }
        r
    }

    /// Puts the group manager's selection on `group` (the first group when it
    /// is not registered).
    pub fn select_group_in_manager(&mut self, group: &str)
        ensures
            manager_on_group(*old(self), *final(self), group@),
    {
        let selected = find_position_or_zero(&self.data.registered_groups, group);
        if let Some(_) = self.group_manager {
            self.group_manager = Some(GroupManager { selected });
        }
    }
}

/// The first log line of `handle_group_input_key`.
pub open spec fn group_input_first_log(a: App, key: Key) -> Seq<char> {
    let len: nat = match a.group_input {
        Some(t) => t.text().len(),
        None => 0,
    };
    "handle_group_input_key: code="@ + describe_key_spec(key.code) + " buffer_len="@ + decimal(len)
}

/// One key in the group input, after the first log line: Enter or Ctrl+S
/// saves, Esc cancels, any other key goes to the text area.
pub open spec fn group_input_key_step(a: App, b: App, key: Key, r: Effect) -> bool {
    if key.ctrl && (key.code == KeyCode::Char('s') || key.code == KeyCode::Char('S')) || key.code == KeyCode::Enter {
        group_input_saved(a, b, r)
    } else if key.code == KeyCode::Esc {
        &&& r == Effect::Nothing
        &&& b.status_message@ == "group入力をキャンセル"@
        &&& b.debug_log.view_log() == log_push(a.debug_log.view_log(), "group_input cancelled"@)
        &&& b == App { group_input: None, status_message: b.status_message, debug_log: b.debug_log, ..a }
    } else {
        &&& r == Effect::Nothing
        &&& a.group_input is None ==> b == a
        &&& a.group_input matches Some(g) ==> {
            &&& b.group_input matches Some(h) && h.mode == g.mode && key_pressed(g.textarea, key, h.textarea, true)
            &&& b.debug_log.view_log() == log_push(
                a.debug_log.view_log(),
                "group_input edited: "@ + str_debug(b.group_input->0.text()),
            )
            &&& b == App { group_input: b.group_input, debug_log: b.debug_log, ..a }
        }
    }
}

/// The first log line of `handle_group_binding_mode_key`.
pub open spec fn group_binding_first_log(a: App, key: Key) -> Seq<char> {
    "handle_group_binding_mode_key: code="@ + describe_key_spec(key.code) + " page="@ + decimal(
        a.registered_group_page as nat + 1,
    )
}

/// One key in group binding mode, after the first log line: `?` opens its
/// help, Esc cancels, the arrows change page and a letter picks the group
/// it is bound to.
pub open spec fn group_binding_key_step(a: App, b: App, key: Key, r: Effect) -> bool {
    match key.code {
        KeyCode::Char('?') => {
            &&& r == Effect::Nothing
            &&& b.debug_log.view_log() == log_push(a.debug_log.view_log(), "group_binding help opened"@)
            &&& b == App { help_screen: Some(HelpScreen::GroupBinding), debug_log: b.debug_log, ..a }
        },
        KeyCode::Esc => r == Effect::Nothing && group_binding_cancelled(a, b),
        KeyCode::Left => r == Effect::Nothing && crate::curator_nav::page_moved(a, b, true, false),
        KeyCode::Right => r == Effect::Nothing && crate::curator_nav::page_moved(a, b, true, true),
        KeyCode::Char(c) => if is_ascii_alpha(c) {
            group_shortcut_handled(a, b, c, r)
        } else {
            r == Effect::Nothing && only_logged(a, b, "group_binding_mode key ignored"@)
        },
        _ => r == Effect::Nothing && only_logged(a, b, "group_binding_mode key ignored"@),
    }
}

impl App {
    /// Saves what the group input holds (see `group_input_saved`).
    pub fn save_group_input(&mut self) -> (r: Effect)
        ensures
            group_input_saved(*old(self), *final(self), r),
    {
        let (value, kind, from) = match &self.group_input {
            Some(input) => {
                let typed = input.value();
                let value = trim_str(typed.as_str());
                match &input.mode {
                    GroupInputMode::CreateAndAssignToSelectedRepo => (value, 0u8, String::new()),
                    GroupInputMode::CreateRegisteredOnly => (value, 1u8, String::new()),
                    GroupInputMode::RenameGlobal { from } => (value, 2u8, from.clone()),
                }
            },
            None => {
                self.push_debug_log("save_group_input skipped: no input");
                return Effect::Nothing;
            },
        };
        assert(kind == 0 <==> self.group_input->0.mode is CreateAndAssignToSelectedRepo);
        assert(kind == 1 <==> self.group_input->0.mode is CreateRegisteredOnly);
        assert(kind == 2 ==> (self.group_input->0.mode matches GroupInputMode::RenameGlobal { from: f } && f@ == from@));
        let first = cat2("save_group_input: trimmed_value=", debug_str(value.as_str()).as_str());
        self.push_debug_log(first.as_str());
        if value.as_str().is_empty() {
            self.status_message = "groupは空にできません".to_owned();
            self.push_debug_log("save_group_input rejected: empty");
            proof {
                reveal_with_fuel(crate::curator::log_pushes, 3);
            }
            return Effect::Nothing;
        }
        self.group_input = None;
        if kind == 0 {
            let index = match self.selected_repo_data_index() {
                Some(i) => i,
                None => {
                    self.status_message = "group設定対象のrepoがありません".to_owned();
                    self.push_debug_log("save_group_input failed: no selected repo");
                    proof {
                        reveal_with_fuel(crate::curator::log_pushes, 3);
                    }
                    return Effect::Nothing;
                },
            };
            let repo_name = self.data.repos[index].name.clone();
            let previous = self.data.repos[index].group.clone();
            if str_eq(previous.as_str(), value.as_str()) && list_contains(&self.data.registered_groups, value.as_str()) {
                self.status_message = "group変更なし".to_owned();
                self.push_debug_log("save_group_input skipped: selected repo already in group");
                proof {
                    reveal_with_fuel(crate::curator::log_pushes, 3);
                }
                return Effect::Nothing;
            }
            self.data.ensure_registered_group(value.as_str());
            let ghost before = self.data.repos@;
            let mut repo = self.data.repos.remove(index);
            repo.group = value.clone();
            let ghost updated = repo;
            let ghost mid = self.data.repos@;
            self.data.repos.insert(index, repo);
            assert(self.data.repos@ =~= before.update(index as int, updated)) by {
                assert forall|k: int| 0 <= k < before.len() implies self.data.repos@[k] == before.update(index as int, updated)[k] by {
                    if k < index {
                        assert(mid[k] == before[k]);
                    } else if k > index {
                        assert(mid[k - 1] == before[k]);
                    }
                }
            }
            self.pending = Some(AfterPersist::GroupAssigned { index, repo_name, previous_group: previous, value });
            Effect::Persist
        } else if kind == 1 {
            self.data.ensure_registered_group(value.as_str());
            self.pending = Some(AfterPersist::GroupAdded { value });
            Effect::Persist
        } else {
            crate::curator_groups::rename_in_list(&mut self.data.registered_groups, from.as_str(), value.as_str());
            let ghost orig = self.data.repos@;
            let mut rest: Vec<crate::model::Repo> = Vec::new();
            std::mem::swap(&mut rest, &mut self.data.repos);
            let mut done: Vec<crate::model::Repo> = Vec::new();
            let ghost n = orig.len();
            assert(rest@ =~= orig.subrange(0, n as int));
            while rest.len() > 0
                invariant
                    n == orig.len(),
                    rest.len() + done.len() == n,
                    rest@ == orig.subrange(done.len() as int, n as int),
                    forall|k: int|
                        0 <= k < done.len() ==> (#[trigger] done@[k]).group@ == (if orig[k].group@ == from@ {
                            value@
                        } else {
                            orig[k].group@
                        }) && done@[k] == (crate::model::Repo { group: done@[k].group, ..orig[k] }),
                decreases rest.len(),
            {
                let ghost i = done.len() as int;
                let ghost rs = rest@;
                let mut r = rest.remove(0);
                assert(r == orig[i]) by {
                    assert(rs[0] == orig[i]);
                }
                if str_eq(r.group.as_str(), from.as_str()) {
                    r.group = value.clone();
                }
                let ghost dv = done@;
                done.push(r);
                assert forall|k: int| 0 <= k < done.len() implies (#[trigger] done@[k]).group@ == (if orig[k].group@
                    == from@ {
                    value@
                } else {
                    orig[k].group@
                }) && done@[k] == (crate::model::Repo { group: done@[k].group, ..orig[k] }) by {
                    if k < i {
                        assert(done@[k] == dv[k]);
                    }
                }
                assert(rest@ =~= orig.subrange(i + 1, n as int)) by {
                    assert forall|k: int| 0 <= k < rest@.len() implies rest@[k] == orig.subrange(i + 1, n as int)[k] by {
                        assert(rest@[k] == rs[k + 1]);
                    }
                }
            }
            self.data.repos = done;
            self.data.ensure_registered_group(value.as_str());
            self.pending = Some(AfterPersist::GroupRenamed { from, value });
            Effect::Persist
        }
    }

    /// Handles a key in the group input (see `group_input_key_step`).
    pub fn handle_group_input_key(&mut self, key: Key) -> (r: Effect)
        requires
            old(self).wf(),
        ensures
            final(self).wf(),
            old(self).debug_log.view_log().0.len() <= crate::curator::DEBUG_LOG_LIMIT
                ==> final(self).debug_log.view_log().0.len() <= crate::curator::DEBUG_LOG_LIMIT,
            exists|mid: App|
                #[trigger] only_logged(*old(self), mid, group_input_first_log(*old(self), key))
                    && group_input_key_step(mid, *final(self), key, r),
    {
        let len = match &self.group_input {
            Some(t) => char_count(t.value().as_str()),
            None => 0,
        };
        let first = cat4(
            "handle_group_input_key: code=",
            describe_key_code(&key.code).as_str(),
            " buffer_len=",
            usize_to_string(len).as_str(),
        );
        self.push_debug_log(first.as_str());
        let ghost mid = *self;
        let r = if (key.ctrl && (key.code == KeyCode::Char('s') || key.code == KeyCode::Char('S'))) || key.code
            == KeyCode::Enter {
            self.save_group_input()
        } else if key.code == KeyCode::Esc {
            self.group_input = None;
            self.status_message = "group入力をキャンセル".to_owned();
            self.push_debug_log("group_input cancelled");
            Effect::Nothing
        } else {
            match self.group_input.take() {
                Some(mut g) => {
                    press_key(&mut g.textarea, key, true);
                    let value = g.value();
                    let log = cat2("group_input edited: ", debug_str(value.as_str()).as_str());
                    self.group_input = Some(g);
                    self.push_debug_log(log.as_str());
                },
                None => {},
            }
            Effect::Nothing
        };
        proof {
            if old(self).debug_log.view_log().0.len() <= crate::curator::DEBUG_LOG_LIMIT {
                crate::curator_laws::lemma_log_pushes_bounded(mid.debug_log.view_log());
            }
            assert(first@ == group_input_first_log(*old(self), key));
            assert(only_logged(*old(self), mid, group_input_first_log(*old(self), key)));
            assert(group_input_key_step(mid, *self, key, r));
        }
        r
    }

    /// Handles a key in group binding mode (see `group_binding_key_step`).
    pub fn handle_group_binding_mode_key(&mut self, key: Key) -> (r: Effect)
        ensures
            exists|mid: App|
                #[trigger] only_logged(*old(self), mid, group_binding_first_log(*old(self), key))
                    && group_binding_key_step(mid, *final(self), key, r),
    {
        let first = cat4(
            "handle_group_binding_mode_key: code=",
            describe_key_code(&key.code).as_str(),
            " page=",
            page_number(self.registered_group_page).as_str(),
        );
        self.push_debug_log(first.as_str());
        let ghost mid = *self;
        let r = match key.code {
            KeyCode::Char('?') => {
                self.help_screen = Some(HelpScreen::GroupBinding);
                self.push_debug_log("group_binding help opened");
                Effect::Nothing
            },
            KeyCode::Esc => {
                self.cancel_group_binding_mode();
                Effect::Nothing
            },
            KeyCode::Left => {
                self.prev_registered_group_page();
                Effect::Nothing
            },
            KeyCode::Right => {
                self.next_registered_group_page();
                Effect::Nothing
            },
            KeyCode::Char(c) => {
                if is_ascii_letter(c) {
                    self.handle_group_shortcut(c)
                } else {
                    self.push_debug_log("group_binding_mode key ignored");
                    Effect::Nothing
                }
            },
            _ => {
                self.push_debug_log("group_binding_mode key ignored");
                Effect::Nothing
            },
        };
        proof {
            assert(first@ == group_binding_first_log(*old(self), key));
            assert(only_logged(*old(self), mid, group_binding_first_log(*old(self), key)));
            assert(group_binding_key_step(mid, *self, key, r));
        }
        r
    }
}

/// `list` with every `from` replaced by `to`, normalized.
pub fn rename_in_list(list: &mut Vec<String>, from: &str, to: &str)
    ensures
        final(list).deep_view() == normalized_list(replace_all(old(list).deep_view(), from@, to@)),
{
    let ghost orig = list.deep_view();
    let mut out: Vec<String> = Vec::new();
    let mut i: usize = 0;
    while i < list.len()
        invariant
            i <= list.len(),
            orig == list.deep_view(),
            out.deep_view() == replace_all(orig, from@, to@).take(i as int),
        decreases list.len() - i,
    {
        let ghost before = out.deep_view();
        let item = if str_eq(list[i].as_str(), from) {
            to.to_owned()
        } else {
            list[i].clone()
        };
        assert(orig[i as int] == list[i as int]@);
        out.push(item);
        assert(out.deep_view() =~= before.push(item@));
        assert(replace_all(orig, from@, to@).take(i + 1) =~= replace_all(orig, from@, to@).take(i as int).push(
            replace_all(orig, from@, to@)[i as int],
        ));
        i = i + 1;
    }
    assert(replace_all(orig, from@, to@).take(i as int) =~= replace_all(orig, from@, to@));
    normalize_string_list(&mut out);
    *list = out;
}

} // verus!
