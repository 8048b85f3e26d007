//! Tags on the curator's screens: binding tags to the selected repository,
//! the tag manager, and the tag name input.
use crate::curator::{
    log_push, log_pushes, page_shortcut, shortcut_on_page, synced, AfterPersist, App, Effect, HelpScreen,
    TagBindingMode, TagInput, TagInputMode, TagManager,
};
use crate::keys::{
    ctrl_char, describe_key_code, describe_key_spec, is_ascii_alpha, is_ascii_letter, is_ascii_upper,
    is_ascii_uppercase, str_debug, debug_str, Key, KeyCode,
};
use crate::model::list_contains;
use crate::strings::{
    append_str, cat2, cat3, cat4, decimal, insert_sorted_unique, normalize_string_list, normalized_list,
    remove_sorted, sorted_set_of, strictly_sorted, trim, trim_str, u128_to_string, usize_to_string,
};
use crate::curator_groups::{empty_single_line_box, single_line};
use crate::text_box::{
    area_lines, at_end, box_ok, key_pressed, lemma_flattened_join, new_single_line_text_box, press_key, text_box_cursor,
    text_box_lines,
};
use vstd::prelude::*;

verus! {

/// How `Debug` writes an optional help screen.
pub open spec fn help_debug(o: Option<HelpScreen>) -> Seq<char> {
    match o {
        None => "None"@,
        Some(HelpScreen::Main) => "Some(Main)"@,
        Some(HelpScreen::TagBinding) => "Some(TagBinding)"@,
        Some(HelpScreen::GroupBinding) => "Some(GroupBinding)"@,
        Some(HelpScreen::Filter) => "Some(Filter)"@,
    }
}

fn help_debug_str(o: Option<HelpScreen>) -> (r: &'static str)
    ensures
        r@ == help_debug(o),
{
    match o {
        None => "None",
        Some(HelpScreen::Main) => "Some(Main)",
        Some(HelpScreen::TagBinding) => "Some(TagBinding)",
        Some(HelpScreen::GroupBinding) => "Some(GroupBinding)",
        Some(HelpScreen::Filter) => "Some(Filter)",
    }
}

/// The one-based number of a page.
pub fn page_number(page: usize) -> (r: String)
    ensures
        r@ == decimal(page as nat + 1),
{
    u128_to_string(page as u128 + 1)
}

/// `b` is `a` with only the status line and the debug log changed: the
/// status line to `status` and one entry `msg` logged.
pub open spec fn status_and_log(a: App, b: App, status: Seq<char>, msg: Seq<char>) -> bool {
    &&& b.status_message@ == status
    &&& b.debug_log.view_log() == log_push(a.debug_log.view_log(), msg)
    &&& b == App { status_message: b.status_message, debug_log: b.debug_log, ..a }
}

/// `b` is `a` with one entry `msg` logged.
pub open spec fn only_logged(a: App, b: App, msg: Seq<char>) -> bool {
    &&& b.debug_log.view_log() == log_push(a.debug_log.view_log(), msg)
    &&& b == App { debug_log: b.debug_log, ..a }
}

/// The message shown when a tag is needed and none is registered.
pub open spec fn no_tags_message() -> Seq<char> {
    "登録済みtag がまだありません。n で作成できます"@
}

/// The tag bound to `ch` on the shown page of registered tags.
pub open spec fn current_tag_shortcut(a: App, ch: char) -> Option<Seq<char>> {
    page_shortcut(a.data.registered_tags.deep_view(), a.registered_tag_page as int, ch)
}

/// The effect of `begin_tag_binding_mode`.
pub open spec fn tag_binding_begun(a: App, b: App) -> bool {
    if a.data.registered_tags@.len() == 0 {
        status_and_log(a, b, no_tags_message(), "begin_tag_binding_mode failed: no registered tags"@)
    } else if a.selected_data_index() is None {
        status_and_log(a, b, "tag編集対象のrepoがありません"@, "begin_tag_binding_mode failed: no selected repo"@)
    } else {
        let i = a.selected_data_index()->0;
        let repo = a.data.repos@[i as int];
        &&& b.tag_binding_mode matches Some(m) && m.repo_index == i && m.repo_name@ == repo.name@
            && strictly_sorted(m.pending_tags.deep_view()) && m.pending_tags.deep_view().to_set()
            == repo.tags.deep_view().to_set() && m.original_tags.deep_view() == m.pending_tags.deep_view()
        &&& b.status_message@ == "tag紐付けモード開始: ? で専用help"@
        &&& b.debug_log.view_log() == log_push(
            a.debug_log.view_log(),
            "tag_binding_mode opened: repo="@ + repo.name@ + " page="@ + decimal(a.registered_tag_page as nat + 1),
        )
        &&& b == App {
            help_screen: None,
            tag_binding_mode: b.tag_binding_mode,
            status_message: b.status_message,
            debug_log: b.debug_log,
            ..a
        }
    }
}

/// The effect of `cancel_tag_binding_mode`.
pub open spec fn tag_binding_cancelled(a: App, b: App) -> bool {
    &&& b.status_message@ == "tag紐付けをキャンセル"@
    &&& b.debug_log.view_log() == log_push(a.debug_log.view_log(), "tag_binding_mode cancelled"@)
    &&& b == App {
        help_screen: None,
        tag_binding_mode: None,
        status_message: b.status_message,
        debug_log: b.debug_log,
        ..a
    }
}

/// The effect of `handle_tag_shortcut(ch)`: with a tag bound to `ch` and
/// tag binding mode on, a lowercase letter adds the tag to the pending
/// tags and an uppercase one removes it.
pub open spec fn tag_shortcut_handled(a: App, b: App, ch: char) -> bool {
    match current_tag_shortcut(a, ch) {
        None => if a.data.registered_tags@.len() == 0 {
            b == App { status_message: b.status_message, ..a } && b.status_message@ == no_tags_message()
        } else {
            b == a
        },
        Some(tag) => match a.tag_binding_mode {
            None => only_logged(a, b, "handle_tag_shortcut ignored: mode inactive"@),
            Some(m) => {
                let had = m.pending_tags.deep_view().contains(tag);
                &&& b.tag_binding_mode matches Some(n) && n.repo_index == m.repo_index && n.repo_name == m.repo_name
                    && n.original_tags == m.original_tags && strictly_sorted(n.pending_tags.deep_view()) && if is_ascii_upper(ch) {
                    n.pending_tags.deep_view().to_set() == m.pending_tags.deep_view().to_set().remove(tag)
                } else {
                    n.pending_tags.deep_view().to_set() == m.pending_tags.deep_view().to_set().insert(tag)
                }
                &&& b.status_message@ == if is_ascii_upper(ch) {
                    if had {
                        "tag削除候補: "@ + tag
                    } else {
                        "tag未割当: "@ + tag
                    }
                } else {
                    if had {
                        "tag追加済み: "@ + tag
                    } else {
                        "tag追加候補: "@ + tag
                    }
                }
                &&& b == App { tag_binding_mode: b.tag_binding_mode, status_message: b.status_message, ..a }
            },
        },
    }
}

/// The effect of `confirm_tag_binding_mode`: with changes, the repository's
/// tags are set to the pending ones and a write is asked for.
pub open spec fn tag_binding_confirmed(a: App, b: App, r: Effect) -> bool {
    match a.tag_binding_mode {
        None => r == Effect::Nothing && only_logged(a, b, "confirm_tag_binding_mode skipped: mode inactive"@),
        Some(m) => if m.pending_tags.deep_view() == m.original_tags.deep_view() {
            &&& r == Effect::Nothing
            &&& b.status_message@ == "tag変更なし"@
            &&& b.debug_log.view_log() == log_push(a.debug_log.view_log(), "tag_binding_mode confirmed: no changes"@)
            &&& b == App {
                help_screen: None,
                tag_binding_mode: None,
                status_message: b.status_message,
                debug_log: b.debug_log,
                ..a
            }
        } else if m.repo_index >= a.data.repos@.len() {
            &&& r == Effect::Nothing
            &&& b.status_message@ == "tag編集対象のrepoがありません"@
            &&& b.debug_log.view_log() == log_push(
                a.debug_log.view_log(),
                "confirm_tag_binding_mode failed: selected repo index missing"@,
            )
            &&& b == App {
                help_screen: None,
                tag_binding_mode: None,
                status_message: b.status_message,
                debug_log: b.debug_log,
                ..a
            }
        } else {
            &&& r == Effect::Persist
            &&& b.data.repos@.len() == a.data.repos@.len()
            &&& forall|k: int| 0 <= k < a.data.repos@.len() && k != m.repo_index ==> b.data.repos@[k] == a.data.repos@[k]
            &&& b.data.repos@[m.repo_index as int].tags.deep_view() == m.pending_tags.deep_view()
            &&& b.data.repos@[m.repo_index as int] == (crate::model::Repo {
                tags: b.data.repos@[m.repo_index as int].tags,
                ..a.data.repos@[m.repo_index as int]
            })
            &&& b.data == (crate::model::RepoData { repos: b.data.repos, ..a.data })
            &&& b.pending matches Some(AfterPersist::TagBindingConfirmed { repo_index, repo_name, previous_tags })
                && repo_index == m.repo_index && repo_name@ == m.repo_name@ && previous_tags.deep_view()
                == a.data.repos@[m.repo_index as int].tags.deep_view()
            &&& b == App { data: b.data, pending: b.pending, ..a }
        },
    }
}


/// The effect of a key on a help screen: `?` or Esc closes it, any other
/// key is only logged.
pub open spec fn help_key_handled(a: App, b: App, key: Key) -> bool {
    let first = "handle_help_key: code="@ + describe_key_spec(key.code) + " screen="@ + help_debug(a.help_screen);
    if key.code == KeyCode::Char('?') || key.code == KeyCode::Esc {
        b.debug_log.view_log() == log_pushes(a.debug_log.view_log(), seq![first, "help closed"@]) && b == (App {
            help_screen: None,
            debug_log: b.debug_log,
            ..a
        })
    } else {
        b.debug_log.view_log() == log_pushes(a.debug_log.view_log(), seq![first, "help key ignored"@]) && b == (App {
            debug_log: b.debug_log,
            ..a
        })
    }
}

/// The effect of `open_tag_manager`: the manager open on its first tag.
pub open spec fn tag_manager_opened(a: App, b: App) -> bool {
    &&& b.tag_manager == Some(TagManager { selected: 0 })
    &&& b.status_message@ == "tag manager: j/k移動 n新規 r改名 Escで閉じる"@
    &&& b.debug_log.view_log() == log_push(
        a.debug_log.view_log(),
        "open_tag_manager: registered_tags="@ + decimal(a.data.registered_tags@.len()),
    )
    &&& b == (App { tag_manager: b.tag_manager, status_message: b.status_message, debug_log: b.debug_log, ..a })
}

impl App {
    /// The tag bound to `ch` (either case) on the shown page of registered
    /// tags.
    pub fn tag_for_current_page_shortcut(&self, ch: char) -> (r: Option<String>)
        ensures
            r matches Some(t) ==> current_tag_shortcut(*self, ch) == Some(t@),
            r is None ==> current_tag_shortcut(*self, ch) is None,
    {
        shortcut_on_page(&self.data.registered_tags, self.registered_tag_page, ch)
    }

    /// Opens tag binding mode on the selected repository (see
    /// `tag_binding_begun`).
    pub fn begin_tag_binding_mode(&mut self)
        ensures
            tag_binding_begun(*old(self), *final(self)),
    {
        if !self.has_registered_tags() {
            self.status_message = "登録済みtag がまだありません。n で作成できます".to_owned();
            self.push_debug_log("begin_tag_binding_mode failed: no registered tags");
            return;
        }
        let index = match self.selected_repo_data_index() {
            Some(i) => i,
            None => {
                self.status_message = "tag編集対象のrepoがありません".to_owned();
                self.push_debug_log("begin_tag_binding_mode failed: no selected repo");
                return;
            },
        };
        let pending = sorted_set_of(&self.data.repos[index].tags);
        let original = crate::model::clone_strings(&pending);
        let name = self.data.repos[index].name.clone();
        let log = cat4("tag_binding_mode opened: repo=", name.as_str(), " page=", page_number(self.registered_tag_page).as_str());
        self.help_screen = None;
        self.tag_binding_mode = Some(TagBindingMode {
            repo_index: index,
            repo_name: name,
            original_tags: original,
            pending_tags: pending,
        });
        self.status_message = "tag紐付けモード開始: ? で専用help".to_owned();
        self.push_debug_log(log.as_str());
    }

    /// Handles a key on a help screen: `?` or Esc closes it.
    pub fn handle_help_key(&mut self, key: Key)
        ensures
            old(self).debug_log.view_log().0.len() <= crate::curator::DEBUG_LOG_LIMIT
                ==> final(self).debug_log.view_log().0.len() <= crate::curator::DEBUG_LOG_LIMIT,
            help_key_handled(*old(self), *final(self), key),
    {
        let first = cat4(
            "handle_help_key: code=",
            describe_key_code(&key.code).as_str(),
            " screen=",
            help_debug_str(self.help_screen),
        );
        self.push_debug_log(first.as_str());
        match key.code {
            KeyCode::Char('?') | KeyCode::Esc => {
                self.help_screen = None;
                self.push_debug_log("help closed");
            },
            _ => {
                self.push_debug_log("help key ignored");
            },
        }
        proof {
            reveal_with_fuel(log_pushes, 3);
        }
    }

    /// Adds or removes a pending tag by its shortcut (see
    /// `tag_shortcut_handled`).
    pub fn handle_tag_shortcut(&mut self, ch: char)
        requires
            old(self).wf(),
        ensures
            tag_shortcut_handled(*old(self), *final(self), ch),
            final(self).wf(),
    {
        let tag = match self.tag_for_current_page_shortcut(ch) {
            Some(t) => t,
            None => {
                if !self.has_registered_tags() {
                    self.status_message = "登録済みtag がまだありません。n で作成できます".to_owned();
                }
                return;
            },
        };
        let mut mode = match self.tag_binding_mode.take() {
            Some(m) => m,
            None => {
                self.push_debug_log("handle_tag_shortcut ignored: mode inactive");
                return;
            },
        };
        let status = if is_ascii_uppercase(ch) {
            if remove_sorted(&mut mode.pending_tags, tag.as_str()) {
                cat2("tag削除候補: ", tag.as_str())
            } else {
                cat2("tag未割当: ", tag.as_str())
            }
        } else {
            let had = list_contains(&mode.pending_tags, tag.as_str());
            insert_sorted_unique(&mut mode.pending_tags, tag.clone());
            if had {
                cat2("tag追加済み: ", tag.as_str())
            } else {
                cat2("tag追加候補: ", tag.as_str())
            }
        };
        self.tag_binding_mode = Some(mode);
        self.status_message = status;
    }

    /// Leaves tag binding mode without changes.
    pub fn cancel_tag_binding_mode(&mut self)
        ensures
            tag_binding_cancelled(*old(self), *final(self)),
    {
        self.help_screen = None;
        self.tag_binding_mode = None;
        self.status_message = "tag紐付けをキャンセル".to_owned();
        self.push_debug_log("tag_binding_mode cancelled");
    }

    /// Applies the pending tags to the repository (see
    /// `tag_binding_confirmed`).
    pub fn confirm_tag_binding_mode(&mut self) -> (r: Effect)
        ensures
            tag_binding_confirmed(*old(self), *final(self), r),
    {
        let (index, same) = match &self.tag_binding_mode {
            Some(m) => (m.repo_index, crate::curator_tags::same_lists(&m.pending_tags, &m.original_tags)),
            None => {
                self.push_debug_log("confirm_tag_binding_mode skipped: mode inactive");
                return Effect::Nothing;
            },
        };
        if same {
            self.help_screen = None;
            self.tag_binding_mode = None;
            self.status_message = "tag変更なし".to_owned();
            self.push_debug_log("tag_binding_mode confirmed: no changes");
            return Effect::Nothing;
        }
        if index >= self.data.repos.len() {
            self.help_screen = None;
            self.tag_binding_mode = None;
            self.status_message = "tag編集対象のrepoがありません".to_owned();
            self.push_debug_log("confirm_tag_binding_mode failed: selected repo index missing");
            return Effect::Nothing;
        }
        let (name, next_tags) = match &self.tag_binding_mode {
            Some(m) => (m.repo_name.clone(), crate::model::clone_strings(&m.pending_tags)),
            None => return Effect::Nothing,
        };
        let ghost before = self.data.repos@;
        let mut repo = self.data.repos.remove(index);
        let previous = crate::model::clone_strings(&repo.tags);
        repo.tags = next_tags;
        let ghost updated = repo;
        let ghost mid = self.data.repos@;
        self.data.repos.insert(index, repo);
        assert(self.data.repos@ =~= before.update(index as int, updated)) by {
            assert forall|k: int| 0 <= k < before.len() implies self.data.repos@[k] == before.update(index as int, updated)[k] by {
                if k < index {
                    assert(mid[k] == before[k]);
                } else if k > index {
                    assert(mid[k - 1] == before[k]);
                }
            }
        }
        self.pending = Some(AfterPersist::TagBindingConfirmed { repo_index: index, repo_name: name, previous_tags: previous });
        Effect::Persist
    }
}

/// Every `from` in the list replaced by `to`.
pub open spec fn replace_all(s: Seq<Seq<char>>, from: Seq<char>, to: Seq<char>) -> Seq<Seq<char>> {
    s.map_values(|t: Seq<char>| if t == from { to } else { t })
}

/// The list after making sure `value` is in it: unchanged when it is,
/// otherwise normalized with `value` added.
pub open spec fn with_registered(list: Seq<Seq<char>>, value: Seq<char>) -> Seq<Seq<char>> {
    if list.contains(value) {
        list
    } else {
        normalized_list(list.push(value))
    }
}

/// `list` with every `from` replaced by `to`, normalized.
fn replace_and_normalize(list: &mut Vec<String>, from: &str, to: &str)
    ensures
        final(list).deep_view() == normalized_list(replace_all(old(list).deep_view(), from@, to@)),
{
    let ghost orig = list.deep_view();
    let mut out: Vec<String> = Vec::new();
    let mut i: usize = 0;
    while i < list.len()
        invariant
            i <= list.len(),
            orig == list.deep_view(),
            out.deep_view() == replace_all(orig, from@, to@).take(i as int),
        decreases list.len() - i,
    {
        let ghost before = out.deep_view();
        let item = if crate::strings::str_eq(list[i].as_str(), from) {
            to.to_owned()
        } else {
            list[i].clone()
        };
        assert(orig[i as int] == list[i as int]@);
        out.push(item);
        assert(out.deep_view() =~= before.push(item@));
        assert(replace_all(orig, from@, to@).take(i + 1) =~= replace_all(orig, from@, to@).take(i as int).push(
            replace_all(orig, from@, to@)[i as int],
        ));
        i = i + 1;
    }
    assert(replace_all(orig, from@, to@).take(i as int) =~= replace_all(orig, from@, to@));
    normalize_string_list(&mut out);
    *list = out;
}

/// Makes sure `value` is in the list (see `with_registered`).
pub fn ensure_in_list(list: &mut Vec<String>, value: &str)
    ensures
        final(list).deep_view() == with_registered(old(list).deep_view(), value@),
{
    if list_contains(list, value) {
        return;
    }
    let ghost before = list.deep_view();
    list.push(value.to_owned());
    assert(list.deep_view() =~= before.push(value@));
    normalize_string_list(list);
}

/// The number of characters of a string.
pub fn char_count(s: &str) -> (r: usize)
    ensures
        r == s@.len(),
{
    crate::strings::chars_of(s).len()
}

/// The effect of `begin_new_tag_input` (assigning) or
/// `begin_new_registered_tag_input` (registering only).
pub open spec fn tag_input_begun(a: App, b: App, registered_only: bool) -> bool {
    &&& b.tag_input matches Some(t) && text_box_lines(t.textarea) == seq![Seq::<char>::empty()] && text_box_cursor(
        t.textarea,
    ) == (0nat, 0nat, false) && t.text().len() == 0 && t.mode == if registered_only {
        TagInputMode::CreateRegisteredOnly
    } else {
        TagInputMode::CreateAndAssignToSelectedRepo
    }
    &&& b.status_message@ == "新規tag: Enterで保存 / Escでキャンセル"@
    &&& b.debug_log.view_log() == log_push(
        a.debug_log.view_log(),
        if registered_only {
            "tag_input overlay opened: CreateRegisteredOnly"@
        } else {
            "tag_input overlay opened: CreateAndAssignToSelectedRepo"@
        },
    )
    &&& b == App { tag_input: b.tag_input, status_message: b.status_message, debug_log: b.debug_log, ..a }
}

/// The registered tag the tag manager has selected.
pub open spec fn manager_tag(a: App) -> Option<Seq<char>> {
    match a.tag_manager {
        Some(m) => if m.selected < a.data.registered_tags@.len() {
            Some(a.data.registered_tags.deep_view()[m.selected as int])
        } else {
            None
        },
        None => None,
    }
}

/// The trimmed text of the tag input.
pub open spec fn tag_input_value(a: App) -> Seq<char> {
    trim(a.tag_input->0.text())
}

/// The effect of `save_tag_input`.
pub open spec fn tag_input_saved(a: App, b: App, r: Effect) -> bool {
    match a.tag_input {
        None => r == Effect::Nothing && only_logged(a, b, "save_tag_input skipped: no input"@),
        Some(input) => {
            let value = trim(input.text());
            let first = "save_tag_input: trimmed_value="@ + str_debug(value);
            if value.len() == 0 {
                &&& r == Effect::Nothing
                &&& b.status_message@ == "tagは空にできません"@
                &&& b.debug_log.view_log() == log_pushes(a.debug_log.view_log(), seq![first, "save_tag_input rejected: empty"@])
                &&& b == App { status_message: b.status_message, debug_log: b.debug_log, ..a }
            } else {
                match input.mode {
                    TagInputMode::CreateAndAssignToSelectedRepo => match a.selected_data_index() {
                        None => {
                            &&& r == Effect::Nothing
                            &&& b.status_message@ == "tag追加対象のrepoがありません"@
                            &&& b.debug_log.view_log() == log_pushes(
                                a.debug_log.view_log(),
                                seq![first, "save_tag_input failed: no selected repo"@],
                            )
                            &&& b == App {
                                tag_input: None,
                                status_message: b.status_message,
                                debug_log: b.debug_log,
                                ..a
                            }
                        },
                        Some(i) => {
                            let tags = a.data.repos@[i as int].tags.deep_view();
                            &&& r == Effect::Persist
                            &&& b.data.registered_tags.deep_view() == with_registered(
                                a.data.registered_tags.deep_view(),
                                value,
                            )
                            &&& b.data.repos@.len() == a.data.repos@.len()
                            &&& forall|k: int| 0 <= k < a.data.repos@.len() && k != i ==> b.data.repos@[k] == a.data.repos@[k]
                            &&& b.data.repos@[i as int].tags.deep_view() == (if tags.contains(value) {
                                tags
                            } else {
                                normalized_list(tags.push(value))
                            })
                            &&& b.data.repos@[i as int] == (crate::model::Repo {
                                tags: b.data.repos@[i as int].tags,
                                ..a.data.repos@[i as int]
                            })
                            &&& b.data == (crate::model::RepoData {
                                repos: b.data.repos,
                                registered_tags: b.data.registered_tags,
                                ..a.data
                            })
                            &&& b.pending matches Some(AfterPersist::TagAdded { value: v, registered_only: false })
                                && v@ == value
                            &&& b.debug_log.view_log() == log_push(a.debug_log.view_log(), first)
                            &&& b == App { tag_input: None, data: b.data, pending: b.pending, debug_log: b.debug_log, ..a }
                        },
                    },
                    TagInputMode::CreateRegisteredOnly => {
                        &&& r == Effect::Persist
                        &&& b.data.registered_tags.deep_view() == with_registered(a.data.registered_tags.deep_view(), value)
                        &&& b.data == (crate::model::RepoData { registered_tags: b.data.registered_tags, ..a.data })
                        &&& b.pending matches Some(AfterPersist::TagAdded { value: v, registered_only: true }) && v@
                            == value
                        &&& b.debug_log.view_log() == log_push(a.debug_log.view_log(), first)
                        &&& b == App { tag_input: None, data: b.data, pending: b.pending, debug_log: b.debug_log, ..a }
                    },
                    TagInputMode::RenameGlobal { from } => {
                        &&& r == Effect::Persist
                        &&& b.data.registered_tags.deep_view() == normalized_list(
                            replace_all(a.data.registered_tags.deep_view(), from@, value),
                        )
                        &&& b.data.repos@.len() == a.data.repos@.len()
                        &&& forall|k: int|
                            0 <= k < a.data.repos@.len() ==> (#[trigger] b.data.repos@[k]).tags.deep_view() == normalized_list(
                                replace_all(a.data.repos@[k].tags.deep_view(), from@, value),
                            ) && b.data.repos@[k] == (crate::model::Repo {
                                tags: b.data.repos@[k].tags,
                                ..a.data.repos@[k]
                            })
                        &&& b.data == (crate::model::RepoData {
                            repos: b.data.repos,
                            registered_tags: b.data.registered_tags,
                            ..a.data
                        })
                        &&& b.pending matches Some(AfterPersist::TagRenamed { from: f, value: v }) && f@ == from@ && v@
                            == value
                        &&& b.debug_log.view_log() == log_push(a.debug_log.view_log(), first)
                        &&& b == App { tag_input: None, data: b.data, pending: b.pending, debug_log: b.debug_log, ..a }
                    },
                }
            }
        },
    }
}

/// The first log line of `handle_tag_input_key`.
pub open spec fn tag_input_first_log(a: App, key: Key) -> Seq<char> {
    let len: nat = match a.tag_input {
        Some(t) => t.text().len(),
        None => 0,
    };
    "handle_tag_input_key: code="@ + describe_key_spec(key.code) + " buffer_len="@ + decimal(len)
}

/// One key in the tag input, after the first log line: Enter or Ctrl+S
/// saves, Esc cancels, any other key goes to the text area, which is kept
/// to one line, and the text it then holds is logged.
pub open spec fn tag_input_key_step(mid: App, b: App, key: Key, r: Effect) -> bool {
    if key.ctrl && (key.code == KeyCode::Char('s') || key.code == KeyCode::Char('S')) || key.code == KeyCode::Enter {
        tag_input_saved(mid, b, r)
    } else if key.code == KeyCode::Esc {
        &&& r == Effect::Nothing
        &&& b.status_message@ == "tag入力をキャンセル"@
        &&& b.debug_log.view_log() == log_push(mid.debug_log.view_log(), "tag_input cancelled"@)
        &&& b == App { tag_input: None, status_message: b.status_message, debug_log: b.debug_log, ..mid }
    } else {
        &&& r == Effect::Nothing
        &&& mid.tag_input is None ==> b == mid
        &&& mid.tag_input matches Some(g) ==> {
            &&& b.tag_input matches Some(h) && h.mode == g.mode && key_pressed(g.textarea, key, h.textarea, true)
            &&& b.debug_log.view_log() == log_push(
                mid.debug_log.view_log(),
                "tag_input edited: "@ + str_debug(b.tag_input->0.text()),
            )
            &&& b == App { tag_input: b.tag_input, debug_log: b.debug_log, ..mid }
        }
    }
}

impl App {
    /// Opens the tag manager on its first tag.
    pub fn open_tag_manager(&mut self)
        ensures
            tag_manager_opened(*old(self), *final(self)),
    {
        self.tag_manager = Some(TagManager { selected: 0 });
        self.status_message = "tag manager: j/k移動 n新規 r改名 Escで閉じる".to_owned();
        let log = cat2("open_tag_manager: registered_tags=", usize_to_string(self.data.registered_tags.len()).as_str());
        self.push_debug_log(log.as_str());
    }

    /// The registered tag the tag manager has selected, if any.
    pub fn current_tag_manager_tag(&self) -> (r: Option<String>)
        ensures
            r matches Some(t) ==> manager_tag(*self) == Some(t@),
            r is None ==> manager_tag(*self) is None,
    {
        match self.tag_manager {
            Some(m) => if m.selected < self.data.registered_tags.len() {
                Some(self.data.registered_tags[m.selected].clone())
            } else {
                None
            },
            None => None,
        }
    }

    /// Opens the tag input to create a tag and give it to the selected
    /// repository.
    pub fn begin_new_tag_input(&mut self)
        ensures
            tag_input_begun(*old(self), *final(self), false),
    {
        let textarea = empty_single_line_box();
        self.tag_input = Some(TagInput { mode: TagInputMode::CreateAndAssignToSelectedRepo, textarea });
        self.status_message = "新規tag: Enterで保存 / Escでキャンセル".to_owned();
        self.push_debug_log("tag_input overlay opened: CreateAndAssignToSelectedRepo");
    }

    /// Opens the tag input to register a tag.
    pub fn begin_new_registered_tag_input(&mut self)
        ensures
            tag_input_begun(*old(self), *final(self), true),
    {
        let textarea = empty_single_line_box();
        self.tag_input = Some(TagInput { mode: TagInputMode::CreateRegisteredOnly, textarea });
        self.status_message = "新規tag: Enterで保存 / Escでキャンセル".to_owned();
        self.push_debug_log("tag_input overlay opened: CreateRegisteredOnly");
    }

    /// Registers `tag` unless it is registered (see `with_registered`).
    pub fn ensure_registered_tag(&mut self, tag: &str)
        ensures
            final(self).data.registered_tags.deep_view() == with_registered(old(self).data.registered_tags.deep_view(), tag@),
            final(self).data == (crate::model::RepoData { registered_tags: final(self).data.registered_tags, ..old(self).data }),
            *final(self) == (App { data: final(self).data, ..*old(self) }),
    {
        ensure_in_list(&mut self.data.registered_tags, tag);
    }

    /// Saves what the tag input holds (see `tag_input_saved`).
    pub fn save_tag_input(&mut self) -> (r: Effect)
        requires
            old(self).wf(),
        ensures
            tag_input_saved(*old(self), *final(self), r),
            final(self).wf(),
    {
        let (value, kind, from) = match &self.tag_input {
            Some(input) => {
                let typed = input.value();
                let value = trim_str(typed.as_str());
                match &input.mode {
                    TagInputMode::CreateAndAssignToSelectedRepo => (value, 0u8, String::new()),
                    TagInputMode::CreateRegisteredOnly => (value, 1u8, String::new()),
                    TagInputMode::RenameGlobal { from } => (value, 2u8, from.clone()),
                }
            },
            None => {
                self.push_debug_log("save_tag_input skipped: no input");
                return Effect::Nothing;
            },
        };
        assert(kind == 0 <==> self.tag_input->0.mode is CreateAndAssignToSelectedRepo);
        assert(kind == 1 <==> self.tag_input->0.mode is CreateRegisteredOnly);
        assert(kind == 2 ==> (self.tag_input->0.mode matches TagInputMode::RenameGlobal { from: f } && f@ == from@));
        let first = cat2("save_tag_input: trimmed_value=", debug_str(value.as_str()).as_str());
        self.push_debug_log(first.as_str());
        if value.as_str().is_empty() {
            self.status_message = "tagは空にできません".to_owned();
            self.push_debug_log("save_tag_input rejected: empty");
            proof {
                reveal_with_fuel(log_pushes, 3);
            }
            return Effect::Nothing;
        }
        if kind == 0 {
                let index = match self.selected_repo_data_index() {
                    Some(i) => i,
                    None => {
                        self.tag_input = None;
                        self.status_message = "tag追加対象のrepoがありません".to_owned();
                        self.push_debug_log("save_tag_input failed: no selected repo");
                        proof {
                            reveal_with_fuel(log_pushes, 3);
                        }
                        return Effect::Nothing;
                    },
                };
                self.tag_input = None;
                self.ensure_registered_tag(value.as_str());
                let ghost before = self.data.repos@;
                let mut repo = self.data.repos.remove(index);
                ensure_in_list(&mut repo.tags, value.as_str());
                let ghost updated = repo;
                let ghost mid = self.data.repos@;
                self.data.repos.insert(index, repo);
                assert(self.data.repos@ =~= before.update(index as int, updated)) by {
                    assert forall|k: int| 0 <= k < before.len() implies self.data.repos@[k] == before.update(
                        index as int,
                        updated,
                    )[k] by {
                        if k < index {
                            assert(mid[k] == before[k]);
                        } else if k > index {
                            assert(mid[k - 1] == before[k]);
                        }
                    }
                }
                self.pending = Some(AfterPersist::TagAdded { value, registered_only: false });
                Effect::Persist
        } else if kind == 1 {
                self.tag_input = None;
                self.ensure_registered_tag(value.as_str());
                self.pending = Some(AfterPersist::TagAdded { value, registered_only: true });
                Effect::Persist
        } else {
                self.tag_input = None;
                replace_and_normalize(&mut self.data.registered_tags, from.as_str(), value.as_str());
                let ghost orig = self.data.repos@;
                let mut rest: Vec<crate::model::Repo> = Vec::new();
                std::mem::swap(&mut rest, &mut self.data.repos);
                let mut done: Vec<crate::model::Repo> = Vec::new();
                let ghost n = orig.len();
                assert(rest@ =~= orig.subrange(0, n as int));
                while rest.len() > 0
                    invariant
                        n == orig.len(),
                        rest.len() + done.len() == n,
                        rest@ == orig.subrange(done.len() as int, n as int),
                        forall|k: int|
                            0 <= k < done.len() ==> (#[trigger] done@[k]).tags.deep_view() == normalized_list(
                                replace_all(orig[k].tags.deep_view(), from@, value@),
                            ) && done@[k] == (crate::model::Repo { tags: done@[k].tags, ..orig[k] }),
                    decreases rest.len(),
                {
                    let ghost i = done.len() as int;
                    let ghost rs = rest@;
                    let mut r = rest.remove(0);
                    assert(r == orig[i]) by {
                        assert(rs[0] == orig[i]);
                    }
                    replace_and_normalize(&mut r.tags, from.as_str(), value.as_str());
                    let ghost dv = done@;
                    done.push(r);
                    assert forall|k: int| 0 <= k < done.len() implies (#[trigger] done@[k]).tags.deep_view()
                        == normalized_list(replace_all(orig[k].tags.deep_view(), from@, value@)) && done@[k] == (
                    crate::model::Repo { tags: done@[k].tags, ..orig[k] }) by {
                        if k < i {
                            assert(done@[k] == dv[k]);
                        }
                    }
                    assert(rest@ =~= orig.subrange(i + 1, n as int)) by {
                        assert forall|k: int| 0 <= k < rest@.len() implies rest@[k] == orig.subrange(i + 1, n as int)[k] by {
                            assert(rest@[k] == rs[k + 1]);
                        }
                    }
                }
                self.data.repos = done;
                self.pending = Some(AfterPersist::TagRenamed { from, value });
                Effect::Persist
        }
    }

    /// Handles a key in the tag input (see `tag_input_key_step`).
    pub fn handle_tag_input_key(&mut self, key: Key) -> (r: Effect)
        requires
            old(self).wf(),
        ensures
            final(self).wf(),
            exists|mid: App|
                #[trigger] only_logged(*old(self), mid, tag_input_first_log(*old(self), key)) && tag_input_key_step(
                    mid,
                    *final(self),
                    key,
                    r,
                ),
    {
        let len = match &self.tag_input {
            Some(t) => char_count(t.value().as_str()),
            None => 0,
        };
        let first = cat4(
            "handle_tag_input_key: code=",
            describe_key_code(&key.code).as_str(),
            " buffer_len=",
            usize_to_string(len).as_str(),
        );
        self.push_debug_log(first.as_str());
        let ghost mid = *self;
        assert(only_logged(*old(self), mid, first@));
        let r = if key.ctrl && (key.code == KeyCode::Char('s') || key.code == KeyCode::Char('S')) {
            self.save_tag_input()
        } else {
            match key.code {
                KeyCode::Enter => self.save_tag_input(),
                KeyCode::Esc => {
                    self.tag_input = None;
                    self.status_message = "tag入力をキャンセル".to_owned();
                    self.push_debug_log("tag_input cancelled");
                    Effect::Nothing
                },
                _ => {
                    match self.tag_input.take() {
                        Some(mut t) => {
                            press_key(&mut t.textarea, key, true);
                            let value = t.value();
                            let log = cat2("tag_input edited: ", debug_str(value.as_str()).as_str());
                            self.tag_input = Some(t);
                            self.push_debug_log(log.as_str());
                        },
                        None => {},
                    }
                    Effect::Nothing
                },
            }
        };
        assert(tag_input_key_step(mid, *self, key, r));
        proof {
            assert(first@ == tag_input_first_log(*old(self), key));
            assert(only_logged(*old(self), mid, tag_input_first_log(*old(self), key)));
        }
        r
    }
}

/// The first log line of `handle_tag_manager_key`.
pub open spec fn tag_manager_first_log(a: App, key: Key) -> Seq<char> {
    "handle_tag_manager_key: code="@ + describe_key_spec(key.code) + " registered_tags="@ + decimal(
        a.data.registered_tags@.len(),
    )
}

/// One key in the tag manager, after the first log line: Esc or `t`
/// closes it, `j`/`k` (or the arrows) move the selection, `n` opens the tag
/// input to register a tag (as does Enter when none is registered), `r`
/// opens it to rename the selected tag.
pub open spec fn tag_manager_key_step(a: App, b: App, key: Key) -> bool {
    let len = a.data.registered_tags@.len() as int;
    match key.code {
        KeyCode::Esc | KeyCode::Char('t') => {
            &&& b.status_message@ == "tag manager を閉じました"@
            &&& b.debug_log.view_log() == log_push(a.debug_log.view_log(), "tag_manager closed"@)
            &&& b == App { tag_manager: None, status_message: b.status_message, debug_log: b.debug_log, ..a }
        },
        KeyCode::Char('j') | KeyCode::Down => b == App {
            tag_manager: match a.tag_manager {
                Some(m) => Some(
                    TagManager {
                        selected: if len == 0 {
                            0
                        } else if (m.selected as int) + 1 < len - 1 {
                            (m.selected + 1) as usize
                        } else {
                            (len - 1) as usize
                        },
                    },
                ),
                None => None,
            },
            ..a
        },
        KeyCode::Char('k') | KeyCode::Up => b == App {
            tag_manager: match a.tag_manager {
                Some(m) => Some(
                    TagManager {
                        selected: if len == 0 || m.selected == 0 {
                            0
                        } else {
                            (m.selected - 1) as usize
                        },
                    },
                ),
                None => None,
            },
            ..a
        },
        KeyCode::Char('n') | KeyCode::Char('N') => tag_input_begun(a, b, true),
        KeyCode::Enter => if len == 0 {
            tag_input_begun(a, b, true)
        } else {
            only_logged(a, b, "tag_manager key ignored"@)
        },
        KeyCode::Char('r') => match manager_tag(a) {
            None => b == App { status_message: b.status_message, ..a } && b.status_message@
                == "rename対象のtagがありません"@,
            Some(from) => {
                &&& b.tag_input matches Some(t) && t.text() == single_line(from) && box_ok(t.textarea) && text_box_cursor(
                    t.textarea,
                ) == at_end(text_box_lines(t.textarea)) && (t.mode matches TagInputMode::RenameGlobal {
                    from: f,
                } && f@ == from)
                &&& b.status_message@ == "tag rename: Enterで保存 / Escでキャンセル"@
                &&& b.debug_log.view_log() == log_push(a.debug_log.view_log(), "tag rename overlay opened"@)
                &&& b == App { tag_input: b.tag_input, status_message: b.status_message, debug_log: b.debug_log, ..a }
            },
        },
        _ => only_logged(a, b, "tag_manager key ignored"@),
    }
}

/// The first log line of `handle_tag_binding_mode_key`.
pub open spec fn tag_binding_first_log(a: App, key: Key) -> Seq<char> {
    "handle_tag_binding_mode_key: code="@ + describe_key_spec(key.code) + " page="@ + decimal(
        a.registered_tag_page as nat + 1,
    )
}

/// One key in tag binding mode, after the first log line: `?` opens its
/// help, Enter confirms, Esc cancels, the arrows change page and a letter
/// adds (lowercase) or removes (uppercase) the tag it is bound to.
pub open spec fn tag_binding_key_step(a: App, b: App, key: Key, r: Effect) -> bool {
    match key.code {
        KeyCode::Char('?') => {
            &&& r == Effect::Nothing
            &&& b.debug_log.view_log() == log_push(a.debug_log.view_log(), "tag_binding help opened"@)
            &&& b == App { help_screen: Some(HelpScreen::TagBinding), debug_log: b.debug_log, ..a }
        },
        KeyCode::Enter => tag_binding_confirmed(a, b, r),
        KeyCode::Esc => r == Effect::Nothing && tag_binding_cancelled(a, b),
        KeyCode::Left => r == Effect::Nothing && crate::curator_nav::page_moved(a, b, false, false),
        KeyCode::Right => r == Effect::Nothing && crate::curator_nav::page_moved(a, b, false, true),
        KeyCode::Char(c) => if is_ascii_alpha(c) {
            r == Effect::Nothing && tag_shortcut_handled(a, b, c)
        } else {
            r == Effect::Nothing && only_logged(a, b, "tag_binding_mode key ignored"@)
        },
        _ => r == Effect::Nothing && only_logged(a, b, "tag_binding_mode key ignored"@),
    }
}

impl App {
    /// Handles a key in the tag manager (see `tag_manager_key_step`).
    pub fn handle_tag_manager_key(&mut self, key: Key)
        ensures
            exists|mid: App|
                #[trigger] only_logged(*old(self), mid, tag_manager_first_log(*old(self), key))
                    && tag_manager_key_step(mid, *final(self), key),
    {
        let first = cat4(
            "handle_tag_manager_key: code=",
            describe_key_code(&key.code).as_str(),
            " registered_tags=",
            usize_to_string(self.data.registered_tags.len()).as_str(),
        );
        self.push_debug_log(first.as_str());
        let ghost mid = *self;
        let len = self.data.registered_tags.len();
        match key.code {
            KeyCode::Esc | KeyCode::Char('t') => {
                self.tag_manager = None;
                self.status_message = "tag manager を閉じました".to_owned();
                self.push_debug_log("tag_manager closed");
            },
            KeyCode::Char('j') | KeyCode::Down => {
                if let Some(m) = self.tag_manager {
                    let sel = if len == 0 {
                        0
                    } else {
                        let up = m.selected.saturating_add(1);
                        if up < len - 1 {
                            up
                        } else {
                            len - 1
                        }
                    };
                    self.tag_manager = Some(TagManager { selected: sel });
                }
            },
            KeyCode::Char('k') | KeyCode::Up => {
                if let Some(m) = self.tag_manager {
                    let sel = if len == 0 {
                        0
                    } else {
                        m.selected.saturating_sub(1)
                    };
                    self.tag_manager = Some(TagManager { selected: sel });
                }
            },
            KeyCode::Char('n') | KeyCode::Char('N') => self.begin_new_registered_tag_input(),
            KeyCode::Enter => {
                if len == 0 {
                    self.begin_new_registered_tag_input();
                } else {
                    self.push_debug_log("tag_manager key ignored");
                }
            },
            KeyCode::Char('r') => {
                match self.current_tag_manager_tag() {
                    None => {
                        self.status_message = "rename対象のtagがありません".to_owned();
                    },
                    Some(from) => {
                        let textarea = new_single_line_text_box(from.as_str());
                        proof {
                            lemma_flattened_join(area_lines(from@));
                        }
                        self.tag_input = Some(TagInput { mode: TagInputMode::RenameGlobal { from }, textarea });
                        self.status_message = "tag rename: Enterで保存 / Escでキャンセル".to_owned();
                        self.push_debug_log("tag rename overlay opened");
                    },
                }
            },
            _ => {
                self.push_debug_log("tag_manager key ignored");
            },
        }
        proof {
            assert(first@ == tag_manager_first_log(*old(self), key));
            assert(only_logged(*old(self), mid, tag_manager_first_log(*old(self), key)));
            assert(tag_manager_key_step(mid, *self, key));
        }
    }

    /// Handles a key in tag binding mode (see `tag_binding_key_step`).
    pub fn handle_tag_binding_mode_key(&mut self, key: Key) -> (r: Effect)
        requires
            old(self).wf(),
        ensures
            final(self).wf(),
            exists|mid: App|
                #[trigger] only_logged(*old(self), mid, tag_binding_first_log(*old(self), key))
                    && tag_binding_key_step(mid, *final(self), key, r),
    {
        let first = cat4(
            "handle_tag_binding_mode_key: code=",
            describe_key_code(&key.code).as_str(),
            " page=",
            page_number(self.registered_tag_page).as_str(),
        );
        self.push_debug_log(first.as_str());
        let ghost mid = *self;
        let r = match key.code {
            KeyCode::Char('?') => {
                self.help_screen = Some(HelpScreen::TagBinding);
                self.push_debug_log("tag_binding help opened");
                Effect::Nothing
            },
            KeyCode::Enter => self.confirm_tag_binding_mode(),
            KeyCode::Esc => {
                self.cancel_tag_binding_mode();
                Effect::Nothing
            },
            KeyCode::Left => {
                self.prev_registered_tag_page();
                Effect::Nothing
            },
            KeyCode::Right => {
                self.next_registered_tag_page();
                Effect::Nothing
            },
            KeyCode::Char(c) => {
                if is_ascii_letter(c) {
                    self.handle_tag_shortcut(c);
                } else {
                    self.push_debug_log("tag_binding_mode key ignored");
                }
                Effect::Nothing
            },
            _ => {
                self.push_debug_log("tag_binding_mode key ignored");
                Effect::Nothing
            },
        };
        proof {
            assert(first@ == tag_binding_first_log(*old(self), key));
            assert(only_logged(*old(self), mid, tag_binding_first_log(*old(self), key)));
            assert(tag_binding_key_step(mid, *self, key, r));
        }
        r
    }
}

/// Whether two lists hold the same strings in the same order.
pub fn same_lists(a: &Vec<String>, b: &Vec<String>) -> (r: bool)
    ensures
        r == (a.deep_view() == b.deep_view()),
{
    if a.len() != b.len() {
        assert(a.deep_view().len() != b.deep_view().len());
        return false;
    }
    let mut i: usize = 0;
    while i < a.len()
        invariant
            i <= a.len(),
            a.len() == b.len(),
            forall|k: int| 0 <= k < i ==> a.deep_view()[k] == b.deep_view()[k],
        decreases a.len() - i,
    {
        if !crate::strings::str_eq(a[i].as_str(), b[i].as_str()) {
            assert(a.deep_view()[i as int] != b.deep_view()[i as int]);
            return false;
        }
        i = i + 1;
    }
    assert(a.deep_view() =~= b.deep_view());
    true
}

} // verus!
