//! Editing descriptions, and finishing the work the caller did outside:
//! writing the data, syncing with GitHub, pushing the JSON snapshot.
use crate::background::{
    github_sync_debug_label, github_sync_status_label, github_sync_status_label_spec, json_push_debug_label,
    json_push_debug_label_spec, json_push_debug_log, json_push_debug_log_spec, json_push_status,
    json_push_status_label, json_push_status_label_spec, json_push_status_spec, JsonPushKind, SyncProgressKind,
};
use crate::curator::{log_push, log_pushes, synced, AfterPersist, App, EditorField, Effect, TextEditor};
use crate::curator_groups::{manager_on_group, position_or_zero};
use crate::curator_nav::{opt_name, restored, selected_name};
use crate::curator_tags::only_logged;
use crate::github::{apply_fetched_spec, fetched_views, FetchedRepo};
use crate::json_auto_push::AutoPushOutcome;
use crate::keys::{str_debug, debug_str, Key, KeyCode};
use crate::model::{repo_views, stable_sort_newest_first};
use crate::strings::{cat2, cat3, cat4, decimal, join_with, usize_to_string};
use crate::text_box::{area_lines, at_end, box_ok, key_pressed, new_text_box, press_key, text_box_cursor, text_box_value};
use vstd::prelude::*;

verus! {

broadcast use crate::curator_nav::lemma_restored_frame;

/// The text the editor saves: its lines joined with a space for the
/// one-line description, with newlines for the three-line one.
pub open spec fn text_for_save(field: EditorField, lines: Seq<Seq<char>>) -> Seq<char> {
    match field {
        EditorField::ShortDesc => join_with(lines, " "@),
        EditorField::LongDesc => join_with(lines, "\n"@),
    }
}

/// The description `field` of repository `i`.
pub open spec fn desc_of(a: App, i: int, field: EditorField) -> Seq<char> {
    match field {
        EditorField::ShortDesc => a.data.repos@[i].desc_short@,
        EditorField::LongDesc => a.data.repos@[i].desc_long@,
    }
}

/// `b` is `a` with repository `i`'s description `field` set to `text`.
pub open spec fn desc_set(a: App, b: App, i: int, field: EditorField, text: Seq<char>) -> bool {
    &&& b.data.repos@.len() == a.data.repos@.len()
    &&& forall|k: int| 0 <= k < a.data.repos@.len() && k != i ==> b.data.repos@[k] == a.data.repos@[k]
    &&& match field {
        EditorField::ShortDesc => b.data.repos@[i].desc_short@ == text && b.data.repos@[i] == (crate::model::Repo {
            desc_short: b.data.repos@[i].desc_short,
            ..a.data.repos@[i]
        }),
        EditorField::LongDesc => b.data.repos@[i].desc_long@ == text && b.data.repos@[i] == (crate::model::Repo {
            desc_long: b.data.repos@[i].desc_long,
            ..a.data.repos@[i]
        }),
    }
    &&& b.data == (crate::model::RepoData { repos: b.data.repos, ..a.data })
}

/// The effect of `start_editor(field)`.
pub open spec fn editor_started(a: App, b: App, field: EditorField, r: Effect) -> bool {
    if a.help_screen is Some || a.tag_manager is Some {
        r == Effect::Nothing && b == a
    } else {
        match a.selected_data_index() {
            None => r == Effect::Nothing && b == App { status_message: b.status_message, ..a } && b.status_message@
                == "編集対象のrepoがありません"@,
            Some(i) => {
                let text = desc_of(a, i as int, field);
                &&& r == Effect::Nothing
                &&& b.editor matches Some(e) && e.field == field && e.lines() == area_lines(text) && text_box_cursor(e.textarea)
                    == at_end(e.lines()) && box_ok(e.textarea)
                &&& b.status_message@ == match field {
                    EditorField::ShortDesc => "1行説明を編集中: Enterで保存 / Escでキャンセル"@,
                    EditorField::LongDesc => "3行説明を編集中: Ctrl+Sで保存 / Enterで改行 / Escでキャンセル"@,
                }
                &&& b == App { editor: b.editor, status_message: b.status_message, ..a }
            },
        }
    }
}

/// The effect of `save_editor`: the edited text replaces the description
/// and a write is asked for.
pub open spec fn editor_saved(a: App, b: App, r: Effect) -> bool {
    match a.selected_data_index() {
        None => r == Effect::Nothing && b == App { editor: None, status_message: b.status_message, ..a }
            && b.status_message@ == "保存対象のrepoがありません"@,
        Some(i) => match a.editor {
            None => r == Effect::Nothing && b == a,
            Some(e) => {
                &&& r == Effect::Persist
                &&& desc_set(a, b, i as int, e.field, text_for_save(e.field, e.lines()))
                &&& b.pending matches Some(AfterPersist::EditorSaved { index, field, previous, repo_name })
                    && index == i && field == e.field && previous@ == desc_of(a, i as int, e.field) && repo_name@
                    == a.data.repos@[i as int].name@
                &&& b == App { data: b.data, editor: None, pending: b.pending, ..a }
            },
        },
    }
}

/// One key in the text editor: Ctrl+S saves, as does Enter in the one-line
/// description; Esc cancels; any other key goes to the text area, which the
/// one-line description keeps to one line, and nothing but the editor
/// changes.
pub open spec fn editor_key_step(a: App, b: App, key: Key, r: Effect) -> bool {
    match a.editor {
        None => r == Effect::Nothing && b == a,
        Some(e) => if key.ctrl && (key.code == KeyCode::Char('s') || key.code == KeyCode::Char('S')) || (key.code
            == KeyCode::Enter && e.field == EditorField::ShortDesc) {
            editor_saved(a, b, r)
        } else if key.code == KeyCode::Esc {
            r == Effect::Nothing && b == App { editor: None, status_message: b.status_message, ..a } && b.status_message@
                == "編集をキャンセル"@
        } else {
            &&& r == Effect::Nothing
            &&& b.editor matches Some(f) && f.field == e.field && key_pressed(
                e.textarea,
                key,
                f.textarea,
                e.field == EditorField::ShortDesc,
            )
            &&& b == App { editor: b.editor, ..a }
        },
    }
}

impl App {
    /// Opens the text editor on the selected repository's description
    /// `field` (see `editor_started`).
    pub fn start_editor(&mut self, field: EditorField) -> (r: Effect)
        ensures
            editor_started(*old(self), *final(self), field, r),
    {
        if self.help_screen.is_some() || self.tag_manager.is_some() {
            return Effect::Nothing;
        }
        let index = match self.selected_repo_data_index() {
            Some(i) => i,
            None => {
                self.status_message = "編集対象のrepoがありません".to_owned();
                return Effect::Nothing;
            },
        };
        let text = match field {
            EditorField::ShortDesc => self.data.repos[index].desc_short.clone(),
            EditorField::LongDesc => self.data.repos[index].desc_long.clone(),
        };
        let textarea = new_text_box(text.as_str());
        self.editor = Some(TextEditor { field, textarea });
        self.status_message = match field {
            EditorField::ShortDesc => "1行説明を編集中: Enterで保存 / Escでキャンセル".to_owned(),
            EditorField::LongDesc => "3行説明を編集中: Ctrl+Sで保存 / Enterで改行 / Escでキャンセル".to_owned(),
        };
        Effect::Nothing
    }

    /// Saves the edited text into the description (see `editor_saved`).
    pub fn save_editor(&mut self) -> (r: Effect)
        ensures
            editor_saved(*old(self), *final(self), r),
    {
        let index = match self.selected_repo_data_index() {
            Some(i) => i,
            None => {
                self.editor = None;
                self.status_message = "保存対象のrepoがありません".to_owned();
                return Effect::Nothing;
            },
        };
        let editor = match self.editor.take() {
            Some(e) => e,
            None => return Effect::Nothing,
        };
        let repo_name = self.data.repos[index].name.clone();
        let text = match editor.field {
            EditorField::ShortDesc => text_box_value(&editor.textarea, " "),
            EditorField::LongDesc => text_box_value(&editor.textarea, "\n"),
        };
        let ghost before = self.data.repos@;
        let mut repo = self.data.repos.remove(index);
        let previous = match editor.field {
            EditorField::ShortDesc => {
                let p = repo.desc_short.clone();
                repo.desc_short = text;
                p
            },
            EditorField::LongDesc => {
                let p = repo.desc_long.clone();
                repo.desc_long = text;
                p
            },
        };
        let ghost updated = repo;
        let ghost mid = self.data.repos@;
        self.data.repos.insert(index, repo);
        assert(self.data.repos@ =~= before.update(index as int, updated)) by {
            assert forall|k: int| 0 <= k < before.len() implies self.data.repos@[k] == before.update(index as int, updated)[k] by {
                if k < index {
                    assert(mid[k] == before[k]);
                } else if k > index {
                    assert(mid[k - 1] == before[k]);
                }
            }
        }
        self.pending = Some(AfterPersist::EditorSaved { index, field: editor.field, previous, repo_name });
        Effect::Persist
    }

    /// Handles a key in the text editor (see `editor_key_step`).
    pub fn handle_editor_key(&mut self, key: Key) -> (r: Effect)
        requires
            old(self).wf(),
        ensures
            final(self).wf(),
            editor_key_step(*old(self), *final(self), key, r),
    {
        let field = match &self.editor {
            Some(e) => e.field,
            None => return Effect::Nothing,
        };
        if key.ctrl && (key.code == KeyCode::Char('s') || key.code == KeyCode::Char('S')) {
            return self.save_editor();
        }
        match key.code {
            KeyCode::Enter if field == EditorField::ShortDesc => self.save_editor(),
            KeyCode::Esc => {
                self.editor = None;
                self.status_message = "編集をキャンセル".to_owned();
                Effect::Nothing
            },
            _ => {
                match self.editor.take() {
                    Some(mut e) => {
                        press_key(&mut e.textarea, key, field == EditorField::ShortDesc);
                        self.editor = Some(e);
                    },
                    None => {},
                }
                Effect::Nothing
            },
        }
    }
}

/// The view of a write's outcome: nothing, or the error's text.
pub open spec fn outcome_view(o: Result<(), String>) -> Result<(), Seq<char>> {
    match o {
        Ok(_) => Ok(()),
        Err(e) => Err(e@),
    }
}

/// The effect of a finished write on a pending tag addition or rename: on
/// success the selection is synced, the tag manager put on the tag, and the
/// status line tells what was done; on failure it tells the error.
pub open spec fn tag_write_done(
    a0: App,
    b: App,
    value: Seq<char>,
    ok_status: Seq<char>,
    ok_log: Seq<char>,
    err_log: Seq<char>,
    outcome: Result<(), Seq<char>>,
) -> bool {
    match outcome {
        Ok(_) => {
            let s = synced(a0);
            &&& b.status_message@ == ok_status
            &&& b.debug_log.view_log() == log_push(a0.debug_log.view_log(), ok_log)
            &&& b == App {
                tag_manager: match s.tag_manager {
                    Some(_) => Some(
                        crate::curator::TagManager {
                            selected: position_or_zero(s.data.registered_tags.deep_view(), value),
                        },
                    ),
                    None => None,
                },
                status_message: b.status_message,
                debug_log: b.debug_log,
                ..s
            }
        },
        Err(e) => {
            &&& b.status_message@ == "保存失敗: "@ + e
            &&& b.debug_log.view_log() == log_push(a0.debug_log.view_log(), err_log + e)
            &&& b == App { status_message: b.status_message, debug_log: b.debug_log, ..a0 }
        },
    }
}

/// The effect of a finished write on a pending group addition, assignment
/// or rename: on success the selection is synced, the group manager put on
/// the group, and the status line tells what was done; on failure it tells
/// the error.
pub open spec fn group_write_done(
    a0: App,
    b: App,
    value: Seq<char>,
    ok_status: Seq<char>,
    ok_log: Seq<char>,
    err_log: Seq<char>,
    outcome: Result<(), Seq<char>>,
) -> bool {
    match outcome {
        Ok(_) => {
            let s = synced(a0);
            &&& b.status_message@ == ok_status
            &&& b.debug_log.view_log() == log_push(a0.debug_log.view_log(), ok_log)
            &&& b == App {
                group_manager: match s.group_manager {
                    Some(_) => Some(
                        crate::curator::GroupManager {
                            selected: position_or_zero(s.data.registered_groups.deep_view(), value),
                        },
                    ),
                    None => None,
                },
                status_message: b.status_message,
                debug_log: b.debug_log,
                ..s
            }
        },
        Err(e) => {
            &&& b.status_message@ == "保存失敗: "@ + e
            &&& b.debug_log.view_log() == log_push(a0.debug_log.view_log(), err_log + e)
            &&& b == App { status_message: b.status_message, debug_log: b.debug_log, ..a0 }
        },
    }
}

/// `b` is `a` with repository `i`'s tags (or group) put back as they were.
pub open spec fn repo_tags_restored(a: App, b: App, i: int, tags: Seq<Seq<char>>) -> bool {
    if 0 <= i < a.data.repos@.len() {
        &&& b.data.repos@.len() == a.data.repos@.len()
        &&& forall|k: int| 0 <= k < a.data.repos@.len() && k != i ==> b.data.repos@[k] == a.data.repos@[k]
        &&& b.data.repos@[i].tags.deep_view() == tags
        &&& b.data.repos@[i] == (crate::model::Repo { tags: b.data.repos@[i].tags, ..a.data.repos@[i] })
        &&& b.data == (crate::model::RepoData { repos: b.data.repos, ..a.data })
    } else {
        b.data == a.data
    }
}

/// `b`'s data is `a`'s with repository `i`'s group set to `group`.
pub open spec fn repo_group_restored(a: App, b: App, i: int, group: Seq<char>) -> bool {
    if 0 <= i < a.data.repos@.len() {
        &&& b.data.repos@.len() == a.data.repos@.len()
        &&& forall|k: int| 0 <= k < a.data.repos@.len() && k != i ==> b.data.repos@[k] == a.data.repos@[k]
        &&& b.data.repos@[i].group@ == group
        &&& b.data.repos@[i] == (crate::model::Repo { group: b.data.repos@[i].group, ..a.data.repos@[i] })
        &&& b.data == (crate::model::RepoData { repos: b.data.repos, ..a.data })
    } else {
        b.data == a.data
    }
}

/// The effect of `persist_finished(outcome)` on what was pending.
pub open spec fn persist_done(a: App, b: App, outcome: Result<(), Seq<char>>, r: Effect) -> bool {
    match a.pending {
        None => r == Effect::Nothing && b == a,
        Some(p) => {
            let a0 = App { pending: None, ..a };
            match p {
                AfterPersist::TagAdded { value, registered_only } => r == Effect::Nothing && tag_write_done(
                    a0,
                    b,
                    value@,
                    if registered_only {
                        "tag追加(global): "@ + value@
                    } else {
                        "tag追加: "@ + value@
                    },
                    if registered_only {
                        "registered tag added and persisted: "@ + str_debug(value@)
                    } else {
                        "tag added and persisted: "@ + str_debug(value@)
                    },
                    if registered_only {
                        "persist failed after registered tag add: "@
                    } else {
                        "persist failed after tag add: "@
                    },
                    outcome,
                ),
                AfterPersist::TagRenamed { from, value } => r == Effect::Nothing && tag_write_done(
                    a0,
                    b,
                    value@,
                    "tag rename: "@ + from@ + " -> "@ + value@,
                    "tag renamed and persisted: "@ + str_debug(from@) + " -> "@ + str_debug(value@),
                    "persist failed after tag rename: "@,
                    outcome,
                ),
                AfterPersist::GroupAdded { value } => r == Effect::Nothing && group_write_done(
                    a0,
                    b,
                    value@,
                    "group追加(global): "@ + value@,
                    "registered group added and persisted: "@ + str_debug(value@),
                    "persist failed after registered group add: "@,
                    outcome,
                ),
                AfterPersist::GroupRenamed { from, value } => r == Effect::Nothing && group_write_done(
                    a0,
                    b,
                    value@,
                    "group rename: "@ + from@ + " -> "@ + value@,
                    "group renamed and persisted: "@ + str_debug(from@) + " -> "@ + str_debug(value@),
                    "persist failed after group rename: "@,
                    outcome,
                ),
                AfterPersist::GroupAssigned { index, repo_name, previous_group, value } => r == Effect::Nothing && match outcome {
                    Ok(_) => group_write_done(
                        a0,
                        b,
                        value@,
                        "group更新: "@ + repo_name@,
                        "group assigned and persisted: repo="@ + repo_name@ + " group="@ + str_debug(value@),
                        Seq::empty(),
                        outcome,
                    ),
                    Err(e) => {
                        &&& repo_group_restored(a0, b, index as int, previous_group@)
                        &&& b.status_message@ == "保存失敗: "@ + e
                        &&& b.debug_log.view_log() == log_push(
                            a0.debug_log.view_log(),
                            "persist failed after group assign: repo="@ + repo_name@ + " error="@ + e,
                        )
                        &&& b == App { data: b.data, status_message: b.status_message, debug_log: b.debug_log, ..a0 }
                    },
                },
                AfterPersist::TagBindingConfirmed { repo_index, repo_name, previous_tags } => r == Effect::Nothing && match outcome {
                    Ok(_) => {
                        let s = synced(App { help_screen: None, tag_binding_mode: None, ..a0 });
                        &&& b.status_message@ == "tag更新: "@ + repo_name@
                        &&& b.debug_log.view_log() == log_push(
                            a0.debug_log.view_log(),
                            "tag_binding_mode confirmed and persisted: repo="@ + repo_name@,
                        )
                        &&& b == App { status_message: b.status_message, debug_log: b.debug_log, ..s }
                    },
                    Err(e) => {
                        &&& repo_tags_restored(a0, b, repo_index as int, previous_tags.deep_view())
                        &&& b.status_message@ == "保存失敗: "@ + e
                        &&& b.debug_log.view_log() == log_push(
                            a0.debug_log.view_log(),
                            "tag_binding_mode persist failed: repo="@ + repo_name@ + " error="@ + e,
                        )
                        &&& b == App { data: b.data, status_message: b.status_message, debug_log: b.debug_log, ..a0 }
                    },
                },
                AfterPersist::GroupBindingConfirmed { repo_index, repo_name, previous_group } => r == Effect::Nothing && match outcome {
                    Ok(_) => {
                        let s = synced(App { help_screen: None, group_binding_mode: None, ..a0 });
                        &&& b.status_message@ == "group更新: "@ + repo_name@
                        &&& b.debug_log.view_log() == log_push(
                            a0.debug_log.view_log(),
                            "group_binding_mode confirmed and persisted: repo="@ + repo_name@,
                        )
                        &&& b == App { status_message: b.status_message, debug_log: b.debug_log, ..s }
                    },
                    Err(e) => {
                        &&& repo_group_restored(a0, b, repo_index as int, previous_group@)
                        &&& b.status_message@ == "保存失敗: "@ + e
                        &&& b.debug_log.view_log() == log_push(
                            a0.debug_log.view_log(),
                            "group_binding_mode persist failed: repo="@ + repo_name@ + " error="@ + e,
                        )
                        &&& b == App { data: b.data, status_message: b.status_message, debug_log: b.debug_log, ..a0 }
                    },
                },
                AfterPersist::EditorSaved { index, field, previous, repo_name } => r == Effect::Nothing && match outcome {
                    Ok(_) => b == App { status_message: b.status_message, ..a0 } && b.status_message@ == "保存完了: "@
                        + repo_name@ + " の"@ + match field {
                        EditorField::ShortDesc => "1行説明"@,
                        EditorField::LongDesc => "3行説明"@,
                    },
                    Err(e) => {
                        &&& (if 0 <= index < a0.data.repos@.len() {
                            desc_set(a0, b, index as int, field, previous@)
                        } else {
                            b.data == a0.data
                        })
                        &&& b.status_message@ == "保存失敗: "@ + e
                        &&& b == App { data: b.data, status_message: b.status_message, ..a0 }
                    },
                },
                AfterPersist::GithubSynced { kind, added, updated } => {
                    let label = github_sync_status_label_spec(kind);
                    let debug = match kind {
                        SyncProgressKind::StartupGithub => "startup github sync"@,
                        SyncProgressKind::ManualGithub => "manual github sync"@,
                        _ => "github sync"@,
                    };
                    let succeeded = debug + " succeeded: added="@ + decimal(added as nat) + " updated="@ + decimal(
                        updated as nat,
                    );
                    let tail = if kind == SyncProgressKind::StartupGithub {
                        seq![succeeded, "startup json auto push scheduled in background"@]
                    } else {
                        seq![succeeded]
                    };
                    &&& r == if kind == SyncProgressKind::StartupGithub {
                        Effect::StartStartupJsonPush
                    } else {
                        Effect::Nothing
                    }
                    &&& match outcome {
                        Ok(_) => {
                            &&& b.status_message@ == label + "完了: "@ + decimal(added as nat) + "件追加 / "@ + decimal(
                                updated as nat,
                            ) + "件更新"@
                            &&& b.debug_log.view_log() == log_pushes(a0.debug_log.view_log(), tail)
                        },
                        Err(e) => {
                            &&& b.status_message@ == label + "の保存失敗: "@ + e
                            &&& b.debug_log.view_log() == log_pushes(
                                a0.debug_log.view_log(),
                                seq![debug + " persist failed: "@ + e] + tail,
                            )
                        },
                    }
                    &&& b == App { status_message: b.status_message, debug_log: b.debug_log, ..a0 }
                },
                AfterPersist::JsonPushRecorded { kind, outcome: pushed } => r == Effect::Nothing && match outcome {
                    Ok(_) => {
                        &&& b.status_message@ == json_push_status_spec(kind, pushed)
                        &&& b.debug_log.view_log() == log_push(a0.debug_log.view_log(), json_push_debug_log_spec(kind, pushed))
                        &&& b == App { status_message: b.status_message, debug_log: b.debug_log, ..a0 }
                    },
                    Err(e) => {
                        &&& b.status_message@ == json_push_status_label_spec(kind) + "状態の保存失敗: "@ + e
                        &&& b.debug_log.view_log() == log_push(
                            a0.debug_log.view_log(),
                            json_push_debug_label_spec(kind) + " persist failed: "@ + e,
                        )
                        &&& b == App { status_message: b.status_message, debug_log: b.debug_log, ..a0 }
                    },
                },
                AfterPersist::Refreshed { repo_name, added, updated } => r == Effect::Nothing && match outcome {
                    Ok(_) => {
                        &&& b.status_message@ == "GitHub同期完了: "@ + decimal(added as nat) + "件追加 / "@ + decimal(
                            updated as nat,
                        ) + "件更新"@
                        &&& b == App { status_message: b.status_message, ..restored(a0, opt_name(repo_name)) }
                    },
                    Err(e) => b.status_message@ == "GitHub同期失敗: "@ + e && b == App {
                        status_message: b.status_message,
                        ..a0
                    },
                },
            }
        },
    }
}

impl App {
    /// Finishes what waited on writing the data, given how the write went
    /// (see `persist_done`).
    pub fn persist_finished(&mut self, outcome: Result<(), String>) -> (r: Effect)
        requires
            old(self).wf(),
        ensures
            final(self).wf(),
            persist_done(*old(self), *final(self), outcome_view(outcome), r),
    {
        let pending = match self.pending.take() {
            Some(p) => p,
            None => return Effect::Nothing,
        };
        match pending {
            AfterPersist::TagAdded { value, registered_only } => {
                match outcome {
                    Ok(()) => {
                        self.sync_selection();
                        self.select_tag_in_manager(value.as_str());
                        self.status_message = if registered_only {
                            cat2("tag追加(global): ", value.as_str())
                        } else {
                            cat2("tag追加: ", value.as_str())
                        };
                        let log = if registered_only {
                            cat2("registered tag added and persisted: ", debug_str(value.as_str()).as_str())
                        } else {
                            cat2("tag added and persisted: ", debug_str(value.as_str()).as_str())
                        };
                        self.push_debug_log(log.as_str());
                    },
                    Err(e) => {
                        self.status_message = cat2("保存失敗: ", e.as_str());
                        let log = if registered_only {
                            cat2("persist failed after registered tag add: ", e.as_str())
                        } else {
                            cat2("persist failed after tag add: ", e.as_str())
                        };
                        self.push_debug_log(log.as_str());
                    },
                }
                Effect::Nothing
            },
            AfterPersist::TagRenamed { from, value } => {
                match outcome {
                    Ok(()) => {
                        self.sync_selection();
                        self.select_tag_in_manager(value.as_str());
                        self.status_message = cat4("tag rename: ", from.as_str(), " -> ", value.as_str());
                        let log = cat4(
                            "tag renamed and persisted: ",
                            debug_str(from.as_str()).as_str(),
                            " -> ",
                            debug_str(value.as_str()).as_str(),
                        );
                        self.push_debug_log(log.as_str());
                    },
                    Err(e) => {
                        self.status_message = cat2("保存失敗: ", e.as_str());
                        let log = cat2("persist failed after tag rename: ", e.as_str());
                        self.push_debug_log(log.as_str());
                    },
                }
                Effect::Nothing
            },
            AfterPersist::GroupAdded { value } => {
                match outcome {
                    Ok(()) => {
                        self.sync_selection();
                        self.select_group_in_manager(value.as_str());
                        self.status_message = cat2("group追加(global): ", value.as_str());
                        let log = cat2("registered group added and persisted: ", debug_str(value.as_str()).as_str());
                        self.push_debug_log(log.as_str());
                    },
                    Err(e) => {
                        self.status_message = cat2("保存失敗: ", e.as_str());
                        let log = cat2("persist failed after registered group add: ", e.as_str());
                        self.push_debug_log(log.as_str());
                    },
                }
                Effect::Nothing
            },
            AfterPersist::GroupRenamed { from, value } => {
                match outcome {
                    Ok(()) => {
                        self.sync_selection();
                        self.select_group_in_manager(value.as_str());
                        self.status_message = cat4("group rename: ", from.as_str(), " -> ", value.as_str());
                        let log = cat4(
                            "group renamed and persisted: ",
                            debug_str(from.as_str()).as_str(),
                            " -> ",
                            debug_str(value.as_str()).as_str(),
                        );
                        self.push_debug_log(log.as_str());
                    },
                    Err(e) => {
                        self.status_message = cat2("保存失敗: ", e.as_str());
                        let log = cat2("persist failed after group rename: ", e.as_str());
                        self.push_debug_log(log.as_str());
                    },
                }
                Effect::Nothing
            },
            AfterPersist::GroupAssigned { index, repo_name, previous_group, value } => {
                match outcome {
                    Ok(()) => {
                        self.sync_selection();
                        self.select_group_in_manager(value.as_str());
                        self.status_message = cat2("group更新: ", repo_name.as_str());
                        let log = cat4(
                            "group assigned and persisted: repo=",
                            repo_name.as_str(),
                            " group=",
                            debug_str(value.as_str()).as_str(),
                        );
                        self.push_debug_log(log.as_str());
                    },
                    Err(e) => {
                        self.set_repo_group(index, previous_group);
                        self.status_message = cat2("保存失敗: ", e.as_str());
                        let log = cat4("persist failed after group assign: repo=", repo_name.as_str(), " error=", e.as_str());
                        self.push_debug_log(log.as_str());
                    },
                }
                Effect::Nothing
            },
            AfterPersist::TagBindingConfirmed { repo_index, repo_name, previous_tags } => {
                match outcome {
                    Ok(()) => {
                        self.help_screen = None;
                        self.tag_binding_mode = None;
                        self.sync_selection();
                        self.status_message = cat2("tag更新: ", repo_name.as_str());
                        let log = cat2("tag_binding_mode confirmed and persisted: repo=", repo_name.as_str());
                        self.push_debug_log(log.as_str());
                    },
                    Err(e) => {
                        self.set_repo_tags(repo_index, previous_tags);
                        self.status_message = cat2("保存失敗: ", e.as_str());
                        let log = cat4("tag_binding_mode persist failed: repo=", repo_name.as_str(), " error=", e.as_str());
                        self.push_debug_log(log.as_str());
                    },
                }
                Effect::Nothing
            },
            AfterPersist::GroupBindingConfirmed { repo_index, repo_name, previous_group } => {
                match outcome {
                    Ok(()) => {
                        self.help_screen = None;
                        self.group_binding_mode = None;
                        self.sync_selection();
                        self.status_message = cat2("group更新: ", repo_name.as_str());
                        let log = cat2("group_binding_mode confirmed and persisted: repo=", repo_name.as_str());
                        self.push_debug_log(log.as_str());
                    },
                    Err(e) => {
                        self.set_repo_group(repo_index, previous_group);
                        self.status_message = cat2("保存失敗: ", e.as_str());
                        let log = cat4("group_binding_mode persist failed: repo=", repo_name.as_str(), " error=", e.as_str());
                        self.push_debug_log(log.as_str());
                    },
                }
                Effect::Nothing
            },
            AfterPersist::EditorSaved { index, field, previous, repo_name } => {
                match outcome {
                    Ok(()) => {
                        let label = match field {
                            EditorField::ShortDesc => "1行説明",
                            EditorField::LongDesc => "3行説明",
                        };
                        self.status_message = cat4("保存完了: ", repo_name.as_str(), " の", label);
                    },
                    Err(e) => {
                        if index < self.data.repos.len() {
                            self.set_repo_desc(index, field, previous);
                        }
                        self.status_message = cat2("保存失敗: ", e.as_str());
                    },
                }
                Effect::Nothing
            },
            AfterPersist::GithubSynced { kind, added, updated } => {
                let label = github_sync_status_label(kind);
                let debug = github_sync_debug_label(kind);
                let ghost l0 = self.debug_log.view_log();
                match &outcome {
                    Ok(()) => {
                        let mut s = cat4(label, "完了: ", usize_to_string(added).as_str(), "件追加 / ");
                        crate::strings::append_str(&mut s, usize_to_string(updated).as_str());
                        crate::strings::append_str(&mut s, "件更新");
                        self.status_message = s;
                    },
                    Err(e) => {
                        self.status_message = cat3(label, "の保存失敗: ", e.as_str());
                        let log = cat3(debug, " persist failed: ", e.as_str());
                        self.push_debug_log(log.as_str());
                    },
                }
                let mut log = cat4(debug, " succeeded: added=", usize_to_string(added).as_str(), " updated=");
                crate::strings::append_str(&mut log, usize_to_string(updated).as_str());
                self.push_debug_log(log.as_str());
                let r = if kind == SyncProgressKind::StartupGithub {
                    self.push_debug_log("startup json auto push scheduled in background");
                    Effect::StartStartupJsonPush
                } else {
                    Effect::Nothing
                };
                proof {
                    reveal_with_fuel(log_pushes, 4);
                }
                r
            },
            AfterPersist::JsonPushRecorded { kind, outcome: pushed } => {
                match outcome {
                    Ok(()) => {
                        self.status_message = json_push_status(kind, &pushed);
                        let log = json_push_debug_log(kind, &pushed);
                        self.push_debug_log(log.as_str());
                    },
                    Err(e) => {
                        self.status_message = cat3(json_push_status_label(kind), "状態の保存失敗: ", e.as_str());
                        let log = cat3(json_push_debug_label(kind), " persist failed: ", e.as_str());
                        self.push_debug_log(log.as_str());
                    },
                }
                Effect::Nothing
            },
            AfterPersist::Refreshed { repo_name, added, updated } => {
                match outcome {
                    Ok(()) => {
                        match &repo_name {
                            Some(n) => self.restore_selection(Some(n.as_str())),
                            None => self.restore_selection(None),
                        }
                        let mut s = cat4("GitHub同期完了: ", usize_to_string(added).as_str(), "件追加 / ", usize_to_string(updated).as_str());
                        crate::strings::append_str(&mut s, "件更新");
                        self.status_message = s;
                    },
                    Err(e) => {
                        self.status_message = cat2("GitHub同期失敗: ", e.as_str());
                    },
                }
                Effect::Nothing
            },
        }
    }

    /// Puts the tag manager's selection on `tag` (the first tag when it is
    /// not registered).
    pub fn select_tag_in_manager(&mut self, tag: &str)
        ensures
            *final(self) == (App {
                tag_manager: match old(self).tag_manager {
                    Some(_) => Some(
                        crate::curator::TagManager {
                            selected: position_or_zero(old(self).data.registered_tags.deep_view(), tag@),
                        },
                    ),
                    None => None,
                },
                ..*old(self)
            }),
    {
        let selected = crate::curator_groups::find_position_or_zero(&self.data.registered_tags, tag);
        if let Some(_) = self.tag_manager {
            self.tag_manager = Some(crate::curator::TagManager { selected });
        }
    }

    /// Sets repository `index`'s tags, when there is such a repository.
    pub fn set_repo_tags(&mut self, index: usize, tags: Vec<String>)
        ensures
            repo_tags_restored(*old(self), *final(self), index as int, tags.deep_view()),
            *final(self) == (App { data: final(self).data, ..*old(self) }),
    {
        if index >= self.data.repos.len() {
            return;
        }
        let ghost before = self.data.repos@;
        let mut repo = self.data.repos.remove(index);
        repo.tags = tags;
        let ghost updated = repo;
        let ghost mid = self.data.repos@;
        self.data.repos.insert(index, repo);
        assert(self.data.repos@ =~= before.update(index as int, updated)) by {
            assert forall|k: int| 0 <= k < before.len() implies self.data.repos@[k] == before.update(index as int, updated)[k] by {
                if k < index {
                    assert(mid[k] == before[k]);
                } else if k > index {
                    assert(mid[k - 1] == before[k]);
                }
            }
        }
    }

    /// Sets repository `index`'s group, when there is such a repository.
    pub fn set_repo_group(&mut self, index: usize, group: String)
        ensures
            repo_group_restored(*old(self), *final(self), index as int, group@),
            *final(self) == (App { data: final(self).data, ..*old(self) }),
    {
        if index >= self.data.repos.len() {
            return;
        }
        let ghost before = self.data.repos@;
        let mut repo = self.data.repos.remove(index);
        repo.group = group;
        let ghost updated = repo;
        let ghost mid = self.data.repos@;
        self.data.repos.insert(index, repo);
        assert(self.data.repos@ =~= before.update(index as int, updated)) by {
            assert forall|k: int| 0 <= k < before.len() implies self.data.repos@[k] == before.update(index as int, updated)[k] by {
                if k < index {
                    assert(mid[k] == before[k]);
                } else if k > index {
                    assert(mid[k - 1] == before[k]);
                }
            }
        }
    }

    /// Sets repository `index`'s description `field`.
    pub fn set_repo_desc(&mut self, index: usize, field: EditorField, text: String)
        requires
            index < old(self).data.repos.len(),
        ensures
            desc_set(*old(self), *final(self), index as int, field, text@),
            *final(self) == (App { data: final(self).data, ..*old(self) }),
    {
        let ghost before = self.data.repos@;
        let mut repo = self.data.repos.remove(index);
        match field {
            EditorField::ShortDesc => repo.desc_short = text,
            EditorField::LongDesc => repo.desc_long = text,
        }
        let ghost updated = repo;
        let ghost mid = self.data.repos@;
        self.data.repos.insert(index, repo);
        assert(self.data.repos@ =~= before.update(index as int, updated)) by {
            assert forall|k: int| 0 <= k < before.len() implies self.data.repos@[k] == before.update(index as int, updated)[k] by {
                if k < index {
                    assert(mid[k] == before[k]);
                } else if k > index {
                    assert(mid[k - 1] == before[k]);
                }
            }
        }
    }
}

} // verus!
