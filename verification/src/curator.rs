//! The curator's screens as a state machine. Each key press moves the state
//! and may ask the caller for outside work (an `Effect`): writing the data,
//! syncing with GitHub, or pushing the JSON snapshot; the caller reports back.
use crate::keys::{ascii_lower, ascii_lower_code, Key};
use crate::listing::{views_of, visible_list, visible_repo_indices};
use crate::model::{list_contains, repo_views, RepoData};
use crate::modes::{DescDisplayMode, SortMode};
use crate::strings::{append_str, decimal, join_with, str_eq, strictly_sorted, usize_to_string};
use crate::text_box::{box_ok, text_box_lines, text_box_value, TextBox};
use crate::tags::{binding_keys, clamp_tag_page, page_slice, tag_bindings_for_page, tag_page_count, TagBinding};
use std::collections::VecDeque;
use vstd::prelude::*;

verus! {

/// How many entries the debug log keeps.
pub const DEBUG_LOG_LIMIT: usize = 200;

/// The help screen shown over the others.
#[derive(Debug, Clone, Copy, PartialEq, Eq, Structural)]
pub enum HelpScreen {
    Main,
    TagBinding,
    GroupBinding,
    Filter,
}

/// `d` with leading zeros up to `width` characters.
pub open spec fn zero_pad(d: Seq<char>, width: nat) -> Seq<char>
    decreases width - d.len(),
{
    if d.len() >= width {
        d
    } else {
        zero_pad(seq!['0'] + d, width)
    }
}

/// A debug log entry: its number, zero-padded to four digits, and the text.
pub open spec fn log_entry(seq: nat, msg: Seq<char>) -> Seq<char> {
    "#"@ + zero_pad(decimal(seq), 4) + " "@ + msg
}

/// The debug log as entries and the number of the next one.
pub type LogView = (Seq<Seq<char>>, nat);

/// The log after one more entry: the oldest dropped when the log is full.
pub open spec fn log_push(l: LogView, msg: Seq<char>) -> LogView {
    let kept = if l.0.len() >= DEBUG_LOG_LIMIT {
        l.0.drop_first()
    } else {
        l.0
    };
    (kept.push(log_entry(l.1, msg)), if l.1 >= usize::MAX {
        0
    } else {
        (l.1 + 1) as nat
    })
}

/// The log after the given entries, in order.
pub open spec fn log_pushes(l: LogView, msgs: Seq<Seq<char>>) -> LogView
    decreases msgs.len(),
{
    if msgs.len() == 0 {
        l
    } else {
        log_push(log_pushes(l, msgs.drop_last()), msgs.last())
    }
}

/// The debug log: the latest entries and the number of the next one.
pub struct DebugLog {
    pub entries: VecDeque<String>,
    pub seq: usize,
}

impl DebugLog {
    /// The log as entries and next number.
    pub open spec fn view_log(&self) -> LogView {
        (self.entries.deep_view(), self.seq as nat)
    }

    /// An empty log.
    pub fn new() -> (r: DebugLog)
        ensures
            r.view_log() == (Seq::<Seq<char>>::empty(), 0nat),
    {
        let r = DebugLog { entries: VecDeque::new(), seq: 0 };
        assert(r.entries.deep_view() =~= Seq::<Seq<char>>::empty());
        r
    }

    /// Adds an entry numbered with the next number, dropping the oldest
    /// entry when the log is full.
    pub fn push(&mut self, msg: &str)
        ensures
            final(self).view_log() == log_push(old(self).view_log(), msg@),
    {
        let digits = usize_to_string(self.seq);
        let mut d = crate::strings::chars_of(digits.as_str());
        while d.len() < 4
            invariant
                zero_pad(d@, 4) == zero_pad(decimal(self.seq as nat), 4),
            decreases 4 - d@.len(),
        {
            let ghost before = d@;
            d.insert(0, '0');
            assert(d@ =~= seq!['0'] + before);
        }
        let digits = crate::strings::string_from_chars(&d);
        let mut entry = "#".to_owned();
        append_str(&mut entry, digits.as_str());
        append_str(&mut entry, " ");
        append_str(&mut entry, msg);
        let ghost before = self.entries.deep_view();
        if self.entries.len() >= DEBUG_LOG_LIMIT {
            let ghost es = self.entries@;
            let _ = self.entries.pop_front();
            assert(self.entries.deep_view() =~= before.drop_first()) by {
                assert forall|k: int| 0 <= k < self.entries@.len() implies self.entries.deep_view()[k] == before.drop_first()[k] by {
                    assert(self.entries@[k] == es[k + 1]);
                }
            }
        }
        let ghost kept = self.entries.deep_view();
        self.entries.push_back(entry);
        assert(self.entries.deep_view() =~= kept.push(entry@));
        self.seq = if self.seq == usize::MAX {
            0
        } else {
            self.seq + 1
        };
    }
}

/// Which description the text editor edits.
#[derive(Debug, Clone, Copy, PartialEq, Eq, Structural)]
pub enum EditorField {
    ShortDesc,
    LongDesc,
}

/// The text editor over the selected repository's description: which one,
/// and its text area.
pub struct TextEditor {
    pub field: EditorField,
    pub textarea: TextBox,
}

impl TextEditor {
    /// The lines the editor's text area holds.
    pub open spec fn lines(self) -> Seq<Seq<char>> {
        text_box_lines(self.textarea)
    }
}

/// The tag manager: the selected registered tag.
#[derive(Debug, Clone, Copy, PartialEq, Eq, Structural)]
pub struct TagManager {
    pub selected: usize,
}

/// The group manager: the selected registered group.
#[derive(Debug, Clone, Copy, PartialEq, Eq, Structural)]
pub struct GroupManager {
    pub selected: usize,
}

/// What a tag name typed in the tag input is for.
#[derive(Debug, Clone, PartialEq, Eq)]
pub enum TagInputMode {
    CreateAndAssignToSelectedRepo,
    CreateRegisteredOnly,
    RenameGlobal { from: String },
}

/// The tag input: what it is for and its one-line text area.
pub struct TagInput {
    pub mode: TagInputMode,
    pub textarea: TextBox,
}

impl TagInput {
    /// The text typed: the text area's lines joined with spaces.
    pub open spec fn text(self) -> Seq<char> {
        join_with(text_box_lines(self.textarea), " "@)
    }

    /// The text typed (see `text`).
    pub fn value(&self) -> (r: String)
        ensures
            r@ == self.text(),
    {
        text_box_value(&self.textarea, " ")
    }
}

/// What a group name typed in the group input is for.
#[derive(Debug, Clone, PartialEq, Eq)]
pub enum GroupInputMode {
    CreateAndAssignToSelectedRepo,
    CreateRegisteredOnly,
    RenameGlobal { from: String },
}

/// The group input: what it is for and its one-line text area.
pub struct GroupInput {
    pub mode: GroupInputMode,
    pub textarea: TextBox,
}

impl GroupInput {
    /// The text typed: the text area's lines joined with spaces.
    pub open spec fn text(self) -> Seq<char> {
        join_with(text_box_lines(self.textarea), " "@)
    }

    /// The text typed (see `text`).
    pub fn value(&self) -> (r: String)
        ensures
            r@ == self.text(),
    {
        text_box_value(&self.textarea, " ")
    }
}

/// Tag binding mode: the tags the selected repository had and the ones it
/// is to have (each a sorted list without repeats).
pub struct TagBindingMode {
    pub repo_index: usize,
    pub repo_name: String,
    pub original_tags: Vec<String>,
    pub pending_tags: Vec<String>,
}

/// Group binding mode: the group the selected repository had and the one
/// it is to have.
pub struct GroupBindingMode {
    pub repo_index: usize,
    pub repo_name: String,
    pub original_group: String,
    pub pending_group: String,
}

/// Which filter the letters of filter mode act on.
#[derive(Debug, Clone, Copy, PartialEq, Eq, Structural)]
pub enum FilterModeFocus {
    Group,
    Tag,
}

/// Filter mode: the filters in force when it opened and the ones chosen
/// so far (tags as a sorted list without repeats), and the repository that
/// was selected.
pub struct FilterMode {
    pub focus: FilterModeFocus,
    pub original_group: Option<String>,
    pub pending_group: Option<String>,
    pub original_tags: Vec<String>,
    pub pending_tags: Vec<String>,
    pub selected_repo_name: Option<String>,
}

/// Outside work that a key press asks of the caller.
#[derive(Debug, Clone, PartialEq, Eq)]
pub enum Effect {
    /// Nothing to do.
    Nothing,
    /// Leave the application.
    Quit,
    /// Write the data, then report the outcome with `persist_finished`.
    Persist,
    /// Sync the data with GitHub and write it, then report with
    /// `finish_refresh`.
    RefreshFromGithub,
    /// Start the daily JSON push in the background.
    StartStartupJsonPush,
    /// Start a JSON push by hand (see `start_manual_json_push`).
    StartManualJsonPush,
}

/// What to do once the data has been written (or failed to be).
pub enum AfterPersist {
    TagAdded { value: String, registered_only: bool },
    TagRenamed { from: String, value: String },
    GroupAssigned { index: usize, repo_name: String, previous_group: String, value: String },
    GroupAdded { value: String },
    GroupRenamed { from: String, value: String },
    TagBindingConfirmed { repo_index: usize, repo_name: String, previous_tags: Vec<String> },
    GroupBindingConfirmed { repo_index: usize, repo_name: String, previous_group: String },
    EditorSaved { index: usize, field: EditorField, previous: String, repo_name: String },
    GithubSynced { kind: crate::background::SyncProgressKind, added: usize, updated: usize },
    JsonPushRecorded { kind: crate::background::JsonPushKind, outcome: crate::json_auto_push::AutoPushOutcome },
    Refreshed { repo_name: Option<String>, added: usize, updated: usize },
}

/// The curator's state.
pub struct App {
    pub data: RepoData,
    pub selected: Option<usize>,
    pub help_screen: Option<HelpScreen>,
    pub status_message: String,
    pub editor: Option<TextEditor>,
    pub tag_manager: Option<TagManager>,
    pub tag_input: Option<TagInput>,
    pub tag_binding_mode: Option<TagBindingMode>,
    pub group_manager: Option<GroupManager>,
    pub group_input: Option<GroupInput>,
    pub group_binding_mode: Option<GroupBindingMode>,
    pub group_filter: Option<String>,
    pub tag_filter: Vec<String>,
    pub filter_mode: Option<FilterMode>,
    pub registered_tag_page: usize,
    pub registered_group_page: usize,
    pub sort_mode: SortMode,
    pub desc_display_mode: DescDisplayMode,
    pub debug_log_expanded: bool,
    pub debug_log: DebugLog,
    pub pending: Option<AfterPersist>,
}

/// The state after `sync_selection`: the page of registered tags clamped to
/// the existing pages, the tag manager's selection capped at the last tag,
/// and the list selection on a listed repository (none when nothing is
/// listed, else the old selection or the first, capped at the last).
pub open spec fn synced(a: App) -> App {
    let count = a.data.registered_tags@.len() as int;
    let last_tag = crate::layout::sat_sub(count, 1);
    let n = a.visible().len();
    App {
        registered_tag_page: crate::tags::clamp_page_spec(
            a.registered_tag_page as int,
            crate::tags::page_count_spec(count),
        ) as usize,
        tag_manager: match a.tag_manager {
            Some(m) => Some(
                TagManager {
                    selected: if m.selected as int <= last_tag {
                        m.selected
                    } else {
                        last_tag as usize
                    },
                },
            ),
            None => None,
        },
        selected: if n == 0 {
            None
        } else {
            Some(
                match a.selected {
                    Some(s) => if (s as int) < n - 1 {
                        s
                    } else {
                        (n - 1) as usize
                    },
                    None => 0usize,
                },
            )
        },
        ..a
    }
}

/// The tag bound to `ch` (either case) on `page` of `tags`, if any.
pub open spec fn page_shortcut(tags: Seq<Seq<char>>, page: int, ch: char) -> Option<Seq<char>> {
    let slice = page_slice(tags, page);
    let keys = binding_keys(slice);
    if exists|i: int| 0 <= i < slice.len() && keys[i] as u32 == ascii_lower(ch) {
        Some(slice[choose|i: int| 0 <= i < slice.len() && keys[i] as u32 == ascii_lower(ch) && forall|j: int|
            0 <= j < i ==> keys[j] as u32 != ascii_lower(ch)])
    } else {
        None
    }
}

/// The tag bound to `ch` (either case) on `page` of `tags`, if any.
pub fn shortcut_on_page(tags: &Vec<String>, page: usize, ch: char) -> (r: Option<String>)
    ensures
        r matches Some(t) ==> page_shortcut(tags.deep_view(), page as int, ch) == Some(t@),
        r is None ==> page_shortcut(tags.deep_view(), page as int, ch) is None,
{
    let bindings = tag_bindings_for_page(tags.as_slice(), page);
    let ghost slice = page_slice(tags.deep_view(), page as int);
    let ghost keys = binding_keys(slice);
    let lower = ascii_lower_code(ch);
    let mut i: usize = 0;
    while i < bindings.len()
        invariant
            i <= bindings.len(),
            bindings.len() == slice.len(),
            slice == page_slice(tags.deep_view(), page as int),
            keys == binding_keys(slice),
            lower == ascii_lower(ch),
            forall|k: int| 0 <= k < bindings.len() ==> (#[trigger] bindings[k]).key == keys[k] && bindings[k].tag@ == slice[k],
            forall|j: int| 0 <= j < i ==> keys[j] as u32 != lower,
        decreases bindings.len() - i,
    {
        if bindings[i].key as u32 == lower {
            proof {
                let c = choose|k: int| 0 <= k < slice.len() && keys[k] as u32 == ascii_lower(ch) && forall|j: int|
                    0 <= j < k ==> keys[j] as u32 != ascii_lower(ch);
                assert(bindings[i as int].key == keys[i as int]);
                if c < i {
                } else if c > i {
                }
                assert(c == i);
            }
            return Some(bindings[i].tag.clone());
        }
        i = i + 1;
    }
    None
}

impl App {
    /// The debug log holds at most its limit of entries, the text areas of
    /// the open inputs and editor keep their cursor in order, and the tag sets of
    /// the state are sorted lists without repeats: the applied tag filter,
    /// the tags of tag binding mode, and the tags of filter mode.
    pub open spec fn wf(&self) -> bool {
        &&& self.debug_log.view_log().0.len() <= DEBUG_LOG_LIMIT
        &&& (self.tag_input matches Some(t) ==> box_ok(t.textarea))
        &&& (self.group_input matches Some(t) ==> box_ok(t.textarea))
        &&& (self.editor matches Some(e) ==> box_ok(e.textarea))
        &&& strictly_sorted(self.tag_filter.deep_view())
        &&& (self.tag_binding_mode matches Some(m) ==> strictly_sorted(m.pending_tags.deep_view()) && strictly_sorted(
            m.original_tags.deep_view(),
        ))
        &&& (self.filter_mode matches Some(f) ==> strictly_sorted(f.pending_tags.deep_view()) && strictly_sorted(
            f.original_tags.deep_view(),
        ))
    }

    /// The tag filter in force: the one being chosen in filter mode, else the
    /// applied one.
    pub open spec fn effective_tag_filter(&self) -> Seq<Seq<char>> {
        match self.filter_mode {
            Some(m) => m.pending_tags.deep_view(),
            None => self.tag_filter.deep_view(),
        }
    }

    /// The group filter in force: the one chosen in filter mode, falling
    /// back to the applied one.
    pub open spec fn effective_group(&self) -> Option<Seq<char>> {
        let applied = match self.group_filter {
            Some(g) => Some(g@),
            None => None,
        };
        match self.filter_mode {
            Some(m) => match m.pending_group {
                Some(g) => Some(g@),
                None => applied,
            },
            None => applied,
        }
    }

    /// The indices of the listed repositories, in list order.
    pub open spec fn visible(&self) -> Seq<usize> {
        visible_list(views_of(self.data.repos@), self.effective_tag_filter(), self.effective_group(), self.sort_mode)
    }

    /// The data index of the selected repository, if the selection is on one.
    pub open spec fn selected_data_index(&self) -> Option<usize> {
        match self.selected {
            Some(s) => if s < self.visible().len() {
                Some(self.visible()[s as int])
            } else {
                None
            },
            None => None,
        }
    }

    /// A curator over `data`, showing descriptions as `desc_display_mode`
    /// says, with the first listed repository selected.
    pub fn new(data: RepoData, desc_display_mode: DescDisplayMode) -> (r: App)
        ensures
            r.data == data,
            r.status_message@ == "ローカルデータを表示しました"@,
            r.desc_display_mode == desc_display_mode,
            !r.debug_log_expanded,
            r.registered_tag_page == 0,
            r.sort_mode == SortMode::Created,
            r.help_screen is None && r.editor is None && r.tag_manager is None && r.tag_input is None,
            r.tag_binding_mode is None && r.group_manager is None && r.group_input is None,
            r.group_binding_mode is None && r.filter_mode is None && r.group_filter is None,
            r.tag_filter@.len() == 0,
            r.registered_group_page == 0,
            r.visible().len() == 0 ==> r.selected is None,
            r.visible().len() > 0 ==> r.selected == Some(0usize),
            r.debug_log.view_log() == log_push((Seq::<Seq<char>>::empty(), 0nat), "app loaded"@),
            r.pending is None,
            r.wf(),
    {
        let mut app = App {
            data,
            selected: None,
            help_screen: None,
            status_message: "ローカルデータを表示しました".to_owned(),
            editor: None,
            tag_manager: None,
            tag_input: None,
            tag_binding_mode: None,
            group_manager: None,
            group_input: None,
            group_binding_mode: None,
            group_filter: None,
            tag_filter: Vec::new(),
            filter_mode: None,
            registered_tag_page: 0,
            registered_group_page: 0,
            sort_mode: SortMode::Created,
            desc_display_mode,
            debug_log_expanded: false,
            debug_log: DebugLog::new(),
            pending: None,
        };
        app.debug_log.push("app loaded");
        app.sync_selection();
        assert(app.tag_filter.deep_view() =~= Seq::<Seq<char>>::empty());
        app
    }

    /// Adds an entry to the debug log.
    pub fn push_debug_log(&mut self, msg: &str)
        ensures
            old(self).wf() ==> final(self).wf(),
            final(self).debug_log.view_log() == log_push(old(self).debug_log.view_log(), msg@),
            *final(self) == (App { debug_log: final(self).debug_log, ..*old(self) }),
    {
        self.debug_log.push(msg);
    }

    /// The tag filter in force.
    pub fn effective_tag_filter_list(&self) -> (r: &Vec<String>)
        ensures
            r.deep_view() == self.effective_tag_filter(),
    {
        match &self.filter_mode {
            Some(m) => &m.pending_tags,
            None => &self.tag_filter,
        }
    }

    /// The group filter in force.
    pub fn effective_group_filter(&self) -> (r: Option<&str>)
        ensures
            crate::listing::opt_str_view(r) == self.effective_group(),
    {
        let pending = match &self.filter_mode {
            Some(m) => match &m.pending_group {
                Some(g) => Some(g.as_str()),
                None => None,
            },
            None => None,
        };
        match pending {
            Some(g) => Some(g),
            None => match &self.group_filter {
                Some(g) => Some(g.as_str()),
                None => None,
            },
        }
    }

    /// The indices of the listed repositories, in list order.
    pub fn visible_repo_indices(&self) -> (r: Vec<usize>)
        ensures
            r@ == self.visible(),
            crate::listing::visible_indices_spec(
                views_of(self.data.repos@),
                self.effective_tag_filter(),
                self.effective_group(),
                self.sort_mode,
                r@,
            ),
    {
        visible_repo_indices(&self.data.repos, self.effective_tag_filter_list(), self.effective_group_filter(), self.sort_mode)
    }

    /// How many repositories are listed.
    pub fn visible_repo_count(&self) -> (r: usize)
        ensures
            r == self.visible().len(),
    {
        self.visible_repo_indices().len()
    }

    /// The data index of the selected repository, if any.
    pub fn selected_repo_data_index(&self) -> (r: Option<usize>)
        ensures
            r == self.selected_data_index(),
            r matches Some(i) ==> i < self.data.repos.len(),
    {
        let v = self.visible_repo_indices();
        proof {
            crate::listing::lemma_visible_list(
                views_of(self.data.repos@),
                self.effective_tag_filter(),
                self.effective_group(),
                self.sort_mode,
                v@,
            );
        }
        match self.selected {
            Some(s) => if s < v.len() {
                assert(v@[s as int] < self.data.repos.len()) by {
                    assert(crate::listing::visible_indices_spec(
                        views_of(self.data.repos@),
                        self.effective_tag_filter(),
                        self.effective_group(),
                        self.sort_mode,
                        v@,
                    ));
                }
                Some(v[s])
            } else {
                None
            },
            None => None,
        }
    }

    /// The name of the selected repository, if any.
    pub fn selected_repo_name(&self) -> (r: Option<String>)
        ensures
            r matches Some(n) ==> (self.selected_data_index() matches Some(i) && n@ == self.data.repos@[i as int].name@),
            r is None ==> self.selected_data_index() is None,
    {
        match self.selected_repo_data_index() {
            Some(i) => Some(self.data.repos[i].name.clone()),
            None => None,
        }
    }

    /// Whether any tag is registered.
    pub fn has_registered_tags(&self) -> (r: bool)
        ensures
            r == (self.data.registered_tags@.len() > 0),
    {
        self.data.registered_tags.len() > 0
    }

    /// Whether any group is registered.
    pub fn has_registered_groups(&self) -> (r: bool)
        ensures
            r == (self.data.registered_groups@.len() > 0),
    {
        self.data.registered_groups.len() > 0
    }

    /// Keeps the page of registered tags and the tag manager's selection
    /// within range, and the list selection on a listed repository (see
    /// `synced`).
    pub fn sync_selection(&mut self)
        ensures
            *final(self) == synced(*old(self)),
    {
        let count = self.data.registered_tags.len();
        self.registered_tag_page = clamp_tag_page(self.registered_tag_page, tag_page_count(count));
        if let Some(m) = self.tag_manager {
            let last = count.saturating_sub(1);
            let sel = if m.selected < last {
                m.selected
            } else {
                last
            };
            self.tag_manager = Some(TagManager { selected: sel });
        }
        let visible_len = self.visible_repo_count();
        if visible_len == 0 {
            self.selected = None;
            return;
        }
        let current = match self.selected {
            Some(s) => s,
            None => 0,
        };
        let next = if current < visible_len - 1 {
            current
        } else {
            visible_len - 1
        };
        self.selected = Some(next);
    }
}

} // verus!
