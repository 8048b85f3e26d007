//! What the screens show of the curator's state: the filters in force, the
//! hint line, and the states of the managers and binding modes.
use crate::curator::{App, EditorField, FilterModeFocus};
use crate::listing::opt_str_view;
use crate::model::clone_strings;
use crate::right_pane::{
    GroupSummaryEntry, SelectedRepoDescState, SelectedRepoTagDetailEntry, SelectedRepoTagDetailState,
    TagCatalogEntry, TagCatalogState,
};
use crate::strings::{append_str, cat2, decimal, join_strings, join_with, push_char, str_eq, usize_to_string};
use crate::tags::{
    binding_keys, clamp_page_spec, clamp_tag_page, page_count_spec, page_slice, shortcut_for_tag_spec,
    summarize_tag_counts, summary_before, summary_entries_of, tag_bindings_for_page, tag_page_count,
    tag_shortcut_for_tag, TagSummaryEntry,
};
use vstd::prelude::*;

verus! {

/// The title of the filter: `filter` (`filter*` in filter mode), then `off`
/// or the group and the number of tags in force.
pub open spec fn filter_title_spec(in_mode: bool, group: Option<Seq<char>>, tag_count: nat) -> Seq<char> {
    let prefix = if in_mode {
        "filter*"@
    } else {
        "filter"@
    };
    if group is None && tag_count == 0 {
        prefix + ":off"@
    } else {
        let group_part = match group {
            Some(g) => seq!["g="@ + g],
            None => Seq::<Seq<char>>::empty(),
        };
        let parts = if tag_count > 0 {
            group_part.push("t="@ + crate::strings::decimal(tag_count))
        } else {
            group_part
        };
        prefix + ":"@ + join_with(parts, ","@)
    }
}

/// The hint line at the bottom of the screen, for what is open.
pub open spec fn bottom_hint_spec(a: App) -> Seq<char> {
    if a.help_screen is Some {
        "Esc:close ?:close help"@
    } else if a.editor is Some {
        match a.editor.unwrap().field {
            EditorField::ShortDesc => "Enter:save Esc:cancel"@,
            EditorField::LongDesc => "Ctrl+S:save Esc:cancel"@,
        }
    } else if a.tag_input is Some || a.group_input is Some {
        "Enter:save Esc:cancel"@
    } else if a.tag_binding_mode is Some {
        "Enter:save Esc:cancel ?:help"@
    } else if a.group_binding_mode is Some {
        "a-z:assign Esc:cancel ?:help"@
    } else if a.filter_mode is Some {
        match a.filter_mode.unwrap().focus {
            FilterModeFocus::Group => "a-z:group A-Z:clear Ctrl+T:tag ←→:page Enter:apply Esc:cancel"@,
            FilterModeFocus::Tag => "a-z:on A-Z:off Ctrl+G:group ←→:page Enter:apply Esc:cancel"@,
        }
    } else if a.tag_manager is Some || a.group_manager is Some {
        "q:quit Esc:close"@
    } else {
        "q:quit ?:help"@
    }
}

/// The entries of `a` that `b` lacks, in `a`'s order.
pub open spec fn minus(a: Seq<Seq<char>>, b: Seq<Seq<char>>) -> Seq<Seq<char>> {
    a.filter(|t: Seq<char>| !b.contains(t))
}

/// The tag manager as its overlay shows it: the registered tags and the
/// selected one.
pub struct TagManagerState {
    pub entries: Vec<TagManagerEntry>,
    pub selected: usize,
}

/// One registered tag in the tag manager.
pub struct TagManagerEntry {
    pub tag: String,
}

/// The group manager as its overlay shows it: the registered groups and the
/// selected one.
pub struct GroupManagerState {
    pub entries: Vec<GroupManagerEntry>,
    pub selected: usize,
}

/// One registered group in the group manager.
pub struct GroupManagerEntry {
    pub group: String,
}

/// Tag binding mode as its overlay shows it: the repository, how many tags
/// it is to have, and the tags to be added and removed.
pub struct TagBindingModeState {
    pub repo_name: String,
    pub pending_count: usize,
    pub added_tags: Vec<String>,
    pub removed_tags: Vec<String>,
}

/// Group binding mode as its overlay shows it.
pub struct GroupBindingModeState {
    pub repo_name: String,
    pub original_group: String,
    pub pending_group: String,
}

/// Filter mode as its overlay shows it: the focus, the filters being chosen
/// and how many repositories they let through.
pub struct FilterModeState {
    pub focus: FilterModeFocus,
    pub active_group: Option<String>,
    pub active_tags: Vec<String>,
    pub visible_repo_count: usize,
    pub total_repo_count: usize,
}

/// The selection of a manager, capped at the last entry (0 when there is
/// none).
pub open spec fn capped_selection(selected: int, len: int) -> int {
    if len == 0 {
        0
    } else if selected < len - 1 {
        selected
    } else {
        len - 1
    }
}

/// The entries of `b` not in `a`, in `b`'s order.
fn list_minus(b: &Vec<String>, a: &Vec<String>) -> (r: Vec<String>)
    ensures
        r.deep_view() == minus(b.deep_view(), a.deep_view()),
{
    let ghost bv = b.deep_view();
    let ghost av = a.deep_view();
    let mut out: Vec<String> = Vec::new();
    let mut i: usize = 0;
    while i < b.len()
        invariant
            i <= b.len(),
            bv == b.deep_view(),
            av == a.deep_view(),
            out.deep_view() == minus(bv.take(i as int), av),
        decreases b.len() - i,
    {
        assert(bv.take(i + 1).drop_last() =~= bv.take(i as int));
        assert(bv.take(i + 1).last() == bv[i as int]);
        proof {
            reveal(Seq::filter);
        }
        if !crate::model::list_contains(a, b[i].as_str()) {
            out.push(b[i].clone());
            assert(out.deep_view() =~= minus(bv.take(i as int), av).push(bv[i as int]));
        }
        i = i + 1;
    }
    assert(bv.take(b.len() as int) =~= bv);
    out
}

impl App {
    /// How many tags the tag filter in force holds.
    pub fn active_tag_filter_count(&self) -> (r: usize)
        ensures
            r == self.effective_tag_filter().len(),
    {
        self.effective_tag_filter_list().len()
    }

    /// The tags of the tag filter in force.
    pub fn active_tag_filter_tags(&self) -> (r: Vec<String>)
        ensures
            r.deep_view() == self.effective_tag_filter(),
    {
        clone_strings(self.effective_tag_filter_list())
    }

    /// The group filter in force.
    pub fn active_group_filter(&self) -> (r: Option<String>)
        ensures
            crate::curator_nav::opt_name(r) == self.effective_group(),
    {
        match self.effective_group_filter() {
            Some(g) => Some(g.to_owned()),
            None => None,
        }
    }

    /// Whether filter mode is open.
    pub fn filter_mode_active(&self) -> (r: bool)
        ensures
            r == self.filter_mode is Some,
    {
        self.filter_mode.is_some()
    }

    /// Whether filter mode is open on the tags.
    pub fn tag_filter_mode_active(&self) -> (r: bool)
        ensures
            r == (self.filter_mode matches Some(m) && m.focus == FilterModeFocus::Tag),
    {
        match &self.filter_mode {
            Some(m) => m.focus == FilterModeFocus::Tag,
            None => false,
        }
    }

    /// Whether any filter is in force.
    pub fn has_effective_filter(&self) -> (r: bool)
        ensures
            r == (self.effective_group() is Some || self.effective_tag_filter().len() > 0),
    {
        self.effective_group_filter().is_some() || self.active_tag_filter_count() > 0
    }

    /// The title of the filter (see `filter_title_spec`).
    pub fn tag_filter_title_label(&self) -> (r: String)
        ensures
            r@ == filter_title_spec(
                self.filter_mode is Some,
                self.effective_group(),
                self.effective_tag_filter().len(),
            ),
    {
        let prefix = if self.filter_mode.is_some() {
            "filter*"
        } else {
            "filter"
        };
        let group = self.effective_group_filter();
        let count = self.active_tag_filter_count();
        if group.is_none() && count == 0 {
            return cat2(prefix, ":off");
        }
        let mut parts: Vec<String> = Vec::new();
        match group {
            Some(g) => parts.push(cat2("g=", g)),
            None => {},
        }
        let ghost group_part = parts.deep_view();
        if count > 0 {
            parts.push(cat2("t=", usize_to_string(count).as_str()));
            assert(parts.deep_view() =~= group_part.push("t="@ + crate::strings::decimal(count as nat)));
        }
        proof {
            let g = self.effective_group();
            if g is Some {
                assert(group_part =~= seq!["g="@ + g.unwrap()]);
            } else {
                assert(group_part =~= Seq::<Seq<char>>::empty());
            }
        }
        let joined = join_strings(&parts, ",");
        let mut s = cat2(prefix, ":");
        crate::strings::append_str(&mut s, joined.as_str());
        s
    }

    /// The hint line at the bottom of the screen (see `bottom_hint_spec`).
    pub fn bottom_hint(&self) -> (r: String)
        ensures
            r@ == bottom_hint_spec(*self),
    {
        if self.help_screen.is_some() {
            return "Esc:close ?:close help".to_owned();
        }
        match &self.editor {
            Some(e) => {
                return match e.field {
                    EditorField::ShortDesc => "Enter:save Esc:cancel".to_owned(),
                    EditorField::LongDesc => "Ctrl+S:save Esc:cancel".to_owned(),
                };
            },
            None => {},
        }
        if self.tag_input.is_some() || self.group_input.is_some() {
            return "Enter:save Esc:cancel".to_owned();
        }
        if self.tag_binding_mode.is_some() {
            return "Enter:save Esc:cancel ?:help".to_owned();
        }
        if self.group_binding_mode.is_some() {
            return "a-z:assign Esc:cancel ?:help".to_owned();
        }
        match &self.filter_mode {
            Some(m) => {
                return match m.focus {
                    FilterModeFocus::Group => "a-z:group A-Z:clear Ctrl+T:tag ←→:page Enter:apply Esc:cancel".to_owned(),
                    FilterModeFocus::Tag => "a-z:on A-Z:off Ctrl+G:group ←→:page Enter:apply Esc:cancel".to_owned(),
                };
            },
            None => {},
        }
        if self.tag_manager.is_some() || self.group_manager.is_some() {
            return "q:quit Esc:close".to_owned();
        }
        "q:quit ?:help".to_owned()
    }

    /// The tag manager's overlay, when it is open.
    pub fn tag_manager_state(&self) -> (r: Option<TagManagerState>)
        ensures
            self.tag_manager is None ==> r is None,
            self.tag_manager matches Some(m) ==> (r matches Some(s) && s.entries@.len()
                == self.data.registered_tags@.len() && (forall|i: int|
                0 <= i < s.entries@.len() ==> (#[trigger] s.entries@[i]).tag@ == self.data.registered_tags@[i]@)
                && s.selected == capped_selection(m.selected as int, self.data.registered_tags@.len() as int)),
    {
        let m = match &self.tag_manager {
            Some(m) => m,
            None => return None,
        };
        let mut entries: Vec<TagManagerEntry> = Vec::new();
        let mut i: usize = 0;
        while i < self.data.registered_tags.len()
            invariant
                i <= self.data.registered_tags.len(),
                entries@.len() == i,
                forall|k: int| 0 <= k < i ==> (#[trigger] entries@[k]).tag@ == self.data.registered_tags@[k]@,
            decreases self.data.registered_tags.len() - i,
        {
            entries.push(TagManagerEntry { tag: self.data.registered_tags[i].clone() });
            i = i + 1;
        }
        let len = entries.len();
        let last = len.saturating_sub(1);
        let selected = if m.selected < last {
            m.selected
        } else {
            last
        };
        Some(TagManagerState { entries, selected })
    }

    /// The group manager's overlay, when it is open.
    pub fn group_manager_state(&self) -> (r: Option<GroupManagerState>)
        ensures
            self.group_manager is None ==> r is None,
            self.group_manager matches Some(m) ==> (r matches Some(s) && s.entries@.len()
                == self.data.registered_groups@.len() && (forall|i: int|
                0 <= i < s.entries@.len() ==> (#[trigger] s.entries@[i]).group@ == self.data.registered_groups@[i]@)
                && s.selected == capped_selection(m.selected as int, self.data.registered_groups@.len() as int)),
    {
        let m = match &self.group_manager {
            Some(m) => m,
            None => return None,
        };
        let mut entries: Vec<GroupManagerEntry> = Vec::new();
        let mut i: usize = 0;
        while i < self.data.registered_groups.len()
            invariant
                i <= self.data.registered_groups.len(),
                entries@.len() == i,
                forall|k: int| 0 <= k < i ==> (#[trigger] entries@[k]).group@ == self.data.registered_groups@[k]@,
            decreases self.data.registered_groups.len() - i,
        {
            entries.push(GroupManagerEntry { group: self.data.registered_groups[i].clone() });
            i = i + 1;
        }
        let len = entries.len();
        let last = len.saturating_sub(1);
        let selected = if m.selected < last {
            m.selected
        } else {
            last
        };
        Some(GroupManagerState { entries, selected })
    }

    /// Tag binding mode's overlay, when it is open: the tags to be added
    /// are the pending ones the repository lacked, the tags to be removed
    /// the ones it had that are no longer pending.
    pub fn tag_binding_mode_state(&self) -> (r: Option<TagBindingModeState>)
        ensures
            self.tag_binding_mode is None ==> r is None,
            self.tag_binding_mode matches Some(m) ==> (r matches Some(s) && s.repo_name@ == m.repo_name@
                && s.pending_count == m.pending_tags@.len() && s.added_tags.deep_view() == minus(
                m.pending_tags.deep_view(),
                m.original_tags.deep_view(),
            ) && s.removed_tags.deep_view() == minus(m.original_tags.deep_view(), m.pending_tags.deep_view())),
    {
        match &self.tag_binding_mode {
            Some(m) => Some(
                TagBindingModeState {
                    repo_name: m.repo_name.clone(),
                    pending_count: m.pending_tags.len(),
                    added_tags: list_minus(&m.pending_tags, &m.original_tags),
                    removed_tags: list_minus(&m.original_tags, &m.pending_tags),
                },
            ),
            None => None,
        }
    }

    /// Group binding mode's overlay, when it is open.
    pub fn group_binding_mode_state(&self) -> (r: Option<GroupBindingModeState>)
        ensures
            self.group_binding_mode is None ==> r is None,
            self.group_binding_mode matches Some(m) ==> (r matches Some(s) && s.repo_name@ == m.repo_name@
                && s.original_group@ == m.original_group@ && s.pending_group@ == m.pending_group@),
    {
        match &self.group_binding_mode {
            Some(m) => Some(
                GroupBindingModeState {
                    repo_name: m.repo_name.clone(),
                    original_group: m.original_group.clone(),
                    pending_group: m.pending_group.clone(),
                },
            ),
            None => None,
        }
    }

    /// Filter mode's overlay, when it is open.
    pub fn filter_mode_state(&self) -> (r: Option<FilterModeState>)
        ensures
            self.filter_mode is None ==> r is None,
            self.filter_mode matches Some(m) ==> (r matches Some(s) && s.focus == m.focus
                && crate::curator_nav::opt_name(s.active_group) == self.effective_group()
                && s.active_tags.deep_view() == self.effective_tag_filter() && s.visible_repo_count
                == self.visible().len() && s.total_repo_count == self.data.repos@.len()),
    {
        let focus = match &self.filter_mode {
            Some(m) => m.focus,
            None => return None,
        };
        Some(
            FilterModeState {
                focus,
                active_group: self.active_group_filter(),
                active_tags: self.active_tag_filter_tags(),
                visible_repo_count: self.visible_repo_count(),
                total_repo_count: self.data.repos.len(),
            },
        )
    }
}


/// The uppercase of an ASCII lowercase letter; any other character as it is.
pub open spec fn upper_char(c: char) -> char {
    if 'a' <= c && c <= 'z' {
        ((c as u32) - 32) as char
    } else {
        c
    }
}

pub(crate) fn to_ascii_upper(c: char) -> (r: char)
    ensures
        r == upper_char(c),
{
    if 'a' <= c && c <= 'z' {
        let b: u8 = (c as u8) - 32;
        b as char
    } else {
        c
    }
}

/// The keys that turn `tag` on and off in tag binding mode: `k/K`, with the
/// tag's page when there is more than one, or `?/?` when it is not
/// registered.
pub open spec fn key_hint_spec(tags: Seq<Seq<char>>, tag: Seq<char>) -> Seq<char> {
    let count = page_count_spec(tags.len() as int);
    match shortcut_for_tag_spec(tags, tag) {
        Some((p, k)) => {
            let keys = seq![k] + "/"@ + seq![upper_char(k)];
            if count > 1 {
                keys + " ("@ + decimal((p + 1) as nat) + "/"@ + decimal(count as nat) + ")"@
            } else {
                keys
            }
        },
        None => "?/?"@,
    }
}

/// The key that picks `group` in group binding mode, or `?` when it is not
/// registered.
pub open spec fn group_key_hint_spec(groups: Seq<Seq<char>>, group: Seq<char>) -> Seq<char> {
    match shortcut_for_tag_spec(groups, group) {
        Some((_, k)) => seq![k],
        None => "?"@,
    }
}

fn key_hint(tags: &Vec<String>, tag: &str) -> (r: String)
    ensures
        r@ == key_hint_spec(tags.deep_view(), tag@),
{
    let count = tag_page_count(tags.len());
    match tag_shortcut_for_tag(tags.as_slice(), tag) {
        Some((page, key)) => {
            let mut s = String::new();
            push_char(&mut s, key);
            append_str(&mut s, "/");
            push_char(&mut s, to_ascii_upper(key));
            let ghost keys = s@;
            assert(keys =~= seq![key] + "/"@ + seq![upper_char(key)]);
            if count > 1 {
                append_str(&mut s, " (");
                append_str(&mut s, crate::curator_tags::page_number(page).as_str());
                append_str(&mut s, "/");
                append_str(&mut s, usize_to_string(count).as_str());
                append_str(&mut s, ")");
            }
            s
        },
        None => "?/?".to_owned(),
    }
}

fn group_key_hint(groups: &Vec<String>, group: &str) -> (r: String)
    ensures
        r@ == group_key_hint_spec(groups.deep_view(), group@),
{
    match tag_shortcut_for_tag(groups.as_slice(), group) {
        Some((_, key)) => {
            let mut s = String::new();
            push_char(&mut s, key);
            assert(s@ =~= seq![key]);
            s
        },
        None => "?".to_owned(),
    }
}

/// The tags shown for repository `index`: the pending ones while tag binding
/// mode is open on it, else its own.
pub open spec fn display_tags_spec(a: App, index: int) -> Seq<Seq<char>> {
    match a.tag_binding_mode {
        Some(m) if m.repo_index == index => m.pending_tags.deep_view(),
        _ => if 0 <= index < a.data.repos@.len() {
            a.data.repos@[index].tags.deep_view()
        } else {
            Seq::empty()
        },
    }
}

/// The group shown for repository `index`: the pending one while group
/// binding mode is open on it, else its own.
pub open spec fn display_group_spec(a: App, index: int) -> Seq<char> {
    match a.group_binding_mode {
        Some(m) if m.repo_index == index => m.pending_group@,
        _ => if 0 <= index < a.data.repos@.len() {
            a.data.repos@[index].group@
        } else {
            Seq::empty()
        },
    }
}

/// The catalog of a page of names (tags or groups) with their keys: the
/// entries are the names on the page, in order, with the keys bound to them.
pub open spec fn catalog_page(names: Seq<Seq<char>>, page: int, keys: Seq<char>, shown: Seq<Seq<char>>) -> bool {
    let slice = page_slice(names, page);
    &&& shown == slice
    &&& keys == binding_keys(slice)
}

/// The catalog of the registered groups on the current group page.
pub struct GroupCatalogState {
    pub entries: Vec<GroupCatalogEntry>,
    pub page: usize,
    pub page_count: usize,
    pub total_groups: usize,
}

/// One registered group on the current page, and whether it is the group
/// filter in force.
pub struct GroupCatalogEntry {
    pub key: char,
    pub selected: bool,
    pub group: String,
}

impl App {
    /// The tags shown for repository `index` (see `display_tags_spec`).
    pub fn display_tags_for_repo_index(&self, index: usize) -> (r: Vec<String>)
        ensures
            r.deep_view() == display_tags_spec(*self, index as int),
    {
        match &self.tag_binding_mode {
            Some(m) => {
                if m.repo_index == index {
                    return clone_strings(&m.pending_tags);
                }
            },
            None => {},
        }
        if index < self.data.repos.len() {
            clone_strings(&self.data.repos[index].tags)
        } else {
            let v: Vec<String> = Vec::new();
            assert(v.deep_view() =~= Seq::<Seq<char>>::empty());
            v
        }
    }

    /// The group shown for repository `index` (see `display_group_spec`).
    pub fn display_group_for_repo_index(&self, index: usize) -> (r: String)
        ensures
            r@ == display_group_spec(*self, index as int),
    {
        match &self.group_binding_mode {
            Some(m) => {
                if m.repo_index == index {
                    return m.pending_group.clone();
                }
            },
            None => {},
        }
        if index < self.data.repos.len() {
            self.data.repos[index].group.clone()
        } else {
            String::new()
        }
    }

    /// The catalog of the registered tags on the current page: each tag
    /// with its key and whether it is in the tag filter in force.
    pub fn tag_catalog_state(&self) -> (r: TagCatalogState)
        ensures
            ({
                let tags = self.data.registered_tags.deep_view();
                let count = page_count_spec(tags.len() as int);
                let slice = page_slice(tags, self.registered_tag_page as int);
                &&& r.entries@.len() == slice.len()
                &&& forall|i: int|
                    0 <= i < slice.len() ==> (#[trigger] r.entries@[i]).tag@ == slice[i] && r.entries@[i].key
                        == binding_keys(slice)[i] && r.entries@[i].filter_active == self.effective_tag_filter().contains(
                        slice[i],
                    )
                &&& r.page == clamp_page_spec(self.registered_tag_page as int, count)
                &&& r.page_count == count
                &&& r.total_tags == tags.len()
                &&& r.active_filter_count == self.effective_tag_filter().len()
                &&& r.filter_mode_active == (self.filter_mode matches Some(m) && m.focus == FilterModeFocus::Tag)
            }),
    {
        let tags = &self.data.registered_tags;
        let page_count = tag_page_count(tags.len());
        let page = clamp_tag_page(self.registered_tag_page, page_count);
        let active = self.effective_tag_filter_list();
        let bindings = tag_bindings_for_page(tags.as_slice(), self.registered_tag_page);
        let ghost slice = page_slice(tags.deep_view(), self.registered_tag_page as int);
        let mut entries: Vec<TagCatalogEntry> = Vec::new();
        let mut i: usize = 0;
        while i < bindings.len()
            invariant
                i <= bindings.len(),
                bindings.len() == slice.len(),
                slice == page_slice(self.data.registered_tags.deep_view(), self.registered_tag_page as int),
                active.deep_view() == self.effective_tag_filter(),
                forall|k: int|
                    0 <= k < bindings.len() ==> (#[trigger] bindings[k]).key == binding_keys(slice)[k] && bindings[k].tag@
                        == slice[k],
                entries@.len() == i,
                forall|k: int|
                    0 <= k < i ==> (#[trigger] entries@[k]).tag@ == slice[k] && entries@[k].key == binding_keys(slice)[k]
                        && entries@[k].filter_active == self.effective_tag_filter().contains(slice[k]),
            decreases bindings.len() - i,
        {
            let b = &bindings[i];
            let on = crate::model::list_contains(active, b.tag.as_str());
            entries.push(TagCatalogEntry { key: b.key, filter_active: on, tag: b.tag.clone() });
            i = i + 1;
        }
        TagCatalogState {
            entries,
            page,
            page_count,
            total_tags: tags.len(),
            active_filter_count: active.len(),
            filter_mode_active: self.tag_filter_mode_active(),
        }
    }

    /// The catalog of the registered groups on the current group page: each
    /// group with its key and whether it is the group filter in force.
    pub fn group_catalog_state(&self) -> (r: GroupCatalogState)
        ensures
            ({
                let groups = self.data.registered_groups.deep_view();
                let count = page_count_spec(groups.len() as int);
                let slice = page_slice(groups, self.registered_group_page as int);
                &&& r.entries@.len() == slice.len()
                &&& forall|i: int|
                    0 <= i < slice.len() ==> (#[trigger] r.entries@[i]).group@ == slice[i] && r.entries@[i].key
                        == binding_keys(slice)[i] && r.entries@[i].selected == (self.effective_group() == Some(
                        slice[i],
                    ))
                &&& r.page == clamp_page_spec(self.registered_group_page as int, count)
                &&& r.page_count == count
                &&& r.total_groups == groups.len()
            }),
    {
        let groups = &self.data.registered_groups;
        let page_count = tag_page_count(groups.len());
        let page = clamp_tag_page(self.registered_group_page, page_count);
        let active = self.effective_group_filter();
        let bindings = tag_bindings_for_page(groups.as_slice(), self.registered_group_page);
        let ghost slice = page_slice(groups.deep_view(), self.registered_group_page as int);
        let mut entries: Vec<GroupCatalogEntry> = Vec::new();
        let mut i: usize = 0;
        while i < bindings.len()
            invariant
                i <= bindings.len(),
                bindings.len() == slice.len(),
                slice == page_slice(self.data.registered_groups.deep_view(), self.registered_group_page as int),
                opt_str_view(active) == self.effective_group(),
                forall|k: int|
                    0 <= k < bindings.len() ==> (#[trigger] bindings[k]).key == binding_keys(slice)[k] && bindings[k].tag@
                        == slice[k],
                entries@.len() == i,
                forall|k: int|
                    0 <= k < i ==> (#[trigger] entries@[k]).group@ == slice[k] && entries@[k].key == binding_keys(slice)[k]
                        && entries@[k].selected == (self.effective_group() == Some(slice[k])),
            decreases bindings.len() - i,
        {
            let b = &bindings[i];
            let on = match active {
                Some(g) => str_eq(g, b.tag.as_str()),
                None => false,
            };
            entries.push(GroupCatalogEntry { key: b.key, selected: on, group: b.tag.clone() });
            i = i + 1;
        }
        GroupCatalogState { entries, page, page_count, total_groups: groups.len() }
    }

    /// The descriptions of the selected repository, with its group and the
    /// group's key, when one is selected.
    pub fn selected_repo_desc_state(&self) -> (r: Option<SelectedRepoDescState>)
        ensures
            self.selected_data_index() is None ==> r is None,
            self.selected_data_index() matches Some(i) ==> (r matches Some(s) && {
                let repo = self.data.repos@[i as int];
                &&& s.repo_name@ == repo.name@
                &&& s.github_desc@ == repo.github_desc@
                &&& s.desc_short@ == repo.desc_short@
                &&& s.desc_long@ == repo.desc_long@
                &&& s.group@ == display_group_spec(*self, i as int)
                &&& s.group_key_hint@ == group_key_hint_spec(
                    self.data.registered_groups.deep_view(),
                    display_group_spec(*self, i as int),
                )
            }),
    {
        let i = match self.selected_repo_data_index() {
            Some(i) => i,
            None => return None,
        };
        let repo = &self.data.repos[i];
        let group = self.display_group_for_repo_index(i);
        let hint = group_key_hint(&self.data.registered_groups, group.as_str());
        Some(
            SelectedRepoDescState {
                repo_name: repo.name.clone(),
                github_desc: repo.github_desc.clone(),
                desc_short: repo.desc_short.clone(),
                desc_long: repo.desc_long.clone(),
                group,
                group_key_hint: hint,
            },
        )
    }

    /// The tags of the selected repository as shown (pending ones in tag
    /// binding mode), each with its keys (see `key_hint_spec`).
    pub fn selected_repo_tag_detail_state(&self) -> (r: Option<SelectedRepoTagDetailState>)
        ensures
            self.selected_data_index() is None ==> r is None,
            self.selected_data_index() matches Some(i) ==> (r matches Some(s) && {
                let shown = display_tags_spec(*self, i as int);
                &&& s.repo_name@ == self.data.repos@[i as int].name@
                &&& s.tag_count == shown.len()
                &&& s.entries@.len() == shown.len()
                &&& forall|k: int|
                    0 <= k < shown.len() ==> (#[trigger] s.entries@[k]).tag@ == shown[k] && s.entries@[k].key_hint@
                        == key_hint_spec(self.data.registered_tags.deep_view(), shown[k])
            }),
    {
        let i = match self.selected_repo_data_index() {
            Some(i) => i,
            None => return None,
        };
        let tags = self.display_tags_for_repo_index(i);
        let ghost shown = tags.deep_view();
        let mut entries: Vec<SelectedRepoTagDetailEntry> = Vec::new();
        let mut k: usize = 0;
        while k < tags.len()
            invariant
                k <= tags.len(),
                shown == tags.deep_view(),
                entries@.len() == k,
                forall|j: int|
                    0 <= j < k ==> (#[trigger] entries@[j]).tag@ == shown[j] && entries@[j].key_hint@ == key_hint_spec(
                        self.data.registered_tags.deep_view(),
                        shown[j],
                    ),
            decreases tags.len() - k,
        {
            assert(shown[k as int] == tags[k as int]@);
            let hint = key_hint(&self.data.registered_tags, tags[k].as_str());
            entries.push(SelectedRepoTagDetailEntry { key_hint: hint, tag: tags[k].clone() });
            k = k + 1;
        }
        Some(
            SelectedRepoTagDetailState {
                repo_name: self.data.repos[i].name.clone(),
                tag_count: tags.len(),
                entries,
            },
        )
    }
}


/// The tag lists of the listed repositories, in list order.
pub open spec fn visible_tag_lists(a: App) -> Seq<Seq<Seq<char>>> {
    a.visible().map_values(|i: usize| a.data.repos@[i as int].tags.deep_view())
}

/// The groups of the listed repositories, each as a list of one, in list
/// order.
pub open spec fn visible_group_lists(a: App) -> Seq<Seq<Seq<char>>> {
    a.visible().map_values(|i: usize| seq![a.data.repos@[i as int].group@])
}

/// The entries of a group summary of `flat`: one per distinct group, each
/// with the number of times it occurs.
pub open spec fn group_summary_of(entries: Seq<GroupSummaryEntry>, flat: Seq<Seq<char>>) -> bool {
    &&& forall|i: int|
        0 <= i < entries.len() ==> (#[trigger] entries[i]).count == flat.to_multiset().count(entries[i].group@)
    &&& forall|i: int| 0 <= i < entries.len() ==> flat.contains((#[trigger] entries[i]).group@)
    &&& forall|t: Seq<char>|
        flat.contains(t) ==> exists|i: int| 0 <= i < entries.len() && (#[trigger] entries[i]).group@ == t
}

/// `a` is listed before `b` in the group summary: more repositories first,
/// then by name.
pub open spec fn group_summary_before(a: GroupSummaryEntry, b: GroupSummaryEntry) -> bool {
    a.count > b.count || (a.count == b.count && crate::strings::seq_lt(a.group@, b.group@))
}

/// Lists of one element each concatenate to as many elements as there are
/// lists.
proof fn lemma_concat_singletons(lists: Seq<Seq<Seq<char>>>)
    requires
        forall|i: int| 0 <= i < lists.len() ==> (#[trigger] lists[i]).len() == 1,
    ensures
        crate::tags::concat_lists(lists).len() == lists.len(),
    decreases lists.len(),
{
    if lists.len() > 0 {
        let init = lists.drop_last();
        assert forall|i: int| 0 <= i < init.len() implies (#[trigger] init[i]).len() == 1 by {
            assert(init[i] == lists[i]);
        }
        lemma_concat_singletons(init);
    }
}

impl App {
    /// The tag lists of the listed repositories.
    fn visible_tags(&self) -> (r: Vec<Vec<String>>)
        ensures
            r.deep_view() == visible_tag_lists(*self),
    {
        let v = self.visible_repo_indices();
        proof {
            crate::listing::lemma_visible_list(
                crate::listing::views_of(self.data.repos@),
                self.effective_tag_filter(),
                self.effective_group(),
                self.sort_mode,
                v@,
            );
        }
        let mut out: Vec<Vec<String>> = Vec::new();
        let mut k: usize = 0;
        while k < v.len()
            invariant
                k <= v.len(),
                v@ == self.visible(),
                forall|j: int| 0 <= j < v.len() ==> (#[trigger] v@[j] as int) < self.data.repos@.len(),
                out.deep_view() =~= visible_tag_lists(*self).take(k as int),
            decreases v.len() - k,
        {
            assert(v@[k as int] < self.data.repos@.len());
            let ghost before = out.deep_view();
            let ghost tl = visible_tag_lists(*self);
            out.push(clone_strings(&self.data.repos[v[k]].tags));
            assert(out.deep_view() =~= before.push(tl[k as int]));
            assert(tl.take(k + 1) =~= tl.take(k as int).push(tl[k as int]));
            k = k + 1;
        }
        assert(visible_tag_lists(*self).take(v@.len() as int) =~= visible_tag_lists(*self));
        out
    }

    /// How many listed repositories carry each tag: one entry per tag, the
    /// most carried first, then by name.
    pub fn tag_summary_entries(&self) -> (r: Vec<TagSummaryEntry>)
        requires
            crate::tags::concat_lists(visible_tag_lists(*self)).len() <= usize::MAX,
        ensures
            summary_entries_of(r@, crate::tags::concat_lists(visible_tag_lists(*self))),
            forall|i: int, j: int| 0 <= i < j < r.len() ==> summary_before(#[trigger] r[i], #[trigger] r[j]),
    {
        let lists = self.visible_tags();
        summarize_tag_counts(&lists)
    }

    /// How many listed repositories are in each group: one entry per group,
    /// the fullest first, then by name.
    pub fn group_summary_entries(&self) -> (r: Vec<GroupSummaryEntry>)
        ensures
            group_summary_of(r@, crate::tags::concat_lists(visible_group_lists(*self))),
            forall|i: int, j: int| 0 <= i < j < r.len() ==> group_summary_before(#[trigger] r[i], #[trigger] r[j]),
    {
        let v = self.visible_repo_indices();
        proof {
            crate::listing::lemma_visible_list(
                crate::listing::views_of(self.data.repos@),
                self.effective_tag_filter(),
                self.effective_group(),
                self.sort_mode,
                v@,
            );
        }
        let mut lists: Vec<Vec<String>> = Vec::new();
        let mut k: usize = 0;
        while k < v.len()
            invariant
                k <= v.len(),
                v@ == self.visible(),
                forall|j: int| 0 <= j < v.len() ==> (#[trigger] v@[j] as int) < self.data.repos@.len(),
                lists.deep_view() =~= visible_group_lists(*self).take(k as int),
            decreases v.len() - k,
        {
            assert(v@[k as int] < self.data.repos@.len());
            let mut one: Vec<String> = Vec::new();
            one.push(self.data.repos[v[k]].group.clone());
            assert(one.deep_view() =~= seq![self.data.repos@[v@[k as int] as int].group@]);
            let ghost before = lists.deep_view();
            let ghost gl = visible_group_lists(*self);
            lists.push(one);
            assert(lists.deep_view() =~= before.push(gl[k as int]));
            assert(gl.take(k + 1) =~= gl.take(k as int).push(gl[k as int]));
            k = k + 1;
        }
        proof {
            let gl = visible_group_lists(*self);
            assert(gl.take(v@.len() as int) =~= gl);
            assert(lists.deep_view() =~= gl);
            assert forall|i: int| 0 <= i < gl.len() implies (#[trigger] gl[i]).len() == 1 by {}
            lemma_concat_singletons(gl);
        }
        let counts = summarize_tag_counts(&lists);
        let ghost flat = crate::tags::concat_lists(lists.deep_view());
        let mut out: Vec<GroupSummaryEntry> = Vec::new();
        let mut i: usize = 0;
        while i < counts.len()
            invariant
                i <= counts.len(),
                out@.len() == i,
                forall|j: int|
                    0 <= j < i ==> (#[trigger] out@[j]).group@ == counts@[j].tag@ && out@[j].count == counts@[j].count,
            decreases counts.len() - i,
        {
            out.push(GroupSummaryEntry { group: counts[i].tag.clone(), count: counts[i].count });
            i = i + 1;
        }
        proof {
            assert forall|t: Seq<char>| flat.contains(t) implies exists|j: int|
                0 <= j < out@.len() && (#[trigger] out@[j]).group@ == t by {
                let j = choose|j: int| 0 <= j < counts@.len() && (#[trigger] counts@[j]).tag@ == t;
                assert(out@[j].group@ == t);
            }
            assert forall|a: int, b: int| 0 <= a < b < out@.len() implies group_summary_before(
                #[trigger] out@[a],
                #[trigger] out@[b],
            ) by {
                assert(summary_before(counts@[a], counts@[b]));
            }
        }
        out
    }
}

} // verus!
