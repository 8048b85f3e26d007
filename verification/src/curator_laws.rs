//! Properties of the curator that span several of its operations.
use crate::curator::{log_push, log_pushes, App, EditorField, Effect, LogView, DEBUG_LOG_LIMIT};
use crate::model::{repo_views, RepoData};
use crate::curator_filter::{filter_begun, filter_cancelled};
use crate::curator_groups::{group_binding_begun, group_binding_cancelled};
use crate::curator_nav::{page_moved, restored, selected_name};
use crate::curator_tags::{tag_binding_begun, tag_binding_cancelled, tag_shortcut_handled};
use crate::modes::SortMode;
use vstd::prelude::*;

verus! {

/// The debug log never holds more than its limit of entries, and each new
/// entry goes last.
pub proof fn law_debug_log_bounded(l: LogView, msg: Seq<char>)
    requires
        l.0.len() <= DEBUG_LOG_LIMIT,
    ensures
        log_push(l, msg).0.len() <= DEBUG_LOG_LIMIT,
        log_push(l, msg).0.last() == crate::curator::log_entry(l.1, msg),
{
}

/// However many entries are pushed onto a log that is within its limit (an
/// empty log among them), it stays within its limit, and the last entry
/// pushed goes last.
pub proof fn law_debug_log_stays_bounded(l: LogView, msgs: Seq<Seq<char>>)
    requires
        l.0.len() <= DEBUG_LOG_LIMIT,
    ensures
        log_pushes(l, msgs).0.len() <= DEBUG_LOG_LIMIT,
        msgs.len() > 0 ==> log_pushes(l, msgs).0.len() > 0,
    decreases msgs.len(),
{
    if msgs.len() > 0 {
        law_debug_log_stays_bounded(l, msgs.drop_last());
        law_debug_log_bounded(log_pushes(l, msgs.drop_last()), msgs.last());
    }
}

/// Every sequence of entries pushed onto a log within its limit leaves it
/// within its limit.
pub proof fn lemma_log_pushes_bounded(l: LogView)
    requires
        l.0.len() <= DEBUG_LOG_LIMIT,
    ensures
        forall|msgs: Seq<Seq<char>>| #[trigger] log_pushes(l, msgs).0.len() <= DEBUG_LOG_LIMIT,
{
    assert forall|msgs: Seq<Seq<char>>| #[trigger] log_pushes(l, msgs).0.len() <= DEBUG_LOG_LIMIT by {
        law_debug_log_stays_bounded(l, msgs);
    }
}

/// Leaving tag binding mode with Esc after choosing tags leaves the data as
/// it was: pending changes are discarded.
pub proof fn law_tag_binding_cancel_discards(a: App, b: App, c: App, d: App, ch: char)
    requires
        tag_binding_begun(a, b),
        tag_shortcut_handled(b, c, ch),
        tag_binding_cancelled(c, d),
    ensures
        d.data == a.data,
        d.tag_binding_mode is None,
{
}

/// Leaving group binding mode with Esc leaves the data as it was.
pub proof fn law_group_binding_cancel_discards(a: App, b: App, c: App)
    requires
        group_binding_begun(a, b),
        group_binding_cancelled(b, c),
    ensures
        c.data == a.data,
        c.group_binding_mode is None,
{
}

/// Syncing the selection changes nothing of what is listed.
proof fn lemma_synced_lists_same(x: App)
    ensures
        crate::curator::synced(x).data == x.data,
        crate::curator::synced(x).visible() == x.visible(),
{
    let s = crate::curator::synced(x);
    assert(s.data == x.data);
    assert(s.effective_tag_filter() == x.effective_tag_filter());
    assert(s.effective_group() == x.effective_group());
    assert(s.sort_mode == x.sort_mode);
}

/// Restoring the selection to a name that a listed repository carries
/// puts the selection on a repository of that name.
pub proof fn lemma_restore_finds_name(x: App, name: Seq<char>, i: usize)
    requires
        (i as int) < x.visible().len(),
        x.data.repos@[x.visible()[i as int] as int].name@ == name,
    ensures
        selected_name(restored(x, Some(name))) == Some(name),
{
    let s = crate::curator::synced(x);
    lemma_synced_lists_same(x);
    crate::curator_nav::lemma_first_position_before(s.visible(), s.data.repos@, name, i as int);
    let p = crate::curator_nav::first_position_named(s, name)->0;
    let r = App { selected: Some(p as usize), ..s };
    assert(restored(x, Some(name)) == r) by {
        reveal(restored);
    }
    assert(r.visible() == s.visible()) by {
        assert(r.data == s.data);
        assert(r.effective_tag_filter() == s.effective_tag_filter());
        assert(r.effective_group() == s.effective_group());
    }
}

/// Opening filter mode and cancelling it keeps the filters in force and
/// the data, and the selection is on a repository of the name selected
/// before.
pub proof fn law_filter_cancel_restores(a: App, b: App, c: App)
    requires
        a.filter_mode is None,
        a.selected_data_index() is Some,
        filter_begun(a, b),
        filter_cancelled(b, c),
    ensures
        c.filter_mode is None,
        c.tag_filter == a.tag_filter,
        c.group_filter == a.group_filter,
        c.data == a.data,
        c.sort_mode == a.sort_mode,
        selected_name(c) == selected_name(a),
{
    broadcast use crate::curator_nav::lemma_restored_frame;

    let m = b.filter_mode->0;
    let base = App { filter_mode: None, ..b };
    let name = selected_name(a)->0;
    assert(base.visible() == a.visible());
    let i = a.selected->0;
    assert(a.data.repos@[a.visible()[i as int] as int].name@ == name);
    assert(base.data == a.data);
    lemma_restore_finds_name(base, name, i);
    let r = restored(base, Some(name));
    assert(c == App { status_message: c.status_message, debug_log: c.debug_log, ..r });
    assert(c.visible() == r.visible());
}

/// A page move forward followed by one back returns to the page it
/// started from, over the registered tags or groups.
pub proof fn law_page_round_trip(a: App, b: App, c: App, groups: bool)
    requires
        a.data.registered_tags@.len() <= usize::MAX,
        a.data.registered_groups@.len() <= usize::MAX,
        page_moved(a, b, groups, true),
        b != a,
        page_moved(b, c, groups, false),
    ensures
        c.registered_tag_page == a.registered_tag_page,
        c.registered_group_page == a.registered_group_page,
        c.data == a.data,
{
    let count = if groups {
        crate::tags::page_count_spec(a.data.registered_groups@.len() as int)
    } else {
        crate::tags::page_count_spec(a.data.registered_tags@.len() as int)
    };
    if groups {
        assert(b.registered_group_page as int == a.registered_group_page as int + 1);
        assert(b.data == a.data);
        assert(c.registered_group_page as int == b.registered_group_page as int - 1);
    } else {
        assert(b.registered_tag_page as int == a.registered_tag_page as int + 1);
        assert(b.data == a.data);
        assert(c.registered_tag_page as int == b.registered_tag_page as int - 1);
    }
}

/// Toggling the sort order twice gives back the order it started with.
pub proof fn law_sort_toggle_twice(a: App, b: App, c: App)
    requires
        crate::curator_nav::sort_toggled(a, b),
        crate::curator_nav::sort_toggled(b, c),
    ensures
        c.sort_mode == a.sort_mode,
        c.data == a.data,
{
    broadcast use crate::curator_nav::lemma_restored_frame;

}

/// A tag binding whose write fails leaves every repository as it was: the
/// repository's tags are put back.
pub proof fn law_failed_tag_binding_save_restores(a: App, b: App, c: App, e: Seq<char>, r: Effect)
    requires
        crate::curator_tags::tag_binding_confirmed(a, b, Effect::Persist),
        crate::curator_edit::persist_done(b, c, Err(e), r),
    ensures
        repo_views(c.data.repos@) == repo_views(a.data.repos@),
        c.data == (RepoData { repos: c.data.repos, ..a.data }),
        c.status_message@ == "保存失敗: "@ + e,
{
    let m = a.tag_binding_mode.unwrap();
    let i = m.repo_index as int;
    assert forall|k: int| 0 <= k < a.data.repos@.len() implies #[trigger] c.data.repos@[k]@ == a.data.repos@[k]@ by {
        if k == i {
            assert(c.data.repos@[k].tags.deep_view() == a.data.repos@[k].tags.deep_view());
        }
    }
    assert(repo_views(c.data.repos@) =~= repo_views(a.data.repos@));
}

/// A group assignment from group binding mode whose write fails leaves
/// every repository as it was; only the group's registration stays.
pub proof fn law_failed_group_binding_save_restores(a: App, b: App, c: App, e: Seq<char>, r: Effect)
    requires
        crate::curator_groups::group_binding_confirmed(a, b, Effect::Persist),
        crate::curator_edit::persist_done(b, c, Err(e), r),
    ensures
        repo_views(c.data.repos@) == repo_views(a.data.repos@),
        c.data == (RepoData { repos: c.data.repos, registered_groups: c.data.registered_groups, ..a.data }),
        c.status_message@ == "保存失敗: "@ + e,
{
    let m = a.group_binding_mode.unwrap();
    let i = m.repo_index as int;
    assert forall|k: int| 0 <= k < a.data.repos@.len() implies #[trigger] c.data.repos@[k]@ == a.data.repos@[k]@ by {
        if k == i {
            assert(c.data.repos@[k].group@ == a.data.repos@[k].group@);
        }
    }
    assert(repo_views(c.data.repos@) =~= repo_views(a.data.repos@));
}

/// An edited description whose write fails is put back as it was.
pub proof fn law_failed_editor_save_restores(a: App, b: App, c: App, e: Seq<char>, r: Effect)
    requires
        crate::curator_edit::editor_saved(a, b, Effect::Persist),
        crate::curator_edit::persist_done(b, c, Err(e), r),
    ensures
        repo_views(c.data.repos@) == repo_views(a.data.repos@),
        c.data == (RepoData { repos: c.data.repos, ..a.data }),
        c.editor is None,
        c.status_message@ == "保存失敗: "@ + e,
{
    let i = a.selected_data_index().unwrap() as int;
    let field = a.editor.unwrap().field;
    assert forall|k: int| 0 <= k < a.data.repos@.len() implies #[trigger] c.data.repos@[k]@ == a.data.repos@[k]@ by {
        if k == i {
            match field {
                EditorField::ShortDesc => assert(c.data.repos@[k].desc_short@ == a.data.repos@[k].desc_short@),
                EditorField::LongDesc => assert(c.data.repos@[k].desc_long@ == a.data.repos@[k].desc_long@),
            }
        }
    }
    assert(repo_views(c.data.repos@) =~= repo_views(a.data.repos@));
}

/// A sequence holding `t` at `i` holds it first at some index.
proof fn lemma_first_index_exists(tags: Seq<Seq<char>>, t: Seq<char>, i: int)
    requires
        0 <= i < tags.len(),
        tags[i] == t,
    ensures
        exists|idx: int| crate::tags::is_first_index(tags, t, idx),
    decreases i,
{
    if exists|j: int| 0 <= j < i && tags[j] == t {
        let j = choose|j: int| 0 <= j < i && tags[j] == t;
        lemma_first_index_exists(tags, t, j);
    } else {
        assert(crate::tags::is_first_index(tags, t, i));
    }
}

/// The key a registered tag is shown under selects that tag on its page:
/// pressing the key (in either case) there finds the tag.
pub proof fn law_shown_key_selects_tag(tags: Seq<Seq<char>>, t: Seq<char>, page: int, key: char, ch: char)
    requires
        crate::tags::shortcut_for_tag_spec(tags, t) == Some((page, key)),
        crate::keys::ascii_lower(ch) == key as u32,
    ensures
        crate::curator::page_shortcut(tags, page, ch) == Some(t),
{
    let idx = choose|idx: int| crate::tags::is_first_index(tags, t, idx);
    assert(crate::tags::is_first_index(tags, t, idx)) by {
        let i0 = choose|i: int| 0 <= i < tags.len() && tags[i] == t;
        lemma_first_index_exists(tags, t, i0);
    }
    let slice = crate::tags::page_slice(tags, page);
    let keys = crate::tags::binding_keys(slice);
    let pos = idx % 26;
    assert(page == idx / 26);
    assert(crate::tags::clamp_page_spec(page, crate::tags::page_count_spec(tags.len() as int)) == page);
    assert(slice[pos] == tags[idx]);
    crate::tags::lemma_binding_keys_distinct(slice);
    assert(keys[pos] == key);
    assert forall|j: int| 0 <= j < pos implies keys[j] as u32 != crate::keys::ascii_lower(ch) by {
        if keys[j] as u32 == crate::keys::ascii_lower(ch) {
            vstd::utf8::char_u32_cast(keys[j], keys[j] as u32);
            vstd::utf8::char_u32_cast(key, key as u32);
            assert(keys[j] == keys[pos]);
        }
    }
    let i = choose|i: int| 0 <= i < slice.len() && keys[i] as u32 == crate::keys::ascii_lower(ch) && forall|j: int|
        0 <= j < i ==> keys[j] as u32 != crate::keys::ascii_lower(ch);
    assert(0 <= pos < slice.len() && keys[pos] as u32 == crate::keys::ascii_lower(ch));
    assert(i == pos) by {
        if i != pos {
            vstd::utf8::char_u32_cast(keys[i], keys[i] as u32);
            vstd::utf8::char_u32_cast(key, key as u32);
            assert(keys[i] == keys[pos]);
        }
    }
}

/// In tag binding mode, adding a tag with its lowercase key and taking it
/// off again with the uppercase key leaves the pending tags as they were.
pub proof fn law_tag_toggle_undone(a: App, b: App, c: App, lower: char, upper: char, t: Seq<char>)
    requires
        a.wf(),
        a.tag_binding_mode is Some,
        !crate::keys::is_ascii_upper(lower),
        crate::keys::is_ascii_upper(upper),
        crate::keys::ascii_lower(upper) == crate::keys::ascii_lower(lower),
        crate::curator_tags::current_tag_shortcut(a, lower) == Some(t),
        !a.tag_binding_mode->0.pending_tags.deep_view().contains(t),
        tag_shortcut_handled(a, b, lower),
        tag_shortcut_handled(b, c, upper),
    ensures
        c.tag_binding_mode matches Some(n) && n.pending_tags.deep_view() == a.tag_binding_mode->0.pending_tags.deep_view(),
        c.data == a.data,
{
    let m = a.tag_binding_mode->0;
    assert(crate::curator_tags::current_tag_shortcut(b, upper) == Some(t));
    let n = c.tag_binding_mode->0;
    assert(n.pending_tags.deep_view().to_set() =~= m.pending_tags.deep_view().to_set()) by {
        assert(!m.pending_tags.deep_view().to_set().contains(t));
    }
    crate::strings::lemma_strictly_sorted_unique(n.pending_tags.deep_view(), m.pending_tags.deep_view());
}


/// Every tag shown on a page of tags written in ASCII has a lowercase
/// letter key, and pressing that key (in either case) selects that tag.
pub proof fn law_every_shown_tag_has_a_key(tags: Seq<Seq<char>>, page: int, i: int)
    requires
        forall|t: int| 0 <= t < tags.len() ==> crate::tags::ascii_text(#[trigger] tags[t]),
        0 <= page,
        0 <= i < crate::tags::page_slice(tags, page).len(),
    ensures
        'a' <= crate::tags::binding_keys(crate::tags::page_slice(tags, page))[i] <= 'z',
        crate::curator::page_shortcut(tags, page, crate::tags::binding_keys(crate::tags::page_slice(tags, page))[i])
            == Some(crate::tags::page_slice(tags, page)[i]),
{
    let n = tags.len() as int;
    let pc = crate::tags::page_count_spec(n);
    let p = crate::tags::clamp_page_spec(page, pc);
    let start = p * 26;
    let end = if start + 26 < n {
        start + 26
    } else {
        n
    };
    assert(0 <= start <= n) by {
        if n > 0 {
            assert(0 <= p <= (n - 1) / 26);
            assert(p * 26 <= ((n - 1) / 26) * 26) by (nonlinear_arith)
                requires
                    0 <= p <= (n - 1) / 26,
            ;
            assert(((n - 1) / 26) * 26 <= n - 1) by (nonlinear_arith)
                requires
                    n >= 1,
            ;
        }
    }
    let slice = crate::tags::page_slice(tags, page);
    assert(slice == tags.subrange(start, end));
    assert(slice.len() <= 26);
    assert forall|t: int| 0 <= t < slice.len() implies crate::tags::ascii_text(#[trigger] slice[t]) by {
        assert(slice[t] == tags[start + t]);
    }
    crate::tags::lemma_ascii_binding_keys_lower(slice);
    crate::tags::lemma_binding_keys_distinct(slice);
    let keys = crate::tags::binding_keys(slice);
    let key = keys[i];
    assert('a' <= key <= 'z');
    assert(crate::keys::ascii_lower(key) == key as u32);
    assert(0 <= i < slice.len() && keys[i] as u32 == crate::keys::ascii_lower(key));
    let j = choose|j: int| 0 <= j < slice.len() && keys[j] as u32 == crate::keys::ascii_lower(key) && forall|q: int|
        0 <= q < j ==> keys[q] as u32 != crate::keys::ascii_lower(key);
    assert(keys[j] == keys[i]) by {
        vstd::utf8::char_u32_cast(keys[j], keys[j] as u32);
        vstd::utf8::char_u32_cast(key, key as u32);
    }
    assert(j == i);
}
} // verus!
