//! The key dispatcher of the curator: which screen a key press goes to.
use crate::curator::{log_push, App, EditorField, Effect, HelpScreen};
use crate::curator_edit::{editor_key_step, editor_started};
use crate::curator_filter::{filter_begun, filter_first_log, filter_key_step};
use crate::curator_groups::{
    group_binding_begun, group_binding_first_log, group_binding_key_step, group_input_begun, group_input_first_log,
    group_input_key_step, group_manager_first_log, group_manager_key_step, group_manager_opened,
};
use crate::curator_nav::{
    debug_pane_toggled, desc_mode_cycled, moved_down, moved_page_down, moved_page_up, moved_up, page_moved, sort_toggled,
};
use crate::curator_tags::{
    help_key_handled, only_logged, tag_binding_begun, tag_binding_first_log, tag_binding_key_step, tag_input_begun,
    tag_input_first_log, tag_input_key_step, tag_manager_first_log, tag_manager_key_step, tag_manager_opened,
};
use crate::keys::{
    ctrl_char, describe_key_code, describe_key_spec, is_ctrl_char, is_plain_or_ctrl_char, is_quit_key, is_shift_char,
    plain_char, quit_key, shift_char, Key, KeyCode,
};
use crate::strings::{append_str, bool_str, bool_text};
use vstd::prelude::*;

verus! {

broadcast use crate::curator_nav::lemma_restored_frame;

/// No input, editor, binding mode or filter mode is open.
pub open spec fn no_modal(a: App) -> bool {
    &&& a.tag_input is None
    &&& a.group_input is None
    &&& a.editor is None
    &&& a.tag_binding_mode is None
    &&& a.group_binding_mode is None
    &&& a.filter_mode is None
}

/// The first log line of `handle_key`: the key and which screens are open.
pub open spec fn key_first_log(a: App, key: Key) -> Seq<char> {
    "handle_key: code="@ + describe_key_spec(key.code) + " tag_input="@ + bool_text(a.tag_input is Some)
        + " group_input="@ + bool_text(a.group_input is Some) + " editor="@ + bool_text(a.editor is Some)
        + " tag_binding="@ + bool_text(a.tag_binding_mode is Some) + " group_binding="@ + bool_text(
        a.group_binding_mode is Some,
    ) + " filter="@ + bool_text(a.filter_mode is Some) + " tag_manager="@ + bool_text(a.tag_manager is Some)
        + " group_manager="@ + bool_text(a.group_manager is Some) + " help="@ + bool_text(a.help_screen is Some)
}

/// A key handed to the screen that is open, after the log line naming it.
pub open spec fn routed_step(a: App, b: App, key: Key, r: Effect) -> bool {
    if a.help_screen is Some {
        exists|m: App|
            #[trigger] only_logged(a, m, "route -> handle_help_key"@) && r == Effect::Nothing && help_key_handled(
                m,
                b,
                key,
            )
    } else if a.tag_input is Some {
        exists|m: App|
            #[trigger] only_logged(a, m, "route -> handle_tag_input_key"@) && exists|n: App|
                #[trigger] only_logged(m, n, tag_input_first_log(m, key)) && tag_input_key_step(n, b, key, r)
    } else if a.group_input is Some {
        exists|m: App|
            #[trigger] only_logged(a, m, "route -> handle_group_input_key"@) && exists|n: App|
                #[trigger] only_logged(m, n, group_input_first_log(m, key)) && group_input_key_step(n, b, key, r)
    } else if a.editor is Some {
        exists|m: App| #[trigger] only_logged(a, m, "route -> handle_editor_key"@) && editor_key_step(m, b, key, r)
    } else if a.tag_binding_mode is Some {
        exists|m: App|
            #[trigger] only_logged(a, m, "route -> handle_tag_binding_mode_key"@) && exists|n: App|
                #[trigger] only_logged(m, n, tag_binding_first_log(m, key)) && tag_binding_key_step(n, b, key, r)
    } else if a.group_binding_mode is Some {
        exists|m: App|
            #[trigger] only_logged(a, m, "route -> handle_group_binding_mode_key"@) && exists|n: App|
                #[trigger] only_logged(m, n, group_binding_first_log(m, key)) && group_binding_key_step(n, b, key, r)
    } else if a.filter_mode is Some {
        exists|m: App|
            #[trigger] only_logged(a, m, "route -> handle_filter_mode_key"@) && r == Effect::Nothing && exists|n: App|
                #[trigger] only_logged(m, n, filter_first_log(m, key)) && filter_key_step(n, b, key)
    } else if a.tag_manager is Some {
        exists|m: App|
            #[trigger] only_logged(a, m, "route -> handle_tag_manager_key"@) && r == Effect::Nothing && exists|n: App|
                #[trigger] only_logged(m, n, tag_manager_first_log(m, key)) && tag_manager_key_step(n, b, key)
    } else {
        exists|m: App|
            #[trigger] only_logged(a, m, "route -> handle_group_manager_key"@) && exists|n: App|
                #[trigger] only_logged(m, n, group_manager_first_log(m, key)) && group_manager_key_step(n, b, key, r)
    }
}

/// A key on the main screen, with nothing open over it.
pub open spec fn main_screen_step(a: App, b: App, key: Key, r: Effect) -> bool {
    if plain_char(key, 'e') || ctrl_char(key, 'e') {
        editor_started(a, b, EditorField::ShortDesc, r)
    } else if plain_char(key, 'l') || ctrl_char(key, 'l') {
        editor_started(a, b, EditorField::LongDesc, r)
    } else if shift_char(key, 't') {
        r == Effect::Nothing && tag_manager_opened(a, b)
    } else if shift_char(key, 'g') {
        r == Effect::Nothing && group_manager_opened(a, b)
    } else if plain_char(key, 'n') || ctrl_char(key, 'n') {
        r == Effect::Nothing && tag_input_begun(a, b, false)
    } else if ctrl_char(key, 'g') {
        r == Effect::Nothing && group_input_begun(a, b, false)
    } else if plain_char(key, 'r') || ctrl_char(key, 'r') {
        r == Effect::RefreshFromGithub && b == a
    } else if plain_char(key, 's') || ctrl_char(key, 's') {
        r == Effect::Nothing && sort_toggled(a, b)
    } else if shift_char(key, 'p') {
        r == Effect::StartManualJsonPush && b == a
    } else {
        &&& r == Effect::Nothing
        &&& match key.code {
            KeyCode::Char('?') => b == App { help_screen: Some(HelpScreen::Main), ..a },
            KeyCode::Char('t') => tag_binding_begun(a, b),
            KeyCode::Char('g') => group_binding_begun(a, b),
            KeyCode::Char('/') => filter_begun(a, b),
            KeyCode::Char('j') | KeyCode::Down => moved_down(a, b),
            KeyCode::Char('k') | KeyCode::Up => moved_up(a, b),
            KeyCode::PageDown => moved_page_down(a, b),
            KeyCode::PageUp => moved_page_up(a, b),
            KeyCode::Left => page_moved(a, b, false, false),
            KeyCode::Right => page_moved(a, b, false, true),
            _ => b == a,
        }
    }
}

/// One key press, after the first log line: `q` quits, Shift+L and
/// Shift+D toggle the log pane and the description display, unless an
/// input, the editor, a binding mode or filter mode is open; otherwise the
/// key goes to the screen that is open, or to the main screen.
pub open spec fn key_step(a: App, b: App, key: Key, r: Effect) -> bool {
    if no_modal(a) && quit_key(key) {
        r == Effect::Quit && b == a
    } else if no_modal(a) && shift_char(key, 'l') {
        r == Effect::Nothing && debug_pane_toggled(a, b)
    } else if no_modal(a) && shift_char(key, 'd') {
        r == Effect::Nothing && desc_mode_cycled(a, b)
    } else if a.help_screen is Some || !no_modal(a) || a.tag_manager is Some || a.group_manager is Some {
        routed_step(a, b, key, r)
    } else {
        main_screen_step(a, b, key, r)
    }
}

impl App {
    /// Logs a key event as the terminal reported it: the key, and the
    /// modifiers, kind and state as the terminal library writes them.
    pub fn note_raw_key_event(&mut self, key: Key, modifiers: &str, kind: &str, state: &str)
        ensures
            old(self).wf() ==> final(self).wf(),
            final(self).debug_log.view_log() == log_push(
                old(self).debug_log.view_log(),
                "raw key: code="@ + describe_key_spec(key.code) + " modifiers="@ + modifiers@ + " kind="@ + kind@
                    + " state="@ + state@,
            ),
            *final(self) == (App { debug_log: final(self).debug_log, ..*old(self) }),
    {
        let mut s = "raw key: code=".to_owned();
        append_str(&mut s, describe_key_code(&key.code).as_str());
        append_str(&mut s, " modifiers=");
        append_str(&mut s, modifiers);
        append_str(&mut s, " kind=");
        append_str(&mut s, kind);
        append_str(&mut s, " state=");
        append_str(&mut s, state);
        self.push_debug_log(s.as_str());
    }

    /// Logs a key event that is not a press, and so is not handled.
    pub fn note_ignored_key_event(&mut self, key: Key, kind: &str)
        ensures
            old(self).wf() ==> final(self).wf(),
            final(self).debug_log.view_log() == log_push(
                old(self).debug_log.view_log(),
                "ignored key: code="@ + describe_key_spec(key.code) + " because kind="@ + kind@,
            ),
            *final(self) == (App { debug_log: final(self).debug_log, ..*old(self) }),
    {
        let mut s = "ignored key: code=".to_owned();
        append_str(&mut s, describe_key_code(&key.code).as_str());
        append_str(&mut s, " because kind=");
        append_str(&mut s, kind);
        self.push_debug_log(s.as_str());
    }

    /// The entries of the debug log, oldest first.
    pub fn debug_log_lines(&self) -> (r: Vec<String>)
        ensures
            r.deep_view() == self.debug_log.entries.deep_view(),
    {
        let entries = &self.debug_log.entries;
        let mut r: Vec<String> = Vec::new();
        let mut i: usize = 0;
        while i < entries.len()
            invariant
                i <= entries@.len(),
                r.deep_view() == entries.deep_view().take(i as int),
            decreases entries@.len() - i,
        {
            let ghost before = r.deep_view();
            let c = entries[i].clone();
            r.push(c);
            assert(r.deep_view() =~= before.push(c@));
            assert(r.deep_view() =~= entries.deep_view().take(i + 1));
            i = i + 1;
        }
        assert(entries.deep_view().take(i as int) =~= entries.deep_view());
        r
    }

    /// Handles one key press (see `key_step`) and says what the caller is to
    /// do next.
    pub fn handle_key(&mut self, key: Key) -> (r: Effect)
        requires
            old(self).wf(),
        ensures
            final(self).wf(),
            exists|mid: App|
                #[trigger] only_logged(*old(self), mid, key_first_log(*old(self), key)) && key_step(
                    mid,
                    *final(self),
                    key,
                    r,
                ),
    {
        let mut first = "handle_key: code=".to_owned();
        append_str(&mut first, describe_key_code(&key.code).as_str());
        append_str(&mut first, " tag_input=");
        append_str(&mut first, bool_str(self.tag_input.is_some()));
        append_str(&mut first, " group_input=");
        append_str(&mut first, bool_str(self.group_input.is_some()));
        append_str(&mut first, " editor=");
        append_str(&mut first, bool_str(self.editor.is_some()));
        append_str(&mut first, " tag_binding=");
        append_str(&mut first, bool_str(self.tag_binding_mode.is_some()));
        append_str(&mut first, " group_binding=");
        append_str(&mut first, bool_str(self.group_binding_mode.is_some()));
        append_str(&mut first, " filter=");
        append_str(&mut first, bool_str(self.filter_mode.is_some()));
        append_str(&mut first, " tag_manager=");
        append_str(&mut first, bool_str(self.tag_manager.is_some()));
        append_str(&mut first, " group_manager=");
        append_str(&mut first, bool_str(self.group_manager.is_some()));
        append_str(&mut first, " help=");
        append_str(&mut first, bool_str(self.help_screen.is_some()));
        assert(first@ == key_first_log(*old(self), key));
        self.push_debug_log(first.as_str());
        let ghost mid = *self;
        assert(only_logged(*old(self), mid, key_first_log(*old(self), key)));
        let no_modal = self.tag_input.is_none() && self.group_input.is_none() && self.editor.is_none()
            && self.tag_binding_mode.is_none() && self.group_binding_mode.is_none() && self.filter_mode.is_none();
        if no_modal && is_quit_key(&key) {
            return Effect::Quit;
        }
        if no_modal && is_shift_char(&key, 'l') {
            self.toggle_debug_log_pane();
            return Effect::Nothing;
        }
        if no_modal && is_shift_char(&key, 'd') {
            self.cycle_desc_display_mode();
            return Effect::Nothing;
        }
        if self.help_screen.is_some() || !no_modal || self.tag_manager.is_some() || self.group_manager.is_some() {
            let r = self.route_key(key);
            return r;
        }
        self.main_screen_key(key)
    }

    /// Hands a key to the screen that is open (see `routed_step`).
    fn route_key(&mut self, key: Key) -> (r: Effect)
        requires
            old(self).wf(),
        ensures
            final(self).wf(),
            routed_step(*old(self), *final(self), key, r),
    {
        let ghost a = *self;
        if self.help_screen.is_some() {
            self.push_debug_log("route -> handle_help_key");
            let ghost m = *self;
            self.handle_help_key(key);
            assert(only_logged(a, m, "route -> handle_help_key"@));
            return Effect::Nothing;
        }
        if self.tag_input.is_some() {
            self.push_debug_log("route -> handle_tag_input_key");
            let ghost m = *self;
            assert(only_logged(a, m, "route -> handle_tag_input_key"@));
            return self.handle_tag_input_key(key);
        }
        if self.group_input.is_some() {
            self.push_debug_log("route -> handle_group_input_key");
            let ghost m = *self;
            assert(only_logged(a, m, "route -> handle_group_input_key"@));
            return self.handle_group_input_key(key);
        }
        if self.editor.is_some() {
            self.push_debug_log("route -> handle_editor_key");
            let ghost m = *self;
            assert(only_logged(a, m, "route -> handle_editor_key"@));
            return self.handle_editor_key(key);
        }
        if self.tag_binding_mode.is_some() {
            self.push_debug_log("route -> handle_tag_binding_mode_key");
            let ghost m = *self;
            assert(only_logged(a, m, "route -> handle_tag_binding_mode_key"@));
            return self.handle_tag_binding_mode_key(key);
        }
        if self.group_binding_mode.is_some() {
            self.push_debug_log("route -> handle_group_binding_mode_key");
            let ghost m = *self;
            assert(only_logged(a, m, "route -> handle_group_binding_mode_key"@));
            return self.handle_group_binding_mode_key(key);
        }
        if self.filter_mode.is_some() {
            self.push_debug_log("route -> handle_filter_mode_key");
            let ghost m = *self;
            assert(only_logged(a, m, "route -> handle_filter_mode_key"@));
            self.handle_filter_mode_key(key);
            return Effect::Nothing;
        }
        if self.tag_manager.is_some() {
            self.push_debug_log("route -> handle_tag_manager_key");
            let ghost m = *self;
            assert(only_logged(a, m, "route -> handle_tag_manager_key"@));
            self.handle_tag_manager_key(key);
            return Effect::Nothing;
        }
        self.push_debug_log("route -> handle_group_manager_key");
        let ghost m = *self;
        assert(only_logged(a, m, "route -> handle_group_manager_key"@));
        self.handle_group_manager_key(key)
    }

    /// Handles a key on the main screen (see `main_screen_step`).
    fn main_screen_key(&mut self, key: Key) -> (r: Effect)
        requires
            old(self).wf(),
            no_modal(*old(self)),
        ensures
            final(self).wf(),
            main_screen_step(*old(self), *final(self), key, r),
    {
        if is_plain_or_ctrl_char(&key, 'e') {
            return self.start_editor(EditorField::ShortDesc);
        }
        if is_plain_or_ctrl_char(&key, 'l') {
            return self.start_editor(EditorField::LongDesc);
        }
        if is_shift_char(&key, 't') {
            self.open_tag_manager();
            return Effect::Nothing;
        }
        if is_shift_char(&key, 'g') {
            self.open_group_manager();
            return Effect::Nothing;
        }
        if is_plain_or_ctrl_char(&key, 'n') {
            self.begin_new_tag_input();
            return Effect::Nothing;
        }
        if is_ctrl_char(&key, 'g') {
            self.begin_new_group_input();
            return Effect::Nothing;
        }
        if is_plain_or_ctrl_char(&key, 'r') {
            return Effect::RefreshFromGithub;
        }
        if is_plain_or_ctrl_char(&key, 's') {
            self.toggle_sort_mode();
            return Effect::Nothing;
        }
        if is_shift_char(&key, 'p') {
            return Effect::StartManualJsonPush;
        }
        match key.code {
            KeyCode::Char('?') => {
                self.help_screen = Some(HelpScreen::Main);
            },
            KeyCode::Char('t') => self.begin_tag_binding_mode(),
            KeyCode::Char('g') => self.begin_group_binding_mode(),
            KeyCode::Char('/') => self.begin_filter_mode(),
            KeyCode::Char('j') | KeyCode::Down => self.move_down(),
            KeyCode::Char('k') | KeyCode::Up => self.move_up(),
            KeyCode::PageDown => self.move_page_down(),
            KeyCode::PageUp => self.move_page_up(),
            KeyCode::Left => self.prev_registered_tag_page(),
            KeyCode::Right => self.next_registered_tag_page(),
            _ => {},
        }
        Effect::Nothing
    }
}

} // verus!
