//! The text areas of the tag input, the group input and the description
//! editor: a tui-textarea `TextArea`, which keeps the lines, the cursor and an
//! undo history, and edits at the cursor on each key it is given.
use crate::config::{split_newlines, strip_cr};
use crate::curator_groups::textarea_lines;
use crate::keys::{Key, KeyCode};
use crate::strings::{join_strings, join_with};
use tui_textarea::{CursorMove, Input, Key as AreaKey, TextArea};
use vstd::prelude::*;

verus! {

/// A tui-textarea text area: the lines it holds, a cursor within them
/// (row and column, counted in characters), whether a selection is open,
/// and an undo history. What it holds is named by `text_box_lines` and
/// `text_box_cursor`; only the wrappers below touch it.
#[verifier::external_body]
pub struct TextBox {
    pub area: TextArea<'static>,
}

/// The lines a text box holds.
pub uninterp spec fn text_box_lines(b: TextBox) -> Seq<Seq<char>>;

/// The cursor of a text box, as row and column (in characters), and whether
/// a selection is open.
pub uninterp spec fn text_box_cursor(b: TextBox) -> (nat, nat, bool);

/// What every text area keeps: at least one line, and the cursor on one of
/// its lines, at most at its end.
pub open spec fn box_ok(b: TextBox) -> bool {
    let lines = text_box_lines(b);
    let (row, col, _) = text_box_cursor(b);
    &&& lines.len() >= 1
    &&& row < lines.len()
    &&& col <= lines[row as int].len()
}

/// The cursor at the end of the last line, no selection open.
pub open spec fn at_end(lines: Seq<Seq<char>>) -> (nat, nat, bool) {
    ((lines.len() - 1) as nat, lines.last().len(), false)
}

/// `TextArea::new`: a text area holding `lines`, or one empty line when
/// `lines` is empty, with the cursor at the start and no selection.
#[verifier::external_body]
fn text_box_new(lines: Vec<String>) -> (r: TextBox)
    ensures
        text_box_lines(r) == if lines@.len() == 0 {
            seq![Seq::<char>::empty()]
        } else {
            lines.deep_view()
        },
        text_box_cursor(r) == (0nat, 0nat, false),
{
    TextBox { area: TextArea::new(lines) }
}

/// `TextArea::set_max_histories`: replaces the undo history with an empty one
/// that keeps `max` edits. The lines and the cursor stay as they were.
#[verifier::external_body]
fn text_box_set_max_histories(b: &mut TextBox, max: usize)
    ensures
        text_box_lines(*final(b)) == text_box_lines(*old(b)),
        text_box_cursor(*final(b)) == text_box_cursor(*old(b)),
{
    b.area.set_max_histories(max)
}

/// Where the cursor of a text box can be sent.
#[derive(Debug, Clone, Copy, PartialEq, Eq, Structural)]
pub enum CursorTarget {
    /// The last line.
    Bottom,
    /// The end of the cursor's line.
    End,
}

/// `TextArea::move_cursor`: `Bottom` sends the cursor to the last line,
/// keeping its column where that line is long enough and else going to its
/// end; `End` sends it to the end of its line. The lines stay as they were,
/// as does whether a selection is open.
#[verifier::external_body]
fn text_box_move_cursor(b: &mut TextBox, to: CursorTarget)
    requires
        box_ok(*old(b)),
    ensures
        text_box_lines(*final(b)) == text_box_lines(*old(b)),
        text_box_cursor(*final(b)) == ({
            let lines = text_box_lines(*old(b));
            let (row, col, sel) = text_box_cursor(*old(b));
            match to {
                CursorTarget::Bottom => {
                    let last = (lines.len() - 1) as nat;
                    (last, if col <= lines[last as int].len() {
                        col
                    } else {
                        lines[last as int].len()
                    }, sel)
                },
                CursorTarget::End => (row, lines[row as int].len(), sel),
            }
        }),
{
    b.area.move_cursor(
        match to {
            CursorTarget::Bottom => CursorMove::Bottom,
            CursorTarget::End => CursorMove::End,
        },
    )
}

/// `TextArea::lines`: the lines the text box holds.
#[verifier::external_body]
fn text_box_text(b: &TextBox) -> (r: Vec<String>)
    ensures
        r.deep_view() == text_box_lines(*b),
{
    b.area.lines().to_vec()
}

/// The keys a text area tells apart.
#[derive(Debug, Clone, Copy, PartialEq, Eq, Structural)]
pub enum TextKey {
    Char(char),
    Backspace,
    Enter,
    Left,
    Right,
    Up,
    Down,
    Tab,
    Delete,
    Home,
    End,
    PageUp,
    PageDown,
    /// A key the text area ignores.
    Null,
}

/// The key a text area is given for `code`: the keys that tui-textarea's
/// crossterm conversion passes on, each as itself; any other key as `Null`.
/// Esc and the function keys are passed on there too, but its default key
/// mapping does nothing with them, as it does with `Null`.
pub open spec fn text_key_spec(code: KeyCode) -> TextKey {
    match code {
        KeyCode::Char(c) => TextKey::Char(c),
        KeyCode::Backspace => TextKey::Backspace,
        KeyCode::Enter => TextKey::Enter,
        KeyCode::Left => TextKey::Left,
        KeyCode::Right => TextKey::Right,
        KeyCode::Up => TextKey::Up,
        KeyCode::Down => TextKey::Down,
        KeyCode::Tab => TextKey::Tab,
        KeyCode::Delete => TextKey::Delete,
        KeyCode::Home => TextKey::Home,
        KeyCode::End => TextKey::End,
        KeyCode::PageUp => TextKey::PageUp,
        KeyCode::PageDown => TextKey::PageDown,
        _ => TextKey::Null,
    }
}

/// The key a text area is given for `code` (see `text_key_spec`).
pub fn text_key(code: KeyCode) -> (r: TextKey)
    ensures
        r == text_key_spec(code),
{
    match code {
        KeyCode::Char(c) => TextKey::Char(c),
        KeyCode::Backspace => TextKey::Backspace,
        KeyCode::Enter => TextKey::Enter,
        KeyCode::Left => TextKey::Left,
        KeyCode::Right => TextKey::Right,
        KeyCode::Up => TextKey::Up,
        KeyCode::Down => TextKey::Down,
        KeyCode::Tab => TextKey::Tab,
        KeyCode::Delete => TextKey::Delete,
        KeyCode::Home => TextKey::Home,
        KeyCode::End => TextKey::End,
        KeyCode::PageUp => TextKey::PageUp,
        KeyCode::PageDown => TextKey::PageDown,
        _ => TextKey::Null,
    }
}

/// The lines with `line` in place of line `row`.
pub open spec fn with_line(lines: Seq<Seq<char>>, row: int, line: Seq<char>) -> Seq<Seq<char>> {
    lines.update(row, line)
}

/// What a key pressed without Ctrl or Alt, with no selection open, does to
/// the lines and the cursor (`row`, `col`) of a text area, for the keys whose
/// effect is stated:
/// - a character is inserted at the cursor, which moves past it (`\n` and
///   `\r` break the line, as Enter does);
/// - Enter breaks the line at the cursor, which goes to the start of the
///   new line;
/// - Backspace removes the character before the cursor, or at the start of
///   a line joins it to the line above;
/// - Delete removes the character at the cursor, or at the end of a line
///   joins the next line to it;
/// - Left, Right, Home and End (without Shift) move the cursor;
/// - `Null` does nothing.
/// Tab, Up, Down, PageUp and PageDown are left unstated (`None`).
pub open spec fn plain_edit(lines: Seq<Seq<char>>, row: int, col: int, key: TextKey, shift: bool) -> Option<
    (Seq<Seq<char>>, int, int),
> {
    let line = lines[row];
    let newline = (lines.take(row) + seq![line.take(col), line.skip(col)] + lines.skip(row + 1), row + 1, 0int);
    match key {
        TextKey::Char(c) => if c == '\n' || c == '\r' {
            Some(newline)
        } else {
            Some((with_line(lines, row, line.take(col) + seq![c] + line.skip(col)), row, col + 1))
        },
        TextKey::Enter => Some(newline),
        TextKey::Backspace => if col > 0 {
            Some((with_line(lines, row, line.take(col - 1) + line.skip(col)), row, col - 1))
        } else if row > 0 {
            Some(
                (
                    lines.take(row - 1) + seq![lines[row - 1] + line] + lines.skip(row + 1),
                    row - 1,
                    lines[row - 1].len() as int,
                ),
            )
        } else {
            Some((lines, row, col))
        },
        TextKey::Delete => if col < line.len() {
            Some((with_line(lines, row, line.take(col) + line.skip(col + 1)), row, col))
        } else if row + 1 < lines.len() {
            Some((lines.take(row) + seq![line + lines[row + 1]] + lines.skip(row + 2), row, col))
        } else {
            Some((lines, row, col))
        },
        TextKey::Left => if shift {
            None
        } else if col > 0 {
            Some((lines, row, col - 1))
        } else if row > 0 {
            Some((lines, row - 1, lines[row - 1].len() as int))
        } else {
            Some((lines, row, col))
        },
        TextKey::Right => if shift {
            None
        } else if col < line.len() {
            Some((lines, row, col + 1))
        } else if row + 1 < lines.len() {
            Some((lines, row + 1, 0))
        } else {
            Some((lines, row, col))
        },
        TextKey::Home => if shift {
            None
        } else {
            Some((lines, row, 0))
        },
        TextKey::End => if shift {
            None
        } else {
            Some((lines, row, line.len() as int))
        },
        TextKey::Null => Some((lines, row, col)),
        _ => None,
    }
}

/// What a key does to a text box `b`, where that is stated: without Ctrl
/// and Alt, with no selection open, see `plain_edit`; afterwards no
/// selection is open.
pub open spec fn key_edit(b: TextBox, key: TextKey, ctrl: bool, alt: bool, shift: bool) -> Option<
    (Seq<Seq<char>>, (nat, nat, bool)),
> {
    let (row, col, sel) = text_box_cursor(b);
    if ctrl || alt || sel {
        None
    } else {
        match plain_edit(text_box_lines(b), row as int, col as int, key, shift) {
            Some((lines, r, c)) => Some((lines, (r as nat, c as nat, false))),
            None => None,
        }
    }
}

/// `TextArea::input`: edits the text box as its default key mapping says
/// for `key` with the modifiers held. Where `key_edit` states the effect,
/// the lines and cursor are as it says; other keys (Tab, Up, Down, the page
/// keys, the Ctrl and Alt shortcuts, undo and redo, keys with a selection
/// open) act on the cursor and the history and are left unstated. The text
/// area keeps its lines and cursor in order either way.
#[verifier::external_body]
fn text_box_input(b: &mut TextBox, key: TextKey, ctrl: bool, alt: bool, shift: bool)
    requires
        box_ok(*old(b)),
    ensures
        box_ok(*final(b)),
        key_edit(*old(b), key, ctrl, alt, shift) matches Some((lines, cursor)) ==> text_box_lines(*final(b))
            == lines && text_box_cursor(*final(b)) == cursor,
{
    let key = match key {
        TextKey::Char(c) => AreaKey::Char(c), TextKey::Backspace => AreaKey::Backspace,
        TextKey::Enter => AreaKey::Enter, TextKey::Left => AreaKey::Left, TextKey::Right => AreaKey::Right,
        TextKey::Up => AreaKey::Up, TextKey::Down => AreaKey::Down, TextKey::Tab => AreaKey::Tab,
        TextKey::Delete => AreaKey::Delete, TextKey::Home => AreaKey::Home, TextKey::End => AreaKey::End,
        TextKey::PageUp => AreaKey::PageUp, TextKey::PageDown => AreaKey::PageDown, TextKey::Null => AreaKey::Null,
    };
    b.area.input(Input { key, ctrl, alt, shift });
}

/// What pressing `key` does to a text box (see `key_edit`), with the key
/// the text area is given for it (see `text_key_spec`).
pub open spec fn typed(b: TextBox, key: Key) -> Option<(Seq<Seq<char>>, (nat, nat, bool))> {
    key_edit(b, text_key_spec(key.code), key.ctrl, key.alt, key.shift)
}

/// Gives `key` to the text box (see `typed`).
pub fn text_box_key(b: &mut TextBox, key: Key)
    requires
        box_ok(*old(b)),
    ensures
        box_ok(*final(b)),
        typed(*old(b), key) matches Some((lines, cursor)) ==> text_box_lines(*final(b)) == lines
            && text_box_cursor(*final(b)) == cursor,
{
    text_box_input(b, text_key(key.code), key.ctrl, key.alt, key.shift);
}

/// The lines a text area is opened on for `text`: `text` split at `\n`,
/// each line without a trailing `\r`.
pub open spec fn area_lines(text: Seq<char>) -> Seq<Seq<char>> {
    split_newlines(text).map_values(|l: Seq<char>| strip_cr(l))
}

/// The lines of a one-line text area: more than one line joined into one
/// with spaces.
pub open spec fn flattened(lines: Seq<Seq<char>>) -> Seq<Seq<char>> {
    if lines.len() <= 1 {
        lines
    } else {
        seq![join_with(lines, " "@)]
    }
}

/// The cursor of a one-line text area after its lines are flattened: where
/// it was when there was one line, else at the end of the joined line.
pub open spec fn flattened_cursor(lines: Seq<Seq<char>>, cursor: (nat, nat, bool)) -> (nat, nat, bool) {
    if lines.len() <= 1 {
        cursor
    } else {
        at_end(flattened(lines))
    }
}

/// Joining the lines of a one-line text area with spaces gives what joining
/// the lines it was made from gives.
pub proof fn lemma_flattened_join(lines: Seq<Seq<char>>)
    ensures
        join_with(flattened(lines), " "@) == join_with(lines, " "@),
        flattened(lines).len() <= 1,
{
}

/// A text box on `lines`, keeping 256 edits for undo, with the cursor at
/// the end of the last line.
fn configured_text_box(lines: Vec<String>) -> (r: TextBox)
    requires
        lines@.len() > 0,
    ensures
        text_box_lines(r) == lines.deep_view(),
        text_box_cursor(r) == at_end(lines.deep_view()),
        box_ok(r),
{
    let mut b = text_box_new(lines);
    text_box_set_max_histories(&mut b, 256);
    text_box_move_cursor(&mut b, CursorTarget::Bottom);
    text_box_move_cursor(&mut b, CursorTarget::End);
    b
}

/// A text box opened on `text` (see `area_lines`).
pub fn new_text_box(text: &str) -> (r: TextBox)
    ensures
        text_box_lines(r) == area_lines(text@),
        text_box_cursor(r) == at_end(area_lines(text@)),
        box_ok(r),
{
    let lines = textarea_lines(text);
    proof {
        crate::config::lemma_split_newlines_len(text@);
        assert(lines.deep_view().len() == lines@.len());
    }
    configured_text_box(lines)
}

/// A one-line text box opened on `text`: its lines joined with spaces.
pub fn new_single_line_text_box(text: &str) -> (r: TextBox)
    ensures
        text_box_lines(r) == flattened(area_lines(text@)),
        text_box_cursor(r) == at_end(flattened(area_lines(text@))),
        box_ok(r),
{
    let mut b = new_text_box(text);
    keep_single_line(&mut b);
    b
}

/// Makes a text box that holds more than one line hold one: its lines
/// joined with spaces.
pub fn keep_single_line(b: &mut TextBox)
    requires
        box_ok(*old(b)),
    ensures
        text_box_lines(*final(b)) == flattened(text_box_lines(*old(b))),
        text_box_cursor(*final(b)) == flattened_cursor(text_box_lines(*old(b)), text_box_cursor(*old(b))),
        box_ok(*final(b)),
{
    let lines = text_box_text(b);
    if lines.len() <= 1 {
        return;
    }
    let joined = join_strings(&lines, " ");
    let mut one: Vec<String> = Vec::new();
    one.push(joined);
    assert(one.deep_view() =~= seq![join_with(lines.deep_view(), " "@)]);
    *b = configured_text_box(one);
}

/// What pressing `key` leaves in text box `after`, given `before`: the text
/// area keeps its lines and cursor in order; a one-line text box holds at
/// most one line; and where `typed` states the edit, the lines and cursor are
/// as it says, flattened to one line for a one-line text box.
pub open spec fn key_pressed(before: TextBox, key: Key, after: TextBox, one_line: bool) -> bool {
    &&& box_ok(after)
    &&& (one_line ==> text_box_lines(after).len() <= 1)
    &&& (typed(before, key) matches Some((lines, cursor)) ==> if one_line {
        text_box_lines(after) == flattened(lines) && text_box_cursor(after) == flattened_cursor(lines, cursor)
    } else {
        text_box_lines(after) == lines && text_box_cursor(after) == cursor
    })
}

/// Gives `key` to the text box and, for a one-line text box, joins the
/// lines that the key split off back into one (see `key_pressed`).
pub fn press_key(b: &mut TextBox, key: Key, one_line: bool)
    requires
        box_ok(*old(b)),
    ensures
        key_pressed(*old(b), key, *final(b), one_line),
{
    text_box_key(b, key);
    if one_line {
        keep_single_line(b);
    }
}

/// Typing a character (other than a line break, without Ctrl or Alt) into a
/// one-line text box whose cursor is at the end of its text appends the
/// character, and the cursor stays at the end: typing text into a freshly
/// opened input gives that text.
pub proof fn law_typing_appends(before: TextBox, after: TextBox, c: char, shift: bool)
    requires
        box_ok(before),
        text_box_lines(before).len() == 1,
        text_box_cursor(before) == at_end(text_box_lines(before)),
        c != '\n',
        c != '\r',
        key_pressed(before, Key { code: KeyCode::Char(c), ctrl: false, alt: false, shift }, after, true),
    ensures
        text_box_lines(after) == seq![text_box_lines(before)[0].push(c)],
        text_box_cursor(after) == at_end(text_box_lines(after)),
{
    let line = text_box_lines(before)[0];
    assert(line.take(line.len() as int) + seq![c] + line.skip(line.len() as int) =~= line.push(c));
    assert(text_box_lines(before).update(0, line.push(c)) =~= seq![line.push(c)]);
}

/// The lines of the text box joined with `sep`.
pub fn text_box_value(b: &TextBox, sep: &str) -> (r: String)
    ensures
        r@ == join_with(text_box_lines(*b), sep@),
{
    let lines = text_box_text(b);
    join_strings(&lines, sep)
}

} // verus!
