//! The key lines of the binding modes' panels and help screens.
use vstd::prelude::*;

verus! {

/// The key lines shared by tag binding mode and its help.
pub open spec fn tag_binding_shared_spec() -> Seq<Seq<char>> {
    seq![
        " 表示中の小文字キー: 対応tagを紐付け"@,
        " 表示中の大文字キー: 対応tagを外す"@,
        " キー割当: 先頭文字優先 / 衝突時は別英字"@,
        " ← / →  : 登録済みtag page 切替"@,
        " Enter  : 変更を確定"@,
    ]
}

/// The key lines shared by group binding mode and its help.
pub open spec fn group_binding_shared_spec() -> Seq<Seq<char>> {
    seq![
        " 表示中の小文字キー: 対応groupに即時割り当て"@,
        " キー割当: 先頭文字優先 / 衝突時は別英字"@,
        " ← / →  : 登録済みgroup page 切替"@,
        " 小文字キーを押した時点で確定して閉じる"@,
    ]
}

/// The lines of a binding mode's panel: its shared lines, then Esc
/// discarding and `?` opening the help.
pub open spec fn mode_lines_spec(shared: Seq<Seq<char>>) -> Seq<Seq<char>> {
    shared + seq![" Esc    : 変更を破棄して閉じる"@, " ?      : 専用helpを開く"@]
}

/// The lines of a binding mode's help: its shared lines, then Esc and `?`
/// closing the help.
pub open spec fn help_lines_spec(shared: Seq<Seq<char>>) -> Seq<Seq<char>> {
    shared + seq![" Esc    : このhelpを閉じる"@, " ?      : このhelpを閉じる"@]
}

fn lines_of_strs(a: &str, b: &str, c: &str, d: &str) -> (r: Vec<String>)
    ensures
        r.deep_view() == seq![a@, b@, c@, d@],
{
    let mut v: Vec<String> = Vec::new();
    v.push(a.to_owned());
    v.push(b.to_owned());
    v.push(c.to_owned());
    v.push(d.to_owned());
    assert(v.deep_view() =~= seq![a@, b@, c@, d@]);
    v
}

fn push_two(v: &mut Vec<String>, a: &str, b: &str)
    ensures
        final(v).deep_view() == old(v).deep_view() + seq![a@, b@],
{
    let ghost before = v.deep_view();
    v.push(a.to_owned());
    v.push(b.to_owned());
    assert(v.deep_view() =~= before + seq![a@, b@]);
}

fn tag_binding_shared_keybind_lines() -> (r: Vec<String>)
    ensures
        r.deep_view() == tag_binding_shared_spec(),
{
    let mut v = lines_of_strs(
        " 表示中の小文字キー: 対応tagを紐付け",
        " 表示中の大文字キー: 対応tagを外す",
        " キー割当: 先頭文字優先 / 衝突時は別英字",
        " ← / →  : 登録済みtag page 切替",
    );
    let ghost before = v.deep_view();
    v.push(" Enter  : 変更を確定".to_owned());
    assert(v.deep_view() =~= before.push(" Enter  : 変更を確定"@));
    assert(v.deep_view() =~= tag_binding_shared_spec());
    v
}

fn group_binding_shared_keybind_lines() -> (r: Vec<String>)
    ensures
        r.deep_view() == group_binding_shared_spec(),
{
    lines_of_strs(
        " 表示中の小文字キー: 対応groupに即時割り当て",
        " キー割当: 先頭文字優先 / 衝突時は別英字",
        " ← / →  : 登録済みgroup page 切替",
        " 小文字キーを押した時点で確定して閉じる",
    )
}

/// The key lines of tag binding mode's panel.
pub fn tag_binding_mode_keybind_lines() -> (r: Vec<String>)
    ensures
        r.deep_view() == mode_lines_spec(tag_binding_shared_spec()),
{
    let mut v = tag_binding_shared_keybind_lines();
    push_two(&mut v, " Esc    : 変更を破棄して閉じる", " ?      : 専用helpを開く");
    v
}

/// The key lines of tag binding mode's help.
pub fn tag_binding_help_keybind_lines() -> (r: Vec<String>)
    ensures
        r.deep_view() == help_lines_spec(tag_binding_shared_spec()),
{
    let mut v = tag_binding_shared_keybind_lines();
    push_two(&mut v, " Esc    : このhelpを閉じる", " ?      : このhelpを閉じる");
    v
}

/// The key lines of group binding mode's panel.
pub fn group_binding_mode_keybind_lines() -> (r: Vec<String>)
    ensures
        r.deep_view() == mode_lines_spec(group_binding_shared_spec()),
{
    let mut v = group_binding_shared_keybind_lines();
    push_two(&mut v, " Esc    : 変更を破棄して閉じる", " ?      : 専用helpを開く");
    v
}

/// The key lines of group binding mode's help.
pub fn group_binding_help_keybind_lines() -> (r: Vec<String>)
    ensures
        r.deep_view() == help_lines_spec(group_binding_shared_spec()),
{
    let mut v = group_binding_shared_keybind_lines();
    push_two(&mut v, " Esc    : このhelpを閉じる", " ?      : このhelpを閉じる");
    v
}


/// The key lines of filter mode's help.
pub open spec fn filter_help_keys_spec() -> Seq<Seq<char>> {
    seq![
        " group focus: a-z でgroup選択 / A-Z でgroup解除"@,
        " tag focus  : a-z でtag ON / A-Z でtag OFF"@,
        " Ctrl+T / Ctrl+G : focus 切替"@,
        " ← / →  : 登録済み page 切替"@,
        " Enter  : 絞り込みを適用"@,
        " Esc    : 変更を破棄して閉じる"@,
        " ?      : このhelpを閉じる"@,
    ]
}

/// The key lines of filter mode's help (see `filter_help_keys_spec`).
pub fn filter_help_keybind_lines() -> (r: Vec<String>)
    ensures
        r.deep_view() == filter_help_keys_spec(),
{
    let mut v = lines_of_strs(
        " group focus: a-z でgroup選択 / A-Z でgroup解除",
        " tag focus  : a-z でtag ON / A-Z でtag OFF",
        " Ctrl+T / Ctrl+G : focus 切替",
        " ← / →  : 登録済み page 切替",
    );
    push_two(&mut v, " Enter  : 絞り込みを適用", " Esc    : 変更を破棄して閉じる");
    let ghost before = v.deep_view();
    v.push(" ?      : このhelpを閉じる".to_owned());
    assert(v.deep_view() =~= before.push(" ?      : このhelpを閉じる"@));
    assert(v.deep_view() =~= filter_help_keys_spec());
    v
}

} // verus!
