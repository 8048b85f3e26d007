//! Which of the palette's colors a tag or a group is drawn in: the colors go
//! round in the order the names are registered.
use crate::model::DEFAULT_GROUP_NAME;
use crate::strings::str_eq;
use vstd::prelude::*;

verus! {

/// How many colors the tag palette has.
pub const PALETTE_SIZE: usize = 6;

/// The first position of `name` in `names`, if any.
pub open spec fn first_position(names: Seq<Seq<char>>, name: Seq<char>) -> Option<int> {
    if exists|i: int| 0 <= i < names.len() && names[i] == name {
        Some(choose|i: int| 0 <= i < names.len() && names[i] == name && forall|j: int| 0 <= j < i ==> names[j] != name)
    } else {
        None
    }
}

/// The registered groups other than the default one, in order.
pub open spec fn named_groups(groups: Seq<Seq<char>>) -> Seq<Seq<char>> {
    groups.filter(|g: Seq<char>| g != DEFAULT_GROUP_NAME@)
}

/// The palette color of the `slot`-th registered name.
pub open spec fn palette_color(slot: int) -> int {
    slot % 6
}

/// The palette color of a tag: by its position among the registered tags;
/// none (the plain style) when it is not registered.
pub fn tag_color(registered_tags: &[String], tag: &str) -> (r: Option<usize>)
    ensures
        r matches Some(c) ==> (first_position(registered_tags.deep_view(), tag@) matches Some(p) && c
            == palette_color(p)),
        r is None ==> first_position(registered_tags.deep_view(), tag@) is None,
{
    match position_of(registered_tags, tag) {
        Some(p) => Some(p % PALETTE_SIZE),
        None => None,
    }
}

/// The palette color of a group: by its position among the registered
/// groups other than the default one; none (light gray) for the default
/// group and for a group that is not registered.
pub fn group_color(registered_groups: &[String], group: &str) -> (r: Option<usize>)
    ensures
        group@ == DEFAULT_GROUP_NAME@ ==> r is None,
        group@ != DEFAULT_GROUP_NAME@ ==> (r matches Some(c) ==> (first_position(
            named_groups(registered_groups.deep_view()),
            group@,
        ) matches Some(p) && c == palette_color(p))),
        group@ != DEFAULT_GROUP_NAME@ ==> (r is None ==> first_position(
            named_groups(registered_groups.deep_view()),
            group@,
        ) is None),
{
    if str_eq(group, DEFAULT_GROUP_NAME) {
        return None;
    }
    let mut named: Vec<String> = Vec::new();
    let ghost all = registered_groups.deep_view();
    let mut i: usize = 0;
    while i < registered_groups.len()
        invariant
            i <= registered_groups.len(),
            all == registered_groups.deep_view(),
            named.deep_view() == named_groups(all.take(i as int)),
        decreases registered_groups.len() - i,
    {
        assert(all.take(i + 1).drop_last() =~= all.take(i as int));
        assert(all.take(i + 1).last() == all[i as int]);
        proof {
            reveal(Seq::filter);
        }
        if !str_eq(registered_groups[i].as_str(), DEFAULT_GROUP_NAME) {
            let ghost before = named.deep_view();
            named.push(registered_groups[i].clone());
            assert(named.deep_view() =~= before.push(all[i as int]));
        }
        i = i + 1;
    }
    assert(all.take(i as int) =~= all);
    match position_of(named.as_slice(), group) {
        Some(p) => Some(p % PALETTE_SIZE),
        None => None,
    }
}

/// The first position of `name` in `names`.
fn position_of(names: &[String], name: &str) -> (r: Option<usize>)
    ensures
        r matches Some(p) ==> first_position(names.deep_view(), name@) == Some(p as int),
        r is None ==> first_position(names.deep_view(), name@) is None,
{
    let ghost v = names.deep_view();
    let mut i: usize = 0;
    while i < names.len()
        invariant
            i <= names.len(),
            v == names.deep_view(),
            forall|j: int| 0 <= j < i ==> v[j] != name@,
        decreases names.len() - i,
    {
        if str_eq(names[i].as_str(), name) {
            proof {
                assert(v[i as int] == name@);
                let c = choose|c: int| 0 <= c < v.len() && v[c] == name@ && forall|j: int| 0 <= j < c ==> v[j] != name@;
                if c < i {
                } else if c > i {
                }
            }
            return Some(i);
        }
        i = i + 1;
    }
    None
}

} // verus!
