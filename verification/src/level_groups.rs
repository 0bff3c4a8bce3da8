use vstd::prelude::*;

verus! {

/// A level of a group, picked by the group's position and the level's
/// position in it.
#[derive(Copy, Clone, Debug, PartialEq, Eq, Structural)]
pub struct Selection {
    pub group: usize,
    pub level: usize,
}

/// A named group of levels, in the order they are played.
pub struct Group<T> {
    pub name: String,
    pub levels: Vec<T>,
}

/// The levels of each group.
pub open spec fn level_lists<T>(gs: Seq<Group<T>>) -> Seq<Seq<T>> {
    Seq::new(gs.len(), |k: int| gs[k].levels@)
}

/// The names of the groups.
pub open spec fn group_names<T>(gs: Seq<Group<T>>) -> Seq<Seq<char>> {
    Seq::new(gs.len(), |k: int| gs[k].name@)
}

/// The element at `index` taken out of `v`, if there is one there.
pub fn try_remove<T>(v: &mut Vec<T>, index: usize) -> (r: Option<T>)
    ensures
        index < old(v)@.len() ==> r == Some(old(v)@[index as int]) && final(v)@ == old(v)@.remove(index as int),
        index >= old(v)@.len() ==> r is None && final(v)@ == old(v)@,
{
    if index < v.len() {
        Some(v.remove(index))
    } else {
        None
    }
}

/// The level lists without the level at `from`.
pub open spec fn without<T>(ls: Seq<Seq<T>>, from: Selection) -> Seq<Seq<T>> {
    ls.update(from.group as int, ls[from.group as int].remove(from.level as int))
}

/// The level lists after the level at `from` moved to `to`: it leaves its
/// group and goes in at position `to.level` of group `to.group`.
pub open spec fn spec_reorder<T>(ls: Seq<Seq<T>>, from: Selection, to: Selection) -> Seq<Seq<T>> {
    let item = ls[from.group as int][from.level as int];
    let removed = without(ls, from);
    removed.update(to.group as int, removed[to.group as int].insert(to.level as int, item))
}

/// Whether the level at `from` exists and `to` names an existing group.
pub open spec fn reorder_valid<T>(gs: Seq<Group<T>>, from: Selection, to: Selection) -> bool {
    &&& from.group < gs.len()
    &&& to.group < gs.len()
    &&& from.level < gs[from.group as int].levels@.len()
}

/// Moves the level at `from` to `to`. `None`, with nothing changed, when
/// there is no level at `from` or no group at `to`.
pub fn reorder<T>(groups: &mut Vec<Group<T>>, from: Selection, to: Selection) -> (r: Option<()>)
    requires
        reorder_valid(old(groups)@, from, to) ==> to.level <= without(level_lists(old(groups)@), from)[to.group as int].len(),
    ensures
        r is Some <==> reorder_valid(old(groups)@, from, to),
        r is Some ==> level_lists(final(groups)@) == spec_reorder(level_lists(old(groups)@), from, to)
            && group_names(final(groups)@) == group_names(old(groups)@),
        r is None ==> final(groups)@ == old(groups)@,
{
    if to.group >= groups.len() || from.group >= groups.len() {
        return None;
    }
    if from.level >= groups[from.group].levels.len() {
        return None;
    }
    let ghost ls0 = level_lists(groups@);
    let ghost names0 = group_names(groups@);
    let mut g = groups.remove(from.group);
    let item = g.levels.remove(from.level);
    groups.insert(from.group, g);
    let ghost ls1 = level_lists(groups@);
    assert(ls1 =~= without(ls0, from));
    assert(group_names(groups@) =~= names0);
    let mut h = groups.remove(to.group);
    h.levels.insert(to.level, item);
    groups.insert(to.group, h);
    assert(level_lists(groups@) =~= spec_reorder(ls0, from, to));
    assert(group_names(groups@) =~= names0);
    Some(())
}

} // verus!
