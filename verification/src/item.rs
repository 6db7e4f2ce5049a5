//! The entries of a menu.

use vstd::prelude::*;

verus! {

/// One entry of the menu: the text shown for it, and whether it starts out
/// checked. A label may run over several lines; it is still one entry.
#[derive(Debug, PartialEq, Eq)]
pub struct Item {
    pub label: String,
    pub checked: bool,
}

impl Item {
    /// An entry with the given label and starting check mark.
    pub fn new(label: &str, checked: bool) -> (item: Item)
        ensures
            item.label@ == label@,
            item.checked == checked,
    {
        Item { label: label.to_owned(), checked }
    }
}

/// The labels of the entries, in order.
pub open spec fn labels_of(items: Seq<Item>) -> Seq<Seq<char>> {
    Seq::new(items.len(), |i: int| items[i].label@)
}

/// The starting check marks of the entries, in order.
pub open spec fn defaults_of(items: Seq<Item>) -> Seq<bool> {
    Seq::new(items.len(), |i: int| items[i].checked)
}

/// A list of positions, read as mathematical integers.
pub open spec fn positions(v: Seq<usize>) -> Seq<int> {
    Seq::new(v.len(), |i: int| v[i] as int)
}

/// The starting check marks of the entries, in order.
pub fn default_flags(items: &Vec<Item>) -> (flags: Vec<bool>)
    ensures
        flags@ == defaults_of(items@),
{
    let mut flags: Vec<bool> = Vec::new();
    let mut i: usize = 0;
    while i < items.len()
        invariant
            i <= items.len(),
            flags@ == defaults_of(items@).take(i as int),
        decreases items.len() - i,
    {
        flags.push(items[i].checked);
        assert(flags@ =~= defaults_of(items@).take(i + 1));
        i += 1;
    }
    assert(defaults_of(items@).take(items.len() as int) =~= defaults_of(items@));
    flags
}

} // verus!
