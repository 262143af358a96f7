//! The selection that Explorer hands over.

use crate::request::texts_of;
use crate::wide::{from_wide_lossy, narrow_of, wide_of, wide_reads_back};
use vstd::prelude::*;

verus! {

/// The texts of wide strings, without the empty ones, in order.
pub open spec fn paths_among(entries: Seq<Seq<u16>>) -> Seq<Seq<char>>
    decreases entries.len(),
{
    if entries.len() == 0 {
        seq![]
    } else {
        let before = paths_among(entries.drop_last());
        let path = narrow_of(entries.last());
        if path.len() > 0 {
            before.push(path)
        } else {
            before
        }
    }
}

/// The contents of a row of wide strings.
pub open spec fn entries_of(entries: Seq<Vec<u16>>) -> Seq<Seq<u16>> {
    entries.map_values(|entry: Vec<u16>| entry@)
}

/// The paths that the wide strings of a selection give; an empty one gives none.
pub fn selected_paths(entries: &Vec<Vec<u16>>) -> (paths: Vec<String>)
    ensures
        texts_of(paths@) == paths_among(entries_of(entries@)),
{
    let mut paths: Vec<String> = Vec::new();
    let ghost all = entries_of(entries@);
    assert(texts_of(paths@) == Seq::<Seq<char>>::empty());
    for i in 0..entries.len()
        invariant
            all == entries_of(entries@),
            texts_of(paths@) == paths_among(all.take(i as int)),
    {
        let ghost before = texts_of(paths@);
        let path: String = from_wide_lossy(entries[i].as_slice());
        assert(all.take(i + 1).drop_last() == all.take(i as int));
        assert(all[i as int] == entries@[i as int]@);
        if !path.as_str().is_empty() {
            paths.push(path);
            assert(texts_of(paths@) == before.push(path@));
        }
    }
    assert(all.take(all.len() as int) == all);
    paths
}

/// What one menu object of the extension holds: the selection it is for, and the handle of its
/// icon once that has been made.
pub struct MenuObject {
    pub selected_paths: Vec<String>,
    pub icon: Option<usize>,
}

impl MenuObject {
    /// An object without a selection and without an icon.
    pub fn new() -> (object: Self)
        ensures
            object.selected_paths@ == Seq::<String>::empty(),
            object.icon is None,
    {
        MenuObject { selected_paths: Vec::new(), icon: None }
    }

    /// Takes in the selection: the wide strings that Explorer gave, or nothing where it gave none
    /// or they could not be read. It replaces the selection before.
    pub fn initialize(&mut self, entries: Option<Vec<Vec<u16>>>)
        ensures
            texts_of(final(self).selected_paths@) == match entries {
                Some(entries) => paths_among(entries_of(entries@)),
                None => seq![],
            },
            final(self).icon == old(self).icon,
    {
        match entries {
            Some(entries) => {
                self.selected_paths = selected_paths(&entries);
            },
            None => {
                self.selected_paths = Vec::new();
                assert(texts_of(self.selected_paths@) == Seq::<Seq<char>>::empty());
            },
        }
    }

    /// Whether the icon is yet to be drawn.
    pub fn needs_icon(&self) -> (r: bool)
        ensures
            r == (self.icon is None),
    {
        self.icon.is_none()
    }

    /// The handle of the icon to use: the one that is kept, or else the one that has been drawn,
    /// which is then kept.
    pub fn use_icon(&mut self, drawn: Option<usize>) -> (icon: Option<usize>)
        ensures
            icon == match old(self).icon {
                Some(kept) => Some(kept),
                None => drawn,
            },
            final(self).icon == icon,
            final(self).selected_paths == old(self).selected_paths,
    {
        if self.icon.is_none() {
            self.icon = drawn;
        }
        self.icon
    }

    /// Gives up the handle of the icon, which is to be deleted unless it is null.
    pub fn take_icon(&mut self) -> (icon: Option<usize>)
        ensures
            icon == match old(self).icon {
                Some(icon) => if icon != 0 {
                    Some(icon)
                } else {
                    None
                },
                None => None,
            },
            final(self).icon is None,
            final(self).selected_paths == old(self).selected_paths,
    {
        let icon: Option<usize> = self.icon;
        self.icon = None;
        match icon {
            Some(handle) => {
                if handle != 0 {
                    Some(handle)
                } else {
                    None
                }
            },
            None => None,
        }
    }
}

proof fn lemma_narrow_of_some(units: Seq<u16>)
    ensures
        narrow_of(units).len() == 0 <==> units.len() == 0,
{
}

/// The selection is what Explorer names, without what names nothing: the texts of all entries, in
/// their order, but for the empty ones.
pub proof fn selection_leaves_out_empty_entries_alone(entries: Seq<Seq<u16>>)
    ensures
        paths_among(entries) == entries.filter(|entry: Seq<u16>| entry.len() > 0).map_values(
            |entry: Seq<u16>| narrow_of(entry),
        ),
    decreases entries.len(),
{
    reveal(Seq::filter);
    let named = |entry: Seq<u16>| entry.len() > 0;
    let text = |entry: Seq<u16>| narrow_of(entry);
    if entries.len() > 0 {
        let fewer = entries.drop_last();
        selection_leaves_out_empty_entries_alone(fewer);
        lemma_narrow_of_some(entries.last());
        if entries.last().len() > 0 {
            assert(fewer.filter(named).push(entries.last()).map_values(text) == fewer.filter(
                named,
            ).map_values(text).push(narrow_of(entries.last())));
        }
    }
}

/// Where no entry is empty, there are as many paths as entries, and each path is the text of the
/// entry in its place.
pub proof fn selection_holds_every_entry(entries: Seq<Seq<u16>>)
    requires
        forall|i: int| 0 <= i < entries.len() ==> (#[trigger] entries[i]).len() > 0,
    ensures
        paths_among(entries).len() == entries.len(),
        forall|i: int|
            0 <= i < entries.len() ==> #[trigger] paths_among(entries)[i] == narrow_of(entries[i]),
    decreases entries.len(),
{
    if entries.len() > 0 {
        let fewer = entries.drop_last();
        assert forall|i: int| 0 <= i < fewer.len() implies (#[trigger] fewer[i]).len() > 0 by {
            assert(fewer[i] == entries[i]);
        }
        selection_holds_every_entry(fewer);
        assert(entries[entries.len() - 1].len() > 0);
        lemma_narrow_of_some(entries.last());
        assert forall|i: int| 0 <= i < entries.len() implies #[trigger] paths_among(entries)[i]
            == narrow_of(entries[i]) by {
            if i < fewer.len() {
                assert(paths_among(entries)[i] == paths_among(fewer)[i]);
                assert(fewer[i] == entries[i]);
            }
        }
    }
}

/// Files that are named by texts, whatever characters these hold, are selected under those texts,
/// every one of them and in order.
pub proof fn selected_texts_read_back(texts: Seq<Seq<char>>)
    requires
        forall|i: int| 0 <= i < texts.len() ==> (#[trigger] texts[i]).len() > 0,
    ensures
        paths_among(texts.map_values(|text: Seq<char>| wide_of(text))) == texts,
{
    let entries = texts.map_values(|text: Seq<char>| wide_of(text));
    assert forall|i: int| 0 <= i < entries.len() implies (#[trigger] entries[i]).len() > 0 by {
        assert(texts[i].len() > 0);
        wide_reads_back(texts[i]);
    }
    selection_holds_every_entry(entries);
    assert forall|i: int| 0 <= i < texts.len() implies #[trigger] paths_among(entries)[i]
        == texts[i] by {
        wide_reads_back(texts[i]);
    }
}

/// The contents of wide strings are those of each of them.
pub proof fn entries_hold_every_string(entries: Seq<Vec<u16>>)
    ensures
        entries_of(entries).len() == entries.len(),
        forall|i: int| 0 <= i < entries.len() ==> #[trigger] entries_of(entries)[i] == entries[i]@,
{
}

} // verus!
