//! The global highlight table: a mapping from small integer ids to text
//! styles, plus the default colors carried by the reserved id `0`.
//!
//! Entries are only ever inserted or overwritten, never deleted.  Unknown ids
//! resolve to the default style; until the default colors have been set,
//! foreground, background and special colors are treated as unset.

use vstd::prelude::*;

use crate::assoc::{assoc_map, keys_unique, lemma_assoc_map_contains, lemma_assoc_map_index,
    lemma_assoc_map_push, lemma_assoc_map_update};

verus! {

/// An opaque color with 16-bit channels, as the attribute pipeline consumes it.
#[derive(Clone, Copy, Debug, PartialEq, Eq, Structural)]
pub struct Color {
    pub red: u16,
    pub green: u16,
    pub blue: u16,
}

/// The three optional color slots of a style: text, fill, and decoration.
#[derive(Clone, Copy, Debug)]
pub struct Colors {
    pub foreground: Option<Color>,
    pub background: Option<Color>,
    pub special: Option<Color>,
}

impl Colors {
    /// Colors with every slot unset.
    pub open spec fn spec_unset() -> Colors {
        Colors { foreground: None, background: None, special: None }
    }

    /// Colors with every slot unset.
    pub fn unset() -> (r: Colors)
        ensures
            r == Colors::spec_unset(),
    {
        Colors { foreground: None, background: None, special: None }
    }
}

/// One highlight style: emphasis flags, optional colors, and a blend
/// percentage used for translucent floating windows.
#[derive(Clone, Copy, Debug)]
pub struct HighlightStyle {
    pub italic: bool,
    pub bold: bool,
    pub underline: bool,
    pub undercurl: bool,
    pub strikethrough: bool,
    pub colors: Colors,
    pub blend: u64,
}

impl HighlightStyle {
    /// The style a cell gets when its id (or id `0`) is not defined yet:
    /// no emphasis and no colors.
    pub open spec fn spec_plain() -> HighlightStyle {
        HighlightStyle {
            italic: false,
            bold: false,
            underline: false,
            undercurl: false,
            strikethrough: false,
            colors: Colors::spec_unset(),
            blend: 0,
        }
    }

    /// The style a cell gets when its id (or id `0`) is not defined yet.
    pub fn plain() -> (r: HighlightStyle)
        ensures
            r == HighlightStyle::spec_plain(),
    {
        HighlightStyle {
            italic: false,
            bold: false,
            underline: false,
            undercurl: false,
            strikethrough: false,
            colors: Colors::unset(),
            blend: 0,
        }
    }
}

/// Abstract contents of the highlight table.
pub struct HlView {
    pub styles: Map<u64, HighlightStyle>,
    pub defaults: Option<Colors>,
}

/// The id -> style table together with the session's default colors.
pub struct HighlightDefinitions {
    entries: Vec<(u64, HighlightStyle)>,
    defaults: Option<Colors>,
}

impl View for HighlightDefinitions {
    type V = HlView;

    closed spec fn view(&self) -> HlView {
        HlView { styles: assoc_map(self.entries@), defaults: self.defaults }
    }
}

/// The reserved id of the default style.
pub const DEFAULT_HIGHLIGHT: u64 = 0;

impl HighlightDefinitions {
    /// The table's entries carry pairwise distinct ids.
    pub closed spec fn wf(&self) -> bool {
        keys_unique(self.entries@)
    }

    /// An empty table: no styles, default colors unset.
    pub fn new() -> (r: HighlightDefinitions)
        ensures
            r.wf(),
            r@.styles =~= Map::<u64, HighlightStyle>::empty(),
            r@.defaults is None,
    {
        HighlightDefinitions { entries: Vec::new(), defaults: None }
    }

    /// Index of the entry holding `id`, if the table defines it.
    fn position_of(&self, id: u64) -> (r: Option<usize>)
        requires
            self.wf(),
        ensures
            match r {
                Some(i) => i < self.entries@.len() && self.entries@[i as int].0 == id,
                None => forall|i: int| 0 <= i < self.entries@.len() ==> self.entries@[i].0 != id,
            },
    {
        let mut i: usize = 0;
        while i < self.entries.len()
            invariant
                i <= self.entries@.len(),
                self.wf(),
                forall|j: int| 0 <= j < i ==> self.entries@[j].0 != id,
            decreases self.entries@.len() - i,
        {
            if self.entries[i].0 == id {
                return Some(i);
            }
            i = i + 1;
        }
        None
    }

    /// Insert or overwrite the style stored under `id`.
    pub fn set(&mut self, id: u64, style: HighlightStyle)
        requires
            old(self).wf(),
        ensures
            final(self).wf(),
            final(self)@.styles =~= old(self)@.styles.insert(id, style),
            final(self)@.defaults == old(self)@.defaults,
    {
        let pos = self.position_of(id);
        match pos {
            Some(i) => {
                proof {
                    lemma_assoc_map_update(self.entries@, i as int, style);
                }
                self.entries.set(i, (id, style));
            },
            None => {
                proof {
                    lemma_assoc_map_push(self.entries@, id, style);
                }
                self.entries.push((id, style));
            },
        }
    }

    /// The style stored under `id`, if the table defines one.
    pub fn get(&self, id: u64) -> (r: Option<HighlightStyle>)
        requires
            self.wf(),
        ensures
            r == if self@.styles.contains_key(id) {
                Some(self@.styles[id])
            } else {
                None::<HighlightStyle>
            },
    {
        proof {
            lemma_assoc_map_contains(self.entries@, id);
        }
        match self.position_of(id) {
            Some(i) => {
                proof {
                    lemma_assoc_map_index(self.entries@, i as int);
                }
                Some(self.entries[i].1)
            },
            None => None,
        }
    }

    /// The style `id` resolves to: its own entry, or the default style for
    /// unknown ids, or the plain style while id `0` itself is undefined.
    pub open spec fn spec_resolve(&self, id: u64) -> HighlightStyle {
        if self@.styles.contains_key(id) {
            self@.styles[id]
        } else if self@.styles.contains_key(DEFAULT_HIGHLIGHT) {
            self@.styles[DEFAULT_HIGHLIGHT]
        } else {
            HighlightStyle::spec_plain()
        }
    }

    /// Resolve `id` to a style; unknown ids fall back to the default style.
    pub fn resolve(&self, id: u64) -> (r: HighlightStyle)
        requires
            self.wf(),
        ensures
            r == self.spec_resolve(id),
    {
        match self.get(id) {
            Some(style) => style,
            None => match self.get(DEFAULT_HIGHLIGHT) {
                Some(style) => style,
                None => HighlightStyle::plain(),
            },
        }
    }

    /// The session's default colors, once a defaults event has set them.
    pub fn defaults(&self) -> (r: Option<Colors>)
        ensures
            r == self@.defaults,
    {
        self.defaults
    }

    /// Set the default colors carried by the reserved id.
    pub fn set_defaults(&mut self, colors: Colors)
        requires
            old(self).wf(),
        ensures
            final(self).wf(),
            final(self)@.styles == old(self)@.styles,
            final(self)@.defaults == Some(colors),
    {
        self.defaults = Some(colors);
    }
}

/// The entry views of the group table: names as character sequences.
pub open spec fn group_pairs(s: Seq<(String, u64)>) -> Seq<(Seq<char>, u64)> {
    s.map_values(|p: (String, u64)| (p.0@, p.1))
}

/// The mapping from human-readable highlight group name to id, kept for
/// introspection and theming; entries are inserted or overwritten, never
/// deleted.
pub struct HighlightGroups {
    entries: Vec<(String, u64)>,
}

impl View for HighlightGroups {
    type V = Map<Seq<char>, u64>;

    closed spec fn view(&self) -> Map<Seq<char>, u64> {
        assoc_map(group_pairs(self.entries@))
    }
}

impl HighlightGroups {
    /// Group names are pairwise distinct.
    pub closed spec fn wf(&self) -> bool {
        keys_unique(group_pairs(self.entries@))
    }

    /// An empty table.
    pub fn new() -> (r: HighlightGroups)
        ensures
            r.wf(),
            r@ =~= Map::<Seq<char>, u64>::empty(),
    {
        HighlightGroups { entries: Vec::new() }
    }

    /// Index of the entry holding `name`, if the table defines it.
    fn position_of(&self, name: &String) -> (r: Option<usize>)
        requires
            self.wf(),
        ensures
            match r {
                Some(i) => i < self.entries@.len() && group_pairs(self.entries@)[i as int].0
                    == name@,
                None => forall|i: int| 0 <= i < self.entries@.len()
                    ==> (#[trigger] group_pairs(self.entries@)[i]).0 != name@,
            },
    {
        let mut i: usize = 0;
        while i < self.entries.len()
            invariant
                i <= self.entries@.len(),
                self.wf(),
                forall|j: int| 0 <= j < i ==> (#[trigger] group_pairs(self.entries@)[j]).0
                    != name@,
            decreases self.entries@.len() - i,
        {
            if self.entries[i].0 == *name {
                return Some(i);
            }
            i = i + 1;
        }
        None
    }

    /// Insert or overwrite the id stored under `name`.
    pub fn set(&mut self, name: String, id: u64)
        requires
            old(self).wf(),
        ensures
            final(self).wf(),
            final(self)@ =~= old(self)@.insert(name@, id),
    {
        let pos = self.position_of(&name);
        match pos {
            Some(i) => {
                proof {
                    lemma_assoc_map_update(group_pairs(self.entries@), i as int, id);
                }
                let ghost before: Seq<(String, u64)> = self.entries@;
                self.entries.set(i, (name, id));
                proof {
                    assert(group_pairs(self.entries@) =~= group_pairs(before).update(
                        i as int,
                        (group_pairs(before)[i as int].0, id),
                    ));
                }
            },
            None => {
                proof {
                    lemma_assoc_map_push(group_pairs(self.entries@), name@, id);
                }
                let ghost before: Seq<(String, u64)> = self.entries@;
                let ghost nv: Seq<char> = name@;
                self.entries.push((name, id));
                proof {
                    assert(group_pairs(self.entries@) =~= group_pairs(before).push((nv, id)));
                }
            },
        }
    }

    /// The id stored under `name`, if any.
    pub fn get(&self, name: &String) -> (r: Option<u64>)
        requires
            self.wf(),
        ensures
            r == if self@.contains_key(name@) {
                Some(self@[name@])
            } else {
                None::<u64>
            },
    {
        proof {
            lemma_assoc_map_contains(group_pairs(self.entries@), name@);
        }
        match self.position_of(name) {
            Some(i) => {
                proof {
                    lemma_assoc_map_index(group_pairs(self.entries@), i as int);
                }
                Some(self.entries[i].1)
            },
            None => None,
        }
    }
}

} // verus!
