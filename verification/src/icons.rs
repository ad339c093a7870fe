use vstd::prelude::*;

use crate::chars::{opt_string_view, str_eq};

verus! {

/// The icon font the panel draws with: each icon name (such as
/// `mdi:lightbulb`) paired with the text that draws it.
#[derive(Debug, Clone, Default)]
pub struct Glyphs {
    pub entries: Vec<(String, String)>,
}

/// The glyph of `icon`: the text paired with the first entry of that name.
pub open spec fn glyph_lookup(entries: Seq<(String, String)>, icon: Seq<char>) -> Option<Seq<char>>
    decreases entries.len(),
{
    if entries.len() == 0 {
        None
    } else if entries[0].0@ == icon {
        Some(entries[0].1@)
    } else {
        glyph_lookup(entries.drop_first(), icon)
    }
}

impl Glyphs {
    pub fn new(entries: Vec<(String, String)>) -> (r: Self)
        ensures
            r.entries@ == entries@,
    {
        Glyphs { entries }
    }

    /// The glyph that draws `icon`, if the font has one.
    pub fn glyph(&self, icon: &str) -> (r: Option<String>)
        ensures
            opt_string_view(r) == glyph_lookup(self.entries@, icon@),
    {
        let mut i: usize = 0;
        assert(self.entries@.skip(0) =~= self.entries@);
        while i < self.entries.len()
            invariant
                i <= self.entries@.len(),
                glyph_lookup(self.entries@, icon@) == glyph_lookup(self.entries@.skip(i as int), icon@),
            decreases self.entries@.len() - i,
        {
            let entry = &self.entries[i];
            assert(self.entries@.skip(i as int)[0] == self.entries@[i as int]);
            if str_eq(entry.0.as_str(), icon) {
                return Some(entry.1.clone());
            }
            assert(self.entries@.skip(i as int).drop_first() =~= self.entries@.skip(i + 1));
            i = i + 1;
        }
        None
    }
}

} // verus!
