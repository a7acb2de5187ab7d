use vstd::prelude::*;

use crate::color::Color;

verus! {

/// A colour the user kept: its `#RRGGBB` text and when it was saved.
#[derive(Debug, Clone)]
pub struct SavedColor {
    pub hex: String,
    pub saved_at: String,
}

/// The colour that a saved entry's text reads as: black where it is not a
/// valid hex colour.
pub open spec fn saved_color_value(hex: Seq<char>) -> Color {
    match crate::color::parse_hex(hex) {
        Some(Ok(c)) => c,
        _ => Color { r: 0, g: 0, b: 0 },
    }
}

impl SavedColor {
    /// The saved colour, or black when its text is not a hex colour.
    pub fn to_color(&self) -> (c: Color)
        requires
            crate::color::parse_hex(self.hex@) is Some,
        ensures
            c == saved_color_value(self.hex@),
    {
        match Color::from_hex(self.hex.as_str()) {
            Ok(c) => c,
            Err(_) => Color::new(0, 0, 0),
        }
    }
}

/// The list of saved colours, oldest first.
#[derive(Debug)]
pub struct ColorStore {
    pub saved_colors: Vec<SavedColor>,
}

impl Default for ColorStore {
    fn default() -> (s: Self)
        ensures
            s.saved_colors@.len() == 0,
    {
        ColorStore { saved_colors: Vec::new() }
    }
}

impl ColorStore {
    /// Appends `color` as a new saved entry stamped with `saved_at` (the
    /// caller reads the clock).
    pub fn add(&mut self, color: &Color, saved_at: String)
        ensures
            final(self).saved_colors@.len() == old(self).saved_colors@.len() + 1,
            final(self).saved_colors@.take(old(self).saved_colors@.len() as int)
                == old(self).saved_colors@,
            final(self).saved_colors@.last().hex@ == crate::color::hex_text(*color),
            final(self).saved_colors@.last().saved_at == saved_at,
    {
        let entry = SavedColor { hex: color.to_hex(), saved_at };
        self.saved_colors.push(entry);
        assert(self.saved_colors@.take(old(self).saved_colors@.len() as int)
            =~= old(self).saved_colors@);
    }

    /// Removes the entry at `index`; an index past the end changes nothing.
    pub fn remove(&mut self, index: usize)
        ensures
            final(self).saved_colors@ == if index < old(self).saved_colors@.len() {
                old(self).saved_colors@.remove(index as int)
            } else {
                old(self).saved_colors@
            },
    {
        if index < self.saved_colors.len() {
            self.saved_colors.remove(index);
        }
    }

    /// Removes every entry.
    pub fn clear(&mut self)
        ensures
            final(self).saved_colors@.len() == 0,
    {
        self.saved_colors.clear();
    }
}

/// An entry saved for a colour reads back as that colour.
pub proof fn lemma_saved_entry_reads_back(c: Color)
    ensures
        crate::color::parse_hex(crate::color::hex_text(c)) is Some,
        saved_color_value(crate::color::hex_text(c)) == c,
{
    crate::color::lemma_hex_round_trip(c);
}

} // verus!
