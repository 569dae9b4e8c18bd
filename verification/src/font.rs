//! A bitmap font and the compositing of its glyphs into lines of text.

use std::collections::HashMap;
use vstd::prelude::*;
use vstd::std_specs::hash::*;
use vstd::string::*;

use crate::text::string_views;

verus! {

/// A bitmap font: for each character that it defines, the rows of that
/// character's glyph.
#[derive(Debug, Clone)]
pub struct Font {
    /// Font name.
    pub name: String,
    /// Height in lines.
    pub height: usize,
    /// Character definitions, each under the code point of its character.
    pub chars: HashMap<u32, Vec<String>>,
}

/// A font as plain values: its name, its height, and the rows of each glyph
/// under the code point of its character.
pub struct FontView {
    pub name: Seq<char>,
    pub height: nat,
    pub glyphs: Map<u32, Seq<Seq<char>>>,
}

impl View for Font {
    type V = FontView;

    open spec fn view(&self) -> FontView {
        FontView {
            name: self.name@,
            height: self.height as nat,
            glyphs: Map::new(
                |k: u32| self.chars@.contains_key(k),
                |k: u32| string_views(self.chars@[k]@),
            ),
        }
    }
}

impl Font {
    /// Every glyph of the font has exactly `height` rows.
    pub open spec fn wf(&self) -> bool {
        forall|k: u32| #[trigger]
            self.chars@.contains_key(k) ==> self.chars@[k]@.len() == self.height
    }

    /// The rows of the glyph of `c`, if the font defines one.
    pub open spec fn glyph(&self, c: char) -> Option<Seq<Seq<char>>> {
        if self.chars@.contains_key(c as u32) {
            Some(string_views(self.chars@[c as u32]@))
        } else {
            None
        }
    }

    /// The rows that draw `c`: its own glyph; the glyph of the space where
    /// the font has none for `c`; no rows where it has neither.
    pub open spec fn glyph_or_space(&self, c: char) -> Seq<Seq<char>> {
        match self.glyph(c) {
            Some(rows) => rows,
            None => match self.glyph(' ') {
                Some(rows) => rows,
                None => Seq::empty(),
            },
        }
    }

    /// What `c` adds to output line `i`.
    pub open spec fn glyph_row(&self, c: char, i: int) -> Seq<char> {
        let rows = self.glyph_or_space(c);
        if 0 <= i < rows.len() {
            rows[i]
        } else {
            Seq::empty()
        }
    }

    /// Output line `i` of `text`: what its characters add to that line, one
    /// after the other.
    pub open spec fn rendered_row(&self, text: Seq<char>, i: int) -> Seq<char>
        decreases text.len(),
    {
        if text.len() == 0 {
            Seq::empty()
        } else {
            self.rendered_row(text.drop_last(), i) + self.glyph_row(text.last(), i)
        }
    }

    /// The width of `c`: the length of the first row of its glyph.
    pub open spec fn spec_char_width(&self, c: char) -> nat {
        match self.glyph(c) {
            Some(rows) => if rows.len() > 0 {
                rows[0].len()
            } else {
                0
            },
            None => 0,
        }
    }

    /// A text of two characters has on each line what the first character
    /// adds to it, followed by what the second adds.
    pub proof fn lemma_two_characters(&self, a: char, b: char, i: int)
        ensures
            self.rendered_row(seq![a, b], i) == self.glyph_row(a, i) + self.glyph_row(b, i),
    {
        let text = seq![a, b];
        let first = seq![a];
        assert(text.drop_last() =~= first);
        assert(first.drop_last() =~= Seq::<char>::empty());
        assert(self.rendered_row(first.drop_last(), i) =~= Seq::<char>::empty());
        assert(self.rendered_row(first, i) == self.rendered_row(first.drop_last(), i)
            + self.glyph_row(first.last(), i));
        assert(self.rendered_row(first, i) =~= self.glyph_row(a, i));
    }

    /// The lines of one text followed by another are the lines of the
    /// first, each followed by the line of the second.
    pub proof fn lemma_texts_join(&self, a: Seq<char>, b: Seq<char>, i: int)
        ensures
            self.rendered_row(a + b, i) == self.rendered_row(a, i) + self.rendered_row(b, i),
        decreases b.len(),
    {
        if b.len() == 0 {
            assert(a + b =~= a);
            assert(self.rendered_row(a, i) + Seq::<char>::empty() =~= self.rendered_row(a, i));
        } else {
            self.lemma_texts_join(a, b.drop_last(), i);
            assert((a + b).drop_last() =~= a + b.drop_last());
            assert((self.rendered_row(a, i) + self.rendered_row(b.drop_last(), i)) + self.glyph_row(
                b.last(),
                i,
            ) =~= self.rendered_row(a, i) + (self.rendered_row(b.drop_last(), i) + self.glyph_row(
                b.last(),
                i,
            )));
        }
    }

    /// A character that the font does not define is drawn as the space is.
    pub proof fn lemma_unmapped_is_space(&self, c: char, i: int)
        requires
            self.glyph(c) is None,
        ensures
            self.glyph_row(c, i) == self.glyph_row(' ', i),
    {
    }

    /// In a well-formed font every character that is drawn at all adds to
    /// each of the `height` lines the row of its glyph.
    pub proof fn lemma_glyph_rows(&self, c: char, i: int)
        requires
            self.wf(),
            0 <= i < self.height,
            self.glyph(c) is Some || self.glyph(' ') is Some,
        ensures
            self.glyph_or_space(c).len() == self.height,
            self.glyph_row(c, i) == self.glyph_or_space(c)[i],
    {
        if self.glyph(c) is Some {
            assert(self.chars@.contains_key(c as u32));
        } else {
            assert(self.chars@.contains_key(' ' as u32));
        }
    }

    /// The rows that draw `c`, or `None` where `c` draws nothing.
    fn rows_for(&self, c: char) -> (r: Option<&Vec<String>>)
        ensures
            match r {
                Some(rows) => string_views(rows@) == self.glyph_or_space(c),
                None => self.glyph_or_space(c) == Seq::<Seq<char>>::empty(),
            },
    {
        broadcast use vstd::std_specs::hash::group_hash_axioms;

        let key: u32 = c as u32;
        match self.chars.get(&key) {
            Some(rows) => Some(rows),
            None => {
                let space: u32 = ' ' as u32;
                self.chars.get(&space)
            },
        }
    }

    /// Render text using this font.
    ///
    /// Returns a vector of strings, one for each line of the output.
    pub fn render_text(&self, text: &str) -> (out: Vec<String>)
        ensures
            out.len() == self.height,
            forall|i: int| 0 <= i < out.len() ==> (#[trigger] out[i])@ == self.rendered_row(text@, i),
    {
        let chars = crate::text::chars_of(text);
        let mut out: Vec<String> = Vec::new();
        let mut i: usize = 0;
        while i < self.height
            invariant
                i <= self.height,
                out.len() == i,
                chars@ == text@,
                forall|k: int| 0 <= k < out.len() ==> (#[trigger] out[k])@ == self.rendered_row(text@, k),
            decreases self.height - i,
        {
            let mut row = String::new();
            let mut j: usize = 0;
            while j < chars.len()
                invariant
                    j <= chars.len(),
                    row@ == self.rendered_row(chars@.take(j as int), i as int),
                decreases chars.len() - j,
            {
                proof {
                    assert(chars@.take(j + 1).drop_last() =~= chars@.take(j as int));
                }
                match self.rows_for(chars[j]) {
                    Some(rows) => {
                        if i < rows.len() {
                            row.append(rows[i].as_str());
                        } else {
                            assert(row@ + Seq::<char>::empty() =~= row@);
                        }
                    },
                    None => {
                        assert(row@ + Seq::<char>::empty() =~= row@);
                    },
                }
                j += 1;
            }
            assert(chars@.take(chars.len() as int) =~= chars@);
            out.push(row);
            i += 1;
        }
        out
    }

    /// Get the width of a character.
    pub fn char_width(&self, ch: char) -> (w: usize)
        ensures
            w == self.spec_char_width(ch),
    {
        broadcast use vstd::std_specs::hash::group_hash_axioms;

        let key: u32 = ch as u32;
        match self.chars.get(&key) {
            Some(rows) => {
                if rows.len() > 0 {
                    rows[0].as_str().unicode_len()
                } else {
                    0
                }
            },
            None => 0,
        }
    }
}

} // verus!
