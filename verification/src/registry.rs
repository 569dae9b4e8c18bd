//! Font registry for managing available fonts.
//!
//! The registry holds its fonts in ascending order of their names, so no
//! name occurs twice and the list of names needs no sorting. Names are
//! ordered character by character, by code point.

use vstd::prelude::*;
use vstd::string::*;

use crate::font::{Font, FontView};
use crate::parser::{parse_flf, spec_parse_flf};
use crate::text::{chars_of, string_of};

verus! {

/// Whether the name `a` comes before the name `b`: at the first place where
/// they differ `a` has the smaller character, or `a` ends there and `b` goes
/// on.
pub open spec fn name_lt(a: Seq<char>, b: Seq<char>) -> bool
    decreases a.len(),
{
    if b.len() == 0 {
        false
    } else if a.len() == 0 {
        true
    } else if a[0] != b[0] {
        (a[0] as u32) < (b[0] as u32)
    } else {
        name_lt(a.drop_first(), b.drop_first())
    }
}

/// No name comes before itself.
pub proof fn lemma_name_lt_irreflexive(a: Seq<char>)
    ensures
        !name_lt(a, a),
    decreases a.len(),
{
    if a.len() > 0 {
        lemma_name_lt_irreflexive(a.drop_first());
    }
}

/// The order of names is transitive.
pub proof fn lemma_name_lt_transitive(a: Seq<char>, b: Seq<char>, c: Seq<char>)
    requires
        name_lt(a, b),
        name_lt(b, c),
    ensures
        name_lt(a, c),
    decreases a.len(),
{
    if a.len() > 0 && a[0] == b[0] && b[0] == c[0] {
        lemma_name_lt_transitive(a.drop_first(), b.drop_first(), c.drop_first());
    }
}

/// Of two different names one comes before the other.
pub proof fn lemma_name_lt_connected(a: Seq<char>, b: Seq<char>)
    requires
        a != b,
    ensures
        name_lt(a, b) || name_lt(b, a),
    decreases a.len(),
{
    if a.len() > 0 && b.len() > 0 && a[0] == b[0] {
        assert(a.drop_first() != b.drop_first()) by {
            if a.drop_first() == b.drop_first() {
                assert(a =~= seq![a[0]].add(a.drop_first()));
                assert(b =~= seq![b[0]].add(b.drop_first()));
            }
        }
        lemma_name_lt_connected(a.drop_first(), b.drop_first());
    } else if a.len() == 0 && b.len() == 0 {
        assert(a =~= b);
    } else if a.len() > 0 && b.len() > 0 {
        lemma_code_point_injective(a[0], b[0]);
    }
}

/// Two characters with the same code point are the same character.
pub proof fn lemma_code_point_injective(a: char, b: char)
    ensures
        a as u32 == b as u32 ==> a == b,
{
}

/// Whether the name `a` comes before the name `b`.
pub fn names_less(a: &Vec<char>, b: &Vec<char>) -> (r: bool)
    ensures
        r == name_lt(a@, b@),
{
    let mut i: usize = 0;
    assert(a@.skip(0) =~= a@);
    assert(b@.skip(0) =~= b@);
    while i < a.len() && i < b.len()
        invariant
            i <= a.len(),
            i <= b.len(),
            name_lt(a@, b@) == name_lt(a@.skip(i as int), b@.skip(i as int)),
        decreases a.len() - i,
    {
        if a[i] != b[i] {
            return (a[i] as u32) < (b[i] as u32);
        }
        assert(a@.skip(i as int).drop_first() =~= a@.skip(i + 1));
        assert(b@.skip(i as int).drop_first() =~= b@.skip(i + 1));
        i += 1;
    }
    i < b.len()
}

/// Whether two names are the same.
pub fn names_equal(a: &Vec<char>, b: &Vec<char>) -> (r: bool)
    ensures
        r == (a@ == b@),
{
    if a.len() != b.len() {
        return false;
    }
    let mut i: usize = 0;
    while i < a.len()
        invariant
            i <= a.len(),
            a.len() == b.len(),
            a@.take(i as int) == b@.take(i as int),
        decreases a.len() - i,
    {
        if a[i] != b[i] {
            return false;
        }
        i += 1;
        assert(a@.take(i as int) =~= a@.take(i - 1).push(a@[i - 1]));
        assert(b@.take(i as int) =~= b@.take(i - 1).push(b@[i - 1]));
    }
    assert(a@.take(a.len() as int) =~= a@);
    assert(b@.take(b.len() as int) =~= b@);
    true
}

/// The four characters that end the name of a font file.
pub open spec fn font_file_suffix() -> Seq<char> {
    seq!['.', 'f', 'l', 'f']
}

/// The font name that a file name stands for: the stem of a file whose
/// extension is `flf`. A file name that is nothing but the extension has no
/// stem and stands for no font.
pub open spec fn font_name_of_file(file_name: Seq<char>) -> Option<Seq<char>> {
    if file_name.len() > 4 && file_name.skip(file_name.len() - 4) == font_file_suffix() {
        Some(file_name.take(file_name.len() - 4))
    } else {
        None
    }
}

/// The font name that a file name stands for, if it is the name of a font
/// file.
pub fn custom_font_name(file_name: &str) -> (r: Option<String>)
    ensures
        match r {
            Some(name) => font_name_of_file(file_name@) == Some(name@),
            None => font_name_of_file(file_name@) is None,
        },
{
    let chars = chars_of(file_name);
    let n = chars.len();
    if n <= 4 {
        return None;
    }
    let ghost tail = chars@.skip(n - 4);
    if chars[n - 4] == '.' && chars[n - 3] == 'f' && chars[n - 2] == 'l' && chars[n - 1] == 'f' {
        assert(tail =~= font_file_suffix());
        let mut stem: Vec<char> = Vec::new();
        let mut i: usize = 0;
        while i < n - 4
            invariant
                n == chars.len(),
                n > 4,
                i <= n - 4,
                stem@ == chars@.take(i as int),
            decreases n - i,
        {
            stem.push(chars[i]);
            i += 1;
            assert(chars@.take(i as int) =~= chars@.take(i - 1).push(chars@[i - 1]));
        }
        Some(string_of(&stem))
    } else {
        assert(tail[0] == chars@[n - 4]);
        assert(tail[1] == chars@[n - 3]);
        assert(tail[2] == chars@[n - 2]);
        assert(tail[3] == chars@[n - 1]);
        None
    }
}

/// A font under its name, as text in the font file format.
#[derive(Debug, Clone)]
pub struct FontSource {
    pub name: String,
    pub content: String,
}

/// A file of the fonts directory: its name and what it holds.
#[derive(Debug, Clone)]
pub struct FontFile {
    pub file_name: String,
    pub content: String,
}

/// The fonts of a registry after the font `content` was offered to it under
/// `name`: a text that is no font changes nothing; a font whose name is
/// taken replaces the one that has it if `replace` says so and is left out
/// otherwise; any other font is added.
pub open spec fn spec_add_font(
    fonts: Map<Seq<char>, FontView>,
    name: Seq<char>,
    content: Seq<char>,
    replace: bool,
) -> Map<Seq<char>, FontView> {
    if !replace && fonts.contains_key(name) {
        fonts
    } else {
        match spec_parse_flf(name, content) {
            Ok(font) => fonts.insert(name, font),
            Err(_) => fonts,
        }
    }
}

/// The fonts of a registry made of the built-in fonts `sources`: each one
/// that parses, under its name; where a name comes twice, the later font.
pub open spec fn spec_load_bundled(sources: Seq<FontSource>) -> Map<Seq<char>, FontView>
    decreases sources.len(),
{
    if sources.len() == 0 {
        Map::empty()
    } else {
        spec_add_font(
            spec_load_bundled(sources.drop_last()),
            sources.last().name@,
            sources.last().content@,
            true,
        )
    }
}

/// The fonts of a registry after it was offered the files `files`, in
/// order: each font file that parses adds its font under the stem of the
/// file name, unless the registry has a font of that name already.
pub open spec fn spec_load_custom(fonts: Map<Seq<char>, FontView>, files: Seq<FontFile>) -> Map<
    Seq<char>,
    FontView,
>
    decreases files.len(),
{
    if files.len() == 0 {
        fonts
    } else {
        let before = spec_load_custom(fonts, files.drop_last());
        match font_name_of_file(files.last().file_name@) {
            Some(name) => spec_add_font(before, name, files.last().content@, false),
            None => before,
        }
    }
}

/// The name of the font at index `i` of a list of fonts.
pub open spec fn name_at(fonts: Seq<Font>, i: int) -> Seq<char> {
    fonts[i].name@
}

/// The names of the fonts ascend.
pub open spec fn ascending(fonts: Seq<Font>) -> bool {
    forall|i: int, j: int|
        0 <= i < j < fonts.len() ==> name_lt(#[trigger] name_at(fonts, i), #[trigger] name_at(fonts, j))
}

/// Every one of the fonts is well-formed.
pub open spec fn all_well_formed(fonts: Seq<Font>) -> bool {
    forall|i: int| 0 <= i < fonts.len() ==> (#[trigger] fonts[i]).wf()
}

/// Whether one of the fonts has the given name.
pub open spec fn has_name(fonts: Seq<Font>, name: Seq<char>) -> bool {
    exists|i: int| 0 <= i < fonts.len() && #[trigger] name_at(fonts, i) == name
}

/// The index of the font of the given name.
pub open spec fn index_of(fonts: Seq<Font>, name: Seq<char>) -> int {
    choose|i: int| 0 <= i < fonts.len() && #[trigger] name_at(fonts, i) == name
}

/// The fonts, each under its name.
pub open spec fn fonts_by_name(fonts: Seq<Font>) -> Map<Seq<char>, FontView> {
    Map::new(|name: Seq<char>| has_name(fonts, name), |name: Seq<char>| fonts[index_of(fonts, name)]@)
}

/// In a list of ascending names the font at index `i` is the one font of
/// its name.
pub proof fn lemma_index_unique(fonts: Seq<Font>, i: int)
    requires
        ascending(fonts),
        0 <= i < fonts.len(),
    ensures
        has_name(fonts, name_at(fonts, i)),
        index_of(fonts, name_at(fonts, i)) == i,
        fonts_by_name(fonts).contains_key(name_at(fonts, i)),
        fonts_by_name(fonts)[name_at(fonts, i)] == fonts[i]@,
{
    let name = name_at(fonts, i);
    let j = index_of(fonts, name);
    lemma_name_lt_irreflexive(name);
    if j < i {
        assert(name_lt(name_at(fonts, j), name_at(fonts, i)));
    } else if i < j {
        assert(name_lt(name_at(fonts, i), name_at(fonts, j)));
    }
}

/// Fonts with ascending names are as many as their names.
pub proof fn lemma_count_of_names(fonts: Seq<Font>)
    requires
        ascending(fonts),
    ensures
        fonts_by_name(fonts).dom().finite(),
        fonts_by_name(fonts).dom().len() == fonts.len(),
    decreases fonts.len(),
{
    let names = fonts_by_name(fonts).dom();
    if fonts.len() == 0 {
        assert(names =~= Set::<Seq<char>>::empty());
    } else {
        let rest = fonts.drop_last();
        let last = name_at(fonts, fonts.len() - 1);
        assert forall|i: int, j: int| 0 <= i < j < rest.len() implies name_lt(
            #[trigger] name_at(rest, i),
            #[trigger] name_at(rest, j),
        ) by {
            assert(name_lt(name_at(fonts, i), name_at(fonts, j)));
        }
        lemma_count_of_names(rest);
        let rest_names = fonts_by_name(rest).dom();
        assert(!rest_names.contains(last)) by {
            if has_name(rest, last) {
                let i = index_of(rest, last);
                assert(name_lt(name_at(fonts, i), name_at(fonts, fonts.len() - 1)));
                lemma_name_lt_irreflexive(last);
            }
        }
        assert forall|n: Seq<char>| names.contains(n) == rest_names.insert(last).contains(n) by {
            if has_name(fonts, n) {
                let i = index_of(fonts, n);
                if i < rest.len() {
                    assert(name_at(rest, i) == n);
                }
            }
            if has_name(rest, n) {
                let i = index_of(rest, n);
                assert(name_at(fonts, i) == n);
            }
            if n == last {
                assert(name_at(fonts, fonts.len() - 1) == n);
            }
        }
        assert(names =~= rest_names.insert(last));
    }
}

/// Where the font of a name stands, or where it would have to stand.
fn find(fonts: &Vec<Font>, name: &Vec<char>) -> (r: (usize, bool))
    requires
        ascending(fonts@),
    ensures
        r.0 <= fonts@.len(),
        r.1 ==> r.0 < fonts@.len() && name_at(fonts@, r.0 as int) == name@,
        r.1 == has_name(fonts@, name@),
        !r.1 ==> forall|j: int| 0 <= j < r.0 ==> name_lt(#[trigger] name_at(fonts@, j), name@),
        !r.1 ==> forall|j: int|
            r.0 <= j < fonts@.len() ==> name_lt(name@, #[trigger] name_at(fonts@, j)),
{
    let n = fonts.len();
    let mut i: usize = 0;
    while i < n
        invariant
            i <= n,
            n == fonts@.len(),
            ascending(fonts@),
            forall|j: int| 0 <= j < i ==> name_lt(#[trigger] name_at(fonts@, j), name@),
        decreases n - i,
    {
        let current = chars_of(fonts[i].name.as_str());
        assert(current@ == name_at(fonts@, i as int));
        if names_equal(&current, name) {
            return (i, true);
        }
        if !names_less(&current, name) {
            proof {
                lemma_name_lt_connected(current@, name@);
                assert forall|j: int| i <= j < n implies name_lt(
                    name@,
                    #[trigger] name_at(fonts@, j),
                ) by {
                    if j > i {
                        assert(name_lt(name_at(fonts@, i as int), name_at(fonts@, j)));
                        lemma_name_lt_transitive(
                            name@,
                            name_at(fonts@, i as int),
                            name_at(fonts@, j),
                        );
                    }
                }
                assert(!has_name(fonts@, name@)) by {
                    lemma_name_lt_irreflexive(name@);
                }
            }
            return (i, false);
        }
        i += 1;
    }
    proof {
        assert(!has_name(fonts@, name@)) by {
            lemma_name_lt_irreflexive(name@);
        }
    }
    (n, false)
}

/// Offer a list of fonts the font `content` under `name`.
fn add_font(fonts: &mut Vec<Font>, name: &str, content: &str, replace: bool)
    requires
        ascending(old(fonts)@),
        all_well_formed(old(fonts)@),
    ensures
        ascending(final(fonts)@),
        all_well_formed(final(fonts)@),
        fonts_by_name(final(fonts)@) == spec_add_font(
            fonts_by_name(old(fonts)@),
            name@,
            content@,
            replace,
        ),
{
    let key = chars_of(name);
    let (pos, found) = find(fonts, &key);
    if found && !replace {
        return;
    }
    let font = match parse_flf(name, content) {
        Ok(font) => font,
        Err(_) => { return; },
    };
    let ghost before = fonts@;
    let ghost font_view = font@;
    assert(font.name@ == name@);
    if found {
        fonts.set(pos, font);
        proof {
            let after = fonts@;
            assert forall|i: int| 0 <= i < after.len() implies name_at(after, i) == name_at(
                before,
                i,
            ) by {}
            assert forall|i: int, j: int| 0 <= i < j < after.len() implies name_lt(
                #[trigger] name_at(after, i),
                #[trigger] name_at(after, j),
            ) by {
                assert(name_lt(name_at(before, i), name_at(before, j)));
            }
            assert forall|n: Seq<char>| has_name(after, n) == has_name(before, n) by {
                if has_name(after, n) {
                    let i = index_of(after, n);
                    assert(name_at(before, i) == n);
                }
                if has_name(before, n) {
                    let i = index_of(before, n);
                    assert(name_at(after, i) == n);
                }
            }
            assert forall|n: Seq<char>| has_name(after, n) implies #[trigger] fonts_by_name(
                after,
            )[n] == fonts_by_name(before).insert(name@, font_view)[n] by {
                let i = index_of(after, n);
                lemma_index_unique(after, i);
                lemma_index_unique(before, i);
                lemma_index_unique(before, pos as int);
            }
            assert(fonts_by_name(after) =~= fonts_by_name(before).insert(name@, font_view));
        }
    } else {
        fonts.insert(pos, font);
        proof {
            let after = fonts@;
            assert forall|i: int| 0 <= i < after.len() implies #[trigger] name_at(after, i) == (if i
                < pos {
                name_at(before, i)
            } else if i == pos {
                name@
            } else {
                name_at(before, i - 1)
            }) by {}
            assert forall|i: int, j: int| 0 <= i < j < after.len() implies name_lt(
                #[trigger] name_at(after, i),
                #[trigger] name_at(after, j),
            ) by {
                if j < pos {
                    assert(name_lt(name_at(before, i), name_at(before, j)));
                } else if j == pos {
                    assert(name_lt(name_at(before, i), name@));
                } else if i < pos {
                    assert(name_lt(name_at(before, i), name_at(before, j - 1)));
                } else if i == pos {
                    assert(name_lt(name@, name_at(before, j - 1)));
                } else {
                    assert(name_lt(name_at(before, i - 1), name_at(before, j - 1)));
                }
            }
            assert forall|i: int| 0 <= i < after.len() implies (#[trigger] after[i]).wf() by {
                if i < pos {
                    assert(before[i].wf());
                } else if i > pos {
                    assert(before[i - 1].wf());
                }
            }
            assert forall|n: Seq<char>| has_name(after, n) == (has_name(before, n) || n
                == name@) by {
                if has_name(after, n) {
                    let i = index_of(after, n);
                    if i < pos {
                        assert(name_at(before, i) == n);
                    } else if i > pos {
                        assert(name_at(before, i - 1) == n);
                    }
                }
                if has_name(before, n) {
                    let i = index_of(before, n);
                    if i < pos {
                        assert(name_at(after, i) == n);
                    } else {
                        assert(name_at(after, i + 1) == n);
                    }
                }
                if n == name@ {
                    assert(name_at(after, pos as int) == n);
                }
            }
            assert forall|n: Seq<char>| has_name(after, n) implies #[trigger] fonts_by_name(
                after,
            )[n] == fonts_by_name(before).insert(name@, font_view)[n] by {
                let i = index_of(after, n);
                lemma_index_unique(after, i);
                lemma_name_lt_irreflexive(name@);
                if i < pos {
                    lemma_index_unique(before, i);
                    assert(name_lt(name_at(before, i), name@));
                } else if i > pos {
                    lemma_index_unique(before, i - 1);
                    assert(name_lt(name@, name_at(before, i - 1)));
                }
            }
            assert(fonts_by_name(after) =~= fonts_by_name(before).insert(name@, font_view));
        }
    }
}

/// Registry of available fonts.
#[derive(Debug)]
pub struct FontRegistry {
    /// The fonts, in ascending order of their names.
    fonts: Vec<Font>,
}

impl View for FontRegistry {
    type V = Map<Seq<char>, FontView>;

    /// The fonts of the registry, each under its name.
    closed spec fn view(&self) -> Map<Seq<char>, FontView> {
        fonts_by_name(self.fonts@)
    }
}

impl FontRegistry {
    /// The names of the fonts ascend, and every font is well-formed.
    #[verifier::type_invariant]
    pub closed spec fn wf(&self) -> bool {
        ascending(self.fonts@) && all_well_formed(self.fonts@)
    }

    /// Create a new registry with the built-in fonts loaded. A built-in
    /// font that does not parse is left out.
    pub fn new(bundled: &Vec<FontSource>) -> (registry: Self)
        ensures
            registry@ == spec_load_bundled(bundled@),
    {
        let mut fonts: Vec<Font> = Vec::new();
        assert(fonts_by_name(fonts@) =~= Map::<Seq<char>, FontView>::empty());
        let mut i: usize = 0;
        while i < bundled.len()
            invariant
                i <= bundled.len(),
                ascending(fonts@),
                all_well_formed(fonts@),
                fonts_by_name(fonts@) == spec_load_bundled(bundled@.take(i as int)),
            decreases bundled.len() - i,
        {
            proof {
                assert(bundled@.take(i + 1).drop_last() =~= bundled@.take(i as int));
            }
            add_font(&mut fonts, bundled[i].name.as_str(), bundled[i].content.as_str(), true);
            i += 1;
        }
        assert(bundled@.take(bundled.len() as int) =~= bundled@);
        FontRegistry { fonts }
    }

    /// Load custom fonts from the files of the fonts directory. A file
    /// that is no font file, that does not parse or whose font name is
    /// taken is passed over.
    pub fn load_custom_fonts(&mut self, files: &Vec<FontFile>)
        ensures
            final(self)@ == spec_load_custom(old(self)@, files@),
    {
        proof {
            use_type_invariant(&*self);
        }
        // the fonts are taken out of the registry while files are added
        let mut fonts: Vec<Font> = Vec::new();
        core::mem::swap(&mut self.fonts, &mut fonts);
        let mut i: usize = 0;
        while i < files.len()
            invariant
                i <= files.len(),
                ascending(fonts@),
                all_well_formed(fonts@),
                fonts_by_name(fonts@) == spec_load_custom(
                    fonts_by_name(old(self).fonts@),
                    files@.take(i as int),
                ),
            decreases files.len() - i,
        {
            proof {
                assert(files@.take(i + 1).drop_last() =~= files@.take(i as int));
            }
            match custom_font_name(files[i].file_name.as_str()) {
                Some(name) => {
                    add_font(&mut fonts, name.as_str(), files[i].content.as_str(), false);
                },
                None => {},
            }
            i += 1;
        }
        assert(files@.take(files.len() as int) =~= files@);
        core::mem::swap(&mut self.fonts, &mut fonts);
    }

    /// Get a font by name.
    pub fn get(&self, name: &str) -> (r: Option<&Font>)
        ensures
            match r {
                Some(font) => self@.contains_key(name@) && font@ == self@[name@] && font.name@
                    == name@ && font.wf(),
                None => !self@.contains_key(name@),
            },
    {
        proof {
            use_type_invariant(self);
        }
        let key = chars_of(name);
        let (pos, found) = find(&self.fonts, &key);
        if found {
            proof {
                lemma_index_unique(self.fonts@, pos as int);
            }
            Some(&self.fonts[pos])
        } else {
            None
        }
    }

    /// Get a font by name, or the default font if not found.
    pub fn get_or_default(&self, name: &str) -> (font: &Font)
        requires
            self@.contains_key(name@) || self@.contains_key("Standard"@),
        ensures
            font.wf(),
            self@.contains_key(name@) ==> font@ == self@[name@] && font.name@ == name@,
            !self@.contains_key(name@) ==> font@ == self@["Standard"@] && font.name@
                == "Standard"@,
    {
        match self.get(name) {
            Some(font) => font,
            None => {
                match self.get("Standard") {
                    Some(font) => font,
                    None => vstd::pervasive::unreached(),
                }
            },
        }
    }

    /// List all available font names, in ascending order.
    pub fn list_fonts(&self) -> (names: Vec<&str>)
        ensures
            names.len() == self@.dom().len(),
            forall|i: int, j: int|
                0 <= i < j < names.len() ==> name_lt((#[trigger] names[i])@, (#[trigger] names[j])@),
            forall|i: int| 0 <= i < names.len() ==> self@.contains_key((#[trigger] names[i])@),
            forall|name: Seq<char>|
                self@.contains_key(name) ==> exists|i: int|
                    0 <= i < names.len() && (#[trigger] names[i])@ == name,
    {
        proof {
            use_type_invariant(self);
            lemma_count_of_names(self.fonts@);
        }
        let mut names: Vec<&str> = Vec::new();
        let mut i: usize = 0;
        while i < self.fonts.len()
            invariant
                i <= self.fonts@.len(),
                names.len() == i,
                forall|k: int|
                    0 <= k < names.len() ==> (#[trigger] names[k])@ == name_at(self.fonts@, k),
            decreases self.fonts@.len() - i,
        {
            names.push(self.fonts[i].name.as_str());
            i += 1;
        }
        proof {
            assert forall|i: int, j: int| 0 <= i < j < names.len() implies name_lt(
                (#[trigger] names[i])@,
                (#[trigger] names[j])@,
            ) by {
                assert(name_lt(name_at(self.fonts@, i), name_at(self.fonts@, j)));
            }
            assert forall|i: int| 0 <= i < names.len() implies self@.contains_key(
                (#[trigger] names[i])@,
            ) by {
                lemma_index_unique(self.fonts@, i);
            }
            assert forall|name: Seq<char>| self@.contains_key(name) implies exists|i: int|
                0 <= i < names.len() && (#[trigger] names[i])@ == name by {
                let i = index_of(self.fonts@, name);
                assert(names[i]@ == name);
            }
        }
        names
    }

    /// Check if a font exists.
    pub fn has_font(&self, name: &str) -> (r: bool)
        ensures
            r == self@.contains_key(name@),
    {
        proof {
            use_type_invariant(self);
        }
        let key = chars_of(name);
        let (_, found) = find(&self.fonts, &key);
        found
    }

    /// Get the number of loaded fonts.
    pub fn len(&self) -> (n: usize)
        ensures
            n == self@.dom().len(),
    {
        proof {
            use_type_invariant(self);
            lemma_count_of_names(self.fonts@);
        }
        self.fonts.len()
    }

    /// Check if the registry is empty.
    pub fn is_empty(&self) -> (r: bool)
        ensures
            r == (self@.dom().len() == 0),
            r == (self@ == Map::<Seq<char>, FontView>::empty()),
    {
        proof {
            use_type_invariant(self);
            lemma_count_of_names(self.fonts@);
            if self.fonts@.len() > 0 {
                lemma_index_unique(self.fonts@, 0);
            } else {
                assert(self@ =~= Map::<Seq<char>, FontView>::empty());
            }
        }
        self.fonts.len() == 0
    }
}

/// Built-in fonts take precedence: loading custom fonts changes no font that
/// the registry has already, and takes none away.
pub proof fn lemma_custom_keeps_loaded(
    fonts: Map<Seq<char>, FontView>,
    files: Seq<FontFile>,
    name: Seq<char>,
)
    requires
        fonts.contains_key(name),
    ensures
        spec_load_custom(fonts, files).contains_key(name),
        spec_load_custom(fonts, files)[name] == fonts[name],
    decreases files.len(),
{
    if files.len() > 0 {
        lemma_custom_keeps_loaded(fonts, files.drop_last(), name);
    }
}

/// A built-in font that parses is in the registry, under its name.
pub proof fn lemma_bundled_font_loaded(sources: Seq<FontSource>, i: int)
    requires
        0 <= i < sources.len(),
        spec_parse_flf(sources[i].name@, sources[i].content@) is Ok,
    ensures
        spec_load_bundled(sources).contains_key(sources[i].name@),
    decreases sources.len(),
{
    if i < sources.len() - 1 {
        lemma_bundled_font_loaded(sources.drop_last(), i);
    }
}

/// A registry holds nothing but fonts that were offered to it: a font of
/// the built-in ones is there under the name of one of the sources, with
/// the height and the glyphs that the source gives.
pub proof fn lemma_bundled_fonts_come_from_sources(sources: Seq<FontSource>, name: Seq<char>)
    requires
        spec_load_bundled(sources).contains_key(name),
    ensures
        exists|i: int|
            0 <= i < sources.len() && (#[trigger] sources[i]).name@ == name && spec_parse_flf(
                name,
                sources[i].content@,
            ) == Ok::<FontView, crate::parser::ParseErrorView>(spec_load_bundled(sources)[name]),
    decreases sources.len(),
{
    if sources.len() > 0 {
        let last = sources.last();
        let before = spec_load_bundled(sources.drop_last());
        if last.name@ == name && spec_parse_flf(last.name@, last.content@) is Ok {
            assert(sources[sources.len() - 1] == last);
        } else {
            lemma_bundled_fonts_come_from_sources(sources.drop_last(), name);
            let i = choose|i: int|
                0 <= i < sources.drop_last().len() && (#[trigger] sources.drop_last()[i]).name@
                    == name && spec_parse_flf(name, sources.drop_last()[i].content@) == Ok::<
                    FontView,
                    crate::parser::ParseErrorView,
                >(before[name]);
            assert(sources[i] == sources.drop_last()[i]);
        }
    }
}

} // verus!
