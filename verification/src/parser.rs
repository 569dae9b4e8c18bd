//! Parser for the two bitmap-font text formats, FIGlet (`flf2a`) and
//! TheLetterFont (`tlf2a`).
//!
//! A font file is a header line, a number of comment lines that the header
//! gives, and then the glyphs of the characters 32 to 126 in ascending order,
//! each on as many lines as the header's height says.

use std::collections::HashMap;
use vstd::prelude::*;
use vstd::std_specs::hash::*;
use vstd::string::*;

use crate::font::{Font, FontView};
use crate::text::{
    chars_of, fields, has_prefix, lines, parse_i32, parse_signed, parse_unsigned, parse_usize,
    push_char, replace_char, split_fields, split_lines, string_views, trim_end, trim_end_matches,
    trimmed_len, views,
};

verus! {

/// Parse error types.
#[derive(Debug, Clone, PartialEq, Eq)]
pub enum ParseError {
    InvalidHeader(String),
    InvalidCharacter(String),
    UnexpectedEndOfFile,
}

/// What a parse error says, with its message as a sequence of characters.
pub enum ParseErrorView {
    InvalidHeader(Seq<char>),
    InvalidCharacter(Seq<char>),
    UnexpectedEndOfFile,
}

impl View for ParseError {
    type V = ParseErrorView;

    open spec fn view(&self) -> ParseErrorView {
        match self {
            ParseError::InvalidHeader(msg) => ParseErrorView::InvalidHeader(msg@),
            ParseError::InvalidCharacter(msg) => ParseErrorView::InvalidCharacter(msg@),
            ParseError::UnexpectedEndOfFile => ParseErrorView::UnexpectedEndOfFile,
        }
    }
}

impl ParseError {
    /// The text that describes the error.
    pub open spec fn spec_message(&self) -> Seq<char> {
        match self {
            ParseError::InvalidHeader(msg) => "Invalid header: "@ + msg@,
            ParseError::InvalidCharacter(msg) => "Invalid character: "@ + msg@,
            ParseError::UnexpectedEndOfFile => "Unexpected end of file"@,
        }
    }

    /// The text that describes the error.
    pub fn message(&self) -> (s: String)
        ensures
            s@ == self.spec_message(),
    {
        match self {
            ParseError::InvalidHeader(msg) => "Invalid header: ".to_owned().concat(msg.as_str()),
            ParseError::InvalidCharacter(msg) => "Invalid character: ".to_owned().concat(
                msg.as_str(),
            ),
            ParseError::UnexpectedEndOfFile => "Unexpected end of file".to_owned(),
        }
    }
}

/// The fields of a font file's header line.
#[derive(Debug, Clone, Copy, PartialEq, Eq)]
pub struct FlfHeader {
    /// The character that stands for a space inside a glyph.
    pub hardblank: char,
    /// Number of lines of each glyph.
    pub height: usize,
    pub baseline: usize,
    pub max_length: usize,
    pub old_layout: i32,
    /// Number of comment lines between the header and the first glyph.
    pub comment_lines: usize,
}

/// The signature that begins the header of a FIGlet font.
pub open spec fn flf_signature() -> Seq<char> {
    seq!['f', 'l', 'f', '2', 'a']
}

/// The signature that begins the header of a TheLetterFont font.
pub open spec fn tlf_signature() -> Seq<char> {
    seq!['t', 'l', 'f', '2', 'a']
}

/// The error for a header line that is not as the format asks.
pub open spec fn header_error(msg: &str) -> Result<FlfHeader, ParseErrorView> {
    Err(ParseErrorView::InvalidHeader(msg@))
}

/// What a header line holds: after the signature the hardblank, then, as
/// fields between white space, height, baseline, maximal length, old layout
/// and number of comment lines; further fields are ignored.
pub open spec fn spec_parse_header(line: Seq<char>) -> Result<FlfHeader, ParseErrorView> {
    if !has_prefix(line, flf_signature()) && !has_prefix(line, tlf_signature()) {
        header_error("Missing flf2a or tlf2a signature")
    } else if line.len() <= 5 {
        header_error("Missing hardblank character")
    } else {
        let parts = fields(line.skip(6));
        if parts.len() < 5 {
            header_error("Not enough header fields")
        } else if parse_unsigned(parts[0], usize::MAX as int) is None {
            header_error("Invalid height")
        } else if parse_unsigned(parts[1], usize::MAX as int) is None {
            header_error("Invalid baseline")
        } else if parse_unsigned(parts[2], usize::MAX as int) is None {
            header_error("Invalid max_length")
        } else if parse_signed(parts[3], i32::MIN as int, i32::MAX as int) is None {
            header_error("Invalid old_layout")
        } else if parse_unsigned(parts[4], usize::MAX as int) is None {
            header_error("Invalid comment_lines")
        } else {
            Ok(
                FlfHeader {
                    hardblank: line[5],
                    height: parse_unsigned(parts[0], usize::MAX as int)->0 as usize,
                    baseline: parse_unsigned(parts[1], usize::MAX as int)->0 as usize,
                    max_length: parse_unsigned(parts[2], usize::MAX as int)->0 as usize,
                    old_layout: parse_signed(parts[3], i32::MIN as int, i32::MAX as int)->0 as i32,
                    comment_lines: parse_unsigned(parts[4], usize::MAX as int)->0 as usize,
                },
            )
        }
    }
}

/// One line of a glyph as the font shows it: the line without the white
/// space at its end, without the end markers `@` before that, and with a
/// space for every hardblank.
pub open spec fn clean_line(line: Seq<char>, hardblank: char) -> Seq<char> {
    replace_char(trim_end_matches(trim_end(line), '@'), hardblank, ' ')
}

/// The `height` rows of the glyph that begins at line `pos`.
pub open spec fn glyph_rows(
    lines: Seq<Seq<char>>,
    pos: int,
    height: int,
    hardblank: char,
) -> Seq<Seq<char>> {
    Seq::new(height as nat, |j: int| clean_line(lines[pos + j], hardblank))
}

/// The glyph that begins at line `pos`, or the error where the lines end
/// before the glyph does.
pub open spec fn spec_parse_character(
    lines: Seq<Seq<char>>,
    pos: int,
    height: int,
    hardblank: char,
) -> Result<Seq<Seq<char>>, ParseErrorView> {
    if pos + height > lines.len() {
        Err(ParseErrorView::UnexpectedEndOfFile)
    } else {
        Ok(glyph_rows(lines, pos, height, hardblank))
    }
}

/// Whether `line` begins with the five characters of a signature.
fn starts_with_signature(line: &Vec<char>, first: char) -> (b: bool)
    ensures
        b == has_prefix(line@, seq![first, 'l', 'f', '2', 'a']),
{
    let ghost sig = seq![first, 'l', 'f', '2', 'a'];
    if line.len() < 5 {
        return false;
    }
    let b = line[0] == first && line[1] == 'l' && line[2] == 'f' && line[3] == '2' && line[4]
        == 'a';
    proof {
        if b {
            assert(line@.take(5) =~= sig);
        } else {
            assert(line@.take(5)[0] == line@[0]);
            assert(line@.take(5)[1] == line@[1]);
            assert(line@.take(5)[2] == line@[2]);
            assert(line@.take(5)[3] == line@[3]);
            assert(line@.take(5)[4] == line@[4]);
        }
    }
    b
}

/// The error for a malformed header, with its message.
fn invalid_header(msg: &str) -> (r: Result<FlfHeader, ParseError>)
    ensures
        r is Err,
        r->Err_0@ == ParseErrorView::InvalidHeader(msg@),
{
    Err(ParseError::InvalidHeader(msg.to_owned()))
}

/// Parse the header line of a font file, given as its characters.
pub fn parse_header_chars(line: &Vec<char>) -> (r: Result<FlfHeader, ParseError>)
    ensures
        match r {
            Ok(header) => spec_parse_header(line@) == Ok::<FlfHeader, ParseErrorView>(header),
            Err(e) => spec_parse_header(line@) == Err::<FlfHeader, ParseErrorView>(e@),
        },
{
    if !starts_with_signature(line, 'f') && !starts_with_signature(line, 't') {
        return invalid_header("Missing flf2a or tlf2a signature");
    }
    if line.len() <= 5 {
        return invalid_header("Missing hardblank character");
    }
    let hardblank = line[5];
    let parts = split_fields(line, 6);
    if parts.len() < 5 {
        return invalid_header("Not enough header fields");
    }
    assert(views(parts@)[0] == parts@[0]@);
    assert(views(parts@)[1] == parts@[1]@);
    assert(views(parts@)[2] == parts@[2]@);
    assert(views(parts@)[3] == parts@[3]@);
    assert(views(parts@)[4] == parts@[4]@);
    let height = match parse_usize(&parts[0]) {
        Some(v) => v,
        None => { return invalid_header("Invalid height"); },
    };
    let baseline = match parse_usize(&parts[1]) {
        Some(v) => v,
        None => { return invalid_header("Invalid baseline"); },
    };
    let max_length = match parse_usize(&parts[2]) {
        Some(v) => v,
        None => { return invalid_header("Invalid max_length"); },
    };
    let old_layout = match parse_i32(&parts[3]) {
        Some(v) => v,
        None => { return invalid_header("Invalid old_layout"); },
    };
    let comment_lines = match parse_usize(&parts[4]) {
        Some(v) => v,
        None => { return invalid_header("Invalid comment_lines"); },
    };
    Ok(FlfHeader { hardblank, height, baseline, max_length, old_layout, comment_lines })
}

/// Parse the FLF/TLF header line.
pub fn parse_header(line: &str) -> (r: Result<FlfHeader, ParseError>)
    ensures
        match r {
            Ok(header) => spec_parse_header(line@) == Ok::<FlfHeader, ParseErrorView>(header),
            Err(e) => spec_parse_header(line@) == Err::<FlfHeader, ParseErrorView>(e@),
        },
{
    let chars = chars_of(line);
    parse_header_chars(&chars)
}

/// The line on which the first glyph begins: the line after the header and
/// the comment lines, or the end of the lines where they end before that.
pub open spec fn first_glyph_line(line_count: int, comment_lines: int) -> int {
    if 1 + comment_lines < line_count {
        1 + comment_lines
    } else {
        line_count
    }
}

/// The font that a font file holds, or the error that is wrong with it.
///
/// The first line is the header. The glyphs of the characters 32 to 126
/// follow the comment lines, in ascending order and without gaps; the file
/// is cut short if its lines end before the glyph of character 126 does.
pub open spec fn spec_parse_flf(name: Seq<char>, content: Seq<char>) -> Result<
    FontView,
    ParseErrorView,
> {
    let ls = lines(content);
    if ls.len() == 0 {
        Err(ParseErrorView::UnexpectedEndOfFile)
    } else {
        match spec_parse_header(ls[0]) {
            Err(e) => Err(e),
            Ok(header) => {
                let start = first_glyph_line(ls.len() as int, header.comment_lines as int);
                if start + 95 * header.height > ls.len() {
                    Err(ParseErrorView::UnexpectedEndOfFile)
                } else {
                    Ok(
                        FontView {
                            name: name,
                            height: header.height as nat,
                            glyphs: Map::new(
                                |k: u32| 32 <= k <= 126,
                                |k: u32|
                                    glyph_rows(
                                        ls,
                                        start + (k - 32) * header.height,
                                        header.height as int,
                                        header.hardblank,
                                    ),
                            ),
                        },
                    )
                }
            },
        }
    }
}

/// One line of a glyph as the font shows it.
fn clean_glyph_line(line: &Vec<char>, hardblank: char) -> (s: String)
    ensures
        s@ == clean_line(line@, hardblank),
{
    let e = trimmed_len(line, '@');
    let mut s = String::new();
    let mut i: usize = 0;
    while i < e
        invariant
            i <= e <= line.len(),
            s@ == replace_char(line@.take(i as int), hardblank, ' '),
        decreases e - i,
    {
        let c = line[i];
        if c == hardblank {
            push_char(&mut s, ' ');
        } else {
            push_char(&mut s, c);
        }
        i += 1;
        assert(replace_char(line@.take(i as int), hardblank, ' ') =~= replace_char(
            line@.take(i - 1),
            hardblank,
            ' ',
        ).push(
            if c == hardblank {
                ' '
            } else {
                c
            },
        ));
    }
    s
}

/// Parse a single character from the lines of a font file: the glyph that
/// begins at line `pos` and has `height` lines.
pub fn parse_character(lines: &Vec<Vec<char>>, pos: usize, height: usize, hardblank: char) -> (r:
    Result<Vec<String>, ParseError>)
    ensures
        match r {
            Ok(rows) => spec_parse_character(views(lines@), pos as int, height as int, hardblank)
                == Ok::<Seq<Seq<char>>, ParseErrorView>(string_views(rows@)),
            Err(e) => spec_parse_character(views(lines@), pos as int, height as int, hardblank)
                == Err::<Seq<Seq<char>>, ParseErrorView>(e@),
        },
{
    if pos > lines.len() || height > lines.len() - pos {
        return Err(ParseError::UnexpectedEndOfFile);
    }
    let mut rows: Vec<String> = Vec::new();
    let mut j: usize = 0;
    while j < height
        invariant
            j <= height,
            pos + height <= lines.len(),
            rows.len() == j,
            forall|k: int|
                0 <= k < j ==> (#[trigger] rows[k])@ == clean_line(lines@[pos + k]@, hardblank),
        decreases height - j,
    {
        let row = clean_glyph_line(&lines[pos + j], hardblank);
        rows.push(row);
        j += 1;
    }
    assert(string_views(rows@) =~= glyph_rows(
        views(lines@),
        pos as int,
        height as int,
        hardblank,
    ));
    Ok(rows)
}

/// Parse a font file from string content.
pub fn parse_flf(name: &str, content: &str) -> (r: Result<Font, ParseError>)
    ensures
        match r {
            Ok(font) => spec_parse_flf(name@, content@) == Ok::<FontView, ParseErrorView>(font@)
                && font.wf(),
            Err(e) => spec_parse_flf(name@, content@) == Err::<FontView, ParseErrorView>(e@),
        },
{
    broadcast use vstd::std_specs::hash::group_hash_axioms;

    let text = chars_of(content);
    let ls = split_lines(&text);
    if ls.len() == 0 {
        return Err(ParseError::UnexpectedEndOfFile);
    }
    assert(views(ls@)[0] == ls@[0]@);
    let header = match parse_header_chars(&ls[0]) {
        Ok(h) => h,
        Err(e) => { return Err(e); },
    };
    let height = header.height;
    let start: usize = if header.comment_lines < ls.len() - 1 {
        1 + header.comment_lines
    } else {
        ls.len()
    };
    let mut chars: HashMap<u32, Vec<String>> = HashMap::new();
    let mut code: u32 = 32;
    let mut pos: usize = start;
    while code <= 126
        invariant
            32 <= code <= 127,
            ls.len() > 0,
            views(ls@) == lines(content@),
            spec_parse_header(lines(content@)[0]) == Ok::<FlfHeader, ParseErrorView>(header),
            start == first_glyph_line(ls.len() as int, header.comment_lines as int),
            height == header.height,
            pos == start + (code - 32) * height,
            pos <= ls.len(),
            forall|k: u32| chars@.contains_key(k) <==> 32 <= k < code,
            forall|k: u32|
                32 <= k < code ==> string_views((#[trigger] chars@[k])@) == glyph_rows(
                    views(ls@),
                    start + (k - 32) * height,
                    height as int,
                    header.hardblank,
                ),
        decreases 127 - code,
    {
        match parse_character(&ls, pos, height, header.hardblank) {
            Ok(rows) => {
                chars.insert(code, rows);
                assert(pos + height == start + (code + 1 - 32) * height) by (nonlinear_arith)
                    requires
                        pos == start + (code - 32) * height,
                ;
                pos += height;
                code += 1;
            },
            Err(e) => {
                assert(start + 95 * height > ls.len()) by (nonlinear_arith)
                    requires
                        pos == start + (code - 32) * height,
                        pos + height > ls.len(),
                        32 <= code <= 126,
                        height >= 0,
                ;
                return Err(e);
            },
        }
    }
    assert(pos == start + 95 * height);
    let font = Font { name: name.to_owned(), height, chars };
    proof {
        let expected = spec_parse_flf(name@, content@)->Ok_0;
        assert(font@.glyphs =~= expected.glyphs);
        assert forall|k: u32| #[trigger] font.chars@.contains_key(k) implies font.chars@[k]@.len()
            == font.height by {
            assert(string_views(font.chars@[k]@).len() == height);
        }
    }
    Ok(font)
}

/// A font that parses has the glyphs of the characters 32 to 126 and no
/// others, each with as many rows as the header's height says.
pub proof fn lemma_parsed_font_shape(name: Seq<char>, content: Seq<char>)
    requires
        spec_parse_flf(name, content) is Ok,
    ensures
        ({
            let font = spec_parse_flf(name, content)->Ok_0;
            &&& font.name == name
            &&& spec_parse_header(lines(content)[0]) is Ok
            &&& font.height == spec_parse_header(lines(content)[0])->Ok_0.height
            &&& forall|k: u32| font.glyphs.contains_key(k) <==> 32 <= k <= 126
            &&& forall|k: u32| 32 <= k <= 126 ==> (#[trigger] font.glyphs[k]).len() == font.height
        }),
{
}

/// No line of a glyph holds a hardblank, unless the hardblank is the space
/// itself; and cleaning a line makes it no longer.
pub proof fn lemma_clean_line(line: Seq<char>, hardblank: char)
    ensures
        clean_line(line, hardblank).len() <= line.len(),
        hardblank != ' ' ==> forall|i: int|
            0 <= i < clean_line(line, hardblank).len() ==> #[trigger] clean_line(line, hardblank)[i]
                != hardblank,
{
    lemma_trim_end_shortens(line);
    lemma_trim_end_matches_shortens(trim_end(line), '@');
}

/// Trimming white space makes a line no longer.
pub proof fn lemma_trim_end_shortens(s: Seq<char>)
    ensures
        trim_end(s).len() <= s.len(),
    decreases s.len(),
{
    if s.len() > 0 && crate::text::is_whitespace(s.last()) {
        lemma_trim_end_shortens(s.drop_last());
    }
}

/// Trimming end markers makes a line no longer.
pub proof fn lemma_trim_end_matches_shortens(s: Seq<char>, c: char)
    ensures
        trim_end_matches(s, c).len() <= s.len(),
    decreases s.len(),
{
    if s.len() > 0 && s.last() == c {
        lemma_trim_end_matches_shortens(s.drop_last(), c);
    }
}

} // verus!
