//! Character-level text helpers: white space, lines, fields and decimal
//! numbers, each with its meaning stated over sequences of characters.

use vstd::prelude::*;

verus! {

/// Whether `c` is white space: the characters with the Unicode property
/// `White_Space`.
pub open spec fn is_whitespace(c: char) -> bool {
    let u = c as u32;
    ||| 0x09 <= u <= 0x0D
    ||| u == 0x20
    ||| u == 0x85
    ||| u == 0xA0
    ||| u == 0x1680
    ||| 0x2000 <= u <= 0x200A
    ||| u == 0x2028
    ||| u == 0x2029
    ||| u == 0x202F
    ||| u == 0x205F
    ||| u == 0x3000
}

/// Whether `c` is one of the decimal digits `0` to `9`.
pub open spec fn is_digit(c: char) -> bool {
    0x30 <= c as u32 <= 0x39
}

/// The number that a decimal digit stands for.
pub open spec fn digit_value(c: char) -> int {
    c as u32 - 0x30
}

/// The views of a sequence of character vectors.
pub open spec fn views(v: Seq<Vec<char>>) -> Seq<Seq<char>> {
    Seq::new(v.len(), |i: int| v[i]@)
}

/// The views of a sequence of strings.
pub open spec fn string_views(v: Seq<String>) -> Seq<Seq<char>> {
    Seq::new(v.len(), |i: int| v[i]@)
}

/// Index of the first line feed in `s`, or the length of `s` if it has none.
pub open spec fn newline_pos(s: Seq<char>) -> int
    decreases s.len(),
{
    if s.len() == 0 {
        0
    } else if s[0] == '\n' {
        0
    } else {
        1 + newline_pos(s.drop_first())
    }
}

/// `s` without one carriage return at its end, if it has one there.
pub open spec fn strip_cr(s: Seq<char>) -> Seq<char> {
    if s.len() > 0 && s.last() == '\r' {
        s.drop_last()
    } else {
        s
    }
}

/// The lines of a text. A line ends at a line feed; a carriage return just
/// before that line feed belongs to the line ending. The last line needs no
/// line ending, and a text that ends with a line ending has no empty line
/// after it.
pub open spec fn lines(s: Seq<char>) -> Seq<Seq<char>>
    decreases s.len(),
{
    if s.len() == 0 {
        Seq::empty()
    } else {
        let i = newline_pos(s);
        if 0 <= i < s.len() {
            seq![strip_cr(s.take(i))].add(lines(s.skip(i + 1)))
        } else {
            seq![s]
        }
    }
}

/// Length of the longest prefix of `s` that holds no white space.
pub open spec fn word_len(s: Seq<char>) -> int
    decreases s.len(),
{
    if s.len() == 0 || is_whitespace(s[0]) {
        0
    } else {
        1 + word_len(s.drop_first())
    }
}

/// The fields of a line: its maximal runs of characters that are not white
/// space, in order.
pub open spec fn fields(s: Seq<char>) -> Seq<Seq<char>>
    decreases s.len(),
{
    if s.len() == 0 {
        Seq::empty()
    } else if is_whitespace(s[0]) {
        fields(s.drop_first())
    } else {
        let n = word_len(s);
        if 0 < n <= s.len() {
            seq![s.take(n)].add(fields(s.skip(n)))
        } else {
            Seq::empty()
        }
    }
}

/// `s` without the white space at its end.
pub open spec fn trim_end(s: Seq<char>) -> Seq<char>
    decreases s.len(),
{
    if s.len() > 0 && is_whitespace(s.last()) {
        trim_end(s.drop_last())
    } else {
        s
    }
}

/// `s` without the run of `c` at its end.
pub open spec fn trim_end_matches(s: Seq<char>, c: char) -> Seq<char>
    decreases s.len(),
{
    if s.len() > 0 && s.last() == c {
        trim_end_matches(s.drop_last(), c)
    } else {
        s
    }
}

/// `s` with every `from` replaced by `to`.
pub open spec fn replace_char(s: Seq<char>, from: char, to: char) -> Seq<char> {
    Seq::new(
        s.len(),
        |i: int|
            if s[i] == from {
                to
            } else {
                s[i]
            },
    )
}

/// Whether every character of `s` is a decimal digit.
pub open spec fn all_digits(s: Seq<char>) -> bool {
    forall|i: int| 0 <= i < s.len() ==> is_digit(#[trigger] s[i])
}

/// The number that a sequence of decimal digits denotes.
pub open spec fn decimal_value(s: Seq<char>) -> int
    decreases s.len(),
{
    if s.len() == 0 {
        0
    } else {
        10 * decimal_value(s.drop_last()) + digit_value(s.last())
    }
}

/// The number that `s` denotes as an unsigned decimal number of at most
/// `max`: an optional `+`, then one or more digits. `None` if `s` is not of
/// that form or denotes a larger number.
pub open spec fn parse_unsigned(s: Seq<char>, max: int) -> Option<int> {
    let digits = if s.len() > 0 && s[0] == '+' {
        s.drop_first()
    } else {
        s
    };
    if digits.len() > 0 && all_digits(digits) && decimal_value(digits) <= max {
        Some(decimal_value(digits))
    } else {
        None
    }
}

/// The number that `s` denotes as a signed decimal number between `min` and
/// `max`: an optional `+` or `-`, then one or more digits. `None` if `s` is
/// not of that form or denotes a number out of that range.
pub open spec fn parse_signed(s: Seq<char>, min: int, max: int) -> Option<int> {
    let signed = s.len() > 0 && (s[0] == '+' || s[0] == '-');
    let digits = if signed {
        s.drop_first()
    } else {
        s
    };
    let magnitude = decimal_value(digits);
    let value = if s.len() > 0 && s[0] == '-' {
        -magnitude
    } else {
        magnitude
    };
    if digits.len() > 0 && all_digits(digits) && min <= value <= max {
        Some(value)
    } else {
        None
    }
}

/// Whether `s` begins with `prefix`.
pub open spec fn has_prefix(s: Seq<char>, prefix: Seq<char>) -> bool {
    s.len() >= prefix.len() && s.take(prefix.len() as int) == prefix
}

/// The characters of a string slice, in order.
pub fn chars_of(s: &str) -> (v: Vec<char>)
    ensures
        v@ == s@,
{
    let mut v: Vec<char> = Vec::new();
    for c in it: s.chars()
        invariant
            v@ == it.seq().take(it.index()),
    {
        v.push(c);
    }
    v
}

/// Whether `c` is white space.
pub fn char_is_whitespace(c: char) -> (b: bool)
    ensures
        b == is_whitespace(c),
{
    let u: u32 = c as u32;
    (0x09 <= u && u <= 0x0D) || u == 0x20 || u == 0x85 || u == 0xA0 || u == 0x1680 || (0x2000 <= u
        && u <= 0x200A) || u == 0x2028 || u == 0x2029 || u == 0x202F || u == 0x205F || u == 0x3000
}

/// `String::push` of std: the string afterwards is the string before with
/// the one character `c` added at its end.
#[verifier::external_body]
pub(crate) fn push_char(s: &mut String, c: char)
    ensures
        final(s)@ == old(s)@.push(c),
{
    s.push(c);
}

/// The string made of the characters `v`, in order.
pub fn string_of(v: &Vec<char>) -> (s: String)
    ensures
        s@ == v@,
{
    let mut s = String::new();
    let mut i: usize = 0;
    while i < v.len()
        invariant
            i <= v.len(),
            s@ == v@.take(i as int),
        decreases v.len() - i,
    {
        push_char(&mut s, v[i]);
        i += 1;
        assert(v@.take(i as int) =~= v@.take(i - 1).push(v@[i - 1]));
    }
    assert(v@.take(v.len() as int) =~= v@);
    s
}

/// The index of the first line feed is the one place that has a line feed
/// and none before it.
pub proof fn lemma_newline_pos(s: Seq<char>, m: int)
    requires
        0 <= m <= s.len(),
        forall|k: int| 0 <= k < m ==> s[k] != '\n',
        m < s.len() ==> s[m] == '\n',
    ensures
        newline_pos(s) == m,
    decreases m,
{
    if m > 0 {
        lemma_newline_pos(s.drop_first(), m - 1);
    }
}

/// Split a text into its lines.
pub fn split_lines(text: &Vec<char>) -> (out: Vec<Vec<char>>)
    ensures
        views(out@) == lines(text@),
{
    let n = text.len();
    let mut out: Vec<Vec<char>> = Vec::new();
    let mut start: usize = 0;
    assert(text@.skip(0) =~= text@);
    assert(views(out@) =~= Seq::<Seq<char>>::empty());
    while start < n
        invariant
            n == text.len(),
            start <= n,
            lines(text@) == views(out@).add(lines(text@.skip(start as int))),
        decreases n - start,
    {
        let ghost rest = text@.skip(start as int);
        let ghost before = views(out@);
        let mut cur: Vec<char> = Vec::new();
        let mut j: usize = start;
        while j < n && text[j] != '\n'
            invariant
                n == text.len(),
                start <= j <= n,
                cur@ == text@.subrange(start as int, j as int),
                forall|k: int| start <= k < j ==> text@[k] != '\n',
            decreases n - j,
        {
            cur.push(text[j]);
            j += 1;
            assert(text@.subrange(start as int, j as int) =~= text@.subrange(
                start as int,
                j - 1,
            ).push(text@[j - 1]));
        }
        proof {
            lemma_newline_pos(rest, j - start);
            assert(rest.take(j - start) =~= cur@);
        }
        if j < n {
            let len = cur.len();
            if len > 0 && cur[len - 1] == '\r' {
                cur.pop();
            }
            proof {
                assert(rest.skip(j - start + 1) =~= text@.skip(j + 1));
                assert(cur@ == strip_cr(rest.take(j - start)));
            }
            out.push(cur);
            start = j + 1;
        } else {
            proof {
                assert(rest.take(j - start) =~= rest);
                assert(lines(text@.skip(n as int)) =~= Seq::<Seq<char>>::empty());
            }
            out.push(cur);
            start = n;
        }
        proof {
            assert(views(out@) =~= before.push(cur@));
            assert(lines(rest) =~= seq![cur@].add(lines(text@.skip(start as int))));
            assert(before.add(lines(rest)) =~= before.push(cur@).add(
                lines(text@.skip(start as int)),
            ));
        }
    }
    assert(lines(text@.skip(start as int)) =~= Seq::<Seq<char>>::empty());
    assert(views(out@).add(Seq::<Seq<char>>::empty()) =~= views(out@));
    out
}

/// The length of the first word is the one place that ends a run without
/// white space.
pub proof fn lemma_word_len(s: Seq<char>, m: int)
    requires
        0 <= m <= s.len(),
        forall|k: int| 0 <= k < m ==> !is_whitespace(s[k]),
        m < s.len() ==> is_whitespace(s[m]),
    ensures
        word_len(s) == m,
    decreases m,
{
    if m > 0 {
        lemma_word_len(s.drop_first(), m - 1);
    }
}

/// Split the part of a line from index `from` on into its fields.
pub fn split_fields(line: &Vec<char>, from: usize) -> (out: Vec<Vec<char>>)
    requires
        from <= line.len(),
    ensures
        views(out@) == fields(line@.skip(from as int)),
{
    let n = line.len();
    let mut out: Vec<Vec<char>> = Vec::new();
    let mut i: usize = from;
    assert(views(out@) =~= Seq::<Seq<char>>::empty());
    while i < n
        invariant
            n == line.len(),
            from <= i <= n,
            fields(line@.skip(from as int)) == views(out@).add(fields(line@.skip(i as int))),
        decreases n - i,
    {
        let ghost rest = line@.skip(i as int);
        let ghost before = views(out@);
        if char_is_whitespace(line[i]) {
            assert(rest.drop_first() =~= line@.skip(i + 1));
            i += 1;
        } else {
            let mut word: Vec<char> = Vec::new();
            let mut j: usize = i;
            while j < n && !char_is_whitespace(line[j])
                invariant
                    n == line.len(),
                    i <= j <= n,
                    word@ == line@.subrange(i as int, j as int),
                    forall|k: int| i <= k < j ==> !is_whitespace(line@[k]),
                decreases n - j,
            {
                word.push(line[j]);
                j += 1;
                assert(line@.subrange(i as int, j as int) =~= line@.subrange(i as int, j - 1).push(
                    line@[j - 1],
                ));
            }
            proof {
                lemma_word_len(rest, j - i);
                assert(rest.take(j - i) =~= word@);
                assert(rest.skip(j - i) =~= line@.skip(j as int));
            }
            out.push(word);
            proof {
                assert(views(out@) =~= before.push(word@));
                assert(fields(rest) =~= seq![word@].add(fields(line@.skip(j as int))));
                assert(before.add(fields(rest)) =~= before.push(word@).add(
                    fields(line@.skip(j as int)),
                ));
            }
            i = j;
        }
    }
    assert(fields(line@.skip(i as int)) =~= Seq::<Seq<char>>::empty());
    assert(views(out@).add(Seq::<Seq<char>>::empty()) =~= views(out@));
    out
}

/// The length of `line` without the white space at its end and, before
/// that, without the run of `marker` at its end.
pub fn trimmed_len(line: &Vec<char>, marker: char) -> (e: usize)
    ensures
        e <= line.len(),
        line@.take(e as int) == trim_end_matches(trim_end(line@), marker),
{
    let mut e: usize = line.len();
    assert(line@.take(e as int) =~= line@);
    while e > 0 && char_is_whitespace(line[e - 1])
        invariant
            e <= line.len(),
            trim_end(line@) == trim_end(line@.take(e as int)),
        decreases e,
    {
        assert(line@.take(e as int).drop_last() =~= line@.take(e - 1));
        e -= 1;
    }
    assert(trim_end(line@) == line@.take(e as int));
    while e > 0 && line[e - 1] == marker
        invariant
            e <= line.len(),
            trim_end_matches(trim_end(line@), marker) == trim_end_matches(
                line@.take(e as int),
                marker,
            ),
        decreases e,
    {
        assert(line@.take(e as int).drop_last() =~= line@.take(e - 1));
        e -= 1;
    }
    e
}

/// The value of a sequence of digits is not negative.
pub proof fn lemma_decimal_value_nonnegative(s: Seq<char>)
    requires
        all_digits(s),
    ensures
        decimal_value(s) >= 0,
    decreases s.len(),
{
    if s.len() > 0 {
        assert(is_digit(s[s.len() - 1]));
        lemma_decimal_value_nonnegative(s.drop_last());
    }
}

/// A sequence of digits denotes at least what any of its prefixes denotes.
pub proof fn lemma_decimal_value_prefix(s: Seq<char>, k: int)
    requires
        all_digits(s),
        0 <= k <= s.len(),
    ensures
        decimal_value(s.take(k)) <= decimal_value(s),
    decreases s.len(),
{
    if k == s.len() {
        assert(s.take(k) =~= s);
    } else {
        assert(is_digit(s[s.len() - 1]));
        lemma_decimal_value_prefix(s.drop_last(), k);
        lemma_decimal_value_nonnegative(s.drop_last());
        assert(s.drop_last().take(k) =~= s.take(k));
    }
}

/// The number that the digits of `s` from index `from` on denote, if they
/// denote one that is at most `max`.
fn parse_digits(s: &Vec<char>, from: usize, max: u64) -> (r: Option<u64>)
    requires
        from <= s.len(),
        max >= 9,
    ensures
        r is Some <==> s.len() > from && all_digits(s@.skip(from as int)) && decimal_value(
            s@.skip(from as int),
        ) <= max,
        r is Some ==> r->0 as int == decimal_value(s@.skip(from as int)),
{
    let n = s.len();
    let ghost digits = s@.skip(from as int);
    if from == n {
        return None;
    }
    let mut acc: u64 = 0;
    let mut i: usize = from;
    while i < n
        invariant
            n == s.len(),
            from <= i <= n,
            digits == s@.skip(from as int),
            all_digits(digits.take(i - from)),
            acc == decimal_value(digits.take(i - from)),
            acc <= max,
            max >= 9,
        decreases n - i,
    {
        let u: u32 = s[i] as u32;
        let ghost next = digits.take(i - from + 1);
        proof {
            assert(next.drop_last() =~= digits.take(i - from));
            assert(next.last() == s@[i as int]);
        }
        if u < 0x30 || u > 0x39 {
            assert(!is_digit(digits[i - from]));
            return None;
        }
        let d: u64 = (u - 0x30) as u64;
        if acc > (max - d) / 10 {
            proof {
                if all_digits(digits) {
                    lemma_decimal_value_prefix(digits, i - from + 1);
                }
            }
            return None;
        }
        acc = acc * 10 + d;
        i += 1;
        proof {
            assert forall|k: int| 0 <= k < next.len() implies is_digit(#[trigger] next[k]) by {
                if k < next.len() - 1 {
                    assert(next[k] == digits.take(i - from - 1)[k]);
                }
            }
        }
    }
    assert(digits.take(n - from) =~= digits);
    Some(acc)
}

/// Read an unsigned decimal number that fits a `usize`.
pub fn parse_usize(s: &Vec<char>) -> (r: Option<usize>)
    ensures
        r is Some <==> parse_unsigned(s@, usize::MAX as int) is Some,
        r is Some ==> r->0 as int == parse_unsigned(s@, usize::MAX as int)->0,
{
    let from: usize = if s.len() > 0 && s[0] == '+' {
        1
    } else {
        0
    };
    assert(s@.skip(0) =~= s@);
    assert(s@.skip(1) =~= s@.drop_first());
    match parse_digits(s, from, usize::MAX as u64) {
        Some(v) => Some(v as usize),
        None => None,
    }
}

/// Read a signed decimal number that fits an `i32`.
pub fn parse_i32(s: &Vec<char>) -> (r: Option<i32>)
    ensures
        r is Some <==> parse_signed(s@, i32::MIN as int, i32::MAX as int) is Some,
        r is Some ==> r->0 as int == parse_signed(s@, i32::MIN as int, i32::MAX as int)->0,
{
    let negative = s.len() > 0 && s[0] == '-';
    let from: usize = if s.len() > 0 && (s[0] == '+' || s[0] == '-') {
        1
    } else {
        0
    };
    assert(s@.skip(0) =~= s@);
    assert(s@.skip(1) =~= s@.drop_first());
    match parse_digits(s, from, 0x8000_0000) {
        Some(v) => {
            if negative {
                Some((0 - (v as i64)) as i32)
            } else if v <= 0x7FFF_FFFF {
                Some(v as i32)
            } else {
                None
            }
        },
        None => {
            proof {
                let digits = s@.skip(from as int);
                if digits.len() > 0 && all_digits(digits) {
                    lemma_decimal_value_nonnegative(digits);
                }
            }
            None
        },
    }
}

} // verus!
