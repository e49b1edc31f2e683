//! Text as sequences of characters: the line, word and substring operations that the rest of the
//! library reads device output with.

use vstd::prelude::*;

verus! {

/// `String::push` appends the given character to the end of the string.
pub assume_specification[ String::push ](s: &mut String, c: char)
    ensures
        final(s)@ == old(s)@.push(c),
;

/// The characters of each string of a list.
pub open spec fn texts(v: Seq<String>) -> Seq<Seq<char>> {
    v.map_values(|s: String| s@)
}

/// The characters of each string slice of a list.
pub open spec fn strs(v: Seq<&str>) -> Seq<Seq<char>> {
    v.map_values(|s: &str| s@)
}

/// The characters of each character vector of a list.
pub open spec fn rows(v: Seq<Vec<char>>) -> Seq<Seq<char>> {
    v.map_values(|s: Vec<char>| s@)
}

/// Unicode's `White_Space` property.
pub open spec fn is_white(c: char) -> bool {
    ||| '\u{9}' <= c <= '\u{d}'
    ||| c == '\u{20}'
    ||| c == '\u{85}'
    ||| c == '\u{a0}'
    ||| c == '\u{1680}'
    ||| '\u{2000}' <= c <= '\u{200a}'
    ||| c == '\u{2028}'
    ||| c == '\u{2029}'
    ||| c == '\u{202f}'
    ||| c == '\u{205f}'
    ||| c == '\u{3000}'
}

/// The brackets, separators and quotes that surround component names in device output.
pub open spec fn is_wrapping(c: char) -> bool {
    ||| c == '{'
    ||| c == '}'
    ||| c == '['
    ||| c == ']'
    ||| c == '('
    ||| c == ')'
    ||| c == ','
    ||| c == ';'
    ||| c == ':'
    ||| c == '"'
    ||| c == '\''
}

/// A set of characters that can be trimmed off both ends of a text.
#[derive(Clone, Copy)]
pub enum CharSet {
    White,
    Wrapping,
}

impl CharSet {
    /// Whether the set holds `c`.
    pub open spec fn holds(self, c: char) -> bool {
        match self {
            CharSet::White => is_white(c),
            CharSet::Wrapping => is_wrapping(c),
        }
    }

    /// Tests whether the set holds `c`.
    pub fn has(self, c: char) -> (r: bool)
        ensures
            r == self.holds(c),
    {
        match self {
            CharSet::White => {
                ('\u{9}' <= c && c <= '\u{d}') || c == '\u{20}' || c == '\u{85}' || c == '\u{a0}'
                    || c == '\u{1680}' || ('\u{2000}' <= c && c <= '\u{200a}') || c == '\u{2028}'
                    || c == '\u{2029}' || c == '\u{202f}' || c == '\u{205f}' || c == '\u{3000}'
            },
            CharSet::Wrapping => {
                c == '{' || c == '}' || c == '[' || c == ']' || c == '(' || c == ')' || c == ','
                    || c == ';' || c == ':' || c == '"' || c == '\''
            },
        }
    }
}

/// What is left of `s` when the characters of `set` are taken off both ends.
pub open spec fn trim_set(s: Seq<char>, set: CharSet) -> Seq<char>
    decreases s.len(),
{
    if s.len() > 0 && set.holds(s[0]) {
        trim_set(s.skip(1), set)
    } else if s.len() > 0 && set.holds(s.last()) {
        trim_set(s.drop_last(), set)
    } else {
        s
    }
}

/// What is left of `s` without the white space at both ends.
pub open spec fn trim(s: Seq<char>) -> Seq<char> {
    trim_set(s, CharSet::White)
}

/// How many characters precede the first line feed; all of them when there is none.
pub open spec fn line_length(s: Seq<char>) -> int
    decreases s.len(),
{
    if s.len() == 0 || s[0] == '\n' {
        0
    } else {
        1 + line_length(s.skip(1))
    }
}

/// `s` without a carriage return at its end.
pub open spec fn drop_return(s: Seq<char>) -> Seq<char> {
    if s.len() > 0 && s.last() == '\r' {
        s.drop_last()
    } else {
        s
    }
}

/// The lines of a text. A line ends in a line feed, or in a carriage return and a line feed; the
/// last one may end with the text.
pub open spec fn lines(s: Seq<char>) -> Seq<Seq<char>>
    decreases s.len(),
{
    if s.len() == 0 {
        seq![]
    } else if line_length(s) < s.len() && line_length(s) >= 0 {
        seq![drop_return(s.take(line_length(s)))] + lines(s.skip(line_length(s) + 1))
    } else {
        seq![s]
    }
}

/// How many characters precede the first white one; all of them when there is none.
pub open spec fn word_length(s: Seq<char>) -> int
    decreases s.len(),
{
    if s.len() == 0 || is_white(s[0]) {
        0
    } else {
        1 + word_length(s.skip(1))
    }
}

/// The maximal runs of characters that are not white space.
pub open spec fn words(s: Seq<char>) -> Seq<Seq<char>>
    decreases s.len(),
{
    if s.len() == 0 {
        seq![]
    } else if is_white(s[0]) {
        words(s.skip(1))
    } else if 0 < word_length(s) <= s.len() {
        seq![s.take(word_length(s))] + words(s.skip(word_length(s)))
    } else {
        seq![]
    }
}

/// Whether `s` begins with `p`.
pub open spec fn starts_with(s: Seq<char>, p: Seq<char>) -> bool {
    p.len() <= s.len() && s.take(p.len() as int) == p
}

/// Whether `s` ends with `p`.
pub open spec fn ends_with(s: Seq<char>, p: Seq<char>) -> bool {
    p.len() <= s.len() && s.skip(s.len() - p.len()) == p
}

/// Whether `p` stands in `s` at position `i`.
pub open spec fn occurs_at(s: Seq<char>, p: Seq<char>, i: int) -> bool {
    0 <= i && i + p.len() <= s.len() && s.subrange(i, i + p.len()) == p
}

/// Whether `p` stands anywhere in `s`.
pub open spec fn has_text(s: Seq<char>, p: Seq<char>) -> bool {
    exists|i: int| occurs_at(s, p, i)
}

/// The texts of a list, one after the other, with `sep` between them.
pub open spec fn join(parts: Seq<Seq<char>>, sep: Seq<char>) -> Seq<char>
    decreases parts.len(),
{
    if parts.len() == 0 {
        seq![]
    } else if parts.len() == 1 {
        parts[0]
    } else {
        join(parts.drop_last(), sep) + sep + parts.last()
    }
}

/// An upper case ASCII letter as the lower case one; any other character as it is.
pub open spec fn lower_char(c: char) -> char {
    if 'A' <= c <= 'Z' {
        ((c as u8) + 32) as u8 as char
    } else {
        c
    }
}

/// `s` with its upper case ASCII letters in lower case.
pub open spec fn lower(s: Seq<char>) -> Seq<char> {
    s.map_values(|c: char| lower_char(c))
}

/// `s` with a space for each underscore.
pub open spec fn underscores_to_spaces(s: Seq<char>) -> Seq<char> {
    s.map_values(|c: char| if c == '_' { ' ' } else { c })
}

/// The order of texts by their characters, the first difference deciding.
pub open spec fn text_le(a: Seq<char>, b: Seq<char>) -> bool
    decreases a.len(),
{
    if a.len() == 0 {
        true
    } else if b.len() == 0 {
        false
    } else if a[0] == b[0] {
        text_le(a.skip(1), b.skip(1))
    } else {
        a[0] < b[0]
    }
}

/// Whether each text of a list is at most the next ones.
pub open spec fn sorted_texts(v: Seq<Seq<char>>) -> bool {
    forall|i: int, j: int| 0 <= i <= j < v.len() ==> text_le(#[trigger] v[i], #[trigger] v[j])
}

/// The characters of a string slice.
pub fn chars_of(s: &str) -> (r: Vec<char>)
    ensures
        r@ == s@,
{
    let mut out: Vec<char> = Vec::new();
    for c in it: s.chars()
        invariant
            out@ == s@.take(it.index()),
            it.seq() == s@,
    {
        assert(s@.take(it.index() + 1) =~= s@.take(it.index()).push(c));
        out.push(c);
    }
    assert(s@.take(s@.len() as int) =~= s@);
    out
}

/// The string made of the given characters.
pub fn text_of(v: &Vec<char>) -> (r: String)
    ensures
        r@ == v@,
{
    let mut out = String::new();
    let mut i: usize = 0;
    while i < v.len()
        invariant
            i <= v.len(),
            out@ == v@.take(i as int),
        decreases v.len() - i,
    {
        assert(v@.take(i + 1) =~= v@.take(i as int).push(v@[i as int]));
        out.push(v[i]);
        i = i + 1;
    }
    assert(v@.take(v@.len() as int) =~= v@);
    out
}

/// The characters from position `from` up to, not including, `to`.
pub fn slice(s: &Vec<char>, from: usize, to: usize) -> (r: Vec<char>)
    requires
        from <= to <= s.len(),
    ensures
        r@ == s@.subrange(from as int, to as int),
{
    let mut out: Vec<char> = Vec::new();
    let mut i: usize = from;
    while i < to
        invariant
            from <= i <= to <= s.len(),
            out@ == s@.subrange(from as int, i as int),
        decreases to - i,
    {
        assert(s@.subrange(from as int, i + 1) =~= s@.subrange(from as int, i as int).push(
            s@[i as int],
        ));
        out.push(s[i]);
        i = i + 1;
    }
    out
}

/// Whether `p` stands in `s` at position `from`.
pub fn matches_at(s: &Vec<char>, p: &Vec<char>, from: usize) -> (r: bool)
    requires
        from <= s.len(),
    ensures
        r == occurs_at(s@, p@, from as int),
{
    if p.len() > s.len() - from {
        return false;
    }
    let mut i: usize = 0;
    while i < p.len()
        invariant
            i <= p.len(),
            from + p.len() <= s.len(),
            forall|k: int| 0 <= k < i ==> p@[k] == s@[from + k],
        decreases p.len() - i,
    {
        if s[from + i] != p[i] {
            assert(s@.subrange(from as int, from + p.len())[i as int] != p@[i as int]);
            return false;
        }
        i = i + 1;
    }
    assert(s@.subrange(from as int, from + p.len()) =~= p@);
    true
}

/// Whether two texts hold the same characters.
pub fn same(a: &Vec<char>, b: &Vec<char>) -> (r: bool)
    ensures
        r == (a@ == b@),
{
    if a.len() != b.len() {
        return false;
    }
    let r = matches_at(a, b, 0);
    assert(a@.subrange(0, b@.len() as int) =~= a@);
    r
}

/// Whether `s` begins with `p`.
pub fn begins(s: &Vec<char>, p: &Vec<char>) -> (r: bool)
    ensures
        r == starts_with(s@, p@),
{
    assert(p@.len() <= s@.len() ==> s@.subrange(0, p@.len() as int) =~= s@.take(p@.len() as int));
    matches_at(s, p, 0)
}

/// Whether `s` ends with `p`.
pub fn finishes(s: &Vec<char>, p: &Vec<char>) -> (r: bool)
    ensures
        r == ends_with(s@, p@),
{
    if p.len() > s.len() {
        return false;
    }
    assert(s@.subrange(s@.len() - p@.len(), s@.len() as int) =~= s@.skip(s@.len() - p@.len()));
    matches_at(s, p, s.len() - p.len())
}

/// Whether `p` stands anywhere in `s`.
pub fn includes(s: &Vec<char>, p: &Vec<char>) -> (r: bool)
    ensures
        r == has_text(s@, p@),
{
    let mut i: usize = 0;
    while i < s.len()
        invariant
            i <= s.len(),
            forall|k: int| 0 <= k < i ==> !occurs_at(s@, p@, k),
        decreases s.len() - i,
    {
        if matches_at(s, p, i) {
            return true;
        }
        i = i + 1;
    }
    let r = matches_at(s, p, s.len());
    if r {
        assert(occurs_at(s@, p@, s@.len() as int));
    } else {
        assert forall|k: int| !occurs_at(s@, p@, k) by {
            if occurs_at(s@, p@, k) {
                assert(k < s@.len() || k == s@.len());
            }
        }
    }
    r
}

/// Whether a character stands in a text.
pub fn includes_char(s: &Vec<char>, c: char) -> (r: bool)
    ensures
        r == s@.contains(c),
{
    let mut i: usize = 0;
    while i < s.len()
        invariant
            i <= s.len(),
            forall|k: int| 0 <= k < i ==> s@[k] != c,
        decreases s.len() - i,
    {
        if s[i] == c {
            return true;
        }
        i = i + 1;
    }
    false
}

/// Takes the characters of `set` off both ends.
pub fn trimmed_by(s: &Vec<char>, set: CharSet) -> (r: Vec<char>)
    ensures
        r@ == trim_set(s@, set),
{
    let mut from: usize = 0;
    let mut to: usize = s.len();
    assert(s@.subrange(0, s@.len() as int) =~= s@);
    while from < to && set.has(s[from])
        invariant
            from <= to == s.len(),
            trim_set(s@, set) == trim_set(s@.subrange(from as int, to as int), set),
        decreases to - from,
    {
        assert(s@.subrange(from as int, to as int).skip(1) =~= s@.subrange(from + 1, to as int));
        from = from + 1;
    }
    while from < to && set.has(s[to - 1])
        invariant
            from <= to <= s.len(),
            from < to ==> !set.holds(s@[from as int]),
            trim_set(s@, set) == trim_set(s@.subrange(from as int, to as int), set),
        decreases to - from,
    {
        assert(s@.subrange(from as int, to as int).drop_last() =~= s@.subrange(
            from as int,
            to - 1,
        ));
        to = to - 1;
    }
    slice(s, from, to)
}

/// Takes the white space off both ends.
pub fn trimmed(s: &Vec<char>) -> (r: Vec<char>)
    ensures
        r@ == trim(s@),
{
    trimmed_by(s, CharSet::White)
}

/// Cuts a text into its lines.
pub fn split_lines(s: &Vec<char>) -> (r: Vec<Vec<char>>)
    ensures
        rows(r@) == lines(s@),
{
    let mut out: Vec<Vec<char>> = Vec::new();
    let mut start: usize = 0;
    assert(s@.skip(0) =~= s@);
    assert(rows(out@) + lines(s@) =~= lines(s@));
    while start < s.len()
        invariant
            start <= s.len(),
            lines(s@) == rows(out@) + lines(s@.skip(start as int)),
        decreases s.len() - start,
    {
        let mut end: usize = start;
        assert(s@.skip(start as int).skip(0) =~= s@.skip(start as int));
        while end < s.len() && s[end] != '\n'
            invariant
                start <= end <= s.len(),
                line_length(s@.skip(start as int)) == end - start + line_length(s@.skip(end as int)),
            decreases s.len() - end,
        {
            assert(s@.skip(end as int).skip(1) =~= s@.skip(end + 1));
            end = end + 1;
        }
        let ghost rest = s@.skip(start as int);
        let ghost before = rows(out@);
        if end < s.len() {
            assert(rest.take(end - start) =~= s@.subrange(start as int, end as int));
            let row = if end > start && s[end - 1] == '\r' {
                assert(s@.subrange(start as int, end as int).drop_last() =~= s@.subrange(
                    start as int,
                    end - 1,
                ));
                slice(s, start, end - 1)
            } else {
                slice(s, start, end)
            };
            out.push(row);
            assert(rows(out@) =~= before.push(row@));
            assert(rest.skip(end - start + 1) =~= s@.skip(end + 1));
            assert(before + (seq![row@] + lines(s@.skip(end + 1))) =~= rows(out@) + lines(
                s@.skip(end + 1),
            ));
            start = end + 1;
        } else {
            let row = slice(s, start, end);
            assert(row@ =~= rest);
            out.push(row);
            assert(rows(out@) =~= before.push(row@));
            assert(s@.skip(end as int).len() == 0);
            assert(lines(rest) =~= seq![rest]);
            assert(before + seq![rest] =~= rows(out@) + lines(s@.skip(end as int)));
            start = end;
        }
    }
    assert(rows(out@) + lines(s@.skip(start as int)) =~= rows(out@));
    out
}

/// Cuts a text into its words.
pub fn split_words(s: &Vec<char>) -> (r: Vec<Vec<char>>)
    ensures
        rows(r@) == words(s@),
{
    let mut out: Vec<Vec<char>> = Vec::new();
    let mut start: usize = 0;
    assert(s@.skip(0) =~= s@);
    assert(rows(out@) + words(s@) =~= words(s@));
    while start < s.len()
        invariant
            start <= s.len(),
            words(s@) == rows(out@) + words(s@.skip(start as int)),
        decreases s.len() - start,
    {
        let ghost rest = s@.skip(start as int);
        if CharSet::White.has(s[start]) {
            assert(rest.skip(1) =~= s@.skip(start + 1));
            start = start + 1;
        } else {
            let mut end: usize = start;
            while end < s.len() && !CharSet::White.has(s[end])
                invariant
                    start <= end <= s.len(),
                    start < s.len(),
                    !is_white(s@[start as int]),
                    word_length(s@.skip(start as int)) == end - start + word_length(
                        s@.skip(end as int),
                    ),
                decreases s.len() - end,
            {
                assert(s@.skip(end as int).skip(1) =~= s@.skip(end + 1));
                end = end + 1;
            }
            let ghost before = rows(out@);
            let row = slice(s, start, end);
            assert(rest.take(end - start) =~= row@);
            out.push(row);
            assert(rows(out@) =~= before.push(row@));
            assert(rest.skip(end - start) =~= s@.skip(end as int));
            assert(before + (seq![row@] + words(s@.skip(end as int))) =~= rows(out@) + words(
                s@.skip(end as int),
            ));
            start = end;
        }
    }
    assert(rows(out@) + words(s@.skip(start as int)) =~= rows(out@));
    out
}

/// The texts of a list, one after the other, with `sep` between them.
pub fn joined(parts: &Vec<Vec<char>>, sep: char) -> (r: Vec<char>)
    ensures
        r@ == join(rows(parts@), seq![sep]),
{
    let mut out: Vec<char> = Vec::new();
    let mut i: usize = 0;
    assert(rows(parts@).take(0) =~= seq![]);
    while i < parts.len()
        invariant
            i <= parts.len(),
            out@ == join(rows(parts@).take(i as int), seq![sep]),
        decreases parts.len() - i,
    {
        let ghost all = rows(parts@);
        assert(all.take(i + 1).drop_last() =~= all.take(i as int));
        if i > 0 {
            out.push(sep);
        }
        let ghost before = out@;
        let mut k: usize = 0;
        while k < parts[i].len()
            invariant
                i < parts.len(),
                k <= parts[i as int].len(),
                out@ == before + parts[i as int]@.take(k as int),
            decreases parts[i as int].len() - k,
        {
            assert(parts[i as int]@.take(k + 1) =~= parts[i as int]@.take(k as int).push(
                parts[i as int]@[k as int],
            ));
            out.push(parts[i][k]);
            k = k + 1;
        }
        assert(parts[i as int]@.take(k as int) =~= parts[i as int]@);
        assert(out@ =~= join(all.take(i + 1), seq![sep]));
        i = i + 1;
    }
    assert(rows(parts@).take(parts@.len() as int) =~= rows(parts@));
    out
}

/// Puts the upper case ASCII letters in lower case.
pub fn lowered(s: &Vec<char>) -> (r: Vec<char>)
    ensures
        r@ == lower(s@),
{
    let mut out: Vec<char> = Vec::new();
    let mut i: usize = 0;
    while i < s.len()
        invariant
            i <= s.len(),
            out@ == lower(s@).take(i as int),
        decreases s.len() - i,
    {
        let c: char = s[i];
        let d: char = if 'A' <= c && c <= 'Z' {
            ((c as u8) + 32) as char
        } else {
            c
        };
        assert(lower(s@).take(i + 1) =~= lower(s@).take(i as int).push(lower(s@)[i as int]));
        out.push(d);
        i = i + 1;
    }
    assert(lower(s@).take(s@.len() as int) =~= lower(s@));
    out
}

/// Puts a space in place of each underscore.
pub fn spaced(s: &Vec<char>) -> (r: Vec<char>)
    ensures
        r@ == underscores_to_spaces(s@),
{
    let mut out: Vec<char> = Vec::new();
    let mut i: usize = 0;
    while i < s.len()
        invariant
            i <= s.len(),
            out@ == underscores_to_spaces(s@).take(i as int),
        decreases s.len() - i,
    {
        let c: char = s[i];
        assert(underscores_to_spaces(s@).take(i + 1) =~= underscores_to_spaces(s@).take(
            i as int,
        ).push(underscores_to_spaces(s@)[i as int]));
        out.push(
            if c == '_' {
                ' '
            } else {
                c
            },
        );
        i = i + 1;
    }
    assert(underscores_to_spaces(s@).take(s@.len() as int) =~= underscores_to_spaces(s@));
    out
}

/// `a` followed by `b`.
pub fn concat2(a: &str, b: &str) -> (r: String)
    ensures
        r@ == a@ + b@,
{
    let mut out = String::new();
    out.append(a);
    out.append(b);
    assert(out@ =~= a@ + b@);
    out
}

/// `a` followed by `b` and `c`.
pub fn concat3(a: &str, b: &str, c: &str) -> (r: String)
    ensures
        r@ == a@ + b@ + c@,
{
    let mut out = concat2(a, b);
    out.append(c);
    out
}

/// `a` followed by `b`, `c` and `d`.
pub fn concat4(a: &str, b: &str, c: &str, d: &str) -> (r: String)
    ensures
        r@ == a@ + b@ + c@ + d@,
{
    let mut out = concat3(a, b, c);
    out.append(d);
    out
}

/// The strings of a list of string slices.
pub fn owned(v: &[&str]) -> (r: Vec<String>)
    ensures
        texts(r@) == strs(v@),
{
    let mut out: Vec<String> = Vec::new();
    let mut i: usize = 0;
    while i < v.len()
        invariant
            i <= v.len(),
            texts(out@) == strs(v@).take(i as int),
        decreases v.len() - i,
    {
        let ghost before = texts(out@);
        out.push(v[i].to_owned());
        assert(texts(out@) =~= before.push(v@[i as int]@));
        assert(strs(v@).take(i + 1) =~= strs(v@).take(i as int).push(strs(v@)[i as int]));
        i = i + 1;
    }
    assert(strs(v@).take(v@.len() as int) =~= strs(v@));
    out
}

/// The strings made of the texts of a list.
pub fn texts_of(v: &Vec<Vec<char>>) -> (r: Vec<String>)
    ensures
        texts(r@) == rows(v@),
{
    let mut out: Vec<String> = Vec::new();
    let mut i: usize = 0;
    while i < v.len()
        invariant
            i <= v.len(),
            texts(out@) == rows(v@).take(i as int),
        decreases v.len() - i,
    {
        let ghost before = texts(out@);
        out.push(text_of(&v[i]));
        assert(texts(out@) =~= before.push(v@[i as int]@));
        assert(rows(v@).take(i + 1) =~= rows(v@).take(i as int).push(rows(v@)[i as int]));
        i = i + 1;
    }
    assert(rows(v@).take(v@.len() as int) =~= rows(v@));
    out
}

/// The same strings in a new list.
pub fn copies(v: &Vec<String>) -> (r: Vec<String>)
    ensures
        texts(r@) == texts(v@),
{
    let mut out: Vec<String> = Vec::new();
    let mut i: usize = 0;
    while i < v.len()
        invariant
            i <= v.len(),
            texts(out@) == texts(v@).take(i as int),
        decreases v.len() - i,
    {
        let ghost before = texts(out@);
        out.push(v[i].clone());
        assert(texts(out@) =~= before.push(v@[i as int]@));
        assert(texts(v@).take(i + 1) =~= texts(v@).take(i as int).push(texts(v@)[i as int]));
        i = i + 1;
    }
    assert(texts(v@).take(v@.len() as int) =~= texts(v@));
    out
}

/// Whether `a` comes before `b` or is `b`, in the order of their characters.
pub fn at_most(a: &Vec<char>, b: &Vec<char>) -> (r: bool)
    ensures
        r == text_le(a@, b@),
{
    let mut i: usize = 0;
    assert(a@.skip(0) =~= a@);
    assert(b@.skip(0) =~= b@);
    while i < a.len() && i < b.len() && a[i] == b[i]
        invariant
            i <= a.len(),
            i <= b.len(),
            text_le(a@, b@) == text_le(a@.skip(i as int), b@.skip(i as int)),
        decreases a.len() - i,
    {
        assert(a@.skip(i as int).skip(1) =~= a@.skip(i + 1));
        assert(b@.skip(i as int).skip(1) =~= b@.skip(i + 1));
        i = i + 1;
    }
    if i == a.len() {
        true
    } else if i == b.len() {
        false
    } else {
        a[i] < b[i]
    }
}

/// Of two texts one is at most the other.
pub proof fn lemma_text_le_total(a: Seq<char>, b: Seq<char>)
    ensures
        text_le(a, b) || text_le(b, a),
    decreases a.len(),
{
    if a.len() > 0 && b.len() > 0 && a[0] == b[0] {
        lemma_text_le_total(a.skip(1), b.skip(1));
    }
}

/// The order of texts is transitive.
pub proof fn lemma_text_le_transitive(a: Seq<char>, b: Seq<char>, c: Seq<char>)
    requires
        text_le(a, b),
        text_le(b, c),
    ensures
        text_le(a, c),
    decreases a.len(),
{
    if a.len() > 0 && a[0] == b[0] && b[0] == c[0] {
        lemma_text_le_transitive(a.skip(1), b.skip(1), c.skip(1));
    }
}

/// Puts the texts of a list in ascending order.
pub fn sort_rows(v: Vec<Vec<char>>) -> (r: Vec<Vec<char>>)
    ensures
        sorted_texts(rows(r@)),
        rows(r@).to_multiset() == rows(v@).to_multiset(),
{
    let mut out: Vec<Vec<char>> = Vec::new();
    let mut i: usize = 0;
    assert(rows(out@) =~= rows(v@).take(0));
    while i < v.len()
        invariant
            i <= v.len(),
            sorted_texts(rows(out@)),
            rows(out@).to_multiset() == rows(v@).take(i as int).to_multiset(),
        decreases v.len() - i,
    {
        let mut at: usize = 0;
        let ghost before = rows(out@);
        let ghost item = v@[i as int]@;
        while at < out.len() && at_most(&out[at], &v[i])
            invariant
                i < v.len(),
                item == v@[i as int]@,
                before == rows(out@),
                at <= out.len(),
                forall|k: int| 0 <= k < at ==> text_le(#[trigger] before[k], item),
            decreases out.len() - at,
        {
            assert(before[at as int] == out@[at as int]@);
            at = at + 1;
        }
        out.insert(at, slice(&v[i], 0, v[i].len()));
        proof {
            assert(item.subrange(0, item.len() as int) =~= item);
            let after = rows(out@);
            assert(after =~= before.insert(at as int, item));
            if at < before.len() {
                lemma_text_le_total(before[at as int], item);
            }
            assert forall|a: int, b: int| 0 <= a <= b < after.len() implies text_le(
                #[trigger] after[a],
                #[trigger] after[b],
            ) by {
                if a == b {
                    lemma_text_le_total(after[a], after[a]);
                } else if a == at {
                    assert(after[b] == before[b - 1]);
                    assert(text_le(before[at as int], before[b - 1]));
                    lemma_text_le_transitive(item, before[at as int], before[b - 1]);
                } else if b == at {
                    assert(after[a] == before[a]);
                } else {
                    let x = if a < at {
                        a
                    } else {
                        a - 1
                    };
                    let y = if b < at {
                        b
                    } else {
                        b - 1
                    };
                    assert(after[a] == before[x] && after[b] == before[y]);
                }
            }
            broadcast use vstd::seq_lib::group_to_multiset_ensures;

            assert(rows(v@).take(i + 1) =~= rows(v@).take(i as int).push(item));
            assert(after.to_multiset() =~= before.to_multiset().insert(item));
        }
        i = i + 1;
    }
    assert(rows(v@).take(v@.len() as int) =~= rows(v@));
    out
}

proof fn word_ends_at_white(a: Seq<char>, white: char, b: Seq<char>)
    requires
        is_white(white),
    ensures
        word_length(a.push(white) + b) == word_length(a),
        0 <= word_length(a) <= a.len(),
    decreases a.len(),
{
    let whole = a.push(white) + b;
    if a.len() > 0 {
        assert(whole[0] == a[0]);
        assert(whole.skip(1) =~= a.skip(1).push(white) + b);
        word_ends_at_white(a.skip(1), white, b);
    } else {
        assert(whole[0] == white);
    }
}

/// The words of two texts with white space between them are those of the one and then those of the
/// other.
pub proof fn words_of_two_texts(a: Seq<char>, white: char, b: Seq<char>)
    requires
        is_white(white),
    ensures
        words(a.push(white) + b) == words(a) + words(b),
    decreases a.len(),
{
    let whole = a.push(white) + b;
    if a.len() == 0 {
        assert(whole[0] == white);
        assert(whole.skip(1) =~= b);
        assert(words(a) + words(b) =~= words(b));
    } else if is_white(a[0]) {
        assert(whole[0] == a[0]);
        assert(whole.skip(1) =~= a.skip(1).push(white) + b);
        words_of_two_texts(a.skip(1), white, b);
    } else {
        assert(whole[0] == a[0]);
        word_ends_at_white(a, white, b);
        word_ends_at_white(a.skip(1), white, b);
        let n = word_length(a);
        assert(whole.take(n) =~= a.take(n));
        assert(whole.skip(n) =~= a.skip(n).push(white) + b);
        words_of_two_texts(a.skip(n), white, b);
        assert(words(whole) =~= words(a) + words(b));
    }
}

}
