//! What lines, words, parts and order of texts are, told by how texts are put together.

use vstd::prelude::*;

use crate::text::{
    ends_with, has_text, is_white, join, line_length, lines, lower, occurs_at, sorted_texts,
    starts_with, text_le, trim, trim_set, underscores_to_spaces, word_length, words, CharSet,
};

verus! {

/// Whether all characters of a text are white space.
pub open spec fn is_blank(s: Seq<char>) -> bool {
    forall|i: int| 0 <= i < s.len() ==> is_white(#[trigger] s[i])
}

/// Whether no character of a text is white space.
pub open spec fn is_solid(s: Seq<char>) -> bool {
    forall|i: int| 0 <= i < s.len() ==> !is_white(#[trigger] s[i])
}

/// A text that is made of something, a part and something more has the part, wherever it stands.
pub proof fn part_stands_anywhere(a: Seq<char>, part: Seq<char>, b: Seq<char>)
    ensures
        has_text(a + part + b, part),
{
    let whole = a + part + b;
    assert(whole.subrange(a.len() as int, (a.len() + part.len()) as int) =~= part);
    assert(occurs_at(whole, part, a.len() as int));
}

/// A text that has a part is made of something, the part, and something more.
pub proof fn part_splits(s: Seq<char>, part: Seq<char>) -> (r: (Seq<char>, Seq<char>))
    requires
        has_text(s, part),
    ensures
        s == r.0 + part + r.1,
{
    let i = choose|i: int| occurs_at(s, part, i);
    let r = (s.take(i), s.skip(i + part.len()));
    assert(s =~= r.0 + part + r.1) by {
        assert forall|k: int| i <= k < i + part.len() implies s[k] == part[k - i] by {
            assert(s.subrange(i, i + part.len())[k - i] == s[k]);
        }
    }
    r
}

/// A text begins with the text that it was made to begin with, and ends with the one that it was
/// made to end with; and where it begins or ends with one, it is made so.
pub proof fn beginnings_and_ends(a: Seq<char>, b: Seq<char>, s: Seq<char>, p: Seq<char>)
    ensures
        starts_with(a + b, a),
        ends_with(a + b, b),
        starts_with(s, p) ==> s == p + s.skip(p.len() as int),
        ends_with(s, p) ==> s == s.take(s.len() - p.len()) + p,
{
    assert((a + b).take(a.len() as int) =~= a);
    assert((a + b).skip((a + b).len() - b.len()) =~= b);
    if starts_with(s, p) {
        assert(s =~= s.take(p.len() as int) + s.skip(p.len() as int));
    }
    if ends_with(s, p) {
        assert(s =~= s.take(s.len() - p.len()) + s.skip(s.len() - p.len()));
    }
}

proof fn line_ends_at_feed(a: Seq<char>, b: Seq<char>)
    requires
        !a.contains('\n'),
    ensures
        line_length(a) == a.len(),
        line_length(a.push('\n') + b) == a.len(),
    decreases a.len(),
{
    let whole = a.push('\n') + b;
    if a.len() > 0 {
        assert(a.contains(a[0]));
        assert(whole[0] == a[0]);
        assert(whole.skip(1) =~= a.skip(1).push('\n') + b);
        assert(!a.skip(1).contains('\n')) by {
            if a.skip(1).contains('\n') {
                let k = choose|k: int| 0 <= k < a.skip(1).len() && a.skip(1)[k] == '\n';
                assert(a[k + 1] == '\n');
            }
        }
        line_ends_at_feed(a.skip(1), b);
    } else {
        assert(whole[0] == '\n');
    }
}

/// What stands ahead of the first line feed of a text is its first line, without the carriage
/// return that may stand right before the line feed; the other lines are those of the rest.
pub proof fn first_line_ends_at_feed(a: Seq<char>, b: Seq<char>)
    requires
        !a.contains('\n'),
    ensures
        a.len() == 0 || a.last() != '\r' ==> lines(a.push('\n') + b) == seq![a] + lines(b),
        lines(a.push('\r').push('\n') + b) == seq![a] + lines(b),
{
    let whole = a.push('\n') + b;
    line_ends_at_feed(a, b);
    assert(whole.take(a.len() as int) =~= a);
    assert(whole.skip((a.len() + 1) as int) =~= b);
    let c = a.push('\r');
    let other = c.push('\n') + b;
    assert(!c.contains('\n')) by {
        if c.contains('\n') {
            let k = choose|k: int| 0 <= k < c.len() && c[k] == '\n';
            assert(a[k] == '\n');
        }
    }
    line_ends_at_feed(c, b);
    assert(other.take(c.len() as int) =~= c);
    assert(other.skip((c.len() + 1) as int) =~= b);
    assert(c.drop_last() =~= a);
}

/// A text without a line feed is one line as it stands, and no line if it is empty.
pub proof fn text_without_feed_is_one_line(a: Seq<char>)
    requires
        !a.contains('\n'),
    ensures
        a.len() > 0 ==> lines(a) == seq![a],
        a.len() == 0 ==> lines(a) == Seq::<Seq<char>>::empty(),
{
    line_ends_at_feed(a, seq![]);
}

proof fn solid_word_length(w: Seq<char>)
    requires
        is_solid(w),
    ensures
        word_length(w) == w.len(),
    decreases w.len(),
{
    if w.len() > 0 {
        solid_word_length(w.skip(1));
    }
}

/// A text without white space is one word as it stands, and no word if it is empty.
pub proof fn solid_text_is_one_word(w: Seq<char>)
    requires
        is_solid(w),
    ensures
        w.len() > 0 ==> words(w) == seq![w],
        w.len() == 0 ==> words(w) == Seq::<Seq<char>>::empty(),
{
    solid_word_length(w);
    if w.len() > 0 {
        assert(w.take(w.len() as int) =~= w);
        let rest = w.skip(w.len() as int);
        assert(rest.len() == 0);
        assert(words(rest) == Seq::<Seq<char>>::empty());
        assert(words(w) =~= seq![w]);
    }
}

proof fn trims_left(l: Seq<char>, s: Seq<char>, set: CharSet)
    requires
        forall|i: int| 0 <= i < l.len() ==> set.holds(#[trigger] l[i]),
    ensures
        trim_set(l + s, set) == trim_set(s, set),
    decreases l.len(),
{
    if l.len() > 0 {
        assert((l + s)[0] == l[0]);
        assert((l + s).skip(1) =~= l.skip(1) + s);
        trims_left(l.skip(1), s, set);
    } else {
        assert(l + s =~= s);
    }
}

proof fn trims_right(s: Seq<char>, r: Seq<char>, set: CharSet)
    requires
        s.len() > 0,
        !set.holds(s[0]),
        !set.holds(s.last()),
        forall|i: int| 0 <= i < r.len() ==> set.holds(#[trigger] r[i]),
    ensures
        trim_set(s + r, set) == s,
    decreases r.len(),
{
    assert((s + r)[0] == s[0]);
    if r.len() > 0 {
        assert((s + r).last() == r.last());
        assert((s + r).drop_last() =~= s + r.drop_last());
        trims_right(s, r.drop_last(), set);
    } else {
        assert(s + r =~= s);
    }
}

/// Trimming a text takes off what the set holds at both ends, and nothing else.
pub proof fn trimming_leaves_the_middle(l: Seq<char>, s: Seq<char>, r: Seq<char>, set: CharSet)
    requires
        forall|i: int| 0 <= i < l.len() ==> set.holds(#[trigger] l[i]),
        forall|i: int| 0 <= i < r.len() ==> set.holds(#[trigger] r[i]),
        s.len() > 0 ==> !set.holds(s[0]) && !set.holds(s.last()),
    ensures
        trim_set(l + s + r, set) == s,
{
    assert(l + s + r =~= l + (s + r));
    trims_left(l, s + r, set);
    if s.len() > 0 {
        trims_right(s, r, set);
    } else {
        assert(s + r =~= r + s);
        trims_left(r, s, set);
        assert(s =~= seq![]);
    }
}

/// White space around a text goes, and the text stays.
pub proof fn white_space_around_goes(l: Seq<char>, s: Seq<char>, r: Seq<char>)
    requires
        is_blank(l),
        is_blank(r),
        s.len() > 0 ==> !is_white(s[0]) && !is_white(s.last()),
    ensures
        trim(l + s + r) == s,
{
    trimming_leaves_the_middle(l, s, r, CharSet::White);
}

/// The characters that are taken off component names are the brackets, the comma, the semicolon,
/// the colon and the quotes.
pub proof fn wrapping_is(c: char)
    ensures
        CharSet::Wrapping.holds(c) <==> seq![
            '{',
            '}',
            '[',
            ']',
            '(',
            ')',
            ',',
            ';',
            ':',
            '"',
            '\'',
        ].contains(c),
{
    let all = seq!['{', '}', '[', ']', '(', ')', ',', ';', ':', '"', '\''];
    assert(all[0] == '{' && all[1] == '}' && all[2] == '[' && all[3] == ']' && all[4] == '('
        && all[5] == ')' && all[6] == ',' && all[7] == ';' && all[8] == ':' && all[9] == '"'
        && all[10] == '\'');
}

/// Two lists of texts are joined by joining each and putting the separator between them.
pub proof fn joined_lists(a: Seq<Seq<char>>, b: Seq<Seq<char>>, sep: Seq<char>)
    ensures
        a.len() > 0 && b.len() > 0 ==> join(a + b, sep) == join(a, sep) + sep + join(b, sep),
        b.len() == 1 ==> join(b, sep) == b[0],
        b.len() == 0 ==> join(b, sep) == Seq::<char>::empty(),
    decreases b.len(),
{
    if a.len() > 0 && b.len() > 0 {
        assert((a + b).last() == b.last());
        if b.len() == 1 {
            assert((a + b).drop_last() =~= a);
        } else {
            assert((a + b).drop_last() =~= a + b.drop_last());
            joined_lists(a, b.drop_last(), sep);
            assert(join(a, sep) + sep + join(b.drop_last(), sep) + sep + b.last() =~= join(a, sep)
                + sep + (join(b.drop_last(), sep) + sep + b.last()));
        }
    }
}

/// Lower case changes the letters from A to Z, each to the one of its place, and nothing else.
pub proof fn lower_case_changes_ascii_letters(s: Seq<char>, i: int)
    requires
        0 <= i < s.len(),
    ensures
        lower(s).len() == s.len(),
        'A' <= s[i] <= 'Z' ==> lower(s)[i] as int - 'a' as int == s[i] as int - 'A' as int,
        !('A' <= s[i] <= 'Z') ==> lower(s)[i] == s[i],
{
}

/// Underscores become spaces, and nothing else changes.
pub proof fn underscores_only_become_spaces(s: Seq<char>, i: int)
    requires
        0 <= i < s.len(),
    ensures
        underscores_to_spaces(s).len() == s.len(),
        s[i] == '_' ==> underscores_to_spaces(s)[i] == ' ',
        s[i] != '_' ==> underscores_to_spaces(s)[i] == s[i],
{
}

/// Texts are ordered by the first character in which they differ, and one that goes on behind
/// another comes after it.
pub proof fn order_goes_by_first_difference(
    p: Seq<char>,
    x: char,
    a: Seq<char>,
    y: char,
    b: Seq<char>,
)
    ensures
        x < y ==> text_le(p.push(x) + a, p.push(y) + b),
        x > y ==> !text_le(p.push(x) + a, p.push(y) + b),
        text_le(p, p + b),
        b.len() > 0 ==> !text_le(p + b, p),
    decreases p.len(),
{
    let (s, t) = (p.push(x) + a, p.push(y) + b);
    if p.len() > 0 {
        order_goes_by_first_difference(p.skip(1), x, a, y, b);
        assert(s.skip(1) =~= p.skip(1).push(x) + a);
        assert(t.skip(1) =~= p.skip(1).push(y) + b);
        assert((p + b).skip(1) =~= p.skip(1) + b);
        assert(s[0] == p[0] && t[0] == p[0] && (p + b)[0] == p[0]);
    } else {
        assert(s[0] == x && t[0] == y);
        assert(p + b =~= b);
    }
}

/// A list is sorted where no text stands ahead of one that comes before it.
pub proof fn sorted_lists_are(v: Seq<Seq<char>>)
    ensures
        sorted_texts(v) <==> forall|i: int, j: int|
            0 <= i < j < v.len() ==> text_le(#[trigger] v[i], #[trigger] v[j]),
{
    assert forall|s: Seq<char>| #[trigger] text_le(s, s) by {
        order_goes_by_first_difference(s, 'a', seq![], 'a', seq![]);
        assert(s + Seq::<char>::empty() =~= s);
    }
}

}
