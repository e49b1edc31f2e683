//! Which components are found in the output of a device, told by how the output is made.

use vstd::prelude::*;

use crate::components::{
    admin_marks, around, component, has_named, is_marked, listener_marks, marked_are_added,
    with_components, with_components_near, with_marked, with_word,
};
use crate::text::{has_text, is_white, join, lines, trim_set, words, words_of_two_texts, CharSet};
use crate::text_laws::{
    is_solid, part_splits, part_stands_anywhere, solid_text_is_one_word, trimming_leaves_the_middle,
};

verus! {

/// Whether a text can be the name of a class: it is not empty, and made of letters and digits of
/// ASCII, dots, underscores and dollar signs.
pub open spec fn is_class_text(s: Seq<char>) -> bool {
    &&& s.len() > 0
    &&& forall|i: int|
        0 <= i < s.len() ==> {
            ||| 'a' <= #[trigger] s[i] <= 'z'
            ||| 'A' <= s[i] <= 'Z'
            ||| '0' <= s[i] <= '9'
            ||| s[i] == '.'
            ||| s[i] == '_'
            ||| s[i] == '$'
        }
}

/// A component that is written out, the package, a slash and a class, is the component.
pub proof fn written_component_is_one(package: Seq<char>, class: Seq<char>)
    requires
        is_class_text(class),
    ensures
        component(package, package + "/"@ + class) == Some(package + "/"@ + class),
{
    let token = package + "/"@ + class;
    let full = package + "/"@;
    assert(token.take(full.len() as int) =~= full);
    assert(token.skip(full.len() as int) =~= class);
}

/// A class below the package is a component of the package.
pub proof fn class_below_package_is_one(package: Seq<char>, rest: Seq<char>)
    requires
        rest.len() > 0,
        is_class_text(package + "."@ + rest),
    ensures
        component(package, package + "."@ + rest) == Some(
            package + "/"@ + (package + "."@ + rest),
        ),
{
    reveal_strlit(".");
    reveal_strlit("/");
    let token = package + "."@ + rest;
    let below = package + "."@;
    assert(token.take(below.len() as int) =~= below);
    let full = package + "/"@;
    assert(token[package.len() as int] == '.');
    assert(full[package.len() as int] == '/');
    assert(token.take(full.len() as int)[package.len() as int] == '.');
}

/// Nothing else names a component.
pub proof fn nothing_else_is_a_component(package: Seq<char>, token: Seq<char>)
    ensures
        component(package, token) matches Some(c) ==> {
            ||| exists|class: Seq<char>|
                is_class_text(class) && token == #[trigger] (package + "/"@ + class) && c == token
            ||| exists|rest: Seq<char>|
                rest.len() > 0 && is_class_text(token) && token == #[trigger] (package + "."@ + rest)
                    && c == package + "/"@ + token
        },
{
    reveal_strlit(".");
    reveal_strlit("/");
    let full = package + "/"@;
    let below = package + "."@;
    if let Some(c) = component(package, token) {
        let class = token.skip(full.len() as int);
        if token.len() >= full.len() && token.take(full.len() as int) == full && is_class_text(
            class,
        ) {
            assert(token =~= package + "/"@ + class);
        } else {
            let rest = token.skip(below.len() as int);
            assert(token =~= package + "."@ + rest);
        }
    }
}

/// Whether all characters of a text are of those that are taken off a component name.
pub open spec fn is_wrapping_text(s: Seq<char>) -> bool {
    forall|i: int| 0 <= i < s.len() ==> CharSet::Wrapping.holds(#[trigger] s[i])
}

/// Whether a text is a word that no wrapping character begins or ends.
pub open spec fn is_bare_word(s: Seq<char>) -> bool {
    &&& s.len() > 0
    &&& is_solid(s)
    &&& !CharSet::Wrapping.holds(s[0])
    &&& !CharSet::Wrapping.holds(s.last())
}

proof fn wrapped_is_solid(l: Seq<char>, token: Seq<char>, r: Seq<char>)
    requires
        is_wrapping_text(l),
        is_wrapping_text(r),
        is_bare_word(token),
    ensures
        is_solid(l + token + r),
        trim_set(l + token + r, CharSet::Wrapping) == token,
{
    trimming_leaves_the_middle(l, token, r, CharSet::Wrapping);
    let whole = l + token + r;
    assert forall|i: int| 0 <= i < whole.len() implies !is_white(#[trigger] whole[i]) by {
        if i < l.len() {
            assert(whole[i] == l[i]);
        } else if i < l.len() + token.len() {
            assert(whole[i] == token[i - l.len()]);
        } else {
            assert(whole[i] == r[i - l.len() - token.len()]);
        }
    }
}

/// A word, with brackets, quotes or separators around it or not, adds the component that it names
/// and that is not there yet.
pub proof fn wrapped_word_adds_its_component(
    package: Seq<char>,
    l: Seq<char>,
    token: Seq<char>,
    r: Seq<char>,
    found: Seq<Seq<char>>,
)
    requires
        is_wrapping_text(l),
        is_wrapping_text(r),
        is_bare_word(token),
    ensures
        with_components(package, l + token + r, found) == match component(package, token) {
            Some(c) => if found.contains(c) {
                found
            } else {
                found.push(c)
            },
            None => found,
        },
{
    let word = l + token + r;
    wrapped_is_solid(l, token, r);
    solid_text_is_one_word(word);
    let step = |found: Seq<Seq<char>>, word: Seq<char>| with_word(package, found, word);
    let one = seq![word];
    assert(one.drop_last() =~= Seq::<Seq<char>>::empty());
    assert(one.last() == word);
    reveal_with_fuel(Seq::fold_left, 2);
    assert(one.fold_left(found, step) == step(found, word));
}

/// An empty text adds nothing.
pub proof fn empty_text_adds_nothing(package: Seq<char>, found: Seq<Seq<char>>)
    ensures
        with_components(package, seq![], found) == found,
{
}

proof fn word_is_there(u: Seq<char>, w: Seq<char>, v: Seq<char>)
    requires
        w.len() > 0,
        is_solid(w),
        u.len() == 0 || is_white(u.last()),
        v.len() == 0 || is_white(v[0]),
    ensures
        words(u + w + v).contains(w),
{
    let tail = w + v;
    solid_text_is_one_word(w);
    if v.len() > 0 {
        words_of_two_texts(w, v[0], v.skip(1));
        assert(tail =~= w.push(v[0]) + v.skip(1));
        assert(words(tail) == seq![w] + words(v.skip(1)));
        assert(words(tail)[0] == w);
    } else {
        assert(tail =~= w);
        assert(words(tail)[0] == w);
    }
    let whole = u + w + v;
    if u.len() > 0 {
        words_of_two_texts(u.drop_last(), u.last(), tail);
        assert(whole =~= u.drop_last().push(u.last()) + tail);
        let n = words(u.drop_last()).len() as int;
        assert(words(whole)[n] == w);
    } else {
        assert(whole =~= tail);
    }
}

/// The words of lines that are joined are the words of the lines.
proof fn words_of_joined(parts: Seq<Seq<char>>)
    ensures
        forall|w: Seq<char>| #[trigger]
            words(join(parts, seq!['\n'])).contains(w) <==> exists|j: int|
                0 <= j < parts.len() && words(#[trigger] parts[j]).contains(w),
    decreases parts.len(),
{
    let sep = seq!['\n'];
    let whole = words(join(parts, sep));
    assert(is_white('\n'));
    if parts.len() >= 2 {
        let first = parts.drop_last();
        words_of_joined(first);
        assert(join(parts, sep) =~= join(first, sep).push('\n') + parts.last());
        words_of_two_texts(join(first, sep), '\n', parts.last());
        let (a, b) = (words(join(first, sep)), words(parts.last()));
        assert forall|w: Seq<char>| #[trigger] whole.contains(w) implies exists|j: int|
            0 <= j < parts.len() && words(#[trigger] parts[j]).contains(w) by {
            let k = choose|k: int| 0 <= k < whole.len() && whole[k] == w;
            if k < a.len() {
                assert(a[k] == w);
                assert(a.contains(w));
                let j = choose|j: int| 0 <= j < first.len() && words(#[trigger] first[j]).contains(w);
                assert(parts[j] == first[j]);
            } else {
                assert(b[k - a.len()] == w);
                assert(words(parts[parts.len() - 1]).contains(w));
            }
        }
        assert forall|w: Seq<char>|
            (exists|j: int| 0 <= j < parts.len() && words(#[trigger] parts[j]).contains(w))
            implies #[trigger] whole.contains(w) by {
            let j = choose|j: int| 0 <= j < parts.len() && words(#[trigger] parts[j]).contains(w);
            if j < first.len() {
                assert(first[j] == parts[j]);
                assert(a.contains(w));
                let k = choose|k: int| 0 <= k < a.len() && a[k] == w;
                assert(whole[k] == w);
            } else {
                let k = choose|k: int| 0 <= k < b.len() && b[k] == w;
                assert(whole[a.len() + k] == w);
            }
        }
    } else if parts.len() == 1 {
        assert forall|w: Seq<char>| whole.contains(w) implies exists|j: int|
            0 <= j < parts.len() && words(#[trigger] parts[j]).contains(w) by {
            assert(words(parts[0]).contains(w));
        }
    } else {
        assert(join(parts, sep).len() == 0);
        assert(whole == Seq::<Seq<char>>::empty());
    }
}

/// A line counts as marked wherever in it a mark stands, and a line without one does not.
pub proof fn mark_counts_anywhere(
    a: Seq<char>,
    b: Seq<char>,
    marks: Seq<Seq<char>>,
    m: int,
    line: Seq<char>,
)
    requires
        0 <= m < marks.len(),
    ensures
        is_marked(a + marks[m] + b, marks),
        is_marked(line, marks) ==> exists|k: int, c: Seq<char>, d: Seq<char>|
            0 <= k < marks.len() && line == #[trigger] (c + marks[k] + d),
{
    part_stands_anywhere(a, marks[m], b);
    assert(has_text(a + marks[m] + b, marks[m]));
    if is_marked(line, marks) {
        let k = choose|k: int| 0 <= k < marks.len() && has_text(line, #[trigger] marks[k]);
        let (c, d) = part_splits(line, marks[k]);
        assert(line == c + marks[k] + d);
    }
}

/// The marks of notification listeners and of device administrators.
pub proof fn marks_are()
    ensures
        listener_marks() == seq![
            "android.service.notification.NotificationListenerService"@,
            "android.permission.BIND_NOTIFICATION_LISTENER_SERVICE"@,
        ],
        admin_marks() == seq![
            "android.app.action.DEVICE_ADMIN_ENABLED"@,
            "android.permission.BIND_DEVICE_ADMIN"@,
            "android.app.device_admin"@,
        ],
{
}

proof fn around_holds(all: Seq<Seq<char>>, i: int, w: Seq<char>)
    requires
        0 <= i < all.len(),
    ensures
        words(around(all, i)).contains(w) <==> exists|j: int|
            0 <= j < all.len() && i - 6 <= j <= i + 6 && words(#[trigger] all[j]).contains(w),
{
    let from = if i >= 6 {
        i - 6
    } else {
        0
    };
    let to = if i + 7 <= all.len() {
        i + 7
    } else {
        all.len() as int
    };
    let parts = all.subrange(from, to);
    words_of_joined(parts);
    if words(around(all, i)).contains(w) {
        let j = choose|j: int| 0 <= j < parts.len() && words(#[trigger] parts[j]).contains(w);
        assert(parts[j] == all[from + j]);
    }
    if exists|j: int|
        0 <= j < all.len() && i - 6 <= j <= i + 6 && words(#[trigger] all[j]).contains(w) {
        let j = choose|j: int|
            0 <= j < all.len() && i - 6 <= j <= i + 6 && words(#[trigger] all[j]).contains(w);
        assert(parts[j - from] == all[j]);
    }
}

/// A component that a word names within six lines of a line with a mark, wherever in the line the
/// mark stands, is found.
pub proof fn component_near_mark_is_found(
    package: Seq<char>,
    text: Seq<char>,
    marks: Seq<Seq<char>>,
    found: Seq<Seq<char>>,
    m: int,
    i: int,
    j: int,
    a: Seq<char>,
    b: Seq<char>,
    u: Seq<char>,
    l: Seq<char>,
    token: Seq<char>,
    r: Seq<char>,
    v: Seq<char>,
)
    requires
        0 <= m < marks.len(),
        0 <= i < lines(text).len(),
        0 <= j < lines(text).len(),
        i - 6 <= j <= i + 6,
        lines(text)[i] == a + marks[m] + b,
        lines(text)[j] == u + (l + token + r) + v,
        u.len() == 0 || is_white(u.last()),
        v.len() == 0 || is_white(v[0]),
        is_wrapping_text(l),
        is_wrapping_text(r),
        is_bare_word(token),
        component(package, token) is Some,
    ensures
        with_components_near(package, text, marks, found).contains(component(package, token)->0),
{
    let all = lines(text);
    let word = l + token + r;
    mark_counts_anywhere(a, b, marks, m, all[i]);
    wrapped_is_solid(l, token, r);
    word_is_there(u, word, v);
    around_holds(all, i, word);
    assert(words(all[j]).contains(word));
    marked_are_added(package, all, marks, all.len(), found);
    let named = words(around(all, i));
    let k = choose|k: int| 0 <= k < named.len() && named[k] == word;
    assert(is_marked(all[i], marks));
    assert(has_named(package, named, with_components_near(package, text, marks, found)));
    assert(trim_set(named[k], CharSet::Wrapping) == token);
}

/// The component that is written out near a mark is found.
pub proof fn written_component_near_mark_is_found(
    package: Seq<char>,
    class: Seq<char>,
    text: Seq<char>,
    marks: Seq<Seq<char>>,
    found: Seq<Seq<char>>,
    m: int,
    i: int,
    j: int,
    a: Seq<char>,
    b: Seq<char>,
    u: Seq<char>,
    v: Seq<char>,
)
    requires
        is_class_text(class),
        is_bare_word(package + "/"@ + class),
        0 <= m < marks.len(),
        0 <= i < lines(text).len(),
        0 <= j < lines(text).len(),
        i - 6 <= j <= i + 6,
        lines(text)[i] == a + marks[m] + b,
        lines(text)[j] == u + (package + "/"@ + class) + v,
        u.len() == 0 || is_white(u.last()),
        v.len() == 0 || is_white(v[0]),
    ensures
        with_components_near(package, text, marks, found).contains(package + "/"@ + class),
{
    let token = package + "/"@ + class;
    let empty = Seq::<char>::empty();
    assert(empty + token + empty =~= token);
    written_component_is_one(package, class);
    component_near_mark_is_found(
        package,
        text,
        marks,
        found,
        m,
        i,
        j,
        a,
        b,
        u,
        empty,
        token,
        empty,
        v,
    );
}

/// Whether a component is named within six lines of a line in which a mark stands.
pub open spec fn is_near_mark(
    package: Seq<char>,
    all: Seq<Seq<char>>,
    marks: Seq<Seq<char>>,
    c: Seq<char>,
) -> bool {
    exists|i: int, j: int, w: Seq<char>|
        {
            &&& 0 <= i < all.len()
            &&& 0 <= j < all.len()
            &&& i - 6 <= j <= i + 6
            &&& is_marked(#[trigger] all[i], marks)
            &&& #[trigger] words(all[j]).contains(w)
            &&& component(package, trim_set(w, CharSet::Wrapping)) == Some(c)
        }
}

proof fn words_name_what_they_add(
    package: Seq<char>,
    all: Seq<Seq<char>>,
    found: Seq<Seq<char>>,
    c: Seq<char>,
)
    requires
        all.fold_left(
            found,
            |found: Seq<Seq<char>>, word: Seq<char>| with_word(package, found, word),
        ).contains(c),
        !found.contains(c),
    ensures
        exists|w: Seq<char>| #[trigger]
            all.contains(w) && component(package, trim_set(w, CharSet::Wrapping)) == Some(c),
    decreases all.len(),
{
    if all.len() > 0 {
        let step = |found: Seq<Seq<char>>, word: Seq<char>| with_word(package, found, word);
        let before = all.drop_last().fold_left(found, step);
        if before.contains(c) {
            words_name_what_they_add(package, all.drop_last(), found, c);
            let w = choose|w: Seq<char>| #[trigger]
                all.drop_last().contains(w) && component(package, trim_set(w, CharSet::Wrapping))
                    == Some(c);
            let k = choose|k: int| 0 <= k < all.drop_last().len() && all.drop_last()[k] == w;
            assert(all[k] == w);
            assert(all.contains(w));
        } else {
            let after = with_word(package, before, all.last());
            let k = choose|k: int| 0 <= k < after.len() && after[k] == c;
            if k < before.len() {
                assert(before[k] == c);
            }
            assert(all[all.len() - 1] == all.last());
            assert(all.contains(all.last()));
        }
    }
}

proof fn marked_lines_name_what_they_add(
    package: Seq<char>,
    all: Seq<Seq<char>>,
    marks: Seq<Seq<char>>,
    n: nat,
    found: Seq<Seq<char>>,
    c: Seq<char>,
)
    requires
        n <= all.len(),
        with_marked(package, all, marks, n, found).contains(c),
        !found.contains(c),
    ensures
        is_near_mark(package, all, marks, c),
    decreases n,
{
    if n > 0 {
        let before = with_marked(package, all, marks, (n - 1) as nat, found);
        if before.contains(c) {
            marked_lines_name_what_they_add(package, all, marks, (n - 1) as nat, found, c);
        } else {
            let i = n - 1;
            let near = words(around(all, i));
            words_name_what_they_add(package, near, before, c);
            let w = choose|w: Seq<char>| #[trigger]
                near.contains(w) && component(package, trim_set(w, CharSet::Wrapping)) == Some(c);
            around_holds(all, i, w);
            let j = choose|j: int|
                0 <= j < all.len() && i - 6 <= j <= i + 6 && words(#[trigger] all[j]).contains(w);
            assert(is_marked(all[i], marks) && words(all[j]).contains(w));
        }
    }
}

/// What is found was there before, or is named within six lines of a line with a mark.
pub proof fn only_components_near_marks_are_found(
    package: Seq<char>,
    text: Seq<char>,
    marks: Seq<Seq<char>>,
    found: Seq<Seq<char>>,
    c: Seq<char>,
)
    requires
        with_components_near(package, text, marks, found).contains(c),
        !found.contains(c),
    ensures
        is_near_mark(package, lines(text), marks, c),
{
    marked_lines_name_what_they_add(package, lines(text), marks, lines(text).len(), found, c);
}

}
