//! What is read from lists of packages and from descriptions of them, told by their lines.

use vstd::prelude::*;

use crate::packages::{
    after_package, is_constant_char, is_package_char, is_package_name, is_permission_name,
    listed_packages, lists_package, permission_of, permissions_in, position, requested_section,
    trimmed_lines, uninstallable, with_permission,
};
use crate::text::{ends_with, is_white, lines, starts_with, trim};
use crate::text_laws::{
    beginnings_and_ends, first_line_ends_at_feed, is_blank, text_without_feed_is_one_line,
    white_space_around_goes,
};

verus! {

/// A letter or digit of ASCII, a dot or an underscore.
pub open spec fn is_name_letter(c: char) -> bool {
    ||| 'a' <= c <= 'z'
    ||| 'A' <= c <= 'Z'
    ||| '0' <= c <= '9'
    ||| c == '.'
    ||| c == '_'
}

/// A package name is safe where it is made of letters, digits, dots and underscores and has a dot.
pub proof fn safe_package_names_are(name: Seq<char>)
    ensures
        is_package_name(name) <==> {
            &&& exists|k: int| 0 <= k < name.len() && #[trigger] name[k] == '.'
            &&& forall|i: int| 0 <= i < name.len() ==> is_name_letter(#[trigger] name[i])
        },
{
    if name.contains('.') {
        let k = choose|k: int| 0 <= k < name.len() && name[k] == '.';
        assert(name[k] == '.');
    }
}

proof fn count_after_package(all: Seq<Seq<char>>, p: Seq<char>)
    ensures
        after_package(all).to_multiset().count(p) == all.to_multiset().count("package:"@ + p),
    decreases all.len(),
{
    broadcast use vstd::seq_lib::group_to_multiset_ensures;

    reveal(Seq::filter);
    let keep = |line: Seq<char>| starts_with(line, "package:"@);
    let cut = |line: Seq<char>| line.skip("package:"@.len() as int);
    if all.len() > 0 {
        let (first, last) = (all.drop_last(), all.last());
        count_after_package(first, p);
        assert(all =~= first.push(last));
        beginnings_and_ends("package:"@, p, last, "package:"@);
        if keep(last) {
            assert(first.filter(keep).push(last).map_values(cut) =~= after_package(first).push(
                cut(last),
            ));
            assert(("package:"@ + p).skip("package:"@.len() as int) =~= p);
        }
    } else {
        assert(after_package(all) =~= Seq::empty());
        assert(all =~= Seq::empty());
    }
}

proof fn count_filtered(all: Seq<Seq<char>>, keep: spec_fn(Seq<char>) -> bool, p: Seq<char>)
    ensures
        all.filter(keep).to_multiset().count(p) == if keep(p) {
            all.to_multiset().count(p)
        } else {
            0
        },
    decreases all.len(),
{
    broadcast use vstd::seq_lib::group_to_multiset_ensures;

    reveal(Seq::filter);
    if all.len() > 0 {
        count_filtered(all.drop_last(), keep, p);
        assert(all =~= all.drop_last().push(all.last()));
    } else {
        assert(all.filter(keep) =~= Seq::empty());
        assert(all =~= Seq::empty());
    }
}

/// Each package with a safe name is listed as often as a line, without the white space around it,
/// is `package:` and the name; no other text is listed.
pub proof fn every_safe_package_is_listed(text: Seq<char>, p: Seq<char>)
    ensures
        ({
            let said = lines(text).map_values(|line: Seq<char>| trim(line));
            let safe = {
                &&& exists|k: int| 0 <= k < p.len() && #[trigger] p[k] == '.'
                &&& forall|i: int| 0 <= i < p.len() ==> is_name_letter(#[trigger] p[i])
            };
            uninstallable(text).to_multiset().count(p) == if safe {
                said.to_multiset().count("package:"@ + p)
            } else {
                0
            }
        }),
{
    safe_package_names_are(p);
    let all = trimmed_lines(text);
    assert(all =~= lines(text).map_values(|line: Seq<char>| trim(line)));
    count_after_package(all, p);
    count_filtered(after_package(all), |package: Seq<char>| is_package_name(package), p);
}

/// A line `package:` and a name lists the name ahead of what the other lines list; a line that does
/// not begin so lists nothing.
pub proof fn package_line_lists_the_package(p: Seq<char>, line: Seq<char>, rest: Seq<char>)
    requires
        !p.contains('\n'),
        p.len() == 0 || p.last() != '\r',
        !line.contains('\n'),
        line.len() == 0 || line.last() != '\r',
        forall|q: Seq<char>| line != "package:"@ + q,
    ensures
        listed_packages(("package:"@ + p).push('\n') + rest) == seq![p] + listed_packages(rest),
        listed_packages(line.push('\n') + rest) == listed_packages(rest),
        listed_packages("package:"@ + p) == seq![p],
        listed_packages(line) == Seq::<Seq<char>>::empty(),
{
    reveal_strlit("package:");
    let keep = |line: Seq<char>| starts_with(line, "package:"@);
    let cut = |line: Seq<char>| line.skip("package:"@.len() as int);
    let said = "package:"@ + p;
    assert(!said.contains('\n')) by {
        if said.contains('\n') {
            let k = choose|k: int| 0 <= k < said.len() && said[k] == '\n';
            assert(k >= 8);
            assert(p[k - 8] == '\n');
        }
    }
    assert(said.last() != '\r') by {
        if p.len() > 0 {
            assert(said.last() == p.last());
        }
    }
    first_line_ends_at_feed(said, rest);
    first_line_ends_at_feed(line, rest);
    text_without_feed_is_one_line(said);
    text_without_feed_is_one_line(line);
    reveal(Seq::filter);
    beginnings_and_ends("package:"@, p, line, "package:"@);
    Seq::filter_distributes_over_add(seq![said], lines(rest), keep);
    Seq::filter_distributes_over_add(seq![line], lines(rest), keep);
    assert(seq![said].drop_last() =~= Seq::empty());
    assert(seq![line].drop_last() =~= Seq::empty());
    assert(seq![said].filter(keep) =~= seq![said]);
    assert(seq![line].filter(keep) =~= Seq::empty());
    assert(said.skip("package:"@.len() as int) =~= p);
    assert((seq![said] + lines(rest).filter(keep)).map_values(cut) =~= seq![p] + lines(rest).filter(
        keep,
    ).map_values(cut));
    assert(Seq::<Seq<char>>::empty() + lines(rest).filter(keep) =~= lines(rest).filter(keep));
    assert(Seq::<Seq<char>>::empty().filter(keep) =~= Seq::empty());
    assert(seq![said].map_values(cut) =~= seq![p]);
    assert(Seq::<Seq<char>>::empty().map_values(cut) =~= Seq::empty());
}

/// A package is there where a line is `package:` and its name, with white space around it or not,
/// and only there.
pub proof fn package_is_there_where_a_line_says_so(
    text: Seq<char>,
    p: Seq<char>,
    i: int,
    l: Seq<char>,
    r: Seq<char>,
)
    requires
        p.len() == 0 || !is_white(p.last()),
        is_blank(l),
        is_blank(r),
    ensures
        0 <= i < lines(text).len() && lines(text)[i] == l + ("package:"@ + p) + r
            ==> lists_package(text, p),
        lists_package(text, p) ==> exists|k: int|
            0 <= k < lines(text).len() && trim(#[trigger] lines(text)[k]) == "package:"@ + p,
{
    reveal_strlit("package:");
    let said = "package:"@ + p;
    let all = trimmed_lines(text);
    if 0 <= i < lines(text).len() && lines(text)[i] == l + said + r {
        assert(said[0] == 'p');
        if p.len() > 0 {
            assert(said.last() == p.last());
        } else {
            assert(said.last() == ':');
        }
        white_space_around_goes(l, said, r);
        assert(all[i] == said);
    }
    if lists_package(text, p) {
        let k = choose|k: int| 0 <= k < all.len() && all[k] == said;
        assert(trim(lines(text)[k]) == said);
    }
}

/// Letters of ASCII in upper case, digits and underscores.
pub open spec fn is_constant_letter(c: char) -> bool {
    'A' <= c <= 'Z' || '0' <= c <= '9' || c == '_'
}

/// Whether a text is the name of a permission: some letters, a dot, and some letters in upper case.
pub open spec fn is_permission_text(s: Seq<char>, a: Seq<char>, b: Seq<char>) -> bool {
    &&& s == a + "."@ + b
    &&& a.len() > 0
    &&& b.len() > 0
    &&& forall|i: int| 0 <= i < a.len() ==> is_name_letter(#[trigger] a[i])
    &&& forall|i: int| 0 <= i < b.len() ==> is_constant_letter(#[trigger] b[i])
}

/// The names of permissions are those that are made of letters, a dot, and letters in upper case.
pub proof fn permission_names_are(s: Seq<char>)
    ensures
        is_permission_name(s) <==> exists|a: Seq<char>, b: Seq<char>| is_permission_text(s, a, b),
{
    reveal_strlit(".");
    if is_permission_name(s) {
        let k = choose|k: int|
            {
                &&& 0 < k < s.len() - 1
                &&& #[trigger] s[k] == '.'
                &&& forall|i: int| 0 <= i < k ==> is_package_char(#[trigger] s[i])
                &&& forall|i: int|
                    k < i < s.len() ==> is_constant_char(#[trigger] s[i])
            };
        let (a, b) = (s.take(k), s.skip(k + 1));
        assert(s =~= a + "."@ + b);
        assert forall|i: int| 0 <= i < b.len() implies is_constant_letter(#[trigger] b[i]) by {
            assert(b[i] == s[k + 1 + i]);
        }
        assert(is_permission_text(s, a, b));
    }
    if exists|a: Seq<char>, b: Seq<char>| is_permission_text(s, a, b) {
        let (a, b) = choose|a: Seq<char>, b: Seq<char>| is_permission_text(s, a, b);
        let k = a.len() as int;
        assert(s[k] == '.');
        assert forall|i: int| 0 <= i < k implies is_package_char(
            #[trigger] s[i],
        ) by {
            assert(s[i] == a[i]);
        }
        assert forall|i: int| k < i < s.len() implies is_constant_char(
            #[trigger] s[i],
        ) by {
            assert(s[i] == b[i - k - 1]);
        }
    }
}

proof fn position_is_first(pre: Seq<Seq<char>>, wanted: Seq<char>, post: Seq<Seq<char>>)
    requires
        !pre.contains(wanted),
    ensures
        position(pre + seq![wanted] + post, wanted) == pre.len(),
        position(pre, wanted) == pre.len(),
    decreases pre.len(),
{
    let whole = pre + seq![wanted] + post;
    if pre.len() > 0 {
        assert(whole[0] == pre[0]);
        assert(pre.contains(pre[0]));
        assert(!pre.skip(1).contains(wanted)) by {
            if pre.skip(1).contains(wanted) {
                let k = choose|k: int| 0 <= k < pre.skip(1).len() && pre.skip(1)[k] == wanted;
                assert(pre[k + 1] == wanted);
            }
        }
        position_is_first(pre.skip(1), wanted, post);
        assert(whole.skip(1) =~= pre.skip(1) + seq![wanted] + post);
    } else {
        assert(whole[0] == wanted);
    }
}

/// Whether the lines of a text, without the white space around them, have the given lines for the
/// section of requested permissions: it begins behind the first line `requested permissions:` and
/// ends at the next line `install permissions:`, or with the text.
pub open spec fn has_section(
    text: Seq<char>,
    pre: Seq<Seq<char>>,
    mid: Seq<Seq<char>>,
    rest: Seq<Seq<char>>,
) -> bool {
    &&& lines(text).map_values(|line: Seq<char>| trim(line)) == pre
        + seq!["requested permissions:"@] + (mid + rest)
    &&& !pre.contains("requested permissions:"@)
    &&& !mid.contains("install permissions:"@)
    &&& rest.len() == 0 || rest[0] == "install permissions:"@
}

proof fn section_is(
    text: Seq<char>,
    pre: Seq<Seq<char>>,
    mid: Seq<Seq<char>>,
    rest: Seq<Seq<char>>,
)
    requires
        has_section(text, pre, mid, rest),
    ensures
        requested_section(trimmed_lines(text)) == mid,
{
    let all = trimmed_lines(text);
    assert(all =~= lines(text).map_values(|line: Seq<char>| trim(line)));
    position_is_first(pre, "requested permissions:"@, mid + rest);
    let tail = all.skip((pre.len() + 1) as int);
    assert(tail =~= mid + rest);
    if rest.len() > 0 {
        assert(mid + rest =~= mid + seq!["install permissions:"@] + rest.skip(1));
        position_is_first(mid, "install permissions:"@, rest.skip(1));
    } else {
        assert(mid + rest =~= mid);
        position_is_first(mid, "install permissions:"@, seq![]);
    }
    assert(tail.take(mid.len() as int) =~= mid);
}

/// The permission of a line that is the name of a permission, alone or with the remark behind it
/// that it is restricted.
proof fn line_names(line: Seq<char>, p: Seq<char>)
    requires
        is_permission_name(p),
    ensures
        permission_of(line) == p <==> line == p || line == p + ": restricted=true"@,
{
    reveal_strlit(": restricted=true");
    let remark = ": restricted=true"@;
    beginnings_and_ends(p, remark, line, remark);
    permission_names_are(p);
    let (a, b) = choose|a: Seq<char>, b: Seq<char>| is_permission_text(p, a, b);
    assert(is_constant_letter(b[b.len() - 1]));
    assert(p.last() == b[b.len() - 1]);
    if ends_with(p, remark) {
        assert(p.skip(p.len() - remark.len())[16] == p.last());
        assert(remark[16] == 'e');
    }
    assert((p + remark).take((p + remark).len() - remark.len()) =~= p);
}

proof fn folded_holds(mid: Seq<Seq<char>>, p: Seq<char>)
    ensures
        mid.fold_left(
            seq![],
            |found: Seq<Seq<char>>, line: Seq<char>| with_permission(found, line),
        ).contains(p) <==> is_permission_name(p) && (mid.contains(p) || mid.contains(
            p + ": restricted=true"@,
        )),
    decreases mid.len(),
{
    let step = |found: Seq<Seq<char>>, line: Seq<char>| with_permission(found, line);
    let empty = Seq::<Seq<char>>::empty();
    if mid.len() > 0 {
        let (first, last) = (mid.drop_last(), mid.last());
        folded_holds(first, p);
        let before = first.fold_left(empty, step);
        let after = with_permission(before, last);
        assert(mid =~= first.push(last));
        assert forall|q: Seq<char>| #[trigger] mid.contains(q) <==> first.contains(q) || q == last by {
            if first.contains(q) {
                let k = choose|k: int| 0 <= k < first.len() && first[k] == q;
                assert(mid[k] == q);
            }
            assert(mid[mid.len() - 1] == last);
        }
        assert(after.contains(p) <==> before.contains(p) || (is_permission_name(
            permission_of(last),
        ) && permission_of(last) == p)) by {
            if before.contains(p) {
                let k = choose|k: int| 0 <= k < before.len() && before[k] == p;
                assert(after[k] == p);
            }
            if after != before {
                assert(after.last() == permission_of(last));
                if after.contains(p) && p != permission_of(last) {
                    let k = choose|k: int| 0 <= k < after.len() && after[k] == p;
                    assert(before[k] == p);
                }
            }
        }
        if is_permission_name(p) {
            line_names(last, p);
        }
    }
}

/// The permissions of a description are those which a line of its section names, alone or with the
/// remark behind it that the permission is restricted.
pub proof fn section_lists_the_permissions(
    text: Seq<char>,
    pre: Seq<Seq<char>>,
    mid: Seq<Seq<char>>,
    rest: Seq<Seq<char>>,
    p: Seq<char>,
)
    requires
        has_section(text, pre, mid, rest),
    ensures
        permissions_in(text).contains(p) <==> (exists|a: Seq<char>, b: Seq<char>|
            is_permission_text(p, a, b)) && (mid.contains(p) || mid.contains(
            p + ": restricted=true"@,
        )),
{
    section_is(text, pre, mid, rest);
    folded_holds(mid, p);
    permission_names_are(p);
}

/// A description without a section lists no permissions.
pub proof fn no_section_lists_nothing(text: Seq<char>)
    requires
        !lines(text).map_values(|line: Seq<char>| trim(line)).contains("requested permissions:"@),
    ensures
        permissions_in(text) == Seq::<Seq<char>>::empty(),
{
    let all = trimmed_lines(text);
    assert(all =~= lines(text).map_values(|line: Seq<char>| trim(line)));
    position_is_first(all, "requested permissions:"@, seq![]);
}

proof fn folded_grows(mid: Seq<Seq<char>>, more: Seq<Seq<char>>)
    ensures
        ({
            let step = |found: Seq<Seq<char>>, line: Seq<char>| with_permission(found, line);
            let empty = Seq::<Seq<char>>::empty();
            let (few, many) = (mid.fold_left(empty, step), (mid + more).fold_left(empty, step));
            few.len() <= many.len() && many.take(few.len() as int) == few
        }),
    decreases more.len(),
{
    let step = |found: Seq<Seq<char>>, line: Seq<char>| with_permission(found, line);
    let empty = Seq::<Seq<char>>::empty();
    let few = mid.fold_left(empty, step);
    if more.len() > 0 {
        folded_grows(mid, more.drop_last());
        assert((mid + more).drop_last() =~= mid + more.drop_last());
        assert((mid + more).last() == more.last());
        let before = (mid + more.drop_last()).fold_left(empty, step);
        let many = (mid + more).fold_left(empty, step);
        assert(many.take(few.len() as int) =~= before.take(few.len() as int));
    } else {
        assert(mid + more =~= mid);
        assert(few.take(few.len() as int) =~= few);
    }
}

/// More lines in a section add permissions behind those that were there: the permissions come in
/// the order in which they are first named.
pub proof fn permissions_come_in_order(
    text: Seq<char>,
    pre: Seq<Seq<char>>,
    mid: Seq<Seq<char>>,
    rest: Seq<Seq<char>>,
    longer: Seq<char>,
    pre2: Seq<Seq<char>>,
    more: Seq<Seq<char>>,
    rest2: Seq<Seq<char>>,
)
    requires
        has_section(text, pre, mid, rest),
        has_section(longer, pre2, mid + more, rest2),
    ensures
        permissions_in(text).len() <= permissions_in(longer).len(),
        permissions_in(longer).take(permissions_in(text).len() as int) == permissions_in(text),
{
    section_is(text, pre, mid, rest);
    section_is(longer, pre2, mid + more, rest2);
    folded_grows(mid, more);
}

}
