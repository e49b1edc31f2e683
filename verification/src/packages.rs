//! The packages on a device.

use vstd::prelude::*;

use crate::components::{
    alphanumeric, describe_args, is_alphanumeric, push_unique, with_text, with_text_keeps_unique,
};
use crate::session::{
    failure, halt_of, run_adb, run_adb_checked, session_is_live, AdbTarget, Halt, Session, Talk,
    TargetView,
};
use crate::text::{
    begins, chars_of, concat2, ends_with, finishes, lines, rows, same, slice, sort_rows,
    sorted_texts, split_lines, starts_with, strs, text_of, texts, texts_of, trim, trimmed,
};

verus! {

broadcast use session_is_live;

/// A character that a package name may hold.
pub open spec fn is_package_char(c: char) -> bool {
    is_alphanumeric(c) || c == '.' || c == '_'
}

/// Whether a text is a package name that is safe to hand to a shell.
pub open spec fn is_package_name(name: Seq<char>) -> bool {
    name.contains('.') && forall|i: int|
        0 <= i < name.len() ==> is_package_char(#[trigger] name[i])
}

/// Whether the characters of `name` make a package name that is safe to hand to a shell.
fn package_name_of(name: &Vec<char>) -> (r: bool)
    ensures
        r == is_package_name(name@),
{
    let mut dotted: bool = false;
    let mut i: usize = 0;
    while i < name.len()
        invariant
            i <= name.len(),
            dotted == exists|k: int| 0 <= k < i && name@[k] == '.',
            forall|k: int| 0 <= k < i ==> is_package_char(#[trigger] name@[k]),
        decreases name.len() - i,
    {
        let c: char = name[i];
        if !(alphanumeric(c) || c == '.' || c == '_') {
            assert(!is_package_char(name@[i as int]));
            return false;
        }
        if c == '.' {
            assert(name@[i as int] == '.');
            dotted = true;
        }
        i = i + 1;
    }
    dotted
}

/// Whether a text is a package name that is safe to hand to a shell.
pub fn is_safe_package_name(package_name: &str) -> (r: bool)
    ensures
        r == is_package_name(package_name@),
{
    package_name_of(&chars_of(package_name))
}

/// The texts of a list that begin with `package:`, without it.
pub open spec fn after_package(all: Seq<Seq<char>>) -> Seq<Seq<char>> {
    all.filter(|line: Seq<char>| starts_with(line, "package:"@)).map_values(
        |line: Seq<char>| line.skip("package:"@.len() as int),
    )
}

/// The texts of a list that begin with `package:`, without it.
fn strip_package(all: &Vec<Vec<char>>) -> (r: Vec<Vec<char>>)
    ensures
        rows(r@) == after_package(rows(all@)),
{
    let prefix = chars_of("package:");
    let ghost keep = |line: Seq<char>| starts_with(line, "package:"@);
    let ghost cut = |line: Seq<char>| line.skip("package:"@.len() as int);
    let mut out: Vec<Vec<char>> = Vec::new();
    let mut i: usize = 0;
    proof {
        reveal(Seq::filter);
        assert(rows(out@) =~= rows(all@).take(0).filter(keep).map_values(cut));
    }
    while i < all.len()
        invariant
            i <= all.len(),
            prefix@ == "package:"@,
            keep == (|line: Seq<char>| starts_with(line, "package:"@)),
            cut == (|line: Seq<char>| line.skip("package:"@.len() as int)),
            rows(out@) == rows(all@).take(i as int).filter(keep).map_values(cut),
        decreases all.len() - i,
    {
        reveal(Seq::filter);
        let ghost before = rows(out@);
        assert(rows(all@).take(i + 1).drop_last() =~= rows(all@).take(i as int));
        assert(rows(all@).take(i + 1).last() == all@[i as int]@);
        if begins(&all[i], &prefix) {
            let row = slice(&all[i], prefix.len(), all[i].len());
            assert(row@ =~= cut(all@[i as int]@));
            out.push(row);
            assert(rows(out@) =~= before.push(row@));
            let ghost kept = rows(all@).take(i as int).filter(keep);
            assert(kept.push(all@[i as int]@).map_values(cut) =~= kept.map_values(cut).push(row@));
        }
        i = i + 1;
    }
    assert(rows(all@).take(all@.len() as int) =~= rows(all@));
    out
}

/// The lines of a text, each without the white space around it.
pub open spec fn trimmed_lines(text: Seq<char>) -> Seq<Seq<char>> {
    lines(text).map_values(|line: Seq<char>| trim(line))
}

/// The lines of a text, each without the white space around it.
fn split_trimmed_lines(text: &str) -> (r: Vec<Vec<char>>)
    ensures
        rows(r@) == trimmed_lines(text@),
{
    let all = split_lines(&chars_of(text));
    let mut out: Vec<Vec<char>> = Vec::new();
    let mut i: usize = 0;
    while i < all.len()
        invariant
            i <= all.len(),
            rows(all@) == lines(text@),
            rows(out@) == trimmed_lines(text@).take(i as int),
        decreases all.len() - i,
    {
        let ghost before = rows(out@);
        assert(rows(all@)[i as int] == all@[i as int]@);
        let row = trimmed(&all[i]);
        out.push(row);
        assert(rows(out@) =~= before.push(row@));
        assert(rows(out@) =~= trimmed_lines(text@).take(i + 1));
        i = i + 1;
    }
    assert(trimmed_lines(text@).take(all@.len() as int) =~= trimmed_lines(text@));
    out
}

/// The packages that the output of `pm list packages` lists.
pub open spec fn listed_packages(text: Seq<char>) -> Seq<Seq<char>> {
    after_package(lines(text))
}

/// Reads the packages from the output of `pm list packages`.
pub fn parse_packages(text: &str) -> (r: Vec<String>)
    ensures
        texts(r@) == listed_packages(text@),
{
    texts_of(&strip_package(&split_lines(&chars_of(text))))
}

/// Whether the output of `pm list packages` lists the package.
pub open spec fn lists_package(text: Seq<char>, package: Seq<char>) -> bool {
    trimmed_lines(text).contains("package:"@ + package)
}

/// Whether the output of `pm list packages` lists the package.
pub fn output_lists_package(text: &str, package_name: &str) -> (r: bool)
    ensures
        r == lists_package(text@, package_name@),
{
    let all = split_trimmed_lines(text);
    let wanted = chars_of(concat2("package:", package_name).as_str());
    let mut i: usize = 0;
    while i < all.len()
        invariant
            i <= all.len(),
            wanted@ == "package:"@ + package_name@,
            rows(all@) == trimmed_lines(text@),
            forall|k: int| 0 <= k < i ==> rows(all@)[k] != wanted@,
        decreases all.len() - i,
    {
        assert(rows(all@)[i as int] == all@[i as int]@);
        if same(&all[i], &wanted) {
            return true;
        }
        i = i + 1;
    }
    false
}

/// The first package of a list that another list does not hold.
pub open spec fn first_new(after: Seq<Seq<char>>, before: Seq<Seq<char>>) -> Option<Seq<char>>
    decreases after.len(),
{
    if after.len() == 0 {
        None
    } else if before.contains(after[0]) {
        first_new(after.skip(1), before)
    } else {
        Some(after[0])
    }
}

/// Whether a list holds a string.
fn holds(list: &Vec<String>, wanted: &String) -> (r: bool)
    ensures
        r == texts(list@).contains(wanted@),
{
    let mut i: usize = 0;
    while i < list.len()
        invariant
            i <= list.len(),
            forall|k: int| 0 <= k < i ==> texts(list@)[k] != wanted@,
        decreases list.len() - i,
    {
        assert(texts(list@)[i as int] == list@[i as int]@);
        if list[i] == *wanted {
            return true;
        }
        i = i + 1;
    }
    false
}

/// The first package of a list that another list does not hold.
pub fn find_new_package(after: &Vec<String>, before: &Vec<String>) -> (r: Option<String>)
    ensures
        match r {
            Some(p) => first_new(texts(after@), texts(before@)) == Some(p@),
            None => first_new(texts(after@), texts(before@)) is None,
        },
{
    let ghost all = texts(after@);
    let mut i: usize = 0;
    assert(all.skip(0) =~= all);
    while i < after.len()
        invariant
            i <= after.len(),
            all == texts(after@),
            first_new(all, texts(before@)) == first_new(all.skip(i as int), texts(before@)),
        decreases after.len() - i,
    {
        assert(all.skip(i as int)[0] == after@[i as int]@);
        assert(all.skip(i as int).skip(1) =~= all.skip(i + 1));
        if !holds(before, &after[i]) {
            return Some(after[i].clone());
        }
        i = i + 1;
    }
    None
}

/// The packages that the output of `pm list packages -3` lists under safe names.
pub open spec fn uninstallable(text: Seq<char>) -> Seq<Seq<char>> {
    after_package(trimmed_lines(text)).filter(|package: Seq<char>| is_package_name(package))
}

/// Reads the packages with safe names from the output of `pm list packages -3`, in order.
pub fn parse_uninstallable(text: &str) -> (r: Vec<String>)
    ensures
        sorted_texts(texts(r@)),
        texts(r@).to_multiset() == uninstallable(text@).to_multiset(),
{
    let all = strip_package(&split_trimmed_lines(text));
    let ghost keep = |package: Seq<char>| is_package_name(package);
    let mut safe: Vec<Vec<char>> = Vec::new();
    let mut i: usize = 0;
    proof {
        reveal(Seq::filter);
        assert(rows(safe@) =~= rows(all@).take(0).filter(keep));
    }
    while i < all.len()
        invariant
            i <= all.len(),
            keep == (|package: Seq<char>| is_package_name(package)),
            rows(safe@) == rows(all@).take(i as int).filter(keep),
        decreases all.len() - i,
    {
        reveal(Seq::filter);
        let ghost before = rows(safe@);
        assert(rows(all@).take(i + 1).drop_last() =~= rows(all@).take(i as int));
        assert(rows(all@).take(i + 1).last() == all@[i as int]@);
        if package_name_of(&all[i]) {
            let row = slice(&all[i], 0, all[i].len());
            assert(row@ =~= all@[i as int]@);
            safe.push(row);
            assert(rows(safe@) =~= before.push(row@));
        }
        i = i + 1;
    }
    assert(rows(all@).take(all@.len() as int) =~= rows(all@));
    texts_of(&sort_rows(safe))
}

/// The position of the first text of a list that is `wanted`; the length of the list if none is.
pub open spec fn position(all: Seq<Seq<char>>, wanted: Seq<char>) -> int
    decreases all.len(),
{
    if all.len() == 0 || all[0] == wanted {
        0
    } else {
        1 + position(all.skip(1), wanted)
    }
}

/// The lines between the first `requested permissions:` and the next `install permissions:`.
pub open spec fn requested_section(all: Seq<Seq<char>>) -> Seq<Seq<char>> {
    let start = position(all, "requested permissions:"@);
    if start < all.len() {
        let rest = all.skip(start + 1);
        rest.take(position(rest, "install permissions:"@))
    } else {
        seq![]
    }
}

/// The permission that a line names: the line without a remark that it is restricted.
pub open spec fn permission_of(line: Seq<char>) -> Seq<char> {
    if ends_with(line, ": restricted=true"@) {
        line.take(line.len() - ": restricted=true"@.len())
    } else {
        line
    }
}

/// A character that the last part of a permission's name may hold.
pub open spec fn is_constant_char(c: char) -> bool {
    'A' <= c <= 'Z' || '0' <= c <= '9' || c == '_'
}

/// Whether a text is the name of a permission: a name with dots, a dot, and a name in upper case.
pub open spec fn is_permission_name(s: Seq<char>) -> bool {
    exists|k: int|
        {
            &&& 0 < k < s.len() - 1
            &&& #[trigger] s[k] == '.'
            &&& forall|i: int| 0 <= i < k ==> is_package_char(#[trigger] s[i])
            &&& forall|i: int| k < i < s.len() ==> is_constant_char(#[trigger] s[i])
        }
}

/// The dot of a permission's name stands right before the characters of upper case at its end.
proof fn permission_dot(s: Seq<char>, end: int)
    requires
        is_permission_name(s),
        0 <= end <= s.len(),
        end > 0 ==> !is_constant_char(s[end - 1]),
        forall|i: int| end <= i < s.len() ==> is_constant_char(#[trigger] s[i]),
    ensures
        2 <= end < s.len(),
        s[end - 1] == '.',
        forall|i: int| 0 <= i < end - 1 ==> is_package_char(#[trigger] s[i]),
{
    let k = choose|k: int|
        {
            &&& 0 < k < s.len() - 1
            &&& #[trigger] s[k] == '.'
            &&& forall|i: int| 0 <= i < k ==> is_package_char(#[trigger] s[i])
            &&& forall|i: int| k < i < s.len() ==> is_constant_char(#[trigger] s[i])
        };
    assert(!is_constant_char(s[k]));
    assert(k == end - 1);
}

/// Tests for a character that the last part of a permission's name may hold.
fn constant_char(c: char) -> (r: bool)
    ensures
        r == is_constant_char(c),
{
    ('A' <= c && c <= 'Z') || ('0' <= c && c <= '9') || c == '_'
}

/// Whether a text is the name of a permission.
fn permission_name(s: &Vec<char>) -> (r: bool)
    ensures
        r == is_permission_name(s@),
{
    let mut end: usize = s.len();
    while end > 0 && constant_char(s[end - 1])
        invariant
            end <= s.len(),
            forall|i: int| end <= i < s.len() ==> is_constant_char(#[trigger] s@[i]),
        decreases end,
    {
        end = end - 1;
    }
    proof {
        if is_permission_name(s@) {
            permission_dot(s@, end as int);
        }
    }
    if end < 2 || end == s.len() || s[end - 1] != '.' {
        return false;
    }
    let mut i: usize = 0;
    while i < end - 1
        invariant
            i < end <= s.len(),
            forall|j: int| 0 <= j < i ==> is_package_char(#[trigger] s@[j]),
            is_permission_name(s@) ==> forall|j: int|
                0 <= j < end - 1 ==> is_package_char(#[trigger] s@[j]),
        decreases end - i,
    {
        let c: char = s[i];
        if !(alphanumeric(c) || c == '.' || c == '_') {
            assert(!is_package_char(s@[i as int]));
            return false;
        }
        i = i + 1;
    }
    assert(s@[end - 1] == '.');
    true
}

/// The list with the permission that a line names, if it names one.
pub open spec fn with_permission(found: Seq<Seq<char>>, line: Seq<char>) -> Seq<Seq<char>> {
    if is_permission_name(permission_of(line)) {
        with_text(found, permission_of(line))
    } else {
        found
    }
}

/// The permissions that a package requests, by its description: each once, in the order in which
/// they are first named.
pub open spec fn permissions_in(text: Seq<char>) -> Seq<Seq<char>> {
    requested_section(trimmed_lines(text)).fold_left(
        seq![],
        |found: Seq<Seq<char>>, line: Seq<char>| with_permission(found, line),
    )
}

/// The position of the first text, from `start` on, that is `wanted`.
fn find_line(all: &Vec<Vec<char>>, start: usize, wanted: &str) -> (r: usize)
    requires
        start <= all.len(),
    ensures
        start <= r <= all.len(),
        r == start + position(rows(all@).skip(start as int), wanted@),
{
    let text = chars_of(wanted);
    let mut i: usize = start;
    assert(rows(all@).skip(start as int).skip(0) =~= rows(all@).skip(start as int));
    while i < all.len() && !same(&all[i], &text)
        invariant
            start <= i <= all.len(),
            text@ == wanted@,
            position(rows(all@).skip(start as int), wanted@) == i - start + position(
                rows(all@).skip(i as int),
                wanted@,
            ),
        decreases all.len() - i,
    {
        assert(rows(all@).skip(i as int).skip(1) =~= rows(all@).skip(i + 1));
        assert(rows(all@).skip(i as int)[0] == all@[i as int]@);
        i = i + 1;
    }
    if i < all.len() {
        assert(rows(all@).skip(i as int)[0] == all@[i as int]@);
    }
    i
}

/// The permission that a line names: the line without a remark that it is restricted.
fn read_permission(line: &Vec<char>) -> (r: Vec<char>)
    ensures
        r@ == permission_of(line@),
{
    let remark = chars_of(": restricted=true");
    if finishes(line, &remark) {
        let r = slice(line, 0, line.len() - remark.len());
        assert(r@ =~= permission_of(line@));
        r
    } else {
        let r = slice(line, 0, line.len());
        assert(r@ =~= line@);
        r
    }
}

/// Reads the permissions that a package requests from its description.
pub fn parse_permissions(text: &str) -> (r: Vec<String>)
    ensures
        texts(r@) == permissions_in(text@),
{
    let all = split_trimmed_lines(text);
    let ghost step = |found: Seq<Seq<char>>, line: Seq<char>| with_permission(found, line);
    let ghost empty = Seq::<Seq<char>>::empty();
    let mut permissions: Vec<String> = Vec::new();
    assert(texts(permissions@) =~= empty);
    assert(rows(all@).skip(0) =~= rows(all@));
    let heading = find_line(&all, 0, "requested permissions:");
    if heading == all.len() {
        return permissions;
    }
    let start: usize = heading + 1;
    let end = find_line(&all, start, "install permissions:");
    let ghost section = requested_section(rows(all@));
    let mut i: usize = start;
    while i < end
        invariant
            start <= i <= end <= all.len(),
            section == rows(all@).skip(start as int).take(end - start),
            step == (|found: Seq<Seq<char>>, line: Seq<char>| with_permission(found, line)),
            texts(permissions@) == section.take(i - start).fold_left(empty, step),
        decreases end - i,
    {
        assert(section.take(i + 1 - start).drop_last() =~= section.take(i - start));
        assert(section.take(i + 1 - start).last() == all@[i as int]@);
        let permission = read_permission(&all[i]);
        if permission_name(&permission) {
            push_unique(&mut permissions, text_of(&permission));
        }
        i = i + 1;
    }
    assert(section.take(end - start) =~= section);
    permissions
}

/// The arguments that make a device list its packages.
pub open spec fn list_args() -> Seq<Seq<char>> {
    seq!["shell"@, "pm"@, "list"@, "packages"@]
}

impl Talk {
    /// Asks the device for its packages.
    pub open spec fn list_packages(self, adb: TargetView) -> (Talk, Seq<Seq<char>>) {
        let (t, out) = self.run_adb_checked(adb, list_args());
        (t, listed_packages(out.stdout))
    }

    /// Asks the device whether it has the package.
    pub open spec fn is_package_installed(self, adb: TargetView, package: Seq<char>) -> (
        Talk,
        bool,
    ) {
        let (t, out) = self.run_adb(adb, list_args().push(package));
        (t, lists_package(out.stdout, package))
    }

    /// Asks the device which package it has that it did not have before.
    pub open spec fn detect_new_package(self, adb: TargetView, before: Seq<Seq<char>>) -> (
        Talk,
        Seq<char>,
    ) {
        let (t, after) = self.list_packages(adb);
        match first_new(after, before) {
            Some(package) => (t, package),
            None => (
                t.fail("APK установлен, но имя пакета не удалось определить автоматически"@),
                seq![],
            ),
        }
    }

    /// Asks the device which permissions the package requests.
    pub open spec fn requested_permissions(self, adb: TargetView, package: Seq<char>) -> (
        Talk,
        Seq<Seq<char>>,
    ) {
        let (t, out) = self.run_adb_checked(adb, describe_args(package));
        (t, permissions_in(out.stdout))
    }
}

/// Asks the device for its packages.
pub fn list_packages(adb: &AdbTarget, session: &mut Session) -> (r: Result<Vec<String>, Halt>)
    ensures
        old(session)@.list_packages(adb@).0 == final(session)@.with(halt_of(r)),
        r matches Ok(found) ==> texts(found@) == old(session)@.list_packages(adb@).1,
{
    let args = ["shell", "pm", "list", "packages"];
    assert(strs(args@) =~= list_args());
    let out = run_adb_checked(adb, &args, session)?;
    Ok(parse_packages(out.stdout.as_str()))
}

/// Asks the device whether it has the package.
pub fn is_package_installed(adb: &AdbTarget, package_name: &str, session: &mut Session) -> (r:
    Result<bool, Halt>)
    ensures
        old(session)@.is_package_installed(adb@, package_name@).0 == final(session)@.with(
            halt_of(r),
        ),
        r matches Ok(b) ==> b == old(session)@.is_package_installed(adb@, package_name@).1,
{
    let args = ["shell", "pm", "list", "packages", package_name];
    assert(strs(args@) =~= list_args().push(package_name@));
    let out = run_adb(adb, &args, session)?;
    Ok(output_lists_package(out.stdout.as_str(), package_name))
}

/// Asks the device which package it has that it did not have before.
pub fn detect_new_package(adb: &AdbTarget, before: &Vec<String>, session: &mut Session) -> (r:
    Result<String, Halt>)
    ensures
        old(session)@.detect_new_package(adb@, texts(before@)).0 == final(session)@.with(
            halt_of(r),
        ),
        r matches Ok(p) ==> p@ == old(session)@.detect_new_package(adb@, texts(before@)).1,
{
    let after = list_packages(adb, session)?;
    match find_new_package(&after, before) {
        Some(package) => Ok(package),
        None => Err(
            failure("APK установлен, но имя пакета не удалось определить автоматически"),
        ),
    }
}

/// Asks the device which permissions the package requests.
pub fn requested_permissions(adb: &AdbTarget, package_name: &str, session: &mut Session) -> (r:
    Result<Vec<String>, Halt>)
    ensures
        old(session)@.requested_permissions(adb@, package_name@).0 == final(session)@.with(
            halt_of(r),
        ),
        r matches Ok(found) ==> texts(found@) == old(session)@.requested_permissions(
            adb@,
            package_name@,
        ).1,
{
    let args = ["shell", "dumpsys", "package", package_name];
    assert(strs(args@) =~= describe_args(package_name@));
    let out = run_adb_checked(adb, &args, session)?;
    Ok(parse_permissions(out.stdout.as_str()))
}

/// Whatever a package's description holds, the permissions read from it are there once each, and
/// each has a permission's name.
pub proof fn permissions_are_unique(text: Seq<char>)
    ensures
        permissions_in(text).no_duplicates(),
        forall|i: int|
            0 <= i < permissions_in(text).len() ==> is_permission_name(
                #[trigger] permissions_in(text)[i],
            ),
{
    lines_keep_permissions(requested_section(trimmed_lines(text)));
}

proof fn lines_keep_permissions(all: Seq<Seq<char>>)
    ensures
        ({
            let found = all.fold_left(
                seq![],
                |found: Seq<Seq<char>>, line: Seq<char>| with_permission(found, line),
            );
            &&& found.no_duplicates()
            &&& forall|i: int|
                0 <= i < found.len() ==> is_permission_name(#[trigger] found[i])
        }),
    decreases all.len(),
{
    if all.len() > 0 {
        lines_keep_permissions(all.drop_last());
        let before = all.drop_last().fold_left(
            seq![],
            |found: Seq<Seq<char>>, line: Seq<char>| with_permission(found, line),
        );
        with_text_keeps_unique(before, permission_of(all.last()));
    }
}

/// Whatever the device lists, only packages with safe names are offered for uninstalling.
pub proof fn uninstallable_are_safe(text: Seq<char>)
    ensures
        forall|i: int|
            0 <= i < uninstallable(text).len() ==> is_package_name(#[trigger] uninstallable(text)[i]),
{
    let all = after_package(trimmed_lines(text));
    let safe = |package: Seq<char>| is_package_name(package);
    assert forall|i: int| 0 <= i < uninstallable(text).len() implies is_package_name(
        #[trigger] uninstallable(text)[i],
    ) by {
        all.lemma_filter_pred(safe, i);
    }
}

/// The package that is new is listed now and was not before, and all that is listed ahead of it was;
/// there is none only where all that is listed now was listed before.
pub proof fn first_new_is_new(after: Seq<Seq<char>>, before: Seq<Seq<char>>)
    ensures
        match first_new(after, before) {
            Some(p) => {
                &&& !before.contains(p)
                &&& exists|k: int|
                    {
                        &&& 0 <= k < after.len()
                        &&& #[trigger] after[k] == p
                        &&& forall|i: int| 0 <= i < k ==> before.contains(#[trigger] after[i])
                    }
            },
            None => forall|i: int| 0 <= i < after.len() ==> before.contains(#[trigger] after[i]),
        },
    decreases after.len(),
{
    if after.len() > 0 && before.contains(after[0]) {
        let rest = after.skip(1);
        first_new_is_new(rest, before);
        assert forall|i: int| 0 < i < after.len() implies #[trigger] after[i] == rest[i - 1] by {}
        if let Some(p) = first_new(after, before) {
            let k = choose|k: int|
                {
                    &&& 0 <= k < rest.len()
                    &&& #[trigger] rest[k] == p
                    &&& forall|i: int| 0 <= i < k ==> before.contains(#[trigger] rest[i])
                };
            assert(after[k + 1] == p);
        }
    } else if after.len() > 0 {
        assert(after[0] == first_new(after, before)->0);
    }
}

}
