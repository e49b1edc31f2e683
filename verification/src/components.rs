//! Android component names, and how they are found in the output of a device.

use vstd::prelude::*;

use crate::session::{halt_of, run_adb, session_is_live, AdbTarget, Halt, Session, Talk, TargetView};
use crate::text::{
    begins, chars_of, concat2, concat3, has_text, includes, is_white, join, joined, lines, rows, slice,
    split_lines, split_words, starts_with, strs, text_of, texts, trim_set, trimmed_by, words,
    words_of_two_texts, CharSet,
};

verus! {

broadcast use session_is_live;

/// A letter or digit of ASCII.
pub open spec fn is_alphanumeric(c: char) -> bool {
    '0' <= c <= '9' || 'a' <= c <= 'z' || 'A' <= c <= 'Z'
}

/// Tests for a letter or digit of ASCII.
pub fn alphanumeric(c: char) -> (r: bool)
    ensures
        r == is_alphanumeric(c),
{
    ('0' <= c && c <= '9') || ('a' <= c && c <= 'z') || ('A' <= c && c <= 'Z')
}

/// A character that a class name may hold.
pub open spec fn is_class_char(c: char) -> bool {
    is_alphanumeric(c) || c == '.' || c == '_' || c == '$'
}

/// Whether a text is a class name that is safe to hand to a shell.
pub open spec fn is_class_name(name: Seq<char>) -> bool {
    name.len() > 0 && forall|i: int| 0 <= i < name.len() ==> is_class_char(#[trigger] name[i])
}

/// Whether the characters of `name` make a class name that is safe to hand to a shell.
fn class_name(name: &Vec<char>) -> (r: bool)
    ensures
        r == is_class_name(name@),
{
    let mut i: usize = 0;
    while i < name.len()
        invariant
            i <= name.len(),
            forall|k: int| 0 <= k < i ==> is_class_char(#[trigger] name@[k]),
        decreases name.len() - i,
    {
        let c: char = name[i];
        if !(alphanumeric(c) || c == '.' || c == '_' || c == '$') {
            assert(!is_class_char(name@[i as int]));
            return false;
        }
        i = i + 1;
    }
    name.len() > 0
}

/// Whether a text is a class name that is safe to hand to a shell.
pub fn is_safe_component_class_name(name: &str) -> (r: bool)
    ensures
        r == is_class_name(name@),
{
    class_name(&chars_of(name))
}

/// The component of the package that a token names: either written out, the package and the class
/// with a slash between them, or as a class below the package.
pub open spec fn component(package: Seq<char>, token: Seq<char>) -> Option<Seq<char>> {
    if starts_with(token, package + "/"@) && is_class_name(
        token.skip((package + "/"@).len() as int),
    ) {
        Some(package + "/"@ + token.skip((package + "/"@).len() as int))
    } else if starts_with(token, package + "."@) && token.len() > package.len() + 1
        && is_class_name(token) {
        Some(package + "/"@ + token)
    } else {
        None
    }
}

/// The component of the package that a token names.
fn read_component(package: &str, token: &Vec<char>) -> (r: Option<String>)
    ensures
        match r {
            Some(c) => component(package@, token@) == Some(c@),
            None => component(package@, token@) is None,
        },
{
    let full = chars_of(concat2(package, "/").as_str());
    if begins(token, &full) {
        let class = slice(token, full.len(), token.len());
        assert(class@ =~= token@.skip(full@.len() as int));
        if class_name(&class) {
            return Some(concat3(package, "/", text_of(&class).as_str()));
        }
    }
    let below = chars_of(concat2(package, ".").as_str());
    proof {
        reveal_strlit(".");
        assert(below@.len() == package@.len() + 1);
    }
    if begins(token, &below) && token.len() > below.len() && class_name(token) {
        return Some(concat3(package, "/", text_of(token).as_str()));
    }
    None
}

/// The component of the package that a token names.
pub fn normalize_component_candidate(package_name: &str, token: &str) -> (r: Option<String>)
    ensures
        match r {
            Some(c) => component(package_name@, token@) == Some(c@),
            None => component(package_name@, token@) is None,
        },
{
    read_component(package_name, &chars_of(token))
}

/// The list with one more text, if it does not hold it yet.
pub open spec fn with_text(values: Seq<Seq<char>>, value: Seq<char>) -> Seq<Seq<char>> {
    if values.contains(value) {
        values
    } else {
        values.push(value)
    }
}

/// Adds a string to a list that does not hold it yet.
pub fn push_unique(values: &mut Vec<String>, value: String)
    ensures
        texts(final(values)@) == with_text(texts(old(values)@), value@),
{
    let mut i: usize = 0;
    while i < values.len()
        invariant
            i <= values.len(),
            *values == *old(values),
            forall|k: int| 0 <= k < i ==> values@[k]@ != value@,
        decreases values.len() - i,
    {
        if values[i] == value {
            assert(texts(values@)[i as int] == value@);
            return;
        }
        i = i + 1;
    }
    assert(!texts(values@).contains(value@)) by {
        if texts(values@).contains(value@) {
            let k = choose|k: int| 0 <= k < texts(values@).len() && texts(values@)[k] == value@;
            assert(values@[k]@ == value@);
        }
    }
    values.push(value);
    assert(texts(values@) =~= texts(old(values)@).push(value@));
}

/// The list with the component that a word names, without the characters that wrap it.
pub open spec fn with_word(package: Seq<char>, found: Seq<Seq<char>>, word: Seq<char>) -> Seq<
    Seq<char>,
> {
    match component(package, trim_set(word, CharSet::Wrapping)) {
        Some(c) => with_text(found, c),
        None => found,
    }
}

/// The list with the components that the words of a text name.
pub open spec fn with_components(
    package: Seq<char>,
    text: Seq<char>,
    found: Seq<Seq<char>>,
) -> Seq<Seq<char>> {
    words(text).fold_left(
        found,
        |found: Seq<Seq<char>>, word: Seq<char>| with_word(package, found, word),
    )
}

/// Adds the components that the words of a text name.
fn collect_components(package: &str, text: &Vec<char>, candidates: &mut Vec<String>)
    ensures
        texts(final(candidates)@) == with_components(package@, text@, texts(old(candidates)@)),
{
    let all = split_words(text);
    let ghost start = texts(candidates@);
    let ghost step = |found: Seq<Seq<char>>, word: Seq<char>| with_word(package@, found, word);
    let mut i: usize = 0;
    while i < all.len()
        invariant
            i <= all.len(),
            rows(all@) == words(text@),
            step == (|found: Seq<Seq<char>>, word: Seq<char>| with_word(package@, found, word)),
            texts(candidates@) == rows(all@).take(i as int).fold_left(start, step),
        decreases all.len() - i,
    {
        assert(rows(all@).take(i + 1).drop_last() =~= rows(all@).take(i as int));
        assert(rows(all@).take(i + 1).last() == all@[i as int]@);
        let token = trimmed_by(&all[i], CharSet::Wrapping);
        match read_component(package, &token) {
            Some(c) => push_unique(candidates, c),
            None => {},
        }
        i = i + 1;
    }
    assert(rows(all@).take(all@.len() as int) =~= rows(all@));
}

/// Adds the components that the words of a text name.
pub fn extract_component_candidates(package_name: &str, text: &str, candidates: &mut Vec<String>)
    ensures
        texts(final(candidates)@) == with_components(
            package_name@,
            text@,
            texts(old(candidates)@),
        ),
{
    collect_components(package_name, &chars_of(text), candidates)
}

/// Whether a line holds one of the marks.
pub open spec fn is_marked(line: Seq<char>, marks: Seq<Seq<char>>) -> bool {
    exists|k: int| 0 <= k < marks.len() && has_text(line, #[trigger] marks[k])
}

/// Line `i` with the six lines before it and the six after it.
pub open spec fn around(all: Seq<Seq<char>>, i: int) -> Seq<char> {
    join(
        all.subrange(
            if i >= 6 {
                i - 6
            } else {
                0
            },
            if i + 7 <= all.len() {
                i + 7
            } else {
                all.len() as int
            },
        ),
        seq!['\n'],
    )
}

/// The list with the components that stand around the marked ones of the first `n` lines.
pub open spec fn with_marked(
    package: Seq<char>,
    all: Seq<Seq<char>>,
    marks: Seq<Seq<char>>,
    n: nat,
    found: Seq<Seq<char>>,
) -> Seq<Seq<char>>
    decreases n,
{
    if n == 0 {
        found
    } else {
        let before = with_marked(package, all, marks, (n - 1) as nat, found);
        if is_marked(all[n - 1], marks) {
            with_components(package, around(all, n - 1), before)
        } else {
            before
        }
    }
}

/// The list with the components that stand around the marked lines of a text.
pub open spec fn with_components_near(
    package: Seq<char>,
    text: Seq<char>,
    marks: Seq<Seq<char>>,
    found: Seq<Seq<char>>,
) -> Seq<Seq<char>> {
    with_marked(package, lines(text), marks, lines(text).len(), found)
}

/// Whether a line holds one of the marks.
fn marked(line: &Vec<char>, marks: &[&str]) -> (r: bool)
    ensures
        r == is_marked(line@, strs(marks@)),
{
    let mut k: usize = 0;
    while k < marks.len()
        invariant
            k <= marks.len(),
            forall|j: int| 0 <= j < k ==> !has_text(line@, #[trigger] strs(marks@)[j]),
        decreases marks.len() - k,
    {
        if includes(line, &chars_of(marks[k])) {
            assert(has_text(line@, strs(marks@)[k as int]));
            return true;
        }
        k = k + 1;
    }
    false
}

/// Line `i` with the six lines before it and the six after it.
fn surroundings(all: &Vec<Vec<char>>, i: usize) -> (r: Vec<char>)
    requires
        i < all.len(),
    ensures
        r@ == around(rows(all@), i as int),
{
    let start: usize = if i >= 6 {
        i - 6
    } else {
        0
    };
    let end: usize = if all.len() - i > 7 {
        i + 7
    } else {
        all.len()
    };
    let mut part: Vec<Vec<char>> = Vec::new();
    let mut k: usize = start;
    while k < end
        invariant
            start <= k <= end <= all.len(),
            rows(part@) == rows(all@).subrange(start as int, k as int),
        decreases end - k,
    {
        let ghost before = rows(part@);
        let row = slice(&all[k], 0, all[k].len());
        assert(row@ =~= all@[k as int]@);
        part.push(row);
        assert(rows(part@) =~= before.push(row@));
        assert(rows(part@) =~= rows(all@).subrange(start as int, k + 1));
        k = k + 1;
    }
    joined(&part, '\n')
}

/// Adds the components that stand around the marked lines of a text.
fn collect_near(package: &str, text: &str, marks: &[&str], candidates: &mut Vec<String>)
    ensures
        texts(final(candidates)@) == with_components_near(
            package@,
            text@,
            strs(marks@),
            texts(old(candidates)@),
        ),
{
    let all = split_lines(&chars_of(text));
    let ghost start = texts(candidates@);
    let mut i: usize = 0;
    while i < all.len()
        invariant
            i <= all.len(),
            rows(all@) == lines(text@),
            texts(candidates@) == with_marked(
                package@,
                rows(all@),
                strs(marks@),
                i as nat,
                start,
            ),
        decreases all.len() - i,
    {
        assert(rows(all@)[i as int] == all@[i as int]@);
        if marked(&all[i], marks) {
            collect_components(package, &surroundings(&all, i), candidates);
        }
        i = i + 1;
    }
}

/// What marks a notification listener in the description of a package.
pub open spec fn listener_marks() -> Seq<Seq<char>> {
    seq![
        "android.service.notification.NotificationListenerService"@,
        "android.permission.BIND_NOTIFICATION_LISTENER_SERVICE"@,
    ]
}

/// What marks a device administrator in the description of a package.
pub open spec fn admin_marks() -> Seq<Seq<char>> {
    seq![
        "android.app.action.DEVICE_ADMIN_ENABLED"@,
        "android.permission.BIND_DEVICE_ADMIN"@,
        "android.app.device_admin"@,
    ]
}

/// Adds the components that stand near a notification listener in the description of a package.
pub fn extract_notification_listener_candidates(
    package_name: &str,
    text: &str,
    candidates: &mut Vec<String>,
)
    ensures
        texts(final(candidates)@) == with_components_near(
            package_name@,
            text@,
            listener_marks(),
            texts(old(candidates)@),
        ),
{
    let marks = [
        "android.service.notification.NotificationListenerService",
        "android.permission.BIND_NOTIFICATION_LISTENER_SERVICE",
    ];
    assert(strs(marks@) =~= listener_marks());
    collect_near(package_name, text, &marks, candidates)
}

/// Adds the components that stand near a device administrator in the description of a package.
pub fn extract_device_admin_candidates(
    package_name: &str,
    text: &str,
    candidates: &mut Vec<String>,
)
    ensures
        texts(final(candidates)@) == with_components_near(
            package_name@,
            text@,
            admin_marks(),
            texts(old(candidates)@),
        ),
{
    let marks = [
        "android.app.action.DEVICE_ADMIN_ENABLED",
        "android.permission.BIND_DEVICE_ADMIN",
        "android.app.device_admin",
    ];
    assert(strs(marks@) =~= admin_marks());
    collect_near(package_name, text, &marks, candidates)
}

/// The arguments that make a device list the notification listeners of a package.
pub open spec fn listener_query(package: Seq<char>) -> Seq<Seq<char>> {
    seq![
        "shell"@,
        "cmd"@,
        "package"@,
        "query-services"@,
        "-a"@,
        "android.service.notification.NotificationListenerService"@,
        package,
    ]
}

/// The arguments that make a device list the device administrators of a package.
pub open spec fn admin_query(package: Seq<char>) -> Seq<Seq<char>> {
    seq![
        "shell"@,
        "cmd"@,
        "package"@,
        "query-receivers"@,
        "-a"@,
        "android.app.action.DEVICE_ADMIN_ENABLED"@,
        package,
    ]
}

/// The arguments that make a device describe a package.
pub open spec fn describe_args(package: Seq<char>) -> Seq<Seq<char>> {
    seq!["shell"@, "dumpsys"@, "package"@, package]
}

impl Talk {
    /// Asks the device for components of the package: those that the query names, and those near
    /// a mark in the description of the package.
    pub open spec fn candidates(
        self,
        adb: TargetView,
        package: Seq<char>,
        query: Seq<Seq<char>>,
        marks: Seq<Seq<char>>,
    ) -> (Talk, Seq<Seq<char>>) {
        let (t1, named) = self.run_adb(adb, query);
        let first = if named.success {
            with_components(package, named.stdout, seq![])
        } else {
            seq![]
        };
        let (t2, dump) = t1.run_adb(adb, describe_args(package));
        (
            t2,
            if dump.success {
                with_components_near(package, dump.stdout, marks, first)
            } else {
                first
            },
        )
    }

    /// Asks the device for the notification listeners of the package.
    pub open spec fn notification_listener_candidates(
        self,
        adb: TargetView,
        package: Seq<char>,
    ) -> (Talk, Seq<Seq<char>>) {
        self.candidates(adb, package, listener_query(package), listener_marks())
    }

    /// Asks the device for the device administrators of the package.
    pub open spec fn device_admin_candidates(self, adb: TargetView, package: Seq<char>) -> (
        Talk,
        Seq<Seq<char>>,
    ) {
        self.candidates(adb, package, admin_query(package), admin_marks())
    }
}

/// Asks the device for the notification listeners of the package.
pub fn notification_listener_candidates(
    adb: &AdbTarget,
    package_name: &str,
    session: &mut Session,
) -> (r: Result<Vec<String>, Halt>)
    ensures
        old(session)@.notification_listener_candidates(adb@, package_name@).0
            == final(session)@.with(halt_of(r)),
        r matches Ok(found) ==> texts(found@) == old(session)@.notification_listener_candidates(
            adb@,
            package_name@,
        ).1,
{
    let mut candidates: Vec<String> = Vec::new();
    assert(texts(candidates@) =~= seq![]);
    let query_args = [
        "shell",
        "cmd",
        "package",
        "query-services",
        "-a",
        "android.service.notification.NotificationListenerService",
        package_name,
    ];
    assert(strs(query_args@) =~= listener_query(package_name@));
    let query = run_adb(adb, &query_args, session)?;
    if query.success {
        extract_component_candidates(package_name, query.stdout.as_str(), &mut candidates);
    }
    let dump_args = ["shell", "dumpsys", "package", package_name];
    assert(strs(dump_args@) =~= describe_args(package_name@));
    let dump = run_adb(adb, &dump_args, session)?;
    if dump.success {
        extract_notification_listener_candidates(
            package_name,
            dump.stdout.as_str(),
            &mut candidates,
        );
    }
    Ok(candidates)
}

/// Asks the device for the device administrators of the package.
pub fn device_admin_candidates(adb: &AdbTarget, package_name: &str, session: &mut Session) -> (r:
    Result<Vec<String>, Halt>)
    ensures
        old(session)@.device_admin_candidates(adb@, package_name@).0 == final(session)@.with(
            halt_of(r),
        ),
        r matches Ok(found) ==> texts(found@) == old(session)@.device_admin_candidates(
            adb@,
            package_name@,
        ).1,
{
    let mut candidates: Vec<String> = Vec::new();
    assert(texts(candidates@) =~= seq![]);
    let query_args = [
        "shell",
        "cmd",
        "package",
        "query-receivers",
        "-a",
        "android.app.action.DEVICE_ADMIN_ENABLED",
        package_name,
    ];
    assert(strs(query_args@) =~= admin_query(package_name@));
    let query = run_adb(adb, &query_args, session)?;
    if query.success {
        extract_component_candidates(package_name, query.stdout.as_str(), &mut candidates);
    }
    let dump_args = ["shell", "dumpsys", "package", package_name];
    assert(strs(dump_args@) =~= describe_args(package_name@));
    let dump = run_adb(adb, &dump_args, session)?;
    if dump.success {
        extract_device_admin_candidates(package_name, dump.stdout.as_str(), &mut candidates);
    }
    Ok(candidates)
}

/// Whether a text is a component of the package: the package and the name of a class, with a slash
/// between them.
pub open spec fn is_component(package: Seq<char>, text: Seq<char>) -> bool {
    starts_with(text, package + "/"@) && is_class_name(text.skip((package + "/"@).len() as int))
}

/// Whether a list holds components of the package only, each of them once.
pub open spec fn is_component_list(package: Seq<char>, list: Seq<Seq<char>>) -> bool {
    &&& forall|i: int| 0 <= i < list.len() ==> is_component(package, #[trigger] list[i])
    &&& list.no_duplicates()
}

/// What a token names is a component of the package, and names itself.
pub proof fn component_is_normal(package: Seq<char>, token: Seq<char>)
    ensures
        component(package, token) matches Some(c) ==> is_component(package, c) && component(
            package,
            c,
        ) == Some(c),
{
    if let Some(c) = component(package, token) {
        let full = package + "/"@;
        assert(c.skip(full.len() as int) =~= if starts_with(token, full) && is_class_name(
            token.skip(full.len() as int),
        ) {
            token.skip(full.len() as int)
        } else {
            token
        });
        assert(c.take(full.len() as int) =~= full);
        assert(full + c.skip(full.len() as int) =~= c);
    }
}

/// Adding a text to a list in which nothing occurs twice keeps it so.
pub proof fn with_text_keeps_unique(values: Seq<Seq<char>>, value: Seq<char>)
    requires
        values.no_duplicates(),
    ensures
        with_text(values, value).no_duplicates(),
        with_text(values, value).contains(value),
{
    if !values.contains(value) {
        assert(values.push(value).last() == value);
    }
}

/// Whether a list goes on from another with components of the package, none of which stood there
/// before.
pub open spec fn adds_components(
    package: Seq<char>,
    found: Seq<Seq<char>>,
    more: Seq<Seq<char>>,
) -> bool {
    &&& found.len() <= more.len()
    &&& more.take(found.len() as int) == found
    &&& forall|i: int| found.len() <= i < more.len() ==> is_component(package, #[trigger] more[i])
    &&& forall|i: int, j: int|
        0 <= i < j && found.len() <= j < more.len() ==> #[trigger] more[i] != #[trigger] more[j]
}

proof fn adds_components_on(
    package: Seq<char>,
    a: Seq<Seq<char>>,
    b: Seq<Seq<char>>,
    c: Seq<Seq<char>>,
)
    requires
        adds_components(package, a, b),
        adds_components(package, b, c),
    ensures
        adds_components(package, a, c),
{
    assert forall|i: int| 0 <= i < b.len() implies #[trigger] c[i] == b[i] by {
        assert(c.take(b.len() as int)[i] == c[i]);
    }
    assert(c.take(a.len() as int) =~= b.take(a.len() as int));
}

/// The list with the components that words name.
spec fn with_words(package: Seq<char>, all: Seq<Seq<char>>, found: Seq<Seq<char>>) -> Seq<
    Seq<char>,
> {
    all.fold_left(
        found,
        |found: Seq<Seq<char>>, word: Seq<char>| with_word(package, found, word),
    )
}

proof fn word_adds_components(package: Seq<char>, found: Seq<Seq<char>>, word: Seq<char>)
    ensures
        adds_components(package, found, with_word(package, found, word)),
{
    let token = trim_set(word, CharSet::Wrapping);
    component_is_normal(package, token);
    let more = with_word(package, found, word);
    assert(more.take(found.len() as int) =~= found);
    assert forall|i: int, j: int|
        0 <= i < j && found.len() <= j < more.len() implies #[trigger] more[i]
        != #[trigger] more[j] by {
        assert(found[i] == more[i]);
        assert(found.contains(more[i]));
    }
}

proof fn words_add_components(package: Seq<char>, all: Seq<Seq<char>>, found: Seq<Seq<char>>)
    ensures
        adds_components(package, found, with_words(package, all, found)),
    decreases all.len(),
{
    if all.len() > 0 {
        let before = with_words(package, all.drop_last(), found);
        words_add_components(package, all.drop_last(), found);
        word_adds_components(package, before, all.last());
        adds_components_on(package, found, before, with_words(package, all, found));
    } else {
        assert(found.take(found.len() as int) =~= found);
    }
}

/// Whatever the text and the list are, the words of the text leave the list as it is and add
/// components of the package behind it, each of them new.
pub proof fn with_components_keeps_list(
    package: Seq<char>,
    text: Seq<char>,
    found: Seq<Seq<char>>,
)
    ensures
        adds_components(package, found, with_components(package, text, found)),
{
    words_add_components(package, words(text), found);
}

/// Whatever the text, the marks and the list are, the lines around the marked ones leave the list
/// as it is and add components of the package behind it, each of them new.
pub proof fn with_components_near_keeps_list(
    package: Seq<char>,
    text: Seq<char>,
    marks: Seq<Seq<char>>,
    found: Seq<Seq<char>>,
)
    ensures
        adds_components(package, found, with_components_near(package, text, marks, found)),
{
    marked_add_components(package, lines(text), marks, lines(text).len(), found);
}

proof fn marked_add_components(
    package: Seq<char>,
    all: Seq<Seq<char>>,
    marks: Seq<Seq<char>>,
    n: nat,
    found: Seq<Seq<char>>,
)
    ensures
        adds_components(package, found, with_marked(package, all, marks, n, found)),
    decreases n,
{
    if n > 0 {
        let before = with_marked(package, all, marks, (n - 1) as nat, found);
        marked_add_components(package, all, marks, (n - 1) as nat, found);
        with_components_keeps_list(package, around(all, n - 1), before);
        if is_marked(all[n - 1], marks) {
            adds_components_on(
                package,
                found,
                before,
                with_components(package, around(all, n - 1), before),
            );
        }
    } else {
        assert(found.take(found.len() as int) =~= found);
    }
}

/// Two texts with white space between them add what the one adds and then what the other adds.
pub proof fn parted_texts_add_in_turn(
    package: Seq<char>,
    a: Seq<char>,
    white: char,
    b: Seq<char>,
    found: Seq<Seq<char>>,
)
    requires
        is_white(white),
    ensures
        with_components(package, a.push(white) + b, found) == with_components(
            package,
            b,
            with_components(package, a, found),
        ),
{
    words_of_two_texts(a, white, b);
    let all = words(a) + words(b);
    let step = |found: Seq<Seq<char>>, word: Seq<char>| with_word(package, found, word);
    all.lemma_fold_left_split(found, step, words(a).len() as int);
    assert(all.subrange(0, words(a).len() as int) =~= words(a));
    assert(all.subrange(words(a).len() as int, all.len() as int) =~= words(b));
}

/// Two texts with a line feed between them add what the one adds and then what the other adds.
pub proof fn joined_texts_add_in_turn(
    package: Seq<char>,
    a: Seq<char>,
    b: Seq<char>,
    found: Seq<Seq<char>>,
)
    ensures
        with_components(package, a.push('\n') + b, found) == with_components(
            package,
            b,
            with_components(package, a, found),
        ),
{
    parted_texts_add_in_turn(package, a, '\n', b, found);
}

/// Whether a list holds every component that words name.
pub open spec fn has_named(package: Seq<char>, all: Seq<Seq<char>>, found: Seq<Seq<char>>) -> bool {
    forall|i: int|
        0 <= i < all.len() ==> (component(
            package,
            trim_set(#[trigger] all[i], CharSet::Wrapping),
        ) matches Some(c) ==> found.contains(c))
}

proof fn still_named(
    package: Seq<char>,
    all: Seq<Seq<char>>,
    found: Seq<Seq<char>>,
    more: Seq<Seq<char>>,
)
    requires
        has_named(package, all, found),
        adds_components(package, found, more),
    ensures
        has_named(package, all, more),
{
    assert forall|c: Seq<char>| found.contains(c) implies #[trigger] more.contains(c) by {
        let k = choose|k: int| 0 <= k < found.len() && found[k] == c;
        assert(more.take(found.len() as int)[k] == more[k]);
    }
}

proof fn named_are_added(package: Seq<char>, all: Seq<Seq<char>>, found: Seq<Seq<char>>)
    ensures
        has_named(package, all, with_words(package, all, found)),
    decreases all.len(),
{
    if all.len() > 0 {
        let first = all.drop_last();
        let before = with_words(package, first, found);
        let after = with_words(package, all, found);
        named_are_added(package, first, found);
        word_adds_components(package, before, all.last());
        still_named(package, first, before, after);
        if let Some(c) = component(package, trim_set(all.last(), CharSet::Wrapping)) {
            if !before.contains(c) {
                assert(after.last() == c);
            }
        }
        assert forall|i: int| 0 <= i < all.len() implies (component(
            package,
            trim_set(#[trigger] all[i], CharSet::Wrapping),
        ) matches Some(c) ==> after.contains(c)) by {
            if i < first.len() {
                assert(first[i] == all[i]);
            }
        }
    }
}

proof fn named_add_nothing(package: Seq<char>, all: Seq<Seq<char>>, found: Seq<Seq<char>>)
    requires
        has_named(package, all, found),
    ensures
        with_words(package, all, found) == found,
    decreases all.len(),
{
    if all.len() > 0 {
        assert forall|i: int| 0 <= i < all.drop_last().len() implies (component(
            package,
            trim_set(#[trigger] all.drop_last()[i], CharSet::Wrapping),
        ) matches Some(c) ==> found.contains(c)) by {
            assert(all.drop_last()[i] == all[i]);
        }
        named_add_nothing(package, all.drop_last(), found);
        assert(all.last() == all[all.len() - 1]);
    }
}

/// A second run over the same text adds nothing.
pub proof fn words_add_once(package: Seq<char>, text: Seq<char>, found: Seq<Seq<char>>)
    ensures
        with_components(package, text, with_components(package, text, found)) == with_components(
            package,
            text,
            found,
        ),
{
    named_are_added(package, words(text), found);
    named_add_nothing(package, words(text), with_components(package, text, found));
}

/// Whether a list holds every component that stands around the marked ones of the first `n` lines.
pub open spec fn has_marked(
    package: Seq<char>,
    all: Seq<Seq<char>>,
    marks: Seq<Seq<char>>,
    n: nat,
    found: Seq<Seq<char>>,
) -> bool {
    forall|i: int|
        0 <= i < n && is_marked(#[trigger] all[i], marks) ==> has_named(
            package,
            words(around(all, i)),
            found,
        )
}

pub(crate) proof fn marked_are_added(
    package: Seq<char>,
    all: Seq<Seq<char>>,
    marks: Seq<Seq<char>>,
    n: nat,
    found: Seq<Seq<char>>,
)
    ensures
        has_marked(package, all, marks, n, with_marked(package, all, marks, n, found)),
    decreases n,
{
    if n > 0 {
        let before = with_marked(package, all, marks, (n - 1) as nat, found);
        let after = with_marked(package, all, marks, n, found);
        marked_are_added(package, all, marks, (n - 1) as nat, found);
        if is_marked(all[n - 1], marks) {
            with_components_keeps_list(package, around(all, n - 1), before);
            named_are_added(package, words(around(all, n - 1)), before);
            assert forall|i: int| 0 <= i < n && is_marked(#[trigger] all[i], marks) implies has_named(
                package,
                words(around(all, i)),
                after,
            ) by {
                if i < n - 1 {
                    still_named(package, words(around(all, i)), before, after);
                }
            }
        }
    }
}

proof fn marked_add_nothing(
    package: Seq<char>,
    all: Seq<Seq<char>>,
    marks: Seq<Seq<char>>,
    n: nat,
    found: Seq<Seq<char>>,
)
    requires
        has_marked(package, all, marks, n, found),
    ensures
        with_marked(package, all, marks, n, found) == found,
    decreases n,
{
    if n > 0 {
        marked_add_nothing(package, all, marks, (n - 1) as nat, found);
        if is_marked(all[n - 1], marks) {
            named_add_nothing(package, words(around(all, n - 1)), found);
        }
    }
}

/// A second run over the marked lines of the same text adds nothing.
pub proof fn marked_lines_add_once(
    package: Seq<char>,
    text: Seq<char>,
    marks: Seq<Seq<char>>,
    found: Seq<Seq<char>>,
)
    ensures
        with_components_near(
            package,
            text,
            marks,
            with_components_near(package, text, marks, found),
        ) == with_components_near(package, text, marks, found),
{
    let n = lines(text).len();
    marked_are_added(package, lines(text), marks, n, found);
    marked_add_nothing(
        package,
        lines(text),
        marks,
        n,
        with_components_near(package, text, marks, found),
    );
}

/// Whatever the device replies, the candidates are components of the package, and none is there
/// twice: nothing else that the device wrote comes into a later command.
pub proof fn candidates_are_components(
    t: Talk,
    adb: TargetView,
    package: Seq<char>,
    query: Seq<Seq<char>>,
    marks: Seq<Seq<char>>,
)
    ensures
        is_component_list(package, t.candidates(adb, package, query, marks).1),
{
    let (t1, named) = t.run_adb(adb, query);
    let dump = t1.run_adb(adb, describe_args(package)).1;
    let first = if named.success {
        with_components(package, named.stdout, seq![])
    } else {
        seq![]
    };
    with_components_keeps_list(package, named.stdout, seq![]);
    with_components_near_keeps_list(package, dump.stdout, marks, first);
    if named.success && dump.success {
        adds_components_on(
            package,
            seq![],
            first,
            with_components_near(package, dump.stdout, marks, first),
        );
    }
}

}
