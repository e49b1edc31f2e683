use chery_apk_install::text::{
    at_most, begins, chars_of, concat2, concat3, concat4, copies, finishes, includes,
    includes_char, joined, lowered, matches_at, owned, same, slice, sort_rows, spaced,
    split_lines, split_words, text_of, texts_of, trimmed, trimmed_by, CharSet,
};
use chery_apk_install::worklog::{split_filled_lines, WorkLog};

fn all_chars() -> Vec<char> {
    (0..=0x10FFFFu32).filter_map(char::from_u32).collect()
}

fn samples() -> Vec<&'static str> {
    vec![
        "",
        " ",
        "\n",
        "\r\n",
        "\r",
        "a",
        " a ",
        "a\nb",
        "a\r\nb\r\n",
        "a\r\r\nb",
        "a\rb",
        "a\n\nb\n",
        "\n\n",
        "one two  three",
        "\t one\u{a0}two\u{3000}three \n",
        "\u{200b}x\u{200b}",
        "русский текст\nвторая строка",
        "end\r",
        "[a, b];",
    ]
}

#[test]
fn white_space_is_that_of_unicode() {
    for c in all_chars() {
        assert_eq!(CharSet::White.has(c), c.is_whitespace(), "{:?}", c);
    }
}

#[test]
fn wrapping_characters_are_brackets_separators_and_quotes() {
    let found: String = all_chars().into_iter().filter(|c| CharSet::Wrapping.has(*c)).collect();
    assert_eq!(found, "\"'(),:;[]{}");
}

#[test]
fn lines_are_those_of_std() {
    for s in samples() {
        let expected: Vec<String> = s.lines().map(str::to_string).collect();
        assert_eq!(texts_of(&split_lines(&chars_of(s))), expected, "{:?}", s);
    }
}

#[test]
fn words_are_those_of_std() {
    for s in samples() {
        let expected: Vec<String> = s.split_whitespace().map(str::to_string).collect();
        assert_eq!(texts_of(&split_words(&chars_of(s))), expected, "{:?}", s);
    }
}

#[test]
fn trimming_is_that_of_std() {
    for s in samples() {
        assert_eq!(text_of(&trimmed(&chars_of(s))), s.trim(), "{:?}", s);
        let expected = s.trim_matches(|c: char| "{}[](),;:\"'".contains(c));
        assert_eq!(text_of(&trimmed_by(&chars_of(s), CharSet::Wrapping)), expected, "{:?}", s);
    }
}

#[test]
fn only_ascii_letters_are_lowered() {
    for c in all_chars() {
        let low = lowered(&vec![c]);
        assert_eq!(low, vec![c.to_ascii_lowercase()]);
    }
    assert_eq!(text_of(&lowered(&chars_of("DesaySV ЯК"))), "desaysv ЯК");
}

#[test]
fn underscores_become_spaces() {
    assert_eq!(text_of(&spaced(&chars_of("_a__b_"))), " a  b ");
}

#[test]
fn characters_and_strings_convert_both_ways() {
    for s in samples() {
        let expected: Vec<char> = s.chars().collect();
        assert_eq!(chars_of(s), expected);
        assert_eq!(text_of(&chars_of(s)), s);
    }
}

#[test]
fn parts_are_found_where_they_are() {
    let s = chars_of("abcabd");
    assert!(matches_at(&s, &chars_of("abd"), 3));
    assert!(!matches_at(&s, &chars_of("abd"), 0));
    assert!(!matches_at(&s, &chars_of("abd"), 4));
    assert!(begins(&s, &chars_of("abc")));
    assert!(begins(&s, &chars_of("")));
    assert!(!begins(&s, &chars_of("abd")));
    assert!(!begins(&chars_of("ab"), &chars_of("abc")));
    assert!(finishes(&s, &chars_of("abd")));
    assert!(!finishes(&s, &chars_of("abc")));
    assert!(!finishes(&chars_of("d"), &chars_of("bd")));
    assert!(includes(&s, &chars_of("cab")));
    assert!(includes(&s, &chars_of("")));
    assert!(!includes(&s, &chars_of("cabc")));
    assert!(includes_char(&s, 'd'));
    assert!(!includes_char(&s, 'e'));
    assert!(same(&s, &chars_of("abcabd")));
    assert!(!same(&s, &chars_of("abcab")));
    assert_eq!(text_of(&slice(&s, 2, 4)), "ca");
}

#[test]
fn strings_are_put_together() {
    assert_eq!(concat2("a", "б"), "aб");
    assert_eq!(concat3("a", "", "c"), "ac");
    assert_eq!(concat4("1", "2", "3", "4"), "1234");
    assert_eq!(text_of(&joined(&vec![chars_of("a"), chars_of(""), chars_of("c")], ' ')), "a  c");
    assert_eq!(text_of(&joined(&vec![], ' ')), "");
    assert_eq!(owned(&["x", "y"]), vec!["x".to_string(), "y".to_string()]);
    assert_eq!(copies(&vec!["x".to_string()]), vec!["x".to_string()]);
}

#[test]
fn rows_are_sorted_as_strings_are() {
    let given = ["b.c", "a.b.c", "a.b", "Z.z", "b.C", "ю.я", "a_b", "a.b", ""];
    let mut expected: Vec<String> = given.iter().map(|s| s.to_string()).collect();
    expected.sort();
    let rows: Vec<Vec<char>> = given.iter().map(|s| chars_of(s)).collect();
    assert_eq!(texts_of(&sort_rows(rows)), expected);
    assert!(at_most(&chars_of("a.b"), &chars_of("a.b.c")));
    assert!(!at_most(&chars_of("b"), &chars_of("a.b.c")));
}

#[test]
fn the_log_keeps_its_entries_in_order() {
    let mut log = WorkLog::new();
    log.info("done");
    log.warn("not done");
    assert_eq!(log.steps.len(), 2);
    assert_eq!((log.steps[0].level.as_str(), log.steps[0].message.as_str()), ("info", "done"));
    assert_eq!((log.steps[1].level.as_str(), log.steps[1].message.as_str()), ("warn", "not done"));
    let copy = log.copy();
    assert_eq!(copy.steps[1].message, "not done");
}

#[test]
fn blank_lines_are_left_out_and_others_kept_as_they_are() {
    assert_eq!(
        split_filled_lines("  Success \n\n \t\r\nnext\r\n"),
        vec!["  Success ".to_string(), "next".to_string()]
    );
}
