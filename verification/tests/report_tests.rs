use monitor::report::{active_summary, log_line};
use monitor::table::Table;
use monitor::tally::Tally;
use monitor::text::{is_whitespace, lower, upper};
use monitor::scan::{
    ends_with, find, join_text, matches_at, same_text, slice, split_text, starts_with, trim_text,
};
use monitor::ActiveProgram;

fn key(program: &str, subprogram: Option<&str>) -> ActiveProgram {
    ActiveProgram { program: program.to_string(), subprogram: subprogram.map(|s| s.to_string()) }
}

fn chars(s: &str) -> Vec<char> {
    s.chars().collect()
}

fn text(v: &Vec<char>) -> String {
    v.iter().collect()
}

fn pieces(s: &str, pat: &str) -> Vec<String> {
    split_text(&chars(s), &chars(pat)).iter().map(text).collect()
}

#[test]
fn summary_adds_up_the_focused_time_of_each_program() {
    let mut tally: Tally<ActiveProgram> = Table::new();
    tally.insert(key("Firefox", Some("youtube.com")), 10);
    tally.insert(key("Code", Some("monitor")), 5);
    tally.insert(key("Firefox", None), 7);
    tally.insert(key("Firefox", Some("quizlet.com")), 1);
    let summary = active_summary(&tally).unwrap();
    assert_eq!(summary.len(), 2);
    let firefox = summary.get(&"Firefox".to_string()).unwrap();
    assert_eq!(firefox.seconds, 18);
    assert_eq!(firefox.subprograms, vec!["youtube.com".to_string(), "quizlet.com".to_string()]);
    let code = summary.get(&"Code".to_string()).unwrap();
    assert_eq!(code.seconds, 5);
    assert_eq!(code.subprograms, vec!["monitor".to_string()]);
}

#[test]
fn summary_of_nothing_is_empty() {
    let tally: Tally<ActiveProgram> = Table::new();
    assert_eq!(active_summary(&tally).unwrap().len(), 0);
}

#[test]
fn summary_that_leaves_the_range_is_refused() {
    let mut tally: Tally<ActiveProgram> = Table::new();
    tally.insert(key("Firefox", Some("a")), u32::MAX);
    tally.insert(key("Code", None), 1);
    assert!(active_summary(&tally).is_some());
    tally.insert(key("Firefox", Some("b")), 1);
    assert!(active_summary(&tally).is_none());
    tally.insert(key("Firefox", Some("b")), 0);
    assert_eq!(active_summary(&tally).unwrap().get(&"Firefox".to_string()).unwrap().seconds, u32::MAX);
}

#[test]
fn log_line_names_the_severity() {
    assert_eq!(log_line(0, "username: ann"), "[\0".to_string() + "33[34mINFO\0" + "33[0m]: username: ann");
    assert_eq!(log_line(1, "w"), "[\0".to_string() + "33[33mWARN\0" + "33[0m]: w");
    assert_eq!(log_line(2, "e"), "[\0".to_string() + "33[31mERROR\0" + "33[0m]: e");
    assert_eq!(log_line(255, ""), "[\0".to_string() + "33[31mERROR\0" + "33[0m]: ");
}

#[test]
fn white_space_is_what_unicode_says() {
    for c in ['\t', '\n', '\u{b}', '\u{c}', '\r', ' ', '\u{85}', '\u{a0}', '\u{1680}', '\u{2000}',
        '\u{200a}', '\u{2028}', '\u{2029}', '\u{202f}', '\u{205f}', '\u{3000}'] {
        assert!(is_whitespace(c));
    }
    for c in ['a', '0', '\u{8}', '\u{e}', '\u{1f}', '\u{200b}', '\u{180e}', '\u{2014}', '\u{feff}'] {
        assert!(!is_whitespace(c));
    }
}

#[test]
fn white_space_agrees_with_the_standard_library() {
    let mut c = 0u32;
    while c <= 0x3100 {
        if let Some(ch) = char::from_u32(c) {
            assert_eq!(is_whitespace(ch), ch.is_whitespace());
        }
        c += 1;
    }
}

#[test]
fn case_mapping_is_that_of_the_standard_library() {
    assert_eq!(upper('a'), vec!['A']);
    assert_eq!(upper('Z'), vec!['Z']);
    assert_eq!(upper('1'), vec!['1']);
    assert_eq!(upper('\u{e9}'), vec!['\u{c9}']);
    assert_eq!(upper('\u{df}'), vec!['S', 'S']);
    assert_eq!(text(&lower(&chars("HeLLo W0RLD"))), "hello w0rld");
    assert_eq!(text(&lower(&chars("\u{c9}COLE"))), "\u{e9}cole");
    assert_eq!(text(&lower(&chars(""))), "");
    assert_eq!(text(&lower(&chars("\u{39f}\u{394}\u{39f}\u{3a3}"))), "\u{3bf}\u{3b4}\u{3bf}\u{3c2}");
}

#[test]
fn texts_are_searched_from_left_to_right() {
    let s = chars("a - b - c");
    let pat = chars(" - ");
    assert!(matches_at(&s, &pat, 1));
    assert!(!matches_at(&s, &pat, 0));
    assert!(!matches_at(&s, &pat, 7));
    assert!(!matches_at(&s, &pat, 100));
    assert_eq!(find(&s, &pat, 0), Some(1));
    assert_eq!(find(&s, &pat, 2), Some(5));
    assert_eq!(find(&s, &pat, 6), None);
    assert_eq!(find(&s, &pat, 100), None);
    assert_eq!(find(&s, &chars(""), 4), Some(4));
    assert_eq!(find(&s, &chars(""), 9), Some(9));
    assert_eq!(find(&s, &chars(""), 10), None);
    assert!(starts_with(&s, &chars("a -")));
    assert!(starts_with(&s, &chars("")));
    assert!(!starts_with(&s, &chars("b")));
    assert!(ends_with(&s, &chars("- c")));
    assert!(ends_with(&s, &s));
    assert!(!ends_with(&s, &chars("xa - b - c")));
    assert!(same_text(&s, &chars("a - b - c")));
    assert!(!same_text(&s, &chars("a - b - d")));
    assert!(!same_text(&s, &chars("a - b")));
    assert_eq!(text(&slice(&s, 4, 5)), "b");
    assert_eq!(text(&slice(&s, 9, 9)), "");
}

#[test]
fn texts_are_cut_at_each_occurrence() {
    assert_eq!(pieces("a - b - c", " - "), vec!["a", "b", "c"]);
    assert_eq!(pieces("abc", " - "), vec!["abc"]);
    assert_eq!(pieces("", "|"), vec![""]);
    assert_eq!(pieces("|", "|"), vec!["", ""]);
    assert_eq!(pieces("a||b|", "|"), vec!["a", "", "b", ""]);
    assert_eq!(pieces("aaa", "aa"), vec!["", "a"]);
    assert_eq!(pieces("a -  - b", " - "), vec!["a", "", "b"]);
    assert_eq!(pieces("abc", ""), vec!["abc"]);
}

#[test]
fn cutting_agrees_with_the_standard_library() {
    let samples = ["", "a", "a - b", " - ", "a - b - c", " -  - ", "x--y", "- - -", "a b  c"];
    let patterns = [" - ", "-", " ", "- ", "|"];
    for sample in samples {
        for pattern in patterns {
            let expected: Vec<String> = sample.split(pattern).map(|s| s.to_string()).collect();
            assert_eq!(pieces(sample, pattern), expected);
        }
    }
}

#[test]
fn texts_are_joined_with_a_separator() {
    let parts = vec![chars("a"), chars(""), chars("bc")];
    assert_eq!(text(&join_text(&parts, &chars(", "))), "a, , bc");
    assert_eq!(text(&join_text(&vec![chars("a")], &chars(", "))), "a");
    assert_eq!(text(&join_text(&Vec::new(), &chars(", "))), "");
}

#[test]
fn texts_are_trimmed_at_both_ends() {
    assert_eq!(text(&trim_text(&chars("  a b \t\n"))), "a b");
    assert_eq!(text(&trim_text(&chars("a"))), "a");
    assert_eq!(text(&trim_text(&chars(""))), "");
    assert_eq!(text(&trim_text(&chars(" \u{a0}\u{3000} "))), "");
    assert_eq!(text(&trim_text(&chars("\u{2003}x\u{200b} "))), "x\u{200b}");
}
