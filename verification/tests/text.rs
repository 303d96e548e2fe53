use helix_plugin::text::{
    blank, contains_char, lines, split_once_char, starts_with_char, starts_with_text, trim,
    trim_end_matches_text, whitespace,
};

#[test]
fn blank_is_nothing_but_white_space() {
    assert!(blank(""));
    assert!(blank(" \t\r\n"));
    assert!(blank("\u{2028}\u{3000}"));
    assert!(!blank(" x "));
    assert!(!blank("\u{200b}"));
}

#[test]
fn contains_char_finds_the_character() {
    assert!(contains_char("a:b", ':'));
    assert!(contains_char(":", ':'));
    assert!(contains_char("héllo:", ':'));
    assert!(!contains_char("", ':'));
    assert!(!contains_char("abc", ':'));
    assert!(contains_char("naïve", 'ï'));
}

#[test]
fn starts_with_char_looks_at_the_first_character() {
    assert!(starts_with_char("#x", '#'));
    assert!(starts_with_char("#", '#'));
    assert!(starts_with_char("éa", 'é'));
    assert!(!starts_with_char("", '#'));
    assert!(!starts_with_char("x#", '#'));
}

#[test]
fn starts_with_text_compares_the_prefix() {
    assert!(starts_with_text("git@github.com:o/r", "git@"));
    assert!(starts_with_text("git@", "git@"));
    assert!(starts_with_text("anything", ""));
    assert!(starts_with_text("", ""));
    assert!(!starts_with_text("git", "git@"));
    assert!(!starts_with_text("xgit@", "git@"));
    assert!(!starts_with_text("", "git@"));
    assert!(starts_with_text("héllo wörld", "héllo"));
}

#[test]
fn split_once_char_cuts_at_the_first_occurrence() {
    assert_eq!(split_once_char("a:b:c", ':'), Some(("a", "b:c")));
    assert_eq!(split_once_char(":b", ':'), Some(("", "b")));
    assert_eq!(split_once_char("a:", ':'), Some(("a", "")));
    assert_eq!(split_once_char(":", ':'), Some(("", "")));
    assert_eq!(split_once_char("é:ü", ':'), Some(("é", "ü")));
    assert_eq!(split_once_char("abc", ':'), None);
    assert_eq!(split_once_char("", ':'), None);
    for text in ["a:b:c", ":b", "a:", ":", "é:ü", "abc", ""] {
        assert_eq!(split_once_char(text, ':'), text.split_once(':'), "{text}");
    }
}

#[test]
fn trim_end_matches_text_takes_every_suffix_off() {
    assert_eq!(trim_end_matches_text("repo.git", ".git"), "repo");
    assert_eq!(trim_end_matches_text("repo.git.git", ".git"), "repo");
    assert_eq!(trim_end_matches_text("repo", ".git"), "repo");
    assert_eq!(trim_end_matches_text(".git", ".git"), "");
    assert_eq!(trim_end_matches_text("", ".git"), "");
    assert_eq!(trim_end_matches_text("git", ".git"), "git");
    assert_eq!(trim_end_matches_text("aaa", "aa"), "a");
    assert_eq!(trim_end_matches_text("répo.git", ".git"), "répo");
    assert_eq!(trim_end_matches_text("repo", ""), "repo");
    for (text, suffix) in [("repo.git.git", ".git"), ("aaa", "aa"), ("abab", "ab"), ("x", "xx")] {
        assert_eq!(trim_end_matches_text(text, suffix), text.trim_end_matches(suffix), "{text}");
    }
}

#[test]
fn whitespace_is_what_std_takes_for_it() {
    for code in 0..=0x10FFFFu32 {
        if let Some(c) = char::from_u32(code) {
            assert_eq!(whitespace(c), c.is_whitespace(), "U+{code:04X}");
        }
    }
}

#[test]
fn whitespace_knows_the_usual_characters() {
    for c in [' ', '\t', '\n', '\r', '\u{b}', '\u{c}', '\u{85}', '\u{a0}', '\u{2003}', '\u{3000}'] {
        assert!(whitespace(c), "{c:?}");
    }
    for c in ['a', '0', '_', '\u{0}', '\u{8}', '\u{e}', '\u{200b}', '\u{180e}', '\u{feff}'] {
        assert!(!whitespace(c), "{c:?}");
    }
}

#[test]
fn trim_takes_white_space_off_both_ends() {
    assert_eq!(trim("  build: deps \t"), "build: deps");
    assert_eq!(trim("build"), "build");
    assert_eq!(trim("\r\n x y \u{a0}"), "x y");
    assert_eq!(trim(" é "), "é");
    assert_eq!(trim("a"), "a");
    assert_eq!(trim(" a"), "a");
    assert_eq!(trim("a "), "a");
    assert_eq!(trim("   "), "");
    assert_eq!(trim(""), "");
}

#[test]
fn trim_is_what_std_makes_of_the_text() {
    let pieces = ["", " ", "\t", "\u{3000}", "a", "é", ":", "a b", "\u{200b}", "\n"];
    for first in pieces {
        for second in pieces {
            for third in pieces {
                let text = format!("{first}{second}{third}");
                assert_eq!(trim(&text), text.trim(), "{text:?}");
            }
        }
    }
}

#[test]
fn lines_end_with_newline_or_return_and_newline() {
    assert_eq!(lines("a\nb"), vec!["a", "b"]);
    assert_eq!(lines("a\nb\n"), vec!["a", "b"]);
    assert_eq!(lines("a\r\nb\r\n"), vec!["a", "b"]);
    assert_eq!(lines("a\n\nb"), vec!["a", "", "b"]);
    assert_eq!(lines("\n"), vec![""]);
    assert_eq!(lines("\r\n"), vec![""]);
    assert_eq!(lines("a\rb\n"), vec!["a\rb"]);
    assert_eq!(lines("a\r\r\n"), vec!["a\r"]);
    assert_eq!(lines("a\r"), vec!["a\r"]);
    assert_eq!(lines("é: ü\n"), vec!["é: ü"]);
    assert_eq!(lines("one"), vec!["one"]);
    assert_eq!(lines(""), Vec::<String>::new());
}

#[test]
fn lines_are_what_std_makes_of_the_text() {
    let pieces = ["", "a", "\n", "\r", "\r\n", "é", " ", "b:c"];
    for first in pieces {
        for second in pieces {
            for third in pieces {
                for fourth in pieces {
                    let text = format!("{first}{second}{third}{fourth}");
                    let expected: Vec<String> = text.lines().map(str::to_string).collect();
                    assert_eq!(lines(&text), expected, "{text:?}");
                }
            }
        }
    }
}
