use hltas_manager::text::{
    clone_texts, decimal_string, has_suffix, holds_text, is_whitespace, join_with_newlines,
    replace_all, same_text, split_each, split_whitespace,
};

fn texts(items: &[&str]) -> Vec<String> {
    items.iter().map(|s| s.to_string()).collect()
}

#[test]
fn whitespace_is_the_unicode_property() {
    for code in 0u32..=0x10FFFF {
        if let Some(c) = char::from_u32(code) {
            assert_eq!(is_whitespace(c), c.is_whitespace(), "U+{:04X}", code);
        }
    }
}

#[test]
fn split_whitespace_gives_the_words() {
    assert_eq!(split_whitespace("+gl_vsync 0"), texts(&["+gl_vsync", "0"]));
    assert_eq!(split_whitespace("-gl"), texts(&["-gl"]));
    assert_eq!(split_whitespace("  a \t b\n\nc  "), texts(&["a", "b", "c"]));
}

#[test]
fn split_whitespace_of_blank_text_is_empty() {
    assert_eq!(split_whitespace(""), Vec::<String>::new());
    assert_eq!(split_whitespace(" \t\u{3000}\n"), Vec::<String>::new());
}

#[test]
fn split_whitespace_agrees_with_std() {
    let samples = [
        "",
        " ",
        "a",
        " a",
        "a ",
        "a b",
        "a\u{A0}b\u{2003}c",
        "-w 1280",
        "+bxt_tas_loadscript my script.hltas",
        "\u{85}x\u{1680}y\u{2028}z\u{2029}",
        "naïve café\tștiință",
        "越 境",
    ];
    for sample in samples {
        let expected: Vec<String> = sample.split_whitespace().map(|s| s.to_string()).collect();
        assert_eq!(split_whitespace(sample), expected, "{:?}", sample);
    }
}

#[test]
fn split_each_lines_the_words_up() {
    let raw = texts(&["-gl", "+gl_vsync 0", "", "   ", "-w 100"]);
    assert_eq!(split_each(&raw), texts(&["-gl", "+gl_vsync", "0", "-w", "100"]));
    assert_eq!(split_each(&Vec::new()), Vec::<String>::new());
}

#[test]
fn decimal_string_writes_numerals() {
    assert_eq!(decimal_string(0), "0");
    assert_eq!(decimal_string(7), "7");
    assert_eq!(decimal_string(10), "10");
    assert_eq!(decimal_string(1280), "1280");
    assert_eq!(decimal_string(4294967295), "4294967295");
    assert_eq!(decimal_string(u64::MAX), "18446744073709551615");
}

#[test]
fn decimal_string_agrees_with_std() {
    let mut n: u64 = 1;
    while n < u64::MAX / 7 {
        assert_eq!(decimal_string(n), n.to_string());
        assert_eq!(decimal_string(n - 1), (n - 1).to_string());
        n = n * 7 + 3;
    }
}

#[test]
fn has_suffix_looks_at_the_end() {
    assert!(has_suffix("valve_hd", "_hd"));
    assert!(has_suffix("_hd", "_hd"));
    assert!(has_suffix("anything", ""));
    assert!(!has_suffix("hd", "_hd"));
    assert!(!has_suffix("valve_hd ", "_hd"));
    assert!(!has_suffix("valve_HD", "_hd"));
    assert!(has_suffix("żółć_hd", "_hd"));
}

#[test]
fn same_text_compares_characters() {
    assert!(same_text("", ""));
    assert!(same_text("valve", "valve"));
    assert!(!same_text("valve", "Valve"));
    assert!(!same_text("valve", "valve "));
}

#[test]
fn holds_text_finds_members() {
    let list = texts(&["valve", "bshift"]);
    assert!(holds_text(&list, "bshift"));
    assert!(!holds_text(&list, "gearbox"));
    assert!(!holds_text(&Vec::new(), "valve"));
}

#[test]
fn clone_texts_copies() {
    let list = texts(&["a", "", "c d"]);
    assert_eq!(clone_texts(&list), list);
}

#[test]
fn join_with_newlines_puts_line_feeds_between() {
    assert_eq!(join_with_newlines(&Vec::new()), "");
    assert_eq!(join_with_newlines(&texts(&["valve"])), "valve");
    assert_eq!(join_with_newlines(&texts(&["valve", "bshift", "gearbox"])), "valve\nbshift\ngearbox");
    assert_eq!(join_with_newlines(&texts(&["", ""])), "\n");
}

#[test]
fn replace_all_replaces_every_occurrence() {
    assert_eq!(replace_all("cd GAME_DIR && dir GAME_DIR", "GAME_DIR", "C:\\hl"), "cd C:\\hl && dir C:\\hl");
    assert_eq!(replace_all("nothing here", "GAME_DIR", "x"), "nothing here");
    assert_eq!(replace_all("", "a", "b"), "");
    assert_eq!(replace_all("abc", "abc", ""), "");
}

#[test]
fn replace_all_does_not_read_what_it_wrote() {
    assert_eq!(replace_all("aaa", "aa", "a"), "aa");
    assert_eq!(replace_all("aaaa", "aa", "b"), "bb");
    assert_eq!(replace_all("ab", "a", "aa"), "aab");
}

#[test]
fn replace_all_leaves_text_alone_for_an_empty_pattern() {
    assert_eq!(replace_all("abc", "", "x"), "abc");
}

#[test]
fn replace_all_agrees_with_std() {
    let cases = [
        ("HALF_LIFE_DIR/x HALF_LIFE_DIR", "HALF_LIFE_DIR", "Half-Life"),
        ("NO_CLIENT_DLL_PRESENT NO_CLIENT_DLL_DIR", "NO_CLIENT_DLL_DIR", "second"),
        ("ababab", "aba", "-"),
        ("żółć żółć", "ół", "o"),
        ("xxxxx", "xx", "yx"),
    ];
    for (text, from, to) in cases {
        assert_eq!(replace_all(text, from, to), text.replace(from, to));
    }
}
