use grepdef::text::{
    chars_of, decimal_string, is_whitespace, push_json_string, range_eq, str_eq, trim,
};

#[test]
fn is_whitespace_agrees_with_std_on_every_char() {
    for v in 0u32..=0x10FFFF {
        if let Some(c) = char::from_u32(v) {
            assert_eq!(c.is_whitespace(), is_whitespace(c), "char U+{:04X}", v);
        }
    }
}

#[test]
fn trim_agrees_with_std() {
    let cases = [
        "",
        "   ",
        "  function parseQuery() {  ",
        "\t\tpub fn query_db() -> bool {}\r",
        "\u{3000}x\u{2028}",
        "\u{a0} a b \u{85}",
        "no space",
        "\u{200b}kept\u{200b}",
    ];
    for case in cases {
        assert_eq!(case.trim(), trim(case));
    }
}

#[test]
fn decimal_string_writes_numbers() {
    assert_eq!("0", decimal_string(0));
    assert_eq!("7", decimal_string(7));
    assert_eq!("10", decimal_string(10));
    assert_eq!("4096", decimal_string(4096));
    assert_eq!(usize::MAX.to_string(), decimal_string(usize::MAX));
}

#[test]
fn json_string_agrees_with_serde_json() {
    let cases = [
        "",
        "plain",
        "quote \" and backslash \\",
        "tab\tnewline\ncarriage\rbackspace\u{8}formfeed\u{c}",
        "control \u{1} \u{1f} \u{0}",
        "delete \u{7f} unicode é 漢字 🎉",
        "slash / stays",
    ];
    for case in cases {
        let mut out = String::from("x");
        push_json_string(&mut out, case);
        let expected = format!("x{}", serde_json::to_string(case).unwrap());
        assert_eq!(expected, out);
    }
}

#[test]
fn str_eq_and_range_eq_compare_characters() {
    assert!(str_eq("js", "js"));
    assert!(!str_eq("js", "jsx"));
    assert!(!str_eq("", "a"));
    assert!(str_eq("", ""));
    let v = chars_of("file.tsx");
    assert!(range_eq(&v, 5, 8, "tsx"));
    assert!(!range_eq(&v, 5, 8, "ts"));
    assert!(!range_eq(&v, 5, 7, "tsx"));
    assert_eq!(vec!['a', 'é', 'b'], chars_of("aéb"));
}

#[test]
fn trimming_twice_changes_nothing() {
    for case in ["  a b  ", "\u{2000}x\u{3000}", "", "   ", "plain"] {
        let once = trim(case);
        assert_eq!(once, trim(&once));
        assert!(once.chars().next().map_or(true, |c| !c.is_whitespace()));
        assert!(once.chars().last().map_or(true, |c| !c.is_whitespace()));
    }
}
