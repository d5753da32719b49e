use pyscan::text::{lines, remove, remove_first, split, starts_with, trim, white_space, word};

#[test]
fn trimming() {
    assert_eq!(trim("  a b \t\n"), "a b");
    assert_eq!(trim("a"), "a");
    assert_eq!(trim(""), "");
    assert_eq!(trim(" \u{a0}\u{3000} "), "");
    assert_eq!(trim("\u{2003}\u{e9}t\u{e9}\r\n"), "\u{e9}t\u{e9}");
    // a zero width space is no white space
    assert_eq!(trim("\u{200b}a\u{200b}"), "\u{200b}a\u{200b}");
}

#[test]
fn white_space_is_what_std_says() {
    for code in 0..=0x10ffffu32 {
        if let Some(c) = char::from_u32(code) {
            assert_eq!(white_space(c), c.is_whitespace(), "{:x}", code);
        }
    }
}

#[test]
fn trimming_is_what_std_does() {
    for text in ["", " ", "a", " a", "a ", "  a  b  ", "\t\n", "\u{85}x\u{2028}", "x\u{1680}y "] {
        assert_eq!(trim(text), text.trim(), "{:?}", text);
    }
}

#[test]
fn splitting() {
    assert_eq!(split("a,b,c", ','), vec!["a", "b", "c"]);
    assert_eq!(split("", ','), vec![""]);
    assert_eq!(split(",", ','), vec!["", ""]);
    assert_eq!(split("a,,b,", ','), vec!["a", "", "b", ""]);
    assert_eq!(split("\u{e9},\u{e8}", ','), vec!["\u{e9}", "\u{e8}"]);
    for text in ["", "x", ",x", "x,", ",,", "a, b ,c"] {
        assert_eq!(split(text, ','), text.split(',').collect::<Vec<_>>(), "{:?}", text);
    }
}

#[test]
fn taking_characters_out() {
    assert_eq!(remove("\"a\"b\"", '"'), "ab");
    assert_eq!(remove("abc", 'x'), "abc");
    assert_eq!(remove("", 'x'), "");
    assert_eq!(remove("xxx", 'x'), "");
    assert_eq!(remove("a\\b\u{e9}\\", '\\'), "ab\u{e9}");
}

#[test]
fn taking_the_first_word_out() {
    assert_eq!(remove_first("import os", "import"), " os");
    assert_eq!(remove_first("from important import x", "import"), "from ant import x");
    assert_eq!(remove_first("from x", "import"), "from x");
    assert_eq!(remove_first("", "import"), "");
    assert_eq!(remove_first("impor", "import"), "impor");
    assert_eq!(remove_first("import", "import"), "");
    for text in ["import a", "a import import", "imp", "ximportx"] {
        assert_eq!(remove_first(text, "import"), text.replacen("import", "", 1), "{:?}", text);
    }
}

#[test]
fn cutting_into_lines() {
    assert_eq!(lines("a\nb\r\nc"), vec!["a", "b", "c"]);
    assert_eq!(lines("a\n"), vec!["a"]);
    assert_eq!(lines("a\n\n"), vec!["a", ""]);
    assert_eq!(lines(""), Vec::<&str>::new());
    assert_eq!(lines("\n"), vec![""]);
    assert_eq!(lines("a\r"), vec!["a\r"]);
    assert_eq!(lines("a\rb\r\n"), vec!["a\rb"]);
    for text in ["", "\n", "\r\n", "a", "a\r", "a\r\n\r\nb", "\r\r\n", "x\ny\n", "x\n\ny"] {
        assert_eq!(lines(text), text.lines().collect::<Vec<_>>(), "{:?}", text);
    }
}

#[test]
fn reading_words() {
    assert_eq!(word("  ab  cd", 0), ("ab", 4));
    assert_eq!(word("  ab  cd", 4), ("cd", 8));
    assert_eq!(word("  ab  cd", 8), ("", 8));
    assert_eq!(word("   ", 0), ("", 3));
    assert_eq!(word("", 0), ("", 0));
    assert!(starts_with("Version: 1", "Version: "));
    assert!(!starts_with(" Version: 1", "Version: "));
    assert!(!starts_with("Version", "Version: "));
    assert!(starts_with("x", ""));
}
