use imageboard::text::{
    chars_of, escape, find_last, has_prefix, insert_at, is_blank, push_decimal,
    push_signed_decimal, replace_all, same_text, split_lines, starts_with_char, string_of, trim,
};

#[test]
fn escape_keeps_plain_text() {
    assert_eq!(escape("hello world 123"), "hello world 123");
    assert_eq!(escape(""), "");
}

#[test]
fn escape_replaces_each_reserved_character() {
    assert_eq!(escape("&"), "&amp;");
    assert_eq!(escape("<"), "&lt;");
    assert_eq!(escape(">"), "&gt;");
    assert_eq!(escape("\""), "&quot;");
    assert_eq!(escape("'"), "&#39;");
}

#[test]
fn escape_replaces_ampersand_only_once() {
    assert_eq!(escape("&lt;"), "&amp;lt;");
    assert_eq!(escape("<script>alert('x')</script>"), "&lt;script&gt;alert(&#39;x&#39;)&lt;/script&gt;");
}

#[test]
fn escape_keeps_characters_beyond_ascii() {
    assert_eq!(escape("caf\u{e9} <\u{4e16}\u{754c}>"), "caf\u{e9} &lt;\u{4e16}\u{754c}&gt;");
}

#[test]
fn escape_of_a_concatenation_is_the_concatenation_of_the_escapes() {
    let a = "a<b";
    let b = "c&d'";
    let whole = format!("{}{}", a, b);
    assert_eq!(escape(&whole), format!("{}{}", escape(a), escape(b)));
}

#[test]
fn chars_and_strings_convert_both_ways() {
    let v = chars_of("h\u{e9}llo");
    assert_eq!(v, vec!['h', '\u{e9}', 'l', 'l', 'o']);
    assert_eq!(string_of(&v, 0, 5), "h\u{e9}llo");
    assert_eq!(string_of(&v, 1, 3), "\u{e9}l");
    assert_eq!(string_of(&v, 2, 2), "");
}

#[test]
fn same_text_compares_characters() {
    assert!(same_text("name", "name"));
    assert!(!same_text("name", "Name"));
    assert!(!same_text("name", "names"));
    assert!(same_text("", ""));
}

#[test]
fn decimal_numerals() {
    let mut s = String::from("n=");
    push_decimal(&mut s, 0);
    assert_eq!(s, "n=0");
    let mut s = String::new();
    push_decimal(&mut s, 15);
    assert_eq!(s, "15");
    let mut s = String::new();
    push_decimal(&mut s, 18446744073709551615);
    assert_eq!(s, "18446744073709551615");
    let mut s = String::new();
    push_decimal(&mut s, 1000);
    assert_eq!(s, "1000");
}

#[test]
fn signed_decimal_numerals() {
    let mut s = String::new();
    push_signed_decimal(&mut s, -42);
    assert_eq!(s, "-42");
    let mut s = String::new();
    push_signed_decimal(&mut s, i64::MIN);
    assert_eq!(s, "-9223372036854775808");
    let mut s = String::new();
    push_signed_decimal(&mut s, i64::MAX);
    assert_eq!(s, "9223372036854775807");
    let mut s = String::new();
    push_signed_decimal(&mut s, 0);
    assert_eq!(s, "0");
}

#[test]
fn trim_removes_whitespace_at_both_ends() {
    assert_eq!(trim("  hello world \n"), "hello world");
    assert_eq!(trim("\t\r\n x \u{a0}\u{3000}"), "x");
    assert_eq!(trim("inner  space"), "inner  space");
    assert_eq!(trim("   "), "");
    assert_eq!(trim(""), "");
}

#[test]
fn trim_agrees_with_the_standard_library() {
    for s in ["", " ", " a ", "\u{2003}b\u{2003}", "a\nb\n", "\u{feff}x", "\u{85}y\u{1680}"] {
        assert_eq!(trim(s), s.trim());
    }
}

#[test]
fn blank_texts() {
    assert!(is_blank(""));
    assert!(is_blank(" \t\n\r"));
    assert!(is_blank("\u{a0}\u{2028}"));
    assert!(!is_blank(" a "));
    assert!(!is_blank("\u{200b}"));
}

#[test]
fn lines_are_split_at_line_feeds() {
    assert_eq!(split_lines("a\nb\nc"), vec!["a", "b", "c"]);
    assert_eq!(split_lines("a\nb\n"), vec!["a", "b"]);
    assert_eq!(split_lines(""), Vec::<String>::new());
    assert_eq!(split_lines("\n"), vec![""]);
    assert_eq!(split_lines("\n\n"), vec!["", ""]);
    assert_eq!(split_lines("one"), vec!["one"]);
}

#[test]
fn lines_lose_a_carriage_return_before_the_line_feed_only() {
    assert_eq!(split_lines("a\r\nb"), vec!["a", "b"]);
    assert_eq!(split_lines("a\r\r\nb"), vec!["a\r", "b"]);
    assert_eq!(split_lines("a\rb\n"), vec!["a\rb"]);
    assert_eq!(split_lines("a\r"), vec!["a\r"]);
}

#[test]
fn lines_agree_with_the_standard_library() {
    for s in ["", "\n", "a", "a\n", "a\r\n", "\r\n\r\n", "x\ny\r", "\r", "a\n\nb", ">q\r\n>>1\n"] {
        let expected: Vec<String> = s.lines().map(|l| l.to_string()).collect();
        assert_eq!(split_lines(s), expected, "for {:?}", s);
    }
}

#[test]
fn first_character() {
    assert!(starts_with_char(">hello", '>'));
    assert!(!starts_with_char("a > b", '>'));
    assert!(!starts_with_char("", '>'));
    assert!(!starts_with_char(" >", '>'));
}

#[test]
fn last_occurrence_is_found() {
    let text = chars_of("<hr></body> and <hr></body>");
    let needle = chars_of("<hr></body>");
    assert_eq!(find_last(&text, &needle), Some(16));
    assert_eq!(find_last(&text, &chars_of("</form>")), None);
    assert_eq!(find_last(&chars_of("ab"), &chars_of("abc")), None);
    assert_eq!(find_last(&chars_of("aaa"), &chars_of("aa")), Some(1));
    assert_eq!(find_last(&chars_of("abc"), &chars_of("")), Some(3));
}

#[test]
fn last_occurrence_counts_characters() {
    let text = chars_of("\u{e9}\u{e9}x");
    assert_eq!(find_last(&text, &chars_of("x")), Some(2));
}

#[test]
fn insertion_at_a_place() {
    let text = chars_of("abcd");
    assert_eq!(insert_at(&text, 2, "--"), "ab--cd");
    assert_eq!(insert_at(&text, 0, "x"), "xabcd");
    assert_eq!(insert_at(&text, 4, "x"), "abcdx");
}

#[test]
fn replacement_of_every_occurrence() {
    assert_eq!(replace_all("a\nb\nc", "\n", "<br>"), "a<br>b<br>c");
    assert_eq!(replace_all("aaa", "aa", "b"), "ba");
    assert_eq!(replace_all("abc", "x", "y"), "abc");
    assert_eq!(replace_all("", "x", "y"), "");
    assert_eq!(replace_all("xx", "x", ""), "");
    assert_eq!(replace_all("ab", "abc", "y"), "ab");
    assert_eq!(replace_all("ab", "", "y"), "ab");
}

#[test]
fn replacement_agrees_with_the_standard_library() {
    for (t, n, w) in [("abcabc", "bc", "X"), ("aaaa", "aa", "a"), ("hello", "l", "ll"), ("a-b", "-", "")] {
        assert_eq!(replace_all(t, n, w), t.replace(n, w));
    }
}

#[test]
fn prefixes() {
    assert!(has_prefix("image/png", "image/"));
    assert!(!has_prefix("text/plain", "image/"));
    assert!(!has_prefix("imag", "image/"));
    assert!(has_prefix("anything", ""));
}
