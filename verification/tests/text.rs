use pacfiles::text::{
    chars_of, count_leading, is_whitespace, parse_usize, push_all, push_decimal, push_padded_left,
    push_padded_right, push_repeat, push_str, same_text, skip_copies, slice_of, split_words,
    starts_with_at, string_of, Class,
};

fn chars(s: &str) -> Vec<char> {
    s.chars().collect()
}

fn words(s: &str) -> Vec<String> {
    split_words(&chars(s)).iter().map(|w| w.iter().collect()).collect()
}

#[test]
fn strings_and_characters() {
    for s in ["", "a", "päc ñ\u{10348}\n"] {
        assert_eq!(chars_of(s), chars(s));
        assert_eq!(string_of(&chars(s)), s);
    }
}

#[test]
fn white_space_is_what_the_standard_library_holds_it_to_be() {
    for c in (0..=0x10ffffu32).filter_map(char::from_u32) {
        assert_eq!(is_whitespace(c), c.is_whitespace(), "for {c:?}");
    }
}

#[test]
fn same_text_compares_characters() {
    assert!(same_text("", ""));
    assert!(same_text("auto", "auto"));
    assert!(!same_text("auto", "autos"));
    assert!(!same_text("auto", "aut"));
    assert!(!same_text("auto", "auth"));
}

#[test]
fn words_are_what_split_whitespace_gives() {
    for s in [
        "",
        " ",
        "a",
        " a",
        "a ",
        "1 2 3",
        "  2-4\t^3\n",
        "a\u{a0}b\u{3000}c",
        "vim -d",
        "\n\n",
        "x  \t  y",
    ] {
        let expected: Vec<String> = s.split_whitespace().map(|w| w.to_string()).collect();
        assert_eq!(words(s), expected, "for {s:?}");
    }
}

#[test]
fn numbers_are_read_as_parse_reads_them() {
    let max = usize::MAX.to_string();
    let over = format!("{max}0");
    let next = {
        let mut digits = max.clone().into_bytes();
        let last = digits.len() - 1;
        digits[last] += 1;
        String::from_utf8(digits).unwrap()
    };
    for s in [
        "", "+", "-", "0", "7", "007", "+7", "++7", "-7", "12a", "a12", " 1", "1 ", "1_000", "１２",
        "4294967295", "4294967296", "18446744073709551615", "18446744073709551616",
        max.as_str(), over.as_str(), next.as_str(), "00000000000000000000000000000000000000000001",
    ] {
        assert_eq!(parse_usize(&chars(s)), s.parse::<usize>().ok(), "for {s:?}");
    }
}

#[test]
fn numbers_are_written_as_to_string_writes_them() {
    for n in [0u128, 1, 9, 10, 11, 99, 100, 12345, u64::MAX as u128, u128::MAX] {
        let mut out = chars("n=");
        push_decimal(&mut out, n);
        assert_eq!(string_of(&out), format!("n={n}"));
    }
}

#[test]
fn runs_are_counted_from_an_index() {
    let v = chars("^^^2-4  x");
    assert_eq!(count_leading(&v, 0, Class::Just('^')), 3);
    assert_eq!(count_leading(&v, 1, Class::Just('^')), 2);
    assert_eq!(count_leading(&v, 3, Class::Just('^')), 0);
    assert_eq!(count_leading(&v, 3, Class::Not('-')), 1);
    assert_eq!(count_leading(&v, 3, Class::Word), 3);
    assert_eq!(count_leading(&v, 6, Class::Space), 2);
    assert_eq!(count_leading(&v, 8, Class::Word), 1);
    assert_eq!(count_leading(&v, 9, Class::Word), 0);
    assert_eq!(count_leading(&v, 0, Class::Not('!')), 9);
}

#[test]
fn slices_are_copied() {
    let v = chars("hello");
    assert_eq!(slice_of(&v, 1, 3), chars("el"));
    assert_eq!(slice_of(&v, 0, 5), v);
    assert_eq!(slice_of(&v, 5, 5), chars(""));
}

#[test]
fn prefixes_are_found_and_passed() {
    let v = chars("ababab.c");
    assert!(starts_with_at(&v, 0, &chars("ab")));
    assert!(starts_with_at(&v, 2, &chars("abab.")));
    assert!(!starts_with_at(&v, 1, &chars("ab")));
    assert!(!starts_with_at(&v, 6, &chars(".cd")));
    assert!(starts_with_at(&v, 8, &chars("")));
    assert_eq!(skip_copies(&v, 0, &chars("ab")), 6);
    assert_eq!(skip_copies(&v, 2, &chars("abab")), 6);
    assert_eq!(skip_copies(&v, 0, &chars("b")), 0);
    assert_eq!(skip_copies(&v, 0, &chars("")), 0);
    assert_eq!(skip_copies(&v, 6, &chars(".c")), 8);
    for (s, p) in [("ababab.c", "ab"), ("aaa", "a"), ("aaa", "aa"), ("abc", ""), ("", "a"), ("xab", "ab")] {
        let at = skip_copies(&chars(s), 0, &chars(p));
        assert_eq!(&s[at..], s.trim_start_matches(p), "for {s:?} and {p:?}");
    }
}

#[test]
fn texts_are_filled_up() {
    let mut out = chars("<");
    push_padded_right(&mut out, &chars("ab"), 4);
    push_str(&mut out, "|");
    push_padded_right(&mut out, &chars("abcdef"), 4);
    push_str(&mut out, "|");
    push_padded_left(&mut out, &chars("7"), 3, '0');
    push_str(&mut out, "|");
    push_padded_left(&mut out, &chars("1234"), 3, '0');
    push_str(&mut out, "|");
    push_repeat(&mut out, '-', 3);
    push_repeat(&mut out, '+', 0);
    push_all(&mut out, &chars(">"));
    assert_eq!(string_of(&out), "<ab  |abcdef|007|1234|--->");
    assert_eq!(string_of(&out), format!("<{:4}|{:4}|{:03}|{:03}|--->", "ab", "abcdef", 7, 1234));
}
