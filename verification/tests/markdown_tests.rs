use hn_core::markdown::soft_wrap;
use hn_core::markdown::split_into_words;

#[test]
fn soft_wrap_disabled_when_zero() {
    // A long run of characters without whitespace
    let input = "abcdefghijklmnopqrstuvwxyz0123456789";
    // When max_run is 0, soft_wrap should be a no-op and return the input as it is
    let out = soft_wrap(input, 0);
    assert_eq!(out, input, "soft_wrap should be disabled when max_run == 0");
}

#[test]
fn soft_wrap_inserts_breaks_for_small_max_run() {
    // Use a string longer than the max_run so we can observe insertions
    let input = "aaaaaaaaaaaaaaaaaaaaaaaaaaaaaaaaaaaaaaaa"; // 40 'a'
    // Choose a small max_run to force multiple insertions
    let out = soft_wrap(input, 5);

    // soft_wrap inserts zero-width space and soft-hyphen characters
    let has_zwsp = out.contains('\u{200B}');
    let has_shy = out.contains('\u{00AD}');
    assert!(
        has_zwsp || has_shy,
        "soft_wrap did not insert expected break characters: {}",
        out
    );

    // The output should be longer than the input due to inserted characters
    assert!(
        out.len() > input.len(),
        "expected output to be longer after insertions"
    );

    // Ensure that the breaks are not inserted at the very start
    let first_non_a = out.find(|c: char| c != 'a');
    assert!(
        first_non_a.is_some() && first_non_a.unwrap() > 0,
        "break characters should not appear at the start"
    );
}

#[test]
fn soft_wrap_breaks_after_every_full_run() {
    assert_eq!(soft_wrap("abcdefg", 3), "abc\u{200B}\u{AD}def\u{200B}\u{AD}g");
    assert_eq!(soft_wrap("abc", 3), "abc\u{200B}\u{AD}");
    assert_eq!(soft_wrap("ab", 3), "ab");
    assert_eq!(soft_wrap("", 3), "");
    assert_eq!(soft_wrap("ab", 1), "a\u{200B}\u{AD}b\u{200B}\u{AD}");
}

#[test]
fn soft_wrap_counts_anew_after_white_space() {
    assert_eq!(soft_wrap("ab cd ef", 3), "ab cd ef");
    assert_eq!(soft_wrap("ab cde f", 3), "ab cde\u{200B}\u{AD} f");
    assert_eq!(soft_wrap("ab\ncd\tefgh", 3), "ab\ncd\tefg\u{200B}\u{AD}h");
    assert_eq!(soft_wrap("ab\u{3000}c", 3), "ab\u{3000}c");
    assert_eq!(soft_wrap("   ", 1), "   ");
}

#[test]
fn soft_wrap_counts_characters_not_bytes() {
    assert_eq!(
        soft_wrap("\u{e9}\u{e9}\u{e9}\u{e9}", 2),
        "\u{e9}\u{e9}\u{200B}\u{AD}\u{e9}\u{e9}\u{200B}\u{AD}"
    );
    assert_eq!(soft_wrap("abcdefg", usize::MAX), "abcdefg");
}

#[test]
fn words_end_behind_their_white_space() {
    assert_eq!(split_into_words("a bc  d"), vec!["a ", "bc ", " ", "d"]);
    assert_eq!(split_into_words("a bc "), vec!["a ", "bc "]);
    assert_eq!(split_into_words(" a"), vec![" ", "a"]);
    assert_eq!(split_into_words("abc"), vec!["abc"]);
    assert_eq!(split_into_words(""), Vec::<String>::new());
    assert_eq!(split_into_words("\n"), vec!["\n"]);
    assert_eq!(split_into_words("x\ty\u{3000}z"), vec!["x\t", "y\u{3000}", "z"]);
    let text = "The quick  brown\tfox";
    assert_eq!(split_into_words(text).concat(), text);
}
