use stackgraph::decimal::{parse_usize, push_decimal};
use stackgraph::text::{after_last_char, chars_of, find_char, string_of};

#[test]
fn characters_of_a_text_come_in_order() {
    assert_eq!(chars_of(""), Vec::<char>::new());
    assert_eq!(chars_of("a:b"), vec!['a', ':', 'b']);
    assert_eq!(chars_of("é€😀"), vec!['é', '€', '😀']);
}

#[test]
fn string_is_made_of_a_range_of_characters() {
    let chars = chars_of("größe:12");
    assert_eq!(string_of(&chars, 0, 5), "größe");
    assert_eq!(string_of(&chars, 6, 8), "12");
    assert_eq!(string_of(&chars, 3, 3), "");
    assert_eq!(string_of(&chars, 0, chars.len()), "größe:12");
}

#[test]
fn first_occurrence_is_found_from_a_position_on() {
    let chars = chars_of("a:b:c");
    assert_eq!(find_char(&chars, ':', 0), 1);
    assert_eq!(find_char(&chars, ':', 1), 1);
    assert_eq!(find_char(&chars, ':', 2), 3);
    assert_eq!(find_char(&chars, ':', 4), 5);
    assert_eq!(find_char(&chars, ':', 5), 5);
    assert_eq!(find_char(&chars, 'x', 0), 5);
    assert_eq!(find_char(&chars_of(""), ':', 0), 0);
}

#[test]
fn position_after_the_last_occurrence_is_found() {
    assert_eq!(after_last_char(&chars_of("a:b:c"), ':'), 4);
    assert_eq!(after_last_char(&chars_of("a:b:"), ':'), 4);
    assert_eq!(after_last_char(&chars_of(":abc"), ':'), 1);
    assert_eq!(after_last_char(&chars_of("abc"), ':'), 0);
    assert_eq!(after_last_char(&chars_of(""), ':'), 0);
}

#[test]
fn number_is_read_from_a_range_of_characters() {
    let chars = chars_of("x:042:+7:");
    assert_eq!(parse_usize(&chars, 2, 5), Some(42));
    assert_eq!(parse_usize(&chars, 6, 8), Some(7));
    assert_eq!(parse_usize(&chars, 7, 8), Some(7));
    assert_eq!(parse_usize(&chars, 0, 1), None);
    assert_eq!(parse_usize(&chars, 2, 2), None);
    assert_eq!(parse_usize(&chars, 6, 7), None);
    assert_eq!(parse_usize(&chars, 1, 5), None);
    assert_eq!(parse_usize(&chars, 2, 6), None);
}

#[test]
fn number_that_does_not_fit_is_not_read() {
    let fits = chars_of(&usize::MAX.to_string());
    assert_eq!(parse_usize(&fits, 0, fits.len()), Some(usize::MAX));
    let mut above = usize::MAX.to_string();
    let last = above.pop().unwrap();
    above.push(char::from_digit(last.to_digit(10).unwrap() + 1, 10).unwrap());
    let above = chars_of(&above);
    assert_eq!(parse_usize(&above, 0, above.len()), None);
    let longer = chars_of(&format!("{}0", usize::MAX));
    assert_eq!(parse_usize(&longer, 0, longer.len()), None);
    let zeros = chars_of("0000000000000000000000000000000000000012");
    assert_eq!(parse_usize(&zeros, 0, zeros.len()), Some(12));
}

#[test]
fn number_is_written_in_decimal() {
    for (n, text) in [(0usize, "0"), (7, "7"), (10, "10"), (909, "909"), (65536, "65536")] {
        let mut out = String::from("n=");
        push_decimal(&mut out, n);
        assert_eq!(out, format!("n={}", text));
    }
    let mut out = String::new();
    push_decimal(&mut out, usize::MAX);
    assert_eq!(out, usize::MAX.to_string());
}
