use std::cmp::Ordering;

use stackgraph::location::{Location, LocationError};
use stackgraph::text::{compare_text, Rank};

fn located(text: &str) -> (Location, String) {
    match Location::parse(text) {
        Ok(Some((location, rest))) => (location, rest.to_string()),
        other => panic!("no location in {:?}: {:?}", text, other),
    }
}

#[test]
fn parses_path_line_and_column() {
    let (location, rest) = located("/src/a.c:10:2");
    assert_eq!(location.file(), "/src/a.c");
    assert_eq!(location.line(), 10);
    assert_eq!(location.column(), 2);
    assert_eq!(rest, "");
}

#[test]
fn drive_letter_belongs_to_the_path() {
    let (location, rest) = located("C:\\a\\b.c:3:4");
    assert_eq!(location.file(), "C:\\a\\b.c");
    assert_eq!(location.line(), 3);
    assert_eq!(location.column(), 4);
    assert_eq!(rest, "");
}

#[test]
fn drive_letter_with_empty_path_segment() {
    let (location, rest) = located("C::3:4");
    assert_eq!(location.file(), "C:");
    assert_eq!(location.line(), 3);
    assert_eq!(location.column(), 4);
    assert_eq!(rest, "");
}

#[test]
fn text_after_the_column_is_handed_back() {
    let (location, rest) = located("a.c:1:2:main");
    assert_eq!(location, Location::new("a.c".to_string(), 1, 2));
    assert_eq!(rest, "main");
}

#[test]
fn remainder_keeps_its_own_colons() {
    let (location, rest) = located("dir/a.c:7:9:ns::f:x");
    assert_eq!(location, Location::new("dir/a.c".to_string(), 7, 9));
    assert_eq!(rest, "ns::f:x");
}

#[test]
fn text_without_colon_is_no_location() {
    assert_eq!(Location::parse("intrinsic"), Ok(None));
    assert_eq!(Location::parse("<built-in>"), Ok(None));
    assert_eq!(Location::parse(""), Ok(None));
}

#[test]
fn empty_path_is_no_location() {
    assert_eq!(Location::parse(":1:2"), Ok(None));
}

#[test]
fn drive_letter_without_second_colon_is_no_location() {
    assert_eq!(Location::parse("C:foo"), Ok(None));
    assert_eq!(Location::parse("a:"), Ok(None));
}

#[test]
fn absent_column_is_zero() {
    let (location, rest) = located("ab.c:10");
    assert_eq!(location, Location::new("ab.c".to_string(), 10, 0));
    assert_eq!(rest, "");
    let (location, rest) = located("ab.c:10:");
    assert_eq!(location, Location::new("ab.c".to_string(), 10, 0));
    assert_eq!(rest, "");
}

#[test]
fn empty_column_before_a_remainder_is_zero() {
    let (location, rest) = located("ab.c:10::tail");
    assert_eq!(location, Location::new("ab.c".to_string(), 10, 0));
    assert_eq!(rest, "tail");
}

#[test]
fn line_that_is_no_number_is_an_error() {
    assert_eq!(Location::parse("ab:cd"), Err(LocationError::InvalidLine));
    assert_eq!(Location::parse("ab.c:x1:2"), Err(LocationError::InvalidLine));
    assert_eq!(Location::parse("ab.c:-1:2"), Err(LocationError::InvalidLine));
    assert_eq!(Location::parse("ab.c: 1:2"), Err(LocationError::InvalidLine));
}

#[test]
fn empty_line_is_an_error() {
    assert_eq!(Location::parse("ab.c:"), Err(LocationError::InvalidLine));
    assert_eq!(Location::parse("ab.c::5"), Err(LocationError::InvalidLine));
    assert_eq!(Location::parse("ns::f"), Err(LocationError::InvalidLine));
}

#[test]
fn column_that_is_no_number_is_an_error() {
    assert_eq!(Location::parse("ab.c:10:xy"), Err(LocationError::InvalidColumn));
    assert_eq!(Location::parse("ab.c:10:2a:rest"), Err(LocationError::InvalidColumn));
    assert_eq!(Location::parse("ab.c:10:+"), Err(LocationError::InvalidColumn));
}

#[test]
fn line_error_comes_before_column_error() {
    assert_eq!(Location::parse("ab.c:x:y"), Err(LocationError::InvalidLine));
}

#[test]
fn plus_sign_and_leading_zeros_are_numbers() {
    let (location, _) = located("ab.c:+3:+4");
    assert_eq!(location, Location::new("ab.c".to_string(), 3, 4));
    let (location, _) = located("ab.c:007:00");
    assert_eq!(location, Location::new("ab.c".to_string(), 7, 0));
}

#[test]
fn number_too_large_for_usize_is_an_error() {
    assert_eq!(
        Location::parse("ab.c:340282366920938463463374607431768211456:1"),
        Err(LocationError::InvalidLine)
    );
    assert_eq!(
        Location::parse("ab.c:1:340282366920938463463374607431768211456"),
        Err(LocationError::InvalidColumn)
    );
}

#[test]
fn largest_usize_is_a_number() {
    let text = format!("ab.c:{}:{}", usize::MAX, usize::MAX);
    let (location, rest) = located(&text);
    assert_eq!(location.line(), usize::MAX);
    assert_eq!(location.column(), usize::MAX);
    assert_eq!(rest, "");
}

#[test]
fn path_may_hold_characters_outside_ascii() {
    let (location, rest) = located("src/größe.c:12:3:età");
    assert_eq!(location.file(), "src/größe.c");
    assert_eq!(location.line(), 12);
    assert_eq!(location.column(), 3);
    assert_eq!(rest, "età");
}

#[test]
fn single_character_outside_ascii_is_a_drive_letter() {
    let (location, _) = located("é:x.c:1:2");
    assert_eq!(location.file(), "é:x.c");
}

#[test]
fn written_out_location_parses_back() {
    let cases = [("/src/a.c", 10usize, 2usize), ("C:\\a\\b.c", 3, 4), ("xy", 0, 0), ("a b.c", 65535, 1)];
    for (file, line, column) in cases {
        let text = format!("{}:{}:{}", file, line, column);
        let (location, rest) = located(&text);
        assert_eq!(location, Location::new(file.to_string(), line, column));
        assert_eq!(rest, "");
        let text = format!("{}:{}:{}:tail", file, line, column);
        let (location, rest) = located(&text);
        assert_eq!(location, Location::new(file.to_string(), line, column));
        assert_eq!(rest, "tail");
    }
}

#[test]
fn locations_compare_by_their_fields() {
    let a = Location::new("a.c".to_string(), 1, 2);
    assert_eq!(a, Location::new("a.c".to_string(), 1, 2));
    assert_ne!(a, Location::new("b.c".to_string(), 1, 2));
    assert_ne!(a, Location::new("a.c".to_string(), 2, 2));
    assert_ne!(a, Location::new("a.c".to_string(), 1, 3));
    assert_eq!(a.clone(), a);
}

#[test]
fn locations_order_by_file_then_line_then_column() {
    let mut all = vec![
        Location::new("b.c".to_string(), 1, 1),
        Location::new("a.c".to_string(), 2, 1),
        Location::new("a.c".to_string(), 1, 9),
        Location::new("a.c".to_string(), 1, 2),
    ];
    all.sort();
    assert_eq!(
        all,
        vec![
            Location::new("a.c".to_string(), 1, 2),
            Location::new("a.c".to_string(), 1, 9),
            Location::new("a.c".to_string(), 2, 1),
            Location::new("b.c".to_string(), 1, 1),
        ]
    );
}

#[test]
fn location_is_written_as_path_line_column() {
    assert_eq!(Location::new("/src/a.c".to_string(), 10, 2).text(), "/src/a.c:10:2");
    assert_eq!(Location::new("C:\\a\\b.c".to_string(), 3, 4).text(), "C:\\a\\b.c:3:4");
    assert_eq!(Location::new("x".to_string(), 0, 0).text(), "x:0:0");
    assert_eq!(Location::new("ab".to_string(), 1000, 909).text(), "ab:1000:909");
    assert_eq!(
        Location::new("ab".to_string(), usize::MAX, 7).text(),
        format!("ab:{}:7", usize::MAX)
    );
}

#[test]
fn written_location_is_read_back_by_the_library() {
    for location in [
        Location::new("/src/a.c".to_string(), 10, 2),
        Location::new("C:\\dir\\b.c".to_string(), 3, 4),
        Location::new("C:".to_string(), 1, 1),
        Location::new("größe.c".to_string(), usize::MAX, 0),
    ] {
        let (read, rest) = located(&location.text());
        assert_eq!(read, location);
        assert_eq!(rest, "");
        let (read, rest) = located(&format!("{}:tail:more", location.text()));
        assert_eq!(read, location);
        assert_eq!(rest, "tail:more");
    }
}

#[test]
fn texts_rank_in_dictionary_order() {
    assert_eq!(compare_text("", ""), Rank::Same);
    assert_eq!(compare_text("", "a"), Rank::Before);
    assert_eq!(compare_text("a", ""), Rank::After);
    assert_eq!(compare_text("abc", "abc"), Rank::Same);
    assert_eq!(compare_text("abc", "abd"), Rank::Before);
    assert_eq!(compare_text("abd", "abc"), Rank::After);
    assert_eq!(compare_text("ab", "abc"), Rank::Before);
    assert_eq!(compare_text("b", "abc"), Rank::After);
    assert_eq!(compare_text("z", "é"), Rank::Before);
    assert_eq!(compare_text("é", "€"), Rank::Before);
    assert_eq!(compare_text("€", "😀"), Rank::Before);
}

#[test]
fn rank_of_locations_goes_by_file_line_column() {
    let base = Location::new("b.c".to_string(), 5, 5);
    assert_eq!(base.rank(&Location::new("b.c".to_string(), 5, 5)), Rank::Same);
    assert_eq!(base.rank(&Location::new("c.c".to_string(), 1, 1)), Rank::Before);
    assert_eq!(base.rank(&Location::new("a.c".to_string(), 9, 9)), Rank::After);
    assert_eq!(base.rank(&Location::new("b.c".to_string(), 6, 1)), Rank::Before);
    assert_eq!(base.rank(&Location::new("b.c".to_string(), 4, 9)), Rank::After);
    assert_eq!(base.rank(&Location::new("b.c".to_string(), 5, 6)), Rank::Before);
    assert_eq!(base.rank(&Location::new("b.c".to_string(), 5, 4)), Rank::After);
}

#[test]
fn comparison_operators_follow_the_rank() {
    let all = [
        Location::new("".to_string(), 0, 0),
        Location::new("a.c".to_string(), 1, 2),
        Location::new("a.c".to_string(), 1, 10),
        Location::new("a.c".to_string(), 2, 0),
        Location::new("a.cpp".to_string(), 0, 0),
        Location::new("z.c".to_string(), 0, 0),
        Location::new("é.c".to_string(), 0, 0),
        Location::new("€.c".to_string(), 0, 0),
        Location::new("😀.c".to_string(), 0, 0),
    ];
    for (i, a) in all.iter().enumerate() {
        for (j, b) in all.iter().enumerate() {
            let expected = i.cmp(&j);
            assert_eq!(a.partial_cmp(b), Some(expected));
            assert_eq!(a.cmp(b), expected);
            assert_eq!(a < b, expected == Ordering::Less);
            assert_eq!(a == b, expected == Ordering::Equal);
        }
    }
}
