use fmt_utils::Fmt;
use fmt_utils::Plain;
use fmt_utils::Repeated;
use fmt_utils::Separated;
use fmt_utils::fmt_to_new_string;

#[test]
fn separated_no_items_estimates_zero() {
    assert_eq!(Separated { sep: ',', iter: &[] as &[char] }.size_hint(&Plain), 0);
}

#[test]
fn separated_one_item_has_no_separator_share() {
    assert_eq!(Separated { sep: ", ", iter: &["abc"] }.size_hint(&Plain), 3);
}

#[test]
fn separated_estimate_counts_each_gap_once() {
    let c = Separated { sep: ", ", iter: &["ab", "c", "def"] };
    assert_eq!(c.size_hint(&Plain), 2 + 1 + 3 + 2 * 2);
    assert_eq!(c.size_hint(&Plain), fmt_to_new_string(c, &Plain).len());
}

#[test]
fn separated_estimate_matches_rendered_length_for_chars() {
    let c = Separated { sep: ',', iter: &['a', 'b', 'c'] };
    assert_eq!(c.size_hint(&Plain), fmt_to_new_string(c, &Plain).len());
}

#[test]
fn repeated_zero_count_estimates_zero() {
    assert_eq!(Repeated { value: "whatever", count: 0 }.size_hint(&Plain), 0);
    assert_eq!(Repeated { value: 'x', count: 0 }.size_hint(&Plain), 0);
}

#[test]
fn repeated_estimate_multiplies() {
    assert_eq!(Repeated { value: "ab", count: 3 }.size_hint(&Plain), 6);
    assert_eq!(Repeated { value: 'x', count: 5 }.size_hint(&Plain), 5);
}

#[test]
fn estimates_count_characters_not_bytes() {
    assert_eq!("\u{e9}\u{e8}".size_hint(&Plain), 2);
    assert_eq!('\u{e9}'.size_hint(&Plain), 1);
    assert_eq!(Separated { sep: '\u{e9}', iter: &["\u{e9}", "\u{e8}"] }.size_hint(&Plain), 3);
}

#[test]
fn repeated_estimate_saturates_instead_of_overflowing() {
    assert_eq!(Repeated { value: "abcd", count: usize::MAX }.size_hint(&Plain), usize::MAX);
}

#[test]
fn separated_estimate_saturates_instead_of_overflowing() {
    let big = Repeated { value: "abcd", count: usize::MAX };
    assert_eq!(Separated { sep: ',', iter: &[big, big] }.size_hint(&Plain), usize::MAX);
}
