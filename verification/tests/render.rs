use fmt_utils::Fmt;
use fmt_utils::Plain;
use fmt_utils::Repeated;
use fmt_utils::Separated;
use fmt_utils::Write;
use fmt_utils::fmt_to_cleared_string;
use fmt_utils::fmt_to_new_string;

#[test]
fn separated_no_items() {
    let mut buf = String::new();
    assert_eq!(
        fmt_to_cleared_string(&mut buf, Separated { sep: ',', iter: &[] as &[char] }, &Plain),
        ""
    );
}

#[test]
fn separated_one_item() {
    let mut buf = String::new();
    assert_eq!(
        fmt_to_cleared_string(&mut buf, Separated { sep: ',', iter: &['a'] }, &Plain),
        "a"
    );
}

#[test]
fn separated_two_items() {
    let mut buf = String::new();
    assert_eq!(
        fmt_to_cleared_string(&mut buf, Separated { sep: ',', iter: &['a', 'b'] }, &Plain),
        "a,b"
    );
}

#[test]
fn separated_three_items() {
    let mut buf = String::new();
    assert_eq!(
        fmt_to_cleared_string(&mut buf, Separated { sep: ',', iter: &['a', 'b', 'c'] }, &Plain),
        "a,b,c"
    );
}

#[test]
fn separated_str_items_str_sep() {
    assert_eq!(
        fmt_to_new_string(Separated { sep: ", ", iter: &["ab", "c", ""] }, &Plain),
        "ab, c, "
    );
}

#[test]
fn repeated_zero_count() {
    let mut buf = String::new();
    assert_eq!(fmt_to_cleared_string(&mut buf, Repeated { value: "", count: 0 }, &Plain), "");
    assert_eq!(fmt_to_cleared_string(&mut buf, Repeated { value: 'a', count: 0 }, &Plain), "");
    assert_eq!(fmt_to_cleared_string(&mut buf, Repeated { value: "ab", count: 0 }, &Plain), "");
}

#[test]
fn repeated_one_count() {
    let mut buf = String::new();
    assert_eq!(fmt_to_cleared_string(&mut buf, Repeated { value: "", count: 1 }, &Plain), "");
    assert_eq!(fmt_to_cleared_string(&mut buf, Repeated { value: 'a', count: 1 }, &Plain), "a");
    assert_eq!(fmt_to_cleared_string(&mut buf, Repeated { value: "ab", count: 1 }, &Plain), "ab");
}

#[test]
fn repeated_two_count() {
    let mut buf = String::new();
    assert_eq!(fmt_to_cleared_string(&mut buf, Repeated { value: "", count: 2 }, &Plain), "");
    assert_eq!(fmt_to_cleared_string(&mut buf, Repeated { value: 'a', count: 2 }, &Plain), "aa");
    assert_eq!(fmt_to_cleared_string(&mut buf, Repeated { value: "ab", count: 2 }, &Plain), "abab");
}

#[test]
fn cleared_buffer_discards_old_content() {
    let mut buf = String::from("leftover content that is much longer than the rendering");
    let out = fmt_to_cleared_string(&mut buf, Separated { sep: '-', iter: &['x', 'y'] }, &Plain);
    assert_eq!(out, "x-y");
    assert_eq!(buf, "x-y");
}

#[test]
fn new_string_owns_rendering() {
    let out: String = fmt_to_new_string(Separated { sep: ';', iter: &['p', 'q'] }, &Plain);
    assert_eq!(out, "p;q");
}

#[test]
fn string_value_renders_itself() {
    let v = String::from("ho");
    assert_eq!(fmt_to_new_string(Repeated { value: v, count: 3 }, &Plain), "hohoho");
}

#[test]
fn multibyte_characters_render_whole() {
    assert_eq!(fmt_to_new_string(Separated { sep: '\u{e9}', iter: &["a", "b"] }, &Plain), "a\u{e9}b");
    assert_eq!(fmt_to_new_string(Repeated { value: "\u{e9}\u{e8}", count: 2 }, &Plain), "\u{e9}\u{e8}\u{e9}\u{e8}");
}

#[test]
fn nested_combinators_render() {
    let inner = Repeated { value: 'a', count: 2 };
    let out = fmt_to_new_string(Separated { sep: ',', iter: &[inner, inner, inner] }, &Plain);
    assert_eq!(out, "aa,aa,aa");
}

#[test]
fn fmt_appends_to_destination() {
    let mut sink = String::from("head:");
    Separated { sep: ',', iter: &['a', 'b'] }.fmt(&mut sink, &Plain).unwrap();
    assert_eq!(sink, "head:a,b");
}

#[test]
fn write_trait_on_string_sink() {
    let mut sink = String::new();
    sink.write_str("ab").unwrap();
    Write::write_char(&mut sink, 'c').unwrap();
    assert_eq!(sink, "abc");
}
