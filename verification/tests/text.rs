use pkgid::specifier::PartialIdentity;
use pkgid::text::{
    chars_of, contains_char, find_from, find_in, find_last, same_ignoring_case, to_lower,
};

#[test]
fn characters_of_a_string() {
    assert_eq!(chars_of(""), Vec::<char>::new());
    assert_eq!(chars_of("a#b"), vec!['a', '#', 'b']);
    assert_eq!(chars_of("é/ü"), vec!['é', '/', 'ü']);
}

#[test]
fn finding_characters() {
    let v = chars_of("a.b.c");
    assert_eq!(find_from(&v, 0, '.'), 1);
    assert_eq!(find_from(&v, 1, '.'), 1);
    assert_eq!(find_from(&v, 2, '.'), 3);
    assert_eq!(find_from(&v, 4, '.'), 5);
    assert_eq!(find_from(&v, 5, '.'), 5);
    assert_eq!(find_from(&v, 0, 'x'), 5);
    assert_eq!(find_in(&v, 0, 5, '.'), 1);
    assert_eq!(find_in(&v, 2, 3, '.'), 3);
    assert_eq!(find_in(&v, 2, 5, 'a'), 5);
    assert_eq!(find_in(&v, 0, 1, '.'), 1);
    assert_eq!(find_in(&v, 3, 3, '.'), 3);
    assert_eq!(find_last(&v, '.'), Some(3));
    assert_eq!(find_last(&v, 'a'), Some(0));
    assert_eq!(find_last(&v, 'c'), Some(4));
    assert_eq!(find_last(&v, 'x'), None);
    assert_eq!(find_last(&chars_of(""), 'x'), None);
    assert!(contains_char(&v, 'b'));
    assert!(!contains_char(&v, 'B'));
    assert!(!contains_char(&chars_of(""), 'b'));
}

#[test]
fn case_of_ascii_letters() {
    assert_eq!(to_lower('A'), 'a');
    assert_eq!(to_lower('Z'), 'z');
    assert_eq!(to_lower('a'), 'a');
    assert_eq!(to_lower('@'), '@');
    assert_eq!(to_lower('['), '[');
    assert_eq!(to_lower('0'), '0');
    assert_eq!(to_lower('É'), 'É');
    assert!(same_ignoring_case("Crates.IO", "crates.io"));
    assert!(same_ignoring_case("", ""));
    assert!(!same_ignoring_case("crates.io", "crates.i"));
    assert!(!same_ignoring_case("crates.io", "crates-io"));
    assert!(!same_ignoring_case("É", "é"));
    assert!(same_ignoring_case("é", "é"));
}

#[test]
fn identity_text_leaves_out_what_is_absent() {
    for text in [
        "",
        "foo",
        "foo:1.2.3",
        "crates.io/foo",
        "crates.io/foo#1.2.3",
        "crates.io/bar#foo:1.2.3",
        "http://crates.io/foo#1.2.3",
        "http://crates.io/foo",
        "crates.io/bar#foo",
        "file:///home/me/app#app:0.1.0-dev+x",
    ] {
        let partial = PartialIdentity::parse(text).unwrap();
        assert_eq!(partial.to_spec_string(), text);
        assert_eq!(PartialIdentity::parse(&partial.to_spec_string()), Ok(partial.clone()));
    }
    // Without an origin the `#` is left out.
    assert_eq!(PartialIdentity::parse("#foo").unwrap().to_spec_string(), "foo");
    assert_eq!(PartialIdentity::parse("#1.2.3").unwrap().to_spec_string(), "1.2.3");
}
