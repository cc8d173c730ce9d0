use net_fetch::text::{
    chars_of, eq_ignoring_case, join_with_commas, media_type_essence, parse_decimal,
    push_decimal, split_list, subtext, text_eq, to_lower, trimmed_bounds,
};

#[test]
fn header_names_compare_without_case() {
    assert!(eq_ignoring_case("Set-Cookie", "set-cookie"));
    assert!(eq_ignoring_case("", ""));
    assert!(!eq_ignoring_case("Set-Cookie", "set-cookie2"));
    assert!(!eq_ignoring_case("Set-Cookie", "set_cookie"));
    assert!(text_eq("GET", "GET"));
    assert!(!text_eq("GET", "get"));
    assert!(!text_eq("GET", "GETS"));
}

#[test]
fn only_ascii_letters_differ_in_case() {
    assert_eq!(to_lower('A'), 'a');
    assert_eq!(to_lower('Z'), 'z');
    assert_eq!(to_lower('@'), '@');
    assert_eq!(to_lower('['), '[');
    assert_eq!(to_lower('é'), 'é');
    assert_eq!(to_lower('É'), 'É');
    assert!(eq_ignoring_case("Édith", "ÉDITH"));
    assert!(!eq_ignoring_case("édith", "Édith"));
}

#[test]
fn texts_are_taken_apart_by_characters() {
    assert_eq!(chars_of("aé€"), vec!['a', 'é', '€']);
    assert_eq!(chars_of(""), Vec::<char>::new());
    assert_eq!(subtext("aé€b", 1, 3), "é€");
    assert_eq!(subtext("plain", 1, 3), "la");
    assert_eq!(subtext("plain", 2, 2), "");
}

#[test]
fn blanks_are_trimmed_at_both_ends() {
    let chars = chars_of(" \t a b\t ");
    assert_eq!(trimmed_bounds(&chars, 0, chars.len()), (3, 6));
    assert_eq!(trimmed_bounds(&chars, 0, 3), (3, 3));
    assert_eq!(trimmed_bounds(&chars, 4, 7), (5, 6));
}

#[test]
fn lists_are_split_at_commas() {
    assert_eq!(split_list("GET, POST ,PUT"), vec!["GET", "POST", "PUT"]);
    assert_eq!(split_list("GET"), vec!["GET"]);
    assert_eq!(split_list(""), Vec::<String>::new());
    assert_eq!(split_list(" , ,"), Vec::<String>::new());
    assert_eq!(split_list(",a,,b c,"), vec!["a", "b c"]);
    assert_eq!(split_list("x-é , y"), vec!["x-é", "y"]);
}

#[test]
fn lists_are_joined_with_commas() {
    assert_eq!(join_with_commas(&vec![]), "");
    assert_eq!(join_with_commas(&vec!["a".to_owned()]), "a");
    assert_eq!(join_with_commas(&vec!["a".to_owned(), "b".to_owned(), "c".to_owned()]), "a,b,c");
}

#[test]
fn numbers_are_read_in_decimal() {
    assert_eq!(parse_decimal("6000"), Some(6000));
    assert_eq!(parse_decimal("0"), Some(0));
    assert_eq!(parse_decimal("007"), Some(7));
    assert_eq!(parse_decimal("4294967295"), Some(4294967295));
    assert_eq!(parse_decimal("4294967296"), None);
    assert_eq!(parse_decimal("99999999999999999999999"), None);
    assert_eq!(parse_decimal(""), None);
    assert_eq!(parse_decimal("12a"), None);
    assert_eq!(parse_decimal(" 12"), None);
    assert_eq!(parse_decimal("-1"), None);
}

#[test]
fn numbers_are_written_in_decimal() {
    let mut out = "port ".to_owned();
    push_decimal(&mut out, 8080);
    assert_eq!(out, "port 8080");
    let mut out = String::new();
    push_decimal(&mut out, 0);
    assert_eq!(out, "0");
    let mut out = String::new();
    push_decimal(&mut out, 18446744073709551615);
    assert_eq!(out, "18446744073709551615");
}

#[test]
fn the_essence_of_a_media_type_is_what_stands_before_the_parameters() {
    assert_eq!(media_type_essence("text/plain; charset=utf-8"), "text/plain");
    assert_eq!(media_type_essence(" text/html "), "text/html");
    assert_eq!(media_type_essence(";q=1"), "");
    assert_eq!(media_type_essence(""), "");
}
