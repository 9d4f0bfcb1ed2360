use levenshtein::recursive;

#[test]
fn levenshtein_of_empty_strings_is_zero() {
    assert_eq!(0, recursive("", ""));
}

#[test]
fn levenshtein_of_empty_strings_and_non_empty_string_is_length_of_non_empty_string() {
    let string: &str = "Hello";

    assert_eq!(string.len() as u32, recursive(string, ""));
    assert_eq!(string.len() as u32, recursive("", string));
}

#[test]
fn levenshtein_distace_of_one_is_correctly_calculated() {
    assert_eq!(1, recursive("a", "ab"));
    assert_eq!(1, recursive("ba", "b"));
    assert_eq!(1, recursive("a", "b"));
}

#[test]
fn levenshtein_distance_of_kangaroo_koala() {
    assert_eq!(6, recursive("kangaroo", "koala"));
}
