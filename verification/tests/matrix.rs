use levenshtein::matrix;

#[test]
fn mod_levenshtein_of_empty_strings_is_zero() {
    assert_eq!(0, matrix("", ""));
}

#[test]
fn mod_levenshtein_of_empty_strings_and_non_empty_string_is_length_of_non_empty_string() {
    let string: &str = "Hello";

    assert_eq!(string.len() as u32, matrix(string, ""));
    assert_eq!(string.len() as u32, matrix("", string));
}

#[test]
fn mod_levenshtein_distace_of_one_is_correctly_calculated() {
    assert_eq!(1, matrix("a", "ab"));
    assert_eq!(1, matrix("ba", "b"));
    assert_eq!(1, matrix("a", "b"));
}

#[test]
fn mod_levenshtein_distance_of_kangaroo_koala() {
    assert_eq!(6, matrix("kangaroo", "koala"));
}
