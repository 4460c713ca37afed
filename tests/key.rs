use fsy::key::{compose_key, get_random_key, key_word_of};

fn word_list() -> Vec<String> {
    ["11111\tabacus", "11112\tAbdomen", "11113\tabdominal", "11114\tabide", "11115\tabiding",
     "11116\tability", "11121\tablaze", "11122\table", "11123\tabnormal", "11124\tabrasion"]
        .iter()
        .map(|w| w.to_string())
        .collect()
}

#[test]
fn test_get_random_key() {
    let list = word_list();
    for i in 1..20 {
        let key = get_random_key(&list, i);
        let words: Vec<&str> = key.split(" ").collect();
        assert_eq!(words.len(), i as usize);
        for word in words {
            assert!(word.chars().all(char::is_alphabetic), "other than alpha");
        }
    }
}

#[test]
fn key_words_are_lowercase_letters() {
    assert_eq!(key_word_of("11112\tAbdomen"), "abdomen");
    assert_eq!(key_word_of("ÉTÉ-42"), "été");
    assert_eq!(key_word_of("1234"), "");
}

#[test]
fn compose_key_joins_chosen_words() {
    let list = word_list();
    assert_eq!(compose_key(&list, &[1, 0, 7]), "abdomen abacus able");
    assert_eq!(compose_key(&list, &[]), "");
    let with_empty = vec!["99".to_string(), "Zed".to_string()];
    assert_eq!(compose_key(&with_empty, &[0, 1, 0, 1]), "zed  zed");
}

#[test]
fn zero_words_give_empty_key() {
    assert_eq!(get_random_key(&word_list(), 0), "");
}
