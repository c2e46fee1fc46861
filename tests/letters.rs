use spell_fight::letters::{
    draw_missing_letters, fold_code, get_available_letters, get_random_letters, get_word_value,
    player_has_letters_for_word, remove_used_letters, Letter, ALPHABET_SIZE, MAX_LETTERS,
};

fn rack(s: &str) -> Vec<Letter> {
    let table = get_available_letters();
    s.chars()
        .map(|c| *table.iter().find(|l| l.letter == c).unwrap())
        .collect()
}

fn letters_of(r: &[Letter]) -> String {
    r.iter().map(|l| l.letter).collect()
}

#[test]
fn alphabet_has_26_distinct_letters() {
    let table = get_available_letters();
    assert_eq!(table.len(), 26);
    assert_eq!(table[0], Letter { letter: 'A', value: 1 });
    assert_eq!(table[16], Letter { letter: 'Q', value: 10 });
    assert_eq!(table[25], Letter { letter: 'Z', value: 10 });
}

#[test]
fn score_sums_values() {
    assert_eq!(get_word_value("CAT".to_string()), 5);
    assert_eq!(get_word_value("QUIZ".to_string()), 22);
    assert_eq!(get_word_value("jazz".to_string()), 29);
}

#[test]
fn score_is_case_insensitive() {
    for w in ["hello", "Quartz", "mIxEd", "zebra"] {
        assert_eq!(
            get_word_value(w.to_string()),
            get_word_value(w.to_uppercase())
        );
    }
    assert_eq!(get_word_value("hello".to_string()), 6);
}

#[test]
fn score_of_non_letter_word_is_zero() {
    assert_eq!(get_word_value("cat1".to_string()), 0);
    assert_eq!(get_word_value("two words".to_string()), 0);
    assert_eq!(get_word_value("caf\u{e9}".to_string()), 0);
    assert_eq!(get_word_value("-".to_string()), 0);
}

#[test]
fn score_of_empty_word_is_zero() {
    assert_eq!(get_word_value(String::new()), 0);
}

#[test]
fn fold_code_lowers_ascii_capitals_only() {
    assert_eq!(fold_code('A'), 'a' as u32);
    assert_eq!(fold_code('z'), 'z' as u32);
    assert_eq!(fold_code('['), '[' as u32);
    assert_eq!(fold_code('@'), '@' as u32);
}

#[test]
fn has_letters_is_a_multiset_test() {
    let r = rack("CATS");
    assert!(player_has_letters_for_word(r.clone(), "cat"));
    assert!(player_has_letters_for_word(r.clone(), "TACS"));
    assert!(!player_has_letters_for_word(r.clone(), "tact"));
    assert!(!player_has_letters_for_word(r.clone(), "dog"));
    assert!(player_has_letters_for_word(r.clone(), ""));
    let r2 = rack("TACT");
    assert!(player_has_letters_for_word(r2, "tact"));
}

#[test]
fn has_letters_on_empty_rack() {
    assert!(!player_has_letters_for_word(Vec::new(), "a"));
    assert!(player_has_letters_for_word(Vec::new(), ""));
}

#[test]
fn remove_used_letters_takes_one_tile_per_character() {
    let r = rack("AABCA");
    assert_eq!(letters_of(&remove_used_letters(r.clone(), "ab".to_string())), "ACA");
    assert_eq!(letters_of(&remove_used_letters(r.clone(), "aaaa".to_string())), "BC");
    assert_eq!(letters_of(&remove_used_letters(r.clone(), "xyz".to_string())), "AABCA");
    assert_eq!(letters_of(&remove_used_letters(r, String::new())), "AABCA");
}

#[test]
fn random_letters_are_distinct_alphabet_letters() {
    let table = get_available_letters();
    let drawn = get_random_letters(MAX_LETTERS);
    assert_eq!(drawn.len(), MAX_LETTERS);
    for (i, l) in drawn.iter().enumerate() {
        assert!(table.contains(l));
        assert!(!drawn[i + 1..].contains(l));
    }
    assert_eq!(get_random_letters(0).len(), 0);
    assert_eq!(get_random_letters(100).len(), ALPHABET_SIZE);
}

#[test]
fn draw_missing_letters_restores_rack_size() {
    let kept = rack("QZ");
    let r = draw_missing_letters(kept.clone(), MAX_LETTERS);
    assert_eq!(r.len(), MAX_LETTERS);
    assert_eq!(&r[..2], &kept[..]);
    let full = rack("ABCDE");
    assert_eq!(draw_missing_letters(full.clone(), 3), full);
    assert_eq!(draw_missing_letters(Vec::new(), 40).len(), ALPHABET_SIZE);
}

#[test]
fn remove_used_letters_keeps_order() {
    let r = vec![
        Letter { letter: 'A', value: 1 },
        Letter { letter: 'B', value: 3 },
        Letter { letter: 'A', value: 1 },
    ];
    let left = remove_used_letters(r, "a".to_string());
    assert_eq!(
        left,
        vec![Letter { letter: 'B', value: 3 }, Letter { letter: 'A', value: 1 }]
    );
}

#[test]
fn has_letters_ignores_rack_order_and_word_case() {
    let r1 = rack("TACO");
    let r2 = rack("OCAT");
    for w in ["coat", "COAT", "cOaT", "taco", "coats", "too"] {
        let expected = player_has_letters_for_word(r1.clone(), w);
        assert_eq!(player_has_letters_for_word(r2.clone(), w), expected);
        assert_eq!(player_has_letters_for_word(r1.clone(), &w.to_ascii_uppercase()), expected);
        assert_eq!(player_has_letters_for_word(r1.clone(), &w.to_ascii_lowercase()), expected);
    }
    assert!(player_has_letters_for_word(r1.clone(), "coat"));
    assert!(!player_has_letters_for_word(r1, "too"));
}
