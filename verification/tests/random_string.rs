use auth_rocket::net::{random_string, random_string_with_consonants};

#[test]
fn random_string_test_random_string() {
    for i in 0..100u8 {
        let s = random_string(i);
        assert_eq!(i as usize, s.len());
    }
}

#[test]
fn random_string_test_random_string_with_consonants() {
    assert_eq!(random_string_with_consonants(2, Some("A")), "AA".to_string());
}

#[test]
fn mod_test_random_string() {
    for i in 0..100u8 {
        let s = random_string(i);
        assert_eq!(i as usize, s.len());
    }
}

#[test]
fn mod_test_random_string_with_consonants() {
    assert_eq!(random_string_with_consonants(2, Some("A")), "AA".to_string());
}

#[test]
fn random_string_uses_only_the_default_alphabet() {
    let alphabet = auth_rocket::net::ALPHABET;
    assert_eq!(alphabet.len(), 61);
    assert!(!alphabet.contains('e'));
    let s = random_string(255);
    assert_eq!(s.len(), 255);
    assert!(s.chars().all(|c| alphabet.contains(c)));
}

#[test]
fn random_string_of_no_length_needs_no_alphabet() {
    assert_eq!(random_string_with_consonants(0, Some("")), String::new());
}

#[test]
fn random_string_draws_from_the_given_characters() {
    let s = random_string_with_consonants(40, Some("xyz"));
    assert_eq!(s.chars().count(), 40);
    assert!(s.chars().all(|c| c == 'x' || c == 'y' || c == 'z'));
}
