use rowid::alphabet::Alphabet;
use rowid::randomness::get_randomness;

#[test]
fn test_randomness_lengths() {
    let alphabet = Alphabet::standard();
    for length in [0usize, 1, 2, 10, 22, 1_000] {
        assert_eq!(get_randomness(&alphabet, length).chars().count(), length);
    }
}

#[test]
fn test_randomness_of_length_zero_is_empty() {
    let alphabet = Alphabet::standard();
    assert_eq!(get_randomness(&alphabet, 0), "");
}

#[test]
fn test_randomness_is_drawn_from_the_alphabet() {
    let alphabet = Alphabet::standard();
    let randomness = get_randomness(&alphabet, 2_000);
    assert!(randomness.chars().all(|symbol| alphabet.index_of(symbol).is_some()));
}

#[test]
fn test_randomness_draws_every_symbol() {
    let alphabet = Alphabet::new("ab").ok().unwrap();
    let randomness = get_randomness(&alphabet, 400);
    assert!(randomness.contains('a'));
    assert!(randomness.contains('b'));
    assert!(randomness.chars().all(|symbol| symbol == 'a' || symbol == 'b'));
}

#[test]
fn test_randomness_of_symbols_beyond_ascii() {
    let alphabet = Alphabet::new("αβγδ").ok().unwrap();
    let randomness = get_randomness(&alphabet, 50);
    assert_eq!(randomness.chars().count(), 50);
    assert!(randomness.chars().all(|symbol| "αβγδ".contains(symbol)));
}

#[test]
fn test_randomness_differs_between_draws() {
    let alphabet = Alphabet::standard();
    assert_ne!(get_randomness(&alphabet, 40), get_randomness(&alphabet, 40));
}
