use rowid::alphabet::Alphabet;
use rowid::RowIDError;

#[test]
fn test_alphabet_new_accepts_distinct_symbols() {
    let alphabet = Alphabet::new("01").ok().unwrap();
    assert_eq!(alphabet.len(), 2);
    assert_eq!(alphabet.char_list(), "01");
    assert_eq!(alphabet.symbol(0), Some('0'));
    assert_eq!(alphabet.symbol(1), Some('1'));
    assert_eq!(alphabet.symbol(2), None);
}

#[test]
fn test_alphabet_new_refuses_short_lists() {
    assert_eq!(Alphabet::new("").err(), Some(RowIDError::CharListLength));
    assert_eq!(Alphabet::new("A").err(), Some(RowIDError::CharListLength));
    assert_eq!(Alphabet::new("é").err(), Some(RowIDError::CharListLength));
}

#[test]
fn test_alphabet_new_refuses_duplicates() {
    assert_eq!(Alphabet::new("AA").err(), Some(RowIDError::CharListDuplicate));
    assert_eq!(Alphabet::new("ABA").err(), Some(RowIDError::CharListDuplicate));
    assert_eq!(Alphabet::new("ABCDEFGHC").err(), Some(RowIDError::CharListDuplicate));
    assert_eq!(Alphabet::new("0123456789ABCDEFGHJKMNPQRSTVWXYZZ").err(), Some(RowIDError::CharListDuplicate));
}

#[test]
fn test_alphabet_is_case_sensitive() {
    let alphabet = Alphabet::new("aA").ok().unwrap();
    assert_eq!(alphabet.index_of('a'), Some(0));
    assert_eq!(alphabet.index_of('A'), Some(1));
}

#[test]
fn test_alphabet_standard() {
    let alphabet = Alphabet::standard();
    assert_eq!(alphabet.len(), 32);
    assert_eq!(alphabet.char_list(), "0123456789ABCDEFGHJKMNPQRSTVWXYZ");
    assert_eq!(alphabet.symbol(0), Some('0'));
    assert_eq!(alphabet.symbol(10), Some('A'));
    assert_eq!(alphabet.symbol(31), Some('Z'));
    assert_eq!(alphabet.symbol(32), None);
    assert_eq!(alphabet.symbol(usize::MAX), None);
}

#[test]
fn test_alphabet_index_of() {
    let alphabet = Alphabet::standard();
    assert_eq!(alphabet.index_of('0'), Some(0));
    assert_eq!(alphabet.index_of('9'), Some(9));
    assert_eq!(alphabet.index_of('A'), Some(10));
    assert_eq!(alphabet.index_of('H'), Some(17));
    assert_eq!(alphabet.index_of('J'), Some(18));
    assert_eq!(alphabet.index_of('Z'), Some(31));
    assert_eq!(alphabet.index_of('I'), None);
    assert_eq!(alphabet.index_of('a'), None);
    assert_eq!(alphabet.index_of(' '), None);
}

#[test]
fn test_alphabet_of_symbols_beyond_ascii() {
    let alphabet = Alphabet::new("αβγ").ok().unwrap();
    assert_eq!(alphabet.len(), 3);
    assert_eq!(alphabet.index_of('γ'), Some(2));
    assert_eq!(alphabet.char_list(), "αβγ");
}
