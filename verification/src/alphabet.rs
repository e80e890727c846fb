//! Alphabets: the ordered symbols that serve as digits and as the pool
//! of random symbols.

use crate::configs::CHAR_LIST;
use crate::errors::RowIDError;
use crate::strings::{chars_of, string_of};
use vstd::prelude::*;

verus! {

/// Whether a list of symbols can serve as an alphabet: at least two
/// symbols, none of them twice.
pub open spec fn valid_char_list(symbols: Seq<char>) -> bool {
    symbols.len() >= 2 && symbols.no_duplicates()
}

/// What stands against a list of symbols as an alphabet, if anything.
pub open spec fn char_list_error(symbols: Seq<char>) -> Option<RowIDError> {
    if symbols.len() < 2 {
        Some(RowIDError::CharListLength)
    } else if !symbols.no_duplicates() {
        Some(RowIDError::CharListDuplicate)
    } else {
        None
    }
}

/// Whether the symbols stand in the order of their code points.
pub open spec fn sorted_char_list(symbols: Seq<char>) -> bool {
    forall|i: int, j: int|
        0 <= i < j < symbols.len() ==> (symbols[i] as u32) < (symbols[j] as u32)
}

/// Whether every symbol of `text` is one of `symbols`.
pub open spec fn drawn_from(symbols: Seq<char>, text: Seq<char>) -> bool {
    forall|i: int| 0 <= i < text.len() ==> symbols.contains(#[trigger] text[i])
}

/// An ordered list of at least two symbols, each of them once. The symbol
/// at position `d` is the digit of value `d`.
#[derive(Debug)]
pub struct Alphabet {
    symbols: Vec<char>,
}

impl View for Alphabet {
    type V = Seq<char>;

    closed spec fn view(&self) -> Seq<char> {
        self.symbols@
    }
}

impl Clone for Alphabet {
    fn clone(&self) -> (copy: Alphabet)
        ensures
            copy@ == self@,
    {
        proof {
            use_type_invariant(self);
        }
        let symbols: Vec<char> = self.symbols.clone();
        assert(symbols@ =~= self.symbols@);
        Alphabet { symbols }
    }
}

impl Alphabet {
    /// What holds of every alphabet.
    #[verifier::type_invariant]
    pub open spec fn well_formed(&self) -> bool {
        valid_char_list(self@)
    }

    /// The alphabet of the given symbols, in their order, or what stands
    /// against them.
    pub fn new(char_list: &str) -> (made: Result<Alphabet, RowIDError>)
        ensures
            match made {
                Ok(alphabet) => alphabet@ == char_list@ && char_list_error(char_list@) is None,
                Err(error) => char_list_error(char_list@) == Some(error),
            },
    {
        let symbols: Vec<char> = chars_of(char_list);
        let count: usize = symbols.len();
        if count < 2 {
            return Err(RowIDError::CharListLength);
        }
        let mut i: usize = 0;
        while i < count
            invariant
                symbols@ == char_list@,
                count == symbols@.len(),
                2 <= count,
                i <= count,
                forall|a: int, b: int| 0 <= a < i && a < b < count ==> symbols@[a] != symbols@[b],
            decreases count - i,
        {
            let mut j: usize = i + 1;
            while j < count
                invariant
                    symbols@ == char_list@,
                    count == symbols@.len(),
                    2 <= count,
                    i < j <= count,
                    forall|b: int| i < b < j ==> symbols@[i as int] != symbols@[b],
                decreases count - j,
            {
                if symbols[i] == symbols[j] {
                    assert(symbols@[i as int] == symbols@[j as int]);
                    return Err(RowIDError::CharListDuplicate);
                }
                j += 1;
            }
            i += 1;
        }
        Ok(Alphabet { symbols })
    }

    /// The default alphabet.
    pub fn standard() -> (alphabet: Alphabet)
        ensures
            alphabet@ == CHAR_LIST@,
    {
        proof {
            lemma_standard_char_list();
        }
        Alphabet { symbols: chars_of(CHAR_LIST) }
    }

    /// The symbols as a string, which is a valid list of symbols.
    pub fn char_list(&self) -> (char_list: String)
        ensures
            char_list@ == self@,
            valid_char_list(self@),
    {
        proof {
            use_type_invariant(self);
        }
        string_of(&self.symbols)
    }

    /// The number of symbols.
    pub fn len(&self) -> (count: usize)
        ensures
            count == self@.len(),
            count >= 2,
    {
        proof {
            use_type_invariant(self);
        }
        self.symbols.len()
    }

    /// The symbol that is the digit of value `index`, if the alphabet has
    /// so many symbols.
    pub fn symbol(&self, index: usize) -> (symbol: Option<char>)
        ensures
            symbol == if index < self@.len() {
                Some(self@[index as int])
            } else {
                None
            },
    {
        if index < self.symbols.len() {
            Some(self.symbols[index])
        } else {
            None
        }
    }

    /// The symbol that is the digit of value `index`.
    pub(crate) fn digit_symbol(&self, index: usize) -> (symbol: char)
        requires
            index < self@.len(),
        ensures
            symbol == self@[index as int],
    {
        self.symbols[index]
    }

    /// The value of `symbol` as a digit, if it is a symbol of this alphabet.
    pub fn index_of(&self, symbol: char) -> (index: Option<usize>)
        ensures
            match index {
                Some(i) => self@.contains(symbol) && i == self@.index_of(symbol),
                None => !self@.contains(symbol),
            },
    {
        proof {
            use_type_invariant(self);
        }
        let mut i: usize = 0;
        while i < self.symbols.len()
            invariant
                self@.no_duplicates(),
                i <= self.symbols@.len(),
                forall|k: int| 0 <= k < i ==> self.symbols@[k] != symbol,
            decreases self.symbols.len() - i,
        {
            if self.symbols[i] == symbol {
                proof {
                    lemma_index_of(self@, i as int);
                }
                return Some(i);
            }
            i += 1;
        }
        None
    }
}

/// In a list without duplicates, the index of the symbol at a position is
/// that position.
pub proof fn lemma_index_of(symbols: Seq<char>, position: int)
    requires
        symbols.no_duplicates(),
        0 <= position < symbols.len(),
    ensures
        symbols.contains(symbols[position]),
        symbols.index_of(symbols[position]) == position,
{
    let found = symbols.index_of(symbols[position]);
    assert(0 <= found < symbols.len() && symbols[found] == symbols[position]);
}

/// The default list of symbols is a valid alphabet of thirty-two symbols,
/// which stand in the order of their code points.
pub proof fn lemma_standard_char_list()
    ensures
        valid_char_list(CHAR_LIST@),
        sorted_char_list(CHAR_LIST@),
        CHAR_LIST@.len() == 32,
{
    reveal_strlit("0123456789ABCDEFGHJKMNPQRSTVWXYZ");
}

} // verus!
