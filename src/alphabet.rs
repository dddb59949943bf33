//! The alphabet of a scheme: a main set of characters, legal in input words
//! and in formulas, and a disjoint extension, legal only inside formulas.
use std::collections::HashSet;
use std::str::FromStr;

use vstd::prelude::*;

use vstd::string::StringExecFns;

use crate::text::{chars_of, has_char, string_of};

verus! {

/// The characters of `s` that already occur earlier in `s`: one entry for
/// each repeated occurrence, in order.
pub open spec fn repeated_chars(s: Seq<char>) -> Seq<char>
    decreases s.len(),
{
    if s.len() == 0 {
        Seq::empty()
    } else if s.drop_last().contains(s.last()) {
        repeated_chars(s.drop_last()).push(s.last())
    } else {
        repeated_chars(s.drop_last())
    }
}

/// A sequence repeats none of its characters exactly when no repeated
/// occurrence is found in it.
pub proof fn lemma_no_repeats(s: Seq<char>)
    ensures
        s.no_duplicates() <==> repeated_chars(s).len() == 0,
    decreases s.len(),
{
    if s.len() > 0 {
        let p = s.drop_last();
        lemma_no_repeats(p);
        if s.no_duplicates() {
            assert(p.no_duplicates()) by {
                assert forall|i: int, j: int| 0 <= i < p.len() && 0 <= j < p.len() && i != j implies p[i] != p[j] by {
                    assert(s[i] == p[i] && s[j] == p[j]);
                }
            }
            assert(!p.contains(s.last())) by {
                if p.contains(s.last()) {
                    let k = choose|k: int| 0 <= k < p.len() && p[k] == s.last();
                    assert(s[k] == s[s.len() - 1]);
                }
            }
        }
        if p.no_duplicates() && !p.contains(s.last()) {
            assert forall|i: int, j: int| 0 <= i < s.len() && 0 <= j < s.len() && i != j implies s[i] != s[j] by {
                if i < p.len() && j < p.len() {
                    assert(s[i] == p[i] && s[j] == p[j]);
                } else if i < p.len() {
                    assert(s[i] == p[i]);
                } else if j < p.len() {
                    assert(s[j] == p[j]);
                }
            }
        }
    }
}

/// The characters of the alphanumeric preset.
pub open spec fn alphanumeric_chars() -> Seq<char> {
    "abcdefghijklmnopqrstuvwxyzABCDEFGHIJKLMNOPQRSTUVWXYZ0123456789"@
}

/// The characters of the preset for plain text: alphanumerics, `.`, `,`,
/// the space and `|`.
pub open spec fn plain_text_chars() -> Seq<char> {
    "., abcdefghijklmnopqrstuvwxyzABCDEFGHIJKLMNOPQRSTUVWXYZ0123456789|"@
}

/// An alphabet that contains the main set of characters and an extension.
#[derive(Debug, Clone)]
pub struct Alphabet {
    main: Vec<char>,
    extension: Vec<char>,
}

/// An error in the alphabet definition.
#[derive(Debug, PartialEq, Eq)]
pub enum AlphabetDefinitionError {
    /// The same character cannot be included in the alphabet multiple times.
    DuplicatedCharacterEncountered { duplicates: String, alphabet_definition: String },
    /// An alphabet cannot be empty.
    NoCharacters,
    /// An alphabet cannot be extended with duplicate characters.
    ExtendedWithADuplicate,
}

impl AlphabetDefinitionError {
    /// The text of the message for this error.
    pub open spec fn message(&self) -> Seq<char> {
        match self {
            AlphabetDefinitionError::DuplicatedCharacterEncountered { duplicates, alphabet_definition } =>
                "the same character cannot be included in the alphabet multiple times (original definition: \""@
                + alphabet_definition@ + "\"), duplicate characters: \""@ + duplicates@ + "\""@,
            AlphabetDefinitionError::NoCharacters => "an alphabet cannot be empty"@,
            AlphabetDefinitionError::ExtendedWithADuplicate => "an alphabet cannot be extended with duplicate characters"@,
        }
    }

    /// Describes the error in words.
    pub fn to_string(&self) -> (r: String)
        ensures
            r@ == self.message(),
    {
        match self {
            AlphabetDefinitionError::DuplicatedCharacterEncountered { duplicates, alphabet_definition } => {
                let mut r = "the same character cannot be included in the alphabet multiple times (original definition: \"".to_owned();
                r.append(alphabet_definition.as_str());
                r.append("\"), duplicate characters: \"");
                r.append(duplicates.as_str());
                r.append("\"");
                r
            },
            AlphabetDefinitionError::NoCharacters => "an alphabet cannot be empty".to_owned(),
            AlphabetDefinitionError::ExtendedWithADuplicate => "an alphabet cannot be extended with duplicate characters".to_owned(),
        }
    }
}

/// Relies on `HashSet::iter`: it visits each element of the set once.
#[verifier::external_body]
pub(crate) fn elements_of<S>(set: &HashSet<char, S>) -> (r: Vec<char>)
    ensures
        r@.to_set() == set@,
{
    set.iter().copied().collect()
}

impl Alphabet {
    /// The main set of characters.
    pub closed spec fn main_set(&self) -> Set<char> {
        self.main@.to_set()
    }

    /// The extension: characters reserved for the bookkeeping of algorithms.
    pub closed spec fn extension_set(&self) -> Set<char> {
        self.extension@.to_set()
    }

    /// The main set together with the extension.
    pub open spec fn extended_set(&self) -> Set<char> {
        self.main_set().union(self.extension_set())
    }

    /// The main set and the extension share no character.
    pub open spec fn wf(&self) -> bool {
        self.main_set().disjoint(self.extension_set())
    }

    /// Checks whether the character belongs to the alphabet.
    pub fn contains(&self, character: char) -> (r: bool)
        ensures
            r == self.main_set().contains(character),
    {
        has_char(self.main.as_slice(), character)
    }

    /// Checks whether the character belongs to the alphabet or its extension.
    pub fn contains_extended(&self, character: char) -> (r: bool)
        ensures
            r == self.extended_set().contains(character),
    {
        has_char(self.main.as_slice(), character) || has_char(self.extension.as_slice(), character)
    }

    /// Extends the alphabet with a given character; fails if the character
    /// belongs to the alphabet or its extension.
    pub fn extend(self, character: char) -> (r: Result<Self, AlphabetDefinitionError>)
        ensures
            self.extended_set().contains(character) <==> r is Err,
            r matches Err(e) ==> e == AlphabetDefinitionError::ExtendedWithADuplicate,
            r matches Ok(a) ==> a.main_set() == self.main_set() && a.extension_set()
                == self.extension_set().insert(character) && (self.wf() ==> a.wf()),
    {
        if self.contains_extended(character) {
            Err(AlphabetDefinitionError::ExtendedWithADuplicate)
        } else {
            let Alphabet { main, mut extension } = self;
            let ghost old_extension = extension@;
            extension.push(character);
            assert(extension@.to_set() =~= old_extension.to_set().insert(character)) by {
                assert(forall|c: char| #[trigger] old_extension.contains(c) ==> extension@.contains(c)) by {
                    assert forall|c: char| #[trigger] old_extension.contains(c) implies extension@.contains(c) by {
                        let k = choose|k: int| 0 <= k < old_extension.len() && old_extension[k] == c;
                        assert(extension@[k] == c);
                    }
                }
                assert(extension@[extension@.len() - 1] == character);
                assert forall|c: char| #[trigger] extension@.contains(c) implies old_extension.contains(c) || c == character by {
                    let k = choose|k: int| 0 <= k < extension@.len() && extension@[k] == c;
                    if k < old_extension.len() {
                        assert(old_extension[k] == c);
                    }
                }
            }
            Ok(Alphabet { main, extension })
        }
    }

    /// Creates an alphabet from the characters of a string: fails on an
    /// empty string, and on repeated characters, naming every repetition.
    pub fn from_characters(characters: &str) -> (r: Result<Self, AlphabetDefinitionError>)
        ensures
            characters@.len() == 0 <==> r == Err::<Self, _>(AlphabetDefinitionError::NoCharacters),
            characters@.len() > 0 && repeated_chars(characters@).len() > 0 <==> (r matches Err(
                AlphabetDefinitionError::DuplicatedCharacterEncountered { .. },
            )),
            r matches Err(AlphabetDefinitionError::DuplicatedCharacterEncountered {
                duplicates,
                alphabet_definition,
            }) ==> duplicates@ == repeated_chars(characters@) && alphabet_definition@
                == characters@,
            r matches Ok(a) ==> a.main_set() == characters@.to_set() && a.extension_set()
                == Set::<char>::empty() && a.wf(),
            !(r matches Err(AlphabetDefinitionError::ExtendedWithADuplicate)),
            characters@.len() > 0 && characters@.no_duplicates() ==> r is Ok,
    {
        proof {
            lemma_no_repeats(characters@);
        }
        let all = chars_of(characters);
        if all.len() == 0 {
            return Err(AlphabetDefinitionError::NoCharacters);
        }
        let mut store: Vec<char> = Vec::new();
        let mut duplicates: Vec<char> = Vec::new();
        let mut k: usize = 0;
        while k < all.len()
            invariant
                k <= all@.len(),
                store@.to_set() == all@.subrange(0, k as int).to_set(),
                duplicates@ == repeated_chars(all@.subrange(0, k as int)),
            decreases all@.len() - k,
        {
            let c = all[k];
            let ghost prefix = all@.subrange(0, k as int);
            let ghost next = all@.subrange(0, k + 1);
            assert(next.drop_last() =~= prefix);
            assert(next.last() == c);
            assert(prefix.to_set().contains(c) <==> prefix.contains(c));
            if has_char(store.as_slice(), c) {
                assert(store@.to_set().contains(c));
                duplicates.push(c);
            } else {
                assert(!store@.to_set().contains(c));
                let ghost before = store@;
                store.push(c);
                assert(store@.to_set() =~= next.to_set()) by {
                    assert forall|d: char| #[trigger] next.contains(d) implies store@.contains(d) by {
                        let i = choose|i: int| 0 <= i < next.len() && next[i] == d;
                        if i < prefix.len() {
                            assert(prefix[i] == d);
                            assert(before.to_set().contains(d));
                            let j = choose|j: int| 0 <= j < before.len() && before[j] == d;
                            assert(store@[j] == d);
                        } else {
                            assert(store@[store@.len() - 1] == d);
                        }
                    }
                    assert forall|d: char| #[trigger] store@.contains(d) implies next.contains(d) by {
                        let i = choose|i: int| 0 <= i < store@.len() && store@[i] == d;
                        if i < before.len() {
                            assert(before[i] == d);
                            assert(prefix.to_set().contains(d));
                            let j = choose|j: int| 0 <= j < prefix.len() && prefix[j] == d;
                            assert(next[j] == d);
                        } else {
                            assert(next[k as int] == d);
                        }
                    }
                }
            }
            k = k + 1;
        }
        assert(all@.subrange(0, all@.len() as int) =~= all@);
        if duplicates.len() > 0 {
            Err(
                AlphabetDefinitionError::DuplicatedCharacterEncountered {
                    duplicates: string_of(duplicates.as_slice()),
                    alphabet_definition: characters.to_owned(),
                },
            )
        } else {
            let extension: Vec<char> = Vec::new();
            assert(extension@.to_set() =~= Set::<char>::empty());
            Ok(Alphabet { main: store, extension })
        }
    }

    /// Creates an alphabet whose main set is the given set; fails if the set
    /// is empty.
    pub fn from_set<S>(set: &HashSet<char, S>) -> (r: Result<Self, AlphabetDefinitionError>)
        ensures
            set@.is_empty() <==> r is Err,
            r matches Err(e) ==> e == AlphabetDefinitionError::NoCharacters,
            r matches Ok(a) ==> a.main_set() == set@ && a.extension_set() == Set::<char>::empty()
                && a.wf(),
    {
        let main = elements_of(set);
        if main.len() == 0 {
            assert(main@.to_set() =~= Set::<char>::empty());
            Err(AlphabetDefinitionError::NoCharacters)
        } else {
            assert(main@.to_set().contains(main@[0]));
            let extension: Vec<char> = Vec::new();
            assert(extension@.to_set() =~= Set::<char>::empty());
            Ok(Alphabet { main, extension })
        }
    }

    /// The alphanumeric preset: `a`-`z`, `A`-`Z` and `0`-`9`, no extension.
    pub fn alphanumeric() -> (r: Alphabet)
        ensures
            r.main_set() == alphanumeric_chars().to_set(),
            r.extension_set() == Set::<char>::empty(),
            r.wf(),
    {
        let main = chars_of("abcdefghijklmnopqrstuvwxyzABCDEFGHIJKLMNOPQRSTUVWXYZ0123456789");
        let extension: Vec<char> = Vec::new();
        assert(extension@.to_set() =~= Set::<char>::empty());
        Alphabet { main, extension }
    }

    /// The preset for plain text: alphanumerics, `.`, `,`, the space and
    /// `|`, no extension.
    pub fn plain_text() -> (r: Alphabet)
        ensures
            r.main_set() == plain_text_chars().to_set(),
            r.extension_set() == Set::<char>::empty(),
            r.wf(),
    {
        let main = chars_of("., abcdefghijklmnopqrstuvwxyzABCDEFGHIJKLMNOPQRSTUVWXYZ0123456789|");
        let extension: Vec<char> = Vec::new();
        assert(extension@.to_set() =~= Set::<char>::empty());
        Alphabet { main, extension }
    }
}

impl FromStr for Alphabet {
    type Err = AlphabetDefinitionError;

    fn from_str(characters: &str) -> Result<Self, Self::Err> {
        Alphabet::from_characters(characters)
    }
}

impl<'a> TryFrom<&'a str> for Alphabet {
    type Error = AlphabetDefinitionError;

    fn try_from(characters: &'a str) -> Result<Self, Self::Error> {
        Alphabet::from_characters(characters)
    }
}

impl<'a> vstd::std_specs::convert::TryFromSpecImpl<&'a str> for Alphabet {
    /// The contract lives on `from_characters`.
    open spec fn obeys_try_from_spec() -> bool {
        false
    }

    open spec fn try_from_spec(characters: &'a str) -> Result<Self, Self::Error> {
        vstd::pervasive::arbitrary()
    }
}

impl<'a, S> TryFrom<&'a HashSet<char, S>> for Alphabet {
    type Error = AlphabetDefinitionError;

    fn try_from(set: &'a HashSet<char, S>) -> Result<Self, Self::Error> {
        Alphabet::from_set(set)
    }
}

impl<'a, S> vstd::std_specs::convert::TryFromSpecImpl<&'a HashSet<char, S>> for Alphabet {
    /// The contract lives on `from_set`.
    open spec fn obeys_try_from_spec() -> bool {
        false
    }

    open spec fn try_from_spec(set: &'a HashSet<char, S>) -> Result<Self, Self::Error> {
        vstd::pervasive::arbitrary()
    }
}

} // verus!
