//! A builder that configures and creates algorithm schemes.
use vstd::prelude::*;
use vstd::string::StringExecFns;

use crate::alphabet::{alphanumeric_chars, Alphabet};
use crate::scheme::formulas::{
    parse_formula, FormulaErrorView, FormulaModel, SubstitutionFormula,
    SubstitutionFormulaDefinitionError,
};
use crate::scheme::AlgorithmScheme;
use crate::text::{char_string, chars_of, filter_chars, string_of};

verus! {

/// The default delimiter.
pub const DEFAULT_DELIMITER: char = '→';

/// The default final marker.
pub const DEFAULT_FINAL_MARKER: char = '⋅';

/// Characters that may not stand in a formula: neither in the alphabet or
/// its extension, nor the delimiter or the final marker.
pub open spec fn is_foreign(extended: Set<char>, delimiter: char, final_marker: char) -> spec_fn(
    char,
) -> bool {
    |c: char| !extended.contains(c) && c != delimiter && c != final_marker
}

/// What is wrong with the delimiter, the final marker and the alphabet, if
/// anything; the first conflict found wins. Only the main set is checked:
/// a delimiter or final marker that is an extension character is accepted.
pub open spec fn properties_fault(delimiter: char, final_marker: char, main: Set<char>) -> Option<
    DefinitionErrorView,
> {
    if delimiter == final_marker {
        Some(DefinitionErrorView::DelimiterAndFinalMarkerAreTheSame(delimiter))
    } else if main.contains(delimiter) {
        Some(DefinitionErrorView::DelimiterBelongsToTheAlphabet(delimiter))
    } else if main.contains(final_marker) {
        Some(DefinitionErrorView::FinalMarkerBelongsToTheAlphabet(final_marker))
    } else {
        None
    }
}

/// The formulas that `lines` define, in order, or the error of the first
/// line that fails: first on its foreign characters, all of them reported,
/// then on its grammar.
pub open spec fn build_formulas(
    lines: Seq<Seq<char>>,
    delimiter: char,
    final_marker: char,
    extended: Set<char>,
) -> Result<Seq<FormulaModel>, DefinitionErrorView>
    decreases lines.len(),
{
    if lines.len() == 0 {
        Ok(Seq::empty())
    } else {
        match build_formulas(lines.drop_last(), delimiter, final_marker, extended) {
            Err(e) => Err(e),
            Ok(fs) => {
                let line = lines.last();
                let foreign = filter_chars(line, is_foreign(extended, delimiter, final_marker));
                if foreign.len() > 0 {
                    Err(DefinitionErrorView::UnknownCharactersEncountered(foreign))
                } else {
                    match parse_formula(line, delimiter, final_marker) {
                        Err(e) => Err(DefinitionErrorView::FormulaCreationError(e)),
                        Ok(f) => Ok(fs.push(f)),
                    }
                }
            },
        }
    }
}

/// The formulas of a scheme built from `lines`, or the error that stops it.
pub open spec fn build_scheme(
    lines: Seq<Seq<char>>,
    delimiter: char,
    final_marker: char,
    main: Set<char>,
    extension: Set<char>,
) -> Result<Seq<FormulaModel>, DefinitionErrorView> {
    match properties_fault(delimiter, final_marker, main) {
        Some(e) => Err(e),
        None => build_formulas(lines, delimiter, final_marker, main.union(extension)),
    }
}

/// The text of each line.
pub open spec fn texts(lines: Seq<&str>) -> Seq<Seq<char>> {
    lines.map_values(|l: &str| l@)
}

/// An error in the definition of an algorithm scheme.
#[derive(Debug, PartialEq, Eq)]
pub enum AlgorithmSchemeDefinitionError {
    /// The same character cannot be used as a delimiter and as a final marker.
    DelimiterAndFinalMarkerAreTheSame(char),
    /// The delimiter cannot belong to the alphabet.
    DelimiterBelongsToTheAlphabet(char),
    /// The final marker cannot belong to the alphabet.
    FinalMarkerBelongsToTheAlphabet(char),
    /// An error encountered during the creation of substitution formulas.
    FormulaCreationError { source: SubstitutionFormulaDefinitionError },
    /// The definition holds characters that neither belong to the alphabet
    /// nor are the delimiter or the final marker.
    UnknownCharactersEncountered(String),
}

/// A definition error as a reader sees it.
pub enum DefinitionErrorView {
    DelimiterAndFinalMarkerAreTheSame(char),
    DelimiterBelongsToTheAlphabet(char),
    FinalMarkerBelongsToTheAlphabet(char),
    FormulaCreationError(FormulaErrorView),
    UnknownCharactersEncountered(Seq<char>),
}

impl View for AlgorithmSchemeDefinitionError {
    type V = DefinitionErrorView;

    open spec fn view(&self) -> DefinitionErrorView {
        match self {
            AlgorithmSchemeDefinitionError::DelimiterAndFinalMarkerAreTheSame(c) => DefinitionErrorView::DelimiterAndFinalMarkerAreTheSame(*c),
            AlgorithmSchemeDefinitionError::DelimiterBelongsToTheAlphabet(c) => DefinitionErrorView::DelimiterBelongsToTheAlphabet(*c),
            AlgorithmSchemeDefinitionError::FinalMarkerBelongsToTheAlphabet(c) => DefinitionErrorView::FinalMarkerBelongsToTheAlphabet(*c),
            AlgorithmSchemeDefinitionError::FormulaCreationError { source } => DefinitionErrorView::FormulaCreationError(source@),
            AlgorithmSchemeDefinitionError::UnknownCharactersEncountered(s) => DefinitionErrorView::UnknownCharactersEncountered(s@),
        }
    }
}

impl AlgorithmSchemeDefinitionError {
    /// The text of the message for this error.
    pub open spec fn message(&self) -> Seq<char> {
        match self {
            AlgorithmSchemeDefinitionError::DelimiterAndFinalMarkerAreTheSame(c) => "the same character '"@ + seq![*c]
                + "' cannot be used as a delimiter and as a final marker"@,
            AlgorithmSchemeDefinitionError::DelimiterBelongsToTheAlphabet(c) => "the character '"@ + seq![*c]
                + "' cannot be used as a delimiter because it belongs to the alphabet"@,
            AlgorithmSchemeDefinitionError::FinalMarkerBelongsToTheAlphabet(c) => "the character '"@ + seq![*c]
                + "' cannot be used as a final marker because it belongs to the alphabet"@,
            AlgorithmSchemeDefinitionError::FormulaCreationError { source } =>
                "encountered an issue during the creation of substitution formulas: "@ + source.message(),
            AlgorithmSchemeDefinitionError::UnknownCharactersEncountered(s) =>
                "the definition of the scheme contains the characters that neither belong to the alphabet, nor are delimiter or final marker (unknown characters: \""@
                + s@ + "\")"@,
        }
    }

    /// Describes the error in words.
    pub fn to_string(&self) -> (r: String)
        ensures
            r@ == self.message(),
    {
        match self {
            AlgorithmSchemeDefinitionError::DelimiterAndFinalMarkerAreTheSame(c) => {
                let mut r = "the same character '".to_owned();
                r.append(char_string(*c).as_str());
                r.append("' cannot be used as a delimiter and as a final marker");
                r
            },
            AlgorithmSchemeDefinitionError::DelimiterBelongsToTheAlphabet(c) => {
                let mut r = "the character '".to_owned();
                r.append(char_string(*c).as_str());
                r.append("' cannot be used as a delimiter because it belongs to the alphabet");
                r
            },
            AlgorithmSchemeDefinitionError::FinalMarkerBelongsToTheAlphabet(c) => {
                let mut r = "the character '".to_owned();
                r.append(char_string(*c).as_str());
                r.append("' cannot be used as a final marker because it belongs to the alphabet");
                r
            },
            AlgorithmSchemeDefinitionError::FormulaCreationError { source } => {
                let mut r = "encountered an issue during the creation of substitution formulas: ".to_owned();
                r.append(source.to_string().as_str());
                r
            },
            AlgorithmSchemeDefinitionError::UnknownCharactersEncountered(s) => {
                let mut r = "the definition of the scheme contains the characters that neither belong to the alphabet, nor are delimiter or final marker (unknown characters: \"".to_owned();
                r.append(s.as_str());
                r.append("\")");
                r
            },
        }
    }
}

/// A builder to configure an algorithm scheme. Values left unset fall back
/// to the defaults: `→` as delimiter, `⋅` as final marker, and the
/// alphanumeric alphabet.
#[derive(Debug, Clone)]
pub struct AlgorithmSchemeBuilder {
    alphabet: Option<Alphabet>,
    delimiter: Option<char>,
    final_marker: Option<char>,
}

impl AlgorithmSchemeBuilder {
    /// The delimiter that `build_with_formula_definitions` will use.
    pub closed spec fn spec_delimiter(&self) -> char {
        match self.delimiter {
            Some(c) => c,
            None => DEFAULT_DELIMITER,
        }
    }

    /// The final marker that `build_with_formula_definitions` will use.
    pub closed spec fn spec_final_marker(&self) -> char {
        match self.final_marker {
            Some(c) => c,
            None => DEFAULT_FINAL_MARKER,
        }
    }

    /// The main set of the alphabet that will be used.
    pub closed spec fn spec_main(&self) -> Set<char> {
        match self.alphabet {
            Some(a) => a.main_set(),
            None => alphanumeric_chars().to_set(),
        }
    }

    /// The extension of the alphabet that will be used.
    pub closed spec fn spec_extension(&self) -> Set<char> {
        match self.alphabet {
            Some(a) => a.extension_set(),
            None => Set::empty(),
        }
    }

    /// Creates a builder with nothing set.
    pub fn new() -> (r: Self)
        ensures
            r.spec_delimiter() == DEFAULT_DELIMITER,
            r.spec_final_marker() == DEFAULT_FINAL_MARKER,
            r.spec_main() == alphanumeric_chars().to_set(),
            r.spec_extension() == Set::<char>::empty(),
    {
        AlgorithmSchemeBuilder { alphabet: None, delimiter: None, final_marker: None }
    }

    /// Sets the delimiter, replacing any set before.
    pub fn with_delimiter(self, delimiter: char) -> (r: Self)
        ensures
            r.spec_delimiter() == delimiter,
            r.spec_final_marker() == self.spec_final_marker(),
            r.spec_main() == self.spec_main(),
            r.spec_extension() == self.spec_extension(),
    {
        AlgorithmSchemeBuilder { delimiter: Some(delimiter), ..self }
    }

    /// Sets the final marker, replacing any set before.
    pub fn with_final_marker(self, final_marker: char) -> (r: Self)
        ensures
            r.spec_delimiter() == self.spec_delimiter(),
            r.spec_final_marker() == final_marker,
            r.spec_main() == self.spec_main(),
            r.spec_extension() == self.spec_extension(),
    {
        AlgorithmSchemeBuilder { final_marker: Some(final_marker), ..self }
    }

    /// Sets the alphabet, replacing any set before.
    pub fn with_alphabet(self, alphabet: Alphabet) -> (r: Self)
        ensures
            r.spec_delimiter() == self.spec_delimiter(),
            r.spec_final_marker() == self.spec_final_marker(),
            r.spec_main() == alphabet.main_set(),
            r.spec_extension() == alphabet.extension_set(),
    {
        AlgorithmSchemeBuilder { alphabet: Some(alphabet), ..self }
    }

    /// Builds a scheme whose formulas are defined by the given lines, in
    /// order of priority; the first error found stops the build.
    pub fn build_with_formula_definitions(self, formula_definitions: &[&str]) -> (r: Result<
        AlgorithmScheme,
        AlgorithmSchemeDefinitionError,
    >)
        ensures
            match r {
                Ok(s) => build_scheme(
                    texts(formula_definitions@),
                    self.spec_delimiter(),
                    self.spec_final_marker(),
                    self.spec_main(),
                    self.spec_extension(),
                ) == Ok::<Seq<FormulaModel>, DefinitionErrorView>(s.formulas())
                    && s.spec_delimiter() == self.spec_delimiter()
                    && s.spec_final_marker() == self.spec_final_marker()
                    && s.spec_alphabet().main_set() == self.spec_main()
                    && s.spec_alphabet().extension_set() == self.spec_extension(),
                Err(e) => build_scheme(
                    texts(formula_definitions@),
                    self.spec_delimiter(),
                    self.spec_final_marker(),
                    self.spec_main(),
                    self.spec_extension(),
                ) == Err::<Seq<FormulaModel>, DefinitionErrorView>(e@),
            },
    {
        let ghost lines = texts(formula_definitions@);
        let (delimiter, final_marker, alphabet) = self.finalize_properties();
        if let Err(e) = assert_all_properties_are_valid(delimiter, final_marker, &alphabet) {
            return Err(e);
        }
        let ghost extended = alphabet.extended_set();
        let mut store = String::new();
        let mut chars: Vec<char> = Vec::new();
        let mut formulas: Vec<SubstitutionFormula> = Vec::new();
        let mut i: usize = 0;
        assert(lines.take(0) =~= Seq::<Seq<char>>::empty());
        assert(Seq::new(formulas@.len(), |j: int| formulas@[j].model(chars@)) =~= Seq::<FormulaModel>::empty());
        while i < formula_definitions.len()
            invariant
                lines == texts(formula_definitions@),
                lines.len() == formula_definitions@.len(),
                extended == alphabet.extended_set(),
                alphabet.main_set() == self.spec_main(),
                alphabet.extension_set() == self.spec_extension(),
                delimiter == self.spec_delimiter(),
                final_marker == self.spec_final_marker(),
                properties_fault(delimiter, final_marker, alphabet.main_set()) is None,
                i <= formula_definitions@.len(),
                store@ == chars@,
                forall|j: int| 0 <= j < formulas@.len() ==> #[trigger] formulas@[j].within(chars@.len()),
                build_formulas(lines.take(i as int), delimiter, final_marker, extended) == Ok::<
                    Seq<FormulaModel>,
                    DefinitionErrorView,
                >(Seq::new(formulas@.len(), |j: int| formulas@[j].model(chars@))),
            decreases formula_definitions@.len() - i,
        {
            let line = formula_definitions[i];
            let text = chars_of(line);
            assert(lines.take(i + 1).drop_last() =~= lines.take(i as int));
            assert(lines.take(i + 1).last() == text@);
            let foreign = foreign_characters(text.as_slice(), delimiter, final_marker, &alphabet);
            if foreign.len() > 0 {
                proof {
                    lemma_error_persists(lines, delimiter, final_marker, extended, i + 1);
                }
                return Err(AlgorithmSchemeDefinitionError::UnknownCharactersEncountered(string_of(foreign.as_slice())));
            }
            let ghost old_chars = chars@;
            let ghost old_models = Seq::new(formulas@.len(), |j: int| formulas@[j].model(chars@));
            let ghost old_formulas = formulas@;
            let start = chars.len();
            store.append(line);
            append_chars(&mut chars, text.as_slice());
            let end = chars.len();
            assert(chars@.subrange(start as int, end as int) =~= text@);
            assert(chars@.subrange(0, start as int) =~= old_chars);
            proof {
                assert forall|j: int| 0 <= j < formulas@.len() implies #[trigger] formulas@[j].within(chars@.len())
                    && formulas@[j].model(chars@) == formulas@[j].model(old_chars) by {
                    formulas@[j].lemma_model_prefix(old_chars, chars@);
                }
            }
            match SubstitutionFormula::new(chars.as_slice(), start, end, delimiter, final_marker) {
                Ok(f) => {
                    formulas.push(f);
                    assert forall|j: int| 0 <= j < formulas@.len() implies formulas@[j].within(chars@.len())
                        && #[trigger] formulas@[j].model(chars@) == old_models.push(f.model(chars@))[j] by {
                        if j < old_formulas.len() {
                            assert(formulas@[j] == old_formulas[j]);
                            assert(old_formulas[j].within(old_chars.len()));
                            old_formulas[j].lemma_model_prefix(old_chars, chars@);
                            assert(old_models[j] == old_formulas[j].model(old_chars));
                        } else {
                            assert(formulas@[j] == f);
                        }
                    }
                    assert(Seq::new(formulas@.len(), |j: int| formulas@[j].model(chars@)) =~= old_models.push(f.model(chars@)));
                    assert forall|j: int| 0 <= j < formulas@.len() implies #[trigger] formulas@[j].within(chars@.len()) by {
                        assert(formulas@[j].model(chars@) == old_models.push(f.model(chars@))[j]);
                    }
                },
                Err(e) => {
                    proof {
                        lemma_error_persists(lines, delimiter, final_marker, extended, i + 1);
                    }
                    return Err(AlgorithmSchemeDefinitionError::FormulaCreationError { source: e });
                },
            }
            i = i + 1;
        }
        assert(lines.take(formula_definitions@.len() as int) =~= lines);
        Ok(AlgorithmScheme { delimiter, final_marker, alphabet, store, chars, substitution_formulas: formulas })
    }

    /// The delimiter, final marker and alphabet, defaults filled in.
    fn finalize_properties(self) -> (r: (char, char, Alphabet))
        ensures
            r.0 == self.spec_delimiter(),
            r.1 == self.spec_final_marker(),
            r.2.main_set() == self.spec_main(),
            r.2.extension_set() == self.spec_extension(),
    {
        let delimiter = match self.delimiter {
            Some(c) => c,
            None => DEFAULT_DELIMITER,
        };
        let final_marker = match self.final_marker {
            Some(c) => c,
            None => DEFAULT_FINAL_MARKER,
        };
        let alphabet = match self.alphabet {
            Some(a) => a,
            None => Alphabet::alphanumeric(),
        };
        (delimiter, final_marker, alphabet)
    }
}

impl Default for AlgorithmSchemeBuilder {
    fn default() -> (r: Self)
        ensures
            r.spec_delimiter() == DEFAULT_DELIMITER,
            r.spec_final_marker() == DEFAULT_FINAL_MARKER,
            r.spec_main() == alphanumeric_chars().to_set(),
            r.spec_extension() == Set::<char>::empty(),
    {
        AlgorithmSchemeBuilder::new()
    }
}

/// Once a prefix of the lines fails, the whole of them fails the same way.
proof fn lemma_error_persists(
    lines: Seq<Seq<char>>,
    delimiter: char,
    final_marker: char,
    extended: Set<char>,
    n: int,
)
    requires
        0 <= n <= lines.len(),
        build_formulas(lines.take(n), delimiter, final_marker, extended) is Err,
    ensures
        build_formulas(lines, delimiter, final_marker, extended) == build_formulas(
            lines.take(n),
            delimiter,
            final_marker,
            extended,
        ),
    decreases lines.len() - n,
{
    if n < lines.len() {
        assert(lines.take(n + 1).drop_last() =~= lines.take(n));
        lemma_error_persists(lines, delimiter, final_marker, extended, n + 1);
    } else {
        assert(lines.take(n) =~= lines);
    }
}

/// Checks that the delimiter and the final marker differ and stay out of
/// the main alphabet.
fn assert_all_properties_are_valid(delimiter: char, final_marker: char, alphabet: &Alphabet) -> (r:
    Result<(), AlgorithmSchemeDefinitionError>)
    ensures
        match r {
            Ok(()) => properties_fault(delimiter, final_marker, alphabet.main_set()) is None,
            Err(e) => properties_fault(delimiter, final_marker, alphabet.main_set()) == Some(e@),
        },
{
    if delimiter == final_marker {
        Err(AlgorithmSchemeDefinitionError::DelimiterAndFinalMarkerAreTheSame(delimiter))
    } else if alphabet.contains(delimiter) {
        Err(AlgorithmSchemeDefinitionError::DelimiterBelongsToTheAlphabet(delimiter))
    } else if alphabet.contains(final_marker) {
        Err(AlgorithmSchemeDefinitionError::FinalMarkerBelongsToTheAlphabet(final_marker))
    } else {
        Ok(())
    }
}

/// The characters of a definition line that may not stand in a formula.
fn foreign_characters(line: &[char], delimiter: char, final_marker: char, alphabet: &Alphabet) -> (r:
    Vec<char>)
    ensures
        r@ == filter_chars(line@, is_foreign(alphabet.extended_set(), delimiter, final_marker)),
{
    let ghost keep = is_foreign(alphabet.extended_set(), delimiter, final_marker);
    let mut found: Vec<char> = Vec::new();
    let mut k: usize = 0;
    while k < line.len()
        invariant
            keep == is_foreign(alphabet.extended_set(), delimiter, final_marker),
            k <= line@.len(),
            found@ == filter_chars(line@.subrange(0, k as int), keep),
        decreases line@.len() - k,
    {
        let c = line[k];
        assert(line@.subrange(0, k + 1).drop_last() =~= line@.subrange(0, k as int));
        if !alphabet.contains_extended(c) && c != delimiter && c != final_marker {
            found.push(c);
        }
        k = k + 1;
    }
    assert(line@.subrange(0, line@.len() as int) =~= line@);
    found
}

/// Appends the characters of `text` to `chars`.
fn append_chars(chars: &mut Vec<char>, text: &[char])
    ensures
        final(chars)@ == old(chars)@ + text@,
{
    let mut k: usize = 0;
    while k < text.len()
        invariant
            k <= text@.len(),
            chars@ == old(chars)@ + text@.subrange(0, k as int),
        decreases text@.len() - k,
    {
        chars.push(text[k]);
        k = k + 1;
    }
    assert(text@.subrange(0, text@.len() as int) =~= text@);
}

} // verus!
