//! The configuration-based interface: a scheme defined by one multi-line
//! text over a `SubstitutionFormulaConfiguration`, run with `apply`.
use std::collections::HashSet;

use vstd::prelude::*;

use vstd::string::StringExecFns;

use crate::alphabet::{elements_of, plain_text_chars};
use crate::scheme::formulas::{FormulaModel, SubstitutionFormula as Formula};
use crate::scheme::{all_within, models, run, shifted, step_with};
use crate::text::{chars_of, has_char, lines_of, split_lines, string_of};

use self::formulas::{first_with, foreign_in, from_definition_error, parse_configured, CreationErrorView, SubstitutionFormulaCreationError};

pub mod formulas;

verus! {

/// Relies on `HashSet::from_iter`: the set holds exactly the characters
/// collected into it.
#[verifier::external_body]
fn set_of(v: &[char]) -> (r: HashSet<char>)
    ensures
        r@ == v@.to_set(),
{
    v.iter().copied().collect()
}

/// An error that occurs during the creation of a configuration.
#[derive(Debug, PartialEq, Eq)]
pub enum SubstitutionFormulaConfigurationCreationError {
    /// The delimiter and the final marker are the same character.
    DelimiterAndFinalMarkerAreTheSame,
    /// The formula delimiter belongs to the alphabet.
    DelimiterIsPartOfTheAlphabet,
    /// The final marker belongs to the alphabet.
    FinalMarkerIsPartOfTheAlphabet,
}

impl SubstitutionFormulaConfigurationCreationError {
    /// Describes the error in words.
    pub fn to_string(&self) -> (r: String)
        ensures
            r@ == match self {
                SubstitutionFormulaConfigurationCreationError::DelimiterAndFinalMarkerAreTheSame => "the formula delimiter and the final marker are the same character"@,
                SubstitutionFormulaConfigurationCreationError::DelimiterIsPartOfTheAlphabet => "the formula delimiter belongs to the alphabet"@,
                SubstitutionFormulaConfigurationCreationError::FinalMarkerIsPartOfTheAlphabet => "the final marker belongs to the alphabet"@,
            },
    {
        match self {
            SubstitutionFormulaConfigurationCreationError::DelimiterAndFinalMarkerAreTheSame => "the formula delimiter and the final marker are the same character".to_owned(),
            SubstitutionFormulaConfigurationCreationError::DelimiterIsPartOfTheAlphabet => "the formula delimiter belongs to the alphabet".to_owned(),
            SubstitutionFormulaConfigurationCreationError::FinalMarkerIsPartOfTheAlphabet => "the final marker belongs to the alphabet".to_owned(),
        }
    }
}

/// What is wrong with a delimiter, a final marker and an alphabet, if
/// anything: equal delimiter and marker first, then a delimiter in the
/// alphabet, then a final marker in it.
pub open spec fn configuration_fault(delimiter: char, final_marker: char, alphabet: Set<char>) -> Option<
    SubstitutionFormulaConfigurationCreationError,
> {
    if delimiter == final_marker {
        Some(SubstitutionFormulaConfigurationCreationError::DelimiterAndFinalMarkerAreTheSame)
    } else if alphabet.contains(delimiter) {
        Some(SubstitutionFormulaConfigurationCreationError::DelimiterIsPartOfTheAlphabet)
    } else if alphabet.contains(final_marker) {
        Some(SubstitutionFormulaConfigurationCreationError::FinalMarkerIsPartOfTheAlphabet)
    } else {
        None
    }
}

/// A configuration to create substitution formulas from textual
/// definitions: the delimiter, the final marker, and the alphabet used
/// both in definitions and in input strings.
#[derive(Clone, Debug)]
pub struct SubstitutionFormulaConfiguration {
    final_marker: char,
    delimiter: char,
    final_delimiter: String,
    characters: Vec<char>,
}

impl SubstitutionFormulaConfiguration {
    /// The delimiter.
    pub closed spec fn spec_delimiter(&self) -> char {
        self.delimiter
    }

    /// The final marker.
    pub closed spec fn spec_final_marker(&self) -> char {
        self.final_marker
    }

    /// The characters of the alphabet.
    pub closed spec fn alphabet_set(&self) -> Set<char> {
        self.characters@.to_set()
    }

    /// The fields agree with one another, and neither the delimiter nor the
    /// final marker belongs to the alphabet.
    pub closed spec fn wf(&self) -> bool {
        &&& self.final_delimiter@ == seq![self.delimiter, self.final_marker]
        &&& self.delimiter != self.final_marker
        &&& !self.alphabet_set().contains(self.delimiter)
        &&& !self.alphabet_set().contains(self.final_marker)
    }

    /// Creates a configuration over the plain text alphabet.
    pub fn new(delimiter: char, final_marker: char) -> (r: Result<
        Self,
        SubstitutionFormulaConfigurationCreationError,
    >)
        ensures
            match r {
                Ok(c) => c.wf() && c.spec_delimiter() == delimiter && c.spec_final_marker()
                    == final_marker && c.alphabet_set() == plain_text_chars().to_set(),
                Err(e) => configuration_fault(delimiter, final_marker, plain_text_chars().to_set()) == Some(e),
            },
            r is Err <==> configuration_fault(delimiter, final_marker, plain_text_chars().to_set()) is Some,
    {
        let characters = chars_of("., abcdefghijklmnopqrstuvwxyzABCDEFGHIJKLMNOPQRSTUVWXYZ0123456789|");
        Self::over_characters(delimiter, final_marker, characters)
    }

    /// Creates a configuration over the given alphabet; fails if the
    /// delimiter and the final marker are equal, or else if the delimiter,
    /// or else the final marker, belongs to the alphabet.
    pub fn over_alphabet(delimiter: char, final_marker: char, extended_alphabet: HashSet<char>) -> (r:
        Result<Self, SubstitutionFormulaConfigurationCreationError>)
        ensures
            match r {
                Ok(c) => c.wf() && c.spec_delimiter() == delimiter && c.spec_final_marker()
                    == final_marker && c.alphabet_set() == extended_alphabet@,
                Err(e) => configuration_fault(delimiter, final_marker, extended_alphabet@) == Some(e),
            },
            r is Err <==> configuration_fault(delimiter, final_marker, extended_alphabet@) is Some,
    {
        let characters = elements_of(&extended_alphabet);
        Self::over_characters(delimiter, final_marker, characters)
    }

    fn over_characters(delimiter: char, final_marker: char, characters: Vec<char>) -> (r: Result<
        Self,
        SubstitutionFormulaConfigurationCreationError,
    >)
        ensures
            match r {
                Ok(c) => c.wf() && c.spec_delimiter() == delimiter && c.spec_final_marker()
                    == final_marker && c.alphabet_set() == characters@.to_set(),
                Err(e) => configuration_fault(delimiter, final_marker, characters@.to_set()) == Some(e),
            },
            r is Err <==> configuration_fault(delimiter, final_marker, characters@.to_set()) is Some,
    {
        if delimiter == final_marker {
            return Err(SubstitutionFormulaConfigurationCreationError::DelimiterAndFinalMarkerAreTheSame);
        }
        if has_char(characters.as_slice(), delimiter) {
            return Err(SubstitutionFormulaConfigurationCreationError::DelimiterIsPartOfTheAlphabet);
        }
        if has_char(characters.as_slice(), final_marker) {
            return Err(SubstitutionFormulaConfigurationCreationError::FinalMarkerIsPartOfTheAlphabet);
        }
        let pair = vec![delimiter, final_marker];
        let final_delimiter = string_of(pair.as_slice());
        assert(pair@ =~= seq![delimiter, final_marker]);
        Ok(SubstitutionFormulaConfiguration { final_marker, delimiter, final_delimiter, characters })
    }

    /// The delimiter that splits substitution formulas.
    pub fn delimiter(&self) -> (r: char)
        ensures
            r == self.spec_delimiter(),
    {
        self.delimiter
    }

    /// The marker that makes a formula final.
    pub fn final_marker(&self) -> (r: char)
        ensures
            r == self.spec_final_marker(),
    {
        self.final_marker
    }

    /// The delimiter of final formulas: the delimiter, then the final marker.
    pub fn final_delimiter(&self) -> (r: &str)
        ensures
            self.wf() ==> r@ == seq![self.spec_delimiter(), self.spec_final_marker()],
    {
        self.final_delimiter.as_str()
    }

    /// The alphabet used both in definitions and in input strings.
    pub fn alphabet(&self) -> (r: HashSet<char>)
        ensures
            r@ == self.alphabet_set(),
    {
        set_of(self.characters.as_slice())
    }

    /// A copy of the configuration.
    fn copy(&self) -> (r: Self)
        ensures
            r.spec_delimiter() == self.spec_delimiter(),
            r.spec_final_marker() == self.spec_final_marker(),
            r.alphabet_set() == self.alphabet_set(),
            self.wf() ==> r.wf(),
    {
        let pair = vec![self.delimiter, self.final_marker];
        assert(pair@ =~= seq![self.delimiter, self.final_marker]);
        let mut characters: Vec<char> = Vec::new();
        let mut k: usize = 0;
        while k < self.characters.len()
            invariant
                k <= self.characters@.len(),
                characters@ == self.characters@.subrange(0, k as int),
            decreases self.characters@.len() - k,
        {
            characters.push(self.characters[k]);
            k = k + 1;
        }
        assert(characters@ =~= self.characters@);
        SubstitutionFormulaConfiguration {
            final_marker: self.final_marker,
            delimiter: self.delimiter,
            final_delimiter: string_of(pair.as_slice()),
            characters,
        }
    }

    /// Whether the character belongs to the alphabet.
    pub fn contains(&self, character: char) -> (r: bool)
        ensures
            r == self.alphabet_set().contains(character),
    {
        has_char(self.characters.as_slice(), character)
    }
}

impl Default for SubstitutionFormulaConfiguration {
    /// The configuration with `→` as delimiter and `⋅` as final marker,
    /// over the plain text alphabet.
    fn default() -> (r: Self)
        ensures
            r.wf(),
            r.spec_delimiter() == '→',
            r.spec_final_marker() == '⋅',
            r.alphabet_set() == plain_text_chars().to_set(),
    {
        let characters = chars_of("., abcdefghijklmnopqrstuvwxyzABCDEFGHIJKLMNOPQRSTUVWXYZ0123456789|");
        proof {
            reveal_strlit("., abcdefghijklmnopqrstuvwxyzABCDEFGHIJKLMNOPQRSTUVWXYZ0123456789|");
            assert(!characters@.contains('→'));
            assert(!characters@.contains('⋅'));
        }
        let pair = vec!['→', '⋅'];
        assert(pair@ =~= seq!['→', '⋅']);
        SubstitutionFormulaConfiguration {
            final_marker: '⋅',
            delimiter: '→',
            final_delimiter: string_of(pair.as_slice()),
            characters,
        }
    }
}

/// What can stop the creation of a scheme.
pub enum SchemeCreationView {
    EncounteredEmptyLine,
    FormulaCreationFailed(CreationErrorView),
}

/// The formulas that `lines` define under `c`, in order, or the error of
/// the first line that fails: an empty line, or a formula that fails.
pub open spec fn build_lines(lines: Seq<Seq<char>>, c: SubstitutionFormulaConfiguration) -> Result<
    Seq<FormulaModel>,
    SchemeCreationView,
>
    decreases lines.len(),
{
    if lines.len() == 0 {
        Ok(Seq::empty())
    } else {
        match build_lines(lines.drop_last(), c) {
            Err(e) => Err(e),
            Ok(fs) => if lines.last().len() == 0 {
                Err(SchemeCreationView::EncounteredEmptyLine)
            } else {
                match parse_configured(lines.last(), c) {
                    Err(e) => Err(SchemeCreationView::FormulaCreationFailed(e)),
                    Ok(m) => Ok(fs.push(m)),
                }
            },
        }
    }
}

/// Once a prefix of the lines fails, the whole of them fails the same way.
proof fn lemma_error_persists(lines: Seq<Seq<char>>, c: SubstitutionFormulaConfiguration, n: int)
    requires
        0 <= n <= lines.len(),
        build_lines(lines.take(n), c) is Err,
    ensures
        build_lines(lines, c) == build_lines(lines.take(n), c),
    decreases lines.len() - n,
{
    if n < lines.len() {
        assert(lines.take(n + 1).drop_last() =~= lines.take(n));
        lemma_error_persists(lines, c, n + 1);
    } else {
        assert(lines.take(n) =~= lines);
    }
}

/// Characters outside the alphabet of `c`.
pub open spec fn is_outside(c: SubstitutionFormulaConfiguration) -> spec_fn(char) -> bool {
    |x: char| !c.alphabet_set().contains(x)
}

/// An error that occurs during the creation of a scheme.
#[derive(Debug, PartialEq, Eq)]
pub enum AlgorithmSchemeCreationError {
    /// There is an empty line in the scheme definition.
    EncounteredEmptyLine,
    /// One of the lines fails to be parsed as a substitution formula.
    FormulaCreationFailed { source: SubstitutionFormulaCreationError },
}

impl View for AlgorithmSchemeCreationError {
    type V = SchemeCreationView;

    open spec fn view(&self) -> SchemeCreationView {
        match self {
            AlgorithmSchemeCreationError::EncounteredEmptyLine => SchemeCreationView::EncounteredEmptyLine,
            AlgorithmSchemeCreationError::FormulaCreationFailed { source } => SchemeCreationView::FormulaCreationFailed(source@),
        }
    }
}

impl AlgorithmSchemeCreationError {
    /// Describes the error in words.
    pub fn to_string(&self) -> (r: String)
        ensures
            r@ == match self {
                AlgorithmSchemeCreationError::EncounteredEmptyLine => "an empty line was encountered in the scheme definition"@,
                AlgorithmSchemeCreationError::FormulaCreationFailed { source } =>
                    "failed to create a substitution formula: \""@ + source.message() + "\""@,
            },
    {
        match self {
            AlgorithmSchemeCreationError::EncounteredEmptyLine => "an empty line was encountered in the scheme definition".to_owned(),
            AlgorithmSchemeCreationError::FormulaCreationFailed { source } => {
                let mut r = "failed to create a substitution formula: \"".to_owned();
                r.append(source.to_string().as_str());
                r.append("\"");
                r
            },
        }
    }
}

/// An error that occurs during the application of a scheme.
#[derive(Debug, PartialEq, Eq)]
pub enum AlgorithmSchemeApplicationError {
    /// A character that is not part of the alphabet is found in the input.
    UnknownCharacterEncountered(char),
    /// The application stops when the limit of steps is reached.
    HitTheStepsLimit(u32),
    /// Zero is not a valid steps limit.
    ZeroStepsLimit,
}

impl AlgorithmSchemeApplicationError {
    /// Describes the error in words.
    pub fn to_string(&self) -> (r: String)
        ensures
            r@ == match self {
                AlgorithmSchemeApplicationError::UnknownCharacterEncountered(c) => "an unsupported character '"@
                    + seq![*c] + "' that is not part of the alphabet is found in the input"@,
                AlgorithmSchemeApplicationError::HitTheStepsLimit(n) =>
                    "the executor is not completed after reaching step "@ + crate::text::decimal(*n as nat),
                AlgorithmSchemeApplicationError::ZeroStepsLimit => "the algorithm should be allowed to do at least one step"@,
            },
    {
        match self {
            AlgorithmSchemeApplicationError::UnknownCharacterEncountered(c) => {
                let mut r = "an unsupported character '".to_owned();
                r.append(crate::text::char_string(*c).as_str());
                r.append("' that is not part of the alphabet is found in the input");
                r
            },
            AlgorithmSchemeApplicationError::HitTheStepsLimit(n) => {
                let mut r = "the executor is not completed after reaching step ".to_owned();
                let digits = crate::text::decimal_of(*n);
                r.append(string_of(digits.as_slice()).as_str());
                r
            },
            AlgorithmSchemeApplicationError::ZeroStepsLimit => "the algorithm should be allowed to do at least one step".to_owned(),
        }
    }
}

/// The result of applying a scheme to a string.
#[derive(Debug, PartialEq, Eq)]
pub struct ApplicationResult {
    steps_taken: u32,
    string: String,
}

impl View for ApplicationResult {
    type V = (Seq<char>, nat);

    closed spec fn view(&self) -> (Seq<char>, nat) {
        (self.string@, self.steps_taken as nat)
    }
}

impl ApplicationResult {
    /// Creates a result with the given number of steps and output.
    pub fn new(steps_taken: u32, string: String) -> (r: Self)
        ensures
            r@ == (string@, steps_taken as nat),
    {
        ApplicationResult { steps_taken, string }
    }

    /// The final output of the application.
    pub fn string(&self) -> (r: &str)
        ensures
            r@ == self@.0,
    {
        self.string.as_str()
    }

    /// The number of steps it took the algorithm to complete.
    pub fn steps_taken(&self) -> (r: u32)
        ensures
            r as nat == self@.1,
    {
        self.steps_taken
    }

    /// Describes the result in words.
    pub fn to_string(&self) -> (r: String)
        ensures
            r@ == "Application result is \""@ + self@.0 + "\", reached after "@ + crate::text::decimal(
                self@.1,
            ) + " steps."@,
    {
        let mut r = "Application result is \"".to_owned();
        r.append(self.string.as_str());
        r.append("\", reached after ");
        let digits = crate::text::decimal_of(self.steps_taken);
        r.append(string_of(digits.as_slice()).as_str());
        r.append(" steps.");
        r
    }
}

/// Counts the steps of an application against its limit.
struct Limitter {
    limit: u32,
    step: u32,
}

impl Limitter {
    fn new(limit: u32) -> (r: Self)
        ensures
            r.limit == limit,
            r.step == 0,
    {
        Limitter { limit, step: 0 }
    }

    /// Counts one more step, saturating at the largest count; fails once
    /// the count passes the limit or cannot grow.
    fn tick(&mut self) -> (r: Result<(), AlgorithmSchemeApplicationError>)
        ensures
            final(self).limit == old(self).limit,
            old(self).step < u32::MAX ==> final(self).step == old(self).step + 1,
            old(self).step == u32::MAX ==> final(self).step == u32::MAX,
            r is Ok <==> old(self).step < u32::MAX && final(self).step <= final(self).limit,
            r is Err ==> r == Err::<(), _>(AlgorithmSchemeApplicationError::HitTheStepsLimit(old(self).limit)),
    {
        match self.step.checked_add(1) {
            Some(incremented) => self.step = incremented,
            None => return Err(AlgorithmSchemeApplicationError::HitTheStepsLimit(self.limit)),
        }
        if self.step > self.limit {
            return Err(AlgorithmSchemeApplicationError::HitTheStepsLimit(self.limit));
        }
        Ok(())
    }

    fn current_step(&self) -> (r: u32)
        ensures
            r == self.step,
    {
        self.step
    }
}

/// A scheme defined by a configuration and a multi-line text: one formula
/// per line, in order of priority, all held in one buffer.
#[derive(Debug)]
pub struct AlgorithmScheme {
    configuration: SubstitutionFormulaConfiguration,
    store: String,
    chars: Vec<char>,
    formulas: Vec<Formula>,
}

impl AlgorithmScheme {
    #[verifier::type_invariant]
    closed spec fn inv(&self) -> bool {
        &&& self.store@ == self.chars@
        &&& all_within(self.formulas@, self.chars@)
    }

    /// The formulas, in order of priority.
    pub closed spec fn formulas(&self) -> Seq<FormulaModel> {
        models(self.formulas@, self.chars@)
    }

    /// The configuration of the scheme.
    pub closed spec fn spec_configuration(&self) -> SubstitutionFormulaConfiguration {
        self.configuration
    }

    /// What `apply` returns for the string `w` and the limit `limit`: a zero
    /// limit fails first, then the first character outside the alphabet.
    pub open spec fn application(&self, w: Seq<char>, limit: u32) -> Result<
        (Seq<char>, nat),
        AlgorithmSchemeApplicationError,
    > {
        if limit == 0 {
            Err(AlgorithmSchemeApplicationError::ZeroStepsLimit)
        } else {
            match first_with(w, is_outside(self.spec_configuration())) {
                Some(c) => Err(AlgorithmSchemeApplicationError::UnknownCharacterEncountered(c)),
                None => match run(self.formulas(), w, limit as nat) {
                    Some(r) => Ok(r),
                    None => Err(AlgorithmSchemeApplicationError::HitTheStepsLimit(limit)),
                },
            }
        }
    }

    /// Creates a scheme from a configuration and a definition with one
    /// formula on each line; an empty line is an error.
    pub fn new(configuration: &SubstitutionFormulaConfiguration, definition: &str) -> (r: Result<
        Self,
        AlgorithmSchemeCreationError,
    >)
        ensures
            match r {
                Ok(s) => build_lines(lines_of(definition@), *configuration) == Ok::<
                    Seq<FormulaModel>,
                    SchemeCreationView,
                >(s.formulas()) && s.spec_configuration().alphabet_set()
                    == configuration.alphabet_set(),
                Err(e) => build_lines(lines_of(definition@), *configuration) == Err::<
                    Seq<FormulaModel>,
                    SchemeCreationView,
                >(e@),
            },
    {
        let text = chars_of(definition);
        let lines = split_lines(text.as_slice());
        let ghost all = lines_of(definition@);
        let mut store = String::new();
        let mut chars: Vec<char> = Vec::new();
        let mut formulas: Vec<Formula> = Vec::new();
        let mut i: usize = 0;
        assert(all.take(0) =~= Seq::<Seq<char>>::empty());
        assert(models(formulas@, chars@) =~= Seq::<FormulaModel>::empty());
        while i < lines.len()
            invariant
                all == lines_of(definition@),
                crate::text::views_of(lines@) == all,
                i <= lines@.len(),
                store@ == chars@,
                all_within(formulas@, chars@),
                build_lines(all.take(i as int), *configuration) == Ok::<
                    Seq<FormulaModel>,
                    SchemeCreationView,
                >(models(formulas@, chars@)),
            decreases lines@.len() - i,
        {
            let line = &lines[i];
            assert(all[i as int] == line@);
            assert(all.take(i + 1).drop_last() =~= all.take(i as int));
            assert(all.take(i + 1).last() == line@);
            if line.len() == 0 {
                proof {
                    lemma_error_persists(all, *configuration, i + 1);
                }
                return Err(AlgorithmSchemeCreationError::EncounteredEmptyLine);
            }
            let foreign = foreign_in(line.as_slice(), configuration);
            if foreign.len() > 0 {
                proof {
                    lemma_error_persists(all, *configuration, i + 1);
                }
                return Err(
                    AlgorithmSchemeCreationError::FormulaCreationFailed {
                        source: SubstitutionFormulaCreationError::UnknownCharacterEncountered(
                            string_of(line.as_slice()),
                            string_of(foreign.as_slice()),
                        ),
                    },
                );
            }
            let ghost old_chars = chars@;
            let ghost old_formulas = formulas@;
            let ghost old_models = models(formulas@, chars@);
            let start = chars.len();
            let line_text = string_of(line.as_slice());
            store.append(line_text.as_str());
            let mut k: usize = 0;
            while k < line.len()
                invariant
                    k <= line@.len(),
                    chars@ == old_chars + line@.subrange(0, k as int),
                decreases line@.len() - k,
            {
                chars.push(line[k]);
                k = k + 1;
            }
            let end = chars.len();
            assert(chars@.subrange(start as int, end as int) =~= line@);
            assert(chars@.subrange(0, start as int) =~= old_chars);
            match Formula::new(chars.as_slice(), start, end, configuration.delimiter(), configuration.final_marker()) {
                Ok(f) => {
                    formulas.push(f);
                    proof {
                        assert forall|j: int| 0 <= j < formulas@.len() implies formulas@[j].within(chars@.len())
                            && #[trigger] formulas@[j].model(chars@) == old_models.push(f.model(chars@))[j] by {
                            if j < old_formulas.len() {
                                assert(formulas@[j] == old_formulas[j]);
                                assert(old_formulas[j].within(old_chars.len()));
                                old_formulas[j].lemma_model_prefix(old_chars, chars@);
                            } else {
                                assert(formulas@[j] == f);
                            }
                        }
                        assert(models(formulas@, chars@) =~= old_models.push(f.model(chars@)));
                        assert forall|j: int| 0 <= j < formulas@.len() implies #[trigger] formulas@[j].within(chars@.len()) by {
                            assert(formulas@[j].model(chars@) == old_models.push(f.model(chars@))[j]);
                        }
                    }
                },
                Err(e) => {
                    proof {
                        lemma_error_persists(all, *configuration, i + 1);
                    }
                    return Err(AlgorithmSchemeCreationError::FormulaCreationFailed { source: from_definition_error(e) });
                },
            }
            i = i + 1;
        }
        assert(all.take(lines@.len() as int) =~= all);
        Ok(AlgorithmScheme { configuration: configuration.copy(), store, chars, formulas })
    }

    /// Applies the scheme to a string, doing at most `limit` steps.
    pub fn apply(&self, string: &str, limit: u32) -> (r: Result<ApplicationResult, AlgorithmSchemeApplicationError>)
        ensures
            match r {
                Ok(x) => self.application(string@, limit) == Ok::<
                    (Seq<char>, nat),
                    AlgorithmSchemeApplicationError,
                >(x@),
                Err(e) => self.application(string@, limit) == Err::<(Seq<char>, nat), _>(e),
            },
    {
        proof {
            use_type_invariant(self);
        }
        if limit == 0 {
            return Err(AlgorithmSchemeApplicationError::ZeroStepsLimit);
        }
        let word = chars_of(string);
        if let Err(e) = self.assert_alphabet_usage(word.as_slice()) {
            return Err(e);
        }
        let ghost fs = self.formulas();
        let mut limitter = Limitter::new(limit);
        let mut current = word;
        loop
            invariant
                fs == self.formulas(),
                all_within(self.formulas@, self.chars@),
                first_with(string@, is_outside(self.spec_configuration())) is None,
                limit > 0,
                limitter.limit == limit,
                limitter.step <= limit,
                run(fs, string@, limit as nat) == shifted(
                    run(fs, current@, (limit - limitter.step) as nat),
                    limitter.step as nat,
                ),
            decreases limit - limitter.step,
        {
            let ghost before = limitter.step;
            if let Err(e) = limitter.tick() {
                return Err(e);
            }
            let (next, is_final, _) = step_with(&self.formulas, &self.chars, &current);
            if is_final {
                assert(run(fs, current@, (limit - before) as nat) == Some((next@, 1nat)));
                return Ok(ApplicationResult::new(limitter.current_step(), string_of(next.as_slice())));
            }
            current = next;
        }
    }

    /// Checks that every character of the string belongs to the alphabet.
    fn assert_alphabet_usage(&self, word: &[char]) -> (r: Result<(), AlgorithmSchemeApplicationError>)
        ensures
            match first_with(word@, is_outside(self.spec_configuration())) {
                Some(c) => r == Err::<(), _>(AlgorithmSchemeApplicationError::UnknownCharacterEncountered(c)),
                None => r is Ok,
            },
    {
        let ghost p = is_outside(self.configuration);
        let mut k: usize = 0;
        assert(word@.subrange(0, word@.len() as int) =~= word@);
        while k < word.len()
            invariant
                p == is_outside(self.configuration),
                k <= word@.len(),
                first_with(word@, p) == first_with(word@.subrange(k as int, word@.len() as int), p),
            decreases word@.len() - k,
        {
            let c = word[k];
            let ghost rest = word@.subrange(k as int, word@.len() as int);
            assert(rest.drop_first() =~= word@.subrange(k + 1, word@.len() as int));
            assert(rest[0] == c);
            if !self.configuration.contains(c) {
                return Err(AlgorithmSchemeApplicationError::UnknownCharacterEncountered(c));
            }
            k = k + 1;
        }
        Ok(())
    }
}

} // verus!
