//! Algorithm schemes and their execution: a single step, a bounded run, and
//! step-by-step iteration.
use vstd::prelude::*;
use vstd::string::{StrSliceExecFns, StringExecFns};

use crate::alphabet::Alphabet;
use crate::text::{chars_of, decimal, decimal_of, filter_chars, replace_first, string_of};

pub mod formulas;
pub mod scheme_builder;

use self::formulas::{FormulaModel, SubstitutionFormula, SubstitutionFormulaApplicationResult};

verus! {

/// The result of one step, as a reader sees it: the new word, whether the
/// algorithm halts, and the index of the formula applied, if any.
pub struct StepModel {
    pub word: Seq<char>,
    pub is_final: bool,
    pub applied: Option<int>,
}

/// One step that tries the formulas from index `k` on: the first whose left
/// side occurs in `w` rewrites its leftmost occurrence; where none occurs,
/// the word stays and the algorithm halts.
pub open spec fn step_from(fs: Seq<FormulaModel>, w: Seq<char>, k: int) -> StepModel
    decreases fs.len() - k,
{
    if k < 0 || k >= fs.len() {
        StepModel { word: w, is_final: true, applied: None }
    } else {
        match replace_first(w, fs[k].left, fs[k].right) {
            Some(v) => StepModel { word: v, is_final: fs[k].is_final, applied: Some(k) },
            None => step_from(fs, w, k + 1),
        }
    }
}

/// One step of the scheme whose formulas are `fs`, in order of priority.
pub open spec fn step(fs: Seq<FormulaModel>, w: Seq<char>) -> StepModel {
    step_from(fs, w, 0)
}

/// The word after `n` steps, each taken from the word the one before left,
/// whether or not a step halts.
pub open spec fn iterate(fs: Seq<FormulaModel>, w: Seq<char>, n: nat) -> Seq<char>
    decreases n,
{
    if n == 0 {
        w
    } else {
        iterate(fs, step(fs, w).word, (n - 1) as nat)
    }
}

/// Steps from `w` until one halts, at most `limit` of them: the final word
/// and the number of steps taken, or `None` when the limit comes first.
pub open spec fn run(fs: Seq<FormulaModel>, w: Seq<char>, limit: nat) -> Option<(Seq<char>, nat)>
    decreases limit,
{
    if limit == 0 {
        None
    } else if step(fs, w).is_final {
        Some((step(fs, w).word, 1))
    } else {
        match run(fs, step(fs, w).word, (limit - 1) as nat) {
            Some((v, n)) => Some((v, n + 1)),
            None => None,
        }
    }
}

/// Characters that belong neither to the alphabet nor to its extension.
pub open spec fn is_unknown(a: Alphabet) -> spec_fn(char) -> bool {
    |c: char| !a.extended_set().contains(c)
}

/// Characters of the extension, which an input word may not hold.
pub open spec fn is_extension_only(a: Alphabet) -> spec_fn(char) -> bool {
    |c: char| a.extended_set().contains(c) && !a.main_set().contains(c)
}

/// What is wrong with the input word `w` over the alphabet `a`, if anything:
/// unknown characters first, then extension characters, each reported in
/// full.
pub open spec fn input_fault(a: Alphabet, w: Seq<char>) -> Option<InputErrorView> {
    if filter_chars(w, is_unknown(a)).len() > 0 {
        Some(InputErrorView::UnknownCharactersEncountered(filter_chars(w, is_unknown(a))))
    } else if filter_chars(w, is_extension_only(a)).len() > 0 {
        Some(InputErrorView::ExtensionCharactersEncountered(filter_chars(w, is_extension_only(a))))
    } else {
        None
    }
}

/// An error that occurs during the validation of an input string.
#[derive(Debug, PartialEq, Eq)]
pub enum AlgorithmSchemeInputValidationError {
    /// Characters that are not part of the alphabet are found in the input.
    UnknownCharactersEncountered(String),
    /// Extension characters are found in the input.
    ExtensionCharactersEncountered(String),
}

/// An input error as a reader sees it: the offending characters.
pub enum InputErrorView {
    UnknownCharactersEncountered(Seq<char>),
    ExtensionCharactersEncountered(Seq<char>),
}

impl View for AlgorithmSchemeInputValidationError {
    type V = InputErrorView;

    open spec fn view(&self) -> InputErrorView {
        match self {
            AlgorithmSchemeInputValidationError::UnknownCharactersEncountered(s) => InputErrorView::UnknownCharactersEncountered(s@),
            AlgorithmSchemeInputValidationError::ExtensionCharactersEncountered(s) => InputErrorView::ExtensionCharactersEncountered(s@),
        }
    }
}

/// An error that occurs during the full application of a scheme.
#[derive(Debug, PartialEq, Eq)]
pub enum AlgorithmSchemeFullApplicationError {
    /// The application stops when the limit of steps is reached.
    HitTheStepsLimit(u32),
    /// Zero is not a valid steps limit.
    ZeroStepsLimit,
    /// The input word is not valid.
    InputValidationError { source: AlgorithmSchemeInputValidationError },
}

/// A failed full application as a reader sees it.
pub enum FullApplicationErrorView {
    HitTheStepsLimit(u32),
    ZeroStepsLimit,
    InputValidationError(InputErrorView),
}

impl View for AlgorithmSchemeFullApplicationError {
    type V = FullApplicationErrorView;

    open spec fn view(&self) -> FullApplicationErrorView {
        match self {
            AlgorithmSchemeFullApplicationError::HitTheStepsLimit(n) => FullApplicationErrorView::HitTheStepsLimit(*n),
            AlgorithmSchemeFullApplicationError::ZeroStepsLimit => FullApplicationErrorView::ZeroStepsLimit,
            AlgorithmSchemeFullApplicationError::InputValidationError { source } => FullApplicationErrorView::InputValidationError(source@),
        }
    }
}

impl AlgorithmSchemeInputValidationError {
    /// The text of the message for this error.
    pub open spec fn message(&self) -> Seq<char> {
        match self {
            AlgorithmSchemeInputValidationError::UnknownCharactersEncountered(s) =>
                "unsupported characters are found in the input word (unsupported characters: \""@ + s@ + "\")"@,
            AlgorithmSchemeInputValidationError::ExtensionCharactersEncountered(s) =>
                "extension characters are found in the input word (extension characters: \""@ + s@ + "\")"@,
        }
    }

    /// Describes the error in words.
    pub fn to_string(&self) -> (r: String)
        ensures
            r@ == self.message(),
    {
        let (mut r, s) = match self {
            AlgorithmSchemeInputValidationError::UnknownCharactersEncountered(s) =>
                ("unsupported characters are found in the input word (unsupported characters: \"".to_owned(), s),
            AlgorithmSchemeInputValidationError::ExtensionCharactersEncountered(s) =>
                ("extension characters are found in the input word (extension characters: \"".to_owned(), s),
        };
        r.append(s.as_str());
        r.append("\")");
        r
    }
}

impl AlgorithmSchemeFullApplicationError {
    /// The text of the message for this error.
    pub open spec fn message(&self) -> Seq<char> {
        match self {
            AlgorithmSchemeFullApplicationError::HitTheStepsLimit(n) =>
                "the application is not completed after reaching step "@ + decimal(*n as nat),
            AlgorithmSchemeFullApplicationError::ZeroStepsLimit => "the algorithm should be allowed to do at least one step"@,
            AlgorithmSchemeFullApplicationError::InputValidationError { source } =>
                "the input string is not valid: "@ + source.message(),
        }
    }

    /// Describes the error in words.
    pub fn to_string(&self) -> (r: String)
        ensures
            r@ == self.message(),
    {
        match self {
            AlgorithmSchemeFullApplicationError::HitTheStepsLimit(n) => {
                let mut r = "the application is not completed after reaching step ".to_owned();
                let digits = decimal_of(*n);
                r.append(string_of(digits.as_slice()).as_str());
                r
            },
            AlgorithmSchemeFullApplicationError::ZeroStepsLimit => "the algorithm should be allowed to do at least one step".to_owned(),
            AlgorithmSchemeFullApplicationError::InputValidationError { source } => {
                let mut r = "the input string is not valid: ".to_owned();
                r.append(source.to_string().as_str());
                r
            },
        }
    }
}

/// The result of a full application: the output word and the steps taken.
#[derive(Debug, PartialEq, Eq)]
pub struct FullApplicationResult {
    pub word: String,
    pub steps_done: u32,
}

impl View for FullApplicationResult {
    type V = (Seq<char>, nat);

    open spec fn view(&self) -> (Seq<char>, nat) {
        (self.word@, self.steps_done as nat)
    }
}

impl FullApplicationResult {
    /// The output word.
    pub fn word(&self) -> (r: &str)
        ensures
            r@ == self@.0,
    {
        self.word.as_str()
    }

    /// The number of steps it took the algorithm to finish.
    pub fn steps_done(&self) -> (r: u32)
        ensures
            r as nat == self@.1,
    {
        self.steps_done
    }
}

/// The data of a single step: the output word, and the definition of the
/// formula applied, if any was.
#[derive(Debug, PartialEq, Eq)]
pub struct SingleApplicationData<'a> {
    pub word: String,
    pub applied_formula_definition: Option<&'a str>,
}

/// A single step as a reader sees it.
pub struct SingleView {
    pub is_final: bool,
    pub word: Seq<char>,
    pub definition: Option<Seq<char>>,
}

impl<'a> SingleApplicationData<'a> {
    /// The output word.
    pub open spec fn spec_word(&self) -> Seq<char> {
        self.word@
    }

    /// The definition of the formula applied, if any.
    pub open spec fn spec_definition(&self) -> Option<Seq<char>> {
        match self.applied_formula_definition {
            Some(d) => Some(d@),
            None => None,
        }
    }

    /// The output word of the step.
    pub fn word(&self) -> (r: &str)
        ensures
            r@ == self.spec_word(),
    {
        self.word.as_str()
    }

    /// The definition of the formula applied, if any.
    pub fn applied_formula_definition(&self) -> (r: Option<&'a str>)
        ensures
            match r {
                Some(d) => self.spec_definition() == Some(d@),
                None => self.spec_definition() is None,
            },
    {
        self.applied_formula_definition
    }
}

/// The result of a single step.
#[derive(Debug, PartialEq, Eq)]
pub enum SingleApplicationResult<'a> {
    /// The final result: the algorithm is finished.
    Final(SingleApplicationData<'a>),
    /// An intermediate result: the word can be processed again.
    Intermediate(SingleApplicationData<'a>),
}

impl<'a> View for SingleApplicationResult<'a> {
    type V = SingleView;

    open spec fn view(&self) -> SingleView {
        match self {
            SingleApplicationResult::Final(d) => SingleView {
                is_final: true,
                word: d.spec_word(),
                definition: d.spec_definition(),
            },
            SingleApplicationResult::Intermediate(d) => SingleView {
                is_final: false,
                word: d.spec_word(),
                definition: d.spec_definition(),
            },
        }
    }
}

/// A step as `SingleView`: the definition is that of the formula applied.
pub open spec fn single_view(fs: Seq<FormulaModel>, s: StepModel) -> SingleView {
    SingleView {
        is_final: s.is_final,
        word: s.word,
        definition: match s.applied {
            Some(k) => Some(fs[k].definition),
            None => None,
        },
    }
}

/// An algorithm scheme: the delimiter, the final marker and the alphabet;
/// one buffer holding every formula definition; and the formulas, in order
/// of priority, as ranges into that buffer.
#[derive(Debug)]
pub struct AlgorithmScheme {
    delimiter: char,
    final_marker: char,
    alphabet: Alphabet,
    store: String,
    chars: Vec<char>,
    substitution_formulas: Vec<SubstitutionFormula>,
}

impl AlgorithmScheme {
    #[verifier::type_invariant]
    closed spec fn inv(&self) -> bool {
        &&& self.store@ == self.chars@
        &&& all_within(self.substitution_formulas@, self.chars@)
    }

    /// The formulas, in order of priority.
    pub closed spec fn formulas(&self) -> Seq<FormulaModel> {
        models(self.substitution_formulas@, self.chars@)
    }

    /// The alphabet of the scheme.
    pub closed spec fn spec_alphabet(&self) -> Alphabet {
        self.alphabet
    }

    /// The delimiter of the scheme's formulas.
    pub closed spec fn spec_delimiter(&self) -> char {
        self.delimiter
    }

    /// The final marker of the scheme's formulas.
    pub closed spec fn spec_final_marker(&self) -> char {
        self.final_marker
    }

    /// What `apply_once` returns for the word `w`.
    pub open spec fn single_application(&self, w: Seq<char>) -> Result<SingleView, InputErrorView> {
        match input_fault(self.spec_alphabet(), w) {
            Some(e) => Err(e),
            None => Ok(single_view(self.formulas(), step(self.formulas(), w))),
        }
    }

    /// What `apply` returns for the word `w` and the limit `limit`.
    pub open spec fn full_application(&self, w: Seq<char>, limit: u32) -> Result<
        (Seq<char>, nat),
        FullApplicationErrorView,
    > {
        if limit == 0 {
            Err(FullApplicationErrorView::ZeroStepsLimit)
        } else {
            match input_fault(self.spec_alphabet(), w) {
                Some(e) => Err(FullApplicationErrorView::InputValidationError(e)),
                None => match run(self.formulas(), w, limit as nat) {
                    Some(r) => Ok(r),
                    None => Err(FullApplicationErrorView::HitTheStepsLimit(limit)),
                },
            }
        }
    }

    /// Applies the scheme once to the input word.
    pub fn apply_once(&self, word: &str) -> (r: Result<
        SingleApplicationResult<'_>,
        AlgorithmSchemeInputValidationError,
    >)
        ensures
            match r {
                Ok(x) => self.single_application(word@) == Ok::<SingleView, InputErrorView>(x@),
                Err(e) => self.single_application(word@) == Err::<SingleView, InputErrorView>(e@),
            },
    {
        let w = chars_of(word);
        match self.assert_valid_word(&w) {
            Err(e) => Err(e),
            Ok(()) => Ok(self.apply_once_unsafe(&w)),
        }
    }

    /// Applies the scheme to the input word until the algorithm completes,
    /// doing at most `steps_limit` steps.
    pub fn apply(&self, word: &str, steps_limit: u32) -> (r: Result<
        FullApplicationResult,
        AlgorithmSchemeFullApplicationError,
    >)
        ensures
            match r {
                Ok(x) => self.full_application(word@, steps_limit) == Ok::<
                    (Seq<char>, nat),
                    FullApplicationErrorView,
                >(x@),
                Err(e) => self.full_application(word@, steps_limit) == Err::<
                    (Seq<char>, nat),
                    FullApplicationErrorView,
                >(e@),
            },
    {
        if steps_limit == 0 {
            return Err(AlgorithmSchemeFullApplicationError::ZeroStepsLimit);
        }
        let w = chars_of(word);
        if let Err(e) = self.assert_valid_word(&w) {
            return Err(AlgorithmSchemeFullApplicationError::InputValidationError { source: e });
        }
        let ghost fs = self.formulas();
        let mut current = w;
        let mut steps_done: u32 = 0;
        while steps_done < steps_limit
            invariant
                fs == self.formulas(),
                steps_limit > 0,
                input_fault(self.spec_alphabet(), word@) is None,
                steps_done <= steps_limit,
                run(fs, word@, steps_limit as nat) == shifted(
                    run(fs, current@, (steps_limit - steps_done) as nat),
                    steps_done as nat,
                ),
            decreases steps_limit - steps_done,
        {
            let (next, is_final, _) = self.step_word(&current);
            let ghost before = steps_done;
            steps_done = steps_done + 1;
            if is_final {
                assert(run(fs, current@, (steps_limit - before) as nat) == Some((next@, 1nat)));
                return Ok(FullApplicationResult { word: string_of(next.as_slice()), steps_done });
            }
            current = next;
        }
        Err(AlgorithmSchemeFullApplicationError::HitTheStepsLimit(steps_done))
    }

    /// An iterator that does one step of the scheme each time it advances.
    pub fn get_application_iterator(&self, word: &str) -> (r: Result<
        ApplicationIterator<'_>,
        AlgorithmSchemeInputValidationError,
    >)
        ensures
            match r {
                Ok(it) => input_fault(self.spec_alphabet(), word@) is None && it.spec_scheme()
                    == self && it.spec_word() == word@ && !it.spec_is_completed(),
                Err(e) => input_fault(self.spec_alphabet(), word@) == Some(e@),
            },
    {
        let w = chars_of(word);
        match self.assert_valid_word(&w) {
            Err(e) => Err(e),
            Ok(()) => Ok(ApplicationIterator { word: w, scheme: self, is_completed: false }),
        }
    }

    /// One step on a word, with no check of its characters: the new word,
    /// whether the step halts, and the formula applied.
    fn step_word(&self, word: &Vec<char>) -> (r: (Vec<char>, bool, Option<usize>))
        ensures
            step(self.formulas(), word@) == (StepModel {
                word: r.0@,
                is_final: r.1,
                applied: match r.2 {
                    Some(k) => Some(k as int),
                    None => None,
                },
            }),
            r.2 matches Some(k) ==> k < self.formulas().len(),
    {
        proof {
            use_type_invariant(self);
        }
        step_with(&self.substitution_formulas, &self.chars, word)
    }

    /// One step on a word, with no check of its characters.
    fn apply_once_unsafe(&self, word: &Vec<char>) -> (r: SingleApplicationResult<'_>)
        ensures
            r@ == single_view(self.formulas(), step(self.formulas(), word@)),
    {
        let (next, is_final, applied) = self.step_word(word);
        let data = self.application_data(&next, applied);
        if is_final {
            SingleApplicationResult::Final(data)
        } else {
            SingleApplicationResult::Intermediate(data)
        }
    }

    /// The data of a step that produced `word` by the formula `applied`.
    fn application_data(&self, word: &Vec<char>, applied: Option<usize>) -> (r: SingleApplicationData<'_>)
        requires
            applied matches Some(k) ==> k < self.formulas().len(),
        ensures
            r.spec_word() == word@,
            r.spec_definition() == match applied {
                Some(k) => Some(self.formulas()[k as int].definition),
                None => None,
            },
    {
        proof {
            use_type_invariant(self);
        }
        let definition = match applied {
            Some(k) => {
                let (from, to) = self.substitution_formulas[k].definition_bounds();
                proof {
                    self.substitution_formulas@[k as int].lemma_definition(self.chars@);
                }
                Some(self.store.as_str().substring_char(from, to))
            },
            None => None,
        };
        SingleApplicationData { word: string_of(word.as_slice()), applied_formula_definition: definition }
    }

    /// Checks that the word holds only characters of the main alphabet.
    fn assert_valid_word(&self, word: &Vec<char>) -> (r: Result<(), AlgorithmSchemeInputValidationError>)
        ensures
            match r {
                Ok(()) => input_fault(self.spec_alphabet(), word@) is None,
                Err(e) => input_fault(self.spec_alphabet(), word@) == Some(e@),
            },
    {
        let ghost a = self.alphabet;
        let mut unknown: Vec<char> = Vec::new();
        let mut extension: Vec<char> = Vec::new();
        let mut k: usize = 0;
        while k < word.len()
            invariant
                a == self.alphabet,
                k <= word@.len(),
                unknown@ == filter_chars(word@.subrange(0, k as int), is_unknown(a)),
                extension@ == filter_chars(word@.subrange(0, k as int), is_extension_only(a)),
            decreases word@.len() - k,
        {
            let c = word[k];
            assert(word@.subrange(0, k + 1).drop_last() =~= word@.subrange(0, k as int));
            if !self.alphabet.contains_extended(c) {
                unknown.push(c);
            } else if !self.alphabet.contains(c) {
                extension.push(c);
            }
            k = k + 1;
        }
        assert(word@.subrange(0, word@.len() as int) =~= word@);
        if unknown.len() > 0 {
            Err(AlgorithmSchemeInputValidationError::UnknownCharactersEncountered(string_of(unknown.as_slice())))
        } else if extension.len() > 0 {
            Err(AlgorithmSchemeInputValidationError::ExtensionCharactersEncountered(string_of(extension.as_slice())))
        } else {
            Ok(())
        }
    }
}

/// The formulas whose ranges are `formulas`, read from the buffer `chars`.
pub open spec fn models(formulas: Seq<SubstitutionFormula>, chars: Seq<char>) -> Seq<FormulaModel> {
    Seq::new(formulas.len(), |i: int| formulas[i].model(chars))
}

/// Every formula lies within the buffer `chars`.
pub open spec fn all_within(formulas: Seq<SubstitutionFormula>, chars: Seq<char>) -> bool {
    forall|i: int| 0 <= i < formulas.len() ==> #[trigger] formulas[i].within(chars.len())
}

/// One step of the formulas on a word: the new word, whether the step
/// halts, and the formula applied.
pub(crate) fn step_with(formulas: &Vec<SubstitutionFormula>, chars: &Vec<char>, word: &Vec<char>) -> (r: (
    Vec<char>,
    bool,
    Option<usize>,
))
    requires
        all_within(formulas@, chars@),
    ensures
        step(models(formulas@, chars@), word@) == (StepModel {
            word: r.0@,
            is_final: r.1,
            applied: match r.2 {
                Some(k) => Some(k as int),
                None => None,
            },
        }),
        r.2 matches Some(k) ==> k < formulas@.len(),
{
    let ghost fs = models(formulas@, chars@);
    let mut k: usize = 0;
    while k < formulas.len()
        invariant
            fs == models(formulas@, chars@),
            k <= formulas@.len(),
            step_from(fs, word@, 0) == step_from(fs, word@, k as int),
            all_within(formulas@, chars@),
        decreases formulas@.len() - k,
    {
        let formula = &formulas[k];
        assert(fs[k as int] == formula.model(chars@));
        assert(formula.within(chars@.len()));
        match formula.apply(chars.as_slice(), word.as_slice()) {
            Some(SubstitutionFormulaApplicationResult::Final(v)) => {
                return (v, true, Some(k));
            },
            Some(SubstitutionFormulaApplicationResult::Intermediate(v)) => {
                return (v, false, Some(k));
            },
            None => {},
        }
        k = k + 1;
    }
    (copy_word(word), true, None)
}

/// A count of steps added to the result of a run.
pub open spec fn shifted(r: Option<(Seq<char>, nat)>, n: nat) -> Option<(Seq<char>, nat)> {
    match r {
        Some((v, k)) => Some((v, k + n)),
        None => None,
    }
}

/// A copy of a word.
fn copy_word(word: &Vec<char>) -> (r: Vec<char>)
    ensures
        r@ == word@,
{
    let mut v: Vec<char> = Vec::new();
    let mut k: usize = 0;
    while k < word.len()
        invariant
            k <= word@.len(),
            v@ == word@.subrange(0, k as int),
        decreases word@.len() - k,
    {
        v.push(word[k]);
        k = k + 1;
    }
    v
}

/// An iterator over the steps of a scheme on one word: each advance does
/// one step, and after a final step nothing more comes.
#[derive(Debug)]
pub struct ApplicationIterator<'a> {
    word: Vec<char>,
    scheme: &'a AlgorithmScheme,
    is_completed: bool,
}

impl<'a> ApplicationIterator<'a> {
    /// The word the next step starts from.
    pub closed spec fn spec_word(&self) -> Seq<char> {
        self.word@
    }

    /// The scheme the iterator runs.
    pub closed spec fn spec_scheme(&self) -> &'a AlgorithmScheme {
        self.scheme
    }

    /// Whether a final step was done.
    pub closed spec fn spec_is_completed(&self) -> bool {
        self.is_completed
    }

    /// The step that the next advance does.
    pub open spec fn next_step(&self) -> StepModel {
        step(self.spec_scheme().formulas(), self.spec_word())
    }

    /// Does the next step, or returns `None` once a final step was done.
    pub fn next(&mut self) -> (r: Option<SingleApplicationData<'a>>)
        ensures
            final(self).spec_scheme() == old(self).spec_scheme(),
            old(self).spec_is_completed() ==> r is None && *final(self) == *old(self),
            !old(self).spec_is_completed() ==> ({
                let fs = old(self).spec_scheme().formulas();
                let s = old(self).next_step();
                &&& r matches Some(d)
                &&& d.spec_word() == s.word
                &&& d.spec_definition() == single_view(fs, s).definition
                &&& final(self).spec_word() == s.word
                &&& final(self).spec_is_completed() == s.is_final
            }),
    {
        if self.is_completed {
            None
        } else {
            let (next, is_final, applied) = self.scheme.step_word(&self.word);
            let data = self.scheme.application_data(&next, applied);
            self.word = next;
            self.is_completed = is_final;
            Some(data)
        }
    }
}

/// A fresh iterator on a valid word yields first what `apply_once` returns
/// for that word: the same word and the same formula, and it stops exactly
/// when that step is final.
pub proof fn lemma_iterator_begins_with_apply_once(it: ApplicationIterator, w: Seq<char>)
    requires
        it.spec_word() == w,
        !it.spec_is_completed(),
        input_fault(it.spec_scheme().spec_alphabet(), w) is None,
    ensures
        it.spec_scheme().single_application(w) == Ok::<SingleView, InputErrorView>(
            single_view(it.spec_scheme().formulas(), it.next_step()),
        ),
{
}

/// A run that halts after `n` steps: the steps before the last one do not
/// halt, and the last one halts with the run's output.
pub proof fn lemma_run_replays_steps(fs: Seq<FormulaModel>, w: Seq<char>, limit: nat)
    requires
        run(fs, w, limit) is Some,
    ensures
        ({
            let (v, n) = run(fs, w, limit)->0;
            &&& 1 <= n <= limit
            &&& step(fs, iterate(fs, w, (n - 1) as nat)).is_final
            &&& step(fs, iterate(fs, w, (n - 1) as nat)).word == v
            &&& forall|j: nat| j < n - 1 ==> !(#[trigger] step(fs, iterate(fs, w, j))).is_final
        }),
    decreases limit,
{
    if !step(fs, w).is_final {
        let next = step(fs, w).word;
        lemma_run_replays_steps(fs, next, (limit - 1) as nat);
        let (v, n) = run(fs, w, limit)->0;
        assert(iterate(fs, w, (n - 1) as nat) == iterate(fs, next, (n - 2) as nat));
        assert forall|j: nat| j < n - 1 implies !(#[trigger] step(fs, iterate(fs, w, j))).is_final by {
            if j > 0 {
                assert(iterate(fs, w, j) == iterate(fs, next, (j - 1) as nat));
            }
        }
    }
}

/// When `apply` succeeds with `steps_done` steps, replaying single steps
/// from the input word reaches the same word: the step numbered
/// `steps_done` is final and none before it is. Where every word met on the
/// way is a valid input, each of those steps is what `apply_once` returns.
pub proof fn lemma_apply_replays_apply_once(scheme: &AlgorithmScheme, w: Seq<char>, limit: u32)
    requires
        scheme.full_application(w, limit) is Ok,
    ensures
        ({
            let fs = scheme.formulas();
            let (v, n) = scheme.full_application(w, limit)->Ok_0;
            &&& 1 <= n <= limit
            &&& step(fs, iterate(fs, w, (n - 1) as nat)).is_final
            &&& step(fs, iterate(fs, w, (n - 1) as nat)).word == v
            &&& forall|j: nat| j < n - 1 ==> !(#[trigger] step(fs, iterate(fs, w, j))).is_final
            &&& (forall|j: nat| j < n ==> input_fault(scheme.spec_alphabet(), #[trigger] iterate(fs, w, j)) is None)
                ==> {
                &&& scheme.single_application(iterate(fs, w, (n - 1) as nat)) matches Ok(x)
                &&& x.is_final && x.word == v
                &&& forall|j: nat| j < n - 1 ==> ((#[trigger] scheme.single_application(iterate(fs, w, j))) matches Ok(y) && !y.is_final)
            }
        }),
{
    let fs = scheme.formulas();
    lemma_run_replays_steps(fs, w, limit as nat);
    let (v, n) = scheme.full_application(w, limit)->Ok_0;
    if forall|j: nat| j < n ==> input_fault(scheme.spec_alphabet(), #[trigger] iterate(fs, w, j)) is None {
        assert(input_fault(scheme.spec_alphabet(), iterate(fs, w, (n - 1) as nat)) is None);
        assert forall|j: nat| j < n - 1 implies ((#[trigger] scheme.single_application(iterate(fs, w, j))) matches Ok(y) && !y.is_final) by {
            assert(input_fault(scheme.spec_alphabet(), iterate(fs, w, j)) is None);
            assert(!step(fs, iterate(fs, w, j)).is_final);
        }
    }
}

/// A scheme without formulas halts on every valid word after one step, and
/// the word stays as it was.
pub proof fn lemma_no_formulas_halts_at_once(scheme: &AlgorithmScheme, w: Seq<char>, limit: u32)
    requires
        scheme.formulas().len() == 0,
        limit > 0,
        input_fault(scheme.spec_alphabet(), w) is None,
    ensures
        scheme.full_application(w, limit) == Ok::<(Seq<char>, nat), FullApplicationErrorView>((w, 1)),
{
    assert(step(scheme.formulas(), w) == StepModel { word: w, is_final: true, applied: None });
}

} // verus!
