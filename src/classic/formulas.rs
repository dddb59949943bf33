//! Substitution formulas of the configuration-based interface: each one
//! names its definition by a byte range of a text buffer.
use std::ops::Range;

use vstd::prelude::*;
use vstd::string::{StringExecFns, StringSliceAdditionalSpecFns};
use vstd::utf8::{
    decode_utf8, encode_utf8_decode_utf8, encode_utf8_valid_utf8, is_char_boundary,
    is_char_boundary_iff_not_is_continuation_byte, is_char_boundary_start_end_of_seq,
};

use crate::classic::SubstitutionFormulaConfiguration;
use crate::scheme::formulas::{
    parse_formula, FormulaErrorView, FormulaModel, SubstitutionFormulaDefinitionError,
};
use crate::text::{chars_of, filter_chars, replace_first, replace_first_in, string_of};

verus! {

/// The byte range from `start` to `end` lies within `s` and on character
/// boundaries.
pub open spec fn valid_byte_range(s: &str, start: int, end: int) -> bool {
    &&& 0 <= start <= end <= s.spec_bytes().len()
    &&& is_char_boundary(s.spec_bytes(), start)
    &&& is_char_boundary(s.spec_bytes(), end)
}

/// The characters that the bytes from `start` to `end` of `s` encode.
pub open spec fn byte_text(s: &str, start: int, end: int) -> Seq<char> {
    decode_utf8(s.spec_bytes().subrange(start, end))
}

/// The slice between two byte offsets of `s`, when both lie within the
/// string on character boundaries.
fn slice_bytes(s: &str, start: usize, end: usize) -> (r: Option<&str>)
    ensures
        r is Some <==> valid_byte_range(s, start as int, end as int),
        r matches Some(t) ==> t.spec_bytes() == s.spec_bytes().subrange(start as int, end as int),
{
    proof {
        encode_utf8_valid_utf8(s@);
    }
    if start > end || !s.is_char_boundary(start) || !s.is_char_boundary(end) {
        return None;
    }
    let (head, _) = s.split_at(end);
    let ghost bytes = s.spec_bytes();
    proof {
        encode_utf8_valid_utf8(s@);
        encode_utf8_valid_utf8(head@);
        assert(head.spec_bytes() =~= bytes.subrange(0, end as int));
        if start == end {
            is_char_boundary_start_end_of_seq(head.spec_bytes());
        } else if start > 0 {
            is_char_boundary_iff_not_is_continuation_byte(bytes, start as int);
            is_char_boundary_iff_not_is_continuation_byte(head.spec_bytes(), start as int);
            assert(head.spec_bytes()[start as int] == bytes[start as int]);
        }
    }
    let (_, tail) = head.split_at(start);
    assert(tail.spec_bytes() =~= bytes.subrange(start as int, end as int));
    Some(tail)
}

/// The characters of the bytes from `start` to `end` of `s`.
fn text_of(s: &str, start: usize, end: usize) -> (r: Vec<char>)
    requires
        valid_byte_range(s, start as int, end as int),
    ensures
        r@ == byte_text(s, start as int, end as int),
{
    match slice_bytes(s, start, end) {
        Some(t) => {
            proof {
                encode_utf8_decode_utf8(t@);
            }
            chars_of(t)
        },
        None => Vec::new(),
    }
}

/// The first character of `s` that satisfies `p`.
pub open spec fn first_with(s: Seq<char>, p: spec_fn(char) -> bool) -> Option<char>
    decreases s.len(),
{
    if s.len() == 0 {
        None
    } else if p(s[0]) {
        Some(s[0])
    } else {
        first_with(s.drop_first(), p)
    }
}

/// Characters that may not stand in a formula of `c`.
pub open spec fn is_foreign(c: SubstitutionFormulaConfiguration) -> spec_fn(char) -> bool {
    |x: char| !c.alphabet_set().contains(x) && x != c.spec_delimiter() && x != c.spec_final_marker()
}

/// What can be wrong with the text of a formula.
pub enum CreationErrorView {
    UnknownCharacterEncountered(Seq<char>, Seq<char>),
    Grammar(FormulaErrorView),
}

/// Reads a formula under a configuration: the characters that may not stand
/// there fail it, all of them reported in order; then the grammar of
/// formulas applies.
pub open spec fn parse_configured(text: Seq<char>, c: SubstitutionFormulaConfiguration) -> Result<
    FormulaModel,
    CreationErrorView,
> {
    if filter_chars(text, is_foreign(c)).len() > 0 {
        Err(CreationErrorView::UnknownCharacterEncountered(text, filter_chars(text, is_foreign(c))))
    } else {
        match parse_formula(text, c.spec_delimiter(), c.spec_final_marker()) {
            Ok(m) => Ok(m),
            Err(e) => Err(CreationErrorView::Grammar(e)),
        }
    }
}

/// An error that occurs during the creation of a substitution formula.
#[derive(Debug, PartialEq, Eq)]
pub enum SubstitutionFormulaCreationError {
    /// Characters that neither belong to the alphabet nor are the delimiter
    /// or the final marker: the definition, then every such character.
    UnknownCharacterEncountered(String, String),
    /// No delimiters are found in the formula definition.
    NoDelimiterFound(String),
    /// Multiple delimiters are found in the formula definition.
    MultipleDelimitersFound(String, usize),
    /// Final marker is on the left side of the substitution formula.
    FinalMarkerOnTheLeft(String),
    /// Final marker is on the right side of the substitution formula.
    FinalMarkerOnTheRight(String),
}

impl View for SubstitutionFormulaCreationError {
    type V = CreationErrorView;

    open spec fn view(&self) -> CreationErrorView {
        match self {
            SubstitutionFormulaCreationError::UnknownCharacterEncountered(s, x) => CreationErrorView::UnknownCharacterEncountered(s@, x@),
            SubstitutionFormulaCreationError::NoDelimiterFound(s) => CreationErrorView::Grammar(FormulaErrorView::NoDelimiterFound(s@)),
            SubstitutionFormulaCreationError::MultipleDelimitersFound(s, n) => CreationErrorView::Grammar(FormulaErrorView::MultipleDelimitersFound(s@, *n as nat)),
            SubstitutionFormulaCreationError::FinalMarkerOnTheLeft(s) => CreationErrorView::Grammar(FormulaErrorView::FinalMarkerOnTheLeft(s@)),
            SubstitutionFormulaCreationError::FinalMarkerOnTheRight(s) => CreationErrorView::Grammar(FormulaErrorView::FinalMarkerOnTheRight(s@)),
        }
    }
}

impl SubstitutionFormulaCreationError {
    /// The text of the message for this error.
    pub open spec fn message(&self) -> Seq<char> {
        match self {
            SubstitutionFormulaCreationError::UnknownCharacterEncountered(s, c) => "unsupported characters \""@
                + c@ + "\" that neither belong to the alphabet, nor are delimiters are encountered in the substitution formula \""@
                + s@ + "\""@,
            SubstitutionFormulaCreationError::NoDelimiterFound(s) => "no delimiters are found in the substitution formula \""@ + s@ + "\""@,
            SubstitutionFormulaCreationError::MultipleDelimitersFound(s, _) => "multiple delimiters are found in the substitution formula \""@ + s@ + "\""@,
            SubstitutionFormulaCreationError::FinalMarkerOnTheLeft(s) => "final marker is on the left side of the substitution formula \""@ + s@ + "\""@,
            SubstitutionFormulaCreationError::FinalMarkerOnTheRight(s) => "Final marker is on the right side of the substitution formula \""@ + s@ + "\""@,
        }
    }

    /// Describes the error in words.
    pub fn to_string(&self) -> (r: String)
        ensures
            r@ == self.message(),
    {
        let (mut r, s) = match self {
            SubstitutionFormulaCreationError::UnknownCharacterEncountered(s, c) => {
                let mut r = "unsupported characters \"".to_owned();
                r.append(c.as_str());
                r.append("\" that neither belong to the alphabet, nor are delimiters are encountered in the substitution formula \"");
                (r, s)
            },
            SubstitutionFormulaCreationError::NoDelimiterFound(s) => ("no delimiters are found in the substitution formula \"".to_owned(), s),
            SubstitutionFormulaCreationError::MultipleDelimitersFound(s, _) => ("multiple delimiters are found in the substitution formula \"".to_owned(), s),
            SubstitutionFormulaCreationError::FinalMarkerOnTheLeft(s) => ("final marker is on the left side of the substitution formula \"".to_owned(), s),
            SubstitutionFormulaCreationError::FinalMarkerOnTheRight(s) => ("Final marker is on the right side of the substitution formula \"".to_owned(), s),
        };
        r.append(s.as_str());
        r.append("\"");
        r
    }
}

/// The same error, with the unknown-character case apart.
pub(crate) fn from_definition_error(e: SubstitutionFormulaDefinitionError) -> (r: SubstitutionFormulaCreationError)
    ensures
        r@ == CreationErrorView::Grammar(e@),
{
    match e {
        SubstitutionFormulaDefinitionError::NoDelimiterFound(s) => SubstitutionFormulaCreationError::NoDelimiterFound(s),
        SubstitutionFormulaDefinitionError::MultipleDelimitersFound(s, n) => SubstitutionFormulaCreationError::MultipleDelimitersFound(s, n),
        SubstitutionFormulaDefinitionError::FinalMarkerOnTheLeft(s) => SubstitutionFormulaCreationError::FinalMarkerOnTheLeft(s),
        SubstitutionFormulaDefinitionError::FinalMarkerOnTheRight(s) => SubstitutionFormulaCreationError::FinalMarkerOnTheRight(s),
    }
}

/// The characters of `text` that may not stand in a formula, in order.
pub(crate) fn foreign_in(text: &[char], configuration: &SubstitutionFormulaConfiguration) -> (r: Vec<char>)
    ensures
        r@ == filter_chars(text@, is_foreign(*configuration)),
{
    let ghost p = is_foreign(*configuration);
    let mut found: Vec<char> = Vec::new();
    let mut k: usize = 0;
    while k < text.len()
        invariant
            p == is_foreign(*configuration),
            k <= text@.len(),
            found@ == filter_chars(text@.subrange(0, k as int), p),
        decreases text@.len() - k,
    {
        let c = text[k];
        assert(text@.subrange(0, k + 1).drop_last() =~= text@.subrange(0, k as int));
        if !configuration.contains(c) && c != configuration.delimiter() && c != configuration.final_marker() {
            found.push(c);
        }
        k = k + 1;
    }
    assert(text@.subrange(0, text@.len() as int) =~= text@);
    found
}

/// Where a formula lies: its definition as a byte range of the buffer, and
/// the end of its left side and the start of its right side, counted in
/// characters of the definition.
#[derive(Debug)]
pub struct FormulaView {
    full: Range<usize>,
    left_end: usize,
    right_start: usize,
}

impl FormulaView {
    /// The view fits the buffer `store`.
    pub closed spec fn fits(&self, store: &str) -> bool {
        &&& valid_byte_range(store, self.full.start as int, self.full.end as int)
        &&& self.left_end <= self.right_start <= byte_text(store, self.full.start as int, self.full.end as int).len()
    }

    /// The definition, read from `store`.
    pub closed spec fn definition(&self, store: &str) -> Seq<char> {
        byte_text(store, self.full.start as int, self.full.end as int)
    }

    /// The left side, read from `store`.
    pub closed spec fn left_of(&self, store: &str) -> Seq<char> {
        self.definition(store).subrange(0, self.left_end as int)
    }

    /// The right side, read from `store`.
    pub closed spec fn right_of(&self, store: &str) -> Seq<char> {
        self.definition(store).subrange(self.right_start as int, self.definition(store).len() as int)
    }

    /// The left side of the formula.
    pub fn get_left(&self, store: &str) -> (r: String)
        requires
            self.fits(store),
        ensures
            r@ == self.left_of(store),
    {
        let text = text_of(store, self.full.start, self.full.end);
        let mut v: Vec<char> = Vec::new();
        let mut k: usize = 0;
        while k < self.left_end
            invariant
                self.left_end <= text@.len(),
                k <= self.left_end,
                v@ == text@.subrange(0, k as int),
            decreases self.left_end - k,
        {
            v.push(text[k]);
            k = k + 1;
        }
        string_of(v.as_slice())
    }

    /// The right side of the formula.
    pub fn get_right(&self, store: &str) -> (r: String)
        requires
            self.fits(store),
        ensures
            r@ == self.right_of(store),
    {
        let text = text_of(store, self.full.start, self.full.end);
        let mut v: Vec<char> = Vec::new();
        let mut k: usize = self.right_start;
        while k < text.len()
            invariant
                self.right_start <= k <= text@.len(),
                v@ == text@.subrange(self.right_start as int, k as int),
            decreases text@.len() - k,
        {
            v.push(text[k]);
            k = k + 1;
        }
        string_of(v.as_slice())
    }
}

/// A substitution formula: a simple one, or a final one that halts.
#[derive(Debug)]
pub enum SubstitutionFormula {
    Simple(FormulaView),
    Final(FormulaView),
}

/// The outcome of a formula on a string.
#[derive(Debug, PartialEq, Eq)]
pub enum SubstitutionResult {
    /// A final formula was applied.
    Halt(String),
    /// A simple formula was applied.
    Applied(String),
    /// The left side does not occur: the string, unchanged.
    NotApplied(String),
}

impl SubstitutionFormula {
    /// Where the formula lies.
    pub open spec fn spec_view(&self) -> &FormulaView {
        match self {
            SubstitutionFormula::Simple(v) => v,
            SubstitutionFormula::Final(v) => v,
        }
    }

    /// The formula as read from the buffer `store`.
    pub open spec fn model(&self, store: &str) -> FormulaModel {
        FormulaModel {
            left: self.spec_view().left_of(store),
            right: self.spec_view().right_of(store),
            is_final: self is Final,
            definition: self.spec_view().definition(store),
        }
    }

    /// Creates the formula whose definition is the byte range `range` of
    /// `store`.
    pub fn new(configuration: &SubstitutionFormulaConfiguration, store: &str, range: Range<usize>) -> (r:
        Result<Self, SubstitutionFormulaCreationError>)
        requires
            valid_byte_range(store, range.start as int, range.end as int),
        ensures
            match parse_configured(byte_text(store, range.start as int, range.end as int), *configuration) {
                Ok(m) => r matches Ok(f) && f.spec_view().fits(store) && f.model(store) == m,
                Err(e) => r matches Err(x) && x@ == e,
            },
    {
        let text = text_of(store, range.start, range.end);
        let foreign = foreign_in(text.as_slice(), configuration);
        if foreign.len() > 0 {
            return Err(
                SubstitutionFormulaCreationError::UnknownCharacterEncountered(
                    string_of(text.as_slice()),
                    string_of(foreign.as_slice()),
                ),
            );
        }
        let len = text.len();
        assert(text@.subrange(0, len as int) =~= text@);
        match crate::scheme::formulas::SubstitutionFormula::new(
            text.as_slice(),
            0,
            len,
            configuration.delimiter(),
            configuration.final_marker(),
        ) {
            Err(e) => Err(from_definition_error(e)),
            Ok(f) => {
                let (_, left_end, right_start, _) = f.view().bounds();
                proof {
                    f.lemma_sides(text@);
                }
                let view = FormulaView { full: range, left_end, right_start };
                if f.is_final() {
                    Ok(SubstitutionFormula::Final(view))
                } else {
                    Ok(SubstitutionFormula::Simple(view))
                }
            },
        }
    }

    /// Rewrites the leftmost occurrence of the left side in `string`.
    pub fn apply(&self, store: &str, string: &str) -> (r: SubstitutionResult)
        requires
            self.spec_view().fits(store),
        ensures
            match replace_first(string@, self.model(store).left, self.model(store).right) {
                Some(w) => match r {
                    SubstitutionResult::Halt(x) => self is Final && x@ == w,
                    SubstitutionResult::Applied(x) => self is Simple && x@ == w,
                    SubstitutionResult::NotApplied(_) => false,
                },
                None => r matches SubstitutionResult::NotApplied(x) && x@ == string@,
            },
    {
        let view = self.peek_definition();
        let left = chars_of(view.get_left(store).as_str());
        let right = chars_of(view.get_right(store).as_str());
        let word = chars_of(string);
        match replace_first_in(word.as_slice(), left.as_slice(), right.as_slice()) {
            Some(v) => {
                if self.is_final() {
                    SubstitutionResult::Halt(string_of(v.as_slice()))
                } else {
                    SubstitutionResult::Applied(string_of(v.as_slice()))
                }
            },
            None => SubstitutionResult::NotApplied(string.to_owned()),
        }
    }

    fn peek_definition(&self) -> (r: &FormulaView)
        ensures
            r == self.spec_view(),
    {
        match self {
            SubstitutionFormula::Simple(definition) | SubstitutionFormula::Final(definition) => definition,
        }
    }

    fn is_final(&self) -> (r: bool)
        ensures
            r == self is Final,
    {
        matches!(self, SubstitutionFormula::Final(_))
    }
}

} // verus!
