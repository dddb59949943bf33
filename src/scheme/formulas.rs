//! Substitution formulas: their textual grammar, and a single rewrite.
use vstd::prelude::*;
use vstd::string::StringExecFns;

use crate::text::{count_char, find_first, first_occurrence, count_of, has_char, replace_first, replace_first_in};

verus! {

/// A formula as a reader sees it: replace the leftmost `left` by `right`,
/// and halt afterwards when `is_final`; `definition` is its source line.
pub struct FormulaModel {
    pub left: Seq<char>,
    pub right: Seq<char>,
    pub is_final: bool,
    pub definition: Seq<char>,
}

/// What can be wrong with the text of a single formula, as a reader sees it.
pub enum FormulaErrorView {
    NoDelimiterFound(Seq<char>),
    MultipleDelimitersFound(Seq<char>, nat),
    FinalMarkerOnTheLeft(Seq<char>),
    FinalMarkerOnTheRight(Seq<char>),
}

/// Reads one formula line: exactly one `delimiter` splits it into a left and
/// a right side, and a `final_marker` right after the delimiter makes the
/// formula final; the marker may appear nowhere else.
pub open spec fn parse_formula(line: Seq<char>, delimiter: char, final_marker: char) -> Result<
    FormulaModel,
    FormulaErrorView,
> {
    let n = count_of(line, delimiter);
    if n == 0 {
        Err(FormulaErrorView::NoDelimiterFound(line))
    } else if n > 1 {
        Err(FormulaErrorView::MultipleDelimitersFound(line, n))
    } else {
        let i = first_occurrence(line, seq![delimiter])->0;
        let is_final = i + 1 < line.len() && line[i + 1] == final_marker;
        let left = line.subrange(0, i);
        let right = line.subrange(if is_final { i + 2 } else { i + 1 }, line.len() as int);
        if left.contains(final_marker) {
            Err(FormulaErrorView::FinalMarkerOnTheLeft(line))
        } else if right.contains(final_marker) {
            Err(FormulaErrorView::FinalMarkerOnTheRight(line))
        } else {
            Ok(FormulaModel { left, right, is_final, definition: line })
        }
    }
}

/// A parsed formula reads back as its definition: the left side, the
/// delimiter, the final marker when the formula is final, then the right
/// side; the delimiter occurs once, and the final marker in neither side.
pub proof fn lemma_parsed_formula_shape(line: Seq<char>, delimiter: char, final_marker: char)
    requires
        parse_formula(line, delimiter, final_marker) is Ok,
    ensures
        ({
            let m = parse_formula(line, delimiter, final_marker)->Ok_0;
            &&& m.definition == line
            &&& line == m.left + (if m.is_final { seq![delimiter, final_marker] } else { seq![delimiter] })
                + m.right
            &&& count_of(line, delimiter) == 1
            &&& !m.left.contains(final_marker)
            &&& !m.right.contains(final_marker)
        }),
{
    let m = parse_formula(line, delimiter, final_marker)->Ok_0;
    lemma_count_positive_occurs(line, delimiter);
    crate::text::lemma_find_from_is_leftmost(line, seq![delimiter], 0);
    let i = first_occurrence(line, seq![delimiter])->0;
    assert(line.subrange(i, i + 1) =~= seq![delimiter]);
    assert(line.subrange(i, i + 1)[0] == line[i]);
    if m.is_final {
        assert(line =~= m.left + seq![delimiter, final_marker] + m.right);
    } else {
        assert(line =~= m.left + seq![delimiter] + m.right);
    }
}

/// An error in the definition of a substitution formula.
#[derive(Debug, PartialEq, Eq)]
pub enum SubstitutionFormulaDefinitionError {
    /// No delimiters are found in the formula definition.
    NoDelimiterFound(String),
    /// Multiple delimiters are found in the formula definition.
    MultipleDelimitersFound(String, usize),
    /// Final marker is on the left side of the substitution formula.
    FinalMarkerOnTheLeft(String),
    /// Final marker is on the right side of the substitution formula.
    FinalMarkerOnTheRight(String),
}

impl View for SubstitutionFormulaDefinitionError {
    type V = FormulaErrorView;

    open spec fn view(&self) -> FormulaErrorView {
        match self {
            SubstitutionFormulaDefinitionError::NoDelimiterFound(s) => FormulaErrorView::NoDelimiterFound(s@),
            SubstitutionFormulaDefinitionError::MultipleDelimitersFound(s, n) => FormulaErrorView::MultipleDelimitersFound(s@, *n as nat),
            SubstitutionFormulaDefinitionError::FinalMarkerOnTheLeft(s) => FormulaErrorView::FinalMarkerOnTheLeft(s@),
            SubstitutionFormulaDefinitionError::FinalMarkerOnTheRight(s) => FormulaErrorView::FinalMarkerOnTheRight(s@),
        }
    }
}

impl SubstitutionFormulaDefinitionError {
    /// The text of the message for this error.
    pub open spec fn message(&self) -> Seq<char> {
        match self {
            SubstitutionFormulaDefinitionError::NoDelimiterFound(s) => "no delimiters are found in the substitution formula \""@ + s@ + "\""@,
            SubstitutionFormulaDefinitionError::MultipleDelimitersFound(s, _) => "multiple delimiters are found in the substitution formula \""@ + s@ + "\""@,
            SubstitutionFormulaDefinitionError::FinalMarkerOnTheLeft(s) => "final marker is on the left side of the substitution formula \""@ + s@ + "\""@,
            SubstitutionFormulaDefinitionError::FinalMarkerOnTheRight(s) => "Final marker is on the right side of the substitution formula \""@ + s@ + "\""@,
        }
    }

    /// Describes the error in words.
    pub fn to_string(&self) -> (r: String)
        ensures
            r@ == self.message(),
    {
        let (mut r, s) = match self {
            SubstitutionFormulaDefinitionError::NoDelimiterFound(s) => ("no delimiters are found in the substitution formula \"".to_owned(), s),
            SubstitutionFormulaDefinitionError::MultipleDelimitersFound(s, _) => ("multiple delimiters are found in the substitution formula \"".to_owned(), s),
            SubstitutionFormulaDefinitionError::FinalMarkerOnTheLeft(s) => ("final marker is on the left side of the substitution formula \"".to_owned(), s),
            SubstitutionFormulaDefinitionError::FinalMarkerOnTheRight(s) => ("Final marker is on the right side of the substitution formula \"".to_owned(), s),
        };
        r.append(s.as_str());
        r.append("\"");
        r
    }
}

/// Where the sides of a formula lie in the shared buffer of a scheme.
#[derive(Debug)]
pub struct FormulaView {
    left_start: usize,
    left_end: usize,
    right_start: usize,
    right_end: usize,
}

impl FormulaView {
    /// The ranges are ordered and lie within a buffer of `len` characters.
    pub closed spec fn within(&self, len: nat) -> bool {
        self.left_start <= self.left_end <= self.right_start <= self.right_end <= len
    }

    /// The start and end of the left side, then of the right side.
    pub closed spec fn ranges(&self) -> (int, int, int, int) {
        (self.left_start as int, self.left_end as int, self.right_start as int, self.right_end as int)
    }

    /// The start and end of the left side, then of the right side.
    pub fn bounds(&self) -> (r: (usize, usize, usize, usize))
        ensures
            r.0 as int == self.ranges().0 && r.1 as int == self.ranges().1 && r.2 as int
                == self.ranges().2 && r.3 as int == self.ranges().3,
    {
        (self.left_start, self.left_end, self.right_start, self.right_end)
    }

    /// The left side, read from the buffer.
    pub fn get_left(&self, store: &[char]) -> (r: Vec<char>)
        requires
            self.within(store@.len()),
        ensures
            r@ == store@.subrange(self.ranges().0, self.ranges().1),
    {
        copy_range(store, self.left_start, self.left_end)
    }

    /// The right side, read from the buffer.
    pub fn get_right(&self, store: &[char]) -> (r: Vec<char>)
        requires
            self.within(store@.len()),
        ensures
            r@ == store@.subrange(self.ranges().2, self.ranges().3),
    {
        copy_range(store, self.right_start, self.right_end)
    }
}

/// The characters of `s` from `from` up to `to`.
fn copy_range(s: &[char], from: usize, to: usize) -> (r: Vec<char>)
    requires
        from <= to <= s@.len(),
    ensures
        r@ == s@.subrange(from as int, to as int),
{
    let mut v: Vec<char> = Vec::new();
    let mut k: usize = from;
    while k < to
        invariant
            from <= k <= to <= s@.len(),
            v@ == s@.subrange(from as int, k as int),
        decreases to - k,
    {
        v.push(s[k]);
        k = k + 1;
    }
    v
}

/// A parsed formula: its sides, as ranges into the buffer of the scheme,
/// and whether it is final.
#[derive(Debug)]
pub struct SubstitutionFormula {
    view: FormulaView,
    is_final: bool,
}

/// The outcome of a formula whose left side occurs in the word.
pub enum SubstitutionFormulaApplicationResult {
    Final(Vec<char>),
    Intermediate(Vec<char>),
}

impl SubstitutionFormula {
    /// The formula lies within a buffer of `len` characters.
    pub closed spec fn within(&self, len: nat) -> bool {
        self.view.within(len)
    }

    /// The formula that the buffer `store` holds at the recorded ranges.
    pub closed spec fn model(&self, store: Seq<char>) -> FormulaModel {
        FormulaModel {
            left: store.subrange(self.view.left_start as int, self.view.left_end as int),
            right: store.subrange(self.view.right_start as int, self.view.right_end as int),
            is_final: self.is_final,
            definition: store.subrange(self.view.left_start as int, self.view.right_end as int),
        }
    }

    /// The ranges of the two sides.
    pub closed spec fn view_ranges(&self) -> (int, int, int, int) {
        self.view.ranges()
    }

    /// Whether the formula is final.
    pub closed spec fn spec_is_final(&self) -> bool {
        self.is_final
    }

    /// The range of the whole definition.
    pub closed spec fn definition_range(&self) -> (int, int) {
        (self.view.left_start as int, self.view.right_end as int)
    }

    /// The definition lies within the buffer and spans both sides.
    pub proof fn lemma_definition(&self, store: Seq<char>)
        requires
            self.within(store.len()),
        ensures
            0 <= self.definition_range().0 <= self.definition_range().1 <= store.len(),
            self.model(store).definition == store.subrange(
                self.definition_range().0,
                self.definition_range().1,
            ),
    {
    }

    /// Growing the buffer at its end leaves the formula as it was.
    pub proof fn lemma_model_prefix(&self, s: Seq<char>, t: Seq<char>)
        requires
            self.within(s.len()),
            s.len() <= t.len(),
            t.subrange(0, s.len() as int) == s,
        ensures
            self.within(t.len()),
            self.model(t) == self.model(s),
    {
        assert(t.subrange(self.view.left_start as int, self.view.left_end as int) =~= s.subrange(
            self.view.left_start as int,
            self.view.left_end as int,
        ));
        assert(t.subrange(self.view.right_start as int, self.view.right_end as int) =~= s.subrange(
            self.view.right_start as int,
            self.view.right_end as int,
        ));
        assert(t.subrange(self.view.left_start as int, self.view.right_end as int) =~= s.subrange(
            self.view.left_start as int,
            self.view.right_end as int,
        ));
    }

    /// For a formula parsed over the whole of `store`, the sides are the
    /// text before the left end and after the right start.
    pub proof fn lemma_sides(&self, store: Seq<char>)
        requires
            self.within(store.len()),
            self.definition_range() == (0int, store.len() as int),
        ensures
            self.view_ranges().0 == 0,
            self.view_ranges().1 <= self.view_ranges().2 <= store.len(),
            self.view_ranges().3 == store.len(),
            self.model(store).left == store.subrange(0, self.view_ranges().1),
            self.model(store).right == store.subrange(self.view_ranges().2, store.len() as int),
            self.model(store).definition == store,
            self.model(store).is_final == self.spec_is_final(),
    {
        assert(store.subrange(0, store.len() as int) =~= store);
    }

    /// Parses the formula whose text is `store[start..end]`.
    pub fn new(store: &[char], start: usize, end: usize, delimiter: char, final_marker: char) -> (r:
        Result<Self, SubstitutionFormulaDefinitionError>)
        requires
            start <= end <= store@.len(),
        ensures
            match parse_formula(store@.subrange(start as int, end as int), delimiter, final_marker) {
                Ok(m) => r matches Ok(f) && f.within(store@.len()) && f.model(store@) == m
                    && f.definition_range() == (start as int, end as int),
                Err(e) => r matches Err(x) && x@ == e,
            },
    {
        let line = copy_range(store, start, end);
        let n = count_char(line.as_slice(), delimiter);
        if n == 0 {
            return Err(SubstitutionFormulaDefinitionError::NoDelimiterFound(crate::text::string_of(line.as_slice())));
        }
        if n > 1 {
            return Err(
                SubstitutionFormulaDefinitionError::MultipleDelimitersFound(crate::text::string_of(line.as_slice()), n),
            );
        }
        let d = vec![delimiter];
        assert(d@ =~= seq![delimiter]);
        let i = match find_first(line.as_slice(), d.as_slice()) {
            Some(i) => i,
            None => {
                proof {
                    lemma_count_positive_occurs(line@, delimiter);
                }
                return Err(SubstitutionFormulaDefinitionError::NoDelimiterFound(crate::text::string_of(line.as_slice())));
            },
        };
        proof {
            crate::text::lemma_find_from_is_leftmost(line@, d@, 0);
        }
        assert(line@.subrange(i as int, i + 1)[0] == delimiter);
        let is_final = i + 1 < line.len() && line[i + 1] == final_marker;
        let right_offset: usize = if is_final { i + 2 } else { i + 1 };
        let left = copy_range(line.as_slice(), 0, i);
        let right = copy_range(line.as_slice(), right_offset, line.len());
        if has_char(left.as_slice(), final_marker) {
            return Err(SubstitutionFormulaDefinitionError::FinalMarkerOnTheLeft(crate::text::string_of(line.as_slice())));
        }
        if has_char(right.as_slice(), final_marker) {
            return Err(SubstitutionFormulaDefinitionError::FinalMarkerOnTheRight(crate::text::string_of(line.as_slice())));
        }
        let view = FormulaView {
            left_start: start,
            left_end: start + i,
            right_start: start + right_offset,
            right_end: end,
        };
        assert(store@.subrange(start as int, start + i) =~= left@);
        assert(store@.subrange(start + right_offset, end as int) =~= right@);
        assert(store@.subrange(start as int, end as int) =~= line@);
        Ok(SubstitutionFormula { view, is_final })
    }

    /// Rewrites the leftmost occurrence of the left side in `word`, if any.
    pub fn apply(&self, store: &[char], word: &[char]) -> (r: Option<SubstitutionFormulaApplicationResult>)
        requires
            self.within(store@.len()),
        ensures
            match replace_first(word@, self.model(store@).left, self.model(store@).right) {
                Some(w) => match r {
                    Some(SubstitutionFormulaApplicationResult::Final(v)) => self.model(store@).is_final && v@ == w,
                    Some(SubstitutionFormulaApplicationResult::Intermediate(v)) => !self.model(store@).is_final && v@ == w,
                    None => false,
                },
                None => r is None,
            },
    {
        let left = self.view.get_left(store);
        let right = self.view.get_right(store);
        match replace_first_in(word, left.as_slice(), right.as_slice()) {
            Some(v) => if self.is_final {
                Some(SubstitutionFormulaApplicationResult::Final(v))
            } else {
                Some(SubstitutionFormulaApplicationResult::Intermediate(v))
            },
            None => None,
        }
    }

    /// Where the formula lies in the buffer.
    pub fn view(&self) -> (r: &FormulaView)
        ensures
            r.ranges() == self.view_ranges(),
    {
        &self.view
    }

    /// Whether the formula halts the algorithm.
    pub fn is_final(&self) -> (r: bool)
        ensures
            r == self.spec_is_final(),
    {
        self.is_final
    }

    /// The start and end of the formula's definition in the buffer.
    pub fn definition_bounds(&self) -> (r: (usize, usize))
        ensures
            r.0 == self.definition_range().0 && r.1 == self.definition_range().1,
    {
        (self.view.left_start, self.view.right_end)
    }
}

/// A character counted at least once occurs.
proof fn lemma_count_positive_occurs(s: Seq<char>, c: char)
    requires
        count_of(s, c) > 0,
    ensures
        first_occurrence(s, seq![c]) is Some,
    decreases s.len(),
{
    crate::text::lemma_find_from_is_leftmost(s, seq![c], 0);
    if s.last() == c {
        let k = s.len() - 1;
        assert(s.subrange(k, k + 1) =~= seq![c]);
        assert(crate::text::occurs_at(s, seq![c], k));
    } else {
        lemma_count_positive_occurs(s.drop_last(), c);
        crate::text::lemma_find_from_is_leftmost(s.drop_last(), seq![c], 0);
        let k = first_occurrence(s.drop_last(), seq![c])->0;
        assert(s.subrange(k, k + 1) =~= s.drop_last().subrange(k, k + 1));
        assert(crate::text::occurs_at(s, seq![c], k));
    }
}

} // verus!
