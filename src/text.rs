//! Character sequences: conversions from and to strings, and the literal
//! substring search on which rewriting rests.
use vstd::prelude::*;
use vstd::std_specs::iter::IteratorSpec;

verus! {

/// `p` occurs in `w` starting at position `i`.
pub open spec fn occurs_at(w: Seq<char>, p: Seq<char>, i: int) -> bool {
    0 <= i && i + p.len() <= w.len() && w.subrange(i, i + p.len()) == p
}

/// The first position, at `i` or after it, where `p` occurs in `w`.
pub open spec fn find_from(w: Seq<char>, p: Seq<char>, i: int) -> Option<int>
    decreases w.len() + 1 - i,
{
    if i < 0 || i + p.len() > w.len() {
        None
    } else if occurs_at(w, p, i) {
        Some(i)
    } else {
        find_from(w, p, i + 1)
    }
}

/// The leftmost position where `p` occurs in `w`, if it occurs at all.
pub open spec fn first_occurrence(w: Seq<char>, p: Seq<char>) -> Option<int> {
    find_from(w, p, 0)
}

/// `w` with the leftmost occurrence of `p` replaced by `r`; `None` where `p`
/// does not occur in `w`.
pub open spec fn replace_first(w: Seq<char>, p: Seq<char>, r: Seq<char>) -> Option<Seq<char>> {
    match first_occurrence(w, p) {
        Some(i) => Some(w.subrange(0, i) + r + w.subrange(i + p.len(), w.len() as int)),
        None => None,
    }
}

/// The number of times `c` occurs in `s`.
pub open spec fn count_of(s: Seq<char>, c: char) -> nat
    decreases s.len(),
{
    if s.len() == 0 {
        0
    } else {
        count_of(s.drop_last(), c) + if s.last() == c { 1nat } else { 0nat }
    }
}

/// The characters of `s` that satisfy `keep`, in order, repeats included.
pub open spec fn filter_chars(s: Seq<char>, keep: spec_fn(char) -> bool) -> Seq<char>
    decreases s.len(),
{
    if s.len() == 0 {
        Seq::empty()
    } else if keep(s.last()) {
        filter_chars(s.drop_last(), keep).push(s.last())
    } else {
        filter_chars(s.drop_last(), keep)
    }
}

/// A position found at or after `i` is an occurrence with none before it.
pub proof fn lemma_find_from_is_leftmost(w: Seq<char>, p: Seq<char>, i: int)
    requires
        0 <= i,
    ensures
        match find_from(w, p, i) {
            Some(k) => i <= k && occurs_at(w, p, k) && forall|j: int|
                i <= j < k ==> !occurs_at(w, p, j),
            None => forall|j: int| i <= j ==> !occurs_at(w, p, j),
        },
    decreases w.len() + 1 - i,
{
    if i + p.len() > w.len() {
    } else if occurs_at(w, p, i) {
    } else {
        lemma_find_from_is_leftmost(w, p, i + 1);
    }
}

/// The characters of `s`, in order.
pub fn chars_of(s: &str) -> (r: Vec<char>)
    ensures
        r@ == s@,
{
    let mut v: Vec<char> = Vec::new();
    for c in it: s.chars()
        invariant
            v@ == it.seq().take(it.index() as int),
    {
        v.push(c);
    }
    v
}

/// Relies on `String::from_iter`: collecting characters into a `String`
/// keeps them, in order.
#[verifier::external_body]
pub(crate) fn string_of(v: &[char]) -> (r: String)
    ensures
        r@ == v@,
{
    String::from_iter(v.iter())
}

/// Whether `p` occurs in `w` at position `i`.
pub fn matches_at(w: &[char], p: &[char], i: usize) -> (r: bool)
    requires
        i <= w@.len(),
    ensures
        r == occurs_at(w@, p@, i as int),
{
    if p.len() > w.len() - i {
        return false;
    }
    let mut k: usize = 0;
    while k < p.len()
        invariant
            w@.len() <= usize::MAX,
            i + p@.len() <= w@.len(),
            k <= p@.len(),
            forall|j: int| 0 <= j < k ==> w@[i + j] == p@[j],
        decreases p@.len() - k,
    {
        if w[i + k] != p[k] {
            assert(w@.subrange(i as int, i + p@.len())[k as int] != p@[k as int]);
            return false;
        }
        k = k + 1;
    }
    assert(w@.subrange(i as int, i + p@.len()) =~= p@);
    true
}

/// The leftmost position where `p` occurs in `w`.
pub fn find_first(w: &[char], p: &[char]) -> (r: Option<usize>)
    ensures
        r matches Some(i) ==> first_occurrence(w@, p@) == Some(i as int),
        r is None ==> first_occurrence(w@, p@) is None,
{
    if p.len() > w.len() {
        return None;
    }
    let last: usize = w.len() - p.len();
    let mut i: usize = 0;
    loop
        invariant
            last == w@.len() - p@.len(),
            i <= last,
            find_from(w@, p@, 0) == find_from(w@, p@, i as int),
        decreases last - i,
    {
        if matches_at(w, p, i) {
            return Some(i);
        }
        if i == last {
            assert(find_from(w@, p@, i + 1) is None);
            return None;
        }
        i = i + 1;
    }
}

/// `w` with the leftmost occurrence of `p` replaced by `r`, if `p` occurs.
pub fn replace_first_in(w: &[char], p: &[char], r: &[char]) -> (out: Option<Vec<char>>)
    ensures
        match out {
            Some(v) => replace_first(w@, p@, r@) == Some(v@),
            None => replace_first(w@, p@, r@) is None,
        },
{
    match find_first(w, p) {
        None => None,
        Some(i) => {
            proof {
                lemma_find_from_is_leftmost(w@, p@, 0);
            }
            let wl: usize = w.len();
            assert(occurs_at(w@, p@, i as int));
            assert(i + p@.len() <= wl);
            let mut v: Vec<char> = Vec::new();
            let mut k: usize = 0;
            while k < i
                invariant
                    i + p@.len() <= w@.len(),
                    k <= i,
                    v@ == w@.subrange(0, k as int),
                decreases i - k,
            {
                v.push(w[k]);
                k = k + 1;
            }
            let mut k: usize = 0;
            while k < r.len()
                invariant
                    k <= r@.len(),
                    v@ == w@.subrange(0, i as int) + r@.subrange(0, k as int),
                decreases r@.len() - k,
            {
                v.push(r[k]);
                k = k + 1;
            }
            let mut k: usize = i + p.len();
            while k < w.len()
                invariant
                    i + p@.len() <= k <= w@.len(),
                    v@ == w@.subrange(0, i as int) + r@ + w@.subrange(i + p@.len(), k as int),
                decreases w@.len() - k,
            {
                v.push(w[k]);
                k = k + 1;
            }
            assert(r@.subrange(0, r@.len() as int) =~= r@);
            Some(v)
        },
    }
}

/// The number of times `c` occurs in `s`.
pub fn count_char(s: &[char], c: char) -> (n: usize)
    ensures
        n == count_of(s@, c),
{
    let mut n: usize = 0;
    let mut k: usize = 0;
    while k < s.len()
        invariant
            k <= s@.len(),
            n == count_of(s@.subrange(0, k as int), c),
            n <= k,
        decreases s@.len() - k,
    {
        assert(s@.subrange(0, k + 1).drop_last() =~= s@.subrange(0, k as int));
        if s[k] == c {
            n = n + 1;
        }
        k = k + 1;
    }
    assert(s@.subrange(0, s@.len() as int) =~= s@);
    n
}

/// Whether `c` occurs in `s`.
pub fn has_char(s: &[char], c: char) -> (r: bool)
    ensures
        r == s@.contains(c),
{
    let mut k: usize = 0;
    while k < s.len()
        invariant
            k <= s@.len(),
            forall|j: int| 0 <= j < k ==> s@[j] != c,
        decreases s@.len() - k,
    {
        if s[k] == c {
            return true;
        }
        k = k + 1;
    }
    false
}

/// The decimal digits of `n`, most significant first.
pub open spec fn decimal(n: nat) -> Seq<char>
    decreases n,
{
    if n < 10 {
        seq!["0123456789"@[n as int]]
    } else {
        decimal(n / 10).push("0123456789"@[(n % 10) as int])
    }
}

/// The decimal digits of `n`.
pub fn decimal_of(n: u32) -> (r: Vec<char>)
    ensures
        r@ == decimal(n as nat),
    decreases n,
{
    proof {
        reveal_strlit("0123456789");
    }
    let digits = chars_of("0123456789");
    if n < 10 {
        vec![digits[n as usize]]
    } else {
        let mut v = decimal_of(n / 10);
        v.push(digits[(n % 10) as usize]);
        v
    }
}

/// The one-character string holding `c`.
pub fn char_string(c: char) -> (r: String)
    ensures
        r@ == seq![c],
{
    let v = vec![c];
    string_of(v.as_slice())
}

/// The pieces of `s` between newlines, one more than there are newlines.
pub open spec fn pieces(s: Seq<char>) -> Seq<Seq<char>>
    decreases s.len(),
{
    if s.len() == 0 {
        seq![Seq::empty()]
    } else {
        let p = pieces(s.drop_last());
        if s.last() == '\n' {
            p.push(Seq::empty())
        } else {
            p.update(p.len() - 1, p.last().push(s.last()))
        }
    }
}

/// The views of the vectors in `v`.
pub open spec fn views_of(v: Seq<Vec<char>>) -> Seq<Seq<char>> {
    v.map_values(|x: Vec<char>| x@)
}

/// Each line without the carriage return that may end it.
pub open spec fn strip_all(p: Seq<Seq<char>>) -> Seq<Seq<char>> {
    p.map_values(|l: Seq<char>| strip_cr(l))
}

/// A line without the carriage return that may end it.
pub open spec fn strip_cr(l: Seq<char>) -> Seq<char> {
    if l.len() > 0 && l.last() == '\r' {
        l.drop_last()
    } else {
        l
    }
}

/// The lines of `s`: split at each newline, a carriage return right
/// before a newline dropped, and no empty line after a final newline.
pub open spec fn lines_of(s: Seq<char>) -> Seq<Seq<char>> {
    let p = pieces(s);
    let body = strip_all(p.drop_last());
    if p.last().len() == 0 {
        body
    } else {
        body.push(p.last())
    }
}

proof fn lemma_pieces_len(s: Seq<char>)
    ensures
        pieces(s).len() >= 1,
    decreases s.len(),
{
    if s.len() > 0 {
        lemma_pieces_len(s.drop_last());
    }
}

/// The lines of a text.
pub fn split_lines(s: &[char]) -> (r: Vec<Vec<char>>)
    ensures
        views_of(r@) == lines_of(s@),
{
    let mut done: Vec<Vec<char>> = Vec::new();
    let mut current: Vec<char> = Vec::new();
    let mut k: usize = 0;
    assert(s@.take(0) =~= Seq::<char>::empty());
    assert(views_of(done@) =~= strip_all(pieces(s@.take(0)).drop_last()));
    while k < s.len()
        invariant
            k <= s@.len(),
            pieces(s@.take(k as int)).len() >= 1,
            views_of(done@) == strip_all(pieces(s@.take(k as int)).drop_last()),
            current@ == pieces(s@.take(k as int)).last(),
        decreases s@.len() - k,
    {
        let c = s[k];
        let ghost p = pieces(s@.take(k as int));
        let ghost old_done = done@;
        assert(s@.take(k + 1).drop_last() =~= s@.take(k as int));
        assert(s@.take(k + 1).last() == c);
        if c == '\n' {
            let mut line = current;
            let len = line.len();
            if len > 0 && line[len - 1] == '\r' {
                line.pop();
            }
            assert(line@ == strip_cr(p.last())) by {
                if len > 0 && p.last().last() == '\r' {
                    assert(line@ =~= p.last().drop_last());
                }
            }
            done.push(line);
            current = Vec::new();
            let ghost q = pieces(s@.take(k + 1));
            assert(q == p.push(Seq::<char>::empty()));
            assert(q.drop_last() =~= p);
            assert(views_of(old_done).len() == old_done.len());
            assert(old_done.len() == p.len() - 1);
            assert forall|i: int| 0 <= i < done@.len() implies #[trigger] views_of(done@)[i] == strip_all(p)[i] by {
                if i < old_done.len() {
                    assert(done@[i] == old_done[i]);
                    assert(views_of(old_done)[i] == strip_all(p.drop_last())[i]);
                    assert(p.drop_last()[i] == p[i]);
                } else {
                    assert(done@[i] == line);
                }
            }
            assert(views_of(done@) =~= strip_all(q.drop_last()));
        } else {
            current.push(c);
            let ghost q = pieces(s@.take(k + 1));
            assert(q == p.update(p.len() - 1, p.last().push(c)));
            assert(q.drop_last() =~= p.drop_last());
        }
        k = k + 1;
    }
    assert(s@.take(s@.len() as int) =~= s@);
    if current.len() > 0 {
        let ghost old_done = done@;
        done.push(current);
        assert(views_of(done@) =~= views_of(old_done).push(pieces(s@).last())) by {
            assert forall|i: int| 0 <= i < old_done.len() implies done@[i] == old_done[i] by {}
        }
    }
    done
}

} // verus!
