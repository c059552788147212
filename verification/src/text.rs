//! The free-text transition loader.
//!
//! One transition is typed as `(state,symbol)=(state,symbol,direction)`,
//! optionally with whitespace and with the word `blank` standing for the
//! blank character.  Parsing removes whitespace, screens the loose shape
//! with the pattern check, substitutes the blank alias, splits the strict
//! shape into its five fields and validates them against the track width.

use vstd::prelude::*;
use crate::symbol::{BLANK_CHAR, chars_of, string_of_chars};
use crate::table::{
    EntryError, RawEntry, RawEntryModel, Transition, TransitionModel, check_entry, validate_entry,
};

verus! {

/// Why a free-text transition was rejected.
#[derive(Clone, Copy, Debug, PartialEq, Eq, Structural)]
pub enum TextError {
    /// The text does not spell `(state,symbol)=(state,symbol,direction)`.
    BadShape,
    /// The shape is right but a field fails validation.
    Entry(EntryError),
}

/// Whitespace the free-text loader removes before looking at a transition.
pub open spec fn is_ws(c: char) -> bool {
    c == ' ' || c == '\t' || c == '\r' || c == '\n'
}

/// The text with all whitespace removed.
pub open spec fn strip_ws(s: Seq<char>) -> Seq<char>
    decreases s.len(),
{
    if s.len() == 0 {
        Seq::empty()
    } else {
        let prior = strip_ws(s.drop_last());
        if is_ws(s.last()) {
            prior
        } else {
            prior.push(s.last())
        }
    }
}

/// The alias word that may spell the blank character in free text.
pub open spec fn blank_word() -> Seq<char> {
    seq!['b', 'l', 'a', 'n', 'k']
}

/// The text with every occurrence of the blank alias replaced by the blank
/// character, scanning left to right without overlap.
pub open spec fn subst_blank(s: Seq<char>) -> Seq<char>
    decreases s.len(),
{
    if s.len() >= 5 && s.take(5) == blank_word() {
        seq![BLANK_CHAR] + subst_blank(s.skip(5))
    } else if s.len() == 0 {
        Seq::empty()
    } else {
        seq![s[0]] + subst_blank(s.skip(1))
    }
}

/// The first position at or after `i` where the separator `)=(` occurs.
pub open spec fn find_sep(s: Seq<char>, i: int) -> Option<int>
    decreases s.len() - i,
{
    if i < 0 || i + 3 > s.len() {
        None
    } else if s[i] == ')' && s[i + 1] == '=' && s[i + 2] == '(' {
        Some(i)
    } else {
        find_sep(s, i + 1)
    }
}

/// The first position at or after `i` holding the character `c`.
pub open spec fn find_char(s: Seq<char>, c: char, i: int) -> Option<int>
    decreases s.len() - i,
{
    if i < 0 || i >= s.len() {
        None
    } else if s[i] == c {
        Some(i)
    } else {
        find_char(s, c, i + 1)
    }
}

/// How many positions at or after `i` hold the character `c`.
pub open spec fn count_from(s: Seq<char>, c: char, i: int) -> nat
    decreases s.len() - i,
{
    if i < 0 || i >= s.len() {
        0
    } else if s[i] == c {
        1 + count_from(s, c, i + 1)
    } else {
        count_from(s, c, i + 1)
    }
}

/// A stretch of text between the parentheses may not hold the structural
/// characters `(`, `)` or `=`.
pub open spec fn inner_ok(s: Seq<char>) -> bool {
    forall|k: int| 0 <= k < s.len() ==> #[trigger] s[k] != '(' && s[k] != ')' && s[k] != '='
}

/// The five fields of the strict shape `(A,B)=(C,D,E)`: the text is wrapped
/// in parentheses, holds exactly one `)=(` separator and no other
/// structural character, with one comma on the left of the separator and
/// two on the right.
pub open spec fn split_fields(s: Seq<char>) -> Option<RawEntryModel> {
    let n = s.len() as int;
    if n < 2 || s[0] != '(' || s[n - 1] != ')' {
        None
    } else {
        match find_sep(s, 0) {
            None => None,
            Some(m) => {
                if m < 1 || m + 3 > n - 1 {
                    None
                } else {
                    let lhs = s.subrange(1, m);
                    let rhs = s.subrange(m + 3, n - 1);
                    if !inner_ok(lhs) || !inner_ok(rhs) {
                        None
                    } else if count_from(lhs, ',', 0) != 1 || count_from(rhs, ',', 0) != 2 {
                        None
                    } else {
                        let i1 = find_char(lhs, ',', 0)->Some_0;
                        let i2 = find_char(rhs, ',', 0)->Some_0;
                        let j2 = find_char(rhs, ',', i2 + 1)->Some_0;
                        Some(
                            RawEntryModel {
                                lhs_state: lhs.subrange(0, i1),
                                lhs_symbol: lhs.subrange(i1 + 1, lhs.len() as int),
                                rhs_state: rhs.subrange(0, i2),
                                rhs_symbol: rhs.subrange(i2 + 1, j2),
                                direction: rhs.subrange(j2 + 1, rhs.len() as int),
                            },
                        )
                    }
                }
            }
        }
    }
}

/// Finding `c` splits its count: one occurrence at the found position, the
/// rest after it.
proof fn lemma_count_after_find(s: Seq<char>, c: char, i: int, j: int)
    requires
        find_char(s, c, i) == Some(j),
        0 <= i,
    ensures
        i <= j < s.len(),
        s[j] == c,
        count_from(s, c, i) == 1 + count_from(s, c, j + 1),
    decreases s.len() - i,
{
    if i < s.len() {
        if s[i] == c {
        } else {
            lemma_count_after_find(s, c, i + 1, j);
        }
    }
}

/// Wherever some occurrence of `c` remains, one can be found.
proof fn lemma_count_pos_finds(s: Seq<char>, c: char, i: int)
    requires
        0 <= i,
        count_from(s, c, i) > 0,
    ensures
        find_char(s, c, i) is Some,
    decreases s.len() - i,
{
    if i < s.len() && s[i] != c {
        lemma_count_pos_finds(s, c, i + 1);
    }
}

/// The text with all whitespace removed.
pub fn strip_ws_exec(s: &Vec<char>) -> (r: Vec<char>)
    ensures
        r@ == strip_ws(s@),
{
    let mut r: Vec<char> = Vec::new();
    let mut i: usize = 0;
    while i < s.len()
        invariant
            i <= s.len(),
            r@ == strip_ws(s@.take(i as int)),
        decreases s.len() - i,
    {
        proof {
            assert(s@.take(i + 1).drop_last() =~= s@.take(i as int));
            assert(s@.take(i + 1).last() == s@[i as int]);
        }
        let c = s[i];
        if !(c == ' ' || c == '\t' || c == '\r' || c == '\n') {
            r.push(c);
        }
        i = i + 1;
    }
    proof {
        assert(s@.take(s@.len() as int) =~= s@);
    }
    r
}

/// The text with the blank alias substituted, scanning left to right.
pub fn subst_blank_exec(s: &Vec<char>) -> (r: Vec<char>)
    ensures
        r@ == subst_blank(s@),
{
    let mut r: Vec<char> = Vec::new();
    let mut i: usize = 0;
    proof {
        assert(s@.skip(0) =~= s@);
        assert(r@ + subst_blank(s@) =~= subst_blank(s@));
    }
    while i < s.len()
        invariant
            i <= s.len(),
            subst_blank(s@) == r@ + subst_blank(s@.skip(i as int)),
        decreases s.len() - i,
    {
        let ghost rest = s@.skip(i as int);
        let is_alias = s.len() - i >= 5 && s[i] == 'b' && s[i + 1] == 'l' && s[i + 2] == 'a' && s[i
            + 3] == 'n' && s[i + 4] == 'k';
        if is_alias {
            proof {
                assert(rest.take(5) =~= blank_word());
                assert(rest.skip(5) =~= s@.skip(i + 5));
                assert(subst_blank(rest) == seq![BLANK_CHAR] + subst_blank(s@.skip(i + 5)));
            }
            let ghost before = r@;
            r.push(BLANK_CHAR);
            proof {
                assert(before + subst_blank(rest) =~= r@ + subst_blank(s@.skip(i + 5)));
            }
            i = i + 5;
        } else {
            proof {
                if rest.len() >= 5 && rest.take(5) == blank_word() {
                    assert(s@[i as int] == rest.take(5)[0]);
                    assert(s@[i + 1] == rest.take(5)[1]);
                    assert(s@[i + 2] == rest.take(5)[2]);
                    assert(s@[i + 3] == rest.take(5)[3]);
                    assert(s@[i + 4] == rest.take(5)[4]);
                    assert(false);
                }
                assert(rest.skip(1) =~= s@.skip(i + 1));
                assert(rest[0] == s@[i as int]);
                assert(subst_blank(rest) == seq![s@[i as int]] + subst_blank(s@.skip(i + 1)));
            }
            let ghost before = r@;
            r.push(s[i]);
            proof {
                assert(before + subst_blank(rest) =~= r@ + subst_blank(s@.skip(i + 1)));
            }
            i = i + 1;
        }
    }
    proof {
        assert(s@.skip(s@.len() as int) =~= Seq::<char>::empty());
        assert(r@ + subst_blank(s@.skip(s@.len() as int)) =~= r@);
    }
    r
}

/// The copy of `s` between the positions `from` (inclusive) and `to`
/// (exclusive).
fn slice_range(s: &Vec<char>, from: usize, to: usize) -> (r: Vec<char>)
    requires
        from <= to <= s@.len(),
    ensures
        r@ == s@.subrange(from as int, to as int),
{
    let mut r: Vec<char> = Vec::new();
    let mut i: usize = from;
    while i < to
        invariant
            from <= i <= to <= s@.len(),
            r@ =~= s@.subrange(from as int, i as int),
        decreases to - i,
    {
        r.push(s[i]);
        i = i + 1;
    }
    proof {
        assert(r@ =~= s@.subrange(from as int, to as int));
    }
    r
}

/// The first position at or after `from` where the separator `)=(` occurs.
fn find_sep_exec(s: &Vec<char>) -> (r: Option<usize>)
    ensures
        match r {
            Some(m) => find_sep(s@, 0) == Some(m as int) && m + 3 <= s@.len(),
            None => find_sep(s@, 0) is None,
        },
{
    let mut i: usize = 0;
    while s.len() - i >= 3
        invariant
            i <= s.len(),
            find_sep(s@, 0) == find_sep(s@, i as int),
        decreases s.len() - i,
    {
        if s[i] == ')' && s[i + 1] == '=' && s[i + 2] == '(' {
            return Some(i);
        }
        i = i + 1;
    }
    None
}

/// The first position at or after `from` holding `c`.
fn find_char_exec(s: &Vec<char>, c: char, from: usize) -> (r: Option<usize>)
    ensures
        match r {
            Some(i) => find_char(s@, c, from as int) == Some(i as int),
            None => find_char(s@, c, from as int) is None,
        },
{
    let mut i: usize = from;
    while i < s.len()
        invariant
            from <= i,
            find_char(s@, c, from as int) == find_char(s@, c, i as int),
        decreases s.len() - i,
    {
        if s[i] == c {
            return Some(i);
        }
        i = i + 1;
    }
    None
}

/// How many positions of `s` hold `c`.
fn count_char_exec(s: &Vec<char>, c: char) -> (r: usize)
    ensures
        r as nat == count_from(s@, c, 0),
{
    let mut count: usize = 0;
    let mut i: usize = 0;
    while i < s.len()
        invariant
            i <= s@.len(),
            count <= i,
            count as nat + count_from(s@, c, i as int) == count_from(s@, c, 0),
        decreases s.len() - i,
    {
        if s[i] == c {
            count = count + 1;
        }
        i = i + 1;
    }
    count
}

/// Whether no position of `s` holds a structural character.
fn inner_ok_exec(s: &Vec<char>) -> (r: bool)
    ensures
        r == inner_ok(s@),
{
    let mut i: usize = 0;
    while i < s.len()
        invariant
            i <= s@.len(),
            forall|k: int| 0 <= k < i ==> #[trigger] s@[k] != '(' && s@[k] != ')' && s@[k] != '=',
        decreases s.len() - i,
    {
        let c = s[i];
        if c == '(' || c == ')' || c == '=' {
            return false;
        }
        i = i + 1;
    }
    true
}

/// Splits the strict shape `(A,B)=(C,D,E)` into its five raw fields.
fn split_fields_exec(s: &Vec<char>) -> (r: Option<RawEntry>)
    ensures
        match r {
            Some(e) => split_fields(s@) == Some(e@),
            None => split_fields(s@) is None,
        },
{
    let n = s.len();
    if n < 2 {
        return None;
    }
    if s[0] != '(' {
        return None;
    }
    if s[n - 1] != ')' {
        return None;
    }
    let m = match find_sep_exec(s) {
        Some(m) => m,
        None => {
            return None;
        },
    };
    if m < 1 {
        return None;
    }
    if m + 3 > n - 1 {
        return None;
    }
    let lhs = slice_range(s, 1, m);
    let rhs = slice_range(s, m + 3, n - 1);
    if !inner_ok_exec(&lhs) {
        return None;
    }
    if !inner_ok_exec(&rhs) {
        return None;
    }
    if count_char_exec(&lhs, ',') != 1 {
        return None;
    }
    if count_char_exec(&rhs, ',') != 2 {
        return None;
    }
    let i1 = match find_char_exec(&lhs, ',', 0) {
        Some(i) => i,
        None => {
            proof {
                lemma_count_pos_finds(lhs@, ',', 0);
            }
            return None;
        },
    };
    let i2 = match find_char_exec(&rhs, ',', 0) {
        Some(i) => i,
        None => {
            proof {
                lemma_count_pos_finds(rhs@, ',', 0);
            }
            return None;
        },
    };
    proof {
        lemma_count_after_find(rhs@, ',', 0, i2 as int);
        lemma_count_pos_finds(rhs@, ',', i2 + 1);
    }
    let j2 = match find_char_exec(&rhs, ',', i2 + 1) {
        Some(i) => i,
        None => {
            return None;
        },
    };
    proof {
        lemma_count_after_find(lhs@, ',', 0, i1 as int);
        lemma_count_after_find(rhs@, ',', i2 + 1, j2 as int);
    }
    let entry = RawEntry {
        lhs_state: string_of_chars(&slice_range(&lhs, 0, i1)),
        lhs_symbol: string_of_chars(&slice_range(&lhs, i1 + 1, lhs.len())),
        rhs_state: string_of_chars(&slice_range(&rhs, 0, i2)),
        rhs_symbol: string_of_chars(&slice_range(&rhs, i2 + 1, j2)),
        direction: string_of_chars(&slice_range(&rhs, j2 + 1, rhs.len())),
    };
    Some(entry)
}

/// Relies on `regex::Regex::is_match` with the fixed transition pattern:
/// whether the loose shape `(…,…)=(…,…,L|R|l|r)` occurs somewhere in a text
/// is a function of that text alone.
pub uninterp spec fn loose_shape(s: Seq<char>) -> bool;

/// Relies on `regex::Regex::new` and `regex::Regex::is_match`: `new` builds
/// the fixed, valid pattern below, and `is_match` reports whether the text
/// holds a match for it anywhere.
#[verifier::external_body]
fn matches_loose_shape(text: &str) -> (r: bool)
    ensures
        r == loose_shape(text@),
{
    let pattern = regex::Regex::new(r"\(.*\,(.*)\)\=\(.*\,(.*)\,(L|R|l|r)\)").unwrap();
    pattern.is_match(text)
}

/// Parses one free-text transition, e.g. `(q1,a)=(q2,b,L)`.
///
/// Whitespace is removed; the pattern check screens the loose shape; the
/// blank alias is substituted; the strict shape is split into five fields;
/// and the fields are validated against the track width.
pub fn parse_transition_text(text: &str, tracks: usize) -> (r: Result<Transition, TextError>)
    ensures
        ({
            let cleaned = strip_ws(text@);
            let substituted = subst_blank(cleaned);
            match r {
                Ok(t) => loose_shape(cleaned) && (split_fields(substituted) matches Some(e)
                    && check_entry(e, tracks as nat) == Ok::<TransitionModel, EntryError>(t@)),
                Err(TextError::BadShape) => !loose_shape(cleaned) || split_fields(substituted)
                    is None,
                Err(TextError::Entry(err)) => loose_shape(cleaned) && (split_fields(substituted)
                    matches Some(e) && check_entry(e, tracks as nat) == Err::<
                    TransitionModel,
                    EntryError,
                >(err)),
            }
        }),
{
    let raw = chars_of(text);
    let cleaned = strip_ws_exec(&raw);
    let cleaned_text = string_of_chars(&cleaned);
    if !matches_loose_shape(cleaned_text.as_str()) {
        return Err(TextError::BadShape);
    }
    let substituted = subst_blank_exec(&cleaned);
    match split_fields_exec(&substituted) {
        None => Err(TextError::BadShape),
        Some(entry) => match validate_entry(&entry, tracks) {
            Ok(t) => Ok(t),
            Err(e) => Err(TextError::Entry(e)),
        },
    }
}

} // verus!
