//! Tape symbols for a multi-track machine.
//!
//! A symbol is the composite value occupying one tape cell: one character per
//! track, in track order.  The distinguished all-blank symbol (the blank
//! character repeated once per track) pads the tape on both sides and fills
//! cells the head grows into.

use vstd::prelude::*;
use vstd::string::StrSliceExecFns;

verus! {

/// The reserved blank character used for tape padding and unfilled cells.
pub const BLANK_CHAR: char = '\u{25A1}';

/// The all-blank symbol of the given width, as a character sequence.
pub open spec fn blank_seq(tracks: nat) -> Seq<char> {
    Seq::new(tracks, |i: int| BLANK_CHAR)
}

/// One tape cell: one character from each track, in track order.
#[derive(Debug)]
pub struct Symbol {
    pub chars: Vec<char>,
}

impl View for Symbol {
    type V = Seq<char>;

    open spec fn view(&self) -> Seq<char> {
        self.chars@
    }
}

impl DeepView for Symbol {
    type V = Seq<char>;

    open spec fn deep_view(&self) -> Seq<char> {
        self.view()
    }
}

impl Clone for Symbol {
    fn clone(&self) -> (r: Self)
        ensures
            r@ == self@,
    {
        Symbol { chars: copy_chars(&self.chars) }
    }
}

impl Symbol {
    /// Builds the symbol whose characters are those of `text`.
    pub fn new(text: &str) -> (s: Symbol)
        ensures
            s@ == text@,
    {
        Symbol { chars: chars_of(text) }
    }

    /// The all-blank symbol of width `tracks`.
    pub fn blank(tracks: usize) -> (s: Symbol)
        ensures
            s@ == blank_seq(tracks as nat),
    {
        let mut chars: Vec<char> = Vec::new();
        let mut i: usize = 0;
        while i < tracks
            invariant
                i <= tracks,
                chars@ =~= blank_seq(tracks as nat).take(i as int),
            decreases tracks - i,
        {
            chars.push(BLANK_CHAR);
            i = i + 1;
        }
        proof {
            assert(chars@ =~= blank_seq(tracks as nat));
        }
        Symbol { chars }
    }

    /// The number of tracks this symbol spans.
    pub fn width(&self) -> (n: usize)
        ensures
            n == self@.len(),
    {
        self.chars.len()
    }

    /// Whether this symbol has the same characters as `other`.
    pub fn same_as(&self, other: &Symbol) -> (r: bool)
        ensures
            r == (self@ == other@),
    {
        chars_equal(&self.chars, &other.chars)
    }

    /// The symbol's characters as a string.
    pub fn text(&self) -> (r: String)
        ensures
            r@ == self@,
    {
        string_of_chars(&self.chars)
    }
}

/// The characters of `text`, in order.
pub fn chars_of(text: &str) -> (r: Vec<char>)
    ensures
        r@ == text@,
{
    let n = text.unicode_len();
    let mut r: Vec<char> = Vec::new();
    let mut i: usize = 0;
    while i < n
        invariant
            i <= n,
            n == text@.len(),
            r@ =~= text@.take(i as int),
        decreases n - i,
    {
        r.push(text.get_char(i));
        i = i + 1;
    }
    proof {
        assert(r@ =~= text@);
    }
    r
}

/// Relies on `alloc::string::String::push`, which appends the given
/// character to the end of the string.
pub assume_specification[ String::push ](s: &mut String, ch: char)
    ensures
        final(s)@ == old(s)@.push(ch),
;

/// The string whose characters are those of `chars`, in order.
pub fn string_of_chars(chars: &Vec<char>) -> (r: String)
    ensures
        r@ == chars@,
{
    let mut r = String::new();
    let mut i: usize = 0;
    while i < chars.len()
        invariant
            i <= chars.len(),
            r@ =~= chars@.take(i as int),
        decreases chars.len() - i,
    {
        r.push(chars[i]);
        i = i + 1;
    }
    proof {
        assert(r@ =~= chars@);
    }
    r
}

/// A copy of `chars`.
fn copy_chars(chars: &Vec<char>) -> (r: Vec<char>)
    ensures
        r@ == chars@,
{
    let mut r: Vec<char> = Vec::new();
    let mut i: usize = 0;
    while i < chars.len()
        invariant
            i <= chars.len(),
            r@ =~= chars@.take(i as int),
        decreases chars.len() - i,
    {
        r.push(chars[i]);
        i = i + 1;
    }
    proof {
        assert(r@ =~= chars@);
    }
    r
}

/// Why per-track input strings cannot be composed.
#[derive(Clone, Copy, Debug, PartialEq, Eq, Structural)]
pub enum ComposeError {
    /// No track strings were given at all.
    NoTracks,
    /// The track strings do not all have the same length.
    LengthMismatch,
}

/// Whether all track strings have the same character length.
pub open spec fn equal_track_lengths(tracks_text: Seq<Seq<char>>) -> bool {
    forall|t: int| 0 <= t < tracks_text.len() ==> #[trigger] tracks_text[t].len()
        == tracks_text[0].len()
}

/// The symbol sequence that interleaves equal-length per-track strings:
/// symbol `p` holds character `p` of each track, in track order.
pub open spec fn compose_spec(tracks_text: Seq<Seq<char>>) -> Seq<Seq<char>> {
    Seq::new(tracks_text[0].len(), |p: int| Seq::new(tracks_text.len(), |t: int| tracks_text[t][p]))
}

/// The per-track strings a symbol sequence decomposes into: track `t` holds
/// character `t` of each symbol, in position order.
pub open spec fn decompose_spec(syms: Seq<Seq<char>>, tracks: nat) -> Seq<Seq<char>> {
    Seq::new(tracks, |t: int| Seq::new(syms.len(), |p: int| syms[p][t]))
}

/// Round trip: decomposing the composition of equal-length per-track
/// strings recovers the original strings exactly.
pub proof fn lemma_compose_decompose(tracks_text: Seq<Seq<char>>)
    requires
        tracks_text.len() >= 1,
        equal_track_lengths(tracks_text),
    ensures
        decompose_spec(compose_spec(tracks_text), tracks_text.len()) == tracks_text,
{
    let composed = compose_spec(tracks_text);
    let back = decompose_spec(composed, tracks_text.len());
    assert forall|t: int| 0 <= t < tracks_text.len() implies back[t] =~= tracks_text[t] by {
        assert(tracks_text[t].len() == tracks_text[0].len());
        assert forall|p: int| 0 <= p < back[t].len() implies back[t][p] == tracks_text[t][p] by {
            assert(composed[p][t] == tracks_text[t][p]);
        }
    }
    assert(back =~= tracks_text);
}

/// Interleaves the per-track strings into one symbol per character
/// position.  Equal track lengths are the caller's responsibility; see
/// [`compose_tracks`] for the checked entry point.
pub fn compose_symbols(tracks_text: &Vec<String>) -> (r: Vec<Symbol>)
    requires
        tracks_text@.len() >= 1,
        equal_track_lengths(tracks_text.deep_view()),
    ensures
        r.deep_view() == compose_spec(tracks_text.deep_view()),
{
    let ghost tt = tracks_text.deep_view();
    let len = tracks_text[0].as_str().unicode_len();
    let mut r: Vec<Symbol> = Vec::new();
    let mut p: usize = 0;
    while p < len
        invariant
            p <= len,
            len == tt[0].len(),
            tt == tracks_text.deep_view(),
            tracks_text@.len() >= 1,
            equal_track_lengths(tt),
            r.deep_view() =~= compose_spec(tt).take(p as int),
        decreases len - p,
    {
        let mut sym_chars: Vec<char> = Vec::new();
        let mut t: usize = 0;
        while t < tracks_text.len()
            invariant
                t <= tracks_text@.len(),
                p < len,
                len == tt[0].len(),
                tt == tracks_text.deep_view(),
                equal_track_lengths(tt),
                sym_chars@.len() == t,
                forall|q: int| 0 <= q < t ==> sym_chars@[q] == tt[q][p as int],
            decreases tracks_text.len() - t,
        {
            proof {
                assert(tt[t as int].len() == tt[0].len());
                assert(tt[t as int] == tracks_text@[t as int]@);
            }
            sym_chars.push(tracks_text[t].as_str().get_char(p));
            t = t + 1;
        }
        let ghost before = r.deep_view();
        proof {
            assert(sym_chars@ =~= compose_spec(tt)[p as int]);
        }
        r.push(Symbol { chars: sym_chars });
        proof {
            assert(r.deep_view() =~= before.push(compose_spec(tt)[p as int]));
            assert(compose_spec(tt).take(p + 1) =~= compose_spec(tt).take(p as int).push(
                compose_spec(tt)[p as int],
            ));
        }
        p = p + 1;
    }
    proof {
        assert(compose_spec(tt).take(tt[0].len() as int) =~= compose_spec(tt));
    }
    r
}

/// Interleaves per-track input strings into the symbol sequence for one
/// run, rejecting missing or unequal-length tracks before they can reach
/// the engine.
pub fn compose_tracks(tracks_text: &Vec<String>) -> (r: Result<Vec<Symbol>, ComposeError>)
    ensures
        match r {
            Ok(syms) => tracks_text@.len() >= 1 && equal_track_lengths(tracks_text.deep_view())
                && syms.deep_view() == compose_spec(tracks_text.deep_view()),
            Err(e) => match e {
                ComposeError::NoTracks => tracks_text@.len() == 0,
                ComposeError::LengthMismatch => tracks_text@.len() >= 1 && !equal_track_lengths(
                    tracks_text.deep_view(),
                ),
            },
        },
{
    let ghost tt = tracks_text.deep_view();
    if tracks_text.len() == 0 {
        return Err(ComposeError::NoTracks);
    }
    let len = tracks_text[0].as_str().unicode_len();
    let mut t: usize = 1;
    while t < tracks_text.len()
        invariant
            1 <= t <= tracks_text@.len(),
            tt == tracks_text.deep_view(),
            len == tt[0].len(),
            forall|q: int| 0 <= q < t ==> #[trigger] tt[q].len() == tt[0].len(),
        decreases tracks_text.len() - t,
    {
        proof {
            assert(tt[t as int] == tracks_text@[t as int]@);
        }
        if tracks_text[t].as_str().unicode_len() != len {
            proof {
                assert(!equal_track_lengths(tt));
            }
            return Err(ComposeError::LengthMismatch);
        }
        t = t + 1;
    }
    Ok(compose_symbols(tracks_text))
}

/// Splits a symbol sequence of uniform width back into its per-track
/// strings.
pub fn decompose_symbols(symbols: &Vec<Symbol>, tracks: usize) -> (r: Vec<String>)
    requires
        forall|p: int| 0 <= p < symbols@.len() ==> (#[trigger] symbols@[p])@.len() == tracks,
    ensures
        r.deep_view() == decompose_spec(symbols.deep_view(), tracks as nat),
{
    let ghost sv = symbols.deep_view();
    let mut r: Vec<String> = Vec::new();
    let mut t: usize = 0;
    while t < tracks
        invariant
            t <= tracks,
            sv == symbols.deep_view(),
            forall|p: int| 0 <= p < symbols@.len() ==> (#[trigger] symbols@[p])@.len() == tracks,
            r.deep_view() =~= decompose_spec(sv, tracks as nat).take(t as int),
        decreases tracks - t,
    {
        let mut track: String = String::new();
        let mut p: usize = 0;
        while p < symbols.len()
            invariant
                p <= symbols@.len(),
                t < tracks,
                sv == symbols.deep_view(),
                forall|q: int| 0 <= q < symbols@.len() ==> (#[trigger] symbols@[q])@.len()
                    == tracks,
                track@.len() == p,
                forall|q: int| 0 <= q < p ==> track@[q] == sv[q][t as int],
            decreases symbols.len() - p,
        {
            proof {
                assert(sv[p as int] == symbols@[p as int]@);
            }
            track.push(symbols[p].chars[t]);
            p = p + 1;
        }
        let ghost before = r.deep_view();
        proof {
            assert(track@ =~= decompose_spec(sv, tracks as nat)[t as int]);
        }
        r.push(track);
        proof {
            assert(r.deep_view() =~= before.push(decompose_spec(sv, tracks as nat)[t as int]));
            assert(decompose_spec(sv, tracks as nat).take(t + 1) =~= decompose_spec(
                sv,
                tracks as nat,
            ).take(t as int).push(decompose_spec(sv, tracks as nat)[t as int]));
        }
        t = t + 1;
    }
    proof {
        assert(decompose_spec(sv, tracks as nat).take(tracks as int) =~= decompose_spec(
            sv,
            tracks as nat,
        ));
    }
    r
}

/// Whether `a` and `b` hold the same characters.
pub fn chars_equal(a: &Vec<char>, b: &Vec<char>) -> (r: bool)
    ensures
        r == (a@ == b@),
{
    if a.len() != b.len() {
        return false;
    }
    let mut i: usize = 0;
    while i < a.len()
        invariant
            i <= a.len(),
            a@.len() == b@.len(),
            forall|j: int| 0 <= j < i ==> a@[j] == b@[j],
        decreases a.len() - i,
    {
        if a[i] != b[i] {
            return false;
        }
        i = i + 1;
    }
    proof {
        assert(a@ =~= b@);
    }
    true
}

} // verus!
