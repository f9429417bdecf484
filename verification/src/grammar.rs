//! The PGN grammar, stated as specification functions over character
//! sequences.
//!
//! Each `spec_*` function reads the text `s` from position `i` and either
//! fails or returns the recognized value together with the position just
//! after it.  Ordered choice is written out as nested alternatives, in
//! the order the grammar fixes: castling before pawn captures before pawn
//! moves before piece moves, and a two-character square disambiguator
//! before the one-character column and row forms.  These functions are
//! the single reference against which the executable recognizer is
//! proved.

use vstd::prelude::*;

use crate::meta::kv_map;
use crate::model::Expected;
use crate::model::GameView;
use crate::model::MoveView;
use crate::model::TurnView;
use crate::model::default_move_view;
use crate::normalize::is_space_char;

verus! {

/// A file letter, `'a'` through `'h'`.
pub open spec fn is_col_char(c: char) -> bool {
    'a' as u32 <= c as u32 && c as u32 <= 'h' as u32
}

/// A rank digit, `'1'` through `'8'`.
pub open spec fn is_row_char(c: char) -> bool {
    '1' as u32 <= c as u32 && c as u32 <= '8' as u32
}

/// A decimal digit.
pub open spec fn is_digit_char(c: char) -> bool {
    '0' as u32 <= c as u32 && c as u32 <= '9' as u32
}

/// A piece letter: king, queen, rook, bishop or knight.
pub open spec fn is_piece_char(c: char) -> bool {
    c == 'K' || c == 'Q' || c == 'R' || c == 'B' || c == 'N'
}

/// A piece a pawn may promote to: the king is excluded.
pub open spec fn is_promo_piece_char(c: char) -> bool {
    c == 'Q' || c == 'R' || c == 'B' || c == 'N'
}

/// An annotation symbol: check, mate, or a quality mark.
pub open spec fn is_anno_char(c: char) -> bool {
    c == '+' || c == '#' || c == '!' || c == '?'
}

/// An ASCII letter or digit, as allowed in a metadata key.
pub open spec fn is_alnum_char(c: char) -> bool {
    is_digit_char(c) || ('a' as u32 <= c as u32 && c as u32 <= 'z' as u32) || ('A' as u32 <= c
        as u32 && c as u32 <= 'Z' as u32)
}

/// The numeric value of a digit character.
pub open spec fn digit_val(c: char) -> int {
    c as u32 - '0' as u32
}

/// The first position at or after `i` that does not hold whitespace.
pub open spec fn spec_skip(s: Seq<char>, i: int) -> int
    decreases s.len() - i,
{
    if i < s.len() && is_space_char(s[i]) {
        spec_skip(s, i + 1)
    } else {
        i
    }
}

/// The first position at or after `i` that does not hold a digit.
pub open spec fn spec_digits_end(s: Seq<char>, i: int) -> int
    decreases s.len() - i,
{
    if i < s.len() && is_digit_char(s[i]) {
        spec_digits_end(s, i + 1)
    } else {
        i
    }
}

/// The value of the digit run `s[i..j]`, read in base ten.
pub open spec fn spec_digits_val(s: Seq<char>, i: int, j: int) -> int
    decreases j - i,
{
    if i < j {
        spec_digits_val(s, i, j - 1) * 10 + digit_val(s[j - 1])
    } else {
        0
    }
}

/// A turn number: one or more digits followed by a dot.  A value beyond
/// `usize::MAX` cannot be represented and is rejected.
pub open spec fn spec_turn_number(s: Seq<char>, i: int) -> Option<(int, int)> {
    let e = spec_digits_end(s, i);
    if e > i && e < s.len() && s[e] == '.' && spec_digits_val(s, i, e) <= usize::MAX as int {
        Some((spec_digits_val(s, i, e), e + 1))
    } else {
        None
    }
}

/// A destination square: a column letter then a row digit.
pub open spec fn spec_square(s: Seq<char>, i: int) -> Option<((char, int), int)> {
    if i + 2 <= s.len() && is_col_char(s[i]) && is_row_char(s[i + 1]) {
        Some(((s[i], digit_val(s[i + 1])), i + 2))
    } else {
        None
    }
}

/// A promotion suffix: `'='` then a promotion piece letter.
pub open spec fn spec_promo(s: Seq<char>, i: int) -> Option<(char, int)> {
    if i + 2 <= s.len() && s[i] == '=' && is_promo_piece_char(s[i + 1]) {
        Some((s[i + 1], i + 2))
    } else {
        None
    }
}

/// An optional promotion suffix; `' '` stands for none.
pub open spec fn spec_opt_promo(s: Seq<char>, i: int) -> (char, int) {
    match spec_promo(s, i) {
        Some((p, j)) => (p, j),
        None => (' ', i),
    }
}

/// A castling token, the queen-side form tried first.
pub open spec fn spec_castling(s: Seq<char>, i: int) -> Option<int> {
    if i + 5 <= s.len() && s[i] == 'O' && s[i + 1] == '-' && s[i + 2] == 'O' && s[i + 3] == '-'
        && s[i + 4] == 'O' {
        Some(i + 5)
    } else if i + 3 <= s.len() && s[i] == 'O' && s[i + 1] == '-' && s[i + 2] == 'O' {
        Some(i + 3)
    } else {
        None
    }
}

/// The annotation suffix: up to two characters from the closed symbol
/// set, taken greedily.  It always succeeds, possibly empty.
pub open spec fn spec_annotation(s: Seq<char>, i: int) -> (Seq<char>, int) {
    if i < s.len() && is_anno_char(s[i]) {
        if i + 1 < s.len() && is_anno_char(s[i + 1]) {
            (seq![s[i], s[i + 1]], i + 2)
        } else {
            (seq![s[i]], i + 1)
        }
    } else {
        (Seq::empty(), i)
    }
}

/// An optional capture marker then a destination square.
pub open spec fn spec_x_square(s: Seq<char>, i: int) -> Option<((bool, char, int), int)> {
    let (cap, j) = if i < s.len() && s[i] == 'x' {
        (true, i + 1)
    } else {
        (false, i)
    };
    match spec_square(s, j) {
        Some(((c, r), j2)) => Some(((cap, c, r), j2)),
        None => None,
    }
}

/// What follows a piece letter: an optional disambiguator, an optional
/// capture marker, and the destination square.  The alternatives are
/// tried in order: square disambiguator, column, row, none.
pub open spec fn spec_piece_tail(s: Seq<char>, i: int) -> Option<((Seq<char>, bool, char, int),
    int)> {
    let alt1 = match spec_square(s, i) {
        Some((_, j1)) => match spec_x_square(s, j1) {
            Some(((cap, c, r), j2)) => Some(((s.subrange(i, i + 2), cap, c, r), j2)),
            None => None,
        },
        None => None,
    };
    if alt1 is Some {
        alt1
    } else {
        let alt2 = if i < s.len() && is_col_char(s[i]) {
            match spec_x_square(s, i + 1) {
                Some(((cap, c, r), j2)) => Some(((seq![s[i]], cap, c, r), j2)),
                None => None,
            }
        } else {
            None
        };
        if alt2 is Some {
            alt2
        } else {
            let alt3 = if i < s.len() && is_row_char(s[i]) {
                match spec_x_square(s, i + 1) {
                    Some(((cap, c, r), j2)) => Some(((seq![s[i]], cap, c, r), j2)),
                    None => None,
                }
            } else {
                None
            };
            if alt3 is Some {
                alt3
            } else {
                match spec_x_square(s, i) {
                    Some(((cap, c, r), j)) => Some(((Seq::empty(), cap, c, r), j)),
                    None => None,
                }
            }
        }
    }
}

/// A pawn capture: its own column, `'x'`, the destination square, and an
/// optional promotion.  The leading column is kept as the disambiguator.
pub open spec fn spec_pawn_capture(s: Seq<char>, i: int) -> Option<(MoveView, int)> {
    if i + 1 < s.len() && is_col_char(s[i]) && s[i + 1] == 'x' {
        match spec_square(s, i + 2) {
            Some(((c, r), j)) => {
                let (p, j2) = spec_opt_promo(s, j);
                Some(
                    (
                        MoveView {
                            capture: true,
                            disambig: seq![s[i]],
                            col: c,
                            row: r,
                            promotion: p,
                            ..default_move_view()
                        },
                        j2,
                    ),
                )
            },
            None => None,
        }
    } else {
        None
    }
}

/// A plain pawn move: the destination square and an optional promotion.
pub open spec fn spec_pawn_move(s: Seq<char>, i: int) -> Option<(MoveView, int)> {
    match spec_square(s, i) {
        Some(((c, r), j)) => {
            let (p, j2) = spec_opt_promo(s, j);
            Some((MoveView { col: c, row: r, promotion: p, ..default_move_view() }, j2))
        },
        None => None,
    }
}

/// A piece move: the piece letter and what follows it.
pub open spec fn spec_piece_move(s: Seq<char>, i: int) -> Option<(MoveView, int)> {
    if i < s.len() && is_piece_char(s[i]) {
        match spec_piece_tail(s, i + 1) {
            Some(((d, cap, c, r), j)) => Some(
                (
                    MoveView {
                        piece: s[i],
                        disambig: d,
                        capture: cap,
                        col: c,
                        row: r,
                        ..default_move_view()
                    },
                    j,
                ),
            ),
            None => None,
        }
    } else {
        None
    }
}

/// One half-move: a shape, tried in the fixed order, then the annotation
/// suffix.  `full` is the exact matched text, annotation included.
pub open spec fn spec_move(s: Seq<char>, i: int) -> Option<(MoveView, int)> {
    let shape = match spec_castling(s, i) {
        Some(j) => Some((MoveView { special: true, ..default_move_view() }, j)),
        None => match spec_pawn_capture(s, i) {
            Some(mj) => Some(mj),
            None => match spec_pawn_move(s, i) {
                Some(mj) => Some(mj),
                None => spec_piece_move(s, i),
            },
        },
    };
    match shape {
        Some((m, j)) => {
            let (anno, j2) = spec_annotation(s, j);
            Some((MoveView { annotation: anno, full: s.subrange(i, j2), ..m }, j2))
        },
        None => None,
    }
}

/// A full turn: a turn number and exactly two half-moves.
pub open spec fn spec_turn(s: Seq<char>, i: int) -> Option<(TurnView, int)> {
    match spec_turn_number(s, i) {
        Some((n, j)) => {
            let j1 = spec_skip(s, j);
            match spec_move(s, j1) {
                Some((w, j2)) => {
                    let j3 = spec_skip(s, j2);
                    match spec_move(s, j3) {
                        Some((b, j4)) => Some(
                            (TurnView { number: n, white: Some(w), black: Some(b) }, j4),
                        ),
                        None => None,
                    }
                },
                None => None,
            }
        },
        None => None,
    }
}

/// As many full turns as can be read, and the position after them (with
/// the whitespace before a failed attempt already skipped).
pub open spec fn spec_turns(s: Seq<char>, i: int) -> (Seq<TurnView>, int)
    decreases s.len() - i,
{
    let i1 = spec_skip(s, i);
    match spec_turn(s, i1) {
        Some((t, j)) => {
            if i <= i1 && i1 < j && j <= s.len() {
                let (rest, e) = spec_turns(s, j);
                (seq![t] + rest, e)
            } else {
                (Seq::empty(), i1)
            }
        },
        None => (Seq::empty(), i1),
    }
}

/// The first position at or after `i` that does not hold an ASCII
/// letter or digit.
pub open spec fn spec_alnum_end(s: Seq<char>, i: int) -> int
    decreases s.len() - i,
{
    if i < s.len() && is_alnum_char(s[i]) {
        spec_alnum_end(s, i + 1)
    } else {
        i
    }
}

/// The first position at or after `i` holding a double quote, or the end.
pub open spec fn spec_value_end(s: Seq<char>, i: int) -> int
    decreases s.len() - i,
{
    if i < s.len() && s[i] != '"' {
        spec_value_end(s, i + 1)
    } else {
        i
    }
}

/// One metadata tag: `[`, a key, a quoted value, `]`.
pub open spec fn spec_metadata(s: Seq<char>, i: int) -> Option<((Seq<char>, Seq<char>), int)> {
    if i < s.len() && s[i] == '[' {
        let k0 = spec_skip(s, i + 1);
        let ke = spec_alnum_end(s, k0);
        if ke > k0 {
            let v0 = spec_skip(s, ke);
            if v0 < s.len() && s[v0] == '"' {
                let ve = spec_value_end(s, v0 + 1);
                if ve < s.len() {
                    let c0 = spec_skip(s, ve + 1);
                    if c0 < s.len() && s[c0] == ']' {
                        Some(((s.subrange(k0, ke), s.subrange(v0 + 1, ve)), c0 + 1))
                    } else {
                        None
                    }
                } else {
                    None
                }
            } else {
                None
            }
        } else {
            None
        }
    } else {
        None
    }
}

/// As many metadata tags as can be read, in source order, and the
/// position after them.
pub open spec fn spec_metas(s: Seq<char>, i: int) -> (Seq<(Seq<char>, Seq<char>)>, int)
    decreases s.len() - i,
{
    let i1 = spec_skip(s, i);
    match spec_metadata(s, i1) {
        Some((p, j)) => {
            if i <= i1 && i1 < j && j <= s.len() {
                let (rest, e) = spec_metas(s, j);
                (seq![p] + rest, e)
            } else {
                (Seq::empty(), i1)
            }
        },
        None => (Seq::empty(), i1),
    }
}

/// A game-termination token, one of the three legal results.
pub open spec fn spec_result(s: Seq<char>, i: int) -> Option<(Seq<char>, int)> {
    if i + 3 <= s.len() && s[i] == '1' && s[i + 1] == '-' && s[i + 2] == '0' {
        Some((s.subrange(i, i + 3), i + 3))
    } else if i + 3 <= s.len() && s[i] == '0' && s[i + 1] == '-' && s[i + 2] == '1' {
        Some((s.subrange(i, i + 3), i + 3))
    } else if i + 7 <= s.len() && s[i] == '1' && s[i + 1] == '/' && s[i + 2] == '2' && s[i + 3]
        == '-' && s[i + 4] == '1' && s[i + 5] == '/' && s[i + 6] == '2' {
        Some((s.subrange(i, i + 7), i + 7))
    } else {
        None
    }
}

/// The closing term: an optional trailing half-turn, then the mandatory
/// result.  When the half-turn is read, the result must follow it; the
/// synthesized turn carries the half-move in its White slot and leaves
/// its Black slot absent.
pub open spec fn spec_closing(s: Seq<char>, i: int) -> Option<((Option<TurnView>, Seq<char>),
    int)> {
    match spec_turn_number(s, i) {
        Some((n, j)) => {
            let j1 = spec_skip(s, j);
            match spec_move(s, j1) {
                Some((w, j2)) => {
                    let j3 = spec_skip(s, j2);
                    match spec_result(s, j3) {
                        Some((res, j4)) => Some(
                            (
                                (
                                    Some(TurnView { number: n, white: Some(w), black: None }),
                                    res,
                                ),
                                j4,
                            ),
                        ),
                        None => None,
                    }
                },
                None => match spec_result(s, i) {
                    Some((res, j2)) => Some(((None, res), j2)),
                    None => None,
                },
            }
        },
        None => match spec_result(s, i) {
            Some((res, j)) => Some(((None, res), j)),
            None => None,
        },
    }
}

/// The whole game over an already-normalized text: metadata tags, full
/// turns, the closing term, and nothing after it but whitespace.
pub open spec fn spec_game(s: Seq<char>) -> Option<GameView> {
    let (pairs, i1) = spec_metas(s, 0);
    let (turns, i2) = spec_turns(s, i1);
    match spec_closing(s, i2) {
        Some(((half, res), j)) => {
            let e = spec_skip(s, j);
            if e == s.len() {
                Some(
                    GameView {
                        meta: kv_map(pairs),
                        turns: turns + (match half {
                            Some(t) => seq![t],
                            None => Seq::<TurnView>::empty(),
                        }),
                        result: res,
                    },
                )
            } else {
                None
            }
        },
        None => None,
    }
}

/// Which construct a failed closing term missed: when a trailing
/// half-turn was read the result after it, and otherwise a turn, a
/// half-move or a result.
pub open spec fn spec_closing_failure(s: Seq<char>, i: int) -> Expected {
    match spec_turn_number(s, i) {
        Some((n, j)) => {
            if spec_move(s, spec_skip(s, j)) is Some {
                Expected::GameResult
            } else {
                Expected::TurnOrResult
            }
        },
        None => Expected::TurnOrResult,
    }
}

/// The construct missed and the offset reported when a text fails to
/// parse: the end check after a recognized closing term, else the
/// closing term itself, at the position where the turns stopped.
pub open spec fn spec_failure(s: Seq<char>) -> (Expected, int) {
    let i1 = spec_metas(s, 0).1;
    let i2 = spec_turns(s, i1).1;
    match spec_closing(s, i2) {
        Some((v, j)) => (Expected::EndOfInput, spec_skip(s, j)),
        None => (spec_closing_failure(s, i2), i2),
    }
}

/// The start position of each full turn read from `i`: the position of
/// the digit run that carries the turn's number.
pub open spec fn spec_turn_starts(s: Seq<char>, i: int) -> Seq<int>
    decreases s.len() - i,
{
    let i1 = spec_skip(s, i);
    match spec_turn(s, i1) {
        Some((t, j)) => {
            if i <= i1 && i1 < j && j <= s.len() {
                seq![i1] + spec_turn_starts(s, j)
            } else {
                Seq::empty()
            }
        },
        None => Seq::empty(),
    }
}

/// The value of a run of digit characters is never negative.
pub proof fn lemma_digits_val_nonneg(s: Seq<char>, i: int, j: int)
    requires
        forall|k: int| i <= k < j ==> is_digit_char(s[k]),
    ensures
        spec_digits_val(s, i, j) >= 0,
    decreases j - i,
{
    if i < j {
        lemma_digits_val_nonneg(s, i, j - 1);
    }
}

/// Bounds of `spec_skip`: it stays inside the text and passes only
/// whitespace.
pub proof fn lemma_skip_bounds(s: Seq<char>, i: int)
    requires
        0 <= i <= s.len(),
    ensures
        i <= spec_skip(s, i) <= s.len(),
        forall|k: int| i <= k < spec_skip(s, i) ==> is_space_char(s[k]),
        spec_skip(s, i) < s.len() ==> !is_space_char(s[spec_skip(s, i)]),
    decreases s.len() - i,
{
    if i < s.len() && is_space_char(s[i]) {
        lemma_skip_bounds(s, i + 1);
    }
}

/// Bounds of `spec_digits_end`: it stays inside the text and passes
/// only digits.
pub proof fn lemma_digits_end_bounds(s: Seq<char>, i: int)
    requires
        0 <= i <= s.len(),
    ensures
        i <= spec_digits_end(s, i) <= s.len(),
        forall|k: int| i <= k < spec_digits_end(s, i) ==> is_digit_char(s[k]),
    decreases s.len() - i,
{
    if i < s.len() && is_digit_char(s[i]) {
        lemma_digits_end_bounds(s, i + 1);
    }
}

/// Bounds of `spec_alnum_end`.
pub proof fn lemma_alnum_end_bounds(s: Seq<char>, i: int)
    requires
        0 <= i <= s.len(),
    ensures
        i <= spec_alnum_end(s, i) <= s.len(),
    decreases s.len() - i,
{
    if i < s.len() && is_alnum_char(s[i]) {
        lemma_alnum_end_bounds(s, i + 1);
    }
}

/// Bounds of `spec_value_end`.
pub proof fn lemma_value_end_bounds(s: Seq<char>, i: int)
    requires
        0 <= i <= s.len(),
    ensures
        i <= spec_value_end(s, i) <= s.len(),
    decreases s.len() - i,
{
    if i < s.len() && s[i] != '"' {
        lemma_value_end_bounds(s, i + 1);
    }
}

/// A successful half-move consumes at least one character and stays
/// inside the text.
pub proof fn lemma_move_advances(s: Seq<char>, i: int)
    requires
        0 <= i <= s.len(),
        spec_move(s, i) is Some,
    ensures
        i < spec_move(s, i)->Some_0.1 <= s.len(),
{
}

/// A successful turn consumes at least one character and stays inside
/// the text.
pub proof fn lemma_turn_advances(s: Seq<char>, i: int)
    requires
        0 <= i <= s.len(),
        spec_turn(s, i) is Some,
    ensures
        i < spec_turn(s, i)->Some_0.1 <= s.len(),
{
    let (n, j) = spec_turn_number(s, i)->Some_0;
    lemma_digits_end_bounds(s, i);
    lemma_skip_bounds(s, j);
    let j1 = spec_skip(s, j);
    lemma_move_advances(s, j1);
    let j2 = spec_move(s, j1)->Some_0.1;
    lemma_skip_bounds(s, j2);
    let j3 = spec_skip(s, j2);
    lemma_move_advances(s, j3);
}

/// A successful metadata tag consumes at least one character and stays
/// inside the text.
pub proof fn lemma_metadata_advances(s: Seq<char>, i: int)
    requires
        0 <= i <= s.len(),
        spec_metadata(s, i) is Some,
    ensures
        i < spec_metadata(s, i)->Some_0.1 <= s.len(),
{
    lemma_skip_bounds(s, i + 1);
    let k0 = spec_skip(s, i + 1);
    lemma_alnum_end_bounds(s, k0);
    let ke = spec_alnum_end(s, k0);
    lemma_skip_bounds(s, ke);
    let v0 = spec_skip(s, ke);
    lemma_value_end_bounds(s, v0 + 1);
    let ve = spec_value_end(s, v0 + 1);
    lemma_skip_bounds(s, ve + 1);
}

} // verus!
