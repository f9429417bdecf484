//! Properties of the grammar that hold for every input, stated and
//! proved once and for all.

use vstd::prelude::*;

use crate::grammar::digit_val;
use crate::grammar::is_anno_char;
use crate::grammar::is_col_char;
use crate::grammar::is_piece_char;
use crate::grammar::is_promo_piece_char;
use crate::grammar::is_row_char;
use crate::grammar::spec_annotation;
use crate::grammar::spec_castling;
use crate::grammar::spec_closing;
use crate::grammar::spec_digits_end;
use crate::grammar::spec_digits_val;
use crate::grammar::spec_game;
use crate::grammar::spec_metadata;
use crate::grammar::spec_metas;
use crate::grammar::spec_move;
use crate::grammar::spec_opt_promo;
use crate::grammar::spec_pawn_capture;
use crate::grammar::spec_pawn_move;
use crate::grammar::spec_piece_move;
use crate::grammar::spec_promo;
use crate::grammar::spec_result;
use crate::grammar::spec_skip;
use crate::grammar::spec_square;
use crate::grammar::spec_turn;
use crate::grammar::spec_turn_number;
use crate::grammar::spec_turn_starts;
use crate::grammar::spec_turns;
use crate::grammar::lemma_digits_end_bounds;
use crate::grammar::lemma_digits_val_nonneg;
use crate::grammar::lemma_skip_bounds;
use crate::model::MoveView;
use crate::model::TurnView;
use crate::normalize::is_space_char;
use crate::normalize::norm_from;
use crate::normalize::normalize;

verus! {

/// Every field of a parsed half-move is a legal value: the piece is a
/// pawn or a piece letter, the promotion is absent or a legal promotion
/// target, the destination square is either wholly absent or wholly
/// present and on the board, and the annotation holds at most two
/// characters, all from the closed symbol set.
pub open spec fn wf_move(m: MoveView) -> bool {
    &&& (m.piece == 'p' || is_piece_char(m.piece))
    &&& (m.promotion == ' ' || is_promo_piece_char(m.promotion))
    &&& (m.col == '-' || is_col_char(m.col))
    &&& 0 <= m.row <= 8
    &&& (m.col == '-' <==> m.row == 0)
    &&& m.annotation.len() <= 2
    &&& (forall|k: int| 0 <= k < m.annotation.len() ==> is_anno_char(m.annotation[k]))
}

/// Every parsed full turn carries a non-negative number and both
/// half-move slots filled, each with a well-formed move.
pub open spec fn wf_turn(t: TurnView) -> bool {
    &&& t.number >= 0
    &&& t.white is Some
    &&& t.black is Some
    &&& wf_move(t.white->Some_0)
    &&& wf_move(t.black->Some_0)
}

/// The turn synthesized from a trailing half-move: a non-negative
/// number, a well-formed White half-move, and the Black slot absent.
pub open spec fn wf_closing_turn(t: TurnView) -> bool {
    &&& t.number >= 0
    &&& t.white is Some
    &&& t.black is None
    &&& wf_move(t.white->Some_0)
}

/// What holds of any turn of a parsed game, full or closing: a
/// non-negative number, a White half-move always present, and every
/// half-move that is present well-formed.
pub open spec fn parsed_turn_ok(t: TurnView) -> bool {
    &&& t.number >= 0
    &&& t.white is Some
    &&& wf_move(t.white->Some_0)
    &&& match t.black {
        Some(b) => wf_move(b),
        None => true,
    }
}

/// A successfully parsed half-move is well-formed; in particular its
/// annotation holds at most two characters from the closed symbol set.
pub proof fn lemma_move_wf(s: Seq<char>, i: int)
    requires
        spec_move(s, i) is Some,
    ensures
        wf_move(spec_move(s, i)->Some_0.0),
{
}

/// A successfully parsed turn number is non-negative.
pub proof fn lemma_turn_number_nonneg(s: Seq<char>, i: int)
    requires
        0 <= i <= s.len(),
        spec_turn_number(s, i) is Some,
    ensures
        spec_turn_number(s, i)->Some_0.0 >= 0,
{
    lemma_digits_end_bounds(s, i);
    lemma_digits_val_nonneg(s, i, spec_digits_end(s, i));
}

/// A successfully parsed full turn is well-formed.
pub proof fn lemma_turn_wf(s: Seq<char>, i: int)
    requires
        0 <= i <= s.len(),
        spec_turn(s, i) is Some,
    ensures
        wf_turn(spec_turn(s, i)->Some_0.0),
{
    lemma_turn_number_nonneg(s, i);
    let j = spec_turn_number(s, i)->Some_0.1;
    let j1 = spec_skip(s, j);
    lemma_move_wf(s, j1);
    let j2 = spec_move(s, j1)->Some_0.1;
    let j3 = spec_skip(s, j2);
    lemma_move_wf(s, j3);
}

/// Every turn in the sequence that `spec_turns` reads is well-formed.
pub proof fn lemma_turns_wf(s: Seq<char>, i: int)
    requires
        0 <= i <= s.len(),
    ensures
        forall|k: int|
            0 <= k < spec_turns(s, i).0.len() ==> wf_turn(#[trigger] spec_turns(s, i).0[k]),
    decreases s.len() - i,
{
    let i1 = spec_skip(s, i);
    lemma_skip_bounds(s, i);
    match spec_turn(s, i1) {
        Some((t, j)) => {
            if i <= i1 && i1 < j && j <= s.len() {
                lemma_turn_wf(s, i1);
                lemma_turns_wf(s, j);
                assert(forall|k: int|
                    1 <= k < spec_turns(s, i).0.len() ==> spec_turns(s, i).0[k]
                        == spec_turns(s, j).0[k - 1]);
            }
        },
        None => {},
    }
}

/// Every turn of a successfully parsed game is well-formed: its number
/// is non-negative, its White half-move is present, each present
/// half-move's fields are legal values — the annotation in particular
/// holds at most two characters from the closed symbol set — and the
/// full turns have both slots filled while a closing turn leaves its
/// Black slot absent.
pub proof fn lemma_game_turns_wf(s: Seq<char>)
    requires
        spec_game(s) is Some,
    ensures
        forall|k: int|
            0 <= k < spec_game(s)->Some_0.turns.len() ==> parsed_turn_ok(
                #[trigger] spec_game(s)->Some_0.turns[k],
            ),
        ({
            let full = spec_turns(s, spec_metas(s, 0).1).0;
            let cl = spec_closing(s, spec_turns(s, spec_metas(s, 0).1).1)->Some_0;
            &&& (forall|k: int| 0 <= k < full.len() ==> wf_turn(#[trigger] full[k]))
            &&& (cl.0.0 is Some ==> wf_closing_turn(cl.0.0->Some_0))
        }),
{
    let i1 = spec_metas(s, 0).1;
    let (ts, i2) = spec_turns(s, i1);
    lemma_metas_pos_bounds(s, 0);
    lemma_turns_pos_bounds(s, i1);
    lemma_turns_wf(s, i1);
    let cl = spec_closing(s, i2)->Some_0;
    match cl.0.0 {
        Some(half) => {
            assert(wf_closing_turn(half)) by {
                lemma_turn_number_nonneg(s, i2);
                let j = spec_turn_number(s, i2)->Some_0.1;
                let j1 = spec_skip(s, j);
                lemma_move_wf(s, j1);
            }
            assert(forall|k: int|
                0 <= k < ts.len() ==> spec_game(s)->Some_0.turns[k] == spec_turns(s, i1).0[k]);
            assert(spec_game(s)->Some_0.turns[ts.len() as int] == half);
        },
        None => {
            assert(forall|k: int|
                0 <= k < ts.len() ==> spec_game(s)->Some_0.turns[k] == spec_turns(s, i1).0[k]);
        },
    }
}

/// The position `spec_metas` returns lies inside the text.
pub proof fn lemma_metas_pos_bounds(s: Seq<char>, i: int)
    requires
        0 <= i <= s.len(),
    ensures
        i <= spec_metas(s, i).1 <= s.len(),
    decreases s.len() - i,
{
    let i1 = spec_skip(s, i);
    lemma_skip_bounds(s, i);
    match spec_metadata(s, i1) {
        Some((p, j)) => {
            if i <= i1 && i1 < j && j <= s.len() {
                lemma_metas_pos_bounds(s, j);
            }
        },
        None => {},
    }
}

/// The position `spec_turns` returns lies inside the text.
pub proof fn lemma_turns_pos_bounds(s: Seq<char>, i: int)
    requires
        0 <= i <= s.len(),
    ensures
        i <= spec_turns(s, i).1 <= s.len(),
    decreases s.len() - i,
{
    let i1 = spec_skip(s, i);
    lemma_skip_bounds(s, i);
    match spec_turn(s, i1) {
        Some((t, j)) => {
            if i <= i1 && i1 < j && j <= s.len() {
                lemma_turns_pos_bounds(s, j);
            }
        },
        None => {},
    }
}

/// Turn pairing: the turns of a parsed game are exactly the full turns
/// read by `spec_turns` — each of which consumed a turn number and two
/// half-moves — followed by the closing half-turn when the text has one.
/// So a text with N full turns yields N turns, or N + 1 when a single
/// trailing half-move precedes the result.
pub proof fn lemma_turn_pairing(s: Seq<char>)
    requires
        spec_game(s) is Some,
    ensures
        ({
            let g = spec_game(s)->Some_0;
            let full = spec_turns(s, spec_metas(s, 0).1).0;
            let cl = spec_closing(s, spec_turns(s, spec_metas(s, 0).1).1);
            &&& cl is Some
            &&& g.turns.len() == full.len() + (if cl->Some_0.0.0 is Some {
                1int
            } else {
                0int
            })
            &&& (forall|k: int| 0 <= k < full.len() ==> g.turns[k] == full[k])
            &&& (cl->Some_0.0.0 is Some ==> g.turns.last() == cl->Some_0.0.0->Some_0)
        }),
{
}

/// Each full turn read by `spec_turns` carries, as its number, the
/// value of the digit run written at that turn's own start position.
pub proof fn lemma_turns_numbers_verbatim(s: Seq<char>, i: int)
    requires
        0 <= i <= s.len(),
    ensures
        spec_turn_starts(s, i).len() == spec_turns(s, i).0.len(),
        forall|k: int|
            0 <= k < spec_turns(s, i).0.len() ==> 0 <= #[trigger] spec_turn_starts(s, i)[k]
                <= s.len() && spec_turns(s, i).0[k].number == spec_digits_val(
                s,
                spec_turn_starts(s, i)[k],
                spec_digits_end(s, spec_turn_starts(s, i)[k]),
            ),
    decreases s.len() - i,
{
    let i1 = spec_skip(s, i);
    lemma_skip_bounds(s, i);
    match spec_turn(s, i1) {
        Some((t, j)) => {
            if i <= i1 && i1 < j && j <= s.len() {
                lemma_turns_numbers_verbatim(s, j);
                assert(t.number == spec_digits_val(s, i1, spec_digits_end(s, i1)));
                assert(forall|k: int|
                    1 <= k < spec_turns(s, i).0.len() ==> #[trigger] spec_turns(s, i).0[k]
                        == spec_turns(s, j).0[k - 1] && spec_turn_starts(s, i)[k]
                        == spec_turn_starts(s, j)[k - 1]);
            }
        },
        None => {},
    }
}

/// Turn numbers are taken verbatim from the source: each turn of a
/// parsed game carries the value of the digit run written at that
/// turn's start — `spec_turn_starts` lists those positions — with no
/// renumbering and no validation against a counter.  The closing turn,
/// when present, likewise carries the digit run written where the
/// closing term begins.
pub proof fn lemma_turn_numbers_from_source(s: Seq<char>)
    requires
        spec_game(s) is Some,
    ensures
        ({
            let g = spec_game(s)->Some_0;
            let i1 = spec_metas(s, 0).1;
            let ps = spec_turn_starts(s, i1);
            let i2 = spec_turns(s, i1).1;
            let cl = spec_closing(s, i2)->Some_0;
            &&& g.turns.len() == ps.len() + (if cl.0.0 is Some {
                1int
            } else {
                0int
            })
            &&& (forall|k: int|
                0 <= k < ps.len() ==> #[trigger] g.turns[k].number == spec_digits_val(
                    s,
                    ps[k],
                    spec_digits_end(s, ps[k]),
                ))
            &&& (cl.0.0 is Some ==> g.turns.last().number == spec_digits_val(
                s,
                i2,
                spec_digits_end(s, i2),
            ))
        }),
{
    let i1 = spec_metas(s, 0).1;
    lemma_metas_pos_bounds(s, 0);
    lemma_turns_numbers_verbatim(s, i1);
    lemma_turn_pairing(s);
}

/// The mandatory result: a parsed game's result is one of the three
/// legal tokens, and it stands at the very end of the text, followed by
/// nothing but whitespace.
pub proof fn lemma_mandatory_result(s: Seq<char>)
    requires
        spec_game(s) is Some,
    ensures
        ({
            let g = spec_game(s)->Some_0;
            &&& (g.result == "1-0"@ || g.result == "0-1"@ || g.result == "1/2-1/2"@)
            &&& exists|j: int|
                #![trigger s.subrange(j - g.result.len(), j)]
                g.result.len() <= j <= s.len() && s.subrange(j - g.result.len(), j) == g.result
                    && (forall|k: int| j <= k < s.len() ==> is_space_char(s[k]))
        }),
{
    let g = spec_game(s)->Some_0;
    let i1 = spec_metas(s, 0).1;
    let i2 = spec_turns(s, i1).1;
    lemma_metas_pos_bounds(s, 0);
    lemma_turns_pos_bounds(s, i1);
    let cl = spec_closing(s, i2)->Some_0;
    let j = cl.1;
    reveal_strlit("1-0");
    reveal_strlit("0-1");
    reveal_strlit("1/2-1/2");
    let ri = choose|ri: int|
        0 <= ri <= s.len() && spec_result(s, ri) is Some && cl.0.1 == spec_result(
            s,
            ri,
        )->Some_0.0 && j == spec_result(s, ri)->Some_0.1;
    assert(exists|ri: int|
        0 <= ri <= s.len() && spec_result(s, ri) is Some && cl.0.1 == spec_result(
            s,
            ri,
        )->Some_0.0 && j == spec_result(s, ri)->Some_0.1) by {
        match spec_turn_number(s, i2) {
            Some((n, jn)) => {
                lemma_digits_end_bounds(s, i2);
                lemma_skip_bounds(s, jn);
                let j1 = spec_skip(s, jn);
                match spec_move(s, j1) {
                    Some((w, j2)) => {
                        crate::grammar::lemma_move_advances(s, j1);
                        lemma_skip_bounds(s, j2);
                        let j3 = spec_skip(s, j2);
                        assert(0 <= j3 <= s.len());
                    },
                    None => {
                        assert(0 <= i2 <= s.len());
                    },
                }
            },
            None => {
                assert(0 <= i2 <= s.len());
            },
        }
    }
    assert(spec_result(s, ri) is Some);
    assert(g.result =~= s.subrange(ri, j));
    if s[ri] == '1' && s[ri + 1] == '-' {
        assert(g.result =~= "1-0"@);
    } else if s[ri] == '0' {
        assert(g.result =~= "0-1"@);
    } else {
        assert(g.result =~= "1/2-1/2"@);
    }
    lemma_skip_bounds(s, j);
    assert(s.subrange(j - g.result.len(), j) == g.result);
}

/// Whitespace insensitivity: two texts with the same normalized form
/// parse to the same outcome — the grammar sees only the normalized
/// text.
pub proof fn lemma_whitespace_insensitivity(a: Seq<char>, b: Seq<char>)
    requires
        normalize(a) == normalize(b),
    ensures
        spec_game(normalize(a)) == spec_game(normalize(b)),
{
}

/// A text in normalized form: every whitespace character is a plain
/// space, none stands at either end, and no two stand in a row.
pub open spec fn canonical(s: Seq<char>) -> bool {
    &&& (forall|k: int| 0 <= k < s.len() && is_space_char(#[trigger] s[k]) ==> s[k] == ' ')
    &&& (s.len() > 0 ==> !is_space_char(s[0]))
    &&& (s.len() > 0 ==> !is_space_char(s[s.len() - 1]))
    &&& (forall|k: int|
        0 <= k < s.len() - 1 && is_space_char(#[trigger] s[k]) ==> !is_space_char(s[k + 1]))
}

/// What `norm_from` emits is in normalized form (with the first
/// character possibly a space only when a separator is pending).
proof fn lemma_norm_from_canonical(s: Seq<char>, i: int, st: bool, p: bool)
    requires
        p ==> st,
    ensures
        ({
            let o = norm_from(s, i, st, p);
            &&& (forall|k: int|
                0 <= k < o.len() && is_space_char(#[trigger] o[k]) ==> o[k] == ' ')
            &&& (o.len() > 0 ==> !is_space_char(o[o.len() - 1]))
            &&& (forall|k: int|
                0 <= k < o.len() - 1 && is_space_char(#[trigger] o[k]) ==> !is_space_char(
                    o[k + 1],
                ))
            &&& (!st && o.len() > 0 ==> !is_space_char(o[0]))
        }),
    decreases s.len() - i,
{
    if i < 0 || i >= s.len() {
    } else if is_space_char(s[i]) {
        lemma_norm_from_canonical(s, i + 1, st, st);
    } else {
        lemma_norm_from_canonical(s, i + 1, true, false);
        let rest = norm_from(s, i + 1, true, false);
        if p {
            let o = seq![' ', s[i]] + rest;
            assert(norm_from(s, i, st, p) == o);
            assert(forall|k: int| 2 <= k < o.len() ==> o[k] == rest[k - 2]);
            assert(o[1] == s[i]);
            assert forall|k: int|
                0 <= k < o.len() - 1 && is_space_char(#[trigger] o[k]) implies !is_space_char(
                o[k + 1],
            ) by {
                if k >= 2 {
                    assert(o[k] == rest[k - 2]);
                    if k - 2 < rest.len() - 1 {
                        assert(o[k + 1] == rest[k - 1]);
                    } else {
                        assert(!is_space_char(rest[rest.len() - 1]));
                    }
                }
            }
        } else {
            let o = seq![s[i]] + rest;
            assert(norm_from(s, i, st, p) == o);
            assert(forall|k: int| 1 <= k < o.len() ==> o[k] == rest[k - 1]);
            assert(o[0] == s[i]);
            assert forall|k: int|
                0 <= k < o.len() - 1 && is_space_char(#[trigger] o[k]) implies !is_space_char(
                o[k + 1],
            ) by {
                if k >= 1 {
                    assert(o[k] == rest[k - 1]);
                    if k - 1 < rest.len() - 1 {
                        assert(o[k + 1] == rest[k]);
                    } else {
                        assert(!is_space_char(rest[rest.len() - 1]));
                    }
                }
            }
        }
    }
}

/// The normalized form of any text is canonical.
pub proof fn lemma_normalize_canonical(s: Seq<char>)
    ensures
        canonical(normalize(s)),
{
    lemma_norm_from_canonical(s, 0, false, false);
}

/// From a position whose character is either a word character, or a
/// lone interior space with a word character after it, a canonical text
/// re-normalizes to itself.
proof fn lemma_norm_id_from(s: Seq<char>, i: int, st: bool)
    requires
        canonical(s),
        0 <= i <= s.len(),
        (i < s.len() && is_space_char(s[i])) ==> (st && i + 1 < s.len() && !is_space_char(
            s[i + 1],
        )),
    ensures
        norm_from(s, i, st, false) == s.subrange(i, s.len() as int),
    decreases s.len() - i,
{
    if i >= s.len() {
        assert(s.subrange(i, s.len() as int) =~= Seq::<char>::empty());
    } else if is_space_char(s[i]) {
        assert(s[i] == ' ');
        assert(norm_from(s, i, st, false) == norm_from(s, i + 1, st, st));
        assert(norm_from(s, i + 1, st, true) == seq![' ', s[i + 1]] + norm_from(
            s,
            i + 2,
            true,
            false,
        ));
        if i + 2 < s.len() && is_space_char(s[i + 2]) {
            assert(i + 2 < s.len() - 1);
            assert(!is_space_char(s[i + 3]));
        }
        lemma_norm_id_from(s, i + 2, true);
        assert(seq![' ', s[i + 1]] + s.subrange(i + 2, s.len() as int) =~= s.subrange(
            i,
            s.len() as int,
        ));
    } else {
        assert(norm_from(s, i, st, false) == seq![s[i]] + norm_from(s, i + 1, true, false));
        if i + 1 < s.len() && is_space_char(s[i + 1]) {
            assert(i + 1 < s.len() - 1);
            assert(!is_space_char(s[i + 2]));
        }
        lemma_norm_id_from(s, i + 1, true);
        assert(seq![s[i]] + s.subrange(i + 1, s.len() as int) =~= s.subrange(i, s.len() as int));
    }
}

/// A canonical text is a fixed point of normalization.
pub proof fn lemma_canonical_fixed(s: Seq<char>)
    requires
        canonical(s),
    ensures
        normalize(s) == s,
{
    lemma_norm_id_from(s, 0, false);
    assert(s.subrange(0, s.len() as int) =~= s);
}

/// Normalization is idempotent: collapsing whitespace a second time
/// changes nothing.
pub proof fn lemma_normalize_idempotent(s: Seq<char>)
    ensures
        normalize(normalize(s)) == normalize(s),
{
    lemma_normalize_canonical(s);
    lemma_canonical_fixed(normalize(s));
}

/// Round trip of a literal move: for any square, parsing
/// `1.<column><row> 1-0` yields a single turn whose White half-move has
/// exactly that destination square.
#[verifier::rlimit(60)]
pub proof fn lemma_square_round_trip(c: char, r: char)
    requires
        is_col_char(c),
        is_row_char(r),
    ensures
        ({
            let t = seq!['1', '.', c, r, ' ', '1', '-', '0'];
            &&& normalize(t) == t
            &&& spec_game(t) is Some
            &&& spec_game(t)->Some_0.turns.len() == 1
            &&& spec_game(t)->Some_0.turns[0].white is Some
            &&& spec_game(t)->Some_0.turns[0].white->Some_0.col == c
            &&& spec_game(t)->Some_0.turns[0].white->Some_0.row == digit_val(r)
            &&& spec_game(t)->Some_0.turns[0].white->Some_0.full == seq![c, r]
            &&& spec_game(t)->Some_0.result == seq!['1', '-', '0']
        }),
{
    let t = seq!['1', '.', c, r, ' ', '1', '-', '0'];
    assert(!crate::normalize::is_space_char(c));
    assert(!crate::normalize::is_space_char(r));

    // the text is its own normalized form
    assert(norm_from(t, 8, true, false) == Seq::<char>::empty());
    assert(norm_from(t, 7, true, false) =~= t.subrange(7, 8));
    assert(norm_from(t, 6, true, false) =~= t.subrange(6, 8));
    assert(norm_from(t, 5, true, true) =~= t.subrange(4, 8));
    assert(norm_from(t, 4, true, false) =~= t.subrange(4, 8));
    assert(norm_from(t, 3, true, false) =~= t.subrange(3, 8));
    assert(norm_from(t, 2, true, false) =~= t.subrange(2, 8));
    assert(norm_from(t, 1, true, false) =~= t.subrange(1, 8));
    assert(norm_from(t, 0, false, false) =~= t.subrange(0, 8));
    assert(t.subrange(0, 8) =~= t);

    // no metadata
    assert(spec_skip(t, 0) == 0);
    assert(spec_metadata(t, 0) is None);
    assert(spec_metas(t, 0) == (Seq::<(Seq<char>, Seq<char>)>::empty(), 0int));

    // the turn number
    assert(spec_digits_end(t, 1) == 1);
    assert(spec_digits_end(t, 0) == 1);
    assert(spec_digits_val(t, 0, 0) == 0);
    assert(spec_digits_val(t, 0, 1) == 1);
    assert(spec_turn_number(t, 0) == Some((1int, 2int)));

    // the white half-move
    assert(spec_skip(t, 2) == 2);
    assert(spec_castling(t, 2) is None);
    assert(spec_pawn_capture(t, 2) is None);
    assert(spec_square(t, 2) == Some(((c, digit_val(r)), 4int)));
    assert(spec_promo(t, 4) is None);
    assert(spec_opt_promo(t, 4) == (' ', 4int));
    assert(spec_pawn_move(t, 2) is Some);
    assert(spec_annotation(t, 4) == (Seq::<char>::empty(), 4int));
    assert(spec_move(t, 2) is Some);
    let w = spec_move(t, 2)->Some_0.0;
    assert(spec_move(t, 2)->Some_0.1 == 4);
    assert(w.col == c && w.row == digit_val(r));
    assert(w.full =~= seq![c, r]);

    // no second half-move, so no full turn
    assert(spec_skip(t, 5) == 5);
    assert(spec_skip(t, 4) == 5);
    assert(spec_castling(t, 5) is None);
    assert(spec_pawn_capture(t, 5) is None);
    assert(spec_square(t, 5) is None);
    assert(spec_pawn_move(t, 5) is None);
    assert(spec_piece_move(t, 5) is None);
    assert(spec_move(t, 5) is None);
    assert(spec_turn(t, 0) is None);
    assert(spec_turns(t, 0) == (Seq::<TurnView>::empty(), 0int));

    // the closing half-turn and the result
    assert(spec_result(t, 5) is Some);
    assert(spec_result(t, 5)->Some_0.1 == 8);
    assert(spec_closing(t, 0) is Some);
    let cl = spec_closing(t, 0)->Some_0;
    assert(cl.1 == 8);
    assert(spec_skip(t, 8) == 8);
    assert(spec_game(t) is Some);
    let g = spec_game(t)->Some_0;
    assert(g.turns =~= seq![cl.0.0->Some_0]);
    assert(g.turns[0].white == Some(w));
    assert(g.result =~= seq!['1', '-', '0']);
}

} // verus!
