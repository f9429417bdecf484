//! The executable recognizer: a recursive-descent parser over the
//! whitespace-normalized character sequence, proved to return exactly
//! what the grammar's specification functions describe.

use vstd::prelude::*;

use crate::grammar::is_alnum_char;
use crate::grammar::is_anno_char;
use crate::grammar::is_col_char;
use crate::grammar::is_digit_char;
use crate::grammar::is_piece_char;
use crate::grammar::is_promo_piece_char;
use crate::grammar::is_row_char;
use crate::grammar::digit_val;
use crate::grammar::lemma_digits_end_bounds;
use crate::grammar::lemma_digits_val_nonneg;
use crate::grammar::spec_alnum_end;
use crate::grammar::spec_annotation;
use crate::grammar::spec_castling;
use crate::grammar::spec_digits_end;
use crate::grammar::spec_digits_val;
use crate::grammar::lemma_alnum_end_bounds;
use crate::grammar::lemma_metadata_advances;
use crate::grammar::lemma_skip_bounds;
use crate::grammar::lemma_value_end_bounds;
use crate::grammar::lemma_turn_advances;
use crate::grammar::spec_closing;
use crate::grammar::spec_closing_failure;
use crate::grammar::spec_failure;
use crate::grammar::spec_game;
use crate::grammar::spec_metadata;
use crate::grammar::spec_metas;
use crate::grammar::spec_move;
use crate::grammar::spec_opt_promo;
use crate::grammar::spec_pawn_capture;
use crate::grammar::spec_pawn_move;
use crate::grammar::spec_piece_move;
use crate::grammar::spec_piece_tail;
use crate::grammar::spec_promo;
use crate::grammar::spec_skip;
use crate::grammar::spec_result;
use crate::grammar::spec_square;
use crate::grammar::spec_turn;
use crate::grammar::spec_turn_number;
use crate::grammar::spec_turns;
use crate::grammar::spec_value_end;
use crate::grammar::spec_x_square;
use crate::meta::Metadata;
use crate::meta::kv_map;
use crate::model::ChessGame;
use crate::model::ChessMove;
use crate::model::ChessTurn;
use crate::model::Expected;
use crate::model::SyntaxError;
use crate::model::TurnView;
use crate::normalize::is_space;
use crate::normalize::normalize;
use crate::normalize::normalize_chars;
use crate::text::chars_of_str;
use crate::text::push_char;
use crate::text::string_of_range;

verus! {

/// Decides `is_col_char`.
fn is_col(c: char) -> (b: bool)
    ensures
        b == is_col_char(c),
{
    'a' as u32 <= c as u32 && c as u32 <= 'h' as u32
}

/// Decides `is_row_char`.
fn is_row(c: char) -> (b: bool)
    ensures
        b == is_row_char(c),
{
    '1' as u32 <= c as u32 && c as u32 <= '8' as u32
}

/// Decides `is_digit_char`.
fn is_digit(c: char) -> (b: bool)
    ensures
        b == is_digit_char(c),
{
    '0' as u32 <= c as u32 && c as u32 <= '9' as u32
}

/// Decides `is_piece_char`.
fn is_piece(c: char) -> (b: bool)
    ensures
        b == is_piece_char(c),
{
    c == 'K' || c == 'Q' || c == 'R' || c == 'B' || c == 'N'
}

/// Decides `is_promo_piece_char`.
fn is_promo_piece(c: char) -> (b: bool)
    ensures
        b == is_promo_piece_char(c),
{
    c == 'Q' || c == 'R' || c == 'B' || c == 'N'
}

/// Decides `is_anno_char`.
fn is_anno(c: char) -> (b: bool)
    ensures
        b == is_anno_char(c),
{
    c == '+' || c == '#' || c == '!' || c == '?'
}

/// Decides `is_alnum_char`.
fn is_alnum(c: char) -> (b: bool)
    ensures
        b == is_alnum_char(c),
{
    is_digit(c) || ('a' as u32 <= c as u32 && c as u32 <= 'z' as u32) || ('A' as u32 <= c as u32
        && c as u32 <= 'Z' as u32)
}

/// The recognizer: the normalized text and the read position in it.
pub struct ChessParser {
    chars: Vec<char>,
    pos: usize,
}

impl ChessParser {
    /// The text being read.
    pub closed spec fn src(&self) -> Seq<char> {
        self.chars@
    }

    /// The current position.
    pub closed spec fn at(&self) -> int {
        self.pos as int
    }

    /// The position never leaves the text.
    pub closed spec fn wf(&self) -> bool {
        self.pos <= self.chars@.len()
    }

    /// Moves the position past any whitespace.
    fn skip_spaces(&mut self)
        requires
            old(self).wf(),
        ensures
            final(self).wf(),
            final(self).src() == old(self).src(),
            final(self).at() == spec_skip(old(self).src(), old(self).at()),
    {
        let ghost s = old(self).src();
        let ghost p0 = old(self).at();
        let n = self.chars.len();
        while self.pos < n && is_space(self.chars[self.pos])
            invariant
                self.wf(),
                self.src() == s,
                n == s.len(),
                spec_skip(s, p0) == spec_skip(s, self.at()),
            decreases n - self.pos,
        {
            proof {
                assert(spec_skip(s, self.at()) == spec_skip(s, self.at() + 1));
            }
            self.pos = self.pos + 1;
        }
    }

    /// Moves the position past any ASCII letters and digits.
    fn skip_alnum(&mut self)
        requires
            old(self).wf(),
        ensures
            final(self).wf(),
            final(self).src() == old(self).src(),
            final(self).at() == spec_alnum_end(old(self).src(), old(self).at()),
    {
        let ghost s = old(self).src();
        let ghost p0 = old(self).at();
        let n = self.chars.len();
        while self.pos < n && is_alnum(self.chars[self.pos])
            invariant
                self.wf(),
                self.src() == s,
                n == s.len(),
                spec_alnum_end(s, p0) == spec_alnum_end(s, self.at()),
            decreases n - self.pos,
        {
            proof {
                assert(spec_alnum_end(s, self.at()) == spec_alnum_end(s, self.at() + 1));
            }
            self.pos = self.pos + 1;
        }
    }

    /// Moves the position to the next double quote, or to the end.
    fn skip_value(&mut self)
        requires
            old(self).wf(),
        ensures
            final(self).wf(),
            final(self).src() == old(self).src(),
            final(self).at() == spec_value_end(old(self).src(), old(self).at()),
    {
        let ghost s = old(self).src();
        let ghost p0 = old(self).at();
        let n = self.chars.len();
        while self.pos < n && self.chars[self.pos] != '"'
            invariant
                self.wf(),
                self.src() == s,
                n == s.len(),
                spec_value_end(s, p0) == spec_value_end(s, self.at()),
            decreases n - self.pos,
        {
            proof {
                assert(spec_value_end(s, self.at()) == spec_value_end(s, self.at() + 1));
            }
            self.pos = self.pos + 1;
        }
    }

    /// Reads a turn number: digits then a dot.
    fn parse_turn_number(&mut self) -> (r: Option<usize>)
        requires
            old(self).wf(),
        ensures
            final(self).wf(),
            final(self).src() == old(self).src(),
            match spec_turn_number(old(self).src(), old(self).at()) {
                Some(v) => r is Some && r->Some_0 as int == v.0 && final(self).at() == v.1,
                None => r is None && final(self).at() == old(self).at(),
            },
    {
        let ghost s = old(self).src();
        let save = self.pos;
        let ghost p0 = save as int;
        let n = self.chars.len();
        let mut i: usize = save;
        let mut val: usize = 0;
        let mut overflow: bool = false;
        while i < n && is_digit(self.chars[i])
            invariant
                self.wf(),
                self.src() == s,
                self.pos == save,
                n == s.len(),
                p0 == save as int,
                save <= i <= n,
                spec_digits_end(s, p0) == spec_digits_end(s, i as int),
                forall|k: int| p0 <= k < i ==> is_digit_char(s[k]),
                !overflow ==> val as int == spec_digits_val(s, p0, i as int),
                overflow ==> spec_digits_val(s, p0, i as int) > usize::MAX as int,
            decreases n - i,
        {
            let c = self.chars[i];
            let d: usize = (c as u32 - '0' as u32) as usize;
            proof {
                assert(spec_digits_end(s, i as int) == spec_digits_end(s, i + 1 as int));
                let j: int = i as int + 1;
                assert(spec_digits_val(s, p0, j) == spec_digits_val(s, p0, j - 1) * 10
                    + digit_val(s[j - 1]));
            }
            if !overflow {
                match val.checked_mul(10) {
                    Some(v10) => match v10.checked_add(d) {
                        Some(v) => {
                            val = v;
                        },
                        None => {
                            overflow = true;
                        },
                    },
                    None => {
                        overflow = true;
                    },
                }
            } else {
                proof {
                    lemma_digits_val_nonneg(s, p0, i as int);
                }
            }
            i = i + 1;
        }
        if i == save {
            return None;
        }
        if i >= n || self.chars[i] != '.' {
            return None;
        }
        if overflow {
            return None;
        }
        self.pos = i + 1;
        Some(val)
    }

    /// Reads a destination square.
    fn parse_square(&mut self) -> (r: Option<(char, i8)>)
        requires
            old(self).wf(),
        ensures
            final(self).wf(),
            final(self).src() == old(self).src(),
            match spec_square(old(self).src(), old(self).at()) {
                Some(v) => r == Some((v.0.0, v.0.1 as i8)) && final(self).at() == v.1,
                None => r is None && final(self).at() == old(self).at(),
            },
    {
        if self.chars.len() - self.pos >= 2 {
            let c = self.chars[self.pos];
            let rch = self.chars[self.pos + 1];
            if is_col(c) && is_row(rch) {
                let rv: i8 = (rch as u32 - '0' as u32) as i8;
                self.pos = self.pos + 2;
                return Some((c, rv));
            }
        }
        None
    }

    /// Reads an optional promotion suffix; `' '` stands for none.
    fn parse_opt_promo(&mut self) -> (r: char)
        requires
            old(self).wf(),
        ensures
            final(self).wf(),
            final(self).src() == old(self).src(),
            r == spec_opt_promo(old(self).src(), old(self).at()).0,
            final(self).at() == spec_opt_promo(old(self).src(), old(self).at()).1,
    {
        if self.chars.len() - self.pos >= 2 && self.chars[self.pos] == '=' {
            let p = self.chars[self.pos + 1];
            if is_promo_piece(p) {
                self.pos = self.pos + 2;
                return p;
            }
        }
        ' '
    }

    /// Reads a castling token.
    fn parse_castling(&mut self) -> (r: bool)
        requires
            old(self).wf(),
        ensures
            final(self).wf(),
            final(self).src() == old(self).src(),
            match spec_castling(old(self).src(), old(self).at()) {
                Some(j) => r && final(self).at() == j,
                None => !r && final(self).at() == old(self).at(),
            },
    {
        let n = self.chars.len();
        let p = self.pos;
        if n - p >= 5 && self.chars[p] == 'O' && self.chars[p + 1] == '-' && self.chars[p + 2]
            == 'O' && self.chars[p + 3] == '-' && self.chars[p + 4] == 'O' {
            self.pos = p + 5;
            return true;
        }
        if n - p >= 3 && self.chars[p] == 'O' && self.chars[p + 1] == '-' && self.chars[p + 2]
            == 'O' {
            self.pos = p + 3;
            return true;
        }
        false
    }

    /// Reads the annotation suffix, possibly empty.
    fn parse_annotation(&mut self) -> (r: String)
        requires
            old(self).wf(),
        ensures
            final(self).wf(),
            final(self).src() == old(self).src(),
            r@ == spec_annotation(old(self).src(), old(self).at()).0,
            final(self).at() == spec_annotation(old(self).src(), old(self).at()).1,
    {
        let ghost s = old(self).src();
        let save = self.pos;
        let n = self.chars.len();
        if self.pos < n && is_anno(self.chars[self.pos]) {
            if self.pos + 1 < n && is_anno(self.chars[self.pos + 1]) {
                self.pos = self.pos + 2;
            } else {
                self.pos = self.pos + 1;
            }
        }
        let r = string_of_range(&self.chars, save, self.pos);
        proof {
            assert(r@ =~= spec_annotation(s, save as int).0);
        }
        r
    }

    /// Reads a pawn capture and fills a half-move from it.
    fn parse_pawn_capture(&mut self) -> (r: Option<ChessMove>)
        requires
            old(self).wf(),
        ensures
            final(self).wf(),
            final(self).src() == old(self).src(),
            match spec_pawn_capture(old(self).src(), old(self).at()) {
                Some(v) => r is Some && r->Some_0@ == v.0 && final(self).at() == v.1,
                None => r is None && final(self).at() == old(self).at(),
            },
    {
        let ghost s = old(self).src();
        let save = self.pos;
        if self.chars.len() - self.pos >= 2 {
            let dch = self.chars[self.pos];
            if is_col(dch) && self.chars[self.pos + 1] == 'x' {
                self.pos = self.pos + 2;
                match self.parse_square() {
                    Some((c, rv)) => {
                        let promo = self.parse_opt_promo();
                        let mut mv = ChessMove::default();
                        mv.capture = true;
                        push_char(&mut mv.disambig, dch);
                        mv.loc_col = c;
                        mv.loc_row = rv;
                        mv.promotion = promo;
                        proof {
                            assert(mv@.disambig =~= seq![s[save as int]]);
                            assert(mv@ == spec_pawn_capture(s, save as int)->Some_0.0);
                        }
                        return Some(mv);
                    },
                    None => {
                        self.pos = save;
                        return None;
                    },
                }
            }
        }
        None
    }

    /// Reads a plain pawn move and fills a half-move from it.
    fn parse_pawn_move(&mut self) -> (r: Option<ChessMove>)
        requires
            old(self).wf(),
        ensures
            final(self).wf(),
            final(self).src() == old(self).src(),
            match spec_pawn_move(old(self).src(), old(self).at()) {
                Some(v) => r is Some && r->Some_0@ == v.0 && final(self).at() == v.1,
                None => r is None && final(self).at() == old(self).at(),
            },
    {
        let ghost s = old(self).src();
        let ghost p0 = old(self).at();
        match self.parse_square() {
            Some((c, rv)) => {
                let promo = self.parse_opt_promo();
                let mut mv = ChessMove::default();
                mv.loc_col = c;
                mv.loc_row = rv;
                mv.promotion = promo;
                proof {
                    assert(mv@ == spec_pawn_move(s, p0)->Some_0.0);
                }
                Some(mv)
            },
            None => None,
        }
    }

    /// Reads what follows a piece letter: disambiguator, capture marker
    /// and destination, trying the grammar's alternatives in order.
    fn parse_piece_tail(&mut self) -> (r: Option<(String, bool, char, i8)>)
        requires
            old(self).wf(),
        ensures
            final(self).wf(),
            final(self).src() == old(self).src(),
            match spec_piece_tail(old(self).src(), old(self).at()) {
                Some(v) => r is Some && ({
                    let t = r->Some_0;
                    t.0@ == v.0.0 && t.1 == v.0.1 && t.2 == v.0.2 && t.3 as int == v.0.3
                        && final(self).at() == v.1
                }),
                None => r is None && final(self).at() == old(self).at(),
            },
    {
        let ghost s = old(self).src();
        let save = self.pos;
        if self.parse_square().is_some() {
            match self.parse_x_square() {
                Some((cap, c, rv)) => {
                    let d = string_of_range(&self.chars, save, save + 2);
                    proof {
                        assert(d@ == s.subrange(save as int, save as int + 2));
                    }
                    return Some((d, cap, c, rv));
                },
                None => {
                    self.pos = save;
                },
            }
        }
        if self.pos < self.chars.len() && is_col(self.chars[self.pos]) {
            let dch = self.chars[self.pos];
            self.pos = self.pos + 1;
            match self.parse_x_square() {
                Some((cap, c, rv)) => {
                    let mut d = String::new();
                    push_char(&mut d, dch);
                    proof {
                        assert(d@ =~= seq![s[save as int]]);
                    }
                    return Some((d, cap, c, rv));
                },
                None => {
                    self.pos = save;
                },
            }
        }
        if self.pos < self.chars.len() && is_row(self.chars[self.pos]) {
            let dch = self.chars[self.pos];
            self.pos = self.pos + 1;
            match self.parse_x_square() {
                Some((cap, c, rv)) => {
                    let mut d = String::new();
                    push_char(&mut d, dch);
                    proof {
                        assert(d@ =~= seq![s[save as int]]);
                    }
                    return Some((d, cap, c, rv));
                },
                None => {
                    self.pos = save;
                },
            }
        }
        match self.parse_x_square() {
            Some((cap, c, rv)) => {
                let d = String::new();
                proof {
                    assert(d@ =~= Seq::<char>::empty());
                }
                Some((d, cap, c, rv))
            },
            None => None,
        }
    }

    /// Reads a piece move and fills a half-move from it.
    fn parse_piece_move(&mut self) -> (r: Option<ChessMove>)
        requires
            old(self).wf(),
        ensures
            final(self).wf(),
            final(self).src() == old(self).src(),
            match spec_piece_move(old(self).src(), old(self).at()) {
                Some(v) => r is Some && r->Some_0@ == v.0 && final(self).at() == v.1,
                None => r is None && final(self).at() == old(self).at(),
            },
    {
        let ghost s = old(self).src();
        let save = self.pos;
        if self.pos < self.chars.len() {
            let pch = self.chars[self.pos];
            if is_piece(pch) {
                self.pos = self.pos + 1;
                match self.parse_piece_tail() {
                    Some((d, cap, c, rv)) => {
                        let mut mv = ChessMove::default();
                        mv.piece = pch;
                        mv.disambig = d;
                        mv.capture = cap;
                        mv.loc_col = c;
                        mv.loc_row = rv;
                        proof {
                            assert(mv@ == spec_piece_move(s, save as int)->Some_0.0);
                        }
                        return Some(mv);
                    },
                    None => {
                        self.pos = save;
                        return None;
                    },
                }
            }
        }
        None
    }

    /// Reads one half-move: a shape in the grammar's order, then the
    /// annotation suffix; the full matched text is kept verbatim.
    fn parse_move(&mut self) -> (r: Option<ChessMove>)
        requires
            old(self).wf(),
        ensures
            final(self).wf(),
            final(self).src() == old(self).src(),
            match spec_move(old(self).src(), old(self).at()) {
                Some(v) => r is Some && r->Some_0@ == v.0 && final(self).at() == v.1,
                None => r is None && final(self).at() == old(self).at(),
            },
    {
        let ghost s = old(self).src();
        let save = self.pos;
        let shape: Option<ChessMove> = if self.parse_castling() {
            let mut mv = ChessMove::default();
            mv.special = true;
            Some(mv)
        } else {
            match self.parse_pawn_capture() {
                Some(mv) => Some(mv),
                None => match self.parse_pawn_move() {
                    Some(mv) => Some(mv),
                    None => self.parse_piece_move(),
                },
            }
        };
        match shape {
            Some(mut mv) => {
                let anno = self.parse_annotation();
                mv.annotation = anno;
                mv.full_str = string_of_range(&self.chars, save, self.pos);
                proof {
                    assert(mv@ == spec_move(s, save as int)->Some_0.0);
                }
                Some(mv)
            },
            None => None,
        }
    }

    /// Reads one full turn: a turn number and exactly two half-moves.
    fn parse_turn(&mut self) -> (r: Option<ChessTurn>)
        requires
            old(self).wf(),
        ensures
            final(self).wf(),
            final(self).src() == old(self).src(),
            match spec_turn(old(self).src(), old(self).at()) {
                Some(v) => r is Some && r->Some_0@ == v.0 && final(self).at() == v.1,
                None => r is None && final(self).at() == old(self).at(),
            },
    {
        let ghost s = old(self).src();
        let save = self.pos;
        match self.parse_turn_number() {
            Some(n) => {
                self.skip_spaces();
                match self.parse_move() {
                    Some(w) => {
                        self.skip_spaces();
                        match self.parse_move() {
                            Some(b) => {
                                let t = ChessTurn {
                                    turn_number: n,
                                    white_move: Some(w),
                                    black_move: Some(b),
                                };
                                proof {
                                    assert(t@ == spec_turn(s, save as int)->Some_0.0);
                                }
                                Some(t)
                            },
                            None => {
                                self.pos = save;
                                None
                            },
                        }
                    },
                    None => {
                        self.pos = save;
                        None
                    },
                }
            },
            None => None,
        }
    }

    /// Reads as many full turns as the text offers, leaving the position
    /// just before whatever follows them.
    fn parse_turns(&mut self) -> (r: Vec<ChessTurn>)
        requires
            old(self).wf(),
        ensures
            final(self).wf(),
            final(self).src() == old(self).src(),
            r@.map_values(|t: ChessTurn| t@) == spec_turns(old(self).src(), old(self).at()).0,
            final(self).at() == spec_turns(old(self).src(), old(self).at()).1,
    {
        let ghost s = old(self).src();
        let ghost p0 = old(self).at();
        let mut out: Vec<ChessTurn> = Vec::new();
        let mut done: bool = false;
        while !done
            invariant
                self.wf(),
                self.src() == s,
                spec_turns(s, p0).0 == out@.map_values(|t: ChessTurn| t@) + (if done {
                    Seq::<TurnView>::empty()
                } else {
                    spec_turns(s, self.at()).0
                }),
                spec_turns(s, p0).1 == (if done {
                    self.at()
                } else {
                    spec_turns(s, self.at()).1
                }),
            decreases s.len() - self.at(), (if done { 0int } else { 1int }),
        {
            let ghost pin = self.at();
            let ghost m0 = out@.map_values(|t: ChessTurn| t@);
            self.skip_spaces();
            let ghost q = self.at();
            proof {
                lemma_skip_bounds(s, pin);
            }
            match self.parse_turn() {
                Some(t) => {
                    proof {
                        lemma_turn_advances(s, q);
                    }
                    let ghost tv = t@;
                    out.push(t);
                    proof {
                        let rest = spec_turns(s, self.at()).0;
                        assert(spec_turns(s, pin).0 == seq![tv] + rest);
                        assert(out@.map_values(|t: ChessTurn| t@) =~= m0.push(tv));
                        assert(m0 + (seq![tv] + rest) =~= m0.push(tv) + rest);
                    }
                },
                None => {
                    done = true;
                    proof {
                        assert(spec_turns(s, pin).0 == Seq::<TurnView>::empty());
                        assert(m0 + Seq::<TurnView>::empty() =~= m0);
                    }
                },
            }
        }
        out
    }

    /// Reads one metadata tag: a bracketed key and quoted value.
    fn parse_metadata(&mut self) -> (r: Option<(String, String)>)
        requires
            old(self).wf(),
        ensures
            final(self).wf(),
            final(self).src() == old(self).src(),
            match spec_metadata(old(self).src(), old(self).at()) {
                Some(v) => r is Some && r->Some_0.0@ == v.0.0 && r->Some_0.1@ == v.0.1
                    && final(self).at() == v.1,
                None => r is None && final(self).at() == old(self).at(),
            },
    {
        let ghost s = old(self).src();
        let save = self.pos;
        let n = self.chars.len();
        if self.pos < n && self.chars[self.pos] == '[' {
            self.pos = self.pos + 1;
            self.skip_spaces();
            let k0 = self.pos;
            self.skip_alnum();
            let ke = self.pos;
            proof {
                lemma_alnum_end_bounds(s, k0 as int);
            }
            if ke == k0 {
                self.pos = save;
                return None;
            }
            let key = string_of_range(&self.chars, k0, ke);
            self.skip_spaces();
            if self.pos < n && self.chars[self.pos] == '"' {
                self.pos = self.pos + 1;
                let v0 = self.pos;
                self.skip_value();
                let ve = self.pos;
                proof {
                    lemma_value_end_bounds(s, v0 as int);
                }
                if ve < n {
                    let value = string_of_range(&self.chars, v0, ve);
                    self.pos = self.pos + 1;
                    self.skip_spaces();
                    if self.pos < n && self.chars[self.pos] == ']' {
                        self.pos = self.pos + 1;
                        return Some((key, value));
                    }
                }
            }
            self.pos = save;
            return None;
        }
        None
    }

    /// Reads every metadata tag at the head of the text into a table.
    fn parse_metas(&mut self) -> (m: Metadata)
        requires
            old(self).wf(),
        ensures
            final(self).wf(),
            final(self).src() == old(self).src(),
            m.wf(),
            m@ == kv_map(spec_metas(old(self).src(), old(self).at()).0),
            final(self).at() == spec_metas(old(self).src(), old(self).at()).1,
    {
        let ghost s = old(self).src();
        let ghost p0 = old(self).at();
        let mut m = Metadata::new();
        let ghost mut gpairs: Seq<(Seq<char>, Seq<char>)> = Seq::empty();
        let mut done: bool = false;
        while !done
            invariant
                self.wf(),
                self.src() == s,
                m.wf(),
                m@ == kv_map(gpairs),
                spec_metas(s, p0).0 == gpairs + (if done {
                    Seq::<(Seq<char>, Seq<char>)>::empty()
                } else {
                    spec_metas(s, self.at()).0
                }),
                spec_metas(s, p0).1 == (if done {
                    self.at()
                } else {
                    spec_metas(s, self.at()).1
                }),
            decreases s.len() - self.at(), (if done { 0int } else { 1int }),
        {
            let ghost pin = self.at();
            self.skip_spaces();
            let ghost q = self.at();
            proof {
                lemma_skip_bounds(s, pin);
            }
            match self.parse_metadata() {
                Some((k, v)) => {
                    proof {
                        lemma_metadata_advances(s, q);
                    }
                    let ghost kv = (k@, v@);
                    m.insert(k, v);
                    proof {
                        let gp0 = gpairs;
                        gpairs = gpairs.push(kv);
                        assert(gpairs.drop_last() =~= gp0);
                        assert(gpairs.last() == kv);
                        assert(kv_map(gpairs) == kv_map(gp0).insert(kv.0, kv.1));
                        let rest = spec_metas(s, self.at()).0;
                        assert(spec_metas(s, pin).0 == seq![kv] + rest);
                        assert(gp0 + (seq![kv] + rest) =~= gp0.push(kv) + rest);
                    }
                },
                None => {
                    done = true;
                    proof {
                        assert(spec_metas(s, pin).0 == Seq::<(Seq<char>, Seq<char>)>::empty());
                        assert(gpairs + Seq::<(Seq<char>, Seq<char>)>::empty() =~= gpairs);
                    }
                },
            }
        }
        m
    }

    /// Reads a game-termination token.
    fn parse_result(&mut self) -> (r: Option<String>)
        requires
            old(self).wf(),
        ensures
            final(self).wf(),
            final(self).src() == old(self).src(),
            match spec_result(old(self).src(), old(self).at()) {
                Some(v) => r is Some && r->Some_0@ == v.0 && final(self).at() == v.1,
                None => r is None && final(self).at() == old(self).at(),
            },
    {
        let n = self.chars.len();
        let p = self.pos;
        if n - p >= 3 && self.chars[p] == '1' && self.chars[p + 1] == '-' && self.chars[p + 2]
            == '0' {
            let r = string_of_range(&self.chars, p, p + 3);
            self.pos = p + 3;
            return Some(r);
        }
        if n - p >= 3 && self.chars[p] == '0' && self.chars[p + 1] == '-' && self.chars[p + 2]
            == '1' {
            let r = string_of_range(&self.chars, p, p + 3);
            self.pos = p + 3;
            return Some(r);
        }
        if n - p >= 7 && self.chars[p] == '1' && self.chars[p + 1] == '/' && self.chars[p + 2]
            == '2' && self.chars[p + 3] == '-' && self.chars[p + 4] == '1' && self.chars[p + 5]
            == '/' && self.chars[p + 6] == '2' {
            let r = string_of_range(&self.chars, p, p + 7);
            self.pos = p + 7;
            return Some(r);
        }
        None
    }

    /// Reads the closing term: an optional trailing half-turn, then the
    /// mandatory result.  On failure it says which construct was missed.
    fn parse_closing(&mut self) -> (r: Result<(Option<ChessTurn>, String), Expected>)
        requires
            old(self).wf(),
        ensures
            final(self).wf(),
            final(self).src() == old(self).src(),
            match spec_closing(old(self).src(), old(self).at()) {
                Some(v) => {
                    &&& r is Ok
                    &&& final(self).at() == v.1
                    &&& match (r->Ok_0.0, v.0.0) {
                        (Some(t), Some(tv)) => t@ == tv,
                        (None, None) => true,
                        _ => false,
                    }
                    &&& r->Ok_0.1@ == v.0.1
                },
                None => r is Err && r->Err_0 == spec_closing_failure(
                    old(self).src(),
                    old(self).at(),
                ) && final(self).at() == old(self).at(),
            },
    {
        let ghost s = old(self).src();
        let save = self.pos;
        match self.parse_turn_number() {
            Some(n) => {
                self.skip_spaces();
                match self.parse_move() {
                    Some(w) => {
                        self.skip_spaces();
                        match self.parse_result() {
                            Some(res) => {
                                let t = ChessTurn {
                                    turn_number: n,
                                    white_move: Some(w),
                                    black_move: None,
                                };
                                proof {
                                    assert(t@ == spec_closing(s, save as int)->Some_0.0.0->Some_0);
                                }
                                Ok((Some(t), res))
                            },
                            None => {
                                self.pos = save;
                                Err(Expected::GameResult)
                            },
                        }
                    },
                    None => {
                        self.pos = save;
                        match self.parse_result() {
                            Some(res) => Ok((None, res)),
                            None => Err(Expected::TurnOrResult),
                        }
                    },
                }
            },
            None => {
                match self.parse_result() {
                    Some(res) => Ok((None, res)),
                    None => Err(Expected::TurnOrResult),
                }
            },
        }
    }

    /// Reads an optional capture marker and the destination square.
    fn parse_x_square(&mut self) -> (r: Option<(bool, char, i8)>)
        requires
            old(self).wf(),
        ensures
            final(self).wf(),
            final(self).src() == old(self).src(),
            match spec_x_square(old(self).src(), old(self).at()) {
                Some(v) => r == Some((v.0.0, v.0.1, v.0.2 as i8)) && final(self).at() == v.1,
                None => r is None && final(self).at() == old(self).at(),
            },
    {
        let save = self.pos;
        let mut cap: bool = false;
        if self.pos < self.chars.len() && self.chars[self.pos] == 'x' {
            cap = true;
            self.pos = self.pos + 1;
        }
        match self.parse_square() {
            Some((c, rv)) => Some((cap, c, rv)),
            None => {
                self.pos = save;
                None
            },
        }
    }

    /// Builds a recognizer over the whitespace-normalized form of the
    /// given text, positioned at its start.
    pub fn new(pgn_text: &str) -> (p: ChessParser)
        ensures
            p.wf(),
            p.src() == normalize(pgn_text@),
            p.at() == 0,
    {
        let cs = chars_of_str(pgn_text);
        let norm = normalize_chars(&cs);
        ChessParser { chars: norm, pos: 0 }
    }

    /// Runs the whole game grammar over the text.
    ///
    /// On success the returned game is exactly what the
    /// specification-level parse of the text describes; on failure the
    /// error carries the missed construct and the character offset at
    /// which it was missed, and the specification-level parse fails as
    /// well.
    pub fn parse_game(&mut self) -> (r: Result<ChessGame, SyntaxError>)
        requires
            old(self).wf(),
            old(self).at() == 0,
        ensures
            match r {
                Ok(game) => spec_game(old(self).src()) == Some(game@) && game.metadata.wf(),
                Err(e) => spec_game(old(self).src()) is None && e.expected == spec_failure(
                    old(self).src(),
                ).0 && e.offset as int == spec_failure(old(self).src()).1 && e.offset
                    <= old(self).src().len(),
            },
    {
        let ghost s = old(self).src();
        let metadata = self.parse_metas();
        let mut turns = self.parse_turns();
        let ghost turns0 = turns@.map_values(|t: ChessTurn| t@);
        match self.parse_closing() {
            Ok((half, res)) => {
                let ghost j = self.at();
                self.skip_spaces();
                proof {
                    lemma_skip_bounds(s, j);
                }
                if self.pos == self.chars.len() {
                    match half {
                        Some(t) => {
                            let ghost tv = t@;
                            turns.push(t);
                            proof {
                                assert(turns@.map_values(|t: ChessTurn| t@) =~= turns0.push(tv));
                                assert(turns0.push(tv) =~= turns0 + seq![tv]);
                            }
                        },
                        None => {
                            proof {
                                assert(turns0 + Seq::<TurnView>::empty() =~= turns0);
                            }
                        },
                    }
                    let game = ChessGame { metadata, turns, result: res };
                    proof {
                        assert(spec_game(s) == Some(game@));
                    }
                    Ok(game)
                } else {
                    Err(SyntaxError { offset: self.pos, expected: Expected::EndOfInput })
                }
            },
            Err(exp) => Err(SyntaxError { offset: self.pos, expected: exp }),
        }
    }
}

/// Parses a PGN text into a game.
///
/// The text is whitespace-normalized and then held to the grammar.  On
/// success the returned game is exactly what the specification-level
/// parse of the normalized text describes; on failure the error is the
/// construct and offset that `spec_failure` fixes for that text, and
/// the specification-level parse fails as well.  Both outcomes are
/// functions of the input text alone, so equal texts give equal
/// results on every call.
pub fn parse_pgn(pgn_text: &str) -> (r: Result<ChessGame, SyntaxError>)
    ensures
        ({
            let s = normalize(pgn_text@);
            match r {
                Ok(game) => spec_game(s) == Some(game@) && game.metadata.wf(),
                Err(e) => spec_game(s) is None && e.expected == spec_failure(s).0 && e.offset
                    as int == spec_failure(s).1 && e.offset <= s.len(),
            }
        }),
{
    let mut p = ChessParser::new(pgn_text);
    p.parse_game()
}

} // verus!
