//! The data model: games, turns, half-moves, and the syntax error type.

use vstd::prelude::*;

use crate::meta::Metadata;

verus! {

/// Mathematical image of a half-move: every field of `ChessMove` as a
/// plain specification value.
pub ghost struct MoveView {
    pub full: Seq<char>,
    pub special: bool,
    pub capture: bool,
    pub piece: char,
    pub promotion: char,
    pub col: char,
    pub row: int,
    pub annotation: Seq<char>,
    pub disambig: Seq<char>,
}

/// Mathematical image of a turn.
pub ghost struct TurnView {
    pub number: int,
    pub white: Option<MoveView>,
    pub black: Option<MoveView>,
}

/// Mathematical image of a parsed game.
pub ghost struct GameView {
    pub meta: Map<Seq<char>, Seq<char>>,
    pub turns: Seq<TurnView>,
    pub result: Seq<char>,
}

/// The half-move every field of which is still at its sentinel: no text,
/// a pawn, no capture, no promotion, no destination square.
pub open spec fn default_move_view() -> MoveView {
    MoveView {
        full: Seq::empty(),
        special: false,
        capture: false,
        piece: 'p',
        promotion: ' ',
        col: '-',
        row: 0,
        annotation: Seq::empty(),
        disambig: Seq::empty(),
    }
}

/// One half-move (ply).  Fields not meaningful for the matched notation
/// shape keep their sentinel defaults: piece `'p'` for a pawn, promotion
/// `' '` for none, column `'-'` and row `0` for an unset destination.
#[derive(Debug)]
pub struct ChessMove {
    pub full_str: String,
    pub special: bool,
    pub capture: bool,
    pub piece: char,
    pub promotion: char,
    pub loc_col: char,
    pub loc_row: i8,
    pub annotation: String,
    pub disambig: String,
}

impl View for ChessMove {
    type V = MoveView;

    open spec fn view(&self) -> MoveView {
        MoveView {
            full: self.full_str@,
            special: self.special,
            capture: self.capture,
            piece: self.piece,
            promotion: self.promotion,
            col: self.loc_col,
            row: self.loc_row as int,
            annotation: self.annotation@,
            disambig: self.disambig@,
        }
    }
}

impl Default for ChessMove {
    /// The all-sentinel half-move.
    fn default() -> (m: Self)
        ensures
            m@ == default_move_view(),
    {
        let m = ChessMove {
            full_str: String::new(),
            special: false,
            capture: false,
            piece: 'p',
            loc_col: '-',
            loc_row: 0,
            promotion: ' ',
            annotation: String::new(),
            disambig: String::new(),
        };
        m
    }
}

/// One full move number: an optional White half-move and an optional
/// Black half-move.  Turn numbers are taken from the source text and are
/// not checked against a counter.
#[derive(Debug)]
pub struct ChessTurn {
    pub turn_number: usize,
    pub white_move: Option<ChessMove>,
    pub black_move: Option<ChessMove>,
}

impl View for ChessTurn {
    type V = TurnView;

    open spec fn view(&self) -> TurnView {
        TurnView {
            number: self.turn_number as int,
            white: match self.white_move {
                Some(m) => Some(m@),
                None => None,
            },
            black: match self.black_move {
                Some(m) => Some(m@),
                None => None,
            },
        }
    }
}

impl Default for ChessTurn {
    /// Turn zero, with both half-moves present and at their defaults.
    fn default() -> (t: Self)
        ensures
            t@ == (TurnView {
                number: 0,
                white: Some(default_move_view()),
                black: Some(default_move_view()),
            }),
    {
        ChessTurn {
            turn_number: 0,
            white_move: Some(ChessMove::default()),
            black_move: Some(ChessMove::default()),
        }
    }
}

/// A parsed game: metadata tags, the turn sequence, and the termination
/// result, exactly as the source text gave them.
#[derive(Debug)]
pub struct ChessGame {
    pub metadata: Metadata,
    pub turns: Vec<ChessTurn>,
    pub result: String,
}

impl View for ChessGame {
    type V = GameView;

    open spec fn view(&self) -> GameView {
        GameView {
            meta: self.metadata@,
            turns: self.turns@.map_values(|t: ChessTurn| t@),
            result: self.result@,
        }
    }
}

/// The grammar construct whose absence made a parse fail.
#[derive(Clone, Copy, Debug, PartialEq, Eq, Structural)]
pub enum Expected {
    /// A turn, a trailing half-move, or a result token was expected.
    TurnOrResult,
    /// A result token was expected after the trailing half-move.
    GameResult,
    /// The input should have ended after the result token.
    EndOfInput,
}

/// A syntax error: the construct that was expected and the character
/// offset, in the whitespace-normalized text, at which it was missed.
#[derive(Clone, Copy, Debug, PartialEq, Eq, Structural)]
pub struct SyntaxError {
    pub offset: usize,
    pub expected: Expected,
}

impl SyntaxError {
    /// A short description of the error.
    pub fn message(&self) -> (m: &'static str)
        ensures
            m@ == match self.expected {
                Expected::TurnOrResult => "expected a metadata tag, a turn, or a result token"@,
                Expected::GameResult => "expected a game result token"@,
                Expected::EndOfInput => "unparsed text after the game result"@,
            },
    {
        match self.expected {
            Expected::TurnOrResult => "expected a metadata tag, a turn, or a result token",
            Expected::GameResult => "expected a game result token",
            Expected::EndOfInput => "unparsed text after the game result",
        }
    }
}

} // verus!
