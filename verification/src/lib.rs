//! A verified parser for Portable Game Notation (PGN), the text format
//! for recorded chess games.
//!
//! The crate recognizes metadata tags, numbered turns, algebraic move
//! notation and game-termination markers, and builds a typed game
//! object, rejecting malformed input with a syntax error.  The grammar
//! is stated as specification functions over character sequences, and
//! the executable recursive-descent recognizer is proved to return
//! exactly what those specification functions describe.

pub mod grammar;
pub mod laws;
pub mod meta;
pub mod model;
pub mod normalize;
pub mod parser;
pub mod text;

pub use meta::Metadata;
pub use model::ChessGame;
pub use model::ChessMove;
pub use model::ChessTurn;
pub use model::Expected;
pub use model::SyntaxError;
pub use parser::ChessParser;
pub use parser::parse_pgn;
