//! A word-guessing game: a secret five-letter word, six attempts, and
//! per-letter feedback after each valid guess.
pub mod app;
pub mod cell;
pub mod codec;
pub mod score;
pub mod words;

pub use app::{check_word, override_word, Args, Event, GameState, WordleApp, KBD_ROW1, KBD_ROW2, KBD_ROW3};
pub use cell::{promote_cell_state, CellState, WordleCell};
pub use codec::{decode, encode, CodecError};
pub use score::{evaluate, update_hints};
pub use words::{get_random_word, WordList, WordListError};
