use vstd::prelude::*;
use crate::cell::{blank_cell, rank, CellState, WordleCell};
use crate::codec::{decode, decode_rounds, ROUNDS};
use crate::score::{evaluate, is_letter, is_word, letter_index, score, update_hints, upgraded};
use crate::words::{
    ascii_upper, get_random_word, is_ascii_text, lemma_word_upper_fixed, to_upper, upper_of, WordList,
};

verus! {

/// Where the game stands.
#[derive(Debug, Clone, Copy, PartialEq, Eq, Structural)]
pub enum GameState {
    Playing,
    /// Won, with the number of attempts it took (counted from 1).
    Success(usize),
    /// All rows used without finding the word.
    Failure,
}

/// One input, whether from a physical key or an on-screen one.
#[derive(Debug, Clone, Copy, PartialEq, Eq, Structural)]
pub enum Event {
    /// A letter key.
    Letter(char),
    /// Remove the last letter of the active row.
    Delete,
    /// Submit the active row.
    Submit,
}

/// Start-up options: an optional word to play instead of a random one.
#[derive(Debug, Clone, Default)]
pub struct Args {
    pub word: Option<String>,
}

/// A row of blank cells.
pub open spec fn blank_row() -> Seq<WordleCell> {
    Seq::new(5, |i: int| blank_cell())
}

/// The letters of a row.
pub open spec fn row_letters(row: Seq<WordleCell>) -> Seq<char> {
    row.map_values(|c: WordleCell| c.letter)
}

/// A cell holding letter `c` with feedback `st`.
pub open spec fn scored_cell(st: CellState, c: char) -> WordleCell {
    WordleCell { state: st, letter: c }
}

/// A row holding the letters `g` with the feedback `st`.
pub open spec fn scored_row(g: Seq<char>, st: Seq<CellState>) -> Seq<WordleCell> {
    Seq::new(5, |i: int| scored_cell(st[i], g[i]))
}

/// Every position correct.
pub open spec fn all_correct(st: Seq<CellState>) -> bool {
    forall|i: int| 0 <= i < 5 ==> st[i] == CellState::Correct
}

/// One game session: the secret word, the 6 by 5 board, the cursor, the hints
/// for the 26 letters and the phase of the game.
pub struct WordleApp {
    /// The start-up options the session was made with.
    pub args: Args,
    /// The secret word.
    pub word: String,
    /// The valid words.
    pub words: WordList,
    pub cells: [[WordleCell; 5]; 6],
    /// Row and column of the next cell to fill.
    pub next_cell: (usize, usize),
    /// The hint for each letter, `A` first.
    pub keyboard_state: [CellState; 26],
    pub game_state: GameState,
}

/// The secret's letters.
fn secret_letters(w: &String) -> (r: [char; 5])
    requires
        is_word(w@),
    ensures
        r@ == w@,
{
    let t = w.as_str();
    let r = [t.get_char(0), t.get_char(1), t.get_char(2), t.get_char(3), t.get_char(4)];
    assert(r@ =~= w@);
    r
}

/// Scores a full row against the secret `correct`, if the row spells a word
/// of `words`: the row gets its feedback and each letter's hint is raised
/// to the best state it reached. Returns whether the row was a word; if not,
/// nothing changes.
pub fn check_word(
    word: &mut [WordleCell; 5],
    correct: &String,
    words: &WordList,
    keyboard_state: &mut [CellState; 26],
) -> (r: bool)
    requires
        is_word(correct@),
        forall|i: int| 0 <= i < 5 ==> is_letter(#[trigger] old(word)@[i].letter),
    ensures
        r == words@.contains(row_letters(old(word)@)),
        !r ==> *final(word) == *old(word) && *final(keyboard_state) == *old(keyboard_state),
        r ==> final(word)@ == scored_row(
            row_letters(old(word)@),
            score(row_letters(old(word)@), correct@),
        ),
        r ==> final(keyboard_state)@ == upgraded(
            old(keyboard_state)@,
            row_letters(old(word)@),
            score(row_letters(old(word)@), correct@),
        ),
{
    let g = [word[0].letter, word[1].letter, word[2].letter, word[3].letter, word[4].letter];
    assert(g@ =~= row_letters(word@));
    if !words.contains_letters(&g) {
        return false;
    }
    let s = secret_letters(correct);
    let st = evaluate(&g, &s);
    update_hints(keyboard_state, &g, &st);
    *word = [
        WordleCell { state: st[0], letter: g[0] },
        WordleCell { state: st[1], letter: g[1] },
        WordleCell { state: st[2], letter: g[2] },
        WordleCell { state: st[3], letter: g[3] },
        WordleCell { state: st[4], letter: g[4] },
    ];
    assert((*word)@ =~= scored_row(g@, st@));
    true
}

impl WordleApp {
    /// The board as rows of cells.
    pub open spec fn board(&self) -> Seq<Seq<WordleCell>> {
        self.cells@.map_values(|r: [WordleCell; 5]| r@)
    }

    /// The session's invariant: valid words and secret; a cursor on the
    /// board while playing; the active row filled from its start up to the
    /// cursor with unscored letters; blank cells after the cursor; earlier
    /// rows full words.
    pub open spec fn wf(&self) -> bool {
        &&& self.words.wf()
        &&& is_word(self.word@)
        &&& self.next_cell.0 <= 6 && self.next_cell.1 <= 5
        &&& self.game_state == GameState::Playing ==> self.next_cell.0 < 6
        &&& self.game_state != GameState::Playing ==> self.next_cell.1 == 0 && self.next_cell.0 >= 1
        &&& self.blank_after_cursor()
        &&& self.active_row_filled()
        &&& self.rows_before_full()
    }

    /// Every cell after the cursor is blank.
    #[verifier::opaque]
    pub open spec fn blank_after_cursor(&self) -> bool {
        forall|r: int, c: int|
            0 <= r < 6 && 0 <= c < 5 && (r > self.next_cell.0 || (r == self.next_cell.0 && c
                >= self.next_cell.1)) ==> #[trigger] self.board()[r][c] == blank_cell()
    }

    /// The active row holds unscored letters up to the cursor.
    #[verifier::opaque]
    pub open spec fn active_row_filled(&self) -> bool {
        forall|c: int|
            0 <= c < self.next_cell.1 ==> is_letter(
                #[trigger] self.board()[self.next_cell.0 as int][c].letter,
            ) && self.board()[self.next_cell.0 as int][c].state == CellState::Empty
    }

    /// The rows before the active one are full words.
    #[verifier::opaque]
    pub open spec fn rows_before_full(&self) -> bool {
        forall|r: int| 0 <= r < self.next_cell.0 ==> is_word(#[trigger] row_letters(self.board()[r]))
    }

    /// A game before any input: blank board, cursor at the start, no hints,
    /// still playing.
    pub open spec fn is_fresh(&self) -> bool {
        &&& forall|r: int, c: int| 0 <= r < 6 && 0 <= c < 5 ==> #[trigger] self.board()[r][c] == blank_cell()
        &&& self.next_cell == (0usize, 0usize)
        &&& forall|k: int| 0 <= k < 26 ==> #[trigger] self.keyboard_state@[k] == CellState::Empty
        &&& self.game_state == GameState::Playing
    }

    /// Clears the board, the cursor and the hints, and plays again; the
    /// secret word stays.
    pub fn reset(&mut self)
        requires
            old(self).words.wf(),
            is_word(old(self).word@),
        ensures
            final(self).wf(),
            final(self).is_fresh(),
            final(self).word == old(self).word,
            final(self).words == old(self).words,
            final(self).args == old(self).args,
    {
        proof {
            reveal(WordleApp::blank_after_cursor);
            reveal(WordleApp::active_row_filled);
            reveal(WordleApp::rows_before_full);
        }
        self.cells = [[WordleCell::blank(); 5]; 6];
        self.next_cell = (0, 0);
        self.keyboard_state = [CellState::Empty; 26];
        self.game_state = GameState::Playing;
    }
}

/// Two sessions share the secret, the word list and the options.
pub open spec fn same_session(o: WordleApp, n: WordleApp) -> bool {
    n.word == o.word && n.words == o.words && n.args == o.args
}

/// What a letter key does: while playing with room in the active row, the
/// letter (if it is one) fills the cell under the cursor and the cursor
/// moves right; otherwise nothing changes.
pub open spec fn letter_step(o: WordleApp, n: WordleApp, ch: char) -> bool {
    let (row, col) = o.next_cell;
    if o.game_state == GameState::Playing && col < 5 && is_letter(ch) {
        &&& n.board() == o.board().update(
            row as int,
            o.board()[row as int].update(col as int, scored_cell(CellState::Empty, ch)),
        )
        &&& n.next_cell == (row, (col + 1) as usize)
        &&& n.keyboard_state == o.keyboard_state
        &&& n.game_state == o.game_state
        &&& same_session(o, n)
    } else {
        n == o
    }
}

/// What the delete key does: while playing with a letter in the active row,
/// the cursor moves left and blanks that cell; otherwise nothing changes.
pub open spec fn delete_step(o: WordleApp, n: WordleApp) -> bool {
    let (row, col) = o.next_cell;
    if o.game_state == GameState::Playing && col > 0 {
        &&& n.board() == o.board().update(
            row as int,
            o.board()[row as int].update(col - 1, blank_cell()),
        )
        &&& n.next_cell == (row, (col - 1) as usize)
        &&& n.keyboard_state == o.keyboard_state
        &&& n.game_state == o.game_state
        &&& same_session(o, n)
    } else {
        n == o
    }
}

/// The phase after row `row` was scored `st`.
pub open spec fn phase_after(row: int, st: Seq<CellState>) -> GameState {
    if all_correct(st) {
        GameState::Success((row + 1) as usize)
    } else if row == 5 {
        GameState::Failure
    } else {
        GameState::Playing
    }
}

/// What submitting does: while playing with a full row, a row that is not
/// a listed word is blanked and the cursor goes back to its start; a listed
/// word is scored, the hints are raised, the phase is decided and the
/// cursor moves to the next row. Otherwise nothing changes.
pub open spec fn submit_step(o: WordleApp, n: WordleApp) -> bool {
    let (row, col) = o.next_cell;
    let g = row_letters(o.board()[row as int]);
    let st = score(g, o.word@);
    if o.game_state == GameState::Playing && col == 5 {
        if o.words@.contains(g) {
            &&& n.board() == o.board().update(row as int, scored_row(g, st))
            &&& n.keyboard_state@ == upgraded(o.keyboard_state@, g, st)
            &&& n.game_state == phase_after(row as int, st)
            &&& n.next_cell == ((row + 1) as usize, 0usize)
            &&& same_session(o, n)
        } else {
            &&& n.board() == o.board().update(row as int, blank_row())
            &&& n.next_cell == (row, 0usize)
            &&& n.keyboard_state == o.keyboard_state
            &&& n.game_state == o.game_state
            &&& same_session(o, n)
        }
    } else {
        n == o
    }
}

/// What one input does.
pub open spec fn event_step(o: WordleApp, n: WordleApp, ev: Event) -> bool {
    match ev {
        Event::Letter(ch) => letter_step(o, n, ch),
        Event::Delete => delete_step(o, n),
        Event::Submit => submit_step(o, n),
    }
}

impl WordleApp {
    /// Applies one input; inputs after the game has ended change nothing.
    pub fn handle_event(&mut self, ev: Event)
        requires
            old(self).wf(),
        ensures
            final(self).wf(),
            event_step(*old(self), *final(self), ev),
            forall|k: int|
                0 <= k < 26 ==> rank(old(self).keyboard_state@[k]) <= rank(
                    #[trigger] final(self).keyboard_state@[k],
                ),
    {
        if self.game_state != GameState::Playing {
            return;
        }
        let row = self.next_cell.0;
        let col = self.next_cell.1;
        match ev {
            Event::Letter(ch) => {
                if col < 5 && 'A' <= ch && ch <= 'Z' {
                    self.put_letter(ch);
                }
            },
            Event::Delete => {
                if col > 0 {
                    proof {
                        reveal(WordleApp::blank_after_cursor);
                        reveal(WordleApp::active_row_filled);
                        reveal(WordleApp::rows_before_full);
                    }
                    let mut r = self.cells[row];
                    r[col - 1] = WordleCell::blank();
                    self.cells[row] = r;
                    self.next_cell = (row, col - 1);
                    assert(self.board() =~= old(self).board().update(
                        row as int,
                        old(self).board()[row as int].update(col - 1, blank_cell()),
                    ));
                    assert forall|c: int| 0 <= c < self.next_cell.1 implies is_letter(
                        #[trigger] self.board()[self.next_cell.0 as int][c].letter,
                    ) && self.board()[self.next_cell.0 as int][c].state == CellState::Empty by {
                        assert(is_letter(old(self).board()[old(self).next_cell.0 as int][c].letter));
                    }
                    assert forall|r: int, c: int|
                        0 <= r < 6 && 0 <= c < 5 && (r > self.next_cell.0 || (r == self.next_cell.0
                            && c >= self.next_cell.1)) implies #[trigger] self.board()[r][c]
                        == blank_cell() by {
                        if r != row || c != col - 1 {
                            assert(old(self).board()[r][c] == blank_cell());
                        }
                    }
                    assert(forall|r: int| 0 <= r < row ==> #[trigger] self.board()[r] == old(self).board()[r]);
                    assert(self.wf());
                }
            },
            Event::Submit => {
                if col == 5 {
                    self.submit_row();
                }
            },
        }
    }

    /// Writes letter `ch` under the cursor and moves the cursor right.
    fn put_letter(&mut self, ch: char)
        requires
            old(self).wf(),
            old(self).game_state == GameState::Playing,
            old(self).next_cell.1 < 5,
            is_letter(ch),
        ensures
            final(self).wf(),
            letter_step(*old(self), *final(self), ch),
    {
        proof {
            reveal(WordleApp::blank_after_cursor);
            reveal(WordleApp::active_row_filled);
            reveal(WordleApp::rows_before_full);
        }
        let row = self.next_cell.0;
        let col = self.next_cell.1;
        let mut r = self.cells[row];
        r[col] = WordleCell { state: CellState::Empty, letter: ch };
        self.cells[row] = r;
        self.next_cell = (row, col + 1);
        assert(self.board() =~= old(self).board().update(
            row as int,
            old(self).board()[row as int].update(
                col as int,
                scored_cell(CellState::Empty, ch),
            ),
        ));
        assert forall|c: int| 0 <= c < self.next_cell.1 implies is_letter(
            #[trigger] self.board()[self.next_cell.0 as int][c].letter,
        ) && self.board()[self.next_cell.0 as int][c].state == CellState::Empty by {
            if c < col {
                assert(is_letter(old(self).board()[old(self).next_cell.0 as int][c].letter));
            }
        }
        assert(forall|r: int| 0 <= r < row ==> #[trigger] self.board()[r] == old(self).board()[r]);
        assert forall|r: int, c: int|
            0 <= r < 6 && 0 <= c < 5 && (r > row || (r == row && c >= col + 1)) implies #[trigger] self.board()[r][c]
            == blank_cell() by {
            assert(old(self).board()[r][c] == blank_cell());
        }
        assert(self.wf());
    }

    /// Submits the full active row.
    fn submit_row(&mut self)
        requires
            old(self).wf(),
            old(self).game_state == GameState::Playing,
            old(self).next_cell.1 == 5,
        ensures
            final(self).wf(),
            submit_step(*old(self), *final(self)),
    {
        proof {
            reveal(WordleApp::blank_after_cursor);
            reveal(WordleApp::active_row_filled);
            reveal(WordleApp::rows_before_full);
        }
        let row = self.next_cell.0;
        let mut r = self.cells[row];
        assert(r@ == self.board()[row as int]);
        if check_word(&mut r, &self.word, &self.words, &mut self.keyboard_state) {
            let ghost g = row_letters(old(self).board()[row as int]);
            let ghost st = score(g, self.word@);
            self.cells[row] = r;
            let won = r[0].state == CellState::Correct && r[1].state == CellState::Correct
                && r[2].state == CellState::Correct && r[3].state == CellState::Correct
                && r[4].state == CellState::Correct;
            assert(won == all_correct(st)) by {
                assert(forall|i: int| 0 <= i < 5 ==> #[trigger] r@[i].state == st[i]);
            }
            if won {
                self.game_state = GameState::Success(row + 1);
            } else if row == 5 {
                self.game_state = GameState::Failure;
            }
            self.next_cell = (row + 1, 0);
            assert(self.board() =~= old(self).board().update(row as int, scored_row(g, st)));
            assert(row_letters(self.board()[row as int]) =~= g);
        } else {
            self.cells[row] = [WordleCell::blank(); 5];
            self.next_cell = (row, 0);
            assert(self.cells[row as int]@ =~= blank_row());
            assert(self.board() =~= old(self).board().update(row as int, blank_row()));
        }
    }
}

/// The keyboard's letter rows, top first.
pub const KBD_ROW1: &'static str = "QWERTYUIOP";
pub const KBD_ROW2: &'static str = "ASDFGHJKL";
pub const KBD_ROW3: &'static str = "ZXCVBNM";

/// The hint shown for key `c`: its letter's hint, or `Empty`.
pub open spec fn hint_of(hints: Seq<CellState>, c: char) -> CellState {
    if is_letter(c) {
        hints[letter_index(c)]
    } else {
        CellState::Empty
    }
}

/// The keys of `layout`, each with its hint.
pub open spec fn key_cells(hints: Seq<CellState>, layout: Seq<char>) -> Seq<WordleCell> {
    Seq::new(layout.len(), |i: int| scored_cell(hint_of(hints, layout[i]), layout[i]))
}

/// A fresh session on secret `word`.
fn fresh(args: Args, word: String, words: WordList) -> (r: WordleApp)
    requires
        words.wf(),
        is_word(word@),
    ensures
        r.wf(),
        r.is_fresh(),
        r.word == word,
        r.words == words,
        r.args == args,
{
    let mut app = WordleApp {
        args,
        word,
        words,
        cells: [[WordleCell::blank(); 5]; 6],
        next_cell: (0, 0),
        keyboard_state: [CellState::Empty; 26],
        game_state: GameState::Playing,
    };
    app.reset();
    app
}

impl WordleApp {
    /// A new session on a word drawn at random from `words`.
    pub fn new(words: WordList) -> (r: Self)
        requires
            words.wf(),
        ensures
            r.wf(),
            r.is_fresh(),
            r.words == words,
            words@.contains(r.word@),
            r.args.word is None,
    {
        let word = get_random_word(&words);
        fresh(Args { word: None }, word, words)
    }

    /// A new session whose secret is the word given in `args`, raised to
    /// uppercase, when `words` holds it; otherwise a word drawn at random.
    pub fn with_args(args: Args, words: WordList) -> (r: Self)
        requires
            words.wf(),
        ensures
            r.wf(),
            r.is_fresh(),
            r.words == words,
            r.args == args,
            words@.contains(r.word@),
            args.word is Some && words@.contains(upper_of(args.word->0@)) ==> r.word@ == upper_of(
                args.word->0@,
            ),
            args.word is Some && is_ascii_text(args.word->0@) && words@.contains(
                ascii_upper(args.word->0@),
            ) ==> r.word@ == ascii_upper(args.word->0@),
            args.word is Some && words@.contains(args.word->0@) ==> r.word@ == args.word->0@,
    {
        let word = match &args.word {
            Some(w) => {
                if words.contains(w.as_str()) {
                    to_upper(w.as_str())
                } else {
                    get_random_word(&words)
                }
            },
            None => get_random_word(&words),
        };
        proof {
            let k = choose|k: int| 0 <= k < words@.len() && words@[k] == word@;
            assert(is_word(words@[k]));
            if args.word is Some && words@.contains(args.word->0@) {
                let j = choose|j: int| 0 <= j < words@.len() && words@[j] == args.word->0@;
                assert(is_word(words@[j]));
                lemma_word_upper_fixed(args.word->0@);
            }
        }
        fresh(args, word, words)
    }

    /// Plays again on a word drawn at random from the list.
    pub fn reset_random_word(&mut self)
        requires
            old(self).wf(),
        ensures
            final(self).wf(),
            final(self).is_fresh(),
            final(self).words == old(self).words,
            final(self).args == old(self).args,
            old(self).words@.contains(final(self).word@),
    {
        self.word = get_random_word(&self.words);
        self.reset();
    }

    /// Replaces the secret with `w`, raised to uppercase, when the list holds
    /// it; returns whether it did. The board and hints are kept.
    pub fn set_word(&mut self, w: &str) -> (r: bool)
        requires
            old(self).wf(),
        ensures
            final(self).wf(),
            r == old(self).words@.contains(upper_of(w@)),
            r ==> final(self).word@ == upper_of(w@),
            is_ascii_text(w@) ==> r == old(self).words@.contains(ascii_upper(w@)),
            is_ascii_text(w@) && r ==> final(self).word@ == ascii_upper(w@),
            !r ==> *final(self) == *old(self),
            final(self).board() == old(self).board(),
            final(self).next_cell == old(self).next_cell,
            final(self).keyboard_state == old(self).keyboard_state,
            final(self).game_state == old(self).game_state,
            final(self).words == old(self).words,
    {
        if self.words.contains(w) {
            let u = to_upper(w);
            proof {
                reveal(WordleApp::blank_after_cursor);
                reveal(WordleApp::active_row_filled);
                reveal(WordleApp::rows_before_full);
                let k = choose|k: int| 0 <= k < self.words@.len() && self.words@[k] == u@;
                assert(is_word(self.words@[k]));
            }
            self.word = u;
            true
        } else {
            false
        }
    }

    /// The hint for letter `c` (`Empty` for anything but `A`..`Z`).
    pub fn hint(&self, c: char) -> (r: CellState)
        ensures
            r == hint_of(self.keyboard_state@, c),
    {
        if 'A' <= c && c <= 'Z' {
            self.keyboard_state[((c as u32) - ('A' as u32)) as usize]
        } else {
            CellState::Empty
        }
    }

    /// One keyboard row: each key of `layout` with its letter's hint.
    pub fn keyboard_row(&self, layout: &str) -> (r: Vec<WordleCell>)
        ensures
            r@ == key_cells(self.keyboard_state@, layout@),
    {
        let n = layout.unicode_len();
        let mut r: Vec<WordleCell> = Vec::new();
        let mut i: usize = 0;
        while i < n
            invariant
                i <= n,
                n == layout@.len(),
                r@.len() == i,
                forall|k: int|
                    0 <= k < i ==> #[trigger] r@[k] == key_cells(self.keyboard_state@, layout@)[k],
            decreases n - i,
        {
            let c = layout.get_char(i);
            r.push(WordleCell { state: self.hint(c), letter: c });
            i = i + 1;
        }
        assert(r@ =~= key_cells(self.keyboard_state@, layout@));
        r
    }

    /// The three keyboard rows, each key showing its letter's hint.
    pub fn keyboard(&self) -> (r: (Vec<WordleCell>, Vec<WordleCell>, Vec<WordleCell>))
        ensures
            r.0@ == key_cells(self.keyboard_state@, KBD_ROW1@),
            r.1@ == key_cells(self.keyboard_state@, KBD_ROW2@),
            r.2@ == key_cells(self.keyboard_state@, KBD_ROW3@),
    {
        (self.keyboard_row(KBD_ROW1), self.keyboard_row(KBD_ROW2), self.keyboard_row(KBD_ROW3))
    }
}

/// The secret asked for at start-up by a shared link: the plain `word`
/// parameter, raised to uppercase, when given; else the encoded `bword`
/// parameter when it decodes; else none. Whether the word is listed is
/// decided by `WordleApp::with_args`.
pub fn override_word(word: Option<String>, bword: Option<String>) -> (r: Option<String>)
    ensures
        word is Some ==> r is Some && r->0@ == upper_of(word->0@),
        word is None && bword is Some && decode_rounds(bword->0@, ROUNDS as nat) is Some ==> r is Some
            && r->0@ == upper_of(decode_rounds(bword->0@, ROUNDS as nat)->0),
        word is None && (bword is None || decode_rounds(bword->0@, ROUNDS as nat) is None) ==> r is None,
        word is Some && is_ascii_text(word->0@) ==> r->0@ == ascii_upper(word->0@),
        word is None && bword is Some && decode_rounds(bword->0@, ROUNDS as nat) is Some
            && is_ascii_text(decode_rounds(bword->0@, ROUNDS as nat)->0) ==> r->0@ == ascii_upper(
            decode_rounds(bword->0@, ROUNDS as nat)->0,
        ),
{
    match word {
        Some(w) => Some(to_upper(w.as_str())),
        None => match bword {
            Some(b) => match decode(b) {
                Ok(w) => Some(w),
                Err(_) => None,
            },
            None => None,
        },
    }
}

} // verus!
