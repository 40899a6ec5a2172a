use wordle_clone::{
    get_random_word, Args, CellState, Event, GameState, WordList, WordListError, WordleApp,
    WordleCell, KBD_ROW1,
};

fn list(ws: &[&str]) -> WordList {
    WordList::new(ws.iter().map(|w| w.to_string()).collect()).unwrap()
}

fn words() -> WordList {
    list(&["CRANE", "SLATE", "ALLOY", "LLAMA", "BUMPY", "FIGHT", "DOUGH", "WORDS", "GHOST"])
}

fn app_with(secret: &str) -> WordleApp {
    WordleApp::with_args(Args { word: Some(secret.to_string()) }, words())
}

fn type_word(app: &mut WordleApp, w: &str) {
    for c in w.chars() {
        app.handle_event(Event::Letter(c));
    }
    app.handle_event(Event::Submit);
}

fn row_states(app: &WordleApp, r: usize) -> Vec<CellState> {
    app.cells[r].iter().map(|c| c.state).collect()
}

fn blank() -> WordleCell {
    WordleCell { state: CellState::Empty, letter: ' ' }
}

use CellState::{Absent, Correct, Empty};

#[test]
fn word_list_validation() {
    assert_eq!(WordList::new(vec![]).err(), Some(WordListError::Empty));
    let r = WordList::new(vec!["CRANE".to_string(), "crane".to_string()]);
    assert_eq!(r.err(), Some(WordListError::Malformed(1)));
    let r = WordList::new(vec!["TOOLONG".to_string()]);
    assert_eq!(r.err(), Some(WordListError::Malformed(0)));
    assert_eq!(words().len(), 9);
}

#[test]
fn word_list_contains_ignores_case() {
    let w = words();
    assert!(w.contains("crane"));
    assert!(w.contains("CrAnE"));
    assert!(!w.contains("cranes"));
    assert!(w.contains_letters(&['G', 'H', 'O', 'S', 'T']));
    assert!(!w.contains_letters(&['G', 'H', 'O', 'S', 'S']));
}

#[test]
fn random_word_comes_from_list() {
    let w = words();
    for _ in 0..20 {
        assert!(w.contains(&get_random_word(&w)));
    }
    let one = list(&["FIGHT"]);
    assert_eq!(get_random_word(&one), "FIGHT");
}

#[test]
fn override_word_is_used_when_listed() {
    let app = app_with("ghost");
    assert_eq!(app.word, "GHOST");
    let app = app_with("zzzzz");
    assert!(words().contains(&app.word));
    let app = WordleApp::new(words());
    assert!(words().contains(&app.word));
    assert_eq!(app.next_cell, (0, 0));
}

#[test]
fn crane_won_on_second_row() {
    let mut app = app_with("CRANE");
    type_word(&mut app, "SLATE");
    assert_eq!(row_states(&app, 0), vec![Absent, Absent, Correct, Absent, Correct]);
    assert_eq!(app.game_state, GameState::Playing);
    assert_eq!(app.next_cell, (1, 0));
    type_word(&mut app, "CRANE");
    assert_eq!(row_states(&app, 1), vec![Correct; 5]);
    assert_eq!(app.game_state, GameState::Success(2));
    assert_eq!(app.next_cell, (2, 0));
    // Input after the end changes nothing.
    app.handle_event(Event::Letter('A'));
    assert_eq!(app.cells[2][0], blank());
    assert_eq!(app.hint('C'), Correct);
    assert_eq!(app.hint('S'), Absent);
    assert_eq!(app.hint('Q'), Empty);
}

#[test]
fn six_wrong_guesses_lose() {
    let mut app = app_with("CRANE");
    for w in ["SLATE", "ALLOY", "LLAMA", "BUMPY", "FIGHT", "DOUGH"].iter() {
        assert_eq!(app.game_state, GameState::Playing);
        type_word(&mut app, w);
    }
    assert_eq!(app.game_state, GameState::Failure);
    assert_eq!(app.next_cell, (6, 0));
    assert_eq!(app.word, "CRANE");
}

#[test]
fn unknown_word_is_cleared() {
    let mut app = app_with("CRANE");
    type_word(&mut app, "SLATE");
    type_word(&mut app, "ABCDE");
    assert_eq!(app.game_state, GameState::Playing);
    assert_eq!(app.next_cell, (1, 0));
    for c in 0..5 {
        assert_eq!(app.cells[1][c], blank());
    }
    assert_eq!(row_states(&app, 0), vec![Absent, Absent, Correct, Absent, Correct]);
}

#[test]
fn letters_and_delete() {
    let mut app = app_with("CRANE");
    app.handle_event(Event::Delete);
    assert_eq!(app.next_cell, (0, 0));
    app.handle_event(Event::Letter('G'));
    app.handle_event(Event::Letter('h'));
    assert_eq!(app.next_cell, (0, 1));
    app.handle_event(Event::Letter('H'));
    assert_eq!(app.cells[0][1].letter, 'H');
    app.handle_event(Event::Delete);
    assert_eq!(app.next_cell, (0, 1));
    assert_eq!(app.cells[0][1], blank());
    // A sixth letter is ignored; submitting a partial row does nothing.
    for c in "HOSTX".chars() {
        app.handle_event(Event::Letter(c));
    }
    assert_eq!(app.next_cell, (0, 5));
    assert_eq!(app.cells[0][4].letter, 'T');
    app.handle_event(Event::Delete);
    app.handle_event(Event::Submit);
    assert_eq!(app.next_cell, (0, 4));
}

#[test]
fn reset_clears_everything() {
    let mut app = app_with("CRANE");
    type_word(&mut app, "SLATE");
    type_word(&mut app, "CRANE");
    app.reset();
    assert_eq!(app.next_cell, (0, 0));
    assert_eq!(app.game_state, GameState::Playing);
    assert_eq!(app.word, "CRANE");
    for r in 0..6 {
        for c in 0..5 {
            assert_eq!(app.cells[r][c], blank());
        }
    }
    assert!(app.keyboard_state.iter().all(|s| *s == Empty));
    app.reset_random_word();
    assert!(words().contains(&app.word));
    assert_eq!(app.next_cell, (0, 0));
}

#[test]
fn set_word_only_takes_listed_words() {
    let mut app = app_with("CRANE");
    assert!(app.set_word("slate"));
    assert_eq!(app.word, "SLATE");
    assert!(!app.set_word("qqqqq"));
    assert_eq!(app.word, "SLATE");
}

#[test]
fn keyboard_rows_show_hints() {
    let mut app = app_with("CRANE");
    type_word(&mut app, "SLATE");
    let (r1, r2, r3) = app.keyboard();
    assert_eq!(r1.len(), 10);
    assert_eq!(r2.len(), 9);
    assert_eq!(r3.len(), 7);
    assert_eq!(r1[4], WordleCell { state: Absent, letter: 'T' });
    assert_eq!(r2[0], WordleCell { state: Correct, letter: 'A' });
    assert_eq!(r3[0], WordleCell { state: Empty, letter: 'Z' });
    assert_eq!(app.keyboard_row(KBD_ROW1)[2], WordleCell { state: Correct, letter: 'E' });
}

#[test]
fn keyboard_cell_constructor() {
    assert_eq!(WordleCell::keyboard('Q'), WordleCell { state: Empty, letter: 'Q' });
    assert_eq!(WordleCell::default(), blank());
}

#[test]
fn listed_override_is_the_secret_in_any_case() {
    let app = app_with("FIGHT");
    assert_eq!(app.word, "FIGHT");
    let app = app_with("dough");
    assert_eq!(app.word, "DOUGH");
}

#[test]
fn word_list_bad_entry_is_not_reported_empty() {
    let r = WordList::new(vec!["AB".to_string()]);
    assert_eq!(r.err(), Some(WordListError::Malformed(0)));
}
