use wordle_clone::{evaluate, promote_cell_state, update_hints, CellState};

fn letters(w: &str) -> [char; 5] {
    let v: Vec<char> = w.chars().collect();
    [v[0], v[1], v[2], v[3], v[4]]
}

fn slot(c: char) -> usize {
    (c as u32 - 'A' as u32) as usize
}

use CellState::{Absent, Correct, Empty, Present};

#[test]
fn duplicate_letters_alloy_llama() {
    let r = evaluate(&letters("LLAMA"), &letters("ALLOY"));
    assert_eq!(r, [Present, Correct, Present, Absent, Absent]);
}

#[test]
fn exact_match_claims_before_earlier_misplaced_copy() {
    // The A at index 1 is exact; the other two As compete for one more A.
    let r = evaluate(&letters("BAAXY"), &letters("AAZZZ"));
    assert_eq!(r, [Absent, Correct, Present, Absent, Absent]);
}

#[test]
fn all_correct_and_all_absent() {
    assert_eq!(evaluate(&letters("CRANE"), &letters("CRANE")), [Correct; 5]);
    assert_eq!(evaluate(&letters("BUMPY"), &letters("CRANE")), [Absent; 5]);
}

#[test]
fn slate_against_crane() {
    let r = evaluate(&letters("SLATE"), &letters("CRANE"));
    assert_eq!(r, [Absent, Absent, Correct, Absent, Correct]);
}

#[test]
fn present_letters_out_of_place() {
    let r = evaluate(&letters("NACRE"), &letters("CRANE"));
    assert_eq!(r, [Present, Present, Present, Present, Correct]);
}

#[test]
fn scoring_never_over_credits() {
    let pairs = [
        ("LLAMA", "ALLOY"),
        ("EERIE", "THEME"),
        ("SPEED", "ABIDE"),
        ("AAAAA", "ABACA"),
        ("ROBOT", "FLOOR"),
        ("GEESE", "EERIE"),
    ];
    for (g, s) in pairs.iter() {
        let gl = letters(g);
        let sl = letters(s);
        let r = evaluate(&gl, &sl);
        for i in 0..5 {
            if r[i] == Correct {
                assert_eq!(gl[i], sl[i]);
            }
        }
        for c in 'A'..='Z' {
            let credited = (0..5)
                .filter(|&i| gl[i] == c && (r[i] == Correct || r[i] == Present))
                .count();
            let occurs = sl.iter().filter(|&&x| x == c).count();
            assert!(credited <= occurs);
            if (0..5).any(|i| gl[i] == c && r[i] == Absent) {
                assert_eq!(credited, occurs);
            }
        }
    }
}

#[test]
fn promote_only_raises() {
    let mut s = Empty;
    promote_cell_state(&mut s, Absent);
    assert_eq!(s, Absent);
    promote_cell_state(&mut s, Correct);
    assert_eq!(s, Correct);
    promote_cell_state(&mut s, Present);
    assert_eq!(s, Correct);
    promote_cell_state(&mut s, Empty);
    assert_eq!(s, Correct);
    let mut t = Present;
    promote_cell_state(&mut t, Absent);
    assert_eq!(t, Present);
}

#[test]
fn hints_take_best_state_and_never_regress() {
    let mut hints = [Empty; 26];
    let g = letters("LLAMA");
    let st = evaluate(&g, &letters("ALLOY"));
    update_hints(&mut hints, &g, &st);
    assert_eq!(hints[slot('L')], Correct);
    assert_eq!(hints[slot('A')], Present);
    assert_eq!(hints[slot('M')], Absent);
    assert_eq!(hints[slot('Z')], Empty);
    let g2 = letters("MAMBA");
    let st2 = evaluate(&g2, &letters("ALLOY"));
    let before = hints;
    update_hints(&mut hints, &g2, &st2);
    for k in 0..26 {
        let rank = |s: CellState| match s {
            Empty => 0,
            Absent => 1,
            Present => 2,
            Correct => 3,
        };
        assert!(rank(hints[k]) >= rank(before[k]));
    }
    assert_eq!(hints[slot('L')], Correct);
    assert_eq!(hints[slot('B')], Absent);
}
