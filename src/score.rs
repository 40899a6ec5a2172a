use vstd::prelude::*;
use crate::cell::{max_state, promote_cell_state, rank, CellState};

verus! {

/// An uppercase ASCII letter.
pub open spec fn is_letter(c: char) -> bool {
    'A' <= c && c <= 'Z'
}

/// A word of the game: five uppercase letters.
pub open spec fn is_word(w: Seq<char>) -> bool {
    w.len() == 5 && forall|i: int| 0 <= i < 5 ==> is_letter(#[trigger] w[i])
}

/// The slot of letter `c` among the 26 keyboard hints.
pub open spec fn letter_index(c: char) -> int {
    c as int - 'A' as int
}

/// The letter whose hint sits in slot `k`.
pub open spec fn letter_at(k: int) -> char {
    (k + 'A' as int) as char
}

/// Secret positions before `n` that hold `c` and are not matched exactly
/// by the guess: the copies of `c` that misplaced guesses may claim.
pub open spec fn unclaimed_in_secret(g: Seq<char>, s: Seq<char>, c: char, n: int) -> nat
    decreases n,
{
    if n <= 0 {
        0
    } else {
        unclaimed_in_secret(g, s, c, n - 1) + if s[n - 1] == c && g[n - 1] != s[n - 1] {
            1nat
        } else {
            0nat
        }
    }
}

/// Guess positions before `n` that hold `c` and are not exact matches.
pub open spec fn misplaced_in_guess(g: Seq<char>, s: Seq<char>, c: char, n: int) -> nat
    decreases n,
{
    if n <= 0 {
        0
    } else {
        misplaced_in_guess(g, s, c, n - 1) + if g[n - 1] == c && g[n - 1] != s[n - 1] {
            1nat
        } else {
            0nat
        }
    }
}

/// The feedback for position `i` of guess `g` against secret `s`: exact
/// matches first; then, left to right, each other copy of a letter is
/// present while unclaimed copies of it remain in the secret.
pub open spec fn score_at(g: Seq<char>, s: Seq<char>, i: int) -> CellState {
    if g[i] == s[i] {
        CellState::Correct
    } else if misplaced_in_guess(g, s, g[i], i) < unclaimed_in_secret(g, s, g[i], 5) {
        CellState::Present
    } else {
        CellState::Absent
    }
}

/// The feedback for a whole guess.
pub open spec fn score(g: Seq<char>, s: Seq<char>) -> Seq<CellState> {
    Seq::new(5, |i: int| score_at(g, s, i))
}

/// The best state that letter `c` reached among the first `n` positions.
pub open spec fn best_for(g: Seq<char>, st: Seq<CellState>, c: char, n: int) -> CellState
    decreases n,
{
    if n <= 0 {
        CellState::Empty
    } else {
        max_state(
            best_for(g, st, c, n - 1),
            if g[n - 1] == c {
                st[n - 1]
            } else {
                CellState::Empty
            },
        )
    }
}

/// The 26 hints after a guess `g` scored `st`: each raised to the best state
/// its letter reached in the guess.
pub open spec fn upgraded(hints: Seq<CellState>, g: Seq<char>, st: Seq<CellState>) -> Seq<
    CellState,
> {
    Seq::new(26, |k: int| max_state(hints[k], best_for(g, st, letter_at(k), 5)))
}

/// How many of the first `n` letters of `s` are `c`.
pub open spec fn occurrences(s: Seq<char>, c: char, n: int) -> nat
    decreases n,
{
    if n <= 0 {
        0
    } else {
        occurrences(s, c, n - 1) + if s[n - 1] == c {
            1nat
        } else {
            0nat
        }
    }
}

/// Guess positions before `n` that hold `c` and match the secret exactly.
pub open spec fn exact_in_guess(g: Seq<char>, s: Seq<char>, c: char, n: int) -> nat
    decreases n,
{
    if n <= 0 {
        0
    } else {
        exact_in_guess(g, s, c, n - 1) + if g[n - 1] == c && g[n - 1] == s[n - 1] {
            1nat
        } else {
            0nat
        }
    }
}

/// Positions before `n` that hold `c` and were credited (`Correct` or
/// `Present`).
pub open spec fn credited(g: Seq<char>, st: Seq<CellState>, c: char, n: int) -> nat
    decreases n,
{
    if n <= 0 {
        0
    } else {
        credited(g, st, c, n - 1) + if g[n - 1] == c && (st[n - 1] == CellState::Correct
            || st[n - 1] == CellState::Present) {
            1nat
        } else {
            0nat
        }
    }
}

proof fn lemma_occurrences_split(g: Seq<char>, s: Seq<char>, c: char, n: int)
    requires
        0 <= n <= 5,
        g.len() == 5,
        s.len() == 5,
    ensures
        occurrences(s, c, n) == exact_in_guess(g, s, c, n) + unclaimed_in_secret(g, s, c, n),
    decreases n,
{
    if n > 0 {
        lemma_occurrences_split(g, s, c, n - 1);
    }
}

proof fn lemma_misplaced_grows(g: Seq<char>, s: Seq<char>, c: char, i: int, n: int)
    requires
        0 <= i <= n <= 5,
    ensures
        misplaced_in_guess(g, s, c, i) <= misplaced_in_guess(g, s, c, n),
    decreases n - i,
{
    if i < n {
        lemma_misplaced_grows(g, s, c, i, n - 1);
    }
}

proof fn lemma_credited_count(g: Seq<char>, s: Seq<char>, c: char, n: int)
    requires
        0 <= n <= 5,
        g.len() == 5,
        s.len() == 5,
    ensures
        ({
            let m = misplaced_in_guess(g, s, c, n);
            let u = unclaimed_in_secret(g, s, c, 5);
            credited(g, score(g, s), c, n) == exact_in_guess(g, s, c, n) + if m < u {
                m
            } else {
                u
            }
        }),
    decreases n,
{
    if n > 0 {
        lemma_credited_count(g, s, c, n - 1);
    }
}

/// Scoring never over-credits: a position is `Correct` only where guess and
/// secret agree; no letter is credited (`Correct` or `Present`) more often
/// than it occurs in the secret; and where a position is `Absent`, every
/// copy of its letter in the secret has been credited already.
pub proof fn lemma_score_sound(g: Seq<char>, s: Seq<char>)
    requires
        g.len() == 5,
        s.len() == 5,
    ensures
        forall|i: int|
            0 <= i < 5 && #[trigger] score(g, s)[i] == CellState::Correct ==> g[i] == s[i],
        forall|c: char| #[trigger] credited(g, score(g, s), c, 5) <= occurrences(s, c, 5),
        forall|i: int|
            0 <= i < 5 && #[trigger] score(g, s)[i] == CellState::Absent ==> credited(
                g,
                score(g, s),
                g[i],
                5,
            ) == occurrences(s, g[i], 5),
{
    assert forall|c: char| #[trigger] credited(g, score(g, s), c, 5) <= occurrences(s, c, 5) by {
        lemma_credited_count(g, s, c, 5);
        lemma_occurrences_split(g, s, c, 5);
    }
    assert forall|i: int|
        0 <= i < 5 && #[trigger] score(g, s)[i] == CellState::Absent implies credited(
            g,
            score(g, s),
            g[i],
            5,
        ) == occurrences(s, g[i], 5) by {
        lemma_credited_count(g, s, g[i], 5);
        lemma_occurrences_split(g, s, g[i], 5);
        lemma_misplaced_grows(g, s, g[i], i + 1, 5);
        assert(misplaced_in_guess(g, s, g[i], i + 1) == misplaced_in_guess(g, s, g[i], i) + 1);
    }
}

/// Counts the secret copies of `c` not matched exactly by the guess.
fn count_unclaimed(g: &[char; 5], s: &[char; 5], c: char) -> (r: usize)
    ensures
        r == unclaimed_in_secret(g@, s@, c, 5),
{
    let mut n: usize = 0;
    let mut j: usize = 0;
    while j < 5
        invariant
            j <= 5,
            n == unclaimed_in_secret(g@, s@, c, j as int),
            n <= j,
        decreases 5 - j,
    {
        if s[j] == c && g[j] != s[j] {
            n = n + 1;
        }
        j = j + 1;
    }
    n
}

/// Counts the guess positions before `i` that hold `c` and are not exact.
fn count_misplaced(g: &[char; 5], s: &[char; 5], c: char, i: usize) -> (r: usize)
    requires
        i <= 5,
    ensures
        r == misplaced_in_guess(g@, s@, c, i as int),
{
    let mut n: usize = 0;
    let mut k: usize = 0;
    while k < i
        invariant
            k <= i <= 5,
            n == misplaced_in_guess(g@, s@, c, k as int),
            n <= k,
        decreases i - k,
    {
        if g[k] == c && g[k] != s[k] {
            n = n + 1;
        }
        k = k + 1;
    }
    n
}

/// Scores guess `g` against secret `s`: `Correct` where the letters agree;
/// elsewhere `Present` while the secret still holds an unclaimed copy of
/// the letter (exact matches claim first, then earlier positions), else
/// `Absent`.
pub fn evaluate(g: &[char; 5], s: &[char; 5]) -> (r: [CellState; 5])
    ensures
        r@ == score(g@, s@),
{
    let mut r = [CellState::Absent; 5];
    let mut i: usize = 0;
    while i < 5
        invariant
            i <= 5,
            forall|k: int| 0 <= k < i ==> r@[k] == score_at(g@, s@, k),
        decreases 5 - i,
    {
        if g[i] == s[i] {
            r[i] = CellState::Correct;
        } else {
            let claimed = count_misplaced(g, s, g[i], i);
            let free = count_unclaimed(g, s, g[i]);
            if claimed < free {
                r[i] = CellState::Present;
            } else {
                r[i] = CellState::Absent;
            }
        }
        i = i + 1;
    }
    assert(r@ =~= score(g@, s@));
    r
}

/// Raises the hints for the letters of guess `g`, scored `st`: each letter's
/// hint becomes the best of its old hint and the states it reached.
pub fn update_hints(hints: &mut [CellState; 26], g: &[char; 5], st: &[CellState; 5])
    requires
        is_word(g@),
    ensures
        final(hints)@ == upgraded(old(hints)@, g@, st@),
{
    let ghost start = hints@;
    let mut i: usize = 0;
    while i < 5
        invariant
            i <= 5,
            is_word(g@),
            forall|k: int|
                0 <= k < 26 ==> #[trigger] hints@[k] == max_state(
                    start[k],
                    best_for(g@, st@, letter_at(k), i as int),
                ),
        decreases 5 - i,
    {
        let c = g[i];
        assert(is_letter(g@[i as int]));
        let slot = ((c as u32) - ('A' as u32)) as usize;
        let mut h = hints[slot];
        promote_cell_state(&mut h, st[i]);
        hints[slot] = h;
        assert(letter_at(slot as int) == c);
        i = i + 1;
    }
    assert(hints@ =~= upgraded(start, g@, st@));
}

/// Hints after each of the first `n` guesses of `gs`, all scored against
/// secret `s`, starting from `hints`.
pub open spec fn hints_after(hints: Seq<CellState>, gs: Seq<Seq<char>>, s: Seq<char>, n: int) -> Seq<
    CellState,
>
    decreases n,
{
    if n <= 0 {
        hints
    } else {
        let h = hints_after(hints, gs, s, n - 1);
        upgraded(h, gs[n - 1], score(gs[n - 1], s))
    }
}

/// Hints never regress: along any sequence of guesses, the rank of each
/// letter's hint after `i` guesses is at most its rank after `j >= i`.
pub proof fn lemma_hints_monotone(
    hints: Seq<CellState>,
    gs: Seq<Seq<char>>,
    s: Seq<char>,
    i: int,
    j: int,
)
    requires
        hints.len() == 26,
        0 <= i <= j <= gs.len(),
    ensures
        forall|k: int|
            0 <= k < 26 ==> rank(#[trigger] hints_after(hints, gs, s, i)[k]) <= rank(
                hints_after(hints, gs, s, j)[k],
            ),
    decreases j - i,
{
    if i < j {
        lemma_hints_monotone(hints, gs, s, i, j - 1);
        lemma_hints_len(hints, gs, s, j - 1);
    }
}

proof fn lemma_hints_len(hints: Seq<CellState>, gs: Seq<Seq<char>>, s: Seq<char>, n: int)
    requires
        hints.len() == 26,
    ensures
        hints_after(hints, gs, s, n).len() == 26,
    decreases n,
{
    if n > 0 {
        lemma_hints_len(hints, gs, s, n - 1);
    }
}

} // verus!
