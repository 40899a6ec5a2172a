use vstd::prelude::*;
use rand::seq::SliceRandom;
use crate::score::{is_letter, is_word};

verus! {

/// What `str::to_uppercase` returns for a text.
pub uninterp spec fn upper_of(s: Seq<char>) -> Seq<char>;

/// An ASCII character.
pub open spec fn is_ascii_text(s: Seq<char>) -> bool {
    forall|i: int| 0 <= i < s.len() ==> (#[trigger] s[i] as u32) < 128
}

/// `c` with `a`..`z` raised to `A`..`Z`.
pub open spec fn ascii_upper_char(c: char) -> char {
    if 'a' <= c && c <= 'z' {
        (c as int - 32) as char
    } else {
        c
    }
}

/// An ASCII text with `a`..`z` raised to `A`..`Z`.
pub open spec fn ascii_upper(s: Seq<char>) -> Seq<char> {
    s.map_values(|c: char| ascii_upper_char(c))
}

/// Relies on `str::to_uppercase`: the result depends on the characters
/// alone, and on ASCII text it raises `a`..`z` and keeps every other
/// character.
#[verifier::external_body]
pub(crate) fn to_upper(s: &str) -> (r: String)
    ensures
        r@ == upper_of(s@),
        is_ascii_text(s@) ==> r@ == ascii_upper(s@),
{
    s.to_uppercase()
}

/// Relies on `rand`'s `SliceRandom::choose` with the thread-local generator:
/// `None` exactly for an empty list, else one of its entries.
#[verifier::external_body]
fn choose_word(v: &Vec<String>) -> (r: Option<String>)
    ensures
        r is None <==> v@.len() == 0,
        r is Some ==> exists|i: int| 0 <= i < v@.len() && #[trigger] v@[i]@ == r->0@,
{
    v.choose(&mut rand::thread_rng()).cloned()
}

/// An uppercase word is its own uppercase form.
pub proof fn lemma_word_upper_fixed(w: Seq<char>)
    requires
        is_word(w),
    ensures
        ascii_upper(w) == w,
        is_ascii_text(w),
{
    assert forall|i: int| 0 <= i < 5 implies #[trigger] ascii_upper(w)[i] == w[i] by {
        assert(is_letter(w[i]));
    }
    assert(ascii_upper(w) =~= w);
}

/// Why a word list was refused.
#[derive(Debug, Clone, Copy, PartialEq, Eq, Structural)]
pub enum WordListError {
    /// The list holds no word.
    Empty,
    /// The entry at this index is not five uppercase letters.
    Malformed(usize),
}

/// The valid words: a non-empty list of five-letter uppercase words.
pub struct WordList {
    words: Vec<String>,
}

/// Whether text `s` is five uppercase letters (exec form of `is_word`).
fn check_entry(s: &String) -> (r: bool)
    ensures
        r == is_word(s@),
{
    let t = s.as_str();
    if t.unicode_len() != 5 {
        return false;
    }
    let mut i: usize = 0;
    while i < 5
        invariant
            i <= 5,
            t@ == s@,
            s@.len() == 5,
            forall|k: int| 0 <= k < i ==> is_letter(#[trigger] s@[k]),
        decreases 5 - i,
    {
        let c = t.get_char(i);
        if !('A' <= c && c <= 'Z') {
            return false;
        }
        i = i + 1;
    }
    true
}

/// Whether text `s` spells the five letters of `g`.
fn spells(s: &String, g: &[char; 5]) -> (r: bool)
    ensures
        r == (s@ == g@),
{
    let t = s.as_str();
    if t.unicode_len() != 5 {
        return false;
    }
    let mut i: usize = 0;
    while i < 5
        invariant
            i <= 5,
            t@ == s@,
            s@.len() == 5,
            forall|k: int| 0 <= k < i ==> s@[k] == g@[k],
        decreases 5 - i,
    {
        if t.get_char(i) != g[i] {
            return false;
        }
        i = i + 1;
    }
    assert(s@ =~= g@);
    true
}

impl WordList {
    /// The words, in order.
    pub closed spec fn view(&self) -> Seq<Seq<char>> {
        self.words@.map_values(|w: String| w@)
    }

    /// Non-empty, and every entry five uppercase letters.
    pub open spec fn wf(&self) -> bool {
        self@.len() > 0 && forall|i: int| 0 <= i < self@.len() ==> is_word(#[trigger] self@[i])
    }

    /// Builds the list; refuses an empty one, or one with an entry that is
    /// not five uppercase letters (the first such index is reported).
    pub fn new(words: Vec<String>) -> (r: Result<WordList, WordListError>)
        ensures
            words@.len() == 0 ==> r == Err::<WordList, WordListError>(WordListError::Empty),
            r matches Err(WordListError::Empty) ==> words@.len() == 0,
            r is Ok ==> r->Ok_0.wf() && r->Ok_0@ == words@.map_values(|w: String| w@),
            r is Ok <==> (words@.len() > 0 && forall|i: int|
                0 <= i < words@.len() ==> is_word(#[trigger] words@[i]@)),
            r matches Err(WordListError::Malformed(i)) ==> words@.len() > 0 && i < words@.len()
                && !is_word(words@[i as int]@) && forall|k: int|
                0 <= k < i ==> is_word(#[trigger] words@[k]@),
    {
        if words.len() == 0 {
            return Err(WordListError::Empty);
        }
        let mut i: usize = 0;
        while i < words.len()
            invariant
                i <= words@.len(),
                forall|k: int| 0 <= k < i ==> is_word(#[trigger] words@[k]@),
            decreases words@.len() - i,
        {
            if !check_entry(&words[i]) {
                return Err(WordListError::Malformed(i));
            }
            i = i + 1;
        }
        let r = WordList { words };
        assert forall|k: int| 0 <= k < r@.len() implies is_word(#[trigger] r@[k]) by {
            assert(r@[k] == r.words@[k]@);
        }
        Ok(r)
    }

    /// The number of words.
    pub fn len(&self) -> (r: usize)
        ensures
            r == self@.len(),
    {
        self.words.len()
    }

    /// Whether the list holds the word spelled by `g`.
    pub fn contains_letters(&self, g: &[char; 5]) -> (r: bool)
        ensures
            r == self@.contains(g@),
    {
        let mut i: usize = 0;
        while i < self.words.len()
            invariant
                i <= self.words@.len(),
                forall|k: int| 0 <= k < i ==> self.words@[k]@ != g@,
            decreases self.words@.len() - i,
        {
            if spells(&self.words[i], g) {
                assert(self@[i as int] == g@);
                return true;
            }
            i = i + 1;
        }
        assert(!self@.contains(g@)) by {
            if self@.contains(g@) {
                let k = choose|k: int| 0 <= k < self@.len() && self@[k] == g@;
                assert(self.words@[k]@ == g@);
            }
        }
        false
    }

    /// Whether the list holds `w`, compared without regard to case: `w` is
    /// raised to uppercase first.
    pub fn contains(&self, w: &str) -> (r: bool)
        ensures
            r == self@.contains(upper_of(w@)),
            is_ascii_text(w@) ==> r == self@.contains(ascii_upper(w@)),
    {
        let u = to_upper(w);
        let mut i: usize = 0;
        while i < self.words.len()
            invariant
                i <= self.words@.len(),
                forall|k: int| 0 <= k < i ==> self.words@[k]@ != u@,
                u@ == upper_of(w@),
                is_ascii_text(w@) ==> u@ == ascii_upper(w@),
            decreases self.words@.len() - i,
        {
            if self.words[i] == u {
                assert(self@[i as int] == u@);
                return true;
            }
            i = i + 1;
        }
        assert(!self@.contains(u@)) by {
            if self@.contains(u@) {
                let k = choose|k: int| 0 <= k < self@.len() && self@[k] == u@;
                assert(self.words@[k]@ == u@);
            }
        }
        false
    }
}

/// A word drawn at random from the list.
pub fn get_random_word(words: &WordList) -> (r: String)
    requires
        words.wf(),
    ensures
        words@.contains(r@),
        is_word(r@),
{
    match choose_word(&words.words) {
        Some(w) => {
            let ghost i = choose|i: int| 0 <= i < words.words@.len() && words.words@[i]@ == w@;
            assert(words@[i] == w@);
            w
        },
        None => vstd::pervasive::unreached(),
    }
}

} // verus!
