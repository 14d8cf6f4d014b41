use vstd::prelude::*;
use crate::text::{
    chars_of, copy_range, find_chars, find_from, lower_of, lowercase, string_of, trim,
    trim_chars,
};

verus! {

/// The index of the first phrase of `ps`, from index `k` on, that occurs in
/// `t`, with the position of its first occurrence.
pub open spec fn first_wake(t: Seq<char>, ps: Seq<Seq<char>>, k: int) -> Option<(int, int)>
    decreases ps.len() - k,
{
    if k < 0 || k >= ps.len() {
        None
    } else {
        match find_from(t, ps[k], 0) {
            Some(p) => Some((k, p)),
            None => first_wake(t, ps, k + 1),
        }
    }
}

/// For a normalized transcript `t`: the first phrase of `ps` that occurs in
/// it, with the trimmed text that follows that occurrence. A blank transcript
/// matches nothing.
pub open spec fn wake_hit(t: Seq<char>, ps: Seq<Seq<char>>) -> Option<(int, Seq<char>)> {
    if t.len() == 0 {
        None
    } else {
        match first_wake(t, ps, 0) {
            Some((k, p)) => Some((k, trim(t.subrange(p + ps[k].len(), t.len() as int)))),
            None => None,
        }
    }
}

/// Whether `t` is exactly one of the phrases of `ps`.
pub open spec fn is_exact_wake(t: Seq<char>, ps: Seq<Seq<char>>) -> bool {
    exists|j: int| 0 <= j < ps.len() && #[trigger] ps[j] == t
}

/// A transcript as it is matched: trimmed, then lower-cased.
pub open spec fn normalized(text: Seq<char>) -> Seq<char> {
    lower_of(trim(text))
}

/// The lower-cased forms of the configured phrases.
pub open spec fn lowered(words: Seq<&str>) -> Seq<Seq<char>> {
    words.map_values(|w: &str| lower_of(w@))
}

/// What a wake-phrase search reports for `text`: the matched phrase, followed
/// by a space and the trailing words when there are any.
pub open spec fn wake_report(text: Seq<char>, words: Seq<&str>) -> Option<Seq<char>> {
    let ps = lowered(words);
    match wake_hit(normalized(text), ps) {
        Some((k, rest)) => if rest.len() > 0 {
            Some(ps[k] + seq![' '] + rest)
        } else {
            Some(ps[k])
        },
        None => None,
    }
}

/// The character sequences held by `ps`.
pub open spec fn views(ps: Seq<Vec<char>>) -> Seq<Seq<char>> {
    ps.map_values(|p: Vec<char>| p@)
}

/// An ordered list of wake phrases, held lower-cased; the first that matches
/// wins.
pub struct WakeWordSet {
    phrases: Vec<Vec<char>>,
}

impl View for WakeWordSet {
    type V = Seq<Seq<char>>;

    closed spec fn view(&self) -> Seq<Seq<char>> {
        views(self.phrases@)
    }
}

impl WakeWordSet {
    /// The set of the lower-cased forms of `words`, in order.
    pub fn new(words: &[&str]) -> (r: WakeWordSet)
        ensures
            r@ == lowered(words@),
    {
        let mut phrases: Vec<Vec<char>> = Vec::new();
        let mut i: usize = 0;
        while i < words.len()
            invariant
                i <= words@.len(),
                views(phrases@) == lowered(words@).subrange(0, i as int),
            decreases words@.len() - i,
        {
            let w: &str = words[i];
            let low = lowercase(w);
            let cs = chars_of(low.as_str());
            assert(w@ == words@[i as int]@);
            assert(lowered(words@)[i as int] == lower_of(words@[i as int]@));
            assert(cs@ == lowered(words@)[i as int]);
            let ghost before = phrases@;
            phrases.push(cs);
            proof {
                assert(phrases@ == before.push(cs));
                assert(views(before).len() == before.len());
                assert(lowered(words@).len() == words@.len());
                assert(before.len() == i);
                assert forall|j: int| 0 <= j < i + 1 implies #[trigger] views(phrases@)[j]
                    == lowered(words@).subrange(0, i + 1)[j] by {
                    if j < i {
                        assert(views(before)[j] == lowered(words@).subrange(0, i as int)[j]);
                    }
                }
                assert(views(phrases@) =~= lowered(words@).subrange(0, i + 1));
            }
            i = i + 1;
        }
        assert(lowered(words@).subrange(0, words@.len() as int) =~= lowered(words@));
        WakeWordSet { phrases }
    }

    /// The set of `phrases` as given, in order; they are matched as they are.
    pub fn from_phrases(phrases: Vec<Vec<char>>) -> (r: WakeWordSet)
        ensures
            r@ == views(phrases@),
    {
        WakeWordSet { phrases }
    }

    pub fn len(&self) -> (r: usize)
        ensures
            r == self@.len(),
    {
        self.phrases.len()
    }

    /// For a normalized transcript `t`: the index of the first phrase that
    /// occurs in it, and the trimmed text after that occurrence.
    pub fn find_wake(&self, t: &Vec<char>) -> (r: Option<(usize, Vec<char>)>)
        ensures
            match r {
                Some((k, rest)) => wake_hit(t@, self@) == Some((k as int, rest@)),
                None => wake_hit(t@, self@) is None,
            },
            r matches Some((k, _)) ==> k < self@.len(),
    {
        let tn: usize = t.len();
        if tn == 0 {
            return None;
        }
        let mut k: usize = 0;
        while k < self.phrases.len()
            invariant
                t@.len() > 0,
                tn == t@.len(),
                k <= self@.len(),
                self@.len() == self.phrases@.len(),
                first_wake(t@, self@, 0) == first_wake(t@, self@, k as int),
            decreases self@.len() - k,
        {
            let w = &self.phrases[k];
            assert(w@ == self@[k as int]);
            match find_chars(t, w) {
                Some(p) => {
                    proof {
                        let sp = find_from(t@, w@, 0);
                        assert(sp == Some(p as int));
                        assert(p + w@.len() <= t@.len()) by {
                            lemma_find_from_in_bounds(t@, w@, 0);
                        }
                    }
                    let rest = trim_chars(&copy_range(t, p + w.len(), t.len()));
                    return Some((k, rest));
                },
                None => {},
            }
            k = k + 1;
        }
        None
    }

    /// Whether the normalized transcript `t` is exactly one of the phrases.
    pub fn is_exact(&self, t: &Vec<char>) -> (r: bool)
        ensures
            r == is_exact_wake(t@, self@),
    {
        let mut k: usize = 0;
        while k < self.phrases.len()
            invariant
                k <= self@.len(),
                self@.len() == self.phrases@.len(),
                forall|j: int| 0 <= j < k ==> self@[j] != t@,
            decreases self@.len() - k,
        {
            let w = &self.phrases[k];
            assert(w@ == self@[k as int]);
            if w.len() == t.len() && crate::text::occurs_at(t, w, 0) {
                assert(t@.subrange(0, w@.len() as int) =~= t@);
                return true;
            }
            proof {
                if w@ == t@ {
                    assert(t@.subrange(0, w@.len() as int) =~= t@);
                }
            }
            k = k + 1;
        }
        false
    }

    /// The phrase at index `k`.
    pub fn phrase(&self, k: usize) -> (r: Vec<char>)
        requires
            k < self@.len(),
        ensures
            r@ == self@[k as int],
    {
        self.phrases[k].clone()
    }
}

proof fn lemma_find_from_in_bounds(t: Seq<char>, w: Seq<char>, p: int)
    requires
        find_from(t, w, p) is Some,
    ensures
        0 <= find_from(t, w, p)->0,
        find_from(t, w, p)->0 + w.len() <= t.len(),
        p <= find_from(t, w, p)->0,
    decreases t.len() + 1 - p,
{
    if !(p < 0 || p + w.len() > t.len()) && t.subrange(p, p + w.len()) != w {
        lemma_find_from_in_bounds(t, w, p + 1);
    }
}

/// A transcript trimmed and then lower-cased, as a sequence of characters.
pub fn normalize(text: &str) -> (r: Vec<char>)
    ensures
        r@ == normalized(text@),
{
    let trimmed = string_of(&trim_chars(&chars_of(text)));
    chars_of(lowercase(trimmed.as_str()).as_str())
}

/// The wake phrase found in `text`, trimmed and lower-cased, followed by a
/// space and the trailing words when there are any; the first of
/// `wake_words` that occurs wins, and a blank transcript matches nothing.
pub fn contains_wake_word(text: &str, wake_words: &[&str]) -> (r: Option<String>)
    ensures
        match r {
            Some(s) => wake_report(text@, wake_words@) == Some(s@),
            None => wake_report(text@, wake_words@) is None,
        },
{
    let set = WakeWordSet::new(wake_words);
    let t = normalize(text);
    match set.find_wake(&t) {
        Some((k, rest)) => {
            let mut out = set.phrase(k);
            if rest.len() > 0 {
                out.push(' ');
                let mut i: usize = 0;
                let ghost head = out@;
                while i < rest.len()
                    invariant
                        i <= rest@.len(),
                        out@ == head + rest@.subrange(0, i as int),
                    decreases rest@.len() - i,
                {
                    out.push(rest[i]);
                    assert(out@ =~= head + rest@.subrange(0, i + 1));
                    i = i + 1;
                }
                assert(rest@.subrange(0, rest@.len() as int) =~= rest@);
            }
            Some(string_of(&out))
        },
        None => None,
    }
}

/// Whether `text`, trimmed and lower-cased, is exactly one of the wake
/// phrases (compared lower-cased).
pub fn is_just_wake_word(text: &str, wake_words: &[&str]) -> (r: bool)
    ensures
        r == is_exact_wake(normalized(text@), lowered(wake_words@)),
{
    let set = WakeWordSet::new(wake_words);
    set.is_exact(&normalize(text))
}

} // verus!
