use vstd::prelude::*;
use crate::text::{chars_of, find_from, is_space, string_of, trim, trim_chars, trim_start};
use crate::wake::{
    first_wake, is_exact_wake, normalize, normalized, wake_hit, WakeWordSet,
};

verus! {

/// Where the listener stands: waiting for a wake phrase, or inside the
/// command window opened by one at time `since` (in milliseconds).
#[derive(Clone, Copy, Debug, PartialEq, Eq, Structural)]
pub enum ListeningState {
    Idle,
    WakeDetected { since: u64 },
}

/// The next state and the command fired, if any, for a finalized transcript
/// whose normalized form is `t` and whose trimmed form is `c`, against the
/// lower-cased phrases `ps`, at time `now`.
pub open spec fn react(
    state: ListeningState,
    t: Seq<char>,
    c: Seq<char>,
    ps: Seq<Seq<char>>,
    now: u64,
) -> (ListeningState, Option<Seq<char>>) {
    match state {
        ListeningState::Idle => match wake_hit(t, ps) {
            None => (ListeningState::Idle, None),
            Some((_, rest)) => if is_exact_wake(t, ps) {
                (ListeningState::WakeDetected { since: now }, None)
            } else {
                (ListeningState::Idle, Some(rest))
            },
        },
        ListeningState::WakeDetected { .. } => if c.len() > 0 {
            (ListeningState::Idle, Some(c))
        } else {
            (state, None)
        },
    }
}

/// The step of the state machine for a transcript given in its normalized
/// form `t` (trimmed, lower-cased) and its trimmed form `c`.
pub fn react_normalized(
    state: ListeningState,
    t: &Vec<char>,
    c: &Vec<char>,
    set: &WakeWordSet,
    now: u64,
) -> (r: (ListeningState, Option<Vec<char>>))
    ensures
        r.0 == react(state, t@, c@, set@, now).0,
        match r.1 {
            Some(cmd) => react(state, t@, c@, set@, now).1 == Some(cmd@),
            None => react(state, t@, c@, set@, now).1 is None,
        },
{
    match state {
        ListeningState::Idle => match set.find_wake(t) {
            None => (ListeningState::Idle, None),
            Some((_, rest)) => {
                if set.is_exact(t) {
                    (ListeningState::WakeDetected { since: now }, None)
                } else {
                    (ListeningState::Idle, Some(rest))
                }
            },
        },
        ListeningState::WakeDetected { .. } => {
            if c.len() > 0 {
                (ListeningState::Idle, Some(c.clone()))
            } else {
                (state, None)
            }
        },
    }
}

/// The step of the state machine for the finalized transcript `text` at time
/// `now`: it is trimmed and lower-cased before it is matched against `set`,
/// and a command caught inside the window is the trimmed transcript.
pub fn transition(state: ListeningState, text: &str, set: &WakeWordSet, now: u64) -> (r: (
    ListeningState,
    Option<String>,
))
    ensures
        r.0 == react(state, normalized(text@), trim(text@), set@, now).0,
        match r.1 {
            Some(cmd) => react(state, normalized(text@), trim(text@), set@, now).1 == Some(cmd@),
            None => react(state, normalized(text@), trim(text@), set@, now).1 is None,
        },
{
    let t = normalize(text);
    let c = trim_chars(&chars_of(text));
    let (next, cmd) = react_normalized(state, &t, &c, set, now);
    match cmd {
        Some(v) => (next, Some(string_of(&v))),
        None => (next, None),
    }
}

proof fn lemma_find_self(t: Seq<char>)
    ensures
        find_from(t, t, 0) == Some(0int),
{
    assert(t.subrange(0, t.len() as int) =~= t);
}

proof fn lemma_first_wake_some(t: Seq<char>, ps: Seq<Seq<char>>, k: int, j: int)
    requires
        0 <= k <= j < ps.len(),
        find_from(t, ps[j], 0) is Some,
    ensures
        first_wake(t, ps, k) is Some,
    decreases j - k,
{
    if find_from(t, ps[k], 0) is None {
        lemma_first_wake_some(t, ps, k + 1, j);
    }
}

proof fn lemma_first_wake_at(t: Seq<char>, ps: Seq<Seq<char>>, k: int, j: int)
    requires
        0 <= k <= j < ps.len(),
        find_from(t, ps[j], 0) == Some(0int),
        forall|i: int| k <= i < j ==> find_from(t, #[trigger] ps[i], 0) is None,
    ensures
        first_wake(t, ps, k) == Some((j, 0int)),
    decreases j - k,
{
    if k < j {
        lemma_first_wake_at(t, ps, k + 1, j);
    }
}

/// A transcript that is exactly one of the wake phrases, once normalized,
/// opens the command window at the current time and fires nothing.
pub proof fn lemma_exact_phrase_opens_window(
    t: Seq<char>,
    c: Seq<char>,
    ps: Seq<Seq<char>>,
    j: int,
    now: u64,
)
    requires
        t.len() > 0,
        0 <= j < ps.len(),
        ps[j] == t,
    ensures
        react(ListeningState::Idle, t, c, ps, now) == (
        ListeningState::WakeDetected { since: now },
        None::<Seq<char>>,
        ),
{
    lemma_find_self(t);
    lemma_first_wake_some(t, ps, 0, j);
    assert(is_exact_wake(t, ps));
}

/// While idle, a transcript made of a wake phrase, one space and a trimmed,
/// non-empty command fires that command and stays idle, provided no earlier
/// phrase occurs in it and the whole is not itself a phrase.
pub proof fn lemma_phrase_with_command_fires(
    t: Seq<char>,
    c: Seq<char>,
    cmd: Seq<char>,
    ps: Seq<Seq<char>>,
    j: int,
    now: u64,
)
    requires
        0 <= j < ps.len(),
        t == ps[j] + seq![' '] + cmd,
        cmd.len() > 0,
        trim(cmd) == cmd,
        forall|i: int| 0 <= i < j ==> find_from(t, #[trigger] ps[i], 0) is None,
        !is_exact_wake(t, ps),
    ensures
        react(ListeningState::Idle, t, c, ps, now) == (ListeningState::Idle, Some(cmd)),
{
    let w = ps[j];
    assert(t.subrange(0, w.len() as int) =~= w);
    assert(find_from(t, w, 0) == Some(0int));
    lemma_first_wake_at(t, ps, 0, j);
    let tail = t.subrange(w.len() as int, t.len() as int);
    assert(tail =~= seq![' '] + cmd);
    assert(is_space(' '));
    assert(tail.drop_first() =~= cmd);
    assert(trim_start(tail) == trim_start(cmd));
    assert(trim(tail) == trim(cmd));
}

/// Inside the command window, any transcript that is not blank fires, with
/// the trimmed transcript as the command, and closes the window.
pub proof fn lemma_window_fires_on_speech(
    since: u64,
    t: Seq<char>,
    c: Seq<char>,
    ps: Seq<Seq<char>>,
    now: u64,
)
    requires
        c.len() > 0,
    ensures
        react(ListeningState::WakeDetected { since }, t, c, ps, now) == (
        ListeningState::Idle,
        Some(c),
        ),
{
}

} // verus!
