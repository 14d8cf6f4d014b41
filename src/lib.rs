//! Voice-trigger front end: audio downmixing, transcript matching against
//! wake phrases, the wake/command state machine, the shared signals that a
//! supervisory loop drains, and the rotating pair of decoder sessions.

mod args;
mod audio;
mod listener;
mod machine;
mod pool;
mod text;
mod wake;

pub use args::launch_pairs;
pub use audio::{downmix_i16, downmix_u16};
pub use listener::{Listener, PollAction, Timing};
pub use machine::{react_normalized, transition, ListeningState};
pub use pool::RecognizerPool;
pub use text::{copy_range, find_chars, is_space_char, occurs_at, trim_chars};
pub use wake::{contains_wake_word, is_just_wake_word, normalize, WakeWordSet};
