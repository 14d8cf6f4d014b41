use wake_trigger::{
    react_normalized, transition, Listener, ListeningState, PollAction, Timing, WakeWordSet,
};

fn iris() -> WakeWordSet {
    WakeWordSet::new(&["hey iris"])
}

fn chars(s: &str) -> Vec<char> {
    s.chars().collect()
}

#[test]
fn exact_phrase_opens_the_window() {
    let set = iris();
    let (state, cmd) = transition(ListeningState::Idle, "  Hey Iris ", &set, 1000);
    assert_eq!(state, ListeningState::WakeDetected { since: 1000 });
    assert_eq!(cmd, None);
}

#[test]
fn phrase_with_command_fires_and_stays_idle() {
    let set = iris();
    let (state, cmd) = transition(ListeningState::Idle, "hey iris turn off the lights", &set, 5);
    assert_eq!(state, ListeningState::Idle);
    assert_eq!(cmd, Some("turn off the lights".to_string()));
}

#[test]
fn idle_ignores_speech_without_phrase() {
    let set = iris();
    assert_eq!(transition(ListeningState::Idle, "turn on the lights", &set, 5), (ListeningState::Idle, None));
    assert_eq!(transition(ListeningState::Idle, "", &set, 5), (ListeningState::Idle, None));
}

#[test]
fn phrase_after_other_words_fires_empty_command() {
    let set = iris();
    assert_eq!(
        transition(ListeningState::Idle, "oh hey iris", &set, 5),
        (ListeningState::Idle, Some(String::new()))
    );
}

#[test]
fn window_takes_any_speech_as_command() {
    let set = iris();
    let open = ListeningState::WakeDetected { since: 10 };
    assert_eq!(
        transition(open, "  Turn On The Lights ", &set, 900),
        (ListeningState::Idle, Some("Turn On The Lights".to_string()))
    );
    assert_eq!(transition(open, "hey iris", &set, 900), (ListeningState::Idle, Some("hey iris".to_string())));
    assert_eq!(transition(open, " \t ", &set, 900), (open, None));
}

#[test]
fn normalized_step_matches_given_forms() {
    let set = WakeWordSet::from_phrases(vec![chars("hey iris")]);
    let (state, cmd) = react_normalized(ListeningState::Idle, &chars("hey iris go"), &chars("Hey Iris go"), &set, 7);
    assert_eq!(state, ListeningState::Idle);
    assert_eq!(cmd, Some(chars("go")));
    let (state, cmd) = react_normalized(ListeningState::Idle, &chars("hey iris"), &chars("hey iris"), &set, 7);
    assert_eq!(state, ListeningState::WakeDetected { since: 7 });
    assert_eq!(cmd, None);
}

#[test]
fn wake_phrase_then_command_fires() {
    let set = iris();
    let timing = Timing::standard();
    let mut l = Listener::new(0);
    l.on_transcript("hey iris", &set, 1_000);
    assert_eq!(l.state(), ListeningState::WakeDetected { since: 1_000 });
    assert!(!l.is_triggered());
    assert_eq!(l.poll(1_200, &timing), PollAction::Wait);
    assert_eq!(l.poll(1_400, &timing), PollAction::AwaitCommand);
    assert_eq!(l.poll(1_500, &timing), PollAction::Wait);
    l.on_transcript("turn on the lights", &set, 2_000);
    assert_eq!(l.state(), ListeningState::Idle);
    assert!(l.is_triggered());
    assert_eq!(l.poll(2_010, &timing), PollAction::Fire("turn on the lights".to_string()));
    assert!(!l.is_triggered());
    assert_eq!(l.poll(2_060, &timing), PollAction::Wait);
}

#[test]
fn single_utterance_fires_at_once() {
    let set = iris();
    let timing = Timing::standard();
    let mut l = Listener::new(0);
    l.on_transcript("hey iris turn off the lights", &set, 500);
    assert_eq!(l.state(), ListeningState::Idle);
    assert_eq!(l.poll(520, &timing), PollAction::Fire("turn off the lights".to_string()));
    assert_eq!(l.poll(570, &timing), PollAction::Wait);
}

#[test]
fn silent_window_times_out() {
    let set = iris();
    let timing = Timing::standard();
    let mut l = Listener::new(0);
    l.on_transcript("hey iris", &set, 1_000);
    assert_eq!(l.poll(3_000, &timing), PollAction::AwaitCommand);
    assert_eq!(l.poll(4_000, &timing), PollAction::Wait);
    assert_eq!(l.poll(4_001, &timing), PollAction::Timeout);
    assert_eq!(l.state(), ListeningState::Idle);
    assert!(!l.is_triggered());
    assert_eq!(l.poll(4_050, &timing), PollAction::Wait);
}

#[test]
fn trigger_is_not_overwritten_before_drained() {
    let set = iris();
    let timing = Timing::standard();
    let mut l = Listener::new(0);
    l.on_transcript("hey iris first", &set, 10);
    l.on_transcript("hey iris second", &set, 20);
    assert_eq!(l.poll(30, &timing), PollAction::Fire("first".to_string()));
    assert_eq!(l.poll(40, &timing), PollAction::Wait);
}

#[test]
fn capture_error_resets_listening() {
    let set = iris();
    let timing = Timing::standard();
    let mut l = Listener::new(0);
    l.on_transcript("hey iris", &set, 10);
    l.on_transcript("lights", &set, 20);
    l.report_error("device lost".to_string());
    assert_eq!(l.poll(30, &timing), PollAction::Fault("device lost".to_string()));
    assert_eq!(l.state(), ListeningState::Idle);
    assert!(!l.is_triggered());
    l.on_transcript("hey iris", &set, 40);
    l.report_error("device lost again".to_string());
    assert_eq!(l.poll(50, &timing), PollAction::Fault("device lost again".to_string()));
    assert_eq!(l.state(), ListeningState::Idle);
}

#[test]
fn ceiling_stops_listening() {
    let timing = Timing { grace_ms: 350, command_timeout_ms: 3000, rotation_ms: 600_000, ceiling_ms: 100 };
    let mut l = Listener::new(1_000);
    assert_eq!(l.poll(1_100, &timing), PollAction::Wait);
    assert_eq!(l.poll(1_101, &timing), PollAction::Stop);
}

#[test]
fn standard_timing_values() {
    let t = Timing::standard();
    assert_eq!((t.grace_ms, t.command_timeout_ms, t.rotation_ms, t.ceiling_ms), (350, 3000, 600_000, 86_400_000));
}

#[test]
fn json_results_feed_the_machine() {
    let set = iris();
    let timing = Timing::standard();
    let mut l = Listener::new(0);
    assert!(l.on_result_json("{\"text\" : \"hey iris\"}", &set, 100));
    assert_eq!(l.state(), ListeningState::WakeDetected { since: 100 });
    assert!(!l.on_result_json("{\"partial\": \"x\"}", &set, 200));
    assert!(!l.on_result_json("not json", &set, 200));
    assert!(!l.on_result_json("{\"text\": 5}", &set, 200));
    assert_eq!(l.state(), ListeningState::WakeDetected { since: 100 });
    assert!(l.on_result_json("{\"text\": \"open the door\"}", &set, 300));
    assert_eq!(l.poll(310, &timing), PollAction::Fire("open the door".to_string()));
}

#[test]
fn empty_json_text_changes_nothing_when_idle() {
    let set = iris();
    let mut l = Listener::new(0);
    assert!(l.on_result_json("{\"text\": \"\"}", &set, 100));
    assert_eq!(l.state(), ListeningState::Idle);
    assert!(!l.is_triggered());
}
