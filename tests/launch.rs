use wake_trigger::launch_pairs;

fn strings(v: &[&str]) -> Vec<String> {
    v.iter().map(|s| s.to_string()).collect()
}

fn pairs(v: &[(&str, &str)]) -> Vec<(String, String)> {
    v.iter().map(|(a, b)| (a.to_string(), b.to_string())).collect()
}

#[test]
fn option_values_gather_following_words() {
    let args = strings(&["--model", "my", "model", "--device", "USB Mic", "--flag"]);
    assert_eq!(launch_pairs(&args), pairs(&[("--model", "my model"), ("--device", "USB Mic")]));
}

#[test]
fn leading_words_are_skipped() {
    let args = strings(&["path", "-x", "--device", "mic"]);
    assert_eq!(launch_pairs(&args), pairs(&[("--device", "mic")]));
}

#[test]
fn option_takes_next_argument_even_if_it_is_an_option() {
    let args = strings(&["--a", "--b", "c"]);
    assert_eq!(launch_pairs(&args), pairs(&[("--a", "--b c")]));
}

#[test]
fn no_arguments_give_no_pairs() {
    assert_eq!(launch_pairs(&Vec::new()), Vec::new());
    assert_eq!(launch_pairs(&strings(&["--only"])), Vec::new());
}
