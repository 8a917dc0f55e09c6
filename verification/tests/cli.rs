use sherion::cli::parse_args;

fn args(list: &[&str]) -> Vec<String> {
    list.iter().map(|s| s.to_string()).collect()
}

#[test]
fn profile_flag_takes_the_next_argument() {
    assert_eq!(parse_args(&args(&["--profile", "work"])), Some("work".to_owned()));
    assert_eq!(parse_args(&args(&["-v", "--profile", "home", "x"])), Some("home".to_owned()));
}

#[test]
fn last_profile_flag_wins() {
    assert_eq!(parse_args(&args(&["--profile", "a", "--profile", "b"])), Some("b".to_owned()));
}

#[test]
fn trailing_profile_flag_selects_nothing() {
    assert_eq!(parse_args(&args(&["--profile"])), None);
    assert_eq!(parse_args(&args(&["--profile", "a", "--profile"])), None);
}

#[test]
fn no_profile_flag() {
    assert_eq!(parse_args(&args(&[])), None);
    assert_eq!(parse_args(&args(&["--profiles", "a"])), None);
}
