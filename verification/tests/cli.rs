use rssbot::cli::{parse_args, CliError, DEFAULT_PERIOD};

fn args(a: &[&str]) -> Vec<String> {
    a.iter().map(|s| s.to_string()).collect()
}

#[test]
fn missing_arguments_are_refused() {
    assert_eq!(parse_args(&args(&["rssbot"])).unwrap_err(), CliError::Usage);
    assert_eq!(parse_args(&args(&["rssbot", "data.json"])).unwrap_err(), CliError::Usage);
}

#[test]
fn default_period() {
    let s = parse_args(&args(&["rssbot", "data.json", "123:abc"])).unwrap();
    assert_eq!(s.datafile, "data.json");
    assert_eq!(s.token, "123:abc");
    assert_eq!(s.period, DEFAULT_PERIOD);
    assert_eq!(s.period, 3600);
}

#[test]
fn given_period() {
    let s = parse_args(&args(&["rssbot", "data.json", "123:abc", "600", "ignored"])).unwrap();
    assert_eq!(s.period, 600);
}

#[test]
fn bad_period() {
    assert_eq!(parse_args(&args(&["rssbot", "d", "t", "-1"])).unwrap_err(), CliError::BadPeriod);
    assert_eq!(parse_args(&args(&["rssbot", "d", "t", "ten"])).unwrap_err(), CliError::BadPeriod);
}
