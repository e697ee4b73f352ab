use lychen::settings::{from_args, get_settings};

fn args(v: &[&str]) -> Vec<String> {
    v.iter().map(|s| s.to_string()).collect()
}

#[test]
fn settings_table() {
    let s = get_settings();
    assert_eq!(s.len(), 3);
    assert_eq!(s[0].name(), "--square-size");
    assert_eq!(s[0].short(), "-s");
    assert_eq!(s[0].default(), &vec![10]);
    assert_eq!(s[1].name(), "--window-size");
    assert_eq!(s[1].default(), &vec![500, 300]);
    assert_eq!(s[2].name(), "--model-size");
    assert_eq!(s[2].default(), &vec![50, 30]);
}

#[test]
fn defaults_without_arguments() {
    let r = from_args(&args(&["lychen"])).unwrap();
    assert_eq!(r, vec![vec![10], vec![500, 300], vec![50, 30]]);
}

#[test]
fn options_override_defaults() {
    let r = from_args(&args(&["lychen", "--model-size", "20", "+7", "--square-size", "4"])).unwrap();
    assert_eq!(r, vec![vec![4], vec![500, 300], vec![20, 7]]);
    let r = from_args(&args(&["lychen", "--square-size", "4", "--square-size", "0"])).unwrap();
    assert_eq!(r[0], vec![0]);
}

#[test]
fn unknown_option_is_refused() {
    assert_eq!(from_args(&args(&["lychen", "-m", "3", "3"])), Err("Invalid argument.".to_string()));
    assert_eq!(from_args(&args(&["lychen", "--square-size", "3", "7"])), Err("Invalid argument.".to_string()));
}

#[test]
fn bad_numbers_are_refused() {
    let msg = Err("Argument must be an integer.".to_string());
    assert_eq!(from_args(&args(&["lychen", "--model-size", "20"])), msg);
    assert_eq!(from_args(&args(&["lychen", "--model-size", "20", "x"])), msg);
    assert_eq!(from_args(&args(&["lychen", "--square-size", "-1"])), msg);
    assert_eq!(from_args(&args(&["lychen", "--square-size", "4294967296"])), msg);
    assert_eq!(from_args(&args(&["lychen", "--square-size", "+"])), msg);
    assert_eq!(from_args(&args(&["lychen", "--square-size", "4294967295"])).unwrap()[0], vec![4294967295]);
}
