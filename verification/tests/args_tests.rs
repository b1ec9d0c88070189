use twitchbot::args::{Args, ArgsError};

fn args(words: &[&str]) -> Args {
    Args::new(words.iter().map(|s| s.to_string()).collect())
}

#[test]
fn len_and_is_empty() {
    assert_eq!(args(&[]).len(), 0);
    assert!(args(&[]).is_empty());
    assert_eq!(args(&["a", "b"]).len(), 2);
    assert!(!args(&["a"]).is_empty());
}

#[test]
fn reads_arguments_in_order() {
    let mut a = args(&["bob", "12", "x"]);
    assert_eq!(a.arg::<String>("who").unwrap(), "bob");
    assert_eq!(a.arg::<i64>("n").unwrap(), 12);
    assert_eq!(a.arg::<String>("z").unwrap(), "x");
    assert!(matches!(a.arg::<String>("more"), Err(ArgsError::Custom(n)) if n == "more"));
}

#[test]
fn parse_error_keeps_position() {
    let mut a = args(&["ten", "10"]);
    assert!(matches!(a.arg::<i64>("n"), Err(ArgsError::Parse)));
    // The failed read did not move on: the same argument is read again.
    assert_eq!(a.arg::<String>("n").unwrap(), "ten");
    assert_eq!(a.arg::<i64>("n").unwrap(), 10);
}

#[test]
fn missing_argument_is_named() {
    let mut a = args(&[]);
    match a.arg::<String>("person") {
        Err(ArgsError::Custom(name)) => assert_eq!(name, "person"),
        _ => panic!("expected a missing argument"),
    }
}

#[test]
fn error_messages() {
    assert_eq!(ArgsError::OutOfBounds.message(), "Argument out of bounds");
    assert_eq!(ArgsError::Parse.message(), "Unable to parse argument");
    assert_eq!(ArgsError::Custom("who".to_string()).message(), "Argument 'who not found");
}

#[test]
fn duplicate_keeps_position() {
    let mut a = args(&["1", "2"]);
    let _ = a.arg::<i64>("x");
    let mut b = a.duplicate();
    assert_eq!(b.arg::<i64>("y").unwrap(), 2);
    assert_eq!(a.arg::<i64>("y").unwrap(), 2);
}

#[test]
fn cursor_stops_at_the_end() {
    let mut a = args(&["x", "y"]);
    let mut read = Vec::new();
    for _ in 0..5 {
        if let Ok(s) = a.arg::<String>("w") {
            read.push(s);
        }
    }
    assert_eq!(read, vec!["x".to_string(), "y".to_string()]);
    assert_eq!(a.len(), 2);
}
