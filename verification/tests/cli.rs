use sql_optimizer_labs::cli::{check_args, Args, ArgsError};

fn args(v: &[&str]) -> Vec<String> {
    v.iter().map(|s| s.to_string()).collect()
}

#[test]
fn args_defaults() {
    let a = Args::parse(&args(&[]));
    assert_eq!(a.samples, 5);
    assert!(a.csv.is_none() && a.markdown.is_none());
}

#[test]
fn args_all_flags() {
    let v = args(&["--csv", "out.csv", "--samples", "9", "--markdown", "r.md", "--samples", "+3"]);
    assert!(check_args(&v).is_none());
    let a = Args::parse(&v);
    assert_eq!(a.samples, 3);
    assert_eq!(a.csv.as_deref(), Some("out.csv"));
    assert_eq!(a.markdown.as_deref(), Some("r.md"));
}

#[test]
fn args_errors() {
    assert!(matches!(check_args(&args(&["--samples"])), Some(ArgsError::MissingValue(f)) if f == "--samples"));
    assert!(matches!(check_args(&args(&["--csv"])), Some(ArgsError::MissingValue(f)) if f == "--csv"));
    assert!(matches!(check_args(&args(&["--samples", "-1"])), Some(ArgsError::InvalidSamples(v)) if v == "-1"));
    assert!(matches!(check_args(&args(&["--samples", "x"])), Some(ArgsError::InvalidSamples(v)) if v == "x"));
    assert!(matches!(check_args(&args(&["--verbose"])), Some(ArgsError::UnknownFlag(v)) if v == "--verbose"));
    assert!(matches!(check_args(&args(&["--csv", "a", "b"])), Some(ArgsError::UnknownFlag(v)) if v == "b"));
}
