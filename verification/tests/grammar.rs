use fit_video::cli::{parse_args, ArgError, CliCommand};

fn args(tokens: &[&str]) -> Vec<String> {
    tokens.iter().map(|t| t.to_string()).collect()
}

#[test]
fn version_flag() {
    assert!(matches!(parse_args(&args(&["--version"])), Ok(CliCommand::Version)));
    assert!(matches!(parse_args(&args(&["-V"])), Ok(CliCommand::Version)));
}

#[test]
fn unknown_flag_rejected() {
    match parse_args(&args(&["--bogus"])) {
        Err(ArgError::UnknownFlag(t)) => {
            assert_eq!(t, "--bogus");
            assert!(ArgError::UnknownFlag(t).message().contains("--bogus"));
        }
        _ => panic!("expected an unknown-flag failure"),
    }
}

#[test]
fn value_flag_without_value_rejected() {
    match parse_args(&args(&["--fit"])) {
        Err(ArgError::MissingValue(f)) => assert_eq!(f, "--fit"),
        _ => panic!("expected a missing-value failure"),
    }
    match parse_args(&args(&["--fit", "a.fit", "--output"])) {
        Err(ArgError::MissingValue(f)) => assert_eq!(f, "--output"),
        _ => panic!("expected a missing-value failure"),
    }
}

#[test]
fn repeated_flag_rejected() {
    match parse_args(&args(&["--fit", "a.fit", "--fit", "b.fit"])) {
        Err(ArgError::Repeated(f)) => assert_eq!(f, "--fit"),
        _ => panic!("expected a repeated-flag failure"),
    }
    match parse_args(&args(&["-m", "--metrics", "--fit", "a.fit"])) {
        Err(ArgError::Repeated(f)) => assert_eq!(f, "--metrics"),
        _ => panic!("expected a repeated-flag failure"),
    }
}

#[test]
fn separator_ends_flag_processing() {
    // after `--`, every token is a positional video file
    match parse_args(&args(&["--fit", "a.fit", "--", "--metrics", "-x"])) {
        Ok(CliCommand::Run(raw)) => {
            assert!(!raw.metrics_mode);
            assert_eq!(raw.videos, vec!["--metrics".to_string(), "-x".to_string()]);
        }
        _ => panic!("expected a run command"),
    }
}

#[test]
fn lone_dash_is_positional() {
    match parse_args(&args(&["--fit", "a.fit", "-"])) {
        Ok(CliCommand::Run(raw)) => assert_eq!(raw.videos, vec!["-".to_string()]),
        _ => panic!("expected a run command"),
    }
}

#[test]
fn parsed_fields_are_exact() {
    match parse_args(&args(&["-f", "a.fit", "-m", "-o", "out.mp4", "v1.mp4", "v2.mp4"])) {
        Ok(CliCommand::Run(raw)) => {
            assert_eq!(raw.fit_file, "a.fit");
            assert!(raw.metrics_mode);
            assert_eq!(raw.output_file, Some("out.mp4".to_string()));
            assert_eq!(raw.videos, vec!["v1.mp4".to_string(), "v2.mp4".to_string()]);
        }
        _ => panic!("expected a run command"),
    }
}

#[test]
fn help_wins_over_later_errors() {
    assert!(matches!(parse_args(&args(&["--help", "--bogus"])), Ok(CliCommand::Help)));
}

#[test]
fn usage_lines_start_with_usage() {
    let lines = fit_video::cli::usage_lines();
    assert_eq!(lines[2], "Usage: fit-video [OPTIONS] --fit <FIT_FILE> [VIDEO_FILES]...");
}
