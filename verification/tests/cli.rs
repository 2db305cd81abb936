use fit_video::cli::{parse_args, resolve_args, ArgError, CliCommand, ValidationError};
use fit_video::fit::{extract_metrics, FitData};
use fit_video::report::combine_lines;

fn args(tokens: &[&str]) -> Vec<String> {
    tokens.iter().map(|t| t.to_string()).collect()
}

fn joined(lines: &[String]) -> String {
    lines.join("\n")
}

fn usage_text() -> String {
    joined(&fit_video::cli::usage_lines())
}

#[test]
fn cmd_runs() {
    // fit-video with no arguments must fail
    assert!(parse_args(&args(&[])).is_err());
}

#[test]
fn help_long_flag() {
    // fit-video --help
    let r = parse_args(&args(&["--help"]));
    assert!(matches!(r, Ok(CliCommand::Help)));
    assert!(usage_text().contains("Usage:"));
}

#[test]
fn help_short_flag() {
    // fit-video -h
    let r = parse_args(&args(&["-h"]));
    assert!(matches!(r, Ok(CliCommand::Help)));
    assert!(usage_text().contains("Usage:"));
}

#[test]
fn output_long_flag() {
    // fit-video --output output.mp4: fails without fit and video files
    assert!(parse_args(&args(&["--output", "output.mp4"])).is_err());
}

#[test]
fn output_short_flag() {
    // fit-video -o output.mp4: fails without fit and video files
    assert!(parse_args(&args(&["-o", "output.mp4"])).is_err());
}

#[test]
fn fit_long_flag() {
    // fit-video --fit activity.fit (file exists): fails without video files
    // or the metrics flag
    let raw = match parse_args(&args(&["--fit", "activity.fit"])) {
        Ok(CliCommand::Run(raw)) => raw,
        _ => panic!("expected a run command"),
    };
    let r = resolve_args(raw, true, &vec![]);
    assert!(matches!(r, Err(ValidationError::VideosRequired)));
}

#[test]
fn fit_short_flag() {
    // fit-video -f activity.fit (file exists): fails without video files or
    // the metrics flag
    let raw = match parse_args(&args(&["-f", "activity.fit"])) {
        Ok(CliCommand::Run(raw)) => raw,
        _ => panic!("expected a run command"),
    };
    let r = resolve_args(raw, true, &vec![]);
    assert!(matches!(r, Err(ValidationError::VideosRequired)));
}

#[test]
fn video_files_no_flag() {
    // fit-video video1.mp4 video2.mp4: fails without the fit flag
    let r = parse_args(&args(&["video1.mp4", "video2.mp4"]));
    assert!(matches!(r, Err(ArgError::MissingFit)));
}

#[test]
fn complete_valid_command() {
    // fit-video --fit activity.fit --output output.mp4 video1.mp4 video2.mp4
    let raw = match parse_args(&args(&[
        "--fit",
        "activity.fit",
        "--output",
        "output.mp4",
        "video1.mp4",
        "video2.mp4",
    ])) {
        Ok(CliCommand::Run(raw)) => raw,
        _ => panic!("expected a run command"),
    };
    let cfg = resolve_args(raw, true, &vec![true, true]).unwrap();
    assert!(joined(&combine_lines(&cfg)).contains("output.mp4"));
}

#[test]
fn complete_valid_command_short_flags() {
    // fit-video -f activity.fit -o output.mp4 video1.mp4
    let raw = match parse_args(&args(&["-f", "activity.fit", "-o", "output.mp4", "video1.mp4"])) {
        Ok(CliCommand::Run(raw)) => raw,
        _ => panic!("expected a run command"),
    };
    let cfg = resolve_args(raw, true, &vec![true]).unwrap();
    assert!(joined(&combine_lines(&cfg)).contains("output.mp4"));
}

#[test]
fn without_output_flag() {
    // fit-video --fit activity.fit video1.mp4: uses the default output file
    let raw = match parse_args(&args(&["--fit", "activity.fit", "video1.mp4"])) {
        Ok(CliCommand::Run(raw)) => raw,
        _ => panic!("expected a run command"),
    };
    let cfg = resolve_args(raw, true, &vec![true]).unwrap();
    assert_eq!(cfg.output_file, "movie.mp4");
    assert!(joined(&combine_lines(&cfg)).contains("movie.mp4"));
}

#[test]
fn without_output_flag_short() {
    // fit-video -f activity.fit video1.mp4: uses the default output file
    let raw = match parse_args(&args(&["-f", "activity.fit", "video1.mp4"])) {
        Ok(CliCommand::Run(raw)) => raw,
        _ => panic!("expected a run command"),
    };
    let cfg = resolve_args(raw, true, &vec![true]).unwrap();
    assert!(joined(&combine_lines(&cfg)).contains("movie.mp4"));
}

#[test]
fn metrics_long_flag() {
    // fit-video --fit activity.fit --metrics (empty existing file)
    let raw = match parse_args(&args(&["--fit", "activity.fit", "--metrics"])) {
        Ok(CliCommand::Run(raw)) => raw,
        _ => panic!("expected a run command"),
    };
    let cfg = resolve_args(raw, true, &vec![]).unwrap();
    assert!(cfg.metrics_mode);
    let lines = extract_metrics(&FitData::Invalid);
    assert!(joined(&lines).contains("Metrics found in FIT file"));
}

#[test]
fn metrics_short_flag() {
    // fit-video -f activity.fit -m (empty existing file)
    let raw = match parse_args(&args(&["-f", "activity.fit", "-m"])) {
        Ok(CliCommand::Run(raw)) => raw,
        _ => panic!("expected a run command"),
    };
    let cfg = resolve_args(raw, true, &vec![]).unwrap();
    assert!(cfg.metrics_mode);
    let lines = extract_metrics(&FitData::Invalid);
    assert!(joined(&lines).contains("Metrics found in FIT file"));
}

#[test]
fn metrics_with_output() {
    // fit-video --fit activity.fit --metrics --output metrics.txt
    let raw = match parse_args(&args(&[
        "--fit",
        "activity.fit",
        "--metrics",
        "--output",
        "metrics.txt",
    ])) {
        Ok(CliCommand::Run(raw)) => raw,
        _ => panic!("expected a run command"),
    };
    let cfg = resolve_args(raw, true, &vec![]).unwrap();
    assert!(cfg.metrics_mode);
    assert_eq!(cfg.output_file, "metrics.txt");
    let lines = extract_metrics(&FitData::Invalid);
    assert!(joined(&lines).contains("Metrics found in FIT file"));
}

#[test]
fn metrics_with_videos() {
    // fit-video --fit activity.fit --metrics video1.mp4: the video file is
    // ignored and the metrics listing is shown, not the video placeholder
    let raw = match parse_args(&args(&["--fit", "activity.fit", "--metrics", "video1.mp4"])) {
        Ok(CliCommand::Run(raw)) => raw,
        _ => panic!("expected a run command"),
    };
    let cfg = resolve_args(raw, true, &vec![true]).unwrap();
    assert!(cfg.metrics_mode);
    let lines = extract_metrics(&FitData::Invalid);
    let text = joined(&lines);
    assert!(text.contains("Metrics found in FIT file"));
    assert!(!text.contains("Video files to process:"));
}

#[test]
fn missing_fit_file() {
    // fit-video --output output.mp4 video1.mp4: fails, naming the fit flag
    let r = parse_args(&args(&["--output", "output.mp4", "video1.mp4"]));
    match r {
        Err(e) => assert!(e.message().contains("fit")),
        Ok(_) => panic!("expected a parse failure"),
    }
}

#[test]
fn missing_video_files_without_metrics() {
    // fit-video --fit activity.fit --output output.mp4: fails, mentioning
    // video files
    let raw = match parse_args(&args(&["--fit", "activity.fit", "--output", "output.mp4"])) {
        Ok(CliCommand::Run(raw)) => raw,
        _ => panic!("expected a run command"),
    };
    match resolve_args(raw, true, &vec![]) {
        Err(e) => assert!(e.message().contains("Video")),
        Ok(_) => panic!("expected a validation failure"),
    }
}
