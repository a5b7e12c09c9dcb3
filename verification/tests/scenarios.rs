use sub_renamer::config::{Config, ConfigError, PatternRole};
use sub_renamer::execute::{
    decide_operation, summarize, ExecDecision, OpOutcome,
};
use sub_renamer::pipeline::{build_and_plan, RunPlan};
use sub_renamer::plan::RenameOperation;

fn plan_with(
    subtitle_pattern: Option<&str>,
    video_pattern: Option<&str>,
    subtitle_ext: &str,
    video_ext: &str,
    files: &[&str],
) -> Result<(Config, RunPlan), ConfigError> {
    let files: Vec<String> = files.iter().map(|f| f.to_string()).collect();
    build_and_plan(
        subtitle_pattern.map(|p| p.to_string()),
        video_pattern.map(|p| p.to_string()),
        subtitle_ext,
        video_ext,
        ".".to_string(),
        true,
        false,
        false,
        false,
        false,
        &files,
    )
}

#[test]
fn test_end_to_end_plan_and_rerun() {
    // First run: the subtitle is planned to take the video's base name.
    let (_, plan) = plan_with(
        Some(r"S(\d{2})E(\d{2})"),
        Some(r"S(\d{2})E(\d{2})"),
        "srt",
        "mkv",
        &["Show.S01E05.1080p.mkv", "subtitle.S01E05.srt"],
    )
    .unwrap();
    assert_eq!(plan.subtitle_count, 1);
    assert_eq!(plan.video_count, 1);
    assert_eq!(plan.operations.len(), 1);
    assert_eq!(plan.unmatched.len(), 0);
    assert_eq!(plan.operations[0].from, "subtitle.S01E05.srt");
    assert_eq!(plan.operations[0].to, "Show.S01E05.1080p.srt");
    assert_eq!(plan.operations[0].episode_id, "01");

    // Second run, after the rename: the destination equals the source,
    // so no operation is planned.
    let (_, plan) = plan_with(
        Some(r"S(\d{2})E(\d{2})"),
        Some(r"S(\d{2})E(\d{2})"),
        "srt",
        "mkv",
        &["Show.S01E05.1080p.mkv", "Show.S01E05.1080p.srt"],
    )
    .unwrap();
    assert_eq!(plan.operations.len(), 0);
    assert_eq!(plan.unmatched.len(), 0);
}

#[test]
fn test_plan_keeps_directory_prefix() {
    let (_, plan) = plan_with(
        Some(r"S(\d{2})E\d{2}"),
        None,
        "srt",
        "mkv",
        &["shows/Show.S01E05.1080p.mkv", "shows/sub.S01E05.srt"],
    )
    .unwrap();
    assert_eq!(plan.operations.len(), 1);
    assert_eq!(plan.operations[0].to, "shows/Show.S01E05.1080p.srt");
}

#[test]
fn test_unmatched_subtitle_is_reported() {
    // The subtitle's identifier has no video: no operation, one report.
    let (_, plan) = plan_with(
        Some(r"S(\d{2})E\d{2}"),
        Some(r"S(\d{2})E\d{2}"),
        "srt",
        "mkv",
        &["Show.S01E05.1080p.mkv", "sub.S02E01.srt"],
    )
    .unwrap();
    assert_eq!(plan.operations.len(), 0);
    assert_eq!(plan.unmatched.len(), 1);
    assert_eq!(plan.unmatched[0].path, "sub.S02E01.srt");
    assert_eq!(plan.unmatched[0].episode_id, "02");
}

#[test]
fn test_conflict_is_skipped() {
    let op = RenameOperation {
        from: "sub.S01E05.srt".to_string(),
        to: "Show.S01E05.1080p.srt".to_string(),
        episode_id: "01".to_string(),
    };
    // The destination already exists and differs from the source.
    assert_eq!(decide_operation(&op, true, false), ExecDecision::SkipConflict);
    assert_eq!(decide_operation(&op, true, true), ExecDecision::SkipConflict);
    // A conflict counts toward neither successes nor errors.
    let summary = summarize(&vec![OpOutcome::Conflict]);
    assert_eq!(summary.successes, 0);
    assert_eq!(summary.errors, 0);
}

#[test]
fn test_existing_destination_equal_to_source_is_no_conflict() {
    let op = RenameOperation {
        from: "Show.S01E05.srt".to_string(),
        to: "Show.S01E05.srt".to_string(),
        episode_id: "01".to_string(),
    };
    assert_eq!(decide_operation(&op, true, false), ExecDecision::Rename);
}

#[test]
fn test_dry_run_simulates() {
    let op = RenameOperation {
        from: "sub.S01E05.srt".to_string(),
        to: "Show.S01E05.1080p.srt".to_string(),
        episode_id: "01".to_string(),
    };
    assert_eq!(decide_operation(&op, false, true), ExecDecision::Simulate);
    assert_eq!(decide_operation(&op, false, false), ExecDecision::Rename);
    let summary = summarize(&vec![OpOutcome::Simulated]);
    assert_eq!(summary.successes, 1);
    assert_eq!(summary.errors, 0);
}

#[test]
fn test_summarize_mixed_outcomes() {
    let summary = summarize(&vec![
        OpOutcome::Simulated,
        OpOutcome::Failed,
        OpOutcome::Conflict,
        OpOutcome::Renamed,
    ]);
    assert_eq!(summary.successes, 2);
    assert_eq!(summary.errors, 1);
}

#[test]
fn test_missing_pattern_error() {
    let err = plan_with(None, None, "srt", "mkv", &[]).err().unwrap();
    assert!(matches!(err, ConfigError::MissingPattern));
}

#[test]
fn test_invalid_subtitle_pattern_error() {
    let err = plan_with(Some(r"S(\d{2}"), Some(r"S(\d{2})"), "srt", "mkv", &[])
        .err()
        .unwrap();
    match err {
        ConfigError::InvalidPattern { role, pattern } => {
            assert_eq!(role, PatternRole::Subtitle);
            assert_eq!(pattern, r"S(\d{2}");
        }
        _ => panic!("expected an invalid-pattern error"),
    }
}

#[test]
fn test_invalid_video_pattern_error() {
    let err = plan_with(Some(r"S(\d{2})"), Some(r"S(\d{2}"), "srt", "mkv", &[])
        .err()
        .unwrap();
    match err {
        ConfigError::InvalidPattern { role, pattern } => {
            assert_eq!(role, PatternRole::Video);
            assert_eq!(pattern, r"S(\d{2}");
        }
        _ => panic!("expected an invalid-pattern error"),
    }
}

#[test]
fn test_directory_not_found_error() {
    let files: Vec<String> = Vec::new();
    let err = build_and_plan(
        Some(r"S(\d{2})".to_string()),
        None,
        "srt",
        "mkv",
        "missing".to_string(),
        false,
        false,
        false,
        false,
        false,
        &files,
    )
    .err()
    .unwrap();
    match err {
        ConfigError::DirectoryNotFound { path } => assert_eq!(path, "missing"),
        _ => panic!("expected a directory-not-found error"),
    }
}

#[test]
fn test_single_pattern_serves_both_roles() {
    // Only the subtitle pattern is given; the video role falls back to it.
    let (cfg, plan) = plan_with(
        Some(r"S(\d{2})E\d{2}"),
        None,
        "srt",
        "mkv",
        &["Show.S01E05.mkv", "sub.S01E05.srt"],
    )
    .unwrap();
    assert_eq!(cfg.video_pattern, r"S(\d{2})E\d{2}");
    assert_eq!(plan.video_count, 1);
    assert_eq!(plan.operations.len(), 1);
}

#[test]
fn test_upper_case_extension_is_recognised() {
    let (_, plan) = plan_with(
        Some(r"S(\d{2})E\d{2}"),
        None,
        "srt",
        "mkv",
        &["Show.S01E05.MKV", "sub.S01E05.SRT"],
    )
    .unwrap();
    assert_eq!(plan.subtitle_count, 1);
    assert_eq!(plan.video_count, 1);
    assert_eq!(plan.operations[0].to, "Show.S01E05.srt");
}

#[test]
fn test_overlapping_extension_sets_prefer_subtitles() {
    let (_, plan) = plan_with(
        Some(r"S(\d{2})E\d{2}"),
        None,
        "mkv",
        "mkv",
        &["Show.S01E05.mkv"],
    )
    .unwrap();
    assert_eq!(plan.subtitle_count, 1);
    assert_eq!(plan.video_count, 0);
}

#[test]
fn test_unrecognised_extension_is_dropped() {
    let (_, plan) = plan_with(
        Some(r"S(\d{2})E\d{2}"),
        None,
        "srt",
        "mkv",
        &["Show.S01E05.nfo", "README", "Show.S01E05.mkv"],
    )
    .unwrap();
    assert_eq!(plan.subtitle_count, 0);
    assert_eq!(plan.video_count, 1);
}

#[test]
fn test_last_video_wins_on_duplicate_identifier() {
    let (_, plan) = plan_with(
        Some(r"S(\d{2})E\d{2}"),
        None,
        "srt",
        "mkv",
        &["First.S01E05.mkv", "Second.S01E05.mkv", "sub.S01E05.srt"],
    )
    .unwrap();
    assert_eq!(plan.operations.len(), 1);
    assert_eq!(plan.operations[0].to, "Second.S01E05.srt");
}
