use sub_renamer::pattern::try_extract_episode_id;

fn extract(pattern: &str, file_name: &str) -> Option<String> {
    try_extract_episode_id(pattern, file_name).expect("pattern should compile")
}

#[test]
fn test_extract_episode_id() {
    let episode_id1 = extract(r"S(\d{2})E\d{2}", "Show.S01E05.1080p.mkv");
    assert_eq!(episode_id1, Some("01".to_string()));

    let episode_id2 = extract(r"(S\d{2}E\d{2})", "Show.S01E05.1080p.mkv");
    assert_eq!(episode_id2, Some("S01E05".to_string()));

    // With several capture groups only the first one is taken.
    let episode_id3 = extract(r"S(\d{2})E(\d{2})", "Show.S01E05.1080p.mkv");
    assert_eq!(episode_id3, Some("01".to_string()));
}

#[test]
fn test_extract_episode_id_various_formats() {
    let test_cases = vec![
        // (regex, filename, expected_result)
        (r"(S\d{2}E\d{2})", "Show.S01E05.1080p.mkv", Some("S01E05")),
        (r"(\d{1,2}x\d{2})", "Show.1x05.1080p.mkv", Some("1x05")),
        (r"Episode\.(\d+)", "Show.Episode.5.mkv", Some("5")),
        (r"Ep(\d+)", "Show.Ep05.mkv", Some("05")),
        (r"(S\d{2}E\d{2})", "Show.no.match.mkv", None),
    ];

    for (regex_str, filename, expected) in test_cases {
        let episode_id = extract(regex_str, filename);
        assert_eq!(
            episode_id,
            expected.map(|s| s.to_string()),
            "Failed for regex '{}' and filename '{}'",
            regex_str,
            filename
        );
    }
}

#[test]
fn test_extract_is_deterministic() {
    let first = try_extract_episode_id(r"S(\d{2})E\d{2}", "Show.S01E05.mkv");
    let second = try_extract_episode_id(r"S(\d{2})E\d{2}", "Show.S01E05.mkv");
    assert_eq!(first, second);
}

#[test]
fn test_extract_with_invalid_pattern() {
    assert_eq!(try_extract_episode_id(r"S(\d{2}", "Show.S01E05.mkv"), None);
}

#[test]
fn test_extract_without_capture_group() {
    // A match without any capture group yields no identifier.
    assert_eq!(extract(r"S\d{2}E\d{2}", "Show.S01E05.mkv"), None);
}
